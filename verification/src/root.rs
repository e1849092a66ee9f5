//! The native currency of each known chain, offered as a namespace.

use vstd::prelude::*;
use vstd::string::*;
use crate::currency::{NamespaceOption, NamespaceOptionView, RootCurrencyResponse, RootCurrencyResponseView};
use crate::eligibility::NAMESPACE_OPTIONS_WITH_REFERRALS;
use crate::error::{NamespaceError, NamespaceErrorView};
use crate::text::str_eq;

verus! {

/// The ticker of the native currency of the chain `blockchain_id`, for the chains that are
/// known.
pub open spec fn native_currency_of(blockchain_id: Seq<char>) -> Option<Seq<char>> {
    if blockchain_id == "verus-testnet"@ {
        Some("vrsctest"@)
    } else if blockchain_id == "verus"@ {
        Some("vrsc"@)
    } else if blockchain_id == "chips"@ {
        Some("chips"@)
    } else if blockchain_id == "vdex"@ {
        Some("vdex"@)
    } else if blockchain_id == "varrr"@ {
        Some("varrr"@)
    } else {
        None
    }
}

/// Looks up the ticker by which the native currency of a chain is requested.
pub fn get_currency_name_for_blockchain(blockchain_id: &str) -> (ticker: Option<String>)
    ensures
        match ticker {
            Some(t) => native_currency_of(blockchain_id@) == Some(t@),
            None => native_currency_of(blockchain_id@) is None,
        },
{
    if str_eq(blockchain_id, "verus-testnet") {
        Some("vrsctest".to_owned())
    } else if str_eq(blockchain_id, "verus") {
        Some("vrsc".to_owned())
    } else if str_eq(blockchain_id, "chips") {
        Some("chips".to_owned())
    } else if str_eq(blockchain_id, "vdex") {
        Some("vdex".to_owned())
    } else if str_eq(blockchain_id, "varrr") {
        Some("varrr".to_owned())
    } else {
        None
    }
}

/// What is asked for to resolve the native currency of a chain: the ticker of a known chain,
/// and for any other chain nothing but the failure.
pub open spec fn root_lookup_of(blockchain_id: Seq<char>) -> Result<Seq<char>, NamespaceErrorView> {
    match native_currency_of(blockchain_id) {
        Some(ticker) => Ok(ticker),
        None => Err(NamespaceErrorView::UnsupportedChain { blockchain_id }),
    }
}

/// Decides what to look up for the native currency of a chain. For a chain that is not
/// known there is nothing to look up: the failure is returned at once.
pub fn root_lookup(blockchain_id: &str) -> (lookup: Result<String, NamespaceError>)
    ensures
        match lookup {
            Ok(ticker) => root_lookup_of(blockchain_id@) == Ok::<Seq<char>, NamespaceErrorView>(
                ticker@,
            ),
            Err(error) => root_lookup_of(blockchain_id@) == Err::<Seq<char>, NamespaceErrorView>(
                error@,
            ),
        },
{
    match get_currency_name_for_blockchain(blockchain_id) {
        Some(ticker) => Ok(ticker),
        None => Err(NamespaceError::UnsupportedChain { blockchain_id: blockchain_id.to_owned() }),
    }
}

/// The namespace that a chain's native currency offers: its fee is paid in the currency
/// itself, its qualified name is its name, and it counts as a currency with referrals.
pub open spec fn root_option(response: RootCurrencyResponseView) -> NamespaceOptionView {
    NamespaceOptionView {
        name: response.name,
        currency_id: response.currencyid,
        registration_fee: response.idregistrationfees,
        fully_qualified_name: response.name,
        fee_currency_name: response.name,
        options: NAMESPACE_OPTIONS_WITH_REFERRALS,
        id_referral_levels: response.idreferrallevels,
    }
}

/// Builds the namespace option of a chain's native currency from its detail lookup.
pub fn root_namespace_option(response: &RootCurrencyResponse) -> (option: NamespaceOption)
    ensures
        option@ == root_option(response@),
{
    NamespaceOption {
        name: response.name.clone(),
        currency_id: response.currencyid.clone(),
        registration_fee: response.idregistrationfees,
        fully_qualified_name: response.name.clone(),
        fee_currency_name: response.name.clone(),
        options: NAMESPACE_OPTIONS_WITH_REFERRALS,
        id_referral_levels: response.idreferrallevels,
    }
}

} // verus!
