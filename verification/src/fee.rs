//! The currency in which a namespace takes its registration fee.
//!
//! A definition's import fee doubles as an indicator. Counted in units of 10^-8, the values
//! 0 to 9 are no fee at all: they name, by position, the reserve of the namespace in which the
//! registration fee is paid. Any other value leaves the fee in the namespace's own currency.

use vstd::prelude::*;
use vstd::string::*;
use crate::currency::{
    BestCurrencyStateView, CurrencyDefinition, CurrencyDefinitionView, CurrencyInfo,
    CurrencyInfoView, GetCurrencyResponse, GetCurrencyResponseView, NamespaceOption,
    NamespaceOptionView,
};

verus! {

/// The greatest import fee, in units of 10^-8, that is read as the position of a reserve.
pub const MAX_RESERVE_INDEX: i64 = 9;

/// What an import fee says about the currency of the registration fee.
#[derive(Debug, Clone, Copy, PartialEq, Eq, Structural)]
pub enum FeeCurrency {
    /// The fee is paid in the namespace's own currency.
    Own,
    /// The fee is paid in the reserve at this position of the namespace's reserve list.
    Reserve(usize),
}

/// Reads an import fee, in units of 10^-8, as a fee indicator.
pub open spec fn fee_currency_of(idimportfees: int) -> FeeCurrency {
    if 0 <= idimportfees <= MAX_RESERVE_INDEX {
        FeeCurrency::Reserve(idimportfees as usize)
    } else {
        FeeCurrency::Own
    }
}

/// Reads an import fee, in units of 10^-8, as a fee indicator.
pub fn decode_fee(idimportfees: i64) -> (indicator: FeeCurrency)
    ensures
        indicator == fee_currency_of(idimportfees as int),
{
    if 0 <= idimportfees && idimportfees <= MAX_RESERVE_INDEX {
        FeeCurrency::Reserve(idimportfees as usize)
    } else {
        FeeCurrency::Own
    }
}

/// The decimal digit for `index`, which is at most 9.
pub open spec fn digit(index: int) -> char {
    if index == 0 {
        '0'
    } else if index == 1 {
        '1'
    } else if index == 2 {
        '2'
    } else if index == 3 {
        '3'
    } else if index == 4 {
        '4'
    } else if index == 5 {
        '5'
    } else if index == 6 {
        '6'
    } else if index == 7 {
        '7'
    } else if index == 8 {
        '8'
    } else {
        '9'
    }
}

/// The name that marks a reserve whose identifier the name table does not hold.
pub open spec fn unknown_name(index: int) -> Seq<char> {
    "Unknown_"@.push(digit(index))
}

/// The name that marks a position beyond the end of the reserve list.
pub open spec fn invalid_index_name(index: int) -> Seq<char> {
    "InvalidIndex_"@.push(digit(index))
}

/// The name of the reserve at position `index`, as far as the detail lookup resolves it, and
/// else the marker that says what was missing: the name table, the state, the reserve list,
/// the position in the list, or the entry of the table.
pub open spec fn reserve_name(details: GetCurrencyResponseView, index: int) -> Seq<char> {
    match details.currencynames {
        None => "UnknownCurrency"@,
        Some(names) => match details.bestcurrencystate {
            None => "UnknownReserve"@,
            Some(state) => match state.reservecurrencies {
                None => "NoReserves"@,
                Some(reserves) => if index < reserves.len() {
                    if names.contains_key(reserves[index].currencyid) {
                        names[reserves[index].currencyid]
                    } else {
                        unknown_name(index)
                    }
                } else {
                    invalid_index_name(index)
                },
            },
        },
    }
}

/// The name of the currency in which the namespace `definition` takes its registration fee.
pub open spec fn fee_currency_name_of(
    definition: CurrencyDefinitionView,
    details: GetCurrencyResponseView,
) -> Seq<char> {
    match fee_currency_of(definition.idimportfees) {
        FeeCurrency::Own => definition.name,
        FeeCurrency::Reserve(index) => reserve_name(details, index as int),
    }
}

/// The namespace option for the candidate `info` whose detail lookup gave `details`.
pub open spec fn resolved_option(
    info: CurrencyInfoView,
    details: GetCurrencyResponseView,
) -> NamespaceOptionView {
    NamespaceOptionView {
        name: info.currencydefinition.name,
        currency_id: info.currencydefinition.currencyid,
        registration_fee: info.currencydefinition.idregistrationfees,
        fully_qualified_name: info.currencydefinition.fullyqualifiedname,
        fee_currency_name: fee_currency_name_of(info.currencydefinition, details),
        options: info.currencydefinition.options,
        id_referral_levels: info.currencydefinition.idreferrallevels,
    }
}

/// Whether the name table of a detail lookup, if it has one, holds no empty name.
pub open spec fn names_nonempty(details: GetCurrencyResponseView) -> bool {
    details.currencynames matches Some(names) ==> forall|id: Seq<char>|
        names.contains_key(id) ==> (#[trigger] names[id]).len() > 0
}

/// The name of the fee currency is never empty, for a namespace that has a name and a name
/// table without empty names.
pub proof fn lemma_fee_currency_name_nonempty(
    definition: CurrencyDefinitionView,
    details: GetCurrencyResponseView,
)
    requires
        definition.name.len() > 0,
        names_nonempty(details),
    ensures
        fee_currency_name_of(definition, details).len() > 0,
{
    reveal_strlit("UnknownCurrency");
    reveal_strlit("UnknownReserve");
    reveal_strlit("NoReserves");
}

fn digit_text(index: usize) -> (text: &'static str)
    requires
        index <= 9,
    ensures
        text@ == seq![digit(index as int)],
{
    proof {
        reveal_strlit("0");
        reveal_strlit("1");
        reveal_strlit("2");
        reveal_strlit("3");
        reveal_strlit("4");
        reveal_strlit("5");
        reveal_strlit("6");
        reveal_strlit("7");
        reveal_strlit("8");
        reveal_strlit("9");
    }
    let text = if index == 0 {
        "0"
    } else if index == 1 {
        "1"
    } else if index == 2 {
        "2"
    } else if index == 3 {
        "3"
    } else if index == 4 {
        "4"
    } else if index == 5 {
        "5"
    } else if index == 6 {
        "6"
    } else if index == 7 {
        "7"
    } else if index == 8 {
        "8"
    } else {
        "9"
    };
    assert(text@ =~= seq![digit(index as int)]);
    text
}

fn marker(prefix: &str, index: usize) -> (name: String)
    requires
        index <= 9,
    ensures
        name@ == prefix@.push(digit(index as int)),
{
    let mut name = prefix.to_owned();
    name.append(digit_text(index));
    assert(name@ =~= prefix@.push(digit(index as int)));
    name
}

/// Resolves the name of the reserve at position `index` from what the detail lookup gave.
fn resolve_reserve_name(details: &GetCurrencyResponse, index: usize) -> (name: String)
    requires
        index <= MAX_RESERVE_INDEX,
    ensures
        name@ == reserve_name(details@, index as int),
{
    match &details.currencynames {
        None => "UnknownCurrency".to_owned(),
        Some(names) => match &details.bestcurrencystate {
            None => "UnknownReserve".to_owned(),
            Some(state) => match &state.reservecurrencies {
                None => "NoReserves".to_owned(),
                Some(reserves) => {
                    if index < reserves.len() {
                        match names.get(reserves[index].currencyid.as_str()) {
                            Some(name) => name.clone(),
                            None => marker("Unknown_", index),
                        }
                    } else {
                        marker("InvalidIndex_", index)
                    }
                },
            },
        },
    }
}

/// Resolves the name of the currency in which a namespace takes its registration fee.
pub fn fee_currency_name(definition: &CurrencyDefinition, details: &GetCurrencyResponse) -> (name:
    String)
    ensures
        name@ == fee_currency_name_of(definition@, details@),
{
    match decode_fee(definition.idimportfees) {
        FeeCurrency::Own => definition.name.clone(),
        FeeCurrency::Reserve(index) => resolve_reserve_name(details, index),
    }
}

/// Builds the namespace option of a candidate from the answer of its detail lookup.
pub fn resolve_namespace_fee_currency(
    currency_info: &CurrencyInfo,
    currency_details: &GetCurrencyResponse,
) -> (option: NamespaceOption)
    ensures
        option@ == resolved_option(currency_info@, currency_details@),
{
    let definition = &currency_info.currencydefinition;
    NamespaceOption {
        name: definition.name.clone(),
        currency_id: definition.currencyid.clone(),
        registration_fee: definition.idregistrationfees,
        fully_qualified_name: definition.fullyqualifiedname.clone(),
        fee_currency_name: fee_currency_name(definition, currency_details),
        options: definition.options,
        id_referral_levels: definition.idreferrallevels,
    }
}

} // verus!
