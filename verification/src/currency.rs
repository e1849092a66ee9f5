//! Currency definitions and their state, as the catalogue and the detail lookup report them.
//!
//! Amounts and fractions are fixed-point numbers with eight decimal places. They are held as
//! integers that count units of 10^-8, so that `1_0000_0000` stands for one whole coin.

use vstd::prelude::*;
use vstd::hash_map::StringHashMap;

verus! {

/// Units of 10^-8 in one whole coin.
pub const COIN: i64 = 100_000_000;

/// Snapshot of a currency's definition on the chain.
#[derive(Debug, PartialEq, Eq)]
pub struct CurrencyDefinition {
    pub name: String,
    pub currencyid: String,
    pub parent: Option<String>,
    pub systemid: String,
    pub options: u32,
    pub proofprotocol: u32,
    pub idregistrationfees: i64,
    pub idimportfees: i64,
    pub idreferrallevels: u32,
    pub fullyqualifiedname: String,
}

/// What a `CurrencyDefinition` holds, as mathematical values.
pub struct CurrencyDefinitionView {
    pub name: Seq<char>,
    pub currencyid: Seq<char>,
    pub parent: Option<Seq<char>>,
    pub systemid: Seq<char>,
    pub options: u32,
    pub proofprotocol: u32,
    pub idregistrationfees: int,
    pub idimportfees: int,
    pub idreferrallevels: u32,
    pub fullyqualifiedname: Seq<char>,
}

impl View for CurrencyDefinition {
    type V = CurrencyDefinitionView;

    open spec fn view(&self) -> CurrencyDefinitionView {
        CurrencyDefinitionView {
            name: self.name@,
            currencyid: self.currencyid@,
            parent: match self.parent {
                Some(p) => Some(p@),
                None => None,
            },
            systemid: self.systemid@,
            options: self.options,
            proofprotocol: self.proofprotocol,
            idregistrationfees: self.idregistrationfees as int,
            idimportfees: self.idimportfees as int,
            idreferrallevels: self.idreferrallevels,
            fullyqualifiedname: self.fullyqualifiedname@,
        }
    }
}

impl Clone for CurrencyDefinition {
    fn clone(&self) -> (copy: Self)
        ensures
            copy@ == self@,
    {
        CurrencyDefinition {
            name: self.name.clone(),
            currencyid: self.currencyid.clone(),
            parent: match &self.parent {
                Some(p) => Some(p.clone()),
                None => None,
            },
            systemid: self.systemid.clone(),
            options: self.options,
            proofprotocol: self.proofprotocol,
            idregistrationfees: self.idregistrationfees,
            idimportfees: self.idimportfees,
            idreferrallevels: self.idreferrallevels,
            fullyqualifiedname: self.fullyqualifiedname.clone(),
        }
    }
}

/// One of the reserves that back a currency. Its place in the owning list is the index by
/// which a fee indicator refers to it.
#[derive(Debug, PartialEq, Eq)]
pub struct ReserveCurrency {
    pub currencyid: String,
    pub weight: i64,
    pub reserves: i64,
    pub priceinreserve: i64,
}

/// What a `ReserveCurrency` holds, as mathematical values.
pub struct ReserveCurrencyView {
    pub currencyid: Seq<char>,
    pub weight: int,
    pub reserves: int,
    pub priceinreserve: int,
}

impl View for ReserveCurrency {
    type V = ReserveCurrencyView;

    open spec fn view(&self) -> ReserveCurrencyView {
        ReserveCurrencyView {
            currencyid: self.currencyid@,
            weight: self.weight as int,
            reserves: self.reserves as int,
            priceinreserve: self.priceinreserve as int,
        }
    }
}

impl Clone for ReserveCurrency {
    fn clone(&self) -> (copy: Self)
        ensures
            copy@ == self@,
    {
        ReserveCurrency {
            currencyid: self.currencyid.clone(),
            weight: self.weight,
            reserves: self.reserves,
            priceinreserve: self.priceinreserve,
        }
    }
}

/// The views of a list of reserves, in order.
pub open spec fn reserve_views(reserves: Seq<ReserveCurrency>) -> Seq<ReserveCurrencyView> {
    Seq::new(reserves.len(), |i: int| reserves[i]@)
}

fn clone_reserves(reserves: &Vec<ReserveCurrency>) -> (copy: Vec<ReserveCurrency>)
    ensures
        reserve_views(copy@) == reserve_views(reserves@),
{
    let mut copy: Vec<ReserveCurrency> = Vec::new();
    let mut i: usize = 0;
    while i < reserves.len()
        invariant
            i <= reserves.len(),
            copy@.len() == i,
            forall|j: int| 0 <= j < i ==> copy@[j]@ == reserves@[j]@,
        decreases reserves.len() - i,
    {
        copy.push(reserves[i].clone());
        i += 1;
    }
    assert(reserve_views(copy@) =~= reserve_views(reserves@));
    copy
}

/// A currency's dynamic state. A currency without reserves reports no list at all.
#[derive(Debug, PartialEq, Eq)]
pub struct BestCurrencyState {
    pub currencyid: String,
    pub reservecurrencies: Option<Vec<ReserveCurrency>>,
}

/// What a `BestCurrencyState` holds, as mathematical values.
pub struct BestCurrencyStateView {
    pub currencyid: Seq<char>,
    pub reservecurrencies: Option<Seq<ReserveCurrencyView>>,
}

impl View for BestCurrencyState {
    type V = BestCurrencyStateView;

    open spec fn view(&self) -> BestCurrencyStateView {
        BestCurrencyStateView {
            currencyid: self.currencyid@,
            reservecurrencies: match self.reservecurrencies {
                Some(reserves) => Some(reserve_views(reserves@)),
                None => None,
            },
        }
    }
}

impl Clone for BestCurrencyState {
    fn clone(&self) -> (copy: Self)
        ensures
            copy@ == self@,
    {
        BestCurrencyState {
            currencyid: self.currencyid.clone(),
            reservecurrencies: match &self.reservecurrencies {
                Some(reserves) => Some(clone_reserves(reserves)),
                None => None,
            },
        }
    }
}

/// One entry of the catalogue: a definition with its state.
#[derive(Debug, PartialEq, Eq)]
pub struct CurrencyInfo {
    pub currencydefinition: CurrencyDefinition,
    pub bestcurrencystate: BestCurrencyState,
}

/// What a `CurrencyInfo` holds, as mathematical values.
pub struct CurrencyInfoView {
    pub currencydefinition: CurrencyDefinitionView,
    pub bestcurrencystate: BestCurrencyStateView,
}

impl View for CurrencyInfo {
    type V = CurrencyInfoView;

    open spec fn view(&self) -> CurrencyInfoView {
        CurrencyInfoView {
            currencydefinition: self.currencydefinition@,
            bestcurrencystate: self.bestcurrencystate@,
        }
    }
}

impl Clone for CurrencyInfo {
    fn clone(&self) -> (copy: Self)
        ensures
            copy@ == self@,
    {
        CurrencyInfo {
            currencydefinition: self.currencydefinition.clone(),
            bestcurrencystate: self.bestcurrencystate.clone(),
        }
    }
}

/// The views of a list of catalogue entries, in order.
pub open spec fn info_views(infos: Seq<CurrencyInfo>) -> Seq<CurrencyInfoView> {
    Seq::new(infos.len(), |i: int| infos[i]@)
}

/// The table by which a detail lookup resolves currency identifiers to display names.
pub struct CurrencyNames {
    names: StringHashMap<String>,
}

impl View for CurrencyNames {
    type V = Map<Seq<char>, Seq<char>>;

    closed spec fn view(&self) -> Map<Seq<char>, Seq<char>> {
        self.names@.map_values(|name: String| name@)
    }
}

impl CurrencyNames {
    /// A table without entries.
    pub fn new() -> (table: Self)
        ensures
            table@ == Map::<Seq<char>, Seq<char>>::empty(),
    {
        let table = CurrencyNames { names: StringHashMap::new() };
        assert(table@ =~= Map::<Seq<char>, Seq<char>>::empty());
        table
    }

    /// Records `name` for `currencyid`, in place of any name recorded for it before.
    pub fn insert(&mut self, currencyid: String, name: String)
        ensures
            final(self)@ == old(self)@.insert(currencyid@, name@),
    {
        self.names.insert(currencyid, name);
        assert(self@ =~= old(self)@.insert(currencyid@, name@));
    }

    /// The name recorded for `currencyid`, if there is one.
    pub fn get(&self, currencyid: &str) -> (found: Option<&String>)
        ensures
            match found {
                Some(name) => self@.contains_key(currencyid@) && self@[currencyid@] == name@,
                None => !self@.contains_key(currencyid@),
            },
    {
        self.names.get(currencyid)
    }

    /// The number of entries.
    pub fn len(&self) -> (n: usize)
        ensures
            n == self@.len(),
    {
        broadcast use vstd::hash_map::group_hash_map_axioms;

        let n = self.names.len();
        assert(self@.dom() =~= self.names@.dom());
        n
    }
}

/// What the detail lookup of one currency returns.
pub struct GetCurrencyResponse {
    pub name: String,
    pub currencyid: String,
    pub idregistrationfees: i64,
    pub idimportfees: i64,
    pub currencynames: Option<CurrencyNames>,
    pub bestcurrencystate: Option<BestCurrencyState>,
}

/// What a `GetCurrencyResponse` holds, as mathematical values.
pub struct GetCurrencyResponseView {
    pub name: Seq<char>,
    pub currencyid: Seq<char>,
    pub idregistrationfees: int,
    pub idimportfees: int,
    pub currencynames: Option<Map<Seq<char>, Seq<char>>>,
    pub bestcurrencystate: Option<BestCurrencyStateView>,
}

impl View for GetCurrencyResponse {
    type V = GetCurrencyResponseView;

    open spec fn view(&self) -> GetCurrencyResponseView {
        GetCurrencyResponseView {
            name: self.name@,
            currencyid: self.currencyid@,
            idregistrationfees: self.idregistrationfees as int,
            idimportfees: self.idimportfees as int,
            currencynames: match self.currencynames {
                Some(table) => Some(table@),
                None => None,
            },
            bestcurrencystate: match self.bestcurrencystate {
                Some(state) => Some(state@),
                None => None,
            },
        }
    }
}

/// What the detail lookup of a chain's native currency returns.
#[derive(Debug, PartialEq, Eq)]
pub struct RootCurrencyResponse {
    pub name: String,
    pub currencyid: String,
    pub idregistrationfees: i64,
    pub idreferrallevels: u32,
}

/// What a `RootCurrencyResponse` holds, as mathematical values.
pub struct RootCurrencyResponseView {
    pub name: Seq<char>,
    pub currencyid: Seq<char>,
    pub idregistrationfees: int,
    pub idreferrallevels: u32,
}

impl View for RootCurrencyResponse {
    type V = RootCurrencyResponseView;

    open spec fn view(&self) -> RootCurrencyResponseView {
        RootCurrencyResponseView {
            name: self.name@,
            currencyid: self.currencyid@,
            idregistrationfees: self.idregistrationfees as int,
            idreferrallevels: self.idreferrallevels,
        }
    }
}

/// A namespace under which identities can be registered, with the currency its
/// registration fee is paid in.
#[derive(Debug, PartialEq, Eq)]
pub struct NamespaceOption {
    pub name: String,
    pub currency_id: String,
    pub registration_fee: i64,
    pub fully_qualified_name: String,
    pub fee_currency_name: String,
    pub options: u32,
    pub id_referral_levels: u32,
}

/// What a `NamespaceOption` holds, as mathematical values.
pub struct NamespaceOptionView {
    pub name: Seq<char>,
    pub currency_id: Seq<char>,
    pub registration_fee: int,
    pub fully_qualified_name: Seq<char>,
    pub fee_currency_name: Seq<char>,
    pub options: u32,
    pub id_referral_levels: u32,
}

impl View for NamespaceOption {
    type V = NamespaceOptionView;

    open spec fn view(&self) -> NamespaceOptionView {
        NamespaceOptionView {
            name: self.name@,
            currency_id: self.currency_id@,
            registration_fee: self.registration_fee as int,
            fully_qualified_name: self.fully_qualified_name@,
            fee_currency_name: self.fee_currency_name@,
            options: self.options,
            id_referral_levels: self.id_referral_levels,
        }
    }
}

impl Clone for NamespaceOption {
    fn clone(&self) -> (copy: Self)
        ensures
            copy@ == self@,
    {
        NamespaceOption {
            name: self.name.clone(),
            currency_id: self.currency_id.clone(),
            registration_fee: self.registration_fee,
            fully_qualified_name: self.fully_qualified_name.clone(),
            fee_currency_name: self.fee_currency_name.clone(),
            options: self.options,
            id_referral_levels: self.id_referral_levels,
        }
    }
}

/// The views of a list of namespace options, in order.
pub open spec fn option_views(options: Seq<NamespaceOption>) -> Seq<NamespaceOptionView> {
    Seq::new(options.len(), |i: int| options[i]@)
}

} // verus!
