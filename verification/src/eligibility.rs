//! Which currencies of the catalogue can serve as namespaces for identity registration.

use vstd::prelude::*;
use crate::currency::{
    info_views, BestCurrencyState, BestCurrencyStateView, CurrencyDefinition,
    CurrencyDefinitionView, CurrencyInfo, CurrencyInfoView, ReserveCurrencyView,
};

verus! {

/// The flags of a currency that serves as a namespace.
pub const NAMESPACE_OPTIONS: u32 = 33;

/// The flags of a currency that serves as a namespace and takes part in referrals.
pub const NAMESPACE_OPTIONS_WITH_REFERRALS: u32 = 41;

/// The proof protocol of a fully reserved currency that can be converted.
pub const PROOF_PROTOCOL_RESERVED: u32 = 1;

/// Every reserve of the list holds a strictly positive amount.
pub open spec fn all_reserves_positive(reserves: Seq<ReserveCurrencyView>) -> bool {
    forall|i: int| 0 <= i < reserves.len() ==> (#[trigger] reserves[i]).reserves > 0
}

/// A currency is admitted as a namespace when its flags are one of the two accepted
/// combinations, its proof protocol is the reserved one, and it has at least one reserve
/// and no reserve that is empty or negative.
pub open spec fn admits(definition: CurrencyDefinitionView, state: BestCurrencyStateView) -> bool {
    &&& (definition.options == NAMESPACE_OPTIONS || definition.options
        == NAMESPACE_OPTIONS_WITH_REFERRALS)
    &&& definition.proofprotocol == PROOF_PROTOCOL_RESERVED
    &&& state.reservecurrencies is Some
    &&& state.reservecurrencies->0.len() > 0
    &&& all_reserves_positive(state.reservecurrencies->0)
}

/// `admits` on a catalogue entry.
pub open spec fn admits_info(info: CurrencyInfoView) -> bool {
    admits(info.currencydefinition, info.bestcurrencystate)
}

/// The admitted entries of a catalogue, in the catalogue's order.
pub open spec fn admitted(catalog: Seq<CurrencyInfoView>) -> Seq<CurrencyInfoView> {
    catalog.filter(|info: CurrencyInfoView| admits_info(info))
}

/// Decides whether a currency is admitted as a namespace.
pub fn is_eligible(definition: &CurrencyDefinition, state: &BestCurrencyState) -> (eligible: bool)
    ensures
        eligible == admits(definition@, state@),
{
    if !((definition.options == NAMESPACE_OPTIONS || definition.options
        == NAMESPACE_OPTIONS_WITH_REFERRALS) && definition.proofprotocol
        == PROOF_PROTOCOL_RESERVED) {
        return false;
    }
    match &state.reservecurrencies {
        None => false,
        Some(reserves) => {
            if reserves.len() == 0 {
                return false;
            }
            let ghost views = state@.reservecurrencies->0;
            let mut i: usize = 0;
            while i < reserves.len()
                invariant
                    i <= reserves.len(),
                    state@.reservecurrencies == Some(views),
                    views.len() == reserves@.len(),
                    forall|j: int| 0 <= j < reserves@.len() ==> views[j] == reserves@[j]@,
                    forall|j: int| 0 <= j < i ==> (#[trigger] views[j]).reserves > 0,
                decreases reserves.len() - i,
            {
                if reserves[i].reserves <= 0 {
                    assert(!(views[i as int].reserves > 0));
                    return false;
                }
                i += 1;
            }
            true
        },
    }
}

/// Keeps the admitted entries of a catalogue, in the catalogue's order.
pub fn filter_eligible(catalog: &Vec<CurrencyInfo>) -> (candidates: Vec<CurrencyInfo>)
    ensures
        info_views(candidates@) == admitted(info_views(catalog@)),
{
    let ghost views = info_views(catalog@);
    let mut candidates: Vec<CurrencyInfo> = Vec::new();
    let mut i: usize = 0;
    assert(views.take(0) =~= Seq::<CurrencyInfoView>::empty());
    while i < catalog.len()
        invariant
            i <= catalog.len(),
            views == info_views(catalog@),
            info_views(candidates@) == admitted(views.take(i as int)),
        decreases catalog.len() - i,
    {
        let ghost before = info_views(candidates@);
        let info = &catalog[i];
        let keep = is_eligible(&info.currencydefinition, &info.bestcurrencystate);
        if keep {
            candidates.push(info.clone());
        }
        proof {
            assert(views.take(i + 1) =~= views.take(i as int).push(views[i as int]));
            views.take(i as int).lemma_filter_push(
                views[i as int],
                |info: CurrencyInfoView| admits_info(info),
            );
            if keep {
                assert(info_views(candidates@) =~= before.push(views[i as int]));
            } else {
                assert(info_views(candidates@) =~= before);
            }
        }
        i += 1;
    }
    assert(views.take(catalog.len() as int) =~= views);
    candidates
}

} // verus!
