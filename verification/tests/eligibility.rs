use verusid_core::currency::{BestCurrencyState, CurrencyDefinition, CurrencyInfo, ReserveCurrency, COIN};
use verusid_core::eligibility::{
    filter_eligible, is_eligible, NAMESPACE_OPTIONS, NAMESPACE_OPTIONS_WITH_REFERRALS,
    PROOF_PROTOCOL_RESERVED,
};

fn definition(name: &str, options: u32, proofprotocol: u32) -> CurrencyDefinition {
    CurrencyDefinition {
        name: name.to_string(),
        currencyid: format!("i{}", name),
        parent: None,
        systemid: "iSystem".to_string(),
        options,
        proofprotocol,
        idregistrationfees: 100 * COIN,
        idimportfees: 2_000_000,
        idreferrallevels: 3,
        fullyqualifiedname: format!("{}.VRSC", name),
    }
}

fn reserve(currencyid: &str, reserves: i64) -> ReserveCurrency {
    ReserveCurrency { currencyid: currencyid.to_string(), weight: COIN / 2, reserves, priceinreserve: COIN }
}

fn state(reserves: Option<Vec<ReserveCurrency>>) -> BestCurrencyState {
    BestCurrencyState { currencyid: "iState".to_string(), reservecurrencies: reserves }
}

#[test]
fn the_constants_have_their_values() {
    assert_eq!(NAMESPACE_OPTIONS, 33);
    assert_eq!(NAMESPACE_OPTIONS_WITH_REFERRALS, 41);
    assert_eq!(PROOF_PROTOCOL_RESERVED, 1);
    assert_eq!(COIN, 100_000_000);
}

#[test]
fn admits_both_flag_combinations_with_live_reserves() {
    let live = state(Some(vec![reserve("iA", 5 * COIN), reserve("iB", 1)]));
    assert!(is_eligible(&definition("A", 33, 1), &live));
    assert!(is_eligible(&definition("A", 41, 1), &live));
}

#[test]
fn rejects_other_flags() {
    let live = state(Some(vec![reserve("iA", 5 * COIN)]));
    for options in [0u32, 1, 32, 34, 40, 42, 8, 9, 0x29 | 0x100, u32::MAX] {
        assert!(!is_eligible(&definition("A", options, 1), &live), "options {}", options);
    }
}

#[test]
fn rejects_other_proof_protocols() {
    let live = state(Some(vec![reserve("iA", 5 * COIN)]));
    for protocol in [0u32, 2, 3, u32::MAX] {
        assert!(!is_eligible(&definition("A", 41, protocol), &live));
    }
}

#[test]
fn rejects_missing_and_empty_reserve_lists() {
    assert!(!is_eligible(&definition("A", 41, 1), &state(None)));
    assert!(!is_eligible(&definition("A", 41, 1), &state(Some(vec![]))));
}

#[test]
fn rejects_any_reserve_that_is_not_positive() {
    let zero_last = state(Some(vec![reserve("iA", COIN), reserve("iB", 0)]));
    let zero_first = state(Some(vec![reserve("iA", 0), reserve("iB", COIN)]));
    let negative = state(Some(vec![reserve("iA", COIN), reserve("iB", -1), reserve("iC", COIN)]));
    let lowest = state(Some(vec![reserve("iA", i64::MIN)]));
    assert!(!is_eligible(&definition("A", 33, 1), &zero_last));
    assert!(!is_eligible(&definition("A", 33, 1), &zero_first));
    assert!(!is_eligible(&definition("A", 33, 1), &negative));
    assert!(!is_eligible(&definition("A", 33, 1), &lowest));
    assert!(is_eligible(&definition("A", 33, 1), &state(Some(vec![reserve("iA", i64::MAX)]))));
}

#[test]
fn filter_keeps_the_admitted_in_catalogue_order() {
    let live = || state(Some(vec![reserve("iR", COIN)]));
    let catalog = vec![
        CurrencyInfo { currencydefinition: definition("Zeta", 41, 1), bestcurrencystate: live() },
        CurrencyInfo { currencydefinition: definition("Plain", 32, 1), bestcurrencystate: live() },
        CurrencyInfo { currencydefinition: definition("Alpha", 33, 1), bestcurrencystate: live() },
        CurrencyInfo { currencydefinition: definition("Dry", 41, 1), bestcurrencystate: state(None) },
        CurrencyInfo { currencydefinition: definition("Mid", 41, 1), bestcurrencystate: live() },
    ];
    let kept = filter_eligible(&catalog);
    let names: Vec<&str> = kept.iter().map(|info| info.currencydefinition.name.as_str()).collect();
    assert_eq!(names, vec!["Zeta", "Alpha", "Mid"]);
    assert_eq!(kept[0], catalog[0]);
    assert_eq!(kept[1], catalog[2]);
    assert_eq!(kept[2], catalog[4]);
    assert!(filter_eligible(&Vec::new()).is_empty());
}
