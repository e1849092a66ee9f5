use verusid_core::currency::{
    BestCurrencyState, CurrencyDefinition, CurrencyInfo, CurrencyNames, GetCurrencyResponse,
    NamespaceOption, ReserveCurrency, COIN,
};
use verusid_core::discovery::{DiscoveryAction, DiscoveryEvent, NamespaceDiscovery, Phase};
use verusid_core::error::NamespaceError;

fn entry(name: &str, options: u32, idimportfees: i64) -> CurrencyInfo {
    CurrencyInfo {
        currencydefinition: CurrencyDefinition {
            name: name.to_string(),
            currencyid: format!("i{}", name),
            parent: None,
            systemid: "iSystem".to_string(),
            options,
            proofprotocol: 1,
            idregistrationfees: 10 * COIN,
            idimportfees,
            idreferrallevels: 1,
            fullyqualifiedname: format!("{}.VRSC", name),
        },
        bestcurrencystate: BestCurrencyState {
            currencyid: format!("i{}", name),
            reservecurrencies: Some(vec![ReserveCurrency {
                currencyid: "R1".to_string(),
                weight: COIN,
                reserves: 3 * COIN,
                priceinreserve: COIN,
            }]),
        },
    }
}

fn answer(name: &str) -> GetCurrencyResponse {
    let mut table = CurrencyNames::new();
    table.insert("R1".to_string(), "Gold".to_string());
    GetCurrencyResponse {
        name: name.to_string(),
        currencyid: format!("i{}", name),
        idregistrationfees: 10 * COIN,
        idimportfees: 0,
        currencynames: Some(table),
        bestcurrencystate: Some(BestCurrencyState {
            currencyid: format!("i{}", name),
            reservecurrencies: Some(vec![ReserveCurrency {
                currencyid: "R1".to_string(),
                weight: COIN,
                reserves: 3 * COIN,
                priceinreserve: COIN,
            }]),
        }),
    }
}

fn failure() -> NamespaceError {
    NamespaceError::Transport { method: "getcurrency".to_string(), detail: "timed out".to_string() }
}

/// What one run of a discovery did: the groups it asked for, the number of pauses, the
/// order of requests and pauses, and how it ended.
struct Run {
    groups: Vec<Vec<String>>,
    pauses: Vec<u64>,
    order: Vec<&'static str>,
    end: Result<Vec<NamespaceOption>, NamespaceError>,
}

/// Drives a discovery to its end. The lookup of a currency fails where `fails` says so.
fn drive(catalog: Result<Vec<CurrencyInfo>, NamespaceError>, fails: &dyn Fn(&str) -> bool) -> Run {
    let mut run = Run { groups: Vec::new(), pauses: Vec::new(), order: Vec::new(), end: Ok(Vec::new()) };
    let mut catalog = Some(catalog);
    let (mut discovery, mut action) = NamespaceDiscovery::new().step(DiscoveryEvent::Started);
    loop {
        let event = match action {
            DiscoveryAction::FetchCatalog => {
                run.order.push("catalog");
                DiscoveryEvent::CatalogFetched(catalog.take().expect("the catalogue is fetched once"))
            }
            DiscoveryAction::FetchDetails { currency_ids } => {
                run.order.push("group");
                let outcomes = currency_ids
                    .iter()
                    .map(|id| if fails(id) { Err(failure()) } else { Ok(answer(&id[1..])) })
                    .collect();
                run.groups.push(currency_ids);
                DiscoveryEvent::DetailsFetched(outcomes)
            }
            DiscoveryAction::Pause { millis } => {
                run.order.push("pause");
                run.pauses.push(millis);
                DiscoveryEvent::PauseElapsed
            }
            DiscoveryAction::Finish { namespaces } => {
                assert_eq!(discovery.phase(), Phase::Finished);
                run.end = Ok(namespaces);
                return run;
            }
            DiscoveryAction::Fail { error } => {
                assert_eq!(discovery.phase(), Phase::Failed);
                run.end = Err(error);
                return run;
            }
            DiscoveryAction::Reject => panic!("the driver sent an event out of turn"),
        };
        let stepped = discovery.step(event);
        discovery = stepped.0;
        action = stepped.1;
    }
}

fn names(options: &[NamespaceOption]) -> Vec<&str> {
    options.iter().map(|o| o.name.as_str()).collect()
}

fn seven() -> Vec<CurrencyInfo> {
    ["golf", "bravo", "echo", "alpha", "foxtrot", "delta", "charlie"]
        .iter()
        .map(|name| entry(name, 41, 2_000_000))
        .collect()
}

#[test]
fn seven_candidates_two_failures() {
    // The third and the sixth candidate fail their lookup.
    let run = drive(Ok(seven()), &|id| id == "iecho" || id == "idelta");
    let namespaces = run.end.unwrap();
    assert_eq!(namespaces.len(), 5);
    assert_eq!(names(&namespaces), vec!["alpha", "bravo", "charlie", "foxtrot", "golf"]);
    assert_eq!(run.groups.len(), 2);
    assert_eq!(run.groups[0], vec!["igolf", "ibravo", "iecho", "ialpha", "ifoxtrot"]);
    assert_eq!(run.groups[1], vec!["idelta", "icharlie"]);
    assert_eq!(run.pauses, vec![100]);
    assert_eq!(run.order, vec!["catalog", "group", "pause", "group"]);
    for option in &namespaces {
        assert_eq!(option.fee_currency_name, option.name);
        assert_eq!(option.options, 41);
    }
}

#[test]
fn as_many_groups_as_the_candidates_need() {
    for n in 0..=16usize {
        let catalog: Vec<CurrencyInfo> =
            (0..n).map(|i| entry(&format!("ns{:02}", i), 33, 2_000_000)).collect();
        let run = drive(Ok(catalog), &|_| false);
        let groups = (n + 4) / 5;
        assert_eq!(run.groups.len(), groups, "{} candidates", n);
        assert_eq!(run.pauses.len(), groups.saturating_sub(1));
        let mut expected_order = vec!["catalog"];
        for k in 0..groups {
            if k > 0 {
                expected_order.push("pause");
            }
            expected_order.push("group");
        }
        assert_eq!(run.order, expected_order);
        let asked: Vec<String> = run.groups.iter().flatten().cloned().collect();
        let expected: Vec<String> = (0..n).map(|i| format!("ins{:02}", i)).collect();
        assert_eq!(asked, expected);
        for (k, group) in run.groups.iter().enumerate() {
            assert_eq!(group.len(), if k + 1 < groups { 5 } else { n - 5 * k });
        }
        assert_eq!(run.end.unwrap().len(), n);
    }
}

#[test]
fn a_failed_lookup_drops_its_candidate_only() {
    let all = drive(Ok(seven()), &|_| false).end.unwrap();
    assert_eq!(all.len(), 7);
    for gone in seven() {
        let id = gone.currencydefinition.currencyid.clone();
        let without = drive(Ok(seven()), &|i| i == id).end.unwrap();
        assert_eq!(without.len(), 6);
        let expected: Vec<NamespaceOption> =
            all.iter().filter(|o| o.currency_id != id).cloned().collect();
        assert_eq!(without, expected);
    }
}

#[test]
fn the_output_shrinks_by_the_number_of_failures() {
    for mask in 0u32..128 {
        let run = drive(Ok(seven()), &|id| {
            let at = seven().iter().position(|c| c.currencydefinition.currencyid == id).unwrap();
            mask & (1 << at) != 0
        });
        assert_eq!(run.groups.len(), 2);
        assert_eq!(run.end.unwrap().len(), 7 - mask.count_ones() as usize);
    }
}

#[test]
fn all_lookups_failing_is_an_empty_success() {
    let run = drive(Ok(seven()), &|_| true);
    assert_eq!(run.end, Ok(Vec::new()));
    assert_eq!(run.groups.len(), 2);
}

#[test]
fn no_admitted_candidate_is_an_empty_success_without_lookups() {
    let run = drive(Ok(Vec::new()), &|_| false);
    assert_eq!(run.end, Ok(Vec::new()));
    assert!(run.groups.is_empty());
    assert!(run.pauses.is_empty());
    let none_admitted = vec![entry("plain", 32, 0), entry("other", 0, 0)];
    let run = drive(Ok(none_admitted), &|_| false);
    assert_eq!(run.end, Ok(Vec::new()));
    assert_eq!(run.order, vec!["catalog"]);
}

#[test]
fn a_failed_catalogue_fails_the_discovery() {
    let error = NamespaceError::Transport {
        method: "listcurrencies".to_string(),
        detail: "connection refused".to_string(),
    };
    let run = drive(Err(error.clone()), &|_| false);
    assert_eq!(run.end, Err(error));
    assert_eq!(run.order, vec!["catalog"]);
    let shape = NamespaceError::ShapeMismatch { subject: "currencies".to_string(), detail: "not an array".to_string() };
    assert_eq!(drive(Err(shape.clone()), &|_| false).end, Err(shape));
}

#[test]
fn only_admitted_currencies_are_looked_up() {
    let catalog = vec![
        entry("kept1", 41, 2_000_000),
        entry("plain", 32, 2_000_000),
        entry("kept2", 33, 2_000_000),
    ];
    let run = drive(Ok(catalog), &|_| false);
    assert_eq!(run.groups, vec![vec!["ikept1".to_string(), "ikept2".to_string()]]);
    assert_eq!(names(&run.end.unwrap()), vec!["kept1", "kept2"]);
}

#[test]
fn two_runs_on_the_same_answers_agree() {
    let fails = |id: &str| id == "ibravo";
    let first = drive(Ok(seven()), &fails);
    let second = drive(Ok(seven()), &fails);
    assert_eq!(first.end, second.end);
    assert_eq!(first.groups, second.groups);
    assert_eq!(first.order, second.order);
    assert_eq!(format!("{:?}", first.end), format!("{:?}", second.end));
}

#[test]
fn the_output_ascends_strictly_by_name() {
    let run = drive(Ok(seven()), &|_| false);
    let namespaces = run.end.unwrap();
    for pair in namespaces.windows(2) {
        assert!(pair[0].name < pair[1].name);
    }
}

#[test]
fn candidates_of_one_name_keep_their_order() {
    let mut first = entry("same", 41, 2_000_000);
    first.currencydefinition.currencyid = "ifirst".to_string();
    let mut second = entry("same", 41, 2_000_000);
    second.currencydefinition.currencyid = "isecond".to_string();
    let run = drive(Ok(vec![entry("zulu", 41, 2_000_000), first, second, entry("alpha", 41, 2_000_000)]), &|_| false);
    let ids: Vec<String> = run.end.unwrap().into_iter().map(|o| o.currency_id).collect();
    assert_eq!(ids, vec!["ialpha", "ifirst", "isecond", "izulu"]);
}

#[test]
fn the_fee_currency_is_resolved_through_the_lookup() {
    let run = drive(Ok(vec![entry("X", 41, 0), entry("Y", 41, 3), entry("Z", 41, 50_000)]), &|_| false);
    let namespaces = run.end.unwrap();
    assert_eq!(names(&namespaces), vec!["X", "Y", "Z"]);
    assert_eq!(namespaces[0].fee_currency_name, "Gold");
    assert_eq!(namespaces[1].fee_currency_name, "InvalidIndex_3");
    assert_eq!(namespaces[2].fee_currency_name, "Z");
}

#[test]
fn events_out_of_turn_are_rejected_and_change_nothing() {
    let discovery = NamespaceDiscovery::new();
    assert_eq!(discovery.phase(), Phase::Idle);
    let (discovery, action) = discovery.step(DiscoveryEvent::PauseElapsed);
    assert_eq!(action, DiscoveryAction::Reject);
    assert_eq!(discovery.phase(), Phase::Idle);
    let (discovery, action) = discovery.step(DiscoveryEvent::DetailsFetched(Vec::new()));
    assert_eq!(action, DiscoveryAction::Reject);
    let (discovery, action) = discovery.step(DiscoveryEvent::Started);
    assert_eq!(action, DiscoveryAction::FetchCatalog);
    assert_eq!(discovery.phase(), Phase::AwaitingCatalog);
    let (discovery, action) = discovery.step(DiscoveryEvent::Started);
    assert_eq!(action, DiscoveryAction::Reject);
    assert_eq!(discovery.phase(), Phase::AwaitingCatalog);
    let (discovery, action) = discovery.step(DiscoveryEvent::CatalogFetched(Ok(seven())));
    assert!(matches!(action, DiscoveryAction::FetchDetails { .. }));
    assert_eq!(discovery.phase(), Phase::AwaitingDetails { first: 0 });
    assert_eq!(discovery.candidate_count(), 7);
    // A group that is not complete is not accepted.
    let (discovery, action) = discovery.step(DiscoveryEvent::DetailsFetched(vec![Ok(answer("golf"))]));
    assert_eq!(action, DiscoveryAction::Reject);
    assert_eq!(discovery.phase(), Phase::AwaitingDetails { first: 0 });
    let (discovery, action) = discovery.step(DiscoveryEvent::PauseElapsed);
    assert_eq!(action, DiscoveryAction::Reject);
    let full: Vec<Result<GetCurrencyResponse, NamespaceError>> = (0..5).map(|_| Err(failure())).collect();
    let (discovery, action) = discovery.step(DiscoveryEvent::DetailsFetched(full));
    assert_eq!(action, DiscoveryAction::Pause { millis: 100 });
    assert_eq!(discovery.phase(), Phase::Pausing { next: 5 });
    // The next group does not start before the pause is over.
    let (discovery, action) = discovery.step(DiscoveryEvent::DetailsFetched(Vec::new()));
    assert_eq!(action, DiscoveryAction::Reject);
    assert_eq!(discovery.phase(), Phase::Pausing { next: 5 });
    let (discovery, action) = discovery.step(DiscoveryEvent::PauseElapsed);
    assert_eq!(
        action,
        DiscoveryAction::FetchDetails { currency_ids: vec!["idelta".to_string(), "icharlie".to_string()] }
    );
    let (discovery, action) =
        discovery.step(DiscoveryEvent::DetailsFetched(vec![Ok(answer("delta")), Err(failure())]));
    match action {
        DiscoveryAction::Finish { namespaces } => assert_eq!(names(&namespaces), vec!["delta"]),
        other => panic!("unexpected action {:?}", other),
    }
    assert_eq!(discovery.phase(), Phase::Finished);
    let (discovery, action) = discovery.step(DiscoveryEvent::Started);
    assert_eq!(action, DiscoveryAction::Reject);
    assert_eq!(discovery.phase(), Phase::Finished);
}
