use verusid_core::identity::{
    eligibility_failure, eligible_identity, format_identity_name, formatted_eligible_identity,
    formatted_login_identity, identity_exists, identity_ready, is_identity_name,
    processed_identities, qualifying_identities, qualifying_identity, transform_fully_qualified_name,
    EligibleIdentity, FormattedIdentity, IdentityDetails, IdentityEntry, QualifyingIdentity,
};
use verusid_core::rpc::VerusRpcError;

fn text(s: &str) -> Option<String> {
    Some(s.to_string())
}

fn details(name: &str, private: Option<&str>) -> IdentityDetails {
    IdentityDetails {
        name: text(name),
        identityaddress: Some(format!("i{}", name)),
        privateaddress: private.map(|p| p.to_string()),
        parent: text("iSystem"),
        systemid: text("iSystem"),
    }
}

fn entry(name: &str, private: Option<&str>, spend: Option<bool>, sign: Option<bool>) -> IdentityEntry {
    IdentityEntry { identity: Some(details(name, private)), canspendfor: spend, cansignfor: sign }
}

#[test]
fn drops_the_chain_component() {
    assert_eq!(transform_fully_qualified_name("JohnGomez.parent.VRSCTEST@"), "JohnGomez.parent@");
    assert_eq!(transform_fully_qualified_name("JohnGomez.VRSCTEST@"), "JohnGomez@");
}

#[test]
fn keeps_names_without_a_dot_or_an_at() {
    assert_eq!(transform_fully_qualified_name("JohnGomez@"), "JohnGomez@");
    assert_eq!(transform_fully_qualified_name("JohnGomez.VRSCTEST"), "JohnGomez.VRSCTEST");
    assert_eq!(transform_fully_qualified_name(""), "");
    assert_eq!(transform_fully_qualified_name("@"), "@");
}

#[test]
fn cuts_at_the_last_at_sign() {
    assert_eq!(transform_fully_qualified_name("a.b@c.d@"), "a.b@c@");
    assert_eq!(transform_fully_qualified_name("a.b@tail"), "a@");
    assert_eq!(transform_fully_qualified_name(".VRSC@"), "@");
    assert_eq!(transform_fully_qualified_name("Zoë.ñandú.VRSC@"), "Zoë.ñandú@");
    assert_eq!(transform_fully_qualified_name("a@b.c"), "a@b.c");
}

#[test]
fn an_identity_name_ends_in_at_and_holds_more() {
    assert!(is_identity_name("alice@"));
    assert!(is_identity_name("a@"));
    assert!(is_identity_name("alice.parent@"));
    assert!(is_identity_name("@@"));
    assert!(is_identity_name("é@"));
    assert!(!is_identity_name("@"));
    assert!(!is_identity_name(""));
    assert!(!is_identity_name("alice"));
    assert!(!is_identity_name("alice@ "));
    assert!(!is_identity_name("@alice"));
}

#[test]
fn names_are_shown_with_their_parent() {
    assert_eq!(format_identity_name("alice", None), "alice@");
    assert_eq!(format_identity_name("alice", Some("family")), "alice.family@");
    assert_eq!(format_identity_name("", None), "@");
    assert_eq!(format_identity_name("", Some("")), ".@");
}

#[test]
fn an_entry_qualifies_with_addresses_and_both_permissions() {
    let good = entry("alice", Some("zs1alice"), Some(true), Some(true));
    assert_eq!(
        qualifying_identity(&good),
        Some(QualifyingIdentity { i_address: "ialice".to_string(), private_address: "zs1alice".to_string() })
    );
    assert_eq!(qualifying_identity(&entry("a", Some("zs1"), Some(true), Some(false))), None);
    assert_eq!(qualifying_identity(&entry("a", Some("zs1"), Some(false), Some(true))), None);
    assert_eq!(qualifying_identity(&entry("a", Some("zs1"), None, Some(true))), None);
    assert_eq!(qualifying_identity(&entry("a", Some("zs1"), Some(true), None)), None);
    assert_eq!(qualifying_identity(&entry("a", Some(""), Some(true), Some(true))), None);
    assert_eq!(qualifying_identity(&entry("a", None, Some(true), Some(true))), None);
    let no_identity = IdentityEntry { identity: None, canspendfor: Some(true), cansignfor: Some(true) };
    assert_eq!(qualifying_identity(&no_identity), None);
    let mut no_address = entry("a", Some("zs1"), Some(true), Some(true));
    no_address.identity.as_mut().unwrap().identityaddress = None;
    assert_eq!(qualifying_identity(&no_address), None);
    // Name, parent and system play no part.
    let mut bare = entry("a", Some("zs1"), Some(true), Some(true));
    bare.identity.as_mut().unwrap().name = None;
    bare.identity.as_mut().unwrap().parent = None;
    bare.identity.as_mut().unwrap().systemid = None;
    assert!(qualifying_identity(&bare).is_some());
}

#[test]
fn the_qualifying_identities_keep_their_order() {
    let entries = vec![
        entry("carol", Some("zs1carol"), Some(true), Some(true)),
        entry("mallory", Some("zs1m"), Some(false), Some(true)),
        entry("alice", Some("zs1alice"), Some(true), Some(true)),
        entry("nobody", None, Some(true), Some(true)),
        entry("bob", Some("zs1bob"), Some(true), Some(true)),
    ];
    let selected = qualifying_identities(&entries).unwrap();
    let addresses: Vec<&str> = selected.iter().map(|q| q.i_address.as_str()).collect();
    assert_eq!(addresses, vec!["icarol", "ialice", "ibob"]);
    assert_eq!(selected[1].private_address, "zs1alice");
}

#[test]
fn no_qualifying_identity_is_a_failure() {
    let expected = VerusRpcError::Rpc {
        code: -1,
        message: "No eligible VerusIDs found. Identities must have private addresses and spending/signing permissions.".to_string(),
    };
    assert_eq!(qualifying_identities(&Vec::new()), Err(expected));
    let entries = vec![entry("mallory", Some("zs1m"), Some(false), Some(true))];
    assert!(matches!(qualifying_identities(&entries), Err(VerusRpcError::Rpc { code: -1, .. })));
}

#[test]
fn a_login_identity_is_shown_without_the_chain() {
    let identity = QualifyingIdentity { i_address: "ialice".to_string(), private_address: "zs1alice".to_string() };
    assert_eq!(
        formatted_login_identity(&identity, "alice.family.VRSCTEST@"),
        FormattedIdentity {
            formatted_name: "alice.family@".to_string(),
            i_address: "ialice".to_string(),
            private_address: "zs1alice".to_string(),
            balance: None,
        }
    );
}

#[test]
fn no_processed_identity_is_a_failure() {
    assert_eq!(
        processed_identities(Vec::new()),
        Err(VerusRpcError::Rpc { code: -1, message: "Failed to process identity names.".to_string() })
    );
    let identity = QualifyingIdentity { i_address: "i".to_string(), private_address: "z".to_string() };
    let list = vec![formatted_login_identity(&identity, "a.V@")];
    let same = vec![formatted_login_identity(&identity, "a.V@")];
    assert_eq!(processed_identities(list), Ok(same));
}

#[test]
fn an_identity_is_eligible_with_all_its_parts() {
    let top = Some(details("alice", Some("zs1alice")));
    assert_eq!(
        eligible_identity(&top),
        Ok(EligibleIdentity {
            name: "alice".to_string(),
            i_address: "ialice".to_string(),
            private_address: "zs1alice".to_string(),
            parent: None,
        })
    );
    let mut sub = details("bob", Some("zs1bob"));
    sub.parent = text("iFamily");
    assert_eq!(eligible_identity(&Some(sub)).unwrap().parent, text("iFamily"));
}

#[test]
fn an_identity_with_a_part_missing_is_not_eligible() {
    let missing = Err(VerusRpcError::NotFoundOrIneligible);
    assert_eq!(eligible_identity(&None), missing);
    assert_eq!(eligible_identity(&Some(details("a", None))), missing);
    assert_eq!(eligible_identity(&Some(details("a", Some("")))), missing);
    for part in 0..4 {
        let mut d = details("a", Some("zs1"));
        match part {
            0 => d.name = None,
            1 => d.identityaddress = None,
            2 => d.parent = None,
            _ => d.systemid = None,
        }
        assert_eq!(eligible_identity(&Some(d)), missing);
    }
}

#[test]
fn an_eligible_identity_is_shown_under_its_parent() {
    let top = EligibleIdentity {
        name: "alice".to_string(),
        i_address: "ialice".to_string(),
        private_address: "zs1alice".to_string(),
        parent: None,
    };
    assert_eq!(formatted_eligible_identity(&top, None).formatted_name, "alice@");
    assert_eq!(formatted_eligible_identity(&top, Some("ignored")).formatted_name, "alice@");
    let sub = EligibleIdentity { parent: text("iFamily"), ..formatted_copy(&top) };
    let shown = formatted_eligible_identity(&sub, Some("family"));
    assert_eq!(shown.formatted_name, "alice.family@");
    assert_eq!(shown.i_address, "ialice");
    assert_eq!(shown.private_address, "zs1alice");
    assert_eq!(shown.balance, None);
    assert_eq!(formatted_eligible_identity(&sub, None).formatted_name, "alice@");
}

fn formatted_copy(e: &EligibleIdentity) -> EligibleIdentity {
    EligibleIdentity {
        name: e.name.clone(),
        i_address: e.i_address.clone(),
        private_address: e.private_address.clone(),
        parent: e.parent.clone(),
    }
}

fn rpc(code: i64) -> VerusRpcError {
    VerusRpcError::Rpc { code, message: "Identity not found".to_string() }
}

#[test]
fn a_lookup_tells_whether_an_identity_exists() {
    assert_eq!(identity_exists(Ok(())), Ok(true));
    assert_eq!(identity_exists(Err(rpc(-5))), Ok(false));
    assert_eq!(identity_exists(Err(rpc(-8))), Ok(false));
    assert_eq!(
        identity_exists(Err(VerusRpcError::ParseError("HTTP 500 Internal Server Error".to_string()))),
        Ok(false)
    );
    assert_eq!(identity_exists(Err(rpc(-1))), Err(rpc(-1)));
    assert_eq!(
        identity_exists(Err(VerusRpcError::ParseError("bad json".to_string()))),
        Err(VerusRpcError::ParseError("bad json".to_string()))
    );
    assert_eq!(
        identity_exists(Err(VerusRpcError::Transport("refused".to_string()))),
        Err(VerusRpcError::Transport("refused".to_string()))
    );
}

#[test]
fn a_lookup_tells_whether_an_identity_is_ready() {
    assert_eq!(identity_ready(Ok(())), Ok(true));
    assert_eq!(identity_ready(Err(rpc(-5))), Ok(false));
    assert_eq!(identity_ready(Err(rpc(-8))), Err(rpc(-8)));
    assert_eq!(
        identity_ready(Err(VerusRpcError::ParseError("500 Internal Server Error".to_string()))),
        Ok(false)
    );
    assert_eq!(identity_ready(Err(VerusRpcError::InvalidFormat)), Err(VerusRpcError::InvalidFormat));
}

#[test]
fn a_failed_lookup_is_reported_as_not_found_where_it_means_so() {
    assert_eq!(eligibility_failure(rpc(-5)), VerusRpcError::NotFoundOrIneligible);
    assert_eq!(eligibility_failure(rpc(-8)), VerusRpcError::NotFoundOrIneligible);
    assert_eq!(
        eligibility_failure(VerusRpcError::ParseError("got 500 Internal Server Error from node".to_string())),
        VerusRpcError::NotFoundOrIneligible
    );
    assert_eq!(eligibility_failure(rpc(-32601)), rpc(-32601));
    assert_eq!(
        eligibility_failure(VerusRpcError::Transport("timeout".to_string())),
        VerusRpcError::Transport("timeout".to_string())
    );
    assert_eq!(eligibility_failure(VerusRpcError::InvalidFormat), VerusRpcError::InvalidFormat);
}
