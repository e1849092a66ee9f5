//! Identities of the wallet: which of them can log in, which one can be written to, and
//! the names under which they are shown.

use vstd::prelude::*;
use vstd::string::*;
use crate::rpc::{
    indicates_not_found, indicates_not_ready, means_not_found, means_not_ready, VerusRpcError,
    VerusRpcErrorView, RPC_CLIENT_FAILURE,
};
use crate::text::{chars_of, last_index_below, last_index_of, lemma_last_index_of, str_eq};

verus! {

/// The view of a string that may be missing.
pub open spec fn text_view(text: Option<String>) -> Option<Seq<char>> {
    match text {
        Some(t) => Some(t@),
        None => None,
    }
}

/// A fully qualified name without its last component: what stands before the last `.` that
/// precedes the last `@`, followed by `@`. A name without `@`, or without a `.` before its
/// last `@`, stays as it is.
pub open spec fn without_last_component(name: Seq<char>) -> Seq<char> {
    match last_index_of(name, '@') {
        None => name,
        Some(at) => match last_index_of(name.take(at), '.') {
            None => name,
            Some(dot) => name.take(dot).push('@'),
        },
    }
}

/// Drops the last component of a fully qualified identity name, the chain's own name:
/// `Jane.parent.VRSCTEST@` becomes `Jane.parent@`.
pub fn transform_fully_qualified_name(fully_qualified_name: &str) -> (formatted: String)
    ensures
        formatted@ == without_last_component(fully_qualified_name@),
{
    let chars = chars_of(fully_qualified_name);
    assert(chars@.take(chars@.len() as int) =~= chars@);
    match last_index_below(&chars, chars.len(), '@') {
        None => fully_qualified_name.to_owned(),
        Some(at) => {
            proof {
                lemma_last_index_of(fully_qualified_name@, '@');
            }
            match last_index_below(&chars, at, '.') {
                None => fully_qualified_name.to_owned(),
                Some(dot) => {
                    proof {
                        lemma_last_index_of(fully_qualified_name@.take(at as int), '.');
                        reveal_strlit("@");
                    }
                    let mut formatted = fully_qualified_name.substring_char(0, dot).to_owned();
                    formatted.append("@");
                    assert(formatted@ =~= fully_qualified_name@.take(dot as int).push('@'));
                    formatted
                },
            }
        },
    }
}

/// Whether a text has the form of an identity's name: it ends in `@` and holds more than
/// that.
pub open spec fn is_name_of_identity(name: Seq<char>) -> bool {
    name.len() > 1 && name.last() == '@'
}

/// Decides whether a text has the form of an identity's name.
pub fn is_identity_name(name: &str) -> (valid: bool)
    ensures
        valid == is_name_of_identity(name@),
{
    let chars = chars_of(name);
    chars.len() > 1 && chars[chars.len() - 1] == '@'
}

/// The name under which an identity is shown: `name@`, and `name.parent@` for an identity
/// under a parent whose name is known.
pub open spec fn identity_name_of(name: Seq<char>, parent_name: Option<Seq<char>>) -> Seq<char> {
    match parent_name {
        Some(parent) => (name.push('.') + parent).push('@'),
        None => name.push('@'),
    }
}

/// Builds the name under which an identity is shown.
pub fn format_identity_name(name: &str, parent_name: Option<&str>) -> (formatted: String)
    ensures
        formatted@ == identity_name_of(
            name@,
            match parent_name {
                Some(parent) => Some(parent@),
                None => None,
            },
        ),
{
    proof {
        reveal_strlit("@");
        reveal_strlit(".");
    }
    let mut formatted = name.to_owned();
    match parent_name {
        Some(parent) => {
            formatted.append(".");
            formatted.append(parent);
            formatted.append("@");
            assert(formatted@ =~= (name@.push('.') + parent@).push('@'));
        },
        None => {
            formatted.append("@");
            assert(formatted@ =~= name@.push('@'));
        },
    }
    formatted
}

/// What the service reports of one identity. Any part of it may be missing.
#[derive(Debug, PartialEq, Eq)]
pub struct IdentityDetails {
    pub name: Option<String>,
    pub identityaddress: Option<String>,
    pub privateaddress: Option<String>,
    pub parent: Option<String>,
    pub systemid: Option<String>,
}

/// What an `IdentityDetails` holds, as mathematical values.
pub struct IdentityDetailsView {
    pub name: Option<Seq<char>>,
    pub identityaddress: Option<Seq<char>>,
    pub privateaddress: Option<Seq<char>>,
    pub parent: Option<Seq<char>>,
    pub systemid: Option<Seq<char>>,
}

impl View for IdentityDetails {
    type V = IdentityDetailsView;

    open spec fn view(&self) -> IdentityDetailsView {
        IdentityDetailsView {
            name: text_view(self.name),
            identityaddress: text_view(self.identityaddress),
            privateaddress: text_view(self.privateaddress),
            parent: text_view(self.parent),
            systemid: text_view(self.systemid),
        }
    }
}

/// One entry of the list of the wallet's identities.
#[derive(Debug, PartialEq, Eq)]
pub struct IdentityEntry {
    pub identity: Option<IdentityDetails>,
    pub canspendfor: Option<bool>,
    pub cansignfor: Option<bool>,
}

/// What an `IdentityEntry` holds, as mathematical values.
pub struct IdentityEntryView {
    pub identity: Option<IdentityDetailsView>,
    pub canspendfor: Option<bool>,
    pub cansignfor: Option<bool>,
}

impl View for IdentityEntry {
    type V = IdentityEntryView;

    open spec fn view(&self) -> IdentityEntryView {
        IdentityEntryView {
            identity: match self.identity {
                Some(details) => Some(details@),
                None => None,
            },
            canspendfor: self.canspendfor,
            cansignfor: self.cansignfor,
        }
    }
}

/// The views of a list of entries, in order.
pub open spec fn entry_views(entries: Seq<IdentityEntry>) -> Seq<IdentityEntryView> {
    Seq::new(entries.len(), |i: int| entries[i]@)
}

/// An identity that can log in: its address and its private address.
#[derive(Debug, PartialEq, Eq)]
pub struct QualifyingIdentity {
    pub i_address: String,
    pub private_address: String,
}

/// What a `QualifyingIdentity` holds, as mathematical values.
pub struct QualifyingIdentityView {
    pub i_address: Seq<char>,
    pub private_address: Seq<char>,
}

impl View for QualifyingIdentity {
    type V = QualifyingIdentityView;

    open spec fn view(&self) -> QualifyingIdentityView {
        QualifyingIdentityView { i_address: self.i_address@, private_address: self.private_address@ }
    }
}

/// The views of a list of identities that can log in, in order.
pub open spec fn qualifying_views(identities: Seq<QualifyingIdentity>) -> Seq<QualifyingIdentityView> {
    Seq::new(identities.len(), |i: int| identities[i]@)
}

/// An identity as the user sees it. The balance counts units of 10^-8 and is missing
/// while it has not been fetched.
#[derive(Debug, PartialEq, Eq)]
pub struct FormattedIdentity {
    pub formatted_name: String,
    pub i_address: String,
    pub private_address: String,
    pub balance: Option<i64>,
}

/// What a `FormattedIdentity` holds, as mathematical values.
pub struct FormattedIdentityView {
    pub formatted_name: Seq<char>,
    pub i_address: Seq<char>,
    pub private_address: Seq<char>,
    pub balance: Option<i64>,
}

impl View for FormattedIdentity {
    type V = FormattedIdentityView;

    open spec fn view(&self) -> FormattedIdentityView {
        FormattedIdentityView {
            formatted_name: self.formatted_name@,
            i_address: self.i_address@,
            private_address: self.private_address@,
            balance: self.balance,
        }
    }
}

/// An entry qualifies for login when it reports an identity with an address and a private
/// address that is not empty, and the wallet can both spend and sign for it.
pub open spec fn qualifies(entry: IdentityEntryView) -> bool {
    &&& entry.identity matches Some(details)
    &&& details.privateaddress matches Some(private)
    &&& private.len() > 0
    &&& details.identityaddress is Some
    &&& entry.canspendfor == Some(true)
    &&& entry.cansignfor == Some(true)
}

/// The identity that a qualifying entry stands for.
pub open spec fn qualifying_of(entry: IdentityEntryView) -> QualifyingIdentityView {
    QualifyingIdentityView {
        i_address: entry.identity->0.identityaddress->0,
        private_address: entry.identity->0.privateaddress->0,
    }
}

/// The identities of the entries that qualify, in the order of the entries.
pub open spec fn qualifying_among(entries: Seq<IdentityEntryView>) -> Seq<QualifyingIdentityView> {
    entries.filter(|entry: IdentityEntryView| qualifies(entry)).map_values(
        |entry: IdentityEntryView| qualifying_of(entry),
    )
}

/// The failure that says that no identity of the wallet can log in.
pub open spec fn no_eligible_identities() -> VerusRpcErrorView {
    VerusRpcErrorView::Rpc {
        code: RPC_CLIENT_FAILURE,
        message: "No eligible VerusIDs found. Identities must have private addresses and spending/signing permissions."@,
    }
}

/// The failure that says that no identity's name could be had.
pub open spec fn no_processed_identities() -> VerusRpcErrorView {
    VerusRpcErrorView::Rpc {
        code: RPC_CLIENT_FAILURE,
        message: "Failed to process identity names."@,
    }
}

/// Decides whether an entry qualifies for login, and gives its identity if it does.
pub fn qualifying_identity(entry: &IdentityEntry) -> (identity: Option<QualifyingIdentity>)
    ensures
        match identity {
            Some(found) => qualifies(entry@) && found@ == qualifying_of(entry@),
            None => !qualifies(entry@),
        },
{
    let can_spend = match entry.canspendfor {
        Some(flag) => flag,
        None => false,
    };
    let can_sign = match entry.cansignfor {
        Some(flag) => flag,
        None => false,
    };
    match &entry.identity {
        Some(details) => match (&details.privateaddress, &details.identityaddress) {
            (Some(private), Some(address)) => {
                if !private.as_str().is_empty() && can_spend && can_sign {
                    Some(
                        QualifyingIdentity {
                            i_address: address.clone(),
                            private_address: private.clone(),
                        },
                    )
                } else {
                    None
                }
            },
            _ => None,
        },
        None => None,
    }
}

/// Selects the identities that can log in, in the order of the entries. That none can is
/// a failure.
pub fn qualifying_identities(entries: &Vec<IdentityEntry>) -> (selected: Result<
    Vec<QualifyingIdentity>,
    VerusRpcError,
>)
    ensures
        match selected {
            Ok(identities) => identities@.len() > 0 && qualifying_views(identities@)
                == qualifying_among(entry_views(entries@)),
            Err(error) => qualifying_among(entry_views(entries@)).len() == 0 && error@
                == no_eligible_identities(),
        },
{
    let ghost views = entry_views(entries@);
    let ghost keep = |entry: IdentityEntryView| qualifies(entry);
    let ghost pick = |entry: IdentityEntryView| qualifying_of(entry);
    let mut identities: Vec<QualifyingIdentity> = Vec::new();
    let mut i: usize = 0;
    proof {
        assert(views.take(0) =~= Seq::<IdentityEntryView>::empty());
        views.take(0).lemma_filter_len(keep);
        assert(qualifying_views(identities@) =~= views.take(0).filter(keep).map_values(pick));
    }
    while i < entries.len()
        invariant
            i <= entries.len(),
            views == entry_views(entries@),
            keep == |entry: IdentityEntryView| qualifies(entry),
            pick == |entry: IdentityEntryView| qualifying_of(entry),
            qualifying_views(identities@) == views.take(i as int).filter(keep).map_values(pick),
        decreases entries.len() - i,
    {
        let ghost before = qualifying_views(identities@);
        let found = qualifying_identity(&entries[i]);
        proof {
            assert(views.take(i + 1) =~= views.take(i as int).push(views[i as int]));
            views.take(i as int).lemma_filter_push(views[i as int], keep);
        }
        match found {
            Some(identity) => {
                identities.push(identity);
                assert(qualifying_views(identities@) =~= before.push(qualifying_of(views[i as int])));
                assert(views.take(i as int).filter(keep).push(views[i as int]).map_values(pick)
                    =~= views.take(i as int).filter(keep).map_values(pick).push(
                    qualifying_of(views[i as int]),
                ));
            },
            None => {},
        }
        i += 1;
    }
    assert(views.take(entries.len() as int) =~= views);
    if identities.len() == 0 {
        Err(
            VerusRpcError::Rpc {
                code: RPC_CLIENT_FAILURE,
                message: "No eligible VerusIDs found. Identities must have private addresses and spending/signing permissions.".to_owned(),
            },
        )
    } else {
        Ok(identities)
    }
}

/// The identity that logs in, under the name made from its fully qualified name. Its
/// balance has not been fetched.
pub fn formatted_login_identity(identity: &QualifyingIdentity, fully_qualified_name: &str) -> (formatted:
    FormattedIdentity)
    ensures
        formatted@ == (FormattedIdentityView {
            formatted_name: without_last_component(fully_qualified_name@),
            i_address: identity@.i_address,
            private_address: identity@.private_address,
            balance: None,
        }),
{
    FormattedIdentity {
        formatted_name: transform_fully_qualified_name(fully_qualified_name),
        i_address: identity.i_address.clone(),
        private_address: identity.private_address.clone(),
        balance: None,
    }
}

/// Passes on the identities whose names could be had. That there is none is a failure.
pub fn processed_identities(formatted: Vec<FormattedIdentity>) -> (processed: Result<
    Vec<FormattedIdentity>,
    VerusRpcError,
>)
    ensures
        match processed {
            Ok(identities) => formatted@.len() > 0 && identities == formatted,
            Err(error) => formatted@.len() == 0 && error@ == no_processed_identities(),
        },
{
    if formatted.len() == 0 {
        Err(
            VerusRpcError::Rpc {
                code: RPC_CLIENT_FAILURE,
                message: "Failed to process identity names.".to_owned(),
            },
        )
    } else {
        Ok(formatted)
    }
}

/// An identity that can be written to. `parent` is the identifier of its parent where the
/// identity stands under one: where its parent is not the chain itself.
#[derive(Debug, PartialEq, Eq)]
pub struct EligibleIdentity {
    pub name: String,
    pub i_address: String,
    pub private_address: String,
    pub parent: Option<String>,
}

/// What an `EligibleIdentity` holds, as mathematical values.
pub struct EligibleIdentityView {
    pub name: Seq<char>,
    pub i_address: Seq<char>,
    pub private_address: Seq<char>,
    pub parent: Option<Seq<char>>,
}

impl View for EligibleIdentity {
    type V = EligibleIdentityView;

    open spec fn view(&self) -> EligibleIdentityView {
        EligibleIdentityView {
            name: self.name@,
            i_address: self.i_address@,
            private_address: self.private_address@,
            parent: text_view(self.parent),
        }
    }
}

/// What was looked up is eligible when it reports an identity with a private address that is
/// not empty, a name, an address, a parent and a system.
pub open spec fn is_eligible_identity(identity: Option<IdentityDetailsView>) -> bool {
    &&& identity matches Some(details)
    &&& details.privateaddress matches Some(private)
    &&& private.len() > 0
    &&& details.name is Some
    &&& details.identityaddress is Some
    &&& details.parent is Some
    &&& details.systemid is Some
}

/// The eligible identity that the details describe.
pub open spec fn eligible_of(details: IdentityDetailsView) -> EligibleIdentityView {
    EligibleIdentityView {
        name: details.name->0,
        i_address: details.identityaddress->0,
        private_address: details.privateaddress->0,
        parent: if details.parent->0 != details.systemid->0 {
            details.parent
        } else {
            None
        },
    }
}

/// Decides whether what was looked up is an identity that can be written to.
pub fn eligible_identity(identity: &Option<IdentityDetails>) -> (eligible: Result<
    EligibleIdentity,
    VerusRpcError,
>)
    ensures
        match eligible {
            Ok(found) => is_eligible_identity(
                match identity {
                    Some(details) => Some(details@),
                    None => None,
                },
            ) && found@ == eligible_of(identity->0@),
            Err(error) => !is_eligible_identity(
                match identity {
                    Some(details) => Some(details@),
                    None => None,
                },
            ) && error@ == VerusRpcErrorView::NotFoundOrIneligible,
        },
{
    match identity {
        Some(details) => match (
            &details.privateaddress,
            &details.name,
            &details.identityaddress,
            &details.parent,
            &details.systemid,
        ) {
            (Some(private), Some(name), Some(address), Some(parent), Some(system)) => {
                if private.as_str().is_empty() {
                    return Err(VerusRpcError::NotFoundOrIneligible);
                }
                let parent = if str_eq(parent.as_str(), system.as_str()) {
                    None
                } else {
                    Some(parent.clone())
                };
                Ok(
                    EligibleIdentity {
                        name: name.clone(),
                        i_address: address.clone(),
                        private_address: private.clone(),
                        parent,
                    },
                )
            },
            _ => Err(VerusRpcError::NotFoundOrIneligible),
        },
        None => Err(VerusRpcError::NotFoundOrIneligible),
    }
}

/// The eligible identity as the user sees it. An identity under a parent carries the
/// parent's name where that could be had. Its balance has not been fetched.
pub fn formatted_eligible_identity(eligible: &EligibleIdentity, parent_name: Option<&str>) -> (formatted:
    FormattedIdentity)
    ensures
        formatted@ == (FormattedIdentityView {
            formatted_name: identity_name_of(
                eligible@.name,
                match (eligible@.parent, parent_name) {
                    (Some(_), Some(parent)) => Some(parent@),
                    _ => None,
                },
            ),
            i_address: eligible@.i_address,
            private_address: eligible@.private_address,
            balance: None,
        }),
{
    let shown_parent = match (&eligible.parent, parent_name) {
        (Some(_), Some(parent)) => Some(parent),
        _ => None,
    };
    FormattedIdentity {
        formatted_name: format_identity_name(eligible.name.as_str(), shown_parent),
        i_address: eligible.i_address.clone(),
        private_address: eligible.private_address.clone(),
        balance: None,
    }
}

/// What the failure of a lookup says to the one who asked for an identity to write to:
/// that there is no such identity where the failure means so, and else the failure itself.
pub fn eligibility_failure(error: VerusRpcError) -> (reported: VerusRpcError)
    ensures
        reported@ == if means_not_found(error@) {
            VerusRpcErrorView::NotFoundOrIneligible
        } else {
            error@
        },
{
    if indicates_not_found(&error) {
        VerusRpcError::NotFoundOrIneligible
    } else {
        error
    }
}

/// Whether an identity exists, from the outcome of its lookup: it does where the lookup
/// succeeded, it does not where the failure means so, and any other failure stands.
pub fn identity_exists(lookup: Result<(), VerusRpcError>) -> (exists: Result<bool, VerusRpcError>)
    ensures
        match lookup {
            Ok(_) => exists == Ok::<bool, VerusRpcError>(true),
            Err(error) => if means_not_found(error@) {
                exists == Ok::<bool, VerusRpcError>(false)
            } else {
                exists == Err::<bool, VerusRpcError>(error)
            },
        },
{
    match lookup {
        Ok(_) => Ok(true),
        Err(error) => {
            if indicates_not_found(&error) {
                Ok(false)
            } else {
                Err(error)
            }
        },
    }
}

/// Whether an identity under registration is there, from the outcome of its lookup: it is
/// where the lookup succeeded, it is not yet where the failure means so, and any other
/// failure stands.
pub fn identity_ready(lookup: Result<(), VerusRpcError>) -> (ready: Result<bool, VerusRpcError>)
    ensures
        match lookup {
            Ok(_) => ready == Ok::<bool, VerusRpcError>(true),
            Err(error) => if means_not_ready(error@) {
                ready == Ok::<bool, VerusRpcError>(false)
            } else {
                ready == Err::<bool, VerusRpcError>(error)
            },
        },
{
    match lookup {
        Ok(_) => Ok(true),
        Err(error) => {
            if indicates_not_ready(&error) {
                Ok(false)
            } else {
                Err(error)
            }
        },
    }
}

} // verus!
