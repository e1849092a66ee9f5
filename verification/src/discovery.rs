//! Namespace discovery as a sequence of decisions.
//!
//! Discovery fetches the catalogue, keeps the currencies that are admitted as namespaces,
//! looks up the details of each candidate group by group, and ends with the namespaces
//! that could be resolved, in order of their names. The calls to the remote service and
//! the pauses are the caller's part: it performs the action that a step hands out, and hands
//! back what came of it as the next event.

use vstd::prelude::*;
use crate::aggregate::{in_name_order, sort_by_name};
use crate::batch::{group_len, group_length, GROUP_PAUSE_MILLIS};
use crate::currency::{
    info_views, option_views, CurrencyInfo, CurrencyInfoView, GetCurrencyResponse,
    GetCurrencyResponseView, NamespaceOption, NamespaceOptionView,
};
use crate::eligibility::{admitted, filter_eligible};
use crate::error::{NamespaceError, NamespaceErrorView};
use crate::fee::{resolve_namespace_fee_currency, resolved_option};

verus! {

/// How far discovery has come.
#[derive(Debug, Clone, Copy, PartialEq, Eq, Structural)]
pub enum Phase {
    /// Nothing has been asked for yet.
    Idle,
    /// The catalogue has been asked for.
    AwaitingCatalog,
    /// The details of the group that starts at candidate `first` have been asked for.
    AwaitingDetails { first: usize },
    /// The groups before candidate `next` have ended; the pause before the next group runs.
    Pausing { next: usize },
    /// Discovery has handed out its namespaces.
    Finished,
    /// Discovery has handed out the failure of the catalogue.
    Failed,
}

/// What has happened since the last action.
pub enum DiscoveryEvent {
    /// The caller is ready to take the first action.
    Started,
    /// The catalogue has arrived, or could not be had.
    CatalogFetched(Result<Vec<CurrencyInfo>, NamespaceError>),
    /// Every lookup of the current group has ended. The outcomes stand in the order of the
    /// group's candidates.
    DetailsFetched(Vec<Result<GetCurrencyResponse, NamespaceError>>),
    /// The pause is over.
    PauseElapsed,
}

/// What a `DiscoveryEvent` holds, as mathematical values.
pub enum DiscoveryEventView {
    Started,
    CatalogFetched(Result<Seq<CurrencyInfoView>, NamespaceErrorView>),
    DetailsFetched(Seq<Option<GetCurrencyResponseView>>),
    PauseElapsed,
}

/// The outcomes of detail lookups as far as discovery reads them: the details of a lookup
/// that succeeded, and nothing of one that failed.
pub open spec fn outcome_views(outcomes: Seq<Result<GetCurrencyResponse, NamespaceError>>) -> Seq<
    Option<GetCurrencyResponseView>,
> {
    Seq::new(
        outcomes.len(),
        |i: int|
            match outcomes[i] {
                Ok(details) => Some(details@),
                Err(_) => None,
            },
    )
}

impl View for DiscoveryEvent {
    type V = DiscoveryEventView;

    open spec fn view(&self) -> DiscoveryEventView {
        match self {
            DiscoveryEvent::Started => DiscoveryEventView::Started,
            DiscoveryEvent::CatalogFetched(Ok(catalog)) => DiscoveryEventView::CatalogFetched(
                Ok(info_views(catalog@)),
            ),
            DiscoveryEvent::CatalogFetched(Err(error)) => DiscoveryEventView::CatalogFetched(
                Err(error@),
            ),
            DiscoveryEvent::DetailsFetched(outcomes) => DiscoveryEventView::DetailsFetched(
                outcome_views(outcomes@),
            ),
            DiscoveryEvent::PauseElapsed => DiscoveryEventView::PauseElapsed,
        }
    }
}

/// What the caller is to do next.
#[derive(Debug, PartialEq, Eq)]
pub enum DiscoveryAction {
    /// Fetch the catalogue of all currencies.
    FetchCatalog,
    /// Look up the details of these currencies, all at once, and wait for every lookup to end.
    FetchDetails { currency_ids: Vec<String> },
    /// Wait for this many milliseconds.
    Pause { millis: u64 },
    /// Discovery is over; these are the namespaces.
    Finish { namespaces: Vec<NamespaceOption> },
    /// Discovery is over; it failed.
    Fail { error: NamespaceError },
    /// The event is not one that the current phase expects. Nothing has changed.
    Reject,
}

/// What a `DiscoveryAction` holds, as mathematical values.
pub enum DiscoveryActionView {
    FetchCatalog,
    FetchDetails { currency_ids: Seq<Seq<char>> },
    Pause { millis: u64 },
    Finish { namespaces: Seq<NamespaceOptionView> },
    Fail { error: NamespaceErrorView },
    Reject,
}

/// The views of a list of strings, in order.
pub open spec fn string_views(strings: Seq<String>) -> Seq<Seq<char>> {
    Seq::new(strings.len(), |i: int| strings[i]@)
}

impl View for DiscoveryAction {
    type V = DiscoveryActionView;

    open spec fn view(&self) -> DiscoveryActionView {
        match self {
            DiscoveryAction::FetchCatalog => DiscoveryActionView::FetchCatalog,
            DiscoveryAction::FetchDetails { currency_ids } => DiscoveryActionView::FetchDetails {
                currency_ids: string_views(currency_ids@),
            },
            DiscoveryAction::Pause { millis } => DiscoveryActionView::Pause { millis: *millis },
            DiscoveryAction::Finish { namespaces } => DiscoveryActionView::Finish {
                namespaces: option_views(namespaces@),
            },
            DiscoveryAction::Fail { error } => DiscoveryActionView::Fail { error: error@ },
            DiscoveryAction::Reject => DiscoveryActionView::Reject,
        }
    }
}

/// The state of a discovery: its phase, the admitted candidates in the order of the
/// catalogue, and the namespaces resolved so far in the order of their candidates.
pub struct DiscoveryView {
    pub phase: Phase,
    pub candidates: Seq<CurrencyInfoView>,
    pub resolved: Seq<NamespaceOptionView>,
}

/// The state before anything has happened.
pub open spec fn initial() -> DiscoveryView {
    DiscoveryView { phase: Phase::Idle, candidates: Seq::empty(), resolved: Seq::empty() }
}

/// The identifiers of the candidates from position `first` on, `len` of them.
pub open spec fn currency_ids(candidates: Seq<CurrencyInfoView>, first: int, len: int) -> Seq<
    Seq<char>,
> {
    Seq::new(len as nat, |i: int| candidates[first + i].currencydefinition.currencyid)
}

/// The namespaces of the candidates whose lookup succeeded, in the order of the candidates.
/// A candidate whose lookup failed leaves no trace.
pub open spec fn resolved_of(
    candidates: Seq<CurrencyInfoView>,
    outcomes: Seq<Option<GetCurrencyResponseView>>,
) -> Seq<NamespaceOptionView>
    decreases candidates.len(),
{
    if candidates.len() == 0 || outcomes.len() != candidates.len() {
        Seq::empty()
    } else {
        let front = resolved_of(candidates.drop_last(), outcomes.drop_last());
        match outcomes.last() {
            Some(details) => front.push(resolved_option(candidates.last(), details)),
            None => front,
        }
    }
}

/// The action that asks for the group that starts at candidate `first`.
pub open spec fn fetch_group(candidates: Seq<CurrencyInfoView>, first: int) -> DiscoveryActionView {
    DiscoveryActionView::FetchDetails {
        currency_ids: currency_ids(candidates, first, group_len(candidates.len() as int, first)),
    }
}

/// The step that discovery takes from `state` on `event`: the state that follows, and the
/// action handed out.
pub open spec fn next(state: DiscoveryView, event: DiscoveryEventView) -> (
    DiscoveryView,
    DiscoveryActionView,
) {
    match (state.phase, event) {
        (Phase::Idle, DiscoveryEventView::Started) => (
            DiscoveryView { phase: Phase::AwaitingCatalog, ..state },
            DiscoveryActionView::FetchCatalog,
        ),
        (Phase::AwaitingCatalog, DiscoveryEventView::CatalogFetched(Err(error))) => (
            DiscoveryView { phase: Phase::Failed, ..state },
            DiscoveryActionView::Fail { error },
        ),
        (Phase::AwaitingCatalog, DiscoveryEventView::CatalogFetched(Ok(catalog))) => {
            let candidates = admitted(catalog);
            if candidates.len() == 0 {
                (
                    DiscoveryView { phase: Phase::Finished, candidates, resolved: Seq::empty() },
                    DiscoveryActionView::Finish { namespaces: Seq::empty() },
                )
            } else {
                (
                    DiscoveryView {
                        phase: Phase::AwaitingDetails { first: 0 },
                        candidates,
                        resolved: Seq::empty(),
                    },
                    fetch_group(candidates, 0),
                )
            }
        },
        (Phase::AwaitingDetails { first }, DiscoveryEventView::DetailsFetched(outcomes)) => {
            let len = group_len(state.candidates.len() as int, first as int);
            if first < state.candidates.len() && outcomes.len() == len {
                let resolved = state.resolved + resolved_of(
                    state.candidates.subrange(first as int, first + len),
                    outcomes,
                );
                if first + len < state.candidates.len() {
                    (
                        DiscoveryView {
                            phase: Phase::Pausing { next: (first + len) as usize },
                            candidates: state.candidates,
                            resolved,
                        },
                        DiscoveryActionView::Pause { millis: GROUP_PAUSE_MILLIS },
                    )
                } else {
                    (
                        DiscoveryView {
                            phase: Phase::Finished,
                            candidates: state.candidates,
                            resolved: Seq::empty(),
                        },
                        DiscoveryActionView::Finish { namespaces: in_name_order(resolved) },
                    )
                }
            } else {
                (state, DiscoveryActionView::Reject)
            }
        },
        (Phase::Pausing { next }, DiscoveryEventView::PauseElapsed) => {
            if next < state.candidates.len() {
                (
                    DiscoveryView { phase: Phase::AwaitingDetails { first: next }, ..state },
                    fetch_group(state.candidates, next as int),
                )
            } else {
                (state, DiscoveryActionView::Reject)
            }
        },
        _ => (state, DiscoveryActionView::Reject),
    }
}

/// A discovery of namespaces in progress.
pub struct NamespaceDiscovery {
    phase: Phase,
    candidates: Vec<CurrencyInfo>,
    resolved: Vec<NamespaceOption>,
}

impl View for NamespaceDiscovery {
    type V = DiscoveryView;

    closed spec fn view(&self) -> DiscoveryView {
        DiscoveryView {
            phase: self.phase,
            candidates: info_views(self.candidates@),
            resolved: option_views(self.resolved@),
        }
    }
}

fn group_ids(candidates: &Vec<CurrencyInfo>, first: usize) -> (ids: Vec<String>)
    ensures
        string_views(ids@) == currency_ids(
            info_views(candidates@),
            first as int,
            group_len(candidates@.len() as int, first as int),
        ),
{
    let len = group_length(candidates.len(), first);
    let mut ids: Vec<String> = Vec::new();
    let mut i: usize = 0;
    while i < len
        invariant
            i <= len,
            len == group_len(candidates.len() as int, first as int),
            ids@.len() == i,
            forall|j: int|
                0 <= j < i ==> (#[trigger] ids@[j])@ == candidates@[first
                    + j]@.currencydefinition.currencyid,
        decreases len - i,
    {
        ids.push(candidates[first + i].currencydefinition.currencyid.clone());
        i += 1;
    }
    assert(string_views(ids@) =~= currency_ids(info_views(candidates@), first as int, len as int));
    ids
}

fn resolve_group(
    candidates: &Vec<CurrencyInfo>,
    first: usize,
    outcomes: &Vec<Result<GetCurrencyResponse, NamespaceError>>,
    resolved: &mut Vec<NamespaceOption>,
)
    requires
        first + outcomes@.len() <= candidates@.len(),
    ensures
        option_views(final(resolved)@) == option_views(old(resolved)@) + resolved_of(
            info_views(candidates@).subrange(first as int, first + outcomes@.len()),
            outcome_views(outcomes@),
        ),
{
    let ghost group = info_views(candidates@).subrange(first as int, first + outcomes@.len());
    let ghost answers = outcome_views(outcomes@);
    let ghost before = option_views(resolved@);
    let mut i: usize = 0;
    assert(option_views(resolved@) =~= before + resolved_of(group.take(0), answers.take(0)));
    while i < outcomes.len()
        invariant
            i <= outcomes@.len(),
            first + outcomes@.len() <= candidates.len(),
            group == info_views(candidates@).subrange(first as int, first + outcomes@.len()),
            answers == outcome_views(outcomes@),
            option_views(resolved@) == before + resolved_of(
                group.take(i as int),
                answers.take(i as int),
            ),
        decreases outcomes@.len() - i,
    {
        let ghost so_far = option_views(resolved@);
        proof {
            assert(group.take(i + 1).drop_last() =~= group.take(i as int));
            assert(answers.take(i + 1).drop_last() =~= answers.take(i as int));
            assert(group.take(i + 1).last() == candidates@[first + i]@);
        }
        match &outcomes[i] {
            Ok(details) => {
                let option = resolve_namespace_fee_currency(&candidates[first + i], details);
                resolved.push(option);
                assert(answers.take(i + 1).last() == Some(details@));
                assert(option_views(resolved@) =~= so_far.push(
                    resolved_option(candidates@[first + i]@, details@),
                ));
                assert(option_views(resolved@) =~= before + resolved_of(
                    group.take(i + 1),
                    answers.take(i + 1),
                ));
            },
            Err(_) => {
                assert(answers.take(i + 1).last() is None);
            },
        }
        i += 1;
    }
    assert(group.take(outcomes@.len() as int) =~= group);
    assert(answers.take(outcomes@.len() as int) =~= answers);
}

impl NamespaceDiscovery {
    #[verifier::type_invariant]
    spec fn well_formed(self) -> bool {
        match self.phase {
            Phase::AwaitingDetails { first } => first < self.candidates@.len(),
            Phase::Pausing { next } => next < self.candidates@.len(),
            _ => true,
        }
    }

    /// A discovery that has not begun.
    pub fn new() -> (discovery: Self)
        ensures
            discovery@ == initial(),
    {
        let discovery = NamespaceDiscovery {
            phase: Phase::Idle,
            candidates: Vec::new(),
            resolved: Vec::new(),
        };
        assert(discovery@.candidates =~= Seq::empty());
        assert(discovery@.resolved =~= Seq::empty());
        discovery
    }

    /// How far the discovery has come.
    pub fn phase(&self) -> (phase: Phase)
        ensures
            phase == self@.phase,
    {
        self.phase
    }

    /// The number of candidates that the catalogue held.
    pub fn candidate_count(&self) -> (count: usize)
        ensures
            count == self@.candidates.len(),
    {
        self.candidates.len()
    }

    /// Takes the step that `event` calls for.
    pub fn step(self, event: DiscoveryEvent) -> (stepped: (Self, DiscoveryAction))
        ensures
            (stepped.0@, stepped.1@) == next(self@, event@),
    {
        proof {
            use_type_invariant(&self);
        }
        let ghost before = self@;
        let NamespaceDiscovery { phase, candidates, resolved } = self;
        match (phase, event) {
            (Phase::Idle, DiscoveryEvent::Started) => (
                NamespaceDiscovery { phase: Phase::AwaitingCatalog, candidates, resolved },
                DiscoveryAction::FetchCatalog,
            ),
            (Phase::AwaitingCatalog, DiscoveryEvent::CatalogFetched(Err(error))) => (
                NamespaceDiscovery { phase: Phase::Failed, candidates, resolved },
                DiscoveryAction::Fail { error },
            ),
            (Phase::AwaitingCatalog, DiscoveryEvent::CatalogFetched(Ok(catalog))) => {
                let admitted = filter_eligible(&catalog);
                let none: Vec<NamespaceOption> = Vec::new();
                assert(option_views(none@) =~= Seq::empty());
                if admitted.len() == 0 {
                    let namespaces: Vec<NamespaceOption> = Vec::new();
                    assert(option_views(namespaces@) =~= Seq::empty());
                    (
                        NamespaceDiscovery {
                            phase: Phase::Finished,
                            candidates: admitted,
                            resolved: none,
                        },
                        DiscoveryAction::Finish { namespaces },
                    )
                } else {
                    let currency_ids = group_ids(&admitted, 0);
                    (
                        NamespaceDiscovery {
                            phase: Phase::AwaitingDetails { first: 0 },
                            candidates: admitted,
                            resolved: none,
                        },
                        DiscoveryAction::FetchDetails { currency_ids },
                    )
                }
            },
            (Phase::AwaitingDetails { first }, DiscoveryEvent::DetailsFetched(outcomes)) => {
                let len = group_length(candidates.len(), first);
                if outcomes.len() == len {
                    let mut resolved = resolved;
                    resolve_group(&candidates, first, &outcomes, &mut resolved);
                    if first + len < candidates.len() {
                        (
                            NamespaceDiscovery {
                                phase: Phase::Pausing { next: first + len },
                                candidates,
                                resolved,
                            },
                            DiscoveryAction::Pause { millis: GROUP_PAUSE_MILLIS },
                        )
                    } else {
                        sort_by_name(&mut resolved);
                        let none: Vec<NamespaceOption> = Vec::new();
                        assert(option_views(none@) =~= Seq::empty());
                        (
                            NamespaceDiscovery { phase: Phase::Finished, candidates, resolved: none },
                            DiscoveryAction::Finish { namespaces: resolved },
                        )
                    }
                } else {
                    (
                        NamespaceDiscovery { phase, candidates, resolved },
                        DiscoveryAction::Reject,
                    )
                }
            },
            (Phase::Pausing { next }, DiscoveryEvent::PauseElapsed) => {
                let currency_ids = group_ids(&candidates, next);
                (
                    NamespaceDiscovery {
                        phase: Phase::AwaitingDetails { first: next },
                        candidates,
                        resolved,
                    },
                    DiscoveryAction::FetchDetails { currency_ids },
                )
            },
            (phase, _) => (
                NamespaceDiscovery { phase, candidates, resolved },
                DiscoveryAction::Reject,
            ),
        }
    }
}

} // verus!
