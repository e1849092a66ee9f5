//! What a whole discovery does: the actions it takes when the caller answers each of them,
//! and the namespaces it ends with.

use vstd::prelude::*;
use crate::aggregate::{
    distinct_names, in_name_order, lemma_distinct_names_strictly_ascending,
    lemma_in_name_order_len, lemma_in_name_order_members, lemma_in_name_order_permutes,
    lemma_in_name_order_sorted, lemma_in_name_order_without, sorted_by_name,
    strictly_ascending_by_name,
};
use crate::batch::{group_count, group_len, group_start, lemma_groups_cover, GROUP_PAUSE_MILLIS, GROUP_SIZE};
use crate::currency::{
    info_views, CurrencyInfo, CurrencyInfoView, GetCurrencyResponse, GetCurrencyResponseView,
    NamespaceOptionView,
};
use crate::discovery::{
    fetch_group, initial, next, outcome_views, resolved_of, DiscoveryActionView,
    DiscoveryEventView, DiscoveryView, Phase,
};
use crate::error::NamespaceError;
use crate::eligibility::{admits_info, admitted};
use crate::fee::resolved_option;

verus! {

/// The namespaces that discovery ends with, for a catalogue and the outcome of the detail
/// lookup of each admitted candidate (`None` where the lookup failed): those of the
/// candidates whose lookup succeeded, in order of their names.
pub open spec fn discovered(
    catalog: Seq<CurrencyInfoView>,
    outcomes: Seq<Option<GetCurrencyResponseView>>,
) -> Seq<NamespaceOptionView> {
    in_name_order(resolved_of(admitted(catalog), outcomes))
}

/// The number of lookups that failed.
pub open spec fn failures(outcomes: Seq<Option<GetCurrencyResponseView>>) -> nat {
    outcomes.filter(|outcome: Option<GetCurrencyResponseView>| outcome is None).len()
}

/// A bound on the number of steps that a discovery in `state` still takes.
pub open spec fn steps_left(state: DiscoveryView) -> int {
    match state.phase {
        Phase::AwaitingDetails { first } => 2 * (state.candidates.len() - first),
        Phase::Pausing { next } => 2 * (state.candidates.len() - next) + 1,
        _ => 0,
    }
}

/// The actions that a discovery takes from `state` on, when the caller answers each request
/// for a group with the outcomes of that group's candidates and each pause with its end.
pub open spec fn actions_from(
    state: DiscoveryView,
    outcomes: Seq<Option<GetCurrencyResponseView>>,
) -> Seq<DiscoveryActionView>
    decreases steps_left(state),
{
    let candidates = state.candidates.len() as int;
    if outcomes.len() != candidates || candidates > usize::MAX {
        Seq::empty()
    } else {
        match state.phase {
            Phase::AwaitingDetails { first } if first < candidates => {
                let len = group_len(candidates, first as int);
                let stepped = next(
                    state,
                    DiscoveryEventView::DetailsFetched(outcomes.subrange(first as int, first + len)),
                );
                seq![stepped.1] + actions_from(stepped.0, outcomes)
            },
            Phase::Pausing { next: at } if at < candidates => {
                let stepped = next(state, DiscoveryEventView::PauseElapsed);
                seq![stepped.1] + actions_from(stepped.0, outcomes)
            },
            _ => Seq::empty(),
        }
    }
}

/// The actions of a whole discovery, from its start to its end, for a catalogue that
/// arrives and the outcome of the detail lookup of each admitted candidate.
pub open spec fn run(
    catalog: Seq<CurrencyInfoView>,
    outcomes: Seq<Option<GetCurrencyResponseView>>,
) -> Seq<DiscoveryActionView> {
    let started = next(initial(), DiscoveryEventView::Started);
    let fetched = next(started.0, DiscoveryEventView::CatalogFetched(Ok(catalog)));
    seq![started.1, fetched.1] + actions_from(fetched.0, outcomes)
}

/// The namespaces of two runs of candidates, one after the other, are those of the first
/// run followed by those of the second.
pub proof fn lemma_resolved_of_concat(
    c1: Seq<CurrencyInfoView>,
    o1: Seq<Option<GetCurrencyResponseView>>,
    c2: Seq<CurrencyInfoView>,
    o2: Seq<Option<GetCurrencyResponseView>>,
)
    requires
        c1.len() == o1.len(),
        c2.len() == o2.len(),
    ensures
        resolved_of(c1 + c2, o1 + o2) == resolved_of(c1, o1) + resolved_of(c2, o2),
    decreases c2.len(),
{
    if c2.len() == 0 {
        assert(c1 + c2 =~= c1);
        assert(o1 + o2 =~= o1);
        assert(resolved_of(c1, o1) + resolved_of(c2, o2) =~= resolved_of(c1, o1));
    } else {
        assert((c1 + c2).drop_last() =~= c1 + c2.drop_last());
        assert((o1 + o2).drop_last() =~= o1 + o2.drop_last());
        assert((c1 + c2).last() == c2.last());
        assert((o1 + o2).last() == o2.last());
        lemma_resolved_of_concat(c1, o1, c2.drop_last(), o2.drop_last());
        let front = resolved_of(c1, o1) + resolved_of(c2.drop_last(), o2.drop_last());
        match o2.last() {
            Some(details) => {
                let option = resolved_option(c2.last(), details);
                assert(front.push(option) =~= resolved_of(c1, o1) + resolved_of(
                    c2.drop_last(),
                    o2.drop_last(),
                ).push(option));
            },
            None => {},
        }
    }
}

/// Every candidate gives one namespace, but for those whose lookup failed.
pub proof fn lemma_resolved_of_len(
    candidates: Seq<CurrencyInfoView>,
    outcomes: Seq<Option<GetCurrencyResponseView>>,
)
    requires
        candidates.len() == outcomes.len(),
    ensures
        resolved_of(candidates, outcomes).len() == candidates.len() - failures(outcomes),
    decreases candidates.len(),
{
    let failed = |outcome: Option<GetCurrencyResponseView>| outcome is None;
    if candidates.len() == 0 {
        outcomes.lemma_filter_len(failed);
    } else {
        lemma_resolved_of_len(candidates.drop_last(), outcomes.drop_last());
        outcomes.drop_last().lemma_filter_push(outcomes.last(), failed);
        assert(outcomes.drop_last().push(outcomes.last()) =~= outcomes);
    }
}

/// The names of the namespaces are names of candidates: where no two candidates share a
/// name, no two namespaces do.
pub proof fn lemma_resolved_of_names(
    candidates: Seq<CurrencyInfoView>,
    outcomes: Seq<Option<GetCurrencyResponseView>>,
)
    requires
        candidates.len() == outcomes.len(),
    ensures
        forall|k: int|
            0 <= k < resolved_of(candidates, outcomes).len() ==> exists|i: int|
                0 <= i < candidates.len() && (#[trigger] candidates[i]).currencydefinition.name
                    == (#[trigger] resolved_of(candidates, outcomes)[k]).name,
        (forall|i: int, j: int|
            0 <= i < j < candidates.len() ==> (#[trigger] candidates[i]).currencydefinition.name
                != (#[trigger] candidates[j]).currencydefinition.name) ==> distinct_names(
            resolved_of(candidates, outcomes),
        ),
    decreases candidates.len(),
{
    let out = resolved_of(candidates, outcomes);
    if candidates.len() > 0 {
        let rest = candidates.drop_last();
        let front = resolved_of(rest, outcomes.drop_last());
        lemma_resolved_of_names(rest, outcomes.drop_last());
        assert forall|k: int| 0 <= k < out.len() implies exists|i: int|
            0 <= i < candidates.len() && (#[trigger] candidates[i]).currencydefinition.name == (
            #[trigger] out[k]).name by {
            if k < front.len() {
                let i = choose|i: int|
                    0 <= i < rest.len() && (#[trigger] rest[i]).currencydefinition.name == (
                    #[trigger] front[k]).name;
                assert(rest[i] == candidates[i]);
                assert(out[k] == front[k]);
            } else {
                assert(candidates[candidates.len() - 1].currencydefinition.name == out[k].name);
            }
        }
        if forall|i: int, j: int|
            0 <= i < j < candidates.len() ==> (#[trigger] candidates[i]).currencydefinition.name
                != (#[trigger] candidates[j]).currencydefinition.name {
            assert forall|i: int, j: int| 0 <= i < j < rest.len() implies (
            #[trigger] rest[i]).currencydefinition.name != (
            #[trigger] rest[j]).currencydefinition.name by {
                assert(rest[i] == candidates[i] && rest[j] == candidates[j]);
            }
            assert forall|a: int, b: int| 0 <= a < b < out.len() implies (#[trigger] out[a]).name
                != (#[trigger] out[b]).name by {
                assert(out[a] == front[a]);
                if b < front.len() {
                    assert(out[b] == front[b]);
                } else {
                    let i = choose|i: int|
                        0 <= i < rest.len() && (#[trigger] rest[i]).currencydefinition.name == (
                        #[trigger] front[a]).name;
                    assert(rest[i] == candidates[i]);
                    assert(out[b].name == candidates[candidates.len() - 1].currencydefinition.name);
                }
            }
        }
    }
}

/// Every namespace is that of a candidate whose lookup succeeded, built from the details
/// that the lookup gave.
pub proof fn lemma_resolved_of_members(
    candidates: Seq<CurrencyInfoView>,
    outcomes: Seq<Option<GetCurrencyResponseView>>,
    k: int,
) -> (i: int)
    requires
        candidates.len() == outcomes.len(),
        0 <= k < resolved_of(candidates, outcomes).len(),
    ensures
        0 <= i < candidates.len(),
        outcomes[i] is Some,
        resolved_of(candidates, outcomes)[k] == resolved_option(candidates[i], outcomes[i]->0),
    decreases candidates.len(),
{
    let rest = candidates.drop_last();
    let front = resolved_of(rest, outcomes.drop_last());
    if k < front.len() {
        lemma_resolved_of_members(rest, outcomes.drop_last(), k)
    } else {
        candidates.len() - 1
    }
}

/// A lookup that fails in place of one that succeeded takes the namespace of its candidate
/// out of the list, and leaves the others as they stand.
pub proof fn lemma_resolved_of_failure(
    candidates: Seq<CurrencyInfoView>,
    outcomes: Seq<Option<GetCurrencyResponseView>>,
    i: int,
) -> (k: int)
    requires
        candidates.len() == outcomes.len(),
        0 <= i < outcomes.len(),
        outcomes[i] is Some,
    ensures
        0 <= k < resolved_of(candidates, outcomes).len(),
        resolved_of(candidates, outcomes)[k] == resolved_option(candidates[i], outcomes[i]->0),
        resolved_of(candidates, outcomes.update(i, None)) == resolved_of(candidates, outcomes).remove(
            k,
        ),
    decreases candidates.len(),
{
    let rest = candidates.drop_last();
    let front = resolved_of(rest, outcomes.drop_last());
    let changed = outcomes.update(i, None);
    if i == candidates.len() - 1 {
        assert(changed.drop_last() =~= outcomes.drop_last());
        assert(front.push(resolved_option(candidates[i], outcomes[i]->0)).remove(
            front.len() as int,
        ) =~= front);
        front.len() as int
    } else {
        let k = lemma_resolved_of_failure(rest, outcomes.drop_last(), i);
        assert(changed.drop_last() =~= outcomes.drop_last().update(i, None));
        assert(changed.last() == outcomes.last());
        match outcomes.last() {
            Some(details) => {
                let option = resolved_option(candidates.last(), details);
                assert(front.remove(k).push(option) =~= front.push(option).remove(k));
            },
            None => {},
        }
        k
    }
}

/// Discovery ends with one namespace for each admitted candidate, but for those whose
/// lookup failed.
pub proof fn lemma_discovered_len(
    catalog: Seq<CurrencyInfoView>,
    outcomes: Seq<Option<GetCurrencyResponseView>>,
)
    requires
        outcomes.len() == admitted(catalog).len(),
    ensures
        discovered(catalog, outcomes).len() == admitted(catalog).len() - failures(outcomes),
{
    lemma_resolved_of_len(admitted(catalog), outcomes);
    lemma_in_name_order_len(resolved_of(admitted(catalog), outcomes));
}

/// Discovery ends with namespaces of admitted candidates only: each one is built from a
/// catalogue entry that is admitted as a namespace and from the details that its lookup gave.
pub proof fn lemma_discovered_from_admitted(
    catalog: Seq<CurrencyInfoView>,
    outcomes: Seq<Option<GetCurrencyResponseView>>,
    k: int,
) -> (i: int)
    requires
        outcomes.len() == admitted(catalog).len(),
        0 <= k < discovered(catalog, outcomes).len(),
    ensures
        0 <= i < admitted(catalog).len(),
        admits_info(admitted(catalog)[i]),
        catalog.contains(admitted(catalog)[i]),
        outcomes[i] is Some,
        discovered(catalog, outcomes)[k] == resolved_option(admitted(catalog)[i], outcomes[i]->0),
{
    let candidates = admitted(catalog);
    let resolved = resolved_of(candidates, outcomes);
    lemma_in_name_order_members(resolved, k);
    let at = choose|at: int| 0 <= at < resolved.len() && resolved[at] == discovered(catalog, outcomes)[k];
    let i = lemma_resolved_of_members(candidates, outcomes, at);
    let keep = |info: CurrencyInfoView| admits_info(info);
    catalog.lemma_filter_pred(keep, i);
    assert(candidates.contains(candidates[i]));
    catalog.lemma_filter_contains_rev(keep, candidates[i]);
    i
}

/// The failure of one lookup costs the namespace of its candidate and nothing else: where
/// the lookup of candidate `i` fails in place of succeeding, the list that discovery ends
/// with is the same list without that candidate's namespace, which stood at the position
/// that is returned.
pub proof fn lemma_failure_drops_one(
    catalog: Seq<CurrencyInfoView>,
    outcomes: Seq<Option<GetCurrencyResponseView>>,
    i: int,
) -> (k: int)
    requires
        outcomes.len() == admitted(catalog).len(),
        0 <= i < outcomes.len(),
        outcomes[i] is Some,
    ensures
        0 <= k < discovered(catalog, outcomes).len(),
        discovered(catalog, outcomes)[k] == resolved_option(admitted(catalog)[i], outcomes[i]->0),
        discovered(catalog, outcomes.update(i, None)) == discovered(catalog, outcomes).remove(k),
{
    let at = lemma_resolved_of_failure(admitted(catalog), outcomes, i);
    lemma_in_name_order_without(resolved_of(admitted(catalog), outcomes), at)
}

/// Discovery ends with a list that is sorted by name and holds the namespaces of the
/// candidates whose lookup succeeded, each as often as it was resolved.
pub proof fn lemma_discovered_sorted(
    catalog: Seq<CurrencyInfoView>,
    outcomes: Seq<Option<GetCurrencyResponseView>>,
)
    ensures
        sorted_by_name(discovered(catalog, outcomes)),
        discovered(catalog, outcomes).to_multiset() == resolved_of(
            admitted(catalog),
            outcomes,
        ).to_multiset(),
{
    lemma_in_name_order_sorted(resolved_of(admitted(catalog), outcomes));
    lemma_in_name_order_permutes(resolved_of(admitted(catalog), outcomes));
}

/// Where no two admitted candidates share a name, discovery ends with a list that is
/// strictly ascending by name.
pub proof fn lemma_discovered_strictly_ascending(
    catalog: Seq<CurrencyInfoView>,
    outcomes: Seq<Option<GetCurrencyResponseView>>,
)
    requires
        outcomes.len() == admitted(catalog).len(),
        forall|i: int, j: int|
            0 <= i < j < admitted(catalog).len() ==> (#[trigger] admitted(
                catalog,
            )[i]).currencydefinition.name != (#[trigger] admitted(
                catalog,
            )[j]).currencydefinition.name,
    ensures
        strictly_ascending_by_name(discovered(catalog, outcomes)),
{
    lemma_resolved_of_names(admitted(catalog), outcomes);
    lemma_distinct_names_strictly_ascending(resolved_of(admitted(catalog), outcomes));
}

/// The state in which the group that starts at candidate `first` has been asked for, and
/// every group before it has ended.
spec fn awaiting_group(
    candidates: Seq<CurrencyInfoView>,
    outcomes: Seq<Option<GetCurrencyResponseView>>,
    first: int,
) -> DiscoveryView {
    DiscoveryView {
        phase: Phase::AwaitingDetails { first: first as usize },
        candidates,
        resolved: resolved_of(candidates.take(first), outcomes.take(first)),
    }
}

/// Whether `actions` is what remains to be done once group `group` has been asked for: a
/// pause and the request for the next group, for each group that is left, and then the end
/// with `namespaces`.
spec fn is_rest_of_schedule(
    actions: Seq<DiscoveryActionView>,
    candidates: Seq<CurrencyInfoView>,
    group: int,
    namespaces: Seq<NamespaceOptionView>,
) -> bool {
    let groups = group_count(candidates.len() as int);
    &&& actions.len() == 2 * (groups - group) - 1
    &&& forall|i: int|
        0 <= i < actions.len() - 1 ==> #[trigger] actions[i] == if i % 2 == 0 {
            DiscoveryActionView::Pause { millis: GROUP_PAUSE_MILLIS }
        } else {
            fetch_group(candidates, group_start(group + 1 + i / 2))
        }
    &&& actions.last() == DiscoveryActionView::Finish { namespaces }
}

/// The state in which the groups before candidate `next` have ended and the pause runs.
spec fn pausing_before(
    candidates: Seq<CurrencyInfoView>,
    outcomes: Seq<Option<GetCurrencyResponseView>>,
    next: int,
) -> DiscoveryView {
    DiscoveryView {
        phase: Phase::Pausing { next: next as usize },
        candidates,
        resolved: resolved_of(candidates.take(next), outcomes.take(next)),
    }
}

proof fn lemma_group_ends(
    candidates: Seq<CurrencyInfoView>,
    outcomes: Seq<Option<GetCurrencyResponseView>>,
    group: int,
)
    requires
        candidates.len() == outcomes.len(),
        candidates.len() <= usize::MAX,
        0 <= group < group_count(candidates.len() as int),
    ensures
        ({
            let first = group_start(group);
            let len = group_len(candidates.len() as int, first);
            let stepped = next(
                awaiting_group(candidates, outcomes, first),
                DiscoveryEventView::DetailsFetched(outcomes.subrange(first, first + len)),
            );
            if group + 1 < group_count(candidates.len() as int) {
                &&& stepped.0 == pausing_before(candidates, outcomes, group_start(group + 1))
                &&& stepped.1 == DiscoveryActionView::Pause { millis: GROUP_PAUSE_MILLIS }
            } else {
                &&& stepped.0.phase == Phase::Finished
                &&& stepped.1 == DiscoveryActionView::Finish {
                    namespaces: in_name_order(resolved_of(candidates, outcomes)),
                }
            }
        }),
{
    let n = candidates.len() as int;
    let first = group_start(group);
    let len = group_len(n, first);
    lemma_groups_cover(n, group);
    let state = awaiting_group(candidates, outcomes, first);
    let group_outcomes = outcomes.subrange(first, first + len);
    assert(group_outcomes.len() == len);
    let resolved = state.resolved + resolved_of(
        candidates.subrange(first, first + len),
        group_outcomes,
    );
    assert(resolved == resolved_of(candidates.take(first + len), outcomes.take(first + len))) by {
        lemma_resolved_of_concat(
            candidates.take(first),
            outcomes.take(first),
            candidates.subrange(first, first + len),
            group_outcomes,
        );
        assert(candidates.take(first) + candidates.subrange(first, first + len)
            =~= candidates.take(first + len));
        assert(outcomes.take(first) + group_outcomes =~= outcomes.take(first + len));
    }
    if group + 1 < group_count(n) {
        assert(first + len == group_start(group + 1));
    } else {
        assert(first + len == n);
        assert(candidates.take(n) =~= candidates);
        assert(outcomes.take(n) =~= outcomes);
    }
}

proof fn lemma_pause_ends(
    candidates: Seq<CurrencyInfoView>,
    outcomes: Seq<Option<GetCurrencyResponseView>>,
    group: int,
)
    requires
        candidates.len() == outcomes.len(),
        candidates.len() <= usize::MAX,
        0 < group < group_count(candidates.len() as int),
    ensures
        next(
            pausing_before(candidates, outcomes, group_start(group)),
            DiscoveryEventView::PauseElapsed,
        ) == (
            awaiting_group(candidates, outcomes, group_start(group)),
            fetch_group(candidates, group_start(group)),
        ),
{
    lemma_groups_cover(candidates.len() as int, group);
}

proof fn lemma_actions_from_group(
    candidates: Seq<CurrencyInfoView>,
    outcomes: Seq<Option<GetCurrencyResponseView>>,
    group: int,
)
    requires
        candidates.len() == outcomes.len(),
        candidates.len() <= usize::MAX,
        0 <= group < group_count(candidates.len() as int),
    ensures
        is_rest_of_schedule(
            actions_from(awaiting_group(candidates, outcomes, group_start(group)), outcomes),
            candidates,
            group,
            in_name_order(resolved_of(candidates, outcomes)),
        ),
    decreases group_count(candidates.len() as int) - group,
{
    let n = candidates.len() as int;
    let groups = group_count(n);
    let first = group_start(group);
    let len = group_len(n, first);
    lemma_groups_cover(n, group);
    lemma_group_ends(candidates, outcomes, group);
    let state = awaiting_group(candidates, outcomes, first);
    let stepped = next(
        state,
        DiscoveryEventView::DetailsFetched(outcomes.subrange(first, first + len)),
    );
    let actions = actions_from(state, outcomes);
    assert(actions == seq![stepped.1] + actions_from(stepped.0, outcomes));
    if group + 1 < groups {
        lemma_groups_cover(n, group + 1);
        lemma_pause_ends(candidates, outcomes, group + 1);
        let paused = pausing_before(candidates, outcomes, group_start(group + 1));
        let resumed = next(paused, DiscoveryEventView::PauseElapsed);
        let rest = actions_from(resumed.0, outcomes);
        assert(actions_from(paused, outcomes) == seq![resumed.1] + rest);
        lemma_actions_from_group(candidates, outcomes, group + 1);
        assert(actions =~= seq![stepped.1, resumed.1] + rest);
        assert forall|i: int| 0 <= i < actions.len() - 1 implies #[trigger] actions[i] == if i % 2
            == 0 {
            DiscoveryActionView::Pause { millis: GROUP_PAUSE_MILLIS }
        } else {
            fetch_group(candidates, group_start(group + 1 + i / 2))
        } by {
            if i >= 2 {
                assert(actions[i] == rest[i - 2]);
                assert((i - 2) % 2 == i % 2);
                assert((i - 2) / 2 == i / 2 - 1);
            }
        }
        assert(actions.last() == rest.last());
    } else {
        assert(actions_from(stepped.0, outcomes) =~= Seq::empty());
        assert(actions =~= seq![stepped.1]);
    }
}

/// Whether `actions` is the schedule of a discovery over `candidates` that ends with
/// `namespaces`: the catalogue is fetched; then the groups are asked for one after the
/// other, each holding the next `GROUP_SIZE` candidates and the last one what is left, with
/// a pause between two groups and none before the first or after the last; then discovery
/// ends. There are as many requests for a group as there are groups.
pub open spec fn is_schedule(
    actions: Seq<DiscoveryActionView>,
    candidates: Seq<CurrencyInfoView>,
    namespaces: Seq<NamespaceOptionView>,
) -> bool {
    let groups = group_count(candidates.len() as int);
    &&& actions.len() == if groups == 0 {
        2
    } else {
        2 * groups + 1
    }
    &&& actions[0] == DiscoveryActionView::FetchCatalog
    &&& forall|i: int|
        0 < i < actions.len() - 1 ==> #[trigger] actions[i] == if i % 2 == 1 {
            fetch_group(candidates, group_start(i / 2))
        } else {
            DiscoveryActionView::Pause { millis: GROUP_PAUSE_MILLIS }
        }
    &&& actions.last() == DiscoveryActionView::Finish { namespaces }
}

/// A discovery whose catalogue arrives follows the schedule for the admitted candidates, and
/// ends with the namespaces that `discovered` names. The same catalogue and the same
/// outcomes of the lookups thus give the same actions and the same list.
pub proof fn lemma_run_follows_schedule(
    catalog: Seq<CurrencyInfoView>,
    outcomes: Seq<Option<GetCurrencyResponseView>>,
)
    requires
        outcomes.len() == admitted(catalog).len(),
        admitted(catalog).len() <= usize::MAX,
    ensures
        is_schedule(run(catalog, outcomes), admitted(catalog), discovered(catalog, outcomes)),
{
    let candidates = admitted(catalog);
    let n = candidates.len() as int;
    let started = next(initial(), DiscoveryEventView::Started);
    let fetched = next(started.0, DiscoveryEventView::CatalogFetched(Ok(catalog)));
    let rest = actions_from(fetched.0, outcomes);
    let actions = run(catalog, outcomes);
    if n == 0 {
        assert(rest =~= Seq::empty());
        assert(actions =~= seq![started.1, fetched.1]);
        assert(resolved_of(candidates, outcomes) =~= Seq::empty());
        assert(in_name_order(Seq::<NamespaceOptionView>::empty()) =~= Seq::empty());
    } else {
        assert(candidates.take(0) =~= Seq::empty());
        assert(fetched.0 == awaiting_group(candidates, outcomes, group_start(0)));
        lemma_actions_from_group(candidates, outcomes, 0);
        assert forall|i: int| 0 < i < actions.len() - 1 implies #[trigger] actions[i] == if i % 2
            == 1 {
            fetch_group(candidates, group_start(i / 2))
        } else {
            DiscoveryActionView::Pause { millis: GROUP_PAUSE_MILLIS }
        } by {
            if i >= 2 {
                assert(actions[i] == rest[i - 2]);
                assert((i - 2) % 2 == i % 2);
                assert((i - 2) / 2 == i / 2 - 1);
            }
        }
        assert(actions.last() == rest.last());
    }
}

/// Discovery is repeatable. Two discoveries whose catalogues hold the same entries and
/// whose lookups end alike, with the same details where they succeed and with a failure of
/// whatever kind where they fail, take the same actions and end with the same list.
pub proof fn lemma_discovery_repeatable(
    catalog: Seq<CurrencyInfo>,
    outcomes: Seq<Result<GetCurrencyResponse, NamespaceError>>,
    catalog_again: Seq<CurrencyInfo>,
    outcomes_again: Seq<Result<GetCurrencyResponse, NamespaceError>>,
)
    requires
        info_views(catalog) == info_views(catalog_again),
        outcome_views(outcomes) == outcome_views(outcomes_again),
    ensures
        run(info_views(catalog), outcome_views(outcomes)) == run(
            info_views(catalog_again),
            outcome_views(outcomes_again),
        ),
        discovered(info_views(catalog), outcome_views(outcomes)) == discovered(
            info_views(catalog_again),
            outcome_views(outcomes_again),
        ),
{
}

/// No step asks for more than `GROUP_SIZE` lookups at once, and none asks for none.
pub proof fn lemma_requests_bounded(state: DiscoveryView, event: DiscoveryEventView)
    ensures
        next(state, event).1 matches DiscoveryActionView::FetchDetails { currency_ids } ==> 0
            < currency_ids.len() <= GROUP_SIZE,
{
}

/// Groups run one after the other. A request for a group is handed out only when the
/// catalogue arrives or a pause ends; a pause begins only when every lookup of the group
/// before it has ended; and while a group is outstanding, nothing but the outcomes of all
/// its lookups moves the discovery on.
pub proof fn lemma_groups_in_turn(state: DiscoveryView, event: DiscoveryEventView)
    ensures
        next(state, event).1 is FetchDetails ==> (state.phase is AwaitingCatalog && event
            is CatalogFetched) || (state.phase is Pausing && event is PauseElapsed),
        next(state, event).1 is Pause ==> state.phase is AwaitingDetails && event
            is DetailsFetched && event->DetailsFetched_0.len() == group_len(
            state.candidates.len() as int,
            state.phase->first as int,
        ),
        state.phase is AwaitingDetails && !(event is DetailsFetched
            && event->DetailsFetched_0.len() == group_len(
            state.candidates.len() as int,
            state.phase->first as int,
        )) ==> next(state, event) == (state, DiscoveryActionView::Reject),
{
}

} // verus!
