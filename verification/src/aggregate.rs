//! The final arrangement of the resolved namespaces: ascending by name.
//!
//! Names are compared as strings, code point by code point. Options of equal name keep the
//! order in which they were resolved.

use vstd::prelude::*;
use crate::currency::{option_views, NamespaceOption, NamespaceOptionView};
use crate::text::{lemma_lex_le_order, lemma_lex_lt_asymmetric, lex_le, lex_lt, str_lt};

verus! {

/// No option of the list is followed by one whose name comes before its own.
pub open spec fn sorted_by_name(options: Seq<NamespaceOptionView>) -> bool {
    forall|i: int, j: int|
        0 <= i < j < options.len() ==> lex_le((#[trigger] options[i]).name, (#[trigger] options[j]).name)
}

/// Every option of the list is followed only by options whose names come after its own.
pub open spec fn strictly_ascending_by_name(options: Seq<NamespaceOptionView>) -> bool {
    forall|i: int, j: int|
        0 <= i < j < options.len() ==> lex_lt((#[trigger] options[i]).name, (#[trigger] options[j]).name)
}

/// No two options of the list have the same name.
pub open spec fn distinct_names(options: Seq<NamespaceOptionView>) -> bool {
    forall|i: int, j: int|
        0 <= i < j < options.len() ==> (#[trigger] options[i]).name != (#[trigger] options[j]).name
}

/// Where an option named `name` enters a list: behind the last option that it does not
/// precede.
pub open spec fn insertion_point(options: Seq<NamespaceOptionView>, name: Seq<char>) -> int
    decreases options.len(),
{
    if options.len() > 0 && lex_lt(name, options.last().name) {
        insertion_point(options.drop_last(), name)
    } else {
        options.len() as int
    }
}

/// The options in order of their names: each one, in turn, enters the arrangement of those
/// before it at its insertion point.
pub open spec fn in_name_order(options: Seq<NamespaceOptionView>) -> Seq<NamespaceOptionView>
    decreases options.len(),
{
    if options.len() == 0 {
        options
    } else {
        let front = in_name_order(options.drop_last());
        front.insert(insertion_point(front, options.last().name), options.last())
    }
}

/// The insertion point is the one position behind which every name comes after `name`, and
/// directly before which stands a name that does not.
pub proof fn lemma_insertion_point(options: Seq<NamespaceOptionView>, name: Seq<char>, p: int)
    requires
        0 <= p <= options.len(),
        forall|j: int| p <= j < options.len() ==> lex_lt(name, (#[trigger] options[j]).name),
        p > 0 ==> !lex_lt(name, options[p - 1].name),
    ensures
        insertion_point(options, name) == p,
    decreases options.len(),
{
    if options.len() > 0 && lex_lt(name, options.last().name) {
        if p == options.len() {
            assert(false);
        }
        let front = options.drop_last();
        assert forall|j: int| p <= j < front.len() implies lex_lt(name, (#[trigger] front[j]).name) by {
            assert(front[j] == options[j]);
        }
        lemma_insertion_point(front, name, p);
    } else if p < options.len() {
        assert(lex_lt(name, options[options.len() - 1].name));
    }
}

/// What holds at the insertion point.
pub proof fn lemma_insertion_point_bounds(options: Seq<NamespaceOptionView>, name: Seq<char>)
    ensures
        0 <= insertion_point(options, name) <= options.len(),
        forall|j: int|
            insertion_point(options, name) <= j < options.len() ==> lex_lt(
                name,
                (#[trigger] options[j]).name,
            ),
        insertion_point(options, name) > 0 ==> !lex_lt(
            name,
            options[insertion_point(options, name) - 1].name,
        ),
    decreases options.len(),
{
    if options.len() > 0 && lex_lt(name, options.last().name) {
        let front = options.drop_last();
        lemma_insertion_point_bounds(front, name);
        let p = insertion_point(front, name);
        assert forall|j: int| p <= j < options.len() implies lex_lt(name, (#[trigger] options[j]).name) by {
            if j < front.len() {
                assert(front[j] == options[j]);
            }
        }
        if p > 0 {
            assert(front[p - 1] == options[p - 1]);
        }
    }
}

/// The arrangement holds as many options as the list.
pub proof fn lemma_in_name_order_len(options: Seq<NamespaceOptionView>)
    ensures
        in_name_order(options).len() == options.len(),
    decreases options.len(),
{
    if options.len() > 0 {
        lemma_in_name_order_len(options.drop_last());
        lemma_insertion_point_bounds(in_name_order(options.drop_last()), options.last().name);
    }
}

/// The arrangement is sorted by name.
pub proof fn lemma_in_name_order_sorted(options: Seq<NamespaceOptionView>)
    ensures
        sorted_by_name(in_name_order(options)),
    decreases options.len(),
{
    if options.len() > 0 {
        let front = in_name_order(options.drop_last());
        let x = options.last();
        let p = insertion_point(front, x.name);
        lemma_in_name_order_sorted(options.drop_last());
        lemma_insertion_point_bounds(front, x.name);
        let out = front.insert(p, x);
        assert forall|i: int, j: int| 0 <= i < j < out.len() implies lex_le(
            (#[trigger] out[i]).name,
            (#[trigger] out[j]).name,
        ) by {
            if j < p {
                assert(out[i] == front[i] && out[j] == front[j]);
            } else if j == p {
                // out[i] stands before the insertion point
                assert(out[i] == front[i]);
                assert(out[j] == x);
                if i < p - 1 {
                    assert(lex_le(front[i].name, front[p - 1].name));
                }
                lemma_lex_le_order(front[i].name, front[p - 1].name, x.name);
            } else if i < p {
                assert(out[i] == front[i] && out[j] == front[j - 1]);
                if i < j - 1 {
                    assert(lex_le(front[i].name, front[j - 1].name));
                } else {
                    lemma_lex_le_order(front[i].name, front[i].name, front[i].name);
                }
            } else if i == p {
                assert(out[i] == x && out[j] == front[j - 1]);
                assert(lex_lt(x.name, front[j - 1].name));
                lemma_lex_lt_asymmetric(x.name, front[j - 1].name);
            } else {
                assert(out[i] == front[i - 1] && out[j] == front[j - 1]);
            }
        }
    }
}

/// The arrangement holds the options of the list, each as often as the list does.
pub proof fn lemma_in_name_order_permutes(options: Seq<NamespaceOptionView>)
    ensures
        in_name_order(options).to_multiset() == options.to_multiset(),
    decreases options.len(),
{
    if options.len() > 0 {
        let front = in_name_order(options.drop_last());
        let x = options.last();
        lemma_in_name_order_permutes(options.drop_last());
        lemma_insertion_point_bounds(front, x.name);
        vstd::seq_lib::to_multiset_insert(front, insertion_point(front, x.name), x);
        vstd::seq_lib::to_multiset_build(options.drop_last(), x);
        assert(options.drop_last().push(x) =~= options);
    }
}

/// Every option of the arrangement is an option of the list.
pub proof fn lemma_in_name_order_members(options: Seq<NamespaceOptionView>, k: int)
    requires
        0 <= k < in_name_order(options).len(),
    ensures
        options.contains(in_name_order(options)[k]),
{
    lemma_in_name_order_permutes(options);
    let out = in_name_order(options);
    assert(out.contains(out[k]));
    vstd::seq_lib::to_multiset_contains(out, out[k]);
    vstd::seq_lib::to_multiset_contains(options, out[k]);
}

/// Where no two options share a name, the arrangement is strictly ascending.
pub proof fn lemma_distinct_names_strictly_ascending(options: Seq<NamespaceOptionView>)
    requires
        distinct_names(options),
    ensures
        distinct_names(in_name_order(options)),
        strictly_ascending_by_name(in_name_order(options)),
    decreases options.len(),
{
    let out = in_name_order(options);
    if options.len() > 0 {
        let rest = options.drop_last();
        let front = in_name_order(rest);
        let x = options.last();
        let p = insertion_point(front, x.name);
        assert forall|i: int, j: int| 0 <= i < j < rest.len() implies (#[trigger] rest[i]).name
            != (#[trigger] rest[j]).name by {
            assert(rest[i] == options[i] && rest[j] == options[j]);
        }
        lemma_distinct_names_strictly_ascending(rest);
        lemma_insertion_point_bounds(front, x.name);
        assert forall|k: int| 0 <= k < front.len() implies (#[trigger] front[k]).name != x.name by {
            lemma_in_name_order_members(rest, k);
            let m = choose|m: int| 0 <= m < rest.len() && rest[m] == front[k];
            assert(rest[m] == options[m]);
        }
        assert forall|i: int, j: int| 0 <= i < j < out.len() implies (#[trigger] out[i]).name
            != (#[trigger] out[j]).name by {
            let a = if i < p { i } else { i - 1 };
            let b = if j < p { j } else { j - 1 };
            if i == p {
                assert(out[i] == x && out[j] == front[b]);
            } else if j == p {
                assert(out[j] == x && out[i] == front[a]);
            } else {
                assert(out[i] == front[a] && out[j] == front[b]);
            }
        }
    }
    lemma_in_name_order_sorted(options);
    assert forall|i: int, j: int| 0 <= i < j < out.len() implies lex_lt(
        (#[trigger] out[i]).name,
        (#[trigger] out[j]).name,
    ) by {
        lemma_lex_le_order(out[i].name, out[j].name, out[j].name);
    }
}

/// The options of one name, in the order in which the list holds them.
pub open spec fn named(options: Seq<NamespaceOptionView>, name: Seq<char>) -> Seq<NamespaceOptionView> {
    options.filter(|option: NamespaceOptionView| option.name == name)
}

proof fn lemma_named_none(options: Seq<NamespaceOptionView>, name: Seq<char>)
    requires
        forall|j: int| 0 <= j < options.len() ==> (#[trigger] options[j]).name != name,
    ensures
        named(options, name) == Seq::<NamespaceOptionView>::empty(),
{
    let pred = |option: NamespaceOptionView| option.name == name;
    let kept = options.filter(pred);
    if kept.len() > 0 {
        options.lemma_filter_pred(pred, 0);
        assert(kept.contains(kept[0]));
        options.lemma_filter_contains_rev(pred, kept[0]);
        let m = choose|m: int| 0 <= m < options.len() && options[m] == kept[0];
        assert(options[m].name != name);
    }
    assert(kept =~= Seq::<NamespaceOptionView>::empty());
}

/// The arrangement is stable: the options of any one name stand in it in the order in
/// which the list holds them.
pub proof fn lemma_in_name_order_stable(options: Seq<NamespaceOptionView>, name: Seq<char>)
    ensures
        named(in_name_order(options), name) == named(options, name),
    decreases options.len(),
{
    let pred = |option: NamespaceOptionView| option.name == name;
    if options.len() > 0 {
        let rest = options.drop_last();
        let front = in_name_order(rest);
        let x = options.last();
        let p = insertion_point(front, x.name);
        lemma_in_name_order_stable(rest, name);
        lemma_insertion_point_bounds(front, x.name);
        let low = front.take(p);
        let high = front.skip(p);
        let out = front.insert(p, x);
        assert(front =~= low + high);
        assert(out =~= low.push(x) + high);
        assert(options =~= rest.push(x));
        Seq::filter_distributes_over_add(low, high, pred);
        Seq::filter_distributes_over_add(low.push(x), high, pred);
        low.lemma_filter_push(x, pred);
        rest.lemma_filter_push(x, pred);
        if x.name == name {
            assert forall|j: int| 0 <= j < high.len() implies (#[trigger] high[j]).name != name by {
                assert(high[j] == front[p + j]);
                assert(lex_lt(x.name, front[p + j].name));
            }
            lemma_named_none(high, name);
            assert(low.filter(pred) + high.filter(pred) =~= low.filter(pred));
            assert(low.filter(pred).push(x) + high.filter(pred) =~= low.filter(pred).push(x));
        }
    }
}

proof fn lemma_named_last(options: Seq<NamespaceOptionView>, name: Seq<char>)
    requires
        options.len() > 0,
    ensures
        named(options, name) == if options.last().name == name {
            named(options.drop_last(), name).push(options.last())
        } else {
            named(options.drop_last(), name)
        },
{
    options.drop_last().lemma_filter_push(
        options.last(),
        |option: NamespaceOptionView| option.name == name,
    );
    assert(options.drop_last().push(options.last()) =~= options);
}

proof fn lemma_named_member(options: Seq<NamespaceOptionView>, name: Seq<char>) -> (i: int)
    requires
        named(options, name).len() > 0,
    ensures
        0 <= i < options.len(),
        options[i].name == name,
{
    let pred = |option: NamespaceOptionView| option.name == name;
    let kept = options.filter(pred);
    options.lemma_filter_pred(pred, 0);
    assert(kept.contains(kept[0]));
    options.lemma_filter_contains_rev(pred, kept[0]);
    choose|i: int| 0 <= i < options.len() && options[i] == kept[0]
}

proof fn lemma_sorted_last_is_greatest(options: Seq<NamespaceOptionView>, i: int)
    requires
        sorted_by_name(options),
        0 <= i < options.len(),
    ensures
        lex_le(options[i].name, options.last().name),
{
    if i == options.len() - 1 {
        lemma_lex_le_order(options[i].name, options[i].name, options[i].name);
    } else {
        assert(lex_le(options[i].name, options[options.len() - 1].name));
    }
}

proof fn lemma_sorted_and_stable_agree(a: Seq<NamespaceOptionView>, b: Seq<NamespaceOptionView>)
    requires
        sorted_by_name(a),
        sorted_by_name(b),
        forall|name: Seq<char>| #[trigger] named(a, name) == named(b, name),
    ensures
        a == b,
    decreases a.len() + b.len(),
{
    if a.len() == 0 && b.len() == 0 {
        assert(a =~= b);
    } else {
        // The side that is not empty shows that the other is not empty either.
        if a.len() > 0 {
            lemma_named_last(a, a.last().name);
            assert(named(b, a.last().name) == named(a, a.last().name));
            let j = lemma_named_member(b, a.last().name);
        } else {
            lemma_named_last(b, b.last().name);
            assert(named(a, b.last().name) == named(b, b.last().name));
            let j = lemma_named_member(a, b.last().name);
        }
        let x = a.last();
        let y = b.last();
        lemma_named_last(a, x.name);
        lemma_named_last(b, y.name);
        assert(named(b, x.name) == named(a, x.name));
        assert(named(a, y.name) == named(b, y.name));
        let j = lemma_named_member(b, x.name);
        lemma_sorted_last_is_greatest(b, j);
        let i = lemma_named_member(a, y.name);
        lemma_sorted_last_is_greatest(a, i);
        lemma_lex_le_order(x.name, y.name, x.name);
        assert(x.name == y.name);
        assert(x == y) by {
            assert(named(a, x.name).last() == x);
            assert(named(b, x.name).last() == y);
        }
        let a0 = a.drop_last();
        let b0 = b.drop_last();
        assert forall|name: Seq<char>| #[trigger] named(a0, name) == named(b0, name) by {
            lemma_named_last(a, name);
            lemma_named_last(b, name);
            assert(named(a, name) == named(b, name));
            if x.name == name {
                assert(named(a0, name).push(x).drop_last() =~= named(a0, name));
                assert(named(b0, name).push(y).drop_last() =~= named(b0, name));
            }
        }
        assert forall|i: int, j: int| 0 <= i < j < a0.len() implies lex_le(
            (#[trigger] a0[i]).name,
            (#[trigger] a0[j]).name,
        ) by {
            assert(a0[i] == a[i] && a0[j] == a[j]);
        }
        assert forall|i: int, j: int| 0 <= i < j < b0.len() implies lex_le(
            (#[trigger] b0[i]).name,
            (#[trigger] b0[j]).name,
        ) by {
            assert(b0[i] == b[i] && b0[j] == b[j]);
        }
        lemma_sorted_and_stable_agree(a0, b0);
        assert(a =~= a0.push(x));
        assert(b =~= b0.push(y));
    }
}

/// There is one arrangement only that is sorted by name and holds the options of each name
/// as the list holds them: the one that `in_name_order` names.
pub proof fn lemma_name_order_unique(
    options: Seq<NamespaceOptionView>,
    arranged: Seq<NamespaceOptionView>,
)
    requires
        sorted_by_name(arranged),
        forall|name: Seq<char>| #[trigger] named(arranged, name) == named(options, name),
    ensures
        arranged == in_name_order(options),
{
    lemma_in_name_order_sorted(options);
    assert forall|name: Seq<char>| #[trigger]
        named(arranged, name) == named(in_name_order(options), name) by {
        lemma_in_name_order_stable(options, name);
        assert(named(arranged, name) == named(options, name));
    }
    lemma_sorted_and_stable_agree(arranged, in_name_order(options));
}

/// Taking the option at `k` out of a sorted list before another option enters it gives what
/// taking it out afterwards gives; the option then stands at the position that is returned.
proof fn lemma_insert_without(front: Seq<NamespaceOptionView>, x: NamespaceOptionView, k: int) -> (at:
    int)
    requires
        sorted_by_name(front),
        0 <= k < front.len(),
    ensures
        0 <= at <= front.len(),
        front.insert(insertion_point(front, x.name), x)[at] == front[k],
        front.remove(k).insert(insertion_point(front.remove(k), x.name), x) == front.insert(
            insertion_point(front, x.name),
            x,
        ).remove(at),
{
    let p = insertion_point(front, x.name);
    let out = front.insert(p, x);
    let less = front.remove(k);
    lemma_insertion_point_bounds(front, x.name);
    if k < p {
        assert forall|j: int| p - 1 <= j < less.len() implies lex_lt(x.name, (#[trigger] less[j]).name) by {
            assert(less[j] == front[j + 1]);
        }
        if p - 1 > 0 {
            if p - 2 < k {
                assert(less[p - 2] == front[p - 2]);
                assert(lex_le(front[p - 2].name, front[p - 1].name));
                lemma_lex_le_order(front[p - 2].name, front[p - 1].name, x.name);
            } else {
                assert(less[p - 2] == front[p - 1]);
            }
        }
        lemma_insertion_point(less, x.name, p - 1);
        assert(less.insert(p - 1, x) =~= out.remove(k));
        k
    } else {
        assert forall|j: int| p <= j < less.len() implies lex_lt(x.name, (#[trigger] less[j]).name) by {
            if j < k {
                assert(less[j] == front[j]);
            } else {
                assert(less[j] == front[j + 1]);
            }
        }
        if p > 0 {
            assert(less[p - 1] == front[p - 1]);
        }
        lemma_insertion_point(less, x.name, p);
        assert(less.insert(p, x) =~= out.remove(k + 1));
        k + 1
    }
}

/// Leaving one option out of the list leaves that one option out of the arrangement, and
/// moves no other.
pub proof fn lemma_in_name_order_without(options: Seq<NamespaceOptionView>, i: int) -> (k: int)
    requires
        0 <= i < options.len(),
    ensures
        0 <= k < in_name_order(options).len(),
        in_name_order(options)[k] == options[i],
        in_name_order(options.remove(i)) == in_name_order(options).remove(k),
    decreases options.len(),
{
    let rest = options.drop_last();
    let front = in_name_order(rest);
    let x = options.last();
    let p = insertion_point(front, x.name);
    lemma_in_name_order_len(rest);
    lemma_insertion_point_bounds(front, x.name);
    if i == options.len() - 1 {
        assert(options.remove(i) =~= rest);
        assert(front.insert(p, x).remove(p) =~= front);
        p
    } else {
        let k0 = lemma_in_name_order_without(rest, i);
        assert(options.remove(i) =~= rest.remove(i).push(x));
        assert(options.remove(i).drop_last() =~= rest.remove(i));
        assert(options.remove(i).last() == x);
        lemma_in_name_order_sorted(rest);
        lemma_insert_without(front, x, k0)
    }
}

/// Arranges the options in ascending order of their names. Options of equal name keep
/// their order: the arrangement is the one that `in_name_order` names, which is sorted, holds
/// what the list held, and holds the options of each name as the list held them.
pub fn sort_by_name(options: &mut Vec<NamespaceOption>)
    ensures
        option_views(final(options)@) == in_name_order(option_views(old(options)@)),
        sorted_by_name(option_views(final(options)@)),
        option_views(final(options)@).to_multiset() == option_views(old(options)@).to_multiset(),
        forall|name: Seq<char>|
            #[trigger] named(option_views(final(options)@), name) == named(
                option_views(old(options)@),
                name,
            ),
        final(options)@.len() == old(options)@.len(),
{
    let ghost input = option_views(options@);
    let mut i: usize = 0;
    assert(input.take(0) =~= Seq::<NamespaceOptionView>::empty());
    assert(option_views(options@).take(0) =~= Seq::<NamespaceOptionView>::empty());
    while i < options.len()
        invariant
            i <= options.len(),
            options@.len() == input.len(),
            option_views(options@).take(i as int) == in_name_order(input.take(i as int)),
            option_views(options@).skip(i as int) == input.skip(i as int),
        decreases options.len() - i,
    {
        let ghost before = option_views(options@);
        let option = options.remove(i);
        let ghost rest = option_views(options@);
        let ghost front = before.take(i as int);
        assert(rest =~= before.remove(i as int));
        assert(option@ == input[i as int]) by {
            assert(before.skip(i as int)[0] == input.skip(i as int)[0]);
        }
        let mut p: usize = i;
        while p > 0 && str_lt(option.name.as_str(), options[p - 1].name.as_str())
            invariant
                p <= i <= options@.len(),
                rest == option_views(options@),
                forall|j: int| p <= j < i ==> lex_lt(option@.name, (#[trigger] rest[j]).name),
            decreases p,
        {
            p -= 1;
        }
        options.insert(p, option);
        proof {
            let after = option_views(options@);
            assert(after =~= rest.insert(p as int, input[i as int]));
            assert(rest.take(i as int) =~= front);
            assert forall|j: int| p <= j < front.len() implies lex_lt(
                input[i as int].name,
                (#[trigger] front[j]).name,
            ) by {
                assert(front[j] == rest[j]);
            }
            if p > 0 {
                assert(front[p - 1] == rest[p - 1]);
            }
            lemma_insertion_point(front, input[i as int].name, p as int);
            assert(input.take(i + 1).drop_last() =~= input.take(i as int));
            assert(input.take(i + 1).last() == input[i as int]);
            assert(after.take(i + 1) =~= front.insert(p as int, input[i as int]));
            let tail = after.skip(i + 1);
            assert forall|k: int| 0 <= k < tail.len() implies #[trigger] tail[k] == input.skip(
                i + 1,
            )[k] by {
                assert(after[i + 1 + k] == rest[i + k]);
                assert(rest[i + k] == before[i + k + 1]);
                assert(before.skip(i as int)[k + 1] == input.skip(i as int)[k + 1]);
            }
            assert(tail =~= input.skip(i + 1));
        }
        i += 1;
    }
    proof {
        assert(input.take(input.len() as int) =~= input);
        assert(option_views(options@).take(input.len() as int) =~= option_views(options@));
        lemma_in_name_order_sorted(input);
        lemma_in_name_order_permutes(input);
        assert forall|name: Seq<char>| #[trigger]
            named(in_name_order(input), name) == named(input, name) by {
            lemma_in_name_order_stable(input, name);
        }
    }
}

} // verus!
