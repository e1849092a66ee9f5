//! What the wallet holds at an address, summed up from its unspent outputs.
//!
//! Amounts count units of 10^-8.

use vstd::prelude::*;

verus! {

/// The least amount that an output must hold to be of use.
pub const USABLE_AMOUNT: i64 = 10_000;

/// A summary of the unspent outputs at an address.
#[derive(Debug, Clone, Copy, PartialEq, Eq, Structural)]
pub struct UtxoInfo {
    /// The number of outputs, dust included.
    pub total_utxos: u32,
    /// The number of outputs that hold at least `USABLE_AMOUNT`.
    pub usable_utxos: u32,
    /// The sum of the usable outputs.
    pub total_spendable_value: i128,
    /// The greatest amount that any output holds, and zero where none holds more.
    pub largest_utxo: i64,
    /// The least amount that a usable output holds, and zero where none is usable.
    pub smallest_utxo: i64,
}

/// Whether an output of this amount is of use.
pub open spec fn is_usable(amount: i64) -> bool {
    amount >= USABLE_AMOUNT
}

/// The usable amounts among `amounts`, in order.
pub open spec fn usable(amounts: Seq<i64>) -> Seq<i64> {
    amounts.filter(|amount: i64| is_usable(amount))
}

/// The sum of `amounts`.
pub open spec fn total(amounts: Seq<i64>) -> int
    decreases amounts.len(),
{
    if amounts.len() == 0 {
        0
    } else {
        total(amounts.drop_last()) + amounts.last()
    }
}

/// Whether `largest` is the greatest of `amounts` and zero.
pub open spec fn is_largest(amounts: Seq<i64>, largest: i64) -> bool {
    &&& largest >= 0
    &&& forall|i: int| 0 <= i < amounts.len() ==> amounts[i] <= largest
    &&& (largest == 0 || exists|i: int| 0 <= i < amounts.len() && amounts[i] == largest)
}

/// Whether `smallest` is the least of the usable amounts, or zero where there is none.
pub open spec fn is_smallest_usable(amounts: Seq<i64>, smallest: i64) -> bool {
    if forall|i: int| 0 <= i < amounts.len() ==> !is_usable(#[trigger] amounts[i]) {
        smallest == 0
    } else {
        &&& is_usable(smallest)
        &&& forall|i: int|
            0 <= i < amounts.len() && is_usable(#[trigger] amounts[i]) ==> smallest <= amounts[i]
        &&& exists|i: int| 0 <= i < amounts.len() && amounts[i] == smallest
    }
}

/// Whether `info` sums up the outputs that hold `amounts`.
pub open spec fn summarizes(info: UtxoInfo, amounts: Seq<i64>) -> bool {
    &&& info.total_utxos == amounts.len()
    &&& info.usable_utxos == usable(amounts).len()
    &&& info.total_spendable_value == total(usable(amounts))
    &&& is_largest(amounts, info.largest_utxo)
    &&& is_smallest_usable(amounts, info.smallest_utxo)
}

proof fn lemma_total_bounds(amounts: Seq<i64>)
    ensures
        amounts.len() * i64::MIN <= total(amounts) <= amounts.len() * i64::MAX,
    decreases amounts.len(),
{
    if amounts.len() > 0 {
        lemma_total_bounds(amounts.drop_last());
        assert((amounts.len() - 1) * i64::MAX + i64::MAX == amounts.len() * i64::MAX) by (nonlinear_arith);
        assert((amounts.len() - 1) * i64::MIN + i64::MIN == amounts.len() * i64::MIN) by (nonlinear_arith);
    }
}

/// Sums up the unspent outputs that hold `amounts`.
pub fn summarize_utxos(amounts: &Vec<i64>) -> (info: UtxoInfo)
    requires
        amounts@.len() <= u32::MAX,
    ensures
        summarizes(info, amounts@),
{
    let ghost keep = |amount: i64| is_usable(amount);
    let mut usable_utxos: u32 = 0;
    let mut total_spendable_value: i128 = 0;
    let mut largest_utxo: i64 = 0;
    let mut smallest_utxo: i64 = 0;
    let mut i: usize = 0;
    proof {
        assert(amounts@.take(0) =~= Seq::<i64>::empty());
        amounts@.take(0).lemma_filter_len(keep);
    }
    while i < amounts.len()
        invariant
            i <= amounts.len() <= u32::MAX,
            keep == |amount: i64| is_usable(amount),
            usable_utxos == usable(amounts@.take(i as int)).len(),
            usable_utxos <= i,
            total_spendable_value == total(usable(amounts@.take(i as int))),
            is_largest(amounts@.take(i as int), largest_utxo),
            is_smallest_usable(amounts@.take(i as int), smallest_utxo),
        decreases amounts.len() - i,
    {
        let amount = amounts[i];
        let ghost seen = amounts@.take(i as int);
        let ghost now = amounts@.take(i + 1);
        proof {
            assert(now =~= seen.push(amount));
            seen.lemma_filter_push(amount, keep);
            lemma_total_bounds(usable(seen));
            assert(usable(seen).len() * i64::MAX <= u32::MAX * i64::MAX) by (nonlinear_arith)
                requires
                    usable(seen).len() <= u32::MAX,
            ;
            assert(usable(seen).len() * i64::MIN >= u32::MAX * i64::MIN) by (nonlinear_arith)
                requires
                    usable(seen).len() <= u32::MAX,
            ;
            assert forall|j: int| 0 <= j < seen.len() implies seen[j] == now[j] by {}
        }
        if amount > largest_utxo {
            largest_utxo = amount;
        }
        proof {
            assert(now[i as int] == amount);
            if largest_utxo != 0 && largest_utxo != amount {
                let j = choose|j: int| 0 <= j < seen.len() && seen[j] == largest_utxo;
                assert(now[j] == largest_utxo);
            }
        }
        if amount >= USABLE_AMOUNT {
            let first = usable_utxos == 0;
            assert(usable(now) =~= usable(seen).push(amount));
            assert(usable(now).drop_last() =~= usable(seen));
            usable_utxos += 1;
            total_spendable_value += amount as i128;
            if first || amount < smallest_utxo {
                proof {
                    if first {
                        assert forall|j: int| 0 <= j < seen.len() implies !is_usable(
                            #[trigger] seen[j],
                        ) by {
                            if is_usable(seen[j]) {
                                seen.lemma_filter_contains(keep, j);
                            }
                        }
                    }
                }
                smallest_utxo = amount;
            } else {
                proof {
                    assert(exists|j: int| 0 <= j < seen.len() && is_usable(#[trigger] seen[j])) by {
                        seen.lemma_filter_pred(keep, 0);
                        seen.lemma_filter_contains_rev(keep, usable(seen)[0]);
                        assert(usable(seen).contains(usable(seen)[0]));
                        let j = choose|j: int| 0 <= j < seen.len() && seen[j] == usable(seen)[0];
                        assert(is_usable(seen[j]));
                    }
                    let j = choose|j: int| 0 <= j < seen.len() && seen[j] == smallest_utxo;
                    assert(now[j] == smallest_utxo);
                }
            }
            proof {
                assert(is_usable(now[i as int]));
            }
        } else {
            assert(usable(now) =~= usable(seen));
            proof {
                if forall|j: int| 0 <= j < seen.len() ==> !is_usable(#[trigger] seen[j]) {
                } else {
                    let j = choose|j: int| 0 <= j < seen.len() && seen[j] == smallest_utxo;
                    assert(now[j] == smallest_utxo);
                    let w = choose|w: int| 0 <= w < seen.len() && is_usable(#[trigger] seen[w]);
                    assert(is_usable(now[w]));
                }
            }
        }
        i += 1;
    }
    assert(amounts@.take(amounts.len() as int) =~= amounts@);
    UtxoInfo {
        total_utxos: amounts.len() as u32,
        usable_utxos,
        total_spendable_value,
        largest_utxo,
        smallest_utxo,
    }
}

} // verus!
