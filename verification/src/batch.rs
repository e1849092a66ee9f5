//! How the candidates are divided into groups for their detail lookups.
//!
//! The lookups of one group are outstanding together; the next group starts when every
//! lookup of the group before it has ended, and after a short pause.

use vstd::prelude::*;

verus! {

/// The number of detail lookups that are outstanding at once.
pub const GROUP_SIZE: usize = 5;

/// The pause between two groups, in milliseconds.
pub const GROUP_PAUSE_MILLIS: u64 = 100;

/// The number of groups into which `candidates` candidates fall: the least number of groups
/// of at most `GROUP_SIZE` that holds them all.
pub open spec fn group_count(candidates: int) -> int {
    (candidates + GROUP_SIZE - 1) / (GROUP_SIZE as int)
}

/// The position of the first candidate of group `group`.
pub open spec fn group_start(group: int) -> int {
    group * GROUP_SIZE
}

/// The number of candidates in the group that starts at position `first`: `GROUP_SIZE`, or
/// what is left where that is less.
pub open spec fn group_len(candidates: int, first: int) -> int {
    if first >= candidates {
        0
    } else if candidates - first < GROUP_SIZE {
        candidates - first
    } else {
        GROUP_SIZE as int
    }
}

/// The number of groups into which `candidates` candidates fall.
pub fn count_groups(candidates: usize) -> (groups: usize)
    ensures
        groups == group_count(candidates as int),
        groups * GROUP_SIZE >= candidates,
        candidates > 0 ==> (groups - 1) * GROUP_SIZE < candidates,
{
    if candidates % GROUP_SIZE == 0 {
        candidates / GROUP_SIZE
    } else {
        candidates / GROUP_SIZE + 1
    }
}

/// The number of candidates in the group that starts at position `first`.
pub fn group_length(candidates: usize, first: usize) -> (len: usize)
    ensures
        len == group_len(candidates as int, first as int),
{
    if first >= candidates {
        0
    } else if candidates - first < GROUP_SIZE {
        candidates - first
    } else {
        GROUP_SIZE
    }
}

/// The groups cover the candidates without a gap: every group but the last is full, and the
/// last one holds what is left.
pub proof fn lemma_groups_cover(candidates: int, group: int)
    requires
        0 <= group < group_count(candidates),
        0 <= candidates,
    ensures
        group_start(group) < candidates,
        0 < group_len(candidates, group_start(group)) <= GROUP_SIZE,
        group + 1 < group_count(candidates) ==> group_len(candidates, group_start(group))
            == GROUP_SIZE,
        group + 1 == group_count(candidates) ==> group_start(group) + group_len(
            candidates,
            group_start(group),
        ) == candidates,
        group_start(group) + group_len(candidates, group_start(group)) == if group + 1
            < group_count(candidates) {
            group_start(group + 1)
        } else {
            candidates
        },
{
}

} // verus!
