//! Snapshot retention: which stored snapshots leave once there are more of
//! them than are to be kept.
//!
//! Snapshots are told apart by their position in a listing and ordered by
//! when they were last modified; of two with the same stamp the one listed
//! first counts as the older.

use vstd::prelude::*;
use vstd::set_lib::{lemma_int_range, lemma_len_subset, set_int_range};

verus! {

/// The snapshot at position `i` is older than the one at position `j`.
pub open spec fn spec_older(modified: Seq<u128>, i: int, j: int) -> bool {
    modified[i] < modified[j] || (modified[i] == modified[j] && i < j)
}

/// Position `i` is on the list.
pub open spec fn listed(out: Seq<usize>, i: int) -> bool {
    exists|k: int| 0 <= k < out.len() && #[trigger] out[k] == i
}

/// `out` lists the snapshots that have to leave so that `limit` stay: as many
/// as there are beyond the limit, each a position in the listing, from the
/// oldest on, and every snapshot that stays is younger than each one that
/// leaves.
pub open spec fn is_pruning(modified: Seq<u128>, limit: nat, out: Seq<usize>) -> bool {
    &&& out.len() == if modified.len() > limit {
        modified.len() - limit
    } else {
        0
    }
    &&& forall|k: int| 0 <= k < out.len() ==> #[trigger] out[k] < modified.len()
    &&& forall|k: int, l: int|
        0 <= k < l < out.len() ==> spec_older(modified, #[trigger] out[k] as int, #[trigger] out[l] as int)
    &&& forall|k: int, i: int|
        0 <= k < out.len() && 0 <= i < modified.len() && !listed(out, i) ==> #[trigger] spec_older(
            modified,
            out[k] as int,
            i,
        )
}

/// Two lists that both say which snapshots have to leave agree up to
/// position `upto`.
proof fn lemma_prunings_agree(
    modified: Seq<u128>,
    limit: nat,
    a: Seq<usize>,
    b: Seq<usize>,
    upto: int,
)
    requires
        is_pruning(modified, limit, a),
        is_pruning(modified, limit, b),
        0 <= upto <= a.len(),
    ensures
        forall|k: int| 0 <= k < upto ==> a[k] == b[k],
    decreases upto,
{
    if upto > 0 {
        let k = upto - 1;
        lemma_prunings_agree(modified, limit, a, b, k);
        if a[k] != b[k] {
            // Whichever of the two is the older is missing from the other
            // list, or comes later in it; neither can be.
            let (first, second) = if spec_older(modified, a[k] as int, b[k] as int) {
                (a, b)
            } else {
                (b, a)
            };
            let i = first[k] as int;
            assert(spec_older(modified, i, second[k] as int));
            if listed(second, i) {
                let l = choose|l: int| 0 <= l < second.len() && #[trigger] second[l] == i;
                if l < k {
                    assert(first[l] == second[l]);
                    assert(spec_older(modified, first[l] as int, first[k] as int));
                } else {
                    assert(spec_older(modified, second[k] as int, second[l] as int));
                }
            } else {
                assert(spec_older(modified, second[k] as int, i));
            }
        }
    }
}

/// There is one answer only to which snapshots have to leave.
pub proof fn lemma_pruning_unique(modified: Seq<u128>, limit: nat, a: Seq<usize>, b: Seq<usize>)
    requires
        is_pruning(modified, limit, a),
        is_pruning(modified, limit, b),
    ensures
        a == b,
{
    lemma_prunings_agree(modified, limit, a, b, a.len() as int);
    assert(a =~= b);
}

/// Whether the snapshot at position `i` is older than the one at position
/// `j`.
#[verifier::when_used_as_spec(spec_older_at)]
fn older(modified: &Vec<u128>, i: usize, j: usize) -> (b: bool)
    requires
        i < modified.len(),
        j < modified.len(),
    ensures
        b == spec_older(modified@, i as int, j as int),
{
    modified[i] < modified[j] || (modified[i] == modified[j] && i < j)
}

spec fn spec_older_at(modified: &Vec<u128>, i: usize, j: usize) -> bool {
    spec_older(modified@, i as int, j as int)
}

/// A list that holds every position below `n` has at least `n` entries.
proof fn lemma_covering_list_is_long(out: Seq<usize>, n: nat)
    requires
        forall|i: int| 0 <= i < n ==> #[trigger] listed(out, i),
    ensures
        out.len() >= n,
{
    let positions = out.map_values(|v: usize| v as int);
    positions.lemma_cardinality_of_set();
    lemma_int_range(0, n as int);
    assert forall|i: int| set_int_range(0, n as int).contains(i) implies positions.to_set().contains(
        i,
    ) by {
        assert(listed(out, i));
        let k = choose|k: int| 0 <= k < out.len() && #[trigger] out[k] == i;
        assert(positions[k] == i);
    }
    vstd::seq_lib::seq_to_set_is_finite(positions);
    lemma_len_subset(set_int_range(0, n as int), positions.to_set());
}

/// The snapshot at position `i` is still to be considered once the one at
/// position `after` has been taken: it is younger than that one. With
/// nothing taken yet, every snapshot is.
spec fn remains(modified: Seq<u128>, after: Option<usize>, i: int) -> bool {
    match after {
        Some(a) => spec_older(modified, a as int, i),
        None => true,
    }
}

/// The oldest snapshot among those younger than the one at position `after`,
/// or among all if `after` is `None`; the length of the listing if there is
/// none.
fn next_oldest(modified: &Vec<u128>, after: Option<usize>) -> (best: usize)
    requires
        after matches Some(a) ==> a < modified.len(),
    ensures
        best <= modified.len(),
        best < modified.len() ==> remains(modified@, after, best as int),
        forall|i: int|
            0 <= i < modified.len() && i != best && #[trigger] remains(modified@, after, i)
                ==> best < modified.len() && spec_older(modified@, best as int, i),
{
    let n = modified.len();
    let mut best: usize = n;
    let mut i: usize = 0;
    while i < n
        invariant
            n == modified.len(),
            i <= n,
            best <= n,
            best < n ==> best < i,
            after matches Some(a) ==> a < n,
            best < n ==> remains(modified@, after, best as int),
            forall|j: int|
                0 <= j < i && j != best && #[trigger] remains(modified@, after, j) ==> best < n
                    && spec_older(modified@, best as int, j),
        decreases n - i,
    {
        let eligible = match after {
            Some(a) => older(modified, a, i),
            None => true,
        };
        if eligible && (best == n || older(modified, i, best)) {
            best = i;
        }
        i += 1;
    }
    best
}

/// Chooses the snapshots to delete so that at most `limit` stay. `modified`
/// holds the modification stamp of each stored snapshot, in the order of the
/// listing; the result holds the positions of those that leave, the oldest
/// first.
pub fn prune_snapshots(modified: &Vec<u128>, limit: usize) -> (out: Vec<usize>)
    ensures
        is_pruning(modified@, limit as nat, out@),
{
    let n = modified.len();
    let mut out: Vec<usize> = Vec::new();
    if n <= limit {
        return out;
    }
    let count = n - limit;
    let mut last: Option<usize> = None;
    while out.len() < count
        invariant
            n == modified.len(),
            count == n - limit,
            out.len() <= count,
            last is None <==> out.len() == 0,
            last matches Some(l) ==> l == out[out.len() - 1],
            forall|k: int| 0 <= k < out.len() ==> #[trigger] out[k] < n,
            forall|k: int, l: int|
                0 <= k < l < out.len() ==> spec_older(
                    modified@,
                    #[trigger] out[k] as int,
                    #[trigger] out[l] as int,
                ),
            forall|i: int|
                0 <= i < n && !listed(out@, i) ==> #[trigger] remains(modified@, last, i),
        decreases count - out.len(),
    {
        let best = next_oldest(modified, last);
        proof {
            if best == n {
                assert forall|i: int| 0 <= i < n implies #[trigger] listed(out@, i) by {
                    if remains(modified@, last, i) {
                        assert(i != best);
                    }
                }
                lemma_covering_list_is_long(out@, n as nat);
            }
        }
        let ghost before = out@;
        out.push(best);
        proof {
            assert forall|k: int, l: int| 0 <= k < l < out.len() implies spec_older(
                modified@,
                #[trigger] out[k] as int,
                #[trigger] out[l] as int,
            ) by {
                if l == out.len() - 1 && k < l - 1 {
                    assert(spec_older(modified@, before[k] as int, before[l - 1] as int));
                }
            }
            assert forall|i: int| 0 <= i < n && !listed(out@, i) implies #[trigger] remains(
                modified@,
                Some(best),
                i,
            ) by {
                assert(out@[out.len() - 1] == best);
                if listed(before, i) {
                    let k = choose|k: int| 0 <= k < before.len() && #[trigger] before[k] == i;
                    assert(out@[k] == i);
                }
                assert(remains(modified@, last, i));
            }
        }
        last = Some(best);
    }
    proof {
        assert forall|k: int, i: int|
            0 <= k < out.len() && 0 <= i < n && !listed(out@, i) implies #[trigger] spec_older(
            modified@,
            out[k] as int,
            i,
        ) by {
            assert(remains(modified@, last, i));
            if k < out.len() - 1 {
                assert(spec_older(modified@, out[k] as int, out[out.len() - 1] as int));
            }
        }
    }
    out
}

} // verus!
