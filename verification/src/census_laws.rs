//! What holds of every tally and every ranking: counts equal occurrences,
//! no address stands twice, and ranking reorders without loss.

use crate::census::bump;
use crate::census::count_for;
use crate::census::entry_index;
use crate::census::lemma_entry_index_is;
use crate::census::occurrences;
use crate::census::rank_index;
use crate::census::ranked;
use crate::census::tally;
use vstd::prelude::*;
use vstd::seq_lib::to_multiset_build;
use vstd::seq_lib::to_multiset_contains;
use vstd::seq_lib::to_multiset_insert;

verus! {

/// No two entries of `t` have the same address.
pub open spec fn distinct_addresses(t: Seq<(Seq<char>, nat)>) -> bool {
    forall|i: int, j: int| 0 <= i < j < t.len() ==> (#[trigger] t[i]).0 != (#[trigger] t[j]).0
}

/// The counts of `r` never rise from one entry to a later one.
pub open spec fn descending(r: Seq<(Seq<char>, nat)>) -> bool {
    forall|i: int, j: int| 0 <= i < j < r.len() ==> (#[trigger] r[i]).1 >= (#[trigger] r[j]).1
}

/// The entry index of `address` is the least index of an entry for it, or
/// the length.
pub proof fn lemma_entry_index(t: Seq<(Seq<char>, nat)>, address: Seq<char>)
    ensures
        entry_index(t, address) <= t.len(),
        forall|k: int| 0 <= k < entry_index(t, address) ==> (#[trigger] t[k]).0 != address,
        entry_index(t, address) < t.len() ==> t[entry_index(t, address) as int].0 == address,
    decreases t.len(),
{
    if t.len() == 0 || t[0].0 == address {
    } else {
        let rest = t.drop_first();
        lemma_entry_index(rest, address);
        assert forall|k: int| 0 <= k < entry_index(t, address) implies (#[trigger] t[k]).0
            != address by {
            if k > 0 {
                assert(t[k] == rest[k - 1]);
            }
        }
        if entry_index(t, address) < t.len() {
            assert(t[entry_index(t, address) as int] == rest[entry_index(rest, address) as int]);
        }
    }
}

/// The rank index of `count` is the least index of an entry that counts
/// less, or the length.
pub proof fn lemma_rank_index(r: Seq<(Seq<char>, nat)>, count: nat)
    ensures
        rank_index(r, count) <= r.len(),
        forall|k: int| 0 <= k < rank_index(r, count) ==> (#[trigger] r[k]).1 >= count,
        rank_index(r, count) < r.len() ==> r[rank_index(r, count) as int].1 < count,
    decreases r.len(),
{
    if r.len() == 0 || r[0].1 < count {
    } else {
        let rest = r.drop_first();
        lemma_rank_index(rest, count);
        assert forall|k: int| 0 <= k < rank_index(r, count) implies (#[trigger] r[k]).1
            >= count by {
            if k > 0 {
                assert(r[k] == rest[k - 1]);
            }
        }
        if rank_index(r, count) < r.len() {
            assert(r[rank_index(r, count) as int] == rest[rank_index(rest, count) as int]);
        }
    }
}

/// One more occurrence of `address` raises its count by one and leaves
/// every other count as it was.
pub proof fn lemma_bump_count(t: Seq<(Seq<char>, nat)>, address: Seq<char>, other: Seq<char>)
    ensures
        count_for(bump(t, address), other) == count_for(t, other) + if other == address {
            1nat
        } else {
            0nat
        },
{
    let after = bump(t, address);
    let i = entry_index(t, address) as int;
    let j = entry_index(t, other) as int;
    lemma_entry_index(t, address);
    lemma_entry_index(t, other);
    if i < t.len() {
        assert forall|k: int| 0 <= k < after.len() implies (#[trigger] after[k]).0 == t[k].0 by {}
        assert forall|k: int| 0 <= k < j implies (#[trigger] after[k]).0 != other by {
            assert(t[k].0 != other);
        }
        lemma_entry_index_is(after, other, j);
    } else {
        if other == address {
            assert forall|k: int| 0 <= k < t.len() implies (#[trigger] after[k]).0 != other by {
                assert(t[k].0 != other);
            }
            lemma_entry_index_is(after, other, t.len() as int);
        } else if j < t.len() {
            assert forall|k: int| 0 <= k < j implies (#[trigger] after[k]).0 != other by {
                assert(t[k].0 != other);
            }
            lemma_entry_index_is(after, other, j);
        } else {
            assert forall|k: int| 0 <= k < after.len() implies (#[trigger] after[k]).0
                != other by {
                if k < t.len() {
                    assert(t[k].0 != other);
                }
            }
            lemma_entry_index_is(after, other, after.len() as int);
        }
    }
}

/// The tally holds for each address the number of its occurrences.
pub proof fn lemma_tally_counts(items: Seq<Seq<char>>, address: Seq<char>)
    ensures
        count_for(tally(items), address) == occurrences(items, address),
    decreases items.len(),
{
    if items.len() > 0 {
        lemma_tally_counts(items.drop_last(), address);
        lemma_bump_count(tally(items.drop_last()), items.last(), address);
    }
}

/// The tally has one entry per address, and none that counts nothing.
pub proof fn lemma_tally_distinct(items: Seq<Seq<char>>)
    ensures
        distinct_addresses(tally(items)),
        forall|k: int| 0 <= k < tally(items).len() ==> (#[trigger] tally(items)[k]).1 >= 1,
    decreases items.len(),
{
    if items.len() > 0 {
        let t = tally(items.drop_last());
        let address = items.last();
        let after = tally(items);
        lemma_tally_distinct(items.drop_last());
        lemma_entry_index(t, address);
        let at = entry_index(t, address) as int;
        assert forall|i: int, j: int| 0 <= i < j < after.len() implies (#[trigger] after[i]).0 != (
        #[trigger] after[j]).0 by {
            if at < t.len() {
                assert(after[i].0 == t[i].0 && after[j].0 == t[j].0);
            } else if j < t.len() {
                assert(after[i] == t[i] && after[j] == t[j]);
            } else {
                assert(t[i].0 != address);
            }
        }
        assert forall|k: int| 0 <= k < after.len() implies (#[trigger] after[k]).1 >= 1 by {
            if k < t.len() {
                assert(t[k].1 >= 1);
            }
        }
    }
}

/// The tally holds the pair of an address and a count exactly when the
/// address occurs, and occurs that often.
pub proof fn lemma_tally_holds(items: Seq<Seq<char>>, address: Seq<char>, count: nat)
    ensures
        tally(items).contains((address, count)) <==> count >= 1 && count == occurrences(
            items,
            address,
        ),
{
    let t = tally(items);
    lemma_tally_counts(items, address);
    lemma_tally_distinct(items);
    lemma_entry_index(t, address);
    let at = entry_index(t, address) as int;
    if t.contains((address, count)) {
        let k = choose|k: int| 0 <= k < t.len() && t[k] == (address, count);
        assert(t[k].1 >= 1);
        if at < k {
            assert(t[at].0 != t[k].0);
        }
        assert(at == k);
    }
    if count >= 1 && count == occurrences(items, address) {
        assert(at < t.len());
        assert(t[at] == (address, count));
    }
}

/// Ranking leaves the counts in descending order.
pub proof fn lemma_ranked_descending(t: Seq<(Seq<char>, nat)>)
    ensures
        descending(ranked(t)),
    decreases t.len(),
{
    if t.len() > 0 {
        let before = ranked(t.drop_last());
        let entry = t.last();
        let at = rank_index(before, entry.1) as int;
        let after = ranked(t);
        lemma_ranked_descending(t.drop_last());
        lemma_rank_index(before, entry.1);
        assert forall|i: int, j: int| 0 <= i < j < after.len() implies (#[trigger] after[i]).1 >= (
        #[trigger] after[j]).1 by {
            if j < at {
                assert(after[i] == before[i] && after[j] == before[j]);
            } else if j == at {
                assert(after[i] == before[i]);
            } else if i < at {
                assert(after[i] == before[i] && after[j] == before[j - 1]);
            } else if i == at {
                assert(after[j] == before[j - 1]);
                if at < j - 1 {
                    assert(before[at].1 >= before[j - 1].1);
                }
            } else {
                assert(after[i] == before[i - 1] && after[j] == before[j - 1]);
            }
        }
    }
}

/// Ranking only reorders: it holds each entry as often as what it ranks.
pub proof fn lemma_ranked_permutes(t: Seq<(Seq<char>, nat)>)
    ensures
        ranked(t).to_multiset() == t.to_multiset(),
        ranked(t).len() == t.len(),
    decreases t.len(),
{
    if t.len() > 0 {
        let before = ranked(t.drop_last());
        let entry = t.last();
        lemma_ranked_permutes(t.drop_last());
        lemma_rank_index(before, entry.1);
        to_multiset_insert(before, rank_index(before, entry.1) as int, entry);
        to_multiset_build(t.drop_last(), entry);
        assert(t.drop_last().push(entry) =~= t);
    } else {
        assert(t =~= Seq::empty());
    }
}

/// The ranked tally lists each address that occurs once, with the number
/// of its occurrences, and nothing else, by descending count.
pub proof fn lemma_summary_reflects_occurrences(
    items: Seq<Seq<char>>,
    address: Seq<char>,
    count: nat,
)
    ensures
        ranked(tally(items)).contains((address, count)) <==> count >= 1 && count == occurrences(
            items,
            address,
        ),
        descending(ranked(tally(items))),
        ranked(tally(items)).to_multiset().count((address, count)) <= 1,
{
    let t = tally(items);
    lemma_tally_holds(items, address, count);
    lemma_ranked_permutes(t);
    lemma_ranked_descending(t);
    to_multiset_contains(t, (address, count));
    to_multiset_contains(ranked(t), (address, count));
    lemma_tally_distinct(items);
    assert(t.to_multiset().count((address, count)) <= 1) by {
        assert(t.no_duplicates()) by {
            assert forall|i: int, j: int| 0 <= i < t.len() && 0 <= j < t.len() && i != j implies t[i]
                != t[j] by {
                if i < j {
                    assert(t[i].0 != t[j].0);
                } else {
                    assert(t[j].0 != t[i].0);
                }
            }
        }
        t.lemma_multiset_has_no_duplicates();
    }
}

/// Whether `first` stands in `r` at an earlier place than `second`.
pub open spec fn stands_before(
    r: Seq<(Seq<char>, nat)>,
    first: (Seq<char>, nat),
    second: (Seq<char>, nat),
) -> bool {
    exists|p: int, q: int|
        #![trigger r[p], r[q]]
        0 <= p < q < r.len() && r[p] == first && r[q] == second
}

/// Ranking keeps ties in order: of two entries with the same count, the
/// one that comes first in `t` comes first in the ranking.
pub proof fn lemma_ranked_stable(t: Seq<(Seq<char>, nat)>, i: int, j: int)
    requires
        0 <= i < j < t.len(),
        t[i].1 == t[j].1,
    ensures
        stands_before(ranked(t), t[i], t[j]),
    decreases t.len(),
{
    let init = t.drop_last();
    let before = ranked(init);
    let entry = t.last();
    let at = rank_index(before, entry.1) as int;
    let after = ranked(t);
    lemma_rank_index(before, entry.1);
    lemma_ranked_descending(init);
    lemma_ranked_permutes(init);
    if j == t.len() - 1 {
        assert(init[i] == t[i]);
        assert(init.contains(t[i]));
        to_multiset_contains(init, t[i]);
        to_multiset_contains(before, t[i]);
        let p = choose|p: int| 0 <= p < before.len() && before[p] == t[i];
        if p > at {
            assert(before[at].1 >= before[p].1);
        }
        assert(p < at);
        assert(after[p] == t[i] && after[at] == t[j]);
    } else {
        assert(init[i] == t[i] && init[j] == t[j]);
        lemma_ranked_stable(init, i, j);
        let (p, q) = choose|p: int, q: int|
            #![trigger before[p], before[q]]
            0 <= p < q < before.len() && before[p] == t[i] && before[q] == t[j];
        let p_after = if p < at {
            p
        } else {
            p + 1
        };
        let q_after = if q < at {
            q
        } else {
            q + 1
        };
        assert(after[p_after] == t[i] && after[q_after] == t[j]);
    }
}

} // verus!
