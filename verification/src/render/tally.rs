//! Counting debug records per collector, in collector-name order.

use vstd::prelude::*;

use crate::text::{chars_less, chars_lt, chars_of};

verus! {

/// How many entries of `srcs` equal `k`.
pub open spec fn count_of(srcs: Seq<Seq<char>>, k: Seq<char>) -> nat
    decreases srcs.len(),
{
    if srcs.len() == 0 {
        0
    } else {
        count_of(srcs.drop_last(), k) + if srcs.last() == k { 1nat } else { 0nat }
    }
}

/// An entry cannot occur more often than the sequence is long.
pub proof fn lemma_count_le_len(srcs: Seq<Seq<char>>, k: Seq<char>)
    ensures
        count_of(srcs, k) <= srcs.len(),
    decreases srcs.len(),
{
    if srcs.len() > 0 {
        lemma_count_le_len(srcs.drop_last(), k);
    }
}

/// `tally` lists every distinct entry of `srcs` once, in increasing order,
/// with the number of times it occurs.
pub open spec fn is_tally(srcs: Seq<Seq<char>>, tally: Seq<(Seq<char>, nat)>) -> bool {
    &&& forall|i: int, j: int| 0 <= i < j < tally.len() ==> chars_lt(#[trigger] tally[i].0, #[trigger] tally[j].0)
    &&& forall|i: int| 0 <= i < tally.len() ==> #[trigger] tally[i].1 == count_of(srcs, tally[i].0) && tally[i].1 > 0
    &&& forall|k: Seq<char>| count_of(srcs, k) > 0 ==> exists|i: int| 0 <= i < tally.len() && #[trigger] tally[i].0 == k
}

/// The character sequences and counts of a tally.
pub open spec fn tally_view(t: Seq<(String, usize)>) -> Seq<(Seq<char>, nat)> {
    t.map_values(|e: (String, usize)| (e.0@, e.1 as nat))
}

/// Counts the entries of `srcs`.
pub fn tally(srcs: &Vec<&str>) -> (r: Vec<(String, usize)>)
    ensures
        is_tally(srcs@.map_values(|s: &str| s@), tally_view(r@)),
{
    let ghost all = srcs@.map_values(|s: &str| s@);
    let mut t: Vec<(String, usize)> = Vec::new();
    let mut n: usize = 0;
    while n < srcs.len()
        invariant
            n <= srcs.len(),
            all == srcs@.map_values(|s: &str| s@),
            is_tally(all.take(n as int), tally_view(t@)),
        decreases srcs.len() - n,
    {
        let k = chars_of(srcs[n]);
        let ghost prev = all.take(n as int);
        let ghost next = all.take(n + 1);
        let ghost old_t = tally_view(t@);
        assert(next.drop_last() =~= prev);
        assert(next.last() == k@);
        let mut i: usize = 0;
        while i < t.len() && chars_less(&chars_of(t[i].0.as_str()), &k)
            invariant
                i <= t.len(),
                tally_view(t@) == old_t,
                forall|j: int| 0 <= j < i ==> chars_lt(#[trigger] old_t[j].0, k@),
            decreases t.len() - i,
        {
            i += 1;
        }
        let found = i < t.len() && crate::text::eq(t[i].0.as_str(), srcs[n]);
        if found {
            proof {
                lemma_count_le_len(prev, old_t[i as int].0);
                assert(t@[i as int].1 as nat == old_t[i as int].1);
            }
            let (name, c) = t.remove(i);
            t.insert(i, (name, c + 1));
        } else {
            t.insert(i, (String::from_str(srcs[n]), 1));
        }
        proof {
            let new_t = tally_view(t@);
            assert forall|kk: Seq<char>| #[trigger] count_of(next, kk) == count_of(prev, kk) + if kk == k@ { 1nat } else { 0nat } by {}
            if !found && i < old_t.len() {
                crate::text::lemma_chars_lt_total(old_t[i as int].0, k@);
            }
            if found {
                assert(new_t =~= old_t.update(i as int, (k@, old_t[i as int].1 + 1)));
            } else {
                assert(new_t =~= old_t.insert(i as int, (k@, 1nat)));
                assert forall|j: int| 0 <= j < old_t.len() implies old_t[j].0 != k@ by {
                    if j < i {
                        crate::text::lemma_chars_lt_irreflexive(k@);
                    } else {
                        if j > i {
                            crate::text::lemma_chars_lt_transitive(k@, old_t[i as int].0, old_t[j].0);
                        }
                        crate::text::lemma_chars_lt_irreflexive(k@);
                    }
                }
                assert(count_of(prev, k@) == 0);
            }
            assert forall|a: int, b: int| 0 <= a < b < new_t.len() implies chars_lt(#[trigger] new_t[a].0, #[trigger] new_t[b].0) by {
                if found {
                } else if b < i as int {
                } else if b == i as int {
                } else if a == i as int {
                    if b - 1 > i as int {
                        crate::text::lemma_chars_lt_transitive(k@, old_t[i as int].0, old_t[b - 1].0);
                    }
                } else if a < i as int {
                    assert(new_t[b] == old_t[b - 1]);
                } else {
                    assert(new_t[a] == old_t[a - 1]);
                    assert(new_t[b] == old_t[b - 1]);
                }
            }
            assert forall|a: int| 0 <= a < new_t.len() implies #[trigger] new_t[a].1 == count_of(next, new_t[a].0) && new_t[a].1 > 0 by {
                if found {
                    if a != i as int {
                        assert(new_t[a] == old_t[a]);
                        if old_t[a].0 == k@ {
                            if a < i as int {
                                crate::text::lemma_chars_lt_irreflexive(k@);
                            } else {
                                crate::text::lemma_chars_lt_irreflexive(k@);
                            }
                        }
                    }
                } else if a < i as int {
                    assert(new_t[a] == old_t[a]);
                } else if a > i as int {
                    assert(new_t[a] == old_t[a - 1]);
                }
            }
            assert forall|kk: Seq<char>| count_of(next, kk) > 0 implies exists|a: int| 0 <= a < new_t.len() && #[trigger] new_t[a].0 == kk by {
                if kk == k@ {
                    assert(new_t[i as int].0 == kk);
                } else {
                    let a = choose|a: int| 0 <= a < old_t.len() && #[trigger] old_t[a].0 == kk;
                    if found || a < i as int {
                        assert(new_t[a].0 == kk);
                    } else {
                        assert(new_t[a + 1].0 == kk);
                    }
                }
            }
        }
        n += 1;
    }
    assert(all.take(n as int) =~= all);
    t
}

} // verus!
