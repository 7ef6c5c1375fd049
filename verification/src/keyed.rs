//! Ordered lists of `(name, value)` entries used as maps keyed by name.
//! Inserting a name that is already present replaces its value, as a map does.

use vstd::prelude::*;

use crate::text::str_eq;

verus! {

/// The map that a list of named entries stands for; a later entry wins over an earlier one.
pub open spec fn entries_map<V: View>(s: Seq<(String, V)>) -> Map<Seq<char>, V::V>
    decreases s.len(),
{
    if s.len() == 0 {
        Map::empty()
    } else {
        entries_map(s.drop_last()).insert(s.last().0@, s.last().1@)
    }
}

/// Entries of `s` whose name differs from `k`, in order.
pub open spec fn without_name<V>(s: Seq<(String, V)>, k: Seq<char>) -> Seq<(String, V)>
    decreases s.len(),
{
    if s.len() == 0 {
        s
    } else if s.last().0@ == k {
        without_name(s.drop_last(), k)
    } else {
        without_name(s.drop_last(), k).push(s.last())
    }
}

pub proof fn lemma_without_name_map<V: View>(s: Seq<(String, V)>, k: Seq<char>)
    ensures
        entries_map(without_name(s, k)) == entries_map(s).remove(k),
    decreases s.len(),
{
    if s.len() > 0 {
        lemma_without_name_map(s.drop_last(), k);
        if s.last().0@ == k {
            assert(entries_map(s).remove(k) =~= entries_map(s.drop_last()).remove(k));
        } else {
            let w = without_name(s.drop_last(), k);
            assert(w.push(s.last()).drop_last() =~= w);
            assert(entries_map(s).remove(k) =~= entries_map(s.drop_last()).remove(k).insert(
                s.last().0@,
                s.last().1@,
            ));
        }
    } else {
        assert(entries_map(s).remove(k) =~= Map::empty());
    }
}

/// No name occurs twice.
pub open spec fn names_unique<V>(s: Seq<(String, V)>) -> bool {
    forall|i: int, j: int| 0 <= i < j < s.len() ==> s[i].0@ != s[j].0@
}

proof fn lemma_without_name_unique<V>(s: Seq<(String, V)>, k: Seq<char>)
    requires
        names_unique(s),
    ensures
        names_unique(without_name(s, k)),
        forall|i: int| 0 <= i < without_name(s, k).len() ==> (#[trigger] without_name(s, k)[i]).0@ != k,
        forall|x: (String, V)| without_name(s, k).contains(x) ==> s.contains(x),
    decreases s.len(),
{
    if s.len() > 0 {
        let front = s.drop_last();
        assert(names_unique(front)) by {
            assert forall|i: int, j: int| 0 <= i < j < front.len() implies front[i].0@ != front[j].0@ by {
                assert(front[i] == s[i] && front[j] == s[j]);
            }
        }
        lemma_without_name_unique(front, k);
        let w = without_name(front, k);
        assert forall|x: (String, V)| w.contains(x) implies s.contains(x) by {
            assert(front.contains(x));
            let q = choose|q: int| 0 <= q < front.len() && front[q] == x;
            assert(front[q] == s[q]);
        }
        if s.last().0@ != k {
            let w2 = w.push(s.last());
            assert forall|i: int, j: int| 0 <= i < j < w2.len() implies w2[i].0@ != w2[j].0@ by {
                if j == w.len() {
                    assert(w2[i] == w[i]);
                    assert(w.contains(w2[i]));
                    assert(front.contains(w2[i]));
                    let q = choose|q: int| 0 <= q < front.len() && front[q] == w2[i];
                    assert(front[q] == s[q]);
                    assert(s[s.len() - 1] == w2[j]);
                } else {
                    assert(w2[i] == w[i] && w2[j] == w[j]);
                }
            }
            assert forall|x: (String, V)| w2.contains(x) implies s.contains(x) by {
                let q = choose|q: int| 0 <= q < w2.len() && w2[q] == x;
                if q < w.len() {
                    assert(w[q] == x);
                    assert(w.contains(x));
                    assert(front.contains(x));
                    let r = choose|r: int| 0 <= r < front.len() && front[r] == x;
                    assert(front[r] == s[r]);
                } else {
                    assert(s[s.len() - 1] == x);
                }
            }
            assert forall|i: int| 0 <= i < w2.len() implies (#[trigger] w2[i]).0@ != k by {
                if i < w.len() {
                    assert(w2[i] == w[i]);
                }
            }
        }
    }
}

/// Sets `name` to `value`: any earlier entry of that name leaves, the new one goes last.
pub fn keyed_insert<V: View>(entries: &mut Vec<(String, V)>, name: String, value: V)
    ensures
        entries_map(final(entries)@) == entries_map(old(entries)@).insert(name@, value@),
        names_unique(old(entries)@) ==> names_unique(final(entries)@),
{
    let ghost orig = entries@;
    let ghost mut j: int = 0;
    let mut i: usize = 0;
    while i < entries.len()
        invariant
            0 <= j <= orig.len(),
            i <= entries@.len(),
            entries@.take(i as int) == without_name(orig.take(j), name@),
            entries@.skip(i as int) == orig.skip(j),
        decreases entries@.len() - i,
    {
        assert(entries@.skip(i as int).len() > 0);
        assert(j < orig.len());
        assert(entries@[i as int] == entries@.skip(i as int)[0]);
        assert(orig.take(j + 1).drop_last() =~= orig.take(j));
        if str_eq(entries[i].0.as_str(), name.as_str()) {
            let ghost pre = entries@;
            let _removed = entries.remove(i);
            proof {
                assert(entries@.take(i as int) =~= pre.take(i as int));
                assert(entries@.skip(i as int) =~= pre.skip(i as int).drop_first());
                assert(orig.skip(j).drop_first() =~= orig.skip(j + 1));
                j = j + 1;
            }
        } else {
            proof {
                assert(entries@.take(i + 1) =~= entries@.take(i as int).push(entries@[i as int]));
            assert(entries@[i as int] == orig[j]);
            assert(without_name(orig.take(j + 1), name@) == without_name(orig.take(j), name@).push(orig[j]));
                assert(entries@.skip(i + 1) =~= entries@.skip(i as int).drop_first());
                assert(orig.skip(j).drop_first() =~= orig.skip(j + 1));
                j = j + 1;
            }
            i = i + 1;
        }
    }
    proof {
        assert(entries@.skip(i as int).len() == 0);
        assert(orig.skip(j).len() == 0);
        assert(j == orig.len());
        assert(orig.take(j) =~= orig);
        assert(entries@.take(i as int) =~= entries@);
        lemma_without_name_map(orig, name@);
        if names_unique(orig) {
            lemma_without_name_unique(orig, name@);
        }
    }
    let ghost mid = entries@;
    entries.push((name, value));
    proof {
        assert(entries@.drop_last() =~= mid);
        assert(entries_map(entries@) =~= entries_map(orig).insert(name@, value@));
        if names_unique(orig) {
            let w = entries@;
            assert forall|i: int, j: int| 0 <= i < j < w.len() implies w[i].0@ != w[j].0@ by {
                if j == w.len() - 1 {
                    assert(w[i] == mid[i]);
                } else {
                    assert(w[i] == mid[i] && w[j] == mid[j]);
                }
            }
        }
    }
}

} // verus!
