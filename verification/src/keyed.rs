//! Small maps from text keys to plain values, kept as lists of entries. A
//! later entry for a key overrides an earlier one; the operations here keep
//! at most one entry per key.
use vstd::prelude::*;
use crate::text;

verus! {

/// The map that a list of entries stands for.
pub open spec fn keyed_view<V>(s: Seq<(String, V)>) -> Map<Seq<char>, V>
    decreases s.len(),
{
    if s.len() == 0 {
        Map::empty()
    } else {
        keyed_view(s.drop_last()).insert(s.last().0@, s.last().1)
    }
}

/// The entries without key `k`, in order.
pub open spec fn keyed_without<V>(s: Seq<(String, V)>, k: Seq<char>) -> Seq<(String, V)>
    decreases s.len(),
{
    if s.len() == 0 {
        Seq::empty()
    } else {
        let rest = keyed_without(s.drop_last(), k);
        if s.last().0@ == k {
            rest
        } else {
            rest.push(s.last())
        }
    }
}

pub proof fn lemma_keyed_without<V>(s: Seq<(String, V)>, k: Seq<char>)
    ensures
        keyed_view(keyed_without(s, k)) =~= keyed_view(s).remove(k),
        keyed_without(s, k).len() <= s.len(),
    decreases s.len(),
{
    if s.len() > 0 {
        let t = s.drop_last();
        lemma_keyed_without(t, k);
        let rest = keyed_without(t, k);
        if s.last().0@ != k {
            assert(rest.push(s.last()).drop_last() =~= rest);
            assert(keyed_view(rest.push(s.last())) == keyed_view(rest).insert(
                s.last().0@,
                s.last().1,
            ));
        }
    }
}

/// When no entry after `i` has key `k` and entry `i` has it, the map's value
/// at `k` is entry `i`'s.
pub proof fn lemma_keyed_last<V>(s: Seq<(String, V)>, k: Seq<char>, i: int)
    requires
        0 <= i < s.len(),
        s[i].0@ == k,
        forall|j: int| i < j < s.len() ==> s[j].0@ != k,
    ensures
        keyed_view(s).contains_key(k),
        keyed_view(s)[k] == s[i].1,
    decreases s.len(),
{
    if i < s.len() - 1 {
        lemma_keyed_last(s.drop_last(), k, i);
    }
}

/// When no entry has key `k`, the map has no value at `k`.
pub proof fn lemma_keyed_absent<V>(s: Seq<(String, V)>, k: Seq<char>)
    requires
        forall|j: int| 0 <= j < s.len() ==> s[j].0@ != k,
    ensures
        !keyed_view(s).contains_key(k),
    decreases s.len(),
{
    if s.len() > 0 {
        lemma_keyed_absent(s.drop_last(), k);
    }
}

/// Index of the last entry with key `k`.
pub fn keyed_find<V>(entries: &Vec<(String, V)>, k: &str) -> (r: Option<usize>)
    ensures
        match r {
            Some(i) => i < entries@.len() && entries@[i as int].0@ == k@ && keyed_view(
                entries@,
            ).contains_key(k@) && keyed_view(entries@)[k@] == entries@[i as int].1,
            None => !keyed_view(entries@).contains_key(k@),
        },
{
    let mut i: usize = entries.len();
    while i > 0
        invariant
            i <= entries@.len(),
            forall|j: int| i <= j < entries@.len() ==> entries@[j].0@ != k@,
        decreases i,
    {
        if text::str_eq(entries[i - 1].0.as_str(), k) {
            proof {
                lemma_keyed_last(entries@, k@, i - 1);
            }
            return Some(i - 1);
        }
        i = i - 1;
    }
    proof {
        lemma_keyed_absent(entries@, k@);
    }
    None
}

/// Removes every entry with key `k`, returning the value the map had there.
pub fn keyed_remove<V: Copy>(entries: &mut Vec<(String, V)>, k: &str) -> (r: Option<V>)
    ensures
        keyed_view(final(entries)@) == keyed_view(old(entries)@).remove(k@),
        r == keyed_view(old(entries)@).get(k@),
        final(entries)@.len() <= old(entries)@.len(),
{
    let found = keyed_find(entries, k);
    let old_value = match found {
        Some(i) => Some(entries[i].1),
        None => None,
    };
    let mut kept: Vec<(String, V)> = Vec::new();
    let mut i: usize = 0;
    while i < entries.len()
        invariant
            i <= entries@.len(),
            kept@ == keyed_without(entries@.subrange(0, i as int), k@),
        decreases entries.len() - i,
    {
        proof {
            assert(entries@.subrange(0, i + 1).drop_last() =~= entries@.subrange(0, i as int));
        }
        if !text::str_eq(entries[i].0.as_str(), k) {
            kept.push((entries[i].0.clone(), entries[i].1));
        }
        i = i + 1;
    }
    proof {
        assert(entries@.subrange(0, i as int) =~= entries@);
        lemma_keyed_without(entries@, k@);
    }
    *entries = kept;
    old_value
}

/// Sets the value at `k`, replacing any entry for it.
pub fn keyed_put<V: Copy>(entries: &mut Vec<(String, V)>, k: &str, v: V)
    ensures
        keyed_view(final(entries)@) == keyed_view(old(entries)@).insert(k@, v),
        final(entries)@.len() <= old(entries)@.len() + 1,
{
    keyed_remove(entries, k);
    let ghost mid = entries@;
    entries.push((String::from_str(k), v));
    proof {
        assert(entries@.drop_last() =~= mid);
        assert(keyed_view(entries@) == keyed_view(mid).insert(k@, v));
        assert(keyed_view(entries@) =~= keyed_view(old(entries)@).insert(k@, v));
    }
}

/// The value at `k`.
pub fn keyed_get<V: Copy>(entries: &Vec<(String, V)>, k: &str) -> (r: Option<V>)
    ensures
        r == keyed_view(entries@).get(k@),
{
    match keyed_find(entries, k) {
        Some(i) => Some(entries[i].1),
        None => None,
    }
}

/// Every key of the map is the key of some entry.
pub proof fn lemma_keyed_keys<V>(s: Seq<(String, V)>, k: Seq<char>)
    requires
        keyed_view(s).contains_key(k),
    ensures
        exists|j: int| 0 <= j < s.len() && (#[trigger] s[j]).0@ == k,
    decreases s.len(),
{
    if s.last().0@ != k {
        lemma_keyed_keys(s.drop_last(), k);
        let j = choose|j: int| 0 <= j < s.len() - 1 && (#[trigger] s.drop_last()[j]).0@ == k;
        assert(s[j] == s.drop_last()[j]);
    } else {
        assert(s[s.len() - 1].0@ == k);
    }
}

} // verus!
