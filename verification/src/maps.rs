//! Maps that are keyed by numbers.
use std::collections::BTreeMap;
use vstd::prelude::*;

verus! {

/// The lowest number, from `from` on, that the map has no entry for.
pub open spec fn is_lowest_free<V>(m: Map<usize, V>, from: usize, n: usize) -> bool {
    &&& from <= n
    &&& !m.contains_key(n)
    &&& forall|i: usize| from <= i < n ==> #[trigger] m.contains_key(i)
}

/// Some number, from `from` on, that the map has no entry for.
pub open spec fn has_free<V>(m: Map<usize, V>, from: usize) -> bool {
    exists|n: usize| from <= n && !(#[trigger] m.contains_key(n))
}

/// The keys of a map, each once, in ascending order.
pub open spec fn is_key_list<V>(keys: Seq<usize>, m: Map<usize, V>) -> bool {
    &&& forall|i: int, j: int| 0 <= i < j < keys.len() ==> keys[i] < keys[j]
    &&& forall|k: usize| keys.contains(k) <==> #[trigger] m.contains_key(k)
}

/// A map whose keys, from `from` on, are all there has at least as many entries.
proof fn lemma_full_map_is_long<V>(m: Map<usize, V>, from: usize, to: usize)
    requires
        m.dom().finite(),
        from <= to,
        forall|i: usize| from <= i < to ==> #[trigger] m.contains_key(i),
    ensures
        m.len() >= to - from,
    decreases to - from,
{
    if from < to {
        let last = (to - 1) as usize;
        let rest = m.remove(last);
        assert(m.contains_key(last));
        assert forall|i: usize| from <= i < last implies #[trigger] rest.contains_key(i) by {
            assert(m.contains_key(i));
        }
        lemma_full_map_is_long(rest, from, last);
        assert(m.dom().remove(last) == rest.dom());
    }
}

/// A map with fewer entries than there are numbers from `from` on has a free one.
pub proof fn law_short_map_has_free<V>(m: Map<usize, V>, from: usize)
    requires
        m.dom().finite(),
        m.len() <= usize::MAX - from,
    ensures
        has_free(m, from),
{
    if !has_free(m, from) {
        assert(m.contains_key(usize::MAX));
        let rest = m.remove(usize::MAX);
        assert forall|i: usize| from <= i < usize::MAX implies #[trigger] rest.contains_key(i) by {
            assert(m.contains_key(i));
        }
        lemma_full_map_is_long(rest, from, usize::MAX);
        assert(m.dom().remove(usize::MAX) == rest.dom());
    }
}

/// The lowest free number is unique.
pub proof fn law_lowest_free_is_unique<V>(m: Map<usize, V>, from: usize, a: usize, b: usize)
    requires
        is_lowest_free(m, from, a),
        is_lowest_free(m, from, b),
    ensures
        a == b,
{
    if a < b {
        assert(m.contains_key(a));
    } else if b < a {
        assert(m.contains_key(b));
    }
}

/// There are more numbers than a map can have entries, so one of them is free.
pub proof fn law_some_number_is_free<V>(m: &BTreeMap<usize, V>)
    ensures
        has_free(m@, 0),
{
    broadcast use vstd::std_specs::btree::group_btree_axioms;

    assert(vstd::std_specs::btree::spec_btree_map_len(m) == m@.len());
    law_short_map_has_free(m@, 0);
}

/// A map has one key list.
pub proof fn law_key_list_is_unique<V>(m: Map<usize, V>, a: Seq<usize>, b: Seq<usize>)
    requires
        is_key_list(a, m),
        is_key_list(b, m),
    ensures
        a == b,
    decreases a.len(),
{
    if a.len() == 0 {
        if b.len() > 0 {
            assert(b.contains(b[0]));
            assert(m.contains_key(b[0]));
        }
        assert(a =~= b);
    } else {
        lemma_last_is_greatest(m, a);
        assert(a.contains(a.last()));
        assert(m.contains_key(a.last()));
        lemma_last_is_greatest(m, b);
        assert(b.contains(b.last()));
        assert(m.contains_key(b.last()));
        law_key_list_is_unique(m.remove(a.last()), a.drop_last(), b.drop_last());
        assert(a =~= a.drop_last().push(a.last()));
        assert(b =~= b.drop_last().push(b.last()));
    }
}

/// The last key is the greatest, and those before it are the keys of the map without it.
proof fn lemma_last_is_greatest<V>(m: Map<usize, V>, keys: Seq<usize>)
    requires
        is_key_list(keys, m),
        keys.len() > 0,
    ensures
        forall|k: usize| #[trigger] m.contains_key(k) ==> k <= keys.last(),
        is_key_list(keys.drop_last(), m.remove(keys.last())),
{
    let rest = keys.drop_last();
    assert forall|k: usize| #[trigger] m.contains_key(k) implies k <= keys.last() by {
        let i = keys.index_of(k);
        assert(keys[i] == k);
    }
    assert forall|k: usize|
        rest.contains(k) <==> #[trigger] m.remove(keys.last()).contains_key(k) by {
        if rest.contains(k) {
            let i = rest.index_of(k);
            assert(keys[i] == k);
            assert(keys.contains(k));
        }
        if m.contains_key(k) && k != keys.last() {
            let i = keys.index_of(k);
            assert(rest[i] == k);
        }
    }
}

/// The lowest number, from `from` on, that the map has no entry for, if there is one.
pub fn find_free<V>(m: &BTreeMap<usize, V>, from: usize) -> (r: Option<usize>)
    ensures
        match r {
            Some(n) => is_lowest_free(m@, from, n),
            None => !has_free(m@, from),
        },
{
    broadcast use vstd::std_specs::btree::group_btree_axioms;

    let mut n = from;
    while m.contains_key(&n)
        invariant
            from <= n,
            forall|i: usize| from <= i < n ==> #[trigger] m@.contains_key(i),
        decreases usize::MAX - n,
    {
        if n == usize::MAX {
            return None;
        }
        n = n + 1;
    }
    Some(n)
}

/// The lowest number, from `from` on, that the map has no entry for.
pub fn lowest_free<V>(m: &BTreeMap<usize, V>, from: usize) -> (r: usize)
    requires
        has_free(m@, from),
    ensures
        is_lowest_free(m@, from, r),
{
    find_free(m, from).unwrap()
}

/// The keys of a map, in ascending order.
pub fn key_list<V>(m: &BTreeMap<usize, V>) -> (r: Vec<usize>)
    ensures
        is_key_list(r@, m@),
{
    broadcast use vstd::std_specs::btree::group_btree_axioms;

    let mut keys: Vec<usize> = Vec::new();
    let entries = m.iter();
    let ghost items = vstd::std_specs::iter::IteratorSpec::remaining(&entries);
    for entry in iter: entries
        invariant
            iter.seq() == items,
            keys@.len() == iter.index(),
            forall|i: int| 0 <= i < iter.index() ==> #[trigger] keys@[i] == *items[i].0,
    {
        keys.push(*entry.0);
    }
    proof {
        let listed = items.map_values(|kv: (&usize, &V)| *kv.0);
        assert(keys@ =~= listed);
        assert(vstd::std_specs::btree::increasing_seq(listed));
        assert forall|i: int, j: int| 0 <= i < j < listed.len() implies listed[i] < listed[j] by {
            assert(vstd::std_specs::cmp::OrdSpec::cmp_spec(&listed[i], &listed[j]) is Less);
        }
        assert forall|k: usize| keys@.contains(k) <==> #[trigger] m@.contains_key(k) by {
            if keys@.contains(k) {
                let i = keys@.index_of(k);
                assert(m@.contains_key(*items[i].0));
            }
            if m@.contains_key(k) {
                let i = items.index_of((&k, &m@[k]));
                assert(keys@[i] == k);
            }
        }
    }
    keys
}

} // verus!
