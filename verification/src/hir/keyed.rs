//! Lists of `(name, value)` entries that stand for maps keyed by name.
use vstd::prelude::*;
use crate::text::{lemma_seq_lt_order, seq_lt, str_eq, str_lt};

verus! {

/// Some entry is called `key`.
pub open spec fn has_key<V>(entries: Seq<(String, V)>, key: Seq<char>) -> bool {
    exists|i: int| 0 <= i < entries.len() && #[trigger] entries[i].0@ == key
}

/// The value of the first entry called `key`.
pub open spec fn lookup<V>(entries: Seq<(String, V)>, key: Seq<char>) -> Option<V>
    decreases entries.len(),
{
    if entries.len() == 0 {
        None
    } else if entries[0].0@ == key {
        Some(entries[0].1)
    } else {
        lookup(entries.drop_first(), key)
    }
}

/// `lookup` finds an entry exactly when there is one.
pub proof fn lemma_lookup_has_key<V>(entries: Seq<(String, V)>, key: Seq<char>)
    ensures
        lookup(entries, key) is Some <==> has_key(entries, key),
    decreases entries.len(),
{
    if entries.len() > 0 {
        lemma_lookup_has_key(entries.drop_first(), key);
        if has_key(entries, key) && entries[0].0@ != key {
            let i = choose|i: int| 0 <= i < entries.len() && #[trigger] entries[i].0@ == key;
            assert(entries.drop_first()[i - 1].0@ == key);
        }
        if has_key(entries.drop_first(), key) {
            let i = choose|i: int| 0 <= i < entries.len() - 1 && #[trigger] entries.drop_first()[i].0@ == key;
            assert(entries[i + 1].0@ == key);
        }
    }
}

/// The index of the first entry called `key`.
pub fn find_key<V>(entries: &Vec<(String, V)>, key: &str) -> (r: Option<usize>)
    ensures
        match r {
            Some(i) => i < entries@.len() && lookup(entries@, key@) == Some(entries@[i as int].1)
                && entries@[i as int].0@ == key@
                && forall|k: int| 0 <= k < i ==> (#[trigger] entries@[k]).0@ != key@,
            None => lookup(entries@, key@) is None && !has_key(entries@, key@),
        },
{
    proof {
        lemma_lookup_has_key(entries@, key@);
        assert(entries@.skip(0) =~= entries@);
    }
    let mut i: usize = 0;
    while i < entries.len()
        invariant
            i <= entries@.len(),
            lookup(entries@, key@) == lookup(entries@.skip(i as int), key@),
            lookup(entries@, key@) is Some <==> has_key(entries@, key@),
            forall|k: int| 0 <= k < i ==> (#[trigger] entries@[k]).0@ != key@,
        decreases entries.len() - i,
    {
        if str_eq(entries[i].0.as_str(), key) {
            return Some(i);
        }
        proof {
            assert(entries@.skip(i as int).drop_first() =~= entries@.skip(i + 1));
        }
        i = i + 1;
    }
    None
}

/// Replacing the first entry called `key` by another entry called `key` makes the
/// lookup give its value.
pub proof fn lemma_lookup_update_at<V>(entries: Seq<(String, V)>, j: int, e: (String, V), key: Seq<char>)
    requires
        0 <= j < entries.len(),
        entries[j].0@ == key,
        e.0@ == key,
        forall|k: int| 0 <= k < j ==> (#[trigger] entries[k]).0@ != key,
    ensures
        lookup(entries.update(j, e), key) == Some(e.1),
    decreases j,
{
    if j > 0 {
        assert(entries[0].0@ != key);
        assert(entries.update(j, e).drop_first() =~= entries.drop_first().update(j - 1, e));
        assert forall|k: int| 0 <= k < j - 1 implies (#[trigger] entries.drop_first()[k]).0@ != key by {
            assert(entries[k + 1].0@ != key);
        }
        lemma_lookup_update_at(entries.drop_first(), j - 1, e, key);
    }
}

/// Whether some entry is called `key`.
pub fn contains_key<V>(entries: &Vec<(String, V)>, key: &str) -> (b: bool)
    ensures
        b == has_key(entries@, key@),
{
    find_key(entries, key).is_some()
}


/// Filtering a sequence grown by one element.
pub proof fn lemma_filter_push<T>(s: Seq<T>, x: T, pred: spec_fn(T) -> bool)
    ensures
        s.push(x).filter(pred) == (if pred(x) { s.filter(pred).push(x) } else { s.filter(pred) }),
{
    reveal(Seq::filter);
    assert(s.push(x).drop_last() =~= s);
}

/// The elements of `v`, last first.
pub fn reversed<T>(v: Vec<T>) -> (r: Vec<T>)
    ensures
        r@ == v@.reverse(),
{
    let ghost all = v@;
    let mut rest = v;
    let mut out: Vec<T> = Vec::new();
    while rest.len() > 0
        invariant
            rest@ + out@.reverse() == all,
        decreases rest.len(),
    {
        let x = rest.pop().unwrap();
        proof {
            assert(out@.push(x).reverse() =~= seq![x] + out@.reverse());
        }
        out.push(x);
    }
    proof {
        assert(rest@ + out@.reverse() =~= out@.reverse());
        assert(out@.reverse().reverse() =~= out@);
    }
    out
}

/// The elements of `v` whose flag is set, in their order; the flags are those of `pred`.
pub fn keep_flagged<T>(v: Vec<T>, flags: &Vec<bool>, Ghost(pred): Ghost<spec_fn(T) -> bool>) -> (r: Vec<T>)
    requires
        flags@.len() == v@.len(),
        forall|k: int| 0 <= k < v@.len() ==> flags@[k] == pred(#[trigger] v@[k]),
    ensures
        r@ == v@.filter(pred),
{
    let ghost all = v@;
    let n: usize = v.len();
    let mut back = reversed(v);
    proof {
        assert(all.take(0) + back@.reverse() =~= all);
        assert(all.take(0).filter(pred) =~= Seq::<T>::empty()) by {
            reveal(Seq::filter);
        }
    }
    let mut kept: Vec<T> = Vec::new();
    let mut i: usize = 0;
    while back.len() > 0
        invariant
            all.take(i as int) + back@.reverse() == all,
            i + back@.len() == all.len(),
            all.len() == n,
            kept@ == all.take(i as int).filter(pred),
            flags@.len() == all.len(),
            forall|k: int| 0 <= k < all.len() ==> flags@[k] == pred(#[trigger] all[k]),
        decreases back.len(),
    {
        let ghost prev = back@;
        let x = back.pop().unwrap();
        proof {
            assert(prev =~= back@.push(x));
            assert(back@.push(x).reverse() =~= seq![x] + back@.reverse());
            assert(all[i as int] == (all.take(i as int) + prev.reverse())[i as int]);
            assert(all[i as int] == x);
            assert(all.take(i + 1) =~= all.take(i as int).push(x));
            assert(all.take(i + 1) + back@.reverse() =~= all.take(i as int) + prev.reverse());
            lemma_filter_push(all.take(i as int), x, pred);
        }
        if flags[i] {
            kept.push(x);
        }
        i = i + 1;
    }
    proof {
        assert(all.take(i as int) =~= all);
    }
    kept
}


/// Replacing an entry by one of the same name leaves the lookup of other names alone.
pub proof fn lemma_lookup_update_other<V>(entries: Seq<(String, V)>, j: int, e: (String, V), other: Seq<char>)
    requires
        0 <= j < entries.len(),
        e.0@ == entries[j].0@,
        other != e.0@,
    ensures
        lookup(entries.update(j, e), other) == lookup(entries, other),
    decreases j,
{
    let u = entries.update(j, e);
    if j > 0 {
        assert(u.drop_first() =~= entries.drop_first().update(j - 1, e));
        assert(u[0] == entries[0]);
        lemma_lookup_update_other(entries.drop_first(), j - 1, e, other);
    } else {
        assert(u.drop_first() =~= entries.drop_first());
        assert(u[0].0@ != other);
    }
}

/// Adding an entry at the end changes the lookup of its name only, where there was none.
pub proof fn lemma_lookup_push<V>(entries: Seq<(String, V)>, e: (String, V), k: Seq<char>)
    requires
        lookup(entries, e.0@) is None,
    ensures
        lookup(entries.push(e), k) == (if k == e.0@ { Some(e.1) } else { lookup(entries, k) }),
    decreases entries.len(),
{
    let p = entries.push(e);
    if entries.len() > 0 {
        assert(p.drop_first() =~= entries.drop_first().push(e));
        assert(p[0] == entries[0]);
        if entries[0].0@ != e.0@ {
            assert(lookup(entries.drop_first(), e.0@) is None);
            lemma_lookup_push(entries.drop_first(), e, k);
        } else {
            assert(lookup(entries, e.0@) == Some(entries[0].1));
        }
    } else {
        assert(p.drop_first() =~= Seq::<(String, V)>::empty());
        assert(p[0] == e);
        assert(lookup(p.drop_first(), k) is None);
        assert(lookup(entries, k) is None);
    }
}

/// Sets the value under `key`: the first entry called `key` gets it, or, where there is
/// none, an entry is added at the end.
pub fn set_entry<V>(entries: &mut Vec<(String, V)>, key: String, value: V)
    ensures
        lookup(final(entries)@, key@) == Some(value),
        forall|k: Seq<char>| k != key@ ==> #[trigger] lookup(final(entries)@, k) == lookup(old(entries)@, k),
{
    let ghost s0 = entries@;
    let ghost kv = key@;
    match find_key(entries, key.as_str()) {
        Some(i) => {
            let ghost e = (key, value);
            entries.set(i, (key, value));
            proof {
                lemma_lookup_update_at(s0, i as int, e, kv);
                assert forall|k: Seq<char>| k != kv implies #[trigger] lookup(entries@, k) == lookup(s0, k) by {
                    lemma_lookup_update_other(s0, i as int, e, k);
                }
            }
        },
        None => {
            let ghost e = (key, value);
            entries.push((key, value));
            proof {
                lemma_lookup_push(s0, e, kv);
                assert forall|k: Seq<char>| k != kv implies #[trigger] lookup(entries@, k) == lookup(s0, k) by {
                    lemma_lookup_push(s0, e, k);
                }
            }
        },
    }
}


/// Filtering keeps everything when every element passes.
pub proof fn lemma_filter_all<T>(s: Seq<T>, pred: spec_fn(T) -> bool)
    requires
        forall|i: int| 0 <= i < s.len() ==> pred(#[trigger] s[i]),
    ensures
        s.filter(pred) == s,
    decreases s.len(),
{
    reveal(Seq::filter);
    if s.len() > 0 {
        lemma_filter_all(s.drop_last(), pred);
        assert(s.drop_last().push(s.last()) =~= s);
    }
}

/// Filtering twice is filtering once.
pub proof fn lemma_filter_twice<T>(s: Seq<T>, pred: spec_fn(T) -> bool)
    ensures
        s.filter(pred).filter(pred) == s.filter(pred),
{
    assert forall|i: int| 0 <= i < s.filter(pred).len() implies pred(#[trigger] s.filter(pred)[i]) by {
        s.lemma_filter_pred(pred, i);
    }
    lemma_filter_all(s.filter(pred), pred);
}


/// No name is the key of two entries.
pub open spec fn distinct_keys<V>(e: Seq<(String, V)>) -> bool {
    forall|i: int, j: int| 0 <= i < j < e.len() ==> #[trigger] e[i].0@ != #[trigger] e[j].0@
}

/// The keys are in strictly increasing order (as a `BTreeMap` keeps them).
pub open spec fn sorted_keys<V>(e: Seq<(String, V)>) -> bool {
    forall|i: int, j: int| 0 <= i < j < e.len() ==> crate::text::seq_lt(#[trigger] e[i].0@, #[trigger] e[j].0@)
}

/// Keys in strictly increasing order are distinct.
pub proof fn lemma_sorted_keys_distinct<V>(e: Seq<(String, V)>)
    requires
        sorted_keys(e),
    ensures
        distinct_keys(e),
{
    assert forall|i: int, j: int| 0 <= i < j < e.len() implies #[trigger] e[i].0@ != #[trigger] e[j].0@ by {
        crate::text::lemma_seq_lt_order(e[i].0@, e[j].0@, e[j].0@);
    }
}


/// Every entry of a filtered list is an entry of the list.
pub proof fn lemma_filter_from<T>(s: Seq<T>, pred: spec_fn(T) -> bool)
    ensures
        forall|i: int| 0 <= i < s.filter(pred).len() ==> s.contains(#[trigger] s.filter(pred)[i]),
    decreases s.len(),
{
    if s.len() > 0 {
        let d = s.drop_last();
        assert(d.push(s.last()) =~= s);
        lemma_filter_from(d, pred);
        lemma_filter_push(d, s.last(), pred);
        assert forall|i: int| 0 <= i < s.filter(pred).len() implies s.contains(#[trigger] s.filter(pred)[i]) by {
            if i < d.filter(pred).len() {
                assert(s.filter(pred)[i] == d.filter(pred)[i]);
                let j = choose|j: int| 0 <= j < d.len() && d[j] == d.filter(pred)[i];
                assert(s[j] == d[j]);
            } else {
                assert(s[s.len() - 1] == s.filter(pred)[i]);
            }
        }
    } else {
        reveal(Seq::filter);
    }
}

/// Keeping some entries of a list with increasing keys leaves the keys increasing.
pub proof fn lemma_filter_sorted<V>(s: Seq<(String, V)>, pred: spec_fn((String, V)) -> bool)
    requires
        sorted_keys(s),
    ensures
        sorted_keys(s.filter(pred)),
    decreases s.len(),
{
    if s.len() > 0 {
        let d = s.drop_last();
        let x = s.last();
        assert(d.push(x) =~= s);
        assert forall|i: int, j: int| 0 <= i < j < d.len() implies seq_lt(#[trigger] d[i].0@, #[trigger] d[j].0@) by {
            assert(d[i] == s[i] && d[j] == s[j]);
        }
        lemma_filter_sorted(d, pred);
        lemma_filter_push(d, x, pred);
        lemma_filter_from(d, pred);
        let f = d.filter(pred);
        if pred(x) {
            assert forall|i: int, j: int| 0 <= i < j < f.push(x).len()
                implies seq_lt(#[trigger] f.push(x)[i].0@, #[trigger] f.push(x)[j].0@) by {
                if j == f.len() {
                    assert(d.contains(f[i]));
                    let q = choose|q: int| 0 <= q < d.len() && d[q] == f[i];
                    assert(s[q] == f[i]);
                    assert(seq_lt(s[q].0@, s[s.len() - 1].0@));
                } else {
                    assert(f.push(x)[i] == f[i] && f.push(x)[j] == f[j]);
                }
            }
        }
    } else {
        reveal(Seq::filter);
    }
}

/// Inserting an entry at `i`: the lookups of other keys are unchanged, and its own key
/// finds it when no earlier entry has that key.
pub proof fn lemma_lookup_insert<V>(entries: Seq<(String, V)>, i: int, e: (String, V), k: Seq<char>)
    requires
        0 <= i <= entries.len(),
    ensures
        k != e.0@ ==> lookup(entries.insert(i, e), k) == lookup(entries, k),
        k == e.0@ && (forall|q: int| 0 <= q < i ==> (#[trigger] entries[q]).0@ != k)
            ==> lookup(entries.insert(i, e), k) == Some(e.1),
    decreases i,
{
    let n = entries.insert(i, e);
    if i > 0 {
        assert(n.drop_first() =~= entries.drop_first().insert(i - 1, e));
        assert(n[0] == entries[0]);
        if k == e.0@ && (forall|q: int| 0 <= q < i ==> (#[trigger] entries[q]).0@ != k) {
            assert(entries[0].0@ != k);
            assert forall|q: int| 0 <= q < i - 1 implies (#[trigger] entries.drop_first()[q]).0@ != k by {
                assert(entries[q + 1].0@ != k);
            }
        }
        lemma_lookup_insert(entries.drop_first(), i - 1, e, k);
    } else {
        assert(n.drop_first() =~= entries);
        assert(n[0] == e);
    }
}

/// Sets the value under `key` in a list kept in increasing order of keys: the entry called
/// `key` gets it, or, where there is none, an entry is added in its place in the order.
/// Lookups behave as for `set_entry` whatever the order of the list.
pub fn set_entry_sorted<V>(entries: &mut Vec<(String, V)>, key: String, value: V)
    ensures
        lookup(final(entries)@, key@) == Some(value),
        forall|k: Seq<char>| k != key@ ==> #[trigger] lookup(final(entries)@, k) == lookup(old(entries)@, k),
        sorted_keys(old(entries)@) ==> sorted_keys(final(entries)@),
{
    let ghost s0 = entries@;
    let ghost kv = key@;
    let mut pos: usize = 0;
    while pos < entries.len() && str_lt(entries[pos].0.as_str(), key.as_str())
        invariant
            entries@ == s0,
            kv == key@,
            pos <= s0.len(),
            forall|q: int| 0 <= q < pos ==> seq_lt(#[trigger] s0[q].0@, kv),
        decreases s0.len() - pos,
    {
        pos = pos + 1;
    }
    proof {
        assert forall|q: int| 0 <= q < pos implies (#[trigger] s0[q]).0@ != kv by {
            lemma_seq_lt_order(kv, kv, kv);
        }
    }
    if pos < entries.len() && str_eq(entries[pos].0.as_str(), key.as_str()) {
        let ghost e = (key, value);
        entries.set(pos, (key, value));
        proof {
            lemma_lookup_update_at(s0, pos as int, e, kv);
            assert forall|k: Seq<char>| k != kv implies #[trigger] lookup(entries@, k) == lookup(s0, k) by {
                lemma_lookup_update_other(s0, pos as int, e, k);
            }
            assert forall|i: int| 0 <= i < entries@.len() implies (#[trigger] entries@[i]).0@ == s0[i].0@ by {}
        }
    } else {
        let ghost e = (key, value);
        entries.insert(pos, (key, value));
        proof {
            let p = pos as int;
            lemma_lookup_insert(s0, p, e, kv);
            assert forall|k: Seq<char>| k != kv implies #[trigger] lookup(entries@, k) == lookup(s0, k) by {
                lemma_lookup_insert(s0, p, e, k);
            }
            if sorted_keys(s0) {
                if p < s0.len() {
                    lemma_seq_lt_order(kv, s0[p].0@, kv);
                    assert(seq_lt(kv, s0[p].0@));
                }
                assert forall|i: int, j: int| 0 <= i < j < entries@.len()
                    implies seq_lt(#[trigger] entries@[i].0@, #[trigger] entries@[j].0@) by {
                    if j < p {
                        assert(entries@[i] == s0[i] && entries@[j] == s0[j]);
                    } else if j == p {
                        assert(entries@[i] == s0[i]);
                    } else if i < p {
                        assert(entries@[i] == s0[i] && entries@[j] == s0[j - 1]);
                        lemma_seq_lt_order(s0[i].0@, kv, s0[p].0@);
                        if j - 1 > p {
                            lemma_seq_lt_order(s0[i].0@, s0[p].0@, s0[j - 1].0@);
                        }
                    } else if i == p {
                        assert(entries@[j] == s0[j - 1]);
                        if j - 1 > p {
                            lemma_seq_lt_order(kv, s0[p].0@, s0[j - 1].0@);
                        }
                    } else {
                        assert(entries@[i] == s0[i - 1] && entries@[j] == s0[j - 1]);
                    }
                }
            }
        }
    }
}

} // verus!
