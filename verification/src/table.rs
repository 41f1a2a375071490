//! Name-keyed tables: the dynamic dispatch tables of a node, a client's
//! path-to-node scenegraph, and a zone's visibility map are all small maps
//! from strings to ids, kept as association lists with distinct keys.

use vstd::prelude::*;

verus! {

/// First value bound to `key`, scanning from the front.
pub open spec fn tbl_lookup(t: Seq<(String, u64)>, key: Seq<char>) -> Option<u64>
    decreases t.len(),
{
    if t.len() == 0 {
        None
    } else if t[0].0@ == key {
        Some(t[0].1)
    } else {
        tbl_lookup(t.drop_first(), key)
    }
}

/// All keys distinct.
pub open spec fn tbl_unique(t: Seq<(String, u64)>) -> bool {
    forall|i: int, j: int| 0 <= i < j < t.len() ==> t[i].0@ != t[j].0@
}

/// With distinct keys, a lookup returns the value at the (single) index that
/// carries the key, and fails exactly when no index does.
pub proof fn lemma_tbl_lookup_char(t: Seq<(String, u64)>, key: Seq<char>)
    requires
        tbl_unique(t),
    ensures
        forall|i: int|
            0 <= i < t.len() && t[i].0@ == key ==> tbl_lookup(t, key) == Some(t[i].1),
        tbl_lookup(t, key) is None <==> (forall|i: int| 0 <= i < t.len() ==> t[i].0@ != key),
    decreases t.len(),
{
    if t.len() > 0 {
        assert(forall|i: int, j: int|
            0 <= i < j < t.drop_first().len() ==> t.drop_first()[i].0@ != t.drop_first()[j].0@);
        lemma_tbl_lookup_char(t.drop_first(), key);
        if t[0].0@ != key {
            assert(forall|i: int|
                1 <= i < t.len() ==> t[i] == t.drop_first()[i - 1]);
        }
    }
}

/// Look a key up in a table.
pub fn tbl_get(t: &Vec<(String, u64)>, key: &String) -> (r: Option<u64>)
    ensures
        r == tbl_lookup(t@, key@),
{
    let n = t.len();
    let mut i: usize = 0;
    proof {
        assert(t@.skip(0) =~= t@);
    }
    while i < n
        invariant
            0 <= i <= n,
            n == t@.len(),
            tbl_lookup(t@, key@) == tbl_lookup(t@.skip(i as int), key@),
        decreases n - i,
    {
        if t[i].0 == *key {
            proof {
                assert(t@.skip(i as int)[0] == t@[i as int]);
            }
            return Some(t[i].1);
        }
        proof {
            assert(t@.skip(i as int)[0] == t@[i as int]);
            assert(t@.skip(i as int).drop_first() =~= t@.skip(i as int + 1));
        }
        i += 1;
    }
    proof {
        assert(t@.skip(n as int) =~= Seq::<(String, u64)>::empty());
    }
    None
}

/// Bind a key to a value, replacing any existing binding.
pub fn tbl_set(t: &mut Vec<(String, u64)>, key: String, value: u64)
    requires
        tbl_unique(old(t)@),
    ensures
        tbl_unique(final(t)@),
        tbl_lookup(final(t)@, key@) == Some(value),
        forall|k: Seq<char>| k != key@ ==> tbl_lookup(final(t)@, k) == tbl_lookup(old(t)@, k),
        final(t)@.len() <= old(t)@.len() + 1,
        forall|i: int|
            0 <= i < final(t)@.len() ==> ((#[trigger] final(t)@[i]).1 == value || old(
                t,
            )@.contains(final(t)@[i])),
{
    let n = t.len();
    let mut i: usize = 0;
    while i < n
        invariant
            0 <= i <= n,
            n == t@.len(),
            t@ == old(t)@,
            tbl_unique(old(t)@),
            forall|j: int| 0 <= j < i ==> t@[j].0@ != key@,
        decreases n - i,
    {
        if t[i].0 == key {
            t[i] = (key, value);
            proof {
                lemma_tbl_set_at(old(t)@, t@, i as int, key@, value);
                assert forall|j: int|
                    0 <= j < t@.len() implies ((#[trigger] t@[j]).1 == value || old(
                    t,
                )@.contains(t@[j])) by {
                    if j != i as int {
                        assert(t@[j] == old(t)@[j]);
                    }
                }
            }
            return;
        }
        i += 1;
    }
    t.push((key, value));
    proof {
        assert(t@.drop_last() =~= old(t)@);
        lemma_tbl_push(old(t)@, t@, key@, value);
        assert forall|j: int|
            0 <= j < t@.len() implies ((#[trigger] t@[j]).1 == value || old(t)@.contains(
            t@[j],
        )) by {
            if j < t@.len() - 1 {
                assert(t@[j] == old(t)@[j]);
            }
        }
    }
}

/// Drop the binding of a key, if any.
pub fn tbl_remove(t: &mut Vec<(String, u64)>, key: &String)
    requires
        tbl_unique(old(t)@),
    ensures
        tbl_unique(final(t)@),
        tbl_lookup(final(t)@, key@) is None,
        forall|k: Seq<char>| k != key@ ==> tbl_lookup(final(t)@, k) == tbl_lookup(old(t)@, k),
        forall|i: int| 0 <= i < final(t)@.len() ==> old(t)@.contains(#[trigger] final(t)@[i]),
{
    let n = t.len();
    let mut i: usize = 0;
    while i < n
        invariant
            0 <= i <= n,
            n == t@.len(),
            t@ == old(t)@,
            tbl_unique(old(t)@),
            forall|j: int| 0 <= j < i ==> t@[j].0@ != key@,
        decreases n - i,
    {
        if t[i].0 == *key {
            t.remove(i);
            proof {
                lemma_tbl_remove_at(old(t)@, t@, i as int, key@);
            }
            return;
        }
        i += 1;
    }
    proof {
        lemma_tbl_lookup_char(t@, key@);
        assert forall|j: int| 0 <= j < t@.len() implies old(t)@.contains(#[trigger] t@[j]) by {
            assert(old(t)@[j] == t@[j]);
        }
    }
}

/// Whether a name set holds a name.
pub open spec fn has_name(names: Seq<String>, key: Seq<char>) -> bool {
    exists|i: int| 0 <= i < names.len() && names[i]@ == key
}

/// Membership test in a name set (an allow-list).
pub fn contains_name(names: &Vec<String>, key: &String) -> (r: bool)
    ensures
        r == has_name(names@, key@),
{
    let n = names.len();
    let mut i: usize = 0;
    while i < n
        invariant
            0 <= i <= n,
            n == names@.len(),
            forall|j: int| 0 <= j < i ==> names@[j]@ != key@,
        decreases n - i,
    {
        if names[i] == *key {
            return true;
        }
        i += 1;
    }
    false
}

proof fn lemma_tbl_set_at(prev: Seq<(String, u64)>, cur: Seq<(String, u64)>, i: int, key: Seq<char>, value: u64)
    requires
        tbl_unique(prev),
        0 <= i < prev.len(),
        prev[i].0@ == key,
        forall|j: int| 0 <= j < i ==> prev[j].0@ != key,
        cur.len() == prev.len(),
        cur[i].0@ == key,
        cur[i].1 == value,
        forall|j: int| 0 <= j < prev.len() && j != i ==> cur[j] == prev[j],
    ensures
        tbl_unique(cur),
        tbl_lookup(cur, key) == Some(value),
        forall|k: Seq<char>| k != key ==> tbl_lookup(cur, k) == tbl_lookup(prev, k),
    decreases i,
{
    assert forall|p: int, q: int| 0 <= p < q < cur.len() implies cur[p].0@ != cur[q].0@ by {
        if p != i && q != i {
            assert(cur[p] == prev[p] && cur[q] == prev[q]);
        } else if p == i {
            assert(cur[q] == prev[q]);
        } else {
            assert(cur[p] == prev[p]);
        }
    }
    if i == 0 {
        assert(cur.drop_first() =~= prev.drop_first());
        assert(tbl_lookup(cur, key) == Some(value));
        assert forall|k: Seq<char>| k != key implies tbl_lookup(cur, k) == tbl_lookup(
            prev,
            k,
        ) by {
            assert(tbl_lookup(cur, k) == tbl_lookup(cur.drop_first(), k));
            assert(tbl_lookup(prev, k) == tbl_lookup(prev.drop_first(), k));
        }
    } else {
        assert(cur[0] == prev[0]);
        assert(prev[0].0@ != key);
        assert(forall|j: int|
            0 <= j < prev.drop_first().len() && j != i - 1 ==> cur.drop_first()[j]
                == prev.drop_first()[j]);
        assert(cur.drop_first()[i - 1] == cur[i]);
        assert(prev.drop_first()[i - 1] == prev[i]);
        lemma_tbl_set_at(prev.drop_first(), cur.drop_first(), i - 1, key, value);
        assert(tbl_lookup(cur, key) == tbl_lookup(cur.drop_first(), key));
        assert forall|k: Seq<char>| k != key implies tbl_lookup(cur, k) == tbl_lookup(
            prev,
            k,
        ) by {
            if cur[0].0@ != k {
                assert(tbl_lookup(cur, k) == tbl_lookup(cur.drop_first(), k));
                assert(tbl_lookup(prev, k) == tbl_lookup(prev.drop_first(), k));
            }
        }
    }
}

proof fn lemma_tbl_push(prev: Seq<(String, u64)>, cur: Seq<(String, u64)>, key: Seq<char>, value: u64)
    requires
        tbl_unique(prev),
        forall|j: int| 0 <= j < prev.len() ==> prev[j].0@ != key,
        cur.len() == prev.len() + 1,
        cur.drop_last() == prev,
        cur[cur.len() - 1].0@ == key,
        cur[cur.len() - 1].1 == value,
    ensures
        tbl_unique(cur),
        tbl_lookup(cur, key) == Some(value),
        forall|k: Seq<char>| k != key ==> tbl_lookup(cur, k) == tbl_lookup(prev, k),
{
    assert forall|p: int, q: int| 0 <= p < q < cur.len() implies cur[p].0@ != cur[q].0@ by {
        if q < cur.len() - 1 {
            assert(cur[p] == prev[p] && cur[q] == prev[q]);
        } else {
            assert(cur[p] == prev[p]);
        }
    }
    lemma_tbl_append_last(prev, key, value, cur);
}

proof fn lemma_tbl_append_last(prev: Seq<(String, u64)>, key: Seq<char>, value: u64, cur: Seq<(String, u64)>)
    requires
        forall|j: int| 0 <= j < prev.len() ==> prev[j].0@ != key,
        cur.len() == prev.len() + 1,
        forall|j: int| 0 <= j < prev.len() ==> cur[j] == prev[j],
        cur[cur.len() - 1].0@ == key,
        cur[cur.len() - 1].1 == value,
    ensures
        tbl_lookup(cur, key) == Some(value),
        forall|k: Seq<char>| k != key ==> tbl_lookup(cur, k) == tbl_lookup(prev, k),
    decreases prev.len(),
{
    if prev.len() == 0 {
        assert(cur.len() == 1);
        assert(cur[0].0@ == key);
        assert(tbl_lookup(cur, key) == Some(value));
        assert forall|k: Seq<char>| k != key implies tbl_lookup(cur, k) == tbl_lookup(
            prev,
            k,
        ) by {
            assert(cur.drop_first() =~= Seq::<(String, u64)>::empty());
            assert(tbl_lookup(cur, k) == tbl_lookup(cur.drop_first(), k));
        }
    } else {
        assert(cur[0] == prev[0]);
        assert(cur[0].0@ != key);
        assert(cur.drop_first()[cur.drop_first().len() - 1] == cur[cur.len() - 1]);
        assert(forall|j: int|
            0 <= j < prev.drop_first().len() ==> cur.drop_first()[j] == prev.drop_first()[j]);
        lemma_tbl_append_last(prev.drop_first(), key, value, cur.drop_first());
        assert(tbl_lookup(cur, key) == tbl_lookup(cur.drop_first(), key));
        assert forall|k: Seq<char>| k != key implies tbl_lookup(cur, k) == tbl_lookup(
            prev,
            k,
        ) by {
            if cur[0].0@ != k {
                assert(tbl_lookup(cur, k) == tbl_lookup(cur.drop_first(), k));
                assert(tbl_lookup(prev, k) == tbl_lookup(prev.drop_first(), k));
            }
        }
    }
}

proof fn lemma_tbl_remove_at(prev: Seq<(String, u64)>, cur: Seq<(String, u64)>, i: int, key: Seq<char>)
    requires
        tbl_unique(prev),
        0 <= i < prev.len(),
        prev[i].0@ == key,
        forall|j: int| 0 <= j < i ==> prev[j].0@ != key,
        cur == prev.remove(i),
    ensures
        tbl_unique(cur),
        tbl_lookup(cur, key) is None,
        forall|k: Seq<char>| k != key ==> tbl_lookup(cur, k) == tbl_lookup(prev, k),
        forall|j: int| 0 <= j < cur.len() ==> prev.contains(#[trigger] cur[j]),
{
    prev.remove_ensures(i);
    assert forall|p: int, q: int| 0 <= p < q < cur.len() implies cur[p].0@ != cur[q].0@ by {
        let pp = if p < i { p } else { p + 1 };
        let qq = if q < i { q } else { q + 1 };
        assert(cur[p] == prev[pp] && cur[q] == prev[qq]);
    }
    assert forall|j: int| 0 <= j < cur.len() implies prev.contains(#[trigger] cur[j]) by {
        let jj = if j < i { j } else { j + 1 };
        assert(cur[j] == prev[jj]);
    }
    lemma_tbl_remove_rec(prev, cur, i, key);
}

proof fn lemma_tbl_remove_rec(prev: Seq<(String, u64)>, cur: Seq<(String, u64)>, i: int, key: Seq<char>)
    requires
        tbl_unique(prev),
        0 <= i < prev.len(),
        prev[i].0@ == key,
        forall|j: int| 0 <= j < i ==> prev[j].0@ != key,
        cur == prev.remove(i),
    ensures
        tbl_lookup(cur, key) is None,
        forall|k: Seq<char>| k != key ==> tbl_lookup(cur, k) == tbl_lookup(prev, k),
    decreases i,
{
    prev.remove_ensures(i);
    if i == 0 {
        assert(cur =~= prev.drop_first());
        assert forall|j: int| 0 <= j < cur.len() implies cur[j].0@ != key by {
            assert(cur[j] == prev[j + 1]);
        }
        lemma_tbl_none_when_absent(cur, key);
        assert forall|k: Seq<char>| k != key implies tbl_lookup(cur, k) == tbl_lookup(
            prev,
            k,
        ) by {
            assert(tbl_lookup(prev, k) == tbl_lookup(prev.drop_first(), k));
        }
    } else {
        assert(cur[0] == prev[0]);
        assert(prev[0].0@ != key);
        assert(cur.drop_first() =~= prev.drop_first().remove(i - 1));
        assert(forall|j: int|
            0 <= j < prev.drop_first().len() ==> prev.drop_first()[j] == prev[j + 1]);
        lemma_tbl_remove_rec(prev.drop_first(), cur.drop_first(), i - 1, key);
        assert(tbl_lookup(cur, key) == tbl_lookup(cur.drop_first(), key));
        assert forall|k: Seq<char>| k != key implies tbl_lookup(cur, k) == tbl_lookup(
            prev,
            k,
        ) by {
            if cur[0].0@ != k {
                assert(tbl_lookup(cur, k) == tbl_lookup(cur.drop_first(), k));
                assert(tbl_lookup(prev, k) == tbl_lookup(prev.drop_first(), k));
            }
        }
    }
}

proof fn lemma_tbl_none_when_absent(t: Seq<(String, u64)>, key: Seq<char>)
    requires
        forall|j: int| 0 <= j < t.len() ==> t[j].0@ != key,
    ensures
        tbl_lookup(t, key) is None,
    decreases t.len(),
{
    if t.len() > 0 {
        assert(forall|j: int| 0 <= j < t.drop_first().len() ==> t.drop_first()[j] == t[j + 1]);
        lemma_tbl_none_when_absent(t.drop_first(), key);
    }
}

} // verus!
