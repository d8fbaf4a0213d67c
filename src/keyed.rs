//! Vectors of records with unique string keys, viewed as maps.
use vstd::prelude::*;

verus! {

/// A record identified by a string key.
pub trait Keyed {
    spec fn key(&self) -> Seq<char>;
}

/// No two positions of `s` hold records with the same key.
pub open spec fn unique_keys<T: Keyed>(s: Seq<T>) -> bool {
    forall|i: int, j: int|
        0 <= i < s.len() && 0 <= j < s.len() && i != j ==> #[trigger] s[i].key() != #[trigger] s[j].key()
}

/// The map from key to record that a sequence of records stands for.
pub open spec fn keyed_map<T: Keyed>(s: Seq<T>) -> Map<Seq<char>, T>
    decreases s.len(),
{
    if s.len() == 0 {
        Map::empty()
    } else {
        keyed_map(s.drop_last()).insert(s.last().key(), s.last())
    }
}

pub proof fn lemma_unique_drop_last<T: Keyed>(s: Seq<T>)
    requires
        unique_keys(s),
        s.len() > 0,
    ensures
        unique_keys(s.drop_last()),
{
    let p = s.drop_last();
    assert forall|i: int, j: int|
        0 <= i < p.len() && 0 <= j < p.len() && i != j implies #[trigger] p[i].key() != #[trigger] p[j].key() by {
        assert(p[i] == s[i]);
        assert(p[j] == s[j]);
    }
}

pub proof fn lemma_keyed_map_dom<T: Keyed>(s: Seq<T>, k: Seq<char>)
    ensures
        keyed_map(s).contains_key(k) <==> exists|i: int| 0 <= i < s.len() && #[trigger] s[i].key() == k,
    decreases s.len(),
{
    if s.len() > 0 {
        let p = s.drop_last();
        lemma_keyed_map_dom(p, k);
        if keyed_map(p).contains_key(k) {
            let i = choose|i: int| 0 <= i < p.len() && #[trigger] p[i].key() == k;
            assert(s[i] == p[i]);
        }
        if exists|i: int| 0 <= i < s.len() && #[trigger] s[i].key() == k {
            let i = choose|i: int| 0 <= i < s.len() && #[trigger] s[i].key() == k;
            if i < s.len() - 1 {
                assert(p[i] == s[i]);
            }
        }
    }
}

pub proof fn lemma_keyed_map_at<T: Keyed>(s: Seq<T>, i: int)
    requires
        unique_keys(s),
        0 <= i < s.len(),
    ensures
        keyed_map(s).contains_key(s[i].key()),
        keyed_map(s)[s[i].key()] == s[i],
    decreases s.len(),
{
    if i < s.len() - 1 {
        let p = s.drop_last();
        lemma_unique_drop_last(s);
        assert(p[i] == s[i]);
        lemma_keyed_map_at(p, i);
        assert(s[s.len() - 1].key() != s[i].key());
    }
}

pub proof fn lemma_keyed_map_push<T: Keyed>(s: Seq<T>, e: T)
    requires
        unique_keys(s),
        !keyed_map(s).contains_key(e.key()),
    ensures
        keyed_map(s.push(e)) == keyed_map(s).insert(e.key(), e),
        unique_keys(s.push(e)),
{
    let q = s.push(e);
    assert(q.drop_last() =~= s);
    assert forall|i: int, j: int|
        0 <= i < q.len() && 0 <= j < q.len() && i != j implies #[trigger] q[i].key() != #[trigger] q[j].key() by {
        if i == s.len() {
            assert(q[j] == s[j]);
            lemma_keyed_map_dom(s, e.key());
        } else if j == s.len() {
            assert(q[i] == s[i]);
            lemma_keyed_map_dom(s, e.key());
        } else {
            assert(q[i] == s[i]);
            assert(q[j] == s[j]);
        }
    }
}

pub proof fn lemma_keyed_map_update<T: Keyed>(s: Seq<T>, i: int, e: T)
    requires
        unique_keys(s),
        0 <= i < s.len(),
        e.key() == s[i].key(),
    ensures
        keyed_map(s.update(i, e)) == keyed_map(s).insert(e.key(), e),
        unique_keys(s.update(i, e)),
    decreases s.len(),
{
    let u = s.update(i, e);
    assert forall|a: int, b: int|
        0 <= a < u.len() && 0 <= b < u.len() && a != b implies #[trigger] u[a].key() != #[trigger] u[b].key() by {
        if a != i {
            assert(u[a] == s[a]);
        }
        if b != i {
            assert(u[b] == s[b]);
        }
    }
    if i == s.len() - 1 {
        assert(u.drop_last() =~= s.drop_last());
        assert(keyed_map(u) =~= keyed_map(s).insert(e.key(), e));
    } else {
        assert(u.drop_last() =~= s.drop_last().update(i, e));
        lemma_unique_drop_last(s);
        lemma_keyed_map_update(s.drop_last(), i, e);
        assert(s.last().key() != s[i].key());
        assert(keyed_map(u) =~= keyed_map(s).insert(e.key(), e));
    }
}

pub proof fn lemma_keyed_map_remove<T: Keyed>(s: Seq<T>, i: int)
    requires
        unique_keys(s),
        0 <= i < s.len(),
    ensures
        keyed_map(s.remove(i)) == keyed_map(s).remove(s[i].key()),
        unique_keys(s.remove(i)),
    decreases s.len(),
{
    let r = s.remove(i);
    let k = s[i].key();
    assert forall|a: int, b: int|
        0 <= a < r.len() && 0 <= b < r.len() && a != b implies #[trigger] r[a].key() != #[trigger] r[b].key() by {
        let sa = if a < i { a } else { a + 1 };
        let sb = if b < i { b } else { b + 1 };
        assert(r[a] == s[sa]);
        assert(r[b] == s[sb]);
    }
    lemma_unique_drop_last(s);
    if i == s.len() - 1 {
        assert(r =~= s.drop_last());
        lemma_keyed_map_dom(s.drop_last(), k);
        if keyed_map(s.drop_last()).contains_key(k) {
            let j = choose|j: int| 0 <= j < s.drop_last().len() && #[trigger] s.drop_last()[j].key() == k;
            assert(s[j] == s.drop_last()[j]);
        }
        assert(keyed_map(r) =~= keyed_map(s).remove(k));
    } else {
        assert(r.drop_last() =~= s.drop_last().remove(i));
        assert(r.last() == s.last());
        assert(s.drop_last()[i] == s[i]);
        lemma_keyed_map_remove(s.drop_last(), i);
        assert(s.last().key() != k);
        assert(keyed_map(r) =~= keyed_map(s).remove(k));
    }
}

} // verus!
