//! Collections kept in strictly ascending order of a string key — the
//! canonical form of a map from ids to records.

use vstd::prelude::*;

use crate::devices::Device;
use crate::streams::AudioStream;
use crate::text::{chars_lt, chars_of, lemma_lex_irreflexive, lemma_lex_total, lemma_lex_transitive, lex_lt};

verus! {

/// A record identified by a string key.
pub trait Keyed: View + Sized {
    spec fn key(&self) -> Seq<char>;

    fn key_str(&self) -> (r: &str)
        ensures
            r@ == self.key();
}

impl Keyed for Device {
    open spec fn key(&self) -> Seq<char> {
        self.id@
    }

    fn key_str(&self) -> (r: &str) {
        self.id.as_str()
    }
}

impl Keyed for AudioStream {
    open spec fn key(&self) -> Seq<char> {
        self.id@
    }

    fn key_str(&self) -> (r: &str) {
        self.id.as_str()
    }
}

/// Keys strictly ascend along the sequence.
pub open spec fn keys_sorted<T: Keyed>(s: Seq<T>) -> bool {
    forall|i: int, j: int| 0 <= i < j < s.len() ==> lex_lt(#[trigger] s[i].key(), #[trigger] s[j].key())
}

/// Some record of `s` has key `k`.
pub open spec fn has_key<T: Keyed>(s: Seq<T>, k: Seq<char>) -> bool {
    exists|i: int| 0 <= i < s.len() && #[trigger] s[i].key() == k
}

/// The index of the record with key `k` (meaningful when there is one).
pub open spec fn index_of_key<T: Keyed>(s: Seq<T>, k: Seq<char>) -> int {
    choose|i: int| 0 <= i < s.len() && #[trigger] s[i].key() == k
}

/// The map from keys to record values that the sequence represents.
pub open spec fn key_map<T: Keyed>(s: Seq<T>) -> Map<Seq<char>, T::V> {
    Map::new(|k: Seq<char>| has_key(s, k), |k: Seq<char>| s[index_of_key(s, k)]@)
}

/// In a sorted sequence a key occurs once.
pub proof fn lemma_sorted_unique<T: Keyed>(s: Seq<T>, i: int, j: int)
    requires
        keys_sorted(s),
        0 <= i < s.len(),
        0 <= j < s.len(),
        s[i].key() == s[j].key(),
    ensures
        i == j,
{
    lemma_lex_irreflexive(s[i].key());
    if i < j {
        assert(lex_lt(s[i].key(), s[j].key()));
    } else if j < i {
        assert(lex_lt(s[j].key(), s[i].key()));
    }
}

/// The record at `i` is what the map holds under its key.
pub proof fn lemma_key_map_at<T: Keyed>(s: Seq<T>, i: int)
    requires
        keys_sorted(s),
        0 <= i < s.len(),
    ensures
        key_map(s).contains_key(s[i].key()),
        index_of_key(s, s[i].key()) == i,
        key_map(s)[s[i].key()] == s[i]@,
{
    let k = s[i].key();
    assert(has_key(s, k));
    let j = index_of_key(s, k);
    lemma_sorted_unique(s, i, j);
}

/// Inserting a record between its neighbours keeps the order.
pub proof fn lemma_insert_sorted<T: Keyed>(s: Seq<T>, p: int, x: T)
    requires
        keys_sorted(s),
        0 <= p <= s.len(),
        forall|j: int| 0 <= j < p ==> lex_lt(#[trigger] s[j].key(), x.key()),
        p < s.len() ==> lex_lt(x.key(), s[p].key()),
    ensures
        keys_sorted(s.insert(p, x)),
{
    let t = s.insert(p, x);
    assert forall|i: int, j: int| 0 <= i < j < t.len() implies lex_lt(#[trigger] t[i].key(), #[trigger] t[j].key()) by {
        if j < p {
            assert(t[i] == s[i] && t[j] == s[j]);
        } else if j == p {
            assert(t[i] == s[i]);
        } else if i < p {
            assert(t[i] == s[i] && t[j] == s[j - 1]);
            assert(lex_lt(x.key(), s[p].key()));
            if j - 1 > p {
                assert(lex_lt(s[p].key(), s[j - 1].key()));
                lemma_lex_transitive(x.key(), s[p].key(), s[j - 1].key());
            }
            lemma_lex_transitive(s[i].key(), x.key(), s[j - 1].key());
        } else if i == p {
            assert(t[j] == s[j - 1]);
            if j - 1 > p {
                assert(lex_lt(s[p].key(), s[j - 1].key()));
                lemma_lex_transitive(x.key(), s[p].key(), s[j - 1].key());
            }
        } else {
            assert(t[i] == s[i - 1] && t[j] == s[j - 1]);
        }
    }
}

/// Replacing a record by one with the same key keeps the order.
pub proof fn lemma_update_sorted<T: Keyed>(s: Seq<T>, p: int, x: T)
    requires
        keys_sorted(s),
        0 <= p < s.len(),
        x.key() == s[p].key(),
    ensures
        keys_sorted(s.update(p, x)),
{
    let t = s.update(p, x);
    assert forall|i: int, j: int| 0 <= i < j < t.len() implies lex_lt(#[trigger] t[i].key(), #[trigger] t[j].key()) by {
        assert(lex_lt(s[i].key(), s[j].key()));
    }
}

/// Inserting a record with a new key adds that key to the map.
pub proof fn lemma_key_map_insert<T: Keyed>(s: Seq<T>, p: int, x: T)
    requires
        keys_sorted(s),
        keys_sorted(s.insert(p, x)),
        0 <= p <= s.len(),
        !has_key(s, x.key()),
    ensures
        key_map(s.insert(p, x)) == key_map(s).insert(x.key(), x@),
{
    let t = s.insert(p, x);
    let a = key_map(t);
    let b = key_map(s).insert(x.key(), x@);
    assert forall|k: Seq<char>| a.contains_key(k) == b.contains_key(k) by {
        if has_key(t, k) {
            let i = choose|i: int| 0 <= i < t.len() && #[trigger] t[i].key() == k;
            if i < p {
                assert(s[i].key() == k);
            } else if i > p {
                assert(s[i - 1].key() == k);
            }
        }
        if has_key(s, k) {
            let i = choose|i: int| 0 <= i < s.len() && #[trigger] s[i].key() == k;
            if i < p {
                assert(t[i].key() == k);
            } else {
                assert(t[i + 1].key() == k);
            }
        }
        if k == x.key() {
            assert(t[p].key() == k);
        }
    }
    assert forall|k: Seq<char>| #[trigger] a.contains_key(k) implies a[k] == b[k] by {
        let i = choose|i: int| 0 <= i < t.len() && #[trigger] t[i].key() == k;
        lemma_key_map_at(t, i);
        if i < p {
            lemma_key_map_at(s, i);
        } else if i > p {
            lemma_key_map_at(s, i - 1);
        }
    }
    assert(a =~= b);
}

/// Replacing a record changes only its key's entry.
pub proof fn lemma_key_map_update<T: Keyed>(s: Seq<T>, p: int, x: T)
    requires
        keys_sorted(s),
        0 <= p < s.len(),
        s[p].key() == x.key(),
    ensures
        keys_sorted(s.update(p, x)),
        key_map(s.update(p, x)) == key_map(s).insert(x.key(), x@),
{
    lemma_update_sorted(s, p, x);
    let t = s.update(p, x);
    assert(t.len() == s.len());
    let a = key_map(t);
    let b = key_map(s).insert(x.key(), x@);
    assert forall|k: Seq<char>| a.contains_key(k) == b.contains_key(k) by {
        if has_key(t, k) {
            let i = choose|i: int| 0 <= i < t.len() && #[trigger] t[i].key() == k;
            assert(s[i].key() == k);
        }
        if has_key(s, k) {
            let i = choose|i: int| 0 <= i < s.len() && #[trigger] s[i].key() == k;
            assert(t[i].key() == k);
        }
    }
    assert forall|k: Seq<char>| #[trigger] a.contains_key(k) implies a[k] == b[k] by {
        let i = choose|i: int| 0 <= i < t.len() && #[trigger] t[i].key() == k;
        lemma_key_map_at(t, i);
        lemma_key_map_at(t, p);
        if k == x.key() {
            lemma_sorted_unique(t, i, p);
        }
        if i != p {
            lemma_key_map_at(s, i);
        }
    }
    assert(a =~= b);
}

/// A sorted sequence has one map entry per record.
pub proof fn lemma_key_map_len<T: Keyed>(s: Seq<T>)
    requires
        keys_sorted(s),
    ensures
        key_map(s).dom().finite(),
        key_map(s).dom().len() == s.len(),
{
    let ks = s.map_values(|x: T| x.key());
    assert forall|i: int, j: int| 0 <= i < ks.len() && 0 <= j < ks.len() && i != j implies ks[i] != ks[j] by {
        if ks[i] == ks[j] {
            lemma_sorted_unique(s, i, j);
        }
    }
    assert(ks.no_duplicates());
    ks.unique_seq_to_set();
    assert forall|k: Seq<char>| ks.to_set().contains(k) <==> key_map(s).dom().contains(k) by {
        if has_key(s, k) {
            let i = choose|i: int| 0 <= i < s.len() && #[trigger] s[i].key() == k;
            assert(ks[i] == k);
        }
        if ks.contains(k) {
            let i = choose|i: int| 0 <= i < ks.len() && ks[i] == k;
            assert(s[i].key() == k);
        }
    }
    assert(ks.to_set() =~= key_map(s).dom());
    vstd::seq_lib::seq_to_set_is_finite(ks);
}

/// Two sorted sequences with the same keys hold them at the same positions.
pub proof fn lemma_sorted_same_keys<T: Keyed>(s: Seq<T>, t: Seq<T>)
    requires
        keys_sorted(s),
        keys_sorted(t),
        forall|k: Seq<char>| has_key(s, k) <==> has_key(t, k),
    ensures
        s.len() == t.len(),
        forall|i: int| 0 <= i < s.len() ==> #[trigger] s[i].key() == t[i].key(),
    decreases s.len() + t.len(),
{
    if s.len() == 0 {
        if t.len() > 0 {
            assert(has_key(t, t[0].key()));
        }
    } else if t.len() == 0 {
        assert(has_key(s, s[0].key()));
    } else {
        let a = s.last().key();
        let b = t.last().key();
        assert(s[s.len() - 1].key() == a && has_key(s, a));
        assert(t[t.len() - 1].key() == b && has_key(t, b));
        if a != b {
            let j = choose|j: int| 0 <= j < t.len() && #[trigger] t[j].key() == a;
            let i = choose|i: int| 0 <= i < s.len() && #[trigger] s[i].key() == b;
            assert(j < t.len() - 1);
            assert(i < s.len() - 1);
            assert(lex_lt(a, b));
            assert(lex_lt(b, a));
            lemma_lex_transitive(a, b, a);
            lemma_lex_irreflexive(a);
        }
        let s2 = s.drop_last();
        let t2 = t.drop_last();
        assert forall|k: Seq<char>| has_key(s2, k) <==> has_key(t2, k) by {
            if has_key(s2, k) {
                let i = choose|i: int| 0 <= i < s2.len() && #[trigger] s2[i].key() == k;
                assert(s[i].key() == k);
                if k == a {
                    lemma_sorted_unique(s, i, s.len() - 1);
                }
                assert(has_key(s, k));
                let j = choose|j: int| 0 <= j < t.len() && #[trigger] t[j].key() == k;
                if j == t.len() - 1 {
                    lemma_sorted_unique(s, i, s.len() - 1);
                }
                assert(t2[j].key() == k);
            }
            if has_key(t2, k) {
                let j = choose|j: int| 0 <= j < t2.len() && #[trigger] t2[j].key() == k;
                assert(t[j].key() == k);
                assert(has_key(t, k));
                let i = choose|i: int| 0 <= i < s.len() && #[trigger] s[i].key() == k;
                if i == s.len() - 1 {
                    lemma_sorted_unique(t, j, t.len() - 1);
                }
                assert(s2[i].key() == k);
            }
        }
        assert forall|x: int, y: int| 0 <= x < y < s2.len() implies lex_lt(#[trigger] s2[x].key(), #[trigger] s2[y].key()) by {
            assert(s2[x] == s[x] && s2[y] == s[y]);
        }
        assert forall|x: int, y: int| 0 <= x < y < t2.len() implies lex_lt(#[trigger] t2[x].key(), #[trigger] t2[y].key()) by {
            assert(t2[x] == t[x] && t2[y] == t[y]);
        }
        lemma_sorted_same_keys(s2, t2);
        assert forall|i: int| 0 <= i < s.len() implies #[trigger] s[i].key() == t[i].key() by {
            if i < s.len() - 1 {
                assert(s2[i] == s[i] && t2[i] == t[i]);
            }
        }
    }
}

/// Where `key` is, or would go, in a sorted vector: the position `p` of
/// the first record not below it, and whether that record has the key.
pub fn locate<T: Keyed>(v: &Vec<T>, key: &str) -> (r: (usize, bool))
    requires
        keys_sorted(v@),
    ensures
        r.0 <= v@.len(),
        forall|j: int| 0 <= j < r.0 ==> lex_lt(#[trigger] v@[j].key(), key@),
        r.1 ==> r.0 < v@.len() && v@[r.0 as int].key() == key@,
        !r.1 ==> !has_key(v@, key@),
        !r.1 && r.0 < v@.len() ==> lex_lt(key@, v@[r.0 as int].key()),
{
    let k = chars_of(key);
    let mut p: usize = 0;
    while p < v.len()
        invariant
            keys_sorted(v@),
            k@ == key@,
            p <= v@.len(),
            forall|j: int| 0 <= j < p ==> lex_lt(#[trigger] v@[j].key(), key@),
        ensures
            p <= v@.len(),
            forall|j: int| 0 <= j < p ==> lex_lt(#[trigger] v@[j].key(), key@),
            p < v@.len() ==> !lex_lt(v@[p as int].key(), key@),
        decreases v@.len() - p,
    {
        let here = chars_of(v[p].key_str());
        if !chars_lt(here.as_slice(), k.as_slice()) {
            break;
        }
        p += 1;
    }
    if p == v.len() {
        proof {
            assert forall|i: int| 0 <= i < v@.len() implies #[trigger] v@[i].key() != key@ by {
                lemma_lex_irreflexive(key@);
            }
        }
        return (p, false);
    }
    let here = chars_of(v[p].key_str());
    let found = !chars_lt(k.as_slice(), here.as_slice());
    proof {
        lemma_lex_total(key@, v@[p as int].key());
        if found {
            assert(!lex_lt(v@[p as int].key(), key@));
        } else {
            assert forall|i: int| 0 <= i < v@.len() implies #[trigger] v@[i].key() != key@ by {
                lemma_lex_irreflexive(key@);
                if i > p {
                    assert(lex_lt(v@[p as int].key(), v@[i].key()));
                    if v@[i].key() == key@ {
                        lemma_lex_transitive(key@, v@[p as int].key(), key@);
                    }
                }
            }
        }
    }
    (p, found)
}

/// The position of the record with `key`, if any.
pub fn position<T: Keyed>(v: &Vec<T>, key: &str) -> (r: Option<usize>)
    requires
        keys_sorted(v@),
    ensures
        r matches Some(i) ==> i < v@.len() && v@[i as int].key() == key@,
        r is None <==> !has_key(v@, key@),
{
    let (p, found) = locate(v, key);
    if found {
        Some(p)
    } else {
        None
    }
}

/// Put `x` under its key: the record with that key is replaced, or `x` is
/// inserted in order.
pub fn upsert<T: Keyed>(v: &mut Vec<T>, x: T)
    requires
        keys_sorted(old(v)@),
    ensures
        keys_sorted(final(v)@),
        key_map(final(v)@) == key_map(old(v)@).insert(x.key(), x@),
{
    let (p, found) = locate(v, x.key_str());
    if found {
        proof {
            lemma_key_map_update(v@, p as int, x);
        }
        v.set(p, x);
    } else {
        proof {
            lemma_insert_sorted(v@, p as int, x);
            lemma_key_map_insert(v@, p as int, x);
        }
        v.insert(p, x);
    }
}

} // verus!
