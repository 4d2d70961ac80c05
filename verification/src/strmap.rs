//! `StringMap`: a map from strings to strings with unique keys, used for
//! headers, query parameters and form fields.

use vstd::prelude::*;

verus! {

/// The abstract pairs held by a list of string pairs.
pub open spec fn pair_views(v: Seq<(String, String)>) -> Seq<(Seq<char>, Seq<char>)> {
    v.map_values(|p: (String, String)| (p.0@, p.1@))
}

/// No key occurs twice in `s`.
pub open spec fn keys_distinct(s: Seq<(Seq<char>, Seq<char>)>) -> bool {
    forall|i: int, j: int| 0 <= i < s.len() && 0 <= j < s.len() && i != j ==> s[i].0 != s[j].0
}

/// Position of the first pair at or after `i` whose key is `k`, or -1.
pub open spec fn key_position_from(s: Seq<(Seq<char>, Seq<char>)>, k: Seq<char>, i: int) -> int
    decreases s.len() - i,
{
    if i < 0 || i >= s.len() {
        -1
    } else if s[i].0 == k {
        i
    } else {
        key_position_from(s, k, i + 1)
    }
}

/// Position of the pair whose key is `k`, or -1.
pub open spec fn key_position(s: Seq<(Seq<char>, Seq<char>)>, k: Seq<char>) -> int {
    key_position_from(s, k, 0)
}

/// `key_position_from` finds the first pair with the key.
proof fn lemma_key_position(s: Seq<(Seq<char>, Seq<char>)>, k: Seq<char>, i: int, j: int)
    requires
        0 <= i <= j <= s.len(),
        forall|t: int| i <= t < j ==> s[t].0 != k,
        j < s.len() ==> s[j].0 == k,
    ensures
        key_position_from(s, k, i) == (if j < s.len() { j } else { -1 }),
    decreases j - i,
{
    if i < j {
        lemma_key_position(s, k, i + 1, j);
    }
}

/// The map that a list of pairs denotes: a later pair for a key wins.
pub open spec fn map_of(s: Seq<(Seq<char>, Seq<char>)>) -> Map<Seq<char>, Seq<char>>
    decreases s.len(),
{
    if s.len() == 0 {
        Map::empty()
    } else {
        map_of(s.drop_last()).insert(s.last().0, s.last().1)
    }
}

/// The keys of `map_of(s)` are exactly the keys occurring in `s`.
pub proof fn lemma_map_of_dom(s: Seq<(Seq<char>, Seq<char>)>, k: Seq<char>)
    ensures
        map_of(s).dom().contains(k) <==> exists|i: int| 0 <= i < s.len() && #[trigger] s[i].0 == k,
    decreases s.len(),
{
    if s.len() > 0 {
        lemma_map_of_dom(s.drop_last(), k);
        if map_of(s).dom().contains(k) && k != s.last().0 {
            let i = choose|i: int| 0 <= i < s.len() - 1 && #[trigger] s.drop_last()[i].0 == k;
            assert(s[i].0 == k);
        }
        if exists|i: int| 0 <= i < s.len() && #[trigger] s[i].0 == k {
            let i = choose|i: int| 0 <= i < s.len() && #[trigger] s[i].0 == k;
            if i < s.len() - 1 {
                assert(s.drop_last()[i].0 == k);
            }
        }
    }
}

/// With distinct keys, the value of a key is the value paired with it.
pub proof fn lemma_map_of_value(s: Seq<(Seq<char>, Seq<char>)>, i: int)
    requires
        keys_distinct(s),
        0 <= i < s.len(),
    ensures
        map_of(s).dom().contains(s[i].0),
        map_of(s)[s[i].0] == s[i].1,
    decreases s.len(),
{
    if i < s.len() - 1 {
        let t = s.drop_last();
        assert(t[i] == s[i]);
        assert(keys_distinct(t)) by {
            assert forall|a: int, b: int| 0 <= a < t.len() && 0 <= b < t.len() && a != b implies t[a].0 != t[b].0 by {
                assert(t[a] == s[a] && t[b] == s[b]);
            }
        }
        lemma_map_of_value(t, i);
        assert(s.last() == s[s.len() - 1]);
        assert(s.last().0 != s[i].0);
    }
}

/// Replacing the pair of an existing key is inserting into the map.
proof fn lemma_map_of_update(s: Seq<(Seq<char>, Seq<char>)>, i: int, v: Seq<char>)
    requires
        keys_distinct(s),
        0 <= i < s.len(),
    ensures
        keys_distinct(s.update(i, (s[i].0, v))),
        map_of(s.update(i, (s[i].0, v))) == map_of(s).insert(s[i].0, v),
{
    let t = s.update(i, (s[i].0, v));
    assert(keys_distinct(t)) by {
        assert forall|a: int, b: int| 0 <= a < t.len() && 0 <= b < t.len() && a != b implies t[a].0 != t[b].0 by {
            assert(t[a].0 == s[a].0 && t[b].0 == s[b].0);
        }
    }
    let m1 = map_of(t);
    let m2 = map_of(s).insert(s[i].0, v);
    assert forall|k: Seq<char>| m1.dom().contains(k) <==> m2.dom().contains(k) by {
        lemma_map_of_dom(t, k);
        lemma_map_of_dom(s, k);
        if exists|j: int| 0 <= j < t.len() && #[trigger] t[j].0 == k {
            let j = choose|j: int| 0 <= j < t.len() && #[trigger] t[j].0 == k;
            assert(s[j].0 == k);
        }
        if exists|j: int| 0 <= j < s.len() && #[trigger] s[j].0 == k {
            let j = choose|j: int| 0 <= j < s.len() && #[trigger] s[j].0 == k;
            assert(t[j].0 == k);
        }
        if k == s[i].0 {
            assert(t[i].0 == k);
        }
    }
    assert forall|k: Seq<char>| m1.dom().contains(k) implies m1[k] == m2[k] by {
        lemma_map_of_dom(t, k);
        let j = choose|j: int| 0 <= j < t.len() && #[trigger] t[j].0 == k;
        lemma_map_of_value(t, j);
        if j != i {
            assert(s[j] == t[j]);
            lemma_map_of_value(s, j);
        }
    }
    assert(m1 =~= m2);
}

/// A map from strings to strings. Keys are unique; inserting an existing key
/// replaces its value in place, a new key is appended, so iteration follows
/// first-insertion order.
///
/// The pairs are kept in a vector rather than a `std::collections::HashMap`:
/// vstd models a `HashMap`'s contents only for keys whose hashing it
/// trusts (integers and `bool`), not for `String`, and its `StringHashMap`
/// cannot be walked, which request planning and the client's default
/// headers need.
#[derive(Debug)]
pub struct StringMap {
    entries: Vec<(String, String)>,
}

impl View for StringMap {
    type V = Map<Seq<char>, Seq<char>>;

    open spec fn view(&self) -> Map<Seq<char>, Seq<char>> {
        map_of(self.pairs())
    }
}

impl StringMap {
    /// The pairs held, in iteration order.
    pub closed spec fn pairs(&self) -> Seq<(Seq<char>, Seq<char>)> {
        pair_views(self.entries@)
    }

    #[verifier::type_invariant]
    closed spec fn unique_keys(&self) -> bool {
        keys_distinct(self.pairs())
    }

    /// The empty map.
    pub fn new() -> (m: Self)
        ensures
            m@ == Map::<Seq<char>, Seq<char>>::empty(),
            m.pairs() == Seq::<(Seq<char>, Seq<char>)>::empty(),
    {
        let m = StringMap { entries: Vec::new() };
        assert(m.pairs() =~= Seq::<(Seq<char>, Seq<char>)>::empty());
        m
    }

    /// Position of `key` in the entries, if present.
    fn find(&self, key: &String) -> (r: Option<usize>)
        ensures
            match r {
                Some(i) => i < self.pairs().len() && self.pairs()[i as int].0 == key@
                    && forall|j: int| 0 <= j < i ==> #[trigger] self.pairs()[j].0 != key@,
                None => forall|j: int| 0 <= j < self.pairs().len() ==> #[trigger] self.pairs()[j].0 != key@,
            },
    {
        let mut i: usize = 0;
        while i < self.entries.len()
            invariant
                i <= self.entries.len(),
                self.pairs() == pair_views(self.entries@),
                forall|j: int| 0 <= j < i ==> #[trigger] self.pairs()[j].0 != key@,
            decreases self.entries.len() - i,
        {
            if self.entries[i].0 == *key {
                return Some(i);
            }
            i = i + 1;
        }
        None
    }

    /// Sets `key` to `value`: an existing key keeps its place and takes
    /// the new value, a new key is added at the end.
    pub fn insert(&mut self, key: String, value: String)
        ensures
            final(self)@ == old(self)@.insert(key@, value@),
            key_position(old(self).pairs(), key@) >= 0 ==> final(self).pairs() == old(self).pairs().update(
                key_position(old(self).pairs(), key@),
                (key@, value@),
            ),
            key_position(old(self).pairs(), key@) < 0 ==> final(self).pairs() == old(self).pairs().push(
                (key@, value@),
            ),
    {
        proof {
            use_type_invariant(&*self);
        }
        let ghost old_pairs = self.pairs();
        let ghost kv = key@;
        let ghost vv = value@;
        let found = self.find(&key);
        proof {
            match found {
                Some(i) => lemma_key_position(old_pairs, kv, 0, i as int),
                None => lemma_key_position(old_pairs, kv, 0, old_pairs.len() as int),
            }
        }
        let mut es: Vec<(String, String)> = Vec::new();
        std::mem::swap(&mut es, &mut self.entries);
        match found {
            Some(i) => {
                proof {
                    lemma_map_of_update(old_pairs, i as int, vv);
                }
                es.set(i, (key, value));
                assert(pair_views(es@) =~= old_pairs.update(i as int, (old_pairs[i as int].0, vv)));
            },
            None => {
                es.push((key, value));
                assert(pair_views(es@) =~= old_pairs.push((kv, vv)));
                assert(pair_views(es@).drop_last() =~= old_pairs);
            },
        }
        self.entries = es;
    }

    /// The value of `key`, if present.
    pub fn get(&self, key: &str) -> (r: Option<&String>)
        ensures
            match r {
                Some(v) => self@.dom().contains(key@) && self@[key@] == v@,
                None => !self@.dom().contains(key@),
            },
    {
        proof {
            use_type_invariant(self);
        }
        let k = key.to_owned();
        match self.find(&k) {
            Some(i) => {
                proof {
                    lemma_map_of_value(self.pairs(), i as int);
                }
                Some(&self.entries[i].1)
            },
            None => {
                proof {
                    lemma_map_of_dom(self.pairs(), key@);
                }
                None
            },
        }
    }

    /// `key` is present.
    pub fn contains_key(&self, key: &str) -> (b: bool)
        ensures
            b == self@.dom().contains(key@),
    {
        self.get(key).is_some()
    }

    /// Number of keys.
    pub fn len(&self) -> (n: usize)
        ensures
            n == self.pairs().len(),
            n == self@.dom().len(),
    {
        proof {
            use_type_invariant(self);
            lemma_map_of_len(self.pairs());
        }
        self.entries.len()
    }

    /// No key is present.
    pub fn is_empty(&self) -> (b: bool)
        ensures
            b == (self@.dom().len() == 0),
            b == (self.pairs().len() == 0),
    {
        self.len() == 0
    }

    /// The pairs held, in iteration order, taken out of the map.
    pub fn into_entries(self) -> (v: Vec<(String, String)>)
        ensures
            pair_views(v@) == self.pairs(),
    {
        self.entries
    }

    /// The pairs held, in iteration order.
    pub fn entries(&self) -> (v: &Vec<(String, String)>)
        ensures
            pair_views(v@) == self.pairs(),
    {
        &self.entries
    }
}

impl Clone for StringMap {
    fn clone(&self) -> (r: Self)
        ensures
            r.pairs() == self.pairs(),
            r@ == self@,
    {
        proof {
            use_type_invariant(self);
        }
        let mut es: Vec<(String, String)> = Vec::new();
        let mut i: usize = 0;
        while i < self.entries.len()
            invariant
                i <= self.entries.len(),
                self.pairs() == pair_views(self.entries@),
                pair_views(es@) =~= self.pairs().take(i as int),
            decreases self.entries.len() - i,
        {
            let k = self.entries[i].0.clone();
            let v = self.entries[i].1.clone();
            let ghost before = es@;
            es.push((k, v));
            assert(pair_views(es@) =~= pair_views(before).push(self.pairs()[i as int]));
            assert(self.pairs().take(i + 1) =~= self.pairs().take(i as int).push(self.pairs()[i as int]));
            i = i + 1;
        }
        assert(self.pairs().take(i as int) =~= self.pairs());
        StringMap { entries: es }
    }
}

/// With distinct keys, the map has as many keys as there are pairs.
pub proof fn lemma_map_of_len(s: Seq<(Seq<char>, Seq<char>)>)
    requires
        keys_distinct(s),
    ensures
        map_of(s).dom().finite(),
        map_of(s).dom().len() == s.len(),
    decreases s.len(),
{
    if s.len() > 0 {
        let t = s.drop_last();
        assert(keys_distinct(t)) by {
            assert forall|a: int, b: int| 0 <= a < t.len() && 0 <= b < t.len() && a != b implies t[a].0 != t[b].0 by {
                assert(t[a] == s[a] && t[b] == s[b]);
            }
        }
        lemma_map_of_len(t);
        lemma_map_of_dom(t, s.last().0);
        if map_of(t).dom().contains(s.last().0) {
            let j = choose|j: int| 0 <= j < t.len() && #[trigger] t[j].0 == s.last().0;
            assert(s[j].0 == s[s.len() - 1].0);
        }
    }
}

/// A read after a write: once `key` is set to `value`, looking `key` up
/// gives `value`, and every other key keeps its value.
pub proof fn law_insert_then_get(m: Map<Seq<char>, Seq<char>>, key: Seq<char>, value: Seq<char>, other: Seq<char>)
    requires
        other != key,
    ensures
        m.insert(key, value).dom().contains(key),
        m.insert(key, value)[key] == value,
        m.insert(key, value).dom().contains(other) == m.dom().contains(other),
        m.dom().contains(other) ==> m.insert(key, value)[other] == m[other],
{
}

} // verus!
