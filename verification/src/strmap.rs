//! Ordered collections keyed by strings.
//!
//! `StrMap` is a map from strings to values kept as a vector of entries in
//! strictly increasing key order, the order in which a `BTreeMap<String, _>`
//! walks its keys. `StrSet` is the matching ordered set.
use vstd::prelude::*;
use vstd::seq_lib::{to_multiset_build, to_multiset_insert};
use crate::text::{lemma_lt_irreflexive, lemma_lt_total, lemma_lt_transitive, seq_lt, str_eq, str_lt};
use crate::dup::{Dup, SameView};

verus! {

/// The sequence is strictly increasing in the string order.
pub open spec fn sorted(s: Seq<Seq<char>>) -> bool {
    forall|i: int, j: int| 0 <= i < j < s.len() ==> seq_lt(#[trigger] s[i], #[trigger] s[j])
}

/// A strictly increasing sequence holds each element once.
pub proof fn lemma_sorted_no_dup(s: Seq<Seq<char>>)
    requires
        sorted(s),
    ensures
        s.no_duplicates(),
{
    assert forall|i: int, j: int| 0 <= i < s.len() && 0 <= j < s.len() && i != j implies s[i]
        != s[j] by {
        if i < j {
            lemma_lt_irreflexive(s[i]);
        } else {
            lemma_lt_irreflexive(s[j]);
        }
    }
}

/// Two strictly increasing sequences with the same elements are equal.
pub proof fn lemma_sorted_unique(a: Seq<Seq<char>>, b: Seq<Seq<char>>)
    requires
        sorted(a),
        sorted(b),
        forall|x: Seq<char>| a.contains(x) <==> b.contains(x),
    ensures
        a == b,
    decreases a.len(),
{
    if a.len() == 0 {
        if b.len() > 0 {
            assert(b.contains(b[0]));
        }
        assert(a =~= b);
    } else {
        assert(a.contains(a[0]));
        assert(b.len() > 0);
        assert(b.contains(b[0]));
        let i = choose|i: int| 0 <= i < a.len() && a[i] == b[0];
        let j = choose|j: int| 0 <= j < b.len() && b[j] == a[0];
        if a[0] != b[0] {
            assert(i > 0 && j > 0);
            assert(seq_lt(a[0], a[i]));
            assert(seq_lt(b[0], b[j]));
            lemma_lt_total(a[0], b[0]);
            assert(false);
        }
        let a1 = a.drop_first();
        let b1 = b.drop_first();
        lemma_sorted_no_dup(a);
        lemma_sorted_no_dup(b);
        assert forall|x: Seq<char>| a1.contains(x) <==> b1.contains(x) by {
            if a1.contains(x) {
                let k = choose|k: int| 0 <= k < a1.len() && a1[k] == x;
                assert(a[k + 1] == x);
                assert(x != a[0]);
                assert(b.contains(x));
                let m = choose|m: int| 0 <= m < b.len() && b[m] == x;
                assert(m != 0);
                assert(b1[m - 1] == x);
            }
            if b1.contains(x) {
                let k = choose|k: int| 0 <= k < b1.len() && b1[k] == x;
                assert(b[k + 1] == x);
                assert(x != b[0]);
                assert(a.contains(x));
                let m = choose|m: int| 0 <= m < a.len() && a[m] == x;
                assert(m != 0);
                assert(a1[m - 1] == x);
            }
        }
        lemma_sorted_unique(a1, b1);
        assert(a =~= seq![a[0]] + a1);
        assert(b =~= seq![b[0]] + b1);
    }
}

/// Inserting into a sequence inserts into its set of elements.
pub proof fn lemma_insert_to_set(s: Seq<Seq<char>>, i: int, x: Seq<char>)
    requires
        0 <= i <= s.len(),
    ensures
        s.insert(i, x).to_set() == s.to_set().insert(x),
{
    let t = s.insert(i, x);
    assert forall|y: Seq<char>| t.to_set().contains(y) <==> s.to_set().insert(x).contains(y) by {
        if t.contains(y) {
            let k = choose|k: int| 0 <= k < t.len() && t[k] == y;
            if k < i {
                assert(s[k] == y);
            } else if k > i {
                assert(s[k - 1] == y);
            }
        }
        if s.contains(y) {
            let k = choose|k: int| 0 <= k < s.len() && s[k] == y;
            if k < i {
                assert(t[k] == y);
            } else {
                assert(t[k + 1] == y);
            }
        }
        if y == x {
            assert(t[i] == x);
        }
    }
    assert(t.to_set() =~= s.to_set().insert(x));
}

/// Removing a position from a sequence without duplicates removes its
/// element from the set of elements.
pub proof fn lemma_remove_to_set(s: Seq<Seq<char>>, i: int)
    requires
        0 <= i < s.len(),
        s.no_duplicates(),
    ensures
        s.remove(i).to_set() == s.to_set().remove(s[i]),
{
    let t = s.remove(i);
    let x = s[i];
    assert forall|y: Seq<char>| t.to_set().contains(y) <==> s.to_set().remove(x).contains(y) by {
        if t.contains(y) {
            let k = choose|k: int| 0 <= k < t.len() && t[k] == y;
            if k < i {
                assert(s[k] == y);
            } else {
                assert(s[k + 1] == y);
            }
        }
        if s.contains(y) && y != x {
            let k = choose|k: int| 0 <= k < s.len() && s[k] == y;
            if k < i {
                assert(t[k] == y);
            } else if k > i {
                assert(t[k - 1] == y);
            }
        }
    }
    assert(t.to_set() =~= s.to_set().remove(x));
}

/// The map whose keys are `ks` and values `vs`, position by position.
pub open spec fn zip_map<V>(ks: Seq<Seq<char>>, vs: Seq<V>) -> Map<Seq<char>, V> {
    Map::new(|k: Seq<char>| ks.contains(k), |k: Seq<char>| vs[ks.index_of(k)])
}

/// A map from strings to values, ordered by key.
#[derive(Debug)]
pub struct StrMap<V: DeepView> {
    entries: Vec<(String, V)>,
}

impl<V: DeepView> StrMap<V> {
    /// The keys, in increasing order.
    pub closed spec fn keys(&self) -> Seq<Seq<char>> {
        self.entries@.map_values(|e: (String, V)| e.0@)
    }

    /// The values, in the order of their keys.
    pub closed spec fn vals(&self) -> Seq<V::V> {
        self.entries@.map_values(|e: (String, V)| e.1.deep_view())
    }

    #[verifier::type_invariant]
    closed spec fn well_formed(&self) -> bool {
        sorted(self.keys())
    }

    /// Creates an empty map.
    pub fn new() -> (m: Self)
        ensures
            m@ == Map::<Seq<char>, V::V>::empty(),
            m.keys() == Seq::<Seq<char>>::empty(),
    {
        let m = StrMap { entries: Vec::new() };
        assert(m.keys() =~= Seq::<Seq<char>>::empty());
        assert(m@ =~= Map::<Seq<char>, V::V>::empty());
        m
    }

    /// The keys are strictly increasing and as many as the values.
    pub fn lemma_keys(&self)
        ensures
            sorted(self.keys()),
            self.keys().len() == self.vals().len(),
            self.keys().no_duplicates(),
            self@.dom() == self.keys().to_set(),
            self@.dom().len() == self.keys().len(),
            forall|i: int|
                0 <= i < self.keys().len() ==> #[trigger] self@[self.keys()[i]] == self.vals()[i],
    {
        proof {
            use_type_invariant(self);
            lemma_sorted_no_dup(self.keys());
            assert(self@.dom() =~= self.keys().to_set());
            self.keys().unique_seq_to_set();
            assert forall|i: int| 0 <= i < self.keys().len() implies #[trigger] self@[self.keys()[i]]
                == self.vals()[i] by {
                let k = self.keys()[i];
                assert(self.keys().contains(k));
                let j = self.keys().index_of(k);
                assert(self.keys()[j] == k);
                if j != i {
                    assert(false);
                }
            }
        }
    }

    /// The number of entries.
    pub fn len(&self) -> (n: usize)
        ensures
            n == self.keys().len(),
    {
        self.entries.len()
    }

    /// Whether the map is empty.
    pub fn is_empty(&self) -> (b: bool)
        ensures
            b == (self.keys().len() == 0),
            b == (self@ == Map::<Seq<char>, V::V>::empty()),
    {
        proof {
            if self.keys().len() > 0 {
                assert(self@.contains_key(self.keys()[0]));
            } else {
                assert(self@ =~= Map::<Seq<char>, V::V>::empty());
            }
        }
        self.entries.len() == 0
    }

    /// The key at position `i` in key order.
    pub fn key_at(&self, i: usize) -> (k: &String)
        requires
            i < self.keys().len(),
        ensures
            k@ == self.keys()[i as int],
    {
        &self.entries[i].0
    }

    /// The value at position `i` in key order.
    pub fn val_at(&self, i: usize) -> (v: &V)
        requires
            i < self.keys().len(),
        ensures
            v.deep_view() == self.vals()[i as int],
    {
        &self.entries[i].1
    }

    /// The keys, in increasing order.
    pub fn key_list(&self) -> (r: Vec<String>)
        ensures
            views(r@) == self.keys(),
    {
        let mut r: Vec<String> = Vec::new();
        let mut i: usize = 0;
        while i < self.entries.len()
            invariant
                i <= self.keys().len(),
                self.keys().len() == self.entries@.len(),
                views(r@) == self.keys().take(i as int),
            decreases self.entries.len() - i,
        {
            let ghost old_r = r@;
            r.push(self.entries[i].0.clone());
            assert(views(r@) =~= views(old_r).push(self.keys()[i as int]));
            assert(views(r@) =~= self.keys().take(i + 1));
            i = i + 1;
        }
        assert(self.keys().take(i as int) =~= self.keys());
        r
    }

    /// The position of the first key not below `k`, and whether it is `k`.
    fn search(&self, k: &str) -> (r: (usize, bool))
        ensures
            r.0 <= self.keys().len(),
            forall|i: int| 0 <= i < r.0 ==> seq_lt(#[trigger] self.keys()[i], k@),
            r.0 < self.keys().len() ==> !seq_lt(self.keys()[r.0 as int], k@),
            r.1 == (r.0 < self.keys().len() && self.keys()[r.0 as int] == k@),
            r.1 == self.keys().contains(k@),
            !r.1 ==> forall|i: int|
                r.0 <= i < self.keys().len() ==> seq_lt(k@, #[trigger] self.keys()[i]),
    {
        proof {
            use_type_invariant(self);
        }
        let mut i: usize = 0;
        let mut stop = false;
        while !stop && i < self.entries.len()
            invariant
                i <= self.keys().len(),
                self.keys().len() == self.entries@.len(),
                forall|j: int| 0 <= j < i ==> seq_lt(#[trigger] self.keys()[j], k@),
                stop ==> i < self.keys().len() && !seq_lt(self.keys()[i as int], k@),
            decreases self.entries.len() - i + (if stop { 0int } else { 1int }),
        {
            if !str_lt(self.entries[i].0.as_str(), k) {
                stop = true;
            } else {
                i = i + 1;
            }
        }
        let found = i < self.entries.len() && str_eq(self.entries[i].0.as_str(), k);
        proof {
            let ks = self.keys();
            if i < ks.len() {
                assert(!seq_lt(ks[i as int], k@));
                lemma_lt_total(ks[i as int], k@);
                assert forall|j: int| i < j < ks.len() implies seq_lt(k@, #[trigger] ks[j]) by {
                    assert(seq_lt(ks[i as int], ks[j]));
                    if ks[i as int] != k@ {
                        lemma_lt_transitive(k@, ks[i as int], ks[j]);
                    } else {
                    }
                }
            }
            if !found {
                assert forall|j: int| 0 <= j < ks.len() implies ks[j] != k@ by {
                    if j < i {
                        lemma_lt_irreflexive(k@);
                    } else if j == i {
                    } else {
                        lemma_lt_irreflexive(k@);
                    }
                }
            } else {
                assert(ks.contains(k@));
            }
        }
        (i, found)
    }

    /// Whether `k` is a key.
    pub fn contains_key(&self, k: &str) -> (b: bool)
        ensures
            b == self@.contains_key(k@),
    {
        let (_, found) = self.search(k);
        found
    }

    /// The value under `k`, if any.
    pub fn get(&self, k: &str) -> (r: Option<&V>)
        ensures
            r is Some == self@.contains_key(k@),
            r matches Some(v) ==> v.deep_view() == self@[k@],
    {
        let (i, found) = self.search(k);
        if found {
            self.lemma_keys();
            Some(&self.entries[i].1)
        } else {
            None
        }
    }

    /// Sets the value under `k`, keeping the key order.
    pub fn insert(&mut self, k: String, v: V)
        ensures
            final(self)@ == old(self)@.insert(k@, v.deep_view()),
            final(self).keys().to_set() == old(self).keys().to_set().insert(k@),
    {
        proof {
            use_type_invariant(&*self);
        }
        self.lemma_keys();
        let ghost old_keys = self.keys();
        let ghost old_vals = self.vals();
        let ghost old_map = self@;
        let (i, found) = self.search(k.as_str());
        let ghost kv = k@;
        let ghost vv = v.deep_view();
        if found {
            let mut entries: Vec<(String, V)> = Vec::new();
            std::mem::swap(&mut entries, &mut self.entries);
            entries.set(i, (k, v));
            assert(entries@.map_values(|e: (String, V)| e.0@) =~= old_keys);
            self.entries = entries;
            proof {
                assert(self.keys() =~= old_keys);
                assert(self.vals() =~= old_vals.update(i as int, vv));
            }
        } else {
            let mut entries: Vec<(String, V)> = Vec::new();
            std::mem::swap(&mut entries, &mut self.entries);
            entries.insert(i, (k, v));
            proof {
                let ks = entries@.map_values(|e: (String, V)| e.0@);
                assert(ks =~= old_keys.insert(i as int, kv));
                assert(sorted(ks)) by {
                    assert forall|a: int, b: int| 0 <= a < b < ks.len() implies seq_lt(
                        #[trigger] ks[a],
                        #[trigger] ks[b],
                    ) by {
                        if b < i {
                        } else if a > i {
                        } else if a == i {
                        } else if b == i {
                        } else {
                        }
                    }
                }
            }
            self.entries = entries;
            proof {
                assert(self.keys() =~= old_keys.insert(i as int, kv));
                assert(self.vals() =~= old_vals.insert(i as int, vv));
            }
        }
        self.lemma_keys();
        proof {
            if found {
                assert(old_keys.contains(kv));
                assert(self.keys().to_set() =~= old_keys.to_set().insert(kv));
            } else {
                lemma_insert_to_set(old_keys, i as int, kv);
            }
            assert(self@.dom() =~= old_map.insert(kv, vv).dom());
            assert forall|q: Seq<char>| #[trigger] self@.contains_key(q) implies self@[q]
                == old_map.insert(kv, vv)[q] by {
                let j = self.keys().index_of(q);
                assert(self.keys()[j] == q);
                if q == kv {
                } else {
                    if found {
                        assert(old_keys[j] == q);
                    } else {
                        if j < i {
                            assert(old_keys[j] == q);
                        } else {
                            assert(old_keys[j - 1] == q);
                        }
                    }
                }
            }
            assert(self@ =~= old_map.insert(kv, vv));
        }
    }

    /// Removes the entry under `k`, returning its value.
    pub fn remove(&mut self, k: &str) -> (r: Option<V>)
        ensures
            final(self)@ == old(self)@.remove(k@),
            final(self).keys().to_set() == old(self).keys().to_set().remove(k@),
            r is Some == old(self)@.contains_key(k@),
            r matches Some(v) ==> v.deep_view() == old(self)@[k@],
    {
        proof {
            use_type_invariant(&*self);
        }
        self.lemma_keys();
        let ghost old_keys = self.keys();
        let ghost old_vals = self.vals();
        let ghost old_map = self@;
        let (i, found) = self.search(k);
        if !found {
            proof {
                assert(old_map.remove(k@) =~= old_map);
                assert(old_keys.to_set().remove(k@) =~= old_keys.to_set());
            }
            return None;
        }
        let mut entries: Vec<(String, V)> = Vec::new();
            std::mem::swap(&mut entries, &mut self.entries);
        let (_, v) = entries.remove(i);
        proof {
            let ks = entries@.map_values(|e: (String, V)| e.0@);
            assert(ks =~= old_keys.remove(i as int));
            assert(sorted(ks)) by {
                assert forall|a: int, b: int| 0 <= a < b < ks.len() implies seq_lt(
                    #[trigger] ks[a],
                    #[trigger] ks[b],
                ) by {
                    if b < i {
                    } else if a >= i {
                        assert(ks[a] == old_keys[a + 1]);
                        assert(ks[b] == old_keys[b + 1]);
                    } else {
                        assert(ks[b] == old_keys[b + 1]);
                    }
                }
            }
        }
        self.entries = entries;
        proof {
            assert(self.keys() =~= old_keys.remove(i as int));
            assert(self.vals() =~= old_vals.remove(i as int));
        }
        self.lemma_keys();
        proof {
            lemma_sorted_no_dup(old_keys);
            lemma_remove_to_set(old_keys, i as int);
            assert(self@.dom() =~= old_map.remove(k@).dom());
            assert forall|q: Seq<char>| #[trigger] self@.contains_key(q) implies self@[q]
                == old_map.remove(k@)[q] by {
                let j = self.keys().index_of(q);
                assert(self.keys()[j] == q);
                if j < i {
                    assert(old_keys[j] == q);
                } else {
                    assert(old_keys[j + 1] == q);
                }
            }
            assert(self@ =~= old_map.remove(k@));
        }
        Some(v)
    }
}

impl<V: DeepView> View for StrMap<V> {
    type V = Map<Seq<char>, V::V>;

    closed spec fn view(&self) -> Map<Seq<char>, V::V> {
        zip_map(self.keys(), self.vals())
    }
}

impl<V: DeepView> DeepView for StrMap<V> {
    type V = Map<Seq<char>, V::V>;

    open spec fn deep_view(&self) -> Map<Seq<char>, V::V> {
        self@
    }
}

impl<V: Dup> Dup for StrMap<V> {
    fn dup(&self) -> (r: Self) {
        proof {
            use_type_invariant(self);
        }
        let mut entries: Vec<(String, V)> = Vec::new();
        let mut i: usize = 0;
        while i < self.entries.len()
            invariant
                i <= self.entries@.len(),
                entries@.len() == i,
                forall|j: int| 0 <= j < i ==> (#[trigger] entries@[j]).0@ == self.entries@[j].0@,
                forall|j: int|
                    0 <= j < i ==> (#[trigger] entries@[j]).1.deep_view()
                        == self.entries@[j].1.deep_view(),
            decreases self.entries.len() - i,
        {
            let k = self.entries[i].0.clone();
            let v = self.entries[i].1.dup();
            entries.push((k, v));
            i = i + 1;
        }
        assert(entries@.map_values(|e: (String, V)| e.0@) =~= self.keys());
        let r = StrMap { entries };
        assert(r.keys() =~= self.keys());
        assert(r.vals() =~= self.vals());
        r
    }
}

impl<V: SameView> SameView for StrMap<V> {
    fn same_view(&self, other: &Self) -> (b: bool) {
        proof {
            use_type_invariant(self);
            use_type_invariant(other);
        }
        self.lemma_keys();
        other.lemma_keys();
        let n = self.entries.len();
        let mut same = n == other.entries.len();
        let mut i: usize = 0;
        while same && i < n
            invariant
                n == self.keys().len(),
                same ==> n == other.keys().len(),
                i <= n,
                same ==> forall|j: int|
                    0 <= j < i ==> self.keys()[j] == other.keys()[j] && self.vals()[j]
                        == other.vals()[j],
                !same ==> (self.keys() != other.keys() || self.vals() != other.vals()),
            decreases n - i + (if same { 1int } else { 0int }),
        {
            let ka = &self.entries[i].0;
            let kb = &other.entries[i].0;
            if !crate::text::str_eq(ka.as_str(), kb.as_str()) {
                assert(self.keys()[i as int] != other.keys()[i as int]);
                same = false;
            } else if !self.entries[i].1.same_view(&other.entries[i].1) {
                assert(self.vals()[i as int] != other.vals()[i as int]);
                same = false;
            } else {
                assert(self.keys()[i as int] == other.keys()[i as int]);
                assert(self.vals()[i as int] == other.vals()[i as int]);
                assert forall|j: int| 0 <= j < i + 1 implies self.keys()[j] == other.keys()[j]
                    && self.vals()[j] == other.vals()[j] by {
                    if j < i {
                    }
                }
                i = i + 1;
            }
        }
        self.lemma_keys();
        other.lemma_keys();
        proof {
            if same {
                assert forall|j: int| 0 <= j < n implies #[trigger] self.vals()[j] == other.vals()[j] by {
                    assert(self.keys()[j] == other.keys()[j]);
                }
                assert(self.keys() =~= other.keys());
                assert(self.vals() =~= other.vals());
            } else if self.keys() != other.keys() {
                if self@ == other@ {
                    assert forall|x: Seq<char>| self.keys().contains(x) <==> other.keys().contains(
                        x,
                    ) by {
                        assert(self@.dom().contains(x) == self.keys().to_set().contains(x));
                        assert(other@.dom().contains(x) == other.keys().to_set().contains(x));
                    }
                    lemma_sorted_unique(self.keys(), other.keys());
                }
            } else {
                if self@ == other@ {
                    assert(self.vals() =~= other.vals()) by {
                        assert forall|j: int| 0 <= j < self.vals().len() implies self.vals()[j]
                            == other.vals()[j] by {
                            assert(self@[self.keys()[j]] == self.vals()[j]);
                            assert(other@[other.keys()[j]] == other.vals()[j]);
                        }
                    }
                }
            }
        }
        same
    }
}

impl<V: Dup> Clone for StrMap<V> {
    fn clone(&self) -> (r: Self)
        ensures
            r.deep_view() == self.deep_view(),
    {
        self.dup()
    }
}

/// The characters of each string in a sequence.
pub open spec fn views(v: Seq<String>) -> Seq<Seq<char>> {
    v.map_values(|x: String| x@)
}

/// Whether one of the strings equals `s`.
pub fn strings_contain(v: &[String], s: &str) -> (b: bool)
    ensures
        b == views(v@).contains(s@),
{
    let mut i: usize = 0;
    while i < v.len()
        invariant
            i <= v@.len(),
            forall|j: int| 0 <= j < i ==> v@[j]@ != s@,
        decreases v.len() - i,
    {
        if str_eq(v[i].as_str(), s) {
            assert(views(v@)[i as int] == s@);
            return true;
        }
        i = i + 1;
    }
    proof {
        if views(v@).contains(s@) {
            let j = choose|j: int| 0 <= j < views(v@).len() && views(v@)[j] == s@;
            assert(v@[j]@ == s@);
        }
    }
    false
}

/// The elements other than `x`, in order.
pub open spec fn without(s: Seq<Seq<char>>, x: Seq<char>) -> Seq<Seq<char>> {
    s.filter(|o: Seq<char>| o != x)
}

/// The strings other than `scope`, in order.
pub fn strings_without(owners: &[String], scope: &str) -> (r: Vec<String>)
    ensures
        views(r@) == without(views(owners@), scope@),
{
    let mut r: Vec<String> = Vec::new();
    let mut i: usize = 0;
    let ghost pred = |o: Seq<char>| o != scope@;
    while i < owners.len()
        invariant
            i <= owners@.len(),
            pred == (|o: Seq<char>| o != scope@),
            views(r@) == views(owners@).take(i as int).filter(pred),
        decreases owners.len() - i,
    {
        let ghost old_r = views(r@);
        if !str_eq(owners[i].as_str(), scope) {
            r.push(owners[i].dup());
        }
        proof {
            assert(views(owners@).take(i + 1) =~= views(owners@).take(i as int).push(owners@[i as int]@));
            views(owners@).take(i as int).lemma_filter_push(owners@[i as int]@, pred);
            if owners@[i as int]@ != scope@ {
                assert(views(r@) =~= old_r.push(owners@[i as int]@));
            }
        }
        i = i + 1;
    }
    assert(views(owners@).take(owners@.len() as int) =~= views(owners@));
    r
}

/// The sequence is increasing, equal neighbours allowed.
pub open spec fn sorted_le(s: Seq<Seq<char>>) -> bool {
    forall|i: int, j: int| 0 <= i < j < s.len() ==> !seq_lt(#[trigger] s[j], #[trigger] s[i])
}

/// An element of a pushed sequence is the pushed one or was there before.
pub proof fn lemma_push_contains(s: Seq<Seq<char>>, a: Seq<char>)
    ensures
        forall|x: Seq<char>| #[trigger] s.push(a).contains(x) <==> (s.contains(x) || x == a),
{
    assert forall|x: Seq<char>| #[trigger] s.push(a).contains(x) <==> (s.contains(x) || x == a) by {
        if s.push(a).contains(x) {
            let k = choose|k: int| 0 <= k < s.push(a).len() && s.push(a)[k] == x;
            if k < s.len() {
                assert(s[k] == x);
            }
        }
        if s.contains(x) {
            let k = choose|k: int| 0 <= k < s.len() && s[k] == x;
            assert(s.push(a)[k] == x);
        }
        if x == a {
            assert(s.push(a)[s.len() as int] == x);
        }
    }
}

/// The position before the first element that `x` orders before.
pub open spec fn first_gt(s: Seq<Seq<char>>, x: Seq<char>) -> int
    decreases s.len(),
{
    if s.len() == 0 {
        0
    } else if seq_lt(x, s[0]) {
        0
    } else {
        1 + first_gt(s.drop_first(), x)
    }
}

/// Stable insertion sort: each element goes after every element it does
/// not order before (`<[String]>::sort`).
pub open spec fn sort_seq(s: Seq<Seq<char>>) -> Seq<Seq<char>>
    decreases s.len(),
{
    if s.len() == 0 {
        Seq::empty()
    } else {
        let r = sort_seq(s.drop_last());
        r.insert(first_gt(r, s.last()), s.last())
    }
}

/// `first_gt` is the position a scan for the first greater element stops at.
pub proof fn lemma_first_gt(s: Seq<Seq<char>>, x: Seq<char>, p: int)
    requires
        0 <= p <= s.len(),
        forall|j: int| 0 <= j < p ==> !seq_lt(x, #[trigger] s[j]),
        p < s.len() ==> seq_lt(x, s[p]),
    ensures
        first_gt(s, x) == p,
    decreases s.len(),
{
    if s.len() > 0 && p > 0 {
        assert(!seq_lt(x, s[0]));
        lemma_first_gt(s.drop_first(), x, p - 1);
    }
}

/// Sorting keeps the elements and their counts.
pub proof fn lemma_sort_seq_multiset(s: Seq<Seq<char>>)
    ensures
        sort_seq(s).to_multiset() == s.to_multiset(),
        sort_seq(s).len() == s.len(),
        forall|x: Seq<char>| sort_seq(s).contains(x) <==> s.contains(x),
    decreases s.len(),
{
    if s.len() > 0 {
        let r = sort_seq(s.drop_last());
        lemma_sort_seq_multiset(s.drop_last());
        lemma_first_gt_bound(r, s.last());
        to_multiset_insert(r, first_gt(r, s.last()), s.last());
        to_multiset_build(s.drop_last(), s.last());
        assert(s.drop_last().push(s.last()) =~= s);
    } else {
        assert(s =~= Seq::<Seq<char>>::empty());
    }
    assert forall|x: Seq<char>| sort_seq(s).contains(x) <==> s.contains(x) by {
        vstd::seq_lib::to_multiset_contains(sort_seq(s), x);
        vstd::seq_lib::to_multiset_contains(s, x);
    }
}

/// Every element before `first_gt` is not greater than `x`, and the
/// element at it, if any, is.
pub proof fn lemma_first_gt_split(s: Seq<Seq<char>>, x: Seq<char>)
    ensures
        forall|j: int| 0 <= j < first_gt(s, x) && j < s.len() ==> !seq_lt(x, #[trigger] s[j]),
        first_gt(s, x) < s.len() ==> seq_lt(x, s[first_gt(s, x)]),
    decreases s.len(),
{
    if s.len() > 0 && !seq_lt(x, s[0]) {
        let t = s.drop_first();
        lemma_first_gt_split(t, x);
        lemma_first_gt_bound(t, x);
        assert(first_gt(s, x) == 1 + first_gt(t, x));
        assert forall|j: int| 0 <= j < first_gt(s, x) && j < s.len() implies !seq_lt(x, #[trigger] s[j]) by {
            if j > 0 {
                assert(s[j] == t[j - 1]);
            }
        }
        if first_gt(s, x) < s.len() {
            assert(s[first_gt(s, x)] == t[first_gt(t, x)]);
        }
    }
}

/// Sorting leaves no element after one it orders before.
pub proof fn lemma_sort_seq_ordered(s: Seq<Seq<char>>)
    ensures
        forall|i: int, j: int| 0 <= i < j < sort_seq(s).len() ==> !seq_lt(#[trigger] sort_seq(s)[j], #[trigger] sort_seq(s)[i]),
    decreases s.len(),
{
    if s.len() > 0 {
        let r = sort_seq(s.drop_last());
        let x = s.last();
        lemma_sort_seq_ordered(s.drop_last());
        lemma_first_gt_bound(r, x);
        lemma_first_gt_split(r, x);
        let p = first_gt(r, x);
        let q = r.insert(p, x);
        assert(q == sort_seq(s));
        assert forall|i: int, j: int| 0 <= i < j < q.len() implies !seq_lt(#[trigger] q[j], #[trigger] q[i]) by {
            if j < p {
                assert(q[i] == r[i] && q[j] == r[j]);
            } else if j == p {
                assert(q[i] == r[i]);
                assert(!seq_lt(x, r[i]));
            } else if i > p {
                assert(q[i] == r[i - 1] && q[j] == r[j - 1]);
            } else if i == p {
                assert(q[j] == r[j - 1]);
                assert(seq_lt(x, r[p]));
                if p < j - 1 {
                    assert(!seq_lt(r[j - 1], r[p]));
                }
                if seq_lt(r[j - 1], x) {
                    if p < j - 1 {
                        crate::text::lemma_lt_total(r[j - 1], r[p]);
                        if r[j - 1] != r[p] {
                            lemma_lt_transitive(r[j - 1], x, r[p]);
                        } else {
                            lemma_lt_total(x, r[p]);
                        }
                    } else {
                        lemma_lt_total(x, r[p]);
                    }
                }
            } else {
                assert(q[i] == r[i] && q[j] == r[j - 1]);
            }
        }
    }
}

/// A sorting of distinct strings is strictly increasing.
pub proof fn lemma_sort_seq_sorted(s: Seq<Seq<char>>)
    requires
        s.no_duplicates(),
    ensures
        sorted(sort_seq(s)),
        sort_seq(s).no_duplicates(),
{
    lemma_sort_seq_multiset(s);
    lemma_sort_seq_ordered(s);
    s.lemma_multiset_has_no_duplicates();
    sort_seq(s).lemma_multiset_has_no_duplicates_conv();
    let q = sort_seq(s);
    assert forall|i: int, j: int| 0 <= i < j < q.len() implies seq_lt(#[trigger] q[i], #[trigger] q[j]) by {
        lemma_lt_total(q[i], q[j]);
    }
}

/// `first_gt` is a position of the sequence or its end.
pub proof fn lemma_first_gt_bound(s: Seq<Seq<char>>, x: Seq<char>)
    ensures
        0 <= first_gt(s, x) <= s.len(),
    decreases s.len(),
{
    if s.len() > 0 {
        lemma_first_gt_bound(s.drop_first(), x);
    }
}

/// Sorts strings in increasing order, keeping equal ones (`<[String]>::sort`).
pub fn sort_strings(v: Vec<String>) -> (r: Vec<String>)
    ensures
        views(r@) == sort_seq(views(v@)),
        sorted_le(views(r@)),
        views(r@).to_multiset() == views(v@).to_multiset(),
        r@.len() == v@.len(),
{
    let mut r: Vec<String> = Vec::new();
    let mut i: usize = 0;
    proof {
        assert(views(v@).take(0) =~= views(r@));
    }
    while i < v.len()
        invariant
            i <= v@.len(),
            sorted_le(views(r@)),
            views(r@).to_multiset() == views(v@).take(i as int).to_multiset(),
            views(r@) == sort_seq(views(v@).take(i as int)),
            r@.len() == i,
        decreases v.len() - i,
    {
        let x = v[i].clone();
        let mut p: usize = 0;
        let mut stop = false;
        while !stop && p < r.len()
            invariant
                p <= r@.len(),
                forall|j: int| 0 <= j < p ==> !seq_lt(x@, #[trigger] r@[j]@),
                stop ==> p < r@.len() && seq_lt(x@, r@[p as int]@),
            decreases r.len() - p + (if stop { 0int } else { 1int }),
        {
            if str_lt(x.as_str(), r[p].as_str()) {
                stop = true;
            } else {
                p = p + 1;
            }
        }
        let ghost old_r = r@;
        r.insert(p, x);
        proof {
            let ov = views(old_r);
            let nv = views(r@);
            assert(nv =~= ov.insert(p as int, v@[i as int]@));
            to_multiset_insert(ov, p as int, v@[i as int]@);
            assert(views(v@).take(i + 1) =~= views(v@).take(i as int).push(v@[i as int]@));
            to_multiset_build(views(v@).take(i as int), v@[i as int]@);
            lemma_first_gt(ov, v@[i as int]@, p as int);
            assert(views(v@).take(i + 1).drop_last() =~= views(v@).take(i as int));
            assert forall|a: int, b: int| 0 <= a < b < nv.len() implies !seq_lt(
                #[trigger] nv[b],
                #[trigger] nv[a],
            ) by {
                let xv = v@[i as int]@;
                if b < p {
                } else if a > p {
                } else if a == p {
                    // x before every later element
                    let ob = ov[b - 1];
                    if stop {
                        assert(seq_lt(xv, ov[p as int]));
                        if b - 1 > p {
                            assert(!seq_lt(ob, ov[p as int]));
                            lemma_lt_total(ob, ov[p as int]);
                            if ob != ov[p as int] {
                                lemma_lt_transitive(xv, ov[p as int], ob);
                            }
                        }
                        lemma_lt_total(xv, ob);
                    } else {
                        assert(false);
                    }
                } else if b > p {
                    assert(nv[a] == ov[a]);
                    assert(nv[b] == ov[b - 1]);
                } else {
                    assert(b == p);
                    assert(!seq_lt(xv, ov[a]));
                }
            }
        }
        i = i + 1;
    }
    proof {
        assert(views(v@).take(v@.len() as int) =~= views(v@));
    }
    r
}

/// A map's domain is its keys, and a map with increasing keys holds the
/// `i`-th value under the `i`-th key.
pub proof fn lemma_map_keys<V: DeepView>(m: StrMap<V>)
    ensures
        forall|k: Seq<char>| #[trigger] m@.dom().contains(k) <==> m.keys().contains(k),
        m.keys().len() == m.vals().len(),
        sorted(m.keys()) ==> forall|i: int| 0 <= i < m.keys().len() ==> #[trigger] m@[m.keys()[i]] == m.vals()[i],
{
    if sorted(m.keys()) {
        lemma_sorted_no_dup(m.keys());
        assert forall|i: int| 0 <= i < m.keys().len() implies #[trigger] m@[m.keys()[i]] == m.vals()[i] by {
            let ks = m.keys();
            assert(ks.contains(ks[i]));
            let j = ks.index_of(ks[i]);
            if j != i {
                assert(ks[j] == ks[i]);
            }
        }
    }
}

/// Two maps with the same contents, each with its keys in increasing
/// order, hold the same keys and the same values in the same order.
pub proof fn lemma_ordered_repr<V: DeepView>(a: StrMap<V>, b: StrMap<V>)
    requires
        sorted(a.keys()),
        sorted(b.keys()),
        a@ == b@,
    ensures
        a.keys() == b.keys(),
        a.vals() == b.vals(),
{
    assert forall|x: Seq<char>| a.keys().contains(x) <==> b.keys().contains(x) by {
        assert(a@.dom().contains(x) == a.keys().contains(x));
        assert(b@.dom().contains(x) == b.keys().contains(x));
    }
    lemma_sorted_unique(a.keys(), b.keys());
    lemma_sorted_no_dup(a.keys());
    let ks = a.keys();
    assert(a.keys().len() == a.vals().len());
    assert(b.keys().len() == b.vals().len());
    assert forall|i: int| 0 <= i < a.vals().len() implies a.vals()[i] == b.vals()[i] by {
        let k = ks[i];
        assert(ks.contains(k));
        let j = ks.index_of(k);
        assert(ks[j] == k);
        if j != i {
            assert(false);
        }
        assert(a@[k] == a.vals()[i]);
        assert(b@[k] == b.vals()[i]);
    }
    assert(a.vals() =~= b.vals());
}

/// A set of strings, ordered.
#[derive(Debug)]
pub struct StrSet {
    map: StrMap<()>,
}

impl StrSet {
    /// The elements, in increasing order.
    pub closed spec fn elems(&self) -> Seq<Seq<char>> {
        self.map.keys()
    }

    /// Creates an empty set.
    pub fn new() -> (s: Self)
        ensures
            s@ == Set::<Seq<char>>::empty(),
            s.elems() == Seq::<Seq<char>>::empty(),
    {
        let s = StrSet { map: StrMap::new() };
        assert(s@ =~= Set::<Seq<char>>::empty());
        s
    }

    /// The elements are strictly increasing and are the set.
    pub fn lemma_elems(&self)
        ensures
            sorted(self.elems()),
            self.elems().to_set() == self@,
            self.elems().no_duplicates(),
            self@.finite(),
            self@.len() == self.elems().len(),
    {
        self.map.lemma_keys();
        proof {
            self.elems().unique_seq_to_set();
        }
    }

    /// The number of elements.
    pub fn len(&self) -> (n: usize)
        ensures
            n == self.elems().len(),
    {
        self.map.len()
    }

    /// Whether the set is empty.
    pub fn is_empty(&self) -> (b: bool)
        ensures
            b == (self@ == Set::<Seq<char>>::empty()),
    {
        self.lemma_elems();
        let b = self.map.len() == 0;
        proof {
            if !b {
                assert(self@.contains(self.elems()[0]));
            } else {
                assert(self@ =~= Set::<Seq<char>>::empty());
            }
        }
        b
    }

    /// The element at position `i` in increasing order.
    pub fn elem_at(&self, i: usize) -> (e: &String)
        requires
            i < self.elems().len(),
        ensures
            e@ == self.elems()[i as int],
    {
        self.map.key_at(i)
    }

    /// Whether `k` belongs to the set.
    pub fn contains(&self, k: &str) -> (b: bool)
        ensures
            b == self@.contains(k@),
    {
        self.map.contains_key(k)
    }

    /// Adds `k` to the set.
    pub fn insert(&mut self, k: String)
        ensures
            final(self)@ == old(self)@.insert(k@),
    {
        self.map.insert(k, ());
        assert(self@ =~= old(self)@.insert(k@));
    }

    /// Removes `k`, returning whether it was present.
    pub fn remove(&mut self, k: &str) -> (b: bool)
        ensures
            final(self)@ == old(self)@.remove(k@),
            b == old(self)@.contains(k@),
    {
        let r = self.map.remove(k);
        assert(self@ =~= old(self)@.remove(k@));
        r.is_some()
    }

    /// The set of the given strings.
    pub fn from_strings(v: &[String]) -> (s: Self)
        ensures
            s@ == views(v@).to_set(),
    {
        let mut s = StrSet::new();
        let mut i: usize = 0;
        while i < v.len()
            invariant
                i <= v@.len(),
                s@ == views(v@).take(i as int).to_set(),
            decreases v.len() - i,
        {
            s.insert(v[i].clone());
            proof {
                assert(views(v@).take(i + 1) =~= views(v@).take(i as int).push(v@[i as int]@));
                views(v@).take(i as int).lemma_push_to_set_commute(v@[i as int]@);
            }
            i = i + 1;
        }
        assert(views(v@).take(v@.len() as int) =~= views(v@));
        s
    }

    /// The elements, in increasing order, as strings.
    pub fn to_vec(&self) -> (r: Vec<String>)
        ensures
            views(r@) == self.elems(),
    {
        let mut r: Vec<String> = Vec::new();
        let mut i: usize = 0;
        while i < self.len()
            invariant
                i <= self.elems().len(),
                views(r@) == self.elems().take(i as int),
            decreases self.elems().len() - i,
        {
            let ghost old_r = r@;
            r.push(self.elem_at(i).clone());
            assert(views(r@) =~= views(old_r).push(self.elems()[i as int]));
            assert(views(r@) =~= self.elems().take(i + 1));
            i = i + 1;
        }
        assert(self.elems().take(i as int) =~= self.elems());
        r
    }

    /// The elements of `self` that `other` lacks, in increasing order.
    pub fn difference(&self, other: &StrSet) -> (r: Vec<String>)
        ensures
            sorted(views(r@)),
            views(r@).to_set() == self@.difference(other@),
    {
        self.filtered(other, false)
    }

    /// The elements of `self` that `other` holds too, in increasing order.
    pub fn intersection(&self, other: &StrSet) -> (r: Vec<String>)
        ensures
            sorted(views(r@)),
            views(r@).to_set() == self@.intersect(other@),
    {
        self.filtered(other, true)
    }

    fn filtered(&self, other: &StrSet, keep: bool) -> (r: Vec<String>)
        ensures
            sorted(views(r@)),
            keep ==> views(r@).to_set() == self@.intersect(other@),
            !keep ==> views(r@).to_set() == self@.difference(other@),
    {
        self.lemma_elems();
        let ghost es = self.elems();
        let mut r: Vec<String> = Vec::new();
        let mut i: usize = 0;
        while i < self.len()
            invariant
                i <= es.len(),
                es == self.elems(),
                sorted(es),
                sorted(views(r@)),
                forall|k: int|
                    0 <= k < r@.len() ==> exists|j: int|
                        0 <= j < i && #[trigger] es[j] == (#[trigger] r@[k])@,
                forall|x: Seq<char>|
                    #![trigger views(r@).contains(x)]
                    #![trigger es.take(i as int).contains(x)]
                    views(r@).contains(x) <==> (es.take(i as int).contains(x) && (
                    other@.contains(x) == keep)),
            decreases es.len() - i,
        {
            let e = self.elem_at(i);
            let inside = other.contains(e.as_str());
            let ghost old_r = r@;
            if inside == keep {
                r.push(e.clone());
                proof {
                    assert(views(r@) =~= views(old_r).push(e@));
                    assert forall|a: int, b: int| 0 <= a < b < views(r@).len() implies seq_lt(
                        #[trigger] views(r@)[a],
                        #[trigger] views(r@)[b],
                    ) by {
                        if b == views(r@).len() - 1 {
                            let j = choose|j: int| 0 <= j < i && #[trigger] es[j] == old_r[a]@;
                            assert(seq_lt(es[j], es[i as int]));
                        } else {
                            assert(views(old_r)[a] == views(r@)[a]);
                            assert(views(old_r)[b] == views(r@)[b]);
                        }
                    }
                    assert forall|k: int| 0 <= k < r@.len() implies exists|j: int|
                        0 <= j < i + 1 && #[trigger] es[j] == (#[trigger] r@[k])@ by {
                        if k < old_r.len() {
                            let j = choose|j: int| 0 <= j < i && #[trigger] es[j] == old_r[k]@;
                            assert(es[j] == r@[k]@);
                        } else {
                            assert(es[i as int] == r@[k]@);
                        }
                    }
                }
            }
            proof {
                assert(es.take(i + 1) =~= es.take(i as int).push(es[i as int]));
                lemma_push_contains(es.take(i as int), es[i as int]);
                if inside == keep {
                    lemma_push_contains(views(old_r), e@);
                } else {
                    assert(views(r@) == views(old_r));
                }
                assert forall|x: Seq<char>| views(r@).contains(x) <==> (es.take(i + 1).contains(x)
                    && (other@.contains(x) == keep)) by {
                    assert(views(old_r).contains(x) <==> (es.take(i as int).contains(x) && (
                    other@.contains(x) == keep)));
                    assert(es.take(i + 1) == es.take(i as int).push(es[i as int]));
                    assert(es.take(i as int).push(es[i as int]).contains(x) <==> (es.take(
                        i as int,
                    ).contains(x) || x == es[i as int]));
                    if inside == keep {
                        assert(views(old_r).push(e@).contains(x) <==> (views(old_r).contains(x)
                            || x == e@));
                    }
                }
            }
            i = i + 1;
        }
        proof {
            assert(es.take(es.len() as int) =~= es);
            if keep {
                assert(views(r@).to_set() =~= self@.intersect(other@));
            } else {
                assert(views(r@).to_set() =~= self@.difference(other@));
            }
        }
        r
    }
}

impl View for StrSet {
    type V = Set<Seq<char>>;

    closed spec fn view(&self) -> Set<Seq<char>> {
        self.map@.dom()
    }
}

impl DeepView for StrSet {
    type V = Set<Seq<char>>;

    open spec fn deep_view(&self) -> Set<Seq<char>> {
        self@
    }
}

impl Dup for StrSet {
    fn dup(&self) -> (r: Self) {
        let r = StrSet { map: self.map.dup() };
        assert(r@ =~= self@);
        r
    }
}

impl Clone for StrSet {
    fn clone(&self) -> (r: Self)
        ensures
            r@ == self@,
    {
        self.dup()
    }
}

// ---------------------------------------------------------------------
// Ordered views of sets
// ---------------------------------------------------------------------
/// The strictly increasing sequence of the elements of `s`.
pub open spec fn ordered(s: Set<Seq<char>>) -> Seq<Seq<char>> {
    choose|q: Seq<Seq<char>>| sorted(q) && q.to_set() == s
}

/// A strictly increasing sequence is the ordered view of its elements.
pub proof fn lemma_ordered(q: Seq<Seq<char>>)
    requires
        sorted(q),
    ensures
        ordered(q.to_set()) == q,
{
    let c = ordered(q.to_set());
    assert(sorted(c) && c.to_set() == q.to_set());
    assert forall|x: Seq<char>| c.contains(x) <==> q.contains(x) by {
        assert(c.to_set().contains(x) == c.contains(x));
        assert(q.to_set().contains(x) == q.contains(x));
    }
    lemma_sorted_unique(c, q);
}

proof fn lemma_first_gt_splits(q: Seq<Seq<char>>, x: Seq<char>)
    ensures
        forall|j: int| 0 <= j < first_gt(q, x) ==> !seq_lt(x, #[trigger] q[j]),
        first_gt(q, x) < q.len() ==> seq_lt(x, q[first_gt(q, x)]),
    decreases q.len(),
{
    lemma_first_gt_bound(q, x);
    if q.len() > 0 && !seq_lt(x, q[0]) {
        lemma_first_gt_splits(q.drop_first(), x);
        assert forall|j: int| 0 <= j < first_gt(q, x) implies !seq_lt(x, #[trigger] q[j]) by {
            if j > 0 {
                assert(q[j] == q.drop_first()[j - 1]);
            }
        }
        let p = first_gt(q, x);
        assert(p == 1 + first_gt(q.drop_first(), x));
        lemma_first_gt_bound(q.drop_first(), x);
        if p < q.len() {
            assert(q[p] == q.drop_first()[p - 1]);
        }
    }
}

/// Every finite set of strings has its ordered view: strictly increasing,
/// with exactly its elements.
pub proof fn lemma_ordered_finite(s: Set<Seq<char>>)
    requires
        s.finite(),
    ensures
        sorted(ordered(s)),
        ordered(s).to_set() == s,
        ordered(s).len() == s.len(),
    decreases s.len(),
{
    if s.len() == 0 {
        let e = Seq::<Seq<char>>::empty();
        assert(e.to_set() =~= s);
        lemma_ordered(e);
    } else {
        let x = s.choose();
        let rest = s.remove(x);
        lemma_ordered_finite(rest);
        let q = ordered(rest);
        let p = first_gt(q, x);
        lemma_first_gt_bound(q, x);
        lemma_first_gt_splits(q, x);
        let r = q.insert(p, x);
        assert(!q.contains(x)) by {
            if q.contains(x) {
                assert(q.to_set().contains(x));
            }
        }
        assert forall|a: int, b: int| 0 <= a < b < r.len() implies seq_lt(#[trigger] r[a], #[trigger] r[b]) by {
            if a < p && b < p {
                assert(r[a] == q[a] && r[b] == q[b]);
            } else if a > p && b > p {
                assert(r[a] == q[a - 1] && r[b] == q[b - 1]);
            } else if a < p && b == p {
                assert(r[a] == q[a]);
                assert(!seq_lt(x, q[a]));
                assert(q.contains(q[a]));
                lemma_lt_total(x, q[a]);
            } else if a == p && b > p {
                assert(r[b] == q[b - 1]);
                if b - 1 > p {
                    lemma_lt_transitive(x, q[p], q[b - 1]);
                }
            } else {
                assert(a < p && b > p);
                assert(r[a] == q[a] && r[b] == q[b - 1]);
                assert(!seq_lt(x, q[a]));
                assert(q.contains(q[a]));
                lemma_lt_total(x, q[a]);
                lemma_lt_transitive(q[a], x, q[p]);
                if b - 1 > p {
                    lemma_lt_transitive(q[a], q[p], q[b - 1]);
                }
            }
        }
        lemma_insert_to_set(q, p, x);
        assert(rest.insert(x) =~= s);
        lemma_ordered(r);
        lemma_sorted_no_dup(r);
        r.unique_seq_to_set();
    }
}

/// The least element of a set in the string order.
pub open spec fn least(s: Set<Seq<char>>) -> Seq<char> {
    choose|x: Seq<char>| s.contains(x) && forall|y: Seq<char>| s.contains(y) && y != x ==> seq_lt(x, y)
}

/// The first element of a strictly increasing sequence is the least.
pub proof fn lemma_least(q: Seq<Seq<char>>)
    requires
        sorted(q),
        q.len() > 0,
    ensures
        least(q.to_set()) == q[0],
{
    let s = q.to_set();
    assert(s.contains(q[0]));
    assert forall|y: Seq<char>| s.contains(y) && y != q[0] implies seq_lt(q[0], y) by {
        let j = choose|j: int| 0 <= j < q.len() && q[j] == y;
        assert(j != 0);
    }
    let x = least(s);
    if x != q[0] {
        assert(seq_lt(x, q[0]));
        assert(seq_lt(q[0], x));
        lemma_lt_total(x, q[0]);
    }
}

} // verus!
