//! Ordered sets of scope numbers and maps keyed by numbers.
use vstd::prelude::*;
use crate::dup::Dup;

verus! {

/// The sequence is strictly increasing.
pub open spec fn increasing(s: Seq<u64>) -> bool {
    forall|i: int, j: int| 0 <= i < j < s.len() ==> s[i] < s[j]
}

/// A set of numbers kept in increasing order, the order in which a
/// `BTreeSet<u64>` walks them.
#[derive(Debug)]
pub struct ScopeSet {
    items: Vec<u64>,
}

impl View for ScopeSet {
    type V = Set<u64>;

    closed spec fn view(&self) -> Set<u64> {
        self.items@.to_set()
    }
}

impl ScopeSet {
    /// The elements, in increasing order.
    pub closed spec fn elems(&self) -> Seq<u64> {
        self.items@
    }

    #[verifier::type_invariant]
    closed spec fn wf(&self) -> bool {
        increasing(self.items@)
    }

    /// The empty set.
    pub fn new() -> (s: Self)
        ensures
            s@ == Set::<u64>::empty(),
    {
        let s = ScopeSet { items: Vec::new() };
        assert(s@ =~= Set::<u64>::empty());
        s
    }

    /// The elements are strictly increasing, without repeats, and are the set.
    pub fn lemma_elems(&self)
        ensures
            increasing(self.elems()),
            self.elems().no_duplicates(),
            self.elems().to_set() == self@,
            self@.finite(),
            self@.len() == self.elems().len(),
    {
        proof {
            use_type_invariant(self);
            self.items@.unique_seq_to_set();
        }
    }

    /// Whether `x` belongs to the set.
    pub fn contains(&self, x: u64) -> (b: bool)
        ensures
            b == self@.contains(x),
    {
        let mut i: usize = 0;
        while i < self.items.len()
            invariant
                i <= self.items@.len(),
                forall|j: int| 0 <= j < i ==> self.items@[j] != x,
            decreases self.items@.len() - i,
        {
            if self.items[i] == x {
                assert(self.items@.contains(x));
                return true;
            }
            i = i + 1;
        }
        false
    }

    /// Whether the set is empty.
    pub fn is_empty(&self) -> (b: bool)
        ensures
            b == (self@ == Set::<u64>::empty()),
    {
        proof {
            if self.items@.len() > 0 {
                assert(self@.contains(self.items@[0]));
            } else {
                assert(self@ =~= Set::<u64>::empty());
            }
        }
        self.items.len() == 0
    }

    /// The number of elements.
    pub fn len(&self) -> (n: usize)
        ensures
            n == self@.len(),
    {
        self.lemma_elems();
        self.items.len()
    }

    /// Adds `x`.
    pub fn insert(&mut self, x: u64)
        ensures
            final(self)@ == old(self)@.insert(x),
    {
        proof {
            use_type_invariant(&*self);
        }
        let mut i: usize = 0;
        while i < self.items.len() && self.items[i] < x
            invariant
                i <= self.items@.len(),
                increasing(self.items@),
                forall|j: int| 0 <= j < i ==> self.items@[j] < x,
            decreases self.items@.len() - i,
        {
            i = i + 1;
        }
        if i < self.items.len() && self.items[i] == x {
            assert(self.items@.contains(x));
            assert(self@ =~= old(self)@.insert(x));
            return;
        }
        let mut items: Vec<u64> = Vec::new();
        std::mem::swap(&mut items, &mut self.items);
        let ghost old_items = items@;
        items.insert(i, x);
        proof {
            assert forall|a: int, b: int| 0 <= a < b < items@.len() implies items@[a] < items@[b] by {
                if a < i && b < i {
                    assert(items@[a] == old_items[a] && items@[b] == old_items[b]);
                } else if a > i && b > i {
                    assert(items@[a] == old_items[a - 1] && items@[b] == old_items[b - 1]);
                } else if a < i && b == i {
                    assert(items@[a] == old_items[a]);
                } else if a == i && b > i {
                    assert(items@[b] == old_items[b - 1]);
                    assert(old_items[i as int] >= x);
                    if b - 1 > i {
                        assert(old_items[i as int] < old_items[b - 1]);
                    }
                } else {
                    assert(items@[a] == old_items[a] && items@[b] == old_items[b - 1]);
                }
            }
            assert forall|y: u64| items@.to_set().contains(y) <==> old_items.to_set().insert(x).contains(y) by {
                if items@.contains(y) {
                    let k = choose|k: int| 0 <= k < items@.len() && items@[k] == y;
                    if k < i {
                        assert(old_items[k] == y);
                    } else if k > i {
                        assert(old_items[k - 1] == y);
                    }
                }
                if old_items.contains(y) {
                    let k = choose|k: int| 0 <= k < old_items.len() && old_items[k] == y;
                    if k < i {
                        assert(items@[k] == y);
                    } else {
                        assert(items@[k + 1] == y);
                    }
                }
                if y == x {
                    assert(items@[i as int] == x);
                }
            }
        }
        self.items = items;
        assert(self@ =~= old(self)@.insert(x));
    }

    /// Removes `x`, returning whether it was present.
    pub fn remove(&mut self, x: u64) -> (b: bool)
        ensures
            final(self)@ == old(self)@.remove(x),
            b == old(self)@.contains(x),
    {
        proof {
            use_type_invariant(&*self);
        }
        let mut i: usize = 0;
        while i < self.items.len()
            invariant
                i <= self.items@.len(),
                self.items@ == old(self).items@,
                increasing(self.items@),
                forall|j: int| 0 <= j < i ==> self.items@[j] != x,
            decreases self.items@.len() - i,
        {
            if self.items[i] == x {
                let mut items: Vec<u64> = Vec::new();
        std::mem::swap(&mut items, &mut self.items);
                let ghost old_items = items@;
                items.remove(i);
                proof {
                    assert forall|a: int, b: int| 0 <= a < b < items@.len() implies items@[a] < items@[b] by {
                        if a < i {
                            assert(items@[a] == old_items[a]);
                        } else {
                            assert(items@[a] == old_items[a + 1]);
                        }
                        if b < i {
                            assert(items@[b] == old_items[b]);
                        } else {
                            assert(items@[b] == old_items[b + 1]);
                        }
                    }
                    assert forall|y: u64| items@.to_set().contains(y) <==> old_items.to_set().remove(x).contains(y) by {
                        if items@.contains(y) {
                            let k = choose|k: int| 0 <= k < items@.len() && items@[k] == y;
                            if k < i {
                                assert(old_items[k] == y);
                            } else {
                                assert(old_items[k + 1] == y);
                                assert(old_items[i as int] < old_items[k + 1]);
                            }
                        }
                        if old_items.contains(y) && y != x {
                            let k = choose|k: int| 0 <= k < old_items.len() && old_items[k] == y;
                            if k < i {
                                assert(items@[k] == y);
                            } else {
                                assert(k != i);
                                assert(items@[k - 1] == y);
                            }
                        }
                        if items@.contains(x) {
                            let k = choose|k: int| 0 <= k < items@.len() && items@[k] == x;
                            if k < i {
                                assert(old_items[k] == x);
                            } else {
                                assert(old_items[k + 1] == x);
                                assert(old_items[i as int] < old_items[k + 1]);
                            }
                        }
                    }
                }
                self.items = items;
                assert(self@ =~= old(self)@.remove(x));
                assert(old(self)@.contains(x)) by {
                    assert(old(self).items@[i as int] == x);
                }
                return true;
            }
            i = i + 1;
        }
        assert(!old(self)@.contains(x));
        assert(self@ =~= old(self)@.remove(x));
        false
    }

    /// Whether two sets hold the same elements.
    pub fn same(&self, other: &ScopeSet) -> (b: bool)
        ensures
            b == (self@ == other@),
    {
        self.lemma_elems();
        other.lemma_elems();
        if self.items.len() != other.items.len() {
            proof {
                if self@ == other@ {
                    assert(false);
                }
            }
            return false;
        }
        let mut i: usize = 0;
        while i < self.items.len()
            invariant
                i <= self.items@.len(),
                increasing(self.items@),
                increasing(other.items@),
                self.items@.len() == other.items@.len(),
                forall|j: int| 0 <= j < i ==> self.items@[j] == other.items@[j],
            decreases self.items@.len() - i,
        {
            if self.items[i] != other.items[i] {
                proof {
                    if self@ == other@ {
                        crate::gate::scopes::lemma_increasing_unique(self.items@, other.items@);
                    }
                }
                return false;
            }
            i = i + 1;
        }
        assert(self.items@ =~= other.items@);
        true
    }

    /// The elements, in increasing order.
    pub fn to_vec(&self) -> (r: Vec<u64>)
        ensures
            r@ == self.elems(),
    {
        self.items.clone()
    }
}

impl DeepView for ScopeSet {
    type V = Set<u64>;

    open spec fn deep_view(&self) -> Set<u64> {
        self@
    }
}

impl Dup for ScopeSet {
    fn dup(&self) -> (r: Self) {
        proof {
            use_type_invariant(self);
        }
        let r = ScopeSet { items: self.items.clone() };
        assert(r.items@ =~= self.items@);
        r
    }
}

/// Two increasing sequences with the same elements are equal.
pub proof fn lemma_increasing_unique(a: Seq<u64>, b: Seq<u64>)
    requires
        increasing(a),
        increasing(b),
        a.to_set() == b.to_set(),
    ensures
        a == b,
    decreases a.len(),
{
    if a.len() == 0 {
        if b.len() > 0 {
            assert(b.to_set().contains(b[0]));
            assert(a.to_set().contains(b[0]));
        }
        assert(a =~= b);
    } else {
        assert(a.to_set().contains(a[0]));
        assert(b.to_set().contains(a[0]));
        assert(b.len() > 0);
        assert(b.to_set().contains(b[0]));
        assert(a.to_set().contains(b[0]));
        let i = choose|i: int| 0 <= i < a.len() && a[i] == b[0];
        let j = choose|j: int| 0 <= j < b.len() && b[j] == a[0];
        assert(a[0] <= b[0]) by {
            if i > 0 {
                assert(a[0] < a[i]);
            }
        }
        assert(b[0] <= a[0]) by {
            if j > 0 {
                assert(b[0] < b[j]);
            }
        }
        let a1 = a.drop_first();
        let b1 = b.drop_first();
        assert forall|x: u64| a1.to_set().contains(x) <==> b1.to_set().contains(x) by {
            if a1.contains(x) {
                let k = choose|k: int| 0 <= k < a1.len() && a1[k] == x;
                assert(a[k + 1] == x);
                assert(a[0] < a[k + 1]);
                assert(b.contains(x)) by {
                    assert(a.contains(x));
                    assert(a.to_set().contains(x));
                }
                let m = choose|m: int| 0 <= m < b.len() && b[m] == x;
                assert(m != 0);
                assert(b1[m - 1] == x);
            }
            if b1.contains(x) {
                let k = choose|k: int| 0 <= k < b1.len() && b1[k] == x;
                assert(b[k + 1] == x);
                assert(b[0] < b[k + 1]);
                assert(a.contains(x)) by {
                    assert(b.contains(x));
                    assert(b.to_set().contains(x));
                }
                let m = choose|m: int| 0 <= m < a.len() && a[m] == x;
                assert(m != 0);
                assert(a1[m - 1] == x);
            }
        }
        assert(a1.to_set() =~= b1.to_set());
        lemma_increasing_unique(a1, b1);
        assert(a =~= seq![a[0]] + a1);
        assert(b =~= seq![b[0]] + b1);
    }
}

/// A map from numbers to values.
#[derive(Debug)]
pub struct NumMap<V: DeepView> {
    entries: Vec<(u64, V)>,
}

impl<V: DeepView> View for NumMap<V> {
    type V = Map<u64, V::V>;

    closed spec fn view(&self) -> Map<u64, V::V> {
        Map::new(
            |k: u64| exists|i: int| 0 <= i < self.entries@.len() && self.entries@[i].0 == k,
            |k: u64| self.entries@[choose|i: int| 0 <= i < self.entries@.len() && self.entries@[i].0 == k].1.deep_view(),
        )
    }
}

impl<V: DeepView> NumMap<V> {
    #[verifier::type_invariant]
    closed spec fn wf(&self) -> bool {
        forall|i: int, j: int| 0 <= i < j < self.entries@.len() ==> self.entries@[i].0 != self.entries@[j].0
    }

    /// The empty map.
    pub fn new() -> (m: Self)
        ensures
            m@ == Map::<u64, V::V>::empty(),
    {
        let m = NumMap { entries: Vec::new() };
        assert(m@ =~= Map::<u64, V::V>::empty());
        m
    }

    fn find(&self, k: u64) -> (r: Option<usize>)
        ensures
            r is None ==> !self@.contains_key(k),
            r matches Some(i) ==> i < self.entries@.len() && self.entries@[i as int].0 == k
                && self@.contains_key(k) && self@[k] == self.entries@[i as int].1.deep_view(),
    {
        proof {
            use_type_invariant(self);
        }
        let mut i: usize = 0;
        while i < self.entries.len()
            invariant
                i <= self.entries@.len(),
                self.wf(),
                forall|j: int| 0 <= j < i ==> self.entries@[j].0 != k,
            decreases self.entries@.len() - i,
        {
            if self.entries[i].0 == k {
                proof {
                    let c = choose|j: int| 0 <= j < self.entries@.len() && self.entries@[j].0 == k;
                    assert(c == i);
                }
                return Some(i);
            }
            i = i + 1;
        }
        None
    }

    /// The keys, in the order they were first inserted.
    pub closed spec fn keys(&self) -> Seq<u64> {
        self.entries@.map_values(|e: (u64, V)| e.0)
    }

    /// The keys are the map's domain, each once.
    pub fn lemma_keys(&self)
        ensures
            self.keys().no_duplicates(),
            self.keys().to_set() == self@.dom(),
    {
        proof {
            use_type_invariant(self);
            assert forall|k: u64| self.keys().contains(k) <==> self@.dom().contains(k) by {
                if self.keys().contains(k) {
                    let i = choose|i: int| 0 <= i < self.keys().len() && self.keys()[i] == k;
                    assert(self.entries@[i].0 == k);
                }
                if self@.dom().contains(k) {
                    let i = choose|i: int| 0 <= i < self.entries@.len() && self.entries@[i].0 == k;
                    assert(self.keys()[i] == k);
                }
            }
            assert(self.keys().to_set() =~= self@.dom());
        }
    }

    /// The number of keys.
    pub fn len(&self) -> (n: usize)
        ensures
            n == self.keys().len(),
    {
        self.entries.len()
    }

    /// The `i`-th key and its value.
    pub fn entry_at(&self, i: usize) -> (r: (u64, &V))
        requires
            i < self.keys().len(),
        ensures
            r.0 == self.keys()[i as int],
            self@.contains_key(r.0),
            r.1.deep_view() == self@[r.0],
    {
        proof {
            use_type_invariant(self);
            let k = self.entries@[i as int].0;
            let c = choose|j: int| 0 <= j < self.entries@.len() && self.entries@[j].0 == k;
            assert(c == i);
        }
        (self.entries[i].0, &self.entries[i].1)
    }

    /// Whether `k` has a value.
    pub fn contains_key(&self, k: u64) -> (b: bool)
        ensures
            b == self@.contains_key(k),
    {
        self.find(k).is_some()
    }

    /// The value of `k`, if any.
    pub fn get(&self, k: u64) -> (r: Option<&V>)
        ensures
            r is Some == self@.contains_key(k),
            r matches Some(v) ==> v.deep_view() == self@[k],
    {
        match self.find(k) {
            Some(i) => Some(&self.entries[i].1),
            None => None,
        }
    }

    /// Sets the value of `k`.
    pub fn insert(&mut self, k: u64, v: V)
        ensures
            final(self)@ == old(self)@.insert(k, v.deep_view()),
    {
        proof {
            use_type_invariant(&*self);
        }
        let ghost vv = v.deep_view();
        match self.find(k) {
            Some(i) => {
                let ghost old_entries = self.entries@;
                let mut entries: Vec<(u64, V)> = Vec::new();
                std::mem::swap(&mut entries, &mut self.entries);
                entries.set(i, (k, v));
                proof {
                    assert forall|a: int, b: int| 0 <= a < b < entries@.len() implies entries@[a].0 != entries@[b].0 by {
                        if a != i && b != i {
                            assert(entries@[a] == old_entries[a] && entries@[b] == old_entries[b]);
                        } else if a == i {
                            assert(entries@[b] == old_entries[b]);
                        } else {
                            assert(entries@[a] == old_entries[a]);
                        }
                    }
                }
                self.entries = entries;
                proof {
                    assert forall|x: u64| #[trigger] self@.contains_key(x) <==> old(self)@.insert(k, vv).contains_key(x) by {
                        if x != k {
                            if old(self)@.contains_key(x) {
                                let j = choose|j: int| 0 <= j < old_entries.len() && old_entries[j].0 == x;
                                assert(self.entries@[j].0 == x);
                            }
                            if self@.contains_key(x) {
                                let j = choose|j: int| 0 <= j < self.entries@.len() && self.entries@[j].0 == x;
                                assert(old_entries[j].0 == x);
                            }
                        } else {
                            assert(self.entries@[i as int].0 == k);
                        }
                    }
                    assert forall|x: u64| #[trigger] self@.contains_key(x) implies self@[x] == old(self)@.insert(k, vv)[x] by {
                        let j = choose|j: int| 0 <= j < self.entries@.len() && self.entries@[j].0 == x;
                        if x != k {
                            let j0 = choose|j0: int| 0 <= j0 < old_entries.len() && old_entries[j0].0 == x;
                            assert(j == j0);
                        } else {
                            assert(j == i);
                        }
                    }
                    assert(self@ =~= old(self)@.insert(k, vv));
                }
            },
            None => {
                let ghost old_entries = self.entries@;
                let mut entries: Vec<(u64, V)> = Vec::new();
                std::mem::swap(&mut entries, &mut self.entries);
                entries.push((k, v));
                proof {
                    assert forall|a: int, b: int| 0 <= a < b < entries@.len() implies entries@[a].0 != entries@[b].0 by {
                        if b < old_entries.len() {
                            assert(entries@[a] == old_entries[a] && entries@[b] == old_entries[b]);
                        } else {
                            assert(entries@[a] == old_entries[a]);
                            assert(old(self)@.contains_key(old_entries[a].0)) by {
                                assert(old_entries[a].0 == old_entries[a].0);
                            }
                        }
                    }
                }
                self.entries = entries;
                proof {
                    let n = old_entries.len() as int;
                    assert forall|x: u64| #[trigger] self@.contains_key(x) <==> old(self)@.insert(k, vv).contains_key(x) by {
                        if x != k {
                            if old(self)@.contains_key(x) {
                                let j = choose|j: int| 0 <= j < old_entries.len() && old_entries[j].0 == x;
                                assert(self.entries@[j].0 == x);
                            }
                            if self@.contains_key(x) {
                                let j = choose|j: int| 0 <= j < self.entries@.len() && self.entries@[j].0 == x;
                                assert(j < n);
                                assert(old_entries[j].0 == x);
                            }
                        } else {
                            assert(self.entries@[n].0 == k);
                        }
                    }
                    assert forall|x: u64| #[trigger] self@.contains_key(x) implies self@[x] == old(self)@.insert(k, vv)[x] by {
                        let j = choose|j: int| 0 <= j < self.entries@.len() && self.entries@[j].0 == x;
                        if x != k {
                            assert(j < n);
                            let j0 = choose|j0: int| 0 <= j0 < old_entries.len() && old_entries[j0].0 == x;
                            assert(j == j0);
                        } else {
                            assert(j == n);
                        }
                    }
                    assert(self@ =~= old(self)@.insert(k, vv));
                }
            },
        }
    }
}

} // verus!
