//! Copies that keep a value's deep view.
use vstd::prelude::*;

verus! {

/// A copy of a value with the same deep view as the value copied.
pub trait Dup: Sized + DeepView {
    /// Returns a copy whose deep view equals that of `self`.
    fn dup(&self) -> (r: Self)
        ensures
            r.deep_view() == self.deep_view(),
    ;
}

impl Dup for bool {
    fn dup(&self) -> (r: Self) {
        *self
    }
}

impl Dup for u32 {
    fn dup(&self) -> (r: Self) {
        *self
    }
}

impl Dup for u64 {
    fn dup(&self) -> (r: Self) {
        *self
    }
}

impl Dup for usize {
    fn dup(&self) -> (r: Self) {
        *self
    }
}

impl Dup for () {
    fn dup(&self) -> (r: Self) {
        ()
    }
}

impl Dup for String {
    fn dup(&self) -> (r: Self) {
        self.clone()
    }
}

impl<T: Dup> Dup for Option<T> {
    fn dup(&self) -> (r: Self) {
        match self {
            Some(v) => Some(v.dup()),
            None => None,
        }
    }
}

impl<T: Dup> Dup for Vec<T> {
    fn dup(&self) -> (r: Self) {
        let mut r: Vec<T> = Vec::new();
        let mut i: usize = 0;
        while i < self.len()
            invariant
                i <= self@.len(),
                r@.len() == i,
                forall|j: int| 0 <= j < i ==> (#[trigger] r@[j]).deep_view() == self@[j].deep_view(),
            decreases self.len() - i,
        {
            r.push(self[i].dup());
            i = i + 1;
        }
        assert(r.deep_view() =~= self.deep_view());
        r
    }
}

/// An executable comparison of deep views.
pub trait SameView: Sized + DeepView {
    /// Whether the two values have the same deep view.
    fn same_view(&self, other: &Self) -> (b: bool)
        ensures
            b == (self.deep_view() == other.deep_view()),
    ;
}

impl SameView for bool {
    fn same_view(&self, other: &Self) -> (b: bool) {
        *self == *other
    }
}

impl SameView for u32 {
    fn same_view(&self, other: &Self) -> (b: bool) {
        *self == *other
    }
}

impl SameView for usize {
    fn same_view(&self, other: &Self) -> (b: bool) {
        *self == *other
    }
}

impl SameView for String {
    fn same_view(&self, other: &Self) -> (b: bool) {
        crate::text::str_eq(self.as_str(), other.as_str())
    }
}

impl<T: SameView> SameView for Vec<T> {
    fn same_view(&self, other: &Self) -> (b: bool) {
        if self.len() != other.len() {
            assert(self.deep_view().len() != other.deep_view().len());
            return false;
        }
        let mut i: usize = 0;
        while i < self.len()
            invariant
                i <= self@.len(),
                self@.len() == other@.len(),
                forall|j: int| 0 <= j < i ==> (#[trigger] self@[j]).deep_view() == other@[j].deep_view(),
            decreases self.len() - i,
        {
            if !self[i].same_view(&other[i]) {
                assert(self.deep_view()[i as int] != other.deep_view()[i as int]);
                return false;
            }
            i = i + 1;
        }
        assert(self.deep_view() =~= other.deep_view());
        true
    }
}

} // verus!
