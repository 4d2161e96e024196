//! Copies that stand for the same as what they were made from.
use vstd::prelude::*;

verus! {

/// A value of which a copy can be made that stands for the same.
pub trait Dup: DeepView + Sized {
    /// A copy of this value.
    fn dup(&self) -> (r: Self)
        ensures
            r.deep_view() == self.deep_view(),
    ;
}

impl Dup for String {
    fn dup(&self) -> (r: Self) {
        self.clone()
    }
}

impl Dup for u8 {
    fn dup(&self) -> (r: Self) {
        *self
    }
}

impl Dup for u64 {
    fn dup(&self) -> (r: Self) {
        *self
    }
}

impl<T: Dup> Dup for Option<T> {
    fn dup(&self) -> (r: Self) {
        match self {
            Some(x) => Some(x.dup()),
            None => None,
        }
    }
}

impl<T: Dup> Dup for Vec<T> {
    fn dup(&self) -> (r: Self) {
        dup_slice(self.as_slice())
    }
}

impl<A: Dup, B: Dup> Dup for (A, B) {
    fn dup(&self) -> (r: Self) {
        (self.0.dup(), self.1.dup())
    }
}

/// A copy of each element of `v`, in order.
pub fn dup_slice<T: Dup>(v: &[T]) -> (r: Vec<T>)
    ensures
        r.deep_view() == v.deep_view(),
{
    let mut r: Vec<T> = Vec::new();
    let mut i: usize = 0;
    while i < v.len()
        invariant
            i <= v.len(),
            r@.len() == i,
            forall|k: int| 0 <= k < i ==> (#[trigger] r@[k]).deep_view() == v@[k].deep_view(),
        decreases v.len() - i,
    {
        r.push(v[i].dup());
        i += 1;
    }
    assert(r.deep_view() =~= v.deep_view());
    r
}

/// Appends copies of the elements of `tail` to `v`.
pub fn extend_dup<T: Dup>(v: &mut Vec<T>, tail: &[T])
    ensures
        final(v).deep_view() == old(v).deep_view() + tail.deep_view(),
{
    let ghost first = v.deep_view();
    let mut i: usize = 0;
    while i < tail.len()
        invariant
            i <= tail.len(),
            v.deep_view() == first + tail.deep_view().take(i as int),
        decreases tail.len() - i,
    {
        crate::text::put(v, tail[i].dup());
        assert(tail.deep_view().take(i + 1) =~= tail.deep_view().take(i as int).push(
            tail@[i as int].deep_view(),
        ));
        i += 1;
    }
    assert(tail.deep_view().take(tail@.len() as int) =~= tail.deep_view());
}

} // verus!
