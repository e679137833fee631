use vstd::prelude::*;
use core::cmp::Ordering;
use crate::cmn::utils::isize_to_usize;

verus! {

/// Arithmetic on indices that never wraps.
pub trait MoveOffset: Sized {
    fn checked_move_offset(self, offset: isize) -> Option<Self>;

    fn plain_diff(self, other: Self) -> Self;
}

impl MoveOffset for usize {
    /// The distance between two indices; of an index to itself, the index.
    #[inline]
    fn plain_diff(self, other: Self) -> (d: Self)
        ensures
            self > other ==> d == self - other,
            self == other ==> d == self,
            self < other ==> d == other - self,
    {
        if self > other {
            self - other
        } else if self == other {
            self
        } else {
            other - self
        }
    }

    /// The index `offset` away, or `None` where that is no `usize`.
    #[inline]
    fn checked_move_offset(self, offset: isize) -> (r: Option<Self>)
        ensures
            r is Some <==> 0 <= self + offset <= usize::MAX,
            r is Some ==> r->0 == self + offset,
    {
        let (abs, sig) = isize_to_usize(offset);
        if sig == 1 {
            self.checked_add(abs)
        } else if sig == 0 {
            Some(self)
        } else {
            self.checked_sub(abs)
        }
    }
}

/// The distance from `a` to `b` and the side on which `b` lies:
/// `Greater` where `b` is the larger, `Less` where it is the smaller.
/// Of an index to itself the distance given is the index.
#[inline]
pub fn detailed_diff(a: usize, b: usize) -> (r: (usize, Ordering))
    ensures
        a > b ==> r.0 == a - b && r.1 == Ordering::Less,
        a == b ==> r.0 == a && r.1 == Ordering::Equal,
        a < b ==> r.0 == b - a && r.1 == Ordering::Greater,
{
    if a > b {
        (a - b, Ordering::Less)
    } else if a == b {
        (a, Ordering::Equal)
    } else {
        (b - a, Ordering::Greater)
    }
}

} // verus!
