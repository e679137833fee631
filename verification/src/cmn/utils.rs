use vstd::prelude::*;

verus! {

/// The size of `i` without its sign.
pub open spec fn magnitude(i: int) -> int {
    if i < 0 {
        -i
    } else {
        i
    }
}

/// The sign of `i`: -1, 0 or 1.
pub open spec fn sign(i: int) -> int {
    if i < 0 {
        -1
    } else if i == 0 {
        0
    } else {
        1
    }
}

/// Splits a signed offset into its size and its sign. The smallest
/// `isize` has a size too, one more than the largest.
#[inline]
pub fn isize_to_usize(i: isize) -> (r: (usize, i8))
    ensures
        r.0 == magnitude(i as int),
        r.1 == sign(i as int),
{
    if i > 0 {
        (i as usize, 1)
    } else if i == 0 {
        (0, 0)
    } else if i == isize::MIN {
        ((isize::MAX as usize) + 1, -1)
    } else {
        ((-i) as usize, -1)
    }
}

/// `Some(i)` where `condition` says yes, `None` where it says no.
#[inline]
pub fn wrap<T, F: FnOnce() -> bool>(i: T, condition: F) -> (r: Option<T>)
    requires
        call_requires(condition, ()),
    ensures
        r is Some ==> r == Some(i) && call_ensures(condition, (), true),
        r is None ==> call_ensures(condition, (), false),
{
    if condition() {
        Some(i)
    } else {
        None
    }
}

} // verus!
