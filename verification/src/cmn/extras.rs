use vstd::prelude::*;
use core::marker::PhantomData;
use crate::traits::Extras;

verus! {

/// The accumulator that keeps nothing.
#[derive(Debug, PartialEq, Eq)]
pub struct NoneExtras<T>(PhantomData<T>);

impl<T> Extras<T> for NoneExtras<T> {
    closed spec fn initial() -> Self {
        NoneExtras(PhantomData)
    }

    open spec fn changed(self, input: T, pos: usize) -> Self {
        self
    }

    #[inline]
    fn new() -> Self {
        NoneExtras(PhantomData)
    }

    #[inline]
    fn clone(&self) -> Self {
        NoneExtras(self.0)
    }

    #[inline]
    fn change(&mut self, _input: &T, _pos: usize) {
    }

    #[inline]
    fn reset(&mut self) {
        self.0 = PhantomData;
    }
}

} // verus!
