use vstd::prelude::*;
use core::marker::PhantomData;
use crate::cmn::consts::EOF_CHAR;
use crate::cmn::extras::NoneExtras;
use crate::traits::Extras;

verus! {

/// What a cursor knows about where it stands: whether it has met an item
/// yet, which way it travels, its index, its accumulator, and whether the
/// accumulator is switched off.
#[derive(PartialEq, Eq)]
pub struct CursorInfo<T, E: Extras<T> = NoneExtras<T>> {
    pub init: bool,
    pub backwards: bool,
    pub pos: usize,
    pub extras: E,
    pub noeffects: bool,
    pub _marker: PhantomData<T>,
}

impl<T, E: Extras<T>> CursorInfo<T, E> {
    /// The state of a cursor that has not met any item.
    pub open spec fn fresh() -> Self {
        CursorInfo {
            init: false,
            backwards: false,
            pos: 0,
            extras: E::initial(),
            noeffects: false,
            _marker: PhantomData,
        }
    }

    #[inline]
    pub fn new() -> (info: Self)
        ensures
            info == Self::fresh(),
    {
        CursorInfo {
            init: false,
            backwards: false,
            pos: 0,
            extras: E::new(),
            noeffects: false,
            _marker: PhantomData,
        }
    }

    #[inline]
    pub fn reset(&mut self)
        ensures
            *final(self) == Self::fresh(),
    {
        self.init = false;
        self.backwards = false;
        self.pos = 0;
        self.extras.reset();
        self.noeffects = false;
        self._marker = PhantomData;
    }
}

impl<T, E: Extras<T>> Default for CursorInfo<T, E> {
    #[inline]
    fn default() -> (info: Self)
        ensures
            info == Self::fresh(),
    {
        CursorInfo::new()
    }
}

impl<T, E: Extras<T>> Clone for CursorInfo<T, E> {
    #[inline]
    fn clone(&self) -> (info: Self)
        ensures
            info == *self,
    {
        CursorInfo {
            init: self.init,
            backwards: self.backwards,
            pos: self.pos,
            extras: self.extras.clone(),
            noeffects: self.noeffects,
            _marker: self._marker,
        }
    }
}

/// What a cursor over characters knows about where it stands. `inner`
/// is the state of the cursor over the bytes, `pos` the index of the
/// character, `char_start_pos` the index of its first byte and
/// `decoded_width` the number of its bytes.
#[derive(PartialEq, Eq)]
pub struct StrCursorInfo<E: Extras<char> = NoneExtras<char>> {
    pub inner: CursorInfo<u8, NoneExtras<u8>>,
    pub pos: usize,
    pub extras: E,
    pub char_start_pos: usize,
    pub current: char,
    pub noeffects: bool,
    pub decoded_width: usize,
}

impl<E: Extras<char>> StrCursorInfo<E> {
    /// The state of a cursor that has not met any character.
    pub open spec fn fresh() -> Self {
        StrCursorInfo {
            inner: CursorInfo::fresh(),
            pos: 0,
            extras: E::initial(),
            char_start_pos: 0,
            current: EOF_CHAR,
            noeffects: false,
            decoded_width: 0,
        }
    }

    /// The state counted in characters alone.
    pub open spec fn in_chars(self) -> CursorInfo<char, E> {
        CursorInfo {
            init: self.inner.init,
            backwards: self.inner.backwards,
            pos: self.pos,
            extras: self.extras,
            noeffects: self.noeffects,
            _marker: PhantomData,
        }
    }

    #[inline]
    pub fn new() -> (info: Self)
        ensures
            info == Self::fresh(),
    {
        StrCursorInfo {
            inner: CursorInfo::new(),
            pos: 0,
            extras: E::new(),
            char_start_pos: 0,
            current: EOF_CHAR,
            noeffects: false,
            decoded_width: 0,
        }
    }

    #[inline]
    pub fn reset(&mut self)
        ensures
            *final(self) == Self::fresh(),
    {
        self.inner.reset();
        self.pos = 0;
        self.extras.reset();
        self.char_start_pos = 0;
        self.current = EOF_CHAR;
        self.noeffects = false;
        self.decoded_width = 0;
    }
}

impl<E: Extras<char>> Default for StrCursorInfo<E> {
    #[inline]
    fn default() -> (info: Self)
        ensures
            info == Self::fresh(),
    {
        StrCursorInfo::new()
    }
}

impl<E: Extras<char>> Clone for StrCursorInfo<E> {
    #[inline]
    fn clone(&self) -> (info: Self)
        ensures
            info == *self,
    {
        StrCursorInfo {
            inner: self.inner.clone(),
            pos: self.pos,
            extras: self.extras.clone(),
            char_start_pos: self.char_start_pos,
            current: self.current,
            noeffects: self.noeffects,
            decoded_width: self.decoded_width,
        }
    }
}

} // verus!
