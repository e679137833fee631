use vstd::prelude::*;
use crate::cmn::extras::NoneExtras;
use crate::cmn::info::CursorInfo;
use crate::cmn::model::CursorView;
use crate::traits::{CursorTrait, Extras, ToCursor, ToExtras};
use core::ops::{Add, Sub};
use vstd::std_specs::ops::{AddSpecImpl, SubSpecImpl};

pub mod extensions;

verus! {

broadcast use vstd::slice::group_slice_axioms;

/// A cursor over a borrowed slice.
#[derive(PartialEq, Eq)]
pub struct Cursor<'s, T: 's, E: Extras<T> = NoneExtras<T>> {
    slice: &'s [T],
    info: CursorInfo<T, E>,
    saved_info: CursorInfo<T, E>,
}

impl<'s, T: 's, E: Extras<T>> View for Cursor<'s, T, E> {
    type V = CursorView<T, E>;

    closed spec fn view(&self) -> CursorView<T, E> {
        CursorView { items: self.slice@, info: self.info, saved: self.saved_info }
    }
}

impl<'s, T: 's, E: Extras<T>> Clone for Cursor<'s, T, E> {
    #[inline]
    fn clone(&self) -> (cursor: Self)
        ensures
            cursor@ == self@,
    {
        Cursor { slice: self.slice, info: self.info.clone(), saved_info: self.saved_info.clone() }
    }
}

impl<'s, T: 's, E: Extras<T>> ToExtras<E> for Cursor<'s, T, E> {
    type Input = T;

    open spec fn spec_extras(&self) -> E {
        self@.info.extras
    }

    #[inline]
    fn to_extras(&self) -> E {
        self.info.extras.clone()
    }

    #[inline]
    fn into_extras(self) -> E {
        self.info.extras
    }
}

#[inline]
fn cursor_new<'s, T, EXTRAS: Extras<T>>(slice: &'s [T]) -> (cursor: Cursor<'s, T, EXTRAS>)
    ensures
        cursor@ == CursorView::<T, EXTRAS>::fresh(slice@),
        cursor@.wf(),
{
    assert(slice@.len() == slice.len());
    Cursor { slice, info: CursorInfo::new(), saved_info: CursorInfo::new() }
}

impl<'s, T: 's> Cursor<'s, T, NoneExtras<T>> {
    /// A cursor over `slice` that has met no item yet and travels to the
    /// right.
    #[inline]
    pub fn new(slice: &'s [T]) -> (cursor: Self)
        ensures
            cursor@ == CursorView::<T, NoneExtras<T>>::fresh(slice@),
            cursor@.wf(),
    {
        cursor_new(slice)
    }

    /// Such a cursor with an accumulator of the kind asked for.
    #[inline]
    pub fn new_with_extras<EXTRAS: Extras<T>>(slice: &[T]) -> (cursor: Cursor<'_, T, EXTRAS>)
        ensures
            cursor@ == CursorView::<T, EXTRAS>::fresh(slice@),
            cursor@.wf(),
    {
        cursor_new(slice)
    }
}

impl<'s, T: 's, E: Extras<T>> Cursor<'s, T, E> {
    /// Writes whether the cursor has met an item, and nothing else.
    #[inline]
    fn set_init(&mut self, val: bool)
        ensures
            final(self)@ == old(self)@.with_info(CursorInfo { init: val, ..old(self)@.info }),
    {
        self.info.init = val;
    }

    /// Writes the index and nothing else: the accumulator is not told,
    /// and nothing asks whether the index is that of an item.
    #[inline]
    pub fn unsafe_set_pos(&mut self, new_pos: usize)
        ensures
            final(self)@ == old(self)@.with_pos(new_pos),
    {
        self.info.pos = new_pos;
    }

    #[inline]
    fn set_pos(&mut self, new_pos: usize) -> (r: Option<&'s T>)
        requires
            old(self)@.wf(),
        ensures
            final(self)@ == old(self)@.after_jump(new_pos),
            final(self)@.wf(),
            match r {
                Some(item) => Some(*item) == old(self)@.jump_item(new_pos),
                None => old(self)@.jump_item(new_pos) is None,
            },
    {
        if new_pos >= self.slice.len() {
            return None;
        }
        let moves = new_pos != self.info.pos;
        if !self.info.init {
            self.set_init(true);
        }
        self.info.pos = new_pos;
        if moves {
            self.blush_extras();
        }
        Some(&self.slice[new_pos])
    }

    /// Shows the item under the cursor to the accumulator, unless that
    /// is switched off.
    #[inline]
    fn blush_extras(&mut self)
        requires
            old(self)@.info.pos < old(self)@.items.len(),
        ensures
            final(self)@ == old(self)@.with_info(
                CursorInfo {
                    extras: if old(self)@.info.noeffects {
                        old(self)@.info.extras
                    } else {
                        old(self)@.info.extras.changed(
                            old(self)@.items[old(self)@.info.pos as int],
                            old(self)@.info.pos,
                        )
                    },
                    ..old(self)@.info
                },
            ),
    {
        if !self.info.noeffects {
            self.info.extras.change(&self.slice[self.info.pos], self.info.pos);
        }
    }

    /// A move `rhs` items to the right; see `jump_to_offset`. `None`
    /// where `rhs` is more than an offset can be.
    #[inline]
    pub fn jump_to_added(&mut self, rhs: usize) -> (r: Option<&'s T>)
        requires
            old(self)@.wf(),
        ensures
            final(self)@ == old(self)@.after_added(rhs),
            final(self)@.wf(),
            match r {
                Some(item) => Some(*item) == old(self)@.added_item(rhs),
                None => old(self)@.added_item(rhs) is None,
            },
    {
        if rhs > isize::MAX as usize {
            return None;
        }
        self.jump_to_offset(rhs as isize)
    }

    /// A move `rhs` items to the left; see `jump_to_offset`. `None`
    /// where `rhs` is more than an offset can be.
    #[inline]
    pub fn jump_to_subed(&mut self, rhs: usize) -> (r: Option<&'s T>)
        requires
            old(self)@.wf(),
        ensures
            final(self)@ == old(self)@.after_subed(rhs),
            final(self)@.wf(),
            match r {
                Some(item) => Some(*item) == old(self)@.subed_item(rhs),
                None => old(self)@.subed_item(rhs) is None,
            },
    {
        if rhs > isize::MAX as usize {
            return None;
        }
        self.jump_to_offset(-(rhs as isize))
    }

    /// One step, for a caller who knows that it meets an item.
    #[inline]
    pub fn unwrapped_next(&mut self) -> (item: T) where T: Copy
        requires
            old(self)@.wf(),
            old(self)@.can_step(),
        ensures
            final(self)@ == old(self)@.after_next(),
            final(self)@.wf(),
            item == old(self)@.items[old(self)@.step_target()],
    {
        *self.next().unwrap()
    }
}

impl<'s, T: 's, E: Extras<T>> CursorTrait<'s, T, E> for Cursor<'s, T, E> {
    #[inline]
    fn is_init(&self) -> bool {
        self.info.init
    }

    #[inline]
    fn noeffects(&self) -> bool {
        self.info.noeffects
    }

    #[inline]
    fn noeffects_mut(&mut self) -> &mut bool {
        &mut self.info.noeffects
    }

    #[inline]
    fn backwards(&self) -> bool {
        self.info.backwards
    }

    #[inline]
    fn backwards_mut(&mut self) -> &mut bool {
        &mut self.info.backwards
    }

    #[inline]
    fn pos(&self) -> usize {
        self.info.pos
    }

    #[inline]
    fn extras(&self) -> &E {
        &self.info.extras
    }

    #[inline]
    fn reset(&mut self) {
        self.info.reset();
    }

    #[inline]
    fn save(&mut self) {
        self.saved_info = self.info.clone();
    }

    #[inline]
    fn saved(&self) -> &CursorInfo<T, E> {
        &self.saved_info
    }

    #[inline]
    fn load(&mut self) {
        self.info = self.saved_info.clone();
    }

    #[inline]
    fn as_slice(&self) -> &'s [T] {
        self.slice
    }

    #[inline]
    fn jump(&mut self, pos: usize) -> Option<&'s T> {
        self.set_pos(pos)
    }

    #[inline]
    fn next(&mut self) -> Option<&'s T> {
        if !self.info.init {
            self.set_pos(0)
        } else if self.info.backwards {
            match self.info.pos.checked_sub(1) {
                Some(target) => self.set_pos(target),
                None => None,
            }
        } else {
            match self.info.pos.checked_add(1) {
                Some(target) => self.set_pos(target),
                None => None,
            }
        }
    }
}

/// A new cursor over the same slice, which has met nothing.
impl<'s, T: 's, E: Extras<T>> ToCursor<T, E> for Cursor<'s, T, E> {
    open spec fn spec_items(&self) -> Seq<T> {
        self@.items
    }

    #[inline]
    fn to_cursor(&self) -> Cursor<'_, T, E> {
        cursor_new(self.slice)
    }
}

/// What `+` and `-` give in a contract: a reference to the item met.
pub open spec fn by_ref<'s, T>(item: Option<T>) -> Option<&'s T> {
    match item {
        Some(t) => Some(&t),
        None => None,
    }
}

impl<'s, T: 's, E: Extras<T>> AddSpecImpl<usize> for Cursor<'s, T, E> {
    open spec fn obeys_add_spec() -> bool {
        true
    }

    open spec fn add_req(self, rhs: usize) -> bool {
        self@.wf()
    }

    open spec fn add_spec(self, rhs: usize) -> Option<&'s T> {
        by_ref(self@.added_item(rhs))
    }
}

/// `cursor + n` is `jump_to_added(n)` on a cursor that is given away.
impl<'s, T: 's, E: Extras<T>> Add<usize> for Cursor<'s, T, E> {
    type Output = Option<&'s T>;

    #[inline]
    fn add(self, rhs: usize) -> Option<&'s T> {
        let mut cursor = self;
        cursor.jump_to_added(rhs)
    }
}

impl<'s, T: 's, E: Extras<T>> AddSpecImpl<usize> for &mut Cursor<'s, T, E> {
    open spec fn obeys_add_spec() -> bool {
        true
    }

    open spec fn add_req(self, rhs: usize) -> bool {
        self@.wf()
    }

    open spec fn add_spec(self, rhs: usize) -> Option<&'s T> {
        by_ref(self@.added_item(rhs))
    }
}

/// `&mut cursor + n` is `jump_to_added(n)`.
impl<'s, T: 's, E: Extras<T>> Add<usize> for &mut Cursor<'s, T, E> {
    type Output = Option<&'s T>;

    #[inline]
    fn add(self, rhs: usize) -> (r: Option<&'s T>)
        ensures
            final(self)@ == old(self)@.after_added(rhs),
            final(self)@.wf(),
    {
        self.jump_to_added(rhs)
    }
}

impl<'s, T: 's, E: Extras<T>> SubSpecImpl<usize> for Cursor<'s, T, E> {
    open spec fn obeys_sub_spec() -> bool {
        true
    }

    open spec fn sub_req(self, rhs: usize) -> bool {
        self@.wf()
    }

    open spec fn sub_spec(self, rhs: usize) -> Option<&'s T> {
        by_ref(self@.subed_item(rhs))
    }
}

/// `cursor - n` is `jump_to_subed(n)` on a cursor that is given away.
impl<'s, T: 's, E: Extras<T>> Sub<usize> for Cursor<'s, T, E> {
    type Output = Option<&'s T>;

    #[inline]
    fn sub(self, rhs: usize) -> Option<&'s T> {
        let mut cursor = self;
        cursor.jump_to_subed(rhs)
    }
}

impl<'s, T: 's, E: Extras<T>> SubSpecImpl<usize> for &mut Cursor<'s, T, E> {
    open spec fn obeys_sub_spec() -> bool {
        true
    }

    open spec fn sub_req(self, rhs: usize) -> bool {
        self@.wf()
    }

    open spec fn sub_spec(self, rhs: usize) -> Option<&'s T> {
        by_ref(self@.subed_item(rhs))
    }
}

/// `&mut cursor - n` is `jump_to_subed(n)`.
impl<'s, T: 's, E: Extras<T>> Sub<usize> for &mut Cursor<'s, T, E> {
    type Output = Option<&'s T>;

    #[inline]
    fn sub(self, rhs: usize) -> (r: Option<&'s T>)
        ensures
            final(self)@ == old(self)@.after_subed(rhs),
            final(self)@.wf(),
    {
        self.jump_to_subed(rhs)
    }
}

} // verus!
