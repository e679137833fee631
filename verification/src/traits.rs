use vstd::prelude::*;
use core::ops::Range;
use crate::cmn::info::CursorInfo;
use crate::cmn::model::{paces, walk_ends, CursorView};
use crate::cmn::offset::MoveOffset;
use crate::cmn::utils::isize_to_usize;
use crate::cmn::extras::NoneExtras;

verus! {

/// An accumulator that a cursor feeds with every confirmed change of
/// position.
///
/// The two spec functions name what an implementation computes, so that
/// the cursors can say which value the accumulator holds after a walk.
/// An implementation has to keep four promises: `new` gives `initial()`,
/// `clone` gives an equal value, `change` gives `changed(..)` of the old
/// value, and `reset` goes back to `initial()`. A verified
/// implementation says what the two names stand for; one that leaves
/// them as they are here can be used, but not verified.
pub trait Extras<Input>: Sized {
    /// The value of a fresh accumulator.
    open spec fn initial() -> Self {
        arbitrary()
    }

    /// The value after `input` was met at position `pos`.
    open spec fn changed(self, input: Input, pos: usize) -> Self {
        arbitrary()
    }

    fn new() -> (e: Self)
        ensures
            e == Self::initial(),
    ;

    fn clone(&self) -> (e: Self)
        ensures
            e == *self,
    ;

    fn change(&mut self, input: &Input, pos: usize)
        ensures
            *final(self) == old(self).changed(*input, pos),
    ;

    fn reset(&mut self)
        ensures
            *final(self) == Self::initial(),
    ;
}

/// The accumulator after it met, in rising order, the items at the
/// indices `lo..hi`.
pub open spec fn fold_up<T, E: Extras<T>>(e: E, items: Seq<T>, lo: int, hi: int) -> E
    decreases hi - lo,
{
    if lo >= hi {
        e
    } else {
        fold_up(e, items, lo, hi - 1).changed(items[hi - 1], (hi - 1) as usize)
    }
}

/// The accumulator after it met, in falling order, the items at the
/// indices `lo..hi`.
pub open spec fn fold_down<T, E: Extras<T>>(e: E, items: Seq<T>, lo: int, hi: int) -> E
    decreases hi - lo,
{
    if lo >= hi {
        e
    } else {
        fold_down(e, items, lo + 1, hi).changed(items[lo], lo as usize)
    }
}

/// Read access to the accumulator of a cursor.
pub trait ToExtras<E: Extras<Self::Input>>: Sized {
    type Input;

    /// The accumulator as the contracts see it.
    spec fn spec_extras(&self) -> E;

    /// A copy of the accumulator.
    fn to_extras(&self) -> (e: E)
        ensures
            e == self.spec_extras(),
    ;

    /// The accumulator itself.
    fn into_extras(self) -> (e: E)
        ensures
            e == self.spec_extras(),
    ;
}

/// Anything that a cursor over items of `T` can be made from.
pub trait ToCursor<T, E: Extras<T> = NoneExtras<T>> {
    /// The items that the new cursor walks.
    spec fn spec_items(&self) -> Seq<T>;

    /// A cursor over the items that has met none of them.
    fn to_cursor(&self) -> (cursor: crate::cursors::Cursor<'_, T, E>)
        ensures
            cursor@ == CursorView::<T, E>::fresh(self.spec_items()),
            cursor@.wf(),
    ;
}

/// A cursor over a borrowed sequence of `T`.
///
/// `self@` is the sequence, the state and the checkpoint; every method
/// says what it does to them. Stepping and jumping ask for a view that is
/// well formed and leave it so.
pub trait CursorTrait<'s, T: 's, E: Extras<T> = NoneExtras<T>>: View<V = CursorView<T, E>> + Sized {
    fn is_init(&self) -> (b: bool)
        ensures
            b == self@.info.init,
    ;

    fn noeffects(&self) -> (b: bool)
        ensures
            b == self@.info.noeffects,
    ;

    fn noeffects_mut(&mut self) -> (b: &mut bool)
        ensures
            *b == old(self)@.info.noeffects,
            final(self)@ == old(self)@.with_noeffects(*final(b)),
    ;

    fn backwards(&self) -> (b: bool)
        ensures
            b == self@.info.backwards,
    ;

    fn backwards_mut(&mut self) -> (b: &mut bool)
        ensures
            *b == old(self)@.info.backwards,
            final(self)@ == old(self)@.with_backwards(*final(b)),
    ;

    fn pos(&self) -> (p: usize)
        ensures
            p == self@.info.pos,
    ;

    fn extras(&self) -> (e: &E)
        ensures
            *e == self@.info.extras,
    ;

    /// Back to the state of a cursor just made; the checkpoint stays.
    fn reset(&mut self)
        ensures
            final(self)@ == old(self)@.with_info(CursorInfo::fresh()),
    ;

    /// Writes the state to the checkpoint.
    fn save(&mut self)
        ensures
            final(self)@ == (CursorView { saved: old(self)@.info, ..old(self)@ }),
    ;

    fn saved(&self) -> (info: &CursorInfo<T, E>)
        ensures
            *info == self@.saved,
    ;

    /// Takes the state back from the checkpoint.
    fn load(&mut self)
        ensures
            final(self)@ == old(self)@.with_info(old(self)@.saved),
    ;

    fn as_slice(&self) -> (slice: &'s [T])
        ensures
            slice@ == self@.items,
    ;

    /// Goes to index `pos`, or stays and gives `None` where there is no
    /// such index.
    fn jump(&mut self, pos: usize) -> (r: Option<&'s T>)
        requires
            old(self)@.wf(),
        ensures
            final(self)@ == old(self)@.after_jump(pos),
            final(self)@.wf(),
            match r {
                Some(item) => Some(*item) == old(self)@.jump_item(pos),
                None => old(self)@.jump_item(pos) is None,
            },
    ;

    /// One step in the direction of travel, or `None` at the end. The
    /// first step of a cursor meets the item at index zero.
    fn next(&mut self) -> (r: Option<&'s T>)
        requires
            old(self)@.wf(),
        ensures
            final(self)@ == old(self)@.after_next(),
            final(self)@.wf(),
            match r {
                Some(item) => Some(*item) == old(self)@.next_item(),
                None => old(self)@.next_item() is None,
            },
    ;

    #[inline]
    fn item_size(&self) -> (n: usize)
        ensures
            n == vstd::layout::size_of::<T>(),
    {
        core::mem::size_of::<T>()
    }

    #[inline]
    fn range(&self) -> (r: Range<usize>)
        ensures
            r.start == 0,
            r.end == self@.items.len(),
    {
        0..self.len()
    }

    #[inline]
    fn len(&self) -> (n: usize)
        ensures
            n == self@.items.len(),
    {
        self.as_slice().len()
    }

    #[inline]
    fn is_empty(&self) -> (b: bool)
        ensures
            b == (self@.items.len() == 0),
    {
        self.as_slice().len() == 0
    }

    #[inline]
    fn noeffects_on(&mut self)
        ensures
            final(self)@ == old(self)@.with_noeffects(true),
    {
        *self.noeffects_mut() = true;
    }

    #[inline]
    fn noeffects_off(&mut self)
        ensures
            final(self)@ == old(self)@.with_noeffects(false),
    {
        *self.noeffects_mut() = false;
    }

    #[inline]
    fn turnaround(&mut self)
        ensures
            final(self)@ == old(self)@.with_backwards(!old(self)@.info.backwards),
    {
        let b = self.backwards();
        *self.backwards_mut() = !b;
    }

    #[inline]
    fn head_to_left(&mut self)
        ensures
            final(self)@ == old(self)@.with_backwards(true),
    {
        if !self.backwards() {
            self.turnaround();
        }
        assert(self@ =~= old(self)@.with_backwards(true));
    }

    #[inline]
    fn head_to_right(&mut self)
        ensures
            final(self)@ == old(self)@.with_backwards(false),
    {
        if self.backwards() {
            self.turnaround();
        }
        assert(self@ =~= old(self)@.with_backwards(false));
    }

    #[inline]
    fn head_to_pos(&mut self, pos: usize)
        ensures
            final(self)@ == old(self)@.toward(pos),
    {
        let here = self.pos();
        if here > pos {
            self.head_to_left();
        } else if here < pos {
            self.head_to_right();
        }
    }

    /// Copies of the accumulator at the checkpoint and of the one in use.
    #[inline]
    fn to_range_extras(&self) -> (r: Range<E>)
        ensures
            r.start == self@.saved.extras,
            r.end == self@.info.extras,
    {
        self.saved().extras.clone()..self.extras().clone()
    }

    /// The items from the checkpoint to the cursor, both included.
    #[inline]
    fn as_slice_loaded(&self) -> (slice: &'s [T])
        requires
            self@.wf(),
        ensures
            slice@ == self@.span(),
    {
        let slice = self.as_slice();
        let pos = self.pos();
        let saved_pos = self.saved().pos;
        if slice.len() == 0 {
            slice
        } else if pos > saved_pos {
            vstd::slice::slice_subrange(slice, saved_pos, pos + 1)
        } else {
            vstd::slice::slice_subrange(slice, pos, saved_pos + 1)
        }
    }

    /// The items behind the cursor.
    #[inline]
    fn as_preserved_slice(&self) -> (slice: &'s [T])
        requires
            self@.wf(),
        ensures
            slice@ == if self@.info.backwards {
                self@.right_side()
            } else {
                self@.left_side()
            },
    {
        if self.backwards() {
            self.as_right_side_slice()
        } else {
            self.as_left_side_slice()
        }
    }

    #[inline]
    fn as_preserved_slice_include_current(&self) -> (slice: &'s [T])
        requires
            self@.wf(),
        ensures
            slice@ == if self@.info.backwards {
                self@.right_side_with_current()
            } else {
                self@.left_side_with_current()
            },
    {
        if self.backwards() {
            self.as_right_side_slice_include_current()
        } else {
            self.as_left_side_slice_include_current()
        }
    }

    /// The item under the cursor. A cursor that has met none has none.
    #[inline]
    fn current(&self) -> (item: &'s T)
        requires
            self@.wf(),
            self@.info.init,
        ensures
            *item == self@.items[self@.info.pos as int],
    {
        &self.as_slice()[self.pos()]
    }

    /// The item under the cursor, and `None` for a cursor that has met
    /// none.
    #[inline]
    fn try_current(&self) -> (r: Option<&'s T>)
        requires
            self@.wf(),
        ensures
            match r {
                Some(item) => Some(*item) == self@.current_item(),
                None => self@.current_item() is None,
            },
    {
        if self.is_init() {
            Some(self.current())
        } else {
            None
        }
    }

    #[inline]
    fn current_deref(&self) -> (item: T) where T: Copy
        requires
            self@.wf(),
            self@.info.init,
        ensures
            item == self@.items[self@.info.pos as int],
    {
        self.as_slice()[self.pos()]
    }

    /// The items ahead of the cursor.
    #[inline]
    fn as_remaining_slice(&self) -> (slice: &'s [T])
        requires
            self@.wf(),
        ensures
            slice@ == if self@.info.backwards {
                self@.left_side()
            } else {
                self@.right_side()
            },
    {
        if self.backwards() {
            self.as_left_side_slice()
        } else {
            self.as_right_side_slice()
        }
    }

    #[inline]
    fn as_remaining_slice_include_current(&self) -> (slice: &'s [T])
        requires
            self@.wf(),
        ensures
            slice@ == if self@.info.backwards {
                self@.left_side_with_current()
            } else {
                self@.right_side_with_current()
            },
    {
        if self.backwards() {
            self.as_left_side_slice_include_current()
        } else {
            self.as_right_side_slice_include_current()
        }
    }

    #[inline]
    fn as_left_side_slice(&self) -> (slice: &'s [T])
        requires
            self@.wf(),
        ensures
            slice@ == self@.left_side(),
    {
        vstd::slice::slice_subrange(self.as_slice(), 0, self.pos())
    }

    #[inline]
    fn as_right_side_slice(&self) -> (slice: &'s [T])
        requires
            self@.wf(),
        ensures
            slice@ == self@.right_side(),
    {
        let slice = self.as_slice();
        if slice.len() == 0 {
            slice
        } else {
            vstd::slice::slice_subrange(slice, self.pos() + 1, slice.len())
        }
    }

    #[inline]
    fn as_left_side_slice_include_current(&self) -> (slice: &'s [T])
        requires
            self@.wf(),
        ensures
            slice@ == self@.left_side_with_current(),
    {
        let slice = self.as_slice();
        if slice.len() == 0 {
            slice
        } else {
            vstd::slice::slice_subrange(slice, 0, self.pos() + 1)
        }
    }

    #[inline]
    fn as_right_side_slice_include_current(&self) -> (slice: &'s [T])
        requires
            self@.wf(),
        ensures
            slice@ == self@.right_side_with_current(),
    {
        let slice = self.as_slice();
        vstd::slice::slice_subrange(slice, self.pos(), slice.len())
    }

    /// Moves by `offset` items: by one as a step, by more as a jump, by
    /// none not at all. `None` where there is no item to land on.
    #[inline]
    fn jump_to_offset(&mut self, offset: isize) -> (r: Option<&'s T>)
        requires
            old(self)@.wf(),
        ensures
            final(self)@ == old(self)@.after_offset(offset as int),
            final(self)@.wf(),
            match r {
                Some(item) => Some(*item) == old(self)@.offset_item(offset as int),
                None => old(self)@.offset_item(offset as int) is None,
            },
    {
        if offset == 0 {
            return self.try_current();
        }
        let (abs, sig) = isize_to_usize(offset);
        if abs == 1 {
            let rightwards = sig == 1;
            if self.backwards() == rightwards {
                self.turnaround();
                let item = self.next();
                self.turnaround();
                assert(self@ =~= old(self)@.after_offset(offset as int));
                item
            } else {
                let item = self.next();
                assert(self@ =~= old(self)@.after_offset(offset as int));
                item
            }
        } else if sig == 1 {
            match self.pos().checked_add(abs) {
                Some(target) => self.jump(target),
                None => None,
            }
        } else {
            match self.pos().checked_sub(abs) {
                Some(target) => self.jump(target),
                None => None,
            }
        }
    }

    #[inline]
    fn jump_to_first(&mut self) -> (item: &'s T)
        requires
            old(self)@.wf(),
            old(self)@.items.len() > 0,
        ensures
            final(self)@ == old(self)@.moved(0),
            final(self)@.wf(),
            *item == old(self)@.items[0],
    {
        self.jump(0).unwrap()
    }

    #[inline]
    fn jump_to_last(&mut self) -> (item: &'s T)
        requires
            old(self)@.wf(),
            old(self)@.items.len() > 0,
        ensures
            final(self)@ == old(self)@.moved(old(self)@.items.len() - 1),
            final(self)@.wf(),
            *item == old(self)@.items.last(),
    {
        let last = self.len() - 1;
        self.jump(last).unwrap()
    }

    /// A jump to the first item and a walk from there to the last.
    #[inline]
    fn first_to_last(&mut self)
        requires
            old(self)@.wf(),
            old(self)@.items.len() > 0,
        ensures
            final(self)@ == old(self)@.moved(0).swept_up(old(self)@.items.len() as int),
            final(self)@.wf(),
    {
        self.jump_to_first();
        self.next_to_last();
    }

    /// A jump to the index of the checkpoint.
    #[inline]
    fn jump_to_load(&mut self) -> (item: &'s T)
        requires
            old(self)@.wf(),
            old(self)@.items.len() > 0,
        ensures
            final(self)@ == old(self)@.moved(old(self)@.saved.pos as int),
            final(self)@.wf(),
            *item == old(self)@.items[old(self)@.saved.pos as int],
    {
        let target = self.saved().pos;
        self.jump(target).unwrap()
    }

    /// A jump to `pos`, or, for a `pos` past the end, to the index as
    /// far from the start as `pos` is past the end.
    #[inline]
    fn jump_cycle(&mut self, pos: isize) -> (item: &'s T)
        requires
            old(self)@.wf(),
            old(self)@.items.len() <= isize::MAX,
            old(self)@.cycle_ok(pos as int),
        ensures
            final(self)@ == old(self)@.moved(old(self)@.cycle_index(pos as int)),
            final(self)@.wf(),
            *item == old(self)@.items[old(self)@.cycle_index(pos as int)],
    {
        let len = self.len() as isize;
        if len <= pos {
            self.jump((pos - len - 1) as usize).unwrap()
        } else {
            self.jump(pos as usize).unwrap()
        }
    }

    /// A move by `offset` that goes round at the end as `jump_cycle`
    /// does. A move that would lead to index zero stays where it is.
    #[inline]
    fn jump_to_offset_cycle(&mut self, offset: isize) -> (item: &'s T)
        requires
            old(self)@.wf(),
            old(self)@.items.len() <= isize::MAX,
            old(self)@.info.pos + offset <= isize::MAX,
            old(self)@.info.pos + offset == 0 ==> old(self)@.info.init,
            old(self)@.info.pos + offset != 0 ==> old(self)@.cycle_ok(old(self)@.info.pos + offset),
        ensures
            final(self)@ == old(self)@.after_offset_cycle(offset as int),
            final(self)@.wf(),
            *item == final(self)@.items[final(self)@.info.pos as int],
    {
        let dst = (self.pos() as isize) + offset;
        let len = self.len() as isize;
        if dst == 0 {
            self.current()
        } else if len <= dst {
            self.jump((dst - len - 1) as usize).unwrap()
        } else {
            self.jump_to_offset(offset).unwrap()
        }
    }

    /// Turns towards `pos` and walks there step by step, so that the
    /// accumulator meets every item on the way.
    #[inline]
    fn next_to_pos(&mut self, pos: usize) -> (r: Option<&'s T>)
        requires
            old(self)@.wf(),
        ensures
            final(self)@.wf(),
            pos >= old(self)@.items.len() ==> r is None && final(self)@ == old(self)@,
            pos < old(self)@.items.len() ==> {
                let start = old(self)@.toward(pos);
                let n = old(self)@.hops(pos);
                &&& final(self)@ == start.stepped(n)
                &&& match r {
                    Some(item) => Some(*item) == start.stepped((n - 1) as nat).next_item(),
                    None => start.stepped((n - 1) as nat).next_item() is None,
                }
            },
    {
        if pos >= self.len() {
            return None;
        }
        let diff = self.pos().plain_diff(pos);
        self.head_to_pos(pos);
        let n: usize = if diff == 0 {
            1
        } else {
            diff
        };
        self.walk(n)
    }

    /// Turns the way `offset` points and walks as many steps as its
    /// size, and one where that is zero. `None` where the index that
    /// far away does not exist, and then nothing has changed.
    #[inline]
    fn next_to_offset(&mut self, offset: isize) -> (r: Option<&'s T>)
        requires
            old(self)@.wf(),
        ensures
            final(self)@.wf(),
            !(0 <= old(self)@.info.pos + offset < old(self)@.items.len()) ==> r is None
                && final(self)@ == old(self)@,
            0 <= old(self)@.info.pos + offset < old(self)@.items.len() ==> {
                let start = old(self)@.headed(offset as int);
                let n = paces(offset as int);
                &&& final(self)@ == start.stepped(n)
                &&& match r {
                    Some(item) => Some(*item) == start.stepped((n - 1) as nat).next_item(),
                    None => start.stepped((n - 1) as nat).next_item() is None,
                }
            },
    {
        match self.pos().checked_move_offset(offset) {
            Some(target) => {
                if target >= self.len() {
                    return None;
                }
            },
            None => {
                return None;
            },
        }
        let (abs, sig) = isize_to_usize(offset);
        if sig == 1 {
            self.head_to_right();
        } else if sig == -1 {
            self.head_to_left();
        }
        let n: usize = if abs == 0 {
            1
        } else {
            abs
        };
        self.walk(n)
    }

    /// `n` steps in the direction of travel, the last of them reported.
    /// A step that meets no item changes nothing, nor do those after it.
    fn walk(&mut self, n: usize) -> (r: Option<&'s T>)
        requires
            old(self)@.wf(),
            n >= 1,
        ensures
            final(self)@ == old(self)@.stepped(n as nat),
            final(self)@.wf(),
            match r {
                Some(item) => Some(*item) == old(self)@.stepped((n - 1) as nat).next_item(),
                None => old(self)@.stepped((n - 1) as nat).next_item() is None,
            },
    {
        let ghost start = self@;
        let mut i: usize = 1;
        while i < n
            invariant
                1 <= i <= n,
                self@ == start.stepped((i - 1) as nat),
                self@.wf(),
                start == old(self)@,
            decreases n - i,
        {
            if self.next().is_none() {
                proof {
                    start.lemma_stuck((i - 1) as nat, n as nat);
                    start.lemma_stuck((i - 1) as nat, (n - 1) as nat);
                }
                return None;
            }
            i = i + 1;
        }
        self.next()
    }

    /// Walks to the left until no item is left to meet.
    #[inline]
    fn next_to_first(&mut self) -> (item: &'s T)
        requires
            old(self)@.wf(),
            old(self)@.items.len() > 0,
        ensures
            final(self)@ == old(self)@.swept_down(0),
            final(self)@.wf(),
            *item == old(self)@.items[0],
    {
        self.head_to_left();
        let ghost start = self@;
        proof {
            assert(start.info.init ==> self@ =~= old(self)@.swept_down(start.info.pos as int));
        }
        loop
            invariant
                self@.wf(),
                start == old(self)@.with_backwards(true),
                start.items.len() > 0,
                start.wf(),
                start.info.init ==> self@ == old(self)@.swept_down(self@.info.pos as int),
                start.info.init ==> self@.info.pos <= start.info.pos,
                !start.info.init ==> self@ == start || self@ == old(self)@.swept_down(0),
            ensures
                !self@.can_step(),
            decreases self@.remaining(),
        {
            if self.next().is_none() {
                break;
            }
            proof {
                if start.info.init {
                    assert(self@ =~= old(self)@.swept_down(self@.info.pos as int));
                } else {
                    assert(self@ =~= old(self)@.swept_down(0));
                }
            }
        }
        self.current()
    }

    /// Walks to the right until no item is left to meet. The
    /// accumulator has then met every item after the one the walk began
    /// on, each once and in order.
    #[inline]
    fn next_to_last(&mut self) -> (item: &'s T)
        requires
            old(self)@.wf(),
            old(self)@.items.len() > 0,
        ensures
            final(self)@ == old(self)@.swept_up(old(self)@.items.len() as int),
            final(self)@.wf(),
            *item == old(self)@.items.last(),
    {
        self.head_to_right();
        let ghost start = self@;
        proof {
            assert(start.info.init ==> self@ =~= old(self)@.swept_up(start.info.pos + 1));
        }
        loop
            invariant
                self@.wf(),
                start == old(self)@.with_backwards(false),
                start.items.len() > 0,
                start.wf(),
                self@.info.init ==> self@ == old(self)@.swept_up(self@.info.pos + 1),
                self@.info.init && start.info.init ==> self@.info.pos >= start.info.pos,
                !self@.info.init ==> self@ == start,
            ensures
                !self@.can_step(),
            decreases self@.remaining(),
        {
            if self.next().is_none() {
                break;
            }
            proof {
                assert(self@ =~= old(self)@.swept_up(self@.info.pos + 1));
            }
        }
        self.current()
    }

    #[inline]
    fn next_to_left(&mut self) -> (r: Option<&'s T>)
        requires
            old(self)@.wf(),
        ensures
            final(self)@ == old(self)@.with_backwards(true).after_next(),
            final(self)@.wf(),
            match r {
                Some(item) => Some(*item) == old(self)@.with_backwards(true).next_item(),
                None => old(self)@.with_backwards(true).next_item() is None,
            },
    {
        self.head_to_left();
        self.next()
    }

    #[inline]
    fn next_to_right(&mut self) -> (r: Option<&'s T>)
        requires
            old(self)@.wf(),
        ensures
            final(self)@ == old(self)@.with_backwards(false).after_next(),
            final(self)@.wf(),
            match r {
                Some(item) => Some(*item) == old(self)@.with_backwards(false).next_item(),
                None => old(self)@.with_backwards(false).next_item() is None,
            },
    {
        self.head_to_right();
        self.next()
    }

    /// Walks on until `f` says yes of an item, or no item is left.
    #[inline]
    fn next_to_until<F: Fn(&T) -> bool>(&mut self, f: F) -> (item: &'s T)
        requires
            old(self)@.wf(),
            old(self)@.items.len() > 0,
            forall|t: &T| call_requires(f, (t,)),
        ensures
            exists|k: nat| #[trigger]
                walk_ends(old(self)@, f, k, true) && final(self)@ == old(self)@.stepped(k),
            final(self)@.wf(),
            final(self)@.info.init,
            *item == final(self)@.items[final(self)@.info.pos as int],
    {
        self.walk_on(f, true)
    }

    /// Walks on while `f` says yes of the items, or until no item is
    /// left.
    #[inline]
    fn next_to_while<F: Fn(&T) -> bool>(&mut self, f: F) -> (item: &'s T)
        requires
            old(self)@.wf(),
            old(self)@.items.len() > 0,
            forall|t: &T| call_requires(f, (t,)),
        ensures
            exists|k: nat| #[trigger]
                walk_ends(old(self)@, f, k, false) && final(self)@ == old(self)@.stepped(k),
            final(self)@.wf(),
            final(self)@.info.init,
            *item == final(self)@.items[final(self)@.info.pos as int],
    {
        self.walk_on(f, false)
    }

    /// Walks on until `f` gives `verdict` for an item, or no item is
    /// left.
    fn walk_on<F: Fn(&T) -> bool>(&mut self, f: F, verdict: bool) -> (item: &'s T)
        requires
            old(self)@.wf(),
            old(self)@.items.len() > 0,
            forall|t: &T| call_requires(f, (t,)),
        ensures
            exists|k: nat| #[trigger]
                walk_ends(old(self)@, f, k, verdict) && final(self)@ == old(self)@.stepped(k),
            final(self)@.wf(),
            final(self)@.info.init,
            *item == final(self)@.items[final(self)@.info.pos as int],
    {
        let ghost start = self@;
        let ghost mut i: nat = 0;
        loop
            invariant_except_break
                self@ == start.stepped(i),
            invariant
                self@.wf(),
                self@.items == start.items,
                start == old(self)@,
                start.items.len() > 0,
                forall|j: nat|
                    j < i ==> (#[trigger] start.stepped(j)).can_step() && call_ensures(
                        f,
                        (&start.stepped(j).items[start.stepped(j).step_target()],),
                        !verdict,
                    ),
                forall|t: &T| call_requires(f, (t,)),
            ensures
                walk_ends(start, f, i + 1, verdict),
                self@ == start.stepped(i + 1),
                self@.wf(),
                self@.info.init,
            decreases self@.remaining(),
        {
            match self.next() {
                Some(item) => {
                    let said = f(item);
                    if said == verdict {
                        break;
                    }
                    proof {
                        i = i + 1;
                    }
                },
                None => {
                    break;
                },
            }
        }
        self.current()
    }

    /// A walk to the checkpoint's index.
    #[inline]
    fn next_to_load(&mut self) -> (item: &'s T)
        requires
            old(self)@.wf(),
            old(self)@.items.len() > 0,
            old(self)@.toward(old(self)@.saved.pos).stepped(
                (old(self)@.hops(old(self)@.saved.pos) - 1) as nat,
            ).can_step(),
        ensures
            final(self)@ == old(self)@.toward(old(self)@.saved.pos).stepped(
                old(self)@.hops(old(self)@.saved.pos),
            ),
            final(self)@.wf(),
            final(self)@.info.init,
            *item == final(self)@.items[final(self)@.info.pos as int],
    {
        let target = self.saved().pos;
        let item = self.next_to_pos(target).unwrap();
        item
    }

    /// One step; at either end the cursor turns round instead and shows
    /// the item it stands on.
    #[inline]
    fn next_cycle(&mut self) -> (item: &'s T)
        requires
            old(self)@.wf(),
            old(self)@.items.len() > 0,
        ensures
            final(self)@ == old(self)@.after_next_cycle(),
            final(self)@.wf(),
            final(self)@.info.init,
            *item == final(self)@.items[final(self)@.info.pos as int],
    {
        match self.next() {
            Some(item) => item,
            None => {
                self.turnaround();
                if self.backwards() {
                    let item = self.jump_to_last();
                    assert(self@ =~= old(self)@.after_next_cycle());
                    item
                } else {
                    let item = self.jump_to_first();
                    assert(self@ =~= old(self)@.after_next_cycle());
                    item
                }
            },
        }
    }

    /// Turns the way `offset` points and takes as many turning steps as
    /// its size, and one where that is zero.
    #[inline]
    fn next_to_offset_cycle(&mut self, offset: isize) -> (item: &'s T)
        requires
            old(self)@.wf(),
            old(self)@.items.len() > 0,
        ensures
            final(self)@ == old(self)@.headed(offset as int).cycled(paces(offset as int)),
            final(self)@.wf(),
            final(self)@.info.init,
            *item == final(self)@.items[final(self)@.info.pos as int],
    {
        let (abs, sig) = isize_to_usize(offset);
        if sig == 1 {
            self.head_to_right();
        } else if sig == -1 {
            self.head_to_left();
        }
        let ghost start = self@;
        let mut i: usize = 1;
        while i < abs
            invariant
                1 <= i,
                i == 1 || i <= abs,
                self@ == start.cycled((i - 1) as nat),
                start == old(self)@.headed(offset as int),
                abs == crate::cmn::utils::magnitude(offset as int),
                self@.wf(),
                self@.items.len() > 0,
            decreases abs - i,
        {
            self.next_cycle();
            i = i + 1;
        }
        self.next_cycle()
    }
}

} // verus!
