use vstd::prelude::*;
use core::ops::Range;
use crate::cmn::extras::NoneExtras;
use crate::cmn::info::StrCursorInfo;
use crate::cmn::model::{char_walk_ends, paces};
use crate::cmn::offset::MoveOffset;
use crate::cmn::str_model::StrCursorView;
use crate::cmn::text::{
    lemma_char_at, lemma_offset_step, lemma_offsets, offset_of, str_between, width_of,
};
use crate::cmn::utf::utf8_width;
use crate::cmn::utils::isize_to_usize;
use vstd::utf8::encode_utf8;
use crate::traits::Extras;

verus! {

broadcast use vstd::slice::group_slice_axioms;

/// A cursor over the characters of a borrowed string.
///
/// `self@.cursor()` is the cursor counted in characters: a cursor over
/// the sequence of the string's characters, and what the methods do is
/// said of it. `self@.bytes` is the cursor over the bytes underneath.
/// Every method that moves asks for a view that is well formed and
/// leaves it so.
pub trait StrCursorTrait<'s, E: Extras<char> = NoneExtras<char>>: View<
    V = StrCursorView<E>,
> + Sized {
    /// The number of characters. The first call counts them, from the
    /// cursor to the end of the bytes, and keeps the count: it takes
    /// time in proportion to the bytes ahead; every later call takes
    /// none to speak of.
    fn len(&mut self) -> (n: usize)
        requires
            old(self)@.wf(),
        ensures
            n == old(self)@.chars.len(),
            final(self)@.follows_counted(old(self)@, old(self)@.cursor()),
            final(self)@.info == old(self)@.info,
    ;

    /// Whether the characters have been counted.
    fn is_len(&self) -> (b: bool)
        ensures
            b == (self@.len is Some),
    ;

    fn is_init(&self) -> (b: bool)
        ensures
            b == self@.info.inner.init,
    ;

    fn noeffects(&self) -> (b: bool)
        ensures
            b == self@.info.noeffects,
    ;

    fn noeffects_mut(&mut self) -> (b: &mut bool)
        ensures
            *b == old(self)@.info.noeffects,
            final(self)@ == (StrCursorView {
                info: StrCursorInfo { noeffects: *final(b), ..old(self)@.info },
                ..old(self)@
            }),
    ;

    fn backwards(&self) -> (b: bool)
        ensures
            b == self@.info.inner.backwards,
    ;

    /// Turns the cursor round. The cursor over the bytes goes to the
    /// other end of the character it stands in.
    fn turnaround(&mut self)
        requires
            old(self)@.wf(),
        ensures
            final(self)@.follows(
                old(self)@,
                old(self)@.cursor().with_backwards(!old(self)@.info.inner.backwards),
            ),
    ;

    fn pos(&self) -> (p: usize)
        ensures
            p == self@.info.pos,
    ;

    fn pos_as_bytes(&self) -> (p: usize)
        ensures
            p == self@.info.inner.pos,
    ;

    fn char_start_pos(&self) -> (p: usize)
        ensures
            p == self@.info.char_start_pos,
    ;

    fn decoded_width(&self) -> (w: usize)
        ensures
            w == self@.info.decoded_width,
    ;

    fn extras(&self) -> (e: &E)
        ensures
            *e == self@.info.extras,
    ;

    /// Back to the state of a cursor just made; the checkpoint stays,
    /// the count of the characters is forgotten.
    fn reset(&mut self)
        requires
            old(self)@.wf(),
        ensures
            final(self)@.wf(),
            final(self)@.chars == old(self)@.chars,
            final(self)@.info == StrCursorInfo::<E>::fresh(),
            final(self)@.saved == old(self)@.saved,
            final(self)@.len is None,
    ;

    /// Writes the state to the checkpoint.
    fn save(&mut self)
        requires
            old(self)@.wf(),
        ensures
            final(self)@.wf(),
            final(self)@.chars == old(self)@.chars,
            final(self)@.info == old(self)@.info,
            final(self)@.saved == old(self)@.info,
            final(self)@.len == old(self)@.len,
    ;

    fn saved(&self) -> (info: &StrCursorInfo<E>)
        ensures
            *info == self@.saved,
    ;

    /// Takes the state back from the checkpoint.
    fn load(&mut self)
        requires
            old(self)@.wf(),
        ensures
            final(self)@.wf(),
            final(self)@.chars == old(self)@.chars,
            final(self)@.info == old(self)@.saved,
            final(self)@.saved == old(self)@.saved,
            final(self)@.len == old(self)@.len,
    ;

    fn as_bytes(&self) -> (bytes: &'s [u8])
        ensures
            bytes@ == self@.bytes.items,
    ;

    fn as_str(&self) -> (text: &'s str)
        ensures
            text@ == self@.chars,
    ;

    /// The character under the cursor. A cursor that has met none has
    /// none.
    fn current(&self) -> (c: char)
        requires
            self@.wf(),
            self@.info.inner.init,
        ensures
            c == self@.chars[self@.info.pos as int],
    ;

    /// Goes to the character at index `pos`, or stays and gives `None`
    /// where there is no such index. The characters between are walked
    /// over to find where that one begins, from the start, from the
    /// cursor or, for the last one once the characters are counted,
    /// from the end: a jump takes time in proportion to the distance,
    /// not the same time for every target as a jump over a slice does.
    fn jump(&mut self, pos: usize) -> (r: Option<char>)
        requires
            old(self)@.wf(),
        ensures
            final(self)@.follows(old(self)@, old(self)@.cursor().after_jump(pos)),
            r == old(self)@.cursor().jump_item(pos),
    ;

    /// Goes to the last character, counting the characters on the way
    /// where that has not been done.
    fn jump_to_last(&mut self) -> (c: char)
        requires
            old(self)@.wf(),
            old(self)@.chars.len() > 0,
        ensures
            final(self)@.follows_counted(
                old(self)@,
                old(self)@.cursor().moved(old(self)@.chars.len() - 1),
            ),
            c == old(self)@.chars.last(),
    ;

    /// One character on in the direction of travel, or `None` at the
    /// end. The first step of a cursor meets the first character.
    fn next(&mut self) -> (r: Option<char>)
        requires
            old(self)@.wf(),
        ensures
            final(self)@.follows(old(self)@, old(self)@.cursor().after_next()),
            r == old(self)@.cursor().next_item(),
    ;

    /// The character under the cursor, and `None` for a cursor that
    /// has met none.
    #[inline]
    fn try_current(&self) -> (r: Option<char>)
        requires
            self@.wf(),
        ensures
            r == self@.cursor().current_item(),
    {
        if self.is_init() {
            Some(self.current())
        } else {
            None
        }
    }

    #[inline]
    fn item_size(&self) -> (n: usize)
        ensures
            n == vstd::layout::size_of::<char>(),
    {
        core::mem::size_of::<char>()
    }

    /// The indices of the characters, which this counts where that has
    /// not been done.
    #[inline]
    fn range(&mut self) -> (r: Range<usize>)
        requires
            old(self)@.wf(),
        ensures
            r.start == 0,
            r.end == old(self)@.chars.len(),
            final(self)@.follows_counted(old(self)@, old(self)@.cursor()),
            final(self)@.info == old(self)@.info,
    {
        0..self.len()
    }

    #[inline]
    fn len_as_bytes(&self) -> (n: usize)
        ensures
            n == self@.bytes.items.len(),
    {
        self.as_bytes().len()
    }

    #[inline]
    fn is_empty(&self) -> (b: bool)
        ensures
            b == (self@.bytes.items.len() == 0),
    {
        self.as_bytes().len() == 0
    }

    #[inline]
    fn noeffects_on(&mut self)
        ensures
            final(self)@ == (StrCursorView {
                info: StrCursorInfo { noeffects: true, ..old(self)@.info },
                ..old(self)@
            }),
    {
        *self.noeffects_mut() = true;
    }

    #[inline]
    fn noeffects_off(&mut self)
        ensures
            final(self)@ == (StrCursorView {
                info: StrCursorInfo { noeffects: false, ..old(self)@.info },
                ..old(self)@
            }),
    {
        *self.noeffects_mut() = false;
    }

    #[inline]
    fn head_to_left(&mut self)
        requires
            old(self)@.wf(),
        ensures
            final(self)@.follows(old(self)@, old(self)@.cursor().with_backwards(true)),
    {
        if !self.backwards() {
            self.turnaround();
        }
        assert(self@.cursor() =~= old(self)@.cursor().with_backwards(true));
    }

    #[inline]
    fn head_to_right(&mut self)
        requires
            old(self)@.wf(),
        ensures
            final(self)@.follows(old(self)@, old(self)@.cursor().with_backwards(false)),
    {
        if self.backwards() {
            self.turnaround();
        }
        assert(self@.cursor() =~= old(self)@.cursor().with_backwards(false));
    }

    #[inline]
    fn head_to_pos(&mut self, pos: usize)
        requires
            old(self)@.wf(),
        ensures
            final(self)@.follows(old(self)@, old(self)@.cursor().toward(pos)),
    {
        let here = self.pos();
        if here > pos {
            self.head_to_left();
        } else if here < pos {
            self.head_to_right();
        }
    }

    /// Copies of the accumulator at the checkpoint and of the one in use.
    #[inline]
    fn to_range_extras(&self) -> (r: Range<E>)
        ensures
            r.start == self@.saved.extras,
            r.end == self@.info.extras,
    {
        self.saved().extras.clone()..self.extras().clone()
    }

    /// The bytes from the one the checkpoint stands on to the one the
    /// cursor over the bytes stands on, both included.
    #[inline]
    fn as_bytes_loaded(&self) -> (bytes: &'s [u8])
        requires
            self@.wf(),
        ensures
            bytes@ == self@.bytes.span(),
    {
        let slice = self.as_bytes();
        let pos = self.pos_as_bytes();
        let saved_pos = self.saved().inner.pos;
        if slice.len() == 0 {
            slice
        } else if pos > saved_pos {
            vstd::slice::slice_subrange(slice, saved_pos, pos + 1)
        } else {
            vstd::slice::slice_subrange(slice, pos, saved_pos + 1)
        }
    }

    /// The bytes from the one the checkpoint stands on to the first of
    /// the character under the cursor, both included.
    #[inline]
    fn as_char_bytes_loaded(&self) -> (bytes: &'s [u8])
        requires
            self@.wf(),
        ensures
            bytes@ == self@.char_span(),
    {
        let slice = self.as_bytes();
        let pos = self.char_start_pos();
        let saved_pos = self.saved().inner.pos;
        proof {
            if self@.info.inner.init {
                lemma_char_at(self@.chars, self@.info.pos as int);
            }
        }
        if slice.len() == 0 {
            slice
        } else if pos > saved_pos {
            vstd::slice::slice_subrange(slice, saved_pos, pos + 1)
        } else {
            vstd::slice::slice_subrange(slice, pos, saved_pos + 1)
        }
    }

    #[inline]
    fn as_preserved_bytes(&self) -> (bytes: &'s [u8])
        requires
            self@.wf(),
        ensures
            bytes@ == if self@.info.inner.backwards {
                self@.bytes.right_side()
            } else {
                self@.bytes.left_side()
            },
    {
        if self.backwards() {
            self.as_right_side_bytes()
        } else {
            self.as_left_side_bytes()
        }
    }

    #[inline]
    fn as_preserved_bytes_include_current(&self) -> (bytes: &'s [u8])
        requires
            self@.wf(),
        ensures
            bytes@ == if self@.info.inner.backwards {
                self@.bytes.right_side_with_current()
            } else {
                self@.bytes.left_side_with_current()
            },
    {
        if self.backwards() {
            self.as_right_side_bytes_include_current()
        } else {
            self.as_left_side_bytes_include_current()
        }
    }

    /// The byte that the cursor over the bytes stands on.
    #[inline]
    fn current_byte(&self) -> (byte: u8)
        requires
            self@.wf(),
            self@.bytes.items.len() > 0,
        ensures
            byte == self@.bytes.items[self@.info.inner.pos as int],
    {
        self.as_bytes()[self.pos_as_bytes()]
    }

    #[inline]
    fn as_remaining_bytes(&self) -> (bytes: &'s [u8])
        requires
            self@.wf(),
        ensures
            bytes@ == if self@.info.inner.backwards {
                self@.bytes.left_side()
            } else {
                self@.bytes.right_side()
            },
    {
        if self.backwards() {
            self.as_left_side_bytes()
        } else {
            self.as_right_side_bytes()
        }
    }

    #[inline]
    fn as_remaining_bytes_include_current(&self) -> (bytes: &'s [u8])
        requires
            self@.wf(),
        ensures
            bytes@ == if self@.info.inner.backwards {
                self@.bytes.left_side_with_current()
            } else {
                self@.bytes.right_side_with_current()
            },
    {
        if self.backwards() {
            self.as_left_side_bytes_include_current()
        } else {
            self.as_right_side_bytes_include_current()
        }
    }

    #[inline]
    fn as_left_side_bytes(&self) -> (bytes: &'s [u8])
        requires
            self@.wf(),
        ensures
            bytes@ == self@.bytes.left_side(),
    {
        vstd::slice::slice_subrange(self.as_bytes(), 0, self.pos_as_bytes())
    }

    #[inline]
    fn as_right_side_bytes(&self) -> (bytes: &'s [u8])
        requires
            self@.wf(),
        ensures
            bytes@ == self@.bytes.right_side(),
    {
        let slice = self.as_bytes();
        if slice.len() == 0 {
            slice
        } else {
            vstd::slice::slice_subrange(slice, self.pos_as_bytes() + 1, slice.len())
        }
    }

    #[inline]
    fn as_left_side_bytes_include_current(&self) -> (bytes: &'s [u8])
        requires
            self@.wf(),
        ensures
            bytes@ == self@.bytes.left_side_with_current(),
    {
        let slice = self.as_bytes();
        if slice.len() == 0 {
            slice
        } else {
            vstd::slice::slice_subrange(slice, 0, self.pos_as_bytes() + 1)
        }
    }

    #[inline]
    fn as_right_side_bytes_include_current(&self) -> (bytes: &'s [u8])
        requires
            self@.wf(),
        ensures
            bytes@ == self@.bytes.right_side_with_current(),
    {
        let slice = self.as_bytes();
        vstd::slice::slice_subrange(slice, self.pos_as_bytes(), slice.len())
    }

    /// The byte offset just behind the character under the cursor;
    /// behind the first character where the cursor has met none.
    fn current_end(&self) -> (end: usize)
        requires
            self@.wf(),
        ensures
            end == self@.end_of(self@.info),
            end <= self@.bytes.items.len(),
    {
        char_end(
            self.is_init(),
            self.char_start_pos(),
            self.decoded_width(),
            self.as_bytes(),
            Ghost(self@.chars),
            Ghost(self@.info.pos as int),
        )
    }

    /// The characters from the checkpoint to the cursor, both included.
    #[inline]
    fn as_str_loaded(&self) -> (text: &'s str)
        requires
            self@.wf(),
        ensures
            text@ == self@.cursor().span(),
    {
        let saved = self.saved();
        proof {
            lemma_offsets(self@.chars, 0);
        }
        if self.pos() < saved.pos {
            let end = char_end(
                saved.inner.init,
                saved.char_start_pos,
                saved.decoded_width,
                self.as_bytes(),
                Ghost(self@.chars),
                Ghost(saved.pos as int),
            );
            str_between(
                self.as_str(),
                self.char_start_pos(),
                end,
                Ghost(self@.info.pos as int),
                Ghost(self@.cursor().upto(saved.pos + 1)),
            )
        } else {
            let end = self.current_end();
            str_between(
                self.as_str(),
                saved.char_start_pos,
                end,
                Ghost(saved.pos as int),
                Ghost(self@.cursor().upto(self@.info.pos + 1)),
            )
        }
    }

    /// The characters behind the cursor.
    #[inline]
    fn as_preserved_str(&self) -> (text: &'s str)
        requires
            self@.wf(),
        ensures
            text@ == if self@.info.inner.backwards {
                self@.cursor().right_side()
            } else {
                self@.cursor().left_side()
            },
    {
        if self.backwards() {
            self.as_right_side_str()
        } else {
            self.as_left_side_str()
        }
    }

    /// The characters ahead of the cursor.
    #[inline]
    fn as_remaining_str(&self) -> (text: &'s str)
        requires
            self@.wf(),
        ensures
            text@ == if self@.info.inner.backwards {
                self@.cursor().left_side()
            } else {
                self@.cursor().right_side()
            },
    {
        if self.backwards() {
            self.as_left_side_str()
        } else {
            self.as_right_side_str()
        }
    }

    #[inline]
    fn as_left_side_str(&self) -> (text: &'s str)
        requires
            self@.wf(),
        ensures
            text@ == self@.cursor().left_side(),
    {
        proof {
            lemma_offsets(self@.chars, 0);
        }
        str_between(
            self.as_str(),
            0,
            self.char_start_pos(),
            Ghost(0),
            Ghost(self@.info.pos as int),
        )
    }

    #[inline]
    fn as_right_side_str(&self) -> (text: &'s str)
        requires
            self@.wf(),
        ensures
            text@ == self@.cursor().right_side(),
    {
        proof {
            lemma_offsets(self@.chars, self@.chars.len() as int);
        }
        let end = self.current_end();
        str_between(
            self.as_str(),
            end,
            self.as_bytes().len(),
            Ghost(self@.cursor().upto(self@.info.pos + 1)),
            Ghost(self@.chars.len() as int),
        )
    }

    /// Moves by `offset` characters: by one as a step, by more as a
    /// jump, by none not at all. `None` where there is no character to
    /// land on.
    #[inline]
    fn jump_to_offset(&mut self, offset: isize) -> (r: Option<char>)
        requires
            old(self)@.wf(),
        ensures
            final(self)@.follows(old(self)@, old(self)@.cursor().after_offset(offset as int)),
            r == old(self)@.cursor().offset_item(offset as int),
    {
        if offset == 0 {
            return self.try_current();
        }
        let (abs, sig) = isize_to_usize(offset);
        if abs == 1 {
            let rightwards = sig == 1;
            if self.backwards() == rightwards {
                self.turnaround();
                let item = self.next();
                self.turnaround();
                assert(self@.cursor() =~= old(self)@.cursor().after_offset(offset as int));
                item
            } else {
                let item = self.next();
                assert(self@.cursor() =~= old(self)@.cursor().after_offset(offset as int));
                item
            }
        } else if sig == 1 {
            match self.pos().checked_add(abs) {
                Some(target) => self.jump(target),
                None => None,
            }
        } else {
            match self.pos().checked_sub(abs) {
                Some(target) => self.jump(target),
                None => None,
            }
        }
    }

    #[inline]
    fn jump_to_first(&mut self) -> (c: char)
        requires
            old(self)@.wf(),
            old(self)@.chars.len() > 0,
        ensures
            final(self)@.follows(old(self)@, old(self)@.cursor().moved(0)),
            c == old(self)@.chars[0],
    {
        self.jump(0).unwrap()
    }

    /// A jump to the first character and a walk from there to the last.
    #[inline]
    fn first_to_last(&mut self)
        requires
            old(self)@.wf(),
            old(self)@.chars.len() > 0,
        ensures
            final(self)@.follows(
                old(self)@,
                old(self)@.cursor().moved(0).swept_up(old(self)@.chars.len() as int),
            ),
    {
        self.jump_to_first();
        self.next_to_last();
    }

    /// A jump to the index of the checkpoint.
    #[inline]
    fn jump_to_load(&mut self) -> (c: char)
        requires
            old(self)@.wf(),
            old(self)@.chars.len() > 0,
        ensures
            final(self)@.follows(old(self)@, old(self)@.cursor().moved(old(self)@.saved.pos as int)),
            c == old(self)@.chars[old(self)@.saved.pos as int],
    {
        let target = self.saved().pos;
        self.jump(target).unwrap()
    }

    /// A jump to `pos`, or, for a `pos` past the end, to the index as
    /// far from the start as `pos` is past the end. The characters are
    /// counted where that has not been done.
    #[inline]
    fn jump_cycle(&mut self, pos: isize) -> (c: char)
        requires
            old(self)@.wf(),
            old(self)@.chars.len() <= isize::MAX,
            old(self)@.cursor().cycle_ok(pos as int),
        ensures
            final(self)@.follows_counted(
                old(self)@,
                old(self)@.cursor().moved(old(self)@.cursor().cycle_index(pos as int)),
            ),
            c == old(self)@.chars[old(self)@.cursor().cycle_index(pos as int)],
    {
        let len = self.len() as isize;
        if len <= pos {
            self.jump((pos - len - 1) as usize).unwrap()
        } else {
            self.jump(pos as usize).unwrap()
        }
    }

    /// A move by `offset` that goes round at the end as `jump_cycle`
    /// does. A move that would lead to index zero stays where it is.
    #[inline]
    fn jump_to_offset_cycle(&mut self, offset: isize) -> (c: char)
        requires
            old(self)@.wf(),
            old(self)@.chars.len() <= isize::MAX,
            old(self)@.info.pos + offset <= isize::MAX,
            old(self)@.info.pos + offset == 0 ==> old(self)@.info.inner.init,
            old(self)@.info.pos + offset != 0 ==> old(self)@.cursor().cycle_ok(
                old(self)@.info.pos + offset,
            ),
        ensures
            final(self)@.follows_counted(
                old(self)@,
                old(self)@.cursor().after_offset_cycle(offset as int),
            ),
            c == final(self)@.chars[final(self)@.info.pos as int],
    {
        let dst = (self.pos() as isize) + offset;
        let len = self.len() as isize;
        if dst == 0 {
            self.current()
        } else if len <= dst {
            self.jump((dst - len - 1) as usize).unwrap()
        } else {
            self.jump_to_offset(offset).unwrap()
        }
    }

    /// Turns towards `pos` and walks there step by step, so that the
    /// accumulator meets every character on the way. Where the
    /// characters have been counted and `pos` is none of their indices,
    /// nothing happens.
    #[inline]
    fn next_to_pos(&mut self, pos: usize) -> (r: Option<char>)
        requires
            old(self)@.wf(),
        ensures
            old(self)@.len is Some && pos >= old(self)@.chars.len() ==> r is None && final(self)@.follows(old(self)@, old(self)@.cursor()),
            !(old(self)@.len is Some && pos >= old(self)@.chars.len()) ==> {
                let start = old(self)@.cursor().toward(pos);
                let n = old(self)@.cursor().hops(pos);
                &&& final(self)@.follows(old(self)@, start.stepped(n))
                &&& r == start.stepped((n - 1) as nat).next_item()
            },
    {
        if self.is_len() {
            if pos >= self.len() {
                return None;
            }
        }
        let diff = self.pos().plain_diff(pos);
        self.head_to_pos(pos);
        let n: usize = if diff == 0 {
            1
        } else {
            diff
        };
        self.walk(n)
    }

    /// Turns the way `offset` points and walks as many steps as its
    /// size, and one where that is zero. Where the characters have been
    /// counted and there is no index that far away, nothing happens.
    #[inline]
    fn next_to_offset(&mut self, offset: isize) -> (r: Option<char>)
        requires
            old(self)@.wf(),
        ensures
            old(self)@.len is Some && !(0 <= old(self)@.info.pos + offset < old(self)@.chars.len())
                ==> r is None && final(self)@.follows(old(self)@, old(self)@.cursor()),
            !(old(self)@.len is Some && !(0 <= old(self)@.info.pos + offset < old(self)@.chars.len())) ==> {
                let start = old(self)@.cursor().headed(offset as int);
                let n = paces(offset as int);
                &&& final(self)@.follows(old(self)@, start.stepped(n))
                &&& r == start.stepped((n - 1) as nat).next_item()
            },
    {
        if self.is_len() {
            match self.pos().checked_move_offset(offset) {
                Some(target) => {
                    if target >= self.len() {
                        return None;
                    }
                },
                None => {
                    return None;
                },
            }
        }
        let (abs, sig) = isize_to_usize(offset);
        if sig == 1 {
            self.head_to_right();
        } else if sig == -1 {
            self.head_to_left();
        }
        let n: usize = if abs == 0 {
            1
        } else {
            abs
        };
        self.walk(n)
    }

    /// `n` steps in the direction of travel, the last of them reported.
    /// A step that meets no character changes nothing, nor do those
    /// after it.
    fn walk(&mut self, n: usize) -> (r: Option<char>)
        requires
            old(self)@.wf(),
            n >= 1,
        ensures
            final(self)@.follows(old(self)@, old(self)@.cursor().stepped(n as nat)),
            r == old(self)@.cursor().stepped((n - 1) as nat).next_item(),
    {
        let ghost start = self@.cursor();
        let mut i: usize = 1;
        while i < n
            invariant
                1 <= i <= n,
                self@.follows(old(self)@, start.stepped((i - 1) as nat)),
                start == old(self)@.cursor(),
            decreases n - i,
        {
            if self.next().is_none() {
                proof {
                    start.lemma_stuck((i - 1) as nat, n as nat);
                    start.lemma_stuck((i - 1) as nat, (n - 1) as nat);
                }
                return None;
            }
            i = i + 1;
        }
        self.next()
    }

    /// Walks to the left until no character is left to meet.
    #[inline]
    fn next_to_first(&mut self) -> (c: char)
        requires
            old(self)@.wf(),
            old(self)@.chars.len() > 0,
        ensures
            final(self)@.follows(old(self)@, old(self)@.cursor().swept_down(0)),
            c == old(self)@.chars[0],
    {
        self.head_to_left();
        let ghost first = old(self)@.cursor();
        let ghost start = self@.cursor();
        proof {
            assert(start.info.init ==> self@.cursor() =~= first.swept_down(start.info.pos as int));
        }
        loop
            invariant
                self@.follows(old(self)@, self@.cursor()),
                first == old(self)@.cursor(),
                first.wf(),
                start == first.with_backwards(true),
                start.items.len() > 0,
                start.info.init ==> self@.cursor() == first.swept_down(self@.info.pos as int),
                start.info.init ==> self@.info.pos <= start.info.pos,
                !start.info.init ==> self@.cursor() == start || self@.cursor() == first.swept_down(
                    0,
                ),
            ensures
                !self@.cursor().can_step(),
            decreases self@.cursor().remaining(),
        {
            if self.next().is_none() {
                break;
            }
            proof {
                if start.info.init {
                    assert(self@.cursor() =~= first.swept_down(self@.info.pos as int));
                } else {
                    assert(self@.cursor() =~= first.swept_down(0));
                }
            }
        }
        self.current()
    }

    /// Walks to the right until no character is left to meet. The
    /// accumulator has then met every character after the one the walk
    /// began on, each once and in order.
    #[inline]
    fn next_to_last(&mut self) -> (c: char)
        requires
            old(self)@.wf(),
            old(self)@.chars.len() > 0,
        ensures
            final(self)@.follows(
                old(self)@,
                old(self)@.cursor().swept_up(old(self)@.chars.len() as int),
            ),
            c == old(self)@.chars.last(),
    {
        self.head_to_right();
        let ghost first = old(self)@.cursor();
        let ghost start = self@.cursor();
        proof {
            assert(start.info.init ==> self@.cursor() =~= first.swept_up(start.info.pos + 1));
        }
        loop
            invariant
                self@.follows(old(self)@, self@.cursor()),
                first == old(self)@.cursor(),
                first.wf(),
                start == first.with_backwards(false),
                start.items.len() > 0,
                self@.info.inner.init ==> self@.cursor() == first.swept_up(self@.info.pos + 1),
                self@.info.inner.init && start.info.init ==> self@.info.pos >= start.info.pos,
                !self@.info.inner.init ==> self@.cursor() == start,
            ensures
                !self@.cursor().can_step(),
            decreases self@.cursor().remaining(),
        {
            if self.next().is_none() {
                break;
            }
            proof {
                assert(self@.cursor() =~= first.swept_up(self@.info.pos + 1));
            }
        }
        self.current()
    }

    #[inline]
    fn next_to_left(&mut self) -> (r: Option<char>)
        requires
            old(self)@.wf(),
        ensures
            final(self)@.follows(old(self)@, old(self)@.cursor().with_backwards(true).after_next()),
            r == old(self)@.cursor().with_backwards(true).next_item(),
    {
        self.head_to_left();
        self.next()
    }

    #[inline]
    fn next_to_right(&mut self) -> (r: Option<char>)
        requires
            old(self)@.wf(),
        ensures
            final(self)@.follows(
                old(self)@,
                old(self)@.cursor().with_backwards(false).after_next(),
            ),
            r == old(self)@.cursor().with_backwards(false).next_item(),
    {
        self.head_to_right();
        self.next()
    }

    /// Walks on until `f` says yes of a character, or no character is
    /// left.
    #[inline]
    fn next_to_until<F: Fn(char) -> bool>(&mut self, f: F) -> (c: char)
        requires
            old(self)@.wf(),
            old(self)@.chars.len() > 0,
            forall|t: char| call_requires(f, (t,)),
        ensures
            exists|k: nat| #[trigger]
                char_walk_ends(old(self)@.cursor(), f, k, true) && final(self)@.follows(
                    old(self)@,
                    old(self)@.cursor().stepped(k),
                ),
            final(self)@.info.inner.init,
            c == final(self)@.chars[final(self)@.info.pos as int],
    {
        self.walk_on(f, true)
    }

    /// Walks on while `f` says yes of the characters, or until no
    /// character is left.
    #[inline]
    fn next_to_while<F: Fn(char) -> bool>(&mut self, f: F) -> (c: char)
        requires
            old(self)@.wf(),
            old(self)@.chars.len() > 0,
            forall|t: char| call_requires(f, (t,)),
        ensures
            exists|k: nat| #[trigger]
                char_walk_ends(old(self)@.cursor(), f, k, false) && final(self)@.follows(
                    old(self)@,
                    old(self)@.cursor().stepped(k),
                ),
            final(self)@.info.inner.init,
            c == final(self)@.chars[final(self)@.info.pos as int],
    {
        self.walk_on(f, false)
    }

    /// Walks on until `f` gives `verdict` for a character, or no
    /// character is left.
    fn walk_on<F: Fn(char) -> bool>(&mut self, f: F, verdict: bool) -> (c: char)
        requires
            old(self)@.wf(),
            old(self)@.chars.len() > 0,
            forall|t: char| call_requires(f, (t,)),
        ensures
            exists|k: nat| #[trigger]
                char_walk_ends(old(self)@.cursor(), f, k, verdict) && final(self)@.follows(
                    old(self)@,
                    old(self)@.cursor().stepped(k),
                ),
            final(self)@.info.inner.init,
            c == final(self)@.chars[final(self)@.info.pos as int],
    {
        let ghost start = self@.cursor();
        let ghost mut i: nat = 0;
        loop
            invariant_except_break
                self@.cursor() == start.stepped(i),
            invariant
                self@.follows(old(self)@, self@.cursor()),
                self@.chars == old(self)@.chars,
                start == old(self)@.cursor(),
                start.items.len() > 0,
                forall|j: nat|
                    j < i ==> (#[trigger] start.stepped(j)).can_step() && call_ensures(
                        f,
                        (start.stepped(j).items[start.stepped(j).step_target()],),
                        !verdict,
                    ),
                forall|t: char| call_requires(f, (t,)),
            ensures
                char_walk_ends(start, f, i + 1, verdict),
                self@.cursor() == start.stepped(i + 1),
                self@.info.inner.init,
            decreases self@.cursor().remaining(),
        {
            match self.next() {
                Some(item) => {
                    let said = f(item);
                    if said == verdict {
                        break;
                    }
                    proof {
                        i = i + 1;
                    }
                },
                None => {
                    break;
                },
            }
        }
        self.current()
    }

    /// A walk to the checkpoint's index.
    #[inline]
    fn next_to_load(&mut self) -> (c: char)
        requires
            old(self)@.wf(),
            old(self)@.chars.len() > 0,
            old(self)@.cursor().toward(old(self)@.saved.pos).stepped(
                (old(self)@.cursor().hops(old(self)@.saved.pos) - 1) as nat,
            ).can_step(),
        ensures
            final(self)@.follows(
                old(self)@,
                old(self)@.cursor().toward(old(self)@.saved.pos).stepped(
                    old(self)@.cursor().hops(old(self)@.saved.pos),
                ),
            ),
            final(self)@.info.inner.init,
            c == final(self)@.chars[final(self)@.info.pos as int],
    {
        let target = self.saved().pos;
        let c = self.next_to_pos(target).unwrap();
        c
    }

    /// One step; at either end the cursor turns round instead and shows
    /// the character it stands on. Turning at the right end counts the
    /// characters where that has not been done.
    #[inline]
    fn next_cycle(&mut self) -> (c: char)
        requires
            old(self)@.wf(),
            old(self)@.chars.len() > 0,
        ensures
            final(self)@.wf(),
            final(self)@.cursor() == old(self)@.cursor().after_next_cycle(),
            final(self)@.saved == old(self)@.saved,
            final(self)@.len == if !old(self)@.cursor().can_step()
                && !old(self)@.info.inner.backwards {
                Some(old(self)@.chars.len() as usize)
            } else {
                old(self)@.len
            },
            final(self)@.info.inner.init,
            c == final(self)@.chars[final(self)@.info.pos as int],
    {
        match self.next() {
            Some(c) => c,
            None => {
                self.turnaround();
                if self.backwards() {
                    let c = self.jump_to_last();
                    assert(self@.cursor() =~= old(self)@.cursor().after_next_cycle());
                    c
                } else {
                    let c = self.jump_to_first();
                    assert(self@.cursor() =~= old(self)@.cursor().after_next_cycle());
                    c
                }
            },
        }
    }

    /// Turns the way `offset` points and takes as many turning steps as
    /// its size, and one where that is zero.
    #[inline]
    fn next_to_offset_cycle(&mut self, offset: isize) -> (c: char)
        requires
            old(self)@.wf(),
            old(self)@.chars.len() > 0,
        ensures
            final(self)@.wf(),
            final(self)@.cursor() == old(self)@.cursor().headed(offset as int).cycled(
                paces(offset as int),
            ),
            final(self)@.saved == old(self)@.saved,
            final(self)@.len == old(self)@.len || final(self)@.len == Some(
                old(self)@.chars.len() as usize,
            ),
            final(self)@.info.inner.init,
            c == final(self)@.chars[final(self)@.info.pos as int],
    {
        let (abs, sig) = isize_to_usize(offset);
        if sig == 1 {
            self.head_to_right();
        } else if sig == -1 {
            self.head_to_left();
        }
        let ghost start = self@.cursor();
        let mut i: usize = 1;
        while i < abs
            invariant
                1 <= i,
                i == 1 || i <= abs,
                self@.cursor() == start.cycled((i - 1) as nat),
                start == old(self)@.cursor().headed(offset as int),
                abs == crate::cmn::utils::magnitude(offset as int),
                self@.wf(),
                self@.chars.len() > 0,
                self@.chars == old(self)@.chars,
                self@.saved == old(self)@.saved,
                self@.len == old(self)@.len || self@.len == Some(old(self)@.chars.len() as usize),
            decreases abs - i,
        {
            self.next_cycle();
            i = i + 1;
        }
        self.next_cycle()
    }
}

/// The byte offset just behind the character that a state stands on:
/// of a state that has met a character, from where that begins and how
/// wide it is; of one that has met none, behind the first character.
fn char_end(
    init: bool,
    start: usize,
    width: usize,
    bytes: &[u8],
    Ghost(chars): Ghost<Seq<char>>,
    Ghost(pos): Ghost<int>,
) -> (end: usize)
    requires
        bytes@ == encode_utf8(chars),
        init ==> 0 <= pos < chars.len() && start == offset_of(chars, pos) && width == width_of(
            chars[pos],
        ),
        !init ==> pos == 0,
    ensures
        end == offset_of(chars, if pos + 1 < chars.len() { pos + 1 } else { chars.len() as int }),
        end <= bytes@.len(),
{
    proof {
        lemma_offsets(chars, 0);
        lemma_offsets(chars, chars.len() as int);
        if pos < chars.len() {
            lemma_char_at(chars, pos);
            lemma_offset_step(chars, pos);
        }
    }
    assert(bytes@.len() == bytes.len());
    if init {
        start + width
    } else if bytes.len() == 0 {
        assert(chars.len() == 0) by {
            crate::cmn::text::lemma_offset_rises(chars, 0, chars.len() as int);
        }
        0
    } else {
        assert(chars.len() > 0);
        utf8_width(bytes[0])
    }
}

} // verus!
