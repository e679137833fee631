use vstd::prelude::*;
use vstd::utf8::encode_utf8;
use crate::cmn::extras::NoneExtras;
use crate::cmn::info::StrCursorInfo;
use crate::cmn::str_model::StrCursorView;
use crate::cmn::text::{
    lemma_char_at, lemma_lengths, lemma_offset_step, lemma_offset_strict, lemma_offsets,
    offset_of, width_of,
};
use crate::cmn::utf::{next_back_char, next_char, utf8_is_cont_byte, utf8_width};
use crate::cursors::Cursor;
use crate::str_traits::StrCursorTrait;
use crate::traits::{CursorTrait, Extras, ToCursor, ToExtras};
use core::ops::{Add, Range, Sub};
use vstd::std_specs::ops::{AddSpecImpl, SubSpecImpl};

verus! {

broadcast use vstd::slice::group_slice_axioms;

/// A cursor over the characters of a borrowed string. It keeps a cursor
/// over the string's bytes and decodes one character at each step.
#[derive(PartialEq, Eq)]
pub struct StrCursor<'s, E: Extras<char> = NoneExtras<char>> {
    text: &'s str,
    cursor: Cursor<'s, u8, NoneExtras<u8>>,
    len: Option<usize>,
    info: StrCursorInfo<E>,
    saved_info: StrCursorInfo<E>,
}

impl<'s, E: Extras<char>> View for StrCursor<'s, E> {
    type V = StrCursorView<E>;

    closed spec fn view(&self) -> StrCursorView<E> {
        StrCursorView {
            chars: self.text@,
            info: StrCursorInfo { inner: self.cursor@.info, ..self.info },
            saved: self.saved_info,
            len: self.len,
            bytes: self.cursor@,
        }
    }
}

impl<'s, E: Extras<char>> Clone for StrCursor<'s, E> {
    #[inline]
    fn clone(&self) -> (cursor: Self)
        ensures
            cursor@ == self@,
    {
        StrCursor {
            text: self.text,
            cursor: self.cursor.clone(),
            len: self.len,
            info: self.info.clone(),
            saved_info: self.saved_info.clone(),
        }
    }
}

impl<'s, E: Extras<char>> ToExtras<E> for StrCursor<'s, E> {
    type Input = char;

    open spec fn spec_extras(&self) -> E {
        self@.info.extras
    }

    #[inline]
    fn to_extras(&self) -> E {
        self.info.extras.clone()
    }

    #[inline]
    fn into_extras(self) -> E {
        self.info.extras
    }
}

#[inline]
fn str_cursor_new<'s, EXTRAS: Extras<char>>(string: &'s str) -> (cursor: StrCursor<'s, EXTRAS>)
    ensures
        cursor@ == StrCursorView::<EXTRAS>::fresh(string@),
        cursor@.wf(),
{
    proof {
        lemma_lengths(string@);
    }
    let cursor = StrCursor {
        text: string,
        cursor: Cursor::new(string.as_bytes()),
        len: None,
        info: StrCursorInfo::new(),
        saved_info: StrCursorInfo::new(),
    };
    assert(cursor@ =~= StrCursorView::<EXTRAS>::fresh(string@));
    cursor
}

impl<'s> StrCursor<'s, NoneExtras<char>> {
    /// A cursor over `string` that has met no character yet and travels
    /// to the right.
    #[inline]
    pub fn new(string: &'s str) -> (cursor: Self)
        ensures
            cursor@ == StrCursorView::<NoneExtras<char>>::fresh(string@),
            cursor@.wf(),
    {
        str_cursor_new(string)
    }

    /// Such a cursor with an accumulator of the kind asked for.
    #[inline]
    pub fn new_with_extras<EXTRAS: Extras<char>>(string: &str) -> (cursor: StrCursor<'_, EXTRAS>)
        ensures
            cursor@ == StrCursorView::<EXTRAS>::fresh(string@),
            cursor@.wf(),
    {
        str_cursor_new(string)
    }
}

impl<'s, E: Extras<char>> StrCursor<'s, E> {
    /// Writes down the character that the cursor over the bytes has
    /// just decoded.
    #[inline]
    fn set_current(&mut self, val: char)
        ensures
            final(self)@ == (StrCursorView {
                info: StrCursorInfo { current: val, ..old(self)@.info },
                ..old(self)@
            }),
    {
        self.info.current = val;
    }

    /// Writes the direction and nothing else: the cursor over the bytes
    /// stays on the byte it stands on.
    #[inline]
    pub fn unsafe_set_backwards(&mut self, new_backwards: bool)
        ensures
            final(self)@ == (StrCursorView {
                info: StrCursorInfo {
                    inner: old(self)@.bytes.with_backwards(new_backwards).info,
                    ..old(self)@.info
                },
                bytes: old(self)@.bytes.with_backwards(new_backwards),
                ..old(self)@
            }),
    {
        *self.cursor.backwards_mut() = new_backwards;
    }

    /// Turns the cursor to travel the way asked for.
    #[inline]
    pub fn set_backwards(&mut self, new_backwards: bool)
        requires
            old(self)@.wf(),
        ensures
            final(self)@.follows(old(self)@, old(self)@.cursor().with_backwards(new_backwards)),
    {
        if self.cursor.backwards() != new_backwards {
            self.turnaround();
        }
        assert(self@.cursor() =~= old(self)@.cursor().with_backwards(new_backwards));
    }

    #[inline]
    fn set_char_start_pos(&mut self, val: usize)
        ensures
            final(self)@ == (StrCursorView {
                info: StrCursorInfo { char_start_pos: val, ..old(self)@.info },
                ..old(self)@
            }),
    {
        self.info.char_start_pos = val;
    }

    /// Puts the cursor over the bytes on the byte at `new_pos`.
    #[inline]
    fn unsafe_set_pos_as_bytes(&mut self, new_pos: usize)
        ensures
            final(self)@ == (StrCursorView {
                info: StrCursorInfo {
                    inner: old(self)@.bytes.with_pos(new_pos).info,
                    ..old(self)@.info
                },
                bytes: old(self)@.bytes.with_pos(new_pos),
                ..old(self)@
            }),
    {
        self.cursor.unsafe_set_pos(new_pos);
    }

    /// Shows the character under the cursor to the accumulator, unless
    /// that is switched off.
    #[inline]
    fn blush_extras(&mut self)
        ensures
            final(self)@ == (StrCursorView {
                info: StrCursorInfo {
                    extras: if old(self)@.info.noeffects {
                        old(self)@.info.extras
                    } else {
                        old(self)@.info.extras.changed(
                            old(self)@.info.current,
                            old(self)@.info.pos,
                        )
                    },
                    ..old(self)@.info
                },
                ..old(self)@
            }),
    {
        if !self.info.noeffects {
            self.info.extras.change(&self.info.current, self.info.pos);
        }
    }

    /// Writes the index of the character and, where that is a new one,
    /// shows the character to the accumulator.
    #[inline]
    fn set_pos(&mut self, new_pos: usize) -> (r: Option<char>)
        ensures
            final(self)@ == (StrCursorView {
                info: StrCursorInfo {
                    pos: new_pos,
                    extras: if old(self)@.info.noeffects || new_pos == old(self)@.info.pos {
                        old(self)@.info.extras
                    } else {
                        old(self)@.info.extras.changed(old(self)@.info.current, new_pos)
                    },
                    ..old(self)@.info
                },
                ..old(self)@
            }),
            r == Some(old(self)@.info.current),
    {
        if new_pos != self.info.pos {
            self.info.pos = new_pos;
            self.blush_extras();
        }
        Some(self.info.current)
    }

    /// Takes in the character that begins at byte `start`, which the
    /// cursor over the bytes stands on, as the character at index `pos`.
    fn settle(&mut self, start: usize, pos: usize) -> (ch: char)
        requires
            old(self)@.bytes.items == encode_utf8(old(self)@.chars),
            old(self)@.bytes.wf(),
            old(self)@.bytes.info.init,
            old(self)@.bytes.info.pos == start,
            pos < old(self)@.chars.len(),
            start == offset_of(old(self)@.chars, pos as int),
        ensures
            ch == old(self)@.chars[pos as int],
            final(self)@.chars == old(self)@.chars,
            final(self)@.saved == old(self)@.saved,
            final(self)@.len == old(self)@.len,
            final(self)@.bytes.saved == old(self)@.bytes.saved,
            final(self)@.bytes.items == old(self)@.bytes.items,
            final(self)@.bytes.wf(),
            final(self)@.fits(final(self)@.info),
            final(self)@.cursor().info == old(self)@.cursor().moved(pos as int).info,
    {
        proof {
            lemma_char_at(self@.chars, pos as int);
        }
        let backwards = self.cursor.backwards();
        let ch = next_char(&mut self.cursor).unwrap();
        let width = self.cursor.pos() - start + 1;
        if backwards {
            self.unsafe_set_pos_as_bytes(start);
        }
        self.set_current(ch);
        self.set_char_start_pos(start);
        self.info.decoded_width = width;
        self.set_pos(pos);
        assert(self@.cursor().info =~= old(self)@.cursor().moved(pos as int).info);
        ch
    }

    /// A move `rhs` characters to the right; see `jump_to_offset`.
    /// `None` where `rhs` is more than an offset can be.
    #[inline]
    pub fn jump_to_added(&mut self, rhs: usize) -> (r: Option<char>)
        requires
            old(self)@.wf(),
        ensures
            final(self)@.follows(old(self)@, old(self)@.cursor().after_added(rhs)),
            r == old(self)@.cursor().added_item(rhs),
    {
        if rhs > isize::MAX as usize {
            return None;
        }
        self.jump_to_offset(rhs as isize)
    }

    /// A move `rhs` characters to the left; see `jump_to_offset`.
    /// `None` where `rhs` is more than an offset can be.
    #[inline]
    pub fn jump_to_subed(&mut self, rhs: usize) -> (r: Option<char>)
        requires
            old(self)@.wf(),
        ensures
            final(self)@.follows(old(self)@, old(self)@.cursor().after_subed(rhs)),
            r == old(self)@.cursor().subed_item(rhs),
    {
        if rhs > isize::MAX as usize {
            return None;
        }
        self.jump_to_offset(-(rhs as isize))
    }

    /// The number of bytes.
    #[inline]
    pub fn raw_len(&self) -> (n: usize)
        ensures
            n == self@.bytes.items.len(),
    {
        self.cursor.len()
    }

    /// The indices of the bytes.
    #[inline]
    pub fn raw_range(&self) -> (r: Range<usize>)
        ensures
            r.start == 0,
            r.end == self@.bytes.items.len(),
    {
        0..self.raw_len()
    }

    /// The characters from the checkpoint to the cursor, both included;
    /// another name for `as_str_loaded`.
    #[inline]
    pub fn load_str(&self) -> (text: &'s str)
        requires
            self@.wf(),
        ensures
            text@ == self@.cursor().span(),
    {
        self.as_str_loaded()
    }

    /// The index of the character at the checkpoint.
    #[inline]
    pub fn saved_pos(&self) -> (p: usize)
        ensures
            p == self@.saved.pos,
    {
        self.saved_info.pos
    }

    /// `n` steps, the last of them reported; for no step, the
    /// character under the cursor.
    #[inline]
    fn shift(&mut self, n: usize) -> (r: Option<char>)
        requires
            old(self)@.wf(),
        ensures
            final(self)@.follows(old(self)@, old(self)@.cursor().stepped(n as nat)),
            r == if n == 0 {
                old(self)@.cursor().current_item()
            } else {
                old(self)@.cursor().stepped((n - 1) as nat).next_item()
            },
    {
        if n == 0 {
            self.try_current()
        } else {
            self.walk(n)
        }
    }

    /// Turns to the left and walks `n` characters. From a cursor that
    /// has met nothing a shift by one takes no step.
    #[inline]
    pub fn left_shift(&mut self, n: usize) -> (r: Option<char>)
        requires
            old(self)@.wf(),
        ensures
            final(self)@.follows(old(self)@, old(self)@.cursor().shifted(n, false)),
            r == old(self)@.cursor().shifted_item(n, false),
    {
        let steps = if !self.cursor.is_init() && n == 1 {
            0
        } else {
            n
        };
        self.head_to_left();
        self.shift(steps)
    }

    /// Turns to the right and walks `n` characters. From a cursor that
    /// has met nothing the walk takes one step more, which meets the
    /// first character, and a shift by one takes that step alone.
    #[inline]
    pub fn right_shift(&mut self, n: usize) -> (r: Option<char>)
        requires
            old(self)@.wf(),
            old(self)@.info.inner.init || n < usize::MAX,
        ensures
            final(self)@.follows(old(self)@, old(self)@.cursor().shifted(n, true)),
            r == old(self)@.cursor().shifted_item(n, true),
    {
        let steps = if self.cursor.is_init() {
            n
        } else if n == 1 {
            1
        } else {
            n + 1
        };
        self.head_to_right();
        self.shift(steps)
    }

    /// Turns to the left and jumps to the first character, if there is
    /// one.
    #[inline]
    pub fn shift_first(&mut self)
        requires
            old(self)@.wf(),
        ensures
            final(self)@.follows(
                old(self)@,
                old(self)@.cursor().with_backwards(true).after_jump(0),
            ),
    {
        self.head_to_left();
        let _ = self.jump(0);
    }

    /// Turns to the right and walks until no character is left to meet.
    #[inline]
    pub fn shift_last(&mut self)
        requires
            old(self)@.wf(),
        ensures
            final(self)@.follows(
                old(self)@,
                if old(self)@.chars.len() > 0 {
                    old(self)@.cursor().swept_up(old(self)@.chars.len() as int)
                } else {
                    old(self)@.cursor().with_backwards(false)
                },
            ),
    {
        if self.text.len() == 0 {
            self.head_to_right();
        } else {
            self.next_to_last();
        }
    }

    /// One step, for a caller who knows that it meets a character.
    #[inline]
    pub fn unwrapped_next(&mut self) -> (c: char)
        requires
            old(self)@.wf(),
            old(self)@.cursor().can_step(),
        ensures
            final(self)@.follows(old(self)@, old(self)@.cursor().after_next()),
            c == old(self)@.chars[old(self)@.cursor().step_target()],
    {
        self.next().unwrap()
    }
}

impl<'s, E: Extras<char>> StrCursorTrait<'s, E> for StrCursor<'s, E> {
    fn len(&mut self) -> usize {
        match self.len {
            Some(n) => {
                assert(self@.cursor() =~= old(self)@.cursor());
                n
            },
            None => {
                let bytes = self.cursor.as_slice();
                let mut i: usize = 0;
                let mut count: usize = 0;
                proof {
                    lemma_lengths(self@.chars);
                    lemma_offsets(self@.chars, 0);
                }
                if self.cursor.is_init() {
                    proof {
                        lemma_char_at(self@.chars, self.info.pos as int);
                        lemma_offset_step(self@.chars, self.info.pos as int);
                    }
                    i = self.info.char_start_pos + self.info.decoded_width;
                    count = self.info.pos + 1;
                }
                while i < bytes.len()
                    invariant
                        bytes@ == encode_utf8(self@.chars),
                        0 <= count <= self@.chars.len(),
                        i == offset_of(self@.chars, count as int),
                        self@.chars.len() <= bytes@.len() <= usize::MAX,
                    decreases bytes.len() - i,
                {
                    proof {
                        let chars = self@.chars;
                        lemma_offsets(chars, chars.len() as int);
                        if count == chars.len() {
                            assert(false);
                        }
                        lemma_char_at(chars, count as int);
                        lemma_offset_step(chars, count as int);
                    }
                    i = i + utf8_width(bytes[i]);
                    count = count + 1;
                }
                proof {
                    let chars = self@.chars;
                    lemma_offsets(chars, chars.len() as int);
                    if count < chars.len() {
                        lemma_offset_strict(chars, count as int, chars.len() as int);
                    }
                }
                self.len = Some(count);
                assert(self@.cursor() =~= old(self)@.cursor());
                count
            },
        }
    }

    #[inline]
    fn is_len(&self) -> bool {
        self.len.is_some()
    }

    #[inline]
    fn is_init(&self) -> bool {
        self.cursor.is_init()
    }

    #[inline]
    fn noeffects(&self) -> bool {
        self.info.noeffects
    }

    #[inline]
    fn noeffects_mut(&mut self) -> &mut bool {
        &mut self.info.noeffects
    }

    #[inline]
    fn backwards(&self) -> bool {
        self.cursor.backwards()
    }

    fn turnaround(&mut self) {
        let backwards = self.cursor.backwards();
        if self.cursor.is_init() {
            proof {
                lemma_char_at(self@.chars, self.info.pos as int);
            }
            let target = if backwards {
                self.info.char_start_pos + self.info.decoded_width - 1
            } else {
                self.info.char_start_pos
            };
            self.unsafe_set_pos_as_bytes(target);
        }
        self.cursor.turnaround();
        assert(self@.cursor() =~= old(self)@.cursor().with_backwards(
            !old(self)@.info.inner.backwards,
        ));
    }

    #[inline]
    fn pos(&self) -> usize {
        self.info.pos
    }

    #[inline]
    fn pos_as_bytes(&self) -> usize {
        self.cursor.pos()
    }

    #[inline]
    fn char_start_pos(&self) -> usize {
        self.info.char_start_pos
    }

    #[inline]
    fn decoded_width(&self) -> usize {
        self.info.decoded_width
    }

    #[inline]
    fn extras(&self) -> &E {
        &self.info.extras
    }

    #[inline]
    fn reset(&mut self) {
        self.info.reset();
        self.cursor.reset();
        self.len = None;
        assert(self@.info =~= StrCursorInfo::<E>::fresh());
    }

    #[inline]
    fn save(&mut self) {
        self.cursor.save();
        self.info.inner = self.cursor.saved().clone();
        self.saved_info = self.info.clone();
        assert(self@.info =~= old(self)@.info);
    }

    #[inline]
    fn saved(&self) -> &StrCursorInfo<E> {
        &self.saved_info
    }

    #[inline]
    fn load(&mut self) {
        self.info = self.saved_info.clone();
        self.cursor.load();
        assert(self@.info =~= old(self)@.saved);
    }

    #[inline]
    fn as_bytes(&self) -> &'s [u8] {
        self.cursor.as_slice()
    }

    #[inline]
    fn as_str(&self) -> &'s str {
        self.text
    }

    #[inline]
    fn current(&self) -> char {
        self.info.current
    }

    fn jump(&mut self, pos: usize) -> Option<char> {
        let ghost chars = self@.chars;
        let init = self.cursor.is_init();
        if init && pos == self.info.pos {
            assert(self@.cursor() =~= old(self)@.cursor().after_jump(pos));
            return Some(self.info.current);
        }
        let bytes = self.cursor.as_slice();
        let mut i: usize = 0;
        let mut k: usize = 0;
        proof {
            lemma_offsets(chars, 0);
            lemma_lengths(chars);
            lemma_offsets(chars, chars.len() as int);
        }
        // The walk to the character begins at the nearest place whose
        // index is known: the start, the cursor, or else the end.
        if init && pos != 0 {
            i = self.info.char_start_pos;
            k = self.info.pos;
        }
        match self.len {
            Some(n) => {
                if n > 0 && pos == n - 1 {
                    i = bytes.len();
                    k = n;
                }
            },
            None => {},
        }
        while k < pos
            invariant
                bytes@ == encode_utf8(chars),
                chars.len() <= bytes@.len() <= usize::MAX,
                0 <= k <= chars.len(),
                i == offset_of(chars, k as int),
                offset_of(chars, chars.len() as int) == bytes@.len(),
                self@ == old(self)@,
                old(self)@.wf(),
                chars == old(self)@.chars,
            decreases pos - k,
        {
            if i >= bytes.len() {
                proof {
                    if k < chars.len() {
                        lemma_offset_strict(chars, k as int, chars.len() as int);
                    }
                }
                return None;
            }
            proof {
                if k == chars.len() {
                    assert(false);
                }
                lemma_char_at(chars, k as int);
                lemma_offset_step(chars, k as int);
            }
            i = i + utf8_width(bytes[i]);
            k = k + 1;
        }
        while k > pos
            invariant
                bytes@ == encode_utf8(chars),
                chars.len() <= bytes@.len() <= usize::MAX,
                pos <= k <= chars.len(),
                i == offset_of(chars, k as int),
                offset_of(chars, chars.len() as int) == bytes@.len(),
                self@ == old(self)@,
                old(self)@.wf(),
                chars == old(self)@.chars,
            decreases k,
        {
            proof {
                lemma_char_at(chars, k - 1);
                lemma_offset_step(chars, k - 1);
            }
            let ghost start = offset_of(chars, k - 1);
            i = i - 1;
            while utf8_is_cont_byte(bytes[i])
                invariant
                    bytes@ == encode_utf8(chars),
                    1 <= k <= chars.len(),
                    start <= i < start + width_of(chars[k - 1]),
                    start + width_of(chars[k - 1]) <= bytes@.len(),
                    0 <= start,
                    !vstd::utf8::is_continuation_byte(bytes@[start]),
                    forall|t: int|
                        1 <= t < width_of(chars[k - 1]) ==> vstd::utf8::is_continuation_byte(
                            #[trigger] bytes@[start + t],
                        ),
                decreases i,
            {
                i = i - 1;
            }
            proof {
                if i > start {
                    assert(vstd::utf8::is_continuation_byte(bytes@[start + (i - start)]));
                }
            }
            k = k - 1;
        }
        if i >= bytes.len() {
            proof {
                if k < chars.len() {
                    lemma_offset_strict(chars, k as int, chars.len() as int);
                }
            }
            return None;
        }
        proof {
            if k == chars.len() {
                assert(false);
            }
        }
        self.unsafe_set_pos_as_bytes(i);
        if !self.cursor.is_init() {
            self.cursor.set_init(true);
        }
        let ch = self.settle(i, pos);
        assert(self@.cursor() =~= old(self)@.cursor().after_jump(pos));
        Some(ch)
    }

    fn jump_to_last(&mut self) -> char {
        let last_pos = self.len() - 1;
        self.jump(last_pos).unwrap()
    }

    fn next(&mut self) -> Option<char> {
        let ghost chars = self@.chars;
        let ghost before = old(self)@.cursor();
        let was_init = self.cursor.is_init();
        let backwards = self.cursor.backwards();
        proof {
            lemma_lengths(chars);
            lemma_offsets(chars, 0);
            lemma_offsets(chars, chars.len() as int);
            if was_init {
                let p = self.info.pos as int;
                lemma_char_at(chars, p);
                lemma_offset_step(chars, p);
                if p + 1 < chars.len() {
                    lemma_offset_strict(chars, p + 1, chars.len() as int);
                }
                if p > 0 {
                    lemma_offset_strict(chars, 0, p);
                    lemma_offset_step(chars, p - 1);
                    lemma_char_at(chars, p - 1);
                }
            }
        }
        if self.cursor.next().is_none() {
            assert(self@.cursor() =~= before);
            return None;
        }
        let byte_pos = self.cursor.pos();
        if !was_init {
            let ch = self.settle(0, 0);
            assert(self@.cursor() =~= before.after_next());
            Some(ch)
        } else if backwards {
            let ch = next_back_char(&mut self.cursor).unwrap();
            let start = self.cursor.pos();
            self.set_current(ch);
            self.set_char_start_pos(start);
            self.info.decoded_width = byte_pos - start + 1;
            let target = self.info.pos - 1;
            self.set_pos(target);
            assert(self@.cursor() =~= before.after_next());
            Some(ch)
        } else {
            let target = self.info.pos + 1;
            let ch = self.settle(byte_pos, target);
            assert(self@.cursor() =~= before.after_next());
            Some(ch)
        }
    }
}

/// A cursor over the bytes of the same string, which has met nothing.
impl<'s, E: Extras<char>> ToCursor<u8> for StrCursor<'s, E> {
    open spec fn spec_items(&self) -> Seq<u8> {
        self@.bytes.items
    }

    #[inline]
    fn to_cursor(&self) -> Cursor<'_, u8, NoneExtras<u8>> {
        Cursor::new(self.cursor.as_slice())
    }
}

impl<'s, E: Extras<char>> AddSpecImpl<usize> for StrCursor<'s, E> {
    open spec fn obeys_add_spec() -> bool {
        true
    }

    open spec fn add_req(self, rhs: usize) -> bool {
        self@.wf()
    }

    open spec fn add_spec(self, rhs: usize) -> Option<char> {
        self@.cursor().added_item(rhs)
    }
}

/// `cursor + n` is `jump_to_added(n)` on a cursor that is given away.
impl<'s, E: Extras<char>> Add<usize> for StrCursor<'s, E> {
    type Output = Option<char>;

    #[inline]
    fn add(self, rhs: usize) -> Option<char> {
        let mut cursor = self;
        cursor.jump_to_added(rhs)
    }
}

impl<'s, E: Extras<char>> AddSpecImpl<usize> for &mut StrCursor<'s, E> {
    open spec fn obeys_add_spec() -> bool {
        true
    }

    open spec fn add_req(self, rhs: usize) -> bool {
        self@.wf()
    }

    open spec fn add_spec(self, rhs: usize) -> Option<char> {
        self@.cursor().added_item(rhs)
    }
}

/// `&mut cursor + n` is `jump_to_added(n)`.
impl<'s, E: Extras<char>> Add<usize> for &mut StrCursor<'s, E> {
    type Output = Option<char>;

    #[inline]
    fn add(self, rhs: usize) -> (r: Option<char>)
        ensures
            final(self)@.follows(old(self)@, old(self)@.cursor().after_added(rhs)),
    {
        self.jump_to_added(rhs)
    }
}

impl<'s, E: Extras<char>> SubSpecImpl<usize> for StrCursor<'s, E> {
    open spec fn obeys_sub_spec() -> bool {
        true
    }

    open spec fn sub_req(self, rhs: usize) -> bool {
        self@.wf()
    }

    open spec fn sub_spec(self, rhs: usize) -> Option<char> {
        self@.cursor().subed_item(rhs)
    }
}

/// `cursor - n` is `jump_to_subed(n)` on a cursor that is given away.
impl<'s, E: Extras<char>> Sub<usize> for StrCursor<'s, E> {
    type Output = Option<char>;

    #[inline]
    fn sub(self, rhs: usize) -> Option<char> {
        let mut cursor = self;
        cursor.jump_to_subed(rhs)
    }
}

impl<'s, E: Extras<char>> SubSpecImpl<usize> for &mut StrCursor<'s, E> {
    open spec fn obeys_sub_spec() -> bool {
        true
    }

    open spec fn sub_req(self, rhs: usize) -> bool {
        self@.wf()
    }

    open spec fn sub_spec(self, rhs: usize) -> Option<char> {
        self@.cursor().subed_item(rhs)
    }
}

/// `&mut cursor - n` is `jump_to_subed(n)`.
impl<'s, E: Extras<char>> Sub<usize> for &mut StrCursor<'s, E> {
    type Output = Option<char>;

    #[inline]
    fn sub(self, rhs: usize) -> (r: Option<char>)
        ensures
            final(self)@.follows(old(self)@, old(self)@.cursor().after_subed(rhs)),
    {
        self.jump_to_subed(rhs)
    }
}

} // verus!
