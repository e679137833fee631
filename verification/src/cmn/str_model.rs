use vstd::prelude::*;
use vstd::utf8::encode_utf8;
use crate::cmn::consts::EOF_CHAR;
use crate::cmn::extras::NoneExtras;
use crate::cmn::info::StrCursorInfo;
use crate::cmn::model::CursorView;
use crate::cmn::text::{offset_of, width_of};
use crate::traits::Extras;

verus! {

/// A cursor over characters as mathematics sees it: the text, where
/// the cursor stands, its checkpoint, the number of characters if it
/// has been counted, and the cursor over the bytes underneath.
pub ghost struct StrCursorView<E: Extras<char>> {
    pub chars: Seq<char>,
    pub info: StrCursorInfo<E>,
    pub saved: StrCursorInfo<E>,
    pub len: Option<usize>,
    pub bytes: CursorView<u8, NoneExtras<u8>>,
}

impl<E: Extras<char>> StrCursorView<E> {
    /// The cursor counted in characters alone: a cursor over the
    /// sequence of characters.
    pub open spec fn cursor(self) -> CursorView<char, E> {
        CursorView { items: self.chars, info: self.info.in_chars(), saved: self.saved.in_chars() }
    }

    /// A state fits the text where, before the first character was
    /// met, all of it is zero, and after that `current` is the
    /// character at `pos`, `char_start_pos` and `decoded_width` say
    /// where its bytes are, and the cursor over the bytes stands on the
    /// one of them that lies furthest in the direction of travel.
    pub open spec fn fits(self, info: StrCursorInfo<E>) -> bool {
        if info.inner.init {
            &&& info.pos < self.chars.len()
            &&& info.current == self.chars[info.pos as int]
            &&& info.char_start_pos == offset_of(self.chars, info.pos as int)
            &&& info.decoded_width == width_of(info.current)
            &&& info.inner.pos == if info.inner.backwards {
                info.char_start_pos as int
            } else {
                info.char_start_pos + info.decoded_width - 1
            }
        } else {
            &&& info.pos == 0
            &&& info.current == EOF_CHAR
            &&& info.char_start_pos == 0
            &&& info.decoded_width == 0
            &&& info.inner.pos == 0
        }
    }

    pub open spec fn wf(self) -> bool {
        &&& self.bytes.items == encode_utf8(self.chars)
        &&& self.chars.len() <= self.bytes.items.len()
        &&& self.bytes.wf()
        &&& self.bytes.info == self.info.inner
        &&& self.bytes.saved == self.saved.inner
        &&& self.fits(self.info)
        &&& self.fits(self.saved)
        &&& self.len is Some ==> self.len->0 == self.chars.len()
    }

    /// The view of a cursor just made over `chars`.
    pub open spec fn fresh(chars: Seq<char>) -> Self {
        StrCursorView {
            chars,
            info: StrCursorInfo::fresh(),
            saved: StrCursorInfo::fresh(),
            len: None,
            bytes: CursorView::fresh(encode_utf8(chars)),
        }
    }

    /// Whether this view is what `before` becomes when the cursor,
    /// counted in characters, comes to be `now`: well formed, with the
    /// checkpoint and the count as they were.
    pub open spec fn follows(self, before: Self, now: CursorView<char, E>) -> bool {
        &&& self.wf()
        &&& self.cursor() == now
        &&& self.saved == before.saved
        &&& self.len == before.len
    }

    /// As `follows`, for an operation that has counted the characters.
    pub open spec fn follows_counted(self, before: Self, now: CursorView<char, E>) -> bool {
        &&& self.wf()
        &&& self.cursor() == now
        &&& self.saved == before.saved
        &&& self.len == Some(self.chars.len() as usize)
    }

    /// The byte offset just behind the character that `info` stands on;
    /// behind the first character where it has met none.
    pub open spec fn end_of(self, info: StrCursorInfo<E>) -> int {
        offset_of(self.chars, self.cursor().upto(info.pos + 1))
    }

    /// The bytes between the first byte of the character under the
    /// cursor and the byte that the checkpoint stands on, both included.
    pub open spec fn char_span(self) -> Seq<u8> {
        let a = self.info.char_start_pos;
        let b = self.saved.inner.pos;
        let lo = if a < b {
            a
        } else {
            b
        };
        let hi = if a < b {
            b
        } else {
            a
        };
        self.bytes.items.subrange(lo as int, self.bytes.upto(hi + 1))
    }
}

impl<E: Extras<char>> StrCursorView<E> {
    /// A well formed view is a well formed cursor when counted in
    /// characters.
    pub proof fn law_cursor_wf(self)
        requires
            self.wf(),
        ensures
            self.cursor().wf(),
    {
    }

    /// What a well formed view says of the bytes follows from what it
    /// says of the characters: two such views of one text that agree
    /// counted in characters agree on the character under the cursor,
    /// on where its bytes are and on where the cursor over the bytes
    /// stands.
    pub proof fn law_bytes_follow(self, other: Self)
        requires
            self.wf(),
            other.wf(),
            self.cursor() == other.cursor(),
        ensures
            self.chars == other.chars,
            self.bytes.items == other.bytes.items,
            self.info.pos == other.info.pos,
            self.info.current == other.info.current,
            self.info.char_start_pos == other.info.char_start_pos,
            self.info.decoded_width == other.info.decoded_width,
            self.info.extras == other.info.extras,
            self.info.noeffects == other.info.noeffects,
            self.info.inner.init == other.info.inner.init,
            self.info.inner.backwards == other.info.inner.backwards,
            self.info.inner.pos == other.info.inner.pos,
            self.bytes.info.pos == other.bytes.info.pos,
    {
    }

    /// Turning round twice gives back the state it began with, the
    /// place of the cursor over the bytes included.
    pub proof fn law_turnaround_twice(self, turned: Self, back: Self)
        requires
            self.wf(),
            turned.follows(self, self.cursor().with_backwards(!self.info.inner.backwards)),
            back.follows(turned, turned.cursor().with_backwards(!turned.info.inner.backwards)),
        ensures
            back.cursor() == self.cursor(),
            back.info.inner.pos == self.info.inner.pos,
            back.info.char_start_pos == self.info.char_start_pos,
            back.info.current == self.info.current,
            back.saved == self.saved,
            back.len == self.len,
    {
        assert(back.cursor() =~= self.cursor());
        back.law_bytes_follow(self);
    }
}

} // verus!
