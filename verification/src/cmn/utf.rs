use vstd::prelude::*;
use vstd::utf8::{
    codepoint_width_2, codepoint_width_3, codepoint_width_4, is_continuation_byte, is_scalar,
};
use crate::cmn::extras::NoneExtras;
use crate::cmn::model::CursorView;
use crate::traits::CursorTrait;

verus! {

/// `char::from_u32` gives the character with the scalar value `i`, and
/// `None` where `i` is no scalar value: a surrogate, or more than
/// 0x10FFFF.
pub assume_specification[ char::from_u32 ](i: u32) -> (r: Option<char>)
    ensures
        r == scalar_char(i),
;

/// The character with the scalar value `u`, where there is one.
pub open spec fn scalar_char(u: u32) -> Option<char> {
    if is_scalar(u) {
        Some(u as char)
    } else {
        None
    }
}

/// The byte at index `i`, and zero where there is none.
pub open spec fn byte_at(bytes: Seq<u8>, i: int) -> u8 {
    if 0 <= i < bytes.len() {
        bytes[i]
    } else {
        0
    }
}

/// How many bytes a code point takes whose first byte is `x`.
pub open spec fn lead_width(x: u8) -> int {
    if x < 0x80 {
        1
    } else if x < 0xE0 {
        2
    } else if x < 0xF0 {
        3
    } else {
        4
    }
}

/// The code point that the first byte `x` and the bytes after it hold.
/// Of the bytes after it only as many count as `x` asks for.
pub open spec fn forward_fold(x: u8, y: u8, z: u8, w: u8) -> u32 {
    if x < 0x80 {
        x as u32
    } else if x < 0xE0 {
        codepoint_width_2(x, y)
    } else if x < 0xF0 {
        codepoint_width_3(x, y, z)
    } else {
        codepoint_width_4(x, y, z, w)
    }
}

/// The code point that begins at index `p`. Bytes that the sequence
/// does not have count as zero.
pub open spec fn forward_codepoint(bytes: Seq<u8>, p: int) -> u32 {
    forward_fold(
        byte_at(bytes, p),
        byte_at(bytes, p + 1),
        byte_at(bytes, p + 2),
        byte_at(bytes, p + 3),
    )
}

/// The index of the last byte read for the code point that begins at
/// `p`.
pub open spec fn forward_end(bytes: Seq<u8>, p: int) -> int {
    let end = p + lead_width(byte_at(bytes, p)) - 1;
    if end < bytes.len() {
        end
    } else {
        bytes.len() - 1
    }
}

/// How many bytes before the last byte `w` belong to its code point,
/// given the three bytes before it, nearest first.
pub open spec fn back_reach(w: u8, z: u8, y: u8) -> int {
    if w < 0x80 {
        0
    } else if !is_continuation_byte(z) {
        1
    } else if !is_continuation_byte(y) {
        2
    } else {
        3
    }
}

/// The code point that ends with the byte `w`, given the three bytes
/// before it, nearest first.
pub open spec fn backward_fold(w: u8, z: u8, y: u8, x: u8) -> u32 {
    if w < 0x80 {
        w as u32
    } else if !is_continuation_byte(z) {
        codepoint_width_2(z, w)
    } else if !is_continuation_byte(y) {
        codepoint_width_3(y, z, w)
    } else {
        codepoint_width_4(x, y, z, w)
    }
}

/// The code point that ends at index `p`. Bytes that the sequence
/// does not have count as zero.
pub open spec fn backward_codepoint(bytes: Seq<u8>, p: int) -> u32 {
    backward_fold(
        byte_at(bytes, p),
        byte_at(bytes, p - 1),
        byte_at(bytes, p - 2),
        byte_at(bytes, p - 3),
    )
}

/// The index of the first byte read for the code point that ends at
/// `p`.
pub open spec fn backward_end(bytes: Seq<u8>, p: int) -> int {
    let end = p - back_reach(byte_at(bytes, p), byte_at(bytes, p - 1), byte_at(bytes, p - 2));
    if end < 0 {
        0
    } else {
        end
    }
}

/// The byte that the step after `k` steps meets, and zero where it
/// meets none.
pub open spec fn met(v: CursorView<u8, NoneExtras<u8>>, k: nat) -> u8 {
    match v.stepped(k).next_item() {
        Some(b) => b,
        None => 0,
    }
}

#[inline]
fn unchecked_utf8_to_char(u: u32) -> (r: Option<char>)
    ensures
        r == scalar_char(u),
{
    char::from_u32(u)
}

/// The low bits of `byte` that are left when `head_length` high bits
/// are taken off.
#[inline]
fn utf8_filter_body_side(byte: u8, head_length: u8) -> (r: u8)
    requires
        head_length < 8,
    ensures
        r == byte & (0xFFu8 >> head_length),
{
    byte & (u8::MAX >> head_length)
}

/// The payload of the first byte of a code point `width` bytes wide.
#[inline]
fn utf8_first_byte_body(byte: u8, width: u8) -> (r: u32)
    requires
        2 <= width <= 4,
    ensures
        width == 2 ==> r == (byte & 0x1F) as u32,
        width == 3 ==> r == (byte & 0x0F) as u32,
        width == 4 ==> r == (byte & 0x07) as u32,
{
    assert(0xFFu8 >> 3u8 == 0x1Fu8) by (bit_vector);
    assert(0xFFu8 >> 4u8 == 0x0Fu8) by (bit_vector);
    assert(0xFFu8 >> 5u8 == 0x07u8) by (bit_vector);
    utf8_filter_body_side(byte, width + 1) as u32
}

/// The six bits of payload of a continuation byte.
#[inline]
fn utf8_cont_byte_body(byte: u8) -> (r: u32)
    ensures
        r == (byte & 0x3F) as u32,
{
    assert(0xFFu8 >> 2u8 == 0x3Fu8) by (bit_vector);
    utf8_filter_body_side(byte, 2) as u32
}

#[inline]
fn unwrap_or_0(opt: Option<&u8>) -> (r: u8)
    ensures
        r == match opt {
            Some(b) => *b,
            None => 0,
        },
{
    match opt {
        Some(byte) => *byte,
        None => 0,
    }
}

/// `ch` with the payload of the continuation byte `byte` put after it.
#[inline]
fn utf8_acc_cont_byte(ch: u32, byte: u8) -> (r: u32)
    ensures
        r == (ch << 6) | (byte & 0x3F) as u32,
{
    (ch << 6) | (byte & 0b0011_1111) as u32
}

/// Whether `byte` is a continuation byte: one whose two highest bits
/// are `10`.
#[inline]
pub fn utf8_is_cont_byte(byte: u8) -> (r: bool)
    ensures
        r == is_continuation_byte(byte),
{
    0x80 <= byte && byte < 0xC0
}

/// How many bytes a code point takes whose first byte is `byte`.
#[inline]
pub(crate) fn utf8_width(byte: u8) -> (w: usize)
    ensures
        w == lead_width(byte),
{
    if byte < 0x80 {
        1
    } else if byte < 0xE0 {
        2
    } else if byte < 0xF0 {
        3
    } else {
        4
    }
}

/// Decodes the code point whose first byte is under the cursor. The
/// bytes after it are read with steps to the right, whichever way the
/// cursor travels, and the cursor is left on the last of them.
#[inline]
pub fn next_char<'a, C: CursorTrait<'a, u8>>(cursor: &mut C) -> (r: Option<char>)
    requires
        old(cursor)@.wf(),
        old(cursor)@.info.init,
    ensures
        final(cursor)@ == old(cursor)@.with_pos(
            forward_end(old(cursor)@.items, old(cursor)@.info.pos as int) as usize,
        ),
        final(cursor)@.wf(),
        r == scalar_char(forward_codepoint(old(cursor)@.items, old(cursor)@.info.pos as int)),
{
    let x = *cursor.current();
    if x < 128 {
        assert(cursor@ =~= old(cursor)@.with_pos(old(cursor)@.info.pos));
        return unchecked_utf8_to_char(x as u32);
    }
    let backwards = cursor.backwards();
    if backwards {
        cursor.turnaround();
    }
    let y = unwrap_or_0(cursor.next());
    let y_body = utf8_cont_byte_body(y);
    let mut ch: u32 = utf8_first_byte_body(x, 2) << 6 | y_body;
    if x >= 0xE0 {
        let z = unwrap_or_0(cursor.next());
        let z_body = utf8_cont_byte_body(z);
        ch = utf8_first_byte_body(x, 3) << 12 | y_body << 6 | z_body;
        if x >= 0xF0 {
            let w = unwrap_or_0(cursor.next());
            let w_body = utf8_cont_byte_body(w);
            ch = utf8_first_byte_body(x, 4) << 18 | y_body << 12 | z_body << 6 | w_body;
        }
    }
    if backwards {
        cursor.turnaround();
    }
    assert(cursor@ =~= old(cursor)@.with_pos(
        forward_end(old(cursor)@.items, old(cursor)@.info.pos as int) as usize,
    ));
    unchecked_utf8_to_char(ch)
}

/// Decodes the code point whose last byte is under the cursor. The
/// bytes before it are read with steps to the left, whichever way the
/// cursor travels, and the cursor is left on the first of them.
#[inline]
pub fn next_back_char<'a, C: CursorTrait<'a, u8>>(cursor: &mut C) -> (r: Option<char>)
    requires
        old(cursor)@.wf(),
        old(cursor)@.info.init,
    ensures
        final(cursor)@ == old(cursor)@.with_pos(
            backward_end(old(cursor)@.items, old(cursor)@.info.pos as int) as usize,
        ),
        final(cursor)@.wf(),
        r == scalar_char(backward_codepoint(old(cursor)@.items, old(cursor)@.info.pos as int)),
{
    let w = *cursor.current();
    if w < 128 {
        assert(cursor@ =~= old(cursor)@.with_pos(old(cursor)@.info.pos));
        return unchecked_utf8_to_char(w as u32);
    }
    let backwards = cursor.backwards();
    if !backwards {
        cursor.turnaround();
    }
    let mut ch: u32;
    let z = unwrap_or_0(cursor.next());
    ch = utf8_first_byte_body(z, 2);
    if utf8_is_cont_byte(z) {
        let y = unwrap_or_0(cursor.next());
        ch = utf8_first_byte_body(y, 3);
        if utf8_is_cont_byte(y) {
            let x = unwrap_or_0(cursor.next());
            ch = utf8_first_byte_body(x, 4);
            ch = utf8_acc_cont_byte(ch, y);
        }
        ch = utf8_acc_cont_byte(ch, z);
    }
    ch = utf8_acc_cont_byte(ch, w);
    if !backwards {
        cursor.turnaround();
    }
    proof {
        lemma_folds_agree(
            w,
            byte_at(old(cursor)@.items, old(cursor)@.info.pos - 1),
            byte_at(old(cursor)@.items, old(cursor)@.info.pos - 2),
            byte_at(old(cursor)@.items, old(cursor)@.info.pos - 3),
        );
        assert(cursor@ =~= old(cursor)@.with_pos(
            backward_end(old(cursor)@.items, old(cursor)@.info.pos as int) as usize,
        ));
    }
    unchecked_utf8_to_char(ch)
}

/// Putting the payloads together one byte after the other gives the
/// code point that the shifts of each payload into its place give.
proof fn lemma_folds_agree(w: u8, z: u8, y: u8, x: u8)
    ensures
        ((((z & 0x1F) as u32) << 6) | (w & 0x3F) as u32) == codepoint_width_2(z, w),
        ((((((y & 0x0F) as u32) << 6) | (z & 0x3F) as u32) << 6) | (w & 0x3F) as u32)
            == codepoint_width_3(y, z, w),
        ((((((((x & 0x07) as u32) << 6) | (y & 0x3F) as u32) << 6) | (z & 0x3F) as u32) << 6) | (w
            & 0x3F) as u32) == codepoint_width_4(x, y, z, w),
{
    let a = (x & 0x07) as u32;
    let b = (y & 0x3F) as u32;
    let c = (z & 0x3F) as u32;
    let d = (w & 0x3F) as u32;
    let e = (y & 0x0F) as u32;
    assert((((e << 6) | c) << 6) | d == (e << 12) | (c << 6) | d) by (bit_vector);
    assert((((((a << 6) | b) << 6) | c) << 6) | d == (a << 18) | (b << 12) | (c << 6) | d)
        by (bit_vector);
}

/// Takes one step and decodes the code point whose first byte that step
/// meets, reading the bytes after it with further steps. Gives the code
/// point and the number of steps taken or tried; no code point and no
/// steps where the first step meets nothing.
#[inline]
pub fn next_code_point<'a, C: CursorTrait<'a, u8>>(cursor: &mut C) -> (r: (Option<u32>, usize))
    requires
        old(cursor)@.wf(),
    ensures
        final(cursor)@.wf(),
        !old(cursor)@.can_step() ==> r == (None::<u32>, 0usize) && final(cursor)@ == old(cursor)@,
        old(cursor)@.can_step() ==> {
            let v = old(cursor)@;
            &&& r.1 == lead_width(met(v, 0))
            &&& r.0 == Some(forward_fold(met(v, 0), met(v, 1), met(v, 2), met(v, 3)))
            &&& final(cursor)@ == v.stepped(r.1 as nat)
        },
{
    proof {
        reveal_with_fuel(CursorView::stepped, 5);
    }
    let mut times: usize = 0;
    let x = match cursor.next() {
        Some(c) => {
            times = times + 1;
            *c
        },
        None => {
            return (None, times);
        },
    };
    if x < 128 {
        return (Some(x as u32), times);
    }
    let y = unwrap_or_0(cursor.next());
    times = times + 1;
    let y_body = utf8_cont_byte_body(y);
    let mut ch: u32 = utf8_first_byte_body(x, 2) << 6 | y_body;
    if x >= 0xE0 {
        let z = unwrap_or_0(cursor.next());
        times = times + 1;
        let z_body = utf8_cont_byte_body(z);
        ch = utf8_first_byte_body(x, 3) << 12 | y_body << 6 | z_body;
        if x >= 0xF0 {
            let w = unwrap_or_0(cursor.next());
            times = times + 1;
            let w_body = utf8_cont_byte_body(w);
            ch = utf8_first_byte_body(x, 4) << 18 | y_body << 12 | z_body << 6 | w_body;
        }
    }
    (Some(ch), times)
}

/// Takes one step and decodes the code point whose last byte that step
/// meets, reading the bytes before it with further steps for as long
/// as they are continuation bytes. Gives the code point and the number
/// of steps taken or tried; no code point and no steps where the first
/// step meets nothing.
#[inline]
pub fn next_code_point_reverse<'a, C: CursorTrait<'a, u8>>(cursor: &mut C) -> (r: (
    Option<u32>,
    usize,
))
    requires
        old(cursor)@.wf(),
    ensures
        final(cursor)@.wf(),
        !old(cursor)@.can_step() ==> r == (None::<u32>, 0usize) && final(cursor)@ == old(cursor)@,
        old(cursor)@.can_step() ==> {
            let v = old(cursor)@;
            &&& r.1 == 1 + back_reach(met(v, 0), met(v, 1), met(v, 2))
            &&& r.0 == Some(backward_fold(met(v, 0), met(v, 1), met(v, 2), met(v, 3)))
            &&& final(cursor)@ == v.stepped(r.1 as nat)
        },
{
    proof {
        reveal_with_fuel(CursorView::stepped, 5);
    }
    let mut times: usize = 0;
    let w = match cursor.next() {
        Some(c) => {
            times = times + 1;
            *c
        },
        None => {
            return (None, times);
        },
    };
    if w < 128 {
        return (Some(w as u32), times);
    }
    let mut ch: u32;
    let z = unwrap_or_0(cursor.next());
    times = times + 1;
    ch = utf8_first_byte_body(z, 2);
    if utf8_is_cont_byte(z) {
        let y = unwrap_or_0(cursor.next());
        times = times + 1;
        ch = utf8_first_byte_body(y, 3);
        if utf8_is_cont_byte(y) {
            let x = unwrap_or_0(cursor.next());
            times = times + 1;
            ch = utf8_first_byte_body(x, 4);
            ch = utf8_acc_cont_byte(ch, y);
        }
        ch = utf8_acc_cont_byte(ch, z);
    }
    ch = utf8_acc_cont_byte(ch, w);
    proof {
        let v = old(cursor)@;
        lemma_folds_agree(met(v, 0), met(v, 1), met(v, 2), met(v, 3));
    }
    (Some(ch), times)
}

/// Steps to the right of a cursor over bytes that keeps no
/// accumulator: after `k` of them it stands `k` bytes on, or on the
/// last byte, and the next one meets the byte after that.
pub proof fn lemma_steps_right(v: CursorView<u8, NoneExtras<u8>>, k: nat)
    requires
        v.wf(),
        v.info.init,
        !v.info.backwards,
    ensures
        v.stepped(k) == v.with_pos(
            if v.info.pos + k < v.items.len() {
                (v.info.pos + k) as usize
            } else {
                (v.items.len() - 1) as usize
            },
        ),
        met(v, k) == byte_at(v.items, v.info.pos + k + 1),
    decreases k,
{
    if k == 0 {
        assert(v.stepped(0) =~= v.with_pos(v.info.pos));
    } else {
        lemma_steps_right(v, (k - 1) as nat);
        let before = v.stepped((k - 1) as nat);
        assert(before.after_next() =~= v.with_pos(
            if v.info.pos + k < v.items.len() {
                (v.info.pos + k) as usize
            } else {
                (v.items.len() - 1) as usize
            },
        ));
    }
}

/// Steps to the left of a cursor over bytes that keeps no accumulator:
/// after `k` of them it stands `k` bytes back, or on the first byte,
/// and the next one meets the byte before that.
pub proof fn lemma_steps_left(v: CursorView<u8, NoneExtras<u8>>, k: nat)
    requires
        v.wf(),
        v.info.init,
        v.info.backwards,
    ensures
        v.stepped(k) == v.with_pos(
            if v.info.pos - k >= 0 {
                (v.info.pos - k) as usize
            } else {
                0
            },
        ),
        met(v, k) == byte_at(v.items, v.info.pos - k - 1),
    decreases k,
{
    if k == 0 {
        assert(v.stepped(0) =~= v.with_pos(v.info.pos));
    } else {
        lemma_steps_left(v, (k - 1) as nat);
        let before = v.stepped((k - 1) as nat);
        assert(before.after_next() =~= v.with_pos(
            if v.info.pos - k >= 0 {
                (v.info.pos - k) as usize
            } else {
                0
            },
        ));
    }
}

/// The first steps of a cursor over bytes that has met none and
/// travels to the right meet the bytes from the start on.
pub proof fn lemma_steps_from_start(v: CursorView<u8, NoneExtras<u8>>, k: nat)
    requires
        v.wf(),
        !v.info.init,
        !v.info.backwards,
    ensures
        met(v, k) == byte_at(v.items, k as int),
{
    if v.items.len() == 0 {
        v.lemma_stuck(0, k);
    } else if k > 0 {
        let placed = v.stepped(1);
        reveal_with_fuel(CursorView::stepped, 2);
        assert(placed =~= v.moved(0));
        v.law_steps_add(1, (k - 1) as nat);
        lemma_steps_right(placed, (k - 1) as nat);
    }
}

} // verus!
