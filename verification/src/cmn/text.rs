use vstd::prelude::*;
use vstd::utf8::{
    char_is_scalar, char_u32_cast, decode_first_scalar, encode_scalar, encode_utf8,
    encode_utf8_decode_utf8, encode_utf8_first_scalar, encode_utf8_valid_utf8, is_char_boundary,
    is_continuation_byte, length_of_first_scalar, pop_first_scalar, valid_first_scalar,
};
use crate::cmn::extras::NoneExtras;
use crate::cmn::model::CursorView;
use crate::cmn::utf::{
    back_reach, backward_codepoint, backward_end, backward_fold, forward_codepoint, forward_end,
    forward_fold, lead_width, lemma_steps_from_start, lemma_steps_left, lemma_steps_right, met,
    scalar_char,
};

verus! {

/// How many bytes the character `c` takes in UTF-8.
pub open spec fn width_of(c: char) -> int {
    encode_scalar(c as u32).len() as int
}

/// The index of the byte with which the character at index `k` begins
/// in the UTF-8 form of `chars`; for `k` the number of characters, the
/// number of bytes.
pub open spec fn offset_of(chars: Seq<char>, k: int) -> int {
    encode_utf8(chars.subrange(0, k)).len() as int
}

/// The UTF-8 form of two texts put together is their UTF-8 forms put
/// together.
pub proof fn lemma_encode_concat(a: Seq<char>, b: Seq<char>)
    ensures
        encode_utf8(a + b) == encode_utf8(a) + encode_utf8(b),
    decreases a.len(),
{
    if a.len() == 0 {
        assert(a + b =~= b);
        assert(encode_utf8(a) + encode_utf8(b) =~= encode_utf8(b));
    } else {
        lemma_encode_concat(a.drop_first(), b);
        assert((a + b).drop_first() =~= a.drop_first() + b);
        assert(encode_utf8(a + b) =~= encode_utf8(a) + encode_utf8(b));
    }
}

/// Every character takes from one to four bytes.
pub proof fn lemma_width_bounds(c: char)
    ensures
        1 <= width_of(c) <= 4,
{
}

/// The UTF-8 form of one character.
pub proof fn lemma_encode_one(c: char)
    ensures
        encode_utf8(seq![c]) == encode_scalar(c as u32),
{
    reveal_with_fuel(encode_utf8, 2);
    assert(seq![c].drop_first() =~= Seq::<char>::empty());
    assert(encode_utf8(seq![c]) =~= encode_scalar(c as u32));
}

/// The bytes before the offset of index `k` are the UTF-8 form of the
/// characters before `k`, and the bytes from it on that of the others.
pub proof fn lemma_offsets(chars: Seq<char>, k: int)
    requires
        0 <= k <= chars.len(),
    ensures
        0 <= offset_of(chars, k) <= encode_utf8(chars).len(),
        encode_utf8(chars).subrange(0, offset_of(chars, k)) == encode_utf8(chars.subrange(0, k)),
        encode_utf8(chars).subrange(offset_of(chars, k), encode_utf8(chars).len() as int)
            == encode_utf8(chars.subrange(k, chars.len() as int)),
        offset_of(chars, 0) == 0,
        offset_of(chars, chars.len() as int) == encode_utf8(chars).len(),
{
    let a = chars.subrange(0, k);
    let b = chars.subrange(k, chars.len() as int);
    assert(a + b =~= chars);
    lemma_encode_concat(a, b);
    let bytes = encode_utf8(chars);
    assert(bytes.subrange(0, offset_of(chars, k)) =~= encode_utf8(a));
    assert(bytes.subrange(offset_of(chars, k), bytes.len() as int) =~= encode_utf8(b));
    assert(chars.subrange(0, 0) =~= Seq::<char>::empty());
    assert(chars.subrange(0, chars.len() as int) =~= chars);
}

/// The offset of the next index is the offset of this one and the width
/// of the character here.
pub proof fn lemma_offset_step(chars: Seq<char>, k: int)
    requires
        0 <= k < chars.len(),
    ensures
        offset_of(chars, k + 1) == offset_of(chars, k) + width_of(chars[k]),
        offset_of(chars, k + 1) <= encode_utf8(chars).len(),
        0 <= offset_of(chars, k),
{
    let a = chars.subrange(0, k);
    assert(chars.subrange(0, k + 1) =~= a + seq![chars[k]]);
    lemma_encode_concat(a, seq![chars[k]]);
    lemma_encode_one(chars[k]);
    lemma_offsets(chars, k + 1);
}

/// Offsets rise with the index.
pub proof fn lemma_offset_rises(chars: Seq<char>, j: int, k: int)
    requires
        0 <= j <= k <= chars.len(),
    ensures
        offset_of(chars, j) + (k - j) <= offset_of(chars, k),
    decreases k - j,
{
    if j < k {
        lemma_offset_rises(chars, j, k - 1);
        lemma_offset_step(chars, k - 1);
    }
}

/// There are at least as many bytes as characters, and none only where
/// there is no character.
pub proof fn lemma_lengths(chars: Seq<char>)
    ensures
        chars.len() <= encode_utf8(chars).len(),
        chars.len() == 0 <==> encode_utf8(chars).len() == 0,
{
    lemma_offsets(chars, 0);
    lemma_offset_rises(chars, 0, chars.len() as int);
}

/// Offsets are the same only for the same index.
pub proof fn lemma_offset_strict(chars: Seq<char>, j: int, k: int)
    requires
        0 <= j < k <= chars.len(),
    ensures
        offset_of(chars, j) < offset_of(chars, k),
{
    lemma_offset_rises(chars, j, k);
}

/// What the bytes of the character at index `k` look like: the first
/// is no continuation byte and says how many there are, the others are
/// continuation bytes, and read from either end they give the
/// character back.
pub proof fn lemma_char_at(chars: Seq<char>, k: int)
    requires
        0 <= k < chars.len(),
    ensures
        ({
            let bytes = encode_utf8(chars);
            let start = offset_of(chars, k);
            let width = width_of(chars[k]);
            &&& 0 <= start
            &&& start + width <= bytes.len()
            &&& 1 <= width <= 4
            &&& lead_width(bytes[start]) == width
            &&& !is_continuation_byte(bytes[start])
            &&& forall|t: int| 1 <= t < width ==> is_continuation_byte(#[trigger] bytes[start + t])
            &&& forward_end(bytes, start) == start + width - 1
            &&& backward_end(bytes, start + width - 1) == start
            &&& scalar_char(forward_codepoint(bytes, start)) == Some(chars[k])
            &&& scalar_char(backward_codepoint(bytes, start + width - 1)) == Some(chars[k])
        }),
{
    let bytes = encode_utf8(chars);
    let start = offset_of(chars, k);
    let width = width_of(chars[k]);
    let rest = chars.subrange(k, chars.len() as int);
    let tail = encode_utf8(rest);
    lemma_offsets(chars, k);
    lemma_offset_step(chars, k);
    encode_utf8_first_scalar(rest);
    char_is_scalar(chars[k]);
    char_u32_cast(chars[k], chars[k] as u32);
    assert(rest[0] == chars[k]);
    assert(tail == bytes.subrange(start, bytes.len() as int));
    assert(forall|t: int| 0 <= t < tail.len() ==> tail[t] == bytes[start + t]);
    assert(valid_first_scalar(tail));
    assert(length_of_first_scalar(tail) == width);
    assert(decode_first_scalar(tail) == chars[k] as u32);
    let x = bytes[start];
    assert(x == tail[0]);
    assert(x < 0x80 ==> (x & 0x7F) as u32 == x as u32) by (bit_vector);
    if width >= 2 {
        assert(bytes[start + 1] == tail[1]);
    }
    if width >= 3 {
        assert(bytes[start + 2] == tail[2]);
    }
    if width >= 4 {
        assert(bytes[start + 3] == tail[3]);
    }
    assert forall|t: int| 1 <= t < width implies is_continuation_byte(
        #[trigger] bytes[start + t],
    ) by {
        assert(bytes[start + t] == tail[t]);
    }
}

/// The offset of every index is a character boundary.
pub proof fn lemma_boundary(chars: Seq<char>, k: int)
    requires
        0 <= k <= chars.len(),
    ensures
        is_char_boundary(encode_utf8(chars), offset_of(chars, k)),
    decreases k,
{
    let bytes = encode_utf8(chars);
    encode_utf8_valid_utf8(chars);
    if k == 0 {
        lemma_offsets(chars, 0);
    } else {
        let rest = chars.drop_first();
        encode_utf8_first_scalar(chars);
        assert(pop_first_scalar(bytes) =~= encode_utf8(rest));
        lemma_boundary(rest, k - 1);
        assert(chars.subrange(0, k).drop_first() =~= rest.subrange(0, k - 1));
        lemma_offsets(chars, k);
        assert(offset_of(chars, k) == length_of_first_scalar(bytes) + offset_of(rest, k - 1));
    }
}

/// Two texts with the same UTF-8 form are the same text.
pub proof fn lemma_same_text(a: Seq<char>, b: Seq<char>)
    requires
        encode_utf8(a) == encode_utf8(b),
    ensures
        a == b,
{
    encode_utf8_decode_utf8(a);
    encode_utf8_decode_utf8(b);
}

/// The part of `text` between two character boundaries, given by
/// their byte offsets.
pub(crate) fn str_between<'s>(
    text: &'s str,
    from: usize,
    to: usize,
    Ghost(lo): Ghost<int>,
    Ghost(hi): Ghost<int>,
) -> (part: &'s str)
    requires
        0 <= lo <= hi <= text@.len(),
        from == offset_of(text@, lo),
        to == offset_of(text@, hi),
    ensures
        part@ == text@.subrange(lo, hi),
{
    proof {
        lemma_boundary(text@, hi);
        lemma_offsets(text@, hi);
    }
    let head = text.split_at(to).0;
    proof {
        let upto = text@.subrange(0, hi);
        lemma_same_text(head@, upto);
        assert(upto.subrange(0, lo) =~= text@.subrange(0, lo));
        lemma_boundary(upto, lo);
        lemma_offsets(upto, lo);
        assert(upto.subrange(lo, upto.len() as int) =~= text@.subrange(lo, hi));
    }
    let part = head.split_at(from).1;
    proof {
        lemma_same_text(part@, text@.subrange(lo, hi));
    }
    part
}

/// The character with the scalar value `u`; where there is none, the
/// character zero.
pub open spec fn char_of(u: u32) -> char {
    match scalar_char(u) {
        Some(c) => c,
        None => '\0',
    }
}

/// The characters that decoding forward gives, from the byte at `p` to
/// the end.
pub open spec fn forward_text(bytes: Seq<u8>, p: int) -> Seq<char>
    decreases bytes.len() - p,
{
    if p < 0 || p >= bytes.len() {
        Seq::empty()
    } else {
        let width = lead_width(bytes[p]);
        let rest = if width >= 1 && p + width <= bytes.len() {
            forward_text(bytes, p + width)
        } else {
            Seq::empty()
        };
        Seq::empty().push(char_of(forward_codepoint(bytes, p))) + rest
    }
}

/// The characters that decoding backward gives, from the byte before
/// `e` to the start: the last character first.
pub open spec fn backward_text(bytes: Seq<u8>, e: int) -> Seq<char>
    decreases e,
{
    if e <= 0 || e > bytes.len() {
        Seq::empty()
    } else {
        let start = backward_end(bytes, e - 1);
        let rest = if 0 <= start < e {
            backward_text(bytes, start)
        } else {
            Seq::empty()
        };
        Seq::empty().push(char_of(backward_codepoint(bytes, e - 1))) + rest
    }
}

/// Decoding forward from where the character at index `k` begins gives
/// the characters from `k` on.
pub proof fn lemma_forward_from(chars: Seq<char>, k: int)
    requires
        0 <= k <= chars.len(),
    ensures
        forward_text(encode_utf8(chars), offset_of(chars, k)) == chars.subrange(
            k,
            chars.len() as int,
        ),
    decreases chars.len() - k,
{
    let bytes = encode_utf8(chars);
    lemma_offsets(chars, k);
    lemma_offsets(chars, chars.len() as int);
    if k == chars.len() {
        assert(forward_text(bytes, offset_of(chars, k)) =~= chars.subrange(k, chars.len() as int));
    } else {
        lemma_char_at(chars, k);
        lemma_offset_step(chars, k);
        lemma_forward_from(chars, k + 1);
        assert(forward_text(bytes, offset_of(chars, k)) =~= chars.subrange(k, chars.len() as int));
    }
}

/// Decoding backward from where the character at index `k` begins
/// gives the characters before `k`, the nearest first.
pub proof fn lemma_backward_from(chars: Seq<char>, k: int)
    requires
        0 <= k <= chars.len(),
    ensures
        backward_text(encode_utf8(chars), offset_of(chars, k)) == chars.subrange(0, k).reverse(),
    decreases k,
{
    let bytes = encode_utf8(chars);
    lemma_offsets(chars, k);
    if k == 0 {
        assert(backward_text(bytes, offset_of(chars, k)) =~= chars.subrange(0, k).reverse());
    } else {
        lemma_char_at(chars, k - 1);
        lemma_offset_step(chars, k - 1);
        lemma_backward_from(chars, k - 1);
        let shorter = chars.subrange(0, k - 1).reverse();
        assert(shorter.len() == k - 1);
        assert(forall|i: int| 0 <= i < k - 1 ==> shorter[i] == chars[k - 2 - i]);
        assert(backward_text(bytes, offset_of(chars, k)) =~= chars.subrange(0, k).reverse());
    }
}

/// For every text: decoding its UTF-8 form forward from the start gives
/// its characters, decoding it backward from the end gives them in
/// reverse, and so the one is the reverse of the other.
pub proof fn law_decode_both_ways(chars: Seq<char>)
    ensures
        forward_text(encode_utf8(chars), 0) == chars,
        backward_text(encode_utf8(chars), encode_utf8(chars).len() as int) == chars.reverse(),
        forward_text(encode_utf8(chars), 0) == backward_text(
            encode_utf8(chars),
            encode_utf8(chars).len() as int,
        ).reverse(),
{
    lemma_offsets(chars, 0);
    lemma_offsets(chars, chars.len() as int);
    lemma_forward_from(chars, 0);
    lemma_backward_from(chars, chars.len() as int);
    assert(chars.subrange(0, chars.len() as int) =~= chars);
    assert(chars.reverse().reverse() =~= chars);
}

/// A cursor over the bytes of a text that travels to the right and
/// stands just before the character at index `k` meets, with its next
/// steps, the bytes of that character: put together they are the
/// character, and the first of them says how many they are.
pub proof fn law_steps_decode_forward(chars: Seq<char>, k: int, v: CursorView<u8, NoneExtras<u8>>)
    requires
        0 <= k < chars.len(),
        v.wf(),
        v.items == encode_utf8(chars),
        !v.info.backwards,
        if v.info.init {
            v.info.pos + 1 == offset_of(chars, k)
        } else {
            k == 0
        },
    ensures
        v.can_step(),
        lead_width(met(v, 0)) == width_of(chars[k]),
        scalar_char(forward_fold(met(v, 0), met(v, 1), met(v, 2), met(v, 3))) == Some(chars[k]),
{
    lemma_char_at(chars, k);
    lemma_offsets(chars, 0);
    if v.info.init {
        lemma_steps_right(v, 0);
        lemma_steps_right(v, 1);
        lemma_steps_right(v, 2);
        lemma_steps_right(v, 3);
    } else {
        lemma_steps_from_start(v, 0);
        lemma_steps_from_start(v, 1);
        lemma_steps_from_start(v, 2);
        lemma_steps_from_start(v, 3);
    }
}

/// A cursor over the bytes of a text that travels to the left and
/// stands just behind the character at index `k` meets, with its next
/// steps, the bytes of that character, the last first: put together
/// they are the character.
pub proof fn law_steps_decode_backward(
    chars: Seq<char>,
    k: int,
    v: CursorView<u8, NoneExtras<u8>>,
)
    requires
        0 <= k < chars.len(),
        v.wf(),
        v.items == encode_utf8(chars),
        v.info.init,
        v.info.backwards,
        v.info.pos == offset_of(chars, k + 1),
    ensures
        v.can_step(),
        1 + back_reach(met(v, 0), met(v, 1), met(v, 2)) == width_of(chars[k]),
        scalar_char(backward_fold(met(v, 0), met(v, 1), met(v, 2), met(v, 3))) == Some(chars[k]),
{
    lemma_char_at(chars, k);
    lemma_offset_step(chars, k);
    lemma_steps_left(v, 0);
    lemma_steps_left(v, 1);
    lemma_steps_left(v, 2);
    lemma_steps_left(v, 3);
}

} // verus!
