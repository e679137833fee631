use cursor::{
    next_back_char, next_char, next_code_point, next_code_point_reverse, utf8_is_cont_byte, Cursor,
    CursorTrait, Extras, StrCursor, StrCursorInfo, StrCursorTrait, ToCursor, ToExtras, EOF_CHAR,
};

const MIXED: &str = "a\u{e9}\u{20ac}\u{1f600}z";

/// Keeps every character it is shown, with the position.
#[derive(Debug, Default, PartialEq)]
struct Seen(Vec<(char, usize)>);

impl Extras<char> for Seen {
    fn new() -> Self {
        Seen::default()
    }
    fn clone(&self) -> Self {
        Seen(self.0.clone())
    }
    fn reset(&mut self) {
        self.0.clear();
    }
    fn change(&mut self, input: &char, pos: usize) {
        self.0.push((*input, pos));
    }
}

fn is_euro(c: char) -> bool {
    c == '\u{20ac}'
}

fn is_small(c: char) -> bool {
    (c as u32) < 0x100
}

#[test]
fn str_empty_string_gives_nothing() {
    let mut cursor = StrCursor::new("");
    assert!(cursor.is_empty());
    assert_eq!(cursor.len_as_bytes(), 0);
    assert!(!cursor.is_len());
    assert_eq!(cursor.next(), None);
    assert_eq!(cursor.jump(0), None);
    assert_eq!(cursor.jump_to_offset(0), None);
    assert_eq!(cursor.jump_to_offset(1), None);
    assert_eq!(cursor.len(), 0);
    assert!(cursor.is_len());
    assert_eq!(cursor.range(), 0..0);
    assert_eq!(cursor.as_str(), "");
    assert_eq!(cursor.as_str_loaded(), "");
    assert_eq!(cursor.as_preserved_str(), "");
    assert_eq!(cursor.as_remaining_str(), "");
    assert!(!cursor.is_init());
    cursor.shift_last();
    cursor.shift_first();
    assert!(!cursor.is_init());
}

#[test]
fn both_ways_give_the_same_characters() {
    for text in [MIXED, "", "x", "\u{10ffff}\u{0}\u{7f}\u{80}\u{7ff}\u{800}\u{ffff}\u{10000}", "한글테스트^^"] {
        let chars = text.chars().collect::<Vec<char>>();
        let mut forward = Vec::new();
        let mut cursor = StrCursor::new(text);
        while let Some(ch) = cursor.next() {
            forward.push(ch);
        }
        assert_eq!(forward, chars);

        let mut backward = Vec::new();
        cursor.turnaround();
        if cursor.is_init() {
            backward.push(cursor.current());
        }
        while let Some(ch) = cursor.next() {
            backward.push(ch);
        }
        backward.reverse();
        assert_eq!(backward, chars);
    }
}

#[test]
fn positions_count_characters_and_bytes() {
    let mut cursor = StrCursor::new(MIXED);
    assert_eq!(cursor.current_byte(), b'a');
    assert_eq!(cursor.next(), Some('a'));
    assert_eq!((cursor.pos(), cursor.char_start_pos(), cursor.pos_as_bytes(), cursor.decoded_width()), (0, 0, 0, 1));
    assert_eq!(cursor.next(), Some('\u{e9}'));
    assert_eq!((cursor.pos(), cursor.char_start_pos(), cursor.pos_as_bytes(), cursor.decoded_width()), (1, 1, 2, 2));
    assert_eq!(cursor.next(), Some('\u{20ac}'));
    assert_eq!((cursor.pos(), cursor.char_start_pos(), cursor.pos_as_bytes(), cursor.decoded_width()), (2, 3, 5, 3));
    assert_eq!(cursor.next(), Some('\u{1f600}'));
    assert_eq!((cursor.pos(), cursor.char_start_pos(), cursor.pos_as_bytes(), cursor.decoded_width()), (3, 6, 9, 4));
    assert_eq!(cursor.current_byte(), 0x80);
    cursor.turnaround();
    assert_eq!((cursor.pos(), cursor.char_start_pos(), cursor.pos_as_bytes()), (3, 6, 6));
    assert_eq!(cursor.current_byte(), 0xf0);
    assert_eq!(cursor.next(), Some('\u{20ac}'));
    assert_eq!((cursor.pos(), cursor.char_start_pos(), cursor.pos_as_bytes(), cursor.decoded_width()), (2, 3, 3, 3));
    assert_eq!(cursor.len_as_bytes(), 11);
    assert_eq!(cursor.raw_len(), 11);
    assert_eq!(cursor.raw_range(), 0..11);
    assert_eq!(cursor.item_size(), 4);
    assert_eq!(cursor.as_bytes(), MIXED.as_bytes());
}

#[test]
fn turning_twice_inside_a_wide_character_changes_nothing() {
    let mut cursor = StrCursor::new(MIXED);
    cursor.jump(3);
    let before = (cursor.pos(), cursor.char_start_pos(), cursor.pos_as_bytes(), cursor.backwards());
    cursor.turnaround();
    cursor.turnaround();
    assert_eq!((cursor.pos(), cursor.char_start_pos(), cursor.pos_as_bytes(), cursor.backwards()), before);
    assert_eq!(cursor.next(), Some('z'));
    cursor.turnaround();
    assert_eq!(cursor.next(), Some('\u{1f600}'));
    assert_eq!(cursor.next(), Some('\u{20ac}'));
    cursor.turnaround();
    cursor.turnaround();
    assert_eq!(cursor.next(), Some('\u{e9}'));
    cursor.set_backwards(false);
    assert_eq!(cursor.next(), Some('\u{20ac}'));
    cursor.set_backwards(false);
    assert_eq!(cursor.next(), Some('\u{1f600}'));
}

#[test]
fn jump_reads_every_character() {
    let chars = MIXED.chars().collect::<Vec<char>>();
    for from in 0..chars.len() {
        for to in 0..chars.len() {
            for backwards in [false, true] {
                let mut cursor = StrCursor::new(MIXED);
                cursor.jump(from);
                cursor.set_backwards(backwards);
                assert_eq!(cursor.jump(to), Some(chars[to]));
                assert_eq!(cursor.current(), chars[to]);
                assert_eq!(cursor.pos(), to);
                assert_eq!(cursor.backwards(), backwards);
                let ahead = cursor.next();
                if backwards {
                    assert_eq!(ahead, if to > 0 { Some(chars[to - 1]) } else { None });
                } else {
                    assert_eq!(ahead, chars.get(to + 1).copied());
                }
            }
        }
    }
}

#[test]
fn jump_on_a_fresh_cursor_places_it() {
    let mut cursor = StrCursor::new_with_extras::<Seen>("\u{20ac}\u{e9}a");
    assert_eq!(cursor.jump(0), Some('\u{20ac}'));
    assert!(cursor.is_init());
    assert_eq!(cursor.to_extras(), Seen(vec![]));
    assert_eq!(cursor.next(), Some('\u{e9}'));
    assert_eq!(cursor.to_extras(), Seen(vec![('\u{e9}', 1)]));
    assert_eq!(cursor.jump_to_first(), '\u{20ac}');
    assert_eq!(cursor.jump_to_last(), 'a');
    assert_eq!(cursor.pos(), 2);
}

#[test]
fn str_jump_past_the_end_changes_nothing() {
    let mut cursor = StrCursor::new_with_extras::<Seen>(MIXED);
    cursor.jump(2);
    assert_eq!(cursor.jump(5), None);
    assert_eq!(cursor.jump(usize::MAX), None);
    assert_eq!(cursor.jump_to_offset(3), None);
    assert_eq!(cursor.jump_to_offset(-3), None);
    assert_eq!(cursor.jump_to_offset(isize::MAX), None);
    assert_eq!(cursor.jump_to_offset(isize::MIN), None);
    assert_eq!(cursor.jump_to_added(usize::MAX), None);
    assert_eq!(cursor.jump_to_subed(usize::MAX), None);
    assert_eq!(cursor.pos(), 2);
    assert_eq!(cursor.current(), '\u{20ac}');
    assert_eq!(cursor.to_extras(), Seen(vec![('\u{20ac}', 2)]));
    assert_eq!(cursor.next(), Some('\u{1f600}'));
}

#[test]
fn offsets_step_and_jump() {
    let mut cursor = StrCursor::new(MIXED);
    assert_eq!(cursor.try_current(), None);
    assert_eq!(cursor.jump_to_offset(1), Some('a'));
    assert_eq!(cursor.try_current(), Some('a'));
    assert_eq!(cursor.jump_to_offset(0), Some('a'));
    assert_eq!(cursor.jump_to_offset(3), Some('\u{1f600}'));
    assert_eq!(cursor.jump_to_offset(-1), Some('\u{20ac}'));
    assert!(!cursor.backwards());
    assert_eq!(cursor.jump_to_offset(-2), Some('a'));
    assert_eq!(cursor.jump_to_offset(-1), None);
    let mut fresh = StrCursor::new(MIXED);
    fresh.turnaround();
    assert_eq!(fresh.jump_to_offset(-1), Some('a'));
    assert!(fresh.backwards());
}

#[test]
fn len_counts_once() {
    let mut cursor = StrCursor::new(MIXED);
    assert!(!cursor.is_len());
    cursor.jump(2);
    assert_eq!(cursor.len(), 5);
    assert!(cursor.is_len());
    assert_eq!(cursor.len(), 5);
    assert_eq!(cursor.pos(), 2);
    cursor.turnaround();
    assert_eq!(cursor.len(), 5);
    assert_eq!(cursor.range(), 0..5);
    cursor.reset();
    assert!(!cursor.is_len());
    cursor.turnaround();
    cursor.jump(4);
    assert_eq!(cursor.len(), 5);
    let mut last = StrCursor::new("\u{1f600}");
    assert_eq!(last.len(), 1);
}

#[test]
fn counted_cursor_refuses_walks_past_the_end() {
    let mut cursor = StrCursor::new(MIXED);
    cursor.jump(1);
    assert_eq!(cursor.next_to_pos(9), None);
    assert_eq!(cursor.pos(), 4);
    cursor.jump(1);
    cursor.len();
    assert_eq!(cursor.next_to_pos(9), None);
    assert_eq!(cursor.pos(), 1);
    assert_eq!(cursor.next_to_offset(4), None);
    assert_eq!(cursor.next_to_offset(-2), None);
    assert_eq!(cursor.next_to_offset(isize::MIN), None);
    assert_eq!(cursor.pos(), 1);
    assert_eq!(cursor.next_to_offset(3), Some('z'));
    assert_eq!(cursor.next_to_pos(2), Some('\u{20ac}'));
}

#[test]
fn str_save_then_load_changes_nothing() {
    let mut cursor = StrCursor::new_with_extras::<Seen>(MIXED);
    cursor.jump(3);
    cursor.turnaround();
    cursor.save();
    cursor.load();
    assert_eq!(cursor.pos(), 3);
    assert_eq!(cursor.current(), '\u{1f600}');
    assert!(cursor.backwards());
    assert_eq!(cursor.char_start_pos(), 6);
    assert_eq!(cursor.pos_as_bytes(), 6);
    assert_eq!(cursor.to_extras(), Seen(vec![('\u{1f600}', 3)]));
    assert_eq!(cursor.next(), Some('\u{20ac}'));
}

#[test]
fn str_load_takes_the_state_back() {
    let mut cursor = StrCursor::new_with_extras::<Seen>(MIXED);
    cursor.jump(1);
    cursor.save();
    assert_eq!(cursor.saved_pos(), 1);
    assert_eq!(cursor.saved().current, '\u{e9}');
    assert_eq!(cursor.saved().char_start_pos, 1);
    assert_eq!(cursor.saved().inner.pos, 2);
    cursor.turnaround();
    cursor.jump(4);
    cursor.load();
    assert_eq!(cursor.pos(), 1);
    assert_eq!(cursor.current(), '\u{e9}');
    assert!(!cursor.backwards());
    assert_eq!(cursor.to_extras(), Seen(vec![('\u{e9}', 1)]));
    assert_eq!(cursor.next(), Some('\u{20ac}'));
    assert_eq!(cursor.jump_to_load(), '\u{e9}');
    cursor.jump(4);
    assert_eq!(cursor.next_to_load(), '\u{e9}');
    let range = cursor.to_range_extras();
    assert_eq!(range.start, Seen(vec![('\u{e9}', 1)]));
}

#[test]
fn str_reset_keeps_the_checkpoint() {
    let mut cursor = StrCursor::new_with_extras::<Seen>(MIXED);
    cursor.jump(2);
    cursor.save();
    cursor.reset();
    assert!(!cursor.is_init());
    assert_eq!(cursor.pos(), 0);
    assert_eq!(cursor.pos_as_bytes(), 0);
    assert_eq!(cursor.to_extras(), Seen(vec![]));
    assert_eq!(cursor.saved().pos, 2);
    assert_eq!(cursor.next(), Some('a'));
    cursor.load();
    assert_eq!(cursor.current(), '\u{20ac}');
    assert_eq!(cursor.next(), Some('\u{1f600}'));
}

#[test]
fn strings_on_either_side() {
    let mut cursor = StrCursor::new(MIXED);
    assert_eq!(cursor.as_preserved_str(), "");
    assert_eq!(cursor.as_remaining_str(), "\u{e9}\u{20ac}\u{1f600}z");
    assert_eq!(cursor.as_str_loaded(), "a");
    cursor.jump(2);
    assert_eq!(cursor.as_str(), MIXED);
    assert_eq!(cursor.as_left_side_str(), "a\u{e9}");
    assert_eq!(cursor.as_right_side_str(), "\u{1f600}z");
    assert_eq!(cursor.as_str_loaded(), "a\u{e9}\u{20ac}");
    cursor.turnaround();
    assert_eq!(cursor.as_preserved_str(), "\u{1f600}z");
    assert_eq!(cursor.as_remaining_str(), "a\u{e9}");
    assert_eq!(cursor.as_str_loaded(), "a\u{e9}\u{20ac}");
    cursor.save();
    assert_eq!(cursor.as_str_loaded(), "\u{20ac}");
    assert_eq!(cursor.load_str(), "\u{20ac}");
    cursor.jump(4);
    assert_eq!(cursor.as_str_loaded(), "\u{20ac}\u{1f600}z");
    assert_eq!(cursor.as_right_side_str(), "");
    cursor.jump(0);
    assert_eq!(cursor.as_str_loaded(), "a\u{e9}\u{20ac}");
    assert_eq!(cursor.as_left_side_str(), "");
}

#[test]
fn bytes_on_either_side() {
    let bytes = MIXED.as_bytes();
    let mut cursor = StrCursor::new(MIXED);
    cursor.jump(2);
    assert_eq!(cursor.pos_as_bytes(), 5);
    assert_eq!(cursor.as_left_side_bytes(), &bytes[..5]);
    assert_eq!(cursor.as_right_side_bytes(), &bytes[6..]);
    assert_eq!(cursor.as_left_side_bytes_include_current(), &bytes[..6]);
    assert_eq!(cursor.as_right_side_bytes_include_current(), &bytes[5..]);
    assert_eq!(cursor.as_preserved_bytes(), &bytes[..5]);
    assert_eq!(cursor.as_remaining_bytes(), &bytes[6..]);
    assert_eq!(cursor.as_preserved_bytes_include_current(), &bytes[..6]);
    assert_eq!(cursor.as_remaining_bytes_include_current(), &bytes[5..]);
    assert_eq!(cursor.as_bytes_loaded(), &bytes[..6]);
    assert_eq!(cursor.as_char_bytes_loaded(), &bytes[..4]);
    cursor.turnaround();
    assert_eq!(cursor.pos_as_bytes(), 3);
    assert_eq!(cursor.as_preserved_bytes(), &bytes[4..]);
    assert_eq!(cursor.as_remaining_bytes(), &bytes[..3]);
    cursor.save();
    cursor.jump(3);
    assert_eq!(cursor.as_bytes_loaded(), &bytes[3..7]);
    assert_eq!(cursor.as_char_bytes_loaded(), &bytes[3..7]);
}

#[test]
fn first_character_is_not_shown() {
    let mut cursor = StrCursor::new_with_extras::<Seen>(" a b");
    cursor.next_to_last();
    assert_eq!(cursor.to_extras(), Seen(vec![('a', 1), (' ', 2), ('b', 3)]));
    let mut reference = Seen::new();
    for (pos, ch) in " a b".chars().enumerate().skip(1) {
        reference.change(&ch, pos);
    }
    assert_eq!(cursor.into_extras(), reference);
}

#[test]
fn str_noeffects_keeps_the_accumulator_out() {
    let mut cursor = StrCursor::new_with_extras::<Seen>(MIXED);
    cursor.noeffects_on();
    assert!(cursor.noeffects());
    cursor.next_to_last();
    cursor.jump(1);
    assert_eq!(cursor.extras(), &Seen(vec![]));
    cursor.noeffects_off();
    cursor.jump(2);
    *cursor.noeffects_mut() = true;
    cursor.jump(3);
    assert_eq!(cursor.into_extras(), Seen(vec![('\u{20ac}', 2)]));
}

#[test]
fn walks_meet_every_character() {
    let mut cursor = StrCursor::new_with_extras::<Seen>(MIXED);
    cursor.jump(4);
    assert_eq!(cursor.next_to_first(), 'a');
    assert!(cursor.backwards());
    assert_eq!(
        cursor.to_extras(),
        Seen(vec![('z', 4), ('\u{1f600}', 3), ('\u{20ac}', 2), ('\u{e9}', 1), ('a', 0)])
    );
    assert_eq!(cursor.next_to_right(), Some('\u{e9}'));
    assert_eq!(cursor.next_to_left(), Some('a'));
    assert_eq!(cursor.next_to_left(), None);
    cursor.head_to_pos(3);
    assert!(!cursor.backwards());
    cursor.head_to_pos(0);
    assert!(!cursor.backwards());
    cursor.first_to_last();
    assert_eq!(cursor.pos(), 4);
    assert_eq!(cursor.current(), 'z');
}

#[test]
fn str_until_and_while_stop_where_asked() {
    let mut cursor = StrCursor::new(MIXED);
    assert_eq!(cursor.next_to_until(is_euro), '\u{20ac}');
    assert_eq!(cursor.pos(), 2);
    assert_eq!(cursor.next_to_until(is_euro), 'z');
    let mut cursor = StrCursor::new(MIXED);
    assert_eq!(cursor.next_to_while(is_small), '\u{20ac}');
    cursor.turnaround();
    assert_eq!(cursor.next_to_while(is_small), 'a');
    assert_eq!(cursor.pos(), 0);
}

#[test]
fn cycles_turn_at_the_ends() {
    let mut cursor = StrCursor::new("a\u{e9}\u{20ac}");
    assert_eq!(cursor.next_cycle(), 'a');
    assert_eq!(cursor.next_cycle(), '\u{e9}');
    assert_eq!(cursor.next_cycle(), '\u{20ac}');
    assert_eq!(cursor.next_cycle(), '\u{20ac}');
    assert!(cursor.backwards());
    assert_eq!(cursor.next_cycle(), '\u{e9}');
    assert_eq!(cursor.next_to_offset_cycle(-3), '\u{e9}');
    assert!(!cursor.backwards());
    assert_eq!(cursor.next_to_offset_cycle(2), '\u{20ac}');
    assert!(cursor.backwards());
    assert_eq!(cursor.jump_cycle(1), '\u{e9}');
    assert_eq!(cursor.jump_cycle(5), '\u{e9}');
    assert_eq!(cursor.jump_cycle(4), 'a');
    assert_eq!(cursor.jump_to_offset_cycle(2), '\u{20ac}');
    assert_eq!(cursor.jump_to_offset_cycle(-2), '\u{20ac}');
    assert_eq!(cursor.jump_to_offset_cycle(-1), '\u{e9}');
}

#[test]
fn shifts_walk_by_characters() {
    let mut cursor = StrCursor::new_with_extras::<Seen>(MIXED);
    assert_eq!(cursor.right_shift(1), Some('a'));
    assert_eq!(cursor.pos(), 0);
    assert_eq!(cursor.right_shift(2), Some('\u{20ac}'));
    assert_eq!(cursor.right_shift(0), Some('\u{20ac}'));
    assert_eq!(cursor.left_shift(1), Some('\u{e9}'));
    assert!(cursor.backwards());
    assert_eq!(cursor.left_shift(2), None);
    assert_eq!(cursor.pos(), 0);
    assert_eq!(cursor.to_extras(), Seen(vec![('\u{e9}', 1), ('\u{20ac}', 2), ('\u{e9}', 1), ('a', 0)]));
    cursor.shift_last();
    assert_eq!(cursor.pos(), 4);
    assert!(!cursor.backwards());
    cursor.shift_first();
    assert_eq!(cursor.pos(), 0);
    assert_eq!(cursor.current(), 'a');
    assert!(cursor.backwards());

    let mut fresh = StrCursor::new(MIXED);
    assert_eq!(fresh.right_shift(3), Some('\u{1f600}'));
    let mut fresh = StrCursor::new(MIXED);
    assert_eq!(fresh.right_shift(0), Some('a'));
    let mut fresh = StrCursor::new(MIXED);
    assert_eq!(fresh.left_shift(1), None);
    assert!(!fresh.is_init());
    assert_eq!(fresh.left_shift(2), None);
    assert_eq!(fresh.pos(), 0);
    assert!(fresh.is_init());
    fresh.head_to_right();
    assert_eq!(fresh.unwrapped_next(), '\u{e9}');
}

#[test]
fn raw_direction_setter_does_not_move_the_bytes() {
    let mut cursor = StrCursor::new(MIXED);
    cursor.jump(3);
    assert_eq!(cursor.pos_as_bytes(), 9);
    cursor.unsafe_set_backwards(true);
    assert!(cursor.backwards());
    assert_eq!(cursor.pos_as_bytes(), 9);
    cursor.unsafe_set_backwards(false);
    assert_eq!(cursor.next(), Some('z'));
}

#[test]
fn str_operators_move_like_offsets() {
    let mut cursor = StrCursor::new(MIXED);
    assert_eq!(&mut cursor + 1, Some('a'));
    assert_eq!(&mut cursor + 3, Some('\u{1f600}'));
    assert_eq!(&mut cursor + 2, None);
    assert_eq!(&mut cursor - 2, Some('\u{e9}'));
    assert_eq!(cursor.clone() - 1, Some('a'));
    assert_eq!(cursor + 3, Some('z'));
}

#[test]
fn copies_and_byte_cursors() {
    let mut cursor = StrCursor::new_with_extras::<Seen>(MIXED);
    cursor.jump(2);
    cursor.save();
    let mut copy = cursor.clone();
    assert_eq!(copy.pos(), 2);
    assert_eq!(copy.current(), '\u{20ac}');
    assert_eq!(copy.next(), Some('\u{1f600}'));
    assert_eq!(cursor.pos(), 2);
    let mut bytes = cursor.to_cursor();
    assert!(!bytes.is_init());
    assert_eq!(bytes.as_slice(), MIXED.as_bytes());
    assert_eq!(bytes.next(), Some(&b'a'));
}

#[test]
fn str_info_starts_fresh() {
    let info: StrCursorInfo<Seen> = StrCursorInfo::new();
    assert_eq!(info.current, EOF_CHAR);
    assert_eq!(EOF_CHAR, '\0');
    assert_eq!((info.pos, info.char_start_pos, info.decoded_width, info.noeffects), (0, 0, 0, false));
    assert!(!info.inner.init);
    let mut moved: StrCursorInfo<Seen> = StrCursorInfo::default();
    moved.pos = 3;
    moved.current = 'x';
    moved.char_start_pos = 5;
    moved.decoded_width = 1;
    moved.noeffects = true;
    moved.inner.init = true;
    moved.extras.change(&'x', 3);
    let copy = moved.clone();
    assert_eq!((copy.pos, copy.current, copy.char_start_pos, copy.decoded_width, copy.noeffects), (3, 'x', 5, 1, true));
    assert!(copy.inner.init);
    assert_eq!(copy.extras, Seen(vec![('x', 3)]));
    moved.reset();
    assert_eq!((moved.pos, moved.current, moved.char_start_pos, moved.decoded_width, moved.noeffects), (0, '\0', 0, 0, false));
    assert!(!moved.inner.init);
    assert_eq!(moved.extras, Seen(vec![]));
}

#[test]
fn continuation_bytes_start_with_one_zero() {
    assert!(!utf8_is_cont_byte(0x00));
    assert!(!utf8_is_cont_byte(0x7f));
    assert!(utf8_is_cont_byte(0x80));
    assert!(utf8_is_cont_byte(0xbf));
    assert!(!utf8_is_cont_byte(0xc0));
    assert!(!utf8_is_cont_byte(0xff));
}

#[test]
fn next_char_decodes_forward() {
    let bytes = "a\u{e9}\u{20ac}\u{1f600}".as_bytes();
    let mut cursor = Cursor::new(bytes);
    cursor.next();
    assert_eq!(next_char(&mut cursor), Some('a'));
    assert_eq!(cursor.pos(), 0);
    cursor.next();
    assert_eq!(next_char(&mut cursor), Some('\u{e9}'));
    assert_eq!(cursor.pos(), 2);
    cursor.next();
    assert_eq!(next_char(&mut cursor), Some('\u{20ac}'));
    assert_eq!(cursor.pos(), 5);
    cursor.next();
    cursor.turnaround();
    assert_eq!(next_char(&mut cursor), Some('\u{1f600}'));
    assert_eq!(cursor.pos(), 9);
    assert!(cursor.backwards());
}

#[test]
fn next_back_char_decodes_backward() {
    let bytes = "a\u{e9}\u{20ac}\u{1f600}".as_bytes();
    let mut cursor = Cursor::new(bytes);
    cursor.jump(9);
    assert_eq!(next_back_char(&mut cursor), Some('\u{1f600}'));
    assert_eq!(cursor.pos(), 6);
    assert!(!cursor.backwards());
    cursor.turnaround();
    cursor.next();
    assert_eq!(next_back_char(&mut cursor), Some('\u{20ac}'));
    assert_eq!(cursor.pos(), 3);
    assert!(cursor.backwards());
    cursor.next();
    assert_eq!(next_back_char(&mut cursor), Some('\u{e9}'));
    assert_eq!(cursor.pos(), 1);
    cursor.next();
    assert_eq!(next_back_char(&mut cursor), Some('a'));
    assert_eq!(cursor.pos(), 0);
}

#[test]
fn cut_off_input_counts_as_zero_bytes() {
    let cut: &[u8] = &[0xe2, 0x82];
    let mut cursor = Cursor::new(cut);
    cursor.next();
    assert_eq!(next_char(&mut cursor), Some('\u{2080}'));
    assert_eq!(cursor.pos(), 1);

    let lone: &[u8] = &[0xc3];
    let mut cursor = Cursor::new(lone);
    cursor.next();
    assert_eq!(next_char(&mut cursor), Some('\u{c0}'));
    assert_eq!(cursor.pos(), 0);

    let tail: &[u8] = &[0xa9];
    let mut cursor = Cursor::new(tail);
    cursor.next();
    assert_eq!(next_back_char(&mut cursor), Some('\u{29}'));
    assert_eq!(cursor.pos(), 0);
}

#[test]
fn surrogates_are_no_characters() {
    let bytes: &[u8] = &[0xed, 0xa0, 0x80];
    let mut cursor = Cursor::new(bytes);
    cursor.next();
    assert_eq!(next_char(&mut cursor), None);
    assert_eq!(cursor.pos(), 2);
    assert_eq!(next_back_char(&mut cursor), None);
    assert_eq!(cursor.pos(), 0);
    let too_large: &[u8] = &[0xf7, 0xbf, 0xbf, 0xbf];
    let mut cursor = Cursor::new(too_large);
    cursor.next();
    assert_eq!(next_char(&mut cursor), None);
}

#[test]
fn code_points_forward() {
    let bytes = "a\u{e9}\u{20ac}\u{1f600}".as_bytes();
    let mut cursor = Cursor::new(bytes);
    assert_eq!(next_code_point(&mut cursor), (Some(0x61), 1));
    assert_eq!(next_code_point(&mut cursor), (Some(0xe9), 2));
    assert_eq!(next_code_point(&mut cursor), (Some(0x20ac), 3));
    assert_eq!(next_code_point(&mut cursor), (Some(0x1f600), 4));
    assert_eq!(cursor.pos(), 9);
    assert_eq!(next_code_point(&mut cursor), (None, 0));
    let cut: &[u8] = &[0xf0, 0x9f];
    let mut cursor = Cursor::new(cut);
    assert_eq!(next_code_point(&mut cursor), (Some(0x1f000), 4));
    assert_eq!(cursor.pos(), 1);
}

#[test]
fn code_points_backward() {
    let bytes = "a\u{e9}\u{20ac}\u{1f600}z".as_bytes();
    let mut cursor = Cursor::new(bytes);
    cursor.jump(10);
    cursor.turnaround();
    assert_eq!(next_code_point_reverse(&mut cursor), (Some(0x1f600), 4));
    assert_eq!(cursor.pos(), 6);
    assert_eq!(next_code_point_reverse(&mut cursor), (Some(0x20ac), 3));
    assert_eq!(next_code_point_reverse(&mut cursor), (Some(0xe9), 2));
    assert_eq!(next_code_point_reverse(&mut cursor), (Some(0x61), 1));
    assert_eq!(cursor.pos(), 0);
    assert_eq!(next_code_point_reverse(&mut cursor), (None, 0));
}
