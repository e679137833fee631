//! A cursor over a borrowed sequence that can step in either direction,
//! jump to any index, remember one checkpoint and feed every confirmed
//! move to an accumulator, together with a cursor over the characters of
//! a string that decodes UTF-8 as it goes.
//!
//! [`Cursor`] walks a slice and [`StrCursor`] the characters of a
//! string; what they can do is in [`CursorTrait`] and
//! [`StrCursorTrait`]. The contracts speak of [`CursorView`] and
//! [`StrCursorView`], the cursors as mathematics sees them. What holds
//! of every cursor is proved in `cmn::laws`, and what holds of every
//! UTF-8 text in `cmn::text`.

pub mod cmn;
pub mod cursors;
pub mod str_traits;
pub mod traits;

pub use cmn::consts::EOF_CHAR;
pub use cmn::extras::NoneExtras;
pub use cmn::info::{CursorInfo, StrCursorInfo};
pub use cmn::model::{char_walk_ends, paces, walk_ends, CursorView};
pub use cmn::offset::{detailed_diff, MoveOffset};
pub use cmn::str_model::StrCursorView;
pub use cmn::utf::{
    next_back_char, next_char, next_code_point, next_code_point_reverse, utf8_is_cont_byte,
};
pub use cmn::utils::{isize_to_usize, wrap};
pub use cursors::extensions::string::StrCursor;
pub use cursors::Cursor;
pub use str_traits::StrCursorTrait;
pub use traits::{fold_down, fold_up, CursorTrait, Extras, ToCursor, ToExtras};
