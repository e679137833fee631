use vstd::prelude::*;

verus! {

/// The character a string cursor reports before it has met any character.
pub const EOF_CHAR: char = '\0';

} // verus!
