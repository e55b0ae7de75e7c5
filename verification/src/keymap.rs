//! Translating raw key symbols into the restricted character set the input
//! line accepts, and recognising the reserved control keys.
//!
//! The reserved codes (Enter, Escape, Backspace) always map to their control
//! action. Every other code maps to a character only if it falls in the
//! space, digit or Latin letter ranges; anything else is ignored. The input
//! line and the wire protocol assume single-byte ASCII text.

use vstd::prelude::*;

verus! {

/// Key symbol of the space bar.
pub const KEYSYM_SPACE: u32 = 0x20;

/// Key symbol of the Enter key, which submits the input line.
pub const KEYSYM_ENTER: u32 = 0xff0d;

/// Key symbol of the Escape key, which clears the input line.
pub const KEYSYM_ESCAPE: u32 = 0xff1b;

/// Key symbol of the Backspace key, which deletes the last character.
pub const KEYSYM_BACKSPACE: u32 = 0xff08;

/// What one key press means to the input line.
#[derive(Clone, Copy, PartialEq, Eq, Structural, Debug)]
pub enum KeyAction {
    /// Submit the current input line.
    Submit,
    /// Clear the current input line.
    Cancel,
    /// Delete the last character of the input line.
    DeleteLast,
    /// Append this character to the input line.
    AppendChar(char),
    /// Do nothing: the key is outside the accepted set.
    Ignore,
}

/// Whether a key symbol falls in the accepted printable set: space, decimal
/// digits, or upper- or lower-case Latin letters.
pub open spec fn is_printable_keysym(code: u32) -> bool {
    ||| code == KEYSYM_SPACE
    ||| (0x30 <= code && code <= 0x39)
    ||| (0x41 <= code && code <= 0x5a)
    ||| (0x61 <= code && code <= 0x7a)
}

/// The action a key symbol maps to. Reserved control codes always map to
/// their control action; printable codes append their ASCII character;
/// everything else is ignored.
pub open spec fn spec_map_key(code: u32) -> KeyAction {
    if code == KEYSYM_ENTER {
        KeyAction::Submit
    } else if code == KEYSYM_ESCAPE {
        KeyAction::Cancel
    } else if code == KEYSYM_BACKSPACE {
        KeyAction::DeleteLast
    } else if is_printable_keysym(code) {
        KeyAction::AppendChar((code as u8) as char)
    } else {
        KeyAction::Ignore
    }
}

/// Maps one raw key symbol to its input-line action, exactly as
/// `spec_map_key` states.
pub fn map_key(code: u32) -> (a: KeyAction)
    ensures
        a == spec_map_key(code),
{
    if code == KEYSYM_ENTER {
        KeyAction::Submit
    } else if code == KEYSYM_ESCAPE {
        KeyAction::Cancel
    } else if code == KEYSYM_BACKSPACE {
        KeyAction::DeleteLast
    } else if code == KEYSYM_SPACE || (0x30 <= code && code <= 0x39) || (0x41 <= code && code
        <= 0x5a) || (0x61 <= code && code <= 0x7a) {
        KeyAction::AppendChar((code as u8) as char)
    } else {
        KeyAction::Ignore
    }
}

} // verus!
