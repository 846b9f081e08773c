//! Checks on what the input method reports about the text being composed, and
//! recognition of its own popup windows.
use vstd::prelude::*;

use crate::text::{starts_with, str_starts_with};

verus! {

/// Most bytes (UTF-16) a composition may report: 64 characters.
pub const MAX_COMPOSITION_BYTES: i32 = 128;

/// The number of UTF-16 units to read for a composition reported as `len` bytes:
/// none when it is empty or an error (not positive), larger than the limit, or
/// odd.
pub fn composition_buffer_len(len: i32) -> (r: Option<usize>)
    ensures
        r == if len <= 0 || len > MAX_COMPOSITION_BYTES || len % 2 != 0 {
            None
        } else {
            Some((len / 2) as usize)
        },
{
    if len <= 0 {
        return None;
    }
    if len > MAX_COMPOSITION_BYTES {
        return None;
    }
    if len % 2 != 0 {
        return None;
    }
    Some((len / 2) as usize)
}

/// The number of UTF-16 units read when the second call reported `actual` bytes
/// into a buffer of `capacity` units: none when it failed (not positive), else at
/// most the buffer's size.
pub fn composition_char_count(actual: i32, capacity: usize) -> (r: Option<usize>)
    ensures
        r == if actual <= 0 {
            None
        } else {
            Some(if (actual / 2) as usize <= capacity { (actual / 2) as usize } else { capacity })
        },
{
    if actual <= 0 {
        return None;
    }
    let half = (actual / 2) as usize;
    Some(if half <= capacity { half } else { capacity })
}

/// The class-name prefix of the text-services popups that the program hides.
pub const CICERO_CLASS_PREFIX: &'static str = "CiceroUIWndFrame";

/// Whether a window class name is one of the text-services popups.
pub fn is_cicero_window_class(name: &str) -> (r: bool)
    ensures
        r == starts_with(name@, CICERO_CLASS_PREFIX@),
{
    str_starts_with(name, CICERO_CLASS_PREFIX)
}

} // verus!
