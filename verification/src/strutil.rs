//! Contracts for the two std string/char operations the codec builds on.

use vstd::prelude::*;

verus! {

/// Relies on `alloc::string::String::push`: appends the given `char` to the
/// end of the string.
pub assume_specification[ String::push ](s: &mut String, ch: char)
    ensures
        final(s)@ == old(s)@.push(ch),
;

/// Relies on `core::char::from_u32`: returns `Some` exactly when the value
/// is a Unicode scalar value (below the surrogate range 0xD800..0xE000, or
/// between 0xE000 and 0x10FFFF), and the returned character then has that
/// code point.
pub assume_specification[ char::from_u32 ](v: u32) -> (r: Option<char>)
    ensures
        r == if vstd::utf8::is_scalar(v) {
            Some(v as char)
        } else {
            None::<char>
        },
;

} // verus!
