//! What `send_line` and `send_ctrl` put on the child's input.

use vstd::prelude::*;
use vstd::string::StringSliceAdditionalSpecFns;
use crate::error::PtyError;

verus! {

/// `c` is an ASCII letter, `A`-`Z` or `a`-`z`.
pub open spec fn is_ascii_letter(c: char) -> bool {
    ||| 65 <= (c as u32) <= 90
    ||| 97 <= (c as u32) <= 122
}

/// The control code of the letter `c`, case-insensitive: `Ctrl+A` is 1,
/// `Ctrl+Z` is 26.
pub open spec fn control_code(c: char) -> int
    recommends
        is_ascii_letter(c),
{
    if 97 <= (c as u32) <= 122 {
        (c as u32) - 96
    } else {
        (c as u32) - 64
    }
}

/// The byte that `Ctrl+<c>` sends.
///
/// `c` must be an ASCII letter, in either case; anything else is answered
/// with `InvalidCtrlChar(c)`.
pub fn control_byte(c: char) -> (r: Result<u8, PtyError>)
    ensures
        r is Ok <==> is_ascii_letter(c),
        r matches Ok(b) ==> b as int == control_code(c),
        r matches Err(e) ==> e == PtyError::InvalidCtrlChar(c),
{
    let u = c as u32;
    if 97 <= u && u <= 122 {
        Ok((u - 96) as u8)
    } else if 65 <= u && u <= 90 {
        Ok((u - 64) as u8)
    } else {
        Err(PtyError::InvalidCtrlChar(c))
    }
}

/// A control code does not depend on the letter's case, and each letter
/// has a code of its own between 1 and 26.
pub proof fn lemma_control_code_case_insensitive(c: char, d: char)
    requires
        is_ascii_letter(c),
        is_ascii_letter(d),
    ensures
        1 <= control_code(c) <= 26,
        control_code(c) == control_code(d) <==> (
            c == d || (c as u32) + 32 == (d as u32) || (d as u32) + 32 == (c as u32)
        ),
{
}

/// The bytes that `send_line` writes: the UTF-8 of `text`, then `\n`.
pub fn line_bytes(text: &str) -> (r: Vec<u8>)
    ensures
        r@ == text.spec_bytes().push(10u8),
{
    let mut out: Vec<u8> = Vec::new();
    out.extend_from_slice(text.as_bytes());
    out.push(10u8);
    proof {
        assert(out@ =~= text.spec_bytes().push(10u8));
    }
    out
}

} // verus!
