//! The banner that reports a clipboard copy.
//!
//! The copy itself talks to the system clipboard and is done by the
//! application shell; the library decides what the user is told.

use crate::app::FlashKind;
use crate::strs::{append_chars, chars_of, string_of};
use vstd::prelude::*;

verus! {

/// The banner for a copy that ended with `outcome`: the informational
/// `copied` text on success; on failure an error banner of `failed`, a
/// space and the clipboard's error message.
pub fn copy_with_flash(outcome: Result<(), String>, copied: String, failed: &str) -> (r: (
    FlashKind,
    String,
))
    ensures
        match outcome {
            Ok(()) => r.0 == FlashKind::Info && r.1 == copied,
            Err(e) => r.0 == FlashKind::Error && r.1@ == failed@ + " "@ + e@,
        },
{
    match outcome {
        Ok(()) => (FlashKind::Info, copied),
        Err(e) => {
            let mut v = chars_of(failed);
            v.push(' ');
            append_chars(&mut v, &chars_of(e.as_str()));
            proof {
                reveal_strlit(" ");
            }
            assert(v@ =~= failed@ + " "@ + e@);
            (FlashKind::Error, string_of(&v))
        },
    }
}

} // verus!
