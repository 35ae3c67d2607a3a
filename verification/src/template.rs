//! The Git commit-message-template newline fixup.
//!
//! The template file should open with a blank line for the cursor; the
//! fixup adds one more leading newline, but only when the file already
//! starts with one.  Reading and rewriting the file is the caller's side;
//! this is the decision and the new contents.

use vstd::prelude::*;
use vstd::string::StrSliceExecFns;
use vstd::string::StringExecFns;

verus! {

/// The fixed-up contents of the template, when a fixup is due: a file that
/// already starts with a newline gains one more in front; any other file —
/// the empty one included — is left alone, signalled by `None`.
pub fn prepend_newline_fixup(contents: &str) -> (res: Option<String>)
    ensures
        contents@.len() > 0 && contents@[0] == '\n' ==> res is Some
            && res->0@ == seq!['\n'] + contents@,
        !(contents@.len() > 0 && contents@[0] == '\n') ==> res is None,
{
    if contents.unicode_len() == 0 {
        return None;
    }
    if contents.get_char(0) == '\n' {
        let mut out = String::from_str("\n");
        out.append(contents);
        proof {
            reveal_strlit("\n");
            assert(("\n")@ =~= seq!['\n']);
        }
        Some(out)
    } else {
        None
    }
}

} // verus!
