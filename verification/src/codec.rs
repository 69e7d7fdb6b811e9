//! The wire framing: one JSON object per line, terminated by a single line
//! feed. Writers frame exactly one line; readers take one line, tolerate
//! surrounding whitespace, and treat a blank line as no message.

use crate::text::trim_spec;
use crate::text::trim_text;
use vstd::prelude::*;
use vstd::string::StrSliceExecFns;
use vstd::string::StringExecFns;

verus! {

/// Frames one message for the wire: the payload followed by one line feed.
/// A payload with a line feed of its own would split into two frames, so it
/// is left out.
pub fn encode_frame(payload: String) -> (r: String)
    requires
        !payload@.contains('\n'),
    ensures
        r@ == payload@ + seq!['\n'],
{
    let mut r = payload;
    r.append("\n");
    proof {
        reveal_strlit("\n");
        assert("\n"@ =~= seq!['\n']);
    }
    r
}

/// Reads one received line: surrounding whitespace drops, and a blank line
/// is no message at all.
pub fn clean_frame(line: &str) -> (r: Option<String>)
    ensures
        trim_spec(line@).len() == 0 ==> r is None,
        trim_spec(line@).len() > 0 ==> (r matches Some(s) && s@ == trim_spec(line@)),
{
    let trimmed = trim_text(line);
    if trimmed.as_str().unicode_len() == 0 {
        None
    } else {
        Some(trimmed)
    }
}

} // verus!
