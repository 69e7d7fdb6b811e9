//! The chat notification body: what the broker shows for a permission
//! request. User-controlled text is HTML-escaped, long fields are cut on
//! character boundaries with a visible mark, and the whole body is bounded.

use crate::json::jget;
use crate::json::jview;
use crate::json::render_v;
use crate::json::Json;
use crate::json::JsonV;
use crate::models::IpcRequest;
use crate::text::escape_html;
use crate::text::escape_html_spec;
use crate::text::format_size;
use crate::text::spec_format_size;
use crate::text::spec_truncate;
use crate::text::truncate;
use crate::text::utf8_len;
use vstd::prelude::*;
use vstd::string::StrSliceExecFns;
use vstd::string::StringExecFns;

verus! {

/// Byte budget for one excerpted field of the tool input.
pub const MAX_FIELD_CHARS: usize = 500;

/// Byte budget for the whole notification body.
pub const MAX_TOTAL_CHARS: usize = 4000;

/// The string value of a field of the tool input, when the input is an
/// object and the field is a string.
pub open spec fn str_field(v: JsonV, key: Seq<char>) -> Option<Seq<char>> {
    match jget(v, key) {
        Some(JsonV::Str(s)) => Some(s),
        _ => None,
    }
}

fn get_str_field(input: &Json, key: &str) -> (r: Option<String>)
    ensures
        match r {
            Some(s) => str_field(jview(*input), key@) == Some(s@),
            None => str_field(jview(*input), key@) is None,
        },
{
    match input.get(key) {
        Some(field) => field.str_value(),
        None => None,
    }
}

/// One truncated, escaped field excerpt.
pub open spec fn field_excerpt(text: Seq<char>, max: int) -> Seq<char> {
    escape_html_spec(spec_truncate(text, max, "... (truncated)"@))
}

/// The details block of the notification: the command for a shell call,
/// the file and size for a write, the file and both sides for an edit, and
/// the rendered input for any other tool.
pub open spec fn spec_tool_details(tool_name: Seq<char>, v: JsonV) -> Seq<char> {
    if tool_name == "Bash"@ {
        let command = match str_field(v, "command"@) {
            Some(c) => c,
            None => "<no command>"@,
        };
        "<pre>"@ + field_excerpt(command, 500) + "</pre>"@
    } else if tool_name == "Write"@ {
        let file_path = match str_field(v, "file_path"@) {
            Some(p) => p,
            None => "<unknown file>"@,
        };
        let content_len = match str_field(v, "content"@) {
            Some(c) => (utf8_len(c) as usize) as int,
            None => 0int,
        };
        "\u{1f4c4} <code>"@ + escape_html_spec(file_path) + "</code> ("@ + escape_html_spec(
            spec_format_size(content_len),
        ) + ")"@
    } else if tool_name == "Edit"@ {
        let file_path = match str_field(v, "file_path"@) {
            Some(p) => p,
            None => "<unknown file>"@,
        };
        let old_text = match str_field(v, "old_string"@) {
            Some(o) => o,
            None => Seq::empty(),
        };
        let new_text = match str_field(v, "new_string"@) {
            Some(o) => o,
            None => Seq::empty(),
        };
        "\u{1f4c4} <code>"@ + escape_html_spec(file_path) + "</code>\n<pre>- "@ + field_excerpt(
            old_text,
            250,
        ) + "\n+ "@ + field_excerpt(new_text, 250) + "</pre>"@
    } else {
        "<pre>"@ + field_excerpt(render_v(v), 500) + "</pre>"@
    }
}

/// Renders the details block for a tool call.
pub fn format_tool_details(tool_name: &str, tool_input: &Json) -> (r: String)
    ensures
        r@ == spec_tool_details(tool_name@, jview(*tool_input)),
{
    if crate::json::str_eq(tool_name, "Bash") {
        let command = match get_str_field(tool_input, "command") {
            Some(c) => c,
            None => String::from_str("<no command>"),
        };
        let excerpt = truncate(command.as_str(), MAX_FIELD_CHARS);
        let body = escape_html(excerpt.as_str());
        let mut r = String::from_str("<pre>");
        r.append(body.as_str());
        r.append("</pre>");
        proof {
            assert(r@ =~= spec_tool_details(tool_name@, jview(*tool_input)));
        }
        r
    } else if crate::json::str_eq(tool_name, "Write") {
        let file_path = match get_str_field(tool_input, "file_path") {
            Some(p) => p,
            None => String::from_str("<unknown file>"),
        };
        let content_len: usize = match get_str_field(tool_input, "content") {
            Some(c) => c.as_str().len(),
            None => 0,
        };
        let size = format_size(content_len);
        let mut r = String::from_str("\u{1f4c4} <code>");
        let fp = escape_html(file_path.as_str());
        r.append(fp.as_str());
        r.append("</code> (");
        let sz = escape_html(size.as_str());
        r.append(sz.as_str());
        r.append(")");
        proof {
            assert(r@ =~= spec_tool_details(tool_name@, jview(*tool_input)));
        }
        r
    } else if crate::json::str_eq(tool_name, "Edit") {
        let file_path = match get_str_field(tool_input, "file_path") {
            Some(p) => p,
            None => String::from_str("<unknown file>"),
        };
        let old_text = match get_str_field(tool_input, "old_string") {
            Some(o) => o,
            None => String::new(),
        };
        let new_text = match get_str_field(tool_input, "new_string") {
            Some(o) => o,
            None => String::new(),
        };
        let mut r = String::from_str("\u{1f4c4} <code>");
        let fp = escape_html(file_path.as_str());
        r.append(fp.as_str());
        r.append("</code>\n<pre>- ");
        let old_trunc = truncate(old_text.as_str(), MAX_FIELD_CHARS / 2);
        let old_esc = escape_html(old_trunc.as_str());
        r.append(old_esc.as_str());
        r.append("\n+ ");
        let new_trunc = truncate(new_text.as_str(), MAX_FIELD_CHARS / 2);
        let new_esc = escape_html(new_trunc.as_str());
        r.append(new_esc.as_str());
        r.append("</pre>");
        proof {
            assert(r@ =~= spec_tool_details(tool_name@, jview(*tool_input)));
        }
        r
    } else {
        let rendered = tool_input.render();
        let excerpt = truncate(rendered.as_str(), MAX_FIELD_CHARS);
        let body = escape_html(excerpt.as_str());
        let mut r = String::from_str("<pre>");
        r.append(body.as_str());
        r.append("</pre>");
        proof {
            assert(r@ =~= spec_tool_details(tool_name@, jview(*tool_input)));
        }
        r
    }
}

/// The path with trailing separators removed.
pub open spec fn strip_trailing_slashes(cs: Seq<char>) -> Seq<char>
    decreases cs.len(),
{
    if cs.len() > 0 && cs.last() == '/' {
        strip_trailing_slashes(cs.drop_last())
    } else {
        cs
    }
}

/// The suffix after the last separator.
pub open spec fn after_last_slash(cs: Seq<char>) -> Seq<char>
    decreases cs.len(),
{
    if cs.len() == 0 {
        cs
    } else if cs.last() == '/' {
        Seq::empty()
    } else {
        after_last_slash(cs.drop_last()) + seq![cs.last()]
    }
}

/// The display name of the working directory: its last path segment, or a
/// placeholder when the path has none.
pub open spec fn project_name_spec(cwd: Seq<char>) -> Seq<char> {
    let seg = after_last_slash(strip_trailing_slashes(cwd));
    if seg.len() == 0 {
        "unknown"@
    } else {
        seg
    }
}

proof fn lemma_strip_trailing(cs: Seq<char>, b: int)
    requires
        0 <= b <= cs.len(),
        forall|j: int| b <= j < cs.len() ==> cs[j] == '/',
        b > 0 ==> cs[b - 1] != '/',
    ensures
        strip_trailing_slashes(cs) == cs.take(b),
    decreases cs.len() - b,
{
    if b == cs.len() {
        assert(cs.take(b) =~= cs);
    } else {
        lemma_strip_trailing(cs.drop_last(), b);
        assert(cs.drop_last().take(b) =~= cs.take(b));
    }
}

proof fn lemma_after_last(cs: Seq<char>, a: int)
    requires
        0 <= a <= cs.len(),
        forall|j: int| a <= j < cs.len() ==> cs[j] != '/',
        a > 0 ==> cs[a - 1] == '/',
    ensures
        after_last_slash(cs) == cs.skip(a),
    decreases cs.len(),
{
    if cs.len() == 0 {
        assert(cs.skip(0) =~= cs);
    } else if cs.last() == '/' {
        assert(a == cs.len());
        assert(cs.skip(a) =~= Seq::<char>::empty());
    } else {
        lemma_after_last(cs.drop_last(), a);
        assert(cs.drop_last().skip(a) + seq![cs.last()] =~= cs.skip(a));
    }
}

/// The display name of the working directory.
pub fn project_name(cwd: &str) -> (r: String)
    ensures
        r@ == project_name_spec(cwd@),
{
    let n = cwd.unicode_len();
    let mut b: usize = n;
    loop
        invariant
            0 <= b <= n,
            n == cwd@.len(),
            forall|j: int| b <= j < n ==> cwd@[j] == '/',
        ensures
            0 <= b <= n,
            forall|j: int| b <= j < n ==> cwd@[j] == '/',
            b > 0 ==> cwd@[b - 1] != '/',
        decreases b,
    {
        if b == 0 {
            break;
        }
        if cwd.get_char(b - 1) != '/' {
            break;
        }
        b = b - 1;
    }
    let mut a: usize = b;
    loop
        invariant
            0 <= a <= b,
            n == cwd@.len(),
            b <= n,
            forall|j: int| a <= j < b ==> cwd@[j] != '/',
        ensures
            0 <= a <= b,
            forall|j: int| a <= j < b ==> cwd@[j] != '/',
            a > 0 ==> cwd@[a - 1] == '/',
        decreases a,
    {
        if a == 0 {
            break;
        }
        if cwd.get_char(a - 1) == '/' {
            break;
        }
        a = a - 1;
    }
    proof {
        lemma_strip_trailing(cwd@, b as int);
        lemma_after_last(cwd@.take(b as int), a as int);
        assert(cwd@.take(b as int).skip(a as int) =~= cwd@.subrange(a as int, b as int));
    }
    if a == b {
        let r = String::from_str("unknown");
        return r;
    }
    let seg = cwd.substring_char(a, b);
    let mut r = String::new();
    r.append(seg);
    proof {
        assert(r@ =~= cwd@.subrange(a as int, b as int));
    }
    r
}

/// The session identifier as shown: its first eight characters.
pub open spec fn session_short_spec(session_id: Seq<char>) -> Seq<char> {
    if session_id.len() > 8 {
        session_id.take(8)
    } else {
        session_id
    }
}

/// The optional assistant-context section of the body.
pub open spec fn context_section_spec(assistant_context: Option<String>) -> Seq<char> {
    match assistant_context {
        Some(ctx) => "\n\n\u{1f4ac} "@ + escape_html_spec(ctx@),
        None => Seq::empty(),
    }
}

/// The whole notification body before the final bound: project line,
/// optional context, tool heading and details, working directory and the
/// shortened session identifier.
pub open spec fn spec_permission_message_full(
    tool_name: Seq<char>,
    tool_input: JsonV,
    cwd: Seq<char>,
    session_id: Seq<char>,
    assistant_context: Option<String>,
) -> Seq<char> {
    "<b>\u{1f4cb} "@ + escape_html_spec(project_name_spec(cwd)) + "</b>"@ + context_section_spec(
        assistant_context,
    ) + "\n\n<b>\u{1f527} "@ + escape_html_spec(tool_name) + "</b>\n"@ + spec_tool_details(
        tool_name,
        tool_input,
    ) + "\n\n\u{1f4c1} "@ + escape_html_spec(cwd) + "\n\u{1f194} Session: <code>"@
        + escape_html_spec(session_short_spec(session_id)) + "</code>"@
}

/// The notification body, bounded to the body budget.
pub open spec fn spec_permission_message(
    tool_name: Seq<char>,
    tool_input: JsonV,
    cwd: Seq<char>,
    session_id: Seq<char>,
    assistant_context: Option<String>,
) -> Seq<char> {
    spec_truncate(
        spec_permission_message_full(tool_name, tool_input, cwd, session_id, assistant_context),
        4000,
        "... (truncated)"@,
    )
}

/// Renders the notification body for a permission request.
pub fn format_permission_message(request: &IpcRequest) -> (r: String)
    ensures
        r@ == spec_permission_message(
            request.tool_name@,
            jview(request.tool_input),
            request.cwd@,
            request.session_id@,
            request.assistant_context,
        ),
{
    let project = project_name(request.cwd.as_str());
    let session_short = if request.session_id.as_str().unicode_len() > 8 {
        let s = request.session_id.as_str().substring_char(0, 8);
        let mut out = String::new();
        out.append(s);
        proof {
            assert(out@ =~= request.session_id@.take(8));
        }
        out
    } else {
        request.session_id.clone()
    };
    let details = format_tool_details(request.tool_name.as_str(), &request.tool_input);
    let mut body = String::from_str("<b>\u{1f4cb} ");
    let proj_esc = escape_html(project.as_str());
    body.append(proj_esc.as_str());
    body.append("</b>");
    match &request.assistant_context {
        Some(ctx) => {
            body.append("\n\n\u{1f4ac} ");
            let ctx_esc = escape_html(ctx.as_str());
            body.append(ctx_esc.as_str());
        },
        None => {},
    }
    body.append("\n\n<b>\u{1f527} ");
    let tool_esc = escape_html(request.tool_name.as_str());
    body.append(tool_esc.as_str());
    body.append("</b>\n");
    body.append(details.as_str());
    body.append("\n\n\u{1f4c1} ");
    let cwd_esc = escape_html(request.cwd.as_str());
    body.append(cwd_esc.as_str());
    body.append("\n\u{1f194} Session: <code>");
    let session_esc = escape_html(session_short.as_str());
    body.append(session_esc.as_str());
    body.append("</code>");
    proof {
        assert(body@ =~= spec_permission_message_full(
            request.tool_name@,
            jview(request.tool_input),
            request.cwd@,
            request.session_id@,
            request.assistant_context,
        ));
    }
    truncate(body.as_str(), MAX_TOTAL_CHARS)
}

} // verus!
