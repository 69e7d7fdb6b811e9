//! The inline keyboard shown under a permission notification: three or
//! four buttons, each carrying a callback payload of bounded size.

use crate::callback::action_chars;
use crate::callback::is_callback_payload;
use crate::callback::CallbackAction;
use crate::request_id::format_request_id;
use crate::request_id::uuid_chars;
use vstd::prelude::*;
use vstd::string::StringExecFns;

verus! {

/// One inline button: its visible label and its callback payload.
pub struct Button {
    pub label: String,
    pub payload: String,
}

fn payload_for(id_text: &String, id: u128, word: &str, a: CallbackAction) -> (r: String)
    requires
        id_text@ == uuid_chars(id),
        word@ == action_chars(a),
    ensures
        is_callback_payload(r@, id, a),
{
    let mut r = id_text.clone();
    r.append(":");
    r.append(word);
    proof {
        reveal_strlit(":");
        assert(":"@ =~= seq![':']);
        assert(r@ =~= uuid_chars(id) + seq![':'] + action_chars(a));
    }
    r
}

/// Builds the action keyboard for a request: `Allow`, `Deny` and `Reply`
/// buttons, and an `Always Allow` button only when the request carried at
/// least one permission suggestion. Every payload is the exact
/// `"{id}:{action}"` shape and stays within the chat platform's 64-byte
/// payload limit.
pub fn make_keyboard(request_id: u128, has_permission_suggestions: bool) -> (r: Vec<Button>)
    ensures
        r@.len() == (if has_permission_suggestions {
            4int
        } else {
            3int
        }),
        is_callback_payload(r@[0].payload@, request_id, CallbackAction::Allow),
        is_callback_payload(r@[1].payload@, request_id, CallbackAction::Deny),
        is_callback_payload(r@[2].payload@, request_id, CallbackAction::Reply),
        has_permission_suggestions ==> is_callback_payload(
            r@[3].payload@,
            request_id,
            CallbackAction::Always,
        ),
        forall|i: int| 0 <= i < r@.len() ==> (#[trigger] r@[i].payload@).len() <= 64,
{
    let id_text = format_request_id(request_id);
    let mut buttons: Vec<Button> = Vec::new();
    proof {
        reveal_strlit("allow");
        reveal_strlit("deny");
        reveal_strlit("reply");
        reveal_strlit("always");
        assert("allow"@ =~= action_chars(CallbackAction::Allow));
        assert("deny"@ =~= action_chars(CallbackAction::Deny));
        assert("reply"@ =~= action_chars(CallbackAction::Reply));
        assert("always"@ =~= action_chars(CallbackAction::Always));
    }
    let allow_payload = payload_for(&id_text, request_id, "allow", CallbackAction::Allow);
    buttons.push(Button { label: String::from_str("\u{2705} Allow"), payload: allow_payload });
    let deny_payload = payload_for(&id_text, request_id, "deny", CallbackAction::Deny);
    buttons.push(Button { label: String::from_str("\u{274c} Deny"), payload: deny_payload });
    let reply_payload = payload_for(&id_text, request_id, "reply", CallbackAction::Reply);
    buttons.push(Button { label: String::from_str("\u{1f4ac} Reply"), payload: reply_payload });
    if has_permission_suggestions {
        let always_payload = payload_for(&id_text, request_id, "always", CallbackAction::Always);
        buttons.push(
            Button { label: String::from_str("\u{1f513} Always Allow"), payload: always_payload },
        );
    }
    buttons
}

} // verus!
