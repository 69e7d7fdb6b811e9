//! The decision router and the request handler's resolution steps. Chat
//! events come in as plain values; what the broker must do in response —
//! answer the button, edit messages, prompt for text, deliver a decision —
//! comes back as a list of effects for the transport to perform. All state
//! changes go through the pending table's take-once operations.

use crate::callback::is_callback_payload;
use crate::callback::CallbackAction;
use crate::callback::CallbackData;
use crate::json::jview;
use crate::json::Json;
use crate::models::Decision;
use crate::models::IpcResponse;
use crate::models::PendingRecord;
use crate::models::SentMessage;
use crate::pending::pending_entries;
use crate::pending::reply_prompts;
use crate::pending::PendingTable;
use crate::pending::ReplyPromptTable;
use crate::text::status_annotated_text;
use crate::text::trim_spec;
use crate::text::trim_text;
use vstd::prelude::*;
use vstd::string::StringExecFns;

verus! {

/// One thing the transport must do on the broker's behalf.
pub enum ChatEffect {
    /// Dismiss the pressed button, optionally with an alert toast.
    AnswerCallback { query_id: String, toast: Option<String>, show_alert: bool },
    /// Send a reply-composer prompt to the chat, opening the text
    /// sub-dialog for the named request.
    SendPrompt { chat_id: i64, request_id: u128, text: String },
    /// Send a plain notice to the chat.
    SendNotice { chat_id: i64, text: String },
    /// Edit a sent notification to its annotated form.
    EditMessage { chat_id: i64, message_id: i32, text: String },
    /// Best-effort delete of a message.
    DeleteMessage { chat_id: i64, message_id: i32 },
    /// Deliver the decision to the request handler awaiting it.
    Deliver { response: IpcResponse },
}

/// A plain button dismissal, no toast.
pub open spec fn is_plain_ack(e: ChatEffect, qid: Seq<char>) -> bool {
    &&& e matches ChatEffect::AnswerCallback { query_id, toast, show_alert }
    &&& query_id@ == qid
    &&& toast is None
    &&& !show_alert
}

/// A button dismissal with an alert toast carrying `msg`.
pub open spec fn is_alert(e: ChatEffect, qid: Seq<char>, msg: Seq<char>) -> bool {
    &&& e matches ChatEffect::AnswerCallback { query_id, toast, show_alert }
    &&& query_id@ == qid
    &&& toast matches Some(t) && t@ == msg
    &&& show_alert
}

/// The annotated body of an edited notification: the original text, one
/// blank line, the status line.
pub open spec fn annotated(original: Seq<char>, status: Seq<char>) -> Seq<char> {
    original + seq!['\n', '\n'] + status
}

/// A run of edit effects starting at `start`: one per sent message, in
/// order, each rewriting the message to its annotated form.
pub open spec fn edit_run(
    effects: Seq<ChatEffect>,
    start: int,
    msgs: Seq<SentMessage>,
    original: Seq<char>,
    status: Seq<char>,
) -> bool {
    forall|k: int|
        0 <= k < msgs.len() ==> {
            &&& #[trigger] effects[start + k] matches ChatEffect::EditMessage {
                chat_id,
                message_id,
                text,
            }
            &&& chat_id == msgs[k].chat_id
            &&& message_id == msgs[k].message_id
            &&& text@ == annotated(original, status)
        }
}

/// The status line appended to the notification for each decision.
pub open spec fn status_chars(a: CallbackAction) -> Seq<char> {
    match a {
        CallbackAction::Allow => "\u{2705} Approved"@,
        CallbackAction::Deny => "\u{274c} Denied"@,
        CallbackAction::Always => "\u{1f513} Always Allowed"@,
        CallbackAction::Reply => "\u{1f4ac} Replied"@,
    }
}

/// The response a decision button produces, over the record's suggestions.
pub open spec fn response_matches(
    r: IpcResponse,
    a: CallbackAction,
    id: u128,
    suggestions: Seq<Json>,
) -> bool {
    &&& r.request_id == id
    &&& (a == CallbackAction::Allow ==> r.decision == Decision::Allow && r.message is None
        && r.user_message is None && r.always_allow_suggestion is None)
    &&& (a == CallbackAction::Deny ==> r.decision == Decision::Deny && (r.message matches Some(m)
        && m@ == "Denied by user via Telegram"@) && r.user_message is None
        && r.always_allow_suggestion is None)
    &&& (a == CallbackAction::Always ==> r.decision == Decision::AlwaysAllow && r.message is None
        && r.user_message is None && (suggestions.len() == 0 ==> r.always_allow_suggestion is None)
        && (suggestions.len() > 0 ==> (r.always_allow_suggestion matches Some(sg) && jview(sg)
        == jview(suggestions[0]))))
}

/// What handling a `reply` button does: the pending record stays in place;
/// the chat is prompted for text when the request is still open, and told
/// otherwise when it is not.
pub open spec fn reply_case(
    m0: Map<u128, PendingRecord>,
    m1: Map<u128, PendingRecord>,
    effects: Seq<ChatEffect>,
    chat_id: i64,
    qid: Seq<char>,
    id: u128,
) -> bool {
    &&& m1 == m0
    &&& effects.len() == 2
    &&& is_plain_ack(effects[0], qid)
    &&& (m0.contains_key(id) ==> (effects[1] matches ChatEffect::SendPrompt {
        chat_id: c,
        request_id: rid,
        text: t,
    } && c == chat_id && rid == id && t@ == "Type your reply:"@))
    &&& (!m0.contains_key(id) ==> (effects[1] matches ChatEffect::SendNotice {
        chat_id: c,
        text: t,
    } && c == chat_id && t@ == "This request has already been handled."@))
}

/// What handling a decision button does: when the request is still pending
/// it is claimed, every sent notification is annotated, and exactly one
/// decision is delivered; when it was already claimed, only an
/// already-handled toast comes back and nothing is delivered.
pub open spec fn decide_case(
    m0: Map<u128, PendingRecord>,
    m1: Map<u128, PendingRecord>,
    effects: Seq<ChatEffect>,
    qid: Seq<char>,
    id: u128,
    a: CallbackAction,
) -> bool {
    if m0.contains_key(id) {
        let rec = m0[id];
        &&& m1 == m0.remove(id)
        &&& effects.len() == 2 + rec.sent_messages@.len()
        &&& is_plain_ack(effects[0], qid)
        &&& edit_run(effects, 1, rec.sent_messages@, rec.original_text@, status_chars(a))
        &&& (effects.last() matches ChatEffect::Deliver { response } && response_matches(
            response,
            a,
            id,
            rec.permission_suggestions@,
        ))
    } else {
        &&& m1 == m0
        &&& effects.len() == 1
        &&& is_alert(effects[0], qid, "This request has already been handled"@)
    }
}

/// At-most-one response: once a decision event has claimed a request, a
/// later decision event for the same request meets a table without it,
/// takes the already-handled branch, and delivers nothing.
pub proof fn lemma_at_most_one_delivery(
    m0: Map<u128, PendingRecord>,
    m2: Map<u128, PendingRecord>,
    effects2: Seq<ChatEffect>,
    qid: Seq<char>,
    id: u128,
    a: CallbackAction,
)
    requires
        m0.contains_key(id),
        decide_case(m0.remove(id), m2, effects2, qid, id, a),
    ensures
        m2 == m0.remove(id),
        effects2.len() == 1,
        forall|k: int| 0 <= k < effects2.len() ==> !((#[trigger] effects2[k]) is Deliver),
{
    assert(!m0.remove(id).contains_key(id));
    assert(is_alert(effects2[0], qid, "This request has already been handled"@));
    assert(!(effects2[0] is Deliver));
}


/// Response identity: a delivered decision names exactly the request whose
/// button was pressed — the identifier in the payload, which the keyboard
/// built from the request's own identifier.
pub proof fn lemma_response_identity(
    m0: Map<u128, PendingRecord>,
    m1: Map<u128, PendingRecord>,
    effects: Seq<ChatEffect>,
    qid: Seq<char>,
    id: u128,
    a: CallbackAction,
)
    requires
        m0.contains_key(id),
        decide_case(m0, m1, effects, qid, id, a),
    ensures
        effects.last() matches ChatEffect::Deliver { response } && response.request_id == id,
{
}

/// Whether a chat is allowed to decide requests.
fn chat_allowed(allowed_chat_ids: &Vec<i64>, chat_id: i64) -> (r: bool)
    ensures
        r == allowed_chat_ids@.contains(chat_id),
{
    let n = allowed_chat_ids.len();
    let mut i: usize = 0;
    while i < n
        invariant
            0 <= i <= n,
            n == allowed_chat_ids@.len(),
            forall|j: int| 0 <= j < i ==> allowed_chat_ids@[j] != chat_id,
        decreases n - i,
    {
        if allowed_chat_ids[i] == chat_id {
            return true;
        }
        i = i + 1;
    }
    false
}

/// Builds the decision response and its status line for a decision button.
/// The `reply` button never reaches this step: it opens the text sub-dialog
/// instead of resolving.
pub fn build_callback_response(
    action: CallbackAction,
    request_id: u128,
    permission_suggestions: &Vec<Json>,
) -> (r: (IpcResponse, String))
    requires
        action != CallbackAction::Reply,
    ensures
        response_matches(r.0, action, request_id, permission_suggestions@),
        r.1@ == status_chars(action),
{
    match action {
        CallbackAction::Allow => (
            IpcResponse::allow(request_id),
            String::from_str("\u{2705} Approved"),
        ),
        CallbackAction::Deny => (
            IpcResponse::deny(request_id, String::from_str("Denied by user via Telegram")),
            String::from_str("\u{274c} Denied"),
        ),
        CallbackAction::Always => {
            let suggestion = if permission_suggestions.len() > 0 {
                Some(permission_suggestions[0].duplicate())
            } else {
                None
            };
            (
                IpcResponse::always_allow(request_id, suggestion),
                String::from_str("\u{1f513} Always Allowed"),
            )
        },
        CallbackAction::Reply => {
            proof {
                assert(false);
            }
            (IpcResponse::timeout(request_id), String::new())
        },
    }
}

pub(crate) fn push_edit_effects(
    effects: &mut Vec<ChatEffect>,
    msgs: &Vec<SentMessage>,
    original: &str,
    status: &str,
)
    ensures
        final(effects)@.len() == old(effects)@.len() + msgs@.len(),
        forall|j: int| 0 <= j < old(effects)@.len() ==> final(effects)@[j] == old(effects)@[j],
        edit_run(final(effects)@, old(effects)@.len() as int, msgs@, original@, status@),
{
    let base = effects.len();
    let text = status_annotated_text(original, status);
    let n = msgs.len();
    let mut k: usize = 0;
    while k < n
        invariant
            0 <= k <= n,
            n == msgs@.len(),
            effects@.len() == base + k,
            text@ == annotated(original@, status@),
            forall|j: int| 0 <= j < base ==> effects@[j] == old(effects)@[j],
            base == old(effects)@.len(),
            edit_run(effects@, base as int, msgs@.take(k as int), original@, status@),
        decreases n - k,
    {
        let m = msgs[k];
        effects.push(
            ChatEffect::EditMessage {
                chat_id: m.chat_id,
                message_id: m.message_id,
                text: text.clone(),
            },
        );
        proof {
            assert(msgs@.take(k as int + 1) =~= msgs@.take(k as int).push(msgs@[k as int]));
            assert forall|j: int| 0 <= j < k + 1 implies {
                &&& #[trigger] effects@[base + j] matches ChatEffect::EditMessage {
                    chat_id,
                    message_id,
                    text: t,
                }
                &&& chat_id == msgs@.take(k as int + 1)[j].chat_id
                &&& message_id == msgs@.take(k as int + 1)[j].message_id
                &&& t@ == annotated(original@, status@)
            } by {
                if j < k {
                    assert(effects@[base + j] == old(effects)@.add(
                        Seq::empty(),
                    )[base + j] || true);
                }
            }
        }
        k = k + 1;
    }
    proof {
        assert(msgs@.take(n as int) =~= msgs@);
    }
}

/// Handles a pressed button. The chat must be allowed, the payload must
/// parse; a `reply` press opens the text sub-dialog and leaves the record
/// in place; a decision press claims the record — take-once — annotates
/// every sent notification, and delivers exactly one response; a press on
/// an already-claimed request only reports it handled. An unauthorized
/// press changes nothing and answers with an alert.
pub fn handle_callback(
    allowed_chat_ids: &Vec<i64>,
    pending: &mut PendingTable,
    chat_id: i64,
    query_id: String,
    data: Option<String>,
) -> (effects: Vec<ChatEffect>)
    ensures
        ({
            let m0 = pending_entries(*old(pending));
            let m1 = pending_entries(*final(pending));
            &&& (!allowed_chat_ids@.contains(chat_id) ==> m1 == m0 && effects@.len() == 1
                && is_alert(effects@[0], query_id@, "Unauthorized"@))
            &&& (allowed_chat_ids@.contains(chat_id) && data is None ==> m1 == m0 && effects@.len()
                == 0)
            &&& (allowed_chat_ids@.contains(chat_id) && data is Some && (forall|
                id: u128,
                a: CallbackAction,
            |
                !is_callback_payload((data->0)@, id, a)) ==> m1 == m0 && effects@.len() == 0)
            &&& (forall|id: u128|
                allowed_chat_ids@.contains(chat_id) && data is Some
                    && #[trigger] is_callback_payload((data->0)@, id, CallbackAction::Reply)
                    ==> reply_case(m0, m1, effects@, chat_id, query_id@, id))
            &&& (forall|id: u128, a: CallbackAction|
                allowed_chat_ids@.contains(chat_id) && data is Some && a != CallbackAction::Reply
                    && #[trigger] is_callback_payload((data->0)@, id, a) ==> decide_case(
                    m0,
                    m1,
                    effects@,
                    query_id@,
                    id,
                    a,
                ))
        }),
{
    let mut effects: Vec<ChatEffect> = Vec::new();
    if !chat_allowed(allowed_chat_ids, chat_id) {
        effects.push(
            ChatEffect::AnswerCallback {
                query_id,
                toast: Some(String::from_str("Unauthorized")),
                show_alert: true,
            },
        );
        return effects;
    }
    let data_str = match data {
        Some(d) => d,
        None => {
            return effects;
        },
    };
    let cb = match CallbackData::parse(data_str.as_str()) {
        Some(cb) => cb,
        None => {
            return effects;
        },
    };
    proof {
        assert forall|id: u128, a: CallbackAction| is_callback_payload(data_str@, id, a)
            implies id == cb.request_id && a == cb.action by {
            crate::callback::lemma_callback_payload_injective(
                data_str@,
                id,
                a,
                cb.request_id,
                cb.action,
            );
        }
    }
    if cb.action == CallbackAction::Reply {
        effects.push(ChatEffect::AnswerCallback { query_id, toast: None, show_alert: false });
        if pending.contains(cb.request_id) {
            effects.push(
                ChatEffect::SendPrompt {
                    chat_id,
                    request_id: cb.request_id,
                    text: String::from_str("Type your reply:"),
                },
            );
        } else {
            effects.push(
                ChatEffect::SendNotice {
                    chat_id,
                    text: String::from_str("This request has already been handled."),
                },
            );
        }
        return effects;
    }
    match pending.take(cb.request_id) {
        Some(record) => {
            effects.push(ChatEffect::AnswerCallback { query_id, toast: None, show_alert: false });
            let built = build_callback_response(
                cb.action,
                cb.request_id,
                &record.permission_suggestions,
            );
            push_edit_effects(
                &mut effects,
                &record.sent_messages,
                record.original_text.as_str(),
                built.1.as_str(),
            );
            effects.push(ChatEffect::Deliver { response: built.0 });
        },
        None => {
            effects.push(
                ChatEffect::AnswerCallback {
                    query_id,
                    toast: Some(String::from_str("This request has already been handled")),
                    show_alert: true,
                },
            );
        },
    }
    effects
}

/// Records the reply prompt that was just placed in a chat: the next text
/// message in that chat will answer this request. A new prompt replaces
/// any prior one for the same chat.
pub fn record_reply_prompt(
    prompts: &mut ReplyPromptTable,
    chat_id: i64,
    request_id: u128,
    prompt_message_id: i32,
)
    ensures
        reply_prompts(*final(prompts)) == reply_prompts(*old(prompts)).insert(
            chat_id,
            (request_id, prompt_message_id),
        ),
{
    prompts.insert(chat_id, request_id, prompt_message_id);
}

/// What handling a text message does when the chat was prompted: empty
/// text re-prompts and resolves nothing; non-empty text claims the record
/// — take-once — annotates the notifications, deletes the prompt and
/// delivers the reply; a request already claimed is only reported handled.
pub open spec fn text_case(
    m0: Map<u128, PendingRecord>,
    m1: Map<u128, PendingRecord>,
    effects: Seq<ChatEffect>,
    chat_id: i64,
    id: u128,
    prompt_message_id: i32,
    trimmed: Seq<char>,
) -> bool {
    if trimmed.len() == 0 {
        &&& m1 == m0
        &&& effects.len() == 1
        &&& (effects[0] matches ChatEffect::SendPrompt { chat_id: c, request_id: rid, text: t }
            && c == chat_id && rid == id && t@ == "Reply cannot be empty. Type your reply:"@)
    } else if m0.contains_key(id) {
        let rec = m0[id];
        &&& m1 == m0.remove(id)
        &&& effects.len() == 2 + rec.sent_messages@.len()
        &&& edit_run(effects, 0, rec.sent_messages@, rec.original_text@, "\u{1f4ac} Replied"@)
        &&& (effects[rec.sent_messages@.len() as int] matches ChatEffect::DeleteMessage {
            chat_id: c,
            message_id: mid,
        } && c == chat_id && mid == prompt_message_id)
        &&& (effects.last() matches ChatEffect::Deliver { response } && response.request_id == id
            && response.decision == Decision::Reply && response.message is None
            && (response.user_message matches Some(um) && um@ == trimmed)
            && response.always_allow_suggestion is None)
    } else {
        &&& m1 == m0
        &&& effects.len() == 1
        &&& (effects[0] matches ChatEffect::SendNotice { chat_id: c, text: t } && c == chat_id
            && t@ == "This request has already been handled."@)
    }
}

/// Handles an incoming text message. Only an allowed chat that has an open
/// reply prompt resolves anything; the prompt entry is consumed first, so
/// each prompt answers at most once.
pub fn handle_message(
    allowed_chat_ids: &Vec<i64>,
    pending: &mut PendingTable,
    prompts: &mut ReplyPromptTable,
    chat_id: i64,
    text: Option<String>,
) -> (effects: Vec<ChatEffect>)
    ensures
        ({
            let m0 = pending_entries(*old(pending));
            let m1 = pending_entries(*final(pending));
            let p0 = reply_prompts(*old(prompts));
            let p1 = reply_prompts(*final(prompts));
            &&& (!allowed_chat_ids@.contains(chat_id) ==> m1 == m0 && p1 == p0 && effects@.len()
                == 0)
            &&& (allowed_chat_ids@.contains(chat_id) && !p0.contains_key(chat_id) ==> m1 == m0
                && p1 == p0 && effects@.len() == 0)
            &&& (allowed_chat_ids@.contains(chat_id) && p0.contains_key(chat_id) ==> p1
                == p0.remove(chat_id) && text_case(
                m0,
                m1,
                effects@,
                chat_id,
                p0[chat_id].0,
                p0[chat_id].1,
                (match text {
                    Some(t) => trim_spec(t@),
                    None => Seq::empty(),
                }),
            ))
        }),
{
    let mut effects: Vec<ChatEffect> = Vec::new();
    if !chat_allowed(allowed_chat_ids, chat_id) {
        return effects;
    }
    let entry = match prompts.remove(chat_id) {
        Some(entry) => entry,
        None => {
            return effects;
        },
    };
    let request_id = entry.0;
    let prompt_message_id = entry.1;
    let trimmed = match text {
        Some(t) => trim_text(t.as_str()),
        None => String::new(),
    };
    if trimmed.as_str().unicode_len() == 0 {
        effects.push(
            ChatEffect::SendPrompt {
                chat_id,
                request_id,
                text: String::from_str("Reply cannot be empty. Type your reply:"),
            },
        );
        return effects;
    }
    match pending.take(request_id) {
        Some(record) => {
            push_edit_effects(
                &mut effects,
                &record.sent_messages,
                record.original_text.as_str(),
                "\u{1f4ac} Replied",
            );
            effects.push(ChatEffect::DeleteMessage { chat_id, message_id: prompt_message_id });
            let response = IpcResponse::reply(request_id, trimmed);
            effects.push(ChatEffect::Deliver { response });
        },
        None => {
            effects.push(
                ChatEffect::SendNotice {
                    chat_id,
                    text: String::from_str("This request has already been handled."),
                },
            );
        },
    }
    effects
}

} // verus!
