use vibe_reachout::callback::CallbackAction;
use vibe_reachout::guard::stale_socket_action;
use vibe_reachout::guard::SocketAction;
use vibe_reachout::guard::SocketProbe;
use vibe_reachout::hook::map_decision_to_output;
use vibe_reachout::models::HookBehavior;
use vibe_reachout::json::Json;
use vibe_reachout::keyboard::make_keyboard;
use vibe_reachout::models::Decision;
use vibe_reachout::models::IpcResponse;
use vibe_reachout::models::PendingRecord;
use vibe_reachout::models::SentMessage;
use vibe_reachout::pending::PendingTable;
use vibe_reachout::pending::ReplyPromptTable;
use vibe_reachout::request_id::format_request_id;
use vibe_reachout::router::build_callback_response;
use vibe_reachout::router::handle_callback;
use vibe_reachout::router::handle_message;
use vibe_reachout::router::record_reply_prompt;
use vibe_reachout::router::ChatEffect;
use vibe_reachout::server::drain_to_responses;
use vibe_reachout::server::on_cancel;
use vibe_reachout::server::on_timeout;
use vibe_reachout::server::register_pending;
use vibe_reachout::server::RegisterError;

const ID: u128 = 0x550e8400e29b41d4a716446655440000;

fn jstr(s: &str) -> Json {
    Json::Str(s.to_string())
}

fn jobj(fields: Vec<(&str, Json)>) -> Json {
    Json::Obj(fields.into_iter().map(|(k, v)| (k.to_string(), v)).collect())
}

fn suggestion() -> Json {
    jobj(vec![("tool", jstr("Bash")), ("command", jstr("ls"))])
}

fn record(id: u128, suggestions: Vec<Json>) -> PendingRecord {
    PendingRecord {
        request_id: id,
        sent_messages: vec![SentMessage { chat_id: 12345, message_id: 7 }],
        original_text: "notification".to_string(),
        permission_suggestions: suggestions,
        created_at: 0,
    }
}

fn payload(id: u128, action: &str) -> Option<String> {
    Some(format!("{}:{action}", format_request_id(id)))
}

fn delivered(effects: &[ChatEffect]) -> Option<&IpcResponse> {
    let mut found = None;
    for e in effects {
        if let ChatEffect::Deliver { response } = e {
            assert!(found.is_none(), "more than one delivery");
            found = Some(response);
        }
    }
    found
}

#[test]
fn build_response_allow() {
    let (resp, status) = build_callback_response(CallbackAction::Allow, ID, &vec![]);
    assert_eq!(resp.decision, Decision::Allow);
    assert_eq!(resp.request_id, ID);
    assert!(status.contains("Approved"));
}

#[test]
fn build_response_deny() {
    let (resp, status) = build_callback_response(CallbackAction::Deny, ID, &vec![]);
    assert_eq!(resp.decision, Decision::Deny);
    assert_eq!(resp.message.as_deref(), Some("Denied by user via Telegram"));
    assert!(status.contains("Denied"));
}

#[test]
fn build_response_always_with_suggestion() {
    let suggestions = vec![suggestion()];
    let (resp, status) = build_callback_response(CallbackAction::Always, ID, &suggestions);
    assert_eq!(resp.decision, Decision::AlwaysAllow);
    assert_eq!(
        resp.always_allow_suggestion.as_ref().map(|s| s.render()),
        Some("{\"tool\":\"Bash\",\"command\":\"ls\"}".to_string())
    );
    assert!(status.contains("Always Allowed"));
}

#[test]
fn build_response_always_without_suggestion() {
    let (resp, _status) = build_callback_response(CallbackAction::Always, ID, &vec![]);
    assert_eq!(resp.decision, Decision::AlwaysAllow);
    assert!(resp.always_allow_suggestion.is_none());
}

#[test]
fn keyboard_without_suggestions_has_3_buttons() {
    let kb = make_keyboard(ID, false);
    assert_eq!(kb.len(), 3);
}

#[test]
fn keyboard_with_suggestions_has_4_buttons() {
    let kb = make_keyboard(ID, true);
    assert_eq!(kb.len(), 4);
}

#[test]
fn button_callback_data_format() {
    let kb = make_keyboard(ID, true);
    let id_str = format_request_id(ID);
    for (button, expected_action) in kb.iter().zip(["allow", "deny", "reply", "always"]) {
        let expected_data = format!("{id_str}:{expected_action}");
        assert_eq!(button.payload, expected_data);
    }
}

#[test]
fn callback_payloads_stay_within_platform_limit() {
    for id in [0u128, ID, u128::MAX] {
        for button in make_keyboard(id, true) {
            assert!(button.payload.len() <= 64);
            assert_eq!(button.payload.len(), 36 + 1 + button.payload.split(':').nth(1).unwrap().len());
        }
    }
}

#[test]
fn happy_path_allow_resolves_once() {
    let mut pending = PendingTable::new();
    register_pending(&mut pending, record(ID, vec![])).unwrap();
    let effects =
        handle_callback(&vec![12345], &mut pending, 12345, "q1".to_string(), payload(ID, "allow"));
    assert_eq!(effects.len(), 3);
    match &effects[0] {
        ChatEffect::AnswerCallback { query_id, toast, show_alert } => {
            assert_eq!(query_id, "q1");
            assert!(toast.is_none());
            assert!(!show_alert);
        },
        _ => panic!("expected a plain ack"),
    }
    match &effects[1] {
        ChatEffect::EditMessage { chat_id, message_id, text } => {
            assert_eq!(*chat_id, 12345);
            assert_eq!(*message_id, 7);
            assert_eq!(text, "notification\n\n\u{2705} Approved");
        },
        _ => panic!("expected an edit"),
    }
    let resp = delivered(&effects).unwrap();
    assert_eq!(resp.request_id, ID);
    assert_eq!(resp.decision, Decision::Allow);
    assert!(resp.message.is_none());
}

#[test]
fn second_callback_sees_already_handled() {
    let mut pending = PendingTable::new();
    register_pending(&mut pending, record(ID, vec![])).unwrap();
    let first =
        handle_callback(&vec![12345], &mut pending, 12345, "q1".to_string(), payload(ID, "allow"));
    assert!(delivered(&first).is_some());
    let second =
        handle_callback(&vec![12345], &mut pending, 12345, "q2".to_string(), payload(ID, "allow"));
    assert_eq!(second.len(), 1);
    match &second[0] {
        ChatEffect::AnswerCallback { toast, show_alert, .. } => {
            assert_eq!(toast.as_deref(), Some("This request has already been handled"));
            assert!(show_alert);
        },
        _ => panic!("expected an alert"),
    }
    assert!(delivered(&second).is_none());
}

#[test]
fn deny_carries_default_router_message() {
    let mut pending = PendingTable::new();
    register_pending(&mut pending, record(ID, vec![])).unwrap();
    let effects =
        handle_callback(&vec![12345], &mut pending, 12345, "q1".to_string(), payload(ID, "deny"));
    let resp = delivered(&effects).unwrap();
    assert_eq!(resp.decision, Decision::Deny);
    assert_eq!(resp.message.as_deref(), Some("Denied by user via Telegram"));
}

#[test]
fn always_allow_attaches_first_suggestion() {
    let mut pending = PendingTable::new();
    register_pending(&mut pending, record(ID, vec![suggestion()])).unwrap();
    let effects =
        handle_callback(&vec![12345], &mut pending, 12345, "q1".to_string(), payload(ID, "always"));
    let resp = delivered(&effects).unwrap();
    assert_eq!(resp.decision, Decision::AlwaysAllow);
    assert_eq!(
        resp.always_allow_suggestion.as_ref().map(|s| s.render()),
        Some("{\"tool\":\"Bash\",\"command\":\"ls\"}".to_string())
    );
}

#[test]
fn always_allow_without_suggestion_attaches_none() {
    let mut pending = PendingTable::new();
    register_pending(&mut pending, record(ID, vec![])).unwrap();
    let effects =
        handle_callback(&vec![12345], &mut pending, 12345, "q1".to_string(), payload(ID, "always"));
    let resp = delivered(&effects).unwrap();
    assert_eq!(resp.decision, Decision::AlwaysAllow);
    assert!(resp.always_allow_suggestion.is_none());
}

#[test]
fn reply_flow_prompts_then_resolves() {
    let mut pending = PendingTable::new();
    let mut prompts = ReplyPromptTable::new();
    register_pending(&mut pending, record(ID, vec![])).unwrap();

    let press =
        handle_callback(&vec![12345], &mut pending, 12345, "q1".to_string(), payload(ID, "reply"));
    assert_eq!(press.len(), 2);
    match &press[1] {
        ChatEffect::SendPrompt { chat_id, request_id, text } => {
            assert_eq!(*chat_id, 12345);
            assert_eq!(*request_id, ID);
            assert_eq!(text, "Type your reply:");
        },
        _ => panic!("expected the reply prompt"),
    }
    record_reply_prompt(&mut prompts, 12345, ID, 99);

    // Whitespace only: re-prompt, nothing resolves.
    let empty = handle_message(
        &vec![12345],
        &mut pending,
        &mut prompts,
        12345,
        Some("   \n".to_string()),
    );
    assert_eq!(empty.len(), 1);
    match &empty[0] {
        ChatEffect::SendPrompt { request_id, text, .. } => {
            assert_eq!(*request_id, ID);
            assert_eq!(text, "Reply cannot be empty. Type your reply:");
        },
        _ => panic!("expected a re-prompt"),
    }
    assert!(delivered(&empty).is_none());
    record_reply_prompt(&mut prompts, 12345, ID, 100);

    // A real reply resolves the request.
    let effects = handle_message(
        &vec![12345],
        &mut pending,
        &mut prompts,
        12345,
        Some(" please use pytest ".to_string()),
    );
    let resp = delivered(&effects).unwrap();
    assert_eq!(resp.decision, Decision::Reply);
    assert_eq!(resp.user_message.as_deref(), Some("please use pytest"));
    let deleted = effects.iter().any(|e| {
        matches!(e, ChatEffect::DeleteMessage { chat_id: 12345, message_id: 100 })
    });
    assert!(deleted, "the prompt message is deleted");
}

#[test]
fn unauthorized_chat_changes_nothing() {
    let mut pending = PendingTable::new();
    let mut prompts = ReplyPromptTable::new();
    register_pending(&mut pending, record(ID, vec![])).unwrap();

    let press =
        handle_callback(&vec![12345], &mut pending, 666, "q1".to_string(), payload(ID, "allow"));
    assert_eq!(press.len(), 1);
    match &press[0] {
        ChatEffect::AnswerCallback { toast, show_alert, .. } => {
            assert_eq!(toast.as_deref(), Some("Unauthorized"));
            assert!(show_alert);
        },
        _ => panic!("expected the unauthorized alert"),
    }

    let msg = handle_message(
        &vec![12345],
        &mut pending,
        &mut prompts,
        666,
        Some("whatever".to_string()),
    );
    assert!(msg.is_empty());

    // The request is still pending and resolvable.
    let effects =
        handle_callback(&vec![12345], &mut pending, 12345, "q2".to_string(), payload(ID, "allow"));
    assert!(delivered(&effects).is_some());
}

#[test]
fn malformed_payload_is_dropped() {
    let mut pending = PendingTable::new();
    register_pending(&mut pending, record(ID, vec![])).unwrap();
    let effects = handle_callback(
        &vec![12345],
        &mut pending,
        12345,
        "q1".to_string(),
        Some("garbage".to_string()),
    );
    assert!(effects.is_empty());
    let none = handle_callback(&vec![12345], &mut pending, 12345, "q2".to_string(), None);
    assert!(none.is_empty());
}

#[test]
fn timeout_annotates_and_responds() {
    let mut pending = PendingTable::new();
    register_pending(&mut pending, record(ID, vec![])).unwrap();
    let (resp, effects) = on_timeout(&mut pending, ID);
    assert_eq!(resp.request_id, ID);
    assert_eq!(resp.decision, Decision::Timeout);
    assert_eq!(effects.len(), 1);
    match &effects[0] {
        ChatEffect::EditMessage { text, .. } => {
            assert_eq!(text, "notification\n\n\u{23f1}\u{fe0f} Timed out");
        },
        _ => panic!("expected the timed-out edit"),
    }
    // A later timeout finds nothing and edits nothing.
    let (resp2, effects2) = on_timeout(&mut pending, ID);
    assert_eq!(resp2.decision, Decision::Timeout);
    assert!(effects2.is_empty());
}

#[test]
fn cancel_responds_without_edits() {
    let mut pending = PendingTable::new();
    register_pending(&mut pending, record(ID, vec![])).unwrap();
    let resp = on_cancel(&mut pending, ID);
    assert_eq!(resp.decision, Decision::Timeout);
    assert_eq!(resp.request_id, ID);
    // The record is gone: a button press now reports already handled.
    let effects =
        handle_callback(&vec![12345], &mut pending, 12345, "q1".to_string(), payload(ID, "allow"));
    assert!(delivered(&effects).is_none());
}

#[test]
fn shutdown_drain_frees_every_request() {
    let mut pending = PendingTable::new();
    register_pending(&mut pending, record(1, vec![])).unwrap();
    register_pending(&mut pending, record(2, vec![])).unwrap();
    register_pending(&mut pending, record(3, vec![])).unwrap();
    let responses = drain_to_responses(&mut pending);
    assert_eq!(responses.len(), 3);
    let mut ids: Vec<u128> = responses.iter().map(|r| r.request_id).collect();
    ids.sort();
    assert_eq!(ids, vec![1, 2, 3]);
    for r in &responses {
        assert_eq!(r.decision, Decision::Timeout);
    }
    // Nothing left to resolve.
    let (_, effects) = on_timeout(&mut pending, 2);
    assert!(effects.is_empty());
}

#[test]
fn register_rejects_empty_sends_and_reuse() {
    let mut pending = PendingTable::new();
    let mut empty = record(ID, vec![]);
    empty.sent_messages = vec![];
    assert_eq!(register_pending(&mut pending, empty), Err(RegisterError::NoChatsReached));
    register_pending(&mut pending, record(ID, vec![])).unwrap();
    assert_eq!(
        register_pending(&mut pending, record(ID, vec![])),
        Err(RegisterError::AlreadyRegistered)
    );
}

#[test]
fn no_socket_returns_ok() {
    assert_eq!(
        stale_socket_action(SocketProbe::Absent, "/tmp/x.sock".to_string()).unwrap(),
        SocketAction::Bind
    );
}

#[test]
fn stale_socket_is_removed() {
    assert_eq!(
        stale_socket_action(SocketProbe::Refused, "/tmp/x.sock".to_string()).unwrap(),
        SocketAction::UnlinkThenBind
    );
    assert_eq!(
        stale_socket_action(SocketProbe::OtherError, "/tmp/x.sock".to_string()).unwrap(),
        SocketAction::UnlinkThenBind
    );
}

#[test]
fn active_socket_returns_already_running() {
    let err = stale_socket_action(SocketProbe::Connected, "/tmp/x.sock".to_string()).unwrap_err();
    assert!(err.message().contains("already running"));
}

#[test]
fn connection_budget_admits_up_to_the_cap() {
    let mut budget = vibe_reachout::server::ConnectionBudget::new(2);
    assert!(budget.try_acquire());
    assert!(budget.try_acquire());
    assert!(!budget.try_acquire());
    budget.release();
    assert!(budget.try_acquire());
    assert!(!budget.try_acquire());
}

#[test]
fn end_to_end_allow_becomes_allow_output() {
    // The hook's request is registered, the chat presses the allow button
    // the keyboard produced, and the delivered decision maps to the
    // allowing output.
    let mut pending = PendingTable::new();
    register_pending(&mut pending, record(ID, vec![])).unwrap();
    let button = &make_keyboard(ID, false)[0];
    let effects = handle_callback(
        &vec![12345],
        &mut pending,
        12345,
        "q1".to_string(),
        Some(button.payload.clone()),
    );
    let resp = delivered(&effects).unwrap();
    assert_eq!(resp.request_id, ID);
    let output = map_decision_to_output(resp).unwrap();
    let d = output.hook_specific_output.decision;
    assert_eq!(d.behavior, HookBehavior::Allow);
    assert!(d.message.is_none());
    assert!(d.updated_permissions.is_none());
}
