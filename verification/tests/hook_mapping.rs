use vibe_reachout::hook::extract_last_assistant_text;
use vibe_reachout::hook::map_decision_to_output;
use vibe_reachout::json::Json;
use vibe_reachout::models::Decision;
use vibe_reachout::models::HookBehavior;
use vibe_reachout::models::IpcResponse;

fn make_response(decision: Decision) -> IpcResponse {
    IpcResponse {
        request_id: 7,
        decision,
        message: None,
        user_message: None,
        always_allow_suggestion: None,
    }
}

fn jstr(s: &str) -> Json {
    Json::Str(s.to_string())
}

fn jobj(fields: Vec<(&str, Json)>) -> Json {
    Json::Obj(fields.into_iter().map(|(k, v)| (k.to_string(), v)).collect())
}

fn assistant_entry(texts: Vec<&str>) -> Json {
    let blocks: Vec<Json> = texts
        .into_iter()
        .map(|t| jobj(vec![("type", jstr("text")), ("text", jstr(t))]))
        .collect();
    jobj(vec![
        ("type", jstr("assistant")),
        ("message", jobj(vec![("content", Json::Arr(blocks))])),
    ])
}

#[test]
fn map_allow() {
    let resp = make_response(Decision::Allow);
    let output = map_decision_to_output(&resp).unwrap();
    let d = output.hook_specific_output.decision;
    assert_eq!(d.behavior, HookBehavior::Allow);
    assert!(d.message.is_none());
}

#[test]
fn map_deny_with_message() {
    let mut resp = make_response(Decision::Deny);
    resp.message = Some("custom denial".to_string());
    let output = map_decision_to_output(&resp).unwrap();
    let d = output.hook_specific_output.decision;
    assert_eq!(d.behavior, HookBehavior::Deny);
    assert_eq!(d.message.as_deref(), Some("custom denial"));
}

#[test]
fn map_deny_without_message() {
    let resp = make_response(Decision::Deny);
    let output = map_decision_to_output(&resp).unwrap();
    let d = output.hook_specific_output.decision;
    assert_eq!(d.message.as_deref(), Some("Denied via Telegram"));
}

#[test]
fn map_always_allow_with_suggestion() {
    let mut resp = make_response(Decision::AlwaysAllow);
    resp.always_allow_suggestion =
        Some(jobj(vec![("tool", jstr("Bash")), ("command", jstr("ls"))]));
    let output = map_decision_to_output(&resp).unwrap();
    let d = output.hook_specific_output.decision;
    assert_eq!(d.behavior, HookBehavior::Allow);
    let perms = d.updated_permissions.unwrap();
    assert_eq!(perms.len(), 1);
    assert_eq!(
        perms[0].render(),
        "{\"tool\":\"Bash\",\"command\":\"ls\"}"
    );
}

#[test]
fn map_always_allow_without_suggestion() {
    let resp = make_response(Decision::AlwaysAllow);
    let output = map_decision_to_output(&resp).unwrap();
    let d = output.hook_specific_output.decision;
    let perms = d.updated_permissions.unwrap();
    assert!(perms.is_empty());
}

#[test]
fn map_reply_with_message() {
    let mut resp = make_response(Decision::Reply);
    resp.user_message = Some("please use pytest".to_string());
    let output = map_decision_to_output(&resp).unwrap();
    let d = output.hook_specific_output.decision;
    assert_eq!(d.behavior, HookBehavior::Deny);
    assert_eq!(
        d.message.as_deref(),
        Some("The user wants you to modify your approach: please use pytest")
    );
}

#[test]
fn map_reply_without_message() {
    let resp = make_response(Decision::Reply);
    let output = map_decision_to_output(&resp).unwrap();
    let d = output.hook_specific_output.decision;
    assert_eq!(
        d.message.as_deref(),
        Some("The user wants you to modify your approach: (no message)")
    );
}

#[test]
fn map_timeout_returns_none() {
    let resp = make_response(Decision::Timeout);
    assert!(map_decision_to_output(&resp).is_none());
}

#[test]
fn extract_assistant_text_from_transcript() {
    let entries = vec![
        jobj(vec![
            ("type", jstr("user")),
            (
                "message",
                jobj(vec![(
                    "content",
                    Json::Arr(vec![jobj(vec![("type", jstr("text")), ("text", jstr("hello"))])]),
                )]),
            ),
        ]),
        assistant_entry(vec!["I will run the tests now."]),
        jobj(vec![
            ("type", jstr("tool_use")),
            ("message", jobj(vec![("content", Json::Arr(vec![]))])),
        ]),
    ];
    let result = extract_last_assistant_text(&entries);
    assert_eq!(result.as_deref(), Some("I will run the tests now."));
}

#[test]
fn extract_assistant_text_skips_non_text_blocks() {
    let entries = vec![
        jobj(vec![
            ("type", jstr("assistant")),
            (
                "message",
                jobj(vec![(
                    "content",
                    Json::Arr(vec![jobj(vec![("type", jstr("tool_use")), ("id", jstr("123"))])]),
                )]),
            ),
        ]),
        assistant_entry(vec!["Final message"]),
    ];
    let result = extract_last_assistant_text(&entries);
    assert_eq!(result.as_deref(), Some("Final message"));
}

#[test]
fn extract_assistant_text_concatenates_multiple_text_blocks() {
    let entries = vec![assistant_entry(vec!["Part 1", "Part 2"])];
    let result = extract_last_assistant_text(&entries);
    assert_eq!(result.as_deref(), Some("Part 1\nPart 2"));
}

#[test]
fn extract_assistant_text_returns_none_for_empty_file() {
    let entries: Vec<Json> = vec![];
    let result = extract_last_assistant_text(&entries);
    assert!(result.is_none());
}

#[test]
fn extract_assistant_text_truncates_long_text() {
    let long_text = "x".repeat(600);
    let entries = vec![assistant_entry(vec![&long_text])];
    let result = extract_last_assistant_text(&entries).unwrap();
    assert!(result.len() <= 500 + 3);
    assert!(result.ends_with("..."));
}
