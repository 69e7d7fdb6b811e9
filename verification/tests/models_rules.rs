use vibe_reachout::json::Json;
use vibe_reachout::models::Decision;
use vibe_reachout::models::HookBehavior;
use vibe_reachout::models::HookEventName;
use vibe_reachout::models::HookOutput;
use vibe_reachout::models::IpcResponse;

#[test]
fn hook_output_allow_produces_correct_json() {
    let output = HookOutput::allow();
    let hso = output.hook_specific_output;
    assert_eq!(hso.hook_event_name, HookEventName::PermissionRequest);
    assert_eq!(hso.decision.behavior, HookBehavior::Allow);
    assert!(hso.decision.message.is_none());
    assert!(hso.decision.updated_permissions.is_none());
}

#[test]
fn hook_output_deny_produces_correct_json() {
    let output = HookOutput::deny("not allowed".to_string());
    let hso = output.hook_specific_output;
    assert_eq!(hso.decision.behavior, HookBehavior::Deny);
    assert_eq!(hso.decision.message.as_deref(), Some("not allowed"));
}

#[test]
fn hook_output_allow_always_includes_updated_permissions() {
    let perms = vec![Json::Obj(vec![
        ("tool".to_string(), Json::Str("Bash".to_string())),
        ("command".to_string(), Json::Str("ls".to_string())),
    ])];
    let output = HookOutput::allow_always(perms);
    let hso = output.hook_specific_output;
    assert_eq!(hso.decision.behavior, HookBehavior::Allow);
    let updated = hso.decision.updated_permissions.unwrap();
    assert_eq!(updated.len(), 1);
    assert_eq!(updated[0].render(), "{\"tool\":\"Bash\",\"command\":\"ls\"}");
}

#[test]
fn ipc_response_timeout_constructor() {
    let id: u128 = 0x550e8400e29b41d4a716446655440000;
    let resp = IpcResponse::timeout(id);
    assert_eq!(resp.request_id, id);
    assert_eq!(resp.decision, Decision::Timeout);
    assert!(resp.message.is_none());
    assert!(resp.user_message.is_none());
    assert!(resp.always_allow_suggestion.is_none());
}

#[test]
fn ipc_response_constructors_produce_correct_decisions() {
    let id: u128 = 42;

    let allow = IpcResponse::allow(id);
    assert_eq!(allow.decision, Decision::Allow);

    let deny = IpcResponse::deny(id, "nope".to_string());
    assert_eq!(deny.decision, Decision::Deny);
    assert_eq!(deny.message.as_deref(), Some("nope"));

    let suggestion = Json::Obj(vec![("tool".to_string(), Json::Str("Bash".to_string()))]);
    let always = IpcResponse::always_allow(id, Some(suggestion));
    assert_eq!(always.decision, Decision::AlwaysAllow);
    assert_eq!(
        always.always_allow_suggestion.as_ref().map(|s| s.render()),
        Some("{\"tool\":\"Bash\"}".to_string())
    );

    let reply = IpcResponse::reply(id, "use pytest".to_string());
    assert_eq!(reply.decision, Decision::Reply);
    assert_eq!(reply.user_message.as_deref(), Some("use pytest"));
}

#[test]
fn json_renderer_covers_every_shape() {
    let doc = Json::Obj(vec![
        ("n".to_string(), Json::Null),
        ("b".to_string(), Json::Bool(true)),
        ("f".to_string(), Json::Bool(false)),
        ("num".to_string(), Json::Num("600".to_string())),
        ("s".to_string(), Json::Str("a\"b\\c\nd".to_string())),
        (
            "arr".to_string(),
            Json::Arr(vec![Json::Num("1".to_string()), Json::Num("2".to_string())]),
        ),
    ]);
    assert_eq!(
        doc.render(),
        "{\"n\":null,\"b\":true,\"f\":false,\"num\":600,\"s\":\"a\\\"b\\\\c\\nd\",\"arr\":[1,2]}"
    );
}

#[test]
fn json_get_finds_first_entry() {
    let doc = Json::Obj(vec![
        ("a".to_string(), Json::Num("1".to_string())),
        ("b".to_string(), Json::Num("2".to_string())),
        ("a".to_string(), Json::Num("3".to_string())),
    ]);
    assert_eq!(doc.get("a").unwrap().render(), "1");
    assert_eq!(doc.get("b").unwrap().render(), "2");
    assert!(doc.get("missing").is_none());
    assert!(Json::Null.get("a").is_none());
}
