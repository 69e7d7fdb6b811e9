use vibe_reachout::callback::CallbackAction;
use vibe_reachout::callback::CallbackData;
use vibe_reachout::request_id::format_request_id;
use vibe_reachout::request_id::parse_request_id;

const ID: u128 = 0x550e8400e29b41d4a716446655440000;

#[test]
fn parse_valid_allow() {
    let data = format!("{}:allow", format_request_id(ID));
    let parsed = CallbackData::parse(&data).unwrap();
    assert_eq!(parsed.request_id, ID);
    assert_eq!(parsed.action, CallbackAction::Allow);
}

#[test]
fn parse_valid_deny() {
    let data = format!("{}:deny", format_request_id(ID));
    let parsed = CallbackData::parse(&data).unwrap();
    assert_eq!(parsed.action, CallbackAction::Deny);
}

#[test]
fn parse_valid_reply() {
    let data = format!("{}:reply", format_request_id(ID));
    let parsed = CallbackData::parse(&data).unwrap();
    assert_eq!(parsed.action, CallbackAction::Reply);
}

#[test]
fn parse_valid_always() {
    let data = format!("{}:always", format_request_id(ID));
    let parsed = CallbackData::parse(&data).unwrap();
    assert_eq!(parsed.action, CallbackAction::Always);
}

#[test]
fn parse_unknown_action_returns_none() {
    let data = format!("{}:unknown", format_request_id(ID));
    assert!(CallbackData::parse(&data).is_none());
}

#[test]
fn parse_invalid_uuid_returns_none() {
    assert!(CallbackData::parse("not-a-uuid:allow").is_none());
}

#[test]
fn parse_no_colon_returns_none() {
    assert!(CallbackData::parse("justadata").is_none());
}

#[test]
fn parse_empty_returns_none() {
    assert!(CallbackData::parse("").is_none());
}

#[test]
fn request_id_renders_canonical_form() {
    assert_eq!(
        format_request_id(ID),
        "550e8400-e29b-41d4-a716-446655440000"
    );
    assert_eq!(format_request_id(0), "00000000-0000-0000-0000-000000000000");
}

#[test]
fn request_id_round_trips() {
    for id in [0u128, 1, ID, u128::MAX] {
        let text = format_request_id(id);
        assert_eq!(text.len(), 36);
        assert_eq!(parse_request_id(&text), Some(id));
    }
}

#[test]
fn request_id_rejects_other_shapes() {
    assert!(parse_request_id("").is_none());
    assert!(parse_request_id("550e8400e29b41d4a716446655440000").is_none());
    assert!(parse_request_id("550e8400-e29b-41d4-a716-44665544000g").is_none());
    assert!(parse_request_id("550E8400-E29B-41D4-A716-446655440000").is_none());
}
