use vibe_reachout::install::run_install;
use vibe_reachout::json::Json;

fn jstr(s: &str) -> Json {
    Json::Str(s.to_string())
}

fn jobj(fields: Vec<(&str, Json)>) -> Json {
    Json::Obj(fields.into_iter().map(|(k, v)| (k.to_string(), v)).collect())
}

fn other_tool_matcher() -> Json {
    jobj(vec![(
        "hooks",
        Json::Arr(vec![jobj(vec![("type", jstr("command")), ("command", jstr("other-tool"))])]),
    )])
}

fn perm_entries(settings: &Json) -> Vec<Json> {
    let hooks = settings.get("hooks").expect("hooks object");
    let perm = hooks.get("PermissionRequest").expect("PermissionRequest list");
    match perm {
        Json::Arr(items) => items,
        _ => panic!("PermissionRequest must be a list"),
    }
}

#[test]
fn install_into_empty_file_creates_structure() {
    let settings = run_install(Json::Obj(vec![]));
    let arr = perm_entries(&settings);
    assert_eq!(arr.len(), 1);
    let inner = arr[0].get("hooks").unwrap();
    let inner_hooks = match inner {
        Json::Arr(items) => items,
        _ => panic!("hooks must be a list"),
    };
    let entry = &inner_hooks[0];
    assert_eq!(entry.get("command").unwrap().render(), "\"vibe-reachout\"");
    assert_eq!(entry.get("type").unwrap().render(), "\"command\"");
    assert_eq!(entry.get("timeout").unwrap().render(), "600");
}

#[test]
fn install_preserves_existing_hooks() {
    let existing = jobj(vec![(
        "hooks",
        jobj(vec![("PreToolUse", Json::Arr(vec![other_tool_matcher()]))]),
    )]);
    let settings = run_install(existing);
    let hooks = settings.get("hooks").unwrap();
    // Existing hook preserved
    assert!(matches!(hooks.get("PreToolUse"), Some(Json::Arr(_))));
    // New hook added
    assert!(matches!(hooks.get("PermissionRequest"), Some(Json::Arr(_))));
}

#[test]
fn install_is_idempotent() {
    let once = run_install(Json::Obj(vec![]));
    let twice = run_install(once.duplicate());
    assert_eq!(once.render(), twice.render());
    assert_eq!(perm_entries(&twice).len(), 1);
}

#[test]
fn install_twice_on_populated_settings_is_idempotent() {
    let existing = jobj(vec![(
        "hooks",
        jobj(vec![("PermissionRequest", Json::Arr(vec![other_tool_matcher()]))]),
    )]);
    let once = run_install(existing);
    let twice = run_install(once.duplicate());
    assert_eq!(once.render(), twice.render());
}

#[test]
fn install_adds_alongside_existing_permission_hooks() {
    let existing = jobj(vec![(
        "hooks",
        jobj(vec![("PermissionRequest", Json::Arr(vec![other_tool_matcher()]))]),
    )]);
    let settings = run_install(existing);
    let arr = perm_entries(&settings);
    assert_eq!(arr.len(), 2); // original + the new registration
}

#[test]
fn install_refreshes_existing_registration_in_place() {
    let stale_ours = jobj(vec![(
        "hooks",
        Json::Arr(vec![jobj(vec![
            ("type", jstr("command")),
            ("command", jstr("vibe-reachout")),
            ("timeout", Json::Num("5".to_string())),
        ])]),
    )]);
    let existing = jobj(vec![(
        "hooks",
        jobj(vec![("PermissionRequest", Json::Arr(vec![stale_ours]))]),
    )]);
    let settings = run_install(existing);
    let arr = perm_entries(&settings);
    assert_eq!(arr.len(), 1);
    let inner = match arr[0].get("hooks").unwrap() {
        Json::Arr(items) => items,
        _ => panic!("hooks must be a list"),
    };
    assert_eq!(inner[0].get("timeout").unwrap().render(), "600");
}
