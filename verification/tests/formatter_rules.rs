use vibe_reachout::formatter::format_permission_message;
use vibe_reachout::json::Json;
use vibe_reachout::models::IpcRequest;

fn jstr(s: &str) -> Json {
    Json::Str(s.to_string())
}

fn jobj(fields: Vec<(&str, Json)>) -> Json {
    Json::Obj(fields.into_iter().map(|(k, v)| (k.to_string(), v)).collect())
}

fn make_request(tool_name: &str, tool_input: Json) -> IpcRequest {
    IpcRequest {
        request_id: 9,
        tool_name: tool_name.to_string(),
        tool_input,
        cwd: "/home/user/my-project".to_string(),
        session_id: "abcdef1234567890".to_string(),
        permission_suggestions: vec![],
        assistant_context: None,
    }
}

#[test]
fn format_bash_tool() {
    let req = make_request("Bash", jobj(vec![("command", jstr("ls -la"))]));
    let msg = format_permission_message(&req);
    assert!(msg.contains("<b>\u{1f527} Bash</b>"));
    assert!(msg.contains("<pre>ls -la</pre>"));
    assert!(msg.contains("my-project"));
}

#[test]
fn format_write_tool() {
    let content = "a".repeat(100);
    let req = make_request(
        "Write",
        jobj(vec![("file_path", jstr("/tmp/test.rs")), ("content", jstr(&content))]),
    );
    let msg = format_permission_message(&req);
    assert!(msg.contains("<b>\u{1f527} Write</b>"));
    assert!(msg.contains("<code>/tmp/test.rs</code>"));
    assert!(msg.contains("100 B"));
}

#[test]
fn format_edit_tool() {
    let req = make_request(
        "Edit",
        jobj(vec![
            ("file_path", jstr("/tmp/test.rs")),
            ("old_string", jstr("fn old()")),
            ("new_string", jstr("fn new()")),
        ]),
    );
    let msg = format_permission_message(&req);
    assert!(msg.contains("<b>\u{1f527} Edit</b>"));
    assert!(msg.contains("<code>/tmp/test.rs</code>"));
    assert!(msg.contains("- fn old()"));
    assert!(msg.contains("+ fn new()"));
    assert!(msg.contains("<pre>"));
}

#[test]
fn format_unknown_tool_shows_json() {
    let req = make_request("CustomTool", jobj(vec![("key", jstr("value"))]));
    let msg = format_permission_message(&req);
    assert!(msg.contains("<b>\u{1f527} CustomTool</b>"));
    assert!(msg.contains("<pre>"));
    assert!(msg.contains("key"));
    assert!(msg.contains("value"));
}

#[test]
fn field_truncation_at_500_chars() {
    let long_command = "x".repeat(600);
    let req = make_request("Bash", jobj(vec![("command", jstr(&long_command))]));
    let msg = format_permission_message(&req);
    assert!(msg.contains("... (truncated)"));
    // The full 600-char command should NOT appear
    assert!(!msg.contains(&long_command));
}

#[test]
fn total_message_truncation_at_4000_chars() {
    // A very long command pushes the total over the body budget
    let long_command = "y".repeat(4500);
    let req = make_request("Bash", jobj(vec![("command", jstr(&long_command))]));
    let msg = format_permission_message(&req);
    assert!(msg.len() <= 4000 + "... (truncated)".len());
}

#[test]
fn session_id_truncated_to_8_chars() {
    let req = make_request("Bash", jobj(vec![("command", jstr("ls"))]));
    let msg = format_permission_message(&req);
    assert!(msg.contains("<code>abcdef12</code>"));
    // Should not contain full session ID
    assert!(!msg.contains("abcdef1234567890"));
}

#[test]
fn format_with_assistant_context() {
    let mut req = make_request("Bash", jobj(vec![("command", jstr("cargo test"))]));
    req.assistant_context = Some("I will run the tests now.".to_string());
    let msg = format_permission_message(&req);
    assert!(msg.contains("\u{1f4ac} I will run the tests now."));
    // Project name should appear before context
    let project_pos = msg.find("\u{1f4cb}").unwrap();
    let context_pos = msg.find("\u{1f4ac}").unwrap();
    assert!(project_pos < context_pos);
}

#[test]
fn format_without_assistant_context() {
    let req = make_request("Bash", jobj(vec![("command", jstr("cargo test"))]));
    let msg = format_permission_message(&req);
    assert!(!msg.contains("\u{1f4ac}"));
}

#[test]
fn html_special_chars_in_command_are_escaped() {
    let req = make_request("Bash", jobj(vec![("command", jstr("echo '<hello>' && true"))]));
    let msg = format_permission_message(&req);
    assert!(msg.contains("&lt;hello&gt;"));
    assert!(msg.contains("&amp;&amp;"));
    // Raw < and > should not appear in the command area
    assert!(!msg.contains("<hello>"));
}

#[test]
fn html_special_chars_in_file_path_are_escaped() {
    let req = make_request(
        "Write",
        jobj(vec![("file_path", jstr("/tmp/<test>.rs")), ("content", jstr("x"))]),
    );
    let msg = format_permission_message(&req);
    assert!(msg.contains("&lt;test&gt;"));
}

#[test]
fn html_special_chars_in_assistant_context_are_escaped() {
    let mut req = make_request("Bash", jobj(vec![("command", jstr("ls"))]));
    req.assistant_context = Some("Use <pre> tags & stuff".to_string());
    let msg = format_permission_message(&req);
    assert!(msg.contains("&lt;pre&gt; tags &amp; stuff"));
}

#[test]
fn project_name_bold_html() {
    let req = make_request("Bash", jobj(vec![("command", jstr("ls"))]));
    let msg = format_permission_message(&req);
    assert!(msg.contains("<b>\u{1f4cb} my-project</b>"));
}
