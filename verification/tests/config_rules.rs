use vibe_reachout::config::default_socket_path;
use vibe_reachout::config::default_timeout;
use vibe_reachout::config::Config;

fn load(
    token: &str,
    chat_ids: Vec<i64>,
    timeout: Option<u64>,
    socket_path: Option<&str>,
    parent_exists: bool,
) -> Result<Config, vibe_reachout::error::BotError> {
    Config::load(
        token.to_string(),
        chat_ids,
        timeout,
        socket_path.map(|p| p.to_string()),
        parent_exists,
    )
}

#[test]
fn load_valid_config() {
    let config = load("123:ABC", vec![12345], Some(120), None, true).unwrap();
    assert_eq!(config.telegram_bot_token, "123:ABC");
    assert_eq!(config.allowed_chat_ids, vec![12345]);
    assert_eq!(config.timeout_seconds, 120);
    assert!(config.socket_path.is_none());
}

#[test]
fn default_timeout_is_300() {
    let config = load("tok", vec![1], None, None, true).unwrap();
    assert_eq!(config.timeout_seconds, 300);
    assert_eq!(default_timeout(), 300);
}

#[test]
fn empty_token_rejected() {
    let err = load("", vec![1], None, None, true).unwrap_err();
    assert!(err.message().contains("telegram_bot_token"));
}

#[test]
fn empty_chat_ids_rejected() {
    let err = load("tok", vec![], None, None, true).unwrap_err();
    assert!(err.message().contains("allowed_chat_ids"));
}

#[test]
fn timeout_zero_rejected() {
    assert!(load("tok", vec![1], Some(0), None, true).is_err());
}

#[test]
fn timeout_3601_rejected() {
    assert!(load("tok", vec![1], Some(3601), None, true).is_err());
}

#[test]
fn timeout_boundary_values_accepted() {
    for timeout in [1u64, 3600] {
        assert!(load("tok", vec![1], Some(timeout), None, true).is_ok());
    }
}

#[test]
fn effective_socket_path_uses_custom_if_set() {
    let config = load("tok", vec![1], None, Some("/tmp/custom.sock"), true).unwrap();
    let fallback = default_socket_path(None, 1000);
    assert_eq!(config.effective_socket_path(fallback), "/tmp/custom.sock");
}

#[test]
fn effective_socket_path_falls_back_to_default() {
    let config = load("tok", vec![1], None, None, true).unwrap();
    let fallback = default_socket_path(None, 1000);
    assert_eq!(config.effective_socket_path(fallback.clone()), fallback);
}

#[test]
fn socket_path_with_nonexistent_parent_rejected() {
    let err = load("tok", vec![1], None, Some("/nonexistent/dir/test.sock"), false).unwrap_err();
    assert!(err.message().contains("socket_path parent directory"));
}

#[test]
fn default_socket_path_contains_expected_name() {
    let path = default_socket_path(None, 1000);
    assert!(path.contains("vibe-reachout"));
    assert!(path.ends_with(".sock"));
    assert_eq!(path, "/tmp/vibe-reachout-1000.sock");
    let runtime = default_socket_path(Some("/run/user/1000".to_string()), 1000);
    assert_eq!(runtime, "/run/user/1000/vibe-reachout.sock");
}
