use vibe_reachout::text::escape_html;
use vibe_reachout::text::format_size;
use vibe_reachout::text::trim_text;
use vibe_reachout::text::truncate;
use vibe_reachout::text::truncate_assistant_context;

#[test]
fn truncate_assistant_context_short_text() {
    let result = truncate_assistant_context("short text");
    assert_eq!(result, "short text");
}

#[test]
fn truncate_assistant_context_long_text() {
    let long = "a".repeat(600);
    let result = truncate_assistant_context(&long);
    assert!(result.ends_with("..."));
    assert!(result.len() <= 500 + 3);
}

#[test]
fn format_size_bytes() {
    assert_eq!(format_size(0), "0 B");
    assert_eq!(format_size(512), "512 B");
    assert_eq!(format_size(1023), "1023 B");
}

#[test]
fn format_size_kilobytes() {
    assert_eq!(format_size(1024), "1.0 KB");
    assert_eq!(format_size(1536), "1.5 KB");
    assert_eq!(format_size(1024 * 100), "100.0 KB");
}

#[test]
fn format_size_megabytes() {
    assert_eq!(format_size(1024 * 1024), "1.0 MB");
    assert_eq!(format_size(1024 * 1024 * 5), "5.0 MB");
}

#[test]
fn truncate_on_multibyte_utf8() {
    // Emoji (4 bytes each): cutting at byte 5 would land inside the second emoji
    let input = "\u{1f600}\u{1f601}\u{1f602}\u{1f603}"; // 4 emoji = 16 bytes
    let result = truncate(input, 5);
    // Should truncate at char boundary (after first emoji, byte 4)
    assert!(result.starts_with("\u{1f600}"));
    assert!(result.ends_with("... (truncated)"));
    // Must not contain the second emoji fully
    assert!(!result.contains("\u{1f601}\u{1f602}\u{1f603}"));

    // CJK characters (3 bytes each): cutting at byte 4 lands inside second char
    let cjk = "\u{4e16}\u{754c}\u{4f60}\u{597d}"; // 4 CJK = 12 bytes
    let result = truncate(cjk, 4);
    assert!(result.starts_with("\u{4e16}"));
    assert!(result.ends_with("... (truncated)"));
}

#[test]
fn truncate_long_message_on_multibyte_utf8() {
    let input = "Hello \u{1f30d}\u{1f30d}\u{1f30d}".to_string() + &"x".repeat(4000);
    let result = truncate(&input, 10);
    // Byte 10 lands at the end of the first emoji (6 ASCII + 4 bytes of it)
    assert!(result.ends_with("... (truncated)"));
    // Should not panic and should be valid UTF-8
    assert!(result.is_char_boundary(0));
}

#[test]
fn escape_html_special_chars() {
    assert_eq!(escape_html("a < b & c > d"), "a &lt; b &amp; c &gt; d");
    assert_eq!(
        escape_html("<script>alert('xss')</script>"),
        "&lt;script&gt;alert('xss')&lt;/script&gt;"
    );
    assert_eq!(escape_html("no special chars"), "no special chars");
    assert_eq!(escape_html(""), "");
}

#[test]
fn truncate_keeps_short_text_whole() {
    assert_eq!(truncate("hello", 500), "hello");
    assert_eq!(truncate("", 0), "");
}

#[test]
fn truncate_exact_boundary_is_kept_whole() {
    let text = "x".repeat(500);
    assert_eq!(truncate(&text, 500), text);
    let over = "x".repeat(501);
    let cut = truncate(&over, 500);
    assert_eq!(cut, format!("{}... (truncated)", "x".repeat(500)));
}

#[test]
fn trim_strips_surrounding_whitespace() {
    assert_eq!(trim_text("  please use pytest \n"), "please use pytest");
    assert_eq!(trim_text(" \t \r\n "), "");
    assert_eq!(trim_text("inner  space"), "inner  space");
}
