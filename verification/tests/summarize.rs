use codex_hook::summarizer::{chat_url, generate, local_summary, remote_request, render_prompt};
use codex_hook::config::Config;

fn cfg_with(pairs: Vec<(&str, &str)>) -> Config {
    let owned: Vec<(String, String)> = pairs
        .into_iter()
        .map(|(k, v)| (k.to_string(), v.to_string()))
        .collect();
    Config::from_pairs(&owned).0
}

#[test]
fn local_summary_returns_normalized_when_it_fits() {
    assert_eq!(
        local_summary("Did X.\nDid Y.\nDone.", 20),
        "Did X.\u{3002}Did Y.\u{3002}Done."
    );
}

#[test]
fn local_summary_drops_blank_lines() {
    assert_eq!(local_summary("a\n\n   \nb", 100), "a\u{3002}b");
}

#[test]
fn local_summary_strips_carriage_returns_before_line_feeds() {
    assert_eq!(local_summary("a\r\nb", 10), "a\u{3002}b");
}

#[test]
fn local_summary_cuts_at_last_clause_punctuation() {
    // Normalized text is 12 characters; the 10-character prefix ends after "g",
    // and the last clause punctuation inside it sits at index 7.
    assert_eq!(local_summary("abc\u{3002}def\u{3002}ghij", 10), "abc\u{3002}def\u{3002}");
}

#[test]
fn local_summary_appends_ellipsis_without_clause_punctuation() {
    assert_eq!(local_summary("abcdefghijkl", 5), "abcde...");
}

#[test]
fn local_summary_bounded_by_max_plus_ellipsis() {
    for max in 1..30usize {
        let out = local_summary("no punctuation at all just words", max);
        assert!(out.chars().count() <= max + 3);
    }
}

#[test]
fn local_summary_counts_characters_not_bytes() {
    // Four three-byte characters survive a four-character budget untouched;
    // a two-character budget cuts between characters, never inside one.
    assert_eq!(local_summary("\u{4F60}\u{597D}\u{4E16}\u{754C}", 4), "\u{4F60}\u{597D}\u{4E16}\u{754C}");
    let cut = local_summary("\u{4F60}\u{597D}\u{4E16}\u{754C}", 2);
    assert_eq!(cut, "\u{4F60}\u{597D}...");
    assert!(String::from_utf8(cut.into_bytes()).is_ok());
}

#[test]
fn generate_with_ai_disabled_equals_local_summary() {
    let cfg = cfg_with(vec![("AI_ENABLE", "false"), ("AI_MAX_WORDS", "20")]);
    let content = "Did X.\nDid Y.\nDone.";
    assert_eq!(
        generate(&cfg, content, None),
        local_summary(content, 20)
    );
    // The scenario's expected value, written with the separator already joined.
    assert_eq!(
        generate(&cfg, content, None),
        local_summary("Did X.\u{3002}Did Y.\u{3002}Done.", 20)
    );
}

#[test]
fn generate_without_response_falls_back_to_local() {
    let cfg = cfg_with(vec![("AI_API_KEY", "k"), ("AI_MAX_WORDS", "10")]);
    let content = "line one\nline two goes on and on";
    assert_eq!(generate(&cfg, content, None), local_summary(content, 10));
}

#[test]
fn generate_with_unparseable_response_falls_back_to_local() {
    let cfg = cfg_with(vec![("AI_API_KEY", "k"), ("AI_MAX_WORDS", "10")]);
    let content = "some content";
    assert_eq!(
        generate(&cfg, content, Some("not json at all")),
        local_summary(content, 10)
    );
    assert_eq!(
        generate(&cfg, content, Some("{\"choices\":[]}")),
        local_summary(content, 10)
    );
}

#[test]
fn generate_with_blank_completion_falls_back_to_local() {
    let cfg = cfg_with(vec![("AI_API_KEY", "k"), ("AI_MAX_WORDS", "10")]);
    let body = "{\"choices\":[{\"message\":{\"content\":\"   \"}}]}";
    assert_eq!(
        generate(&cfg, "content here", Some(body)),
        local_summary("content here", 10)
    );
}

#[test]
fn generate_returns_trimmed_completion() {
    let cfg = cfg_with(vec![("AI_API_KEY", "k")]);
    let body = "{\"choices\":[{\"message\":{\"content\":\"  hello world \"}}]}";
    assert_eq!(generate(&cfg, "ignored", Some(body)), "hello world");
}

#[test]
fn remote_request_is_none_without_credential_or_when_disabled() {
    let cfg = cfg_with(vec![]);
    assert!(remote_request(&cfg, "c").is_none());
    let cfg = cfg_with(vec![("AI_ENABLE", "false"), ("AI_API_KEY", "k")]);
    assert!(remote_request(&cfg, "c").is_none());
}

#[test]
fn remote_request_builds_url_body_and_credential() {
    let cfg = cfg_with(vec![
        ("AI_API_KEY", "secret"),
        ("AI_MODEL", "m1"),
        ("AI_BASE_URL", "https://example.com/"),
        ("AI_MAX_WORDS", "20"),
        ("AI_SYSTEM_PROMPT", "sys"),
        ("AI_USER_PROMPT", "sum {max_words}: {content}"),
    ]);
    let req = remote_request(&cfg, "abc").expect("wanted");
    assert_eq!(req.url, "https://example.com/v1/chat/completions");
    assert_eq!(req.api_key, "secret");
    assert_eq!(
        req.body,
        "{\"model\":\"m1\",\"messages\":[{\"role\":\"system\",\"content\":\"sys\"},{\"role\":\"user\",\"content\":\"sum 20: abc\"}],\"max_tokens\":800,\"temperature\":0.3}"
    );
}

#[test]
fn remote_request_renders_the_default_templates() {
    let cfg = cfg_with(vec![("AI_API_KEY", "k")]);
    let req = remote_request(&cfg, "abc").expect("wanted");
    // The default user template's word budget slot is filled with the default 500.
    assert!(req.body.contains("\u{4E0D}\u{8D85}\u{8FC7}500\u{5B57}"));
    assert!(req.body.contains("abc"));
    assert!(!req.body.contains("{max_words}"));
    assert!(!req.body.contains("{content}"));
}

#[test]
fn chat_url_keeps_an_existing_v1_segment() {
    assert_eq!(chat_url("https://a.example/v1"), "https://a.example/v1/chat/completions");
    assert_eq!(chat_url("https://a.example/v1///"), "https://a.example/v1/chat/completions");
    assert_eq!(chat_url("https://a.example"), "https://a.example/v1/chat/completions");
}

#[test]
fn render_prompt_fills_both_slots_and_bounds_content() {
    assert_eq!(render_prompt("w={max_words} c={content}", 7, "xy"), "w=7 c=xy");
    let long = "a".repeat(5000);
    let out = render_prompt("{content}", 7, &long);
    assert_eq!(out.chars().count(), 4000);
}

#[test]
fn render_prompt_escaping_survives_json_body() {
    let cfg = cfg_with(vec![
        ("AI_API_KEY", "k"),
        ("AI_SYSTEM_PROMPT", "s"),
        ("AI_USER_PROMPT", "{content}"),
    ]);
    let req = remote_request(&cfg, "he said \"hi\"\nbye").expect("wanted");
    assert!(req.body.contains("he said \\\"hi\\\"\\nbye"));
}
