use codex_hook::channels::{
    chat_accepted, chat_text, escape_html, notify_body, raw_excerpt, strip_md, webhook_accepted,
};
use codex_hook::config::{Channel, Config};
use codex_hook::dispatch::{now_time_str, plan_dispatch, Delivery};
use codex_hook::event::accept_event;
use codex_hook::json::{bot_body, json_escape};

fn base_cfg() -> Config {
    Config::from_pairs(&Vec::new()).0
}

fn tg_channel() -> Channel {
    Channel {
        ch_type: "telegram".to_string(),
        name: "telegram-1".to_string(),
        token: Some("tok".to_string()),
        chat_id: Some("42".to_string()),
        webhook_url: None,
    }
}

fn fs_channel() -> Channel {
    Channel {
        ch_type: "feishu".to_string(),
        name: "feishu-1".to_string(),
        token: None,
        chat_id: None,
        webhook_url: Some("https://hook".to_string()),
    }
}

#[test]
fn accept_event_passes_only_a_turn_complete_with_content() {
    let ok = "{\"type\":\"agent-turn-complete\",\"last-assistant-message\":\"hi\"}";
    assert_eq!(accept_event(ok), Some("hi".to_string()));
    let wrong_type = "{\"type\":\"other\",\"last-assistant-message\":\"hi\"}";
    assert_eq!(accept_event(wrong_type), None);
    let no_message = "{\"type\":\"agent-turn-complete\"}";
    assert_eq!(accept_event(no_message), None);
    let blank = "{\"type\":\"agent-turn-complete\",\"last-assistant-message\":\"  \\n \"}";
    assert_eq!(accept_event(blank), None);
    assert_eq!(accept_event(""), None);
    assert_eq!(accept_event("not json"), None);
    assert_eq!(accept_event("{\"last-assistant-message\":\"hi\"}"), None);
}

#[test]
fn escape_html_rewrites_the_three_markup_characters() {
    assert_eq!(escape_html("a<b>&c"), "a&lt;b&gt;&amp;c");
    assert_eq!(escape_html("plain"), "plain");
}

#[test]
fn strip_md_scrubs_markers_in_order() {
    assert_eq!(strip_md("**bold** and `code` ## x #y"), "bold and code  x y");
    // Pair removal runs before backtick removal, so a backtick between two
    // stars leaves the stars behind.
    assert_eq!(strip_md("*`*"), "**");
    assert_eq!(strip_md("```fence```"), "fence");
}

#[test]
fn chat_text_escapes_and_bounds_its_parts() {
    let t = chat_text("T<1>", "**s**", Some("r&d"), None);
    assert_eq!(
        t,
        "<b>T&lt;1&gt;</b>\n\n<b>AI \u{6458}\u{8981}\u{FF1A}</b>\ns\n\n<b>\u{539F}\u{59CB}\u{8F93}\u{51FA}\u{FF1A}</b>\n<pre>r&amp;d</pre>"
    );
    let no_raw = chat_text("T", "s", None, None);
    assert!(!no_raw.contains("<pre>"));
    let long_raw = "x".repeat(600);
    let bounded = chat_text("T", "s", Some(&long_raw), None);
    assert!(bounded.contains(&"x".repeat(500)));
    assert!(!bounded.contains(&"x".repeat(501)));
}

#[test]
fn json_escape_protects_quotes_newlines_and_controls() {
    assert_eq!(json_escape("a\"b\\c\nd"), "a\\\"b\\\\c\\nd");
    assert_eq!(json_escape("\t\r"), "\\t\\r");
    assert_eq!(json_escape("\u{1}"), "\\u0001");
    assert_eq!(json_escape("\u{1f}"), "\\u001f");
}

#[test]
fn bot_body_is_well_formed_json() {
    let b = bot_body("42", "line1\nline2");
    assert_eq!(
        b,
        "{\"chat_id\":\"42\",\"text\":\"line1\\nline2\",\"parse_mode\":\"HTML\"}"
    );
    let v: serde_json::Value = serde_json::from_str(&b).expect("parses");
    assert_eq!(v["chat_id"], "42");
    assert_eq!(v["text"], "line1\nline2");
}

#[test]
fn plan_covers_desktop_and_every_channel_independently() {
    let mut cfg = base_cfg();
    cfg.channels = vec![tg_channel(), fs_channel()];
    let plan = plan_dispatch(&cfg, "title", "sum", Some("raw"));
    assert_eq!(plan.len(), 3);
    match &plan[0] {
        Delivery::Desktop { title, body, speak } => {
            assert_eq!(title, "title");
            assert_eq!(body, "sum");
            assert_eq!(speak.as_deref(), Some("Codex\u{4EFB}\u{52A1}\u{5B8C}\u{6210}"));
        }
        other => panic!("expected a desktop unit, got {:?}", unit_name(other)),
    }
    match &plan[1] {
        Delivery::ChatBot { name, url, body } => {
            assert_eq!(name, "telegram-1");
            assert_eq!(url, "https://api.telegram.org/bottok/sendMessage");
            assert!(body.contains("\"chat_id\":\"42\""));
        }
        other => panic!("expected a chat-bot unit, got {:?}", unit_name(other)),
    }
    match &plan[2] {
        Delivery::WebhookCard { name, url, body } => {
            assert_eq!(name, "feishu-1");
            assert_eq!(url, "https://hook");
            let v: serde_json::Value = serde_json::from_str(body).expect("card parses");
            assert_eq!(v["msg_type"], "interactive");
            assert_eq!(v["card"]["header"]["title"]["content"], "title");
            assert_eq!(
                v["card"]["elements"][0]["text"]["content"],
                "**AI \u{6458}\u{8981}**\nsum"
            );
            assert_eq!(v["card"]["elements"][3]["elements"][0]["content"], "raw");
        }
        other => panic!("expected a webhook-card unit, got {:?}", unit_name(other)),
    }
}

fn unit_name(d: &Delivery) -> &'static str {
    match d {
        Delivery::Desktop { .. } => "desktop",
        Delivery::ChatBot { .. } => "chat-bot",
        Delivery::WebhookCard { .. } => "webhook-card",
        Delivery::Invalid { .. } => "invalid",
        Delivery::Skip { .. } => "skip",
    }
}

#[test]
fn a_broken_channel_becomes_an_invalid_unit_and_blocks_nothing() {
    let mut cfg = base_cfg();
    cfg.win_notify_enable = false;
    let mut broken = tg_channel();
    broken.token = None;
    cfg.channels = vec![broken, fs_channel()];
    let plan = plan_dispatch(&cfg, "t", "s", None);
    assert_eq!(plan.len(), 2);
    match &plan[0] {
        Delivery::Invalid { name, cause } => {
            assert_eq!(name, "telegram-1");
            assert_eq!(cause, "missing token");
        }
        _ => panic!("expected an invalid unit"),
    }
    assert!(matches!(&plan[1], Delivery::WebhookCard { .. }));
}

#[test]
fn an_unknown_kind_is_a_silent_no_op() {
    let mut cfg = base_cfg();
    cfg.win_notify_enable = false;
    let mut odd = tg_channel();
    odd.ch_type = "pager".to_string();
    cfg.channels = vec![odd];
    let plan = plan_dispatch(&cfg, "t", "s", None);
    assert_eq!(plan.len(), 1);
    assert!(matches!(&plan[0], Delivery::Skip { .. }));
}

#[test]
fn desktop_unit_follows_the_flags() {
    let mut cfg = base_cfg();
    cfg.win_notify_enable = false;
    assert!(plan_dispatch(&cfg, "t", "s", None).is_empty());
    let mut cfg = base_cfg();
    cfg.voice_enable = false;
    let plan = plan_dispatch(&cfg, "t", "s", None);
    match &plan[0] {
        Delivery::Desktop { speak, .. } => assert!(speak.is_none()),
        _ => panic!("expected a desktop unit"),
    }
}

#[test]
fn notify_body_bounds_the_message_at_200_characters() {
    let short = "s".repeat(200);
    assert_eq!(notify_body(&short), short);
    let long = "s".repeat(201);
    let out = notify_body(&long);
    assert_eq!(out.chars().count(), 203);
    assert!(out.ends_with("..."));
}

#[test]
fn raw_excerpt_trims_then_bounds() {
    assert_eq!(raw_excerpt("  hi  "), "hi");
    let long = format!("  {}  ", "y".repeat(600));
    assert_eq!(raw_excerpt(&long).chars().count(), 500);
}

#[test]
fn chat_accepted_requires_an_explicit_ok() {
    assert!(chat_accepted(Some(true)));
    assert!(!chat_accepted(Some(false)));
    assert!(!chat_accepted(None));
}

#[test]
fn webhook_accepted_takes_either_status_field() {
    assert!(webhook_accepted(Some(0), None));
    assert!(webhook_accepted(None, Some(0)));
    assert!(webhook_accepted(Some(0), Some(5)));
    assert!(!webhook_accepted(Some(1), Some(2)));
    assert!(!webhook_accepted(None, None));
}

#[test]
fn end_to_end_event_to_dispatched_summary() {
    let input = "{\"type\":\"agent-turn-complete\",\"last-assistant-message\":\"Did X.\\nDid Y.\\nDone.\"}";
    let content = accept_event(input).expect("accepted");
    let pairs: Vec<(String, String)> = vec![
        ("AI_ENABLE".to_string(), "false".to_string()),
        ("AI_MAX_WORDS".to_string(), "20".to_string()),
        ("TG_1_ENABLE".to_string(), "true".to_string()),
        ("TG_1_TOKEN".to_string(), "tok".to_string()),
        ("TG_1_CHAT_ID".to_string(), "42".to_string()),
    ];
    let (cfg, diags) = Config::from_pairs(&pairs);
    assert!(diags.is_empty());
    let summary = codex_hook::summarizer::generate(&cfg, &content, None);
    assert_eq!(
        summary,
        codex_hook::summarizer::local_summary("Did X.\u{3002}Did Y.\u{3002}Done.", 20)
    );
    let raw = raw_excerpt(&content);
    let plan = plan_dispatch(&cfg, "title", &summary, Some(&raw));
    assert_eq!(plan.len(), 2);
    match &plan[1] {
        Delivery::ChatBot { body, .. } => {
            assert!(body.contains("Did X.\u{3002}Did Y.\u{3002}Done."));
        }
        _ => panic!("expected a chat-bot unit"),
    }
}

#[test]
fn now_time_str_reads_as_a_clock() {
    let t = now_time_str();
    let cs: Vec<char> = t.chars().collect();
    assert_eq!(cs.len(), 5);
    assert_eq!(cs[2], ':');
    assert!(cs[0].is_ascii_digit() && cs[1].is_ascii_digit());
    assert!(cs[3].is_ascii_digit() && cs[4].is_ascii_digit());
    let h: u32 = t[0..2].parse().unwrap();
    let m: u32 = t[3..5].parse().unwrap();
    assert!(h < 24 && m < 60);
}
