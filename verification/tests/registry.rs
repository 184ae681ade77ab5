use codex_hook::config::{discover_channels, non_empty, parse_usize, Config};

fn pairs(raw: Vec<(&str, &str)>) -> Vec<(String, String)> {
    raw.into_iter().map(|(k, v)| (k.to_string(), v.to_string())).collect()
}

#[test]
fn one_complete_chat_bot_group_yields_one_channel() {
    let ps = pairs(vec![
        ("TG_1_ENABLE", "true"),
        ("TG_1_TOKEN", "x"),
        ("TG_1_CHAT_ID", "y"),
    ]);
    let (chans, diags) = discover_channels(&ps);
    assert_eq!(chans.len(), 1);
    assert_eq!(chans[0].ch_type, "telegram");
    assert_eq!(chans[0].name, "telegram-1");
    assert_eq!(chans[0].token.as_deref(), Some("x"));
    assert_eq!(chans[0].chat_id.as_deref(), Some("y"));
    assert!(diags.is_empty());
}

#[test]
fn a_missing_required_key_drops_the_group_with_one_diagnostic() {
    let ps = pairs(vec![("TG_1_ENABLE", "true"), ("TG_1_TOKEN", "x")]);
    let (chans, diags) = discover_channels(&ps);
    assert_eq!(chans.len(), 0);
    assert_eq!(diags, vec!["TG_1_CHAT_ID".to_string()]);
}

#[test]
fn a_chat_bot_group_missing_both_keys_names_both() {
    let ps = pairs(vec![("TG_3_ENABLE", "on")]);
    let (chans, diags) = discover_channels(&ps);
    assert!(chans.is_empty());
    assert_eq!(diags, vec!["TG_3_TOKEN".to_string(), "TG_3_CHAT_ID".to_string()]);
}

#[test]
fn groups_are_opt_in() {
    // Absent ENABLE, explicit false, and empty all keep the group out, silently.
    let ps = pairs(vec![("TG_1_TOKEN", "x"), ("TG_1_CHAT_ID", "y")]);
    let (chans, diags) = discover_channels(&ps);
    assert!(chans.is_empty() && diags.is_empty());

    let ps = pairs(vec![
        ("TG_1_ENABLE", "false"),
        ("TG_1_TOKEN", "x"),
        ("TG_1_CHAT_ID", "y"),
    ]);
    let (chans, diags) = discover_channels(&ps);
    assert!(chans.is_empty() && diags.is_empty());

    let ps = pairs(vec![
        ("TG_1_ENABLE", ""),
        ("TG_1_TOKEN", "x"),
        ("TG_1_CHAT_ID", "y"),
    ]);
    let (chans, diags) = discover_channels(&ps);
    assert!(chans.is_empty() && diags.is_empty());
}

#[test]
fn a_webhook_card_group_needs_its_url() {
    let ps = pairs(vec![("FS_2_ENABLE", "true"), ("FS_2_WEBHOOK_URL", "https://hook")]);
    let (chans, diags) = discover_channels(&ps);
    assert_eq!(chans.len(), 1);
    assert_eq!(chans[0].ch_type, "feishu");
    assert_eq!(chans[0].name, "feishu-2");
    assert_eq!(chans[0].webhook_url.as_deref(), Some("https://hook"));
    assert!(diags.is_empty());

    let ps = pairs(vec![("FS_2_ENABLE", "true")]);
    let (chans, diags) = discover_channels(&ps);
    assert!(chans.is_empty());
    assert_eq!(diags, vec!["FS_2_WEBHOOK_URL".to_string()]);
}

#[test]
fn one_bad_group_never_blocks_another() {
    let ps = pairs(vec![
        ("TG_1_ENABLE", "true"),
        ("FS_2_ENABLE", "true"),
        ("FS_2_WEBHOOK_URL", "https://hook"),
    ]);
    let (chans, diags) = discover_channels(&ps);
    assert_eq!(chans.len(), 1);
    assert_eq!(chans[0].ch_type, "feishu");
    assert_eq!(diags.len(), 2);
}

#[test]
fn an_explicit_name_wins_over_the_generated_one() {
    let ps = pairs(vec![
        ("TG_1_ENABLE", "true"),
        ("TG_1_TOKEN", "x"),
        ("TG_1_CHAT_ID", "y"),
        ("TG_1_NAME", "ops"),
    ]);
    let (chans, _) = discover_channels(&ps);
    assert_eq!(chans[0].name, "ops");
}

#[test]
fn empty_values_count_as_absent() {
    let ps = pairs(vec![
        ("TG_1_ENABLE", "true"),
        ("TG_1_TOKEN", ""),
        ("TG_1_CHAT_ID", "y"),
    ]);
    let (chans, diags) = discover_channels(&ps);
    assert!(chans.is_empty());
    assert_eq!(diags, vec!["TG_1_TOKEN".to_string()]);
    assert_eq!(non_empty(String::new()), None);
    assert_eq!(non_empty("v".to_string()), Some("v".to_string()));
}

#[test]
fn defaults_cover_every_global_key() {
    let (cfg, diags) = Config::from_pairs(&pairs(vec![]));
    assert!(!cfg.debug);
    assert_eq!(cfg.proxy, "");
    assert!(cfg.ai_enable);
    assert_eq!(cfg.ai_api_key, "");
    assert_eq!(cfg.ai_base_url, "https://api.deepseek.com");
    assert_eq!(cfg.ai_model, "deepseek-chat");
    assert_eq!(cfg.ai_max_words, 500);
    assert!(cfg.win_notify_enable);
    assert!(cfg.voice_enable);
    assert_eq!(cfg.voice_stop, "Codex\u{4EFB}\u{52A1}\u{5B8C}\u{6210}");
    assert!(cfg.channels.is_empty());
    assert!(diags.is_empty());
}

#[test]
fn configured_values_override_defaults() {
    let (cfg, _) = Config::from_pairs(&pairs(vec![
        ("DEBUG", "true"),
        ("HTTPS_PROXY", "http://p:8080"),
        ("AI_ENABLE", "false"),
        ("AI_MAX_WORDS", "123"),
        ("WIN_NOTIFY_ENABLE", "false"),
        ("VOICE_ENABLE", "false"),
        ("VOICE_STOP", "done"),
    ]));
    assert!(cfg.debug);
    assert_eq!(cfg.proxy, "http://p:8080");
    assert!(!cfg.ai_enable);
    assert_eq!(cfg.ai_max_words, 123);
    assert!(!cfg.win_notify_enable);
    assert!(!cfg.voice_enable);
    assert_eq!(cfg.voice_stop, "done");
}

#[test]
fn http_proxy_is_the_fallback() {
    let (cfg, _) = Config::from_pairs(&pairs(vec![("HTTP_PROXY", "http://q")]));
    assert_eq!(cfg.proxy, "http://q");
}

#[test]
fn an_unparseable_word_budget_falls_back_to_500() {
    let (cfg, _) = Config::from_pairs(&pairs(vec![("AI_MAX_WORDS", "lots")]));
    assert_eq!(cfg.ai_max_words, 500);
    let (cfg, _) = Config::from_pairs(&pairs(vec![("AI_MAX_WORDS", "")]));
    assert_eq!(cfg.ai_max_words, 500);
    let (cfg, _) = Config::from_pairs(&pairs(vec![(
        "AI_MAX_WORDS",
        "99999999999999999999999999999999",
    )]));
    assert_eq!(cfg.ai_max_words, 500);
}

#[test]
fn parse_usize_reads_plain_decimals() {
    assert_eq!(parse_usize("0"), Some(0));
    assert_eq!(parse_usize("907"), Some(907));
    assert_eq!(parse_usize(""), None);
    assert_eq!(parse_usize("12a"), None);
    assert_eq!(parse_usize("-3"), None);
}

#[test]
fn the_first_pair_wins_on_duplicate_keys() {
    let (cfg, _) = Config::from_pairs(&pairs(vec![
        ("AI_MODEL", "first"),
        ("AI_MODEL", "second"),
    ]));
    assert_eq!(cfg.ai_model, "first");
}
