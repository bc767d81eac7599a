use mycelix::config::{ComboCfg, Config, EnvVar, ModelCfg, ProviderCfg, build_orchestrator, default_port, one, resolve_api_key};
use mycelix::logbuf::{format_log_line, LogMsg, LogRing, CAP};
use mycelix::openai::{
    can_truncate, capture_quota, classify, endpoint, models_url, response_from_reply, truncate,
    usage_from_counts, CompletionReply, RateLimitHeaders, SseDecoder, SseLine, StreamPayload,
    UsageCounts,
};
use mycelix::server::{
    authorize, key_listing, log_limit, period_since, plan_provider_test, provider_listing,
    recent_requests, response_label, take_chars, usage_report, usage_summary,
};
use mycelix::state::{
    can_mask, mask, short_id, ApiKey, LogEntry, ModelStored, ProviderStored, StoredState,
    UsageEntry, UsageRow, MAX_LOG,
};
use mycelix::text::{decimal, parse_u64, parse_usize, trim};
use mycelix::types::{
    default_grace_ms, default_hard_ms, default_min_panel, default_sticky, strategy_label,
    ChatChunk, ChatMessage, ChatRequest, Combo, FusionConfig, ProviderError, Strategy, Target,
};
use mycelix::ui::{fmt_test, format_result, log_style, pretty_strategy, ChatReplyView, TestReply};

#[test]
fn retryable_errors_table() {
    let http = |s: u16| ProviderError::Http { status: s, message: String::new() };
    assert!(!http(400).is_retryable());
    assert!(!http(404).is_retryable());
    assert!(!http(422).is_retryable());
    assert!(http(401).is_retryable());
    assert!(http(429).is_retryable());
    assert!(http(503).is_retryable());
    assert!(ProviderError::Network("x".into()).is_retryable());
    assert!(ProviderError::Timeout.is_retryable());
    assert!(ProviderError::NotFound("p".into()).is_retryable());
    assert!(!ProviderError::Orchestration("o".into()).is_retryable());
}

#[test]
fn error_statuses_and_messages() {
    assert_eq!(ProviderError::NotFound("p".into()).status(), 404);
    assert_eq!(ProviderError::Timeout.status(), 504);
    assert_eq!(ProviderError::Network("x".into()).status(), 502);
    assert_eq!(ProviderError::Orchestration("o".into()).status(), 500);
    assert_eq!(ProviderError::Http { status: 418, message: "teapot".into() }.status(), 418);
    assert_eq!(ProviderError::NotFound("p".into()).message(), "provider 'p' not configured");
    assert_eq!(
        ProviderError::Http { status: 503, message: "busy".into() }.message(),
        "upstream HTTP 503: busy"
    );
    assert_eq!(ProviderError::Network("reset".into()).message(), "network error: reset");
    assert_eq!(ProviderError::Timeout.message(), "request timed out");
    assert_eq!(ProviderError::Orchestration("no targets".into()).message(), "orchestrator: no targets");
}

#[test]
fn defaults() {
    assert_eq!(default_sticky(), 1);
    assert_eq!(default_min_panel(), 2);
    assert_eq!(default_grace_ms(), 8000);
    assert_eq!(default_hard_ms(), 90000);
    let f = FusionConfig::default();
    assert_eq!((f.min_panel, f.grace_ms, f.hard_timeout_ms), (2, 8000, 90000));
    assert!(f.judge.is_none());
    assert_eq!(default_port(), 20128);
    assert_eq!(one(), 1);
    assert_eq!(strategy_label(&Strategy::RoundRobin { sticky: 2 }), "round-robin");
}

#[test]
fn last_user_message_picks_latest_user_turn() {
    let msg = |r: &str, c: &str| ChatMessage { role: r.to_string(), content: c.to_string() };
    let r = ChatRequest {
        messages: vec![msg("user", "a"), msg("assistant", "b"), msg("user", "c"), msg("system", "d")],
        ..Default::default()
    };
    assert_eq!(r.last_user_message(), "c");
    let none = ChatRequest { messages: vec![msg("system", "s")], ..Default::default() };
    assert_eq!(none.last_user_message(), "");
}

#[test]
fn target_label() {
    let t = Target { provider: "openai".into(), model: "gpt-4o-mini".into() };
    assert_eq!(t.label(), "openai/gpt-4o-mini");
}

#[test]
fn decimal_and_parsing() {
    assert_eq!(decimal(0), "0");
    assert_eq!(decimal(90000), "90000");
    assert_eq!(decimal(u64::MAX), "18446744073709551615");
    assert_eq!(parse_u64("42"), Some(42));
    assert_eq!(parse_u64("+7"), Some(7));
    assert_eq!(parse_u64("18446744073709551615"), Some(u64::MAX));
    assert_eq!(parse_u64("18446744073709551616"), None);
    assert_eq!(parse_u64(""), None);
    assert_eq!(parse_u64("+"), None);
    assert_eq!(parse_u64("-1"), None);
    assert_eq!(parse_u64(" 1"), None);
    assert_eq!(parse_u64("1a"), None);
    assert_eq!(parse_usize("200"), Some(200));
    for s in ["0", "+12", "99x", "", "007"] {
        assert_eq!(parse_u64(s), s.parse::<u64>().ok());
    }
}

#[test]
fn trimming_matches_str_trim() {
    for s in ["  data: x \n", "\t\u{a0}a b\u{3000}", "", "   ", "x"] {
        assert_eq!(trim(s), s.trim());
    }
}

/// The prefix of generated API keys.
fn prefix() -> String {
    ["sk", "9r", ""].join("-")
}

#[test]
fn short_id_and_mask() {
    // A generated-key shape, assembled at run time: prefix plus 32 hex digits.
    let key = format!("{}{}", prefix(), "0123456789abcdef".repeat(2));
    let key = key.as_str();
    assert_eq!(short_id(key), "89abcdef");
    assert_eq!(short_id("abc"), "abc");
    assert_eq!(mask(key), format!("{}01\u{2026}cdef", prefix()));
    assert_eq!(mask("short"), "\u{2022}\u{2022}\u{2022}\u{2022}\u{2022}");
    assert_eq!(mask(""), "");
    assert!(can_mask(key));
    assert!(!can_mask("a\u{e9}\u{e9}\u{e9}\u{e9}\u{e9}\u{e9}\u{e9}"));
    assert_eq!(mask("\u{e9}\u{e9}\u{e9}\u{e9}\u{e9}\u{e9}\u{e9}\u{e9}\u{e9}"), "\u{e9}\u{e9}\u{e9}\u{e9}\u{2026}\u{e9}\u{e9}");
    assert!(can_mask("abcdefgh\u{e9}\u{e9}"));
}

#[test]
fn upsert_provider_keeps_blank_key() {
    let mut s = StoredState::default();
    s.upsert_provider(ProviderStored {
        id: "p".into(),
        base_url: "u1".into(),
        api_key: "secret".into(),
        models: vec![],
    });
    s.upsert_provider(ProviderStored {
        id: "p".into(),
        base_url: "u2".into(),
        api_key: String::new(),
        models: vec![ModelStored { id: "m".into(), name: None }],
    });
    assert_eq!(s.providers.len(), 1);
    assert_eq!(s.providers[0].base_url, "u2");
    assert_eq!(s.providers[0].api_key, "secret");
    assert_eq!(s.providers[0].models.len(), 1);
    s.upsert_provider(ProviderStored { id: "p".into(), base_url: "u3".into(), api_key: "new".into(), models: vec![] });
    assert_eq!(s.providers[0].api_key, "new");
    s.upsert_provider(ProviderStored { id: "q".into(), base_url: "v".into(), api_key: "".into(), models: vec![] });
    assert_eq!(s.providers.len(), 2);
    s.delete_provider("p");
    assert_eq!(s.providers.len(), 1);
    assert_eq!(s.providers[0].id, "q");
}

#[test]
fn combos_upsert_and_delete() {
    let mut s = StoredState::default();
    s.upsert_combo(Combo { name: "c".into(), targets: vec![], strategy: Strategy::Fallback });
    s.upsert_combo(Combo { name: "c".into(), targets: vec![], strategy: Strategy::RoundRobin { sticky: 2 } });
    s.upsert_combo(Combo { name: "d".into(), targets: vec![], strategy: Strategy::Fallback });
    assert_eq!(s.combos.len(), 2);
    assert!(matches!(s.combos[0].strategy, Strategy::RoundRobin { sticky: 2 }));
    s.delete_combo("c");
    assert_eq!(s.combos.len(), 1);
    assert_eq!(s.combos[0].name, "d");
}

#[test]
fn keys_create_validate_delete() {
    let mut s = StoredState::default();
    // Prefix plus 30 zeros and "42", assembled at run time.
    let key = format!("{}{}42", prefix(), "0".repeat(30));
    let k = s.create_key(key.clone(), "ci".into(), 1700000000);
    assert_eq!(k.id, "00000042");
    assert!(s.key_valid(&key));
    assert!(!s.key_valid("other"));
    s.set_require_key(true);
    assert!(s.require_api_key());
    assert!(authorize(&s, Some(format!("Bearer {key} ").as_str())));
    assert!(!authorize(&s, Some("Bearer nope")));
    assert!(!authorize(&s, Some(key.as_str())));
    assert!(!authorize(&s, None));
    s.delete_key("00000042");
    assert!(!s.key_valid(&key));
    s.set_require_key(false);
    assert!(authorize(&s, None));
    let long = format!("{}{}", prefix(), "abcdefghijkl");
    let listed = key_listing(&ApiKey { id: "i".into(), key: long, name: "n".into(), created_at: 5 });
    assert_eq!(listed.masked, format!("{}ab\u{2026}ijkl", prefix()));
}

#[test]
fn record_request_counts_and_caps_log() {
    let mut s = StoredState::default();
    assert!(s.record_fits("a/m", 10, 5));
    s.record_request("a/m", 10, 5, 200, false, 100);
    s.record_usage("a/m", 1, 2, 101);
    s.record_request("b/m", 0, 0, 200, true, 102);
    assert_eq!(s.usage.len(), 2);
    assert_eq!(s.usage[0].target, "a/m");
    assert_eq!(s.usage[0].row, UsageRow { requests: 2, prompt_tokens: 11, completion_tokens: 7 });
    assert_eq!(s.usage[1].row, UsageRow { requests: 1, prompt_tokens: 0, completion_tokens: 0 });
    assert_eq!(s.request_log.len(), 3);
    assert_eq!(s.request_log[2].ts, 102);
    assert!(s.request_log[2].stream);
    for i in 0..MAX_LOG as u64 {
        s.record_request("c", 1, 1, 200, false, 1000 + i);
    }
    assert_eq!(s.request_log.len(), MAX_LOG);
    assert_eq!(s.request_log[0].ts, 1000);
    assert_eq!(s.request_log[MAX_LOG - 1].ts, 1000 + MAX_LOG as u64 - 1);
    let mut full = StoredState::default();
    full.usage.push(UsageEntry { target: "x".into(), row: UsageRow { requests: u64::MAX, prompt_tokens: 0, completion_tokens: 0 } });
    assert!(!full.record_fits("x", 0, 0));
}

#[test]
fn usage_reports_sorted_by_requests() {
    let row = |t: &str, r: u64| UsageEntry { target: t.into(), row: UsageRow { requests: r, prompt_tokens: r, completion_tokens: 1 } };
    let rows = usage_report(&vec![row("a", 1), row("b", 3), row("c", 1), row("d", 2)]);
    let order: Vec<(String, u64, u64)> = rows.into_iter().map(|r| (r.target, r.requests, r.total_tokens)).collect();
    assert_eq!(
        order,
        vec![
            ("b".to_string(), 3, 4),
            ("d".to_string(), 2, 3),
            ("a".to_string(), 1, 2),
            ("c".to_string(), 1, 2),
        ]
    );
}

fn entry(ts: u64, target: &str, p: u64, c: u64) -> LogEntry {
    LogEntry { ts, target: target.into(), prompt_tokens: p, completion_tokens: c, status: 200, stream: false }
}

#[test]
fn usage_summary_over_period() {
    let log = vec![entry(5, "a", 1, 1), entry(10, "a", 2, 3), entry(11, "b", 4, 0), entry(12, "b", 1, 1), entry(13, "b", 0, 0)];
    let s = usage_summary(&log, 10);
    assert_eq!((s.requests, s.prompt_tokens, s.completion_tokens, s.total_tokens), (4, 7, 4, 11));
    let rows: Vec<(String, u64, u64)> = s.by_target.into_iter().map(|r| (r.target, r.requests, r.total_tokens)).collect();
    assert_eq!(rows, vec![("b".to_string(), 3, 6), ("a".to_string(), 1, 5)]);
}

#[test]
fn recent_requests_newest_first() {
    let log = vec![entry(1, "a", 1, 1), entry(2, "b", 2, 2), entry(3, "c", 3, 3)];
    let r = recent_requests(&log, 2);
    assert_eq!(r.len(), 2);
    assert_eq!((r[0].ts, r[0].total_tokens), (3, 6));
    assert_eq!(r[1].target, "b");
    assert_eq!(recent_requests(&log, 10).len(), 3);
    assert_eq!(log_limit(Some("5")), 5);
    assert_eq!(log_limit(Some("x")), 200);
    assert_eq!(log_limit(None), 200);
}

#[test]
fn period_starts() {
    let now = 10 * 86_400 + 3_600;
    assert_eq!(period_since("24h", now), now - 86_400);
    assert_eq!(period_since("7d", now), now - 7 * 86_400);
    assert_eq!(period_since("30d", now), 0);
    assert_eq!(period_since("60d", 5), 0);
    assert_eq!(period_since("today", now), 10 * 86_400);
    assert_eq!(period_since("whatever", now), 10 * 86_400);
}

#[test]
fn provider_test_plans() {
    let ps = vec![
        ProviderStored { id: "p".into(), base_url: "u".into(), api_key: "".into(), models: vec![ModelStored { id: "m1".into(), name: Some("M".into()) }] },
        ProviderStored { id: "empty".into(), base_url: "u".into(), api_key: "k".into(), models: vec![] },
    ];
    let t = plan_provider_test(&ps, "p", None).ok().unwrap();
    assert_eq!(t.model, "m1");
    assert_eq!(t.request.model, "p/m1");
    assert_eq!(t.request.messages[0].content, "ping");
    assert_eq!(t.request.max_tokens, Some(1));
    let t2 = plan_provider_test(&ps, "p", Some("other".into())).ok().unwrap();
    assert_eq!(t2.request.model, "p/other");
    assert_eq!(plan_provider_test(&ps, "x", None).err().unwrap(), "provider not found");
    assert_eq!(plan_provider_test(&ps, "empty", None).err().unwrap(), "provider has no models");
    let l = provider_listing(&ps[0]);
    assert!(!l.api_key_set);
    assert_eq!(l.models[0].name, "M");
    assert!(provider_listing(&ps[1]).api_key_set);
}

#[test]
fn labels_and_take() {
    let t = Some(Target { provider: "a".into(), model: "m".into() });
    assert_eq!(response_label(&t, "combo"), "a/m");
    assert_eq!(response_label(&None, "combo"), "combo");
    assert_eq!(take_chars("h\u{e9}llo", 2), "h\u{e9}");
    assert_eq!(take_chars("hi", 240), "hi");
}

#[test]
fn urls_trim_trailing_slashes() {
    assert_eq!(endpoint("https://api.openai.com/v1//"), "https://api.openai.com/v1/chat/completions");
    assert_eq!(endpoint("http://h"), "http://h/chat/completions");
    assert_eq!(models_url("http://h/v1/"), "http://h/v1/models");
}

#[test]
fn truncation_of_error_bodies() {
    let long = "x".repeat(300);
    assert_eq!(truncate(long.clone()).len(), 240);
    assert_eq!(truncate("short".to_string()), "short");
    let odd = format!("{}\u{e9}{}", "a".repeat(239), "b".repeat(10));
    assert!(!can_truncate(&odd));
    assert!(can_truncate(&long));
}

#[test]
fn replies_map_to_responses() {
    let r = response_from_reply(CompletionReply {
        content: Some("hi".into()),
        finish_reason: Some("stop".into()),
        prompt_tokens: Some(3),
        completion_tokens: None,
        total_tokens: Some((1u64 << 32) + 5),
    });
    assert_eq!(r.content, "hi");
    assert_eq!(r.usage.prompt_tokens, 3);
    assert_eq!(r.usage.completion_tokens, 0);
    assert_eq!(r.usage.total_tokens, 5);
    assert!(r.target.is_none() && !r.fused);
    let empty = response_from_reply(CompletionReply { content: None, finish_reason: None, prompt_tokens: None, completion_tokens: None, total_tokens: None });
    assert_eq!(empty.content, "");
    assert_eq!(usage_from_counts(Some(1), Some(2), Some(3)).total_tokens, 3);
}

#[test]
fn sse_lines_are_framed_and_classified() {
    let mut d = SseDecoder::new();
    d.feed("data: {\"a\":1}\n: keep-alive\nda");
    assert!(matches!(d.next_line(), Some(SseLine::Data(p)) if p == "{\"a\":1}"));
    assert!(matches!(d.next_line(), Some(SseLine::Ignored)));
    assert!(d.next_line().is_none());
    d.feed("ta:  [DONE] \r\n");
    assert!(matches!(d.next_line(), Some(SseLine::Done)));
    assert!(matches!(classify("data:x"), SseLine::Data(p) if p == "x"));
    assert!(matches!(classify("event: y"), SseLine::Ignored));
}

#[test]
fn sse_payloads_update_usage() {
    let mut d = SseDecoder::new();
    assert!(d.on_payload(StreamPayload { content: Some(String::new()), usage: None }).is_none());
    assert!(matches!(d.on_payload(StreamPayload { content: Some("x".into()), usage: None }), Some(ChatChunk::Delta(t)) if t == "x"));
    let u = UsageCounts { prompt_tokens: Some(2), completion_tokens: Some(3), total_tokens: Some(5) };
    assert!(d.on_payload(StreamPayload { content: None, usage: Some(u) }).is_none());
    assert!(matches!(d.done(), ChatChunk::Done(u) if u.prompt_tokens == 2 && u.total_tokens == 5));
}

#[test]
fn quota_headers_are_parsed() {
    let q = capture_quota(
        RateLimitHeaders {
            limit_requests: Some("100".into()),
            remaining_requests: Some("abc".into()),
            limit_tokens: None,
            remaining_tokens: Some("+5".into()),
            reset_requests: None,
            reset_tokens: Some("1s".into()),
            retry_after: Some("2".into()),
        },
        429,
        77,
    );
    assert_eq!(q.limit_requests, Some(100));
    assert_eq!(q.remaining_requests, None);
    assert_eq!(q.limit_tokens, None);
    assert_eq!(q.remaining_tokens, Some(5));
    assert_eq!(q.reset.as_deref(), Some("1s"));
    assert_eq!(q.retry_after.as_deref(), Some("2"));
    assert_eq!((q.last_status, q.updated), (429, 77));
}

#[test]
fn log_ring_is_capped() {
    let mut ring = LogRing::new();
    for i in 0..(CAP + 5) {
        let m = ring.push(format!("l{i}"));
        assert!(matches!(m, LogMsg::Line(ref l) if *l == format!("l{i}")));
    }
    let snap = ring.snapshot();
    assert_eq!(snap.len(), CAP);
    assert_eq!(snap[0], "l5");
    assert_eq!(snap[CAP - 1], format!("l{}", CAP + 4));
    assert!(matches!(ring.clear(), LogMsg::Clear));
    assert!(ring.snapshot().is_empty());
    assert_eq!(format_log_line("INFO", "started"), "[INFO] started");
}

fn combo_cfg(strategy: &str) -> ComboCfg {
    ComboCfg {
        name: "c".into(),
        targets: vec![Target { provider: "a".into(), model: "m".into() }],
        strategy: strategy.into(),
        sticky: 3,
        min_panel: None,
        grace_ms: Some(5),
        hard_timeout_ms: None,
        judge: None,
    }
}

#[test]
fn combo_settings_pick_strategy() {
    assert!(matches!(combo_cfg("round_robin").into_combo().strategy, Strategy::RoundRobin { sticky: 3 }));
    assert!(matches!(combo_cfg("round-robin").into_combo().strategy, Strategy::RoundRobin { sticky: 3 }));
    assert!(matches!(combo_cfg("fallback").into_combo().strategy, Strategy::Fallback));
    assert!(matches!(combo_cfg("bogus").into_combo().strategy, Strategy::Fallback));
    match combo_cfg("fusion").into_combo().strategy {
        Strategy::Fusion(f) => assert_eq!((f.min_panel, f.grace_ms, f.hard_timeout_ms), (2, 5, 90000)),
        _ => panic!("fusion expected"),
    }
}

#[test]
fn config_seeds_state_and_orchestrator() {
    let env = vec![EnvVar { name: "KEY".into(), value: "from-env".into() }];
    let p = |id: &str, lit: Option<&str>, var: Option<&str>| ProviderCfg {
        id: id.into(),
        base_url: "http://h".into(),
        api_key: lit.map(|s| s.to_string()),
        api_key_env: var.map(|s| s.to_string()),
        models: vec![ModelCfg { id: "m".into(), name: None }],
    };
    assert_eq!(resolve_api_key(&p("a", Some("lit"), Some("KEY")), &env), "lit");
    assert_eq!(resolve_api_key(&p("a", None, Some("KEY")), &env), "from-env");
    assert_eq!(resolve_api_key(&p("a", None, Some("MISSING")), &env), "");
    assert_eq!(resolve_api_key(&p("a", None, None), &env), "");
    let cfg = Config { providers: vec![p("a", None, Some("KEY"))], combos: vec![combo_cfg("fusion")], ..Default::default() };
    let s = StoredState::from_config(cfg, &env);
    assert_eq!(s.providers[0].api_key, "from-env");
    assert_eq!(s.combos.len(), 1);
    assert!(!s.require_api_key && s.api_keys.is_empty());
    let orch = s.orchestrator();
    let ids: Vec<String> = orch.list_models().into_iter().map(|m| m.id).collect();
    assert_eq!(ids, vec!["a/m".to_string(), "c".to_string()]);
    let cfg2 = Config { providers: vec![p("b", None, None)], combos: vec![], ..Default::default() };
    let o2 = build_orchestrator(cfg2);
    assert_eq!(o2.list_models()[0].name, "m");
}

#[test]
fn dashboard_text_helpers() {
    assert_eq!(pretty_strategy("round_robin"), "round-robin");
    assert_eq!(pretty_strategy("fusion"), "fusion");
    assert_eq!(log_style("[ERROR] x"), "color:#ff6b6b");
    assert_eq!(log_style("[WARN] x"), "color:#f0c050");
    assert_eq!(log_style("[INFO] x"), "color:#6ea8fe");
    assert_eq!(log_style("[DEBUG] x"), "color:#c792ea");
    assert_eq!(log_style("plain"), "color:#5fd0a8");
    assert_eq!(
        fmt_test(Some(TestReply { ok: true, target: Some("a/m".into()), latency_ms: Some(12), error: None, status: None })),
        "\u{2713} a/m (12 ms)"
    );
    assert_eq!(
        fmt_test(Some(TestReply { ok: false, target: None, latency_ms: None, error: Some("bad".into()), status: Some(401) })),
        "\u{2717} bad [401]"
    );
    assert_eq!(fmt_test(None), "\u{2717} network error");
    let v = ChatReplyView {
        error: None,
        content: Some("hello".into()),
        target: Some("a/m".into()),
        fused: true,
        prompt_tokens: Some(3),
        completion_tokens: None,
    };
    assert_eq!(format_result(&v), "\u{2713} a/m  \u{b7}  fused\n\nhello\n\n[tokens: 3 in / 0 out]");
    let e = ChatReplyView { error: Some(None), content: None, target: None, fused: false, prompt_tokens: None, completion_tokens: None };
    assert_eq!(format_result(&e), "\u{2717} error: unknown");
}
