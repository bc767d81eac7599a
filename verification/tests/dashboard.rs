use mycelix::types::{Combo, FusionConfig, Strategy, Target};
use mycelix::ui::{
    add_model_once, card_provider, combo_option_label, combo_row, fetch_report, has_model,
    log_row_line, new_provider, pretty_strategy, provider_models, quota_activity_line,
    quota_usage, remove_model, retry_note, send_start, status_badge, strategy_type, stream_mark,
    target_usage_line, test_add_report, test_add_start, token_split_line, view_title,
    ConsoleEvent, ConsoleView, FetchReply, TestReply, SHOWN_LINES,
};

fn row(id: &str, name: &str) -> (String, String) {
    (id.to_string(), name.to_string())
}

fn target(p: &str, m: &str) -> Target {
    Target { provider: p.to_string(), model: m.to_string() }
}

#[test]
fn add_model_once_skips_listed_ids() {
    let mut rows = vec![row("a", "A")];
    add_model_once(&mut rows, "a");
    assert_eq!(rows, vec![row("a", "A")]);
    add_model_once(&mut rows, "b");
    assert_eq!(rows, vec![row("a", "A"), row("b", "b")]);
    assert!(has_model(&rows, "b"));
    assert!(!has_model(&rows, "c"));
}

#[test]
fn remove_model_drops_every_matching_row() {
    let mut rows = vec![row("a", "1"), row("b", "2"), row("a", "3"), row("c", "4")];
    remove_model(&mut rows, "a");
    assert_eq!(rows, vec![row("b", "2"), row("c", "4")]);
    remove_model(&mut rows, "zzz");
    assert_eq!(rows, vec![row("b", "2"), row("c", "4")]);
}

#[test]
fn provider_models_hides_combos() {
    let models = vec![row("openai/gpt", "gpt"), row("free", "combo (fallback)"), row("x/y", "y")];
    let combos = vec!["free".to_string()];
    assert_eq!(provider_models(&models, &combos), vec![row("openai/gpt", "gpt"), row("x/y", "y")]);
    assert_eq!(provider_models(&models, &Vec::new()).len(), 3);
}

#[test]
fn console_keeps_the_newest_lines() {
    let mut c = ConsoleView::new();
    assert!(!c.connected);
    c.apply(ConsoleEvent::Init(vec!["a".to_string(), "b".to_string()]));
    assert!(c.connected);
    assert_eq!(c.lines, vec!["a".to_string(), "b".to_string()]);
    for i in 0..SHOWN_LINES {
        c.apply(ConsoleEvent::Line(format!("l{i}")));
    }
    assert_eq!(c.lines.len(), SHOWN_LINES);
    assert_eq!(c.lines[0], "l0");
    assert_eq!(c.lines[SHOWN_LINES - 1], format!("l{}", SHOWN_LINES - 1));
    c.apply(ConsoleEvent::Other);
    assert_eq!(c.lines.len(), SHOWN_LINES);
    c.disconnect();
    assert!(!c.connected);
    c.apply(ConsoleEvent::Clear);
    assert!(c.lines.is_empty());
    assert!(!c.connected);
    c.apply(ConsoleEvent::Line("x".to_string()));
    assert_eq!(c.lines, vec!["x".to_string()]);
    assert!(c.connected);
}

#[test]
fn console_trims_an_oversized_snapshot_on_the_next_line() {
    let mut c = ConsoleView::new();
    let many: Vec<String> = (0..SHOWN_LINES + 5).map(|i| i.to_string()).collect();
    c.apply(ConsoleEvent::Init(many));
    assert_eq!(c.lines.len(), SHOWN_LINES + 5);
    c.apply(ConsoleEvent::Line("new".to_string()));
    assert_eq!(c.lines.len(), SHOWN_LINES);
    assert_eq!(c.lines[0], "6");
    assert_eq!(c.lines[SHOWN_LINES - 1], "new");
}

#[test]
fn strategy_chips_match_listing_labels() {
    assert_eq!(strategy_type(&Strategy::Fallback), "fallback");
    assert_eq!(strategy_type(&Strategy::RoundRobin { sticky: 3 }), "round_robin");
    assert_eq!(strategy_type(&Strategy::Fusion(FusionConfig::default())), "fusion");
    assert_eq!(pretty_strategy(strategy_type(&Strategy::RoundRobin { sticky: 1 })), "round-robin");
    assert_eq!(combo_option_label("mix", "round_robin"), "mix  (combo \u{b7} round-robin)");
}

#[test]
fn combo_rows_list_targets_as_labels() {
    let c = Combo {
        name: "free".to_string(),
        targets: vec![target("a", "m1"), target("b", "m2")],
        strategy: Strategy::RoundRobin { sticky: 2 },
    };
    let r = combo_row(&c);
    assert_eq!(r.name, "free");
    assert_eq!(r.strategy, "round_robin");
    assert_eq!(r.targets, vec!["a/m1".to_string(), "b/m2".to_string()]);
}

#[test]
fn view_titles() {
    assert_eq!(view_title("providers"), "Providers");
    assert_eq!(view_title("usage"), "Usage");
    assert_eq!(view_title("quota"), "Quota");
    assert_eq!(view_title("console"), "Console Log");
    assert_eq!(view_title("models"), "Models & Combos");
    assert_eq!(view_title("playground"), "Playground");
    assert_eq!(view_title("endpoint"), "Endpoint");
    assert_eq!(view_title("nope"), "Endpoint");
}

#[test]
fn new_provider_needs_id_and_url() {
    assert_eq!(new_provider("", "http://x", "k").unwrap_err(), "id and base URL are required");
    assert_eq!(new_provider("p", "", "k").unwrap_err(), "id and base URL are required");
    let p = new_provider("p", "http://x", "").unwrap();
    assert_eq!((p.id.as_str(), p.base_url.as_str(), p.api_key.as_str()), ("p", "http://x", ""));
    assert!(p.models.is_empty());
}

#[test]
fn card_provider_keeps_row_names() {
    let p = card_provider("p", "http://x", "sk", &vec![row("m1", "One"), row("m2", "m2")]);
    assert_eq!(p.models.len(), 2);
    assert_eq!(p.models[0].id, "m1");
    assert_eq!(p.models[0].name.as_deref(), Some("One"));
    assert_eq!(p.models[1].name.as_deref(), Some("m2"));
    assert_eq!(p.api_key, "sk");
}

#[test]
fn fetch_reports() {
    let ok = FetchReply { ok: true, models: vec!["a".into(), "b".into(), "c".into()], error: None };
    assert_eq!(fetch_report(&Some(ok)), "fetched 3 models \u{2014} click to add, then Save");
    let bad = FetchReply { ok: false, models: vec![], error: Some("denied".into()) };
    assert_eq!(fetch_report(&Some(bad)), "\u{2717} denied");
    let bare = FetchReply { ok: false, models: vec![], error: None };
    assert_eq!(fetch_report(&Some(bare)), "\u{2717} fetch failed");
    assert_eq!(fetch_report(&None), "\u{2717} network error");
}

#[test]
fn test_and_add_reports() {
    assert_eq!(test_add_start("").unwrap_err(), "enter a model id");
    assert_eq!(test_add_start("gpt").unwrap(), "testing gpt\u{2026}");
    let ok = TestReply { ok: true, target: None, latency_ms: Some(42), error: None, status: None };
    assert_eq!(test_add_report("gpt", &Some(ok)), "\u{2713} added gpt (42 ms)");
    let bad = TestReply {
        ok: false,
        target: None,
        latency_ms: Some(5),
        error: Some("upstream HTTP 401: no".into()),
        status: Some(401),
    };
    assert_eq!(test_add_report("gpt", &Some(bad)), "\u{2717} upstream HTTP 401: no [401]");
    let bare = TestReply { ok: false, target: None, latency_ms: None, error: None, status: None };
    assert_eq!(test_add_report("gpt", &Some(bare)), "\u{2717} test failed [0]");
    assert_eq!(test_add_report("gpt", &None), "\u{2717} network error");
}

#[test]
fn playground_send_guard() {
    assert_eq!(send_start(""), Err("Pick a model or combo first."));
    assert_eq!(send_start("free"), Ok("\u{2026}"));
}

#[test]
fn usage_and_quota_lines() {
    assert_eq!(target_usage_line(3, 120), "3 req \u{b7} 120 tok");
    assert_eq!(log_row_line(15, 200), "15 tok \u{b7} 200");
    assert_eq!(token_split_line(10, 5), "10 / 5");
    assert_eq!(quota_activity_line(7, 900), "24h: 7 requests \u{b7} 900 tokens");
    assert_eq!(stream_mark(true), "  \u{b7}  stream");
    assert_eq!(stream_mark(false), "");
    assert_eq!(retry_note(""), None);
    assert_eq!(retry_note("30").as_deref(), Some("retry-after: 30"));
}

#[test]
fn quota_bars_and_badges() {
    assert_eq!(quota_usage(Some(100), Some(40)), Some((60, 100)));
    assert_eq!(quota_usage(Some(100), Some(150)), Some((0, 100)));
    assert_eq!(quota_usage(Some(0), Some(0)), None);
    assert_eq!(quota_usage(None, Some(1)), None);
    assert_eq!(quota_usage(Some(5), None), None);
    assert_eq!(status_badge(0), ("chip", "idle".to_string()));
    assert_eq!(status_badge(429), ("chip fallback", "HTTP 429".to_string()));
    assert_eq!(status_badge(200), ("chip round-robin", "HTTP 200".to_string()));
}
