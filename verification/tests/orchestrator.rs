use mycelix::mock::MockProvider;
use mycelix::orchestrator::{
    answered_by, build_judge_request, fusion_chunks, mark_fused, FallbackRun, FusionOutcome,
    FusionRun, Orchestrator, Plan, ProviderEntry, Resolution,
};
use mycelix::types::{
    ChatChunk, ChatMessage, ChatRequest, ChatResponse, Combo, FusionConfig, ProviderError,
    Strategy, Target, Usage,
};

fn req() -> ChatRequest {
    ChatRequest {
        model: "x".to_string(),
        messages: vec![ChatMessage { role: "user".to_string(), content: "hi".to_string() }],
        ..Default::default()
    }
}

fn target(p: &str) -> Target {
    Target { provider: p.to_string(), model: "m".to_string() }
}

fn registry(mocks: &[MockProvider]) -> Vec<ProviderEntry> {
    mocks.iter().map(|m| ProviderEntry { id: m.id().to_string(), models: m.models() }).collect()
}

fn call(
    orch: &Orchestrator,
    mocks: &[MockProvider],
    t: &Target,
    r: &ChatRequest,
) -> Result<ChatResponse, ProviderError> {
    let q = orch.target_request(t, r)?;
    let p = mocks.iter().find(|m| m.id() == t.provider).expect("registered provider");
    let resp = p.chat_once(&q)?;
    Ok(answered_by(resp, t))
}

/// Drives one non-streaming request through the orchestrator's decisions,
/// answering every provider call with the mocks.
fn run_once(
    orch: &mut Orchestrator,
    mocks: &[MockProvider],
    model: &str,
    r: &ChatRequest,
) -> Result<ChatResponse, ProviderError> {
    match orch.plan(model) {
        Plan::Single(t) => call(orch, mocks, &t, r),
        Plan::Ordered(order) => {
            let mut run = FallbackRun::new(order);
            let mut answer = None;
            while let Some((_, t)) = run.next_target() {
                match call(orch, mocks, &t, r) {
                    Ok(resp) => {
                        answer = Some(resp);
                        run.record(Ok(()));
                    }
                    Err(e) => run.record(Err(e)),
                }
            }
            run.finish().map(|_| answer.expect("answer of the winning target"))
        }
        Plan::Fusion { panel, config } => {
            let mut run = FusionRun::new(panel.clone(), config);
            for t in &panel {
                run.on_result(call(orch, mocks, t, r));
            }
            match run.conclude(r) {
                FusionOutcome::Failed(e) => Err(e),
                FusionOutcome::Single(resp) => Ok(resp),
                FusionOutcome::Judge { target, request } => {
                    call(orch, mocks, &target, &request).map(mark_fused)
                }
            }
        }
    }
}

fn orchestrator(mocks: &[MockProvider], combos: Vec<Combo>) -> Orchestrator {
    Orchestrator::new(registry(mocks), combos)
}

#[test]
fn fallback_advances_past_retryable_failure() {
    let mocks = vec![MockProvider::fail("a", 503), MockProvider::ok("b", "B-ok")];
    let mut orch = orchestrator(
        &mocks,
        vec![Combo {
            name: "c".to_string(),
            targets: vec![target("a"), target("b")],
            strategy: Strategy::Fallback,
        }],
    );
    let r = run_once(&mut orch, &mocks, "c", &req()).unwrap();
    assert_eq!(r.content, "B-ok");
    assert_eq!(r.target.unwrap().provider, "b");
}

#[test]
fn fallback_stops_on_client_error() {
    let mocks = vec![MockProvider::fail("a", 400), MockProvider::ok("b", "B-ok")];
    let mut orch = orchestrator(
        &mocks,
        vec![Combo {
            name: "c".to_string(),
            targets: vec![target("a"), target("b")],
            strategy: Strategy::Fallback,
        }],
    );
    let e = run_once(&mut orch, &mocks, "c", &req()).unwrap_err();
    assert_eq!(e.status(), 400);
}

#[test]
fn round_robin_rotates_each_call() {
    let mocks = vec![MockProvider::ok("a", "A"), MockProvider::ok("b", "B")];
    let mut orch = orchestrator(
        &mocks,
        vec![Combo {
            name: "rr".to_string(),
            targets: vec![target("a"), target("b")],
            strategy: Strategy::RoundRobin { sticky: 1 },
        }],
    );
    let r1 = run_once(&mut orch, &mocks, "rr", &req()).unwrap();
    let r2 = run_once(&mut orch, &mocks, "rr", &req()).unwrap();
    let r3 = run_once(&mut orch, &mocks, "rr", &req()).unwrap();
    assert_eq!(r1.content, "A");
    assert_eq!(r2.content, "B");
    assert_eq!(r3.content, "A");
}

#[test]
fn round_robin_respects_sticky() {
    let mocks = vec![MockProvider::ok("a", "A"), MockProvider::ok("b", "B")];
    let mut orch = orchestrator(
        &mocks,
        vec![Combo {
            name: "rr".to_string(),
            targets: vec![target("a"), target("b")],
            strategy: Strategy::RoundRobin { sticky: 2 },
        }],
    );
    let mut seq = Vec::new();
    for _ in 0..4 {
        seq.push(run_once(&mut orch, &mocks, "rr", &req()).unwrap().content);
    }
    assert_eq!(seq, vec!["A", "A", "B", "B"]);
}

#[test]
fn fusion_synthesizes_with_judge() {
    let mocks = vec![
        MockProvider::ok("a", "ans-a"),
        MockProvider::ok("b", "ans-b"),
        MockProvider::ok("judge", "SYNTHESIZED"),
    ];
    let mut orch = orchestrator(
        &mocks,
        vec![Combo {
            name: "fz".to_string(),
            targets: vec![target("a"), target("b")],
            strategy: Strategy::Fusion(FusionConfig {
                min_panel: 2,
                grace_ms: 10,
                hard_timeout_ms: 1000,
                judge: Some(target("judge")),
            }),
        }],
    );
    let r = run_once(&mut orch, &mocks, "fz", &req()).unwrap();
    assert_eq!(r.content, "SYNTHESIZED");
    assert!(r.fused);
}

#[test]
fn fusion_single_answer_skips_judge() {
    let mocks = vec![MockProvider::ok("a", "only-answer"), MockProvider::fail("b", 503)];
    let mut orch = orchestrator(
        &mocks,
        vec![Combo {
            name: "fz".to_string(),
            targets: vec![target("a"), target("b")],
            strategy: Strategy::Fusion(FusionConfig {
                min_panel: 2,
                grace_ms: 10,
                hard_timeout_ms: 500,
                judge: None,
            }),
        }],
    );
    let r = run_once(&mut orch, &mocks, "fz", &req()).unwrap();
    assert_eq!(r.content, "only-answer");
    assert!(!r.fused);
}

#[test]
fn fallback_exhausted_reports_last_error() {
    let mocks = vec![MockProvider::fail("a", 503), MockProvider::fail("b", 429)];
    let mut orch = orchestrator(
        &mocks,
        vec![Combo {
            name: "c".to_string(),
            targets: vec![target("a"), target("b")],
            strategy: Strategy::Fallback,
        }],
    );
    let e = run_once(&mut orch, &mocks, "c", &req()).unwrap_err();
    assert_eq!(e.status(), 429);
}

#[test]
fn fallback_without_targets_is_an_orchestration_error() {
    let mocks = vec![MockProvider::ok("a", "A")];
    let mut orch = orchestrator(
        &mocks,
        vec![Combo { name: "empty".to_string(), targets: vec![], strategy: Strategy::Fallback }],
    );
    let e = run_once(&mut orch, &mocks, "empty", &req()).unwrap_err();
    assert_eq!(e.status(), 500);
    assert_eq!(e.message(), "orchestrator: no targets");
}

#[test]
fn fallback_skips_unknown_provider() {
    let mocks = vec![MockProvider::ok("b", "B-ok")];
    let mut orch = orchestrator(
        &mocks,
        vec![Combo {
            name: "c".to_string(),
            targets: vec![target("ghost"), target("b")],
            strategy: Strategy::Fallback,
        }],
    );
    let r = run_once(&mut orch, &mocks, "c", &req()).unwrap();
    assert_eq!(r.content, "B-ok");
}

#[test]
fn single_target_unknown_provider_is_not_found() {
    let mocks = vec![MockProvider::ok("a", "A")];
    let mut orch = orchestrator(&mocks, vec![]);
    let e = run_once(&mut orch, &mocks, "nope/model", &req()).unwrap_err();
    assert_eq!(e.status(), 404);
    assert_eq!(e.message(), "provider 'nope' not configured");
}

#[test]
fn bare_model_goes_to_first_provider() {
    let mocks = vec![MockProvider::ok("a", "A"), MockProvider::ok("b", "B")];
    let orch = orchestrator(&mocks, vec![]);
    match orch.resolve("gpt") {
        Resolution::Single(t) => {
            assert_eq!(t.provider, "a");
            assert_eq!(t.model, "gpt");
        }
        Resolution::Combo(_) => panic!("not a combo"),
    }
    match orch.resolve("b/x/y") {
        Resolution::Single(t) => {
            assert_eq!(t.provider, "b");
            assert_eq!(t.model, "x/y");
        }
        Resolution::Combo(_) => panic!("not a combo"),
    }
}

#[test]
fn single_target_answer_is_labelled() {
    let mocks = vec![MockProvider::ok("a", "A")];
    let mut orch = orchestrator(&mocks, vec![]);
    let r = run_once(&mut orch, &mocks, "a/m1", &req()).unwrap();
    let t = r.target.unwrap();
    assert_eq!(t.label(), "a/m1");
    assert_eq!(r.finish_reason.as_deref(), Some("stop"));
}

#[test]
fn combo_name_wins_over_provider_path() {
    let mocks = vec![MockProvider::ok("a", "A")];
    let orch = orchestrator(
        &mocks,
        vec![Combo { name: "a/m".to_string(), targets: vec![target("a")], strategy: Strategy::Fallback }],
    );
    assert!(matches!(orch.resolve("a/m"), Resolution::Combo(0)));
}

#[test]
fn round_robin_wraps_with_three_targets() {
    let mocks = vec![MockProvider::ok("a", "A"), MockProvider::ok("b", "B"), MockProvider::ok("c", "C")];
    let mut orch = orchestrator(
        &mocks,
        vec![Combo {
            name: "rr".to_string(),
            targets: vec![target("a"), target("b"), target("c")],
            strategy: Strategy::RoundRobin { sticky: 0 },
        }],
    );
    let mut seq = Vec::new();
    for _ in 0..4 {
        seq.push(run_once(&mut orch, &mocks, "rr", &req()).unwrap().content);
    }
    assert_eq!(seq, vec!["A", "B", "C", "A"]);
    match orch.plan("rr") {
        Plan::Ordered(order) => {
            let ids: Vec<String> = order.iter().map(|t| t.provider.clone()).collect();
            assert_eq!(ids, vec!["b", "c", "a"]);
        }
        _ => panic!("round-robin plans an order"),
    }
}

#[test]
fn later_definitions_replace_earlier_ones() {
    let entries = vec![
        ProviderEntry { id: "a".to_string(), models: MockProvider::ok("a", "x").models() },
        ProviderEntry { id: "b".to_string(), models: vec![] },
        ProviderEntry { id: "a".to_string(), models: vec![] },
    ];
    let orch = Orchestrator::new(
        entries,
        vec![
            Combo { name: "c".to_string(), targets: vec![], strategy: Strategy::Fallback },
            Combo { name: "c".to_string(), targets: vec![], strategy: Strategy::RoundRobin { sticky: 3 } },
        ],
    );
    let models = orch.list_models();
    let ids: Vec<(String, String)> = models.into_iter().map(|m| (m.id, m.name)).collect();
    assert_eq!(ids, vec![("c".to_string(), "combo (round-robin)".to_string())]);
    assert_eq!(orch.combos().len(), 1);
}

#[test]
fn list_models_prefixes_provider_ids() {
    let mocks = vec![MockProvider::ok("a", "A")];
    let orch = orchestrator(
        &mocks,
        vec![Combo {
            name: "fz".to_string(),
            targets: vec![target("a")],
            strategy: Strategy::Fusion(FusionConfig::default()),
        }],
    );
    let ids: Vec<(String, String)> = orch.list_models().into_iter().map(|m| (m.id, m.name)).collect();
    assert_eq!(
        ids,
        vec![
            ("a/m".to_string(), "a model".to_string()),
            ("fz".to_string(), "combo (fusion)".to_string()),
        ]
    );
}

#[test]
fn judge_prompt_numbers_sources() {
    let r = ChatRequest {
        model: "x".to_string(),
        messages: vec![
            ChatMessage { role: "user".to_string(), content: "first".to_string() },
            ChatMessage { role: "assistant".to_string(), content: "reply".to_string() },
            ChatMessage { role: "user".to_string(), content: "what is 2+2?".to_string() },
        ],
        stream: true,
        max_tokens: Some(50),
        temperature_bits: Some(0.5f32.to_bits()),
    };
    let answers = vec![
        ChatResponse { content: "4".to_string(), ..Default::default() },
        ChatResponse { content: "four".to_string(), ..Default::default() },
    ];
    let q = build_judge_request(&r, &answers);
    assert_eq!(q.model, "");
    assert!(!q.stream);
    assert_eq!(q.max_tokens, Some(50));
    assert_eq!(q.temperature_bits.map(f32::from_bits), Some(0.5));
    assert_eq!(q.messages.len(), 1);
    assert_eq!(q.messages[0].role, "user");
    assert_eq!(
        q.messages[0].content,
        "You are an expert judge. Below are candidate answers from multiple AI models to the same user query. Synthesize the single best, correct and complete answer. Do not mention the sources.\n\nSource 1:\n4\n\nSource 2:\nfour\n\nOriginal user message:\nwhat is 2+2?"
    );
}

#[test]
fn fusion_without_answers_fails() {
    let mut run = FusionRun::new(vec![target("a")], FusionConfig::default());
    run.on_result(Err(ProviderError::Timeout));
    assert!(run.all_reported());
    match run.conclude(&req()) {
        FusionOutcome::Failed(e) => {
            assert_eq!(e.status(), 500);
            assert_eq!(e.message(), "orchestrator: fusion: no panel answers");
        }
        _ => panic!("no answers must fail"),
    }
}

#[test]
fn fusion_judge_defaults_to_first_panelist() {
    let mut run = FusionRun::new(vec![target("a"), target("b")], FusionConfig::default());
    run.on_result(Ok(ChatResponse { content: "x".to_string(), ..Default::default() }));
    run.on_result(Ok(ChatResponse { content: "y".to_string(), ..Default::default() }));
    match run.conclude(&req()) {
        FusionOutcome::Judge { target, .. } => assert_eq!(target.provider, "a"),
        _ => panic!("two answers go to the judge"),
    }
}

#[test]
fn fusion_waits_grace_after_quorum() {
    let cfg = FusionConfig { min_panel: 1, grace_ms: 10, hard_timeout_ms: 1000, judge: None };
    let mut run = FusionRun::new(vec![target("a"), target("b")], cfg);
    assert_eq!(run.wait_ms(0), Some(1000));
    assert_eq!(run.wait_ms(400), Some(600));
    run.on_result(Ok(ChatResponse::default()));
    assert_eq!(run.wait_ms(400), Some(10));
    assert_eq!(run.wait_ms(995), Some(5));
    assert_eq!(run.wait_ms(1000), None);
    assert_eq!(run.wait_ms(5000), None);
}

#[test]
fn fusion_result_streams_as_one_delta() {
    let resp = ChatResponse {
        content: "answer".to_string(),
        usage: Usage { prompt_tokens: 1, completion_tokens: 2, total_tokens: 3 },
        target: Some(target("judge")),
        ..Default::default()
    };
    let (chunks, t) = fusion_chunks(resp);
    assert_eq!(chunks.len(), 2);
    assert!(matches!(&chunks[0], ChatChunk::Delta(d) if d == "answer"));
    assert!(matches!(&chunks[1], ChatChunk::Done(u) if u.total_tokens == 3));
    assert_eq!(t.unwrap().provider, "judge");
}

#[test]
fn mock_stream_yields_delta_then_done() {
    let m = MockProvider::ok("a", "hello");
    let chunks = m.chat_stream(&req()).unwrap();
    assert!(matches!(&chunks[0], ChatChunk::Delta(d) if d == "hello"));
    assert!(matches!(&chunks[1], ChatChunk::Done(u) if *u == Usage::default()));
    let e = MockProvider::fail("a", 502).chat_stream(&req()).err().unwrap();
    assert_eq!(e.message(), "upstream HTTP 502: mock failure");
}
