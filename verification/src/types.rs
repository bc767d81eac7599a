//! Core data types shared across the orchestrator, in OpenAI chat shape.

use vstd::prelude::*;
use vstd::string::*;
use crate::text::{decimal, decimal_spec};

verus! {

/// A single chat message (OpenAI shape).
#[derive(Debug)]
pub struct ChatMessage {
    pub role: String,
    pub content: String,
}

impl Clone for ChatMessage {
    fn clone(&self) -> (r: Self)
        ensures
            r == *self,
    {
        ChatMessage { role: self.role.clone(), content: self.content.clone() }
    }
}

/// The role name of user-authored messages.
pub open spec fn user_role() -> Seq<char> {
    seq!['u', 's', 'e', 'r']
}

/// Content of the latest message whose role is `user`, or the empty text.
pub open spec fn last_user_content(msgs: Seq<ChatMessage>) -> Seq<char>
    decreases msgs.len(),
{
    if msgs.len() == 0 {
        Seq::empty()
    } else if msgs.last().role@ == user_role() {
        msgs.last().content@
    } else {
        last_user_content(msgs.drop_last())
    }
}

/// An incoming chat request. The sampling temperature is carried as the bit
/// pattern of its `f32` value (`f32::to_bits`); the library only forwards it.
#[derive(Debug)]
pub struct ChatRequest {
    pub model: String,
    pub messages: Vec<ChatMessage>,
    pub stream: bool,
    pub max_tokens: Option<u32>,
    pub temperature_bits: Option<u32>,
}

/// Clones a message list element by element.
pub fn clone_messages(v: &Vec<ChatMessage>) -> (r: Vec<ChatMessage>)
    ensures
        r@ == v@,
{
    let mut r: Vec<ChatMessage> = Vec::new();
    let mut i: usize = 0;
    while i < v.len()
        invariant
            i <= v.len(),
            r@ == v@.subrange(0, i as int),
        decreases v.len() - i,
    {
        r.push(v[i].clone());
        i = i + 1;
    }
    assert(r@ =~= v@);
    r
}

impl Clone for ChatRequest {
    fn clone(&self) -> (r: Self)
        ensures
            r.model == self.model,
            r.messages@ == self.messages@,
            r.stream == self.stream,
            r.max_tokens == self.max_tokens,
            r.temperature_bits == self.temperature_bits,
    {
        let messages = clone_messages(&self.messages);
        ChatRequest {
            model: self.model.clone(),
            messages,
            stream: self.stream,
            max_tokens: self.max_tokens,
            temperature_bits: self.temperature_bits,
        }
    }
}

impl Default for ChatRequest {
    fn default() -> (r: Self)
        ensures
            r.model@ == Seq::<char>::empty(),
            r.messages@ == Seq::<ChatMessage>::empty(),
            !r.stream,
            r.max_tokens is None,
            r.temperature_bits is None,
    {
        ChatRequest {
            model: String::new(),
            messages: Vec::new(),
            stream: false,
            max_tokens: None,
            temperature_bits: None,
        }
    }
}

impl ChatRequest {
    /// Text of the latest user message (used to build the fusion judge prompt).
    pub fn last_user_message(&self) -> (r: &str)
        ensures
            r@ == last_user_content(self.messages@),
    {
        let user = String::from_str("user");
        proof {
            reveal_strlit("user");
            assert(user@ =~= user_role());
        }
        let mut i: usize = self.messages.len();
        assert(self.messages@.subrange(0, i as int) =~= self.messages@);
        while i > 0
            invariant
                i <= self.messages@.len(),
                user@ == user_role(),
                last_user_content(self.messages@) == last_user_content(
                    self.messages@.subrange(0, i as int),
                ),
            decreases i,
        {
            let m = &self.messages[i - 1];
            let ghost pre = self.messages@.subrange(0, i as int);
            assert(pre.last() == self.messages@[i - 1]);
            if m.role == user {
                return m.content.as_str();
            }
            assert(pre.drop_last() =~= self.messages@.subrange(0, i - 1));
            i = i - 1;
        }
        proof {
            reveal_strlit("");
        }
        ""
    }
}

/// Token accounting.
#[derive(Clone, Copy, Debug, PartialEq, Eq, Structural)]
pub struct Usage {
    pub prompt_tokens: u32,
    pub completion_tokens: u32,
    pub total_tokens: u32,
}

impl Default for Usage {
    fn default() -> (r: Self)
        ensures
            r == (Usage { prompt_tokens: 0, completion_tokens: 0, total_tokens: 0 }),
    {
        Usage { prompt_tokens: 0, completion_tokens: 0, total_tokens: 0 }
    }
}

/// A concrete provider+model destination.
#[derive(Debug)]
pub struct Target {
    pub provider: String,
    pub model: String,
}

impl Clone for Target {
    fn clone(&self) -> (r: Self)
        ensures
            r == *self,
    {
        Target { provider: self.provider.clone(), model: self.model.clone() }
    }
}

/// `provider/model`.
pub open spec fn label_spec(provider: Seq<char>, model: Seq<char>) -> Seq<char> {
    provider + seq!['/'] + model
}

impl Target {
    /// The `provider/model` label of this destination.
    pub fn label(&self) -> (s: String)
        ensures
            s@ == label_spec(self.provider@, self.model@),
    {
        proof {
            reveal_strlit("/");
        }
        let mut s = self.provider.clone();
        s.append("/");
        s.append(self.model.as_str());
        s
    }
}

/// Clones a target list element by element.
pub fn clone_targets(v: &Vec<Target>) -> (r: Vec<Target>)
    ensures
        r@ == v@,
{
    let mut r: Vec<Target> = Vec::new();
    let mut i: usize = 0;
    while i < v.len()
        invariant
            i <= v.len(),
            r@ == v@.subrange(0, i as int),
        decreases v.len() - i,
    {
        r.push(v[i].clone());
        i = i + 1;
    }
    assert(r@ =~= v@);
    r
}

/// A non-streaming chat result.
#[derive(Debug)]
pub struct ChatResponse {
    pub content: String,
    pub usage: Usage,
    pub finish_reason: Option<String>,
    /// Which target produced this answer (filled in by the orchestrator).
    pub target: Option<Target>,
    /// True when produced by the fusion judge (aggregated from a panel).
    pub fused: bool,
}

impl Clone for ChatResponse {
    fn clone(&self) -> (r: Self)
        ensures
            r == *self,
    {
        ChatResponse {
            content: self.content.clone(),
            usage: self.usage,
            finish_reason: match &self.finish_reason {
                Some(f) => Some(f.clone()),
                None => None,
            },
            target: match &self.target {
                Some(t) => Some(t.clone()),
                None => None,
            },
            fused: self.fused,
        }
    }
}

impl Default for ChatResponse {
    fn default() -> (r: Self)
        ensures
            r.content@ == Seq::<char>::empty(),
            r.usage == (Usage { prompt_tokens: 0, completion_tokens: 0, total_tokens: 0 }),
            r.finish_reason is None,
            r.target is None,
            !r.fused,
    {
        ChatResponse {
            content: String::new(),
            usage: Usage::default(),
            finish_reason: None,
            target: None,
            fused: false,
        }
    }
}

/// A streamed chunk.
#[derive(Debug)]
pub enum ChatChunk {
    /// Incremental text delta.
    Delta(String),
    /// Terminal chunk carrying final usage.
    Done(Usage),
}

/// Model metadata for listings.
#[derive(Debug)]
pub struct ModelInfo {
    pub id: String,
    pub name: String,
}

impl Clone for ModelInfo {
    fn clone(&self) -> (r: Self)
        ensures
            r == *self,
    {
        ModelInfo { id: self.id.clone(), name: self.name.clone() }
    }
}

/// Default `sticky` of a round-robin combo.
pub fn default_sticky() -> (r: u32)
    ensures
        r == 1,
{
    1
}

/// Default quorum of a fusion panel.
pub fn default_min_panel() -> (r: usize)
    ensures
        r == 2,
{
    2
}

/// Default grace window (ms) after the fusion quorum is reached.
pub fn default_grace_ms() -> (r: u64)
    ensures
        r == 8_000,
{
    8_000
}

/// Default hard timeout (ms) of a fusion fan-out.
pub fn default_hard_ms() -> (r: u64)
    ensures
        r == 90_000,
{
    90_000
}

/// Fusion tuning (quorum + grace window + hard timeout, optional judge).
#[derive(Debug)]
pub struct FusionConfig {
    pub min_panel: usize,
    pub grace_ms: u64,
    pub hard_timeout_ms: u64,
    pub judge: Option<Target>,
}

impl Clone for FusionConfig {
    fn clone(&self) -> (r: Self)
        ensures
            r == *self,
    {
        FusionConfig {
            min_panel: self.min_panel,
            grace_ms: self.grace_ms,
            hard_timeout_ms: self.hard_timeout_ms,
            judge: match &self.judge {
                Some(t) => Some(t.clone()),
                None => None,
            },
        }
    }
}

impl Default for FusionConfig {
    fn default() -> (r: Self)
        ensures
            r.min_panel == 2,
            r.grace_ms == 8_000,
            r.hard_timeout_ms == 90_000,
            r.judge is None,
    {
        FusionConfig {
            min_panel: default_min_panel(),
            grace_ms: default_grace_ms(),
            hard_timeout_ms: default_hard_ms(),
            judge: None,
        }
    }
}

/// Orchestration strategy for a combo.
#[derive(Debug)]
pub enum Strategy {
    /// Try targets in order; advance on a retryable error.
    Fallback,
    /// Rotate the starting target across calls, repeating each `sticky` times.
    RoundRobin { sticky: u32 },
    /// Fan out to the panel, collect a quorum, then synthesize with a judge.
    Fusion(FusionConfig),
}

impl Clone for Strategy {
    fn clone(&self) -> (r: Self)
        ensures
            r == *self,
    {
        match self {
            Strategy::Fallback => Strategy::Fallback,
            Strategy::RoundRobin { sticky } => Strategy::RoundRobin { sticky: *sticky },
            Strategy::Fusion(c) => Strategy::Fusion(c.clone()),
        }
    }
}

/// Display name of a strategy in model listings.
pub open spec fn strategy_label_spec(s: Strategy) -> Seq<char> {
    match s {
        Strategy::Fallback => "fallback"@,
        Strategy::RoundRobin { .. } => "round-robin"@,
        Strategy::Fusion(_) => "fusion"@,
    }
}

/// Display name of a strategy in model listings.
pub fn strategy_label(s: &Strategy) -> (r: &'static str)
    ensures
        r@ == strategy_label_spec(*s),
{
    match s {
        Strategy::Fallback => "fallback",
        Strategy::RoundRobin { .. } => "round-robin",
        Strategy::Fusion(_) => "fusion",
    }
}

/// A named multi-target combo.
#[derive(Debug)]
pub struct Combo {
    pub name: String,
    pub targets: Vec<Target>,
    pub strategy: Strategy,
}

impl Clone for Combo {
    fn clone(&self) -> (r: Self)
        ensures
            r.name == self.name,
            r.targets@ == self.targets@,
            r.strategy == self.strategy,
    {
        Combo {
            name: self.name.clone(),
            targets: clone_targets(&self.targets),
            strategy: self.strategy.clone(),
        }
    }
}

/// Errors a provider may return.
#[derive(Debug)]
pub enum ProviderError {
    NotFound(String),
    Http { status: u16, message: String },
    Network(String),
    Timeout,
    Orchestration(String),
}

impl Clone for ProviderError {
    fn clone(&self) -> (r: Self)
        ensures
            r == *self,
    {
        match self {
            ProviderError::NotFound(s) => ProviderError::NotFound(s.clone()),
            ProviderError::Http { status, message } => ProviderError::Http {
                status: *status,
                message: message.clone(),
            },
            ProviderError::Network(s) => ProviderError::Network(s.clone()),
            ProviderError::Timeout => ProviderError::Timeout,
            ProviderError::Orchestration(s) => ProviderError::Orchestration(s.clone()),
        }
    }
}

/// Whether the orchestrator advances to the next target on this error:
/// client errors (400/404/422) and orchestration errors stop; auth, rate-limit,
/// overload, network, timeout and unknown-provider errors fall through.
pub open spec fn retryable(e: ProviderError) -> bool {
    match e {
        ProviderError::Http { status, .. } => !(status == 400 || status == 404 || status == 422),
        ProviderError::Network(_) => true,
        ProviderError::Timeout => true,
        ProviderError::NotFound(_) => true,
        ProviderError::Orchestration(_) => false,
    }
}

/// **Which errors a fallback run moves past.** An upstream HTTP error stops
/// the run exactly when its status is 400, 404 or 422 (the client's own
/// mistakes); every other status (auth 401/403, rate limit 429, server and
/// overload errors 500, 502, 503, ...) falls through to the next target, as
/// do network errors, timeouts and unknown providers. Orchestration errors
/// stop.
pub proof fn law_retryable(status: u16, message: String, text: String)
    ensures
        retryable(ProviderError::Http { status, message }) <==> (status != 400 && status != 404
            && status != 422),
        retryable(ProviderError::Network(text)),
        retryable(ProviderError::Timeout),
        retryable(ProviderError::NotFound(text)),
        !retryable(ProviderError::Orchestration(text)),
{
}

/// The HTTP status an error is reported with.
pub open spec fn status_of(e: ProviderError) -> u16 {
    match e {
        ProviderError::Http { status, .. } => status,
        ProviderError::NotFound(_) => 404,
        ProviderError::Timeout => 504,
        ProviderError::Network(_) => 502,
        ProviderError::Orchestration(_) => 500,
    }
}

/// The human-readable message of an error.
pub open spec fn message_spec(e: ProviderError) -> Seq<char> {
    match e {
        ProviderError::NotFound(id) => "provider '"@ + id@ + "' not configured"@,
        ProviderError::Http { status, message } => "upstream HTTP "@ + decimal_spec(
            status as nat,
        ) + ": "@ + message@,
        ProviderError::Network(m) => "network error: "@ + m@,
        ProviderError::Timeout => "request timed out"@,
        ProviderError::Orchestration(m) => "orchestrator: "@ + m@,
    }
}

impl ProviderError {
    /// Whether the orchestrator should advance to the next target on this error.
    pub fn is_retryable(&self) -> (r: bool)
        ensures
            r == retryable(*self),
    {
        match self {
            ProviderError::Http { status, .. } => !(*status == 400 || *status == 404 || *status
                == 422),
            ProviderError::Network(_) | ProviderError::Timeout | ProviderError::NotFound(_) => true,
            ProviderError::Orchestration(_) => false,
        }
    }

    /// The HTTP status code this error maps to.
    pub fn status(&self) -> (r: u16)
        ensures
            r == status_of(*self),
    {
        match self {
            ProviderError::Http { status, .. } => *status,
            ProviderError::NotFound(_) => 404,
            ProviderError::Timeout => 504,
            ProviderError::Network(_) => 502,
            ProviderError::Orchestration(_) => 500,
        }
    }

    /// The error's message (what its `Display` form reads).
    pub fn message(&self) -> (r: String)
        ensures
            r@ == message_spec(*self),
    {
        match self {
            ProviderError::NotFound(id) => {
                let mut s = String::from_str("provider '");
                s.append(id.as_str());
                s.append("' not configured");
                s
            },
            ProviderError::Http { status, message } => {
                let mut s = String::from_str("upstream HTTP ");
                let d = decimal(*status as u64);
                s.append(d.as_str());
                s.append(": ");
                s.append(message.as_str());
                s
            },
            ProviderError::Network(m) => {
                let mut s = String::from_str("network error: ");
                s.append(m.as_str());
                s
            },
            ProviderError::Timeout => String::from_str("request timed out"),
            ProviderError::Orchestration(m) => {
                let mut s = String::from_str("orchestrator: ");
                s.append(m.as_str());
                s
            },
        }
    }
}

} // verus!
