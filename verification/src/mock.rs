//! A deterministic in-memory provider for tests: always the same answer, or
//! always the same HTTP error.

use vstd::prelude::*;
use vstd::string::*;
use crate::types::{ChatChunk, ChatRequest, ChatResponse, ModelInfo, ProviderError, Usage};

verus! {

/// What a mock provider does on every call.
#[derive(Debug)]
pub enum MockBehavior {
    Answer(String),
    Fail(u16),
}

/// Mock provider that always returns the same answer (or the same error).
#[derive(Debug)]
pub struct MockProvider {
    id: String,
    behavior: MockBehavior,
}

impl MockProvider {
    pub closed spec fn id_view(&self) -> Seq<char> {
        self.id@
    }

    pub closed spec fn behavior_view(&self) -> MockBehavior {
        self.behavior
    }

    /// A provider `id` that answers `content`.
    pub fn ok(id: &str, content: &str) -> (r: Self)
        ensures
            r.id_view() == id@,
            r.behavior_view() matches MockBehavior::Answer(c) && c@ == content@,
    {
        MockProvider { id: String::from_str(id), behavior: MockBehavior::Answer(String::from_str(content)) }
    }

    /// A provider `id` that fails with HTTP `status`.
    pub fn fail(id: &str, status: u16) -> (r: Self)
        ensures
            r.id_view() == id@,
            r.behavior_view() == MockBehavior::Fail(status),
    {
        MockProvider { id: String::from_str(id), behavior: MockBehavior::Fail(status) }
    }

    /// The provider id.
    pub fn id(&self) -> (r: &str)
        ensures
            r@ == self.id_view(),
    {
        self.id.as_str()
    }

    /// The single model `m`, named `<id> model`.
    pub fn models(&self) -> (r: Vec<ModelInfo>)
        ensures
            r@.len() == 1,
            r@[0].id@ == "m"@,
            r@[0].name@ == self.id_view() + " model"@,
    {
        let mut name = self.id.clone();
        name.append(" model");
        let mut v: Vec<ModelInfo> = Vec::new();
        v.push(ModelInfo { id: String::from_str("m"), name });
        v
    }

    /// Answers `req`: the fixed content with finish reason `stop`, or the
    /// fixed HTTP error with message `mock failure`.
    pub fn chat_once(&self, req: &ChatRequest) -> (r: Result<ChatResponse, ProviderError>)
        ensures
            match self.behavior_view() {
                MockBehavior::Answer(c) => {
                    &&& r matches Ok(resp)
                    &&& resp.content@ == c@
                    &&& resp.finish_reason matches Some(f)
                    &&& f@ == "stop"@
                    &&& resp.usage == (Usage { prompt_tokens: 0, completion_tokens: 0, total_tokens: 0 })
                    &&& resp.target is None
                    &&& !resp.fused
                },
                MockBehavior::Fail(s) => {
                    &&& r matches Err(ProviderError::Http { status, message })
                    &&& status == s
                    &&& message@ == "mock failure"@
                },
            },
    {
        match &self.behavior {
            MockBehavior::Answer(c) => {
                let mut resp = ChatResponse::default();
                resp.content = c.clone();
                resp.finish_reason = Some(String::from_str("stop"));
                Ok(resp)
            },
            MockBehavior::Fail(s) => Err(
                ProviderError::Http { status: *s, message: String::from_str("mock failure") },
            ),
        }
    }

    /// Streams the answer to `req`: one delta with the fixed content, then
    /// the terminal chunk with zero usage; or the fixed HTTP error.
    pub fn chat_stream(&self, req: &ChatRequest) -> (r: Result<Vec<ChatChunk>, ProviderError>)
        ensures
            match self.behavior_view() {
                MockBehavior::Answer(c) => {
                    &&& r matches Ok(chunks)
                    &&& chunks@.len() == 2
                    &&& chunks@[0] matches ChatChunk::Delta(d)
                    &&& d@ == c@
                    &&& chunks@[1] == ChatChunk::Done(Usage { prompt_tokens: 0, completion_tokens: 0, total_tokens: 0 })
                },
                MockBehavior::Fail(s) => {
                    &&& r matches Err(ProviderError::Http { status, message })
                    &&& status == s
                    &&& message@ == "mock failure"@
                },
            },
    {
        match &self.behavior {
            MockBehavior::Answer(c) => {
                let mut chunks: Vec<ChatChunk> = Vec::new();
                chunks.push(ChatChunk::Delta(c.clone()));
                chunks.push(ChatChunk::Done(Usage::default()));
                Ok(chunks)
            },
            MockBehavior::Fail(s) => Err(
                ProviderError::Http { status: *s, message: String::from_str("mock failure") },
            ),
        }
    }
}

} // verus!
