//! The decisions of the OpenAI-compatible provider client: endpoint URLs,
//! reply mapping, server-sent-event framing of streamed replies, error text
//! truncation and rate-limit header capture. HTTP and JSON stay with the
//! caller, which hands over plain values.

use vstd::prelude::*;
use vstd::string::*;
use crate::text::{
    byte_boundary, byte_len, char_index_at_byte, find_char, is_first_index, parse_u64,
    parse_u64_spec, starts_with, starts_with_spec, substring, trim, trim_end_char,
    trim_end_char_spec, trim_spec, utf8_len,
};
use crate::types::{ChatChunk, ChatResponse, Usage};

verus! {

/// `base/chat/completions`, trailing slashes of `base` removed.
pub open spec fn endpoint_spec(base_url: Seq<char>) -> Seq<char> {
    trim_end_char_spec(base_url, '/') + "/chat/completions"@
}

/// The chat-completions URL of a provider.
pub fn endpoint(base_url: &str) -> (r: String)
    ensures
        r@ == endpoint_spec(base_url@),
{
    let mut r = trim_end_char(base_url, '/');
    r.append("/chat/completions");
    r
}

/// `base/models`, trailing slashes of `base` removed.
pub open spec fn models_url_spec(base_url: Seq<char>) -> Seq<char> {
    trim_end_char_spec(base_url, '/') + "/models"@
}

/// The model-catalog URL of a provider.
pub fn models_url(base_url: &str) -> (r: String)
    ensures
        r@ == models_url_spec(base_url@),
{
    let mut r = trim_end_char(base_url, '/');
    r.append("/models");
    r
}

/// Upstream error bodies are cut to this many bytes.
pub const MAX_ERROR_BYTES: usize = 240;

/// `s` can be cut to `MAX_ERROR_BYTES` bytes (`String::truncate` panics
/// when the cut falls inside a character).
pub open spec fn truncatable(s: Seq<char>) -> bool {
    byte_len(s) <= MAX_ERROR_BYTES || exists|i: int| #[trigger] byte_boundary(s, MAX_ERROR_BYTES as nat, i)
}

/// Whether `truncate` can cut `s`.
pub fn can_truncate(s: &str) -> (r: bool)
    ensures
        r == truncatable(s@),
{
    utf8_len(s) <= MAX_ERROR_BYTES || char_index_at_byte(s, MAX_ERROR_BYTES).is_some()
}

/// An upstream error body cut to at most `MAX_ERROR_BYTES` bytes.
pub fn truncate(s: String) -> (r: String)
    requires
        truncatable(s@),
    ensures
        byte_len(s@) <= MAX_ERROR_BYTES ==> r@ == s@,
        byte_len(s@) > MAX_ERROR_BYTES ==> exists|i: int|
            #[trigger] byte_boundary(s@, MAX_ERROR_BYTES as nat, i) && r@ == s@.subrange(0, i),
{
    let b = utf8_len(s.as_str());
    if b <= MAX_ERROR_BYTES {
        return s;
    }
    match char_index_at_byte(s.as_str(), MAX_ERROR_BYTES) {
        Some(i) => substring(s.as_str(), 0, i),
        None => {
            assert(false);
            s
        },
    }
}

/// What a chat-completions reply carries: `choices[0].message.content`,
/// `choices[0].finish_reason` (each when a string) and the three usage
/// counts (each when an unsigned integer).
#[derive(Debug)]
pub struct CompletionReply {
    pub content: Option<String>,
    pub finish_reason: Option<String>,
    pub prompt_tokens: Option<u64>,
    pub completion_tokens: Option<u64>,
    pub total_tokens: Option<u64>,
}

/// A count, absent read as 0, cut to 32 bits.
pub open spec fn count32(c: Option<u64>) -> u32 {
    match c {
        Some(v) => v as u32,
        None => 0,
    }
}

fn count32_exec(c: Option<u64>) -> (r: u32)
    ensures
        r == count32(c),
{
    match c {
        Some(v) => v as u32,
        None => 0,
    }
}

/// The usage of a reply: each absent count read as 0 and cut to 32 bits.
pub fn usage_from_counts(prompt: Option<u64>, completion: Option<u64>, total: Option<u64>) -> (u: Usage)
    ensures
        u == (Usage {
            prompt_tokens: count32(prompt),
            completion_tokens: count32(completion),
            total_tokens: count32(total),
        }),
{
    Usage {
        prompt_tokens: count32_exec(prompt),
        completion_tokens: count32_exec(completion),
        total_tokens: count32_exec(total),
    }
}

/// The response of a successful non-streaming reply: its content (empty
/// when absent), finish reason and usage; no target yet, not fused.
pub fn response_from_reply(reply: CompletionReply) -> (r: ChatResponse)
    ensures
        r.content@ == match reply.content {
            Some(c) => c@,
            None => Seq::<char>::empty(),
        },
        r.finish_reason == reply.finish_reason,
        r.usage == (Usage {
            prompt_tokens: count32(reply.prompt_tokens),
            completion_tokens: count32(reply.completion_tokens),
            total_tokens: count32(reply.total_tokens),
        }),
        r.target is None,
        !r.fused,
{
    let usage = usage_from_counts(reply.prompt_tokens, reply.completion_tokens, reply.total_tokens);
    ChatResponse {
        content: match reply.content {
            Some(c) => c,
            None => String::new(),
        },
        usage,
        finish_reason: reply.finish_reason,
        target: None,
        fused: false,
    }
}

/// One line of a server-sent-event stream.
#[derive(Debug)]
pub enum SseLine {
    /// Not a `data:` line.
    Ignored,
    /// `data: [DONE]`: the stream is over.
    Done,
    /// The payload of a `data:` line, trimmed.
    Data(String),
}

/// What a line of the stream means.
pub enum LineKind {
    Ignored,
    Done,
    Data(Seq<char>),
}

/// The view of a classified line.
pub open spec fn line_kind(l: SseLine) -> LineKind {
    match l {
        SseLine::Ignored => LineKind::Ignored,
        SseLine::Done => LineKind::Done,
        SseLine::Data(d) => LineKind::Data(d@),
    }
}

/// The meaning of a (complete) line: after trimming, a `data:` line carries
/// the trimmed rest as payload, `[DONE]` ending the stream; any other line
/// is ignored.
pub open spec fn classify_line(line: Seq<char>) -> LineKind {
    let t = trim_spec(line);
    if starts_with_spec(t, "data:"@) {
        let d = trim_spec(t.subrange(5, t.len() as int));
        if d == "[DONE]"@ {
            LineKind::Done
        } else {
            LineKind::Data(d)
        }
    } else {
        LineKind::Ignored
    }
}

/// Classifies one line of the stream.
pub fn classify(line: &str) -> (r: SseLine)
    ensures
        line_kind(r) == classify_line(line@),
{
    let t = trim(line);
    proof {
        reveal_strlit("data:");
    }
    if starts_with(t.as_str(), "data:") {
        let n = t.as_str().unicode_len();
        let rest = substring(t.as_str(), 5, n);
        let d = trim(rest.as_str());
        let done = String::from_str("[DONE]");
        if d == done {
            SseLine::Done
        } else {
            SseLine::Data(d)
        }
    } else {
        SseLine::Ignored
    }
}

/// The usage counts a streamed chunk may carry.
#[derive(Debug)]
pub struct UsageCounts {
    pub prompt_tokens: Option<u64>,
    pub completion_tokens: Option<u64>,
    pub total_tokens: Option<u64>,
}

/// What a streamed `data:` payload carries: `choices[0].delta.content` (when
/// a string) and a non-null `usage` object.
#[derive(Debug)]
pub struct StreamPayload {
    pub content: Option<String>,
    pub usage: Option<UsageCounts>,
}

/// Framing state of a streamed reply: text received but not yet split into
/// lines, and the latest usage reported.
#[derive(Debug)]
pub struct SseDecoder {
    buf: String,
    usage: Usage,
}

impl SseDecoder {
    /// Received text not yet consumed as lines.
    pub closed spec fn pending(&self) -> Seq<char> {
        self.buf@
    }

    /// The latest usage reported by the stream.
    pub closed spec fn usage_view(&self) -> Usage {
        self.usage
    }

    /// A decoder that has received nothing, with zero usage.
    pub fn new() -> (d: Self)
        ensures
            d.pending() == Seq::<char>::empty(),
            d.usage_view() == (Usage { prompt_tokens: 0, completion_tokens: 0, total_tokens: 0 }),
    {
        SseDecoder { buf: String::new(), usage: Usage::default() }
    }

    /// Adds received text.
    pub fn feed(&mut self, text: &str)
        ensures
            final(self).pending() == old(self).pending() + text@,
            final(self).usage_view() == old(self).usage_view(),
    {
        self.buf.append(text);
    }

    /// Takes the next complete line (up to and including its `\n`) off the
    /// pending text and classifies it; `None` while no line is complete.
    pub fn next_line(&mut self) -> (r: Option<SseLine>)
        ensures
            final(self).usage_view() == old(self).usage_view(),
            r is None ==> !old(self).pending().contains('\n'),
            r is None ==> final(self).pending() == old(self).pending(),
            r matches Some(l) ==> exists|i: int|
                #[trigger] is_first_index(old(self).pending(), '\n', i) && final(self).pending()
                    == old(self).pending().subrange(i + 1, old(self).pending().len() as int)
                    && line_kind(l) == classify_line(old(self).pending().subrange(0, i + 1)),
    {
        match find_char(self.buf.as_str(), '\n') {
            None => {
                assert(!self.buf@.contains('\n'));
                None
            },
            Some(i) => {
                let n = self.buf.as_str().unicode_len();
                let line = substring(self.buf.as_str(), 0, i + 1);
                let rest = substring(self.buf.as_str(), i + 1, n);
                let l = classify(line.as_str());
                let ghost old_buf = self.buf@;
                self.buf = rest;
                assert(is_first_index(old(self).pending(), '\n', i as int));
                Some(l)
            },
        }
    }

    /// Handles a parsed payload: a reported usage replaces the current one;
    /// non-empty content is a delta to forward.
    pub fn on_payload(&mut self, p: StreamPayload) -> (r: Option<ChatChunk>)
        ensures
            final(self).pending() == old(self).pending(),
            final(self).usage_view() == match p.usage {
                Some(u) => Usage {
                    prompt_tokens: count32(u.prompt_tokens),
                    completion_tokens: count32(u.completion_tokens),
                    total_tokens: count32(u.total_tokens),
                },
                None => old(self).usage_view(),
            },
            match p.content {
                Some(c) => if c@.len() > 0 {
                    r == Some(ChatChunk::Delta(c))
                } else {
                    r is None
                },
                None => r is None,
            },
    {
        match p.usage {
            Some(u) => {
                self.usage = usage_from_counts(u.prompt_tokens, u.completion_tokens, u.total_tokens);
            },
            None => {},
        }
        match p.content {
            Some(c) => if c.as_str().is_empty() {
                None
            } else {
                Some(ChatChunk::Delta(c))
            },
            None => None,
        }
    }

    /// The terminal chunk, carrying the latest usage.
    pub fn done(&self) -> (r: ChatChunk)
        ensures
            r == ChatChunk::Done(self.usage_view()),
    {
        ChatChunk::Done(self.usage)
    }
}


/// The raw rate-limit headers of an upstream reply (each when present and
/// readable as text).
#[derive(Debug)]
pub struct RateLimitHeaders {
    pub limit_requests: Option<String>,
    pub remaining_requests: Option<String>,
    pub limit_tokens: Option<String>,
    pub remaining_tokens: Option<String>,
    pub reset_requests: Option<String>,
    pub reset_tokens: Option<String>,
    pub retry_after: Option<String>,
}

/// Latest rate-limit signals captured from a provider's replies.
#[derive(Debug)]
pub struct QuotaSnapshot {
    pub limit_requests: Option<u64>,
    pub remaining_requests: Option<u64>,
    pub limit_tokens: Option<u64>,
    pub remaining_tokens: Option<u64>,
    pub reset: Option<String>,
    pub retry_after: Option<String>,
    pub last_status: u16,
    pub updated: u64,
}

/// A header read as an unsigned count (absent or not a number: none).
pub open spec fn header_count(h: Option<String>) -> Option<u64> {
    match h {
        Some(v) => parse_u64_spec(v@),
        None => None,
    }
}

fn header_count_exec(h: &Option<String>) -> (r: Option<u64>)
    ensures
        r == header_count(*h),
{
    match h {
        Some(v) => parse_u64(v.as_str()),
        None => None,
    }
}

/// The quota snapshot of a reply with status `status` received at `now`:
/// the four counts parsed, the request reset time (else the token reset
/// time) and the retry-after hint kept as text.
pub fn capture_quota(h: RateLimitHeaders, status: u16, now: u64) -> (q: QuotaSnapshot)
    ensures
        q.limit_requests == header_count(h.limit_requests),
        q.remaining_requests == header_count(h.remaining_requests),
        q.limit_tokens == header_count(h.limit_tokens),
        q.remaining_tokens == header_count(h.remaining_tokens),
        q.reset == match h.reset_requests {
            Some(r) => Some(r),
            None => h.reset_tokens,
        },
        q.retry_after == h.retry_after,
        q.last_status == status,
        q.updated == now,
{
    let limit_requests = header_count_exec(&h.limit_requests);
    let remaining_requests = header_count_exec(&h.remaining_requests);
    let limit_tokens = header_count_exec(&h.limit_tokens);
    let remaining_tokens = header_count_exec(&h.remaining_tokens);
    let reset = match h.reset_requests {
        Some(r) => Some(r),
        None => h.reset_tokens,
    };
    QuotaSnapshot {
        limit_requests,
        remaining_requests,
        limit_tokens,
        remaining_tokens,
        reset,
        retry_after: h.retry_after,
        last_status: status,
        updated: now,
    }
}

} // verus!
