//! In-memory console-log capture: a capped ring of formatted lines. Each
//! change yields the message to broadcast to live subscribers.

use vstd::prelude::*;
use vstd::string::*;
use std::collections::VecDeque;

verus! {

/// How many lines the ring keeps (the newest ones).
pub const CAP: usize = 1000;

/// A message for live log subscribers.
#[derive(Clone, Debug)]
pub enum LogMsg {
    Line(String),
    Clear,
}

/// A capped ring of log lines.
#[derive(Debug)]
pub struct LogRing {
    buf: VecDeque<String>,
}

/// The ring after appending `line`: when full, the oldest line is dropped.
pub open spec fn ring_push(lines: Seq<String>, line: String) -> Seq<String> {
    if lines.len() >= CAP {
        lines.drop_first().push(line)
    } else {
        lines.push(line)
    }
}

impl LogRing {
    /// The lines, oldest first.
    pub closed spec fn lines(&self) -> Seq<String> {
        self.buf@
    }

    /// An empty ring.
    pub fn new() -> (r: Self)
        ensures
            r.lines() == Seq::<String>::empty(),
    {
        LogRing { buf: VecDeque::with_capacity(CAP) }
    }

    /// Appends `line`, dropping the oldest line when the ring is full, and
    /// returns the message announcing it.
    pub fn push(&mut self, line: String) -> (msg: LogMsg)
        requires
            old(self).lines().len() <= CAP,
        ensures
            final(self).lines() == ring_push(old(self).lines(), line),
            final(self).lines().len() <= CAP,
            msg == LogMsg::Line(line),
    {
        if self.buf.len() >= CAP {
            self.buf.pop_front();
        }
        self.buf.push_back(line.clone());
        LogMsg::Line(line)
    }

    /// The lines, oldest first.
    pub fn snapshot(&self) -> (r: Vec<String>)
        ensures
            r@ == self.lines(),
    {
        let mut r: Vec<String> = Vec::new();
        let mut i: usize = 0;
        while i < self.buf.len()
            invariant
                i <= self.buf@.len(),
                r@ == self.buf@.subrange(0, i as int),
            decreases self.buf.len() - i,
        {
            r.push(self.buf[i].clone());
            i = i + 1;
        }
        assert(r@ =~= self.buf@);
        r
    }

    /// Empties the ring and returns the message announcing it.
    pub fn clear(&mut self) -> (msg: LogMsg)
        ensures
            final(self).lines() == Seq::<String>::empty(),
            msg == LogMsg::Clear,
    {
        self.buf.clear();
        LogMsg::Clear
    }
}

/// A formatted console line: `[LEVEL] message`.
pub open spec fn log_line_spec(level: Seq<char>, msg: Seq<char>) -> Seq<char> {
    "["@ + level + "] "@ + msg
}

/// Formats an event as `[LEVEL] message`.
pub fn format_log_line(level: &str, msg: &str) -> (r: String)
    ensures
        r@ == log_line_spec(level@, msg@),
{
    let mut r = String::from_str("[");
    r.append(level);
    r.append("] ");
    r.append(msg);
    r
}

} // verus!
