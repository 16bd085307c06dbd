//! The requests for completion hints.

use vstd::prelude::*;
use crate::text::same_text;

verus! {

/// A request for a hint. Later requests have other numbers.
#[derive(Debug)]
pub struct CompHintRequest {
    pub req_gen: u64,
    pub buffer: String,
    pub cursor_pos: usize,
}

/// What was last asked.
#[derive(Debug)]
pub struct HintWorker {
    pub req_gen: u64,
    pub last_sent: Option<(String, usize)>,
}

#[verifier::ext_equal]
pub struct WorkerV {
    pub req_gen: u64,
    pub last_sent: Option<(Seq<char>, usize)>,
}

impl View for HintWorker {
    type V = WorkerV;

    open spec fn view(&self) -> WorkerV {
        WorkerV {
            req_gen: self.req_gen,
            last_sent: match self.last_sent {
                Some((s, n)) => Some((s@, n)),
                None => None,
            },
        }
    }
}

/// The number after a number, beginning again behind the largest.
pub open spec fn next_gen(g: u64) -> u64 {
    if g == u64::MAX {
        0
    } else {
        (g + 1) as u64
    }
}

impl HintWorker {
    pub fn new() -> (w: HintWorker)
        ensures
            w@ == (WorkerV { req_gen: 0, last_sent: None }),
    {
        HintWorker { req_gen: 0, last_sent: None }
    }

    /// The request to send for a text and a cursor; none where they were the
    /// last ones asked for.
    pub fn dispatch_worker(&mut self, buffer: String, cursor_pos: usize) -> (r: Option<
        CompHintRequest,
    >)
        ensures
            if old(self)@.last_sent == Some((buffer@, cursor_pos)) {
                r is None && final(self)@ == old(self)@
            } else {
                &&& final(self)@ == (WorkerV {
                    req_gen: next_gen(old(self)@.req_gen),
                    last_sent: Some((buffer@, cursor_pos)),
                })
                &&& r matches Some(q) && q.req_gen == next_gen(old(self)@.req_gen) && q.buffer@
                    == buffer@ && q.cursor_pos == cursor_pos
            },
    {
        if let Some((b, c)) = &self.last_sent {
            if same_text(b.as_str(), buffer.as_str()) && *c == cursor_pos {
                return None;
            }
        }
        self.last_sent = Some((buffer.clone(), cursor_pos));
        self.req_gen = if self.req_gen == u64::MAX {
            0
        } else {
            self.req_gen + 1
        };
        Some(CompHintRequest { req_gen: self.req_gen, buffer, cursor_pos })
    }
}

} // verus!
