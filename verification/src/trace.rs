//! The record of an evaluation, one entry for each token that was read.

use crate::eval::{completed, run};
use crate::token::split;
use vstd::prelude::*;

verus! {

/// The state of an evaluation just after a token was read.
#[derive(Debug, PartialEq, Eq)]
pub struct TraceStep {
    /// The tokens not yet read, last to first: the next one to be read stands
    /// at the end.
    pub remaining: Vec<String>,
    /// The stack, bottom to top.
    pub stack: Vec<i32>,
}

/// What a `TraceStep` holds, as sequences.
pub struct TraceEntry {
    pub remaining: Seq<Seq<char>>,
    pub stack: Seq<i32>,
}

/// The characters of each of `names`.
pub open spec fn string_views(names: Seq<String>) -> Seq<Seq<char>> {
    names.map_values(|name: String| name@)
}

impl View for TraceStep {
    type V = TraceEntry;

    open spec fn view(&self) -> TraceEntry {
        TraceEntry { remaining: string_views(self.remaining@), stack: self.stack@ }
    }
}

/// What each of `steps` holds.
pub open spec fn entries(steps: Seq<TraceStep>) -> Seq<TraceEntry> {
    steps.map_values(|step: TraceStep| step@)
}

/// The entry recorded after the first `k` of `tokens` were read.
pub open spec fn entry_after(tokens: Seq<Seq<char>>, k: nat) -> TraceEntry {
    TraceEntry {
        remaining: tokens.skip(k as int).reverse(),
        stack: match run(tokens, k) {
            Ok(stack) => stack,
            Err(_) => Seq::empty(),
        },
    }
}

/// The entries after each of the first `n` tokens.
pub open spec fn entries_until(tokens: Seq<Seq<char>>, n: nat) -> Seq<TraceEntry> {
    Seq::new(n, |k: int| entry_after(tokens, (k + 1) as nat))
}

/// The record of a line with the given tokens: an entry for each token read
/// before the first failure, and none for the token that failed.
pub open spec fn trace_of(tokens: Seq<Seq<char>>) -> Seq<TraceEntry> {
    entries_until(tokens, completed(tokens, tokens.len()))
}

/// The record of `line`.
pub open spec fn trace(line: Seq<char>) -> Seq<TraceEntry> {
    trace_of(split(line))
}

} // verus!
