//! The generation loop as a state machine: it says when to decode, sample,
//! emit a token and stop; the caller runs the model and reports back.
use vstd::prelude::*;

verus! {

/// Most tokens the chat produces for one reply.
pub const CHAT_REPLY_LIMIT: i32 = 4096;

/// Why generation stopped.
#[derive(PartialEq, Eq, Structural, Clone, Copy)]
pub enum StopReason {
    /// The next batch does not fit in the context.
    ContextFull,
    /// The model reported an error while decoding.
    DecodeFailed,
    /// The sampled token ends the generation.
    EndOfGeneration,
    /// As many tokens as allowed were produced.
    TokenLimit,
}

/// What the caller does next.
pub enum GenAction {
    /// Decode these tokens, then call `decoded`.
    Decode(Vec<i32>),
    /// Sample the next token, then call `sampled`.
    Sample,
    /// Show this token, then call `emitted`.
    Emit(i32),
    /// Generation is over.
    Stop(StopReason),
}

/// Where the loop stands: which call it expects next.
#[derive(PartialEq, Eq, Structural, Clone, Copy)]
pub enum Phase {
    /// Waiting for `start`.
    Ready,
    /// Waiting for `decoded`.
    Decoding,
    /// Waiting for `sampled`.
    Sampling,
    /// Waiting for `emitted`.
    Emitted,
    /// Stopped.
    Done,
}

/// The loop's state, by value.
pub struct GenState {
    /// Tokens to be decoded next.
    pub pending: Seq<i32>,
    /// Tokens already in the context.
    pub n_past: int,
    /// Tokens emitted so far.
    pub n_decoded: int,
    /// Capacity of the context, as the loop compares against it.
    pub ctx_cap: int,
    /// Limit on emitted tokens.
    pub max_tokens: int,
    /// The call expected next.
    pub phase: Phase,
}

/// The generation loop.
pub struct Generation {
    pending: Vec<i32>,
    n_past: i64,
    n_decoded: i32,
    ctx_cap: i32,
    max_tokens: i32,
    phase: Phase,
}

/// The most tokens ever emitted: the limit, or one when the limit is not
/// positive (the limit is checked after a token is emitted).
pub open spec fn emit_bound(max_tokens: int) -> int {
    if max_tokens >= 1 {
        max_tokens
    } else {
        1
    }
}

/// The context check is the plain bound `n_past + n <= cap`, for batches
/// of any length.
pub proof fn lemma_fits_is_the_context_bound(n_past: int, n: int, cap: int)
    ensures
        fits(n_past, n, cap) <==> n_past + n <= cap,
        n_past == 0 && 0 <= n <= cap ==> fits(n_past, n, cap),
{
}

/// A fresh loop whose prompt fits in the context (taken as a C `int`)
/// decodes the whole prompt first, however long it is; one that does not
/// fit stops with a full context.
pub proof fn lemma_prompt_decoded_when_it_fits(prompt: Seq<i32>, n_ctx: u32, g: GenState, a: GenAction, after: GenState)
    requires
        g.pending == prompt,
        g.n_past == 0,
        g.ctx_cap == n_ctx as i32 as int,
        g.phase is Ready,
        fits(g.n_past, g.pending.len() as int, g.ctx_cap) ==> (a matches GenAction::Decode(batch) && batch@ == g.pending),
        !fits(g.n_past, g.pending.len() as int, g.ctx_cap) ==> a == GenAction::Stop(StopReason::ContextFull),
    ensures
        prompt.len() <= n_ctx as i32 ==> (a matches GenAction::Decode(batch) && batch@ == prompt),
        prompt.len() > n_ctx as i32 ==> a == GenAction::Stop(StopReason::ContextFull),
{
}

/// Whether `n` more tokens fit after `n_past` in a context of `cap`.
pub open spec fn fits(n_past: int, n: int, cap: int) -> bool {
    n_past + n <= cap
}

impl View for Generation {
    type V = GenState;

    closed spec fn view(&self) -> GenState {
        GenState {
            pending: self.pending@,
            n_past: self.n_past as int,
            n_decoded: self.n_decoded as int,
            ctx_cap: self.ctx_cap as int,
            max_tokens: self.max_tokens as int,
            phase: self.phase,
        }
    }
}

impl Generation {
    /// The loop's invariant: nothing decoded beyond the context, no more
    /// tokens emitted than allowed, and the batch to decode is small enough
    /// to count in an `i32`.
    pub open spec fn wf(&self) -> bool {
        let s = self@;
        &&& 0 <= s.n_past
        &&& s.n_past == 0 || s.n_past <= s.ctx_cap
        &&& 0 <= s.n_decoded <= emit_bound(s.max_tokens)
        &&& s.pending.len() <= i32::MAX
        &&& (s.phase is Decoding ==> fits(s.n_past, s.pending.len() as int, s.ctx_cap))
        &&& (s.phase is Emitted ==> s.pending.len() == 1 && s.n_decoded >= 1)
        &&& (s.phase is Ready ==> s.n_decoded == 0)
        &&& ((s.phase is Decoding || s.phase is Sampling) ==> (s.n_decoded == 0 || s.n_decoded
            < s.max_tokens))
    }

    /// A loop about to decode `prompt` into a context of `n_ctx` tokens
    /// (compared as a C `int`), emitting at most `max_tokens` tokens.
    pub fn new(prompt: Vec<i32>, n_ctx: u32, max_tokens: i32) -> (g: Generation)
        requires
            prompt@.len() <= i32::MAX,
        ensures
            g.wf(),
            g@ == (GenState {
                pending: prompt@,
                n_past: 0,
                n_decoded: 0,
                ctx_cap: n_ctx as i32 as int,
                max_tokens: max_tokens as int,
                phase: Phase::Ready,
            }),
    {
        Generation {
            pending: prompt,
            n_past: 0,
            n_decoded: 0,
            ctx_cap: n_ctx as i32,
            max_tokens,
            phase: Phase::Ready,
        }
    }

    /// Tokens already in the context.
    pub fn n_past(&self) -> (n: i64)
        ensures
            n == self@.n_past,
    {
        self.n_past
    }

    /// Tokens emitted so far.
    pub fn n_decoded(&self) -> (n: i32)
        ensures
            n == self@.n_decoded,
    {
        self.n_decoded
    }

    /// Decodes the pending batch if it fits in the context, and stops
    /// otherwise.
    fn decode_pending(&mut self) -> (a: GenAction)
        requires
            old(self).wf(),
            old(self)@.phase is Ready || (old(self)@.phase is Emitted && old(self)@.n_decoded
                < old(self)@.max_tokens),
        ensures
            final(self).wf(),
            old(self)@.n_past + old(self)@.pending.len() <= old(self)@.ctx_cap ==> (a matches GenAction::Decode(batch) && batch@ == old(self)@.pending),
            old(self)@.n_past + old(self)@.pending.len() > old(self)@.ctx_cap ==> a == GenAction::Stop(StopReason::ContextFull),
            final(self)@.pending == old(self)@.pending,
            final(self)@.n_past == old(self)@.n_past,
            final(self)@.n_decoded == old(self)@.n_decoded,
            final(self)@.ctx_cap == old(self)@.ctx_cap,
            final(self)@.max_tokens == old(self)@.max_tokens,
            if fits(old(self)@.n_past, old(self)@.pending.len() as int, old(self)@.ctx_cap) {
                a matches GenAction::Decode(batch) && batch@ == old(self)@.pending
                    && final(self)@.phase is Decoding
            } else {
                a == GenAction::Stop(StopReason::ContextFull) && final(self)@.phase is Done
            },
    {
        let len = self.pending.len() as i64;
        if self.n_past + len > self.ctx_cap as i64 {
            self.phase = Phase::Done;
            GenAction::Stop(StopReason::ContextFull)
        } else {
            self.phase = Phase::Decoding;
            GenAction::Decode(self.pending.clone())
        }
    }

    /// Begins: decode the prompt, unless it does not fit.
    pub fn start(&mut self) -> (a: GenAction)
        requires
            old(self).wf(),
            old(self)@.phase is Ready,
        ensures
            final(self).wf(),
            old(self)@.n_past + old(self)@.pending.len() <= old(self)@.ctx_cap ==> (a matches GenAction::Decode(batch) && batch@ == old(self)@.pending),
            old(self)@.n_past + old(self)@.pending.len() > old(self)@.ctx_cap ==> a == GenAction::Stop(StopReason::ContextFull),
            final(self)@.pending == old(self)@.pending,
            final(self)@.n_past == old(self)@.n_past,
            final(self)@.n_decoded == old(self)@.n_decoded,
            final(self)@.ctx_cap == old(self)@.ctx_cap,
            final(self)@.max_tokens == old(self)@.max_tokens,
            if fits(old(self)@.n_past, old(self)@.pending.len() as int, old(self)@.ctx_cap) {
                a matches GenAction::Decode(batch) && batch@ == old(self)@.pending
                    && final(self)@.phase is Decoding
            } else {
                a == GenAction::Stop(StopReason::ContextFull) && final(self)@.phase is Done
            },
    {
        self.decode_pending()
    }

    /// The model decoded the batch with status `status` (zero for success):
    /// sample next, or stop on failure.
    pub fn decoded(&mut self, status: i32) -> (a: GenAction)
        requires
            old(self).wf(),
            old(self)@.phase is Decoding,
        ensures
            final(self).wf(),
            final(self)@.n_decoded == old(self)@.n_decoded,
            final(self)@.ctx_cap == old(self)@.ctx_cap,
            final(self)@.max_tokens == old(self)@.max_tokens,
            final(self)@.pending == old(self)@.pending,
            if status == 0 {
                &&& a is Sample
                &&& final(self)@.phase is Sampling
                &&& final(self)@.n_past == old(self)@.n_past + old(self)@.pending.len()
            } else {
                &&& a == GenAction::Stop(StopReason::DecodeFailed)
                &&& final(self)@.phase is Done
                &&& final(self)@.n_past == old(self)@.n_past
            },
    {
        if status != 0 {
            self.phase = Phase::Done;
            GenAction::Stop(StopReason::DecodeFailed)
        } else {
            self.n_past = self.n_past + self.pending.len() as i64;
            self.phase = Phase::Sampling;
            GenAction::Sample
        }
    }

    /// The sampler chose `token`; `end_of_generation` tells whether it ends
    /// the generation. Otherwise it is emitted and becomes the next batch.
    pub fn sampled(&mut self, token: i32, end_of_generation: bool) -> (a: GenAction)
        requires
            old(self).wf(),
            old(self)@.phase is Sampling,
        ensures
            final(self).wf(),
            final(self)@.n_past == old(self)@.n_past,
            final(self)@.ctx_cap == old(self)@.ctx_cap,
            final(self)@.max_tokens == old(self)@.max_tokens,
            if end_of_generation {
                &&& a == GenAction::Stop(StopReason::EndOfGeneration)
                &&& final(self)@.phase is Done
                &&& final(self)@.n_decoded == old(self)@.n_decoded
                &&& final(self)@.pending == old(self)@.pending
            } else {
                &&& a == GenAction::Emit(token)
                &&& final(self)@.phase is Emitted
                &&& final(self)@.n_decoded == old(self)@.n_decoded + 1
                &&& final(self)@.pending == seq![token]
            },
    {
        if end_of_generation {
            self.phase = Phase::Done;
            GenAction::Stop(StopReason::EndOfGeneration)
        } else {
            self.n_decoded = self.n_decoded + 1;
            self.pending = vec![token];
            self.phase = Phase::Emitted;
            GenAction::Emit(token)
        }
    }

    /// The token was shown: stop at the limit, otherwise decode it.
    pub fn emitted(&mut self) -> (a: GenAction)
        requires
            old(self).wf(),
            old(self)@.phase is Emitted,
        ensures
            final(self).wf(),
            old(self)@.n_decoded >= old(self)@.max_tokens ==> a == GenAction::Stop(StopReason::TokenLimit),
            old(self)@.n_decoded < old(self)@.max_tokens && old(self)@.n_past + 1 <= old(self)@.ctx_cap ==> (a matches GenAction::Decode(batch) && batch@ == old(self)@.pending && batch@.len() == 1),
            old(self)@.n_decoded < old(self)@.max_tokens && old(self)@.n_past + 1 > old(self)@.ctx_cap ==> a == GenAction::Stop(StopReason::ContextFull),
            final(self)@.pending == old(self)@.pending,
            final(self)@.n_past == old(self)@.n_past,
            final(self)@.n_decoded == old(self)@.n_decoded,
            final(self)@.ctx_cap == old(self)@.ctx_cap,
            final(self)@.max_tokens == old(self)@.max_tokens,
            if old(self)@.n_decoded >= old(self)@.max_tokens {
                a == GenAction::Stop(StopReason::TokenLimit) && final(self)@.phase is Done
            } else if fits(old(self)@.n_past, 1, old(self)@.ctx_cap) {
                a matches GenAction::Decode(batch) && batch@ == old(self)@.pending
                    && final(self)@.phase is Decoding
            } else {
                a == GenAction::Stop(StopReason::ContextFull) && final(self)@.phase is Done
            },
    {
        if self.n_decoded >= self.max_tokens {
            self.phase = Phase::Done;
            GenAction::Stop(StopReason::TokenLimit)
        } else {
            self.decode_pending()
        }
    }
}

} // verus!
