//! The backend self-test: a few prompts with different right answers are
//! each decoded greedily to one token; a backend that computes correctly
//! predicts different tokens for them.
use vstd::prelude::*;

verus! {

/// The token recorded for a probe that could not be decoded.
pub const FAILED_TOKEN: i32 = -1;

/// The prompts of the self-test, whose right first tokens differ.
pub open spec fn probe_prompts_spec() -> Seq<Seq<char>> {
    seq![
        "The capital of France is"@,
        "2 + 2 ="@,
        "Write a haiku about the ocean."@,
    ]
}

/// The prompts of the self-test, in order.
pub fn probe_prompts() -> (v: Vec<String>)
    ensures
        v@.map_values(|s: String| s@) == probe_prompts_spec(),
{
    let mut v: Vec<String> = Vec::new();
    v.push(String::from_str("The capital of France is"));
    v.push(String::from_str("2 + 2 ="));
    v.push(String::from_str("Write a haiku about the ocean."));
    assert(v@.map_values(|s: String| s@) =~= probe_prompts_spec());
    v
}

/// The outcome of a probe whose context could not be created: the failed
/// token and the text `<ctx-failed>`.
pub fn context_failed_probe() -> (r: (i32, String))
    ensures
        r.0 == FAILED_TOKEN,
        r.1@ == "<ctx-failed>"@,
{
    (FAILED_TOKEN, String::from_str("<ctx-failed>"))
}

/// The next step of one probe.
#[derive(PartialEq, Eq, Structural, Clone, Copy)]
pub enum ProbeStep {
    /// Decode the probe's prompt.
    Decode,
    /// Sample the first response token.
    Sample,
    /// The probe is over with this token.
    Done(i32),
}

/// A probe whose prompt has `prompt_len` tokens: decode it, or fail at once
/// when it has none.
pub fn probe_start(prompt_len: usize) -> (s: ProbeStep)
    ensures
        s == (if prompt_len == 0 {
            ProbeStep::Done(FAILED_TOKEN)
        } else {
            ProbeStep::Decode
        }),
{
    if prompt_len == 0 {
        ProbeStep::Done(FAILED_TOKEN)
    } else {
        ProbeStep::Decode
    }
}

/// The probe's prompt was decoded with status `status` (zero for success):
/// sample, or fail.
pub fn probe_decoded(status: i32) -> (s: ProbeStep)
    ensures
        s == (if status == 0 {
            ProbeStep::Sample
        } else {
            ProbeStep::Done(FAILED_TOKEN)
        }),
{
    if status == 0 {
        ProbeStep::Sample
    } else {
        ProbeStep::Done(FAILED_TOKEN)
    }
}

/// The outcome of the self-test.
#[derive(PartialEq, Eq, Structural, Clone, Copy)]
pub enum Verdict {
    /// The predictions depend on the prompt, and every probe worked.
    Pass,
    /// Every probe predicted the same token: the backend does not compute.
    Identical,
    /// Some probe failed to decode or sample.
    ProbeFailed,
}

/// All tokens are equal.
pub open spec fn all_same(t: Seq<i32>) -> bool {
    forall|i: int, j: int| 0 <= i < t.len() && 0 <= j < t.len() ==> t[i] == t[j]
}

/// Some token is negative (a failed probe).
pub open spec fn any_failed(t: Seq<i32>) -> bool {
    exists|i: int| 0 <= i < t.len() && t[i] < 0
}

/// The verdict on the first tokens predicted for the probes: a pass needs
/// at least two different tokens and no failure; otherwise a single
/// repeated token means the backend is broken, and anything else a failed
/// probe.
pub open spec fn verdict_spec(t: Seq<i32>) -> Verdict {
    if !all_same(t) && !any_failed(t) {
        Verdict::Pass
    } else if t.len() > 0 && all_same(t) {
        Verdict::Identical
    } else {
        Verdict::ProbeFailed
    }
}

/// The self-test passes exactly when no probe failed and two probes (any
/// two, the first included) predicted different tokens; it reports a broken
/// backend exactly when there are probes and they all predicted one token.
pub proof fn lemma_verdict_meaning(t: Seq<i32>)
    ensures
        (verdict_spec(t) == Verdict::Pass) <==> ((forall|k: int| 0 <= k < t.len() ==> t[k] >= 0)
            && exists|i: int, j: int| 0 <= i < t.len() && 0 <= j < t.len() && t[i] != t[j]),
        (verdict_spec(t) == Verdict::Identical) <==> (t.len() > 0 && forall|i: int, j: int|
            0 <= i < t.len() && 0 <= j < t.len() ==> t[i] == t[j]),
{
    if exists|i: int, j: int| 0 <= i < t.len() && 0 <= j < t.len() && t[i] != t[j] {
        let (i, j) = choose|i: int, j: int| 0 <= i < t.len() && 0 <= j < t.len() && t[i] != t[j];
        assert(!all_same(t));
    }
    if exists|k: int| 0 <= k < t.len() && t[k] < 0 {
        let k = choose|k: int| 0 <= k < t.len() && t[k] < 0;
        assert(any_failed(t));
    }
}

/// Judges the first tokens predicted for the probes.
pub fn verdict(tokens: &[i32]) -> (v: Verdict)
    ensures
        v == verdict_spec(tokens@),
        (v == Verdict::Pass) <==> ((forall|k: int| 0 <= k < tokens@.len() ==> tokens@[k] >= 0)
            && exists|i: int, j: int|
            0 <= i < tokens@.len() && 0 <= j < tokens@.len() && tokens@[i] != tokens@[j]),
        (v == Verdict::Identical) <==> (tokens@.len() > 0 && forall|i: int, j: int|
            0 <= i < tokens@.len() && 0 <= j < tokens@.len() ==> tokens@[i] == tokens@[j]),
{
    let n = tokens.len();
    let mut differ = false;
    let mut failed = false;
    let mut i: usize = 0;
    while i < n
        invariant
            n == tokens@.len(),
            i <= n,
            differ == (exists|k: int| 0 <= k < i && #[trigger] tokens@[k] != tokens@[0]),
            failed == (exists|k: int| 0 <= k < i && tokens@[k] < 0),
        decreases n - i,
    {
        if tokens[i] != tokens[0] {
            differ = true;
        }
        if tokens[i] < 0 {
            failed = true;
        }
        i = i + 1;
    }
    proof {
        if differ {
            let k = choose|k: int| 0 <= k < n && #[trigger] tokens@[k] != tokens@[0];
            assert(!all_same(tokens@)) by {
                assert(tokens@[k] != tokens@[0]);
            }
        } else {
            assert forall|a: int, b: int| 0 <= a < n && 0 <= b < n implies tokens@[a]
                == tokens@[b] by {
                assert(tokens@[a] == tokens@[0]);
                assert(tokens@[b] == tokens@[0]);
            }
        }
        if failed {
            let k = choose|k: int| 0 <= k < n && tokens@[k] < 0;
            assert(any_failed(tokens@));
        }
    }
    proof {
        lemma_verdict_meaning(tokens@);
    }
    if differ && !failed {
        Verdict::Pass
    } else if n > 0 && !differ {
        Verdict::Identical
    } else {
        Verdict::ProbeFailed
    }
}

} // verus!
