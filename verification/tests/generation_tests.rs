use egg_llm::generation::{GenAction, Generation, StopReason, CHAT_REPLY_LIMIT};

/// Runs the loop with the given sampled tokens (a negative one ends the
/// generation) and decode statuses, returning the emitted tokens and the
/// stop reason.
fn run(prompt: Vec<i32>, n_ctx: u32, max: i32, samples: &[i32], fail_at: Option<usize>) -> (Vec<i32>, StopReason, i64) {
    let mut g = Generation::new(prompt, n_ctx, max);
    let mut emitted = Vec::new();
    let mut decodes = 0usize;
    let mut next = 0usize;
    let mut action = g.start();
    loop {
        action = match action {
            GenAction::Decode(batch) => {
                assert!(g.n_past() + batch.len() as i64 <= n_ctx as i32 as i64);
                let status = if Some(decodes) == fail_at { 1 } else { 0 };
                decodes += 1;
                g.decoded(status)
            }
            GenAction::Sample => {
                let t = samples[next];
                next += 1;
                g.sampled(t, t < 0)
            }
            GenAction::Emit(t) => {
                emitted.push(t);
                g.emitted()
            }
            GenAction::Stop(r) => return (emitted, r, g.n_past()),
        };
    }
}

#[test]
fn stops_at_end_of_generation() {
    let (out, r, past) = run(vec![1, 2, 3], 100, 10, &[7, 8, -1], None);
    assert_eq!(out, vec![7, 8]);
    assert!(r == StopReason::EndOfGeneration);
    assert_eq!(past, 5);
}

#[test]
fn stops_at_token_limit() {
    let (out, r, _) = run(vec![1], 100, 2, &[4, 5, 6, 7], None);
    assert_eq!(out, vec![4, 5]);
    assert!(r == StopReason::TokenLimit);
}

#[test]
fn a_limit_below_one_still_emits_one_token() {
    let (out, r, _) = run(vec![1], 100, 0, &[4, 5], None);
    assert_eq!(out, vec![4]);
    assert!(r == StopReason::TokenLimit);
}

#[test]
fn stops_when_the_context_is_full() {
    let (out, r, past) = run(vec![1, 2, 3], 5, 10, &[7, 8, 9, 10], None);
    assert_eq!(out, vec![7, 8, 9]);
    assert!(r == StopReason::ContextFull);
    assert_eq!(past, 5);
    let (out, r, past) = run(vec![1, 2, 3], 2, 10, &[], None);
    assert!(out.is_empty());
    assert!(r == StopReason::ContextFull);
    assert_eq!(past, 0);
}

#[test]
fn stops_when_decoding_fails() {
    let (out, r, _) = run(vec![1, 2], 100, 10, &[7, 8], Some(1));
    assert_eq!(out, vec![7]);
    assert!(r == StopReason::DecodeFailed);
}

#[test]
fn chat_reply_limit() {
    assert_eq!(CHAT_REPLY_LIMIT, 4096);
    let samples: Vec<i32> = (0..5000).collect();
    let (out, r, _) = run(vec![1], 10_000, CHAT_REPLY_LIMIT, &samples, None);
    assert_eq!(out.len(), 4096);
    assert!(r == StopReason::TokenLimit);
}

#[test]
fn context_size_is_compared_as_c_int() {
    // 2^32 - 1 as a C int is -1: nothing fits.
    let (out, r, _) = run(vec![1], u32::MAX, 10, &[], None);
    assert!(out.is_empty());
    assert!(r == StopReason::ContextFull);
}
