use egg_llm::self_test::{context_failed_probe, probe_prompts};
use egg_llm::self_test::{probe_decoded, probe_start, verdict, ProbeStep, Verdict, FAILED_TOKEN};

#[test]
fn verdicts() {
    assert!(verdict(&[9707, 17, 785]) == Verdict::Pass);
    assert!(verdict(&[42, 42, 42]) == Verdict::Identical);
    assert!(verdict(&[-1, -1, -1]) == Verdict::Identical);
    assert!(verdict(&[5, -1, 6]) == Verdict::ProbeFailed);
    assert!(verdict(&[]) == Verdict::ProbeFailed);
    assert!(verdict(&[3]) == Verdict::Identical);
    assert!(verdict(&[3, 3, 4]) == Verdict::Pass);
}

#[test]
fn probe_steps() {
    assert!(probe_start(0) == ProbeStep::Done(FAILED_TOKEN));
    assert!(probe_start(12) == ProbeStep::Decode);
    assert!(probe_decoded(0) == ProbeStep::Sample);
    assert!(probe_decoded(1) == ProbeStep::Done(-1));
}

#[test]
fn probe_data() {
    assert_eq!(
        probe_prompts(),
        vec!["The capital of France is", "2 + 2 =", "Write a haiku about the ocean."]
    );
    assert_eq!(context_failed_probe(), (-1, "<ctx-failed>".to_string()));
}
