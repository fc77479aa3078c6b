use aim::consensus::{classify_review, first_flaw, review_plan, ReviewTask};
use aim::memory::{MemKind, MemoryBlock};
use aim::MAX_REVIEWS_PER_NODE;

#[test]
fn classify_only_boxed_invalid_is_decisive() {
    assert!(classify_review(&Some(
        "rationale... $\\boxed{invalid}$".to_string()
    )));
    assert!(!classify_review(&Some("looks fine $\\boxed{valid}$".to_string())));
    assert!(!classify_review(&Some("no verdict at all".to_string())));
    // An errored call reports no flaw.
    assert!(!classify_review(&None));
}

#[test]
fn first_flaw_takes_first_decisive_in_completion_order() {
    let results = vec![
        Some("$\\boxed{valid}$ a".to_string()),
        None,
        Some("flawed because X $\\boxed{invalid}$".to_string()),
        Some("$\\boxed{invalid}$ later".to_string()),
    ];
    assert_eq!(
        first_flaw(&results),
        Some("flawed because X $\\boxed{invalid}$".to_string())
    );
}

#[test]
fn first_flaw_short_circuit_ignores_later_results() {
    // Once the third completion reports invalid, whatever would come after
    // cannot change the decision.
    let prefix = vec![
        Some("$\\boxed{valid}$".to_string()),
        Some("$\\boxed{valid}$".to_string()),
        Some("no! $\\boxed{invalid}$".to_string()),
    ];
    let mut extended = prefix.clone();
    extended.push(Some("$\\boxed{valid}$".to_string()));
    extended.push(None);
    assert_eq!(first_flaw(&prefix), first_flaw(&extended));
    assert_eq!(first_flaw(&prefix), Some("no! $\\boxed{invalid}$".to_string()));
}

#[test]
fn first_flaw_unanimous_valid_reports_none() {
    let results = vec![
        Some("$\\boxed{valid}$".to_string()),
        Some("ok $\\boxed{valid}$".to_string()),
        None,
        Some("$\\boxed{valid}$".to_string()),
    ];
    assert_eq!(first_flaw(&results), None);
    assert_eq!(first_flaw(&Vec::new()), None);
}

#[test]
fn review_plan_skips_context_nodes() {
    let b = MemoryBlock::new().memtype(MemKind::Context).content("bg");
    assert!(matches!(review_plan(&b), ReviewTask::Skip));
}

#[test]
fn review_plan_skips_nodes_at_the_review_cap() {
    // The circuit breaker: a node at the cap is treated as no new flaw,
    // regardless of its actual correctness.
    let b = MemoryBlock::new()
        .memtype(MemKind::Lemma)
        .content("c")
        .reviews(MAX_REVIEWS_PER_NODE);
    assert!(matches!(review_plan(&b), ReviewTask::Skip));
    let under = MemoryBlock::new()
        .memtype(MemKind::Lemma)
        .content("c")
        .reviews(MAX_REVIEWS_PER_NODE - 1);
    assert!(matches!(review_plan(&under), ReviewTask::Verify));
}

#[test]
fn review_plan_returns_cached_comment_without_new_calls() {
    let mut b = MemoryBlock::new().memtype(MemKind::Lemma).content("c");
    b.set_comment("old flaw");
    match review_plan(&b) {
        ReviewTask::Cached(c) => assert_eq!(c, "old flaw"),
        other => panic!("expected the cached comment, got {:?}", other),
    }
}
