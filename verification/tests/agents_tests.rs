use aim::agents::{Explorer, Formatter, ProofSummarizer, Refiner, Reviewer};

#[test]
fn roles_start_with_medium_effort_and_empty_fields() {
    let e = Explorer::new();
    assert_eq!(e.reasoning_effort, "medium");
    assert_eq!(e.model, "");
    assert!(e.context.is_none());
    let r = Reviewer::new();
    assert_eq!(r.reviews, 0);
    assert!(!r.streaming);
    let f = Refiner::new();
    assert_eq!(f.review, "");
}

#[test]
fn formatter_prompt_wraps_the_contents() {
    let f = Formatter::new().model("m").content("X + Y");
    let p = f.prompt();
    assert!(p.starts_with("Please help me rewrite these math related contents"));
    assert!(p.ends_with("\\begin{contents}X + Y\\end{contents}"));
}

#[test]
fn explorer_prompt_embeds_problem_and_context() {
    let mut e = Explorer::new().model("m");
    e.set_problem("THE PROBLEM");
    let without_ctx = e.prompt();
    assert!(without_ctx.contains("\\begin{problem}THE PROBLEM\\end{problem}"));
    assert!(!without_ctx.contains("### Context and History Explorations"));
    e.set_context("KNOWN FACTS");
    let with_ctx = e.prompt();
    assert!(with_ctx.contains("### Context and History Explorations"));
    assert!(with_ctx.ends_with("KNOWN FACTS"));
}

#[test]
fn reviewer_prompt_lists_conjecture_then_proof() {
    let mut r = Reviewer::new().model("m");
    r.set_conjecture("CONJ");
    r.set_proof("PRF");
    let p = r.prompt();
    let c_pos = p.find("### Conjecture\n\nCONJ").unwrap();
    let p_pos = p.find("### Proof\n\nPRF").unwrap();
    assert!(c_pos < p_pos);
}

#[test]
fn refiner_prompt_includes_the_review_text() {
    let mut r = Refiner::new().model("m");
    r.set_conjecture("CONJ");
    r.set_proof("PRF");
    r.set_review("WHAT WENT WRONG");
    let p = r.prompt();
    assert!(p.contains("### Review\n\nWHAT WENT WRONG"));
}

#[test]
fn summarizer_prompt_wraps_conjecture_and_proof() {
    let s = ProofSummarizer::new().model("m").conjecture("C").proof_text("P");
    let p = s.prompt();
    assert!(p.ends_with("\\begin{conjecture}C\\end{conjecture}\n\\begin{proof}P\\end{proof}"));
}
