use aim::memory::MemKind;
use aim::MAX_REVIEWS_PER_NODE;
use aim::session::{ResearchSession, ResearchSessionConfig, SessionStatus, StepPhase};

fn base_config() -> ResearchSessionConfig {
    ResearchSessionConfig::new()
        .title("t")
        .proof_model("prover")
        .eval_model("checker")
        .reform_model("former")
        .steps(3)
        .reviews(1)
        .iterations(2)
}

fn exploration(conjecture: &str, proof: &str, deps: &str) -> String {
    format!(
        "\\begin{{conjecture}}{}\\end{{conjecture}}\\begin{{proof}}{}\\end{{proof}}\\begin{{dependency}}{}\\end{{dependency}}",
        conjecture, proof, deps
    )
}

#[test]
fn new_session_seeds_context_node() {
    let mut config = base_config();
    config.set_context("background facts");
    let s = ResearchSession::new(config);
    assert_eq!(s.memory.memory.len(), 1);
    assert_eq!(s.memory.memory[0].memtype, MemKind::Context);
    assert_eq!(s.memory.memory[0].content, "background facts");
    assert!(s.memory.memory[0].is_solved());
    assert_eq!(s.status, SessionStatus::Running);
    assert_eq!(s.explorer.model, "prover");
    assert_eq!(s.reviewer.model, "checker");
    assert_eq!(s.refiner.model, "prover");
}

#[test]
fn graph_insert_parses_a_conjecture_node() {
    let mut s = ResearchSession::new(base_config());
    let raw = exploration("C", "P", "[]");
    let id = s.graph_insert(&raw);
    assert_eq!(id, Some(0));
    let b = &s.memory.memory[0];
    assert_eq!(b.memtype, MemKind::Lemma);
    assert_eq!(b.content, "C");
    assert_eq!(b.proof_text, "P");
    assert!(!b.is_solved());
}

#[test]
fn graph_insert_rejects_incomplete_responses() {
    let mut s = ResearchSession::new(base_config());
    assert_eq!(s.graph_insert("\\begin{conjecture}C\\end{conjecture}"), None);
    assert_eq!(s.graph_insert("nothing extractable"), None);
    assert_eq!(s.memory.memory.len(), 0);
}

#[test]
fn dependency_lists_are_parsed_from_json() {
    let mut s = ResearchSession::new(base_config());
    assert_eq!(s.graph_insert(&exploration("A", "pa", "[]")), Some(0));
    assert_eq!(s.graph_insert(&exploration("B", "pb", "[]")), Some(1));
    assert_eq!(s.graph_insert(&exploration("C", "pc", "[0, 1]")), Some(2));
    assert_eq!(s.memory.memory[2].deps, vec![0, 1]);
    // Dependency text that is not a JSON id array parses to no edges.
    assert_eq!(s.graph_insert(&exploration("D", "pd", "0 and 1")), Some(3));
    assert!(s.memory.memory[3].deps.is_empty());
}

#[test]
fn graph_insert_rejects_forward_dependencies() {
    let mut s = ResearchSession::new(base_config());
    // The new node would get index 0, so a dependency on 0 is a self edge.
    assert_eq!(s.graph_insert(&exploration("C", "P", "[0]")), None);
    assert_eq!(s.memory.memory.len(), 0);
}

#[test]
fn graph_insert_final_proof_becomes_theorem() {
    let mut config = base_config();
    config.set_problem("THE PROBLEM");
    let mut s = ResearchSession::new(config);
    let raw =
        "\\begin{final_proof}QED\\end{final_proof}\\begin{dependency}[]\\end{dependency}";
    assert_eq!(s.graph_insert(raw), Some(0));
    let b = &s.memory.memory[0];
    assert_eq!(b.memtype, MemKind::Theorem);
    assert_eq!(b.content, "THE PROBLEM");
    assert_eq!(b.proof_text, "QED");
}

#[test]
fn backtrace_flaw_taints_every_later_node() {
    // A three-node chain: node 1 depends on node 0, node 2 on node 1.
    // The flaw sits in the middle node, and its verdict is applied in
    // dependency order, so the later node ends up unsolved even though its
    // own verdict was clean; the node applied before the flaw keeps its
    // clean result.
    let mut s = ResearchSession::new(base_config());
    assert_eq!(s.graph_insert(&exploration("A", "pa", "[]")), Some(0));
    assert_eq!(s.graph_insert(&exploration("B", "pb", "[0]")), Some(1));
    assert_eq!(s.graph_insert(&exploration("C", "pc", "[1]")), Some(2));
    let ids = s.memory.get_proof_path_ids(2, true);
    assert_eq!(ids, vec![0, 1, 2]);
    let reviews = vec![None, Some("B is wrong".to_string()), None];
    let ok = s.apply_backtrace_reviews(&ids, &reviews);
    assert!(!ok);
    assert!(s.memory.memory[0].is_solved());
    assert!(!s.memory.memory[1].is_solved());
    assert!(!s.memory.memory[2].is_solved());
    assert_eq!(s.memory.memory[1].get_comment(), "B is wrong");
    // The flawed node's verdict count resets; the clean ones gain a verdict.
    assert_eq!(s.memory.memory[1].get_reviews(), 0);
    assert_eq!(s.memory.memory[0].get_reviews(), 1);
    assert_eq!(s.memory.memory[2].get_reviews(), 1);
}

#[test]
fn backtrace_refinement_repairs_flawed_nodes() {
    let mut s = ResearchSession::new(base_config());
    assert_eq!(s.graph_insert(&exploration("A", "pa", "[]")), Some(0));
    let ids = vec![0];
    let reviews = vec![Some("flaw".to_string())];
    assert!(!s.apply_backtrace_reviews(&ids, &reviews));
    assert!(ResearchSession::needs_refine(&s.memory.memory[0]));
    let reproof =
        "\\begin{proof}better\\end{proof}\\boxed{true}";
    s.apply_refinement(0, reproof);
    assert_eq!(s.memory.memory[0].get_comment(), "");
    assert_eq!(s.memory.memory[0].proof_text, "better");
    assert_eq!(s.memory.memory[0].content, "A");
    assert!(!ResearchSession::needs_refine(&s.memory.memory[0]));
}

#[test]
fn refinement_refuting_the_conjecture_replaces_it() {
    let mut s = ResearchSession::new(base_config());
    assert_eq!(s.graph_insert(&exploration("A", "pa", "[]")), Some(0));
    let reviews = vec![Some("flaw".to_string())];
    assert!(!s.apply_backtrace_reviews(&vec![0], &reviews));
    let reproof =
        "\\begin{conjecture}not A\\end{conjecture}\\begin{proof}why\\end{proof}\\boxed{false}";
    s.apply_refinement(0, reproof);
    assert_eq!(s.memory.memory[0].content, "not A");
    assert_eq!(s.memory.memory[0].proof_text, "why");
}

#[test]
fn graph_solved_needs_solved_theorem_matching_problem() {
    let mut config = base_config();
    config.set_problem("P");
    let mut s = ResearchSession::new(config);
    let raw = "\\begin{final_proof}QED\\end{final_proof}\\begin{dependency}[]\\end{dependency}";
    assert_eq!(s.graph_insert(raw), Some(0));
    assert!(!s.graph_solved(0));
    let ids = vec![0];
    assert!(s.apply_backtrace_reviews(&ids, &vec![None]));
    assert!(s.graph_solved(0));
}

#[test]
fn linear_step_mismatched_counts_abort() {
    let s = ResearchSession::new(base_config());
    let raw = "\\begin{conjecture}C\\end{conjecture}";
    assert!(s.start_step(raw).is_none());
}

#[test]
fn linear_step_flaw_then_refinement_then_accept() {
    let mut config = base_config();
    config.set_problem("P");
    let mut s = ResearchSession::new(config);
    let raw = exploration("C", "bad proof", "[]");
    let mut st = s.start_step(&raw).unwrap();
    assert_eq!(st.phase, StepPhase::VerifyTriple);
    s.on_review(&mut st, Some("found a hole $\\boxed{invalid}$".to_string()));
    assert_eq!(st.phase, StepPhase::RefineTriple);
    assert_eq!(
        st.pending_review,
        Some("found a hole $\\boxed{invalid}$".to_string())
    );
    s.on_refinement(&mut st, "\\begin{proof}good proof\\end{proof}\\boxed{true}");
    assert_eq!(st.phase, StepPhase::VerifyTriple);
    assert_eq!(st.triples[0].proof_text, "good proof");
    s.on_review(&mut st, None);
    assert_eq!(st.phase, StepPhase::Done(false));
    assert_eq!(s.memory.memory.len(), 1);
    assert_eq!(s.memory.memory[0].proof_text, "good proof");
    assert!(s.memory.memory[0].is_solved());
}

#[test]
fn linear_step_exhausted_refinements_fail_the_step() {
    let mut s = ResearchSession::new(base_config());
    let raw = exploration("C", "bad", "[]");
    let mut st = s.start_step(&raw).unwrap();
    s.on_review(&mut st, Some("flaw one".to_string()));
    s.on_refinement(&mut st, "\\begin{proof}still bad\\end{proof}\\boxed{true}");
    // Second and last round still flawed: the whole step fails.
    s.on_review(&mut st, Some("flaw two".to_string()));
    assert_eq!(st.phase, StepPhase::Done(false));
    assert_eq!(s.memory.memory.len(), 0);
}

#[test]
fn linear_refinement_format_error_fails_the_step() {
    let mut s = ResearchSession::new(base_config());
    let raw = exploration("C", "bad", "[]");
    let mut st = s.start_step(&raw).unwrap();
    s.on_review(&mut st, Some("flaw".to_string()));
    s.on_refinement(&mut st, "no judgement marker here");
    assert_eq!(st.phase, StepPhase::Done(false));
}

#[test]
fn linear_final_proof_solves_the_session() {
    let mut config = base_config();
    config.set_problem("P");
    let mut s = ResearchSession::new(config);
    let raw = format!(
        "{}\\begin{{final_proof}}QED\\end{{final_proof}}",
        exploration("C", "pf", "[]")
    );
    let mut st = s.start_step(&raw).unwrap();
    s.on_review(&mut st, None);
    assert_eq!(st.phase, StepPhase::VerifyFinal);
    s.on_review(&mut st, None);
    assert_eq!(st.phase, StepPhase::Done(true));
    assert_eq!(s.memory.memory.len(), 2);
    let theorem = &s.memory.memory[1];
    assert_eq!(theorem.memtype, MemKind::Theorem);
    assert_eq!(theorem.content, "P");
    assert_eq!(theorem.proof_text, "QED");
}

#[test]
fn session_runs_three_steps_then_ends() {
    // Problem "P", three steps, two refinement rounds, one referee; the
    // explorer always returns one clean conjecture with no dependencies
    // and the referee always approves: each step appends one lemma, no
    // theorem ever appears, and after the step budget the session ends.
    let mut config = base_config();
    config.set_problem("P");
    let mut s = ResearchSession::new(config);
    let mut done = false;
    let mut step_no: u32 = 0;
    while !done {
        s.config.set_current_steps(step_no);
        let raw = exploration(&format!("C{}", step_no), "pf", "[]");
        let mut st = s.start_step(&raw).unwrap();
        s.on_review(&mut st, None);
        let solved = match st.phase {
            StepPhase::Done(solved) => solved,
            other => panic!("step should be over, is {:?}", other),
        };
        assert!(!solved);
        if step_no == 0 {
            // After the first step exactly one lemma is recorded and the
            // session goes on to the next step.
            assert_eq!(s.memory.memory.len(), 1);
            assert_eq!(s.memory.memory[0].memtype, MemKind::Lemma);
        }
        done = s.on_step_result(solved);
        step_no += 1;
    }
    assert_eq!(step_no, 3);
    assert_eq!(s.status, SessionStatus::Ended);
    assert_eq!(s.memory.memory.len(), 3);
    assert!(s.memory.memory.iter().all(|b| b.memtype == MemKind::Lemma));
}

#[test]
fn formatter_responses_replace_content_and_proof() {
    let mut s = ResearchSession::new(base_config());
    assert_eq!(s.graph_insert(&exploration("raw claim", "raw proof", "[]")), Some(0));
    s.apply_formatted_content(0, "\\begin{contents}clean claim\\end{contents}");
    s.apply_formatted_proof(0, "\\begin{contents}clean proof\\end{contents}");
    assert_eq!(s.memory.memory[0].content, "clean claim");
    assert_eq!(s.memory.memory[0].proof_text, "clean proof");
    // A response without the contents environment changes nothing.
    s.apply_formatted_content(0, "malformed");
    assert_eq!(s.memory.memory[0].content, "clean claim");
}

#[test]
fn step_results_drive_the_status() {
    let mut config = ResearchSessionConfig::new().steps(2);
    config.set_current_steps(0);
    let mut s = ResearchSession::new(config);
    assert!(!s.on_step_result(false));
    assert_eq!(s.status, SessionStatus::Running);
    s.config.set_current_steps(1);
    assert!(s.on_step_result(false));
    assert_eq!(s.status, SessionStatus::Ended);
    let mut s2 = ResearchSession::new(ResearchSessionConfig::new().steps(5));
    assert!(s2.on_step_result(true));
    assert_eq!(s2.status, SessionStatus::Solved);
}

#[test]
fn backtrace_review_counts_are_capped() {
    let mut s = ResearchSession::new(base_config());
    assert_eq!(s.graph_insert(&exploration("A", "pa", "[]")), Some(0));
    {
        let b = &mut s.memory.memory[0];
        b.set_reviews(MAX_REVIEWS_PER_NODE - 1);
    }
    let ids = vec![0];
    assert!(s.apply_backtrace_reviews(&ids, &vec![None]));
    assert_eq!(s.memory.memory[0].get_reviews(), MAX_REVIEWS_PER_NODE);
    assert!(s.apply_backtrace_reviews(&ids, &vec![None]));
    assert_eq!(s.memory.memory[0].get_reviews(), MAX_REVIEWS_PER_NODE);
}

#[test]
fn zero_iterations_step_does_nothing() {
    let config = base_config().iterations(0);
    let s = ResearchSession::new(config);
    let st = s.start_step(&exploration("C", "pf", "[]")).unwrap();
    assert_eq!(st.phase, StepPhase::Done(false));
}

#[test]
fn triples_are_truncated_to_the_shortest_component_list() {
    let s = ResearchSession::new(base_config());
    // Two conjecture/proof pairs but only one dependency list.
    let raw = "\\begin{conjecture}C1\\end{conjecture}\\begin{proof}P1\\end{proof}\
\\begin{conjecture}C2\\end{conjecture}\\begin{proof}P2\\end{proof}\
\\begin{dependency}[]\\end{dependency}";
    let st = s.start_step(raw).unwrap();
    assert_eq!(st.triples.len(), 1);
    assert_eq!(st.triples[0].conjecture, "C1");
}

#[test]
fn graph_mode_converges_after_refinement() {
    let mut config = base_config();
    config.set_problem("P");
    let mut s = ResearchSession::new(config);
    let raw = "\\begin{final_proof}draft\\end{final_proof}\\begin{dependency}[]\\end{dependency}";
    let memid = s.graph_insert(raw).unwrap();
    // First pass: the only referee reports a flaw.
    let ids = s.memory.get_proof_path_ids(memid, true);
    assert!(!s.apply_backtrace_reviews(&ids, &vec![Some("hole".to_string())]));
    assert!(!s.graph_solved(memid));
    // Refinement repairs the proof, the second pass is clean.
    s.apply_refinement(memid, "\\begin{proof}patched\\end{proof}\\boxed{true}");
    assert_eq!(s.memory.memory[memid].proof_text, "patched");
    let ids = s.memory.get_proof_path_ids(memid, true);
    assert!(s.apply_backtrace_reviews(&ids, &vec![None]));
    assert!(s.graph_solved(memid));
}
