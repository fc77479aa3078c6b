use aim::memory::{MemKind, Memory, MemoryBlock};

fn node(kind: MemKind, content: &str, deps: Vec<usize>) -> MemoryBlock {
    MemoryBlock::new()
        .memtype(kind)
        .content(content)
        .proof_text("")
        .deps(deps)
}

#[test]
fn fresh_block_is_unsolved_with_equal_timestamps() {
    let b = MemoryBlock::new();
    assert!(!b.is_solved());
    assert_eq!(b.get_reviews(), 0);
    assert_eq!(b.get_comment(), "");
    assert_eq!(b.created_at, b.updated_at);
}

#[test]
fn setters_keep_updated_at_monotone() {
    let mut b = MemoryBlock::new();
    let before = b.updated_at;
    b.set_comment("a flaw");
    assert!(b.updated_at >= before);
    assert_eq!(b.get_comment(), "a flaw");
    b.set_reviews(3);
    assert_eq!(b.get_reviews(), 3);
    b.set_solved(true);
    assert!(b.is_solved());
}

#[test]
fn update_rejects_forward_and_self_edges() {
    let mut mem = Memory::new();
    assert!(mem.try_update(node(MemKind::Context, "bg", vec![])));
    // A self edge: the next index would be 1, and 1 is not < 1.
    assert!(!mem.try_update(node(MemKind::Lemma, "l", vec![1])));
    assert_eq!(mem.memory.len(), 1);
    // A forward edge.
    assert!(!mem.try_update(node(MemKind::Lemma, "l", vec![5])));
    assert_eq!(mem.memory.len(), 1);
    // A backward edge is accepted.
    assert!(mem.try_update(node(MemKind::Lemma, "l", vec![0])));
    assert_eq!(mem.memory.len(), 2);
}

#[test]
fn proof_path_includes_transitive_deps_once_and_sorted() {
    let mut mem = Memory::new();
    assert!(mem.try_update(node(MemKind::Lemma, "n0", vec![])));
    assert!(mem.try_update(node(MemKind::Lemma, "n1", vec![0])));
    assert!(mem.try_update(node(MemKind::Lemma, "n2", vec![0])));
    assert!(mem.try_update(node(MemKind::Lemma, "n3", vec![1, 2])));
    // Closure of 3 reaches 1, 2 directly and 0 through both, exactly once.
    assert_eq!(mem.get_proof_path_ids(3, true), vec![0, 1, 2, 3]);
    assert_eq!(mem.get_proof_path_ids(3, false), vec![0, 1, 2]);
    assert_eq!(mem.get_proof_path_ids(0, true), vec![0]);
    assert_eq!(mem.get_proof_path_ids(0, false), vec![] as Vec<usize>);
}

#[test]
fn proof_path_pulls_in_context_node() {
    let mut mem = Memory::new();
    assert!(mem.try_update(node(MemKind::Context, "bg", vec![])));
    assert!(mem.try_update(node(MemKind::Lemma, "n1", vec![])));
    assert!(mem.try_update(node(MemKind::Lemma, "n2", vec![1])));
    // Node 0 is context, so it joins every closure implicitly.
    assert_eq!(mem.get_proof_path_ids(2, true), vec![0, 1, 2]);
    assert_eq!(mem.get_proof_path_ids(1, false), vec![0]);
}

#[test]
fn proof_path_without_context_kind_keeps_node0_out() {
    let mut mem = Memory::new();
    assert!(mem.try_update(node(MemKind::Lemma, "n0", vec![])));
    assert!(mem.try_update(node(MemKind::Lemma, "n1", vec![])));
    assert_eq!(mem.get_proof_path_ids(1, true), vec![1]);
}

#[test]
fn format_renders_kind_content_and_deps() {
    let b = node(MemKind::Lemma, "claim text", vec![0, 2]);
    assert_eq!(
        b._format(),
        "\\begin{lemma}\nclaim text\n\n**DEPENDENCY**: [0, 2]\n\\end{lemma}"
    );
}

#[test]
fn format_with_proof_adds_proof_environment() {
    let b = MemoryBlock::new()
        .memtype(MemKind::Theorem)
        .content("T")
        .proof_text("because")
        .deps(vec![]);
    assert_eq!(
        b._format_with_proof(),
        "\\begin{theorem}\nT\n\n**DEPENDENCY**: []\n\\end{theorem}\n\\begin{proof}\nbecause\n\\end{proof}"
    );
    let empty = node(MemKind::Theorem, "T", vec![]);
    assert_eq!(
        empty._format_with_proof(),
        "\\begin{theorem}\nT\n\n**DEPENDENCY**: []\n\\end{theorem}"
    );
}

#[test]
fn format_with_proof_summary_adds_sketch() {
    let mut b = node(MemKind::Lemma, "L", vec![]);
    b.set_proof_summary("short");
    assert_eq!(
        b._format_with_proof_summary(),
        "\\begin{lemma}\nL\n\n**DEPENDENCY**: []\n\\end{lemma}\n\n**Proof Sketch**\n<proof_summary>\nshort\n</proof_summary>"
    );
}

#[test]
fn format_renders_multidigit_ids() {
    let mut mem = Memory::new();
    for i in 0..12 {
        let content = format!("n{}", i);
        assert!(mem.try_update(node(MemKind::Lemma, &content, vec![])));
    }
    let b = node(MemKind::Lemma, "big", (0..12).collect());
    assert_eq!(
        b._format(),
        "\\begin{lemma}\nbig\n\n**DEPENDENCY**: [0, 1, 2, 3, 4, 5, 6, 7, 8, 9, 10, 11]\n\\end{lemma}"
    );
}

#[test]
fn format_deps_lists_path_in_decreasing_order() {
    let mut mem = Memory::new();
    assert!(mem.try_update(node(MemKind::Lemma, "a", vec![])));
    assert!(mem.try_update(node(MemKind::Lemma, "b", vec![0])));
    let text = mem.format_deps(1, false, true).unwrap();
    assert_eq!(
        text,
        "#### Memory **ID: 1**\n\n\\begin{lemma}\nb\n\n**DEPENDENCY**: [0]\n\\end{lemma}\n\n\
         #### Memory **ID: 0**\n\n\\begin{lemma}\na\n\n**DEPENDENCY**: []\n\\end{lemma}\n\n"
    );
    // A lone node without dependencies yields no path text when excluded.
    assert_eq!(mem.format_deps(0, false, false), None);
}

#[test]
fn format_all_filters_unsolved_when_asked() {
    let mut mem = Memory::new();
    assert!(mem.try_update(node(MemKind::Lemma, "a", vec![]).solved(true)));
    assert!(mem.try_update(node(MemKind::Lemma, "b", vec![])));
    let all = mem.format_all(false).unwrap();
    assert!(all.contains("\\begin{lemma}\na"));
    assert!(all.contains("\\begin{lemma}\nb"));
    let solved_only = mem.format_all(true).unwrap();
    assert!(solved_only.contains("\\begin{lemma}\na"));
    assert!(!solved_only.contains("\\begin{lemma}\nb"));
    let empty = Memory::new();
    assert_eq!(empty.format_all_with_proof(false), None);
    assert_eq!(empty.format_all_with_proof_summary(false), None);
}
