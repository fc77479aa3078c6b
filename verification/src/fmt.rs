//! Rendering of claim nodes, proof paths and whole graphs as the text
//! handed to agents as context and written to reports.

use vstd::prelude::*;
use vstd::string::StringExecFns;
use crate::memory::{
    proof_path_set, sorted_listing, MemKind, Memory, MemoryBlock,
};
use crate::text::{append_decimal, dec_rep};

verus! {

pub open spec fn kind_str_spec(k: MemKind) -> Seq<char> {
    match k {
        MemKind::Context => seq!['c', 'o', 'n', 't', 'e', 'x', 't'],
        MemKind::Lemma => seq!['l', 'e', 'm', 'm', 'a'],
        MemKind::Theorem => seq!['t', 'h', 'e', 'o', 'r', 'e', 'm'],
    }
}

/// The tag a node kind is rendered as.
pub fn kind_str(k: MemKind) -> (r: &'static str)
    ensures
        r@ == kind_str_spec(k),
{
    match k {
        MemKind::Context => {
            let r = "context";
            proof {
                reveal_strlit("context");
                assert(r@ =~= kind_str_spec(k));
            }
            r
        },
        MemKind::Lemma => {
            let r = "lemma";
            proof {
                reveal_strlit("lemma");
                assert(r@ =~= kind_str_spec(k));
            }
            r
        },
        MemKind::Theorem => {
            let r = "theorem";
            proof {
                reveal_strlit("theorem");
                assert(r@ =~= kind_str_spec(k));
            }
            r
        },
    }
}

/// The id-list rendering `[a, b, c]`, from position `i` on.
pub open spec fn fmt_ids_from(ids: Seq<usize>, i: int) -> Seq<char>
    decreases ids.len() - i,
{
    if i < 0 || i >= ids.len() {
        Seq::empty()
    } else {
        (if i > 0 {
            seq![',', ' ']
        } else {
            Seq::empty()
        }) + dec_rep(ids[i] as int) + fmt_ids_from(ids, i + 1)
    }
}

/// How a dependency list is rendered: decimal ids between square brackets.
pub open spec fn fmt_ids_spec(ids: Seq<usize>) -> Seq<char> {
    seq!['['] + fmt_ids_from(ids, 0) + seq![']']
}

pub fn format_ids(ids: &Vec<usize>) -> (r: String)
    ensures
        r@ == fmt_ids_spec(ids@),
{
    let mut out = String::new();
    out.append("[");
    proof {
        reveal_strlit("[");
        reveal_strlit(", ");
        reveal_strlit("]");
        assert(out@ =~= seq!['[']);
    }
    let mut i: usize = 0;
    while i < ids.len()
        invariant
            i <= ids@.len(),
            out@ + fmt_ids_from(ids@, i as int) =~= seq!['['] + fmt_ids_from(ids@, 0),
        decreases ids@.len() - i,
    {
        let ghost before = out@;
        if i > 0 {
            out.append(", ");
            proof {
                reveal_strlit(", ");
                assert(out@ =~= before + seq![',', ' ']);
            }
        }
        append_decimal(&mut out, ids[i]);
        proof {
            assert(out@ + fmt_ids_from(ids@, i + 1) =~= before + fmt_ids_from(ids@, i as int));
        }
        i += 1;
    }
    out.append("]");
    proof {
        reveal_strlit("]");
        assert(out@ =~= fmt_ids_spec(ids@));
    }
    out
}

/// A node rendered as its kind environment with content and dependencies.
pub open spec fn format_spec(b: MemoryBlock) -> Seq<char> {
    "\\begin{"@ + kind_str_spec(b.memtype) + "}\n"@ + b.content@ + "\n\n**DEPENDENCY**: "@
        + fmt_ids_spec(b.deps@) + "\n\\end{"@ + kind_str_spec(b.memtype) + "}"@
}

/// As `format_spec`, followed by the proof environment when a proof exists.
pub open spec fn format_with_proof_spec(b: MemoryBlock) -> Seq<char> {
    format_spec(b) + (if b.proof_text@.len() == 0 {
        Seq::<char>::empty()
    } else {
        "\n\\begin{proof}\n"@ + b.proof_text@ + "\n\\end{proof}"@
    })
}

/// As `format_spec`, followed by a proof-sketch section when a summary
/// exists.
pub open spec fn format_with_proof_summary_spec(b: MemoryBlock) -> Seq<char> {
    format_spec(b) + "\n\n**Proof Sketch**"@ + (if b.proof_summary@.len() == 0 {
        Seq::<char>::empty()
    } else {
        "\n<proof_summary>\n"@ + b.proof_summary@ + "\n</proof_summary>"@
    })
}

impl MemoryBlock {
    pub fn _format(&self) -> (r: String)
        ensures
            r@ == format_spec(*self),
    {
        let mut out = String::new();
        out.append("\\begin{");
        out.append(kind_str(self.memtype));
        out.append("}\n");
        out.append(self.content.as_str());
        out.append("\n\n**DEPENDENCY**: ");
        let ids = format_ids(&self.deps);
        out.append(ids.as_str());
        out.append("\n\\end{");
        out.append(kind_str(self.memtype));
        out.append("}");
        proof {
            assert(out@ =~= format_spec(*self));
        }
        out
    }

    pub fn _format_with_proof(&self) -> (r: String)
        ensures
            r@ == format_with_proof_spec(*self),
    {
        let mut out = self._format();
        if !self.proof_text.as_str().is_empty() {
            out.append("\n\\begin{proof}\n");
            out.append(self.proof_text.as_str());
            out.append("\n\\end{proof}");
        }
        proof {
            assert(out@ =~= format_with_proof_spec(*self));
        }
        out
    }

    pub fn _format_with_proof_summary(&self) -> (r: String)
        ensures
            r@ == format_with_proof_summary_spec(*self),
    {
        let mut out = self._format();
        out.append("\n\n**Proof Sketch**");
        if !self.proof_summary.as_str().is_empty() {
            out.append("\n<proof_summary>\n");
            out.append(self.proof_summary.as_str());
            out.append("\n</proof_summary>");
        }
        proof {
            assert(out@ =~= format_with_proof_summary_spec(*self));
        }
        out
    }
}

/// Which rendering of a node a report uses.
#[derive(Clone, Copy, Debug, PartialEq, Eq, Structural)]
pub enum FmtMode {
    Plain,
    WithProof,
    WithSummary,
}

pub open spec fn block_fmt_spec(b: MemoryBlock, mode: FmtMode) -> Seq<char> {
    match mode {
        FmtMode::Plain => format_spec(b),
        FmtMode::WithProof => format_with_proof_spec(b),
        FmtMode::WithSummary => format_with_proof_summary_spec(b),
    }
}

fn block_fmt(b: &MemoryBlock, mode: FmtMode) -> (r: String)
    ensures
        r@ == block_fmt_spec(*b, mode),
{
    match mode {
        FmtMode::Plain => b._format(),
        FmtMode::WithProof => b._format_with_proof(),
        FmtMode::WithSummary => b._format_with_proof_summary(),
    }
}

/// One report entry: a heading naming the node id, then the node rendering.
pub open spec fn entry_spec(b: MemoryBlock, i: int, mode: FmtMode) -> Seq<char> {
    "#### Memory **ID: "@ + dec_rep(i) + "**\n\n"@ + block_fmt_spec(b, mode) + "\n\n"@
}

fn push_entry(out: &mut String, b: &MemoryBlock, i: usize, mode: FmtMode)
    ensures
        final(out)@ == old(out)@ + entry_spec(*b, i as int, mode),
{
    out.append("#### Memory **ID: ");
    append_decimal(out, i);
    out.append("**\n\n");
    let f = block_fmt(b, mode);
    out.append(f.as_str());
    out.append("\n\n");
    proof {
        assert(out@ =~= old(out)@ + entry_spec(*b, i as int, mode));
    }
}

proof fn lemma_entry_nonempty(b: MemoryBlock, i: int, mode: FmtMode)
    ensures
        entry_spec(b, i, mode).len() > 0,
{
    reveal_strlit("#### Memory **ID: ");
}

/// The proof-path report from position `i` downwards: entries in
/// decreasing id order, ids outside the graph skipped.
pub open spec fn path_fmt_from(m: Seq<MemoryBlock>, ids: Seq<usize>, i: int, mode: FmtMode) -> Seq<
    char,
>
    decreases i,
{
    if i <= 0 || i > ids.len() {
        Seq::empty()
    } else {
        (if (ids[i - 1] as int) < m.len() {
            entry_spec(m[ids[i - 1] as int], ids[i - 1] as int, mode)
        } else {
            Seq::empty()
        }) + path_fmt_from(m, ids, i - 1, mode)
    }
}

/// The whole proof-path report for an id listing.
pub open spec fn path_fmt_spec(m: Seq<MemoryBlock>, ids: Seq<usize>, mode: FmtMode) -> Seq<char> {
    path_fmt_from(m, ids, ids.len() as int, mode)
}

/// The report over all nodes from index `i` on, optionally restricted to
/// solved nodes.
pub open spec fn all_fmt_from(
    m: Seq<MemoryBlock>,
    i: int,
    solved_only: bool,
    mode: FmtMode,
) -> Seq<char>
    decreases m.len() - i,
{
    if i < 0 || i >= m.len() {
        Seq::empty()
    } else {
        (if !solved_only || m[i].solved {
            entry_spec(m[i], i, mode)
        } else {
            Seq::empty()
        }) + all_fmt_from(m, i + 1, solved_only, mode)
    }
}

impl Memory {
    /// The proof-path report for `id`: its dependency closure in decreasing
    /// id order, each node under a heading; nothing when the path is empty.
    pub fn format_deps(&self, id: usize, with_proof: bool, include_end_node: bool) -> (r: Option<
        String,
    >)
        requires
            self.wf(),
            id < self.memory@.len(),
        ensures
            ({
                let ids = sorted_listing(
                    proof_path_set(self.memory@, id as int, include_end_node),
                    self.memory@.len() as int,
                );
                let mode = if with_proof {
                    FmtMode::WithProof
                } else {
                    FmtMode::Plain
                };
                match r {
                    Some(t) => ids.len() > 0 && t@ == path_fmt_spec(self.memory@, ids, mode),
                    None => ids.len() == 0,
                }
            }),
    {
        let dep_ids = self.get_proof_path_ids(id, include_end_node);
        let mode = if with_proof {
            FmtMode::WithProof
        } else {
            FmtMode::Plain
        };
        let ghost m = self.memory@;
        let ghost ids = dep_ids@;
        let mut res = String::new();
        let mut i: usize = dep_ids.len();
        while i > 0
            invariant
                self.memory@ == m,
                ids == dep_ids@,
                i <= ids.len(),
                res@ + path_fmt_from(m, ids, i as int, mode) =~= path_fmt_from(
                    m,
                    ids,
                    ids.len() as int,
                    mode,
                ),
            decreases i,
        {
            let cur = dep_ids[i - 1];
            let ghost before = res@;
            if cur < self.memory.len() {
                push_entry(&mut res, &self.memory[cur], cur, mode);
            }
            proof {
                assert(res@ + path_fmt_from(m, ids, i - 1, mode) =~= before + path_fmt_from(
                    m,
                    ids,
                    i as int,
                    mode,
                ));
            }
            i -= 1;
        }
        if res.as_str().is_empty() {
            proof {
                if ids.len() > 0 {
                    let ps = proof_path_set(m, id as int, include_end_node);
                    crate::memory::lemma_sorted_listing_props(ps, m.len() as int);
                    let last = ids[ids.len() - 1];
                    assert(ids.contains(last));
                    assert((last as int) < m.len());
                    lemma_entry_nonempty(m[last as int], last as int, mode);
                    assert(path_fmt_from(m, ids, ids.len() as int, mode).len() > 0);
                }
            }
            None
        } else {
            Some(res)
        }
    }

    fn format_all_mode(&self, solved_only: bool, mode: FmtMode) -> (r: Option<String>)
        ensures
            ({
                match r {
                    Some(t) => self.memory@.len() > 0 && t@ == all_fmt_from(
                        self.memory@,
                        0,
                        solved_only,
                        mode,
                    ),
                    None => self.memory@.len() == 0,
                }
            }),
    {
        if self.memory.len() == 0 {
            return None;
        }
        let ghost m = self.memory@;
        let mut res = String::new();
        let mut i: usize = 0;
        while i < self.memory.len()
            invariant
                self.memory@ == m,
                i <= m.len(),
                res@ + all_fmt_from(m, i as int, solved_only, mode) =~= all_fmt_from(
                    m,
                    0,
                    solved_only,
                    mode,
                ),
            decreases m.len() - i,
        {
            let ghost before = res@;
            let b = &self.memory[i];
            if !solved_only || b.is_solved() {
                push_entry(&mut res, b, i, mode);
            }
            proof {
                assert(res@ + all_fmt_from(m, i + 1, solved_only, mode) =~= before + all_fmt_from(
                    m,
                    i as int,
                    solved_only,
                    mode,
                ));
            }
            i += 1;
        }
        Some(res)
    }

    /// The context report handed to agents: every (or every solved) node,
    /// without proofs.
    pub fn format_all(&self, solved_only: bool) -> (r: Option<String>)
        ensures
            ({
                match r {
                    Some(t) => self.memory@.len() > 0 && t@ == all_fmt_from(
                        self.memory@,
                        0,
                        solved_only,
                        FmtMode::Plain,
                    ),
                    None => self.memory@.len() == 0,
                }
            }),
    {
        self.format_all_mode(solved_only, FmtMode::Plain)
    }

    /// The final report: every (or every solved) node with its proof.
    pub fn format_all_with_proof(&self, solved_only: bool) -> (r: Option<String>)
        ensures
            ({
                match r {
                    Some(t) => self.memory@.len() > 0 && t@ == all_fmt_from(
                        self.memory@,
                        0,
                        solved_only,
                        FmtMode::WithProof,
                    ),
                    None => self.memory@.len() == 0,
                }
            }),
    {
        self.format_all_mode(solved_only, FmtMode::WithProof)
    }

    /// The final report with proof sketches.
    pub fn format_all_with_proof_summary(&self, solved_only: bool) -> (r: Option<String>)
        ensures
            ({
                match r {
                    Some(t) => self.memory@.len() > 0 && t@ == all_fmt_from(
                        self.memory@,
                        0,
                        solved_only,
                        FmtMode::WithSummary,
                    ),
                    None => self.memory@.len() == 0,
                }
            }),
    {
        self.format_all_mode(solved_only, FmtMode::WithSummary)
    }
}

} // verus!
