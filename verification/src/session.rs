//! The session engine: its configuration, the session state, and the
//! decisions of the exploration/verification/refinement cycle. The engine
//! is event-driven: the caller performs the completion calls and hands the
//! collected results to these functions, which decide and mutate the graph.

use vstd::prelude::*;
use vstd::string::StringExecFns;
use crate::agents::{opt_view, Explorer, Refiner, Reviewer};
use crate::extract::{extract_all_component, extract_component, find_box, find_box_spec,
    id_array_of, parse_id_array, tag_matches};
use crate::fmt::{all_fmt_from, FmtMode};
use crate::memory::{deps_ok, MemKind, Memory, MemoryBlock, strictly_increasing};
use crate::text::str_eq;
use crate::MAX_REVIEWS_PER_NODE;

verus! {

/// The refiner verdict that refutes the conjecture itself.
pub open spec fn false_tok() -> Seq<char> {
    seq!['f', 'a', 'l', 's', 'e']
}

/// The last environment content of a tag, or empty text when the tag never
/// occurs: what a missing component defaults to.
pub open spec fn last_or_empty(ms: Seq<Seq<char>>) -> Seq<char> {
    if ms.len() == 0 {
        Seq::empty()
    } else {
        ms.last()
    }
}

/// The id list a dependency component parses to, empty on a parse failure.
pub open spec fn block_ids(deps: Seq<char>) -> Seq<usize> {
    match id_array_of(deps) {
        Some(v) => v,
        None => Seq::<usize>::empty(),
    }
}

/// Every id of the list points below `n`.
pub open spec fn ids_within(ids: Seq<usize>, n: int) -> bool {
    forall|k: int| 0 <= k < ids.len() ==> (#[trigger] ids[k] as int) < n
}

/// What a session run reports while and after running.
#[derive(Clone, Copy, Debug, PartialEq, Eq, Structural)]
pub enum SessionStatus {
    Running,
    Solved,
    Ended,
}

/// The knobs of one research session.
pub struct ResearchSessionConfig {
    pub title: String,
    pub logdir: String,
    pub proof_model: String,
    pub eval_model: String,
    pub reform_model: String,
    pub steps: u32,
    pub reviews: u8,
    pub iterations: u8,
    pub current_steps: u32,
    pub problem: String,
    pub context: String,
    pub resume: bool,
    pub reformat: bool,
    pub streaming: bool,
    pub theorem_graph_mode: bool,
}

impl ResearchSessionConfig {
    pub fn new() -> (r: Self)
        ensures
            r.title@ == Seq::<char>::empty(),
            r.logdir@ == Seq::<char>::empty(),
            r.proof_model@ == Seq::<char>::empty(),
            r.eval_model@ == Seq::<char>::empty(),
            r.reform_model@ == Seq::<char>::empty(),
            r.steps == 0,
            r.reviews == 0,
            r.iterations == 0,
            r.current_steps == 0,
            r.problem@ == Seq::<char>::empty(),
            r.context@ == Seq::<char>::empty(),
            !r.resume,
            !r.reformat,
            !r.streaming,
            !r.theorem_graph_mode,
    {
        ResearchSessionConfig {
            title: String::new(),
            logdir: String::new(),
            proof_model: String::new(),
            eval_model: String::new(),
            reform_model: String::new(),
            steps: 0,
            reviews: 0,
            iterations: 0,
            current_steps: 0,
            problem: String::new(),
            context: String::new(),
            resume: false,
            reformat: false,
            streaming: false,
            theorem_graph_mode: false,
        }
    }

    pub fn title(self, title: &str) -> (r: Self)
        ensures
            r == (ResearchSessionConfig { title: r.title, ..self }),
            r.title@ == title@,
    {
        ResearchSessionConfig { title: title.to_owned(), ..self }
    }

    pub fn proof_model(self, proof_model: &str) -> (r: Self)
        ensures
            r == (ResearchSessionConfig { proof_model: r.proof_model, ..self }),
            r.proof_model@ == proof_model@,
    {
        ResearchSessionConfig { proof_model: proof_model.to_owned(), ..self }
    }

    pub fn eval_model(self, eval_model: &str) -> (r: Self)
        ensures
            r == (ResearchSessionConfig { eval_model: r.eval_model, ..self }),
            r.eval_model@ == eval_model@,
    {
        ResearchSessionConfig { eval_model: eval_model.to_owned(), ..self }
    }

    pub fn reform_model(self, reform_model: &str) -> (r: Self)
        ensures
            r == (ResearchSessionConfig { reform_model: r.reform_model, ..self }),
            r.reform_model@ == reform_model@,
    {
        ResearchSessionConfig { reform_model: reform_model.to_owned(), ..self }
    }

    pub fn logdir(self, logdir: &str) -> (r: Self)
        ensures
            r == (ResearchSessionConfig { logdir: r.logdir, ..self }),
            r.logdir@ == logdir@,
    {
        ResearchSessionConfig { logdir: logdir.to_owned(), ..self }
    }

    pub fn steps(self, steps: u32) -> (r: Self)
        ensures
            r == (ResearchSessionConfig { steps, ..self }),
    {
        ResearchSessionConfig { steps, ..self }
    }

    pub fn reviews(self, reviews: u8) -> (r: Self)
        ensures
            r == (ResearchSessionConfig { reviews, ..self }),
    {
        ResearchSessionConfig { reviews, ..self }
    }

    pub fn iterations(self, iterations: u8) -> (r: Self)
        ensures
            r == (ResearchSessionConfig { iterations, ..self }),
    {
        ResearchSessionConfig { iterations, ..self }
    }

    pub fn resume(self, resume: bool) -> (r: Self)
        ensures
            r == (ResearchSessionConfig { resume, ..self }),
    {
        ResearchSessionConfig { resume, ..self }
    }

    pub fn reformat(self, reformat: bool) -> (r: Self)
        ensures
            r == (ResearchSessionConfig { reformat, ..self }),
    {
        ResearchSessionConfig { reformat, ..self }
    }

    pub fn streaming(self, streaming: bool) -> (r: Self)
        ensures
            r == (ResearchSessionConfig { streaming, ..self }),
    {
        ResearchSessionConfig { streaming, ..self }
    }

    pub fn theorem_graph_mode(self, tgm: bool) -> (r: Self)
        ensures
            r == (ResearchSessionConfig { theorem_graph_mode: tgm, ..self }),
    {
        ResearchSessionConfig { theorem_graph_mode: tgm, ..self }
    }

    pub fn set_current_steps(&mut self, steps: u32)
        ensures
            *final(self) == (ResearchSessionConfig { current_steps: steps, ..*old(self) }),
    {
        self.current_steps = steps;
    }

    pub fn set_problem(&mut self, problem: &str)
        ensures
            *final(self) == (ResearchSessionConfig { problem: final(self).problem, ..*old(self) }),
            final(self).problem@ == problem@,
    {
        self.problem = problem.to_owned();
    }

    pub fn set_context(&mut self, context: &str)
        ensures
            *final(self) == (ResearchSessionConfig { context: final(self).context, ..*old(self) }),
            final(self).context@ == context@,
    {
        self.context = context.to_owned();
    }
}

/// One research session: its configuration, its agents' settings, the
/// claim graph, and the run status.
pub struct ResearchSession {
    pub config: ResearchSessionConfig,
    pub explorer: Explorer,
    pub reviewer: Reviewer,
    pub refiner: Refiner,
    pub memory: Memory,
    pub status: SessionStatus,
}

/// Did any of the first `k` applied verdicts report a flaw on a
/// non-context node? `path_correctness` at position `k`.
pub open spec fn path_ok_upto(
    m0: Seq<MemoryBlock>,
    ids: Seq<usize>,
    revs: Seq<Option<String>>,
    k: int,
) -> bool {
    forall|j: int|
        0 <= j < k ==> !(m0[ids[j] as int].memtype != MemKind::Context && (#[trigger] revs[j])
            is Some)
}

/// How one checked node changes: context nodes are untouched; a flawed
/// node records the flaw, resets its verdict count and becomes unsolved; a
/// clean node gains the spent verdicts (capped) and its `solved` flag takes
/// the path correctness so far, so a flaw taints every node after it.
pub open spec fn review_applied(
    m0: Seq<MemoryBlock>,
    m1: Seq<MemoryBlock>,
    ids: Seq<usize>,
    revs: Seq<Option<String>>,
    n_rev: u8,
    k: int,
) -> bool {
    let i = ids[k] as int;
    let b0 = m0[i];
    let b1 = m1[i];
    if b0.memtype == MemKind::Context {
        b1 == b0
    } else {
        b1.memtype == b0.memtype && b1.content == b0.content && b1.proof_text == b0.proof_text
            && b1.proof_summary == b0.proof_summary && b1.deps == b0.deps && b1.created_at
            == b0.created_at && b1.updated_at >= b0.updated_at && b1.solved == path_ok_upto(
            m0,
            ids,
            revs,
            k + 1,
        ) && (match revs[k] {
            Some(r) => b1.comment@ == r@ && b1.reviews == 0,
            None => b1.comment == b0.comment && (b1.reviews as int) == (if b0.reviews + n_rev
                >= MAX_REVIEWS_PER_NODE {
                MAX_REVIEWS_PER_NODE as int
            } else {
                b0.reviews + n_rev
            }),
        })
    }
}

proof fn lemma_deps_ok_iff(b: MemoryBlock, ids: Seq<usize>, n: int)
    requires
        b.deps@ == ids,
    ensures
        deps_ok(b, n) == ids_within(ids, n),
{
    if deps_ok(b, n) {
        assert forall|k: int| 0 <= k < ids.len() implies (#[trigger] ids[k] as int) < n by {
            assert((b.deps@[k] as int) < n);
        }
    } else {
        if ids_within(ids, n) {
            assert forall|k: int|
                0 <= k < b.deps@.len() implies (#[trigger] b.deps@[k] as int) < n by {
                assert((ids[k] as int) < n);
            }
            assert(deps_ok(b, n));
        }
    }
}

impl ResearchSession {
    /// Sets up a session from its configuration, as the run loop expects
    /// it: agents configured from the models, and the provided context, if
    /// any, seeded as node 0.
    pub fn new(config: ResearchSessionConfig) -> (r: Self)
        ensures
            r.config == config,
            r.status == SessionStatus::Running,
            r.explorer.model@ == config.proof_model@,
            r.explorer.streaming == config.streaming,
            r.explorer.problem@ == Seq::<char>::empty(),
            r.explorer.context is None,
            r.reviewer.model@ == config.eval_model@,
            r.reviewer.reviews == config.reviews,
            r.reviewer.streaming == (config.streaming && config.reviews == 1),
            r.refiner.model@ == config.proof_model@,
            r.refiner.streaming == config.streaming,
            r.memory.wf(),
            config.context@.len() == 0 ==> r.memory.memory@.len() == 0,
            config.context@.len() > 0 ==> r.memory.memory@.len() == 1 && ({
                let b = r.memory.memory@[0];
                b.memtype == MemKind::Context && b.content@ == config.context@ && b.solved
                    && b.reviews == 0 && b.comment@ == Seq::<char>::empty() && b.deps@ == Seq::<
                    usize,
                >::empty() && b.proof_text@ == Seq::<char>::empty()
            }),
    {
        let explorer = Explorer::new().model(config.proof_model.as_str()).streaming(
            config.streaming,
        );
        let reviewer = Reviewer::new().model(config.eval_model.as_str()).reviews(
            config.reviews,
        ).streaming(config.streaming && config.reviews == 1);
        let refiner = Refiner::new().model(config.proof_model.as_str()).streaming(
            config.streaming,
        );
        let mut mem = Memory::new();
        if !config.context.as_str().is_empty() {
            let block = MemoryBlock::new().memtype(MemKind::Context).content(
                config.context.as_str(),
            ).solved(true);
            mem.update(block);
        }
        ResearchSession {
            config,
            explorer,
            reviewer,
            refiner,
            memory: mem,
            status: SessionStatus::Running,
        }
    }

    /// Appends a verified claim and refreshes every agent's context with
    /// the solved part of the graph. A block whose dependencies do not all
    /// point below the insertion index is rejected, leaving everything
    /// unchanged.
    fn update_memory(&mut self, nmemory: MemoryBlock) -> (ok: bool)
        requires
            old(self).memory.wf(),
        ensures
            final(self).memory.wf(),
            ok == deps_ok(nmemory, old(self).memory.memory@.len() as int),
            !ok ==> *final(self) == *old(self),
            ok ==> final(self).memory.memory@ == old(self).memory.memory@.push(nmemory),
            ok ==> ({
                let ctx = all_fmt_from(final(self).memory.memory@, 0, true, FmtMode::Plain);
                opt_view(final(self).explorer.context) == Some(ctx) && opt_view(
                    final(self).reviewer.context,
                ) == Some(ctx) && opt_view(final(self).refiner.context) == Some(ctx)
            }),
            final(self).config == old(self).config,
            final(self).status == old(self).status,
            final(self).explorer == (Explorer {
                context: final(self).explorer.context,
                ..old(self).explorer
            }),
            final(self).reviewer == (Reviewer {
                context: final(self).reviewer.context,
                ..old(self).reviewer
            }),
            final(self).refiner == (Refiner {
                context: final(self).refiner.context,
                ..old(self).refiner
            }),
    {
        if !self.memory.try_update(nmemory) {
            return false;
        }
        let ctx = self.memory.format_all(true);
        match ctx {
            Some(c) => {
                self.explorer.set_context(c.as_str());
                self.reviewer.set_context(c.as_str());
                self.refiner.set_context(c.as_str());
            },
            None => {},
        }
        true
    }

    /// Appends a speculative claim node without refreshing agent contexts;
    /// verification happens afterwards via backtrace. Rejects forward
    /// edges, leaving the graph unchanged.
    fn update_memory_graph(&mut self, nmemory: MemoryBlock) -> (ok: bool)
        requires
            old(self).memory.wf(),
        ensures
            final(self).memory.wf(),
            ok == deps_ok(nmemory, old(self).memory.memory@.len() as int),
            !ok ==> *final(self) == *old(self),
            ok ==> final(self).memory.memory@ == old(self).memory.memory@.push(nmemory),
            final(self).config == old(self).config,
            final(self).status == old(self).status,
            final(self).explorer == old(self).explorer,
            final(self).reviewer == old(self).reviewer,
            final(self).refiner == old(self).refiner,
    {
        self.memory.try_update(nmemory)
    }

    /// Applies collected backtrace verdicts to the proof path, in
    /// dependency order: a single flaw flips the path correctness
    /// permanently, so every node applied after it ends up unsolved even
    /// when its own verdict was clean. Returns whether the whole path is
    /// believed correct.
    pub fn apply_backtrace_reviews(
        &mut self,
        ids: &Vec<usize>,
        reviews: &Vec<Option<String>>,
    ) -> (ok: bool)
        requires
            strictly_increasing(ids@),
            ids@.len() == reviews@.len(),
            forall|k: int|
                0 <= k < ids@.len() ==> (#[trigger] ids@[k] as int) < old(self).memory.memory@.len(),
        ensures
            ok == path_ok_upto(old(self).memory.memory@, ids@, reviews@, ids@.len() as int),
            final(self).memory.memory@.len() == old(self).memory.memory@.len(),
            forall|i: int|
                0 <= i < old(self).memory.memory@.len() && !ids@.contains(i as usize)
                    ==> final(self).memory.memory@[i] == #[trigger] old(self).memory.memory@[i],
            forall|k: int|
                0 <= k < ids@.len() ==> #[trigger] review_applied(
                    old(self).memory.memory@,
                    final(self).memory.memory@,
                    ids@,
                    reviews@,
                    old(self).config.reviews,
                    k,
                ),
            final(self).config == old(self).config,
            final(self).status == old(self).status,
            final(self).explorer == old(self).explorer,
            final(self).reviewer == old(self).reviewer,
            final(self).refiner == old(self).refiner,
    {
        let ghost m0 = self.memory.memory@;
        let n_rev = self.config.reviews;
        let mut path_ok = true;
        let mut k: usize = 0;
        while k < ids.len()
            invariant
                strictly_increasing(ids@),
                ids@.len() == reviews@.len(),
                forall|j: int| 0 <= j < ids@.len() ==> (#[trigger] ids@[j] as int) < m0.len(),
                m0 == old(self).memory.memory@,
                n_rev == old(self).config.reviews,
                k <= ids@.len(),
                self.memory.memory@.len() == m0.len(),
                forall|i: int|
                    0 <= i < m0.len() && !ids@.subrange(0, k as int).contains(i as usize)
                        ==> self.memory.memory@[i] == #[trigger] m0[i],
                forall|j: int|
                    0 <= j < k ==> #[trigger] review_applied(
                        m0,
                        self.memory.memory@,
                        ids@,
                        reviews@,
                        n_rev,
                        j,
                    ),
                path_ok == path_ok_upto(m0, ids@, reviews@, k as int),
                self.config == old(self).config,
                self.status == old(self).status,
                self.explorer == old(self).explorer,
                self.reviewer == old(self).reviewer,
                self.refiner == old(self).refiner,
            decreases ids@.len() - k,
        {
            let idx = ids[k];
            proof {
                assert forall|j: int| 0 <= j < k implies ids@[j] != idx by {
                    assert(ids@[j] < ids@[k as int]);
                }
                assert(!ids@.subrange(0, k as int).contains(idx));
                assert(self.memory.memory@[idx as int] == m0[idx as int]);
            }
            let ghost mem_before = self.memory.memory@;
            let is_ctx = self.memory.memory[idx].memtype == MemKind::Context;
            if !is_ctx {
                let cur_rev = self.memory.memory[idx].get_reviews();
                let sum: u16 = cur_rev as u16 + n_rev as u16;
                let nr: u8 = if sum >= MAX_REVIEWS_PER_NODE as u16 {
                    MAX_REVIEWS_PER_NODE
                } else {
                    sum as u8
                };
                let flawed = match &reviews[k] {
                    Some(_) => true,
                    None => false,
                };
                if flawed {
                    path_ok = false;
                }
                let b = &mut self.memory.memory[idx];
                b.set_reviews(nr);
                match &reviews[k] {
                    Some(r) => {
                        b.set_comment(r.as_str());
                        b.set_reviews(0);
                    },
                    None => {},
                }
                b.set_solved(path_ok);
            }
            proof {
                assert(path_ok == path_ok_upto(m0, ids@, reviews@, k + 1)) by {
                    if is_ctx {
                        assert(m0[idx as int].memtype == MemKind::Context);
                    }
                }
                assert forall|i: int|
                    0 <= i < m0.len() && !ids@.subrange(0, k + 1).contains(i as usize)
                        implies self.memory.memory@[i] == #[trigger] m0[i] by {
                    if i != idx {
                        assert(self.memory.memory@[i] == mem_before[i]);
                        if mem_before[i] != m0[i] {
                            assert(ids@.subrange(0, k as int).contains(i as usize));
                            let j = choose|j: int|
                                0 <= j < k && ids@.subrange(0, k as int)[j] == i as usize;
                            assert(ids@.subrange(0, k + 1)[j] == i as usize);
                        }
                    } else {
                        assert(ids@.subrange(0, k + 1)[k as int] == idx);
                    }
                }
                assert forall|j: int| 0 <= j < k + 1 implies #[trigger] review_applied(
                    m0,
                    self.memory.memory@,
                    ids@,
                    reviews@,
                    n_rev,
                    j,
                ) by {
                    if j < k {
                        assert(review_applied(m0, mem_before, ids@, reviews@, n_rev, j));
                        assert(ids@[j] != idx);
                        assert(self.memory.memory@[ids@[j] as int] == mem_before[ids@[j] as int]);
                    }
                }
            }
            k += 1;
        }
        proof {
            assert(ids@.subrange(0, ids@.len() as int) =~= ids@);
            assert forall|i: int|
                0 <= i < m0.len() && !ids@.contains(i as usize) implies self.memory.memory@[i]
                == #[trigger] m0[i] by {
                assert(!ids@.subrange(0, ids@.len() as int).contains(i as usize));
            }
        }
        path_ok
    }

    /// Whether backtrace refinement must repair a node: it is unsolved and
    /// carries an unresolved flaw comment.
    pub fn needs_refine(block: &MemoryBlock) -> (b: bool)
        ensures
            b == (!block.solved && block.comment@.len() > 0),
    {
        !block.is_solved() && !block.comment.as_str().is_empty()
    }

    /// Applies one refinement response to a node, in place: a non-empty
    /// response clears the flaw comment; when it carries a verdict, its
    /// proof replaces the node's proof, and when the verdict refutes the
    /// conjecture, its conjecture replaces the node's content.
    pub fn apply_refinement(&mut self, memid: usize, reproof: &str)
        requires
            memid < old(self).memory.memory@.len(),
        ensures
            final(self).memory.memory@.len() == old(self).memory.memory@.len(),
            forall|i: int|
                0 <= i < old(self).memory.memory@.len() && i != memid
                    ==> final(self).memory.memory@[i] == #[trigger] old(self).memory.memory@[i],
            ({
                let b0 = old(self).memory.memory@[memid as int];
                let b1 = final(self).memory.memory@[memid as int];
                if reproof@.len() == 0 {
                    b1 == b0
                } else {
                    let jd = find_box_spec(reproof@);
                    let conj_ms = tag_matches(reproof@, "conjecture"@, 0);
                    let prf_ms = tag_matches(reproof@, "proof"@, 0);
                    b1.comment@ == Seq::<char>::empty() && b1.content@ == (if jd == Some(
                        false_tok(),
                    ) && conj_ms.len() > 0 {
                        conj_ms.last()
                    } else {
                        b0.content@
                    }) && b1.proof_text@ == (if jd is Some && prf_ms.len() > 0 {
                        prf_ms.last()
                    } else {
                        b0.proof_text@
                    }) && b1.memtype == b0.memtype && b1.deps == b0.deps && b1.reviews
                        == b0.reviews && b1.solved == b0.solved && b1.proof_summary
                        == b0.proof_summary && b1.created_at == b0.created_at && b1.updated_at
                        >= b0.updated_at
                }
            }),
            final(self).config == old(self).config,
            final(self).status == old(self).status,
            final(self).explorer == old(self).explorer,
            final(self).reviewer == old(self).reviewer,
            final(self).refiner == old(self).refiner,
    {
        if reproof.is_empty() {
            return ;
        }
        let jd = find_box(reproof);
        let n_conj = extract_component(reproof, "conjecture");
        let n_proof = extract_component(reproof, "proof");
        proof {
            reveal_strlit("");
            reveal_strlit("false");
            assert("false"@ =~= false_tok());
        }
        let b = &mut self.memory.memory[memid];
        b.set_comment("");
        match jd {
            Some(j) => {
                if str_eq(j.as_str(), "false") {
                    match n_conj {
                        Some(nc) => {
                            b.content = nc;
                        },
                        None => {},
                    }
                }
                match n_proof {
                    Some(np) => {
                        b.proof_text = np;
                    },
                    None => {},
                }
            },
            None => {},
        }
    }

    /// Applies one markdown-reformatting response to a node's content:
    /// taken only when the response carries a contents environment.
    pub fn apply_formatted_content(&mut self, i: usize, response: &str)
        requires
            i < old(self).memory.memory@.len(),
        ensures
            final(self).memory.memory@.len() == old(self).memory.memory@.len(),
            forall|j: int|
                0 <= j < old(self).memory.memory@.len() && j != i
                    ==> final(self).memory.memory@[j] == #[trigger] old(self).memory.memory@[j],
            ({
                let b0 = old(self).memory.memory@[i as int];
                let b1 = final(self).memory.memory@[i as int];
                let ms = tag_matches(response@, "contents"@, 0);
                b1 == (MemoryBlock { content: b1.content, ..b0 }) && b1.content@ == (if ms.len()
                    > 0 {
                    ms.last()
                } else {
                    b0.content@
                })
            }),
            final(self).config == old(self).config,
            final(self).status == old(self).status,
            final(self).explorer == old(self).explorer,
            final(self).reviewer == old(self).reviewer,
            final(self).refiner == old(self).refiner,
    {
        match extract_component(response, "contents") {
            Some(c) => {
                let b = &mut self.memory.memory[i];
                b.content = c;
            },
            None => {},
        }
    }

    /// Applies one markdown-reformatting response to a node's proof:
    /// taken only when the response carries a contents environment.
    pub fn apply_formatted_proof(&mut self, i: usize, response: &str)
        requires
            i < old(self).memory.memory@.len(),
        ensures
            final(self).memory.memory@.len() == old(self).memory.memory@.len(),
            forall|j: int|
                0 <= j < old(self).memory.memory@.len() && j != i
                    ==> final(self).memory.memory@[j] == #[trigger] old(self).memory.memory@[j],
            ({
                let b0 = old(self).memory.memory@[i as int];
                let b1 = final(self).memory.memory@[i as int];
                let ms = tag_matches(response@, "contents"@, 0);
                b1 == (MemoryBlock { proof_text: b1.proof_text, ..b0 }) && b1.proof_text@ == (
                if ms.len() > 0 {
                    ms.last()
                } else {
                    b0.proof_text@
                })
            }),
            final(self).config == old(self).config,
            final(self).status == old(self).status,
            final(self).explorer == old(self).explorer,
            final(self).reviewer == old(self).reviewer,
            final(self).refiner == old(self).refiner,
    {
        match extract_component(response, "contents") {
            Some(c) => {
                let b = &mut self.memory.memory[i];
                b.proof_text = c;
            },
            None => {},
        }
    }

    /// Whether the node at `memid` settles the session: it is a solved
    /// theorem whose content is the original problem verbatim.
    pub fn graph_solved(&self, memid: usize) -> (b: bool)
        requires
            memid < self.memory.memory@.len(),
        ensures
            b == ({
                let blk = self.memory.memory@[memid as int];
                blk.solved && blk.memtype == MemKind::Theorem && blk.content@
                    == self.config.problem@
            }),
    {
        let blk = &self.memory.memory[memid];
        blk.is_solved() && blk.memtype == MemKind::Theorem && str_eq(
            blk.content.as_str(),
            self.config.problem.as_str(),
        )
    }

    /// Records the outcome of one exploration step and decides whether the
    /// run is over: a solved step ends the run as solved; exhausting the
    /// step budget ends it as merely ended.
    pub fn on_step_result(&mut self, solved: bool) -> (done: bool)
        ensures
            *final(self) == (ResearchSession { status: final(self).status, ..*old(self) }),
            solved ==> final(self).status == SessionStatus::Solved && done,
            !solved && old(self).config.current_steps + 1 >= old(self).config.steps
                ==> final(self).status == SessionStatus::Ended && done,
            !solved && old(self).config.current_steps + 1 < old(self).config.steps
                ==> final(self).status == old(self).status && !done,
    {
        if solved {
            self.status = SessionStatus::Solved;
            true
        } else if self.config.current_steps >= u32::MAX - 1 || self.config.current_steps + 1
            >= self.config.steps {
            self.status = SessionStatus::Ended;
            true
        } else {
            false
        }
    }
}

impl ResearchSession {
    /// One graph-mode exploration result: parses a single conjecture and
    /// proof (or the final proof) with its dependency list and appends one
    /// speculative node; its verification happens afterwards, via
    /// backtrace. A malformed response, or a dependency list with a
    /// forward or self edge, is rejected without changing the graph.
    /// Returns the new node's id.
    pub fn graph_insert(&mut self, raw: &str) -> (r: Option<usize>)
        requires
            old(self).memory.wf(),
        ensures
            final(self).memory.wf(),
            final(self).config == old(self).config,
            final(self).status == old(self).status,
            final(self).explorer == old(self).explorer,
            final(self).reviewer == old(self).reviewer,
            final(self).refiner == old(self).refiner,
            ({
                let m0 = old(self).memory.memory@;
                let conj = last_or_empty(tag_matches(raw@, "conjecture"@, 0));
                let prf = last_or_empty(tag_matches(raw@, "proof"@, 0));
                let fin = last_or_empty(tag_matches(raw@, "final_proof"@, 0));
                let deps = last_or_empty(tag_matches(raw@, "dependency"@, 0));
                let malformed = (conj.len() == 0 || prf.len() == 0 || deps.len() == 0) && (
                fin.len() == 0 || deps.len() == 0);
                let ids = block_ids(deps);
                let ids_ok = ids_within(ids, m0.len() as int);
                match r {
                    None => (malformed || !ids_ok) && final(self).memory.memory@ == m0,
                    Some(id) => ({
                        let b = final(self).memory.memory@.last();
                        !malformed && ids_ok && id == m0.len() && final(self).memory.memory@
                            == m0.push(b) && b.memtype == (if fin.len() == 0 {
                            MemKind::Lemma
                        } else {
                            MemKind::Theorem
                        }) && b.content@ == (if fin.len() == 0 {
                            conj
                        } else {
                            old(self).config.problem@
                        }) && b.proof_text@ == (if fin.len() == 0 {
                            prf
                        } else {
                            fin
                        }) && b.deps@ == ids && !b.solved && b.reviews == 0 && b.comment@
                            == Seq::<char>::empty() && b.proof_summary@ == Seq::<char>::empty()
                    }),
                }
            }),
    {
        let conj = match extract_component(raw, "conjecture") {
            Some(t) => t,
            None => String::new(),
        };
        let prf = match extract_component(raw, "proof") {
            Some(t) => t,
            None => String::new(),
        };
        let fin = match extract_component(raw, "final_proof") {
            Some(t) => t,
            None => String::new(),
        };
        let deps = match extract_component(raw, "dependency") {
            Some(t) => t,
            None => String::new(),
        };
        if (conj.as_str().is_empty() || prf.as_str().is_empty() || deps.as_str().is_empty()) && (
        fin.as_str().is_empty() || deps.as_str().is_empty()) {
            return None;
        }
        let ids: Vec<usize> = match parse_id_array(deps.as_str()) {
            Some(v) => v,
            None => Vec::new(),
        };
        let ghost gids = ids@;
        let block = if fin.as_str().is_empty() {
            MemoryBlock::new().memtype(MemKind::Lemma).content(conj.as_str()).proof_text(
                prf.as_str(),
            ).deps(ids).solved(false).reviews(0)
        } else {
            let problem = self.config.problem.clone();
            MemoryBlock::new().memtype(MemKind::Theorem).content(problem.as_str()).proof_text(
                fin.as_str(),
            ).deps(ids).solved(false).reviews(0)
        };
        let newid = self.memory.memory.len();
        proof {
            lemma_deps_ok_iff(block, gids, self.memory.memory@.len() as int);
            assert(block_ids(last_or_empty(tag_matches(raw@, "dependency"@, 0))) == gids);
        }
        if self.update_memory_graph(block) {
            Some(newid)
        } else {
            None
        }
    }
}

/// One conjecture/proof/dependency triple of a linear exploration step.
#[derive(Debug)]
pub struct Triple {
    pub conjecture: String,
    pub proof_text: String,
    pub deps_raw: String,
}

/// Where a linear step stands.
#[derive(Clone, Copy, Debug, PartialEq, Eq, Structural)]
pub enum StepPhase {
    /// The current triple awaits its pessimistic verification.
    VerifyTriple,
    /// The current triple's flaw awaits a refinement response.
    RefineTriple,
    /// The final proof awaits its pessimistic verification.
    VerifyFinal,
    /// The final proof's flaw awaits a refinement response.
    RefineFinal,
    /// The step is over; the payload tells whether it solved the problem.
    Done(bool),
}

/// The state of one linear exploration step: the parsed triples, the
/// optional final proof, and the verify/refine position.
pub struct LinearStep {
    pub triples: Vec<Triple>,
    pub idx: usize,
    pub iter: u8,
    pub final_proof: Option<String>,
    pub final_deps_raw: Option<String>,
    pub pending_review: Option<String>,
    pub phase: StepPhase,
}

impl ResearchSession {
    /// Parses one linear exploration response into a step state. A
    /// mismatch between the number of conjectures and the number of proofs
    /// aborts the step before any verification.
    pub fn start_step(&self, raw: &str) -> (r: Option<LinearStep>)
        ensures
            ({
                let conj_ms = tag_matches(raw@, "conjecture"@, 0);
                let prf_ms = tag_matches(raw@, "proof"@, 0);
                let dep_ms = tag_matches(raw@, "dependency"@, 0);
                let fin_ms = tag_matches(raw@, "final_proof"@, 0);
                let n = if conj_ms.len() <= dep_ms.len() {
                    conj_ms.len() as int
                } else {
                    dep_ms.len() as int
                };
                match r {
                    None => conj_ms.len() != prf_ms.len(),
                    Some(st) => conj_ms.len() == prf_ms.len() && st.triples@.len() == n && (
                    forall|i: int|
                        0 <= i < n ==> (#[trigger] st.triples@[i]).conjecture@ == conj_ms[i]
                            && st.triples@[i].proof_text@ == prf_ms[i]
                            && st.triples@[i].deps_raw@ == dep_ms[i]) && opt_view(st.final_proof)
                        == (if fin_ms.len() > 0 {
                        Some(fin_ms.last())
                    } else {
                        None
                    }) && opt_view(st.final_deps_raw) == (if dep_ms.len() > 0 {
                        Some(dep_ms.last())
                    } else {
                        None
                    }) && st.idx == 0 && st.iter == 0 && st.pending_review is None && st.phase
                        == (if self.config.iterations == 0 {
                        StepPhase::Done(false)
                    } else if n > 0 {
                        StepPhase::VerifyTriple
                    } else if fin_ms.len() > 0 {
                        StepPhase::VerifyFinal
                    } else {
                        StepPhase::Done(false)
                    }),
                }
            }),
    {
        let conjectures = extract_all_component(raw, "conjecture");
        let proofs = extract_all_component(raw, "proof");
        let depss = extract_all_component(raw, "dependency");
        if conjectures.len() != proofs.len() {
            return None;
        }
        let n: usize = if conjectures.len() <= depss.len() {
            conjectures.len()
        } else {
            depss.len()
        };
        let mut triples: Vec<Triple> = Vec::new();
        let mut i: usize = 0;
        while i < n
            invariant
                n <= conjectures@.len(),
                n <= depss@.len(),
                conjectures@.len() == proofs@.len(),
                i <= n,
                triples@.len() == i as int,
                forall|j: int|
                    0 <= j < i ==> (#[trigger] triples@[j]).conjecture@ == conjectures@[j]@
                        && triples@[j].proof_text@ == proofs@[j]@ && triples@[j].deps_raw@
                        == depss@[j]@,
            decreases n - i,
        {
            triples.push(
                Triple {
                    conjecture: conjectures[i].clone(),
                    proof_text: proofs[i].clone(),
                    deps_raw: depss[i].clone(),
                },
            );
            i += 1;
        }
        let final_proof = extract_component(raw, "final_proof");
        let final_deps_raw = if depss.len() > 0 {
            Some(depss[depss.len() - 1].clone())
        } else {
            None
        };
        let phase = if self.config.iterations == 0 {
            StepPhase::Done(false)
        } else if triples.len() > 0 {
            StepPhase::VerifyTriple
        } else {
            match &final_proof {
                Some(_) => StepPhase::VerifyFinal,
                None => StepPhase::Done(false),
            }
        };
        Some(
            LinearStep {
                triples,
                idx: 0,
                iter: 0,
                final_proof,
                final_deps_raw,
                pending_review: None,
                phase,
            },
        )
    }

    /// Applies one pessimistic-verification outcome to a linear step. No
    /// flaw accepts the current claim: a triple is appended as a solved
    /// lemma (rejected silently if its dependency list has a forward
    /// edge), the final proof as the solved theorem, which settles the
    /// step. A flaw sends the claim to refinement, or fails the whole step
    /// when the refinement budget is spent.
    pub fn on_review(&mut self, st: &mut LinearStep, review: Option<String>)
        requires
            old(self).memory.wf(),
            old(st).phase is VerifyTriple || old(st).phase is VerifyFinal,
            old(st).phase is VerifyTriple ==> old(st).idx < old(st).triples@.len(),
            old(st).phase is VerifyFinal ==> old(st).final_proof is Some,
            old(st).iter < old(self).config.iterations,
        ensures
            final(self).memory.wf(),
            final(self).config == old(self).config,
            final(self).status == old(self).status,
            final(st).triples == old(st).triples,
            final(st).final_proof == old(st).final_proof,
            final(st).final_deps_raw == old(st).final_deps_raw,
            ({
                match review {
                    Some(r) => *final(self) == *old(self) && final(st).idx == old(st).idx && (
                    if old(st).iter + 1 == old(self).config.iterations {
                        final(st).phase == StepPhase::Done(false) && final(st).iter == old(st).iter && final(st).pending_review == old(st).pending_review
                    } else {
                        opt_view(final(st).pending_review) == Some(r@) && final(st).iter == old(st).iter && final(st).phase == (if old(st).phase is VerifyTriple {
                            StepPhase::RefineTriple
                        } else {
                            StepPhase::RefineFinal
                        })
                    }),
                    None => final(st).pending_review == old(st).pending_review && (if old(st).phase is VerifyTriple {
                        let t = old(st).triples@[old(st).idx as int];
                        let ids = block_ids(t.deps_raw@);
                        let ids_ok = ids_within(ids, old(self).memory.memory@.len() as int);
                        (if ids_ok {
                            let b = final(self).memory.memory@.last();
                            final(self).memory.memory@ == old(self).memory.memory@.push(b)
                                && b.memtype == MemKind::Lemma && b.content@ == t.conjecture@
                                && b.proof_text@ == t.proof_text@ && b.deps@ == ids && b.solved
                                && b.reviews == old(self).config.reviews
                        } else {
                            *final(self) == *old(self)
                        }) && final(st).idx == old(st).idx + 1 && final(st).iter == 0 && final(st).phase == (if old(st).idx + 1 < old(st).triples@.len() {
                            StepPhase::VerifyTriple
                        } else if old(st).final_proof is Some {
                            StepPhase::VerifyFinal
                        } else {
                            StepPhase::Done(false)
                        })
                    } else {
                        let fin = (match old(st).final_proof {
                            Some(f) => f@,
                            None => Seq::<char>::empty(),
                        });
                        let dr = (match old(st).final_deps_raw {
                            Some(d) => d@,
                            None => Seq::<char>::empty(),
                        });
                        let ids = block_ids(dr);
                        let ids_ok = ids_within(ids, old(self).memory.memory@.len() as int);
                        (if ids_ok {
                            let b = final(self).memory.memory@.last();
                            final(self).memory.memory@ == old(self).memory.memory@.push(b)
                                && b.memtype == MemKind::Theorem && b.content@ == old(self).config.problem@ && b.proof_text@ == fin && b.deps@ == ids
                                && b.solved && b.reviews == old(self).config.reviews
                        } else {
                            *final(self) == *old(self)
                        }) && final(st).idx == old(st).idx && final(st).iter == old(st).iter
                            && final(st).phase == StepPhase::Done(true)
                    }),
                }
            }),
    {
        match review {
            Some(r) => {
                if self.config.iterations - st.iter == 1 {
                    st.phase = StepPhase::Done(false);
                } else {
                    st.pending_review = Some(r);
                    st.phase = match st.phase {
                        StepPhase::VerifyTriple => StepPhase::RefineTriple,
                        _ => StepPhase::RefineFinal,
                    };
                }
            },
            None => {
                match st.phase {
                    StepPhase::VerifyTriple => {
                        let tn = st.triples.len();
                        let t = &st.triples[st.idx];
                        let ids: Vec<usize> = match parse_id_array(t.deps_raw.as_str()) {
                            Some(v) => v,
                            None => Vec::new(),
                        };
                        let ghost gids = ids@;
                        let block = MemoryBlock::new().memtype(MemKind::Lemma).content(
                            t.conjecture.as_str(),
                        ).proof_text(t.proof_text.as_str()).deps(ids).solved(true).reviews(
                            self.config.reviews,
                        );
                        proof {
                            lemma_deps_ok_iff(block, gids, self.memory.memory@.len() as int);
                            assert(block_ids(st.triples@[st.idx as int].deps_raw@) == gids);
                        }
                        let _pushed = self.update_memory(block);
                        st.idx = st.idx + 1;
                        st.iter = 0;
                        st.phase = if st.idx < st.triples.len() {
                            StepPhase::VerifyTriple
                        } else {
                            match &st.final_proof {
                                Some(_) => StepPhase::VerifyFinal,
                                None => StepPhase::Done(false),
                            }
                        };
                    },
                    _ => {
                        let fin = match &st.final_proof {
                            Some(f) => f.clone(),
                            None => String::new(),
                        };
                        let dr = match &st.final_deps_raw {
                            Some(d) => d.clone(),
                            None => String::new(),
                        };
                        let ids: Vec<usize> = match parse_id_array(dr.as_str()) {
                            Some(v) => v,
                            None => Vec::new(),
                        };
                        let ghost gids = ids@;
                        let problem = self.config.problem.clone();
                        let block = MemoryBlock::new().memtype(MemKind::Theorem).content(
                            problem.as_str(),
                        ).proof_text(fin.as_str()).deps(ids).solved(true).reviews(
                            self.config.reviews,
                        );
                        proof {
                            lemma_deps_ok_iff(block, gids, self.memory.memory@.len() as int);
                            assert(dr@ == (match old(st).final_deps_raw {
                                Some(d) => d@,
                                None => Seq::<char>::empty(),
                            }));
                            assert(block_ids(dr@) == gids);
                        }
                        let _pushed = self.update_memory(block);
                        st.phase = StepPhase::Done(true);
                    },
                }
            },
        }
    }

    /// Applies one refinement response to a linear step. For a triple, a
    /// response without a verdict is a format error that fails the step;
    /// with a verdict, the refined proof replaces the triple's proof, and
    /// a refuting verdict also replaces its conjecture. For the final
    /// proof, only the refined proof is taken. Either way the claim goes
    /// back to verification.
    pub fn on_refinement(&mut self, st: &mut LinearStep, raw: &str)
        requires
            old(st).phase is RefineTriple || old(st).phase is RefineFinal,
            old(st).phase is RefineTriple ==> old(st).idx < old(st).triples@.len(),
            old(st).iter < u8::MAX,
        ensures
            *final(self) == *old(self),
            final(st).final_deps_raw == old(st).final_deps_raw,
            final(st).pending_review == old(st).pending_review,
            final(st).idx == old(st).idx,
            ({
                let jd = find_box_spec(raw@);
                let conj_ms = tag_matches(raw@, "conjecture"@, 0);
                let prf_ms = tag_matches(raw@, "proof"@, 0);
                if old(st).phase is RefineTriple {
                    final(st).final_proof == old(st).final_proof && (match jd {
                        None => final(st).phase == StepPhase::Done(false) && final(st).iter
                            == old(st).iter && final(st).triples == old(st).triples,
                        Some(j) => final(st).phase == StepPhase::VerifyTriple && final(st).iter
                            == old(st).iter + 1 && final(st).triples@.len() == old(st).triples@.len() && (forall|i: int|
                            0 <= i < old(st).triples@.len() && i != old(st).idx
                                ==> final(st).triples@[i] == #[trigger] old(st).triples@[i]) && ({
                            let t0 = old(st).triples@[old(st).idx as int];
                            let t1 = final(st).triples@[old(st).idx as int];
                            t1.deps_raw == t0.deps_raw && t1.conjecture@ == (if j == false_tok()
                                && conj_ms.len() > 0 {
                                conj_ms.last()
                            } else {
                                t0.conjecture@
                            }) && t1.proof_text@ == (if prf_ms.len() > 0 {
                                prf_ms.last()
                            } else {
                                t0.proof_text@
                            })
                        }),
                    })
                } else {
                    final(st).triples == old(st).triples && final(st).phase
                        == StepPhase::VerifyFinal && final(st).iter == old(st).iter + 1
                        && opt_view(final(st).final_proof) == (if prf_ms.len() > 0 {
                        Some(prf_ms.last())
                    } else {
                        opt_view(old(st).final_proof)
                    })
                }
            }),
    {
        let is_triple = match st.phase {
            StepPhase::RefineTriple => true,
            _ => false,
        };
        if is_triple {
            match find_box(raw) {
                None => {
                    st.phase = StepPhase::Done(false);
                },
                Some(j) => {
                    proof {
                        reveal_strlit("false");
                        assert("false"@ =~= false_tok());
                    }
                    if str_eq(j.as_str(), "false") {
                        match extract_component(raw, "conjecture") {
                            Some(nc) => {
                                let t = &mut st.triples[st.idx];
                                t.conjecture = nc;
                            },
                            None => {},
                        }
                    }
                    match extract_component(raw, "proof") {
                        Some(np) => {
                            let t = &mut st.triples[st.idx];
                            t.proof_text = np;
                        },
                        None => {},
                    }
                    st.iter = st.iter + 1;
                    st.phase = StepPhase::VerifyTriple;
                },
            }
        } else {
            match extract_component(raw, "proof") {
                Some(np) => {
                    st.final_proof = Some(np);
                },
                None => {},
            }
            st.iter = st.iter + 1;
            st.phase = StepPhase::VerifyFinal;
        }
    }
}

} // verus!
