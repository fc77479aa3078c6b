//! The claim graph: nodes with dependency edges pointing only at
//! earlier-created nodes, checked insertion, and the dependency-closure
//! traversal used by backtrace verdict.

use vstd::prelude::*;
use vstd::seq_lib::*;
use vstd::set_lib::*;

verus! {

/// Relies on `chrono::Utc::now`: the current time as a Unix timestamp in
/// seconds.
#[verifier::external_body]
fn now_ts() -> i64 {
    chrono::Utc::now().timestamp()
}

#[derive(Clone, Copy, Debug, PartialEq, Eq, Structural)]
pub enum MemKind {
    Context,
    Lemma,
    Theorem,
}

/// One node of the claim graph.
pub struct MemoryBlock {
    pub memtype: MemKind,
    pub content: String,
    pub proof_text: String,
    pub proof_summary: String,
    pub created_at: i64,
    pub updated_at: i64,
    pub solved: bool,
    pub reviews: u8,
    pub comment: String,
    pub deps: Vec<usize>,
}

impl MemoryBlock {
    /// A fresh unsolved node with empty texts and both timestamps set to now.
    pub fn new() -> (r: Self)
        ensures
            r.memtype == MemKind::Lemma,
            r.content@ == Seq::<char>::empty(),
            r.proof_text@ == Seq::<char>::empty(),
            r.proof_summary@ == Seq::<char>::empty(),
            r.comment@ == Seq::<char>::empty(),
            r.deps@ == Seq::<usize>::empty(),
            !r.solved,
            r.reviews == 0,
            r.created_at == r.updated_at,
    {
        let now = now_ts();
        MemoryBlock {
            memtype: MemKind::Lemma,
            content: String::new(),
            proof_text: String::new(),
            proof_summary: String::new(),
            created_at: now,
            updated_at: now,
            solved: false,
            reviews: 0,
            comment: String::new(),
            deps: Vec::new(),
        }
    }

    /// A timestamp to record for a mutation: the clock if it has not gone
    /// backwards, else the old timestamp, keeping `updated_at` monotone.
    fn bumped(&self) -> (t: i64)
        ensures
            t >= self.updated_at,
    {
        let t = now_ts();
        if t >= self.updated_at {
            t
        } else {
            self.updated_at
        }
    }

    pub fn memtype(self, memtype: MemKind) -> (r: Self)
        ensures
            r == (MemoryBlock { memtype, updated_at: r.updated_at, ..self }),
            r.updated_at >= self.updated_at,
    {
        let updated_at = self.bumped();
        MemoryBlock { memtype, updated_at, ..self }
    }

    pub fn content(self, content: &str) -> (r: Self)
        ensures
            r == (MemoryBlock { content: r.content, updated_at: r.updated_at, ..self }),
            r.content@ == content@,
            r.updated_at >= self.updated_at,
    {
        let updated_at = self.bumped();
        let content = content.to_owned();
        MemoryBlock { content, updated_at, ..self }
    }

    pub fn proof_text(self, proof_text: &str) -> (r: Self)
        ensures
            r == (MemoryBlock { proof_text: r.proof_text, updated_at: r.updated_at, ..self }),
            r.proof_text@ == proof_text@,
            r.updated_at >= self.updated_at,
    {
        let updated_at = self.bumped();
        let proof_text = proof_text.to_owned();
        MemoryBlock { proof_text, updated_at, ..self }
    }

    pub fn set_proof_summary(&mut self, proof_summary: &str)
        ensures
            *final(self) == (MemoryBlock {
                proof_summary: final(self).proof_summary,
                updated_at: final(self).updated_at,
                ..*old(self)
            }),
            final(self).proof_summary@ == proof_summary@,
            final(self).updated_at >= old(self).updated_at,
    {
        self.updated_at = self.bumped();
        self.proof_summary = proof_summary.to_owned();
    }

    pub fn solved(self, solved: bool) -> (r: Self)
        ensures
            r == (MemoryBlock { solved, updated_at: r.updated_at, ..self }),
            r.updated_at >= self.updated_at,
    {
        let updated_at = self.bumped();
        MemoryBlock { solved, updated_at, ..self }
    }

    pub fn reviews(self, reviews: u8) -> (r: Self)
        ensures
            r == (MemoryBlock { reviews, updated_at: r.updated_at, ..self }),
            r.updated_at >= self.updated_at,
    {
        let updated_at = self.bumped();
        MemoryBlock { reviews, updated_at, ..self }
    }

    pub fn deps(self, deps: Vec<usize>) -> (r: Self)
        ensures
            r == (MemoryBlock { deps, updated_at: r.updated_at, ..self }),
            r.updated_at >= self.updated_at,
    {
        let updated_at = self.bumped();
        MemoryBlock { deps, updated_at, ..self }
    }

    pub fn is_solved(&self) -> (b: bool)
        ensures
            b == self.solved,
    {
        self.solved
    }

    pub fn set_solved(&mut self, solved: bool)
        ensures
            *final(self) == (MemoryBlock {
                solved,
                updated_at: final(self).updated_at,
                ..*old(self)
            }),
            final(self).updated_at >= old(self).updated_at,
    {
        self.updated_at = self.bumped();
        self.solved = solved;
    }

    pub fn get_reviews(&self) -> (r: u8)
        ensures
            r == self.reviews,
    {
        self.reviews
    }

    pub fn set_reviews(&mut self, reviews: u8)
        ensures
            *final(self) == (MemoryBlock {
                reviews,
                updated_at: final(self).updated_at,
                ..*old(self)
            }),
            final(self).updated_at >= old(self).updated_at,
    {
        self.updated_at = self.bumped();
        self.reviews = reviews;
    }

    pub fn get_comment(&self) -> (r: &str)
        ensures
            r@ == self.comment@,
    {
        self.comment.as_str()
    }

    pub fn set_comment(&mut self, comment: &str)
        ensures
            *final(self) == (MemoryBlock {
                comment: final(self).comment,
                updated_at: final(self).updated_at,
                ..*old(self)
            }),
            final(self).comment@ == comment@,
            final(self).updated_at >= old(self).updated_at,
    {
        self.updated_at = self.bumped();
        self.comment = comment.to_owned();
    }
}

/// No node of a well-formed graph has a forward or self edge.
pub open spec fn graph_wf(m: Seq<MemoryBlock>) -> bool {
    forall|i: int| 0 <= i < m.len() ==> deps_ok(#[trigger] m[i], i)
}

/// Every dependency of a node placed at index `idx` must point strictly
/// below it: edges only reach earlier-created nodes, so the graph is acyclic
/// by construction.
pub open spec fn deps_ok(b: MemoryBlock, idx: int) -> bool {
    forall|k: int| 0 <= k < b.deps@.len() ==> (b.deps@[k] as int) < idx
}

/// The claim graph: an append-only sequence of nodes indexed by creation
/// order.
pub struct Memory {
    pub memory: Vec<MemoryBlock>,
}

impl Memory {
    /// Well-formedness: no node has a forward or self edge.
    pub open spec fn wf(&self) -> bool {
        graph_wf(self.memory@)
    }

    pub fn new() -> (r: Self)
        ensures
            r.memory@ == Seq::<MemoryBlock>::empty(),
            r.wf(),
    {
        Memory { memory: Vec::new() }
    }

    /// Appends a node whose dependencies are already known to point below
    /// the insertion index.
    pub fn update(&mut self, nmemory: MemoryBlock)
        requires
            deps_ok(nmemory, old(self).memory@.len() as int),
        ensures
            final(self).memory@ == old(self).memory@.push(nmemory),
            old(self).wf() ==> final(self).wf(),
    {
        self.memory.push(nmemory);
    }

    /// Appends a node after checking its edges; a node with a forward or
    /// self edge is rejected and the graph is left unchanged.
    pub fn try_update(&mut self, nmemory: MemoryBlock) -> (ok: bool)
        ensures
            ok == deps_ok(nmemory, old(self).memory@.len() as int),
            ok ==> final(self).memory@ == old(self).memory@.push(nmemory),
            !ok ==> *final(self) == *old(self),
            old(self).wf() ==> final(self).wf(),
    {
        let n = self.memory.len();
        let mut k: usize = 0;
        while k < nmemory.deps.len()
            invariant
                k <= nmemory.deps@.len(),
                n == self.memory@.len(),
                forall|j: int| 0 <= j < k ==> (nmemory.deps@[j] as int) < n,
            decreases nmemory.deps@.len() - k,
        {
            if nmemory.deps[k] >= n {
                return false;
            }
            k += 1;
        }
        self.memory.push(nmemory);
        true
    }

    /// The ids that backtracing from `id` must visit: the dependency
    /// closure of `id` (plus the implicit context node 0, without `id`
    /// itself unless the end node is included), deduplicated and sorted in
    /// increasing order.
    pub fn get_proof_path_ids(&self, id: usize, include_end_node: bool) -> (r: Vec<usize>)
        requires
            self.wf(),
            id < self.memory@.len(),
        ensures
            r@ == sorted_listing(
                proof_path_set(self.memory@, id as int, include_end_node),
                self.memory@.len() as int,
            ),
            strictly_increasing(r@),
            forall|x: usize|
                #[trigger] r@.contains(x) <==> proof_path_set(
                    self.memory@,
                    id as int,
                    include_end_node,
                ).contains(x as int),
            forall|k: int| 0 <= k < r@.len() ==> (#[trigger] r@[k] as int) < self.memory@.len(),
    {
        let ghost m = self.memory@;
        let n: usize = self.memory.len();
        let mut dep_ids: Vec<usize> = Vec::new();
        dep_ids.push(id);
        proof {
            lemma_closure_refl(m, id as int);
        }
        let mut retrieve: usize = 0;
        while retrieve < dep_ids.len()
            invariant
                graph_wf(m),
                self.memory@ == m,
                n == m.len(),
                id < n,
                dep_ids@.len() >= 1,
                dep_ids@[0] == id,
                dep_ids@.no_duplicates(),
                forall|k: int| 0 <= k < dep_ids@.len() ==> (#[trigger] dep_ids@[k] as int) < n,
                forall|k: int|
                    0 <= k < dep_ids@.len() ==> in_closure(
                        m,
                        id as int,
                        #[trigger] dep_ids@[k] as int,
                    ),
                retrieve <= dep_ids@.len(),
                dep_ids@.len() <= n,
                deps_closed_upto(m, dep_ids@, retrieve as int),
            decreases n - retrieve,
        {
            let cur = dep_ids[retrieve];
            let nd = self.memory[cur].deps.len();
            let mut t: usize = 0;
            while t < nd
                invariant
                    graph_wf(m),
                    self.memory@ == m,
                    n == m.len(),
                    id < n,
                    dep_ids@.len() >= 1,
                    dep_ids@[0] == id,
                    dep_ids@.no_duplicates(),
                    forall|k: int|
                        0 <= k < dep_ids@.len() ==> (#[trigger] dep_ids@[k] as int) < n,
                    forall|k: int|
                        0 <= k < dep_ids@.len() ==> in_closure(
                            m,
                            id as int,
                            #[trigger] dep_ids@[k] as int,
                        ),
                    retrieve < dep_ids@.len(),
                    dep_ids@.len() <= n,
                    deps_closed_upto(m, dep_ids@, retrieve as int),
                    cur == dep_ids@[retrieve as int],
                    cur < n,
                    nd == m[cur as int].deps@.len(),
                    t <= nd,
                    forall|tt: int|
                        0 <= tt < t ==> dep_ids@.contains(#[trigger] m[cur as int].deps@[tt]),
                decreases nd - t,
            {
                let d = self.memory[cur].deps[t];
                proof {
                    assert(deps_ok(m[cur as int], cur as int));
                    assert((m[cur as int].deps@[t as int] as int) < cur as int);
                    assert(has_dep(m, cur as int, d as int));
                    assert(in_closure(m, id as int, dep_ids@[retrieve as int] as int));
                    lemma_closure_step(m, id as int, cur as int, d as int);
                }
                let ghost old_ids = dep_ids@;
                if !contains_id(&dep_ids, d) {
                    dep_ids.push(d);
                    proof {
                        lemma_push_no_dup(old_ids, d);
                        lemma_closed_extend(m, old_ids, dep_ids@, retrieve as int);
                        lemma_ids_bound(dep_ids@, n as int);
                        assert forall|tt: int| 0 <= tt < t + 1 implies dep_ids@.contains(
                            #[trigger] m[cur as int].deps@[tt],
                        ) by {
                            if tt < t {
                                assert(old_ids.contains(m[cur as int].deps@[tt]));
                                let kv = m[cur as int].deps@[tt];
                                let k = choose|k: int|
                                    0 <= k < old_ids.len() && old_ids[k] == kv;
                                assert(dep_ids@[k] == m[cur as int].deps@[tt]);
                            } else {
                                assert(dep_ids@[dep_ids@.len() - 1] == d);
                            }
                        }
                    }
                } else {
                    proof {
                        assert(dep_ids@.contains(m[cur as int].deps@[t as int]));
                    }
                }
                t += 1;
            }
            retrieve += 1;
            proof {
                assert forall|a: int, tt: int|
                    0 <= a < retrieve && 0 <= tt < m[dep_ids@[a] as int].deps@.len() implies dep_ids@.contains(
                    #[trigger] m[dep_ids@[a] as int].deps@[tt],
                ) by {
                    if a < retrieve - 1 {
                        assert(deps_closed_upto(m, dep_ids@, retrieve - 1));
                    } else {
                        assert(dep_ids@[a] == cur);
                    }
                }
            }
        }
        let ghost ids_bfs = dep_ids@;
        proof {
            assert(deps_closed_upto(m, ids_bfs, ids_bfs.len() as int));
            assert(ids_bfs.contains(id)) by {
                assert(ids_bfs[0] == id);
            }
            assert forall|x: usize| #[trigger] ids_bfs.contains(x) implies in_closure(
                m,
                id as int,
                x as int,
            ) by {
                let k = choose|k: int| 0 <= k < ids_bfs.len() && ids_bfs[k] == x;
                assert(in_closure(m, id as int, ids_bfs[k] as int));
            }
            assert forall|j: int| in_closure(m, id as int, j) implies 0 <= j <= usize::MAX
                && ids_bfs.contains(j as usize) by {
                let p = choose|p: Seq<int>|
                    is_dep_path(m, p) && p.first() == id as int && p.last() == j;
                lemma_bfs_path_in(m, ids_bfs, p);
            }
        }
        if !include_end_node {
            proof {
                ids_bfs.remove_ensures(0);
            }
            dep_ids.remove(0);
            proof {
                assert(dep_ids@ == ids_bfs.remove(0));
                assert(dep_ids@.no_duplicates()) by {
                    assert forall|i2: int, j2: int|
                        0 <= i2 < dep_ids@.len() && 0 <= j2 < dep_ids@.len() && i2 != j2 implies dep_ids@[
                        i2] != dep_ids@[j2] by {
                        assert(dep_ids@[i2] == ids_bfs[i2 + 1]);
                        assert(dep_ids@[j2] == ids_bfs[j2 + 1]);
                    }
                }
                assert forall|x: usize| #[trigger] dep_ids@.contains(x) implies (
                ids_bfs.contains(x) && x != id) by {
                    let k = choose|k: int| 0 <= k < dep_ids@.len() && dep_ids@[k] == x;
                    assert(dep_ids@[k] == ids_bfs[k + 1]);
                    assert(ids_bfs[k + 1] == x);
                    assert(x != id) by {
                        if x == id {
                            assert(ids_bfs[0] == ids_bfs[k + 1]);
                        }
                    }
                }
                assert forall|x: usize| ids_bfs.contains(x) && x != id implies #[trigger] dep_ids@.contains(
                    x,
                ) by {
                    let k = choose|k: int| 0 <= k < ids_bfs.len() && ids_bfs[k] == x;
                    assert(k != 0);
                    assert(dep_ids@[k - 1] == ids_bfs[k]);
                }
            }
        }
        let ghost ids_trimmed = dep_ids@;
        proof {
            assert forall|x: usize|
                #[trigger] ids_trimmed.contains(x) <==> (in_closure(m, id as int, x as int) && (
                include_end_node || x != id)) by {
                if include_end_node {
                    assert(ids_trimmed == ids_bfs);
                }
            }
        }
        let has0 = contains_id(&dep_ids, 0);
        let is_ctx = self.memory[0].memtype == MemKind::Context;
        if !has0 && is_ctx {
            let ghost before = dep_ids@;
            dep_ids.push(0);
            proof {
                lemma_push_no_dup(before, 0);
                assert forall|x: usize| #[trigger] dep_ids@.contains(x) implies (
                before.contains(x) || x == 0) by {
                    let k = choose|k: int| 0 <= k < dep_ids@.len() && dep_ids@[k] == x;
                    if k < before.len() {
                        assert(before[k] == x);
                    }
                }
                assert forall|x: usize| before.contains(x) implies #[trigger] dep_ids@.contains(
                    x,
                ) by {
                    let k = choose|k: int| 0 <= k < before.len() && before[k] == x;
                    assert(dep_ids@[k] == x);
                }
                assert(dep_ids@.contains(0usize)) by {
                    assert(dep_ids@[dep_ids@.len() - 1] == 0usize);
                }
            }
        }
        let ghost ps = proof_path_set(m, id as int, include_end_node);
        proof {
            assert forall|x: usize|
                #[trigger] dep_ids@.contains(x) <==> ps.contains(x as int) by {
                if m[0].memtype == MemKind::Context {
                    assert(ps == Set::new(
                        |j: int|
                            in_closure(m, id as int, j) && (include_end_node || j != id),
                    ).insert(0));
                }
            }
        }
        let r = sort_ids(dep_ids);
        proof {
            lemma_sorted_listing_props(ps, n as int);
            let listing = sorted_listing(ps, n as int);
            assert forall|x: usize|
                #![trigger r@.contains(x)]
                #![trigger listing.contains(x)]
                (r@.contains(x) <==> listing.contains(x)) by {
                if ps.contains(x as int) {
                    if in_closure(m, id as int, x as int) || x != 0 {
                        lemma_closure_bounds(m, id as int, x as int);
                    }
                    assert((x as int) < n);
                }
            }
            lemma_sorted_same_members_equal(r@, listing);
            assert forall|k: int| 0 <= k < r@.len() implies (#[trigger] r@[k] as int) < m.len() by {
                assert(r@.contains(r@[k]));
            }
        }
        r
    }
}

proof fn lemma_push_no_dup(s: Seq<usize>, x: usize)
    requires
        s.no_duplicates(),
        !s.contains(x),
    ensures
        s.push(x).no_duplicates(),
{
    let s2 = s.push(x);
    assert forall|i: int, j: int|
        0 <= i < s2.len() && 0 <= j < s2.len() && i != j implies s2[i] != s2[j] by {
        if i < s.len() && j < s.len() {
            assert(s2[i] == s[i] && s2[j] == s[j]);
        } else if i < s.len() {
            assert(s2[j] == x && s2[i] == s[i]);
            if s[i] == x {
                assert(s.contains(x));
            }
        } else {
            assert(s2[i] == x && s2[j] == s[j]);
            if s[j] == x {
                assert(s.contains(x));
            }
        }
    }
}

proof fn lemma_closed_extend(m: Seq<MemoryBlock>, ids1: Seq<usize>, ids2: Seq<usize>, r: int)
    requires
        deps_closed_upto(m, ids1, r),
        r <= ids1.len(),
        ids1.len() <= ids2.len(),
        forall|k: int| 0 <= k < ids1.len() ==> ids2[k] == #[trigger] ids1[k],
    ensures
        deps_closed_upto(m, ids2, r),
{
    assert forall|a: int, t: int|
        0 <= a < r && 0 <= t < m[ids2[a] as int].deps@.len() implies ids2.contains(
        #[trigger] m[ids2[a] as int].deps@[t],
    ) by {
        assert(ids2[a] == ids1[a]);
        assert(ids1.contains(m[ids1[a] as int].deps@[t]));
        let k = choose|k: int| 0 <= k < ids1.len() && ids1[k] == m[ids1[a] as int].deps@[t];
        assert(ids2[k] == ids1[k]);
    }
}

/// Node `i` has an edge to node `j`.
pub open spec fn has_dep(m: Seq<MemoryBlock>, i: int, j: int) -> bool {
    0 <= i < m.len() && exists|k: int|
        0 <= k < m[i].deps@.len() && (#[trigger] m[i].deps@[k] as int) == j
}

/// `p` walks the graph along dependency edges.
pub open spec fn is_dep_path(m: Seq<MemoryBlock>, p: Seq<int>) -> bool {
    p.len() >= 1 && forall|k: int| 0 < k < p.len() ==> has_dep(m, p[k - 1], #[trigger] p[k])
}

/// `j` is in the dependency closure of `i`: reachable from `i` along
/// dependency edges; a node is in its own closure.
pub open spec fn in_closure(m: Seq<MemoryBlock>, i: int, j: int) -> bool {
    exists|p: Seq<int>| is_dep_path(m, p) && p.first() == i && p.last() == j
}

/// A node is in its own closure.
pub proof fn lemma_closure_refl(m: Seq<MemoryBlock>, i: int)
    ensures
        in_closure(m, i, i),
{
    let p = seq![i];
    assert(is_dep_path(m, p) && p.first() == i && p.last() == i);
}

/// The closure is closed under single edges.
pub proof fn lemma_closure_step(m: Seq<MemoryBlock>, i: int, j: int, d: int)
    requires
        in_closure(m, i, j),
        has_dep(m, j, d),
    ensures
        in_closure(m, i, d),
{
    let p = choose|p: Seq<int>| is_dep_path(m, p) && p.first() == i && p.last() == j;
    let q = p.push(d);
    assert forall|k: int| 0 < k < q.len() implies has_dep(m, q[k - 1], #[trigger] q[k]) by {
        if k < p.len() {
            assert(q[k] == p[k] && q[k - 1] == p[k - 1]);
            assert(has_dep(m, p[k - 1], p[k]));
        } else {
            assert(q[k] == d && q[k - 1] == p.last());
        }
    }
    assert(is_dep_path(m, q) && q.first() == i && q.last() == d);
}

/// Dependency closure is transitive: whatever a dependency depends on, the
/// dependent node depends on as well.
pub proof fn lemma_closure_transitive(m: Seq<MemoryBlock>, i: int, j: int, k: int)
    requires
        in_closure(m, i, j),
        in_closure(m, j, k),
    ensures
        in_closure(m, i, k),
{
    let p1 = choose|p: Seq<int>| is_dep_path(m, p) && p.first() == i && p.last() == j;
    let p2 = choose|p: Seq<int>| is_dep_path(m, p) && p.first() == j && p.last() == k;
    let q = p1 + p2.drop_first();
    assert(q.len() == p1.len() + p2.len() - 1);
    assert forall|t: int| 0 < t < q.len() implies has_dep(m, q[t - 1], #[trigger] q[t]) by {
        if t < p1.len() {
            assert(q[t] == p1[t] && q[t - 1] == p1[t - 1]);
            assert(has_dep(m, p1[t - 1], p1[t]));
        } else if t == p1.len() {
            assert(p2.len() >= 2);
            assert(q[t - 1] == p1.last());
            assert(p1.last() == p2.first());
            assert(q[t] == p2.drop_first()[0]);
            assert(p2.drop_first()[0] == p2[1]);
            assert(has_dep(m, p2[0], p2[1]));
        } else {
            assert(q[t] == p2.drop_first()[t - p1.len()]);
            assert(q[t - 1] == p2.drop_first()[t - 1 - p1.len()]);
            assert(p2.drop_first()[t - p1.len()] == p2[t - p1.len() + 1]);
            assert(p2.drop_first()[t - 1 - p1.len()] == p2[t - p1.len()]);
            assert(has_dep(m, p2[t - p1.len()], p2[t - p1.len() + 1]));
        }
    }
    assert(q.first() == i);
    if p2.len() == 1 {
        assert(q =~= p1);
        assert(q.last() == k);
    } else {
        assert(q.last() == p2.drop_first().last());
        assert(p2.drop_first().last() == p2.last());
    }
    assert(is_dep_path(m, q) && q.first() == i && q.last() == k);
}

proof fn lemma_path_bounds(m: Seq<MemoryBlock>, p: Seq<int>)
    requires
        graph_wf(m),
        is_dep_path(m, p),
        0 <= p.first() < m.len(),
    ensures
        0 <= p.last() <= p.first(),
    decreases p.len(),
{
    if p.len() > 1 {
        let q = p.drop_first();
        assert(has_dep(m, p[0], p[1]));
        let kk = choose|kk: int|
            0 <= kk < m[p[0]].deps@.len() && (#[trigger] m[p[0]].deps@[kk] as int) == p[1];
        assert(deps_ok(m[p[0]], p[0]));
        assert(0 <= p[1] < p[0]);
        assert forall|t: int| 0 < t < q.len() implies has_dep(m, q[t - 1], #[trigger] q[t]) by {
            assert(q[t] == p[t + 1] && q[t - 1] == p[t]);
            assert(has_dep(m, p[t + 1 - 1], p[t + 1]));
        }
        assert(q.first() == p[1]);
        lemma_path_bounds(m, q);
        assert(q.last() == p.last());
    }
}

/// Every closure member of a valid node is itself a valid, earlier-or-equal
/// index.
pub proof fn lemma_closure_bounds(m: Seq<MemoryBlock>, i: int, j: int)
    requires
        graph_wf(m),
        0 <= i < m.len(),
        in_closure(m, i, j),
    ensures
        0 <= j <= i,
{
    let p = choose|p: Seq<int>| is_dep_path(m, p) && p.first() == i && p.last() == j;
    lemma_path_bounds(m, p);
}

/// The ids checked when backtracing from `id`: the dependency closure of
/// `id` (without `id` itself unless the end node is included), together with
/// node 0 whenever node 0 is background context.
pub open spec fn proof_path_set(m: Seq<MemoryBlock>, id: int, include_end: bool) -> Set<int> {
    let base = Set::new(|j: int| in_closure(m, id, j) && (include_end || j != id));
    if m.len() > 0 && m[0].memtype == MemKind::Context {
        base.insert(0)
    } else {
        base
    }
}

/// The proof path is transitively closed: whatever a path member depends
/// on, directly or through other nodes, is itself on the path.
pub proof fn lemma_proof_path_transitive(m: Seq<MemoryBlock>, id: int, j: int, k: int)
    requires
        graph_wf(m),
        0 <= id < m.len(),
        proof_path_set(m, id, true).contains(j),
        in_closure(m, j, k),
    ensures
        proof_path_set(m, id, true).contains(k),
{
    if in_closure(m, id, j) {
        lemma_closure_transitive(m, id, j, k);
    } else {
        assert(m.len() > 0 && m[0].memtype == MemKind::Context && j == 0);
        lemma_closure_bounds(m, 0, k);
        assert(k == 0);
    }
}

pub open spec fn strictly_increasing(s: Seq<usize>) -> bool {
    forall|a: int, b: int| 0 <= a < b < s.len() ==> s[a] < s[b]
}

/// The members of `ps` below `n`, listed in increasing order.
pub open spec fn sorted_listing(ps: Set<int>, n: int) -> Seq<usize>
    decreases n,
{
    if n <= 0 {
        Seq::empty()
    } else {
        sorted_listing(ps, n - 1) + (if ps.contains(n - 1) {
            seq![(n - 1) as usize]
        } else {
            Seq::empty()
        })
    }
}

pub proof fn lemma_sorted_listing_props(ps: Set<int>, n: int)
    requires
        n <= usize::MAX + 1,
    ensures
        strictly_increasing(sorted_listing(ps, n)),
        forall|x: usize|
            #[trigger] sorted_listing(ps, n).contains(x) <==> (ps.contains(x as int) && (
            x as int) < n),
    decreases n,
{
    if n <= 0 {
        assert(forall|x: usize| !sorted_listing(ps, n).contains(x));
    } else {
        lemma_sorted_listing_props(ps, n - 1);
        let s0 = sorted_listing(ps, n - 1);
        let s = sorted_listing(ps, n);
        let tail: Seq<usize> = if ps.contains(n - 1) {
            seq![(n - 1) as usize]
        } else {
            Seq::empty()
        };
        assert(s == s0 + tail);
        assert forall|x: usize|
            #[trigger] s.contains(x) implies (ps.contains(x as int) && (x as int) < n) by {
            let ix = choose|ix: int| 0 <= ix < s.len() && s[ix] == x;
            if ix < s0.len() {
                assert(s0[ix] == x);
                assert(s0.contains(x));
            } else {
                assert(tail.len() > 0);
                assert(ps.contains(n - 1));
                assert(x == tail[ix - s0.len()]);
                assert(x == (n - 1) as usize);
                assert(x as int == n - 1);
            }
        }
        assert forall|x: usize|
            (ps.contains(x as int) && (x as int) < n) implies #[trigger] s.contains(x) by {
            if (x as int) < n - 1 {
                assert(s0.contains(x));
                let ix = choose|ix: int| 0 <= ix < s0.len() && s0[ix] == x;
                assert(s[ix] == x);
            } else {
                assert(x as int == n - 1);
                assert(ps.contains(n - 1));
                assert(tail[0] == x);
                assert(s[s0.len() as int] == x);
            }
        }
        assert forall|a: int, b: int| 0 <= a < b < s.len() implies s[a] < s[b] by {
            if b < s0.len() {
                assert(s[a] == s0[a] && s[b] == s0[b]);
            } else {
                assert(tail.len() > 0);
                assert(b == s0.len());
                assert(s[b] == (n - 1) as usize);
                assert(s[a] == s0[a]);
                assert(s0.contains(s0[a]));
                assert((s0[a] as int) < n - 1);
            }
        }
    }
}

/// Two strictly increasing listings with the same members are the same
/// listing: the sorted closure listing is unique.
pub proof fn lemma_sorted_same_members_equal(a: Seq<usize>, b: Seq<usize>)
    requires
        strictly_increasing(a),
        strictly_increasing(b),
        forall|x: usize|
            #![trigger a.contains(x)]
            #![trigger b.contains(x)]
            (a.contains(x) <==> b.contains(x)),
    ensures
        a == b,
    decreases a.len(),
{
    if a.len() == 0 {
        if b.len() > 0 {
            assert(b.contains(b[0]));
            assert(a.contains(b[0]));
        }
        assert(a =~= b);
    } else if b.len() == 0 {
        assert(a.contains(a[0]));
        assert(b.contains(a[0]));
        assert(a =~= b);
    } else {
        let la = a.last();
        let lb = b.last();
        assert(a.contains(la));
        assert(b.contains(lb));
        assert(b.contains(la));
        assert(a.contains(lb));
        let ia = choose|i: int| 0 <= i < a.len() && a[i] == lb;
        let ib = choose|i: int| 0 <= i < b.len() && b[i] == la;
        assert(a[ia] <= la);
        assert(b[ib] <= lb);
        assert(la == lb);
        let a0 = a.drop_last();
        let b0 = b.drop_last();
        assert forall|x: usize| #[trigger] a0.contains(x) implies b0.contains(x) by {
            let i = choose|i: int| 0 <= i < a0.len() && a0[i] == x;
            assert(a[i] == x);
            assert(x < la);
            assert(a.contains(x));
            assert(b.contains(x));
            let j = choose|j: int| 0 <= j < b.len() && b[j] == x;
            assert(j < b.len() - 1);
            assert(b0[j] == x);
        }
        assert forall|x: usize| #[trigger] b0.contains(x) implies a0.contains(x) by {
            let i = choose|i: int| 0 <= i < b0.len() && b0[i] == x;
            assert(b[i] == x);
            assert(x < lb);
            assert(b.contains(x));
            assert(a.contains(x));
            let j = choose|j: int| 0 <= j < a.len() && a[j] == x;
            assert(j < a.len() - 1);
            assert(a0[j] == x);
        }
        assert(strictly_increasing(a0)) by {
            assert forall|s: int, t: int| 0 <= s < t < a0.len() implies a0[s] < a0[t] by {
                assert(a[s] == a0[s] && a[t] == a0[t]);
            }
        }
        assert(strictly_increasing(b0)) by {
            assert forall|s: int, t: int| 0 <= s < t < b0.len() implies b0[s] < b0[t] by {
                assert(b[s] == b0[s] && b[t] == b0[t]);
            }
        }
        lemma_sorted_same_members_equal(a0, b0);
        assert(a.len() == b.len());
        assert forall|i: int| 0 <= i < a.len() implies a[i] == b[i] by {
            if i < a.len() - 1 {
                assert(a[i] == a0[i] && b[i] == b0[i]);
            }
        }
        assert(a =~= b);
    }
}

/// Distinct indices below `n` cannot number more than `n`.
proof fn lemma_ids_bound(s: Seq<usize>, n: int)
    requires
        s.no_duplicates(),
        forall|k: int| 0 <= k < s.len() ==> (s[k] as int) < n,
        0 <= n,
    ensures
        s.len() <= n,
{
    let si = s.map_values(|x: usize| x as int);
    assert(si.no_duplicates()) by {
        assert forall|i: int, j: int|
            0 <= i < si.len() && 0 <= j < si.len() && i != j implies si[i] != si[j] by {
            assert(s[i] != s[j]);
        }
    }
    si.unique_seq_to_set();
    assert(si.to_set().subset_of(set_int_range(0, n))) by {
        assert forall|x: int| si.to_set().contains(x) implies set_int_range(0, n).contains(x) by {
            let i = choose|i: int| 0 <= i < si.len() && si[i] == x;
            assert((s[i] as int) < n);
        }
    }
    lemma_int_range(0, n);
    lemma_len_subset(si.to_set(), set_int_range(0, n));
}

/// Every dependency of every listed node is itself listed.
pub open spec fn deps_closed_upto(m: Seq<MemoryBlock>, ids: Seq<usize>, r: int) -> bool {
    forall|a: int, t: int|
        0 <= a < r && 0 <= t < m[ids[a] as int].deps@.len() ==> ids.contains(
            #[trigger] m[ids[a] as int].deps@[t],
        )
}

proof fn lemma_bfs_path_in(m: Seq<MemoryBlock>, ids: Seq<usize>, p: Seq<int>)
    requires
        is_dep_path(m, p),
        0 <= p.first() <= usize::MAX,
        ids.contains(p.first() as usize),
        deps_closed_upto(m, ids, ids.len() as int),
    ensures
        0 <= p.last() <= usize::MAX,
        ids.contains(p.last() as usize),
    decreases p.len(),
{
    if p.len() > 1 {
        let q = p.drop_last();
        assert forall|t: int| 0 < t < q.len() implies has_dep(m, q[t - 1], #[trigger] q[t]) by {
            assert(q[t] == p[t] && q[t - 1] == p[t - 1]);
            assert(has_dep(m, p[t - 1], p[t]));
        }
        assert(q.first() == p.first());
        lemma_bfs_path_in(m, ids, q);
        let prev = q.last();
        assert(p.last() == p[p.len() - 1]);
        assert(has_dep(m, p[p.len() - 1 - 1], p[p.len() - 1]));
        assert(prev == p[p.len() - 2]);
        let kk = choose|kk: int|
            0 <= kk < m[prev].deps@.len() && (#[trigger] m[prev].deps@[kk] as int) == p.last();
        assert(0 <= p.last() <= usize::MAX);
        let a = choose|a: int| 0 <= a < ids.len() && ids[a] == prev as usize;
        assert((prev as usize) as int == prev);
        assert(ids[a] as int == prev);
        assert(m[ids[a] as int].deps@[kk] == m[prev].deps@[kk]);
        assert(ids.contains(m[ids[a] as int].deps@[kk]));
        assert(m[prev].deps@[kk] == p.last() as usize);
    }
}

fn contains_id(v: &Vec<usize>, x: usize) -> (b: bool)
    ensures
        b == v@.contains(x),
{
    let mut i: usize = 0;
    while i < v.len()
        invariant
            i <= v@.len(),
            forall|k: int| 0 <= k < i ==> v@[k] != x,
        decreases v@.len() - i,
    {
        if v[i] == x {
            return true;
        }
        i += 1;
    }
    false
}

/// Sorts a duplicate-free id list into increasing order.
#[verifier::rlimit(50)]
fn sort_ids(v: Vec<usize>) -> (r: Vec<usize>)
    requires
        v@.no_duplicates(),
    ensures
        strictly_increasing(r@),
        forall|x: usize|
            #![trigger r@.contains(x)]
            #![trigger v@.contains(x)]
            (r@.contains(x) <==> v@.contains(x)),
{
    let mut out: Vec<usize> = Vec::new();
    let mut i: usize = 0;
    while i < v.len()
        invariant
            i <= v@.len(),
            v@.no_duplicates(),
            strictly_increasing(out@),
            forall|x: usize|
                #![trigger out@.contains(x)]
                #![trigger v@.subrange(0, i as int).contains(x)]
                (out@.contains(x) <==> v@.subrange(0, i as int).contains(x)),
        decreases v@.len() - i,
    {
        let x = v[i];
        assert(!out@.contains(x)) by {
            if out@.contains(x) {
                let k = choose|k: int| 0 <= k < i && v@.subrange(0, i as int)[k] == x;
                assert(v@[k] == x && v@[i as int] == x);
            }
        }
        let mut pos: usize = 0;
        while pos < out.len() && out[pos] < x
            invariant
                pos <= out@.len(),
                forall|k: int| 0 <= k < pos ==> out@[k] < x,
            decreases out@.len() - pos,
        {
            pos += 1;
        }
        let ghost old_out = out@;
        proof {
            old_out.insert_ensures(pos as int, x);
        }
        out.insert(pos, x);
        proof {
            assert(out@ == old_out.insert(pos as int, x));
            if (pos as int) < old_out.len() {
                assert(old_out.contains(old_out[pos as int]));
                assert(old_out[pos as int] != x);
                assert(old_out[pos as int] > x);
            }
            assert forall|a: int, b: int| 0 <= a < b < out@.len() implies out@[a] < out@[b] by {
                let pi = pos as int;
                if b < pi {
                    assert(out@[a] == old_out[a] && out@[b] == old_out[b]);
                } else if a < pi && b == pi {
                    assert(out@[a] == old_out[a] && out@[b] == x);
                } else if a < pi && b > pi {
                    assert(out@[a] == old_out[a] && out@[b] == old_out[b - 1]);
                    if b - 1 == pi {
                        assert(old_out[pi] > x);
                        assert(old_out[a] < x);
                    }
                } else if a == pi {
                    assert(out@[a] == x && out@[b] == old_out[b - 1]);
                    assert(old_out[b - 1] >= old_out[pi]);
                    assert(old_out[pi] > x);
                } else {
                    assert(out@[a] == old_out[a - 1] && out@[b] == old_out[b - 1]);
                }
            }
            let pre1 = v@.subrange(0, i + 1);
            assert forall|y: usize| #[trigger] out@.contains(y) implies pre1.contains(y) by {
                let k = choose|k: int| 0 <= k < out@.len() && out@[k] == y;
                if k == pos as int {
                    assert(pre1[i as int] == x);
                } else {
                    let ko = if k < pos as int {
                        k
                    } else {
                        k - 1
                    };
                    assert(old_out[ko] == y);
                    assert(old_out.contains(y));
                    assert(v@.subrange(0, i as int).contains(y));
                    let t = choose|t: int| 0 <= t < i && v@.subrange(0, i as int)[t] == y;
                    assert(pre1[t] == y);
                }
            }
            assert forall|y: usize| #[trigger] pre1.contains(y) implies out@.contains(y) by {
                let t = choose|t: int| 0 <= t < pre1.len() && pre1[t] == y;
                if t == i as int {
                    assert(out@[pos as int] == y);
                } else {
                    assert(v@.subrange(0, i as int)[t] == y);
                    assert(v@.subrange(0, i as int).contains(y));
                    assert(old_out.contains(y));
                    let k = choose|k: int| 0 <= k < old_out.len() && old_out[k] == y;
                    if k < pos as int {
                        assert(out@[k] == y);
                    } else {
                        assert(out@[k + 1] == y);
                    }
                }
            }
        }
        i += 1;
    }
    proof {
        assert(v@.subrange(0, v@.len() as int) =~= v@);
    }
    out
}

} // verus!
