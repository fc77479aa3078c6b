//! The pessimistic-verification decision rule: referee outcomes are
//! consumed in completion order, a single "invalid" verdict is decisive and
//! overrides any number of "valid" ones, and an errored call counts as no
//! flaw reported.

use vstd::prelude::*;
use crate::extract::{find_box, find_box_spec};
use crate::memory::{MemKind, MemoryBlock};
use crate::text::str_eq;
use crate::MAX_REVIEWS_PER_NODE;

verus! {

/// The verdict token that reports a flaw.
pub open spec fn invalid_tok() -> Seq<char> {
    seq!['i', 'n', 'v', 'a', 'l', 'i', 'd']
}

pub open spec fn opt_text_view(r: Option<String>) -> Option<Seq<char>> {
    match r {
        Some(t) => Some(t@),
        None => None,
    }
}

pub open spec fn reviews_view(rs: Seq<Option<String>>) -> Seq<Option<Seq<char>>> {
    rs.map_values(|r: Option<String>| opt_text_view(r))
}

/// A referee outcome is decisive when the call returned text whose boxed
/// verdict is the invalid token. An errored call (no text) never is.
pub open spec fn decisive_spec(r: Option<Seq<char>>) -> bool {
    match r {
        Some(t) => find_box_spec(t) == Some(invalid_tok()),
        None => false,
    }
}

/// Whether one referee outcome is decisive.
pub fn classify_review(review: &Option<String>) -> (b: bool)
    ensures
        b == decisive_spec(opt_text_view(*review)),
{
    match review {
        Some(t) => {
            match find_box(t.as_str()) {
                Some(v) => {
                    proof {
                        reveal_strlit("invalid");
                        assert("invalid"@ =~= invalid_tok());
                    }
                    str_eq(v.as_str(), "invalid")
                },
                None => false,
            }
        },
        None => false,
    }
}

/// The decision over completion-ordered outcomes: the first decisive
/// verdict's text, or nothing when no verdict is decisive.
pub open spec fn first_flaw_spec(rs: Seq<Option<Seq<char>>>) -> Option<Seq<char>>
    decreases rs.len(),
{
    if rs.len() == 0 {
        None
    } else if decisive_spec(rs.first()) {
        rs.first()
    } else {
        first_flaw_spec(rs.drop_first())
    }
}

/// Aggregates completion-ordered referee outcomes: returns the first
/// decisive verdict's text, or nothing when no verdict is decisive.
pub fn first_flaw(results: &Vec<Option<String>>) -> (r: Option<String>)
    ensures
        opt_text_view(r) == first_flaw_spec(reviews_view(results@)),
{
    let ghost full = reviews_view(results@);
    proof {
        assert(full.subrange(0, full.len() as int) =~= full);
    }
    let mut i: usize = 0;
    loop
        invariant
            full == reviews_view(results@),
            i <= results@.len(),
            first_flaw_spec(full) == first_flaw_spec(full.subrange(i as int, full.len() as int)),
        decreases results@.len() - i,
    {
        if i >= results.len() {
            proof {
                assert(full.subrange(i as int, full.len() as int).len() == 0);
            }
            return None;
        }
        let cur = &results[i];
        let ghost suf = full.subrange(i as int, full.len() as int);
        proof {
            assert(suf.first() == full[i as int]);
            assert(full[i as int] == opt_text_view(results@[i as int]));
        }
        if classify_review(cur) {
            match cur {
                Some(t) => {
                    return Some(t.clone());
                },
                None => {
                    proof {
                        assert(false);
                    }
                    return None;
                },
            }
        }
        proof {
            assert(suf.drop_first() =~= full.subrange(i + 1, full.len() as int));
        }
        i += 1;
    }
}

/// A decisive verdict in a completion-ordered prefix settles the outcome:
/// whatever verdicts complete afterwards cannot change it, so the aggregate
/// need not wait for them.
pub proof fn lemma_first_flaw_prefix(rs: Seq<Option<Seq<char>>>, ext: Seq<Option<Seq<char>>>)
    requires
        first_flaw_spec(rs) is Some,
    ensures
        first_flaw_spec(rs + ext) == first_flaw_spec(rs),
    decreases rs.len(),
{
    if rs.len() > 0 {
        assert((rs + ext).first() == rs.first());
        if decisive_spec(rs.first()) {
        } else {
            assert((rs + ext).drop_first() =~= rs.drop_first() + ext);
            lemma_first_flaw_prefix(rs.drop_first(), ext);
        }
    }
}

/// Unanimity: when no completed verdict is decisive, the aggregate reports
/// no flaw.
pub proof fn lemma_first_flaw_unanimous(rs: Seq<Option<Seq<char>>>)
    requires
        forall|i: int| 0 <= i < rs.len() ==> !decisive_spec(#[trigger] rs[i]),
    ensures
        first_flaw_spec(rs) is None,
    decreases rs.len(),
{
    if rs.len() > 0 {
        assert(!decisive_spec(rs[0]));
        assert forall|i: int| 0 <= i < rs.drop_first().len() implies !decisive_spec(
            #[trigger] rs.drop_first()[i],
        ) by {
            assert(rs.drop_first()[i] == rs[i + 1]);
        }
        lemma_first_flaw_unanimous(rs.drop_first());
    }
}

/// What a backtrace pass schedules for one node.
#[derive(Debug, Clone)]
pub enum ReviewTask {
    /// No referee call and no flaw recorded.
    Skip,
    /// No referee call; the outstanding flaw comment stands as the verdict.
    Cached(String),
    /// A fresh pessimistic verification is run.
    Verify,
}

/// The revisit-cap circuit breaker and comment cache: context nodes and
/// nodes at the cap are skipped outright; a node with an
/// outstanding flaw comment reports that comment without new referee
/// calls; every other node gets a fresh verification.
pub fn review_plan(block: &MemoryBlock) -> (r: ReviewTask)
    ensures
        ({
            match r {
                ReviewTask::Skip => block.memtype == MemKind::Context || block.reviews
                    >= MAX_REVIEWS_PER_NODE,
                ReviewTask::Cached(c) => block.memtype != MemKind::Context && block.reviews
                    < MAX_REVIEWS_PER_NODE && block.comment@.len() > 0 && c@ == block.comment@,
                ReviewTask::Verify => block.memtype != MemKind::Context && block.reviews
                    < MAX_REVIEWS_PER_NODE && block.comment@.len() == 0,
            }
        }),
{
    if block.memtype == MemKind::Context || block.reviews >= MAX_REVIEWS_PER_NODE {
        ReviewTask::Skip
    } else if !block.comment.as_str().is_empty() {
        ReviewTask::Cached(block.comment.clone())
    } else {
        ReviewTask::Verify
    }
}

} // verus!
