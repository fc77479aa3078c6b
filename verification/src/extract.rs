//! The extraction grammar for agent responses: the boxed verdict token, and
//! the contents of `\begin{tag}...\end{tag}` environments.

use vstd::prelude::*;
use crate::text::{
    chars_of, find_from, find_spec, last_occurrence, occurs_at, rfind_last,
    string_from_chars, subvec, trim_chars, trim_spec,
};

verus! {

pub open spec fn boxed_tok() -> Seq<char> {
    seq!['b', 'o', 'x', 'e', 'd']
}

/// End of the brace group that starts just before index `i` at nesting
/// `depth`: the index of the closing brace, if the group is ever closed.
pub open spec fn brace_end(s: Seq<char>, i: int, depth: int) -> Option<int>
    decreases s.len() - i + 1,
{
    if i < 0 || i >= s.len() {
        None
    } else if s[i] == '}' {
        if depth == 1 {
            Some(i)
        } else {
            brace_end(s, i + 1, depth - 1)
        }
    } else if s[i] == '{' {
        brace_end(s, i + 1, depth + 1)
    } else {
        brace_end(s, i + 1, depth)
    }
}

/// The verdict token: the argument of the last `boxed` marker in `s`.
/// A braced argument runs to the matching close brace (or to the end of the
/// text if the brace is never closed); an unbraced one runs to the next
/// dollar sign or the end of the text and is trimmed, with an empty result
/// standing for no verdict.
pub open spec fn find_box_spec(s: Seq<char>) -> Option<Seq<char>> {
    match last_occurrence(s, boxed_tok()) {
        None => None,
        Some(p) => {
            let after = s.subrange(p + 5, s.len() as int);
            if after.len() == 0 {
                None
            } else if after[0] == '{' {
                match brace_end(after, 1, 1) {
                    Some(e) => Some(after.subrange(1, e)),
                    None => Some(after.subrange(1, after.len() as int)),
                }
            } else {
                let end = match find_spec(after, seq!['$'], 0) {
                    Some(e) => e,
                    None => after.len() as int,
                };
                let t = trim_spec(after.subrange(0, end));
                if t.len() == 0 {
                    None
                } else {
                    Some(t)
                }
            }
        },
    }
}

fn boxed_vec() -> (v: Vec<char>)
    ensures
        v@ == boxed_tok(),
{
    let v = chars_of("boxed");
    proof {
        reveal_strlit("boxed");
        assert(v@ =~= boxed_tok());
    }
    v
}

fn brace_scan(after: &Vec<char>) -> (e: usize)
    requires
        after@.len() >= 1,
    ensures
        1 <= e <= after@.len(),
        ({
            match brace_end(after@, 1, 1) {
                Some(p) => e == p,
                None => e == after@.len(),
            }
        }),
{
    let mut i: usize = 1;
    let mut depth: usize = 1;
    loop
        invariant
            after@.len() >= 1,
            1 <= i,
            1 <= depth <= i,
            brace_end(after@, 1, 1) == brace_end(after@, i as int, depth as int),
        decreases after@.len() + 1 - i,
    {
        if i >= after.len() {
            assert(brace_end(after@, i as int, depth as int) is None);
            return after.len();
        }
        let c = after[i];
        if c == '}' {
            if depth == 1 {
                assert(brace_end(after@, i as int, depth as int) == Some(i as int));
                return i;
            }
            assert(brace_end(after@, i as int, depth as int) == brace_end(
                after@,
                i + 1,
                depth - 1,
            ));
            depth -= 1;
        } else if c == '{' {
            assert(brace_end(after@, i as int, depth as int) == brace_end(
                after@,
                i + 1,
                depth + 1,
            ));
            depth += 1;
        } else {
            assert(brace_end(after@, i as int, depth as int) == brace_end(
                after@,
                i + 1,
                depth as int,
            ));
        }
        i += 1;
    }
}

/// The verdict inside the last `boxed{...}` (or `boxed ... $`) marker.
pub fn find_box(pred_str: &str) -> (r: Option<String>)
    ensures
        ({
            match r {
                Some(t) => find_box_spec(pred_str@) == Some(t@),
                None => find_box_spec(pred_str@) is None,
            }
        }),
{
    let s = chars_of(pred_str);
    let tok = boxed_vec();
    match rfind_last(&s, &tok) {
        None => None,
        Some(p) => {
            let n: usize = s.len();
            proof {
                assert(boxed_tok().len() == 5);
            }
            let after = subvec(&s, p + 5, n);
            if after.len() == 0 {
                None
            } else if after[0] == '{' {
                let e = brace_scan(&after);
                let content = subvec(&after, 1, e);
                Some(string_from_chars(&content))
            } else {
                let dollar = chars_of("$");
                proof {
                    reveal_strlit("$");
                    assert(dollar@ =~= seq!['$']);
                }
                let end: usize = match find_from(&after, &dollar, 0) {
                    Some(e) => e,
                    None => after.len(),
                };
                let t = trim_chars(&subvec(&after, 0, end));
                if t.len() == 0 {
                    None
                } else {
                    Some(string_from_chars(&t))
                }
            }
        },
    }
}

pub open spec fn begin_tok(tag: Seq<char>) -> Seq<char> {
    seq!['\\', 'b', 'e', 'g', 'i', 'n', '{'] + tag + seq!['}']
}

pub open spec fn end_tok(tag: Seq<char>) -> Seq<char> {
    seq!['\\', 'e', 'n', 'd', '{'] + tag + seq!['}']
}

pub proof fn lemma_find_spec_bounds(hay: Seq<char>, needle: Seq<char>, from: int, i: int)
    requires
        find_spec(hay, needle, from) == Some(i),
    ensures
        from <= i,
        i + needle.len() <= hay.len(),
        occurs_at(hay, needle, i),
    decreases hay.len() - from + 1,
{
    if from + needle.len() > hay.len() {
    } else if occurs_at(hay, needle, from) {
    } else {
        lemma_find_spec_bounds(hay, needle, from + 1, i);
    }
}

/// The contents of the `\begin{tag}...\end{tag}` environments of `s`, in
/// order, scanning left to right: each environment starts at the first
/// begin marker after the previous environment and runs to the first end
/// marker after its begin marker.
pub open spec fn tag_matches(s: Seq<char>, tag: Seq<char>, from: int) -> Seq<Seq<char>>
    decreases s.len() - from + 1,
    via tag_matches_dec
{
    match find_spec(s, begin_tok(tag), from) {
        None => Seq::empty(),
        Some(b) => {
            let cs = b + begin_tok(tag).len();
            match find_spec(s, end_tok(tag), cs) {
                None => Seq::empty(),
                Some(e) => seq![s.subrange(cs, e)] + tag_matches(s, tag, e + end_tok(tag).len()),
            }
        },
    }
}

#[via_fn]
proof fn tag_matches_dec(s: Seq<char>, tag: Seq<char>, from: int) {
    match find_spec(s, begin_tok(tag), from) {
        None => {},
        Some(b) => {
            lemma_find_spec_bounds(s, begin_tok(tag), from, b);
            let cs = b + begin_tok(tag).len();
            match find_spec(s, end_tok(tag), cs) {
                None => {},
                Some(e) => {
                    lemma_find_spec_bounds(s, end_tok(tag), cs, e);
                },
            }
        },
    }
}

fn begin_vec(tag: &str) -> (v: Vec<char>)
    ensures
        v@ == begin_tok(tag@),
{
    let mut v = chars_of("\\begin{");
    let mut t = chars_of(tag);
    v.append(&mut t);
    v.push('}');
    proof {
        reveal_strlit("\\begin{");
        assert(v@ =~= begin_tok(tag@));
    }
    v
}

fn end_vec(tag: &str) -> (v: Vec<char>)
    ensures
        v@ == end_tok(tag@),
{
    let mut v = chars_of("\\end{");
    let mut t = chars_of(tag);
    v.append(&mut t);
    v.push('}');
    proof {
        reveal_strlit("\\end{");
        assert(v@ =~= end_tok(tag@));
    }
    v
}

/// All contents of the `\begin{tag}...\end{tag}` environments of `text`.
pub fn extract_all_component(text: &str, tag: &str) -> (r: Vec<String>)
    ensures
        r@.len() == tag_matches(text@, tag@, 0).len(),
        forall|i: int|
            0 <= i < r@.len() ==> r@[i]@ == tag_matches(text@, tag@, 0)[i],
{
    let s = chars_of(text);
    let slen: usize = s.len();
    let bt = begin_vec(tag);
    let et = end_vec(tag);
    let mut r: Vec<String> = Vec::new();
    let mut cur: usize = 0;
    loop
        invariant
            s@ == text@,
            s@.len() == slen as int,
            bt@ == begin_tok(tag@),
            et@ == end_tok(tag@),
            tag_matches(text@, tag@, 0) =~= r@.map_values(|t: String| t@) + tag_matches(
                text@,
                tag@,
                cur as int,
            ),
        decreases s@.len() + 1 - cur,
    {
        let ghost ms0 = tag_matches(text@, tag@, 0);
        let b = match find_from(&s, &bt, cur) {
            Some(b) => b,
            None => {
                proof {
                    assert(tag_matches(text@, tag@, cur as int) =~= Seq::<Seq<char>>::empty());
                    assert(ms0 =~= r@.map_values(|t: String| t@));
                    assert(forall|i: int|
                        0 <= i < r@.len() ==> r@.map_values(|t: String| t@)[i]
                            == #[trigger] r@[i]@);
                }
                return r;
            },
        };
        let cs: usize = b + bt.len();
        let e = match find_from(&s, &et, cs) {
            Some(e) => e,
            None => {
                proof {
                    assert(tag_matches(text@, tag@, cur as int) =~= Seq::<Seq<char>>::empty());
                    assert(ms0 =~= r@.map_values(|t: String| t@));
                    assert(forall|i: int|
                        0 <= i < r@.len() ==> r@.map_values(|t: String| t@)[i]
                            == #[trigger] r@[i]@);
                }
                return r;
            },
        };
        let content = subvec(&s, cs, e);
        let content_str = string_from_chars(&content);
        let ghost old_r = r@;
        let ghost cur0 = cur as int;
        r.push(content_str);
        cur = e + et.len();
        proof {
            assert(tag_matches(text@, tag@, cur0) == seq![s@.subrange(cs as int, e as int)]
                + tag_matches(text@, tag@, cur as int));
            assert(r@.map_values(|t: String| t@) =~= old_r.map_values(|t: String| t@).push(
                content_str@,
            ));
            assert(old_r.map_values(|t: String| t@) + (seq![s@.subrange(cs as int, e as int)]
                + tag_matches(text@, tag@, cur as int)) =~= r@.map_values(|t: String| t@)
                + tag_matches(text@, tag@, cur as int));
        }
    }
}

/// The content of the last `\begin{tag}...\end{tag}` environment of `text`.
pub fn extract_component(text: &str, tag: &str) -> (r: Option<String>)
    ensures
        ({
            let ms = tag_matches(text@, tag@, 0);
            match r {
                Some(t) => ms.len() > 0 && t@ == ms.last(),
                None => ms.len() == 0,
            }
        }),
{
    let mut all = extract_all_component(text, tag);
    let n = all.len();
    if n == 0 {
        None
    } else {
        all.pop()
    }
}

/// Named result of `serde_json::from_str::<Vec<usize>>`: whether a string is
/// a JSON array of machine-sized non-negative integers, and which integers
/// it holds, depend on the characters alone.
pub uninterp spec fn id_array_of(s: Seq<char>) -> Option<Seq<usize>>;

/// Relies on `serde_json::from_str::<Vec<usize>>`: parses a JSON array of
/// non-negative integers, failing on any other input.
#[verifier::external_body]
pub(crate) fn parse_id_array(s: &str) -> (r: Option<Vec<usize>>)
    ensures
        ({
            match r {
                Some(v) => id_array_of(s@) == Some(v@),
                None => id_array_of(s@) is None,
            }
        }),
{
    serde_json::from_str::<Vec<usize>>(s).ok()
}

} // verus!
