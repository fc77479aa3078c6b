//! Reassembly of a streamed completion: decoded chunks accumulate in a
//! pending buffer, every complete `data:` line is drained and parsed as one
//! frame, frame content is appended to the result, and decode failures are
//! retried within the stream up to a cap.

use vstd::prelude::*;
use vstd::string::StringExecFns;
use crate::text::{
    chars_of, find_from, find_spec, match_at, starts_with, starts_with_spec, string_from_chars,
    subvec, trim_chars, trim_spec,
};
use crate::extract::lemma_find_spec_bounds;
use crate::MAX_CHUNK_DECODE_RETRIES;

verus! {

/// Named result of parsing one data frame: the optional reasoning text and
/// the optional content text of the frame depend on the characters alone.
pub uninterp spec fn frame_fields_of(s: Seq<char>) -> (Option<Seq<char>>, Option<Seq<char>>);

/// Relies on `serde_json::from_str::<serde_json::Value>` and
/// `serde_json::Value::{get, as_str}`: parses one data frame and projects
/// its `choices[0].delta.reasoning_content` and `choices[0].delta.content`
/// string fields; a malformed or field-less frame yields neither field.
#[verifier::external_body]
fn frame_fields(data: &str) -> (r: (Option<String>, Option<String>))
    ensures
        (match r.0 {
            Some(t) => frame_fields_of(data@).0 == Some(t@),
            None => frame_fields_of(data@).0 is None,
        }),
        (match r.1 {
            Some(t) => frame_fields_of(data@).1 == Some(t@),
            None => frame_fields_of(data@).1 is None,
        }),
{
    match serde_json::from_str::<serde_json::Value>(data) {
        Ok(v) => {
            let delta = v.get("choices").and_then(|c| c.get(0)).and_then(|c| c.get("delta"));
            let reasoning = delta
                .and_then(|d| d.get("reasoning_content"))
                .and_then(|c| c.as_str())
                .map(|s| s.to_string());
            let content = delta
                .and_then(|d| d.get("content"))
                .and_then(|c| c.as_str())
                .map(|s| s.to_string());
            (reasoning, content)
        },
        Err(_) => (None, None),
    }
}

pub open spec fn data_prefix() -> Seq<char> {
    seq!['d', 'a', 't', 'a', ':']
}

pub open spec fn done_tok() -> Seq<char> {
    seq!['[', 'D', 'O', 'N', 'E', ']']
}

/// What stripping every leading `data:` marker leaves.
pub open spec fn strip_data_prefix(l: Seq<char>) -> Seq<char>
    decreases l.len(),
{
    if starts_with_spec(l, data_prefix()) {
        strip_data_prefix(l.subrange(5, l.len() as int))
    } else {
        l
    }
}

/// What stripping every trailing carriage return leaves.
pub open spec fn strip_trailing_cr(l: Seq<char>) -> Seq<char>
    decreases l.len(),
{
    if l.len() > 0 && l.last() == '\r' {
        strip_trailing_cr(l.drop_last())
    } else {
        l
    }
}

/// The effect of one complete line (without its newline): the content it
/// contributes to the result, and the texts echoed, reasoning before
/// content. A line that is no data frame, and the end sentinel, contribute
/// nothing.
pub open spec fn line_effect(line: Seq<char>) -> (Seq<char>, Seq<Seq<char>>) {
    let l = strip_trailing_cr(line);
    if starts_with_spec(l, data_prefix()) {
        let d = trim_spec(strip_data_prefix(l));
        if d == done_tok() {
            (Seq::empty(), Seq::empty())
        } else {
            let f = frame_fields_of(d);
            let reasoning_out: Seq<Seq<char>> = match f.0 {
                Some(t) => seq![t],
                None => Seq::empty(),
            };
            let content_out: Seq<Seq<char>> = match f.1 {
                Some(t) => seq![t],
                None => Seq::empty(),
            };
            let add: Seq<char> = match f.1 {
                Some(t) => t,
                None => Seq::empty(),
            };
            (add, reasoning_out + content_out)
        }
    } else {
        (Seq::empty(), Seq::empty())
    }
}

/// Drains every complete line of `buf`: the remaining partial line, the
/// content contributed, and the echoes, in order.
pub open spec fn drain_spec(buf: Seq<char>) -> (Seq<char>, Seq<char>, Seq<Seq<char>>)
    decreases buf.len(),
    via drain_spec_dec
{
    match find_spec(buf, seq!['\n'], 0) {
        None => (buf, Seq::empty(), Seq::empty()),
        Some(i) => {
            let e = line_effect(buf.subrange(0, i));
            let rest = drain_spec(buf.subrange(i + 1, buf.len() as int));
            (rest.0, e.0 + rest.1, e.1 + rest.2)
        },
    }
}

#[via_fn]
proof fn drain_spec_dec(buf: Seq<char>) {
    match find_spec(buf, seq!['\n'], 0) {
        None => {},
        Some(i) => {
            lemma_find_spec_bounds(buf, seq!['\n'], 0, i);
        },
    }
}

proof fn lemma_find_prefix(s: Seq<char>, t: Seq<char>, needle: Seq<char>, from: int, i: int)
    requires
        0 <= from,
        find_spec(s, needle, from) == Some(i),
    ensures
        find_spec(s + t, needle, from) == Some(i),
    decreases s.len() - from + 1,
{
    lemma_find_spec_bounds(s, needle, from, i);
    assert(from + needle.len() <= s.len());
    assert(s.subrange(from, from + needle.len() as int) =~= (s + t).subrange(
        from,
        from + needle.len() as int,
    ));
    if crate::text::occurs_at(s, needle, from) {
        assert(crate::text::occurs_at(s + t, needle, from));
        assert(find_spec(s + t, needle, from) == Some(from));
    } else {
        lemma_find_prefix(s, t, needle, from + 1, i);
        assert(find_spec(s + t, needle, from) == find_spec(s + t, needle, from + 1));
    }
}

/// Chunk boundaries do not matter: feeding a text in two pieces drains the
/// same lines, content and echoes as feeding it in one piece.
pub proof fn lemma_drain_split(s: Seq<char>, t: Seq<char>)
    ensures
        ({
            let first = drain_spec(s);
            let second = drain_spec(first.0 + t);
            drain_spec(s + t) == (second.0, first.1 + second.1, first.2 + second.2)
        }),
    decreases s.len(),
{
    let nl = seq!['\n'];
    let first = drain_spec(s);
    match find_spec(s, nl, 0) {
        None => {
            assert(first.0 == s && first.1 =~= Seq::<char>::empty() && first.2 =~= Seq::<
                Seq<char>,
            >::empty());
            let second = drain_spec(s + t);
            assert(first.1 + second.1 =~= second.1);
            assert(first.2 + second.2 =~= second.2);
        },
        Some(i) => {
            lemma_find_spec_bounds(s, nl, 0, i);
            lemma_find_prefix(s, t, nl, 0, i);
            assert((s + t).subrange(0, i) =~= s.subrange(0, i));
            let rest_s = s.subrange(i + 1, s.len() as int);
            assert((s + t).subrange(i + 1, (s + t).len() as int) =~= rest_s + t);
            lemma_drain_split(rest_s, t);
            let e = line_effect(s.subrange(0, i));
            let fr = drain_spec(rest_s);
            let second = drain_spec(fr.0 + t);
            assert(first == (fr.0, e.0 + fr.1, e.1 + fr.2));
            assert(drain_spec(rest_s + t) == (second.0, fr.1 + second.1, fr.2 + second.2));
            assert(drain_spec(s + t) == (
                second.0,
                e.0 + (fr.1 + second.1),
                e.1 + (fr.2 + second.2),
            ));
            assert(e.0 + (fr.1 + second.1) =~= (e.0 + fr.1) + second.1);
            assert(e.1 + (fr.2 + second.2) =~= (e.1 + fr.2) + second.2);
        },
    }
}

proof fn lemma_strip_cr_at(s: Seq<char>, b: int)
    requires
        0 <= b <= s.len(),
        forall|k: int| b <= k < s.len() ==> s[k] == '\r',
        b > 0 ==> s[b - 1] != '\r',
    ensures
        strip_trailing_cr(s) == s.subrange(0, b),
    decreases s.len(),
{
    if b == s.len() {
        if s.len() > 0 {
            assert(s.subrange(0, s.len() as int) =~= s);
        } else {
            assert(s.subrange(0, 0) =~= s);
        }
    } else {
        lemma_strip_cr_at(s.drop_last(), b);
        assert(s.drop_last().subrange(0, b) =~= s.subrange(0, b));
    }
}

fn data_prefix_vec() -> (v: Vec<char>)
    ensures
        v@ == data_prefix(),
{
    let v = chars_of("data:");
    proof {
        reveal_strlit("data:");
        assert(v@ =~= data_prefix());
    }
    v
}

/// Processes one complete line body (without its newline): the content to
/// append and the texts to echo.
fn process_line(body: &Vec<char>) -> (r: (String, Vec<String>))
    ensures
        ({
            let e = line_effect(body@);
            r.0@ == e.0 && r.1@.len() == e.1.len() && (forall|k: int|
                0 <= k < e.1.len() ==> #[trigger] r.1@[k]@ == e.1[k])
        }),
{
    let mut b: usize = body.len();
    while b > 0 && body[b - 1] == '\r'
        invariant
            b <= body@.len(),
            forall|k: int| b <= k < body@.len() ==> body@[k] == '\r',
        decreases b,
    {
        b -= 1;
    }
    proof {
        lemma_strip_cr_at(body@, b as int);
    }
    let l = subvec(body, 0, b);
    let dp = data_prefix_vec();
    if !starts_with(&l, &dp) {
        let outs: Vec<String> = Vec::new();
        return (String::new(), outs);
    }
    let mut cur = l;
    while starts_with(&cur, &dp)
        invariant
            dp@ == data_prefix(),
            strip_data_prefix(cur@) == strip_data_prefix(strip_trailing_cr(body@)),
        decreases cur@.len(),
    {
        let n = cur.len();
        cur = subvec(&cur, 5, n);
    }
    let d = trim_chars(&cur);
    let done = chars_of("[DONE]");
    proof {
        reveal_strlit("[DONE]");
        assert(done@ =~= done_tok());
    }
    let is_done = d.len() == done.len() && match_at(&d, &done, 0);
    proof {
        if is_done {
            assert(d@.subrange(0, d@.len() as int) =~= d@);
        } else {
            if d@ == done_tok() {
                assert(crate::text::occurs_at(d@, done@, 0)) by {
                    assert(d@.subrange(0, done@.len() as int) =~= done@);
                }
            }
        }
    }
    if is_done {
        let outs: Vec<String> = Vec::new();
        return (String::new(), outs);
    }
    let ds = string_from_chars(&d);
    let fields = frame_fields(ds.as_str());
    let (reasoning_f, content_f) = fields;
    let mut outs: Vec<String> = Vec::new();
    match reasoning_f {
        Some(t) => {
            outs.push(t);
        },
        None => {},
    }
    let content: String = match content_f {
        Some(t) => {
            outs.push(t.clone());
            t
        },
        None => String::new(),
    };
    (content, outs)
}

/// The reassembly state of one open stream: the partial line carried
/// across chunk boundaries, the content accumulated so far, and the decode
/// retries spent.
pub struct StreamAssembler {
    pub pending: Vec<char>,
    pub content: String,
    pub decode_retries: u8,
}

impl StreamAssembler {
    pub fn new() -> (r: Self)
        ensures
            r.pending@ == Seq::<char>::empty(),
            r.content@ == Seq::<char>::empty(),
            r.decode_retries == 0,
    {
        StreamAssembler { pending: Vec::new(), content: String::new(), decode_retries: 0 }
    }

    /// Absorbs one decoded chunk: drains every line the chunk completes,
    /// appends their content to the result, and keeps the unfinished tail
    /// for the next chunk. Returns the texts to echo, in order.
    pub fn feed(&mut self, chunk: &str) -> (outs: Vec<String>)
        ensures
            ({
                let d = drain_spec(old(self).pending@ + chunk@);
                &&& final(self).pending@ == d.0
                &&& final(self).content@ == old(self).content@ + d.1
                &&& final(self).decode_retries == old(self).decode_retries
                &&& outs@.len() == d.2.len()
                &&& (forall|k: int| 0 <= k < d.2.len() ==> #[trigger] outs@[k]@ == d.2[k])
            }),
    {
        let mut cs = chars_of(chunk);
        self.pending.append(&mut cs);
        let ghost full = self.pending@;
        let ghost c0 = self.content@;
        let nlv = chars_of("\n");
        proof {
            reveal_strlit("\n");
            assert(nlv@ =~= seq!['\n']);
        }
        let mut outs: Vec<String> = Vec::new();
        loop
            invariant
                nlv@ == seq!['\n'],
                self.decode_retries == old(self).decode_retries,
                drain_spec(self.pending@).0 == drain_spec(full).0,
                c0 + drain_spec(full).1 =~= self.content@ + drain_spec(self.pending@).1,
                outs@.len() + drain_spec(self.pending@).2.len() == drain_spec(full).2.len(),
                forall|k: int|
                    0 <= k < drain_spec(full).2.len() ==> #[trigger] drain_spec(full).2[k] == (
                    if k < outs@.len() {
                        outs@[k]@
                    } else {
                        drain_spec(self.pending@).2[k - outs@.len()]
                    }),
            ensures
                self.decode_retries == old(self).decode_retries,
                self.pending@ == drain_spec(full).0,
                self.content@ =~= c0 + drain_spec(full).1,
                outs@.len() == drain_spec(full).2.len(),
                forall|k: int|
                    0 <= k < drain_spec(full).2.len() ==> #[trigger] drain_spec(full).2[k]
                        == outs@[k]@,
            decreases self.pending@.len(),
        {
            let i = match find_from(&self.pending, &nlv, 0) {
                Some(i) => i,
                None => {
                    proof {
                        assert(drain_spec(self.pending@).0 == self.pending@);
                        assert(self.content@ =~= c0 + drain_spec(full).1);
                    }
                    break ;
                },
            };
            let ghost pen = self.pending@;
            let body = subvec(&self.pending, 0, i);
            let (add, mut line_outs) = process_line(&body);
            let ghost cbefore = self.content@;
            self.content.append(add.as_str());
            let ghost outs_before = outs@;
            outs.append(&mut line_outs);
            let n = self.pending.len();
            let tail = subvec(&self.pending, i + 1, n);
            self.pending = tail;
            proof {
                let e = line_effect(pen.subrange(0, i as int));
                let rest = drain_spec(pen.subrange(i + 1, pen.len() as int));
                assert(drain_spec(pen) == (rest.0, e.0 + rest.1, e.1 + rest.2));
                assert(self.pending@ == pen.subrange(i + 1, pen.len() as int));
                assert(cbefore + (e.0 + rest.1) =~= (cbefore + e.0) + rest.1);
                assert(c0 + drain_spec(full).1 =~= self.content@ + drain_spec(
                    self.pending@,
                ).1);
                assert forall|k: int|
                    0 <= k < drain_spec(full).2.len() implies #[trigger] drain_spec(
                    full,
                ).2[k] == (
                if k < outs@.len() {
                    outs@[k]@
                } else {
                    drain_spec(self.pending@).2[k - outs@.len()]
                }) by {
                    if k < outs_before.len() {
                        assert(outs@[k] == outs_before[k]);
                    } else if k < outs@.len() {
                        let j = k - outs_before.len();
                        assert((e.1 + rest.2)[j] == e.1[j]);
                        assert(outs@[k]@ == e.1[j]);
                    } else {
                        assert((e.1 + rest.2)[k - outs_before.len()] == rest.2[k - outs@.len()]);
                    }
                }
            }
        }
        outs
    }

    /// Registers one failed chunk decode. Returns whether the call must be
    /// aborted: true once the in-stream retry cap is exceeded.
    pub fn on_decode_error(&mut self) -> (abort: bool)
        ensures
            final(self).pending == old(self).pending,
            final(self).content == old(self).content,
            final(self).decode_retries == (if old(self).decode_retries
                <= MAX_CHUNK_DECODE_RETRIES {
                old(self).decode_retries + 1
            } else {
                old(self).decode_retries as int
            }),
            abort == (final(self).decode_retries > MAX_CHUNK_DECODE_RETRIES),
    {
        if self.decode_retries <= MAX_CHUNK_DECODE_RETRIES {
            self.decode_retries = self.decode_retries + 1;
        }
        self.decode_retries > MAX_CHUNK_DECODE_RETRIES
    }

    /// Ends the stream. Whatever sits in the pending buffer is an
    /// incomplete final line; it is dropped, not an error, and the
    /// accumulated content is the result.
    pub fn finish(self) -> (r: String)
        ensures
            r@ == self.content@,
    {
        self.content
    }
}

} // verus!
