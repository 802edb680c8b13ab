//! Timestamp-grouped caption synthesis: tokens with per-token offsets are
//! greedily grouped into captions. A token opens a new word when it begins
//! with a space (or is the very first token); a caption closes when it has
//! at least eight words and the current token ends a sentence, when it
//! reaches twelve words, or at the last token. A caption spans from its
//! first token's offset to the next caption's first offset; the final
//! caption gets a small fixed buffer past its last token.

use vstd::prelude::*;
use crate::captions::{Caption, is_space_char, spec_trim, spec_trim_end, spec_trim_start, trim_chars};
use crate::text::{chars_to_string, push_chars, str_to_chars};

verus! {

/// The buffer added past the last token's offset, in milliseconds.
pub const FINAL_TOKEN_BUFFER_MS: u64 = 500;

/// Whether token `i` begins a new word: the very first token does, and so
/// does any token that starts with a space.
pub open spec fn spec_is_word_start(tokens: Seq<Seq<char>>, i: int) -> bool {
    i == 0 || (tokens[i].len() > 0 && tokens[i][0] == ' ')
}

/// Whether a token closes a sentence: it ends with `.`, `!` or `?`.
pub open spec fn spec_is_sentence_end(t: Seq<char>) -> bool {
    t.len() > 0 && (t.last() == '.' || t.last() == '!' || t.last() == '?')
}

/// One produced group, remembered with the token range it covers and the
/// number of words counted into it.
pub struct GroupRecord {
    pub first: int,
    pub last: int,
    pub words: nat,
    pub start_ms: nat,
    pub end_ms: nat,
    pub text: Seq<char>,
}

/// The caption start for a group whose first token is `first`.
pub open spec fn spec_group_start(ts: Seq<nat>, first: int) -> nat {
    if 0 <= first < ts.len() {
        ts[first]
    } else {
        0
    }
}

/// The caption end for a group whose last token is `i`: the next token's
/// offset, or past the end a buffer after the last covered offset.
pub open spec fn spec_group_end(ts: Seq<nat>, i: int, start: nat) -> nat {
    if i + 1 < ts.len() {
        ts[i + 1]
    } else if 0 <= i < ts.len() {
        ts[i] + 500
    } else {
        start + 500
    }
}

/// The groups produced from position `i` on, with `seg` the text and `wc`
/// the word count accumulated since the group opened at `seg_start`.
pub open spec fn spec_groups_from(
    tokens: Seq<Seq<char>>,
    ts: Seq<nat>,
    i: int,
    seg_start: int,
    seg: Seq<char>,
    wc: nat,
) -> Seq<GroupRecord>
    decreases tokens.len() - i,
{
    if i < 0 || i >= tokens.len() {
        seq![]
    } else {
        let seg2 = seg + tokens[i];
        let wc2 = wc + (if spec_is_word_start(tokens, i) {
            1nat
        } else {
            0nat
        });
        let brk = (wc2 >= 8 && spec_is_sentence_end(tokens[i])) || wc2 >= 12 || i == tokens.len()
            - 1;
        if brk && spec_trim(seg2).len() > 0 {
            let start = spec_group_start(ts, seg_start);
            let end = spec_group_end(ts, i, start);
            seq![
                GroupRecord {
                    first: seg_start,
                    last: i,
                    words: wc2,
                    start_ms: start,
                    end_ms: end,
                    text: spec_trim(seg2),
                },
            ] + spec_groups_from(tokens, ts, i + 1, i + 1, seq![], 0)
        } else {
            spec_groups_from(tokens, ts, i + 1, seg_start, seg2, wc2)
        }
    }
}

pub open spec fn spec_groups(tokens: Seq<Seq<char>>, ts: Seq<nat>) -> Seq<GroupRecord> {
    spec_groups_from(tokens, ts, 0, 0, seq![], 0)
}

/// Groups tokens with offsets into captions, greedily. Without any offsets
/// there is no timing to place a caption on, so nothing is produced.
pub fn captions_from_tokens(tokens: &Vec<String>, offsets_ms: &Vec<u64>) -> (r: Vec<Caption>)
    requires
        forall|i: int|
            0 <= i < offsets_ms@.len() ==> (#[trigger] offsets_ms@[i]) <= u64::MAX - 500,
    ensures
        offsets_ms@.len() == 0 ==> r@.len() == 0,
        offsets_ms@.len() > 0 ==> ({
            let groups = spec_groups(
                tokens@.map_values(|t: String| t@),
                offsets_ms@.map_values(|o: u64| o as nat),
            );
            &&& r@.len() == groups.len()
            &&& forall|i: int|
                0 <= i < r@.len() ==> (#[trigger] r@[i])@ == (
                    groups[i].start_ms,
                    groups[i].end_ms,
                    groups[i].text,
                )
        }),
{
    if offsets_ms.len() == 0 {
        let r: Vec<Caption> = Vec::new();
        return r;
    }
    let ghost tok_views = tokens@.map_values(|t: String| t@);
    let ghost off_views = offsets_ms@.map_values(|o: u64| o as nat);
    let mut r: Vec<Caption> = Vec::new();
    let ghost mut done: Seq<GroupRecord> = Seq::empty();
    let mut seg: Vec<char> = Vec::new();
    let mut seg_start: usize = 0;
    let mut wc: u64 = 0;
    let n = tokens.len();
    for i in 0..n
        invariant
            n == tokens@.len(),
            tok_views == tokens@.map_values(|t: String| t@),
            off_views == offsets_ms@.map_values(|o: u64| o as nat),
            forall|k: int|
                0 <= k < offsets_ms@.len() ==> (#[trigger] offsets_ms@[k]) <= u64::MAX - 500,
            seg_start <= i,
            wc <= i,
            spec_groups(tok_views, off_views) =~= done + spec_groups_from(
                tok_views,
                off_views,
                i as int,
                seg_start as int,
                seg@,
                wc as nat,
            ),
            r@.len() == done.len(),
            forall|k: int|
                0 <= k < r@.len() ==> (#[trigger] r@[k])@ == (
                    done[k].start_ms,
                    done[k].end_ms,
                    done[k].text,
                ),
    {
        let tok_chars = str_to_chars(tokens[i].as_str());
        let is_start = i == 0 || (tok_chars.len() > 0 && tok_chars[0] == ' ');
        let is_end = if tok_chars.len() > 0 {
            let c = tok_chars[tok_chars.len() - 1];
            c == '.' || c == '!' || c == '?'
        } else {
            false
        };
        let mut seg2 = seg;
        let ghost seg_before = seg2@;
        let ghost wc_before = wc as nat;
        push_chars(tokens[i].as_str(), &mut seg2);
        let wc2: u64 = wc + if is_start {
            1
        } else {
            0
        };
        let brk = (wc2 >= 8 && is_end) || wc2 >= 12 || i == n - 1;
        let trimmed = trim_chars(&seg2);
        proof {
            assert(tok_views[i as int] == tokens@[i as int]@);
            assert(seg2@ == seg_before + tok_views[i as int]);
            assert(spec_is_word_start(tok_views, i as int) == is_start);
            assert(spec_is_sentence_end(tok_views[i as int]) == is_end);
        }
        if brk && trimmed.len() > 0 {
            let start: u64 = if seg_start < offsets_ms.len() {
                offsets_ms[seg_start]
            } else {
                0
            };
            let end: u64 = if i + 1 < offsets_ms.len() {
                offsets_ms[i + 1]
            } else if i < offsets_ms.len() {
                offsets_ms[i] + FINAL_TOKEN_BUFFER_MS
            } else {
                start + FINAL_TOKEN_BUFFER_MS
            };
            let ghost record = GroupRecord {
                first: seg_start as int,
                last: i as int,
                words: (wc_before + (if spec_is_word_start(tok_views, i as int) {
                    1int
                } else {
                    0int
                })) as nat,
                start_ms: start as nat,
                end_ms: end as nat,
                text: spec_trim(seg2@),
            };
            r.push(Caption { start_ms: start, end_ms: end, text: chars_to_string(&trimmed) });
            proof {
                assert(start as nat == spec_group_start(off_views, seg_start as int));
                assert(end as nat == spec_group_end(
                    off_views,
                    i as int,
                    spec_group_start(off_views, seg_start as int),
                ));
                let rest = spec_groups_from(
                    tok_views,
                    off_views,
                    i as int,
                    seg_start as int,
                    seg_before,
                    wc_before,
                );
                assert(rest =~= seq![record] + spec_groups_from(
                    tok_views,
                    off_views,
                    i + 1,
                    i + 1,
                    seq![],
                    0,
                ));
                done = done.push(record);
                assert(done + spec_groups_from(tok_views, off_views, i + 1, i + 1, seq![], 0)
                    =~= spec_groups(tok_views, off_views));
            }
            seg = Vec::new();
            seg_start = i + 1;
            wc = 0;
        } else {
            seg = seg2;
            wc = wc2;
        }
    }
    proof {
        assert(spec_groups_from(
            tok_views,
            off_views,
            n as int,
            seg_start as int,
            seg@,
            wc as nat,
        ) =~= Seq::<GroupRecord>::empty());
        assert(spec_groups(tok_views, off_views) =~= done);
    }
    r
}


/// A sequence of only spaces trims away to nothing.
proof fn lemma_all_space_trims_empty(s: Seq<char>)
    requires
        forall|i: int| 0 <= i < s.len() ==> is_space_char(#[trigger] s[i]),
    ensures
        spec_trim_start(s).len() == 0,
    decreases s.len(),
{
    if s.len() > 0 {
        assert(forall|i: int|
            0 <= i < s.drop_first().len() ==> is_space_char(#[trigger] s.drop_first()[i]));
        lemma_all_space_trims_empty(s.drop_first());
    }
}

/// A sequence holding some non-space character keeps one after trimming the
/// end.
proof fn lemma_trim_end_keeps_nonspace(s: Seq<char>)
    requires
        exists|i: int| 0 <= i < s.len() && !is_space_char(#[trigger] s[i]),
    ensures
        spec_trim_end(s).len() > 0,
    decreases s.len(),
{
    let w = choose|i: int| 0 <= i < s.len() && !is_space_char(#[trigger] s[i]);
    if is_space_char(s.last()) {
        assert(w < s.len() - 1);
        assert(!is_space_char(s.drop_last()[w]));
        lemma_trim_end_keeps_nonspace(s.drop_last());
    }
}

/// Trimming the start of `a + b` either keeps all of `b`, or reduces to
/// trimming the start of `b`.
proof fn lemma_trim_start_concat(a: Seq<char>, b: Seq<char>)
    ensures
        spec_trim_start(a + b) == spec_trim_start(a) + b || spec_trim_start(a + b)
            == spec_trim_start(b),
    decreases a.len(),
{
    if a.len() == 0 {
        assert(a + b =~= b);
        assert(spec_trim_start(a) + b =~= b);
        if b.len() > 0 && is_space_char(b[0]) {
        } else {
            assert(spec_trim_start(b) == b);
        }
        assert(spec_trim_start(a + b) == spec_trim_start(a) + b || spec_trim_start(a + b)
            == spec_trim_start(b));
    } else if is_space_char(a[0]) {
        assert((a + b)[0] == a[0]);
        assert((a + b).drop_first() =~= a.drop_first() + b);
        lemma_trim_start_concat(a.drop_first(), b);
    } else {
        assert((a + b)[0] == a[0]);
    }
}

/// If the tail `b` survives trimming on its own, the whole of `a + b` does
/// too.
proof fn lemma_trim_concat_nonempty(a: Seq<char>, b: Seq<char>)
    requires
        spec_trim(b).len() > 0,
    ensures
        spec_trim(a + b).len() > 0,
{
    if forall|i: int| 0 <= i < b.len() ==> is_space_char(#[trigger] b[i]) {
        lemma_all_space_trims_empty(b);
        assert(spec_trim(b).len() == 0);
    }
    let w = choose|i: int| 0 <= i < b.len() && !is_space_char(#[trigger] b[i]);
    lemma_trim_start_concat(a, b);
    if spec_trim_start(a + b) == spec_trim_start(a) + b {
        let x = spec_trim_start(a) + b;
        assert(!is_space_char(x[spec_trim_start(a).len() + w]));
        lemma_trim_end_keeps_nonspace(x);
    } else {
        assert(spec_trim_start(a + b) == spec_trim_start(b));
        assert(spec_trim(a + b) == spec_trim(b));
    }
}

/// Law: when every token opens a word and none is blank — the shape engine
/// tokenizations take — every produced caption holds between one and twelve
/// words, and each caption closes either on a sentence terminator (with at
/// least eight words), at the twelve-word cap, or at the end of the input.
pub proof fn lemma_groups_word_bounds(tokens: Seq<Seq<char>>, ts: Seq<nat>)
    requires
        forall|i: int| 0 <= i < tokens.len() ==> spec_is_word_start(tokens, i),
        forall|i: int| 0 <= i < tokens.len() ==> spec_trim(#[trigger] tokens[i]).len() > 0,
    ensures
        forall|g: int|
            0 <= g < spec_groups(tokens, ts).len() ==> {
                let gr = #[trigger] spec_groups(tokens, ts)[g];
                &&& 1 <= gr.words <= 12
                &&& ((gr.words >= 8 && spec_is_sentence_end(tokens[gr.last])) || gr.words == 12
                    || gr.last == tokens.len() - 1)
            },
{
    lemma_groups_from_bounds(tokens, ts, 0, 0, seq![], 0);
}

proof fn lemma_groups_from_bounds(
    tokens: Seq<Seq<char>>,
    ts: Seq<nat>,
    i: int,
    seg_start: int,
    seg: Seq<char>,
    wc: nat,
)
    requires
        forall|k: int| 0 <= k < tokens.len() ==> spec_is_word_start(tokens, k),
        forall|k: int| 0 <= k < tokens.len() ==> spec_trim(#[trigger] tokens[k]).len() > 0,
        0 <= i,
        wc <= 11,
    ensures
        forall|g: int|
            0 <= g < spec_groups_from(tokens, ts, i, seg_start, seg, wc).len() ==> {
                let gr = #[trigger] spec_groups_from(tokens, ts, i, seg_start, seg, wc)[g];
                &&& 1 <= gr.words <= 12
                &&& ((gr.words >= 8 && spec_is_sentence_end(tokens[gr.last])) || gr.words == 12
                    || gr.last == tokens.len() - 1)
            },
    decreases tokens.len() - i,
{
    if i < tokens.len() {
        let seg2 = seg + tokens[i];
        let wc2 = wc + (if spec_is_word_start(tokens, i) {
            1nat
        } else {
            0nat
        });
        assert(spec_is_word_start(tokens, i));
        assert(wc2 == wc + 1);
        let brk = (wc2 >= 8 && spec_is_sentence_end(tokens[i])) || wc2 >= 12 || i == tokens.len()
            - 1;
        lemma_trim_concat_nonempty(seg, tokens[i]);
        let out = spec_groups_from(tokens, ts, i, seg_start, seg, wc);
        if brk {
            lemma_groups_from_bounds(tokens, ts, i + 1, i + 1, seq![], 0);
            let rest = spec_groups_from(tokens, ts, i + 1, i + 1, seq![], 0);
            assert(out[0].words == wc2);
            assert forall|g: int| 0 <= g < out.len() implies {
                let gr = #[trigger] out[g];
                &&& 1 <= gr.words <= 12
                &&& ((gr.words >= 8 && spec_is_sentence_end(tokens[gr.last])) || gr.words == 12
                    || gr.last == tokens.len() - 1)
            } by {
                if g > 0 {
                    assert(out[g] == rest[g - 1]);
                }
            }
        } else {
            assert(wc2 <= 11);
            lemma_groups_from_bounds(tokens, ts, i + 1, seg_start, seg2, wc2);
            let rest = spec_groups_from(tokens, ts, i + 1, seg_start, seg2, wc2);
            assert forall|g: int| 0 <= g < out.len() implies {
                let gr = #[trigger] out[g];
                &&& 1 <= gr.words <= 12
                &&& ((gr.words >= 8 && spec_is_sentence_end(tokens[gr.last])) || gr.words == 12
                    || gr.last == tokens.len() - 1)
            } by {
                assert(out[g] == rest[g]);
            }
        }
    }
}

} // verus!

