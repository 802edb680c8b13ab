//! Caption synthesis from recognized text.
//!
//! When an engine returns plain text with no timing, the text is split on
//! sentence terminators and the track duration is divided evenly over the
//! sentences, in order; word timing is never recovered. Each caption is a
//! `(start, end, text)` record, rendered at the end into the numbered
//! `start --> end` blocks of an SRT track.

use vstd::prelude::*;
use crate::srt_time::{format_srt_time, spec_srt_time};
use crate::text::{chars_to_string, push_char_vec, push_digits, spec_digits, str_to_chars};

verus! {

/// One subtitle cue: a time span in milliseconds and its text.
pub struct Caption {
    pub start_ms: u64,
    pub end_ms: u64,
    pub text: String,
}

impl View for Caption {
    type V = (nat, nat, Seq<char>);

    open spec fn view(&self) -> (nat, nat, Seq<char>) {
        (self.start_ms as nat, self.end_ms as nat, self.text@)
    }
}

pub open spec fn is_space_char(c: char) -> bool {
    c == ' ' || c == '\t' || c == '\n' || c == '\r'
}

pub open spec fn is_terminator_char(c: char) -> bool {
    c == '.' || c == '!' || c == '?'
}

pub open spec fn spec_trim_start(s: Seq<char>) -> Seq<char>
    decreases s.len(),
{
    if s.len() > 0 && is_space_char(s[0]) {
        spec_trim_start(s.drop_first())
    } else {
        s
    }
}

pub open spec fn spec_trim_end(s: Seq<char>) -> Seq<char>
    decreases s.len(),
{
    if s.len() > 0 && is_space_char(s.last()) {
        spec_trim_end(s.drop_last())
    } else {
        s
    }
}

/// `s` without leading and trailing whitespace.
pub open spec fn spec_trim(s: Seq<char>) -> Seq<char> {
    spec_trim_end(spec_trim_start(s))
}

/// Removes leading and trailing whitespace.
pub fn trim_chars(v: &Vec<char>) -> (r: Vec<char>)
    ensures
        r@ == spec_trim(v@),
{
    let mut start: usize = 0;
    proof {
        assert(v@.skip(0) =~= v@);
    }
    while start < v.len() && is_space(v[start])
        invariant
            start <= v@.len(),
            spec_trim_start(v@) == spec_trim_start(v@.skip(start as int)),
        decreases v@.len() - start,
    {
        proof {
            assert(v@.skip(start as int)[0] == v@[start as int]);
            assert(v@.skip(start as int).drop_first() =~= v@.skip(start + 1));
        }
        start = start + 1;
    }
    proof {
        assert(v@.skip(0) =~= v@);
        if start < v@.len() {
            assert(v@.skip(start as int)[0] == v@[start as int]);
        }
        assert(spec_trim_start(v@) == v@.skip(start as int));
    }
    let mut end: usize = v.len();
    while end > start && is_space(v[end - 1])
        invariant
            start <= end <= v@.len(),
            spec_trim_start(v@) == v@.skip(start as int),
            spec_trim_end(v@.skip(start as int)) == spec_trim_end(
                v@.subrange(start as int, end as int),
            ),
        decreases end,
    {
        proof {
            let cur = v@.subrange(start as int, end as int);
            assert(cur.last() == v@[end - 1]);
            assert(cur.drop_last() =~= v@.subrange(start as int, end - 1));
        }
        end = end - 1;
    }
    proof {
        assert(v@.skip(start as int) =~= v@.subrange(start as int, v@.len() as int));
        let cur = v@.subrange(start as int, end as int);
        if end > start {
            assert(cur.last() == v@[end - 1]);
        }
        assert(spec_trim_end(cur) == cur);
    }
    let mut r: Vec<char> = Vec::new();
    let mut i: usize = start;
    while i < end
        invariant
            start <= i <= end <= v@.len(),
            r@ == v@.subrange(start as int, i as int),
        decreases end - i,
    {
        r.push(v[i]);
        proof {
            assert(v@.subrange(start as int, i as int).push(v@[i as int]) =~= v@.subrange(
                start as int,
                i + 1,
            ));
        }
        i = i + 1;
    }
    r
}

fn is_space(c: char) -> (r: bool)
    ensures
        r == is_space_char(c),
{
    c == ' ' || c == '\t' || c == '\n' || c == '\r'
}

fn is_terminator(c: char) -> (r: bool)
    ensures
        r == is_terminator_char(c),
{
    c == '.' || c == '!' || c == '?'
}

/// The sentences of `s`, scanned from position `i` with `cur` the piece
/// accumulated so far: pieces between sentence terminators, trimmed, with
/// blank pieces dropped.
pub open spec fn spec_sentences_from(s: Seq<char>, i: int, cur: Seq<char>) -> Seq<Seq<char>>
    decreases s.len() - i,
{
    if i < 0 || i >= s.len() {
        if spec_trim(cur).len() > 0 {
            seq![spec_trim(cur)]
        } else {
            seq![]
        }
    } else if is_terminator_char(s[i]) {
        if spec_trim(cur).len() > 0 {
            seq![spec_trim(cur)] + spec_sentences_from(s, i + 1, seq![])
        } else {
            spec_sentences_from(s, i + 1, seq![])
        }
    } else {
        spec_sentences_from(s, i + 1, cur.push(s[i]))
    }
}

pub open spec fn spec_sentences(s: Seq<char>) -> Seq<Seq<char>> {
    spec_sentences_from(s, 0, seq![])
}

/// Splits `v` on `.`, `!` and `?`, trimming each piece and dropping blanks.
pub fn split_sentences(v: &Vec<char>) -> (r: Vec<Vec<char>>)
    ensures
        r@.map_values(|p: Vec<char>| p@) == spec_sentences(v@),
{
    let mut r: Vec<Vec<char>> = Vec::new();
    let mut cur: Vec<char> = Vec::new();
    let n = v.len();
    for i in 0..n
        invariant
            n == v@.len(),
            spec_sentences(v@) == r@.map_values(|p: Vec<char>| p@) + spec_sentences_from(
                v@,
                i as int,
                cur@,
            ),
    {
        let ghost prev = r@.map_values(|p: Vec<char>| p@);
        if is_terminator(v[i]) {
            let piece = trim_chars(&cur);
            if piece.len() > 0 {
                r.push(piece);
                proof {
                    assert(r@.map_values(|p: Vec<char>| p@) =~= prev + seq![spec_trim(cur@)]);
                }
            }
            cur = Vec::new();
        } else {
            cur.push(v[i]);
        }
    }
    let piece = trim_chars(&cur);
    let ghost prev = r@.map_values(|p: Vec<char>| p@);
    if piece.len() > 0 {
        r.push(piece);
        proof {
            assert(r@.map_values(|p: Vec<char>| p@) =~= prev + seq![spec_trim(cur@)]);
        }
    }
    proof {
        assert(r@.map_values(|p: Vec<char>| p@) =~= spec_sentences(v@));
    }
    r
}

/// The caption records that duration-proportional splitting produces for
/// `text` over `d` milliseconds: nothing for blank text, one caption over the
/// whole span when no sentence is found, else one caption per sentence with
/// an equal share of the duration, in order, re-terminated with a period.
pub open spec fn spec_proportional_captions(text: Seq<char>, d: nat) -> Seq<(nat, nat, Seq<char>)> {
    let tr = spec_trim(text);
    let ss = spec_sentences(tr);
    if tr.len() == 0 {
        seq![]
    } else if ss.len() == 0 {
        seq![(0 as nat, d, tr)]
    } else {
        Seq::new(
            ss.len(),
            |i: int|
                (
                    ((i * d as int) / (ss.len() as int)) as nat,
                    (((i + 1) * d as int) / (ss.len() as int)) as nat,
                    ss[i] + seq!['.'],
                ),
        )
    }
}

/// `i`'s share boundary `i*d/n` never exceeds `d`, and the product stays
/// well inside the wide intermediate type.
pub proof fn lemma_share_bounds(i: int, d: int, n: int)
    requires
        0 <= i <= n,
        1 <= n <= u64::MAX,
        0 <= d <= u64::MAX,
    ensures
        0 <= i * d <= n * d,
        i * d / n <= d,
        n * d < u128::MAX,
{
    assert(0 <= i * d <= n * d) by (nonlinear_arith)
        requires
            0 <= i <= n,
            0 <= d,
    ;
    assert(i * d / n <= d) by (nonlinear_arith)
        requires
            i * d <= n * d,
            n >= 1,
            0 <= i * d,
    ;
    assert(n * d < u128::MAX) by (nonlinear_arith)
        requires
            0 <= n <= u64::MAX as int + 1,
            0 <= d <= u64::MAX,
    ;
}

/// Splits recognized text into captions whose spans divide `duration_ms`
/// evenly: caption `i` of `n` runs from `i*d/n` to `(i+1)*d/n`.
pub fn captions_from_text(text: &str, duration_ms: u64) -> (r: Vec<Caption>)
    ensures
        r@.map_values(|c: Caption| c@) == spec_proportional_captions(text@, duration_ms as nat),
{
    let chars = str_to_chars(text);
    let trimmed = trim_chars(&chars);
    let mut r: Vec<Caption> = Vec::new();
    if trimmed.len() == 0 {
        proof {
            assert(r@.map_values(|c: Caption| c@) =~= spec_proportional_captions(
                text@,
                duration_ms as nat,
            ));
        }
        return r;
    }
    let sentences = split_sentences(&trimmed);
    if sentences.len() == 0 {
        r.push(
            Caption {
                start_ms: 0,
                end_ms: duration_ms,
                text: chars_to_string(&trimmed),
            },
        );
        proof {
            assert(r@.map_values(|c: Caption| c@) =~= spec_proportional_captions(
                text@,
                duration_ms as nat,
            ));
        }
        return r;
    }
    let n = sentences.len();
    let d = duration_ms;
    for i in 0..n
        invariant
            n == sentences@.len(),
            n >= 1,
            d == duration_ms,
            sentences@.map_values(|p: Vec<char>| p@) == spec_sentences(spec_trim(chars@)),
            spec_trim(chars@).len() > 0,
            chars@ == text@,
            r@.map_values(|c: Caption| c@) =~= spec_proportional_captions(
                text@,
                duration_ms as nat,
            ).take(i as int),
    {
        proof {
            lemma_share_bounds(i as int, d as int, n as int);
            lemma_share_bounds(i + 1, d as int, n as int);
        }
        let start = ((i as u128) * (d as u128) / (n as u128)) as u64;
        let end = (((i as u128) + 1) * (d as u128) / (n as u128)) as u64;
        let mut cap_text: Vec<char> = Vec::new();
        push_char_vec(&sentences[i], &mut cap_text);
        cap_text.push('.');
        let ghost prev = r@.map_values(|c: Caption| c@);
        r.push(Caption { start_ms: start, end_ms: end, text: chars_to_string(&cap_text) });
        proof {
            let caps = spec_proportional_captions(text@, duration_ms as nat);
            let ss = spec_sentences(spec_trim(text@));
            assert(sentences@.map_values(|p: Vec<char>| p@)[i as int] == sentences@[i as int]@);
            assert(caps[i as int].0 == ((i as int) * (d as int) / (n as int)) as nat);
            assert(caps[i as int].1 == ((i as int + 1) * (d as int) / (n as int)) as nat);
            assert(caps[i as int].2 == ss[i as int] + seq!['.']);
            assert(cap_text@ =~= ss[i as int] + seq!['.']);
            assert(start as nat == caps[i as int].0);
            assert(end as nat == caps[i as int].1);
            assert(caps[i as int] == (
                ((i as int) * (d as int) / (n as int)) as nat,
                ((i as int + 1) * (d as int) / (n as int)) as nat,
                spec_sentences(spec_trim(text@))[i as int] + seq!['.'],
            ));
            assert(r@.map_values(|c: Caption| c@) =~= prev.push(caps[i as int]));
            assert(prev.push(caps[i as int]) =~= caps.take(i + 1));
        }
    }
    proof {
        let caps = spec_proportional_captions(text@, duration_ms as nat);
        assert(caps.take(n as int) =~= caps);
    }
    r
}

/// Total length of all caption spans.
pub open spec fn spec_span_sum(caps: Seq<(nat, nat, Seq<char>)>) -> int
    decreases caps.len(),
{
    if caps.len() == 0 {
        0
    } else {
        (caps[0].1 - caps[0].0) + spec_span_sum(caps.drop_first())
    }
}

/// Contiguous, ordered spans telescope: their lengths add up to the distance
/// from the first start to the last end.
pub proof fn lemma_spans_telescope(caps: Seq<(nat, nat, Seq<char>)>)
    requires
        caps.len() >= 1,
        forall|i: int| 0 <= i < caps.len() ==> #[trigger] caps[i].0 <= caps[i].1,
        forall|i: int| 0 <= i < caps.len() - 1 ==> #[trigger] caps[i].1 == caps[i + 1].0,
    ensures
        spec_span_sum(caps) == caps[caps.len() - 1].1 - caps[0].0,
    decreases caps.len(),
{
    reveal_with_fuel(spec_span_sum, 3);
    if caps.len() > 1 {
        let rest = caps.drop_first();
        assert(forall|i: int| 0 <= i < rest.len() ==> rest[i] == caps[i + 1]);
        lemma_spans_telescope(rest);
        assert(caps[0].1 == caps[1].0);
    }
}

/// Law: for non-blank text, duration-proportional splitting produces caption
/// spans that are contiguous, non-overlapping, start at zero and end at the
/// full duration, so together they sum to exactly the input duration.
pub proof fn lemma_proportional_spans_cover(text: Seq<char>, d: nat)
    requires
        spec_trim(text).len() > 0,
    ensures
        ({
            let caps = spec_proportional_captions(text, d);
            &&& caps.len() >= 1
            &&& caps[0].0 == 0
            &&& caps[caps.len() - 1].1 == d
            &&& forall|i: int| 0 <= i < caps.len() ==> #[trigger] caps[i].0 <= caps[i].1
            &&& forall|i: int| 0 <= i < caps.len() - 1 ==> #[trigger] caps[i].1 == caps[i + 1].0
            &&& spec_span_sum(caps) == d
        }),
{
    let caps = spec_proportional_captions(text, d);
    let ss = spec_sentences(spec_trim(text));
    if ss.len() > 0 {
        let n = ss.len() as int;
        assert(caps[0].0 == (0 * d as int / n) as nat);
        assert(0 * d as int == 0) by (nonlinear_arith);
        assert(caps[n - 1].1 == (n * d as int / n) as nat);
        assert(n * d as int / n == d as int) by (nonlinear_arith)
            requires
                n >= 1,
        ;
        assert forall|i: int| 0 <= i < caps.len() implies #[trigger] caps[i].0 <= caps[i].1 by {
            assert(i * d as int <= (i + 1) * d as int && 0 <= i * d as int) by (nonlinear_arith)
                requires
                    0 <= i,
                    0 <= d as int,
            ;
            assert(i * d as int / n <= (i + 1) * d as int / n) by (nonlinear_arith)
                requires
                    0 <= i * d as int <= (i + 1) * d as int,
                    n >= 1,
            ;
        }
    }
    lemma_spans_telescope(caps);
}

/// The rendered block of one caption: its one-based number, the time span
/// line, the text and a blank line.
pub open spec fn spec_caption_block(num: nat, c: (nat, nat, Seq<char>)) -> Seq<char> {
    spec_digits(num) + seq!['\n'] + spec_srt_time(c.0) + seq![' ', '-', '-', '>', ' ']
        + spec_srt_time(c.1) + seq!['\n'] + c.2 + seq!['\n', '\n']
}

/// The full SRT text of a caption list, numbered from `first`.
pub open spec fn spec_render_from(caps: Seq<(nat, nat, Seq<char>)>, first: nat) -> Seq<char>
    decreases caps.len(),
{
    if caps.len() == 0 {
        seq![]
    } else {
        spec_caption_block(first, caps.first()) + spec_render_from(caps.drop_first(), first + 1)
    }
}

pub open spec fn spec_render_captions(caps: Seq<(nat, nat, Seq<char>)>) -> Seq<char> {
    spec_render_from(caps, 1)
}

/// Appends the rendered block of one caption.
fn push_caption_block(num: u64, c: &Caption, out: &mut Vec<char>)
    requires
        num >= 1,
    ensures
        final(out)@ == old(out)@ + spec_caption_block(num as nat, c@),
{
    let ghost before = out@;
    push_digits(num, out);
    out.push('\n');
    let st = format_srt_time(c.start_ms);
    let sv = str_to_chars(st.as_str());
    push_char_vec(&sv, out);
    out.push(' ');
    out.push('-');
    out.push('-');
    out.push('>');
    out.push(' ');
    let et = format_srt_time(c.end_ms);
    let ev = str_to_chars(et.as_str());
    push_char_vec(&ev, out);
    out.push('\n');
    let tv = str_to_chars(c.text.as_str());
    push_char_vec(&tv, out);
    out.push('\n');
    out.push('\n');
    proof {
        assert(out@ =~= before + spec_caption_block(num as nat, c@));
    }
}

/// Renders a caption list as SRT text.
pub fn render_captions(caps: &Vec<Caption>) -> (r: String)
    ensures
        r@ == spec_render_captions(caps@.map_values(|c: Caption| c@)),
{
    let mut out: Vec<char> = Vec::new();
    let n = caps.len();
    proof {
        let views = caps@.map_values(|c: Caption| c@);
        assert(views.skip(0) =~= views);
        assert(out@ + spec_render_from(views, 1) =~= spec_render_from(views, 1));
    }
    for i in 0..n
        invariant
            n == caps@.len(),
            spec_render_captions(caps@.map_values(|c: Caption| c@)) == out@ + spec_render_from(
                caps@.map_values(|c: Caption| c@).skip(i as int),
                (i + 1) as nat,
            ),
    {
        let ghost views = caps@.map_values(|c: Caption| c@);
        let ghost before = out@;
        push_caption_block((i as u64) + 1, &caps[i], &mut out);
        proof {
            assert(views[i as int] == caps@[i as int]@);
            assert(views.skip(i as int).first() == views[i as int]);
            assert(views.skip(i as int).drop_first() =~= views.skip(i + 1));
            assert(out@ + spec_render_from(views.skip(i + 1), (i + 2) as nat) =~= before
                + spec_render_from(views.skip(i as int), (i + 1) as nat));
        }
    }
    proof {
        let views = caps@.map_values(|c: Caption| c@);
        assert(views.skip(n as int) =~= Seq::<(nat, nat, Seq<char>)>::empty());
        assert(out@ =~= spec_render_captions(views));
    }
    chars_to_string(&out)
}

/// Builds the SRT text for recognized plain text over `duration_ms`, the
/// duration-proportional strategy end to end.
pub fn generate_srt_from_text(text: &str, duration_ms: u64) -> (r: String)
    ensures
        r@ == spec_render_captions(spec_proportional_captions(text@, duration_ms as nat)),
{
    let caps = captions_from_text(text, duration_ms);
    render_captions(&caps)
}

} // verus!
