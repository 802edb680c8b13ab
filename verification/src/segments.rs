//! Timestamped transcript segments and the chunked-inference support: window
//! planning for long audio and the overlap-aware merge that keeps one
//! authoritative transcript across chunk boundaries.

use vstd::prelude::*;
use crate::captions::{spec_trim, trim_chars};
use crate::text::str_to_chars;

verus! {

/// One recognized utterance: a time span in milliseconds and its text.
pub struct Segment {
    pub start_ms: i64,
    pub end_ms: i64,
    pub text: String,
}

impl View for Segment {
    type V = (int, int, Seq<char>);

    open spec fn view(&self) -> (int, int, Seq<char>) {
        (self.start_ms as int, self.end_ms as int, self.text@)
    }
}

/// One window of source audio processed independently.
pub struct Chunk {
    pub start_ms: u64,
    pub duration_ms: u64,
}

impl View for Chunk {
    type V = (nat, nat);

    open spec fn view(&self) -> (nat, nat) {
        (self.start_ms as nat, self.duration_ms as nat)
    }
}

/// How many windows cover `total` milliseconds when windows of `chunk`
/// milliseconds advance by `chunk - overlap`: the rounded-up count of
/// strides over `total - overlap`, and at least one.
pub open spec fn spec_num_chunks(total: nat, chunk: nat, overlap: nat) -> nat
    recommends
        overlap < chunk,
{
    let eff = chunk - overlap;
    if total <= overlap {
        1
    } else {
        (((total - overlap) + eff - 1) / eff) as nat
    }
}

/// Plans the chunk windows for `total_ms` of audio: chunk `i` starts at
/// `i * (chunk_ms - overlap_ms)`; every chunk is `chunk_ms` long except the
/// last, which runs to the true end of the audio.
pub fn plan_chunks(total_ms: u64, chunk_ms: u64, overlap_ms: u64) -> (r: Vec<Chunk>)
    requires
        0 < overlap_ms < chunk_ms,
        total_ms <= u64::MAX - chunk_ms,
    ensures
        r@.len() == spec_num_chunks(total_ms as nat, chunk_ms as nat, overlap_ms as nat),
        forall|i: int|
            0 <= i < r@.len() ==> (#[trigger] r@[i]).start_ms == i * ((chunk_ms - overlap_ms)
                as int),
        forall|i: int|
            0 <= i < r@.len() - 1 ==> (#[trigger] r@[i]).duration_ms == chunk_ms,
        r@.len() >= 1,
        r@[r@.len() - 1].duration_ms == total_ms - r@[r@.len() - 1].start_ms,
        r@[r@.len() - 1].start_ms <= total_ms,
{
    let eff = chunk_ms - overlap_ms;
    let num: u64 = if total_ms <= overlap_ms {
        1
    } else {
        ((total_ms - overlap_ms) + eff - 1) / eff
    };
    proof {
        if total_ms > overlap_ms {
            assert(num >= 1) by (nonlinear_arith)
                requires
                    num as int == ((total_ms as int - overlap_ms as int) + eff as int - 1)
                        / (eff as int),
                    eff as int >= 1,
                    total_ms as int > overlap_ms as int,
            ;
            assert((num as int - 1) * (eff as int) < total_ms as int) by (nonlinear_arith)
                requires
                    num as int == ((total_ms as int - overlap_ms as int) + eff as int - 1)
                        / (eff as int),
                    eff as int >= 1,
                    total_ms as int > overlap_ms as int >= 1,
                    eff as int == chunk_ms as int - overlap_ms as int,
            ;
        }
    }
    let mut r: Vec<Chunk> = Vec::new();
    let mut i: u64 = 0;
    while i < num
        invariant
            num == spec_num_chunks(total_ms as nat, chunk_ms as nat, overlap_ms as nat),
            num >= 1,
            eff == chunk_ms - overlap_ms,
            0 < overlap_ms < chunk_ms,
            total_ms <= u64::MAX - chunk_ms,
            (num - 1) * eff as int <= total_ms,
            i <= num,
            r@.len() == i,
            forall|j: int|
                0 <= j < r@.len() ==> (#[trigger] r@[j]).start_ms == j * (eff as int),
            forall|j: int| 0 <= j < r@.len() && j < num - 1 ==> (#[trigger] r@[j]).duration_ms
                == chunk_ms,
            i == num ==> num >= 1 && r@.len() == num,
            r@.len() > 0 && i == num ==> r@[r@.len() - 1].duration_ms == total_ms - r@[r@.len()
                - 1].start_ms && r@[r@.len() - 1].start_ms <= total_ms,
        decreases num - i,
    {
        proof {
            assert(i * eff as int <= (num - 1) * eff as int) by (nonlinear_arith)
                requires
                    0 <= i as int <= num - 1,
                    eff >= 1,
            ;
        }
        let start = i * eff;
        let duration = if i == num - 1 {
            total_ms - start
        } else {
            chunk_ms
        };
        r.push(Chunk { start_ms: start, duration_ms: duration });
        i = i + 1;
    }
    r
}

/// A segment carries usable text when something survives trimming.
pub open spec fn spec_has_text(s: (int, int, Seq<char>)) -> bool {
    spec_trim(s.2).len() > 0
}

/// Drops segments whose text is empty or whitespace: inference output is
/// screened before it may enter a transcript.
pub fn retain_text_segments(src: &Vec<Segment>) -> (r: Vec<Segment>)
    ensures
        r@.map_values(|s: Segment| s@) == src@.map_values(|s: Segment| s@).filter(
            |s: (int, int, Seq<char>)| spec_has_text(s),
        ),
{
    let ghost pred = |s: (int, int, Seq<char>)| spec_has_text(s);
    let mut r: Vec<Segment> = Vec::new();
    let n = src.len();
    proof {
        reveal(Seq::filter);
        assert(src@.map_values(|s: Segment| s@).take(0) =~= Seq::<(int, int, Seq<char>)>::empty());
    }
    for i in 0..n
        invariant
            n == src@.len(),
            r@.map_values(|s: Segment| s@) == src@.map_values(|s: Segment| s@).take(
                i as int,
            ).filter(pred),
            pred == (|s: (int, int, Seq<char>)| spec_has_text(s)),
    {
        let ghost views = src@.map_values(|s: Segment| s@);
        let ghost prev_map = r@.map_values(|s: Segment| s@);
        let text_chars = str_to_chars(src[i].text.as_str());
        let trimmed = trim_chars(&text_chars);
        let keep = trimmed.len() > 0;
        proof {
            reveal(Seq::filter);
            assert(views.take(i + 1).drop_last() =~= views.take(i as int));
            assert(views.take(i + 1).last() == views[i as int]);
            assert(views[i as int] == src@[i as int]@);
        }
        if keep {
            let s = &src[i];
            let copied = Segment { start_ms: s.start_ms, end_ms: s.end_ms, text: s.text.clone() };
            proof {
                assert(copied@ == views[i as int]);
            }
            r.push(copied);
            proof {
                assert(r@.map_values(|s: Segment| s@) =~= prev_map.push(views[i as int]));
                assert(prev_map.push(views[i as int]) =~= views.take(i as int).filter(pred).push(
                    views[i as int],
                ));
            }
        }
    }
    proof {
        assert(src@.map_values(|s: Segment| s@).take(n as int) =~= src@.map_values(
            |s: Segment| s@,
        ));
    }
    r
}

/// Kept from the already accumulated transcript when a chunk beginning at
/// the boundary arrives: segments that end on or before the boundary, or
/// that started before it.
pub open spec fn spec_keep_prior(s: (int, int, Seq<char>), boundary: int) -> bool {
    s.1 <= boundary || s.0 < boundary
}

/// Kept from the fresh chunk's transcript: segments that start on or after
/// the boundary.
pub open spec fn spec_keep_fresh(s: (int, int, Seq<char>), boundary: int) -> bool {
    s.0 >= boundary
}

/// The merged transcript after a chunk beginning at `boundary` arrives: when
/// either side is empty the two are simply concatenated; otherwise the prior
/// segments that started inside the reprocessed overlap are dropped and the
/// fresh segments from the boundary on are appended.
pub open spec fn spec_merge(
    prior: Seq<(int, int, Seq<char>)>,
    fresh: Seq<(int, int, Seq<char>)>,
    boundary: int,
) -> Seq<(int, int, Seq<char>)> {
    if prior.len() == 0 || fresh.len() == 0 {
        prior + fresh
    } else {
        prior.filter(|s: (int, int, Seq<char>)| spec_keep_prior(s, boundary)) + fresh.filter(
            |s: (int, int, Seq<char>)| spec_keep_fresh(s, boundary),
        )
    }
}

fn push_filtered_prior(src: &Vec<Segment>, boundary: i64, out: &mut Vec<Segment>)
    ensures
        final(out)@.map_values(|s: Segment| s@) == old(out)@.map_values(|s: Segment| s@)
            + src@.map_values(|s: Segment| s@).filter(
            |s: (int, int, Seq<char>)| spec_keep_prior(s, boundary as int),
        ),
{
    let ghost pred = |s: (int, int, Seq<char>)| spec_keep_prior(s, boundary as int);
    let ghost out0 = out@;
    let n = src.len();
    proof {
        reveal(Seq::filter);
        assert(src@.map_values(|s: Segment| s@).take(0) =~= Seq::<(int, int, Seq<char>)>::empty());
    }
    for i in 0..n
        invariant
            n == src@.len(),
            out@.map_values(|s: Segment| s@) == out0.map_values(|s: Segment| s@)
                + src@.map_values(|s: Segment| s@).take(i as int).filter(pred),
            pred == (|s: (int, int, Seq<char>)| spec_keep_prior(s, boundary as int)),
    {
        let ghost views = src@.map_values(|s: Segment| s@);
        let ghost prev_map = out@.map_values(|s: Segment| s@);
        let keep = src[i].end_ms <= boundary || src[i].start_ms < boundary;
        proof {
            reveal(Seq::filter);
            assert(views.take(i + 1).drop_last() =~= views.take(i as int));
            assert(views.take(i + 1).last() == views[i as int]);
            assert(views[i as int] == src@[i as int]@);
        }
        if keep {
            let s = &src[i];
            let copied = Segment { start_ms: s.start_ms, end_ms: s.end_ms, text: s.text.clone() };
            proof {
                assert(copied@ == views[i as int]);
            }
            out.push(copied);
            proof {
                assert(out@.map_values(|s: Segment| s@) =~= prev_map.push(views[i as int]));
                assert(prev_map.push(views[i as int]) =~= out0.map_values(
                    |s: Segment| s@,
                ) + views.take(i as int).filter(pred).push(views[i as int]));
            }
        }
    }
    proof {
        assert(src@.map_values(|s: Segment| s@).take(n as int) =~= src@.map_values(
            |s: Segment| s@,
        ));
    }
}

fn push_filtered_fresh(src: &Vec<Segment>, boundary: i64, out: &mut Vec<Segment>)
    ensures
        final(out)@.map_values(|s: Segment| s@) == old(out)@.map_values(|s: Segment| s@)
            + src@.map_values(|s: Segment| s@).filter(
            |s: (int, int, Seq<char>)| spec_keep_fresh(s, boundary as int),
        ),
{
    let ghost pred = |s: (int, int, Seq<char>)| spec_keep_fresh(s, boundary as int);
    let ghost out0 = out@;
    let n = src.len();
    proof {
        reveal(Seq::filter);
        assert(src@.map_values(|s: Segment| s@).take(0) =~= Seq::<(int, int, Seq<char>)>::empty());
    }
    for i in 0..n
        invariant
            n == src@.len(),
            out@.map_values(|s: Segment| s@) == out0.map_values(|s: Segment| s@)
                + src@.map_values(|s: Segment| s@).take(i as int).filter(pred),
            pred == (|s: (int, int, Seq<char>)| spec_keep_fresh(s, boundary as int)),
    {
        let ghost views = src@.map_values(|s: Segment| s@);
        let ghost prev_map = out@.map_values(|s: Segment| s@);
        let keep = src[i].start_ms >= boundary;
        proof {
            reveal(Seq::filter);
            assert(views.take(i + 1).drop_last() =~= views.take(i as int));
            assert(views.take(i + 1).last() == views[i as int]);
            assert(views[i as int] == src@[i as int]@);
        }
        if keep {
            let s = &src[i];
            let copied = Segment { start_ms: s.start_ms, end_ms: s.end_ms, text: s.text.clone() };
            proof {
                assert(copied@ == views[i as int]);
            }
            out.push(copied);
            proof {
                assert(out@.map_values(|s: Segment| s@) =~= prev_map.push(views[i as int]));
                assert(prev_map.push(views[i as int]) =~= out0.map_values(
                    |s: Segment| s@,
                ) + views.take(i as int).filter(pred).push(views[i as int]));
            }
        }
    }
    proof {
        assert(src@.map_values(|s: Segment| s@).take(n as int) =~= src@.map_values(
            |s: Segment| s@,
        ));
    }
}

fn push_all(src: &Vec<Segment>, out: &mut Vec<Segment>)
    ensures
        final(out)@.map_values(|s: Segment| s@) == old(out)@.map_values(|s: Segment| s@)
            + src@.map_values(|s: Segment| s@),
{
    let ghost out0 = out@;
    let n = src.len();
    proof {
        assert(src@.map_values(|s: Segment| s@).take(0) =~= Seq::<(int, int, Seq<char>)>::empty());
        assert(out0.map_values(|s: Segment| s@) + Seq::<(int, int, Seq<char>)>::empty()
            =~= out0.map_values(|s: Segment| s@));
    }
    for i in 0..n
        invariant
            n == src@.len(),
            out@.map_values(|s: Segment| s@) == out0.map_values(|s: Segment| s@)
                + src@.map_values(|s: Segment| s@).take(i as int),
    {
        let ghost views = src@.map_values(|s: Segment| s@);
        let ghost prev_vec = out@;
        let ghost prev_map = out@.map_values(|s: Segment| s@);
        let s = &src[i];
        let copied = Segment { start_ms: s.start_ms, end_ms: s.end_ms, text: s.text.clone() };
        proof {
            assert(copied@ == src@[i as int]@);
        }
        out.push(copied);
        proof {
            assert(views[i as int] == src@[i as int]@);
            assert(views.take(i + 1) =~= views.take(i as int).push(views[i as int]));
            assert(out@.map_values(|s: Segment| s@) =~= prev_map.push(views[i as int]));
            assert(prev_map.push(views[i as int]) =~= out0.map_values(|s: Segment| s@)
                + views.take(i as int).push(views[i as int]));
        }
    }
    proof {
        assert(src@.map_values(|s: Segment| s@).take(n as int) =~= src@.map_values(
            |s: Segment| s@,
        ));
    }
}

/// Reconciles the transcript accumulated so far with a fresh chunk's
/// segments, the chunk having begun at `boundary_ms`.
pub fn merge_chunk_segments(prior: &Vec<Segment>, fresh: &Vec<Segment>, boundary_ms: i64) -> (r:
    Vec<Segment>)
    ensures
        r@.map_values(|s: Segment| s@) == spec_merge(
            prior@.map_values(|s: Segment| s@),
            fresh@.map_values(|s: Segment| s@),
            boundary_ms as int,
        ),
{
    let mut r: Vec<Segment> = Vec::new();
    if prior.len() == 0 || fresh.len() == 0 {
        push_all(prior, &mut r);
        push_all(fresh, &mut r);
        proof {
            assert(r@.map_values(|s: Segment| s@) =~= prior@.map_values(|s: Segment| s@)
                + fresh@.map_values(|s: Segment| s@));
        }
    } else {
        push_filtered_prior(prior, boundary_ms, &mut r);
        push_filtered_fresh(fresh, boundary_ms, &mut r);
        proof {
            assert(r@.map_values(|s: Segment| s@) =~= prior@.map_values(|s: Segment| s@).filter(
                |s: (int, int, Seq<char>)| spec_keep_prior(s, boundary_ms as int),
            ) + fresh@.map_values(|s: Segment| s@).filter(
                |s: (int, int, Seq<char>)| spec_keep_fresh(s, boundary_ms as int),
            ));
        }
    }
    r
}

/// Adds a chunk's own offset to each of its segments, so their times refer
/// to the whole recording rather than the chunk.
pub fn offset_segments(segs: Vec<Segment>, offset_ms: i64) -> (r: Vec<Segment>)
    requires
        offset_ms >= 0,
        forall|i: int|
            0 <= i < segs@.len() ==> (#[trigger] segs@[i]).start_ms + offset_ms <= i64::MAX
                && segs@[i].end_ms + offset_ms <= i64::MAX,
    ensures
        r@.len() == segs@.len(),
        forall|i: int|
            0 <= i < r@.len() ==> (#[trigger] r@[i])@ == (
                segs@[i]@.0 + offset_ms,
                segs@[i]@.1 + offset_ms,
                segs@[i]@.2,
            ),
{
    let mut r: Vec<Segment> = Vec::new();
    let n = segs.len();
    for i in 0..n
        invariant
            n == segs@.len(),
            offset_ms >= 0,
            forall|j: int|
                0 <= j < segs@.len() ==> (#[trigger] segs@[j]).start_ms + offset_ms <= i64::MAX
                    && segs@[j].end_ms + offset_ms <= i64::MAX,
            r@.len() == i,
            forall|j: int|
                0 <= j < i ==> (#[trigger] r@[j])@ == (
                    segs@[j]@.0 + offset_ms,
                    segs@[j]@.1 + offset_ms,
                    segs@[j]@.2,
                ),
    {
        let s = &segs[i];
        r.push(
            Segment {
                start_ms: s.start_ms + offset_ms,
                end_ms: s.end_ms + offset_ms,
                text: s.text.clone(),
            },
        );
    }
    r
}

pub open spec fn spec_sorted_by_start(s: Seq<(int, int, Seq<char>)>) -> bool {
    forall|i: int, j: int| 0 <= i < j < s.len() ==> s[i].0 <= s[j].0
}

/// Orders segments by start time, keeping equal starts in their original
/// order; the result is a permutation of the input.
pub fn sort_segments_by_start(segs: Vec<Segment>) -> (r: Vec<Segment>)
    ensures
        spec_sorted_by_start(r@.map_values(|s: Segment| s@)),
        r@.map_values(|s: Segment| s@).to_multiset() == segs@.map_values(
            |s: Segment| s@,
        ).to_multiset(),
{
    let mut r: Vec<Segment> = Vec::new();
    let src = segs;
    let mut i: usize = 0;
    proof {
        assert(r@.map_values(|s: Segment| s@) =~= src@.map_values(|s: Segment| s@).take(0));
    }
    while i < src.len()
        invariant
            i <= src@.len(),
            spec_sorted_by_start(r@.map_values(|s: Segment| s@)),
            r@.map_values(|s: Segment| s@).to_multiset() == src@.map_values(
                |s: Segment| s@,
            ).take(i as int).to_multiset(),
        decreases src@.len() - i,
    {
        let s = &src[i];
        let item = Segment { start_ms: s.start_ms, end_ms: s.end_ms, text: s.text.clone() };
        proof {
            assert(item@ == src@.map_values(|s: Segment| s@)[i as int]);
        }
        insert_sorted(&mut r, item);
        proof {
            let views = src@.map_values(|s: Segment| s@);
            views.take(i as int).to_multiset_ensures();
            assert(views.take(i + 1) =~= views.take(i as int).push(views[i as int]));
            assert(views.take(i + 1).to_multiset() =~= views.take(i as int).to_multiset().insert(
                views[i as int],
            ));
        }
        i = i + 1;
    }
    proof {
        assert(src@.map_values(|s: Segment| s@).take(src@.len() as int) =~= src@.map_values(
            |s: Segment| s@,
        ));
    }
    r
}

/// Inserts `item` before the first element with a strictly later start.
fn insert_sorted(r: &mut Vec<Segment>, item: Segment)
    requires
        spec_sorted_by_start(old(r)@.map_values(|s: Segment| s@)),
    ensures
        spec_sorted_by_start(final(r)@.map_values(|s: Segment| s@)),
        final(r)@.map_values(|s: Segment| s@).to_multiset() == old(r)@.map_values(
            |s: Segment| s@,
        ).to_multiset().insert(item@),
{
    let mut pos: usize = r.len();
    while pos > 0 && r[pos - 1].start_ms > item.start_ms
        invariant
            pos <= r@.len(),
            forall|j: int|
                pos <= j < r@.len() ==> (#[trigger] r@[j]).start_ms > item.start_ms,
        decreases pos,
    {
        pos = pos - 1;
    }
    proof {
        let views = r@.map_values(|s: Segment| s@);
        if pos > 0 {
            assert(views[pos - 1].0 <= item@.0);
            assert forall|j: int| 0 <= j < pos implies (#[trigger] views[j]).0 <= item@.0 by {
                if j < pos - 1 {
                    assert(views[j].0 <= views[pos - 1].0);
                }
            }
        }
    }
    r.insert(pos, item);
    proof {
        let old_views = old(r)@.map_values(|s: Segment| s@);
        let new_views = r@.map_values(|s: Segment| s@);
        assert(new_views =~= old_views.insert(pos as int, item@));
        assert forall|a: int, b: int| 0 <= a < b < new_views.len() implies new_views[a].0
            <= new_views[b].0 by {
            assert(forall|j: int| 0 <= j < pos ==> new_views[j] == old_views[j]);
            assert(new_views[pos as int] == item@);
            assert(forall|j: int|
                pos < j < new_views.len() ==> new_views[j] == old_views[j - 1]);
        }
        vstd::seq_lib::to_multiset_insert(old_views, pos as int, item@);
    }
}

/// Everything a filter keeps was already in the sequence.
proof fn lemma_filter_subset(s: Seq<(int, int, Seq<char>)>, pred: spec_fn((int, int, Seq<char>)) -> bool)
    ensures
        forall|i: int|
            0 <= i < s.filter(pred).len() ==> s.contains(#[trigger] s.filter(pred)[i]),
    decreases s.len(),
{
    reveal(Seq::filter);
    if s.len() > 0 {
        lemma_filter_subset(s.drop_last(), pred);
        let out = s.filter(pred);
        let sub = s.drop_last().filter(pred);
        assert forall|i: int| 0 <= i < out.len() implies s.contains(#[trigger] out[i]) by {
            if i < sub.len() {
                assert(s.drop_last().contains(sub[i]));
                let j = choose|j: int| 0 <= j < s.drop_last().len() && s.drop_last()[j] == sub[i];
                assert(s[j] == out[i]);
            } else {
                assert(out[i] == s.last());
                assert(s[s.len() - 1] == s.last());
            }
        }
    }
}

/// Law: merging at a chunk boundary keeps one authoritative reading of the
/// reprocessed overlap and preserves everything outside it. Every merged
/// segment is either a prior segment that ended by the boundary or began
/// before it, or a fresh segment beginning at or after it — so the span from
/// the boundary on is never described twice; and every prior segment lying
/// entirely before the boundary, and every fresh segment from the boundary
/// on, survives the merge.
pub proof fn lemma_merge_overlap(
    prior: Seq<(int, int, Seq<char>)>,
    fresh: Seq<(int, int, Seq<char>)>,
    boundary: int,
)
    requires
        prior.len() > 0,
        fresh.len() > 0,
    ensures
        ({
            let merged = spec_merge(prior, fresh, boundary);
            &&& forall|i: int|
                0 <= i < merged.len() ==> (prior.contains(#[trigger] merged[i])
                    && spec_keep_prior(merged[i], boundary)) || (fresh.contains(merged[i])
                    && spec_keep_fresh(merged[i], boundary))
            &&& forall|i: int|
                0 <= i < prior.len() && (#[trigger] prior[i]).1 <= boundary ==> merged.contains(
                    prior[i],
                )
            &&& forall|i: int|
                0 <= i < fresh.len() && (#[trigger] fresh[i]).0 >= boundary ==> merged.contains(
                    fresh[i],
                )
        }),
{
    let merged = spec_merge(prior, fresh, boundary);
    let kept_prior = prior.filter(|s: (int, int, Seq<char>)| spec_keep_prior(s, boundary));
    let kept_fresh = fresh.filter(|s: (int, int, Seq<char>)| spec_keep_fresh(s, boundary));
    broadcast use vstd::seq_lib::group_filter_ensures;

    lemma_filter_subset(prior, |s: (int, int, Seq<char>)| spec_keep_prior(s, boundary));
    lemma_filter_subset(fresh, |s: (int, int, Seq<char>)| spec_keep_fresh(s, boundary));
    assert(merged == kept_prior + kept_fresh);
    assert forall|i: int| 0 <= i < merged.len() implies (prior.contains(#[trigger] merged[i])
        && spec_keep_prior(merged[i], boundary)) || (fresh.contains(merged[i]) && spec_keep_fresh(
        merged[i],
        boundary,
    )) by {
        if i < kept_prior.len() {
            assert(merged[i] == kept_prior[i]);
        } else {
            assert(merged[i] == kept_fresh[i - kept_prior.len()]);
        }
    }
    assert forall|i: int|
        0 <= i < prior.len() && (#[trigger] prior[i]).1 <= boundary implies merged.contains(
        prior[i],
    ) by {
        assert(kept_prior.contains(prior[i]));
        let j = choose|j: int| 0 <= j < kept_prior.len() && kept_prior[j] == prior[i];
        assert(merged[j] == prior[i]);
    }
    assert forall|i: int|
        0 <= i < fresh.len() && (#[trigger] fresh[i]).0 >= boundary implies merged.contains(
        fresh[i],
    ) by {
        assert(kept_fresh.contains(fresh[i]));
        let j = choose|j: int| 0 <= j < kept_fresh.len() && kept_fresh[j] == fresh[i];
        assert(merged[kept_prior.len() + j] == fresh[i]);
    }
}

} // verus!

