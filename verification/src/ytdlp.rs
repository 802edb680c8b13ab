//! The media-fetch tool's boundary: the exact invocation built for a
//! download, the line-oriented progress grammar scraped from its output,
//! the patterns that capture the destination path, and the error tail
//! assembled from its diagnostics. Absent or malformed lines are tolerated:
//! a line that does not show a pattern simply yields nothing.

use vstd::prelude::*;
use crate::captions::{is_space_char, spec_trim_end, spec_trim_start};
use crate::text::str_eq;
use crate::tasks::clone_string;
use crate::text::{
    chars_to_string, digit_value, is_digit_char, push_chars, scan_digit_run, spec_run_len,
    spec_seq_value, str_to_chars,
};

verus! {

/// One parsed progress line: percent in tenths, and the size, speed and ETA
/// exactly as printed.
pub struct FetchProgress {
    pub percent_tenths: u64,
    pub size: String,
    pub speed: String,
    pub eta: String,
}

/// Whitespace-separated words of `s`, scanned from `i` with `cur` the word
/// accumulated so far.
pub open spec fn spec_words_from(s: Seq<char>, i: int, cur: Seq<char>) -> Seq<Seq<char>>
    decreases s.len() - i,
{
    if i < 0 || i >= s.len() {
        if cur.len() > 0 {
            seq![cur]
        } else {
            seq![]
        }
    } else if is_space_char(s[i]) {
        if cur.len() > 0 {
            seq![cur] + spec_words_from(s, i + 1, seq![])
        } else {
            spec_words_from(s, i + 1, seq![])
        }
    } else {
        spec_words_from(s, i + 1, cur.push(s[i]))
    }
}

pub open spec fn spec_words(s: Seq<char>) -> Seq<Seq<char>> {
    spec_words_from(s, 0, seq![])
}

/// Splits a line into whitespace-separated words.
pub fn split_words(v: &Vec<char>) -> (r: Vec<Vec<char>>)
    ensures
        r@.map_values(|w: Vec<char>| w@) == spec_words(v@),
{
    let mut r: Vec<Vec<char>> = Vec::new();
    let mut cur: Vec<char> = Vec::new();
    let n = v.len();
    for i in 0..n
        invariant
            n == v@.len(),
            spec_words(v@) == r@.map_values(|w: Vec<char>| w@) + spec_words_from(
                v@,
                i as int,
                cur@,
            ),
    {
        let ghost prev = r@.map_values(|w: Vec<char>| w@);
        let ghost curv = cur@;
        let c = v[i];
        proof {
            assert(is_space_char(v@[i as int]) == (c == ' ' || c == '\t' || c == '\n' || c
                == '\r'));
        }
        if c == ' ' || c == '\t' || c == '\n' || c == '\r' {
            if cur.len() > 0 {
                r.push(cur);
                proof {
                    assert(spec_words_from(v@, i as int, curv) =~= seq![curv]
                        + spec_words_from(v@, i + 1, seq![]));
                    assert(r@.map_values(|w: Vec<char>| w@) =~= prev.push(curv));
                    assert(prev.push(curv) =~= prev + seq![curv]);
                    assert((prev + seq![curv]) + spec_words_from(v@, i + 1, seq![])
                        =~= prev + (seq![curv] + spec_words_from(v@, i + 1, seq![])));
                }
                cur = Vec::new();
            } else {
                proof {
                    assert(curv =~= seq![]);
                }
            }
        } else {
            cur.push(c);
        }
    }
    let ghost prev = r@.map_values(|w: Vec<char>| w@);
    let ghost curv = cur@;
    if cur.len() > 0 {
        r.push(cur);
        proof {
            assert(r@.map_values(|w: Vec<char>| w@) =~= prev.push(curv));
            assert(prev.push(curv) =~= prev + seq![curv]);
        }
    }
    proof {
        assert(r@.map_values(|w: Vec<char>| w@) =~= spec_words(v@));
    }
    r
}

/// A percent word: digits, an optional fraction, then `%`.
pub open spec fn spec_is_percent_word(w: Seq<char>) -> bool {
    let k = spec_run_len(w) as int;
    &&& k >= 1
    &&& k <= 13
    &&& w.len() >= k + 1
    &&& w.last() == '%'
    &&& (w.len() == k + 1 || (w[k] == '.' && w.len() >= k + 2 && forall|j: int|
        k < j < w.len() - 1 ==> is_digit_char(w[j])))
}

/// The tenths value a percent word reads as: whole percents times ten plus
/// the first fractional digit, further digits truncated.
pub open spec fn spec_percent_tenths(w: Seq<char>) -> nat {
    let k = spec_run_len(w) as int;
    let whole = spec_seq_value(w.take(k));
    if w.len() > k + 2 && w[k] == '.' && is_digit_char(w[k + 1]) {
        whole * 10 + digit_value(w[k + 1])
    } else {
        whole * 10
    }
}

/// Reads a percent word; yields its value in tenths.
fn parse_percent_word(w: &Vec<char>) -> (r: Option<u64>)
    ensures
        spec_is_percent_word(w@) && spec_percent_tenths(w@) <= u64::MAX ==> r == Some(
            spec_percent_tenths(w@) as u64,
        ),
        !spec_is_percent_word(w@) ==> r is None,
{
    proof {
        assert(w@.skip(0) =~= w@);
    }
    let scanned = scan_digit_run(w, 0);
    let (whole, k) = match scanned {
        Some(p) => p,
        None => {
            return None;
        },
    };
    if k < 1 || w.len() < k + 1 {
        return None;
    }
    if !(w[w.len() - 1] == '%') {
        return None;
    }
    proof {
        assert(w@.take(k as int) =~= w@.subrange(0, k as int));
    }
    if w.len() == k + 1 {
        if whole > u64::MAX / 10 {
            return None;
        }
        return Some(whole * 10);
    }
    if !(w[k] == '.') || w.len() < k + 2 {
        return None;
    }
    let mut j = k + 1;
    while j < w.len() - 1
        invariant
            k + 1 <= j <= w@.len() - 1,
            w@.len() >= k + 2,
            k as int == spec_run_len(w@),
            forall|t: int| k < t < j ==> is_digit_char(w@[t]),
        decreases w@.len() - j,
    {
        if !(w[j] >= '0' && w[j] <= '9') {
            return None;
        }
        j = j + 1;
    }
    let tenth: u64 = if w.len() > k + 2 && w[k + 1] >= '0' && w[k + 1] <= '9' {
        w[k + 1] as u64 - 48
    } else {
        0
    };
    if whole > (u64::MAX - tenth) / 10 {
        return None;
    }
    Some(whole * 10 + tenth)
}

/// The progress grammar of a fetch line, word-wise: `[download]`, a percent
/// word, `of`, an optionally tilde-marked size, `at`, a speed ending in
/// `/s`, `ETA`, and the time left. The size's tilde, attached or standing
/// alone, is dropped.
pub open spec fn spec_parse_fetch_progress(line: Seq<char>) -> Option<(nat, Seq<char>, Seq<char>, Seq<char>)> {
    let ws = spec_words(line);
    if ws.len() >= 3 && ws[0] == "[download]"@ && spec_is_percent_word(ws[1]) && ws[2] == "of"@ {
        let k: int = if ws.len() > 3 && ws[3] == "~"@ {
            4
        } else {
            3
        };
        if ws.len() >= k + 5 && ws[k].len() > 0 && ws[k + 1] == "at"@ && ws[k + 2].len() >= 2
            && ws[k + 2].subrange(ws[k + 2].len() - 2, ws[k + 2].len() as int) == "/s"@ && ws[k
            + 3] == "ETA"@ {
            let size = if ws[k][0] == '~' {
                ws[k].drop_first()
            } else {
                ws[k]
            };
            Some((spec_percent_tenths(ws[1]), size, ws[k + 2], ws[k + 4]))
        } else {
            Option::None
        }
    } else {
        Option::None
    }
}

/// Scrapes one output line for the `[download] p% of size at speed ETA t`
/// progress pattern.
pub fn parse_fetch_progress(line: &str) -> (r: Option<FetchProgress>)
    ensures
        ({
            match spec_parse_fetch_progress(line@) {
                Some(p) => if p.0 <= u64::MAX {
                    r matches Some(u) && u.percent_tenths == p.0 && u.size@ == p.1 && u.speed@
                        == p.2 && u.eta@ == p.3
                } else {
                    true
                },
                Option::None => r is None,
            }
        }),
{
    let chars = str_to_chars(line);
    let words = split_words(&chars);
    proof {
        reveal_strlit("[download]");
        reveal_strlit("of");
        reveal_strlit("~");
        reveal_strlit("at");
        reveal_strlit("/s");
        reveal_strlit("ETA");
    }
    if !(words.len() >= 3) {
        return None;
    }
    if !chars_match(&words[0], "[download]") {
        return None;
    }
    let percent = match parse_percent_word(&words[1]) {
        Some(p) => p,
        None => {
            return None;
        },
    };
    if !chars_match(&words[2], "of") {
        return None;
    }
    let k: usize = if words.len() > 3 && chars_match(&words[3], "~") {
        4
    } else {
        3
    };
    if !(words.len() >= k + 5) {
        return None;
    }
    if words[k].len() == 0 {
        return None;
    }
    if !chars_match(&words[k + 1], "at") {
        return None;
    }
    let sp = &words[k + 2];
    if sp.len() < 2 || !(sp[sp.len() - 2] == '/' && sp[sp.len() - 1] == 's') {
        proof {
            let w = words@.map_values(|w: Vec<char>| w@)[k + 2];
            if w.len() >= 2 && w.subrange(w.len() - 2, w.len() as int) == "/s"@ {
                assert(w.subrange(w.len() - 2, w.len() as int)[0] == w[w.len() - 2]);
                assert(w.subrange(w.len() - 2, w.len() as int)[1] == w[w.len() - 1]);
                assert("/s"@[0] == '/' && "/s"@[1] == 's');
            }
        }
        return None;
    }
    proof {
        let w = words@.map_values(|w: Vec<char>| w@)[k + 2];
        assert(w.subrange(w.len() - 2, w.len() as int) =~= "/s"@);
    }
    if !chars_match(&words[k + 3], "ETA") {
        return None;
    }
    let size_word = &words[k];
    let mut size: Vec<char> = Vec::new();
    let start: usize = if size_word[0] == '~' {
        1
    } else {
        0
    };
    let mut t = start;
    while t < size_word.len()
        invariant
            start <= t <= size_word@.len(),
            size@ =~= size_word@.subrange(start as int, t as int),
        decreases size_word@.len() - t,
    {
        size.push(size_word[t]);
        proof {
            assert(size_word@.subrange(start as int, t as int).push(size_word@[t as int])
                =~= size_word@.subrange(start as int, t + 1));
        }
        t = t + 1;
    }
    proof {
        if start == 1 {
            assert(size@ =~= size_word@.drop_first());
        } else {
            assert(size@ =~= size_word@);
        }
    }
    Some(
        FetchProgress {
            percent_tenths: percent,
            size: chars_to_string(&size),
            speed: chars_to_string(&words[k + 2]),
            eta: chars_to_string(&words[k + 4]),
        },
    )
}

/// Character-wise comparison of a word with a literal.
fn chars_match(w: &Vec<char>, lit: &str) -> (r: bool)
    ensures
        r == (w@ == lit@),
{
    let l = str_to_chars(lit);
    crate::srt_time::chars_eq(w, &l)
}

/// Whether the window of `s` at `k` spells out `p`.
pub(crate) fn matches_at(s: &Vec<char>, p: &Vec<char>, k: usize) -> (r: bool)
    requires
        k + p@.len() <= s@.len(),
    ensures
        r == (s@.subrange(k as int, k as int + p@.len()) =~= p@),
{
    let m = p.len();
    let slen = s.len();
    let ghost kk = k as int;
    for j in 0..m
        invariant
            m == p@.len(),
            slen == s@.len(),
            kk == k as int,
            k + p@.len() <= s@.len(),
            forall|t: int| 0 <= t < j ==> s@[kk + t] == p@[t],
    {
        if s[k + j] != p[j] {
            proof {
                assert(s@.subrange(kk, kk + p@.len())[j as int] != p@[j as int]);
            }
            return false;
        }
    }
    proof {
        assert forall|t: int|
            0 <= t < p@.len() implies s@.subrange(kk, kk + p@.len())[t] == p@[t] by {}
        assert(s@.subrange(kk, kk + p@.len()) =~= p@);
    }
    true
}

/// Whether `pat` occurs in `s`.
pub fn contains_substring(s: &Vec<char>, pat: &str) -> (r: bool)
    ensures
        r == exists|k: int|
            0 <= k <= s@.len() - pat@.len() && #[trigger] s@.subrange(k, k + pat@.len()) =~= pat@,
{
    let p = str_to_chars(pat);
    if p.len() == 0 {
        proof {
            assert(s@.subrange(0, 0int + pat@.len()) =~= pat@);
        }
        return true;
    }
    if p.len() > s.len() {
        proof {
            assert(forall|k: int|
                0 <= k <= s@.len() - pat@.len() ==> (#[trigger] s@.subrange(
                    k,
                    k + pat@.len(),
                )).len() == pat@.len());
        }
        return false;
    }
    let last = s.len() - p.len();
    let mut k: usize = 0;
    while k <= last
        invariant
            p@ == pat@,
            p@.len() >= 1,
            p@.len() <= s@.len(),
            last == s@.len() - p@.len(),
            last < usize::MAX,
            k <= last + 1,
            forall|t: int| 0 <= t < k ==> #[trigger] s@.subrange(t, t + pat@.len()) != pat@,
        decreases last + 1 - k,
    {
        if matches_at(s, &p, k) {
            return true;
        }
        proof {
            assert(s@.subrange(k as int, k as int + pat@.len()) != pat@);
        }
        k = k + 1;
    }
    false
}

/// Whether the tool reported the download finished.
pub fn is_download_complete_line(line: &str) -> (r: bool)
    ensures
        r == exists|k: int|
            0 <= k <= line@.len() - "[download] 100%"@.len() && #[trigger] line@.subrange(
                k,
                k + "[download] 100%"@.len(),
            ) =~= "[download] 100%"@,
{
    let chars = str_to_chars(line);
    contains_substring(&chars, "[download] 100%")
}


/// Whether `s` begins with `p`.
pub open spec fn spec_starts_with(s: Seq<char>, p: Seq<char>) -> bool {
    s.len() >= p.len() && s.take(p.len() as int) == p
}

/// The position after the leading whitespace from `start` on.
fn skip_ws_from(v: &Vec<char>, start: usize) -> (r: usize)
    requires
        start <= v@.len(),
    ensures
        start <= r <= v@.len(),
        v@.skip(r as int) == spec_trim_start(v@.skip(start as int)),
        r > start ==> is_space_char(v@[start as int]),
        r < v@.len() ==> !is_space_char(v@[r as int]),
{
    let mut i = start;
    while i < v.len() && is_space_exec(v[i])
        invariant
            start <= i <= v@.len(),
            spec_trim_start(v@.skip(start as int)) == spec_trim_start(v@.skip(i as int)),
            i > start ==> is_space_char(v@[start as int]),
        decreases v@.len() - i,
    {
        proof {
            assert(v@.skip(i as int)[0] == v@[i as int]);
            assert(v@.skip(i as int).drop_first() =~= v@.skip(i + 1));
        }
        i = i + 1;
    }
    proof {
        if i < v@.len() {
            assert(v@.skip(i as int)[0] == v@[i as int]);
        }
        assert(spec_trim_start(v@.skip(i as int)) == v@.skip(i as int));
    }
    i
}

fn is_space_exec(c: char) -> (r: bool)
    ensures
        r == is_space_char(c),
{
    c == ' ' || c == '\t' || c == '\n' || c == '\r'
}

/// Copies `v` from `from` to its end.
fn tail_string(v: &Vec<char>, from: usize) -> (r: String)
    requires
        from <= v@.len(),
    ensures
        r@ == v@.skip(from as int),
{
    let mut out: Vec<char> = Vec::new();
    let mut i = from;
    while i < v.len()
        invariant
            from <= i <= v@.len(),
            out@ =~= v@.subrange(from as int, i as int),
        decreases v@.len() - i,
    {
        out.push(v[i]);
        proof {
            assert(v@.subrange(from as int, i as int).push(v@[i as int]) =~= v@.subrange(
                from as int,
                i + 1,
            ));
        }
        i = i + 1;
    }
    proof {
        assert(out@ =~= v@.skip(from as int));
    }
    chars_to_string(&out)
}

/// What the destination pattern yields: the path after
/// `[download] Destination:`, with the gaps being runs of whitespace, or
/// nothing when the line does not open that way.
pub open spec fn spec_capture_destination(line: Seq<char>) -> Option<Seq<char>> {
    if !spec_starts_with(line, "[download]"@) {
        Option::None
    } else {
        let s2 = line.skip(10);
        if s2.len() == 0 || !is_space_char(s2[0]) {
            Option::None
        } else {
            let s3 = spec_trim_start(s2);
            if !spec_starts_with(s3, "Destination:"@) {
                Option::None
            } else {
                let s4 = s3.skip(12);
                if s4.len() == 0 || !is_space_char(s4[0]) {
                    Option::None
                } else {
                    let s5 = spec_trim_start(s4);
                    if s5.len() == 0 {
                        Option::None
                    } else {
                        Some(s5)
                    }
                }
            }
        }
    }
}

/// Captures the destination path announced by the fetch tool.
pub fn try_capture_destination(line: &str) -> (r: Option<String>)
    ensures
        r matches Some(c) ==> spec_capture_destination(line@) == Some(c@),
        r is None ==> spec_capture_destination(line@) is None,
{
    let v = str_to_chars(line);
    proof {
        reveal_strlit("[download]");
        reveal_strlit("Destination:");
    }
    let p1 = str_to_chars("[download]");
    if v.len() < 10 || !matches_at(&v, &p1, 0) {
        proof {
            if v@.len() >= 10 {
                assert(v@.subrange(0, 10) =~= v@.take(10));
            }
        }
        return None;
    }
    proof {
        assert(v@.subrange(0, 10) =~= v@.take(10));
    }
    if v.len() == 10 || !is_space_exec(v[10]) {
        proof {
            if v@.len() > 10 {
                assert(v@.skip(10)[0] == v@[10]);
            }
        }
        return None;
    }
    proof {
        assert(v@.skip(10)[0] == v@[10]);
    }
    let a = skip_ws_from(&v, 10);
    let ghost s3 = spec_trim_start(v@.skip(10));
    proof {
        assert(s3 == v@.skip(a as int));
    }
    let p2 = str_to_chars("Destination:");
    if v.len() - a < 12 || !matches_at(&v, &p2, a) {
        proof {
            if v@.len() >= a + 12 {
                assert(v@.subrange(a as int, a + 12) =~= s3.take(12));
            }
        }
        return None;
    }
    proof {
        assert(v@.subrange(a as int, a + 12) =~= s3.take(12));
        assert(s3.skip(12) =~= v@.skip(a + 12));
    }
    if v.len() - a == 12 || !is_space_exec(v[a + 12]) {
        proof {
            if v@.len() > a + 12 {
                assert(v@.skip(a + 12)[0] == v@[a + 12]);
            }
        }
        return None;
    }
    proof {
        assert(v@.skip(a + 12)[0] == v@[a + 12]);
    }
    let b = skip_ws_from(&v, a + 12);
    proof {
        assert(spec_trim_start(v@.skip(a + 12)) == v@.skip(b as int));
    }
    if b == v.len() {
        return None;
    }
    Some(tail_string(&v, b))
}

/// Index of the last `"`, or -1.
pub open spec fn spec_last_quote(p: Seq<char>) -> int
    decreases p.len(),
{
    if p.len() == 0 {
        -1
    } else if p.last() == '"' {
        p.len() - 1
    } else {
        spec_last_quote(p.drop_last())
    }
}

proof fn lemma_last_quote(p: Seq<char>)
    ensures
        -1 <= spec_last_quote(p) < p.len(),
        spec_last_quote(p) >= 0 ==> p[spec_last_quote(p)] == '"',
        forall|j: int| spec_last_quote(p) < j < p.len() ==> p[j] != '"',
    decreases p.len(),
{
    if p.len() > 0 && p.last() != '"' {
        lemma_last_quote(p.drop_last());
        assert(forall|j: int| 0 <= j < p.len() - 1 ==> p.drop_last()[j] == p[j]);
    }
}

/// What the merger pattern yields: the quoted path after
/// `[Merger] Merging formats into`, read up to the line's last quote.
pub open spec fn spec_capture_merger(line: Seq<char>) -> Option<Seq<char>> {
    if !spec_starts_with(line, "[Merger]"@) {
        Option::None
    } else {
        let s2 = line.skip(8);
        if s2.len() == 0 || !is_space_char(s2[0]) {
            Option::None
        } else {
            let s3 = spec_trim_start(s2);
            if !spec_starts_with(s3, "Merging formats into \""@) {
                Option::None
            } else {
                let s4 = s3.skip(22);
                let q = spec_last_quote(s4);
                if q <= 0 {
                    Option::None
                } else {
                    Some(s4.take(q))
                }
            }
        }
    }
}

/// Captures the merged output path announced by the fetch tool.
pub fn try_capture_merger(line: &str) -> (r: Option<String>)
    ensures
        r matches Some(c) ==> spec_capture_merger(line@) == Some(c@),
        r is None ==> spec_capture_merger(line@) is None,
{
    let v = str_to_chars(line);
    proof {
        reveal_strlit("[Merger]");
        reveal_strlit("Merging formats into \"");
    }
    let p1 = str_to_chars("[Merger]");
    if v.len() < 8 || !matches_at(&v, &p1, 0) {
        proof {
            if v@.len() >= 8 {
                assert(v@.subrange(0, 8) =~= v@.take(8));
            }
        }
        return None;
    }
    proof {
        assert(v@.subrange(0, 8) =~= v@.take(8));
    }
    if v.len() == 8 || !is_space_exec(v[8]) {
        proof {
            if v@.len() > 8 {
                assert(v@.skip(8)[0] == v@[8]);
            }
        }
        return None;
    }
    proof {
        assert(v@.skip(8)[0] == v@[8]);
    }
    let a = skip_ws_from(&v, 8);
    let ghost s3 = spec_trim_start(v@.skip(8));
    proof {
        assert(s3 == v@.skip(a as int));
    }
    let p2 = str_to_chars("Merging formats into \"");
    if v.len() - a < 22 || !matches_at(&v, &p2, a) {
        proof {
            if v@.len() >= a + 22 {
                assert(v@.subrange(a as int, a + 22) =~= s3.take(22));
            }
        }
        return None;
    }
    proof {
        assert(v@.subrange(a as int, a + 22) =~= s3.take(22));
        assert(s3.skip(22) =~= v@.skip(a + 22));
    }
    let ghost s4 = s3.skip(22);
    let start = a + 22;
    let mut q: usize = v.len();
    let mut found = false;
    while q > start && !found
        invariant
            start <= q <= v@.len(),
            start == a + 22,
            s4 == v@.skip(start as int),
            !found ==> forall|j: int| q <= j < v@.len() ==> v@[j] != '"',
            found ==> start <= q < v@.len() && v@[q as int] == '"' && (forall|j: int|
                q < j < v@.len() ==> v@[j] != '"'),
        decreases q,
    {
        if v[q - 1] == '"' {
            q = q - 1;
            found = true;
        } else {
            q = q - 1;
        }
    }
    proof {
        lemma_last_quote(s4);
        let lq = spec_last_quote(s4);
        assert(forall|j: int| 0 <= j < s4.len() ==> s4[j] == v@[start + j]);
        if found {
            if lq < q - start {
                assert(s4[q - start] != '"');
                assert(false);
            }
            if lq > q - start {
                assert(v@[start + lq] != '"');
                assert(false);
            }
            assert(lq == q - start);
        } else {
            if lq >= 0 {
                assert(v@[start + lq] != '"');
                assert(false);
            }
        }
    }
    if !found || q == start {
        return None;
    }
    let mut out: Vec<char> = Vec::new();
    let mut i = start;
    while i < q
        invariant
            start <= i <= q <= v@.len(),
            out@ =~= v@.subrange(start as int, i as int),
        decreases q - i,
    {
        out.push(v[i]);
        proof {
            assert(v@.subrange(start as int, i as int).push(v@[i as int]) =~= v@.subrange(
                start as int,
                i + 1,
            ));
        }
        i = i + 1;
    }
    proof {
        assert(out@ =~= s4.take(q - start));
    }
    Some(chars_to_string(&out))
}


/// `s` without trailing whitespace, starting from a known suffix bound.
fn trim_end_chars(v: &Vec<char>, upto: usize) -> (r: usize)
    requires
        upto <= v@.len(),
    ensures
        r <= upto,
        v@.take(r as int) == spec_trim_end(v@.take(upto as int)),
{
    let mut e = upto;
    while e > 0 && is_space_exec(v[e - 1])
        invariant
            e <= upto <= v@.len(),
            spec_trim_end(v@.take(upto as int)) == spec_trim_end(v@.take(e as int)),
        decreases e,
    {
        proof {
            let cur = v@.take(e as int);
            assert(cur.last() == v@[e - 1]);
            assert(cur.drop_last() =~= v@.take(e - 1));
        }
        e = e - 1;
    }
    proof {
        let cur = v@.take(e as int);
        if e > 0 {
            assert(cur.last() == v@[e - 1]);
        }
        assert(spec_trim_end(cur) == cur);
    }
    e
}

/// What the already-downloaded pattern yields: the path standing between
/// `[download]` and the trailing `has already been downloaded`, whitespace
/// around it dropped.
pub open spec fn spec_capture_already(line: Seq<char>) -> Option<Seq<char>> {
    if !spec_starts_with(line, "[download]"@) {
        Option::None
    } else {
        let s2 = line.skip(10);
        if s2.len() == 0 || !is_space_char(s2[0]) {
            Option::None
        } else {
            let s3 = spec_trim_start(s2);
            let t = spec_trim_end(s3);
            if t.len() < 27 || t.skip(t.len() - 27) != "has already been downloaded"@ {
                Option::None
            } else {
                let mid = t.take(t.len() - 27);
                if mid.len() == 0 || !is_space_char(mid.last()) {
                    Option::None
                } else {
                    let cap = spec_trim_end(mid);
                    if cap.len() == 0 {
                        Option::None
                    } else {
                        Some(cap)
                    }
                }
            }
        }
    }
}

/// Captures the path of a file the fetch tool found already delivered.
pub fn try_capture_already_downloaded(line: &str) -> (r: Option<String>)
    ensures
        r matches Some(c) ==> spec_capture_already(line@) == Some(c@),
        r is None ==> spec_capture_already(line@) is None,
{
    let v = str_to_chars(line);
    proof {
        reveal_strlit("[download]");
        reveal_strlit("has already been downloaded");
    }
    let p1 = str_to_chars("[download]");
    if v.len() < 10 || !matches_at(&v, &p1, 0) {
        proof {
            if v@.len() >= 10 {
                assert(v@.subrange(0, 10) =~= v@.take(10));
            }
        }
        return None;
    }
    proof {
        assert(v@.subrange(0, 10) =~= v@.take(10));
    }
    if v.len() == 10 || !is_space_exec(v[10]) {
        proof {
            if v@.len() > 10 {
                assert(v@.skip(10)[0] == v@[10]);
            }
        }
        return None;
    }
    proof {
        assert(v@.skip(10)[0] == v@[10]);
    }
    let a = skip_ws_from(&v, 10);
    let ghost s3 = spec_trim_start(v@.skip(10));
    proof {
        assert(s3 == v@.skip(a as int));
    }
    let e = trim_end_chars(&v, v.len());
    proof {
        assert(v@.take(v@.len() as int) =~= v@);
        assert(v@.take(e as int) == spec_trim_end(v@));
    }
    proof {
        lemma_trim_end_of_skip(v@, a as int);
    }
    let ghost t = spec_trim_end(s3);
    if e <= a {
        proof {
            assert(t.len() == 0);
        }
        return None;
    }
    proof {
        assert(t =~= v@.subrange(a as int, e as int));
    }
    if e - a < 27 {
        return None;
    }
    let p2 = str_to_chars("has already been downloaded");
    if !matches_at(&v, &p2, e - 27) {
        proof {
            assert(t.skip(t.len() - 27) =~= v@.subrange(e - 27, e as int));
        }
        return None;
    }
    proof {
        assert(t.skip(t.len() - 27) =~= v@.subrange(e - 27, e as int));
    }
    let mid_end = e - 27;
    let ghost mid = t.take(t.len() - 27);
    proof {
        assert(mid =~= v@.subrange(a as int, mid_end as int));
    }
    if mid_end == a || !is_space_exec(v[mid_end - 1]) {
        proof {
            if mid.len() > 0 {
                assert(mid.last() == v@[mid_end - 1]);
            }
        }
        return None;
    }
    proof {
        assert(mid.last() == v@[mid_end - 1]);
        lemma_trim_end_of_subrange(v@, a as int, mid_end as int);
    }
    let c = trim_end_chars(&v, mid_end);
    proof {
        assert(v@.take(c as int) == spec_trim_end(v@.take(mid_end as int)));
    }
    if c <= a {
        proof {
            assert(spec_trim_end(mid).len() == 0);
        }
        return None;
    }
    let mut out: Vec<char> = Vec::new();
    let mut i = a;
    while i < c
        invariant
            a <= i <= c <= v@.len(),
            out@ =~= v@.subrange(a as int, i as int),
        decreases c - i,
    {
        out.push(v[i]);
        proof {
            assert(v@.subrange(a as int, i as int).push(v@[i as int]) =~= v@.subrange(
                a as int,
                i + 1,
            ));
        }
        i = i + 1;
    }
    proof {
        assert(out@ =~= spec_trim_end(mid));
    }
    Some(chars_to_string(&out))
}

/// Trimming the end commutes with dropping a prefix, as long as anything
/// is left.
proof fn lemma_trim_end_of_skip(s: Seq<char>, a: int)
    requires
        0 <= a <= s.len(),
    ensures
        spec_trim_end(s).len() > a ==> spec_trim_end(s.skip(a)) =~= spec_trim_end(s).skip(a),
        spec_trim_end(s).len() <= a ==> spec_trim_end(s.skip(a)).len() == 0,
    decreases s.len(),
{
    if s.len() > 0 && is_space_char(s.last()) {
        if a < s.len() {
            assert(s.skip(a).last() == s.last());
            assert(s.skip(a).drop_last() =~= s.drop_last().skip(a));
            lemma_trim_end_of_skip(s.drop_last(), a);
        } else {
            assert(s.skip(a).len() == 0);
            lemma_trim_end_len(s);
        }
    } else {
        if s.len() == 0 {
        } else {
            assert(spec_trim_end(s) == s);
        }
    }
}

/// Trimming never lengthens.
proof fn lemma_trim_end_len(s: Seq<char>)
    ensures
        spec_trim_end(s).len() <= s.len(),
    decreases s.len(),
{
    if s.len() > 0 && is_space_char(s.last()) {
        lemma_trim_end_len(s.drop_last());
    }
}

/// Trimming the end of a take is trimming the corresponding subrange.
proof fn lemma_trim_end_of_subrange(s: Seq<char>, a: int, b: int)
    requires
        0 <= a <= b <= s.len(),
    ensures
        spec_trim_end(s.take(b)).len() > a ==> spec_trim_end(s.subrange(a, b)) =~= spec_trim_end(
            s.take(b),
        ).skip(a),
        spec_trim_end(s.take(b)).len() <= a ==> spec_trim_end(s.subrange(a, b)).len() == 0,
{
    assert(s.subrange(a, b) =~= s.take(b).skip(a));
    lemma_trim_end_of_skip(s.take(b), a);
}

/// The error message assembled when the tool exits non-zero: the last three
/// collected diagnostic lines joined with ` | `, or a fixed message when
/// nothing was captured.
pub fn build_error_tail(lines: &Vec<String>) -> (r: String)
    ensures
        lines@.len() == 0 ==> r@ == "Download failed with unknown error"@,
        lines@.len() > 0 ==> r@ == spec_error_tail(lines@.map_values(|l: String| l@)),
{
    if lines.len() == 0 {
        return String::from_str("Download failed with unknown error");
    }
    let start = if lines.len() > 3 {
        lines.len() - 3
    } else {
        0
    };
    let mut out: Vec<char> = Vec::new();
    let mut i = start;
    while i < lines.len()
        invariant
            start <= i <= lines@.len(),
            start == if lines@.len() > 3 {
                lines@.len() - 3
            } else {
                0
            },
            out@ =~= spec_join_tail(
                lines@.map_values(|l: String| l@),
                start as int,
                i as int,
            ),
        decreases lines@.len() - i,
    {
        if i > start {
            out.push(' ');
            out.push('|');
            out.push(' ');
        }
        push_chars(lines[i].as_str(), &mut out);
        proof {
            let views = lines@.map_values(|l: String| l@);
            assert(views[i as int] == lines@[i as int]@);
        }
        i = i + 1;
    }
    chars_to_string(&out)
}

/// The last three diagnostic lines joined with ` | `.
pub open spec fn spec_error_tail(lines: Seq<Seq<char>>) -> Seq<char> {
    let start: int = if lines.len() > 3 {
        lines.len() - 3
    } else {
        0
    };
    spec_join_tail(lines, start, lines.len() as int)
}

pub open spec fn spec_join_tail(lines: Seq<Seq<char>>, start: int, end: int) -> Seq<char>
    decreases end - start,
{
    if end <= start {
        seq![]
    } else if end == start + 1 {
        lines[start]
    } else {
        spec_join_tail(lines, start, end - 1) + seq![' ', '|', ' '] + lines[end - 1]
    }
}

/// The media-fetch tool's invocation front.
pub struct YtDlp;

impl YtDlp {
    /// The command to run: the managed binary when the caller found one on
    /// disk, else the tool name resolved on the search path.
    pub fn get_command(managed: Option<String>) -> (r: String)
        ensures
            managed matches Some(p) ==> r@ == p@,
            managed is None ==> r@ == "yt-dlp"@,
    {
        match managed {
            Some(p) => p,
            None => String::from_str("yt-dlp"),
        }
    }

    /// The named format presets offered to callers.
    pub fn get_format_presets() -> (r: Vec<(String, String)>)
        ensures
            r@.len() == 6,
            r@[0].0@ == "best"@ && r@[0].1@ == "bestvideo+bestaudio/best"@,
            r@[1].0@ == "1080p"@ && r@[1].1@
                == "bestvideo[height<=1080]+bestaudio/best[height<=1080]"@,
            r@[2].0@ == "720p"@ && r@[2].1@
                == "bestvideo[height<=720]+bestaudio/best[height<=720]"@,
            r@[3].0@ == "480p"@ && r@[3].1@
                == "bestvideo[height<=480]+bestaudio/best[height<=480]"@,
            r@[4].0@ == "audio"@ && r@[4].1@ == "bestaudio/best"@,
            r@[5].0@ == "mp3"@ && r@[5].1@ == "bestaudio/best"@,
    {
        get_format_presets()
    }
}

/// The named format presets offered to callers.
pub fn get_format_presets() -> (r: Vec<(String, String)>)
    ensures
        r@.len() == 6,
        r@[0].0@ == "best"@ && r@[0].1@ == "bestvideo+bestaudio/best"@,
        r@[1].0@ == "1080p"@ && r@[1].1@ == "bestvideo[height<=1080]+bestaudio/best[height<=1080]"@,
        r@[2].0@ == "720p"@ && r@[2].1@ == "bestvideo[height<=720]+bestaudio/best[height<=720]"@,
        r@[3].0@ == "480p"@ && r@[3].1@ == "bestvideo[height<=480]+bestaudio/best[height<=480]"@,
        r@[4].0@ == "audio"@ && r@[4].1@ == "bestaudio/best"@,
        r@[5].0@ == "mp3"@ && r@[5].1@ == "bestaudio/best"@,
{
    let mut r: Vec<(String, String)> = Vec::new();
    r.push((String::from_str("best"), String::from_str("bestvideo+bestaudio/best")));
    r.push(
        (
            String::from_str("1080p"),
            String::from_str("bestvideo[height<=1080]+bestaudio/best[height<=1080]"),
        ),
    );
    r.push(
        (
            String::from_str("720p"),
            String::from_str("bestvideo[height<=720]+bestaudio/best[height<=720]"),
        ),
    );
    r.push(
        (
            String::from_str("480p"),
            String::from_str("bestvideo[height<=480]+bestaudio/best[height<=480]"),
        ),
    );
    r.push((String::from_str("audio"), String::from_str("bestaudio/best")));
    r.push((String::from_str("mp3"), String::from_str("bestaudio/best")));
    r
}

/// The format string a quality preset resolves to: the preset's value, or
/// the quality itself when no preset carries that name.
pub open spec fn spec_resolve_format(q: Seq<char>) -> Seq<char> {
    if q == "best"@ {
        "bestvideo+bestaudio/best"@
    } else if q == "1080p"@ {
        "bestvideo[height<=1080]+bestaudio/best[height<=1080]"@
    } else if q == "720p"@ {
        "bestvideo[height<=720]+bestaudio/best[height<=720]"@
    } else if q == "480p"@ {
        "bestvideo[height<=480]+bestaudio/best[height<=480]"@
    } else if q == "audio"@ || q == "mp3"@ {
        "bestaudio/best"@
    } else {
        q
    }
}

pub fn resolve_format(quality: &str) -> (r: String)
    ensures
        r@ == spec_resolve_format(quality@),
{
    if str_eq(quality, "best") {
        String::from_str("bestvideo+bestaudio/best")
    } else if str_eq(quality, "1080p") {
        String::from_str("bestvideo[height<=1080]+bestaudio/best[height<=1080]")
    } else if str_eq(quality, "720p") {
        String::from_str("bestvideo[height<=720]+bestaudio/best[height<=720]")
    } else if str_eq(quality, "480p") {
        String::from_str("bestvideo[height<=480]+bestaudio/best[height<=480]")
    } else if str_eq(quality, "audio") || str_eq(quality, "mp3") {
        String::from_str("bestaudio/best")
    } else {
        String::from_str(quality)
    }
}

/// A quality selection of the shape `quality` or `quality:container`.
pub fn parse_format_selection(format: &str) -> (r: (String, Option<String>))
    ensures
        ({
            let d = spec_first_colon(format@);
            if d < 0 {
                r.0@ == format@ && r.1 is None
            } else {
                r.0@ == format@.take(d) && (r.1 matches Some(c) && c@ == format@.skip(d + 1))
            }
        }),
{
    let chars = str_to_chars(format);
    let n = chars.len();
    let mut colon: Option<usize> = None;
    let mut i: usize = 0;
    while i < n
        invariant
            n == chars@.len(),
            i <= n,
            chars@ == format@,
            colon is None ==> forall|j: int| 0 <= j < i ==> format@[j] != ':',
            colon matches Some(c) ==> c < i && format@[c as int] == ':' && (forall|j: int|
                0 <= j < c ==> format@[j] != ':'),
        decreases n - i,
    {
        if chars[i] == ':' && colon.is_none() {
            colon = Some(i);
        }
        i = i + 1;
    }
    proof {
        lemma_first_colon(format@);
        let fc = spec_first_colon(format@);
        match colon {
            Some(c) => {
                if (c as int) < fc {
                    assert(format@[c as int] != ':');
                    assert(false);
                }
                if (c as int) > fc {
                    assert(format@[fc] != ':');
                    assert(false);
                }
                assert(c as int == fc);
            },
            None => {
                if fc >= 0 {
                    assert(format@[fc] != ':');
                    assert(false);
                }
            },
        }
    }
    match colon {
        None => (String::from_str(format), None),
        Some(c) => {
            let mut q: Vec<char> = Vec::new();
            let mut t: usize = 0;
            while t < c
                invariant
                    t <= c,
                    c < chars@.len(),
                    chars@ == format@,
                    q@ =~= format@.subrange(0, t as int),
                decreases c - t,
            {
                q.push(chars[t]);
                proof {
                    assert(format@.subrange(0, t as int).push(format@[t as int])
                        =~= format@.subrange(0, t + 1));
                }
                t = t + 1;
            }
            let mut rest: Vec<char> = Vec::new();
            let mut u: usize = c + 1;
            while u < n
                invariant
                    c + 1 <= u <= n,
                    n == chars@.len(),
                    chars@ == format@,
                    rest@ =~= format@.subrange(c + 1, u as int),
                decreases n - u,
            {
                rest.push(chars[u]);
                proof {
                    assert(format@.subrange(c + 1, u as int).push(format@[u as int])
                        =~= format@.subrange(c + 1, u + 1));
                }
                u = u + 1;
            }
            proof {
                assert(q@ =~= format@.take(c as int));
                assert(rest@ =~= format@.skip(c + 1));
            }
            (chars_to_string(&q), Some(chars_to_string(&rest)))
        },
    }
}

/// Index of the first `:`, or -1.
pub open spec fn spec_first_colon(s: Seq<char>) -> int
    decreases s.len(),
{
    if s.len() == 0 {
        -1
    } else if s[0] == ':' {
        0
    } else {
        let t = spec_first_colon(s.drop_first());
        if t < 0 {
            -1
        } else {
            t + 1
        }
    }
}

proof fn lemma_first_colon(s: Seq<char>)
    ensures
        -1 <= spec_first_colon(s) < s.len(),
        spec_first_colon(s) >= 0 ==> s[spec_first_colon(s)] == ':',
        forall|j: int| 0 <= j < spec_first_colon(s) ==> s[j] != ':',
        spec_first_colon(s) < 0 ==> forall|j: int| 0 <= j < s.len() ==> s[j] != ':',
    decreases s.len(),
{
    if s.len() > 0 && s[0] != ':' {
        lemma_first_colon(s.drop_first());
        let fc = spec_first_colon(s);
        assert forall|j: int| 0 <= j < fc implies s[j] != ':' by {
            if j > 0 {
                assert(s.drop_first()[j - 1] != ':');
            }
        }
        if fc < 0 {
            assert forall|j: int| 0 <= j < s.len() implies s[j] != ':' by {
                if j > 0 {
                    assert(s.drop_first()[j - 1] != ':');
                }
            }
        }
    }
}


/// How a fetch is performed: the selector handed to the tool, where output
/// lands, an optional naming template, and the container the merged result
/// is remuxed into (none to keep the original).
pub struct DownloadOptions {
    pub format: String,
    pub output_dir: String,
    pub filename_template: Option<String>,
    pub container_format: Option<String>,
}

impl Default for DownloadOptions {
    /// Best quality into the user's download directory (falling back to
    /// the working directory), default naming, remuxed to `mp4`.
    fn default() -> (r: DownloadOptions)
        ensures
            r.format@ == "best"@,
            r.filename_template is None,
            (r.container_format matches Some(c) && c@ == "mp4"@),
    {
        let output_dir = match crate::managers::download_dir() {
            Some(d) => d,
            None => String::from_str("."),
        };
        DownloadOptions {
            format: String::from_str("best"),
            output_dir,
            filename_template: None,
            container_format: Some(String::from_str("mp4")),
        }
    }
}

/// The output path template handed to the tool: the caller's template, or
/// title-dot-extension, under the output directory.
pub fn output_template_path(options: &DownloadOptions) -> (r: String)
    ensures
        ({
            let template = match options.filename_template {
                Some(t) => t@,
                None => "%(title)s.%(ext)s"@,
            };
            r@ == options.output_dir@ + seq!['/'] + template
        }),
{
    let template = match &options.filename_template {
        Some(t) => clone_string(t),
        None => String::from_str("%(title)s.%(ext)s"),
    };
    crate::managers::path_join(options.output_dir.as_str(), template.as_str())
}

/// The fetch invocation: line-buffered progress, no playlists, restricted
/// file names, the format selector and output path, the merge container
/// when one was chosen, then the source address.
pub fn build_download_args(options: &DownloadOptions, url: &str) -> (r: Vec<String>)
    ensures
        ({
            let template = match options.filename_template {
                Some(t) => t@,
                None => "%(title)s.%(ext)s"@,
            };
            let out_path = options.output_dir@ + seq!['/'] + template;
            match options.container_format {
                Some(c) => r@.map_values(|s: String| s@) =~= seq![
                    "--newline"@,
                    "--progress"@,
                    "--no-warnings"@,
                    "--no-playlist"@,
                    "--restrict-filenames"@,
                    "-f"@,
                    options.format@,
                    "-o"@,
                    out_path,
                    "--merge-output-format"@,
                    c@,
                    url@,
                ],
                None => r@.map_values(|s: String| s@) =~= seq![
                    "--newline"@,
                    "--progress"@,
                    "--no-warnings"@,
                    "--no-playlist"@,
                    "--restrict-filenames"@,
                    "-f"@,
                    options.format@,
                    "-o"@,
                    out_path,
                    url@,
                ],
            }
        }),
{
    let out_path = output_template_path(options);
    let mut r: Vec<String> = Vec::new();
    r.push(String::from_str("--newline"));
    r.push(String::from_str("--progress"));
    r.push(String::from_str("--no-warnings"));
    r.push(String::from_str("--no-playlist"));
    r.push(String::from_str("--restrict-filenames"));
    r.push(String::from_str("-f"));
    r.push(clone_string(&options.format));
    r.push(String::from_str("-o"));
    r.push(out_path);
    if let Some(c) = &options.container_format {
        r.push(String::from_str("--merge-output-format"));
        r.push(clone_string(c));
    }
    r.push(String::from_str(url));
    r
}

} // verus!
