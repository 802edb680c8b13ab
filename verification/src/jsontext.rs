//! Hand-rolled scanners for the inference tools' textual output: the
//! `"text"` field of a JSON result line, and the decimal seconds a duration
//! probe prints. Both tolerate malformed input by yielding nothing.

use vstd::prelude::*;
use crate::captions::spec_trim;
use crate::captions::trim_chars;
use crate::text::{
    chars_to_string, digit_value, is_digit_char, scan_digit_run, spec_run_len, spec_seq_value,
    str_to_chars,
};

verus! {

/// Index of the first occurrence of `pat`, or -1.
pub open spec fn spec_find_sub(s: Seq<char>, pat: Seq<char>) -> int
    decreases s.len(),
{
    if s.len() < pat.len() {
        -1
    } else if s.take(pat.len() as int) == pat {
        0
    } else if s.len() == 0 {
        -1
    } else {
        let t = spec_find_sub(s.drop_first(), pat);
        if t < 0 {
            -1
        } else {
            t + 1
        }
    }
}

/// The first-occurrence characterisation of `spec_find_sub`.
pub proof fn lemma_find_sub(s: Seq<char>, pat: Seq<char>)
    ensures
        -1 <= spec_find_sub(s, pat),
        spec_find_sub(s, pat) >= 0 ==> spec_find_sub(s, pat) + pat.len() <= s.len(),
        spec_find_sub(s, pat) >= 0 ==> s.subrange(
            spec_find_sub(s, pat),
            spec_find_sub(s, pat) + pat.len(),
        ) == pat,
        forall|t: int|
            0 <= t < spec_find_sub(s, pat) ==> #[trigger] s.subrange(t, t + pat.len()) != pat,
        spec_find_sub(s, pat) < 0 ==> forall|t: int|
            0 <= t <= s.len() - pat.len() ==> #[trigger] s.subrange(t, t + pat.len()) != pat,
    decreases s.len(),
{
    if s.len() < pat.len() {
        assert(forall|t: int|
            0 <= t <= s.len() - pat.len() ==> #[trigger] s.subrange(t, t + pat.len()) != pat);
    } else if s.take(pat.len() as int) == pat {
        assert(s.subrange(0, pat.len() as int) =~= s.take(pat.len() as int));
    } else if s.len() == 0 {
        assert(s.take(pat.len() as int) =~= s);
    } else {
        lemma_find_sub(s.drop_first(), pat);
        let fs = spec_find_sub(s, pat);
        assert(s.subrange(0, pat.len() as int) =~= s.take(pat.len() as int));
        assert forall|t: int|
            1 <= t && ((fs >= 0 && t < fs) || (fs < 0 && t <= s.len()
                - pat.len())) implies #[trigger] s.subrange(t, t + pat.len()) != pat by {
            assert(s.drop_first().subrange(t - 1, t - 1 + pat.len()) =~= s.subrange(
                t,
                t + pat.len(),
            ));
        }
        if fs >= 0 {
            assert(s.drop_first().subrange(fs - 1, fs - 1 + pat.len()) =~= s.subrange(
                fs,
                fs + pat.len(),
            ));
        }
    }
}

/// Finds the first occurrence of `pat` in `v`.
pub fn find_first_sub(v: &Vec<char>, pat: &str) -> (r: Option<usize>)
    ensures
        r matches Some(i) ==> i as int == spec_find_sub(v@, pat@),
        r is None ==> spec_find_sub(v@, pat@) < 0,
{
    proof {
        lemma_find_sub(v@, pat@);
    }
    let p = str_to_chars(pat);
    if p.len() == 0 {
        proof {
            assert(v@.take(0) =~= pat@);
        }
        return Some(0);
    }
    if p.len() > v.len() {
        return None;
    }
    let last = v.len() - p.len();
    let mut k: usize = 0;
    while k <= last
        invariant
            p@ == pat@,
            p@.len() >= 1,
            p@.len() <= v@.len(),
            last == v@.len() - p@.len(),
            last < usize::MAX,
            k <= last + 1,
            forall|t: int| 0 <= t < k ==> #[trigger] v@.subrange(t, t + pat@.len()) != pat@,
        decreases last + 1 - k,
    {
        if crate::ytdlp::matches_at(v, &p, k) {
            proof {
                lemma_find_sub(v@, pat@);
                let fs = spec_find_sub(v@, pat@);
                if fs < 0 || fs > k {
                    assert(v@.subrange(k as int, k as int + pat@.len()) != pat@);
                    assert(false);
                }
                if fs < k {
                    assert(v@.subrange(fs, fs + pat@.len()) != pat@);
                    assert(false);
                }
            }
            return Some(k);
        }
        proof {
            assert(v@.subrange(k as int, k as int + pat@.len()) != pat@);
        }
        k = k + 1;
    }
    proof {
        lemma_find_sub(v@, pat@);
        let fs = spec_find_sub(v@, pat@);
        if fs >= 0 {
            assert(v@.subrange(fs, fs + pat@.len()) != pat@);
            assert(false);
        }
    }
    None
}

/// The index of the quote closing a JSON string scanned from `i`, honoring
/// backslash escapes; -1 when none closes it.
pub open spec fn spec_close_quote(s: Seq<char>, i: int, escaped: bool) -> int
    decreases s.len() - i,
{
    if i < 0 || i >= s.len() {
        -1
    } else if escaped {
        spec_close_quote(s, i + 1, false)
    } else if s[i] == '\\' {
        spec_close_quote(s, i + 1, true)
    } else if s[i] == '"' {
        i
    } else {
        spec_close_quote(s, i + 1, false)
    }
}

/// What `parse_json_text_field` yields: the escaped body of the string
/// standing after the first `"text":` key, or nothing when the shape is not
/// there (an empty string body also yields nothing).
pub open spec fn spec_json_text_field(j: Seq<char>) -> Seq<char> {
    let f = spec_find_sub(j, "\"text\":"@);
    if f < 0 {
        seq![]
    } else {
        let after = j.skip(f + 7);
        let q = spec_find_sub(after, "\""@);
        if q < 0 {
            seq![]
        } else {
            let content = after.skip(q + 1);
            let e = spec_close_quote(content, 0, false);
            if e <= 0 {
                seq![]
            } else {
                content.take(e)
            }
        }
    }
}

/// Pulls the `"text"` field out of an inference tool's JSON output line.
pub fn parse_json_text_field(json_str: &str) -> (r: String)
    ensures
        r@ == spec_json_text_field(json_str@),
{
    let v = str_to_chars(json_str);
    let f = match find_first_sub(&v, "\"text\":") {
        Some(i) => i,
        None => {
            return String::new();
        },
    };
    let nv = v.len();
    proof {
        lemma_find_sub(v@, "\"text\":"@);
        reveal_strlit("\"text\":");
        assert(f + 7 <= nv);
    }
    let mut after: Vec<char> = Vec::new();
    let mut i = f + 7;
    while i < v.len()
        invariant
            f + 7 <= i <= v@.len(),
            after@ =~= v@.subrange(f + 7, i as int),
        decreases v@.len() - i,
    {
        after.push(v[i]);
        proof {
            assert(v@.subrange(f + 7, i as int).push(v@[i as int]) =~= v@.subrange(
                f + 7,
                i + 1,
            ));
        }
        i = i + 1;
    }
    proof {
        assert(after@ =~= v@.skip(f + 7));
    }
    let q = match find_first_sub(&after, "\"") {
        Some(i2) => i2,
        None => {
            return String::new();
        },
    };
    proof {
        lemma_find_sub(after@, "\""@);
        reveal_strlit("\"");
        assert(q + 1 <= after@.len());
    }
    let ghost content = after@.skip(q + 1);
    let mut end: usize = 0;
    let mut escaped = false;
    let mut found = false;
    let mut k: usize = 0;
    let n = after.len();
    while q + 1 + k < n && !found
        invariant
            q + 1 <= n,
            n == after@.len(),
            content == after@.skip(q + 1),
            k <= content.len(),
            !found ==> spec_close_quote(content, 0, false) == spec_close_quote(
                content,
                k as int,
                escaped,
            ),
            found ==> end as int == spec_close_quote(content, 0, false) && end < content.len(),
        decreases n - (q + 1 + k),
    {
        let c = after[q + 1 + k];
        proof {
            assert(content[k as int] == after@[q + 1 + k]);
        }
        if escaped {
            escaped = false;
        } else if c == '\\' {
            escaped = true;
        } else if c == '"' {
            end = k;
            found = true;
        }
        k = k + 1;
    }
    proof {
        if !found {
            assert(k as int == content.len());
            assert(spec_close_quote(content, k as int, escaped) == -1);
        }
    }
    if !found || end == 0 {
        proof {
            if found {
                assert(spec_close_quote(content, 0, false) == 0);
            } else {
                assert(spec_close_quote(content, 0, false) == -1);
            }
        }
        return String::new();
    }
    let mut out: Vec<char> = Vec::new();
    let mut t: usize = 0;
    while t < end
        invariant
            t <= end,
            q + 1 + end < after@.len() + 1,
            end <= content.len(),
            content == after@.skip(q + 1),
            n == after@.len(),
            q + 1 <= n,
            out@ =~= content.subrange(0, t as int),
        decreases end - t,
    {
        out.push(after[q + 1 + t]);
        proof {
            assert(content[t as int] == after@[q + 1 + t]);
            assert(content.subrange(0, t as int).push(content[t as int]) =~= content.subrange(
                0,
                t + 1,
            ));
        }
        t = t + 1;
    }
    proof {
        assert(out@ =~= content.take(end as int));
    }
    chars_to_string(&out)
}

/// What a printed duration reads as, in milliseconds: whole seconds, then
/// up to three fractional digits, further digits truncated; anything not of
/// the shape `digits` or `digits.digits` yields nothing.
pub open spec fn spec_duration_ms(s: Seq<char>) -> Option<nat> {
    let t = spec_trim(s);
    let k = spec_run_len(t) as int;
    if k < 1 || k > 13 {
        Option::None
    } else {
        let whole = spec_seq_value(t.take(k));
        if t.len() == k {
            Some(whole * 1000)
        } else if t[k] == '.' && (forall|j: int| k < j < t.len() ==> is_digit_char(t[j])) {
            let fr = t.skip(k + 1);
            let f = (if fr.len() >= 1 {
                digit_value(fr[0]) * 100
            } else {
                0
            }) + (if fr.len() >= 2 {
                digit_value(fr[1]) * 10
            } else {
                0
            }) + (if fr.len() >= 3 {
                digit_value(fr[2])
            } else {
                0
            });
            Some(whole * 1000 + f)
        } else {
            Option::None
        }
    }
}

/// Reads a duration probe's output as milliseconds.
pub fn parse_duration_ms(text: &str) -> (r: Option<u64>)
    ensures
        r matches Some(ms) ==> spec_duration_ms(text@) == Some(ms as nat),
        r is None ==> spec_duration_ms(text@) is None,
{
    let chars = str_to_chars(text);
    let t = trim_chars(&chars);
    proof {
        assert(t@.skip(0) =~= t@);
    }
    let scanned = scan_digit_run(&t, 0);
    let (whole, k) = match scanned {
        Some(p) => p,
        None => {
            return None;
        },
    };
    if k < 1 {
        return None;
    }
    proof {
        assert(t@.take(k as int) =~= t@.subrange(0, k as int));
        crate::text::lemma_run_prefix_digits(t@);
        crate::text::lemma_value_bound(t@.subrange(0, k as int));
        assert(crate::text::pow10(13) == 10000000000000) by {
            reveal_with_fuel(crate::text::pow10, 14);
        }
        crate::text::lemma_pow10_le(spec_run_len(t@), 13);
    }
    if t.len() == k {
        return Some(whole * 1000);
    }
    if !(t[k] == '.') {
        return None;
    }
    let mut j = k + 1;
    while j < t.len()
        invariant
            k + 1 <= j <= t@.len(),
            k as int == spec_run_len(t@),
            1 <= k <= 13,
            t@ == spec_trim(text@),
            k < t@.len(),
            t@[k as int] == '.',
            forall|x: int| k < x < j ==> is_digit_char(t@[x]),
        decreases t@.len() - j,
    {
        if !(t[j] >= '0' && t[j] <= '9') {
            return None;
        }
        j = j + 1;
    }
    let d1: u64 = if t.len() > k + 1 {
        t[k + 1] as u64 - 48
    } else {
        0
    };
    let d2: u64 = if t.len() > k + 2 {
        t[k + 2] as u64 - 48
    } else {
        0
    };
    let d3: u64 = if t.len() > k + 3 {
        t[k + 3] as u64 - 48
    } else {
        0
    };
    proof {
        let fr = t@.skip(k + 1);
        if t@.len() > k + 1 {
            assert(fr[0] == t@[k + 1]);
        }
        if t@.len() > k + 2 {
            assert(fr[1] == t@[k + 2]);
        }
        if t@.len() > k + 3 {
            assert(fr[2] == t@[k + 3]);
        }
    }
    Some(whole * 1000 + d1 * 100 + d2 * 10 + d3)
}


/// The characters between the `[` following `key` and the next `]`.
pub open spec fn spec_bracket_content(j: Seq<char>, key: Seq<char>) -> Option<Seq<char>> {
    let f = spec_find_sub(j, key);
    if f < 0 {
        Option::None
    } else {
        let after = j.skip(f + key.len());
        let b = spec_find_sub(after, "["@);
        if b < 0 {
            Option::None
        } else {
            let inner = after.skip(b + 1);
            let e = spec_find_sub(inner, "]"@);
            if e < 0 {
                Option::None
            } else {
                Some(inner.take(e))
            }
        }
    }
}

/// Pulls out the bracketed list following `key`, when the shape is there.
pub fn bracket_content(json: &str, key: &str) -> (r: Option<Vec<char>>)
    ensures
        r matches Some(c) ==> spec_bracket_content(json@, key@) == Some(c@),
        r is None ==> spec_bracket_content(json@, key@) is None,
{
    let v = str_to_chars(json);
    let f = match find_first_sub(&v, key) {
        Some(i) => i,
        None => {
            return None;
        },
    };
    let klen = str_to_chars(key).len();
    let nv = v.len();
    proof {
        lemma_find_sub(v@, key@);
        assert(f + klen <= nv);
    }
    let mut after: Vec<char> = Vec::new();
    let mut i = f + klen;
    while i < v.len()
        invariant
            f + klen <= i <= v@.len(),
            after@ =~= v@.subrange(f + klen, i as int),
        decreases v@.len() - i,
    {
        after.push(v[i]);
        proof {
            assert(v@.subrange(f + klen, i as int).push(v@[i as int]) =~= v@.subrange(
                f + klen,
                i + 1,
            ));
        }
        i = i + 1;
    }
    proof {
        assert(after@ =~= v@.skip(f + klen));
    }
    let b = match find_first_sub(&after, "[") {
        Some(i2) => i2,
        None => {
            return None;
        },
    };
    proof {
        lemma_find_sub(after@, "["@);
        reveal_strlit("[");
    }
    let mut inner: Vec<char> = Vec::new();
    let mut i2 = b + 1;
    while i2 < after.len()
        invariant
            b + 1 <= i2 <= after@.len(),
            inner@ =~= after@.subrange(b + 1, i2 as int),
        decreases after@.len() - i2,
    {
        inner.push(after[i2]);
        proof {
            assert(after@.subrange(b + 1, i2 as int).push(after@[i2 as int]) =~= after@.subrange(
                b + 1,
                i2 + 1,
            ));
        }
        i2 = i2 + 1;
    }
    proof {
        assert(inner@ =~= after@.skip(b + 1));
    }
    let e = match find_first_sub(&inner, "]") {
        Some(i3) => i3,
        None => {
            return None;
        },
    };
    proof {
        lemma_find_sub(inner@, "]"@);
        reveal_strlit("]");
    }
    let mut out: Vec<char> = Vec::new();
    let mut i3: usize = 0;
    while i3 < e
        invariant
            i3 <= e <= inner@.len(),
            out@ =~= inner@.subrange(0, i3 as int),
        decreases e - i3,
    {
        out.push(inner[i3]);
        proof {
            assert(inner@.subrange(0, i3 as int).push(inner@[i3 as int]) =~= inner@.subrange(
                0,
                i3 + 1,
            ));
        }
        i3 = i3 + 1;
    }
    proof {
        assert(out@ =~= inner@.take(e as int));
    }
    Some(out)
}

/// The readable durations among comma-separated pieces, scanned from `i`
/// with `cur` the piece accumulated so far; unreadable pieces are skipped.
pub open spec fn spec_ts_list(s: Seq<char>, i: int, cur: Seq<char>) -> Seq<nat>
    decreases s.len() - i,
{
    if i < 0 || i >= s.len() {
        match spec_duration_ms(cur) {
            Some(ms) => seq![ms],
            Option::None => seq![],
        }
    } else if s[i] == ',' {
        (match spec_duration_ms(cur) {
            Some(ms) => seq![ms],
            Option::None => seq![],
        }) + spec_ts_list(s, i + 1, seq![])
    } else {
        spec_ts_list(s, i + 1, cur.push(s[i]))
    }
}

/// The timestamp offsets of an inference result line, in milliseconds.
pub open spec fn spec_sherpa_timestamps(j: Seq<char>) -> Seq<nat> {
    match spec_bracket_content(j, "\"timestamps\":"@) {
        Some(content) => spec_ts_list(content, 0, seq![]),
        Option::None => seq![],
    }
}

/// Reads the `"timestamps"` array of an inference result line as
/// milliseconds, skipping pieces that do not read as decimal seconds.
pub fn parse_sherpa_timestamps(json: &str) -> (r: Vec<u64>)
    ensures
        r@.map_values(|x: u64| x as nat) == spec_sherpa_timestamps(json@),
{
    let content = match bracket_content(json, "\"timestamps\":") {
        Some(c) => c,
        None => {
            let r: Vec<u64> = Vec::new();
            proof {
                assert(r@.map_values(|x: u64| x as nat) =~= spec_sherpa_timestamps(json@));
            }
            return r;
        },
    };
    let mut r: Vec<u64> = Vec::new();
    let mut piece: Vec<char> = Vec::new();
    let n = content.len();
    for i in 0..n
        invariant
            n == content@.len(),
            spec_ts_list(content@, 0, seq![]) =~= r@.map_values(|x: u64| x as nat)
                + spec_ts_list(content@, i as int, piece@),
    {
        let ghost prev = r@.map_values(|x: u64| x as nat);
        let ghost piecev = piece@;
        if content[i] == ',' {
            let text = chars_to_string(&piece);
            match parse_duration_ms(text.as_str()) {
                Some(ms) => {
                    r.push(ms);
                    proof {
                        assert(r@.map_values(|x: u64| x as nat) =~= prev.push(ms as nat));
                        assert(prev.push(ms as nat) =~= prev + seq![ms as nat]);
                        assert((prev + seq![ms as nat]) + spec_ts_list(content@, i + 1, seq![])
                            =~= prev + (seq![ms as nat] + spec_ts_list(content@, i + 1, seq![])));
                    }
                },
                None => {},
            }
            piece = Vec::new();
        } else {
            piece.push(content[i]);
        }
    }
    let text = chars_to_string(&piece);
    let ghost prev = r@.map_values(|x: u64| x as nat);
    match parse_duration_ms(text.as_str()) {
        Some(ms) => {
            r.push(ms);
            proof {
                assert(r@.map_values(|x: u64| x as nat) =~= prev.push(ms as nat));
                assert(prev.push(ms as nat) =~= prev + seq![ms as nat]);
            }
        },
        None => {},
    }
    proof {
        assert(r@.map_values(|x: u64| x as nat) =~= spec_sherpa_timestamps(json@));
    }
    r
}

/// The quoted strings of a JSON array body, honoring backslash escapes,
/// scanned from `i`; an unterminated final string is dropped.
pub open spec fn spec_token_scan(
    s: Seq<char>,
    i: int,
    in_string: bool,
    escaped: bool,
    cur: Seq<char>,
) -> Seq<Seq<char>>
    decreases s.len() - i,
{
    if i < 0 || i >= s.len() {
        seq![]
    } else if escaped {
        spec_token_scan(s, i + 1, in_string, false, cur.push(s[i]))
    } else if s[i] == '\\' {
        spec_token_scan(s, i + 1, in_string, true, cur)
    } else if s[i] == '"' {
        if in_string {
            seq![cur] + spec_token_scan(s, i + 1, false, false, seq![])
        } else {
            spec_token_scan(s, i + 1, true, false, cur)
        }
    } else if in_string {
        spec_token_scan(s, i + 1, true, false, cur.push(s[i]))
    } else {
        spec_token_scan(s, i + 1, false, false, cur)
    }
}

/// The token strings of an inference result line.
pub open spec fn spec_sherpa_tokens(j: Seq<char>) -> Seq<Seq<char>> {
    match spec_bracket_content(j, "\"tokens\":"@) {
        Some(content) => spec_token_scan(content, 0, false, false, seq![]),
        Option::None => seq![],
    }
}

/// Reads the `"tokens"` array of an inference result line.
pub fn parse_sherpa_tokens(json: &str) -> (r: Vec<String>)
    ensures
        r@.map_values(|t: String| t@) == spec_sherpa_tokens(json@),
{
    let content = match bracket_content(json, "\"tokens\":") {
        Some(c) => c,
        None => {
            let r: Vec<String> = Vec::new();
            proof {
                assert(r@.map_values(|t: String| t@) =~= spec_sherpa_tokens(json@));
            }
            return r;
        },
    };
    let mut r: Vec<String> = Vec::new();
    let mut cur: Vec<char> = Vec::new();
    let mut in_string = false;
    let mut escaped = false;
    let n = content.len();
    for i in 0..n
        invariant
            n == content@.len(),
            spec_token_scan(content@, 0, false, false, seq![]) =~= r@.map_values(
                |t: String| t@,
            ) + spec_token_scan(content@, i as int, in_string, escaped, cur@),
    {
        let ghost prev = r@.map_values(|t: String| t@);
        let ghost curv = cur@;
        let c = content[i];
        if escaped {
            cur.push(c);
            escaped = false;
        } else if c == '\\' {
            escaped = true;
        } else if c == '"' {
            if in_string {
                r.push(chars_to_string(&cur));
                proof {
                    assert(r@.map_values(|t: String| t@) =~= prev.push(curv));
                    assert(prev.push(curv) =~= prev + seq![curv]);
                    assert((prev + seq![curv]) + spec_token_scan(
                        content@,
                        i + 1,
                        false,
                        false,
                        seq![],
                    ) =~= prev + (seq![curv] + spec_token_scan(
                        content@,
                        i + 1,
                        false,
                        false,
                        seq![],
                    )));
                }
                cur = Vec::new();
                in_string = false;
            } else {
                in_string = true;
            }
        } else if in_string {
            cur.push(c);
        }
    }
    proof {
        assert(r@.map_values(|t: String| t@) =~= spec_sherpa_tokens(json@));
    }
    r
}

/// The result line an interpreter-based engine prints: the last line that
/// starts with `{` and names a `"text"` field, searched from the end.
pub open spec fn spec_find_json_line(lines: Seq<Seq<char>>, i: int) -> Option<Seq<char>>
    decreases i + 1,
{
    if i < 0 || i >= lines.len() {
        Option::None
    } else {
        let t = crate::captions::spec_trim(lines[i]);
        if t.len() > 0 && t[0] == '{' && spec_find_sub(t, "\"text\":"@) >= 0 {
            Some(t)
        } else {
            spec_find_json_line(lines, i - 1)
        }
    }
}

/// Finds the JSON result line in captured output, scanning from the end.
pub fn find_json_line(lines: &Vec<String>) -> (r: Option<String>)
    ensures
        ({
            let views = lines@.map_values(|l: String| l@);
            match r {
                Some(t) => spec_find_json_line(views, views.len() - 1) == Some(t@),
                Option::None => spec_find_json_line(views, views.len() - 1) is None,
            }
        }),
{
    let ghost views = lines@.map_values(|l: String| l@);
    let mut i = lines.len();
    while i > 0
        invariant
            i <= lines@.len(),
            views == lines@.map_values(|l: String| l@),
            spec_find_json_line(views, views.len() - 1) == spec_find_json_line(
                views,
                i as int - 1,
            ),
        decreases i,
    {
        i = i - 1;
        let chars = str_to_chars(lines[i].as_str());
        let t = trim_chars(&chars);
        proof {
            assert(views[i as int] == lines@[i as int]@);
        }
        let is_hit = t.len() > 0 && t[0] == '{' && find_first_sub(&t, "\"text\":").is_some();
        if is_hit {
            return Some(chars_to_string(&t));
        }
    }
    None
}

} // verus!
