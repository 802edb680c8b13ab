//! Subtitle timestamps in the `HH:MM:SS,mmm` shape used by SRT caption
//! tracks. Times are carried as whole milliseconds; formatting truncates,
//! never rounds, so formatting and re-parsing is exact.

use vstd::prelude::*;
use crate::text::{
    DIGITS, chars_to_string, digit_value, is_digit_char, lemma_digit_char_value,
    lemma_digits_are_digits, lemma_digits_len_bound, lemma_run_len_concat,
    lemma_value_of_digits, pow10, push_digits, push_three_digits, push_two_digits,
    scan_digit_run, spec_all_digits, spec_digits, spec_run_len, spec_seq_value,
    spec_three_digits, spec_two_digits, str_to_chars,
};

verus! {

pub const MS_PER_HOUR: u64 = 3600000;
pub const MS_PER_MINUTE: u64 = 60000;
pub const MS_PER_SECOND: u64 = 1000;

pub open spec fn spec_hours_field(ms: nat) -> nat {
    ms / 3600000
}

pub open spec fn spec_minutes_field(ms: nat) -> nat {
    (ms % 3600000) / 60000
}

pub open spec fn spec_seconds_field(ms: nat) -> nat {
    ((ms % 3600000) % 60000) / 1000
}

pub open spec fn spec_millis_field(ms: nat) -> nat {
    ((ms % 3600000) % 60000) % 1000
}

/// Hours are zero padded to two digits but never truncated.
pub open spec fn spec_hours_text(h: nat) -> Seq<char> {
    if h < 100 {
        spec_two_digits(h)
    } else {
        spec_digits(h)
    }
}

/// The timestamp text for a duration of `ms` milliseconds.
pub open spec fn spec_srt_time(ms: nat) -> Seq<char> {
    spec_hours_text(spec_hours_field(ms)) + seq![':'] + spec_two_digits(spec_minutes_field(ms))
        + seq![':'] + spec_two_digits(spec_seconds_field(ms)) + seq![','] + spec_three_digits(
        spec_millis_field(ms),
    )
}

/// Formats `ms` milliseconds as `HH:MM:SS,mmm`.
pub fn format_srt_time(ms: u64) -> (r: String)
    ensures
        r@ == spec_srt_time(ms as nat),
{
    let h = ms / MS_PER_HOUR;
    let r1 = ms % MS_PER_HOUR;
    let m = r1 / MS_PER_MINUTE;
    let r2 = r1 % MS_PER_MINUTE;
    let s = r2 / MS_PER_SECOND;
    let f = r2 % MS_PER_SECOND;
    let mut out: Vec<char> = Vec::new();
    if h < 100 {
        push_two_digits(h, &mut out);
    } else {
        push_digits(h, &mut out);
    }
    out.push(':');
    push_two_digits(m, &mut out);
    out.push(':');
    push_two_digits(s, &mut out);
    out.push(',');
    push_three_digits(f, &mut out);
    proof {
        assert(out@ =~= spec_srt_time(ms as nat));
    }
    chars_to_string(&out)
}

/// Whether `c` is a decimal digit character.
pub fn is_digit(c: char) -> (r: bool)
    ensures
        r == is_digit_char(c),
{
    c >= '0' && c <= '9'
}

/// Character-wise equality of two character vectors.
pub fn chars_eq(a: &Vec<char>, b: &Vec<char>) -> (r: bool)
    ensures
        r == (a@ == b@),
{
    if a.len() != b.len() {
        return false;
    }
    let n = a.len();
    for i in 0..n
        invariant
            n == a@.len() == b@.len(),
            forall|j: int| 0 <= j < i ==> a@[j] == b@[j],
    {
        if a[i] != b[i] {
            return false;
        }
    }
    proof {
        assert(a@ =~= b@);
    }
    true
}

/// Facts about the canonical timestamp text of `w`, read off its structure:
/// where the separators sit, that every other position holds a digit, and
/// which field value each digit group reads back as.
pub proof fn lemma_srt_time_shape(w: u64)
    ensures
        ({
            let t = spec_srt_time(w as nat);
            let k = spec_run_len(t) as int;
            let h0 = spec_hours_field(w as nat);
            let m0 = spec_minutes_field(w as nat);
            let s0 = spec_seconds_field(w as nat);
            let f0 = spec_millis_field(w as nat);
            &&& spec_run_len(t) == spec_hours_text(h0).len()
            &&& 2 <= k <= 13
            &&& t.len() == k + 10
            &&& t[k] == ':'
            &&& t[k + 3] == ':'
            &&& t[k + 6] == ','
            &&& t.subrange(0, k) =~= spec_hours_text(h0)
            &&& spec_seq_value(t.subrange(0, k)) == h0
            &&& t[k + 1] == DIGITS[(m0 / 10) as int]
            &&& t[k + 2] == DIGITS[(m0 % 10) as int]
            &&& t[k + 4] == DIGITS[(s0 / 10) as int]
            &&& t[k + 5] == DIGITS[(s0 % 10) as int]
            &&& t[k + 7] == DIGITS[(f0 / 100) as int]
            &&& t[k + 8] == DIGITS[((f0 / 10) % 10) as int]
            &&& t[k + 9] == DIGITS[(f0 % 10) as int]
            &&& m0 < 60
            &&& s0 < 60
            &&& f0 < 1000
            &&& h0 * 3600000 + m0 * 60000 + s0 * 1000 + f0 == w
        }),
{
    let t = spec_srt_time(w as nat);
    let h0 = spec_hours_field(w as nat);
    let m0 = spec_minutes_field(w as nat);
    let s0 = spec_seconds_field(w as nat);
    let f0 = spec_millis_field(w as nat);
    let ht = spec_hours_text(h0);
    let rest = seq![':'] + spec_two_digits(m0) + seq![':'] + spec_two_digits(s0) + seq![',']
        + spec_three_digits(f0);
    assert(t =~= ht + rest);
    assert(spec_all_digits(ht)) by {
        if h0 < 100 {
            lemma_digit_char_value(h0 / 10);
            lemma_digit_char_value(h0 % 10);
            assert(forall|i: int| 0 <= i < ht.len() ==> is_digit_char(ht[i]));
        } else {
            lemma_digits_are_digits(h0);
        }
    }
    lemma_run_len_concat(ht, rest);
    assert(spec_run_len(t) == ht.len());
    let k = spec_run_len(t) as int;
    assert(ht.len() >= 2) by {
        if h0 >= 100 {
            lemma_digits_are_digits(h0 / 10);
        }
    }
    assert(ht.len() <= 13) by {
        if h0 >= 100 {
            assert(h0 < pow10(13)) by {
                assert(pow10(13) == 10000000000000) by {
                    reveal_with_fuel(pow10, 14);
                }
            }
            lemma_digits_len_bound(h0, 13);
        }
    }
    assert(t.subrange(0, k) =~= ht);
    assert(spec_seq_value(ht) == h0) by {
        reveal_with_fuel(spec_seq_value, 4);
        if h0 < 100 {
            lemma_digit_char_value(h0 / 10);
            lemma_digit_char_value(h0 % 10);
            assert(ht.last() == DIGITS[(h0 % 10) as int]);
            assert(ht.drop_last() =~= seq![DIGITS[(h0 / 10) as int]]);
            assert(ht.drop_last().last() == DIGITS[(h0 / 10) as int]);
            assert(ht.drop_last().drop_last() =~= Seq::<char>::empty());
        } else {
            lemma_value_of_digits(h0);
        }
    }
    assert(t[k] == rest[0]);
    assert(t[k + 1] == rest[1]);
    assert(t[k + 2] == rest[2]);
    assert(t[k + 3] == rest[3]);
    assert(t[k + 4] == rest[4]);
    assert(t[k + 5] == rest[5]);
    assert(t[k + 6] == rest[6]);
    assert(t[k + 7] == rest[7]);
    assert(t[k + 8] == rest[8]);
    assert(t[k + 9] == rest[9]);
    assert(rest[0] == ':');
    assert(rest[1] == DIGITS[(m0 / 10) as int]);
    assert(rest[2] == DIGITS[(m0 % 10) as int]);
    assert(rest[3] == ':');
    assert(rest[4] == DIGITS[(s0 / 10) as int]);
    assert(rest[5] == DIGITS[(s0 % 10) as int]);
    assert(rest[6] == ',');
    assert(rest[7] == DIGITS[(f0 / 100) as int]);
    assert(rest[8] == DIGITS[((f0 / 10) % 10) as int]);
    assert(rest[9] == DIGITS[(f0 % 10) as int]);
}

/// Positions and digit groups a timestamp text must show: a hour run of
/// two to thirteen digits, `:`, two digits, `:`, two digits, `,`, three
/// digits, with minutes and seconds below sixty.
pub open spec fn spec_fields_ok(v: Seq<char>) -> bool {
    let k = spec_run_len(v) as int;
    &&& 2 <= k <= 13
    &&& v.len() == k + 10
    &&& v[k] == ':'
    &&& v[k + 3] == ':'
    &&& v[k + 6] == ','
    &&& is_digit_char(v[k + 1])
    &&& is_digit_char(v[k + 2])
    &&& is_digit_char(v[k + 4])
    &&& is_digit_char(v[k + 5])
    &&& is_digit_char(v[k + 7])
    &&& is_digit_char(v[k + 8])
    &&& is_digit_char(v[k + 9])
    &&& spec_minutes_of(v) < 60
    &&& spec_seconds_of(v) < 60
}

pub open spec fn spec_hours_of(v: Seq<char>) -> nat {
    spec_seq_value(v.subrange(0, spec_run_len(v) as int))
}

pub open spec fn spec_minutes_of(v: Seq<char>) -> nat {
    let k = spec_run_len(v) as int;
    digit_value(v[k + 1]) * 10 + digit_value(v[k + 2])
}

pub open spec fn spec_seconds_of(v: Seq<char>) -> nat {
    let k = spec_run_len(v) as int;
    digit_value(v[k + 4]) * 10 + digit_value(v[k + 5])
}

pub open spec fn spec_millis_of(v: Seq<char>) -> nat {
    let k = spec_run_len(v) as int;
    digit_value(v[k + 7]) * 100 + digit_value(v[k + 8]) * 10 + digit_value(v[k + 9])
}

/// The canonical text of `w` shows the field shape, and its digit groups
/// read back as `w`'s fields.
pub proof fn lemma_canonical_fields(w: u64)
    ensures
        spec_fields_ok(spec_srt_time(w as nat)),
        spec_hours_of(spec_srt_time(w as nat)) == spec_hours_field(w as nat),
        spec_minutes_of(spec_srt_time(w as nat)) == spec_minutes_field(w as nat),
        spec_seconds_of(spec_srt_time(w as nat)) == spec_seconds_field(w as nat),
        spec_millis_of(spec_srt_time(w as nat)) == spec_millis_field(w as nat),
{
    lemma_srt_time_shape(w);
    let m0 = spec_minutes_field(w as nat);
    let s0 = spec_seconds_field(w as nat);
    let f0 = spec_millis_field(w as nat);
    lemma_digit_char_value(m0 / 10);
    lemma_digit_char_value(m0 % 10);
    lemma_digit_char_value(s0 / 10);
    lemma_digit_char_value(s0 % 10);
    lemma_digit_char_value(f0 / 100);
    lemma_digit_char_value((f0 / 10) % 10);
    lemma_digit_char_value(f0 % 10);
    assert(f0 / 100 == (f0 / 10) / 10) by (nonlinear_arith);
    assert((f0 / 100) * 100 + ((f0 / 10) % 10) * 10 + f0 % 10 == f0);
}

/// Reads the digit groups of a candidate timestamp; yields hours, minutes,
/// seconds and milliseconds exactly when the text shows the field shape.
fn split_time_fields(v: &Vec<char>) -> (r: Option<(u64, u64, u64, u64)>)
    ensures
        spec_fields_ok(v@) ==> r == Some(
            (
                spec_hours_of(v@) as u64,
                spec_minutes_of(v@) as u64,
                spec_seconds_of(v@) as u64,
                spec_millis_of(v@) as u64,
            ),
        ),
        !spec_fields_ok(v@) ==> r is None,
{
    proof {
        assert(v@.skip(0) =~= v@);
    }
    let scanned = scan_digit_run(v, 0);
    let (h, k) = match scanned {
        Some(p) => p,
        None => {
            return None;
        },
    };
    if k < 2 || v.len() != k + 10 {
        return None;
    }
    if !(v[k] == ':' && v[k + 3] == ':' && v[k + 6] == ',') {
        return None;
    }
    if !(is_digit(v[k + 1]) && is_digit(v[k + 2]) && is_digit(v[k + 4]) && is_digit(v[k + 5])
        && is_digit(v[k + 7]) && is_digit(v[k + 8]) && is_digit(v[k + 9])) {
        return None;
    }
    let m = (v[k + 1] as u64 - 48) * 10 + (v[k + 2] as u64 - 48);
    let s = (v[k + 4] as u64 - 48) * 10 + (v[k + 5] as u64 - 48);
    let f = (v[k + 7] as u64 - 48) * 100 + (v[k + 8] as u64 - 48) * 10 + (v[k + 9] as u64 - 48);
    if m >= 60 || s >= 60 {
        return None;
    }
    Some((h, m, s, f))
}

/// The canonical text of `w` shows the field shape, and the duration read
/// back from its digit groups is `w` itself.
pub proof fn lemma_canonical_value(w: u64)
    ensures
        ({
            let t = spec_srt_time(w as nat);
            &&& spec_fields_ok(t)
            &&& spec_hours_of(t) * 3600000 + spec_minutes_of(t) * 60000 + spec_seconds_of(t)
                * 1000 + spec_millis_of(t) == w
        }),
{
    lemma_canonical_fields(w);
    lemma_srt_time_shape(w);
}

/// Strict parser for `HH:MM:SS,mmm` timestamps: succeeds exactly on the
/// canonical text of some duration, and then returns that duration. Together
/// with `format_srt_time` this says that formatting a duration and re-parsing
/// the text gives the duration back unchanged.
pub fn parse_srt_time(text: &str) -> (r: Option<u64>)
    ensures
        r matches Some(ms) ==> text@ == spec_srt_time(ms as nat),
        forall|ms: u64| text@ == spec_srt_time(ms as nat) ==> r == Some(ms),
{
    let v = str_to_chars(text);
    let fields = match split_time_fields(&v) {
        Some(q) => q,
        None => {
            proof {
                assert forall|ms2: u64| text@ == spec_srt_time(ms2 as nat) implies false by {
                    lemma_canonical_value(ms2);
                }
            }
            return None;
        },
    };
    let (h, m, s, f) = fields;
    let total: u128 = (h as u128) * 3600000 + (m as u128) * 60000 + (s as u128) * 1000 + (
    f as u128);
    proof {
        assert forall|ms2: u64| text@ == spec_srt_time(ms2 as nat) implies total == ms2 by {
            lemma_canonical_value(ms2);
        }
    }
    if total > u64::MAX as u128 {
        return None;
    }
    let ms = total as u64;
    let formatted = format_srt_time(ms);
    let fv = str_to_chars(formatted.as_str());
    if chars_eq(&v, &fv) {
        Some(ms)
    } else {
        None
    }
}

} // verus!
