//! Character-level text utilities shared by the subtitle and parser modules.
//!
//! Verified code works on `Vec<char>` / `Seq<char>`; two trusted wrappers
//! move between `str` (whose view is the same `Seq<char>`) and `Vec<char>`.

use vstd::prelude::*;

verus! {

/// Relies on `str::chars`: yields exactly the characters of the string, in order.
#[verifier::external_body]
pub fn str_to_chars(s: &str) -> (r: Vec<char>)
    ensures
        r@ == s@,
{
    s.chars().collect()
}

/// Relies on `String::from_iter` over `char`: the collected string holds
/// exactly the characters of the iterator, in order.
#[verifier::external_body]
pub fn chars_to_string(v: &Vec<char>) -> (r: String)
    ensures
        r@ == v@,
{
    v.iter().collect()
}

/// Character-wise equality of two string slices.
pub fn str_eq(a: &str, b: &str) -> (r: bool)
    ensures
        r == (a@ == b@),
{
    let av = String::from_str(a);
    let bv = String::from_str(b);
    av.eq(&bv)
}

pub const DIGITS: [char; 10] = ['0', '1', '2', '3', '4', '5', '6', '7', '8', '9'];

/// Decimal digit characters of `n`, most significant first, no leading zeros
/// (a single `'0'` for zero).
pub open spec fn spec_digits(n: nat) -> Seq<char>
    decreases n,
{
    if n < 10 {
        seq![DIGITS[n as int]]
    } else {
        spec_digits(n / 10) + seq![DIGITS[(n % 10) as int]]
    }
}

pub open spec fn is_digit_char(c: char) -> bool {
    '0' <= c <= '9'
}

/// Numeric value of a digit character.
pub open spec fn digit_value(c: char) -> nat {
    (c as nat - '0' as nat) as nat
}

pub proof fn lemma_digits_are_digits(n: nat)
    ensures
        spec_digits(n).len() >= 1,
        forall|i: int|
            0 <= i < spec_digits(n).len() ==> #[trigger] is_digit_char(spec_digits(n)[i]),
    decreases n,
{
    if n >= 10 {
        lemma_digits_are_digits(n / 10);
        assert(forall|i: int|
            0 <= i < spec_digits(n / 10).len() ==> #[trigger] is_digit_char(
                spec_digits(n / 10)[i],
            ));
    }
}

/// Appends the decimal digits of `n` to `out`.
pub fn push_digits(n: u64, out: &mut Vec<char>)
    ensures
        final(out)@ == old(out)@ + spec_digits(n as nat),
    decreases n,
{
    if n < 10 {
        out.push(DIGITS[n as usize]);
    } else {
        push_digits(n / 10, out);
        out.push(DIGITS[(n % 10) as usize]);
    }
}

/// Exactly two digit characters for `n < 100`, zero padded.
pub open spec fn spec_two_digits(n: nat) -> Seq<char> {
    seq![DIGITS[(n / 10) as int], DIGITS[(n % 10) as int]]
}

pub fn push_two_digits(n: u64, out: &mut Vec<char>)
    requires
        n < 100,
    ensures
        final(out)@ == old(out)@ + spec_two_digits(n as nat),
{
    out.push(DIGITS[(n / 10) as usize]);
    out.push(DIGITS[(n % 10) as usize]);
}

/// Exactly three digit characters for `n < 1000`, zero padded.
pub open spec fn spec_three_digits(n: nat) -> Seq<char> {
    seq![DIGITS[(n / 100) as int], DIGITS[((n / 10) % 10) as int], DIGITS[(n % 10) as int]]
}

pub fn push_three_digits(n: u64, out: &mut Vec<char>)
    requires
        n < 1000,
    ensures
        final(out)@ == old(out)@ + spec_three_digits(n as nat),
{
    out.push(DIGITS[(n / 100) as usize]);
    out.push(DIGITS[((n / 10) % 10) as usize]);
    out.push(DIGITS[(n % 10) as usize]);
}

pub open spec fn spec_all_digits(s: Seq<char>) -> bool {
    forall|i: int| 0 <= i < s.len() ==> is_digit_char(s[i])
}

/// Length of the maximal digit prefix of `s`.
pub open spec fn spec_run_len(s: Seq<char>) -> nat
    decreases s.len(),
{
    if s.len() == 0 || !is_digit_char(s[0]) {
        0
    } else {
        1 + spec_run_len(s.drop_first())
    }
}

/// Numeric value of a sequence of digit characters, read in base ten.
pub open spec fn spec_seq_value(s: Seq<char>) -> nat
    decreases s.len(),
{
    if s.len() == 0 {
        0
    } else {
        spec_seq_value(s.drop_last()) * 10 + digit_value(s.last())
    }
}

pub open spec fn pow10(k: nat) -> nat
    decreases k,
{
    if k == 0 {
        1
    } else {
        10 * pow10((k - 1) as nat)
    }
}

/// The character standing for a digit reads back as that digit.
pub proof fn lemma_digit_char_value(d: nat)
    requires
        d < 10,
    ensures
        digit_value(DIGITS[d as int]) == d,
        is_digit_char(DIGITS[d as int]),
{
    if d == 0 {
        assert(DIGITS[0] == '0');
    } else if d == 1 {
        assert(DIGITS[1] == '1');
    } else if d == 2 {
        assert(DIGITS[2] == '2');
    } else if d == 3 {
        assert(DIGITS[3] == '3');
    } else if d == 4 {
        assert(DIGITS[4] == '4');
    } else if d == 5 {
        assert(DIGITS[5] == '5');
    } else if d == 6 {
        assert(DIGITS[6] == '6');
    } else if d == 7 {
        assert(DIGITS[7] == '7');
    } else if d == 8 {
        assert(DIGITS[8] == '8');
    } else {
        assert(DIGITS[9] == '9');
    }
}

/// Reading back the digit characters of `n` yields `n`.
pub proof fn lemma_value_of_digits(n: nat)
    ensures
        spec_seq_value(spec_digits(n)) == n,
    decreases n,
{
    if n < 10 {
        lemma_digit_char_value(n);
        assert(spec_digits(n).last() == DIGITS[n as int]);
        assert(spec_digits(n).drop_last() =~= Seq::<char>::empty());
        assert(spec_seq_value(Seq::<char>::empty()) == 0);
    } else {
        lemma_value_of_digits(n / 10);
        lemma_digit_char_value(n % 10);
        assert(spec_digits(n).last() == DIGITS[(n % 10) as int]);
        assert(spec_digits(n).drop_last() =~= spec_digits(n / 10));
    }
}

/// A digit run stops exactly at the first non-digit.
pub proof fn lemma_run_len_concat(ds: Seq<char>, rest: Seq<char>)
    requires
        spec_all_digits(ds),
        rest.len() > 0 ==> !is_digit_char(rest[0]),
    ensures
        spec_run_len(ds + rest) == ds.len(),
    decreases ds.len(),
{
    if ds.len() == 0 {
        assert(ds + rest =~= rest);
    } else {
        assert((ds + rest)[0] == ds[0]);
        assert((ds + rest).drop_first() =~= ds.drop_first() + rest);
        lemma_run_len_concat(ds.drop_first(), rest);
    }
}

pub proof fn lemma_digits_len_bound(n: nat, k: nat)
    requires
        n < pow10(k),
        k >= 1,
    ensures
        spec_digits(n).len() <= k,
    decreases n,
{
    if n >= 10 {
        assert(pow10(1) == 10) by {
            reveal_with_fuel(pow10, 2);
        }
        if k == 1 {
            assert(false);
        }
        assert(n < 10 * pow10((k - 1) as nat));
        assert(n / 10 < pow10((k - 1) as nat)) by (nonlinear_arith)
            requires
                n < 10 * pow10((k - 1) as nat),
        ;
        lemma_digits_len_bound(n / 10, (k - 1) as nat);
    }
}

pub proof fn lemma_value_bound(s: Seq<char>)
    requires
        spec_all_digits(s),
    ensures
        spec_seq_value(s) < pow10(s.len()),
    decreases s.len(),
{
    if s.len() > 0 {
        assert(spec_all_digits(s.drop_last()));
        lemma_value_bound(s.drop_last());
        assert(digit_value(s.last()) <= 9);
    }
}

/// Scans the digit run of `v` starting at `start`; yields its value and the
/// position just past it, or `None` when the run is longer than 13 digits.
pub fn scan_digit_run(v: &Vec<char>, start: usize) -> (r: Option<(u64, usize)>)
    requires
        start <= v@.len(),
    ensures
        r matches Some(p) ==> {
            &&& p.1 == start + spec_run_len(v@.skip(start as int))
            &&& p.1 <= v@.len()
            &&& spec_run_len(v@.skip(start as int)) <= 13
            &&& p.0 == spec_seq_value(v@.subrange(start as int, p.1 as int))
        },
        r is None ==> spec_run_len(v@.skip(start as int)) > 13,
{
    let mut p: usize = start;
    let mut acc: u64 = 0;
    loop
        invariant
            start <= p <= v@.len(),
            p - start <= 13,
            spec_all_digits(v@.subrange(start as int, p as int)),
            spec_run_len(v@.skip(start as int)) == (p - start) + spec_run_len(
                v@.skip(p as int),
            ),
            acc == spec_seq_value(v@.subrange(start as int, p as int)),
        ensures
            (p == v@.len() || !is_digit_char(v@[p as int])) || p - start == 13,
            start <= p <= v@.len(),
            p - start <= 13,
            spec_all_digits(v@.subrange(start as int, p as int)),
            spec_run_len(v@.skip(start as int)) == (p - start) + spec_run_len(
                v@.skip(p as int),
            ),
            acc == spec_seq_value(v@.subrange(start as int, p as int)),
        decreases v@.len() - p,
    {
        if p == v.len() || !(v[p] >= '0' && v[p] <= '9') {
            break ;
        }
        if p - start == 13 {
            break ;
        }
        let c = v[p];
        proof {
            assert(v@.skip(p as int)[0] == v@[p as int]);
            assert(v@.skip(p as int).drop_first() =~= v@.skip(p + 1));
            assert(v@.subrange(start as int, p + 1).drop_last() =~= v@.subrange(
                start as int,
                p as int,
            ));
            assert(v@.subrange(start as int, p + 1).last() == v@[p as int]);
            lemma_value_bound(v@.subrange(start as int, p as int));
            assert(pow10(13) == 10000000000000) by {
                reveal_with_fuel(pow10, 14);
            }
            assert(pow10((p - start) as nat) <= pow10(13)) by {
                lemma_pow10_le((p - start) as nat, 13);
            }
        }
        acc = acc * 10 + (c as u64 - '0' as u64);
        p = p + 1;
    }
    if p == v.len() || !(v[p] >= '0' && v[p] <= '9') {
        proof {
            if p < v@.len() {
                assert(v@.skip(p as int)[0] == v@[p as int]);
            }
            assert(spec_run_len(v@.skip(p as int)) == 0);
        }
        Some((acc, p))
    } else {
        proof {
            assert(v@.skip(p as int)[0] == v@[p as int]);
            assert(spec_run_len(v@.skip(p as int)) >= 1);
        }
        None
    }
}

/// The digit run never runs past the end, and every character inside it is
/// a digit.
pub proof fn lemma_run_prefix_digits(s: Seq<char>)
    ensures
        spec_run_len(s) <= s.len(),
        spec_all_digits(s.subrange(0, spec_run_len(s) as int)),
    decreases s.len(),
{
    if s.len() > 0 && is_digit_char(s[0]) {
        lemma_run_prefix_digits(s.drop_first());
        let k = spec_run_len(s) as int;
        assert forall|i: int| 0 <= i < k implies is_digit_char(
            s.subrange(0, k)[i],
        ) by {
            if i > 0 {
                assert(s.drop_first().subrange(0, k - 1)[i - 1] == s[i]);
            }
        }
    }
}

pub proof fn lemma_pow10_le(a: nat, b: nat)
    requires
        a <= b,
    ensures
        pow10(a) <= pow10(b),
    decreases b,
{
    if a < b {
        lemma_pow10_le(a, (b - 1) as nat);
        assert(pow10(b) == 10 * pow10((b - 1) as nat));
    }
}

/// Appends every character of `s` to `out`.
pub fn push_chars(s: &str, out: &mut Vec<char>)
    ensures
        final(out)@ == old(out)@ + s@,
{
    let cs = str_to_chars(s);
    push_char_vec(&cs, out);
}

/// Appends every character of `src` to `out`.
pub fn push_char_vec(src: &Vec<char>, out: &mut Vec<char>)
    ensures
        final(out)@ == old(out)@ + src@,
{
    let n = src.len();
    for i in 0..n
        invariant
            n == src@.len(),
            out@ == old(out)@ + src@.subrange(0, i as int),
    {
        out.push(src[i]);
        assert(src@.subrange(0, i as int).push(src@[i as int]) == src@.subrange(0, i + 1));
    }
    assert(src@.subrange(0, n as int) == src@);
}

} // verus!
