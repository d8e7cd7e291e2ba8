//! Reading integers from text, and thousands grouping of fixed-point text.
use vstd::prelude::*;
use num_format::ToFormattedString;
use crate::numtext::nat_digits;
use crate::strings::push_text;

verus! {

pub open spec fn is_digit(c: char) -> bool {
    '0' <= c <= '9'
}

/// The value of a run of decimal digits.
pub open spec fn digits_value(s: Seq<char>) -> int
    decreases s.len(),
{
    if s.len() == 0 {
        0
    } else {
        digits_value(s.drop_last()) * 10 + (s.last() as u32 - '0' as u32)
    }
}

pub open spec fn all_digits(s: Seq<char>) -> bool {
    forall|i: int| 0 <= i < s.len() ==> is_digit(#[trigger] s[i])
}

/// The signed 64-bit integer that a text spells: an optional `+` or `-`,
/// then one or more decimal digits, and nothing else.
pub open spec fn int_reading(s: Seq<char>) -> Option<int> {
    let signed = s.len() > 0 && (s[0] == '-' || s[0] == '+');
    let body = if signed { s.drop_first() } else { s };
    let v = if signed && s[0] == '-' { -digits_value(body) } else { digits_value(body) };
    if body.len() == 0 || !all_digits(body) || v < i64::MIN || v > i64::MAX {
        None
    } else {
        Some(v)
    }
}

/// Relies on `str::parse::<i64>`.
#[verifier::external_body]
pub(crate) fn parse_i64(s: &str) -> (r: Option<i64>)
    ensures
        match int_reading(s@) {
            Some(v) => r == Some(v as i64),
            None => r is None,
        },
{
    s.parse::<i64>().ok()
}

/// Digits grouped by threes from the right, with commas.
pub open spec fn en_grouped(d: Seq<char>) -> Seq<char>
    decreases d.len(),
{
    if d.len() <= 3 {
        d
    } else {
        en_grouped(d.subrange(0, d.len() - 3)) + seq![','] + d.subrange(d.len() - 3, d.len() as int)
    }
}

/// Relies on num-format's `to_formatted_string` with `Locale::en`: the
/// digits grouped by threes with `,`.
#[verifier::external_body]
pub(crate) fn group_thousands(n: u128) -> (r: String)
    ensures
        r@ == en_grouped(nat_digits(n as nat)),
{
    n.to_formatted_string(&num_format::Locale::en)
}

/// The number of decimal digits at the start of `s`.
pub open spec fn digit_run(s: Seq<char>) -> nat
    decreases s.len(),
{
    if s.len() > 0 && is_digit(s[0]) {
        1 + digit_run(s.drop_first())
    } else {
        0
    }
}

/// A fixed-point text with its integer part grouped by thousands: the sign,
/// the grouped integer digits, then the rest as it is. A text whose integer
/// part is empty or longer than 38 digits is left as it is.
pub open spec fn grouped_fixed(t: Seq<char>) -> Seq<char> {
    let s: int = if t.len() > 0 && t[0] == '-' { 1 } else { 0 };
    let k = digit_run(t.subrange(s, t.len() as int));
    if 1 <= k <= 38 {
        t.subrange(0, s) + en_grouped(nat_digits(digits_value(t.subrange(s, s + k)) as nat))
            + t.subrange(s + k, t.len() as int)
    } else {
        t
    }
}

proof fn lemma_digit_run_prefix(s: Seq<char>, i: int)
    requires
        0 <= i <= digit_run(s),
    ensures
        digit_run(s) <= s.len(),
        all_digits(s.subrange(0, i)),
        i < digit_run(s) ==> i < s.len() && is_digit(s[i]),
        i == digit_run(s) ==> i == s.len() || !is_digit(s[i]),
    decreases s.len(),
{
    if s.len() > 0 && is_digit(s[0]) {
        lemma_digit_run_prefix(s.drop_first(), if i > 0 { i - 1 } else { 0 });
    }
    if i > 0 {
        assert(s.len() >= i);
        lemma_digit_run_prefix(s.drop_first(), i - 1);
        assert forall|j: int| 0 <= j < i implies is_digit(#[trigger] s.subrange(0, i)[j]) by {
            if j > 0 {
                assert(s.subrange(0, i)[j] == s.drop_first().subrange(0, i - 1)[j - 1]);
            }
        }
    } else if digit_run(s) > 0 {
        assert(is_digit(s[0]));
    }
}

proof fn lemma_digits_value_bound(s: Seq<char>)
    requires
        all_digits(s),
    ensures
        0 <= digits_value(s) < pow10(s.len()),
    decreases s.len(),
{
    if s.len() > 0 {
        assert(all_digits(s.drop_last())) by {
            assert forall|i: int| 0 <= i < s.drop_last().len() implies is_digit(#[trigger] s.drop_last()[i]) by {
                assert(s.drop_last()[i] == s[i]);
            }
        }
        lemma_digits_value_bound(s.drop_last());
        assert(is_digit(s[s.len() - 1]));
        let p = pow10((s.len() - 1) as nat);
        let d = digits_value(s.drop_last());
        assert(d * 10 + 9 < p * 10) by (nonlinear_arith)
            requires
                d < p,
                0 <= d,
        {
        }
    }
}

pub open spec fn pow10(n: nat) -> int
    decreases n,
{
    if n == 0 {
        1
    } else {
        10 * pow10((n - 1) as nat)
    }
}

/// Groups the integer part of a fixed-point text (as `-1234.50` becomes
/// `-1,234.50`); see `grouped_fixed`.
pub fn group_fixed_text(t: &str) -> (r: String)
    ensures
        r@ == grouped_fixed(t@),
{
    let n = t.unicode_len();
    let s: usize = if n > 0 && t.get_char(0) == '-' { 1 } else { 0 };
    let ghost rest = t@.subrange(s as int, n as int);
    let mut k: usize = 0;
    let mut value: u128 = 0;
    while s + k < n && k < 38 && '0' <= t.get_char(s + k) && t.get_char(s + k) <= '9'
        invariant
            n == t@.len(),
            s <= n,
            rest == t@.subrange(s as int, n as int),
            k <= digit_run(rest),
            k <= 38,
            s + k <= n,
            value as int == digits_value(t@.subrange(s as int, (s + k) as int)),
            all_digits(t@.subrange(s as int, (s + k) as int)),
        decreases n - k,
    {
        proof {
            lemma_digit_run_prefix(rest, k as int);
            assert(rest[k as int] == t@[(s + k) as int]);
        }
        let c = t.get_char(s + k);
        let ghost prefix = t@.subrange(s as int, (s + k + 1) as int);
        assert(prefix.drop_last() =~= t@.subrange(s as int, (s + k) as int));
        assert(all_digits(prefix)) by {
            assert forall|i: int| 0 <= i < prefix.len() implies is_digit(#[trigger] prefix[i]) by {
                if i < k {
                    assert(prefix[i] == t@.subrange(s as int, (s + k) as int)[i]);
                }
            }
        }
        proof {
            lemma_digits_value_bound(prefix);
            reveal_with_fuel(pow10, 39);
            assert(pow10(38) == 100_000_000_000_000_000_000_000_000_000_000_000_000);
            assert(pow10((k + 1) as nat) <= pow10(38)) by {
                lemma_pow10_mono((k + 1) as nat, 38);
            }
        }
        value = value * 10 + (c as u32 - '0' as u32) as u128;
        k = k + 1;
    }
    let longer = s + k < n && '0' <= t.get_char(s + k) && t.get_char(s + k) <= '9';
    proof {
        lemma_digit_run_prefix(rest, k as int);
        if s + k < n {
            assert(rest[k as int] == t@[(s + k) as int]);
        }
        assert(t@.subrange(s as int, (s + k) as int) =~= rest.subrange(0, k as int));
        if longer {
            assert(k == 38);
            assert(digit_run(rest) > 38);
        } else {
            assert(k == digit_run(rest));
        }
    }
    if k >= 1 && !longer {
        assert(k == digit_run(rest));
        let mut r = String::new();
        if s == 1 {
            push_text(&mut r, "-");
            proof {
                reveal_strlit("-");
            }
        }
        assert(r@ =~= t@.subrange(0, s as int));
        let g = group_thousands(value);
        push_text(&mut r, g.as_str());
        let tail = tail_text(t, s + k);
        push_text(&mut r, tail.as_str());
        r
    } else {
        let mut r = String::new();
        push_text(&mut r, t);
        r
    }
}

proof fn lemma_pow10_mono(a: nat, b: nat)
    requires
        a <= b,
    ensures
        pow10(a) <= pow10(b),
    decreases b,
{
    if a < b {
        lemma_pow10_mono(a, (b - 1) as nat);
        lemma_pow10_pos((b - 1) as nat);
    }
}

proof fn lemma_pow10_pos(a: nat)
    ensures
        pow10(a) >= 1,
    decreases a,
{
    if a > 0 {
        lemma_pow10_pos((a - 1) as nat);
    }
}

fn tail_text(t: &str, from: usize) -> (r: String)
    requires
        from <= t@.len(),
    ensures
        r@ == t@.subrange(from as int, t@.len() as int),
{
    let n = t.unicode_len();
    let mut r = String::new();
    let mut i = from;
    while i < n
        invariant
            n == t@.len(),
            from <= i <= n,
            r@ == t@.subrange(from as int, i as int),
        decreases n - i,
    {
        crate::strings::push_char(&mut r, t.get_char(i));
        assert(r@ =~= t@.subrange(from as int, i + 1));
        i = i + 1;
    }
    r
}

} // verus!
