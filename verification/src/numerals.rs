//! Decimal numerals: spec-level definitions of what a run of digit
//! characters denotes and of the canonical decimal representation of a
//! number, executable parsers and formatters proved against them, and the
//! round-trip lemmas connecting the two.

use vstd::arithmetic::div_mod::lemma_fundamental_div_mod;
use vstd::prelude::*;

verus! {

/// Whether a character is a decimal digit.
pub open spec fn spec_is_digit(c: char) -> bool {
    48 <= c as int <= 57
}

/// The value of a digit character.
pub open spec fn spec_digit_val(c: char) -> int {
    c as int - 48
}

/// Whether every character of `s` is a decimal digit.
pub open spec fn spec_all_digits(s: Seq<char>) -> bool {
    forall|i: int| 0 <= i < s.len() ==> spec_is_digit(#[trigger] s[i])
}

/// The number a run of digit characters denotes, most significant first.
pub open spec fn spec_digits_val(s: Seq<char>) -> int
    decreases s.len(),
{
    if s.len() == 0 {
        0
    } else {
        spec_digits_val(s.drop_last()) * 10 + spec_digit_val(s.last())
    }
}

/// The digit character for a value between 0 and 9.
pub open spec fn spec_digit_char(d: int) -> char {
    if d == 0 {
        '0'
    } else if d == 1 {
        '1'
    } else if d == 2 {
        '2'
    } else if d == 3 {
        '3'
    } else if d == 4 {
        '4'
    } else if d == 5 {
        '5'
    } else if d == 6 {
        '6'
    } else if d == 7 {
        '7'
    } else if d == 8 {
        '8'
    } else {
        '9'
    }
}

/// The canonical decimal representation of a number: no sign, no leading
/// zeros (except for zero itself, written "0").
pub open spec fn spec_dec_rep(n: nat) -> Seq<char>
    decreases n,
{
    if n < 10 {
        seq![spec_digit_char(n as int)]
    } else {
        spec_dec_rep(n / 10) + seq![spec_digit_char((n % 10) as int)]
    }
}

/// Whether `s` is a canonical decimal numeral: nonempty, all digits, and
/// without a leading zero unless it is exactly "0".
pub open spec fn spec_is_canonical_digits(s: Seq<char>) -> bool {
    &&& s.len() >= 1
    &&& spec_all_digits(s)
    &&& (s.len() == 1 || s[0] != '0')
}

/// The value of a run of digits is non-negative, and positive when the run
/// starts with a nonzero digit.
pub proof fn lemma_digits_val_bounds(s: Seq<char>)
    requires
        spec_all_digits(s),
    ensures
        spec_digits_val(s) >= 0,
        s.len() >= 1 && s[0] != '0' ==> spec_digits_val(s) >= 1,
    decreases s.len(),
{
    if s.len() > 0 {
        assert(spec_all_digits(s.drop_last()));
        lemma_digits_val_bounds(s.drop_last());
        if s.len() >= 2 && s[0] != '0' {
            assert(s.drop_last()[0] == s[0]);
        }
    }
}

/// A leading zero does not change the value a run of digits denotes.
pub proof fn lemma_digits_val_leading_zero(s: Seq<char>)
    ensures
        spec_digits_val(seq!['0'] + s) == spec_digits_val(s),
    decreases s.len(),
{
    if s.len() == 0 {
        assert(seq!['0'] + s =~= seq!['0']);
        assert(seq!['0'].drop_last() =~= Seq::<char>::empty());
        assert(spec_digits_val(Seq::<char>::empty()) == 0);
        assert(spec_digit_val('0') == 0);
        assert(spec_digits_val(seq!['0']) == 0);
    } else {
        assert((seq!['0'] + s).drop_last() =~= seq!['0'] + s.drop_last());
        assert((seq!['0'] + s).last() == s.last());
        lemma_digits_val_leading_zero(s.drop_last());
    }
}

/// Dropping trailing digits can only shrink the value: the value of a run of
/// digits is at least the value of any of its prefixes.
pub proof fn lemma_digits_val_prefix(s: Seq<char>, i: int)
    requires
        spec_all_digits(s),
        0 <= i <= s.len(),
    ensures
        spec_digits_val(s) >= spec_digits_val(s.take(i)),
    decreases s.len(),
{
    lemma_digits_val_bounds(s);
    if i < s.len() {
        assert(spec_all_digits(s.drop_last()));
        lemma_digits_val_bounds(s.drop_last());
        assert(s.drop_last().take(i) =~= s.take(i));
        lemma_digits_val_prefix(s.drop_last(), i);
    } else {
        assert(s.take(i) =~= s);
    }
}

/// The canonical representation of a number consists of digits, starts with
/// a nonzero digit unless the number is zero, and denotes the number.
pub proof fn lemma_dec_rep_val(n: nat)
    ensures
        spec_is_canonical_digits(spec_dec_rep(n)),
        n >= 1 ==> spec_dec_rep(n)[0] != '0',
        spec_digits_val(spec_dec_rep(n)) == n,
    decreases n,
{
    if n < 10 {
        let r = spec_dec_rep(n);
        assert('0' as int == 48);
        assert(spec_digit_val(spec_digit_char(n as int)) == n);
        assert(r.drop_last() =~= Seq::<char>::empty());
        assert(r.last() == spec_digit_char(n as int));
        assert(spec_digits_val(r) == spec_digits_val(r.drop_last()) * 10 + spec_digit_val(
            r.last(),
        ));
        assert(spec_digits_val(r) == n);
    } else {
        lemma_dec_rep_val(n / 10);
        let prefix = spec_dec_rep(n / 10);
        let last = spec_digit_char((n % 10) as int);
        assert((prefix + seq![last]).drop_last() =~= prefix);
        assert(spec_digits_val(spec_dec_rep(n)) == spec_digits_val(prefix) * 10 + (n % 10));
        lemma_fundamental_div_mod(n as int, 10);
        assert(spec_dec_rep(n)[0] == prefix[0]);
    }
}

/// Round trip: a canonical numeral is the canonical representation of its
/// value.
pub proof fn lemma_canonical_round_trip(s: Seq<char>)
    requires
        spec_is_canonical_digits(s),
    ensures
        spec_dec_rep(spec_digits_val(s) as nat) == s,
    decreases s.len(),
{
    lemma_digits_val_bounds(s);
    let v = spec_digits_val(s);
    if s.len() == 1 {
        assert(s.drop_last() =~= Seq::<char>::empty());
        assert(spec_digits_val(s.drop_last()) == 0);
        assert(s.last() == s[0]);
        assert(v == spec_digit_val(s[0]));
        assert(spec_digit_char(v) == s[0]);
        assert(spec_dec_rep(v as nat) =~= s);
    } else {
        let prefix = s.drop_last();
        let d = spec_digit_val(s.last());
        assert(spec_all_digits(prefix));
        assert(prefix[0] == s[0]);
        lemma_digits_val_bounds(prefix);
        let pv = spec_digits_val(prefix);
        assert(v == pv * 10 + d);
        assert(pv >= 1);
        assert(v >= 10) by (nonlinear_arith)
            requires
                v == pv * 10 + d,
                pv >= 1,
                d >= 0,
        ;
        assert(v / 10 == pv && v % 10 == d) by (nonlinear_arith)
            requires
                v == pv * 10 + d,
                pv >= 0,
                0 <= d <= 9,
        ;
        lemma_canonical_round_trip(prefix);
        assert(spec_dec_rep(v as nat) == prefix + seq![spec_digit_char(d)]);
        assert(spec_digit_char(d) == s.last());
        assert(prefix + seq![s.last()] =~= s);
    }
}

/// Parses a nonempty run of decimal digits as a `u32`.  Returns `None` when
/// the string is empty, contains a non-digit, or denotes a value that does
/// not fit.
pub fn parse_u32_digits(s: &str) -> (r: Option<u32>)
    ensures
        r is Some <==> s@.len() >= 1 && spec_all_digits(s@) && spec_digits_val(s@) <= u32::MAX,
        r is Some ==> r.unwrap() == spec_digits_val(s@),
{
    let len = s.unicode_len();
    if len == 0 {
        return None;
    }
    let mut acc: u64 = 0;
    let mut i: usize = 0;
    while i < len
        invariant
            0 <= i <= len,
            len == s@.len(),
            forall|j: int| 0 <= j < i ==> spec_is_digit(#[trigger] s@[j]),
            acc == spec_digits_val(s@.take(i as int)),
            acc <= u32::MAX,
        decreases len - i,
    {
        let c = s.get_char(i);
        let code = c as u32;
        if code < 48 || code > 57 {
            return None;
        }
        let d = (code - 48) as u64;
        let next = acc * 10 + d;
        proof {
            assert(s@.take(i + 1).drop_last() =~= s@.take(i as int));
            assert(s@.take(i + 1).last() == s@[i as int]);
            assert(next == spec_digits_val(s@.take(i + 1)));
        }
        if next > u32::MAX as u64 {
            proof {
                if spec_all_digits(s@) {
                    lemma_digits_val_prefix(s@, i + 1);
                }
            }
            return None;
        }
        acc = next;
        i += 1;
    }
    proof {
        assert(s@.take(len as int) =~= s@);
    }
    Some(acc as u32)
}

/// Splits an optional leading sign off a numeral: whether the value is
/// negated, and the remaining digits.
pub open spec fn spec_sign_split(s: Seq<char>) -> (bool, Seq<char>) {
    if s.len() >= 1 && s[0] == '-' {
        (true, s.skip(1))
    } else if s.len() >= 1 && s[0] == '+' {
        (false, s.skip(1))
    } else {
        (false, s)
    }
}

/// The `i32` a string denotes: an optional sign followed by a nonempty run
/// of digits, provided the signed value fits.
pub open spec fn spec_parse_i32(s: Seq<char>) -> Option<int> {
    let (negative, digits) = spec_sign_split(s);
    let value = if negative {
        -spec_digits_val(digits)
    } else {
        spec_digits_val(digits)
    };
    if digits.len() >= 1 && spec_all_digits(digits) && i32::MIN <= value <= i32::MAX {
        Some(value)
    } else {
        None
    }
}

/// Parses an optionally signed run of decimal digits as an `i32`.  Returns
/// `None` when there are no digits, a non-digit follows the sign, or the
/// value does not fit.
pub fn parse_i32(s: &str) -> (r: Option<i32>)
    ensures
        r is Some <==> spec_parse_i32(s@) is Some,
        r is Some ==> r.unwrap() == spec_parse_i32(s@).unwrap(),
{
    let len = s.unicode_len();
    let (negative, start): (bool, usize) = if len >= 1 {
        let c = s.get_char(0);
        if c == '-' {
            (true, 1)
        } else if c == '+' {
            (false, 1)
        } else {
            (false, 0)
        }
    } else {
        (false, 0)
    };
    let ghost digits = s@.skip(start as int);
    proof {
        if start == 0 {
            assert(digits =~= s@);
        }
        assert(spec_sign_split(s@) == (negative, digits));
    }
    if start >= len {
        return None;
    }
    let mut acc: u64 = 0;
    let mut i: usize = start;
    while i < len
        invariant
            start <= i <= len,
            len == s@.len(),
            digits == s@.skip(start as int),
            spec_sign_split(s@) == (negative, digits),
            forall|j: int| start <= j < i ==> spec_is_digit(#[trigger] s@[j]),
            acc == spec_digits_val(digits.take(i - start)),
            acc <= 0x8000_0000u64,
        decreases len - i,
    {
        let c = s.get_char(i);
        let code = c as u32;
        if code < 48 || code > 57 {
            proof {
                assert(digits[i - start] == s@[i as int]);
                assert(!spec_all_digits(digits));
            }
            return None;
        }
        let d = (code - 48) as u64;
        let next = acc * 10 + d;
        proof {
            assert(digits.take(i + 1 - start).drop_last() =~= digits.take(i - start));
            assert(digits.take(i + 1 - start).last() == s@[i as int]);
            assert(next == spec_digits_val(digits.take(i + 1 - start)));
        }
        if next > 0x8000_0000u64 {
            proof {
                if spec_all_digits(digits) {
                    lemma_digits_val_prefix(digits, i + 1 - start);
                }
            }
            return None;
        }
        acc = next;
        i += 1;
    }
    proof {
        assert(digits.take(len - start) =~= digits);
    }
    if negative {
        Some((-(acc as i64)) as i32)
    } else if acc <= i32::MAX as u64 {
        Some(acc as i32)
    } else {
        None
    }
}

/// Formats a digit value as its character, as a one-character string.
pub(crate) fn digit_string(d: u64) -> (r: String)
    requires
        d < 10,
    ensures
        r@ == seq![spec_digit_char(d as int)],
{
    proof {
        reveal_strlit("0");
        reveal_strlit("1");
        reveal_strlit("2");
        reveal_strlit("3");
        reveal_strlit("4");
        reveal_strlit("5");
        reveal_strlit("6");
        reveal_strlit("7");
        reveal_strlit("8");
        reveal_strlit("9");
    }
    let r = if d == 0 {
        String::from_str("0")
    } else if d == 1 {
        String::from_str("1")
    } else if d == 2 {
        String::from_str("2")
    } else if d == 3 {
        String::from_str("3")
    } else if d == 4 {
        String::from_str("4")
    } else if d == 5 {
        String::from_str("5")
    } else if d == 6 {
        String::from_str("6")
    } else if d == 7 {
        String::from_str("7")
    } else if d == 8 {
        String::from_str("8")
    } else {
        String::from_str("9")
    };
    proof {
        assert(r@ =~= seq![spec_digit_char(d as int)]);
    }
    r
}

/// Formats a number in canonical decimal.
pub fn u64_to_string(n: u64) -> (r: String)
    ensures
        r@ == spec_dec_rep(n as nat),
    decreases n,
{
    if n < 10 {
        digit_string(n)
    } else {
        let mut r = u64_to_string(n / 10);
        let last = digit_string(n % 10);
        r.append(last.as_str());
        r
    }
}

} // verus!
