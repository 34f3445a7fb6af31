//! Formatting and parsing of playback positions as "HH:MM:SS" strings, used
//! by the seek box of the transport controls.

use vstd::arithmetic::div_mod::lemma_div_denominator;
use vstd::arithmetic::div_mod::lemma_fundamental_div_mod;
use vstd::prelude::*;

use crate::numerals::lemma_dec_rep_val;
use crate::numerals::lemma_digits_val_leading_zero;
use crate::numerals::parse_i32;
use crate::numerals::spec_all_digits;
use crate::numerals::spec_digits_val;
use crate::numerals::spec_is_digit;
use crate::numerals::spec_sign_split;
use crate::numerals::spec_dec_rep;
use crate::numerals::spec_parse_i32;
use crate::numerals::u64_to_string;
use crate::text::index_of_from;
use crate::text::lemma_index_of_first;
use crate::text::lemma_index_of_from;
use crate::text::lemma_index_of_from_first;
use crate::text::spec_index_of_from;

verus! {

/// A number padded to at least two digits, as "{:02}" renders it.
pub open spec fn spec_pad2(n: u64) -> Seq<char> {
    if n < 10 {
        seq!['0'] + spec_dec_rep(n as nat)
    } else {
        spec_dec_rep(n as nat)
    }
}

/// A number of seconds rendered as "HH:MM:SS": whole hours (two digits or
/// more), then minutes and seconds, each zero-padded to two digits.
pub open spec fn spec_time_str(seconds: u64) -> Seq<char> {
    spec_pad2(seconds / 3600) + seq![':'] + spec_pad2((seconds / 60) % 60) + seq![':'] + spec_pad2(
        seconds % 60,
    )
}

/// What [`parse_time`] accepts: exactly three ":"-separated parts, each an
/// optionally signed run of digits whose value fits in an `i32`; the result
/// is `hours * 3600 + minutes * 60 + seconds`.
pub open spec fn spec_parse_time(s: Seq<char>) -> Option<int> {
    let k1 = spec_index_of_from(s, ':', 0);
    let k2 = spec_index_of_from(s, ':', k1 + 1);
    let k3 = spec_index_of_from(s, ':', k2 + 1);
    if k1 == s.len() || k2 == s.len() || k3 != s.len() {
        None
    } else {
        let hours = spec_parse_i32(s.take(k1));
        let minutes = spec_parse_i32(s.subrange(k1 + 1, k2));
        let seconds = spec_parse_i32(s.skip(k2 + 1));
        if hours is Some && minutes is Some && seconds is Some {
            Some(hours.unwrap() * 3600 + minutes.unwrap() * 60 + seconds.unwrap())
        } else {
            None
        }
    }
}

/// A padded number is a nonempty run of digits denoting the number.
proof fn lemma_pad2_val(n: u64)
    ensures
        spec_pad2(n).len() >= 1,
        spec_all_digits(spec_pad2(n)),
        spec_digits_val(spec_pad2(n)) == n,
{
    lemma_dec_rep_val(n as nat);
    if n < 10 {
        lemma_digits_val_leading_zero(spec_dec_rep(n as nat));
        assert(spec_is_digit('0'));
        assert forall|i: int| 0 <= i < spec_pad2(n).len() implies spec_is_digit(
            #[trigger] spec_pad2(n)[i],
        ) by {
            if i >= 1 {
                assert(spec_pad2(n)[i] == spec_dec_rep(n as nat)[i - 1]);
            }
        }
    }
}

/// Round trip: the rendering of any number of seconds whose hour count fits
/// in an `i32` parses back to the same number of seconds.
pub proof fn lemma_format_then_parse(seconds: u64)
    requires
        seconds / 3600 <= i32::MAX as u64,
    ensures
        spec_parse_time(spec_time_str(seconds)) == Some(seconds as int),
{
    let hours = seconds / 3600;
    let minutes = (seconds / 60) % 60;
    let secs = seconds % 60;
    let hours_part = spec_pad2(hours);
    let minutes_part = spec_pad2(minutes);
    let secs_part = spec_pad2(secs);
    lemma_pad2_val(hours);
    lemma_pad2_val(minutes);
    lemma_pad2_val(secs);
    let s = spec_time_str(seconds);
    assert(s =~= hours_part + seq![':'] + minutes_part + seq![':'] + secs_part);
    let k1 = hours_part.len() as int;
    let k2 = k1 + 1 + minutes_part.len();
    assert(s[k1] == ':' && s[k2] == ':');
    assert forall|j: int| 0 <= j < k1 implies s[j] != ':' by {
        assert(s[j] == hours_part[j]);
        assert(':' as int == 58);
    }
    lemma_index_of_first(s, ':', k1);
    assert forall|j: int| k1 + 1 <= j < k2 implies s[j] != ':' by {
        assert(s[j] == minutes_part[j - (k1 + 1)]);
        assert(':' as int == 58);
    }
    lemma_index_of_from_first(s, ':', k1 + 1, k2);
    lemma_index_of_from(s, ':', k2 + 1);
    let k3 = spec_index_of_from(s, ':', k2 + 1);
    if k3 < s.len() {
        assert(s[k3] == ':');
        assert(s[k3] == secs_part[k3 - (k2 + 1)]);
        assert(':' as int == 58);
    }
    assert(k3 == s.len());
    assert(s.take(k1) =~= hours_part);
    assert(s.subrange(k1 + 1, k2) =~= minutes_part);
    assert(s.skip(k2 + 1) =~= secs_part);
    lemma_parse_i32_of_digits(hours_part, hours as int);
    lemma_parse_i32_of_digits(minutes_part, minutes as int);
    lemma_parse_i32_of_digits(secs_part, secs as int);
    lemma_fundamental_div_mod(seconds as int, 60);
    lemma_fundamental_div_mod(seconds as int / 60, 60);
    lemma_div_denominator(seconds as int, 60, 60);
    assert(seconds == (hours as int) * 3600 + (minutes as int) * 60 + secs);
}

/// A nonempty run of digits whose value fits in an `i32` parses as that
/// value.
proof fn lemma_parse_i32_of_digits(s: Seq<char>, value: int)
    requires
        s.len() >= 1,
        spec_all_digits(s),
        spec_digits_val(s) == value,
        0 <= value <= i32::MAX,
    ensures
        spec_parse_i32(s) == Some(value),
{
    assert(spec_is_digit(s[0]));
    assert(s[0] != '-' && s[0] != '+') by {
        assert('-' as int == 45 && '+' as int == 43);
    }
    assert(spec_sign_split(s) == (false, s));
}

/// Pads a number to at least two digits.
fn pad2(n: u64) -> (r: String)
    ensures
        r@ == spec_pad2(n),
{
    proof {
        reveal_strlit("0");
    }
    if n < 10 {
        let mut r = String::from_str("0");
        let digits = u64_to_string(n);
        r.append(digits.as_str());
        proof {
            assert(r@ =~= spec_pad2(n));
        }
        r
    } else {
        u64_to_string(n)
    }
}

/// Renders a number of seconds as "HH:MM:SS".
pub fn format_time(seconds: u64) -> (r: String)
    ensures
        r@ == spec_time_str(seconds),
{
    proof {
        reveal_strlit(":");
    }
    let mut r = pad2(seconds / 3600);
    r.append(":");
    let minutes = pad2((seconds / 60) % 60);
    r.append(minutes.as_str());
    r.append(":");
    let secs = pad2(seconds % 60);
    r.append(secs.as_str());
    proof {
        assert(r@ =~= spec_time_str(seconds));
    }
    r
}

/// Parses an "H:M:S" string into a number of seconds.  Each part may carry
/// a sign, as the seek box lets the user type one; a string without exactly
/// three parts, or with a part that is not a number, yields `None`.
pub fn parse_time(time: &str) -> (r: Option<i64>)
    ensures
        r is Some <==> spec_parse_time(time@) is Some,
        r is Some ==> r.unwrap() == spec_parse_time(time@).unwrap(),
{
    let len = time.unicode_len();
    let k1 = index_of_from(time, ':', 0);
    if k1 == len {
        return None;
    }
    let k2 = index_of_from(time, ':', k1 + 1);
    if k2 == len {
        return None;
    }
    let k3 = index_of_from(time, ':', k2 + 1);
    if k3 != len {
        return None;
    }
    let hours_str = time.substring_char(0, k1);
    let minutes_str = time.substring_char(k1 + 1, k2);
    let seconds_str = time.substring_char(k2 + 1, len);
    proof {
        assert(hours_str@ =~= time@.take(k1 as int));
        assert(minutes_str@ =~= time@.subrange(k1 + 1, k2 as int));
        assert(seconds_str@ =~= time@.skip(k2 + 1));
    }
    let hours = parse_i32(hours_str);
    let minutes = parse_i32(minutes_str);
    let seconds = parse_i32(seconds_str);
    match (hours, minutes, seconds) {
        (Some(hours), Some(minutes), Some(seconds)) => Some(
            hours as i64 * 3600 + minutes as i64 * 60 + seconds as i64,
        ),
        _ => None,
    }
}

} // verus!
