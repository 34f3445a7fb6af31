use vstd::prelude::*;

use crate::numerals::lemma_canonical_round_trip;
use crate::numerals::lemma_dec_rep_val;
use crate::numerals::lemma_digits_val_bounds;
use crate::numerals::parse_u32_digits;
use crate::numerals::spec_all_digits;
use crate::numerals::spec_dec_rep;
use crate::numerals::spec_digits_val;
use crate::numerals::spec_is_canonical_digits;
use crate::numerals::u64_to_string;
use crate::text::index_of_from;
use crate::text::lemma_index_of_first;
use crate::text::lemma_index_of_from;
use crate::text::spec_index_of;

verus! {

/// A time signature, written "top/bottom", for example "4/4" or "7/8".
///
/// `top` is the number of beats per measure and is always at least one, so
/// that beat-index arithmetic modulo `top` is meaningful.  `bottom` is
/// conventionally a power of two, but that is not enforced.
#[derive(Debug, Clone, Copy, PartialEq, Eq, Hash, Structural)]
pub struct TimeSignature {
    pub top: u32,
    pub bottom: u32,
}

/// The error returned when a string is not a time signature.  It carries the
/// offending string.
#[derive(Debug, Clone)]
pub struct InvalidTimeSignatureError {
    pub value: String,
}

impl InvalidTimeSignatureError {
    /// A human-readable description of the error.
    pub fn message(&self) -> (r: String)
        ensures
            r@ == self.value@ + " is not a valid time signature"@,
    {
        self.value.clone().concat(" is not a valid time signature")
    }
}

impl TimeSignature {
    /// The beats-per-measure count is positive.
    pub open spec fn wf(self) -> bool {
        self.top >= 1
    }

    /// The canonical string for this time signature: both numbers in
    /// canonical decimal, separated by a slash.
    pub open spec fn spec_str(self) -> Seq<char> {
        spec_dec_rep(self.top as nat) + seq!['/'] + spec_dec_rep(self.bottom as nat)
    }

    /// The strings accepted by [`TimeSignature::parse`]: digits up to the
    /// first slash, digits after it, both nonempty runs whose values fit in
    /// a `u32`, the first one positive.
    pub open spec fn spec_parse(s: Seq<char>) -> Option<TimeSignature> {
        let k = spec_index_of(s, '/');
        if k == s.len() {
            None
        } else {
            let a = s.take(k);
            let b = s.skip(k + 1);
            if a.len() >= 1 && spec_all_digits(a) && 1 <= spec_digits_val(a) <= u32::MAX
                && b.len() >= 1 && spec_all_digits(b) && spec_digits_val(b) <= u32::MAX {
                Some(
                    TimeSignature {
                        top: spec_digits_val(a) as u32,
                        bottom: spec_digits_val(b) as u32,
                    },
                )
            } else {
                None
            }
        }
    }

    /// Formats this time signature canonically.
    pub fn to_string(&self) -> (r: String)
        ensures
            r@ == self.spec_str(),
    {
        proof {
            reveal_strlit("/");
        }
        let mut r = u64_to_string(self.top as u64);
        r.append("/");
        let bottom = u64_to_string(self.bottom as u64);
        r.append(bottom.as_str());
        proof {
            assert(r@ =~= self.spec_str());
        }
        r
    }

    /// Parses a time signature of the form "top/bottom".
    ///
    /// A string without a slash, with anything but a digit run on either
    /// side of the first slash, with a value that does not fit in a `u32`,
    /// or with a zero beats-per-measure count is rejected; a zero count
    /// would make every beat computation degenerate, so it is refused here,
    /// at the boundary.
    pub fn parse(value: &str) -> (r: Result<TimeSignature, InvalidTimeSignatureError>)
        ensures
            r is Ok <==> Self::spec_parse(value@) is Some,
            r is Ok ==> r.unwrap() == Self::spec_parse(value@).unwrap(),
            r is Ok ==> r.unwrap().wf(),
            r is Err ==> r.unwrap_err().value@ == value@,
    {
        let len = value.unicode_len();
        let k = index_of_from(value, '/', 0);
        if k < len {
            let a = value.substring_char(0, k);
            let b = value.substring_char(k + 1, len);
            proof {
                assert(a@ =~= value@.take(k as int));
                assert(b@ =~= value@.skip(k + 1));
            }
            if let Some(top) = parse_u32_digits(a) {
                if let Some(bottom) = parse_u32_digits(b) {
                    if top >= 1 {
                        return Ok(TimeSignature { top, bottom });
                    }
                }
            }
        }
        Err(InvalidTimeSignatureError { value: value.to_owned() })
    }

    /// Round trip: every well-formed time signature parses back from its
    /// own formatted string.
    pub proof fn lemma_format_then_parse(self)
        requires
            self.wf(),
        ensures
            Self::spec_parse(self.spec_str()) == Some(self),
    {
        let a = spec_dec_rep(self.top as nat);
        let b = spec_dec_rep(self.bottom as nat);
        let s = self.spec_str();
        lemma_dec_rep_val(self.top as nat);
        lemma_dec_rep_val(self.bottom as nat);
        assert(s[a.len() as int] == '/');
        assert forall|j: int| 0 <= j < a.len() implies s[j] != '/' by {
            assert(s[j] == a[j]);
            assert('/' as int == 47);
        }
        lemma_index_of_first(s, '/', a.len() as int);
        let k = spec_index_of(s, '/');
        assert(s.take(k) =~= a);
        assert(s.skip(k + 1) =~= b);
        assert(spec_digits_val(a) == self.top as nat && spec_digits_val(b) == self.bottom as nat);
        assert(Self::spec_parse(s) == Some(self));
    }

    /// Round trip: formatting a parsed time signature yields the input
    /// unchanged, provided both numbers were written canonically (no
    /// leading zeros).
    pub proof fn lemma_round_trip(s: Seq<char>)
        requires
            Self::spec_parse(s) is Some,
            spec_is_canonical_digits(s.take(spec_index_of(s, '/'))),
            spec_is_canonical_digits(s.skip(spec_index_of(s, '/') + 1)),
        ensures
            Self::spec_parse(s).unwrap().spec_str() == s,
    {
        let k = spec_index_of(s, '/');
        lemma_index_of_from(s, '/', 0);
        let a = s.take(k);
        let b = s.skip(k + 1);
        lemma_canonical_round_trip(a);
        lemma_canonical_round_trip(b);
        assert(s[k] == '/');
        let ts = Self::spec_parse(s).unwrap();
        lemma_digits_val_bounds(a);
        lemma_digits_val_bounds(b);
        assert(1 <= spec_digits_val(a) <= u32::MAX && 0 <= spec_digits_val(b) <= u32::MAX);
        assert(ts.top == spec_digits_val(a) as u32 && ts.bottom == spec_digits_val(b) as u32);
        assert(ts.top as nat == spec_digits_val(a) as nat);
        assert(ts.bottom as nat == spec_digits_val(b) as nat);
        assert(spec_dec_rep(ts.top as nat) == a);
        assert(spec_dec_rep(ts.bottom as nat) == b);
        assert(ts.spec_str() =~= a + seq![s[k]] + b);
        assert(a + seq![s[k]] + b =~= s);
    }
}

} // verus!
