//! A complete snapshot of the musical parameters at an instant, and the rule
//! for applying a sparse change to it.

use vstd::prelude::*;

use crate::music_theory::chord::Chord;
use crate::music_theory::chord::ChordView;
use crate::music_theory::time_signature::TimeSignature;
use crate::numerals::digit_string;
use crate::numerals::spec_dec_rep;
use crate::numerals::spec_digit_char;
use crate::numerals::u64_to_string;
use crate::user_track_info::Change;
use crate::user_track_info::ChangeView;

verus! {

/// Basic info about music at an instant in time: tempo, time signature, and
/// the current key and chord.
///
/// The tempo is stored in thousandths of a beat per minute, so that all
/// timeline arithmetic is exact; it is always positive.
#[derive(Debug, Clone)]
pub struct MusicState {
    pub bpm_millis: u32,
    pub time_signature: TimeSignature,
    pub key: Option<Chord>,
    pub chord: Option<Chord>,
}

/// The mathematical value of a [`MusicState`].
pub struct MusicStateView {
    pub bpm_millis: u32,
    pub time_signature: TimeSignature,
    pub key: Option<ChordView>,
    pub chord: Option<ChordView>,
}

/// The value of an optional chord.
pub open spec fn spec_opt_chord_view(c: Option<Chord>) -> Option<ChordView> {
    match c {
        Some(chord) => Some(chord@),
        None => None,
    }
}

impl View for MusicState {
    type V = MusicStateView;

    open spec fn view(&self) -> MusicStateView {
        MusicStateView {
            bpm_millis: self.bpm_millis,
            time_signature: self.time_signature,
            key: spec_opt_chord_view(self.key),
            chord: spec_opt_chord_view(self.chord),
        }
    }
}

impl MusicStateView {
    /// A state is well formed when its tempo is positive and its time
    /// signature has a positive beats-per-measure count.
    pub open spec fn wf(self) -> bool {
        &&& self.bpm_millis >= 1
        &&& self.time_signature.wf()
    }

    /// The state after applying a sparse change: each field the change
    /// carries overwrites the snapshot's field, each field it omits carries
    /// the previous value forward.
    pub open spec fn spec_changed(self, change: ChangeView) -> MusicStateView {
        MusicStateView {
            bpm_millis: match change.bpm_millis {
                Some(bpm_millis) => bpm_millis,
                None => self.bpm_millis,
            },
            time_signature: match change.time_signature {
                Some(time_signature) => time_signature,
                None => self.time_signature,
            },
            key: change.key.spec_applied(self.key),
            chord: change.chord.spec_applied(self.chord),
        }
    }

    /// Applying a well-formed change to a well-formed state yields a
    /// well-formed state.
    pub proof fn lemma_changed_wf(self, change: ChangeView)
        requires
            self.wf(),
            change.wf(),
        ensures
            self.spec_changed(change).wf(),
    {
    }
}

impl MusicState {
    /// An owned copy of this state with the same value.
    pub fn duplicate(&self) -> (r: MusicState)
        ensures
            r@ == self@,
    {
        MusicState {
            bpm_millis: self.bpm_millis,
            time_signature: self.time_signature,
            key: duplicate_opt_chord(&self.key),
            chord: duplicate_opt_chord(&self.chord),
        }
    }

    /// Whether this state is well formed; see [`MusicStateView::wf`].
    pub fn is_well_formed(&self) -> (r: bool)
        ensures
            r == self@.wf(),
    {
        self.bpm_millis >= 1 && self.time_signature.top >= 1
    }

    /// The tempo as the overlay displays it: whole beats per minute, with
    /// the fractional part shown only when there is one ("120", "120.5",
    /// "120.25").
    pub fn bpm_string(&self) -> (r: String)
        ensures
            r@ == spec_bpm_str(self.bpm_millis),
    {
        proof {
            reveal_strlit(".");
        }
        let mut r = u64_to_string(self.bpm_millis as u64 / 1000);
        let frac = self.bpm_millis % 1000;
        if frac == 0 {
            return r;
        }
        r.append(".");
        let d1 = (frac / 100) as u64;
        let d2 = ((frac / 10) % 10) as u64;
        let d3 = (frac % 10) as u64;
        let ghost digits = seq![
            spec_digit_char(d1 as int),
            spec_digit_char(d2 as int),
            spec_digit_char(d3 as int),
        ];
        proof {
            assert(digits.drop_last() =~= seq![
                spec_digit_char(d1 as int),
                spec_digit_char(d2 as int),
            ]);
            assert(digits.drop_last().drop_last() =~= seq![spec_digit_char(d1 as int)]);
        }
        let first = digit_string(d1);
        r.append(first.as_str());
        if d2 != 0 || d3 != 0 {
            let second = digit_string(d2);
            r.append(second.as_str());
        }
        if d3 != 0 {
            let third = digit_string(d3);
            r.append(third.as_str());
        }
        proof {
            assert(d1 == 0 <==> spec_digit_char(d1 as int) == '0');
            assert(d2 == 0 <==> spec_digit_char(d2 as int) == '0');
            assert(d3 == 0 <==> spec_digit_char(d3 as int) == '0');
            assert(digits.last() == spec_digit_char(d3 as int));
            assert(digits.drop_last().last() == spec_digit_char(d2 as int));
            assert(digits.drop_last().drop_last().last() == spec_digit_char(d1 as int));
            if d3 != 0 {
                assert(spec_trim_trailing_zeros(digits) == digits);
            } else if d2 != 0 {
                assert(spec_trim_trailing_zeros(digits) == spec_trim_trailing_zeros(
                    digits.drop_last(),
                ));
                assert(spec_trim_trailing_zeros(digits.drop_last()) == digits.drop_last());
            } else {
                assert(d1 != 0);
                assert(spec_trim_trailing_zeros(digits) == spec_trim_trailing_zeros(
                    digits.drop_last(),
                ));
                assert(spec_trim_trailing_zeros(digits.drop_last()) == spec_trim_trailing_zeros(
                    digits.drop_last().drop_last(),
                ));
                assert(spec_trim_trailing_zeros(digits.drop_last().drop_last())
                    == digits.drop_last().drop_last());
            }
            assert(r@ =~= spec_bpm_str(self.bpm_millis));
        }
        r
    }

    /// The state after applying `change`: present fields overwrite, absent
    /// fields carry the previous value forward.  This is total: it never
    /// fails, whatever the change holds.
    ///
    /// Last-write-wins per field: the result's tempo is the change's tempo
    /// when present and the previous tempo otherwise, independently of the
    /// other fields, and likewise for the time signature, key and chord.
    pub fn changed(&self, change: &Change) -> (r: MusicState)
        ensures
            r@ == self@.spec_changed(change@),
            r@.bpm_millis == match change@.bpm_millis {
                Some(bpm_millis) => bpm_millis,
                None => self@.bpm_millis,
            },
            r@.time_signature == match change@.time_signature {
                Some(time_signature) => time_signature,
                None => self@.time_signature,
            },
            r@.key == change@.key.spec_applied(self@.key),
            r@.chord == change@.chord.spec_applied(self@.chord),
    {
        MusicState {
            bpm_millis: match change.bpm_millis {
                Some(bpm_millis) => bpm_millis,
                None => self.bpm_millis,
            },
            time_signature: match change.time_signature {
                Some(time_signature) => time_signature,
                None => self.time_signature,
            },
            key: change.key.applied(&self.key),
            chord: change.chord.applied(&self.chord),
        }
    }
}

/// A sequence of digits with its trailing zeros removed.
pub open spec fn spec_trim_trailing_zeros(s: Seq<char>) -> Seq<char>
    decreases s.len(),
{
    if s.len() > 0 && s.last() == '0' {
        spec_trim_trailing_zeros(s.drop_last())
    } else {
        s
    }
}

/// The display string of a tempo stored in thousandths of a BPM: the whole
/// part in decimal and, when the tempo is not whole, a point followed by up
/// to three fractional digits with trailing zeros removed.
pub open spec fn spec_bpm_str(bpm_millis: u32) -> Seq<char> {
    let frac = bpm_millis as int % 1000;
    if frac == 0 {
        spec_dec_rep((bpm_millis / 1000) as nat)
    } else {
        spec_dec_rep((bpm_millis / 1000) as nat) + seq!['.'] + spec_trim_trailing_zeros(
            seq![
                spec_digit_char(frac / 100),
                spec_digit_char((frac / 10) % 10),
                spec_digit_char(frac % 10),
            ],
        )
    }
}

/// An owned copy of an optional chord with the same value.
pub fn duplicate_opt_chord(c: &Option<Chord>) -> (r: Option<Chord>)
    ensures
        spec_opt_chord_view(r) == spec_opt_chord_view(*c),
{
    match c {
        Some(chord) => Some(chord.duplicate()),
        None => None,
    }
}

} // verus!
