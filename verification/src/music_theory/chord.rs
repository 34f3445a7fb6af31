use vstd::prelude::*;

use crate::music_theory::accidental::Accidental;
use crate::music_theory::note::Note;
use crate::music_theory::note_name::canonical_note_char;
use crate::music_theory::note_name::NoteName;

verus! {

/// A chord: a root note followed by free-form trailing text, written for
/// example "C", "Am7" or "F#sus4".
#[derive(Debug, Clone, Eq, Hash)]
pub struct Chord {
    pub note: Note,
    pub text: String,
}

/// The mathematical value of a [`Chord`]: the root note and the trailing
/// text as a sequence of characters.
pub struct ChordView {
    pub note: Note,
    pub text: Seq<char>,
}

impl View for Chord {
    type V = ChordView;

    open spec fn view(&self) -> ChordView {
        ChordView { note: self.note, text: self.text@ }
    }
}

impl ChordView {
    /// The canonical string for this chord: the canonical note followed by
    /// the trailing text verbatim.
    pub open spec fn spec_str(self) -> Seq<char> {
        self.note.spec_str() + self.text
    }
}

impl PartialEq for Chord {
    fn eq(&self, other: &Chord) -> (r: bool) {
        self.note == other.note && self.text == other.text
    }
}

impl vstd::std_specs::cmp::PartialEqSpecImpl for Chord {
    open spec fn obeys_eq_spec() -> bool {
        true
    }

    open spec fn eq_spec(&self, other: &Chord) -> bool {
        self.note == other.note && self.text@ == other.text@
    }
}

/// The error returned when a string is not a chord.  It carries the
/// offending string.
#[derive(Debug, Clone)]
pub struct InvalidChordError {
    pub value: String,
}

impl InvalidChordError {
    /// A human-readable description of the error.
    pub fn message(&self) -> (r: String)
        ensures
            r@ == self.value@ + " is not a valid chord"@,
    {
        self.value.clone().concat(" is not a valid chord")
    }
}

impl Chord {
    /// The canonical string for this chord.
    pub open spec fn spec_str(self) -> Seq<char> {
        self@.spec_str()
    }

    /// The value [`Chord::parse`] accepts a string as: a note letter in
    /// either case, an optional accidental symbol, and the rest of the
    /// string verbatim.
    pub open spec fn spec_parse(s: Seq<char>) -> Option<ChordView> {
        if s.len() >= 1 && NoteName::spec_char_is_note(s[0]) {
            if s.len() >= 2 && Accidental::spec_of_char(s[1]) is Some {
                Some(
                    ChordView {
                        note: Note {
                            note_name: NoteName::spec_of_char(s[0]).unwrap(),
                            accidental: Accidental::spec_of_char(s[1]).unwrap(),
                        },
                        text: s.skip(2),
                    },
                )
            } else {
                Some(
                    ChordView {
                        note: Note {
                            note_name: NoteName::spec_of_char(s[0]).unwrap(),
                            accidental: Accidental::Natural,
                        },
                        text: s.skip(1),
                    },
                )
            }
        } else {
            None
        }
    }

    /// An owned copy of this chord with the same value.  Verified code uses
    /// this instead of `clone`, whose derived implementation carries no
    /// specification.
    pub fn duplicate(&self) -> (r: Chord)
        ensures
            r@ == self@,
    {
        Chord { note: self.note, text: self.text.clone() }
    }

    /// Formats this chord canonically.
    pub fn to_string(&self) -> (r: String)
        ensures
            r@ == self.spec_str(),
    {
        let mut r = self.note.to_string();
        r.append(self.text.as_str());
        r
    }

    /// Parses a chord: a note followed by arbitrary trailing text.
    ///
    /// Formatting a successfully parsed value yields the canonical form of
    /// the input (the note letter upper-cased, the rest unchanged).
    pub fn parse(value: &str) -> (r: Result<Chord, InvalidChordError>)
        ensures
            r is Ok <==> Self::spec_parse(value@) is Some,
            r is Ok ==> r.unwrap()@ == Self::spec_parse(value@).unwrap(),
            r is Ok ==> r.unwrap().spec_str() == seq![canonical_note_char(value@[0])]
                + value@.skip(1),
            r is Err ==> r.unwrap_err().value@ == value@,
    {
        let len = value.unicode_len();
        if len >= 1 {
            if let Some(note_name) = NoteName::of_char(value.get_char(0)) {
                let accidental: Option<Accidental> = if len >= 2 {
                    Accidental::of_char(value.get_char(1))
                } else {
                    None
                };
                let (accidental, text_start) = match accidental {
                    Some(accidental) => (accidental, 2usize),
                    None => (Accidental::Natural, 1usize),
                };
                let text = value.substring_char(text_start, len).to_owned();
                let chord = Chord { note: Note { note_name, accidental }, text };
                proof {
                    assert(chord@ == Self::spec_parse(value@).unwrap());
                    assert(chord.spec_str() =~= seq![canonical_note_char(value@[0])]
                        + value@.skip(1));
                }
                return Ok(chord);
            }
        }
        Err(InvalidChordError { value: value.to_owned() })
    }
}

} // verus!
