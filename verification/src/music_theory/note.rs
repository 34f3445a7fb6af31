use vstd::prelude::*;

use crate::music_theory::accidental::Accidental;
use crate::music_theory::note_name::canonical_note_char;
use crate::music_theory::note_name::NoteName;

verus! {

/// A note: a letter name plus an accidental, written for example "C", "Eb"
/// or "F#".
#[derive(Debug, Clone, Copy, PartialEq, Eq, Hash, Structural)]
pub struct Note {
    pub note_name: NoteName,
    pub accidental: Accidental,
}

/// The error returned when a string is not a note.  It carries the offending
/// string.
#[derive(Debug, Clone)]
pub struct InvalidNoteError {
    pub value: String,
}

impl InvalidNoteError {
    /// A human-readable description of the error.
    pub fn message(&self) -> (r: String)
        ensures
            r@ == self.value@ + " is not a valid note"@,
    {
        self.value.clone().concat(" is not a valid note")
    }
}

impl Note {
    /// The canonical string for this note: the upper-case letter followed by
    /// the accidental's symbol, if any.
    pub open spec fn spec_str(self) -> Seq<char> {
        self.note_name.spec_str() + self.accidental.spec_str()
    }

    /// The strings accepted by [`Note::parse`]: a note letter in either case,
    /// optionally followed by "b" or "#".
    pub open spec fn spec_parse(s: Seq<char>) -> Option<Note> {
        if s.len() == 1 && NoteName::spec_char_is_note(s[0]) {
            Some(
                Note {
                    note_name: NoteName::spec_of_char(s[0]).unwrap(),
                    accidental: Accidental::Natural,
                },
            )
        } else if s.len() == 2 && NoteName::spec_char_is_note(s[0]) && Accidental::spec_of_char(
            s[1],
        ) is Some {
            Some(
                Note {
                    note_name: NoteName::spec_of_char(s[0]).unwrap(),
                    accidental: Accidental::spec_of_char(s[1]).unwrap(),
                },
            )
        } else {
            None
        }
    }

    /// Formats this note canonically.
    pub fn to_string(&self) -> (r: String)
        ensures
            r@ == self.spec_str(),
    {
        let mut r = self.note_name.to_string();
        let accidental = self.accidental.to_string();
        r.append(accidental.as_str());
        r
    }

    /// Parses a note: a letter A through G in either case, optionally
    /// followed by an accidental symbol.
    ///
    /// Formatting a successfully parsed value yields the canonical form of
    /// the input (the letter upper-cased, the rest unchanged).
    pub fn parse(value: &str) -> (r: Result<Note, InvalidNoteError>)
        ensures
            r is Ok <==> Self::spec_parse(value@) is Some,
            r is Ok ==> r.unwrap() == Self::spec_parse(value@).unwrap(),
            r is Ok ==> r.unwrap().spec_str() == seq![canonical_note_char(value@[0])]
                + value@.skip(1),
            r is Err ==> r.unwrap_err().value@ == value@,
    {
        let len = value.unicode_len();
        if len == 1 || len == 2 {
            if let Some(note_name) = NoteName::of_char(value.get_char(0)) {
                let accidental = if len == 2 {
                    Accidental::of_char(value.get_char(1))
                } else {
                    Some(Accidental::Natural)
                };
                if let Some(accidental) = accidental {
                    let note = Note { note_name, accidental };
                    proof {
                        assert(note.spec_str() =~= seq![canonical_note_char(value@[0])]
                            + value@.skip(1));
                    }
                    return Ok(note);
                }
            }
        }
        Err(InvalidNoteError { value: value.to_owned() })
    }
}

} // verus!
