use vstd::prelude::*;

verus! {

/// One of the seven letter names of the diatonic scale.
#[derive(Debug, Clone, Copy, PartialEq, Eq, Hash, Structural)]
pub enum NoteName {
    A,
    B,
    C,
    D,
    E,
    F,
    G,
}

/// The error returned when a string is not a single note letter.
/// It carries the offending string.
#[derive(Debug, Clone)]
pub struct InvalidNoteNameError {
    pub value: String,
}

impl InvalidNoteNameError {
    /// A human-readable description of the error.
    pub fn message(&self) -> (r: String)
        ensures
            r@ == self.value@ + " is not a valid note name"@,
    {
        self.value.clone().concat(" is not a valid note name")
    }
}

impl NoteName {
    /// The canonical (upper-case) letter for this note name.
    pub open spec fn spec_char(self) -> char {
        match self {
            NoteName::A => 'A',
            NoteName::B => 'B',
            NoteName::C => 'C',
            NoteName::D => 'D',
            NoteName::E => 'E',
            NoteName::F => 'F',
            NoteName::G => 'G',
        }
    }

    /// The canonical string for this note name.
    pub open spec fn spec_str(self) -> Seq<char> {
        seq![self.spec_char()]
    }

    /// The note name a single character denotes, accepting either case.
    pub open spec fn spec_of_char(c: char) -> Option<NoteName> {
        if c == 'A' || c == 'a' {
            Some(NoteName::A)
        } else if c == 'B' || c == 'b' {
            Some(NoteName::B)
        } else if c == 'C' || c == 'c' {
            Some(NoteName::C)
        } else if c == 'D' || c == 'd' {
            Some(NoteName::D)
        } else if c == 'E' || c == 'e' {
            Some(NoteName::E)
        } else if c == 'F' || c == 'f' {
            Some(NoteName::F)
        } else if c == 'G' || c == 'g' {
            Some(NoteName::G)
        } else {
            None
        }
    }

    /// A character denotes a note name exactly when it is one of the seven
    /// letters, in either case.
    pub open spec fn spec_char_is_note(c: char) -> bool {
        Self::spec_of_char(c) is Some
    }

    /// Formats this note name as its canonical upper-case letter.
    pub fn to_string(&self) -> (r: String)
        ensures
            r@ == self.spec_str(),
    {
        proof {
            reveal_strlit("A");
            reveal_strlit("B");
            reveal_strlit("C");
            reveal_strlit("D");
            reveal_strlit("E");
            reveal_strlit("F");
            reveal_strlit("G");
        }
        match self {
            NoteName::A => String::from_str("A"),
            NoteName::B => String::from_str("B"),
            NoteName::C => String::from_str("C"),
            NoteName::D => String::from_str("D"),
            NoteName::E => String::from_str("E"),
            NoteName::F => String::from_str("F"),
            NoteName::G => String::from_str("G"),
        }
    }

    /// The note name a single character denotes, accepting either case.
    pub fn of_char(c: char) -> (r: Option<NoteName>)
        ensures
            r == Self::spec_of_char(c),
    {
        if c == 'A' || c == 'a' {
            Some(NoteName::A)
        } else if c == 'B' || c == 'b' {
            Some(NoteName::B)
        } else if c == 'C' || c == 'c' {
            Some(NoteName::C)
        } else if c == 'D' || c == 'd' {
            Some(NoteName::D)
        } else if c == 'E' || c == 'e' {
            Some(NoteName::E)
        } else if c == 'F' || c == 'f' {
            Some(NoteName::F)
        } else if c == 'G' || c == 'g' {
            Some(NoteName::G)
        } else {
            None
        }
    }

    /// Parses a note name: exactly one letter A through G, in either case.
    ///
    /// Formatting a successfully parsed value yields the canonical form of
    /// the input (the letter upper-cased).
    pub fn parse(value: &str) -> (r: Result<NoteName, InvalidNoteNameError>)
        ensures
            r is Ok <==> value@.len() == 1 && Self::spec_char_is_note(value@[0]),
            r is Ok ==> r.unwrap() == Self::spec_of_char(value@[0]).unwrap(),
            r is Ok ==> r.unwrap().spec_str() == seq![canonical_note_char(value@[0])],
            r is Err ==> r.unwrap_err().value@ == value@,
    {
        if value.unicode_len() == 1 {
            if let Some(name) = Self::of_char(value.get_char(0)) {
                proof {
                    assert(name.spec_str() =~= seq![canonical_note_char(value@[0])]);
                }
                return Ok(name);
            }
        }
        Err(InvalidNoteNameError { value: value.to_owned() })
    }
}

/// The canonical form of a character that denotes a note name: the letter
/// upper-cased.  Characters that denote no note name are left unchanged.
pub open spec fn canonical_note_char(c: char) -> char {
    if c == 'a' {
        'A'
    } else if c == 'b' {
        'B'
    } else if c == 'c' {
        'C'
    } else if c == 'd' {
        'D'
    } else if c == 'e' {
        'E'
    } else if c == 'f' {
        'F'
    } else if c == 'g' {
        'G'
    } else {
        c
    }
}

} // verus!
