use vstd::prelude::*;

verus! {

/// An accidental: natural (written as the empty string), flat ("b") or
/// sharp ("#").
#[derive(Debug, Clone, Copy, PartialEq, Eq, Hash, Structural)]
pub enum Accidental {
    Natural,
    Flat,
    Sharp,
}

/// The error returned when a string is not an accidental.  It carries the
/// offending string.
#[derive(Debug, Clone)]
pub struct InvalidAccidentalError {
    pub value: String,
}

impl InvalidAccidentalError {
    /// A human-readable description of the error.
    pub fn message(&self) -> (r: String)
        ensures
            r@ == self.value@ + " is not a valid accidental"@,
    {
        self.value.clone().concat(" is not a valid accidental")
    }
}

impl Accidental {
    /// The canonical string for this accidental: "", "b" or "#".
    pub open spec fn spec_str(self) -> Seq<char> {
        match self {
            Accidental::Natural => Seq::empty(),
            Accidental::Flat => seq!['b'],
            Accidental::Sharp => seq!['#'],
        }
    }

    /// The accidental a single character denotes.
    pub open spec fn spec_of_char(c: char) -> Option<Accidental> {
        if c == 'b' {
            Some(Accidental::Flat)
        } else if c == '#' {
            Some(Accidental::Sharp)
        } else {
            None
        }
    }

    /// The strings accepted by [`Accidental::parse`].
    pub open spec fn spec_parse(s: Seq<char>) -> Option<Accidental> {
        if s.len() == 0 {
            Some(Accidental::Natural)
        } else if s.len() == 1 {
            Self::spec_of_char(s[0])
        } else {
            None
        }
    }

    /// Formats this accidental as "", "b" or "#".
    pub fn to_string(&self) -> (r: String)
        ensures
            r@ == self.spec_str(),
    {
        proof {
            reveal_strlit("");
            reveal_strlit("b");
            reveal_strlit("#");
        }
        let r = match self {
            Accidental::Natural => String::from_str(""),
            Accidental::Sharp => String::from_str("#"),
            Accidental::Flat => String::from_str("b"),
        };
        proof {
            assert(r@ =~= self.spec_str());
        }
        r
    }

    /// The accidental a single character denotes.
    pub fn of_char(c: char) -> (r: Option<Accidental>)
        ensures
            r == Self::spec_of_char(c),
    {
        if c == 'b' {
            Some(Accidental::Flat)
        } else if c == '#' {
            Some(Accidental::Sharp)
        } else {
            None
        }
    }

    /// Parses an accidental: "" is natural, "b" is flat, "#" is sharp.
    ///
    /// Every accepted string is already canonical, so formatting a
    /// successfully parsed value yields the input unchanged.
    pub fn parse(value: &str) -> (r: Result<Accidental, InvalidAccidentalError>)
        ensures
            r is Ok <==> Self::spec_parse(value@) is Some,
            r is Ok ==> r.unwrap() == Self::spec_parse(value@).unwrap(),
            r is Ok ==> r.unwrap().spec_str() == value@,
            r is Err ==> r.unwrap_err().value@ == value@,
    {
        let len = value.unicode_len();
        if len == 0 {
            proof {
                assert(Accidental::Natural.spec_str() =~= value@);
            }
            Ok(Accidental::Natural)
        } else if len == 1 {
            let c = value.get_char(0);
            if c == 'b' {
                proof {
                    assert(Accidental::Flat.spec_str() =~= value@);
                }
                Ok(Accidental::Flat)
            } else if c == '#' {
                proof {
                    assert(Accidental::Sharp.spec_str() =~= value@);
                }
                Ok(Accidental::Sharp)
            } else {
                Err(InvalidAccidentalError { value: value.to_owned() })
            }
        } else {
            Err(InvalidAccidentalError { value: value.to_owned() })
        }
    }
}

} // verus!
