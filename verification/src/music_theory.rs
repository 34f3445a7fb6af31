//! Music theory value types: note names, accidentals, notes, chords and time
//! signatures, with parsers and formatters that invert each other.

pub mod accidental;
pub mod chord;
pub mod note;
pub mod note_name;
pub mod time_signature;

pub use accidental::Accidental;
pub use accidental::InvalidAccidentalError;
pub use chord::Chord;
pub use chord::ChordView;
pub use chord::InvalidChordError;
pub use note::InvalidNoteError;
pub use note::Note;
pub use note_name::InvalidNoteNameError;
pub use note_name::NoteName;
pub use time_signature::InvalidTimeSignatureError;
pub use time_signature::TimeSignature;
