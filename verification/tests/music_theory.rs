use music_timeline::music_theory::Accidental;
use music_timeline::music_theory::Chord;
use music_timeline::music_theory::Note;
use music_timeline::music_theory::NoteName;
use music_timeline::music_theory::TimeSignature;

#[test]
fn accidental_round_trips() {
    for s in ["", "b", "#"] {
        let accidental = Accidental::parse(s).unwrap();
        assert_eq!(accidental.to_string(), s);
    }
    assert_eq!(Accidental::parse("").unwrap(), Accidental::Natural);
    assert_eq!(Accidental::parse("b").unwrap(), Accidental::Flat);
    assert_eq!(Accidental::parse("#").unwrap(), Accidental::Sharp);
}

#[test]
fn accidental_rejects_other_strings() {
    let err = Accidental::parse("x").unwrap_err();
    assert_eq!(err.value, "x");
    assert_eq!(err.message(), "x is not a valid accidental");
    assert!(Accidental::parse("bb").is_err());
    assert!(Accidental::parse("B").is_err());
}

#[test]
fn note_name_canonicalizes_case() {
    assert_eq!(NoteName::parse("a").unwrap(), NoteName::A);
    assert_eq!(NoteName::parse("a").unwrap().to_string(), "A");
    assert_eq!(NoteName::parse("G").unwrap().to_string(), "G");
    for s in ["A", "B", "C", "D", "E", "F", "G"] {
        assert_eq!(NoteName::parse(s).unwrap().to_string(), s);
    }
}

#[test]
fn note_name_rejects_other_strings() {
    let err = NoteName::parse("h").unwrap_err();
    assert_eq!(err.message(), "h is not a valid note name");
    assert!(NoteName::parse("").is_err());
    assert!(NoteName::parse("ab").is_err());
}

#[test]
fn note_round_trips() {
    assert_eq!(Note::parse("c#").unwrap().to_string(), "C#");
    assert_eq!(Note::parse("Eb").unwrap().to_string(), "Eb");
    assert_eq!(Note::parse("e").unwrap().to_string(), "E");
    let note = Note::parse("f#").unwrap();
    assert_eq!(note.note_name, NoteName::F);
    assert_eq!(note.accidental, Accidental::Sharp);
}

#[test]
fn note_rejects_other_strings() {
    let err = Note::parse("Hb").unwrap_err();
    assert_eq!(err.message(), "Hb is not a valid note");
    assert!(Note::parse("").is_err());
    assert!(Note::parse("C##").is_err());
    assert!(Note::parse("Cx").is_err());
}

#[test]
fn chord_round_trips() {
    assert_eq!(Chord::parse("am7").unwrap().to_string(), "Am7");
    assert_eq!(Chord::parse("F#sus4").unwrap().to_string(), "F#sus4");
    assert_eq!(Chord::parse("bb").unwrap().to_string(), "Bb");
    assert_eq!(Chord::parse("C").unwrap().to_string(), "C");
    let chord = Chord::parse("ebm7b5").unwrap();
    assert_eq!(chord.note.note_name, NoteName::E);
    assert_eq!(chord.note.accidental, Accidental::Flat);
    assert_eq!(chord.text, "m7b5");
}

#[test]
fn chord_equality_follows_fields() {
    let one = Chord::parse("Am7").unwrap();
    let other = Chord::parse("am7").unwrap();
    assert_eq!(one, other);
    assert!(one != Chord::parse("Am").unwrap());
}

#[test]
fn chord_rejects_other_strings() {
    let err = Chord::parse("7C").unwrap_err();
    assert_eq!(err.message(), "7C is not a valid chord");
    assert!(Chord::parse("").is_err());
}

#[test]
fn time_signature_round_trips() {
    let ts = TimeSignature::parse("4/4").unwrap();
    assert_eq!(ts.top, 4);
    assert_eq!(ts.bottom, 4);
    assert_eq!(ts.to_string(), "4/4");
    let ts = TimeSignature::parse("12/8").unwrap();
    assert_eq!(ts.top, 12);
    assert_eq!(ts.bottom, 8);
    assert_eq!(ts.to_string(), "12/8");
    for top in [1u32, 7, 12, 128] {
        let ts = TimeSignature { top, bottom: 4 };
        assert_eq!(TimeSignature::parse(&ts.to_string()).unwrap(), ts);
    }
}

#[test]
fn time_signature_canonicalizes_leading_zeros() {
    let ts = TimeSignature::parse("04/4").unwrap();
    assert_eq!(ts.top, 4);
    assert_eq!(ts.to_string(), "4/4");
}

#[test]
fn time_signature_rejects_other_strings() {
    let err = TimeSignature::parse("4").unwrap_err();
    assert_eq!(err.message(), "4 is not a valid time signature");
    assert!(TimeSignature::parse("").is_err());
    assert!(TimeSignature::parse("4/").is_err());
    assert!(TimeSignature::parse("/4").is_err());
    assert!(TimeSignature::parse("4/x").is_err());
    assert!(TimeSignature::parse("4/4/4").is_err());
    assert!(TimeSignature::parse("99999999999/4").is_err());
}

#[test]
fn time_signature_rejects_zero_beats_per_measure() {
    assert!(TimeSignature::parse("0/4").is_err());
    assert!(TimeSignature::parse("1/0").is_ok());
}
