//! Text-layout helpers for the overlay panels: splitting a chord string
//! into fragments, so that the accidental symbols inside it can be drawn
//! with the music font, and swapping the ASCII accidental letters for the
//! proper music symbols.

pub mod beat_indicator;

use vstd::prelude::*;

verus! {

/// Which font a fragment of chord text is drawn with: the root note is
/// large, the trailing text small, and accidentals use the music font at
/// the matching size.
#[derive(Debug, Clone, Copy, PartialEq, Eq, Structural)]
pub enum ChordTextFont {
    Big,
    Small,
    MusicBig,
    MusicSmall,
}

/// Whether a character is written as an accidental: "b" or "#".
pub open spec fn spec_is_accidental_char(c: char) -> bool {
    c == 'b' || c == '#'
}

/// Whether a character is an upper-case note letter.
pub open spec fn spec_is_upper_note_char(c: char) -> bool {
    c == 'A' || c == 'B' || c == 'C' || c == 'D' || c == 'E' || c == 'F' || c == 'G'
}

/// The fragments of `s` from position `i` on, with the current run of
/// plain characters reaching back to `run_start`: each accidental becomes
/// its own fragment marked `true`, with the (possibly empty) run of plain
/// characters before it pushed first, and a trailing nonempty run closes
/// the list.
pub open spec fn spec_split_from(s: Seq<char>, i: int, run_start: int) -> Seq<(bool, Seq<char>)>
    decreases s.len() - i,
{
    if i >= s.len() {
        if run_start < s.len() {
            seq![(false, s.subrange(run_start, s.len() as int))]
        } else {
            seq![]
        }
    } else if spec_is_accidental_char(s[i]) {
        seq![(false, s.subrange(run_start, i)), (true, s.subrange(i, i + 1))] + spec_split_from(
            s,
            i + 1,
            i + 1,
        )
    } else {
        spec_split_from(s, i + 1, run_start)
    }
}

/// The fragments of a chord string: maximal runs of plain characters
/// (marked `false`) interleaved with single accidental characters (marked
/// `true`).  The run before an accidental is pushed even when empty; a
/// trailing empty run is not.
pub open spec fn spec_split_by_accidentals(s: Seq<char>) -> Seq<(bool, Seq<char>)> {
    spec_split_from(s, 0, 0)
}

/// The values of a list of owned fragments.
pub open spec fn spec_fragment_views(out: Seq<(bool, String)>) -> Seq<(bool, Seq<char>)> {
    out.map_values(|f: (bool, String)| (f.0, f.1@))
}

/// Splits a string into accidental and non-accidental fragments; see
/// [`spec_split_by_accidentals`] for the exact shape of the result.
pub fn split_chord_str_by_accidentals(s: &str) -> (r: Vec<(bool, String)>)
    ensures
        spec_fragment_views(r@) == spec_split_by_accidentals(s@),
{
    let len = s.unicode_len();
    let mut fragments: Vec<(bool, String)> = Vec::new();
    let mut run_start: usize = 0;
    let mut i: usize = 0;
    proof {
        assert(spec_fragment_views(fragments@) =~= seq![]);
    }
    while i < len
        invariant
            0 <= run_start <= i <= len,
            len == s@.len(),
            spec_fragment_views(fragments@) + spec_split_from(s@, i as int, run_start as int)
                =~= spec_split_by_accidentals(s@),
        decreases len - i,
    {
        let c = s.get_char(i);
        if c == 'b' || c == '#' {
            let run = s.substring_char(run_start, i).to_owned();
            let acc = s.substring_char(i, i + 1).to_owned();
            proof {
                let x: (bool, String) = (false, run);
                let y: (bool, String) = (true, acc);
                assert(spec_fragment_views(fragments@.push(x).push(y)) =~= spec_fragment_views(
                    fragments@,
                ).push((false, run@)).push((true, acc@)));
            }
            fragments.push((false, run));
            fragments.push((true, acc));
            run_start = i + 1;
        }
        i += 1;
    }
    if run_start < len {
        let tail = s.substring_char(run_start, len).to_owned();
        proof {
            let x: (bool, String) = (false, tail);
            assert(spec_fragment_views(fragments@.push(x)) =~= spec_fragment_views(
                fragments@,
            ).push((false, tail@)));
        }
        fragments.push((false, tail));
    }
    proof {
        assert(spec_fragment_views(fragments@) =~= spec_split_by_accidentals(s@));
    }
    fragments
}

/// How many characters of a chord string belong to the root note: the
/// letter, plus an accidental right after it if there is one.
pub open spec fn spec_chord_head_len(s: Seq<char>) -> int {
    if s.len() >= 2 && spec_is_accidental_char(s[1]) {
        2
    } else {
        1
    }
}

/// The values of a list of owned font-tagged fragments.
pub open spec fn spec_font_fragment_views(out: Seq<(ChordTextFont, String)>) -> Seq<
    (ChordTextFont, Seq<char>),
> {
    out.map_values(|f: (ChordTextFont, String)| (f.0, f.1@))
}

/// The font-tagged fragments of a chord string: the root note's fragments
/// in the large fonts, the trailing text's fragments in the small fonts,
/// accidentals in the music fonts.  A string that does not start with an
/// upper-case note letter has no such decomposition.
pub open spec fn spec_split_chord(s: Seq<char>) -> Option<Seq<(ChordTextFont, Seq<char>)>> {
    if s.len() >= 1 && spec_is_upper_note_char(s[0]) {
        let head_len = spec_chord_head_len(s);
        let big = spec_split_by_accidentals(s.take(head_len)).map_values(
            |f: (bool, Seq<char>)|
                (
                    if f.0 {
                        ChordTextFont::MusicBig
                    } else {
                        ChordTextFont::Big
                    },
                    f.1,
                ),
        );
        let small = spec_split_by_accidentals(s.skip(head_len)).map_values(
            |f: (bool, Seq<char>)|
                (
                    if f.0 {
                        ChordTextFont::MusicSmall
                    } else {
                        ChordTextFont::Small
                    },
                    f.1,
                ),
        );
        Some(big + small)
    } else {
        None
    }
}

/// Splits a formatted chord string into font-tagged fragments for the
/// panel text: the root note (letter plus optional accidental) in the
/// large fonts, the rest in the small fonts, with accidentals everywhere
/// tagged for the music font.  Returns `None` when the string does not
/// start with an upper-case note letter.
pub fn split_chord_str(chord: &str) -> (r: Option<Vec<(ChordTextFont, String)>>)
    ensures
        r is Some <==> spec_split_chord(chord@) is Some,
        r is Some ==> spec_font_fragment_views(r.unwrap()@) == spec_split_chord(chord@).unwrap(),
{
    let len = chord.unicode_len();
    if len == 0 {
        return None;
    }
    let head = chord.get_char(0);
    if !(head == 'A' || head == 'B' || head == 'C' || head == 'D' || head == 'E' || head == 'F'
        || head == 'G') {
        return None;
    }
    let head_len: usize = if len >= 2 {
        let second = chord.get_char(1);
        if second == 'b' || second == '#' {
            2
        } else {
            1
        }
    } else {
        1
    };
    let big_str = chord.substring_char(0, head_len);
    let small_str = chord.substring_char(head_len, len);
    proof {
        assert(big_str@ =~= chord@.take(head_len as int));
        assert(small_str@ =~= chord@.skip(head_len as int));
    }
    let big = split_chord_str_by_accidentals(big_str);
    let small = split_chord_str_by_accidentals(small_str);
    let mut fragments: Vec<(ChordTextFont, String)> = Vec::new();
    let ghost big_spec = spec_split_by_accidentals(big_str@).map_values(
        |f: (bool, Seq<char>)|
            (
                if f.0 {
                    ChordTextFont::MusicBig
                } else {
                    ChordTextFont::Big
                },
                f.1,
            ),
    );
    let ghost small_spec = spec_split_by_accidentals(small_str@).map_values(
        |f: (bool, Seq<char>)|
            (
                if f.0 {
                    ChordTextFont::MusicSmall
                } else {
                    ChordTextFont::Small
                },
                f.1,
            ),
    );
    let mut i: usize = 0;
    while i < big.len()
        invariant
            0 <= i <= big.len(),
            spec_fragment_views(big@) == spec_split_by_accidentals(big_str@),
            big_spec == spec_split_by_accidentals(big_str@).map_values(
                |f: (bool, Seq<char>)|
                    (
                        if f.0 {
                            ChordTextFont::MusicBig
                        } else {
                            ChordTextFont::Big
                        },
                        f.1,
                    ),
            ),
            spec_font_fragment_views(fragments@) =~= big_spec.take(i as int),
        decreases big.len() - i,
    {
        let font = if big[i].0 {
            ChordTextFont::MusicBig
        } else {
            ChordTextFont::Big
        };
        let text = big[i].1.clone();
        proof {
            let x: (ChordTextFont, String) = (font, text);
            assert(spec_font_fragment_views(fragments@.push(x)) =~= spec_font_fragment_views(
                fragments@,
            ).push((font, text@)));
            assert(big_spec.take(i + 1) =~= big_spec.take(i as int).push(big_spec[i as int]));
        }
        fragments.push((font, text));
        i += 1;
    }
    proof {
        assert(big_spec.take(big@.len() as int) =~= big_spec);
    }
    let mut j: usize = 0;
    while j < small.len()
        invariant
            0 <= j <= small.len(),
            spec_fragment_views(small@) == spec_split_by_accidentals(small_str@),
            small_spec == spec_split_by_accidentals(small_str@).map_values(
                |f: (bool, Seq<char>)|
                    (
                        if f.0 {
                            ChordTextFont::MusicSmall
                        } else {
                            ChordTextFont::Small
                        },
                        f.1,
                    ),
            ),
            spec_font_fragment_views(fragments@) =~= big_spec + small_spec.take(j as int),
        decreases small.len() - j,
    {
        let font = if small[j].0 {
            ChordTextFont::MusicSmall
        } else {
            ChordTextFont::Small
        };
        let text = small[j].1.clone();
        proof {
            let x: (ChordTextFont, String) = (font, text);
            assert(spec_font_fragment_views(fragments@.push(x)) =~= spec_font_fragment_views(
                fragments@,
            ).push((font, text@)));
            assert(small_spec.take(j + 1) =~= small_spec.take(j as int).push(
                small_spec[j as int],
            ));
            assert((big_spec + small_spec.take(j as int)).push(small_spec[j as int]) =~= big_spec
                + small_spec.take(j + 1));
        }
        fragments.push((font, text));
        j += 1;
    }
    proof {
        assert(small_spec.take(small@.len() as int) =~= small_spec);
        assert(spec_font_fragment_views(fragments@) =~= spec_split_chord(chord@).unwrap());
    }
    Some(fragments)
}

/// The music symbol for a character: "b" becomes the flat sign, "#" the
/// sharp sign, anything else stays as it is.
pub open spec fn spec_music_symbol(c: char) -> char {
    if c == 'b' {
        '♭'
    } else if c == '#' {
        '♯'
    } else {
        c
    }
}

/// Replaces the ASCII accidental letters in a fragment with the proper
/// music symbols, character for character.
pub fn replace_accidental_symbols(s: &str) -> (r: String)
    ensures
        r@ == s@.map_values(|c: char| spec_music_symbol(c)),
{
    proof {
        reveal_strlit("♭");
        reveal_strlit("♯");
    }
    let len = s.unicode_len();
    let mut r = String::new();
    let mut i: usize = 0;
    proof {
        assert(r@ =~= s@.take(0).map_values(|c: char| spec_music_symbol(c)));
    }
    while i < len
        invariant
            0 <= i <= len,
            len == s@.len(),
            r@ == s@.take(i as int).map_values(|c: char| spec_music_symbol(c)),
        decreases len - i,
    {
        let c = s.get_char(i);
        if c == 'b' {
            r.append("♭");
        } else if c == '#' {
            r.append("♯");
        } else {
            r.append(s.substring_char(i, i + 1));
        }
        proof {
            reveal_strlit("♭");
            reveal_strlit("♯");
            assert(s@.take(i + 1) =~= s@.take(i as int).push(s@[i as int]));
            assert(s@.take(i + 1).map_values(|c: char| spec_music_symbol(c)) =~= s@.take(
                i as int,
            ).map_values(|c: char| spec_music_symbol(c)).push(spec_music_symbol(s@[i as int])));
            assert(r@ =~= s@.take(i + 1).map_values(|c: char| spec_music_symbol(c)));
        }
        i += 1;
    }
    proof {
        assert(s@.take(len as int) =~= s@);
    }
    r
}

} // verus!
