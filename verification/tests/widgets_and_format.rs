use music_timeline::format::format_time;
use music_timeline::format::parse_time;
use music_timeline::shader_param::ShaderColor;
use music_timeline::widgets::beat_indicator::beat_indicator_tick_points;
use music_timeline::widgets::beat_indicator::CellRect;
use music_timeline::widgets::replace_accidental_symbols;
use music_timeline::widgets::split_chord_str;
use music_timeline::widgets::split_chord_str_by_accidentals;
use music_timeline::widgets::ChordTextFont;

#[test]
fn split_by_accidentals_interleaves_fragments() {
    let fragments = split_chord_str_by_accidentals("Bb7");
    assert_eq!(
        fragments,
        vec![
            (false, "B".to_owned()),
            (true, "b".to_owned()),
            (false, "7".to_owned()),
        ]
    );
}

#[test]
fn split_by_accidentals_pushes_empty_runs_before_accidentals() {
    let fragments = split_chord_str_by_accidentals("bb");
    assert_eq!(
        fragments,
        vec![
            (false, "".to_owned()),
            (true, "b".to_owned()),
            (false, "".to_owned()),
            (true, "b".to_owned()),
        ]
    );
    assert_eq!(split_chord_str_by_accidentals(""), vec![]);
    assert_eq!(
        split_chord_str_by_accidentals("m7"),
        vec![(false, "m7".to_owned())]
    );
}

#[test]
fn split_chord_assigns_fonts() {
    let fragments = split_chord_str("C#m7b5").unwrap();
    assert_eq!(
        fragments,
        vec![
            (ChordTextFont::Big, "C".to_owned()),
            (ChordTextFont::MusicBig, "#".to_owned()),
            (ChordTextFont::Small, "m7".to_owned()),
            (ChordTextFont::MusicSmall, "b".to_owned()),
            (ChordTextFont::Small, "5".to_owned()),
        ]
    );
    let plain = split_chord_str("Am").unwrap();
    assert_eq!(
        plain,
        vec![
            (ChordTextFont::Big, "A".to_owned()),
            (ChordTextFont::Small, "m".to_owned()),
        ]
    );
}

#[test]
fn split_chord_requires_an_upper_case_note() {
    assert!(split_chord_str("x7").is_none());
    assert!(split_chord_str("am").is_none());
    assert!(split_chord_str("").is_none());
}

#[test]
fn accidental_symbols_are_substituted() {
    assert_eq!(replace_accidental_symbols("Bb#x"), "B♭♯x");
    assert_eq!(replace_accidental_symbols(""), "");
    assert_eq!(replace_accidental_symbols("m7"), "m7");
}

#[test]
fn border_tick_lines_are_vertical() {
    let rect = CellRect { x: 0, y: 0, width: 12, height: 1 };
    let left = beat_indicator_tick_points(rect, 0, 4);
    assert_eq!(left.top.x_numer, 0);
    assert_eq!(left.bottom.x_numer, 0);
    assert_eq!(left.top.x_denom, 8);
    assert_eq!(left.top.y, 0);
    assert_eq!(left.bottom.y, 48);
    let right = beat_indicator_tick_points(rect, 4, 4);
    // The right border sits at the full width: 12 cells of 48 pixels.
    assert_eq!(right.top.x_numer / right.top.x_denom as i128, 12 * 48);
    assert_eq!(right.top.x_numer, right.bottom.x_numer);
}

#[test]
fn interior_tick_lines_are_sheared() {
    let rect = CellRect { x: 0, y: 0, width: 12, height: 1 };
    let line = beat_indicator_tick_points(rect, 1, 4);
    // Unsheared position: a quarter of twelve cells, 144 pixels; the shear
    // shifts the top endpoint right and the bottom endpoint left by half a
    // cell height, 24 pixels.
    assert_eq!(line.top.x_numer as f64 / line.top.x_denom as f64, 144.0 + 24.0);
    assert_eq!(line.bottom.x_numer as f64 / line.bottom.x_denom as f64, 144.0 - 24.0);
}

#[test]
fn hex_colors_parse_and_format() {
    let color = ShaderColor::parse("#FF8000").unwrap();
    assert_eq!(
        color,
        ShaderColor { red: 255, green: 128, blue: 0, alpha: 255 }
    );
    assert_eq!(color.to_string(), "#FF8000FF");
    let with_alpha = ShaderColor::parse("#ff8000aa").unwrap();
    assert_eq!(with_alpha.alpha, 170);
    assert_eq!(with_alpha.to_string(), "#FF8000AA");
    // Formatting keeps leading zeros, so small channels round-trip.
    let dark = ShaderColor { red: 1, green: 2, blue: 3, alpha: 4 };
    assert_eq!(ShaderColor::parse(&dark.to_string()).unwrap(), dark);
}

#[test]
fn hex_colors_reject_malformed_strings() {
    for s in ["", "FF8000", "#FF800", "#GG8000", "#FF8000A", "#FF8000AAB"] {
        let err = ShaderColor::parse(s).unwrap_err();
        assert_eq!(err.message(), "invalid hex color");
    }
}

#[test]
fn times_format_as_hours_minutes_seconds() {
    assert_eq!(format_time(0), "00:00:00");
    assert_eq!(format_time(3661), "01:01:01");
    assert_eq!(format_time(59), "00:00:59");
    assert_eq!(format_time(360_000), "100:00:00");
}

#[test]
fn times_parse_from_colon_separated_parts() {
    assert_eq!(parse_time("01:02:03"), Some(3723));
    assert_eq!(parse_time("1:2:3"), Some(3723));
    assert_eq!(parse_time("0:0:0"), Some(0));
    assert_eq!(parse_time("-1:0:0"), Some(-3600));
    assert_eq!(parse_time("+1:0:0"), Some(3600));
    assert_eq!(parse_time("2147483647:0:0"), Some(2_147_483_647i64 * 3600));
}

#[test]
fn malformed_times_parse_to_nothing() {
    assert_eq!(parse_time("1:2"), None);
    assert_eq!(parse_time("1:2:3:4"), None);
    assert_eq!(parse_time("::"), None);
    assert_eq!(parse_time(""), None);
    assert_eq!(parse_time("a:b:c"), None);
    assert_eq!(parse_time("2147483648:0:0"), None);
}

#[test]
fn formatted_times_parse_back() {
    for seconds in [0i64, 59, 60, 3599, 3600, 86_399, 123_456] {
        let formatted = format_time(seconds as u64);
        assert_eq!(parse_time(&formatted), Some(seconds));
    }
}
