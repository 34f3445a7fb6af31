use music_timeline::music_state::MusicState;
use music_timeline::music_theory::Chord;
use music_timeline::music_theory::TimeSignature;
use music_timeline::track_info::TrackInfo;
use music_timeline::track_info::BEAT_SCALE;
use music_timeline::user_track_info::Change;
use music_timeline::user_track_info::ChordUpdate;
use music_timeline::user_track_info::UserTrackInfo;

fn state(bpm_millis: u32, top: u32, bottom: u32) -> MusicState {
    MusicState {
        bpm_millis,
        time_signature: TimeSignature { top, bottom },
        key: Some(Chord::parse("C").unwrap()),
        chord: Some(Chord::parse("Am7").unwrap()),
    }
}

fn plain_change(after: u32) -> Change {
    Change {
        after,
        bpm_millis: None,
        time_signature: None,
        key: ChordUpdate::Inherit,
        chord: ChordUpdate::Inherit,
    }
}

#[test]
fn change_application_is_last_write_wins_per_field() {
    let initial = state(120_000, 4, 4);
    let change = Change {
        after: 0,
        bpm_millis: Some(90_000),
        time_signature: None,
        key: ChordUpdate::Replace(Chord::parse("Eb").unwrap()),
        chord: ChordUpdate::Clear,
    };
    let new = initial.changed(&change);
    assert_eq!(new.bpm_millis, 90_000);
    assert_eq!(new.time_signature, TimeSignature { top: 4, bottom: 4 });
    assert_eq!(new.key.unwrap().to_string(), "Eb");
    assert!(new.chord.is_none());

    let untouched = initial.changed(&plain_change(5));
    assert_eq!(untouched.bpm_millis, 120_000);
    assert_eq!(untouched.time_signature, TimeSignature { top: 4, bottom: 4 });
    assert_eq!(untouched.key.unwrap().to_string(), "C");
    assert_eq!(untouched.chord.unwrap().to_string(), "Am7");
}

#[test]
fn compiled_timeline_starts_at_zero_with_initial_state() {
    let user = UserTrackInfo {
        initial_state: state(120_000, 4, 4),
        ticks_per_beat: 4,
        changes: vec![plain_change(7), plain_change(3)],
    };
    assert!(user.is_well_formed());
    let track = TrackInfo::new(&user);
    assert_eq!(track.music_states.len(), 3);
    assert_eq!(track.music_states[0].timestamp, 0);
    assert_eq!(track.music_states[0].music_state.bpm_millis, 120_000);
    assert_eq!(
        track.music_states[0].music_state.key.as_ref().unwrap().to_string(),
        "C"
    );
}

#[test]
fn empty_change_list_compiles_to_single_entry() {
    let user = UserTrackInfo {
        initial_state: state(60_000, 3, 4),
        ticks_per_beat: 1,
        changes: vec![],
    };
    let track = TrackInfo::new(&user);
    assert_eq!(track.music_states.len(), 1);
    assert_eq!(track.music_states[0].timestamp, 0);
    let entry = track.music_state(5_000_000_000);
    assert_eq!(entry.timestamp, 0);
    assert_eq!(entry.music_state.bpm_millis, 60_000);
}

#[test]
fn tempo_change_timestamps_are_exact() {
    // At 60 BPM with one tick per beat, a tick lasts exactly one second.
    let user = UserTrackInfo {
        initial_state: state(60_000, 4, 4),
        ticks_per_beat: 1,
        changes: vec![plain_change(60), plain_change(30)],
    };
    let track = TrackInfo::new(&user);
    assert_eq!(track.music_states[1].timestamp, 60_000_000_000);
    assert_eq!(track.music_states[2].timestamp, 90_000_000_000);
}

#[test]
fn tempo_change_governs_only_later_ticks() {
    // 120 BPM, one tick per beat: half a second per tick.  The change after
    // four ticks lands at 2.0 s and switches to 90 BPM and 3/4.
    let mut change = plain_change(4);
    change.bpm_millis = Some(90_000);
    change.time_signature = Some(TimeSignature { top: 3, bottom: 4 });
    let user = UserTrackInfo {
        initial_state: state(120_000, 4, 4),
        ticks_per_beat: 1,
        changes: vec![change, plain_change(3)],
    };
    let track = TrackInfo::new(&user);
    assert_eq!(track.music_states[1].timestamp, 2_000_000_000);
    // The three ticks after the change run at the new tempo: 2/3 s each.
    let tick_at_90 = BEAT_SCALE / 90_000;
    assert_eq!(
        track.music_states[2].timestamp,
        2_000_000_000 + 3 * tick_at_90
    );
}

#[test]
fn query_returns_correct_bracket() {
    let mut change = plain_change(4);
    change.bpm_millis = Some(90_000);
    change.time_signature = Some(TimeSignature { top: 3, bottom: 4 });
    let user = UserTrackInfo {
        initial_state: state(120_000, 4, 4),
        ticks_per_beat: 1,
        changes: vec![change],
    };
    let track = TrackInfo::new(&user);
    assert_eq!(track.music_states[1].timestamp, 2_000_000_000);
    assert_eq!(track.music_state(1_000_000_000).music_state.bpm_millis, 120_000);
    assert_eq!(track.music_state(2_500_000_000).music_state.bpm_millis, 90_000);
    assert_eq!(track.music_state(0).music_state.bpm_millis, 120_000);
    assert_eq!(track.music_state(2_000_000_000).music_state.bpm_millis, 90_000);
}

#[test]
fn query_past_the_end_is_stable() {
    let user = UserTrackInfo {
        initial_state: state(120_000, 4, 4),
        ticks_per_beat: 1,
        changes: vec![plain_change(8)],
    };
    let track = TrackInfo::new(&user);
    let last_timestamp = track.music_states[1].timestamp;
    let at_last = track.music_state(last_timestamp);
    let far_past = track.music_state(u64::MAX);
    assert_eq!(at_last.timestamp, far_past.timestamp);
    assert_eq!(at_last.music_state.bpm_millis, far_past.music_state.bpm_millis);
}

#[test]
fn beat_fraction_wraps_within_the_measure() {
    // 120 BPM is two beats per second; at t = 1.75 s the beat position is
    // (1.75 * 2) mod 4 = 3.5.
    let user = UserTrackInfo {
        initial_state: state(120_000, 4, 4),
        ticks_per_beat: 1,
        changes: vec![],
    };
    let track = TrackInfo::new(&user);
    let beat = track.current_beat(1_750_000_000);
    assert_eq!(beat.denom, BEAT_SCALE);
    assert_eq!(beat.numer, 1_750_000_000u128 * 120_000);
    assert_eq!(beat.numer as f64 / beat.denom as f64, 3.5);
    // One full measure later the fraction is the same.
    let beat_next_measure = track.current_beat(1_750_000_000 + 2_000_000_000);
    assert_eq!(beat_next_measure.numer, beat.numer);
}

#[test]
fn beat_fraction_resets_at_state_change() {
    let mut change = plain_change(4);
    change.time_signature = Some(TimeSignature { top: 3, bottom: 4 });
    let user = UserTrackInfo {
        initial_state: state(120_000, 4, 4),
        ticks_per_beat: 1,
        changes: vec![change],
    };
    let track = TrackInfo::new(&user);
    assert_eq!(track.music_states[1].timestamp, 2_000_000_000);
    let beat = track.current_beat(2_000_000_000);
    assert_eq!(beat.numer, 0);
    // Just before the change the old meter still governs.
    let before = track.current_beat(1_999_999_999);
    assert!(before.numer > 0);
}

#[test]
fn bpm_strings_trim_trailing_zeros() {
    assert_eq!(state(120_000, 4, 4).bpm_string(), "120");
    assert_eq!(state(120_500, 4, 4).bpm_string(), "120.5");
    assert_eq!(state(120_250, 4, 4).bpm_string(), "120.25");
    assert_eq!(state(120_255, 4, 4).bpm_string(), "120.255");
    assert_eq!(state(120_050, 4, 4).bpm_string(), "120.05");
    assert_eq!(state(99_001, 4, 4).bpm_string(), "99.001");
    assert_eq!(state(1, 4, 4).bpm_string(), "0.001");
}

#[test]
fn whole_beats_floor_the_fraction() {
    let user = UserTrackInfo {
        initial_state: state(120_000, 4, 4),
        ticks_per_beat: 1,
        changes: vec![],
    };
    let track = TrackInfo::new(&user);
    // At 1.75 s and 120 BPM the position is 3.5 beats: the fourth beat.
    assert_eq!(track.current_beat(1_750_000_000).whole_beats(), 3);
    assert_eq!(track.current_beat(0).whole_beats(), 0);
    assert_eq!(track.current_beat(999_999_999).whole_beats(), 1);
    assert_eq!(track.current_beat(1_000_000_000).whole_beats(), 2);
}

#[test]
fn timestamps_saturate_instead_of_overflowing() {
    // At one thousandth of a BPM, a single tick lasts longer than the
    // representable range, so the timestamp clamps to the maximum.
    let user = UserTrackInfo {
        initial_state: state(1, 4, 4),
        ticks_per_beat: 1,
        changes: vec![plain_change(u32::MAX)],
    };
    let track = TrackInfo::new(&user);
    assert_eq!(track.music_states[1].timestamp, u64::MAX);
    // Monotonicity still holds.
    assert!(track.music_states[0].timestamp <= track.music_states[1].timestamp);
}

#[test]
fn ill_formed_descriptions_are_detected() {
    let zero_tempo = UserTrackInfo {
        initial_state: state(0, 4, 4),
        ticks_per_beat: 1,
        changes: vec![],
    };
    assert!(!zero_tempo.is_well_formed());
    let zero_ticks = UserTrackInfo {
        initial_state: state(120_000, 4, 4),
        ticks_per_beat: 0,
        changes: vec![],
    };
    assert!(!zero_ticks.is_well_formed());
    let mut bad_change = plain_change(1);
    bad_change.bpm_millis = Some(0);
    let zero_tempo_change = UserTrackInfo {
        initial_state: state(120_000, 4, 4),
        ticks_per_beat: 1,
        changes: vec![bad_change],
    };
    assert!(!zero_tempo_change.is_well_formed());
    let fine = UserTrackInfo {
        initial_state: state(120_000, 4, 4),
        ticks_per_beat: 1,
        changes: vec![plain_change(1)],
    };
    assert!(fine.is_well_formed());
}
