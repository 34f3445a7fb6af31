//! A timeline model for music-theory overlays.
//!
//! A track is authored as a sparse list of musical changes (tempo, time
//! signature, key, chord), each anchored a number of ticks after the previous
//! one.  This crate compiles that sparse description into a dense,
//! time-ordered sequence of music states and answers queries against it:
//! which state is in effect at a given instant, and how far into the current
//! measure that instant falls.  Alongside the timeline live the small music
//! theory value types (note names, accidentals, notes, chords, time
//! signatures) with their parsers and formatters, and the text-layout and
//! geometry helpers for the overlay widgets.
//!
//! All times are integers: durations are nanoseconds, tempos are thousandths
//! of a beat per minute, and beat positions are exact fractions.  Callers that
//! present these values convert them to whatever numeric type their display
//! layer wants.

pub mod format;
pub mod music_state;
pub mod music_theory;
pub mod numerals;
pub mod shader_param;
pub mod text;
pub mod track_info;
pub mod user_track_info;
pub mod widgets;
