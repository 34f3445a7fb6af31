//! The compiled timeline: the dense, time-ordered sequence of music states
//! produced from a sparse track description, and the queries the overlay
//! runs against it every frame.
//!
//! Compilation walks the change list once and converts tick offsets into
//! nanosecond timestamps.  The duration of a tick depends on the tempo in
//! effect, and the tempo itself can change, so the conversion integrates
//! tick duration piecewise: the ticks leading into a change are measured at
//! the tempo in effect before it, and a tempo the change sets governs only
//! the ticks after it.

use vstd::prelude::*;

use crate::music_state::MusicState;
use crate::music_state::MusicStateView;
use crate::user_track_info::UserTrackInfo;
use crate::user_track_info::UserTrackInfoView;

verus! {

/// Nanoseconds in a minute, scaled by the thousandths of the tempo unit:
/// one beat at tempo `bpm_millis` lasts `BEAT_SCALE / bpm_millis`
/// nanoseconds, and beat fractions are exact multiples of `1 / BEAT_SCALE`
/// of a beat.
pub const BEAT_SCALE: u64 = 60_000_000_000_000;

/// One entry of the compiled timeline: a music state and the moment, in
/// nanoseconds from the start of the track, at which it takes effect.
#[derive(Debug, Clone)]
pub struct TimestampedMusicState {
    /// Nanoseconds from the start of the track.
    pub timestamp: u64,
    pub music_state: MusicState,
}

/// The mathematical value of a [`TimestampedMusicState`].
pub struct TimestampedMusicStateView {
    pub timestamp: u64,
    pub music_state: MusicStateView,
}

impl View for TimestampedMusicState {
    type V = TimestampedMusicStateView;

    open spec fn view(&self) -> TimestampedMusicStateView {
        TimestampedMusicStateView { timestamp: self.timestamp, music_state: self.music_state@ }
    }
}

/// The duration of one tick, in nanoseconds, at the given tempo and tick
/// granularity, rounded down to a whole nanosecond.
pub open spec fn spec_tick_nanos(bpm_millis: u32, ticks_per_beat: u32) -> int {
    BEAT_SCALE as int / (bpm_millis as int * ticks_per_beat as int)
}

/// Clamps a mathematical integer into the range of `u64`.  Timeline
/// timestamps saturate at the largest representable instant (around 584
/// years in) instead of overflowing.
pub open spec fn spec_sat_u64(x: int) -> u64 {
    if x > u64::MAX {
        u64::MAX
    } else if x < 0 {
        0
    } else {
        x as u64
    }
}

/// The music state of the `i`-th compiled entry: the initial state for the
/// first entry, and each change applied to the state before it after that.
pub open spec fn spec_compiled_state(u: UserTrackInfoView, i: int) -> MusicStateView
    decreases i,
{
    if i <= 0 {
        u.initial_state
    } else {
        spec_compiled_state(u, i - 1).spec_changed(u.changes[i - 1])
    }
}

/// The timestamp of the `i`-th compiled entry: zero for the first entry,
/// and after that the previous entry's timestamp advanced by the change's
/// tick offset, each tick lasting as long as the tempo in effect *before*
/// the change dictates.
pub open spec fn spec_compiled_timestamp(u: UserTrackInfoView, i: int) -> u64
    decreases i,
{
    if i <= 0 {
        0
    } else {
        spec_sat_u64(
            spec_compiled_timestamp(u, i - 1) + u.changes[i - 1].after * spec_tick_nanos(
                spec_compiled_state(u, i - 1).bpm_millis,
                u.ticks_per_beat,
            ),
        )
    }
}

/// Every compiled state of a well-formed track description is well formed.
pub proof fn lemma_compiled_state_wf(u: UserTrackInfoView, i: int)
    requires
        u.wf(),
        i <= u.changes.len(),
    ensures
        spec_compiled_state(u, i).wf(),
    decreases i,
{
    if i > 0 {
        lemma_compiled_state_wf(u, i - 1);
        spec_compiled_state(u, i - 1).lemma_changed_wf(u.changes[i - 1]);
    }
}

/// Monotonicity: compiled timestamps never decrease.  Each entry's
/// timestamp advances by a non-negative number of nanoseconds from the
/// previous one, so for all `i <= j` within the timeline,
/// `spec_compiled_timestamp(u, i) <= spec_compiled_timestamp(u, j)`.
pub proof fn lemma_compiled_timestamps_monotonic(u: UserTrackInfoView, i: int, j: int)
    requires
        u.wf(),
        0 <= i <= j <= u.changes.len(),
    ensures
        spec_compiled_timestamp(u, i) <= spec_compiled_timestamp(u, j),
    decreases j - i,
{
    if i < j {
        lemma_compiled_timestamps_monotonic(u, i, j - 1);
        let prev = spec_compiled_timestamp(u, j - 1);
        let state = spec_compiled_state(u, j - 1);
        lemma_compiled_state_wf(u, j - 1);
        let tick = spec_tick_nanos(state.bpm_millis, u.ticks_per_beat);
        assert((state.bpm_millis as int) * (u.ticks_per_beat as int) >= 1) by (nonlinear_arith)
            requires
                state.bpm_millis >= 1,
                u.ticks_per_beat >= 1,
        ;
        vstd::arithmetic::div_mod::lemma_div_pos_is_pos(
            BEAT_SCALE as int,
            (state.bpm_millis as int) * (u.ticks_per_beat as int),
        );
        assert(tick >= 0);
        assert(u.changes[j - 1].after * tick >= 0) by (nonlinear_arith)
            requires
                u.changes[j - 1].after >= 0,
                tick >= 0,
        ;
        assert(spec_compiled_timestamp(u, j) >= prev);
    }
}

/// What the compiled timeline promises its queries: it is nonempty, it
/// starts at time zero, its timestamps never decrease, and every state in
/// it is well formed.
pub open spec fn spec_track_wf(track: Seq<TimestampedMusicStateView>) -> bool {
    &&& track.len() >= 1
    &&& track[0].timestamp == 0
    &&& forall|i: int, j: int|
        0 <= i <= j < track.len() ==> #[trigger] track[i].timestamp <= #[trigger] track[j].timestamp
    &&& forall|i: int| 0 <= i < track.len() ==> (#[trigger] track[i]).music_state.wf()
}

/// The index of the timeline entry in effect at time `t`: the last entry
/// whose timestamp is at or before `t`, or the first entry when even that
/// lies in the future.
pub open spec fn spec_query_index(track: Seq<TimestampedMusicStateView>, t: u64) -> int
    decreases track.len(),
{
    if track.len() <= 1 {
        0
    } else if track[track.len() - 1].timestamp <= t {
        track.len() - 1
    } else {
        spec_query_index(track.drop_last(), t)
    }
}

/// What `spec_query_index` returns: an index within bounds whose entry's
/// timestamp is at or before `t` (as long as the first entry's is), while
/// every later entry's timestamp lies strictly after `t`.
pub proof fn lemma_query_index_props(track: Seq<TimestampedMusicStateView>, t: u64)
    requires
        track.len() >= 1,
    ensures
        0 <= spec_query_index(track, t) < track.len(),
        track[0].timestamp <= t ==> track[spec_query_index(track, t)].timestamp <= t,
        forall|j: int|
            spec_query_index(track, t) < j < track.len() ==> #[trigger] track[j].timestamp > t,
    decreases track.len(),
{
    if track.len() > 1 && track[track.len() - 1].timestamp > t {
        lemma_query_index_props(track.drop_last(), t);
        assert(track.drop_last()[0] == track[0]);
        assert(forall|j: int|
            0 <= j < track.len() - 1 ==> track.drop_last()[j] == #[trigger] track[j]);
    }
}

/// The compiled timeline, ready to be queried by elapsed time.
#[derive(Debug, Clone)]
pub struct TrackInfo {
    pub music_states: Vec<TimestampedMusicState>,
}

impl View for TrackInfo {
    type V = Seq<TimestampedMusicStateView>;

    open spec fn view(&self) -> Seq<TimestampedMusicStateView> {
        self.music_states@.map_values(|entry: TimestampedMusicState| entry@)
    }
}

impl TrackInfo {
    /// Compiles a sparse track description into the dense timeline.
    ///
    /// The first entry is the initial state at time zero.  Each change then
    /// appends one entry: its timestamp advances from the previous entry by
    /// the change's tick offset, measured at the tempo in effect before the
    /// change; its state is the previous state with the change applied.
    /// Compilation never fails: a well-formed description always compiles,
    /// and an empty change list yields the single-entry timeline.
    pub fn new(user_track_info: &UserTrackInfo) -> (r: TrackInfo)
        requires
            user_track_info@.wf(),
        ensures
            r@.len() == user_track_info@.changes.len() + 1,
            forall|i: int|
                0 <= i < r@.len() ==> (#[trigger] r@[i]).music_state == spec_compiled_state(
                    user_track_info@,
                    i,
                ) && r@[i].timestamp == spec_compiled_timestamp(user_track_info@, i),
            r@[0].timestamp == 0,
            r@[0].music_state == user_track_info@.initial_state,
            spec_track_wf(r@),
    {
        let ghost u = user_track_info@;
        let mut music_states: Vec<TimestampedMusicState> = Vec::new();
        music_states.push(
            TimestampedMusicState {
                timestamp: 0,
                music_state: user_track_info.initial_state.duplicate(),
            },
        );
        let mut last_timestamp: u64 = 0;
        let mut i: usize = 0;
        let num_changes = user_track_info.changes.len();
        while i < num_changes
            invariant
                user_track_info@ == u,
                u.wf(),
                num_changes == u.changes.len(),
                0 <= i <= num_changes,
                music_states@.len() == i + 1,
                forall|j: int|
                    0 <= j <= i ==> (#[trigger] music_states@[j])@.music_state
                        == spec_compiled_state(u, j) && music_states@[j]@.timestamp
                        == spec_compiled_timestamp(u, j),
                last_timestamp == spec_compiled_timestamp(u, i as int),
            decreases num_changes - i,
        {
            let change = &user_track_info.changes[i];
            proof {
                assert(change@ == u.changes[i as int]);
            }
            let current = &music_states[i].music_state;
            proof {
                lemma_compiled_state_wf(u, i as int);
                assert(current@ == spec_compiled_state(u, i as int));
                assert(current.bpm_millis >= 1 && user_track_info.ticks_per_beat >= 1);
                assert((current.bpm_millis as int) * (user_track_info.ticks_per_beat as int) >= 1
                    && (current.bpm_millis as int) * (user_track_info.ticks_per_beat as int) <= (
                u32::MAX as int) * (u32::MAX as int)) by (nonlinear_arith)
                    requires
                        1 <= current.bpm_millis <= u32::MAX,
                        1 <= user_track_info.ticks_per_beat <= u32::MAX,
                ;
            }
            let tick_nanos = BEAT_SCALE / (current.bpm_millis as u64
                * user_track_info.ticks_per_beat as u64);
            proof {
                assert(tick_nanos == spec_tick_nanos(current.bpm_millis,
                    u.ticks_per_beat));
                assert(tick_nanos <= BEAT_SCALE) by {
                    vstd::arithmetic::div_mod::lemma_div_basics(BEAT_SCALE as int);
                    vstd::arithmetic::div_mod::lemma_div_is_ordered_by_denominator(
                        BEAT_SCALE as int,
                        1,
                        (current.bpm_millis as int) * (user_track_info.ticks_per_beat as int),
                    );
                }
                assert((change.after as int) * (tick_nanos as int) <= (u32::MAX as int) * (
                BEAT_SCALE as int)) by (nonlinear_arith)
                    requires
                        0 <= change.after <= u32::MAX,
                        0 <= tick_nanos <= BEAT_SCALE,
                ;
            }
            let advance = change.after as u128 * tick_nanos as u128;
            let sum = last_timestamp as u128 + advance;
            let timestamp = if sum > u64::MAX as u128 {
                u64::MAX
            } else {
                sum as u64
            };
            proof {
                assert(timestamp == spec_compiled_timestamp(u, i + 1));
            }
            let new_state = music_states[i].music_state.changed(change);
            music_states.push(TimestampedMusicState { timestamp, music_state: new_state });
            last_timestamp = timestamp;
            i += 1;
        }
        let r = TrackInfo { music_states };
        proof {
            assert forall|a: int, b: int| 0 <= a <= b < r@.len() implies #[trigger] r@[a].timestamp
                <= #[trigger] r@[b].timestamp by {
                lemma_compiled_timestamps_monotonic(u, a, b);
            }
            assert forall|a: int| 0 <= a < r@.len() implies (#[trigger] r@[a]).music_state.wf() by {
                lemma_compiled_state_wf(u, a);
            }
        }
        r
    }

    /// The timeline entry in effect at `timestamp`: the last entry whose
    /// timestamp is at or before it.  The state of the last entry persists
    /// indefinitely past the end of the authored changes, and the query
    /// never fails because the timeline is never empty and starts at zero.
    pub fn music_state(&self, timestamp: u64) -> (r: &TimestampedMusicState)
        requires
            spec_track_wf(self@),
        ensures
            r@ == self@[spec_query_index(self@, timestamp)],
            r@.timestamp <= timestamp,
            forall|j: int|
                spec_query_index(self@, timestamp) < j < self@.len()
                    ==> (#[trigger] self@[j]).timestamp > timestamp,
    {
        proof {
            lemma_query_index_props(self@, timestamp);
            assert(self@.take(self@.len() as int) =~= self@);
        }
        let mut i = self.music_states.len() - 1;
        loop
            invariant
                spec_track_wf(self@),
                0 <= i < self@.len(),
                self@.len() == self.music_states.len(),
                spec_query_index(self@, timestamp) == spec_query_index(
                    self@.take(i + 1),
                    timestamp,
                ),
                forall|j: int| i < j < self@.len() ==> (#[trigger] self@[j]).timestamp > timestamp,
            decreases i,
        {
            let entry = &self.music_states[i];
            if entry.timestamp <= timestamp {
                proof {
                    let prefix = self@.take(i + 1);
                    assert(prefix[prefix.len() - 1] == self@[i as int]);
                    assert(spec_query_index(prefix, timestamp) == i);
                }
                return entry;
            }
            proof {
                assert(self@[i as int].timestamp > timestamp);
                assert(self@[0].timestamp == 0);
                assert(i > 0);
                let prefix = self@.take(i + 1);
                assert(prefix[prefix.len() - 1] == self@[i as int]);
                assert(prefix.drop_last() =~= self@.take(i as int));
            }
            i -= 1;
        }
    }

    /// The continuous beat position at `timestamp`: how many beats have
    /// elapsed since the entry in effect took hold, taken modulo the
    /// beats-per-measure count of its time signature.  The position is
    /// returned as an exact fraction in `[0, top)`; it re-bases at zero
    /// every time the music state changes.
    pub fn current_beat(&self, timestamp: u64) -> (r: BeatFraction)
        requires
            spec_track_wf(self@),
        ensures
            ({
                let entry = self@[spec_query_index(self@, timestamp)];
                &&& r.denom == BEAT_SCALE
                &&& r.numer == spec_beat_fraction_numer(entry, timestamp)
                &&& r.numer < entry.music_state.time_signature.top as int * BEAT_SCALE as int
            }),
    {
        proof {
            lemma_query_index_props(self@, timestamp);
        }
        let entry = self.music_state(timestamp);
        let elapsed = timestamp - entry.timestamp;
        let top = entry.music_state.time_signature.top;
        proof {
            assert(self@[spec_query_index(self@, timestamp)].music_state.wf());
            assert(top >= 1);
            assert((top as int) * (BEAT_SCALE as int) >= 1) by (nonlinear_arith)
                requires
                    top >= 1,
            ;
            assert((elapsed as int) * (entry.music_state.bpm_millis as int) <= (u64::MAX as int)
                * (u32::MAX as int)) by (nonlinear_arith)
                requires
                    elapsed <= u64::MAX,
                    entry.music_state.bpm_millis <= u32::MAX,
            ;
        }
        let numer = (elapsed as u128 * entry.music_state.bpm_millis as u128) % (top as u128
            * BEAT_SCALE as u128);
        BeatFraction { numer, denom: BEAT_SCALE }
    }
}

/// The beat-fraction numerator at time `t` for the entry in effect: the
/// nanoseconds elapsed since the entry took hold times the tempo, modulo a
/// full measure, in units of `1 / BEAT_SCALE` of a beat.
pub open spec fn spec_beat_fraction_numer(entry: TimestampedMusicStateView, t: u64) -> int {
    ((t - entry.timestamp) * entry.music_state.bpm_millis as int) % (
    entry.music_state.time_signature.top as int * BEAT_SCALE as int)
}

/// An exact beat position: `numer / denom` beats into the current measure.
#[derive(Debug, Clone, Copy, PartialEq, Eq, Structural)]
pub struct BeatFraction {
    pub numer: u128,
    pub denom: u64,
}

impl BeatFraction {
    /// The whole-beat index of this position: the fraction rounded down,
    /// clamped into `u64`.  For a position within a measure this is the
    /// index of the beat to highlight on the indicator.
    pub fn whole_beats(&self) -> (r: u64)
        requires
            self.denom >= 1,
        ensures
            r == spec_sat_u64(self.numer as int / self.denom as int),
    {
        let q = self.numer / self.denom as u128;
        if q > u64::MAX as u128 {
            u64::MAX
        } else {
            q as u64
        }
    }
}

/// The beat fraction re-bases at zero whenever the music state changes:
/// queried exactly at a compiled entry's timestamp, the beat position is
/// zero, regardless of how much time elapsed since the start of the track.
pub proof fn lemma_beat_fraction_resets(track: Seq<TimestampedMusicStateView>, i: int)
    requires
        spec_track_wf(track),
        0 <= i < track.len(),
    ensures
        spec_beat_fraction_numer(
            track[spec_query_index(track, track[i].timestamp)],
            track[i].timestamp,
        ) == 0,
{
    let t = track[i].timestamp;
    lemma_query_index_props(track, t);
    let q = spec_query_index(track, t);
    assert(q >= i);
    assert(track[q].timestamp == t);
    let entry = track[q];
    assert(entry.music_state.wf());
    let top = entry.music_state.time_signature.top;
    assert((top as int) * (BEAT_SCALE as int) >= 1) by (nonlinear_arith)
        requires
            top >= 1,
            BEAT_SCALE >= 1,
    ;
    assert((t - entry.timestamp) * entry.music_state.bpm_millis as int == 0);
    assert(0int % ((top as int) * (BEAT_SCALE as int)) == 0);
}

/// Queries past the end of the timeline are stable: for any time at or
/// after the last entry's timestamp, the query returns the last entry, the
/// same entry it returns for the last timestamp itself.
pub proof fn lemma_query_past_end(track: Seq<TimestampedMusicStateView>, t: u64)
    requires
        spec_track_wf(track),
        t >= track[track.len() - 1].timestamp,
    ensures
        spec_query_index(track, t) == track.len() - 1,
        spec_query_index(track, t) == spec_query_index(track, track[track.len() - 1].timestamp),
{
}

} // verus!
