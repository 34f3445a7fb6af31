//! The sparse, user-authored description of a track: an initial music
//! state, a tick granularity, and an ordered list of partial changes, each
//! anchored a number of ticks after the previous one.

use vstd::prelude::*;

use crate::music_state::MusicState;
use crate::music_state::MusicStateView;
use crate::music_theory::chord::Chord;
use crate::music_theory::chord::ChordView;
use crate::music_theory::time_signature::TimeSignature;

verus! {

/// How a sparse change treats one of the optional chord-valued fields of a
/// state.  A field can be left untouched, cleared, or replaced; keeping the
/// three cases apart distinguishes "no entry for this field" from "an entry
/// that clears it".
#[derive(Debug, Clone)]
pub enum ChordUpdate {
    /// Inherit the previous value.
    Inherit,
    /// Reset the field to empty.
    Clear,
    /// Replace the field with a new value.
    Replace(Chord),
}

/// The mathematical value of a [`ChordUpdate`].
pub enum ChordUpdateView {
    Inherit,
    Clear,
    Replace(ChordView),
}

impl View for ChordUpdate {
    type V = ChordUpdateView;

    open spec fn view(&self) -> ChordUpdateView {
        match self {
            ChordUpdate::Inherit => ChordUpdateView::Inherit,
            ChordUpdate::Clear => ChordUpdateView::Clear,
            ChordUpdate::Replace(chord) => ChordUpdateView::Replace(chord@),
        }
    }
}

impl ChordUpdateView {
    /// The value of the field after this update: the previous value when
    /// inherited, nothing when cleared, the new value when replaced.
    pub open spec fn spec_applied(self, prev: Option<ChordView>) -> Option<ChordView> {
        match self {
            ChordUpdateView::Inherit => prev,
            ChordUpdateView::Clear => None,
            ChordUpdateView::Replace(chord) => Some(chord),
        }
    }
}

impl ChordUpdate {
    /// Applies this update to the previous value of a field.
    pub fn applied(&self, prev: &Option<Chord>) -> (r: Option<Chord>)
        ensures
            crate::music_state::spec_opt_chord_view(r) == self@.spec_applied(
                crate::music_state::spec_opt_chord_view(*prev),
            ),
    {
        match self {
            ChordUpdate::Inherit => crate::music_state::duplicate_opt_chord(prev),
            ChordUpdate::Clear => None,
            ChordUpdate::Replace(chord) => Some(chord.duplicate()),
        }
    }
}

/// One sparse change: a tick offset from the previous change and a partial
/// update of the four state fields.
#[derive(Debug, Clone)]
pub struct Change {
    /// How many ticks after the previous change (or after the start of the
    /// track, for the first change) this change takes effect.
    pub after: u32,
    /// A new tempo, in thousandths of a beat per minute, if the tempo
    /// changes here.
    pub bpm_millis: Option<u32>,
    /// A new time signature, if it changes here.
    pub time_signature: Option<TimeSignature>,
    /// What happens to the key here.
    pub key: ChordUpdate,
    /// What happens to the chord here.
    pub chord: ChordUpdate,
}

/// The mathematical value of a [`Change`].
pub struct ChangeView {
    pub after: u32,
    pub bpm_millis: Option<u32>,
    pub time_signature: Option<TimeSignature>,
    pub key: ChordUpdateView,
    pub chord: ChordUpdateView,
}

impl View for Change {
    type V = ChangeView;

    open spec fn view(&self) -> ChangeView {
        ChangeView {
            after: self.after,
            bpm_millis: self.bpm_millis,
            time_signature: self.time_signature,
            key: self.key@,
            chord: self.chord@,
        }
    }
}

impl ChangeView {
    /// A change is well formed when the tempo it sets, if any, is positive,
    /// and the time signature it sets, if any, is well formed.
    pub open spec fn wf(self) -> bool {
        &&& (self.bpm_millis is Some ==> self.bpm_millis.unwrap() >= 1)
        &&& (self.time_signature is Some ==> self.time_signature.unwrap().wf())
    }
}

impl Change {
    /// Whether this change is well formed; see [`ChangeView::wf`].
    pub fn is_well_formed(&self) -> (r: bool)
        ensures
            r == self@.wf(),
    {
        let bpm_ok = match self.bpm_millis {
            Some(bpm_millis) => bpm_millis >= 1,
            None => true,
        };
        let time_signature_ok = match self.time_signature {
            Some(time_signature) => time_signature.top >= 1,
            None => true,
        };
        bpm_ok && time_signature_ok
    }
}

/// The sparse track description: the initial state, the tick granularity,
/// and the ordered list of changes.  It is built once, when a project is
/// loaded, and never modified afterwards.
#[derive(Debug, Clone)]
pub struct UserTrackInfo {
    pub initial_state: MusicState,
    /// How many ticks make up one beat; the real duration of a tick follows
    /// from this and the tempo in effect.
    pub ticks_per_beat: u32,
    pub changes: Vec<Change>,
}

/// The mathematical value of a [`UserTrackInfo`].
pub struct UserTrackInfoView {
    pub initial_state: MusicStateView,
    pub ticks_per_beat: u32,
    pub changes: Seq<ChangeView>,
}

impl View for UserTrackInfo {
    type V = UserTrackInfoView;

    open spec fn view(&self) -> UserTrackInfoView {
        UserTrackInfoView {
            initial_state: self.initial_state@,
            ticks_per_beat: self.ticks_per_beat,
            changes: self.changes@.map_values(|change: Change| change@),
        }
    }
}

impl UserTrackInfoView {
    /// A track description is well formed when its initial state is, its
    /// tick granularity is positive, and every change is.
    pub open spec fn wf(self) -> bool {
        &&& self.initial_state.wf()
        &&& self.ticks_per_beat >= 1
        &&& forall|i: int| 0 <= i < self.changes.len() ==> (#[trigger] self.changes[i]).wf()
    }
}

impl UserTrackInfo {
    /// Whether this track description is well formed; see
    /// [`UserTrackInfoView::wf`].  Callers check this once, right after a
    /// project is loaded, before compiling the timeline.
    pub fn is_well_formed(&self) -> (r: bool)
        ensures
            r == self@.wf(),
    {
        if !self.initial_state.is_well_formed() {
            return false;
        }
        if self.ticks_per_beat < 1 {
            return false;
        }
        let mut i: usize = 0;
        while i < self.changes.len()
            invariant
                0 <= i <= self.changes.len(),
                forall|j: int| 0 <= j < i ==> (#[trigger] self@.changes[j]).wf(),
            decreases self.changes.len() - i,
        {
            if !self.changes[i].is_well_formed() {
                proof {
                    assert(self@.changes[i as int] == self.changes@[i as int]@);
                }
                return false;
            }
            proof {
                assert(self@.changes[i as int] == self.changes@[i as int]@);
            }
            i += 1;
        }
        true
    }
}

} // verus!
