//! The event data model: note-begin and note-end events with their fields,
//! a catch-all variant for every other event kind, and the per-event chord
//! expansion with its laws.

use vstd::prelude::*;

verus! {

/// Interval of the first synthesized chord tone above the root: a major third.
pub const MAJOR_THIRD: u8 = 4;

/// Interval of the second synthesized chord tone above the root: a perfect fifth.
pub const PERFECT_FIFTH: u8 = 7;

/// Highest valid pitch number. A synthesized chord tone that would pass it
/// saturates here; the root pitch is always copied verbatim.
pub const MAX_PITCH: u8 = 127;

/// The payload common to note-begin and note-end events.
#[derive(Clone, Copy, Debug, PartialEq, Eq, Structural)]
pub struct NoteData {
    /// Offset within the current processing cycle, in samples.
    pub timing: u32,
    /// Opaque identifier correlating a begin/end pair of one sounding note;
    /// absent for hosts without per-voice addressing.
    pub voice_id: Option<i32>,
    /// Channel selector.
    pub channel: u8,
    /// Pitch number.
    pub note: u8,
    /// Intensity, carried as an opaque bit pattern and copied verbatim.
    pub velocity: u32,
}

/// One event of the stream. Kinds other than note-begin and note-end are
/// opaque to this transform and forwarded unchanged.
#[derive(Clone, Copy, Debug, PartialEq, Eq, Structural)]
pub enum Event {
    NoteBegin(NoteData),
    NoteEnd(NoteData),
    Other {
        /// Offset within the current processing cycle, in samples.
        timing: u32,
        /// Opaque stand-in for the host's payload, forwarded verbatim.
        payload: u64,
    },
}

/// The pitch `interval` steps above `root`, saturating at `MAX_PITCH`.
pub open spec fn raised_pitch(root: u8, interval: u8) -> u8 {
    if root + interval > MAX_PITCH {
        MAX_PITCH
    } else {
        (root + interval) as u8
    }
}

/// Computes `raised_pitch` without overflow.
pub fn raise_pitch(root: u8, interval: u8) -> (r: u8)
    ensures
        r == raised_pitch(root, interval),
{
    let sum: u16 = root as u16 + interval as u16;
    if sum > MAX_PITCH as u16 {
        MAX_PITCH
    } else {
        sum as u8
    }
}

impl NoteData {
    /// The data of the sibling chord tone `interval` steps above this one:
    /// every field verbatim but the pitch.
    pub open spec fn spec_sibling(self, interval: u8) -> NoteData {
        NoteData { note: raised_pitch(self.note, interval), ..self }
    }

    /// Builds `spec_sibling`.
    pub fn sibling(&self, interval: u8) -> (r: NoteData)
        ensures
            r == self.spec_sibling(interval),
    {
        NoteData { note: raise_pitch(self.note, interval), ..*self }
    }
}

impl Event {
    /// Whether the transform acts on this event at all.
    pub open spec fn is_note(self) -> bool {
        self is NoteBegin || self is NoteEnd
    }

    /// The cycle offset the event carries, whatever its kind.
    pub open spec fn timing(self) -> u32 {
        match self {
            Event::NoteBegin(d) => d.timing,
            Event::NoteEnd(d) => d.timing,
            Event::Other { timing, .. } => timing,
        }
    }

    /// The note payload of a note event.
    pub open spec fn note_data(self) -> NoteData
        recommends
            self.is_note(),
    {
        match self {
            Event::NoteBegin(d) => d,
            Event::NoteEnd(d) => d,
            Event::Other { .. } => NoteData {
                timing: 0,
                voice_id: None,
                channel: 0,
                note: 0,
                velocity: 0,
            },
        }
    }

    /// Two events of the same kind that agree on timing, voice identity,
    /// channel and velocity; note events may differ in pitch.
    pub open spec fn same_family(self, other: Event) -> bool {
        &&& (self is NoteBegin <==> other is NoteBegin)
        &&& (self is NoteEnd <==> other is NoteEnd)
        &&& self.is_note() ==> {
            &&& self.note_data().timing == other.note_data().timing
            &&& self.note_data().voice_id == other.note_data().voice_id
            &&& self.note_data().channel == other.note_data().channel
            &&& self.note_data().velocity == other.note_data().velocity
        }
    }
}

/// What one consumed event produces: a note event yields itself and its two
/// transposed siblings, root first, major third second, perfect fifth third;
/// any other event yields exactly itself.
pub open spec fn expand(e: Event) -> Seq<Event> {
    match e {
        Event::NoteBegin(d) => seq![
            Event::NoteBegin(d),
            Event::NoteBegin(d.spec_sibling(MAJOR_THIRD)),
            Event::NoteBegin(d.spec_sibling(PERFECT_FIFTH)),
        ],
        Event::NoteEnd(d) => seq![
            Event::NoteEnd(d),
            Event::NoteEnd(d.spec_sibling(MAJOR_THIRD)),
            Event::NoteEnd(d.spec_sibling(PERFECT_FIFTH)),
        ],
        Event::Other { .. } => seq![e],
    }
}

/// Fan-out cardinality: a note event expands to exactly three events, all of
/// the input's own kind — three note-begins for a note-begin, three note-ends
/// for a note-end.
pub proof fn lemma_fan_out(e: Event)
    requires
        e.is_note(),
    ensures
        expand(e).len() == 3,
        forall|i: int|
            0 <= i < 3 ==> ((#[trigger] expand(e)[i]) is NoteBegin <==> e is NoteBegin),
        forall|i: int|
            0 <= i < 3 ==> ((#[trigger] expand(e)[i]) is NoteEnd <==> e is NoteEnd),
{
}

/// Pitch law: the expansion's pitches are the root, the root raised a major
/// third, and the root raised a perfect fifth, in that emission order. The
/// raised pitches are exact (no saturation) whenever the fifth stays within
/// the pitch range.
pub proof fn lemma_pitch_law(e: Event)
    requires
        e.is_note(),
        e.note_data().note + PERFECT_FIFTH <= MAX_PITCH,
    ensures
        expand(e).len() == 3,
        expand(e)[0].note_data().note == e.note_data().note,
        expand(e)[1].note_data().note == e.note_data().note + MAJOR_THIRD,
        expand(e)[2].note_data().note == e.note_data().note + PERFECT_FIFTH,
{
}

/// Field preservation: every event of a note expansion carries the input's
/// timing, voice identity, channel and velocity verbatim.
pub proof fn lemma_field_preservation(e: Event)
    requires
        e.is_note(),
    ensures
        forall|i: int|
            0 <= i < expand(e).len() ==> e.same_family(#[trigger] expand(e)[i]),
{
}

/// Every event of an expansion happens at the instant of the event that
/// produced it.
pub proof fn lemma_expand_timing(e: Event)
    ensures
        forall|i: int|
            0 <= i < expand(e).len() ==> (#[trigger] expand(e)[i]).timing() == e.timing(),
{
}

/// Passthrough law: an event of any other kind expands to exactly itself —
/// one output, unchanged.
pub proof fn lemma_passthrough(e: Event)
    requires
        !e.is_note(),
    ensures
        expand(e) == seq![e],
{
}

} // verus!
