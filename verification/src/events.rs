//! Plain data types for decoded MIDI events and for pipeline errors.

use vstd::prelude::*;

verus! {

/// The timing declaration of a MIDI file header. Only metrical timing
/// (ticks per quarter note) is supported by the engine.
#[derive(Clone, Copy, PartialEq, Eq, Structural, Debug)]
pub enum Timing {
    Metrical { ticks_per_quarter_note: u16 },
    NonMetrical,
}

/// One decoded MIDI event, reduced to the parts the engine reads.
/// Everything that is neither a note event nor a tempo change is `Other`;
/// such events are observed during the merge but never emitted.
#[derive(Clone, Copy, PartialEq, Eq, Structural, Debug)]
pub enum MidiEventKind {
    NoteOn { pitch: u8 },
    NoteOff { pitch: u8 },
    Tempo { microseconds_per_quarter_note: u32 },
    Other,
}

/// One event of a single track, carrying its delta time in ticks
/// relative to the previous event of the same track.
#[derive(Clone, Copy, PartialEq, Eq, Structural, Debug)]
pub struct TrackEvent {
    pub delta_tick: u32,
    pub kind: MidiEventKind,
}

/// One event of the merged stream: absolute tick, origin track, kind.
#[derive(Clone, Copy, PartialEq, Eq, Structural, Debug)]
pub struct MergedEvent {
    pub tick: u64,
    pub track_index: usize,
    pub kind: MidiEventKind,
}

/// A fatal condition of the conversion pipeline. The pipeline aborts
/// with one of these before emitting any script record.
#[derive(Clone, Copy, PartialEq, Eq, Structural, Debug)]
pub enum ConversionError {
    /// The file does not use metrical timing, or declares a resolution
    /// outside 1..=0x7FFF ticks per quarter note.
    UnsupportedTimingFormat,
    /// Some absolute tick of a track exceeds the supported maximum.
    TickOverflow,
    /// A tempo event declares microseconds per quarter note outside
    /// 1..=0xFFFFFF.
    InvalidTempo,
}

impl ConversionError {
    /// A short description of the condition.
    pub fn describe(&self) -> (r: &'static str)
    {
        match self {
            ConversionError::UnsupportedTimingFormat => "unsupported timing format",
            ConversionError::TickOverflow => "absolute tick exceeds the supported maximum",
            ConversionError::InvalidTempo => "tempo event outside the supported range",
        }
    }
}

} // verus!
