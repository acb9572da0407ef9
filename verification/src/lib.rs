//! Conversion engine for playing MIDI files on a fixed 21-key diatonic
//! virtual instrument.
//!
//! The engine merges the tracks of a decoded MIDI file into one
//! tick-ordered stream, converts ticks to absolute microseconds under a
//! piecewise-constant tempo map, remaps every pitch into the playable
//! alphabet (octave folding and black-key substitution), and groups
//! simultaneous notes into script records of (delta microseconds, key set).

pub mod blackkey;
pub mod emit;
pub mod events;
pub mod keytable;
pub mod merge;
pub mod pitch;
pub mod player;
pub mod tempo;

pub use blackkey::black_key_adjusted;
pub use events::ConversionError;
pub use events::MidiEventKind;
pub use events::Timing;
pub use events::TrackEvent;
pub use keytable::BlackKeyGenshin;
pub use keytable::black_key_c3_to_c5;
pub use keytable::key_value_genshin;
pub use keytable::key_value_genshin_ascii;
pub use pitch::div_plus;
pub use player::Midiplayer;
