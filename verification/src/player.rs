//! The conversion pipeline: a player holds the file's resolution and
//! the playable alphabet, validates the decoded tracks, and turns them
//! into script records.

use vstd::prelude::*;
use crate::emit::{EmitterConfig, ScriptRecord, emit_script, note_keys, records_view, spec_emit};
use crate::events::{ConversionError, MergedEvent, MidiEventKind, Timing, TrackEvent};
use crate::keytable::{genshin_pairs, white_char};
use crate::merge::{abs_pairs, abs_tick, is_stable_merge, key_le, lemma_project_contains,
    merge_tracks, project, ticks_in_range, tracks_view};
use crate::pitch::{adjust_pitch, key_adjust_spec, lemma_white_key_identity};
use crate::tempo::{DEFAULT_TEMPO, MAX_TEMPO, MAX_TICK, time_of};

verus! {

/// Whether every tempo event of a track carries a value in 1..=MAX_TEMPO.
pub open spec fn tempo_events_valid(tr: Seq<TrackEvent>) -> bool {
    forall|i: int|
        0 <= i < tr.len() ==> ((#[trigger] tr[i]).kind matches MidiEventKind::Tempo {
            microseconds_per_quarter_note: u,
        } ==> 1 <= u <= MAX_TEMPO)
}

/// Whether all tracks stay within the supported tick range.
pub open spec fn tracks_ticks_ok(tracks: Seq<Vec<TrackEvent>>) -> bool {
    forall|t: int| 0 <= t < tracks.len() ==> ticks_in_range(#[trigger] tracks[t]@)
}

/// Whether all tracks carry only valid tempo events.
pub open spec fn tracks_tempo_ok(tracks: Seq<Vec<TrackEvent>>) -> bool {
    forall|t: int| 0 <= t < tracks.len() ==> tempo_events_valid(#[trigger] tracks[t]@)
}

/// The configuration the player uses when writing a script for play:
/// no transposition, octave folding at both range ends, contextual
/// black-key resolution.
pub open spec fn play_config() -> EmitterConfig {
    EmitterConfig {
        transpose_semitones: 0,
        below_range_mode: 0,
        above_range_mode: 0,
        black_key_mode: 3,
    }
}

/// The records of a converted file: those of the unique stable merge of
/// its tracks, under the tempo map they carry.
pub open spec fn converted_records(
    tracks: Seq<Vec<TrackEvent>>,
    tqpn: int,
    cfg: EmitterConfig,
    out: Seq<(int, Seq<char>)>,
) -> bool {
    exists|m: Seq<MergedEvent>|
        #[trigger] is_stable_merge(tracks_view(tracks), m) && out == spec_emit(
            m,
            tqpn,
            cfg,
            seq![(0int, DEFAULT_TEMPO as int)],
            0,
            Seq::empty(),
        )
}

fn check_ticks(tracks: &Vec<Vec<TrackEvent>>) -> (r: bool)
    ensures
        r == tracks_ticks_ok(tracks@),
{
    let n = tracks.len();
    let mut t: usize = 0;
    while t < n
        invariant
            n == tracks@.len(),
            0 <= t <= n,
            forall|s: int| 0 <= s < t ==> ticks_in_range(#[trigger] tracks@[s]@),
        decreases n - t,
    {
        let len = tracks[t].len();
        let mut acc: u64 = 0;
        let mut i: usize = 0;
        while i < len
            invariant
                n == tracks@.len(),
                0 <= t < n,
                len == tracks@[t as int]@.len(),
                0 <= i <= len,
                i > 0 ==> acc == abs_tick(tracks@[t as int]@, i - 1),
                i == 0 ==> acc == 0,
                acc <= MAX_TICK,
                forall|j: int|
                    0 <= j < i ==> #[trigger] abs_tick(tracks@[t as int]@, j) <= MAX_TICK as int,
            decreases len - i,
        {
            let d = tracks[t][i].delta_tick;
            let next: u64 = acc + (d as u64);
            if next > MAX_TICK {
                proof {
                    assert(abs_tick(tracks@[t as int]@, i as int) == next);
                }
                return false;
            }
            acc = next;
            i = i + 1;
        }
        t = t + 1;
    }
    true
}

fn check_tempos(tracks: &Vec<Vec<TrackEvent>>) -> (r: bool)
    ensures
        r == tracks_tempo_ok(tracks@),
{
    let n = tracks.len();
    let mut t: usize = 0;
    while t < n
        invariant
            n == tracks@.len(),
            0 <= t <= n,
            forall|s: int| 0 <= s < t ==> tempo_events_valid(#[trigger] tracks@[s]@),
        decreases n - t,
    {
        let len = tracks[t].len();
        let mut i: usize = 0;
        while i < len
            invariant
                n == tracks@.len(),
                0 <= t < n,
                len == tracks@[t as int]@.len(),
                0 <= i <= len,
                forall|j: int|
                    0 <= j < i ==> ((#[trigger] tracks@[t as int]@[j]).kind
                        matches MidiEventKind::Tempo { microseconds_per_quarter_note: u } ==> 1
                        <= u <= MAX_TEMPO),
            decreases len - i,
        {
            match tracks[t][i].kind {
                MidiEventKind::Tempo { microseconds_per_quarter_note: u } => {
                    if u == 0 || u > MAX_TEMPO {
                        return false;
                    }
                },
                _ => {},
            }
            i = i + 1;
        }
        t = t + 1;
    }
    true
}

/// A loaded file: resolution, current tempo, decoded tracks, and the
/// playable alphabet.
#[derive(Debug)]
pub struct Midiplayer {
    pub tempo: u32,
    pub tqpn: u32,
    pub tracks: Vec<Vec<TrackEvent>>,
    pub keybind: Vec<(u8, char)>,
}

impl Midiplayer {
    /// Well-formedness: a positive 15-bit resolution and the fixed
    /// alphabet.
    pub open spec fn wf(self) -> bool {
        &&& 1 <= self.tqpn <= 0x7FFF
        &&& self.keybind@ == genshin_pairs()
    }

    /// Builds a player from the decoded header timing and tracks. Only
    /// metrical timing with a resolution in 1..=0x7FFF is supported;
    /// everything else is rejected before any conversion starts.
    pub fn build(timing: Timing, tracks: Vec<Vec<TrackEvent>>) -> (r: Result<
        Midiplayer,
        ConversionError,
    >)
        ensures
            (r is Ok) <==> (timing matches Timing::Metrical { ticks_per_quarter_note: t } && 1 <= t
                <= 0x7FFF),
            r matches Ok(p) ==> {
                &&& p.wf()
                &&& p.tempo == DEFAULT_TEMPO
                &&& p.tracks@ == tracks@
                &&& timing matches Timing::Metrical { ticks_per_quarter_note: t } && p.tqpn == t
            },
            r matches Err(e) ==> e == ConversionError::UnsupportedTimingFormat,
    {
        match timing {
            Timing::Metrical { ticks_per_quarter_note } => {
                if ticks_per_quarter_note == 0 || ticks_per_quarter_note > 0x7FFF {
                    Err(ConversionError::UnsupportedTimingFormat)
                } else {
                    Ok(
                        Midiplayer {
                            tempo: DEFAULT_TEMPO,
                            tqpn: ticks_per_quarter_note as u32,
                            tracks,
                            keybind: crate::keytable::key_value_genshin(),
                        },
                    )
                }
            },
            Timing::NonMetrical => Err(ConversionError::UnsupportedTimingFormat),
        }
    }

    /// Delta ticks to milliseconds under the player's current tempo,
    /// with the integer truncation the script format lives with.
    pub fn delta_to_ms(&self, delta: u32) -> (r: u32)
        requires
            1 <= self.tqpn <= 0x7FFF,
            delta as int * self.tempo as int <= u32::MAX as int,
        ensures
            r as int == (delta as int * self.tempo as int) / (self.tqpn as int * 1000),
    {
        delta * self.tempo / (self.tqpn * 1000)
    }

    /// Maps one pitch per the configured range and black-key modes,
    /// over the player's fixed alphabet.
    pub fn key_adjust(
        &self,
        key: u8,
        tone_adjust: i8,
        blow_limit: u8,
        above_limit: u8,
        black_key: u8,
    ) -> (r: u8)
        ensures
            r as int == key_adjust_spec(
                key as int,
                tone_adjust as int,
                blow_limit as int,
                above_limit as int,
                black_key as int,
            ),
    {
        adjust_pitch(key, tone_adjust, blow_limit, above_limit, black_key)
    }

    /// Converts the given tracks to script records under `cfg`. Fails
    /// with `TickOverflow` exactly when some absolute tick leaves the
    /// supported range, and with `InvalidTempo` exactly when the ticks
    /// are fine but some tempo event is out of range; otherwise the
    /// records are those of the stable merge of the tracks.
    pub fn emit_script_records(&self, tracks: &Vec<Vec<TrackEvent>>, cfg: EmitterConfig) -> (r:
        Result<Vec<ScriptRecord>, ConversionError>)
        requires
            self.wf(),
        ensures
            (r is Ok) <==> (tracks_ticks_ok(tracks@) && tracks_tempo_ok(tracks@)),
            r matches Ok(recs) ==> converted_records(
                tracks@,
                self.tqpn as int,
                cfg,
                records_view(recs@),
            ),
            r matches Err(e) ==> {
                &&& (e == ConversionError::TickOverflow) <==> !tracks_ticks_ok(tracks@)
                &&& (e == ConversionError::InvalidTempo) <==> (tracks_ticks_ok(tracks@)
                    && !tracks_tempo_ok(tracks@))
            },
    {
        if !check_ticks(tracks) {
            return Err(ConversionError::TickOverflow);
        }
        if !check_tempos(tracks) {
            return Err(ConversionError::InvalidTempo);
        }
        let merged = merge_tracks(tracks);
        proof {
            let m = merged@;
            let tv = tracks_view(tracks@);
            assert forall|i: int, j: int| 0 <= i < j < m.len() implies (#[trigger] m[i]).tick <= (
            #[trigger] m[j]).tick by {
                assert(key_le(m[i], m[j]));
            }
            assert forall|i: int| 0 <= i < m.len() implies (#[trigger] m[i]).tick <= MAX_TICK && (
            m[i].kind matches MidiEventKind::Tempo { microseconds_per_quarter_note: u } ==> 1 <= u
                <= MAX_TEMPO) by {
                lemma_project_contains(m, i);
                let tg = m[i].track_index as int;
                let tr = tracks@[tg]@;
                assert(tv[tg] == tr);
                assert(project(m, tg) == abs_pairs(tr));
                let pair = (m[i].tick as int, m[i].kind);
                let j = choose|j: int|
                    0 <= j < abs_pairs(tr).len() && abs_pairs(tr)[j] == pair;
                assert(abs_pairs(tr)[j] == (abs_tick(tr, j), tr[j].kind));
                assert(abs_tick(tr, j) <= MAX_TICK as int);
            }
        }
        let recs = emit_script(self.tqpn, &merged, cfg);
        proof {
            assert(is_stable_merge(tracks_view(tracks@), merged@));
        }
        Ok(recs)
    }

    /// Converts the given tracks to the playback script's records with
    /// the play configuration: no transposition, folding at both range
    /// ends, contextual black keys.
    pub fn tracks_to_txt_for_play(&self, tracks: &Vec<Vec<TrackEvent>>) -> (r: Result<
        Vec<ScriptRecord>,
        ConversionError,
    >)
        requires
            self.wf(),
        ensures
            (r is Ok) <==> (tracks_ticks_ok(tracks@) && tracks_tempo_ok(tracks@)),
            r matches Ok(recs) ==> converted_records(
                tracks@,
                self.tqpn as int,
                play_config(),
                records_view(recs@),
            ),
            r matches Err(e) ==> {
                &&& (e == ConversionError::TickOverflow) <==> !tracks_ticks_ok(tracks@)
                &&& (e == ConversionError::InvalidTempo) <==> (tracks_ticks_ok(tracks@)
                    && !tracks_tempo_ok(tracks@))
            },
    {
        let cfg = EmitterConfig {
            transpose_semitones: 0,
            below_range_mode: 0,
            above_range_mode: 0,
            black_key_mode: 3,
        };
        proof {
            assert(cfg == play_config());
        }
        self.emit_script_records(tracks, cfg)
    }
}


/// Law: a playable single-note input round-trips: whatever its pitch
/// (white) and tick, the script holds exactly one record whose delta
/// is the note's absolute microsecond time under the default tempo and
/// whose single key is the table lookup of the pitch.
pub proof fn lemma_single_note_round_trip(pitch: u8, tick: u64, tqpn: u16)
    requires
        1 <= tqpn <= 0x7FFF,
        crate::keytable::is_white(pitch as int),
    ensures
        ({
            let e = (MergedEvent { tick, track_index: 0, kind: MidiEventKind::NoteOn { pitch } });
            let out = spec_emit(
                seq![e],
                tqpn as int,
                play_config(),
                seq![(0int, DEFAULT_TEMPO as int)],
                0,
                Seq::empty(),
            );
            &&& out.len() == 1
            &&& out[0].0 == time_of(
                seq![(0int, DEFAULT_TEMPO as int)],
                tqpn as int,
                tick as int,
            )
            &&& white_char(pitch as int) is Some
            &&& out[0].1 == note_keys(white_char(pitch as int))
        }),
{
    reveal_with_fuel(spec_emit, 2);
    lemma_white_key_identity(pitch, 0, 0, 3);
    let e = (MergedEvent { tick, track_index: 0, kind: MidiEventKind::NoteOn { pitch } });
    assert(seq![e].drop_first() =~= Seq::<MergedEvent>::empty());
    assert(seq![e][0] == e);
}

/// Law: two note-on events at the same absolute tick in two tracks
/// merge into one record whose two keys stand in track order.
pub proof fn lemma_chord_grouping(pitch1: u8, pitch2: u8, tick: u64, tqpn: u16)
    requires
        1 <= tqpn <= 0x7FFF,
        crate::keytable::is_white(pitch1 as int),
        crate::keytable::is_white(pitch2 as int),
    ensures
        ({
            let e1 = (MergedEvent {
                tick,
                track_index: 0,
                kind: MidiEventKind::NoteOn { pitch: pitch1 },
            });
            let e2 = (MergedEvent {
                tick,
                track_index: 1,
                kind: MidiEventKind::NoteOn { pitch: pitch2 },
            });
            let out = spec_emit(
                seq![e1, e2],
                tqpn as int,
                play_config(),
                seq![(0int, DEFAULT_TEMPO as int)],
                0,
                Seq::empty(),
            );
            &&& out.len() == 1
            &&& out[0].1 == note_keys(white_char(pitch1 as int)) + note_keys(
                white_char(pitch2 as int),
            )
        }),
{
    reveal_with_fuel(spec_emit, 3);
    lemma_white_key_identity(pitch1, 0, 0, 3);
    lemma_white_key_identity(pitch2, 0, 0, 3);
    let e1 = (MergedEvent { tick, track_index: 0, kind: MidiEventKind::NoteOn { pitch: pitch1 } });
    let e2 = (MergedEvent { tick, track_index: 1, kind: MidiEventKind::NoteOn { pitch: pitch2 } });
    assert(seq![e1, e2].drop_first() =~= seq![e2]);
    assert(seq![e2].drop_first() =~= Seq::<MergedEvent>::empty());
    assert(seq![e1, e2][0] == e1);
    assert(seq![e2][0] == e2);
}

} // verus!
