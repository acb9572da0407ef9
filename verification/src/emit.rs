//! The script emitter: walks the merged stream, converts note times to
//! microseconds under the tempo map built from the tempo events seen so
//! far, maps pitches to playable keys, and groups simultaneous notes
//! into records.

use vstd::prelude::*;
use crate::events::{MergedEvent, MidiEventKind};
use crate::keytable::{white_char, white_key_char};
use crate::pitch::{adjust_pitch, key_adjust_spec};
use crate::tempo::{DEFAULT_TEMPO, MAX_TEMPO, MAX_TICK, TempoTimeline, lemma_time_of_monotonic,
    lemma_time_of_push_stable, time_of};

verus! {

/// Configuration of the pitch decision.
#[derive(Clone, Copy, PartialEq, Eq, Structural, Debug)]
pub struct EmitterConfig {
    pub transpose_semitones: i8,
    pub below_range_mode: u8,
    pub above_range_mode: u8,
    pub black_key_mode: u8,
}

/// One script record: wait `delta_microseconds` after the previous
/// record, then press all keys of `keys` together. An empty key set is
/// a timing-only record.
#[derive(Clone, PartialEq, Eq, Debug)]
pub struct ScriptRecord {
    pub delta_microseconds: u64,
    pub keys: Vec<char>,
}

/// The mathematical view of one record.
pub open spec fn record_view(r: ScriptRecord) -> (int, Seq<char>) {
    (r.delta_microseconds as int, r.keys@)
}

/// The mathematical view of a record sequence.
pub open spec fn records_view(rs: Seq<ScriptRecord>) -> Seq<(int, Seq<char>)> {
    rs.map_values(|r: ScriptRecord| record_view(r))
}

/// The key contribution of one mapped note: its symbol if the mapped
/// pitch is playable, nothing otherwise.
pub open spec fn note_keys(c: Option<char>) -> Seq<char> {
    match c {
        Some(ch) => seq![ch],
        None => Seq::empty(),
    }
}

/// The records produced by the rest of the stream, given the tempo
/// segments built so far, the time of the last emitted note, and the
/// records built so far. A tempo event extends the map; a note-on at
/// the time of the previous note joins the last record, at a later
/// time it opens a new record with the elapsed delta; everything else
/// is skipped. A note whose mapped pitch is not playable contributes
/// no key but still advances the time bookkeeping.
pub open spec fn spec_emit(
    events: Seq<MergedEvent>,
    tqpn: int,
    cfg: EmitterConfig,
    segs: Seq<(int, int)>,
    prev: int,
    recs: Seq<(int, Seq<char>)>,
) -> Seq<(int, Seq<char>)>
    decreases events.len(),
{
    if events.len() == 0 {
        recs
    } else {
        let e = events[0];
        let rest = events.drop_first();
        match e.kind {
            MidiEventKind::Tempo { microseconds_per_quarter_note: u } => spec_emit(
                rest,
                tqpn,
                cfg,
                segs.push((e.tick as int, u as int)),
                prev,
                recs,
            ),
            MidiEventKind::NoteOn { pitch } => {
                let ms = time_of(segs, tqpn, e.tick as int);
                let mapped = key_adjust_spec(
                    pitch as int,
                    cfg.transpose_semitones as int,
                    cfg.below_range_mode as int,
                    cfg.above_range_mode as int,
                    cfg.black_key_mode as int,
                );
                let c = white_char(mapped);
                let recs2 = if ms == prev && recs.len() > 0 {
                    recs.update(
                        recs.len() - 1,
                        (recs.last().0, recs.last().1 + note_keys(c)),
                    )
                } else {
                    recs.push((ms - prev, note_keys(c)))
                };
                spec_emit(rest, tqpn, cfg, segs, ms, recs2)
            },
            _ => spec_emit(rest, tqpn, cfg, segs, prev, recs),
        }
    }
}

/// Walks the merged stream and builds the script records.
pub fn emit_script(tqpn: u32, merged: &Vec<MergedEvent>, cfg: EmitterConfig) -> (r: Vec<
    ScriptRecord,
>)
    requires
        1 <= tqpn <= 0x7FFF,
        forall|i: int, j: int|
            0 <= i < j < merged@.len() ==> (#[trigger] merged@[i]).tick <= (
            #[trigger] merged@[j]).tick,
        forall|i: int| 0 <= i < merged@.len() ==> (#[trigger] merged@[i]).tick <= MAX_TICK,
        forall|i: int|
            0 <= i < merged@.len() ==> ((#[trigger] merged@[i]).kind matches MidiEventKind::Tempo {
                microseconds_per_quarter_note: u,
            } ==> 1 <= u <= MAX_TEMPO),
    ensures
        records_view(r@) == spec_emit(
            merged@,
            tqpn as int,
            cfg,
            seq![(0int, DEFAULT_TEMPO as int)],
            0,
            Seq::empty(),
        ),
{
    let ghost goal = spec_emit(
        merged@,
        tqpn as int,
        cfg,
        seq![(0int, DEFAULT_TEMPO as int)],
        0,
        Seq::<(int, Seq<char>)>::empty(),
    );
    let mut timeline = TempoTimeline::new(tqpn);
    let mut prev: u64 = 0;
    let ghost mut prev_tick: int = 0;
    let mut records: Vec<ScriptRecord> = Vec::new();
    proof {
        reveal_with_fuel(time_of, 2);
        vstd::arithmetic::div_mod::lemma_div_basics(tqpn as int);
        assert(timeline.model().drop_last() =~= Seq::<(int, int)>::empty());
        assert(timeline.model().last() == (0int, DEFAULT_TEMPO as int));
        assert(time_of(Seq::<(int, int)>::empty(), tqpn as int, 0) == 0);
        assert(0int / (tqpn as int) == 0);
        assert(time_of(timeline.model(), tqpn as int, 0) == 0);
        assert(records_view(records@) =~= Seq::<(int, Seq<char>)>::empty());
        assert(merged@.skip(0) =~= merged@);
    }
    let n = merged.len();
    let mut i: usize = 0;
    while i < n
        invariant
            n == merged@.len(),
            0 <= i <= n,
            1 <= tqpn <= 0x7FFF,
            forall|a: int, b: int|
                0 <= a < b < merged@.len() ==> (#[trigger] merged@[a]).tick <= (
                #[trigger] merged@[b]).tick,
            forall|a: int| 0 <= a < merged@.len() ==> (#[trigger] merged@[a]).tick <= MAX_TICK,
            forall|a: int|
                0 <= a < merged@.len() ==> ((#[trigger] merged@[a]).kind
                    matches MidiEventKind::Tempo { microseconds_per_quarter_note: u } ==> 1 <= u
                    <= MAX_TEMPO),
            timeline.wf(),
            timeline.ticks_per_quarter_note == tqpn,
            forall|j: int|
                i <= j < merged@.len() ==> timeline.segments@.last().start_tick <= (
                #[trigger] merged@[j]).tick,
            0 <= prev_tick <= MAX_TICK,
            forall|j: int| i <= j < merged@.len() ==> prev_tick <= (#[trigger] merged@[j]).tick,
            prev as int == time_of(timeline.model(), tqpn as int, prev_tick),
            spec_emit(
                merged@.skip(i as int),
                tqpn as int,
                cfg,
                timeline.model(),
                prev as int,
                records_view(records@),
            ) == goal,
        decreases n - i,
    {
        let e = merged[i];
        proof {
            assert(merged@.skip(i as int)[0] == merged@[i as int]);
            assert(merged@.skip(i as int).drop_first() =~= merged@.skip(i as int + 1));
        }
        match e.kind {
            MidiEventKind::Tempo { microseconds_per_quarter_note: u } => {
                proof {
                    lemma_time_of_push_stable(
                        timeline.model(),
                        tqpn as int,
                        prev_tick,
                        e.tick as int,
                        u as int,
                    );
                }
                timeline.add_tempo_event(e.tick, u);
            },
            MidiEventKind::NoteOn { pitch } => {
                proof {
                    lemma_time_of_monotonic(
                        timeline.model(),
                        tqpn as int,
                        prev_tick,
                        e.tick as int,
                    );
                }
                let ms = timeline.ticks_to_absolute_microseconds(e.tick);
                let delta = ms - prev;
                let mapped = adjust_pitch(
                    pitch,
                    cfg.transpose_semitones,
                    cfg.below_range_mode,
                    cfg.above_range_mode,
                    cfg.black_key_mode,
                );
                let symbol = white_key_char(mapped);
                let ghost old_view = records_view(records@);
                if delta == 0 && records.len() > 0 {
                    let mut rec = records.pop().unwrap();
                    let ghost old_rec = rec;
                    match symbol {
                        Some(ch) => {
                            rec.keys.push(ch);
                        },
                        None => {},
                    }
                    records.push(rec);
                    proof {
                        assert(rec.keys@ =~= old_rec.keys@ + note_keys(symbol));
                        assert(records_view(records@) =~= old_view.update(
                            old_view.len() - 1,
                            (old_view.last().0, old_view.last().1 + note_keys(symbol)),
                        ));
                    }
                } else {
                    let mut keys: Vec<char> = Vec::new();
                    match symbol {
                        Some(ch) => {
                            keys.push(ch);
                        },
                        None => {},
                    }
                    proof {
                        assert(keys@ =~= note_keys(symbol));
                    }
                    records.push(ScriptRecord { delta_microseconds: delta, keys });
                    proof {
                        assert(records_view(records@) =~= old_view.push(
                            (delta as int, note_keys(symbol)),
                        ));
                    }
                }
                prev = ms;
                proof {
                    prev_tick = e.tick as int;
                }
            },
            _ => {},
        }
        i = i + 1;
    }
    proof {
        assert(merged@.skip(n as int) =~= Seq::<MergedEvent>::empty());
    }
    records
}

} // verus!
