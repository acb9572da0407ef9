use genshin_windsong_player::black_key_adjusted;
use genshin_windsong_player::black_key_c3_to_c5;
use genshin_windsong_player::div_plus;
use genshin_windsong_player::key_value_genshin;
use genshin_windsong_player::key_value_genshin_ascii;
use genshin_windsong_player::ConversionError;
use genshin_windsong_player::Midiplayer;
use genshin_windsong_player::MidiEventKind;
use genshin_windsong_player::Timing;
use genshin_windsong_player::TrackEvent;
use genshin_windsong_player::tempo::TempoTimeline;

fn note_on(delta_tick: u32, pitch: u8) -> TrackEvent {
    TrackEvent { delta_tick, kind: MidiEventKind::NoteOn { pitch } }
}

fn note_off(delta_tick: u32, pitch: u8) -> TrackEvent {
    TrackEvent { delta_tick, kind: MidiEventKind::NoteOff { pitch } }
}

fn tempo(delta_tick: u32, microseconds_per_quarter_note: u32) -> TrackEvent {
    TrackEvent { delta_tick, kind: MidiEventKind::Tempo { microseconds_per_quarter_note } }
}

fn player(tqpn: u16) -> Midiplayer {
    Midiplayer::build(Timing::Metrical { ticks_per_quarter_note: tqpn }, Vec::new()).unwrap()
}

#[test]
fn key_table_contents() {
    let table = key_value_genshin();
    assert_eq!(table.len(), 21);
    assert_eq!(table[0], (48, 'z'));
    assert_eq!(table[6], (59, 'm'));
    assert_eq!(table[7], (60, 'a'));
    assert_eq!(table[20], (83, 'u'));
    for w in table.windows(2) {
        assert!(w[0].0 < w[1].0);
    }
}

#[test]
fn ascii_table_contents() {
    let table = key_value_genshin_ascii();
    assert_eq!(table.len(), 21);
    assert_eq!(table[0], ('z', 90));
    assert_eq!(table[7], ('a', 65));
    assert_eq!(table[20], ('u', 85));
}

#[test]
fn black_key_table_contents() {
    let t = black_key_c3_to_c5();
    assert_eq!(t.c3, [49, 51, 54, 56, 58]);
    assert_eq!(t.c4, [61, 63, 66, 68, 70]);
    assert_eq!(t.c5, [73, 75, 78, 80, 82]);
}

#[test]
fn black_key_modes() {
    assert_eq!(black_key_adjusted(61, 0), 0);
    assert_eq!(black_key_adjusted(61, 1), 60);
    assert_eq!(black_key_adjusted(61, 2), 62);
    assert_eq!(black_key_adjusted(61, 7), 61);
    assert_eq!(black_key_adjusted(48, 0), 48);
    assert_eq!(black_key_adjusted(84, 3), 84);
}

#[test]
fn black_key_contextual_mode() {
    // lowest octave mutes, middle and upper round up
    assert_eq!(black_key_adjusted(49, 3), 0);
    assert_eq!(black_key_adjusted(58, 3), 0);
    assert_eq!(black_key_adjusted(61, 3), 62);
    assert_eq!(black_key_adjusted(73, 3), 74);
    // a white pitch is left alone, and resolving twice changes nothing
    assert_eq!(black_key_adjusted(60, 3), 60);
    assert_eq!(black_key_adjusted(black_key_adjusted(66, 3), 3), black_key_adjusted(66, 3));
}

#[test]
fn octave_fold() {
    assert_eq!(div_plus(36, 48), 48);
    assert_eq!(div_plus(40, 48), 52);
    assert_eq!(div_plus(24, 48), 48);
    assert_eq!(div_plus(95, 83), 83);
    assert_eq!(div_plus(84, 83), 72);
    assert_eq!(div_plus(48, 48), 48);
}

#[test]
fn key_adjust_white_identity() {
    let p = player(480);
    for pitch in [48u8, 50, 60, 72, 83] {
        assert_eq!(p.key_adjust(pitch, 0, 0, 0, 3), pitch);
    }
}

#[test]
fn key_adjust_fold_below() {
    let p = player(480);
    assert_eq!(p.key_adjust(36, 0, 0, 0, 3), 48);
    assert_eq!(p.key_adjust(36, 0, 1, 0, 3), 48);
    assert_eq!(p.key_adjust(36, 0, 2, 0, 3), 0);
}

#[test]
fn key_adjust_fold_above() {
    let p = player(480);
    // 90 folds to 78, a black pitch of the upper octave, raised to 79
    assert_eq!(p.key_adjust(90, 0, 0, 0, 3), 79);
    assert_eq!(p.key_adjust(95, 0, 0, 0, 3), 83);
    assert_eq!(p.key_adjust(95, 0, 0, 1, 3), 83);
    assert_eq!(p.key_adjust(95, 0, 0, 2, 3), 0);
}

#[test]
fn key_adjust_black_resolution() {
    let p = player(480);
    assert_eq!(p.key_adjust(61, 0, 0, 0, 3), 62);
    assert_eq!(p.key_adjust(49, 0, 0, 0, 3), 0);
    assert_eq!(p.key_adjust(61, 0, 0, 0, 0), 0);
    assert_eq!(p.key_adjust(61, 0, 0, 0, 1), 60);
}

#[test]
fn key_adjust_transpose() {
    let p = player(480);
    assert_eq!(p.key_adjust(48, 1, 0, 0, 3), 60);
    assert_eq!(p.key_adjust(60, -1, 0, 0, 3), 48);
    assert_eq!(p.key_adjust(48, -1, 0, 0, 3), 48);
}

#[test]
fn default_tempo_at_one_quarter() {
    let tl = TempoTimeline::new(480);
    assert_eq!(tl.ticks_to_absolute_microseconds(480), 500000);
    assert_eq!(tl.ticks_to_absolute_microseconds(0), 0);
    assert_eq!(tl.ticks_to_absolute_microseconds(240), 250000);
}

#[test]
fn tempo_change_integration() {
    let mut tl = TempoTimeline::new(480);
    tl.add_tempo_event(480, 250000);
    assert_eq!(tl.ticks_to_absolute_microseconds(480), 500000);
    assert_eq!(tl.ticks_to_absolute_microseconds(960), 750000);
    let t1 = tl.ticks_to_absolute_microseconds(700);
    let t2 = tl.ticks_to_absolute_microseconds(701);
    assert!(t1 <= t2);
}

#[test]
fn build_rejects_unsupported_timing() {
    let r = Midiplayer::build(Timing::NonMetrical, Vec::new());
    assert_eq!(r.unwrap_err(), ConversionError::UnsupportedTimingFormat);
    let r = Midiplayer::build(Timing::Metrical { ticks_per_quarter_note: 0 }, Vec::new());
    assert_eq!(r.unwrap_err(), ConversionError::UnsupportedTimingFormat);
    let r = Midiplayer::build(Timing::Metrical { ticks_per_quarter_note: 40000 }, Vec::new());
    assert_eq!(r.unwrap_err(), ConversionError::UnsupportedTimingFormat);
}

#[test]
fn aborts_before_any_record_on_bad_timing() {
    // an unsupported timing format never reaches conversion
    let tracks = vec![vec![note_on(480, 48)]];
    let r = Midiplayer::build(Timing::NonMetrical, tracks);
    assert!(r.is_err());
}

#[test]
fn single_note_round_trip() {
    let p = player(480);
    let tracks = vec![vec![note_on(480, 48)]];
    let recs = p.tracks_to_txt_for_play(&tracks).unwrap();
    assert_eq!(recs.len(), 1);
    assert_eq!(recs[0].delta_microseconds, 500000);
    assert_eq!(recs[0].keys, vec!['z']);
}

#[test]
fn chord_across_tracks() {
    let p = player(480);
    let tracks = vec![vec![note_on(480, 48)], vec![note_on(480, 60)]];
    let recs = p.tracks_to_txt_for_play(&tracks).unwrap();
    assert_eq!(recs.len(), 1);
    assert_eq!(recs[0].delta_microseconds, 500000);
    // ordered by the track tie-break
    assert_eq!(recs[0].keys, vec!['z', 'a']);
}

#[test]
fn chord_within_track() {
    let p = player(480);
    let tracks = vec![vec![note_on(480, 48), note_on(0, 52)]];
    let recs = p.tracks_to_txt_for_play(&tracks).unwrap();
    assert_eq!(recs.len(), 1);
    assert_eq!(recs[0].keys, vec!['z', 'c']);
}

#[test]
fn separate_times_separate_records() {
    let p = player(480);
    let tracks = vec![vec![note_on(480, 48), note_on(480, 50)]];
    let recs = p.tracks_to_txt_for_play(&tracks).unwrap();
    assert_eq!(recs.len(), 2);
    assert_eq!(recs[0].delta_microseconds, 500000);
    assert_eq!(recs[0].keys, vec!['z']);
    assert_eq!(recs[1].delta_microseconds, 500000);
    assert_eq!(recs[1].keys, vec!['x']);
}

#[test]
fn muted_note_keeps_timing_record() {
    let p = player(480);
    // pitch 49 is black in the lowest octave: contextual mode mutes it
    let tracks = vec![vec![note_on(480, 49), note_on(480, 48)]];
    let recs = p.tracks_to_txt_for_play(&tracks).unwrap();
    assert_eq!(recs.len(), 2);
    assert_eq!(recs[0].delta_microseconds, 500000);
    assert!(recs[0].keys.is_empty());
    assert_eq!(recs[1].delta_microseconds, 500000);
    assert_eq!(recs[1].keys, vec!['z']);
}

#[test]
fn first_note_at_tick_zero() {
    let p = player(480);
    let tracks = vec![vec![note_on(0, 48)]];
    let recs = p.tracks_to_txt_for_play(&tracks).unwrap();
    assert_eq!(recs.len(), 1);
    assert_eq!(recs[0].delta_microseconds, 0);
    assert_eq!(recs[0].keys, vec!['z']);
}

#[test]
fn tempo_event_changes_note_time() {
    let p = player(480);
    let tracks = vec![vec![tempo(0, 250000), note_on(480, 48)]];
    let recs = p.tracks_to_txt_for_play(&tracks).unwrap();
    assert_eq!(recs.len(), 1);
    assert_eq!(recs[0].delta_microseconds, 250000);
}

#[test]
fn tempo_event_in_other_track() {
    let p = player(480);
    let tracks = vec![vec![tempo(0, 250000)], vec![note_on(480, 48)]];
    let recs = p.tracks_to_txt_for_play(&tracks).unwrap();
    assert_eq!(recs.len(), 1);
    assert_eq!(recs[0].delta_microseconds, 250000);
}

#[test]
fn note_off_is_observed_but_not_emitted() {
    let p = player(480);
    let tracks = vec![vec![note_off(480, 48), note_on(0, 50)]];
    let recs = p.tracks_to_txt_for_play(&tracks).unwrap();
    assert_eq!(recs.len(), 1);
    assert_eq!(recs[0].delta_microseconds, 500000);
    assert_eq!(recs[0].keys, vec!['x']);
}

#[test]
fn tick_overflow_rejected() {
    let p = player(480);
    let tracks = vec![vec![note_on(u32::MAX, 48), note_on(u32::MAX, 48)]];
    let r = p.tracks_to_txt_for_play(&tracks);
    assert_eq!(r.unwrap_err(), ConversionError::TickOverflow);
}

#[test]
fn zero_tempo_rejected() {
    let p = player(480);
    let tracks = vec![vec![tempo(0, 0), note_on(480, 48)]];
    let r = p.tracks_to_txt_for_play(&tracks);
    assert_eq!(r.unwrap_err(), ConversionError::InvalidTempo);
}

#[test]
fn tick_overflow_reported_before_bad_tempo() {
    let p = player(480);
    let tracks = vec![vec![note_on(u32::MAX, 48), note_on(u32::MAX, 48)], vec![tempo(0, 0)]];
    let r = p.tracks_to_txt_for_play(&tracks);
    assert_eq!(r.unwrap_err(), ConversionError::TickOverflow);
}

#[test]
fn tempo_at_same_tick_after_note_does_not_affect_it() {
    let p = player(480);
    // the note of track 0 precedes the tempo event of track 1 at the
    // same tick, so it is still timed under the default tempo
    let tracks = vec![vec![note_on(480, 48), note_on(480, 50)], vec![tempo(480, 250000)]];
    let recs = p.tracks_to_txt_for_play(&tracks).unwrap();
    assert_eq!(recs.len(), 2);
    assert_eq!(recs[0].delta_microseconds, 500000);
    assert_eq!(recs[1].delta_microseconds, 250000);
}

#[test]
fn two_tempo_changes_integrate_piecewise() {
    let p = player(480);
    let tracks = vec![vec![
        tempo(0, 250000),
        note_on(480, 48),
        tempo(0, 125000),
        note_on(480, 50),
    ]];
    let recs = p.tracks_to_txt_for_play(&tracks).unwrap();
    assert_eq!(recs.len(), 2);
    assert_eq!(recs[0].delta_microseconds, 250000);
    assert_eq!(recs[1].delta_microseconds, 125000);
}

#[test]
fn chord_with_muted_member() {
    let p = player(480);
    // 49 mutes under the contextual mode; the chord keeps only 'z'
    let tracks = vec![vec![note_on(480, 48), note_on(0, 49)]];
    let recs = p.tracks_to_txt_for_play(&tracks).unwrap();
    assert_eq!(recs.len(), 1);
    assert_eq!(recs[0].keys, vec!['z']);
}

#[test]
fn duplicate_chord_members_kept_in_record() {
    let p = player(480);
    let tracks = vec![vec![note_on(480, 48)], vec![note_on(480, 48)]];
    let recs = p.tracks_to_txt_for_play(&tracks).unwrap();
    assert_eq!(recs.len(), 1);
    assert_eq!(recs[0].keys, vec!['z', 'z']);
}

#[test]
fn empty_tracks_give_empty_script() {
    let p = player(480);
    let tracks: Vec<Vec<TrackEvent>> = vec![Vec::new(), Vec::new()];
    let recs = p.tracks_to_txt_for_play(&tracks).unwrap();
    assert!(recs.is_empty());
}

#[test]
fn delta_to_ms_truncates() {
    let p = player(480);
    assert_eq!(p.delta_to_ms(480), 500);
    assert_eq!(p.delta_to_ms(1), 1);
    assert_eq!(p.delta_to_ms(0), 0);
}

#[test]
fn error_descriptions() {
    assert_eq!(
        ConversionError::UnsupportedTimingFormat.describe(),
        "unsupported timing format"
    );
    assert_eq!(
        ConversionError::TickOverflow.describe(),
        "absolute tick exceeds the supported maximum"
    );
    assert_eq!(
        ConversionError::InvalidTempo.describe(),
        "tempo event outside the supported range"
    );
}
