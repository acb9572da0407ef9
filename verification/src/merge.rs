//! The stable k-way track merge: turns per-track delta-timed event
//! lists into one stream ordered by absolute tick, with the origin
//! track index as tie-break and the intra-track order preserved.

use vstd::prelude::*;
use crate::events::{MergedEvent, TrackEvent};
use crate::tempo::MAX_TICK;

verus! {

/// Absolute tick of event `i` of a track: the sum of the track's delta
/// ticks up to and including `i`.
pub open spec fn abs_tick(tr: Seq<TrackEvent>, i: int) -> int
    decreases i,
{
    if i < 0 {
        0
    } else if i == 0 {
        tr[0].delta_tick as int
    } else {
        abs_tick(tr, i - 1) + tr[i].delta_tick as int
    }
}

/// A track's events with absolute ticks: the (tick, kind) pair of each.
pub open spec fn abs_pairs(tr: Seq<TrackEvent>) -> Seq<(int, crate::events::MidiEventKind)> {
    Seq::new(tr.len(), |i: int| (abs_tick(tr, i), tr[i].kind))
}

/// Whether every absolute tick of a track is within the supported
/// range.
pub open spec fn ticks_in_range(tr: Seq<TrackEvent>) -> bool {
    forall|i: int| 0 <= i < tr.len() ==> #[trigger] abs_tick(tr, i) <= MAX_TICK as int
}

/// The merge order on (tick, track) pairs: by tick, then track index.
pub open spec fn pair_le(tick1: int, track1: int, tick2: int, track2: int) -> bool {
    tick1 < tick2 || (tick1 == tick2 && track1 <= track2)
}

/// The merge order on merged events.
pub open spec fn key_le(a: MergedEvent, b: MergedEvent) -> bool {
    pair_le(a.tick as int, a.track_index as int, b.tick as int, b.track_index as int)
}

/// The (tick, kind) pairs of the merged events of track `t`, in stream
/// order.
pub open spec fn project(m: Seq<MergedEvent>, t: int) -> Seq<(int, crate::events::MidiEventKind)>
    decreases m.len(),
{
    if m.len() == 0 {
        Seq::empty()
    } else {
        let rest = project(m.drop_last(), t);
        if m.last().track_index as int == t {
            rest.push((m.last().tick as int, m.last().kind))
        } else {
            rest
        }
    }
}

/// The defining properties of the stable merge: ordered by (tick,
/// track index), every tag a real track, and per track exactly that
/// track's events, absolutized, in their original order. These
/// properties determine the merged stream uniquely.
pub open spec fn is_stable_merge(tracks: Seq<Seq<TrackEvent>>, m: Seq<MergedEvent>) -> bool {
    &&& forall|i: int, j: int|
        0 <= i < j < m.len() ==> key_le(#[trigger] m[i], #[trigger] m[j])
    &&& forall|i: int| 0 <= i < m.len() ==> (#[trigger] m[i]).track_index < tracks.len()
    &&& forall|t: int| 0 <= t < tracks.len() ==> #[trigger] project(m, t) == abs_pairs(tracks[t])
}

/// The mathematical view of a vector of tracks.
pub open spec fn tracks_view(tracks: Seq<Vec<TrackEvent>>) -> Seq<Seq<TrackEvent>> {
    tracks.map_values(|v: Vec<TrackEvent>| v@)
}

/// Law: absolute ticks are nonnegative.
pub proof fn lemma_abs_tick_nonneg(tr: Seq<TrackEvent>, i: int)
    ensures
        0 <= abs_tick(tr, i),
    decreases i,
{
    if i > 0 {
        lemma_abs_tick_nonneg(tr, i - 1);
    }
}

/// Law: appending an event extends exactly the projection of its own
/// track and no other.
proof fn lemma_project_push(m: Seq<MergedEvent>, e: MergedEvent, t: int)
    ensures
        e.track_index as int == t ==> project(m.push(e), t) == project(m, t).push(
            (e.tick as int, e.kind),
        ),
        e.track_index as int != t ==> project(m.push(e), t) == project(m, t),
{
    assert(m.push(e).drop_last() =~= m);
    assert(m.push(e).last() == e);
}

/// Law: every merged event appears in the projection of its track.
pub proof fn lemma_project_contains(m: Seq<MergedEvent>, i: int)
    requires
        0 <= i < m.len(),
    ensures
        project(m, m[i].track_index as int).contains((m[i].tick as int, m[i].kind)),
    decreases m.len(),
{
    let t = m[i].track_index as int;
    let pair = (m[i].tick as int, m[i].kind);
    if i == m.len() - 1 {
        assert(project(m, t) == project(m.drop_last(), t).push(pair));
        assert(project(m, t).last() == pair);
    } else {
        assert(m.drop_last()[i] == m[i]);
        lemma_project_contains(m.drop_last(), i);
        let p = project(m.drop_last(), t);
        let k = choose|k: int| 0 <= k < p.len() && p[k] == pair;
        assert(project(m, t)[k] == pair);
    }
}

/// Number of events not yet consumed over the first `n` tracks.
pub open spec fn remaining(tracks: Seq<Seq<TrackEvent>>, pos: Seq<usize>, n: int) -> int
    decreases n,
{
    if n <= 0 {
        0
    } else {
        remaining(tracks, pos, n - 1) + (tracks[n - 1].len() - pos[n - 1])
    }
}

proof fn lemma_remaining_agree(tracks: Seq<Seq<TrackEvent>>, a: Seq<usize>, b: Seq<usize>, n: int)
    requires
        forall|j: int| 0 <= j < n ==> a[j] == b[j],
    ensures
        remaining(tracks, a, n) == remaining(tracks, b, n),
    decreases n,
{
    if n > 0 {
        lemma_remaining_agree(tracks, a, b, n - 1);
    }
}

proof fn lemma_remaining_step(
    tracks: Seq<Seq<TrackEvent>>,
    a: Seq<usize>,
    b: Seq<usize>,
    n: int,
    t: int,
)
    requires
        0 <= t < n,
        b[t] as int == a[t] as int + 1,
        forall|j: int| 0 <= j < n && j != t ==> a[j] == b[j],
    ensures
        remaining(tracks, b, n) == remaining(tracks, a, n) - 1,
    decreases n,
{
    if t == n - 1 {
        lemma_remaining_agree(tracks, a, b, n - 1);
    } else {
        lemma_remaining_step(tracks, a, b, n - 1, t);
    }
}

proof fn lemma_remaining_nonneg(tracks: Seq<Seq<TrackEvent>>, pos: Seq<usize>, n: int)
    requires
        forall|j: int| 0 <= j < n ==> #[trigger] pos[j] <= tracks[j].len(),
    ensures
        remaining(tracks, pos, n) >= 0,
    decreases n,
{
    if n > 0 {
        lemma_remaining_nonneg(tracks, pos, n - 1);
    }
}

/// Whether some track still has an event to consume.
fn any_active(tracks: &Vec<Vec<TrackEvent>>, pos: &Vec<usize>) -> (r: bool)
    requires
        pos@.len() == tracks@.len(),
    ensures
        r == exists|t: int|
            0 <= t < tracks@.len() && (#[trigger] pos@[t]) < tracks@[t]@.len(),
{
    let n = tracks.len();
    let mut t: usize = 0;
    while t < n
        invariant
            n == tracks@.len(),
            pos@.len() == n,
            0 <= t <= n,
            forall|s: int| 0 <= s < t ==> !((#[trigger] pos@[s]) < tracks@[s]@.len()),
        decreases n - t,
    {
        if pos[t] < tracks[t].len() {
            return true;
        }
        t = t + 1;
    }
    false
}

/// Merges the tracks into one stream ordered by (absolute tick, track
/// index), keeping each track's own order; the unique stable merge.
pub fn merge_tracks(tracks: &Vec<Vec<TrackEvent>>) -> (r: Vec<MergedEvent>)
    requires
        forall|t: int| 0 <= t < tracks@.len() ==> ticks_in_range(#[trigger] tracks@[t]@),
    ensures
        is_stable_merge(tracks_view(tracks@), r@),
{
    let n = tracks.len();
    let ghost tv = tracks_view(tracks@);
    let mut pos: Vec<usize> = Vec::new();
    let mut cur: Vec<u64> = Vec::new();
    let mut t0: usize = 0;
    while t0 < n
        invariant
            n == tracks@.len(),
            0 <= t0 <= n,
            pos@.len() == t0,
            cur@.len() == t0,
            forall|s: int| 0 <= s < t0 ==> (#[trigger] pos@[s]) == 0,
            forall|s: int|
                0 <= s < t0 && 0 < tracks@[s]@.len() ==> (#[trigger] cur@[s]) as int == abs_tick(
                    tracks@[s]@,
                    0,
                ),
        decreases n - t0,
    {
        pos.push(0);
        if tracks[t0].len() > 0 {
            cur.push(tracks[t0][0].delta_tick as u64);
        } else {
            cur.push(0);
        }
        t0 = t0 + 1;
    }
    let mut out: Vec<MergedEvent> = Vec::new();
    while any_active(tracks, &pos)
        invariant
            n == tracks@.len(),
            tv == tracks_view(tracks@),
            forall|t: int| 0 <= t < n ==> ticks_in_range(#[trigger] tracks@[t]@),
            pos@.len() == n,
            cur@.len() == n,
            forall|t: int| 0 <= t < n ==> (#[trigger] pos@[t]) <= tracks@[t]@.len(),
            forall|t: int|
                0 <= t < n && (#[trigger] pos@[t]) < tracks@[t]@.len() ==> cur@[t] as int
                    == abs_tick(tracks@[t]@, pos@[t] as int),
            forall|i: int, j: int|
                0 <= i < j < out@.len() ==> key_le(#[trigger] out@[i], #[trigger] out@[j]),
            forall|i: int| 0 <= i < out@.len() ==> (#[trigger] out@[i]).track_index < n,
            forall|t: int|
                0 <= t < n ==> #[trigger] project(out@, t) == abs_pairs(tracks@[t]@).take(
                    pos@[t] as int,
                ),
            forall|t: int, i: int|
                0 <= t < n && (#[trigger] pos@[t]) < tracks@[t]@.len() && 0 <= i < out@.len()
                    ==> pair_le(
                    (#[trigger] out@[i]).tick as int,
                    out@[i].track_index as int,
                    cur@[t] as int,
                    t,
                ),
        decreases remaining(tv, pos@, n as int),
    {
        let ghost pos0 = pos@;
        // pick the active track whose next event is least in (tick, track) order
        let mut best: usize = 0;
        let mut have: bool = false;
        let mut t: usize = 0;
        while t < n
            invariant
                n == tracks@.len(),
                pos@.len() == n,
                cur@.len() == n,
                0 <= t <= n,
                have ==> best < t && (pos@[best as int]) < tracks@[best as int]@.len(),
                have ==> forall|s: int|
                    0 <= s < t && (#[trigger] pos@[s]) < tracks@[s]@.len() ==> pair_le(
                        cur@[best as int] as int,
                        best as int,
                        cur@[s] as int,
                        s,
                    ),
                !have ==> forall|s: int|
                    0 <= s < t ==> !((#[trigger] pos@[s]) < tracks@[s]@.len()),
            decreases n - t,
        {
            if pos[t] < tracks[t].len() {
                if !have || cur[t] < cur[best] {
                    best = t;
                    have = true;
                }
            }
            t = t + 1;
        }
        proof {
            if !have {
                let w = choose|w: int|
                    0 <= w < tracks@.len() && (#[trigger] pos@[w]) < tracks@[w]@.len();
                assert(!((pos@[w]) < tracks@[w]@.len()));
                assert(false);
            }
        }
        let p = pos[best];
        let e = MergedEvent {
            tick: cur[best],
            track_index: best,
            kind: tracks[best][p].kind,
        };
        proof {
            // the new event follows everything already emitted
            assert(forall|i: int|
                0 <= i < out@.len() ==> pair_le(
                    (#[trigger] out@[i]).tick as int,
                    out@[i].track_index as int,
                    e.tick as int,
                    e.track_index as int,
                ));
            assert forall|tt: int| 0 <= tt < n implies #[trigger] project(out@.push(e), tt)
                == if tt == best as int {
                project(out@, tt).push((e.tick as int, e.kind))
            } else {
                project(out@, tt)
            } by {
                lemma_project_push(out@, e, tt);
            }
            // extending the projection of `best` by one event
            let trb = tracks@[best as int]@;
            assert(abs_pairs(trb)[p as int] == (abs_tick(trb, p as int), trb[p as int].kind));
            assert(abs_pairs(trb).take(p as int + 1) =~= abs_pairs(trb).take(p as int).push(
                abs_pairs(trb)[p as int],
            ));
        }
        out.push(e);
        let len_b: usize = tracks[best].len();
        assert(p < len_b);
        let pnext: usize = p + 1;
        pos[best] = pnext;
        if pnext < tracks[best].len() {
            proof {
                lemma_abs_tick_nonneg(tracks@[best as int]@, p as int);
            }
            let d = tracks[best][pnext].delta_tick;
            cur[best] = cur[best] + (d as u64);
        }
        proof {
            lemma_remaining_step(tv, pos0, pos@, n as int, best as int);
            lemma_remaining_nonneg(tv, pos@, n as int);
        }
    }
    proof {
        assert forall|t: int| 0 <= t < n implies #[trigger] project(out@, t) == abs_pairs(
            tracks@[t]@,
        ) by {
            assert(abs_pairs(tracks@[t]@).take(pos@[t] as int) =~= abs_pairs(tracks@[t]@));
        }
        assert(tracks_view(tracks@).len() == n);
        assert forall|t: int| 0 <= t < n implies #[trigger] tracks_view(tracks@)[t]
            == tracks@[t]@ by {}
    }
    out
}

} // verus!
