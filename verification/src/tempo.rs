//! The tempo timeline: a piecewise-constant microseconds-per-tick map
//! built from tempo events in tick order, converting absolute ticks to
//! absolute microseconds.

use vstd::prelude::*;
use vstd::arithmetic::div_mod::{lemma_div_is_ordered, lemma_div_is_ordered_by_denominator,
    lemma_div_pos_is_pos};
use vstd::arithmetic::mul::{lemma_mul_inequality, lemma_mul_is_distributive_sub_other_way,
    lemma_mul_nonnegative};

verus! {

/// Microseconds per quarter note assumed before the first tempo event.
pub const DEFAULT_TEMPO: u32 = 500000;

/// Largest absolute tick the engine accepts.
pub const MAX_TICK: u64 = 0xFFFF_FFFF;

/// Largest microseconds-per-quarter-note value a tempo event may carry
/// (tempo is a 24-bit quantity in a MIDI file).
pub const MAX_TEMPO: u32 = 0xFF_FFFF;

/// Absolute time in microseconds at `tick`, under the tempo segments
/// `segs`: each element is (start tick, microseconds per quarter note),
/// start ticks non-decreasing, and each segment's contribution is
/// duration * tempo / resolution, rounded down per segment. Of two
/// segments with the same start tick the later one wins.
pub open spec fn time_of(segs: Seq<(int, int)>, tqpn: int, tick: int) -> int
    decreases segs.len(),
{
    if segs.len() == 0 {
        0
    } else {
        let s = segs.last().0;
        let u = segs.last().1;
        if tick >= s {
            time_of(segs.drop_last(), tqpn, s) + (tick - s) * u / tqpn
        } else {
            time_of(segs.drop_last(), tqpn, tick)
        }
    }
}

/// One recorded tempo segment, with the absolute time at its start
/// precomputed.
#[derive(Clone, Copy, PartialEq, Eq, Structural, Debug)]
pub struct TempoSegment {
    pub start_tick: u64,
    pub microseconds_per_quarter_note: u32,
    pub base_microseconds: u64,
}

/// The piecewise-constant tempo map of one file.
pub struct TempoTimeline {
    pub ticks_per_quarter_note: u32,
    pub segments: Vec<TempoSegment>,
}

impl TempoTimeline {
    /// The mathematical tempo map: (start tick, tempo) per segment.
    pub open spec fn model(self) -> Seq<(int, int)> {
        self.segments@.map(
            |i: int, sg: TempoSegment|
                (sg.start_tick as int, sg.microseconds_per_quarter_note as int),
        )
    }

    /// Well-formedness: a positive resolution, a first segment starting
    /// at tick 0 with time 0, non-decreasing bounded start ticks, tempo
    /// values in range, and each segment's precomputed start time equal
    /// to the map's value there, bounded by start * MAX_TEMPO.
    pub open spec fn wf(self) -> bool {
        &&& 1 <= self.ticks_per_quarter_note <= 0x7FFF
        &&& self.segments.len() >= 1
        &&& self.segments[0].start_tick == 0
        &&& forall|i: int, j: int|
            0 <= i < j < self.segments.len() ==> #[trigger] self.segments[i].start_tick
                <= #[trigger] self.segments[j].start_tick
        &&& forall|i: int|
            0 <= i < self.segments.len() ==> #[trigger] self.segments[i].start_tick <= MAX_TICK
        &&& forall|i: int|
            0 <= i < self.segments.len() ==> 1 <= #[trigger] self.segments[
                i
            ].microseconds_per_quarter_note <= MAX_TEMPO
        &&& forall|i: int|
            0 <= i < self.segments.len() ==> #[trigger] self.segments[i].base_microseconds as int
                == time_of(
                self.model().take(i + 1),
                self.ticks_per_quarter_note as int,
                self.segments[i].start_tick as int,
            )
        &&& forall|i: int|
            0 <= i < self.segments.len() ==> #[trigger] self.segments[i].base_microseconds as int
                <= self.segments[i].start_tick as int * MAX_TEMPO as int
    }

    /// A fresh timeline holding only the default tempo from tick 0.
    pub fn new(ticks_per_quarter_note: u32) -> (r: TempoTimeline)
        requires
            1 <= ticks_per_quarter_note <= 0x7FFF,
        ensures
            r.wf(),
            r.ticks_per_quarter_note == ticks_per_quarter_note,
            r.model() == seq![(0int, DEFAULT_TEMPO as int)],
    {
        let mut segments: Vec<TempoSegment> = Vec::new();
        segments.push(
            TempoSegment {
                start_tick: 0,
                microseconds_per_quarter_note: DEFAULT_TEMPO,
                base_microseconds: 0,
            },
        );
        let r = TempoTimeline { ticks_per_quarter_note, segments };
        proof {
            reveal_with_fuel(time_of, 2);
            assert(r.model() =~= seq![(0int, DEFAULT_TEMPO as int)]);
            assert(r.model().take(1) =~= r.model());
            assert(r.model().drop_last() =~= Seq::<(int, int)>::empty());
            vstd::arithmetic::div_mod::lemma_div_basics(ticks_per_quarter_note as int);
        }
        r
    }

    /// Records a tempo event at `tick`. Events must arrive in tick
    /// order; a second event at the same tick supersedes the first.
    pub fn add_tempo_event(&mut self, tick: u64, microseconds_per_quarter_note: u32)
        requires
            old(self).wf(),
            tick <= MAX_TICK,
            old(self).segments@.last().start_tick <= tick,
            1 <= microseconds_per_quarter_note <= MAX_TEMPO,
        ensures
            final(self).wf(),
            final(self).ticks_per_quarter_note == old(self).ticks_per_quarter_note,
            final(self).model() == old(self).model().push(
                (tick as int, microseconds_per_quarter_note as int),
            ),
            final(self).segments@.last().start_tick == tick,
    {
        let q = self.ticks_per_quarter_note;
        let n = self.segments.len();
        let last = self.segments[n - 1];
        let dur: u64 = tick - last.start_tick;
        proof {
            lemma_step_bounds(dur as int, last.microseconds_per_quarter_note as int, q as int);
            lemma_mul_inequality(dur as int, MAX_TICK as int, MAX_TEMPO as int);
            lemma_mul_inequality(last.start_tick as int, MAX_TICK as int, MAX_TEMPO as int);
        }
        let step: u64 = dur * (last.microseconds_per_quarter_note as u64) / (q as u64);
        let base: u64 = last.base_microseconds + step;
        let seg = TempoSegment {
            start_tick: tick,
            microseconds_per_quarter_note,
            base_microseconds: base,
        };
        proof {
            // base stays under start * MAX_TEMPO: the last base is under
            // last.start * MAX_TEMPO and the step is under dur * MAX_TEMPO.
            lemma_mul_is_distributive_sub_other_way(
                MAX_TEMPO as int,
                tick as int,
                last.start_tick as int,
            );
        }
        self.segments.push(seg);
        proof {
            let m0 = old(self).model();
            let m1 = self.model();
            let q = self.ticks_per_quarter_note as int;
            vstd::arithmetic::div_mod::lemma_div_basics(q);
            assert(m1 =~= m0.push((tick as int, microseconds_per_quarter_note as int)));
            assert(m1.take(m1.len() as int) =~= m1);
            assert(m1.drop_last() =~= m0);
            // the new segment's recorded base equals the map's time at its start
            lemma_time_of_in_last_segment(m0, q, tick as int);
            assert(old(self).segments[m0.len() - 1].base_microseconds as int == time_of(
                m0.take(m0.len() as int),
                q,
                last.start_tick as int,
            ));
            assert(m0.take(m0.len() as int) =~= m0);
            assert(time_of(m1, q, tick as int) == time_of(m0, q, tick as int) + 0
                * microseconds_per_quarter_note / q);
            assert(base as int == time_of(m1.take(m1.len() as int - 1 + 1), q, tick as int));
            // older segments keep their recorded bases
            assert forall|i: int| 0 <= i < m0.len() implies #[trigger] m1.take(i + 1) =~= m0.take(
                i + 1,
            ) by {}
        }
    }

    /// Absolute time in microseconds at `tick`.
    pub fn ticks_to_absolute_microseconds(&self, tick: u64) -> (r: u64)
        requires
            self.wf(),
            tick <= MAX_TICK,
        ensures
            r as int == time_of(self.model(), self.ticks_per_quarter_note as int, tick as int),
    {
        let q = self.ticks_per_quarter_note;
        let mut i: usize = self.segments.len() - 1;
        while self.segments[i].start_tick > tick
            invariant
                self.wf(),
                0 <= i < self.segments.len(),
                forall|j: int|
                    i < j < self.segments.len() ==> tick < #[trigger] self.segments[j].start_tick,
            decreases i,
        {
            i = i - 1;
        }
        let seg = self.segments[i];
        let dur: u64 = tick - seg.start_tick;
        proof {
            let m = self.model();
            let qi = q as int;
            lemma_time_of_in_segment(m, qi, i as int, tick as int);
            assert(m.take(i as int + 1).drop_last() =~= m.take(i as int));
            assert(time_of(m.take(i as int + 1), qi, tick as int) == time_of(
                m.take(i as int),
                qi,
                seg.start_tick as int,
            ) + (tick as int - seg.start_tick as int) * seg.microseconds_per_quarter_note as int
                / qi);
            assert(time_of(m.take(i as int + 1), qi, seg.start_tick as int) == time_of(
                m.take(i as int),
                qi,
                seg.start_tick as int,
            ) + 0 * seg.microseconds_per_quarter_note as int / qi);
            vstd::arithmetic::div_mod::lemma_div_basics(qi);
            lemma_step_bounds(dur as int, seg.microseconds_per_quarter_note as int, qi);
            lemma_mul_inequality(dur as int, MAX_TICK as int, MAX_TEMPO as int);
            lemma_mul_inequality(seg.start_tick as int, MAX_TICK as int, MAX_TEMPO as int);
        }
        let step: u64 = dur * (seg.microseconds_per_quarter_note as u64) / (q as u64);
        seg.base_microseconds + step
    }
}

/// Law: one tempo segment's contribution is nonnegative and at most its
/// duration times the largest tempo value.
proof fn lemma_step_bounds(dur: int, u: int, q: int)
    requires
        0 <= dur,
        0 <= u <= MAX_TEMPO as int,
        1 <= q,
    ensures
        0 <= dur * u,
        dur * u <= dur * MAX_TEMPO as int,
        0 <= dur * u / q <= dur * MAX_TEMPO as int,
{
    lemma_mul_nonnegative(dur, u);
    lemma_mul_inequality(u, MAX_TEMPO as int, dur);
    vstd::arithmetic::mul::lemma_mul_is_commutative(dur, u);
    vstd::arithmetic::mul::lemma_mul_is_commutative(dur, MAX_TEMPO as int);
    lemma_div_is_ordered_by_denominator(dur * u, 1, q);
    vstd::arithmetic::div_mod::lemma_div_basics(dur * u);
    lemma_div_pos_is_pos(dur * u, q);
}

/// Law: with a query tick at or past the last segment's start, the time
/// is the last segment's start time plus its own contribution.
proof fn lemma_time_of_in_last_segment(segs: Seq<(int, int)>, q: int, tick: int)
    requires
        segs.len() >= 1,
        tick >= segs.last().0,
    ensures
        time_of(segs, q, tick) == time_of(segs.drop_last(), q, segs.last().0) + (tick
            - segs.last().0) * segs.last().1 / q,
{
}

/// Law: the time at a tick inside segment `i` (at or past its start and
/// before every later segment's start) is decided by the map up to `i`.
proof fn lemma_time_of_in_segment(segs: Seq<(int, int)>, q: int, i: int, tick: int)
    requires
        0 <= i < segs.len(),
        segs[i].0 <= tick,
        forall|j: int| i < j < segs.len() ==> tick < #[trigger] segs[j].0,
    ensures
        time_of(segs, q, tick) == time_of(segs.take(i + 1), q, tick),
    decreases segs.len(),
{
    if segs.len() == 0 {
    } else if i == segs.len() - 1 {
        assert(segs.take(i + 1) =~= segs);
    } else {
        assert(tick < segs.last().0);
        assert(segs.drop_last().take(i + 1) =~= segs.take(i + 1));
        lemma_time_of_in_segment(segs.drop_last(), q, i, tick);
    }
}

/// Law: appending a segment that starts at or after `tick` does not
/// change the time at `tick`.
pub proof fn lemma_time_of_push_stable(segs: Seq<(int, int)>, q: int, tick: int, s: int, u: int)
    requires
        q >= 1,
        tick <= s,
    ensures
        time_of(segs.push((s, u)), q, tick) == time_of(segs, q, tick),
{
    let p = segs.push((s, u));
    assert(p.drop_last() =~= segs);
    if tick >= s {
        assert(tick == s);
        assert(time_of(p, q, tick) == time_of(segs, q, s) + (tick - s) * u / q);
        assert((tick - s) * u == 0);
    }
}

/// Law: the tempo map is monotone: a later tick is never mapped to an
/// earlier time. Start ticks must be non-decreasing and nonnegative and
/// tempo values nonnegative, as the timeline's well-formedness gives.
pub proof fn lemma_time_of_monotonic(segs: Seq<(int, int)>, q: int, t1: int, t2: int)
    requires
        q >= 1,
        0 <= t1 <= t2,
        forall|i: int, j: int| 0 <= i < j < segs.len() ==> #[trigger] segs[i].0 <= #[trigger] segs[j].0,
        forall|i: int| 0 <= i < segs.len() ==> 0 <= #[trigger] segs[i].0,
        forall|i: int| 0 <= i < segs.len() ==> 0 <= #[trigger] segs[i].1,
    ensures
        time_of(segs, q, t1) <= time_of(segs, q, t2),
    decreases segs.len(),
{
    if segs.len() == 0 {
    } else {
        let s = segs.last().0;
        let u = segs.last().1;
        let rest = segs.drop_last();
        assert(segs[segs.len() - 1] == segs.last());
        assert forall|i: int| 0 <= i < rest.len() implies #[trigger] rest[i] == segs[i] by {}
        if t1 >= s {
            lemma_mul_inequality(t1 - s, t2 - s, u);
            vstd::arithmetic::mul::lemma_mul_is_commutative(t1 - s, u);
            vstd::arithmetic::mul::lemma_mul_is_commutative(t2 - s, u);
            lemma_div_is_ordered((t1 - s) * u, (t2 - s) * u, q);
        } else if t2 >= s {
            lemma_time_of_monotonic(rest, q, t1, s);
            lemma_mul_nonnegative(t2 - s, u);
            lemma_div_pos_is_pos((t2 - s) * u, q);
        } else {
            lemma_time_of_monotonic(rest, q, t1, t2);
        }
    }
}

/// Law: converting ticks to absolute microseconds is monotone: for all
/// tick pairs t1 <= t2 the mapped times satisfy time(t1) <= time(t2).
pub proof fn lemma_ticks_to_microseconds_monotonic(tl: TempoTimeline, t1: u64, t2: u64)
    requires
        tl.wf(),
        t1 <= t2,
    ensures
        time_of(tl.model(), tl.ticks_per_quarter_note as int, t1 as int) <= time_of(
            tl.model(),
            tl.ticks_per_quarter_note as int,
            t2 as int,
        ),
{
    lemma_time_of_monotonic(tl.model(), tl.ticks_per_quarter_note as int, t1 as int, t2 as int);
}

} // verus!
