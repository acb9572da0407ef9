//! Pitch remapping: octave folding toward the bounds of the alphabet
//! and the full pitch-to-playable-key decision.

use vstd::prelude::*;
use crate::blackkey::{black_key_adjusted, black_key_adjusted_spec};
use crate::keytable::{MAX_PITCH, MIN_PITCH, is_white};

verus! {

/// The smallest value >= `b` reachable from `v` by whole-octave upward
/// steps; `v` itself when `v >= b`.
pub open spec fn fold_up_spec(v: int, b: int) -> int
    decreases b - v,
{
    if v >= b {
        v
    } else if v + 12 >= b {
        v + 12
    } else {
        fold_up_spec(v + 12, b)
    }
}

/// The largest value <= `b` reachable from `v` by whole-octave downward
/// steps; `v` itself when `v <= b`.
pub open spec fn fold_down_spec(v: int, b: int) -> int
    decreases v - b,
{
    if v <= b {
        v
    } else if v - 12 <= b {
        v - 12
    } else {
        fold_down_spec(v - 12, b)
    }
}

/// Folding `v` toward the bound `b` by whole octaves until it crosses
/// into range; a fold whose result would be negative yields the no-op
/// marker 0.
pub open spec fn fold_spec(v: int, b: int) -> int {
    if v > b {
        let r = fold_down_spec(v, b);
        if r < 0 {
            0
        } else {
            r
        }
    } else {
        fold_up_spec(v, b)
    }
}

/// Law: folding up from below the bound lands in [b, b+11].
pub proof fn lemma_fold_up_bounds(v: int, b: int)
    requires
        v <= b,
    ensures
        b <= fold_up_spec(v, b) <= b + 11,
        v <= fold_up_spec(v, b),
    decreases b - v,
{
    if v >= b {
    } else if v + 12 >= b {
    } else {
        lemma_fold_up_bounds(v + 12, b);
    }
}

/// Law: folding down from above the bound lands in [b-11, b].
pub proof fn lemma_fold_down_bounds(v: int, b: int)
    requires
        v >= b,
    ensures
        b - 11 <= fold_down_spec(v, b) <= b,
        fold_down_spec(v, b) <= v,
    decreases v - b,
{
    if v <= b {
    } else if v - 12 <= b {
    } else {
        lemma_fold_down_bounds(v - 12, b);
    }
}

/// Shifts `val` by whole octaves toward the bound until it crosses it,
/// the common fold used for pitches outside the playable range.
pub fn div_plus(val: u8, min_or_max: u8) -> (r: u8)
    requires
        min_or_max <= 127,
    ensures
        r as int == fold_spec(val as int, min_or_max as int),
{
    let v: i32 = val as i32;
    let b: i32 = min_or_max as i32;
    if v > b {
        let mut k: i32 = v;
        proof {
            lemma_fold_down_bounds(v as int, b as int);
        }
        while k > b
            invariant
                0 <= b <= 127,
                k >= b - 11,
                fold_down_spec(k as int, b as int) == fold_down_spec(v as int, b as int),
            decreases k + 11 - b,
        {
            k = k - 12;
        }
        if k < 0 {
            0
        } else {
            k as u8
        }
    } else {
        let mut k: i32 = v;
        proof {
            lemma_fold_up_bounds(v as int, b as int);
        }
        while k < b
            invariant
                0 <= b <= 127,
                k <= b + 11,
                k >= v,
                fold_up_spec(k as int, b as int) == fold_up_spec(v as int, b as int),
            decreases b + 11 - k,
        {
            k = k + 12;
        }
        k as u8
    }
}

/// The full pitch decision: transpose by whole octaves, fold or clamp a
/// pitch that leaves the supported range per the range modes (any other
/// mode value skips the note), then resolve black pitches per the
/// black-key mode. 0 is the no-op marker.
pub open spec fn key_adjust_spec(
    key: int,
    tone_adjust: int,
    blow_limit: int,
    above_limit: int,
    black_key: int,
) -> int {
    let t = key + 12 * tone_adjust;
    if t < MIN_PITCH as int {
        if blow_limit == 0 {
            black_key_adjusted_spec(fold_up_spec(t, MIN_PITCH as int), black_key)
        } else if blow_limit == 1 {
            black_key_adjusted_spec(MIN_PITCH as int, black_key)
        } else {
            0
        }
    } else if t > MAX_PITCH as int {
        if above_limit == 0 {
            black_key_adjusted_spec(fold_down_spec(t, MAX_PITCH as int), black_key)
        } else if above_limit == 1 {
            black_key_adjusted_spec(MAX_PITCH as int, black_key)
        } else {
            0
        }
    } else if !is_white(t) {
        black_key_adjusted_spec(t, black_key)
    } else {
        t
    }
}

/// Maps one pitch to a playable pitch or the no-op marker 0.
pub fn adjust_pitch(
    key: u8,
    tone_adjust: i8,
    blow_limit: u8,
    above_limit: u8,
    black_key: u8,
) -> (r: u8)
    ensures
        r as int == key_adjust_spec(
            key as int,
            tone_adjust as int,
            blow_limit as int,
            above_limit as int,
            black_key as int,
        ),
{
    let t: i32 = key as i32 + 12 * (tone_adjust as i32);
    if t < MIN_PITCH as i32 {
        match blow_limit {
            0 => {
                let mut k: i32 = t;
                proof {
                    lemma_fold_up_bounds(t as int, MIN_PITCH as int);
                }
                while k < MIN_PITCH as i32
                    invariant
                        k <= MIN_PITCH as i32 + 11,
                        fold_up_spec(k as int, MIN_PITCH as int)
                            == fold_up_spec(t as int, MIN_PITCH as int),
                    decreases MIN_PITCH as int + 11 - k,
                {
                    k = k + 12;
                }
                black_key_adjusted(k as u8, black_key)
            },
            1 => black_key_adjusted(MIN_PITCH, black_key),
            _ => 0,
        }
    } else if t > MAX_PITCH as i32 {
        match above_limit {
            0 => {
                let mut k: i32 = t;
                proof {
                    lemma_fold_down_bounds(t as int, MAX_PITCH as int);
                }
                while k > MAX_PITCH as i32
                    invariant
                        k >= MAX_PITCH as i32 - 11,
                        fold_down_spec(k as int, MAX_PITCH as int)
                            == fold_down_spec(t as int, MAX_PITCH as int),
                    decreases k + 11 - MAX_PITCH as int,
                {
                    k = k - 12;
                }
                black_key_adjusted(k as u8, black_key)
            },
            1 => black_key_adjusted(MAX_PITCH, black_key),
            _ => 0,
        }
    } else {
        let p: u8 = t as u8;
        if !matches!(crate::keytable::white_key_char(p), Some(_)) {
            black_key_adjusted(p, black_key)
        } else {
            p
        }
    }
}

/// Law: a white pitch of the supported range maps to itself when no
/// transposition is applied, whatever the range and black-key modes.
pub proof fn lemma_white_key_identity(
    p: u8,
    blow_limit: u8,
    above_limit: u8,
    black_key: u8,
)
    requires
        MIN_PITCH <= p <= MAX_PITCH,
        is_white(p as int),
    ensures
        key_adjust_spec(p as int, 0, blow_limit as int, above_limit as int, black_key as int)
            == p as int,
{
}

} // verus!
