//! The black-key substitution policy: resolving a pitch that lies in
//! the supported range but outside the alphabet to a playable pitch, a
//! no-op marker, or itself, under a selectable mode.

use vstd::prelude::*;
use crate::keytable::{is_black, is_black_low, is_white};

verus! {

/// The resolved pitch of the black-key policy. A white or out-of-range
/// pitch is left unchanged. A black pitch resolves per mode: 0 mutes
/// (no-op marker 0), 1 rounds down a semitone, 2 rounds up a semitone,
/// 3 mutes in the lowest octave and rounds up elsewhere; every other
/// mode leaves the pitch unchanged.
pub open spec fn black_key_adjusted_spec(key: int, mode: int) -> int {
    if is_black(key) {
        if mode == 0 {
            0
        } else if mode == 1 {
            key - 1
        } else if mode == 2 {
            key + 1
        } else if mode == 3 {
            if is_black_low(key) {
                0
            } else {
                key + 1
            }
        } else {
            key
        }
    } else {
        key
    }
}

/// Resolves a black pitch to a playable substitute under the given mode.
pub fn black_key_adjusted(key: u8, mode: u8) -> (r: u8)
    ensures
        r as int == black_key_adjusted_spec(key as int, mode as int),
{
    if crate::keytable::is_black_key(key) {
        match mode {
            0 => 0,
            1 => key - 1,
            2 => key + 1,
            3 => {
                if key == 49 || key == 51 || key == 54 || key == 56 || key == 58 {
                    0
                } else {
                    key + 1
                }
            },
            _ => key,
        }
    } else {
        key
    }
}

/// Law: the contextual mode (3) leaves a pitch of the alphabet alone.
pub proof fn lemma_black_key_mode3_white_noop(key: u8)
    requires
        is_white(key as int),
    ensures
        black_key_adjusted_spec(key as int, 3) == key as int,
{
}

/// Law: the contextual mode (3) is idempotent: resolving a pitch twice
/// gives the same result as resolving it once.
pub proof fn lemma_black_key_mode3_idempotent(key: u8)
    ensures
        black_key_adjusted_spec(black_key_adjusted_spec(key as int, 3), 3)
            == black_key_adjusted_spec(key as int, 3),
{
}

} // verus!
