//! The playable key alphabet: a fixed, injective, strictly increasing
//! mapping from 21 white MIDI pitches in [48, 83] to key symbols, plus
//! the classification of the fifteen black pitches of that range.

use vstd::prelude::*;

verus! {

/// Lowest MIDI pitch of the playable alphabet.
pub const MIN_PITCH: u8 = 48;

/// Highest MIDI pitch of the playable alphabet.
pub const MAX_PITCH: u8 = 83;

/// The playable alphabet as (MIDI pitch, key symbol) pairs, in strictly
/// increasing pitch order.
pub open spec fn genshin_pairs() -> Seq<(u8, char)> {
    seq![
        (48u8, 'z'), (50u8, 'x'), (52u8, 'c'), (53u8, 'v'), (55u8, 'b'), (57u8, 'n'), (59u8, 'm'),
        (60u8, 'a'), (62u8, 's'), (64u8, 'd'), (65u8, 'f'), (67u8, 'g'), (69u8, 'h'), (71u8, 'j'),
        (72u8, 'q'), (74u8, 'w'), (76u8, 'e'), (77u8, 'r'), (79u8, 't'), (81u8, 'y'), (83u8, 'u'),
    ]
}

/// The key symbols with their ASCII codes, in the pitch order of the
/// alphabet.
pub open spec fn genshin_ascii_pairs() -> Seq<(char, u8)> {
    seq![
        ('z', 90u8), ('x', 88u8), ('c', 67u8), ('v', 86u8), ('b', 66u8), ('n', 78u8), ('m', 77u8),
        ('a', 65u8), ('s', 83u8), ('d', 68u8), ('f', 70u8), ('g', 71u8), ('h', 72u8), ('j', 74u8),
        ('q', 81u8), ('w', 87u8), ('e', 69u8), ('r', 82u8), ('t', 84u8), ('y', 89u8), ('u', 85u8),
    ]
}

/// The key symbol of a white (directly playable) pitch, `None` for every
/// other pitch.
pub open spec fn white_char(p: int) -> Option<char> {
    if p == 48 { Some('z') }
    else if p == 50 { Some('x') }
    else if p == 52 { Some('c') }
    else if p == 53 { Some('v') }
    else if p == 55 { Some('b') }
    else if p == 57 { Some('n') }
    else if p == 59 { Some('m') }
    else if p == 60 { Some('a') }
    else if p == 62 { Some('s') }
    else if p == 64 { Some('d') }
    else if p == 65 { Some('f') }
    else if p == 67 { Some('g') }
    else if p == 69 { Some('h') }
    else if p == 71 { Some('j') }
    else if p == 72 { Some('q') }
    else if p == 74 { Some('w') }
    else if p == 76 { Some('e') }
    else if p == 77 { Some('r') }
    else if p == 79 { Some('t') }
    else if p == 81 { Some('y') }
    else if p == 83 { Some('u') }
    else { None }
}

/// Whether a pitch is directly playable.
pub open spec fn is_white(p: int) -> bool {
    white_char(p) is Some
}

/// Black pitches of the lowest supported octave.
pub open spec fn is_black_low(p: int) -> bool {
    p == 49 || p == 51 || p == 54 || p == 56 || p == 58
}

/// Black pitches of the middle supported octave.
pub open spec fn is_black_mid(p: int) -> bool {
    p == 61 || p == 63 || p == 66 || p == 68 || p == 70
}

/// Black pitches of the highest supported octave.
pub open spec fn is_black_high(p: int) -> bool {
    p == 73 || p == 75 || p == 78 || p == 80 || p == 82
}

/// Whether a pitch lies in the supported range but outside the alphabet.
pub open spec fn is_black(p: int) -> bool {
    is_black_low(p) || is_black_mid(p) || is_black_high(p)
}

/// The black pitches of the three supported octaves, one array each.
pub struct BlackKeyGenshin {
    pub c3: [u8; 5],
    pub c4: [u8; 5],
    pub c5: [u8; 5],
}

/// Builds the table of black pitches.
pub fn black_key_c3_to_c5() -> (r: BlackKeyGenshin)
    ensures
        r.c3@ == seq![49u8, 51u8, 54u8, 56u8, 58u8],
        r.c4@ == seq![61u8, 63u8, 66u8, 68u8, 70u8],
        r.c5@ == seq![73u8, 75u8, 78u8, 80u8, 82u8],
{
    let c3: [u8; 5] = [49, 51, 54, 56, 58];
    let c4: [u8; 5] = [61, 63, 66, 68, 70];
    let c5: [u8; 5] = [73, 75, 78, 80, 82];
    proof {
        assert(c3@ =~= seq![49u8, 51u8, 54u8, 56u8, 58u8]);
        assert(c4@ =~= seq![61u8, 63u8, 66u8, 68u8, 70u8]);
        assert(c5@ =~= seq![73u8, 75u8, 78u8, 80u8, 82u8]);
    }
    BlackKeyGenshin { c3, c4, c5 }
}

/// Builds the pitch-to-symbol table of the playable alphabet.
pub fn key_value_genshin() -> (r: Vec<(u8, char)>)
    ensures
        r@ == genshin_pairs(),
{
    let mut r: Vec<(u8, char)> = Vec::new();
    r.push((48, 'z'));
    r.push((50, 'x'));
    r.push((52, 'c'));
    r.push((53, 'v'));
    r.push((55, 'b'));
    r.push((57, 'n'));
    r.push((59, 'm'));
    r.push((60, 'a'));
    r.push((62, 's'));
    r.push((64, 'd'));
    r.push((65, 'f'));
    r.push((67, 'g'));
    r.push((69, 'h'));
    r.push((71, 'j'));
    r.push((72, 'q'));
    r.push((74, 'w'));
    r.push((76, 'e'));
    r.push((77, 'r'));
    r.push((79, 't'));
    r.push((81, 'y'));
    r.push((83, 'u'));
    proof {
        assert(r@ =~= genshin_pairs());
    }
    r
}

/// Builds the symbol-to-ASCII table of the playable alphabet.
pub fn key_value_genshin_ascii() -> (r: Vec<(char, u8)>)
    ensures
        r@ == genshin_ascii_pairs(),
{
    let mut r: Vec<(char, u8)> = Vec::new();
    r.push(('z', 90));
    r.push(('x', 88));
    r.push(('c', 67));
    r.push(('v', 86));
    r.push(('b', 66));
    r.push(('n', 78));
    r.push(('m', 77));
    r.push(('a', 65));
    r.push(('s', 83));
    r.push(('d', 68));
    r.push(('f', 70));
    r.push(('g', 71));
    r.push(('h', 72));
    r.push(('j', 74));
    r.push(('q', 81));
    r.push(('w', 87));
    r.push(('e', 69));
    r.push(('r', 82));
    r.push(('t', 84));
    r.push(('y', 89));
    r.push(('u', 85));
    proof {
        assert(r@ =~= genshin_ascii_pairs());
    }
    r
}

/// Direct lookup of a pitch in the alphabet.
pub fn white_key_char(p: u8) -> (r: Option<char>)
    ensures
        r == white_char(p as int),
{
    if p == 48 { Some('z') }
    else if p == 50 { Some('x') }
    else if p == 52 { Some('c') }
    else if p == 53 { Some('v') }
    else if p == 55 { Some('b') }
    else if p == 57 { Some('n') }
    else if p == 59 { Some('m') }
    else if p == 60 { Some('a') }
    else if p == 62 { Some('s') }
    else if p == 64 { Some('d') }
    else if p == 65 { Some('f') }
    else if p == 67 { Some('g') }
    else if p == 69 { Some('h') }
    else if p == 71 { Some('j') }
    else if p == 72 { Some('q') }
    else if p == 74 { Some('w') }
    else if p == 76 { Some('e') }
    else if p == 77 { Some('r') }
    else if p == 79 { Some('t') }
    else if p == 81 { Some('y') }
    else if p == 83 { Some('u') }
    else { None }
}

/// Law: the alphabet is strictly increasing in pitch, hence injective,
/// and its bounds are the table's first and last pitches.
pub proof fn lemma_alphabet_strictly_increasing()
    ensures
        forall|i: int, j: int|
            0 <= i < j < genshin_pairs().len() ==> (#[trigger] genshin_pairs()[i]).0 < (
            #[trigger] genshin_pairs()[j]).0,
        genshin_pairs().first().0 == MIN_PITCH,
        genshin_pairs().last().0 == MAX_PITCH,
{
}

/// Law: the direct lookup agrees with the table: every table entry's
/// pitch is white and maps to that entry's symbol.
pub proof fn lemma_alphabet_matches_lookup()
    ensures
        forall|i: int|
            0 <= i < genshin_pairs().len() ==> white_char((#[trigger] genshin_pairs()[i]).0 as int)
                == Some(genshin_pairs()[i].1),
{
}

/// Whether a pitch is black within the supported range.
pub fn is_black_key(p: u8) -> (r: bool)
    ensures
        r == is_black(p as int),
{
    p == 49 || p == 51 || p == 54 || p == 56 || p == 58
        || p == 61 || p == 63 || p == 66 || p == 68 || p == 70
        || p == 73 || p == 75 || p == 78 || p == 80 || p == 82
}

} // verus!
