use vstd::prelude::*;

use crate::chips::{chip_row, chip_row_spec};

verus! {

/// Whether a character is a hexadecimal digit, upper or lower case.
pub open spec fn is_hex_digit(c: char) -> bool {
    ('0' as u32 <= c as u32 && c as u32 <= '9' as u32) || ('a' as u32 <= c as u32 && c as u32
        <= 'f' as u32) || ('A' as u32 <= c as u32 && c as u32 <= 'F' as u32)
}

/// The numeric value of a hexadecimal digit.
pub open spec fn hex_value(c: char) -> int {
    if '0' as u32 <= c as u32 && c as u32 <= '9' as u32 {
        c as u32 - '0' as u32
    } else if 'a' as u32 <= c as u32 && c as u32 <= 'f' as u32 {
        10 + c as u32 - 'a' as u32
    } else {
        10 + c as u32 - 'A' as u32
    }
}

/// Parses one hexadecimal digit; `None` exactly on the characters the encoder
/// rejects as malformed input.
pub fn hex_digit_value(c: char) -> (r: Option<u8>)
    ensures
        r is Some <==> is_hex_digit(c),
        is_hex_digit(c) ==> r == Some(hex_value(c) as u8),
{
    let v = c as u32;
    if '0' as u32 <= v && v <= '9' as u32 {
        Some((v - '0' as u32) as u8)
    } else if 'a' as u32 <= v && v <= 'f' as u32 {
        Some((10 + v - 'a' as u32) as u8)
    } else if 'A' as u32 <= v && v <= 'F' as u32 {
        Some((10 + v - 'A' as u32) as u8)
    } else {
        None
    }
}

/// The hex-character stream with every pair swapped: pair `(a, b)` is emitted
/// as `[b, a]`, correcting byte endianness before spreading. A trailing
/// unpaired character is dropped.
pub open spec fn swapped(s: Seq<char>) -> Seq<char> {
    Seq::new(2 * (s.len() / 2), |i: int| if i % 2 == 0 { s[i + 1] } else { s[i - 1] })
}

/// Endianness swap of one hex-character pair.
fn swap_fn(pair: (char, char)) -> (r: [char; 2])
    ensures
        r@ == seq![pair.1, pair.0],
{
    let (a, b) = pair;
    [b, a]
}

/// Endianness swap over a whole character stream, pair by pair.
pub fn swap(s: &Vec<char>) -> (r: Vec<char>)
    ensures
        r@ == swapped(s@),
{
    let mut r: Vec<char> = Vec::new();
    let mut i: usize = 0;
    while i + 1 < s.len()
        invariant
            i % 2 == 0,
            i <= s@.len(),
            r@.len() == i,
            forall|k: int| 0 <= k < i ==> r@[k] == swapped(s@)[k],
        decreases s@.len() - i,
    {
        let pair = swap_fn((s[i], s[i + 1]));
        r.push(pair[0]);
        r.push(pair[1]);
        i = i + 2;
    }
    proof {
        assert(r@ =~= swapped(s@));
    }
    r
}

/// The flat chip stream for a sequence of nibble values: each nibble expands,
/// in order, to its 16-chip spreading-table row.
pub open spec fn chips_of(nibbles: Seq<u8>) -> Seq<u8>
    decreases nibbles.len(),
{
    if nibbles.len() == 0 {
        Seq::empty()
    } else {
        chips_of(nibbles.drop_last()) + chip_row_spec(nibbles.last() as int)
    }
}

/// Spreading turns each nibble into exactly 16 chips.
pub proof fn lemma_chips_of_len(nibbles: Seq<u8>)
    ensures
        chips_of(nibbles).len() == 16 * nibbles.len(),
    decreases nibbles.len(),
{
    if nibbles.len() > 0 {
        lemma_chips_of_len(nibbles.drop_last());
    }
}

/// Every spread chip is a 2-bit value.
pub proof fn lemma_chips_of_bounds(nibbles: Seq<u8>)
    ensures
        forall|i: int| 0 <= i < chips_of(nibbles).len() ==> chips_of(nibbles)[i] < 4,
    decreases nibbles.len(),
{
    if nibbles.len() > 0 {
        lemma_chips_of_bounds(nibbles.drop_last());
        lemma_chips_of_len(nibbles.drop_last());
        assert forall|i: int| 0 <= i < chips_of(nibbles).len() implies chips_of(nibbles)[i]
            < 4 by {
            if i >= chips_of(nibbles.drop_last()).len() {
                crate::chips::lemma_chip_row_bounds(
                    nibbles.last() as int,
                    i - chips_of(nibbles.drop_last()).len(),
                );
            }
        }
    }
}

/// For every even-length hex string, the spreader emits exactly 16 chips per
/// hex character.
pub proof fn lemma_spreader_output_length(s: Seq<char>)
    requires
        s.len() % 2 == 0,
    ensures
        chips_of(swapped(s).map_values(|c: char| hex_value(c) as u8)).len() == 16 * s.len(),
{
    vstd::arithmetic::div_mod::lemma_fundamental_div_mod(s.len() as int, 2);
    lemma_chips_of_len(swapped(s).map_values(|c: char| hex_value(c) as u8));
}

/// The spreading-table row for one hex character; the caller has already
/// validated the character.
pub fn hex_to_chips(c: char) -> (r: Vec<u8>)
    requires
        is_hex_digit(c),
    ensures
        r@ == chip_row_spec(hex_value(c)),
{
    let idx = match hex_digit_value(c) {
        Some(v) => v,
        None => 0,  // unreachable: the character was validated
    };
    chip_row(idx)
}

/// Spreads a validated, already-swapped hex-character stream into its flat
/// chip stream, 16 chips per character.
pub fn get_chip_sequences(chars: &Vec<char>) -> (r: Vec<u8>)
    requires
        forall|i: int| 0 <= i < chars@.len() ==> is_hex_digit(#[trigger] chars@[i]),
        chars@.len() * 16 <= usize::MAX,
    ensures
        r@ == chips_of(chars@.map_values(|c: char| hex_value(c) as u8)),
        r@.len() == 16 * chars@.len(),
{
    let ghost nibs = chars@.map_values(|c: char| hex_value(c) as u8);
    let mut r: Vec<u8> = Vec::new();
    let mut i: usize = 0;
    while i < chars.len()
        invariant
            i <= chars@.len(),
            chars@.len() * 16 <= usize::MAX,
            forall|k: int| 0 <= k < chars@.len() ==> is_hex_digit(#[trigger] chars@[k]),
            nibs == chars@.map_values(|c: char| hex_value(c) as u8),
            r@ == chips_of(nibs.take(i as int)),
            r@.len() == 16 * i,
        decreases chars@.len() - i,
    {
        let mut row = hex_to_chips(chars[i]);
        proof {
            assert(nibs.take(i + 1).drop_last() =~= nibs.take(i as int));
            assert(nibs.take(i + 1).last() == nibs[i as int]);
            lemma_chips_of_len(nibs.take(i as int));
        }
        r.append(&mut row);
        i = i + 1;
    }
    proof {
        assert(nibs.take(chars@.len() as int) =~= nibs);
        lemma_chips_of_len(nibs);
    }
    r
}

/// The nibble stream of a byte message: for each byte, the low nibble then the
/// high nibble, matching the endianness swap of the hex-character path.
pub open spec fn nibbles_of(bytes: Seq<u8>) -> Seq<u8> {
    Seq::new(
        2 * bytes.len(),
        |i: int| if i % 2 == 0 { bytes[i / 2] & 0x0f } else { bytes[i / 2] >> 4 },
    )
}

/// Splits a byte message into its nibble stream, low nibble first.
pub fn nibbles_of_bytes(bytes: &Vec<u8>) -> (r: Vec<u8>)
    requires
        bytes@.len() * 2 <= usize::MAX,
    ensures
        r@ == nibbles_of(bytes@),
        forall|i: int| 0 <= i < r@.len() ==> r@[i] < 16,
{
    let mut r: Vec<u8> = Vec::new();
    let mut i: usize = 0;
    while i < bytes.len()
        invariant
            i <= bytes@.len(),
            bytes@.len() * 2 <= usize::MAX,
            r@.len() == 2 * i,
            forall|k: int| 0 <= k < r@.len() ==> r@[k] == nibbles_of(bytes@)[k],
        decreases bytes@.len() - i,
    {
        let b = bytes[i];
        r.push(b & 0x0f);
        r.push(b >> 4);
        proof {
            assert((2 * i as int) % 2 == 0);
            assert((2 * i as int + 1) % 2 == 1);
            assert((2 * i as int) / 2 == i as int);
            assert((2 * i as int + 1) / 2 == i as int);
        }
        i = i + 1;
    }
    proof {
        assert(r@ =~= nibbles_of(bytes@));
        assert forall|i: int| 0 <= i < r@.len() implies r@[i] < 16 by {
            let b = bytes@[i / 2];
            assert((b & 0x0f) < 16 && (b >> 4) < 16) by (bit_vector);
        }
    }
    r
}

/// Spreads a nibble stream into its flat chip stream.
pub fn spread_nibbles(nibbles: &Vec<u8>) -> (r: Vec<u8>)
    requires
        forall|i: int| 0 <= i < nibbles@.len() ==> nibbles@[i] < 16,
        nibbles@.len() * 16 <= usize::MAX,
    ensures
        r@ == chips_of(nibbles@),
        r@.len() == 16 * nibbles@.len(),
{
    let mut r: Vec<u8> = Vec::new();
    let mut i: usize = 0;
    while i < nibbles.len()
        invariant
            i <= nibbles@.len(),
            nibbles@.len() * 16 <= usize::MAX,
            forall|k: int| 0 <= k < nibbles@.len() ==> nibbles@[k] < 16,
            r@ == chips_of(nibbles@.take(i as int)),
            r@.len() == 16 * i,
        decreases nibbles@.len() - i,
    {
        let mut row = chip_row(nibbles[i]);
        proof {
            assert(nibbles@.take(i + 1).drop_last() =~= nibbles@.take(i as int));
            lemma_chips_of_len(nibbles@.take(i as int));
        }
        r.append(&mut row);
        i = i + 1;
    }
    proof {
        assert(nibbles@.take(nibbles@.len() as int) =~= nibbles@);
        lemma_chips_of_len(nibbles@);
    }
    r
}

} // verus!
