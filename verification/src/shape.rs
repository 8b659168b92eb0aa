use vstd::prelude::*;

use crate::level::{duration, is_signal, Level};

verus! {

/// The three-segment level pattern for one 2-bit offset value, an approximation
/// of the half-sine O-QPSK pulse: `q` is a quarter of the chip-count parameter,
/// `h` half of it. Values `0b01` and `0b10` need only two segments and pad with
/// a `Nop`.
pub open spec fn shaped_triple(chip2: u8, chip_count: u8) -> Seq<Level> {
    let q = (chip_count / 4) as u8;
    let h = (chip_count / 2) as u8;
    if chip2 == 0 {
        seq![Level::Low(q), Level::High(h), Level::Low(q)]
    } else if chip2 == 1 {
        seq![Level::Low(h), Level::High(h), Level::Nop]
    } else if chip2 == 2 {
        seq![Level::High(h), Level::Low(h), Level::Nop]
    } else {
        seq![Level::High(q), Level::Low(h), Level::High(q)]
    }
}

/// The level stream of a whole offset-bit stream: three segments per bit, in
/// order.
pub open spec fn shaped(bits: Seq<u8>, chip_count: u8) -> Seq<Level>
    decreases bits.len(),
{
    if bits.len() == 0 {
        Seq::empty()
    } else {
        shaped(bits.drop_last(), chip_count) + shaped_triple(bits.last(), chip_count)
    }
}

/// Shaping emits exactly three segments per offset bit.
pub proof fn lemma_shaped_len(bits: Seq<u8>, chip_count: u8)
    ensures
        shaped(bits, chip_count).len() == 3 * bits.len(),
    decreases bits.len(),
{
    if bits.len() > 0 {
        lemma_shaped_len(bits.drop_last(), chip_count);
    }
}

/// The total signal time of a level sequence, in engine cycles.
pub open spec fn total_duration(levels: Seq<Level>) -> int
    decreases levels.len(),
{
    if levels.len() == 0 {
        0
    } else {
        total_duration(levels.drop_last()) + duration(levels.last())
    }
}

/// How many of the levels carry signal (are not `Nop`).
pub open spec fn signal_count(levels: Seq<Level>) -> int
    decreases levels.len(),
{
    if levels.len() == 0 {
        0
    } else {
        signal_count(levels.drop_last()) + if is_signal(levels.last()) {
            1int
        } else {
            0int
        }
    }
}

/// Unfolds the duration and signal-segment sums over one three-level pattern.
proof fn lemma_triple_sums(a: Level, b: Level, c: Level)
    ensures
        total_duration(seq![a, b, c]) == duration(a) + duration(b) + duration(c),
        signal_count(seq![a, b, c]) == (if is_signal(a) {
            1int
        } else {
            0int
        }) + (if is_signal(b) {
            1int
        } else {
            0int
        }) + (if is_signal(c) {
            1int
        } else {
            0int
        }),
{
    reveal_with_fuel(total_duration, 4);
    reveal_with_fuel(signal_count, 4);
    let s = seq![a, b, c];
    assert(s.drop_last() =~= seq![a, b]);
    assert(seq![a, b].drop_last() =~= seq![a]);
    assert(seq![a].drop_last() =~= Seq::<Level>::empty());
}

/// Conservation of signal time in the pulse shaper: every 2-bit value maps to
/// segments totalling twice the half-chip length — the full chip-count
/// parameter — regardless of the value; `0b01` and `0b10` reach that total
/// across exactly two signal segments, the other two values across three.
pub proof fn lemma_shaper_conserves_time(chip2: u8, chip_count: u8)
    requires
        chip_count % 4 == 0,
    ensures
        total_duration(shaped_triple(chip2, chip_count)) == 2 * (chip_count / 2),
        total_duration(shaped_triple(chip2, chip_count)) == chip_count,
        signal_count(shaped_triple(chip2, chip_count)) == if chip2 == 1 || chip2 == 2 {
            2int
        } else {
            3int
        },
{
    let q = chip_count / 4;
    let h = chip_count / 2;
    assert(chip_count == 4 * q && h == 2 * q) by (nonlinear_arith)
        requires
            chip_count % 4 == 0,
            q == chip_count / 4,
            h == chip_count / 2,
    ;
    let t = shaped_triple(chip2, chip_count);
    lemma_triple_sums(t[0], t[1], t[2]);
    assert(t =~= seq![t[0], t[1], t[2]]);
}

/// The two-bit-to-waveform table at the default chip count of 16: quarter
/// segments of 4 cycles, half segments of 8.
pub fn chips_to_waves(bit_chip2: u8) -> (r: [Level; 3])
    requires
        bit_chip2 < 4,
    ensures
        r@ == shaped_triple(bit_chip2, 16),
{
    match bit_chip2 {
        0b00 => {
            // 0000111111110000
            [Level::Low(4), Level::High(8), Level::Low(4)]
        }
        0b01 => {
            // 0000000011111111
            [Level::Low(8), Level::High(8), Level::Nop]
        }
        0b10 => {
            // 1111111100000000
            [Level::High(8), Level::Low(8), Level::Nop]
        }
        _ => {
            // 1111000000001111
            [Level::High(4), Level::Low(8), Level::High(4)]
        }
    }
}

/// The two-bit-to-waveform table scaled to a configurable chip count.
pub fn wave_levels(bit_chip2: u8, chip_count: u8) -> (r: [Level; 3])
    requires
        bit_chip2 < 4,
    ensures
        r@ == shaped_triple(bit_chip2, chip_count),
{
    let q = chip_count / 4;
    let h = chip_count / 2;
    match bit_chip2 {
        0b00 => [Level::Low(q), Level::High(h), Level::Low(q)],
        0b01 => [Level::Low(h), Level::High(h), Level::Nop],
        0b10 => [Level::High(h), Level::Low(h), Level::Nop],
        _ => [Level::High(q), Level::Low(h), Level::High(q)],
    }
}

/// A chip-count parameter the shaping table cannot be scaled by: the quarter
/// and half segment lengths must divide evenly.
#[derive(Copy, Clone, Debug, PartialEq, Eq, Structural)]
pub struct ChipCountError;

/// Builds the full four-row waveform table for a chip-count parameter,
/// rejecting — at configuration time, not at encode time — a chip count whose
/// quarter segments would not divide evenly.
pub fn wave_array(chip_count: u8) -> (r: Result<[[Level; 3]; 4], ChipCountError>)
    ensures
        r is Ok <==> chip_count % 4 == 0,
        r matches Ok(table) ==> forall|c: int|
            0 <= c < 4 ==> #[trigger] table@[c]@ == shaped_triple(c as u8, chip_count),
{
    if chip_count % 4 != 0 {
        return Err(ChipCountError);
    }
    let table = [
        wave_levels(0, chip_count),
        wave_levels(1, chip_count),
        wave_levels(2, chip_count),
        wave_levels(3, chip_count),
    ];
    Ok(table)
}

/// The pulse-shaping stage: translates every oversampled offset bit into its
/// three-segment level pattern.
pub fn shape_levels(bits: &Vec<u8>, chip_count: u8) -> (r: Vec<Level>)
    requires
        forall|i: int| 0 <= i < bits@.len() ==> bits@[i] < 4,
        bits@.len() * 3 <= usize::MAX,
    ensures
        r@ == shaped(bits@, chip_count),
        r@.len() == 3 * bits@.len(),
{
    let mut r: Vec<Level> = Vec::new();
    let mut i: usize = 0;
    while i < bits.len()
        invariant
            i <= bits@.len(),
            bits@.len() * 3 <= usize::MAX,
            forall|k: int| 0 <= k < bits@.len() ==> bits@[k] < 4,
            r@ == shaped(bits@.take(i as int), chip_count),
            r@.len() == 3 * i,
        decreases bits@.len() - i,
    {
        let w = wave_levels(bits[i], chip_count);
        r.push(w[0]);
        r.push(w[1]);
        r.push(w[2]);
        proof {
            assert(bits@.take(i + 1).drop_last() =~= bits@.take(i as int));
            assert(r@ =~= shaped(bits@.take(i as int), chip_count) + shaped_triple(
                bits@[i as int],
                chip_count,
            ));
        }
        i = i + 1;
    }
    proof {
        assert(bits@.take(bits@.len() as int) =~= bits@);
        lemma_shaped_len(bits@, chip_count);
    }
    r
}

} // verus!
