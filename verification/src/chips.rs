use vstd::prelude::*;

verus! {

/// The fixed IEEE-802.15.4-style spreading table: the 16-chip pseudo-random
/// sequence for one nibble value, each chip a 2-bit value. Rows are listed in
/// nibble order and chips in transmission order.
pub open spec fn chip_row_spec(nibble: int) -> Seq<u8> {
    if nibble == 0 {
        seq![0b11u8, 0b01, 0b10, 0b01, 0b11, 0b00, 0b00, 0b11, 0b01, 0b01, 0b00, 0b10, 0b00, 0b10, 0b11, 0b10]
    } else if nibble == 1 {
        seq![0b11u8, 0b10, 0b11, 0b01, 0b10, 0b01, 0b11, 0b00, 0b00, 0b11, 0b01, 0b01, 0b00, 0b10, 0b00, 0b10]
    } else if nibble == 2 {
        seq![0b00u8, 0b10, 0b11, 0b10, 0b11, 0b01, 0b10, 0b01, 0b11, 0b00, 0b00, 0b11, 0b01, 0b01, 0b00, 0b10]
    } else if nibble == 3 {
        seq![0b00u8, 0b10, 0b00, 0b10, 0b11, 0b10, 0b11, 0b01, 0b10, 0b01, 0b11, 0b00, 0b00, 0b11, 0b01, 0b01]
    } else if nibble == 4 {
        seq![0b01u8, 0b01, 0b00, 0b10, 0b00, 0b10, 0b11, 0b10, 0b11, 0b01, 0b10, 0b01, 0b11, 0b00, 0b00, 0b11]
    } else if nibble == 5 {
        seq![0b00u8, 0b11, 0b01, 0b01, 0b00, 0b10, 0b00, 0b10, 0b11, 0b10, 0b11, 0b01, 0b10, 0b01, 0b11, 0b00]
    } else if nibble == 6 {
        seq![0b11u8, 0b00, 0b00, 0b11, 0b01, 0b01, 0b00, 0b10, 0b00, 0b10, 0b11, 0b10, 0b11, 0b01, 0b10, 0b01]
    } else if nibble == 7 {
        seq![0b10u8, 0b01, 0b11, 0b00, 0b00, 0b11, 0b01, 0b01, 0b00, 0b10, 0b00, 0b10, 0b11, 0b10, 0b11, 0b01]
    } else if nibble == 8 {
        seq![0b10u8, 0b00, 0b11, 0b00, 0b10, 0b01, 0b01, 0b10, 0b00, 0b00, 0b01, 0b11, 0b01, 0b11, 0b10, 0b11]
    } else if nibble == 9 {
        seq![0b10u8, 0b11, 0b10, 0b00, 0b11, 0b00, 0b10, 0b01, 0b01, 0b10, 0b00, 0b00, 0b01, 0b11, 0b01, 0b11]
    } else if nibble == 10 {
        seq![0b01u8, 0b11, 0b10, 0b11, 0b10, 0b00, 0b11, 0b00, 0b10, 0b01, 0b01, 0b10, 0b00, 0b00, 0b01, 0b11]
    } else if nibble == 11 {
        seq![0b01u8, 0b11, 0b01, 0b11, 0b10, 0b11, 0b10, 0b00, 0b11, 0b00, 0b10, 0b01, 0b01, 0b10, 0b00, 0b00]
    } else if nibble == 12 {
        seq![0b00u8, 0b00, 0b01, 0b11, 0b01, 0b11, 0b10, 0b11, 0b10, 0b00, 0b11, 0b00, 0b10, 0b01, 0b01, 0b10]
    } else if nibble == 13 {
        seq![0b01u8, 0b10, 0b00, 0b00, 0b01, 0b11, 0b01, 0b11, 0b10, 0b11, 0b10, 0b00, 0b11, 0b00, 0b10, 0b01]
    } else if nibble == 14 {
        seq![0b10u8, 0b01, 0b01, 0b10, 0b00, 0b00, 0b01, 0b11, 0b01, 0b11, 0b10, 0b11, 0b10, 0b00, 0b11, 0b00]
    } else {
        seq![0b11u8, 0b00, 0b10, 0b01, 0b01, 0b10, 0b00, 0b00, 0b01, 0b11, 0b01, 0b11, 0b10, 0b11, 0b10, 0b00]
    }
}

/// Every chip in the table is a 2-bit value.
pub proof fn lemma_chip_row_bounds(nibble: int, i: int)
    requires
        0 <= i < 16,
    ensures
        chip_row_spec(nibble).len() == 16,
        chip_row_spec(nibble)[i] < 4,
{
}

/// The spreading sequence for one nibble, as the chip table row in
/// transmission order.
pub fn chip_row(nibble: u8) -> (r: Vec<u8>)
    requires
        nibble < 16,
    ensures
        r@ == chip_row_spec(nibble as int),
{
    let row: [u8; 16] = match nibble {
        0 => [0b11, 0b01, 0b10, 0b01, 0b11, 0b00, 0b00, 0b11, 0b01, 0b01, 0b00, 0b10, 0b00, 0b10, 0b11, 0b10],
        1 => [0b11, 0b10, 0b11, 0b01, 0b10, 0b01, 0b11, 0b00, 0b00, 0b11, 0b01, 0b01, 0b00, 0b10, 0b00, 0b10],
        2 => [0b00, 0b10, 0b11, 0b10, 0b11, 0b01, 0b10, 0b01, 0b11, 0b00, 0b00, 0b11, 0b01, 0b01, 0b00, 0b10],
        3 => [0b00, 0b10, 0b00, 0b10, 0b11, 0b10, 0b11, 0b01, 0b10, 0b01, 0b11, 0b00, 0b00, 0b11, 0b01, 0b01],
        4 => [0b01, 0b01, 0b00, 0b10, 0b00, 0b10, 0b11, 0b10, 0b11, 0b01, 0b10, 0b01, 0b11, 0b00, 0b00, 0b11],
        5 => [0b00, 0b11, 0b01, 0b01, 0b00, 0b10, 0b00, 0b10, 0b11, 0b10, 0b11, 0b01, 0b10, 0b01, 0b11, 0b00],
        6 => [0b11, 0b00, 0b00, 0b11, 0b01, 0b01, 0b00, 0b10, 0b00, 0b10, 0b11, 0b10, 0b11, 0b01, 0b10, 0b01],
        7 => [0b10, 0b01, 0b11, 0b00, 0b00, 0b11, 0b01, 0b01, 0b00, 0b10, 0b00, 0b10, 0b11, 0b10, 0b11, 0b01],
        8 => [0b10, 0b00, 0b11, 0b00, 0b10, 0b01, 0b01, 0b10, 0b00, 0b00, 0b01, 0b11, 0b01, 0b11, 0b10, 0b11],
        9 => [0b10, 0b11, 0b10, 0b00, 0b11, 0b00, 0b10, 0b01, 0b01, 0b10, 0b00, 0b00, 0b01, 0b11, 0b01, 0b11],
        10 => [0b01, 0b11, 0b10, 0b11, 0b10, 0b00, 0b11, 0b00, 0b10, 0b01, 0b01, 0b10, 0b00, 0b00, 0b01, 0b11],
        11 => [0b01, 0b11, 0b01, 0b11, 0b10, 0b11, 0b10, 0b00, 0b11, 0b00, 0b10, 0b01, 0b01, 0b10, 0b00, 0b00],
        12 => [0b00, 0b00, 0b01, 0b11, 0b01, 0b11, 0b10, 0b11, 0b10, 0b00, 0b11, 0b00, 0b10, 0b01, 0b01, 0b10],
        13 => [0b01, 0b10, 0b00, 0b00, 0b01, 0b11, 0b01, 0b11, 0b10, 0b11, 0b10, 0b00, 0b11, 0b00, 0b10, 0b01],
        14 => [0b10, 0b01, 0b01, 0b10, 0b00, 0b00, 0b01, 0b11, 0b01, 0b11, 0b10, 0b11, 0b10, 0b00, 0b11, 0b00],
        _ => [0b11, 0b00, 0b10, 0b01, 0b01, 0b10, 0b00, 0b00, 0b01, 0b11, 0b01, 0b11, 0b10, 0b11, 0b10, 0b00],
    };
    let mut r: Vec<u8> = Vec::new();
    let mut i: usize = 0;
    while i < 16
        invariant
            i <= 16,
            r@ == chip_row_spec(nibble as int).take(i as int),
            row@ == chip_row_spec(nibble as int),
        decreases 16 - i,
    {
        r.push(row[i]);
        proof {
            assert(r@ =~= chip_row_spec(nibble as int).take(i + 1));
        }
        i = i + 1;
    }
    proof {
        assert(r@ =~= chip_row_spec(nibble as int));
    }
    r
}

} // verus!
