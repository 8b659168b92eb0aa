use vstd::prelude::*;

verus! {

/// The half-chip-delayed value inserted between two chips: quadrature bit from
/// the previous chip, in-phase bit from the current one.
pub open spec fn middle_of(prev: u8, current: u8) -> u8 {
    (prev & 0b01) | (current & 0b10)
}

/// The O-QPSK offset stream of a chip sequence, before the phase-convention
/// skip: each chip is preceded by the half-chip-delayed middle value computed
/// against the previous chip (a zero register before the first chip).
pub open spec fn interleaved(chips: Seq<u8>) -> Seq<u8> {
    Seq::new(
        2 * chips.len(),
        |i: int|
            {
                let k = i / 2;
                let prev: u8 = if k == 0 {
                    0
                } else {
                    chips[k - 1]
                };
                if i % 2 == 0 {
                    middle_of(prev, chips[k])
                } else {
                    chips[k]
                }
            },
    )
}

/// The offset stream once the phase convention is applied: the very first
/// emitted value, computed against the zero-initialized register, is dropped.
/// This offset-by-one skip is required behavior, not incidental.
pub open spec fn offset_chips(chips: Seq<u8>) -> Seq<u8> {
    if interleaved(chips).len() == 0 {
        Seq::empty()
    } else {
        interleaved(chips).skip(1)
    }
}

/// Middle values are 2-bit like the chips around them.
pub proof fn lemma_interleaved_bounds(chips: Seq<u8>)
    requires
        forall|i: int| 0 <= i < chips.len() ==> chips[i] < 4,
    ensures
        forall|i: int| 0 <= i < interleaved(chips).len() ==> interleaved(chips)[i] < 4,
{
    assert forall|i: int| 0 <= i < interleaved(chips).len() implies interleaved(chips)[i] < 4 by {
        let k = i / 2;
        let prev: u8 = if k == 0 {
            0
        } else {
            chips[k - 1]
        };
        let cur = chips[k];
        assert(((prev & 0b01) | (cur & 0b10)) < 4) by (bit_vector);
    }
}

/// One interleaver step: emits the middle value then the chip itself, and
/// carries the chip forward as the new register value.
pub fn add_middle(prev: &mut u8, current: u8) -> (r: Option<[u8; 2]>)
    ensures
        *final(prev) == current,
        r matches Some(pair) && pair@ == seq![middle_of(*old(prev), current), current],
{
    // middle takes the quadrature bit from the previous chip,
    // the in-phase bit from the current one
    let middle: u8 = (*prev & 0b01) | (current & 0b10);
    *prev = current;
    Some([middle, current])
}

/// Interleaves a chip stream for O-QPSK: output is twice as long as the input,
/// alternating middle values and chips.
pub fn interleave(chips: &Vec<u8>) -> (r: Vec<u8>)
    requires
        chips@.len() * 2 <= usize::MAX,
    ensures
        r@ == interleaved(chips@),
        r@.len() == 2 * chips@.len(),
{
    let mut r: Vec<u8> = Vec::new();
    let mut prev: u8 = 0;
    let mut i: usize = 0;
    while i < chips.len()
        invariant
            i <= chips@.len(),
            chips@.len() * 2 <= usize::MAX,
            prev == if i == 0 {
                0u8
            } else {
                chips@[i - 1]
            },
            r@.len() == 2 * i,
            forall|k: int| 0 <= k < r@.len() ==> r@[k] == interleaved(chips@)[k],
        decreases chips@.len() - i,
    {
        let pair = match add_middle(&mut prev, chips[i]) {
            Some(pair) => pair,
            None => [0, 0],  // unreachable: a step always emits
        };
        r.push(pair[0]);
        r.push(pair[1]);
        proof {
            assert((2 * i as int) % 2 == 0);
            assert((2 * i as int) / 2 == i as int);
            assert((2 * i as int + 1) % 2 == 1);
            assert((2 * i as int + 1) / 2 == i as int);
        }
        i = i + 1;
    }
    proof {
        assert(r@ =~= interleaved(chips@));
    }
    r
}

/// The full offset-interleaving stage: interleave, then drop the first emitted
/// value to align the stream with the transmitter's phase convention.
pub fn add_middle_bits_for_o_qpsk(chips: &Vec<u8>) -> (r: Vec<u8>)
    requires
        chips@.len() * 2 <= usize::MAX,
    ensures
        r@ == offset_chips(chips@),
{
    let inter = interleave(chips);
    let mut r: Vec<u8> = Vec::new();
    let mut i: usize = 1;
    while i < inter.len()
        invariant
            1 <= i,
            inter@.len() == 0 ==> i == 1,
            inter@.len() > 0 ==> i <= inter@.len(),
            inter@ == interleaved(chips@),
            r@.len() == i - 1,
            forall|k: int| 0 <= k < r@.len() ==> r@[k] == inter@[k + 1],
        decreases inter@.len() - i,
    {
        r.push(inter[i]);
        i = i + 1;
    }
    proof {
        assert(r@ =~= offset_chips(chips@));
    }
    r
}

} // verus!
