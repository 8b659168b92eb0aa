use vstd::prelude::*;

verus! {

/// The unary run-length program for one level duration: `(len - 4) / 2` ones
/// followed by one zero. The engine's two-instruction phase loop spends four
/// cycles of fixed overhead per phase (entry plus exit branch) and two cycles
/// per counted loop iteration, hence the subtraction and the halving.
pub open spec fn unary_bits(len: int) -> Seq<u8>
    recommends
        len >= 4,
{
    Seq::new(((len - 4) / 2) as nat, |i: int| 1u8).push(0u8)
}

/// How many cycles the two-phase waveform engine holds the current phase when
/// fed a bit stream: each leading `1` keeps it in the phase loop for two
/// cycles; the first `0` exits the phase, whose entry and exit take four fixed
/// cycles.
pub open spec fn phase_cycles(bits: Seq<u8>) -> int
    decreases bits.len(),
{
    if bits.len() == 0 {
        4
    } else if bits.first() != 1 {
        4
    } else {
        2 + phase_cycles(bits.drop_first())
    }
}

/// Round trip through the waveform engine: decoding the unary program of a
/// duration under the engine's phase semantics reconstructs exactly that many
/// cycles. Durations reaching this encoder are at least the four-cycle minimum
/// and even, both enforced upstream.
pub proof fn lemma_unary_round_trip(len: int)
    requires
        len >= 4,
        len % 2 == 0,
    ensures
        phase_cycles(unary_bits(len)) == len,
    decreases len,
{
    let bits = unary_bits(len);
    if len == 4 {
        assert(bits =~= seq![0u8]);
    } else {
        lemma_unary_round_trip(len - 2);
        assert(bits.first() == 1);
        assert(bits.drop_first() =~= unary_bits(len - 2));
    }
}

/// Unary-encodes one clamped run duration for the engine's loop-decrement
/// program.
pub fn lengths_to_pio_byte_code_ints(len: u8) -> (r: Vec<u8>)
    requires
        len >= 4,
    ensures
        r@ == unary_bits(len as int),
{
    let repeats = (len - 4) / 2;
    let mut r: Vec<u8> = Vec::new();
    let mut i: u8 = 0;
    while i < repeats
        invariant
            i <= repeats,
            repeats == (len - 4) / 2,
            r@.len() == i,
            forall|k: int| 0 <= k < i ==> r@[k] == 1u8,
        decreases repeats - i,
    {
        r.push(1);
        i = i + 1;
    }
    r.push(0);
    proof {
        assert(r@ =~= unary_bits(len as int));
    }
    r
}

} // verus!
