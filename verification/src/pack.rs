use vstd::prelude::*;

use vstd::arithmetic::power2::{lemma2_to64, lemma_pow2_unfold, pow2};

verus! {

/// Whether every element of a bit stream is 0 or 1.
pub open spec fn all_bits(bits: Seq<u8>) -> bool {
    forall|i: int| 0 <= i < bits.len() ==> bits[i] <= 1
}

/// The unsigned value of a bit sequence read most-significant-bit first.
pub open spec fn word_value(bits: Seq<u8>) -> int
    decreases bits.len(),
{
    if bits.len() == 0 {
        0
    } else {
        2 * word_value(bits.drop_last()) + bits.last()
    }
}

/// The instruction-word stream of a bit stream: consecutive groups of 32 bits,
/// each packed most-significant-bit first; a trailing partial group is dropped,
/// never padded or emitted.
pub open spec fn packed_words(bits: Seq<u8>) -> Seq<u32> {
    Seq::new(bits.len() / 32, |k: int| word_value(bits.subrange(32 * k, 32 * k + 32)) as u32)
}

/// Packs the 32 bits starting at `start` into one instruction word,
/// most-significant-bit first.
pub fn pack_bits_into_u32(bits: &Vec<u8>, start: usize) -> (w: u32)
    requires
        start + 32 <= bits@.len(),
        all_bits(bits@),
    ensures
        w == word_value(bits@.subrange(start as int, start as int + 32)),
{
    let ghost group = bits@.subrange(start as int, start as int + 32);
    let n = bits.len();
    let mut value: u32 = 0;
    let mut j: usize = 0;
    proof {
        lemma2_to64();
    }
    while j < 32
        invariant
            j <= 32,
            n == bits@.len(),
            start + 32 <= n,
            all_bits(bits@),
            group == bits@.subrange(start as int, start as int + 32),
            value == word_value(group.take(j as int)),
            value < pow2(j as nat),
        decreases 32 - j,
    {
        let b = bits[start + j];
        proof {
            lemma2_to64();
            assert(pow2(j as nat) <= pow2(31)) by {
                if j < 31 {
                    vstd::arithmetic::power2::lemma_pow2_strictly_increases(j as nat, 31);
                }
            }
            let v = value;
            assert((v << 1u32) | (b as u32) == v * 2 + b) by (bit_vector)
                requires
                    v < 0x8000_0000u32,
                    b <= 1,
            ;
            assert(group.take(j + 1).drop_last() =~= group.take(j as int));
            lemma_pow2_unfold(j as nat + 1);
        }
        value = (value << 1u32) | (b as u32);
        j = j + 1;
    }
    proof {
        assert(group.take(32) =~= group);
    }
    value
}

/// The word packer: batches a run-length-program bit stream into full 32-bit
/// instruction words, MSB first, discarding any trailing bits that do not
/// complete a word.
pub fn pack_words(bits: &Vec<u8>) -> (r: Vec<u32>)
    requires
        all_bits(bits@),
    ensures
        r@ == packed_words(bits@),
        r@.len() == bits@.len() / 32,
{
    let mut r: Vec<u32> = Vec::new();
    let mut start: usize = 0;
    while bits.len() - start >= 32
        invariant
            start % 32 == 0,
            start <= bits@.len(),
            all_bits(bits@),
            r@.len() == start / 32,
            forall|k: int| 0 <= k < r@.len() ==> r@[k] == packed_words(bits@)[k],
        decreases bits@.len() - start,
    {
        let w = pack_bits_into_u32(bits, start);
        proof {
            vstd::arithmetic::div_mod::lemma_fundamental_div_mod(start as int, 32);
            vstd::arithmetic::div_mod::lemma_fundamental_div_mod_converse(
                start as int + 32,
                32,
                start as int / 32 + 1,
                0,
            );
        }
        r.push(w);
        start = start + 32;
    }
    proof {
        vstd::arithmetic::div_mod::lemma_fundamental_div_mod(start as int, 32);
        vstd::arithmetic::div_mod::lemma_fundamental_div_mod_converse(
            bits@.len() as int,
            32,
            start as int / 32,
            bits@.len() - start,
        );
        assert(r@ =~= packed_words(bits@));
    }
    r
}

} // verus!
