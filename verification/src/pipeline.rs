use vstd::prelude::*;

use crate::encode::{lengths_to_pio_byte_code_ints, unary_bits};
use crate::interleave::{add_middle_bits_for_o_qpsk, lemma_interleaved_bounds, offset_chips};
use crate::level::{clamped, levels_to_ints, Level};
use crate::merge::{lemma_shaped_bounded, merge_emits, merge_levels, runs_of, seed_run, Run};
use crate::oversample::{lemma_oversampled_bounds, oversample, oversampled};
use crate::pack::{all_bits, pack_words, packed_words};
use crate::shape::{shape_levels, shaped};
use crate::spread::{
    chips_of, get_chip_sequences, hex_digit_value, hex_value, is_hex_digit, lemma_chips_of_bounds,
    nibbles_of, nibbles_of_bytes, spread_nibbles, swap, swapped,
};
use vstd::string::StrSliceExecFns;

verus! {

/// Why an encoding call rejected its input.
#[derive(Copy, Clone, Debug, PartialEq, Eq, Structural)]
pub enum EncodeError {
    /// A hex message needs two characters per byte.
    OddLength,
    /// A character outside `[0-9a-fA-F]`.
    InvalidHexDigit,
}

/// The minimum-pulse-clamped durations of a run sequence.
pub open spec fn clamped_durations(runs: Seq<Run>) -> Seq<u8> {
    runs.map_values(|r: Run| clamped(r.dur) as u8)
}

/// The run-length program of a duration stream: each duration unary-encoded in
/// order.
pub open spec fn program_bits(durs: Seq<u8>) -> Seq<u8>
    decreases durs.len(),
{
    if durs.len() == 0 {
        Seq::empty()
    } else {
        program_bits(durs.drop_last()) + unary_bits(durs.last() as int)
    }
}

/// The encoding pipeline from a chip stream on: interleave for O-QPSK and drop
/// the first emitted value, oversample, shape into level patterns, coalesce
/// into alternating polarity runs, clamp to the four-cycle hardware minimum,
/// unary-encode behind a single synthetic leading zero bit, and pack into full
/// 32-bit words.
pub open spec fn words_from_chips(chips: Seq<u8>, factor: u8, chip_count: u8) -> Seq<u32> {
    let offset = offset_chips(chips);
    let ov = oversampled(offset, factor as int);
    let levels = shaped(ov, chip_count);
    let runs = merge_emits(levels, seed_run());
    let bits = seq![0u8] + program_bits(clamped_durations(runs));
    packed_words(bits)
}

/// The instruction words for a nibble stream: each nibble spread to its
/// 16-chip table row, then encoded.
pub open spec fn words_from_nibbles(nibbles: Seq<u8>, factor: u8, chip_count: u8) -> Seq<u32> {
    words_from_chips(chips_of(nibbles), factor, chip_count)
}

/// The instruction words for a byte message.
pub open spec fn encoded_words(message: Seq<u8>, factor: u8, chip_count: u8) -> Seq<u32> {
    words_from_nibbles(nibbles_of(message), factor, chip_count)
}

/// The instruction words for an even-length hex-character message: characters
/// are taken pairwise with each pair swapped, then spread as nibbles.
pub open spec fn hex_encoded_words(s: Seq<char>, factor: u8) -> Seq<u32> {
    words_from_nibbles(swapped(s).map_values(|c: char| hex_value(c) as u8), factor, 16)
}

/// An empty message encodes to an empty word sequence: the only bit produced
/// is the synthetic leading zero, which never completes a word, so no trailing
/// garbage word is emitted.
pub proof fn lemma_empty_message_encodes_empty(factor: u8, chip_count: u8)
    ensures
        encoded_words(Seq::empty(), factor, chip_count) == Seq::<u32>::empty(),
{
    let nibs = nibbles_of(Seq::empty());
    assert(nibs =~= Seq::<u8>::empty());
    let chips = chips_of(nibs);
    assert(chips =~= Seq::<u8>::empty());
    let offset = offset_chips(chips);
    assert(offset =~= Seq::<u8>::empty());
    let ov = oversampled(offset, factor as int);
    assert(ov =~= Seq::<u8>::empty());
    let levels = shaped(ov, chip_count);
    let runs = merge_emits(levels, seed_run());
    assert(clamped_durations(runs) =~= Seq::<u8>::empty());
    let bits = seq![0u8] + program_bits(clamped_durations(runs));
    assert(bits.len() == 1);
    assert(packed_words(bits) =~= Seq::<u32>::empty());
}

/// Restartability: the pipeline is a pure function of the message and the
/// configuration — no hidden state survives a traversal — so encoding the same
/// message twice yields byte-identical words.
pub proof fn lemma_encoding_restartable(
    w1: Seq<u32>,
    w2: Seq<u32>,
    message: Seq<u8>,
    factor: u8,
    chip_count: u8,
)
    requires
        w1 == encoded_words(message, factor, chip_count),
        w2 == encoded_words(message, factor, chip_count),
    ensures
        w1 == w2,
{
}

/// The clamping stage: keeps the finished runs of the merged stream, each
/// raised to the four-cycle minimum.
pub fn clamp_levels(merged: &Vec<Level>) -> (r: Vec<u8>)
    ensures
        r@ == clamped_durations(runs_of(merged@)),
        forall|i: int| 0 <= i < r@.len() ==> 4 <= #[trigger] r@[i],
{
    let mut r: Vec<u8> = Vec::new();
    let mut i: usize = 0;
    while i < merged.len()
        invariant
            i <= merged@.len(),
            r@ == clamped_durations(runs_of(merged@.take(i as int))),
            forall|k: int| 0 <= k < r@.len() ==> 4 <= #[trigger] r@[k],
        decreases merged@.len() - i,
    {
        proof {
            assert(merged@.take(i + 1).drop_last() =~= merged@.take(i as int));
        }
        match levels_to_ints(merged[i]) {
            Some(d) => {
                r.push(d);
            }
            None => {}
        }
        proof {
            assert(r@ =~= clamped_durations(runs_of(merged@.take(i + 1))));
        }
        i = i + 1;
    }
    proof {
        assert(merged@.take(merged@.len() as int) =~= merged@);
    }
    r
}

/// The unary-encoding stage: the synthetic leading zero, then the run-length
/// program of every clamped duration in order. Every element is a bit.
pub fn program_stream(durs: &Vec<u8>) -> (r: Vec<u8>)
    requires
        forall|i: int| 0 <= i < durs@.len() ==> 4 <= #[trigger] durs@[i],
    ensures
        r@ == seq![0u8] + program_bits(durs@),
        all_bits(r@),
{
    let mut r: Vec<u8> = Vec::new();
    r.push(0);
    let mut i: usize = 0;
    while i < durs.len()
        invariant
            i <= durs@.len(),
            forall|k: int| 0 <= k < durs@.len() ==> 4 <= #[trigger] durs@[k],
            r@ == seq![0u8] + program_bits(durs@.take(i as int)),
            all_bits(r@),
        decreases durs@.len() - i,
    {
        let mut bits = lengths_to_pio_byte_code_ints(durs[i]);
        proof {
            assert(durs@.take(i + 1).drop_last() =~= durs@.take(i as int));
            assert forall|k: int| 0 <= k < bits@.len() implies bits@[k] <= 1 by {
                assert(bits@ == unary_bits(durs@[i as int] as int));
            }
        }
        r.append(&mut bits);
        proof {
            assert(r@ =~= seq![0u8] + program_bits(durs@.take(i + 1)));
        }
        i = i + 1;
    }
    proof {
        assert(durs@.take(durs@.len() as int) =~= durs@);
    }
    r
}

/// Encodes a chip stream into the waveform engine's instruction words.
fn words_of_chips(chips: &Vec<u8>, factor: u8, chip_count: u8) -> (r: Vec<u32>)
    requires
        factor >= 1,
        chip_count % 4 == 0,
        forall|i: int| 0 <= i < chips@.len() ==> chips@[i] < 4,
        chips@.len() * 6 * (factor as int) <= usize::MAX,
    ensures
        r@ == words_from_chips(chips@, factor, chip_count),
{
    proof {
        assert(chips@.len() * 2 <= chips@.len() * 6 * (factor as int) || chips@.len() == 0)
            by (nonlinear_arith)
            requires
                factor >= 1,
        ;
    }
    let offset = add_middle_bits_for_o_qpsk(chips);
    proof {
        lemma_interleaved_bounds(chips@);
        assert(offset@.len() * (factor as int) * 3 <= (chips@.len() * 2) * (factor as int) * 3
            && (chips@.len() * 2) * (factor as int) * 3 == chips@.len() * 6 * (factor as int))
            by (nonlinear_arith)
            requires
                offset@.len() <= chips@.len() * 2,
        ;
    }
    let ov = oversample(&offset, factor);
    proof {
        lemma_oversampled_bounds(offset@, factor as int);
        assert(ov@.len() * 3 <= usize::MAX);
    }
    let levels = shape_levels(&ov, chip_count);
    proof {
        lemma_shaped_bounded(ov@, chip_count);
    }
    let merged = merge_levels(&levels);
    let durs = clamp_levels(&merged);
    let bits = program_stream(&durs);
    pack_words(&bits)
}

/// Encodes a byte message: nibbles are spread low nibble first, matching the
/// endianness convention of the hex-string path.
pub fn convert_bytes(message: &Vec<u8>, factor: u8, chip_count: u8) -> (r: Vec<u32>)
    requires
        factor >= 1,
        chip_count % 4 == 0,
        message@.len() * 192 * (factor as int) <= usize::MAX,
    ensures
        r@ == encoded_words(message@, factor, chip_count),
{
    proof {
        assert(message@.len() * 2 <= message@.len() * 192 * (factor as int) && (message@.len()
            * 2) * 16 <= message@.len() * 192 * (factor as int)) by (nonlinear_arith)
            requires
                factor >= 1,
        ;
    }
    let nibbles = nibbles_of_bytes(message);
    let chips = spread_nibbles(&nibbles);
    proof {
        lemma_chips_of_bounds(nibbles@);
        assert((message@.len() * 2 * 16) * 6 * (factor as int) == message@.len() * 192 * (factor
            as int)) by (nonlinear_arith);
    }
    words_of_chips(&chips, factor, chip_count)
}

/// Encodes an even-length hex-character message at the default chip count of
/// 16. Returns a typed error — never a partial encoding — on an odd-length
/// string or on any character outside `[0-9a-fA-F]`.
pub fn convert(s: &str, factor: u8) -> (r: Result<Vec<u32>, EncodeError>)
    requires
        factor >= 1,
        s@.len() * 96 * (factor as int) <= usize::MAX,
    ensures
        r is Ok <==> s@.len() % 2 == 0 && (forall|i: int|
            0 <= i < s@.len() ==> is_hex_digit(#[trigger] s@[i])),
        s@.len() % 2 != 0 ==> r == Result::<Vec<u32>, EncodeError>::Err(EncodeError::OddLength),
        (s@.len() % 2 == 0 && !(forall|i: int|
            0 <= i < s@.len() ==> is_hex_digit(#[trigger] s@[i]))) ==> r == Result::<
            Vec<u32>,
            EncodeError,
        >::Err(EncodeError::InvalidHexDigit),
        r matches Ok(words) ==> words@ == hex_encoded_words(s@, factor),
{
    let n = s.unicode_len();
    if n % 2 != 0 {
        return Err(EncodeError::OddLength);
    }
    let mut chars: Vec<char> = Vec::new();
    let mut i: usize = 0;
    while i < n
        invariant
            i <= n,
            n == s@.len(),
            n % 2 == 0,
            chars@ == s@.take(i as int),
            forall|k: int| 0 <= k < i ==> is_hex_digit(#[trigger] s@[k]),
        decreases n - i,
    {
        let c = s.get_char(i);
        if hex_digit_value(c).is_none() {
            return Err(EncodeError::InvalidHexDigit);
        }
        chars.push(c);
        proof {
            assert(chars@ =~= s@.take(i + 1));
        }
        i = i + 1;
    }
    proof {
        assert(chars@ =~= s@);
    }
    let swapped_chars = swap(&chars);
    proof {
        assert(swapped_chars@.len() * 16 <= s@.len() * 16) by (nonlinear_arith)
            requires
                swapped_chars@.len() <= s@.len(),
        ;
        assert(s@.len() * 16 <= s@.len() * 96 * (factor as int)) by (nonlinear_arith)
            requires
                factor >= 1,
        ;
    }
    let chip_stream = get_chip_sequences(&swapped_chars);
    proof {
        assert(chip_stream@.len() * 6 * (factor as int) <= (s@.len() * 16) * 6 * (factor as int)
            && (s@.len() * 16) * 6 * (factor as int) == s@.len() * 96 * (factor as int))
            by (nonlinear_arith)
            requires
                chip_stream@.len() <= s@.len() * 16,
                factor >= 1,
        ;
        crate::spread::lemma_chips_of_bounds(
            swapped_chars@.map_values(|c: char| hex_value(c) as u8),
        );
    }
    let words = words_of_chips(&chip_stream, factor, 16);
    Ok(words)
}

} // verus!
