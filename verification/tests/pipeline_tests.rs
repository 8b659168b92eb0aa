use pico_qpsk::chips::chip_row;
use pico_qpsk::encode::lengths_to_pio_byte_code_ints;
use pico_qpsk::interleave::{add_middle, add_middle_bits_for_o_qpsk, interleave};
use pico_qpsk::level::{combine_waves, levels_to_ints, Level};
use pico_qpsk::merge::merge_levels;
use pico_qpsk::oversample::{oversample, repeat1, repeat4, repeater};
use pico_qpsk::pack::{pack_bits_into_u32, pack_words};
use pico_qpsk::pipeline::{convert, convert_bytes, EncodeError};
use pico_qpsk::shape::{chips_to_waves, shape_levels, wave_array, wave_levels};
use pico_qpsk::spread::{get_chip_sequences, hex_to_chips, swap};

/// The reference word sequence for hex "00" at chip count 16, oversampling 4,
/// traced once through every stage of the pipeline.
const GOLDEN_00_X4: [u32; 47] = [
    0x1b6db66d, 0xb6db6db6, 0xdbdb6db6, 0xf6db6ded, 0xb6db7b6d, 0xb6f6db6d, 0xb6db6d9b,
    0x6db6cdb6, 0xdb6db6db, 0x6db6db36, 0xdb6d9b6d, 0xb66db6db, 0x6db6db6d, 0xb6db6db6,
    0xdb6db6db, 0x36db6cdb, 0x6db6db6d, 0xb7b6db6d, 0xb6db6cdb, 0x6db6db6d, 0xb6db6db6,
    0x6db6db6d, 0xb6dbdb6d, 0xb6db6db6, 0x6db6d9b6, 0xdb6db6db, 0x6f6db6db, 0xdb6db7b6,
    0xdb6dedb6, 0xdbdb6db6, 0xdb6db66d, 0xb6db36db, 0x6db6db6d, 0xb6db6cdb, 0x6db66db6,
    0xd9b6db6d, 0xb6db6db6, 0xdb6db6db, 0x6db6db6c, 0xdb6db36d, 0xb6db6db6, 0xdedb6db6,
    0xdb6db36d, 0xb6db6db6, 0xdb6db6d9, 0xb6db6db6, 0xdb6f6db6,
];

#[test]
fn encode_hex_00_oversample_4_matches_reference() {
    let words = convert("00", 4).unwrap();
    assert_eq!(words.len(), 47);
    assert_eq!(words, GOLDEN_00_X4.to_vec());
}

#[test]
fn encode_hex_0f_without_oversampling() {
    let words = convert("0f", 1).unwrap();
    let expected: Vec<u32> = vec![
        0x19b336de, 0xdedb6f6f, 0x7b6db6db, 0x7bdb66db, 0xdb6dbdb6, 0x6dbdedb3, 0x666dbdbd,
        0xedef6d9b, 0x36db3666, 0xdb6db6cc, 0xdb7b6cdb,
    ];
    assert_eq!(words, expected);
}

#[test]
fn encode_empty_message_yields_no_words() {
    let words = convert("", 4).unwrap();
    assert!(words.is_empty());
    let bytes: Vec<u8> = Vec::new();
    assert!(convert_bytes(&bytes, 4, 16).is_empty());
}

#[test]
fn encoding_twice_is_byte_identical() {
    let first = convert("a1b2", 4).unwrap();
    let second = convert("a1b2", 4).unwrap();
    assert_eq!(first, second);
    let bytes = vec![0xa1u8, 0xb2];
    assert_eq!(convert_bytes(&bytes, 3, 24), convert_bytes(&bytes, 3, 24));
}

#[test]
fn byte_path_agrees_with_hex_path() {
    let bytes = vec![0x00u8];
    assert_eq!(convert_bytes(&bytes, 4, 16), convert("00", 4).unwrap());
    let bytes = vec![0x0fu8, 0xa7];
    assert_eq!(convert_bytes(&bytes, 2, 16), convert("0fa7", 2).unwrap());
}

#[test]
fn hex_case_does_not_matter() {
    assert_eq!(convert("0F", 4), convert("0f", 4));
    assert_eq!(convert("AbCd", 2), convert("abcd", 2));
}

#[test]
fn odd_length_hex_is_rejected() {
    assert_eq!(convert("0", 1), Err(EncodeError::OddLength));
    assert_eq!(convert("abc", 4), Err(EncodeError::OddLength));
}

#[test]
fn invalid_hex_digit_is_rejected() {
    assert_eq!(convert("0g", 1), Err(EncodeError::InvalidHexDigit));
    assert_eq!(convert("zz", 4), Err(EncodeError::InvalidHexDigit));
    assert_eq!(convert(" 0", 1), Err(EncodeError::InvalidHexDigit));
}

#[test]
fn chip_table_row_zero() {
    assert_eq!(
        chip_row(0),
        vec![3u8, 1, 2, 1, 3, 0, 0, 3, 1, 1, 0, 2, 0, 2, 3, 2]
    );
}

#[test]
fn hex_characters_spread_to_sixteen_chips_each() {
    let chars = vec!['0', 'f'];
    let chips = get_chip_sequences(&chars);
    assert_eq!(chips.len(), 32);
    assert_eq!(chips[..16], chip_row(0)[..]);
    assert_eq!(chips[16..], chip_row(15)[..]);
    assert_eq!(hex_to_chips('F'), chip_row(15));
}

#[test]
fn swap_exchanges_pairs_and_drops_a_trailing_character() {
    assert_eq!(swap(&vec!['a', 'b', 'c', 'd']), vec!['b', 'a', 'd', 'c']);
    assert_eq!(swap(&vec!['a', 'b', 'c']), vec!['b', 'a']);
    assert_eq!(swap(&Vec::new()), Vec::<char>::new());
}

#[test]
fn interleaver_doubles_the_stream() {
    let chips = vec![3u8, 1, 2];
    assert_eq!(interleave(&chips), vec![2u8, 3, 1, 1, 3, 2]);
    assert_eq!(interleave(&Vec::new()), Vec::<u8>::new());
    let chips = vec![0u8, 1, 2, 3, 1, 0];
    assert_eq!(interleave(&chips).len(), 2 * chips.len());
}

#[test]
fn interleaver_skip_drops_exactly_the_first_value() {
    let chips = vec![3u8, 1, 2];
    let full = interleave(&chips);
    let skipped = add_middle_bits_for_o_qpsk(&chips);
    assert_eq!(skipped[..], full[1..]);
    assert_eq!(skipped, vec![3u8, 1, 1, 3, 2]);
}

#[test]
fn add_middle_takes_one_bit_from_each_neighbour() {
    let mut prev = 0b01u8;
    let out = add_middle(&mut prev, 0b10).unwrap();
    assert_eq!(out, [0b11, 0b10]);
    assert_eq!(prev, 0b10);
}

#[test]
fn oversampling_repeats_each_value() {
    assert_eq!(oversample(&vec![1u8, 2], 3), vec![1u8, 1, 1, 2, 2, 2]);
    assert_eq!(oversample(&vec![1u8, 2], 1), vec![1u8, 2]);
    assert_eq!(repeat4(5), vec![5u8, 5, 5, 5]);
    assert_eq!(repeat1(7), vec![7u8]);
    assert_eq!(repeater(0, 9), Vec::<u8>::new());
}

#[test]
fn pulse_shaper_table_at_chip_count_16() {
    assert_eq!(
        chips_to_waves(0b00),
        [Level::Low(4), Level::High(8), Level::Low(4)]
    );
    assert_eq!(
        chips_to_waves(0b01),
        [Level::Low(8), Level::High(8), Level::Nop]
    );
    assert_eq!(
        chips_to_waves(0b10),
        [Level::High(8), Level::Low(8), Level::Nop]
    );
    assert_eq!(
        chips_to_waves(0b11),
        [Level::High(4), Level::Low(8), Level::High(4)]
    );
}

#[test]
fn pulse_shaper_scales_with_the_chip_count() {
    assert_eq!(
        wave_levels(0b00, 24),
        [Level::Low(6), Level::High(12), Level::Low(6)]
    );
    assert_eq!(
        wave_levels(0b11, 24),
        [Level::High(6), Level::Low(12), Level::High(6)]
    );
}

#[test]
fn chip_count_is_validated_at_configuration_time() {
    let table = wave_array(16).unwrap();
    assert_eq!(table[0], chips_to_waves(0));
    assert_eq!(table[1], chips_to_waves(1));
    assert_eq!(table[2], chips_to_waves(2));
    assert_eq!(table[3], chips_to_waves(3));
    assert!(wave_array(10).is_err());
    assert!(wave_array(15).is_err());
    assert!(wave_array(24).is_ok());
}

fn level_duration(l: &Level) -> u32 {
    match l {
        Level::High(d) | Level::Low(d) => *d as u32,
        Level::Nop => 0,
    }
}

#[test]
fn pulse_shaper_conserves_signal_time() {
    for chip2 in 0u8..4 {
        let total: u32 = chips_to_waves(chip2).iter().map(level_duration).sum();
        assert_eq!(total, 16);
        let total24: u32 = wave_levels(chip2, 24).iter().map(level_duration).sum();
        assert_eq!(total24, 24);
        let signal = chips_to_waves(chip2)
            .iter()
            .filter(|l| !matches!(l, Level::Nop))
            .count();
        if chip2 == 0b01 || chip2 == 0b10 {
            assert_eq!(signal, 2);
        } else {
            assert_eq!(signal, 3);
        }
    }
}

#[test]
fn combine_waves_four_quadrant_table() {
    let mut state = Level::High(3);
    assert_eq!(combine_waves(&mut state, Level::High(5)), Some(Level::Nop));
    assert_eq!(state, Level::High(8));

    let mut state = Level::Low(2);
    assert_eq!(combine_waves(&mut state, Level::High(5)), Some(Level::Low(2)));
    assert_eq!(state, Level::High(5));

    let mut state = Level::High(6);
    assert_eq!(combine_waves(&mut state, Level::Low(1)), Some(Level::High(6)));
    assert_eq!(state, Level::Low(1));

    let mut state = Level::Low(2);
    assert_eq!(combine_waves(&mut state, Level::Low(9)), Some(Level::Nop));
    assert_eq!(state, Level::Low(11));

    let mut state = Level::High(6);
    assert_eq!(combine_waves(&mut state, Level::Nop), Some(Level::Nop));
    assert_eq!(state, Level::High(6));
}

#[test]
fn merger_output_alternates_polarity() {
    // two shaped "00" chips then a "10" chip: adjacent same-polarity segments
    // must coalesce across the symbol boundaries
    let levels = shape_levels(&vec![0u8, 0, 2], 16);
    let merged = merge_levels(&levels);
    assert_eq!(merged.len(), levels.len());
    let signals: Vec<Level> = merged
        .into_iter()
        .filter(|l| !matches!(l, Level::Nop))
        .collect();
    assert!(!signals.is_empty());
    for pair in signals.windows(2) {
        let first_high = matches!(pair[0], Level::High(_));
        let second_high = matches!(pair[1], Level::High(_));
        assert_ne!(first_high, second_high);
    }
    // and the coalesced run is the sum of the merged segments
    assert_eq!(
        signals,
        vec![
            Level::Low(4),
            Level::High(8),
            Level::Low(8),
            Level::High(8),
            Level::Low(4),
            Level::High(8)
        ]
    );
}

#[test]
fn clamp_raises_short_durations_to_the_minimum() {
    assert_eq!(levels_to_ints(Level::High(3)), Some(4));
    assert_eq!(levels_to_ints(Level::Low(0)), Some(4));
    assert_eq!(levels_to_ints(Level::High(4)), Some(4));
    assert_eq!(levels_to_ints(Level::Low(7)), Some(7));
    assert_eq!(levels_to_ints(Level::High(255)), Some(255));
    assert_eq!(levels_to_ints(Level::Nop), None);
}

/// The waveform engine's phase semantics: four fixed cycles per phase plus two
/// per `1` bit read before the terminating `0`.
fn engine_phase_cycles(bits: &[u8]) -> u32 {
    let mut ones = 0u32;
    for b in bits {
        if *b == 1 {
            ones += 1;
        } else {
            break;
        }
    }
    4 + 2 * ones
}

#[test]
fn unary_encoder_round_trips_through_engine_semantics() {
    assert_eq!(lengths_to_pio_byte_code_ints(4), vec![0u8]);
    assert_eq!(lengths_to_pio_byte_code_ints(10), vec![1u8, 1, 1, 0]);
    for len in [4u8, 6, 8, 10, 16, 254] {
        let bits = lengths_to_pio_byte_code_ints(len);
        assert_eq!(engine_phase_cycles(&bits), len as u32);
    }
}

#[test]
fn packer_emits_only_full_words() {
    let ones = vec![1u8; 32];
    assert_eq!(pack_words(&ones), vec![0xffff_ffffu32]);

    // a remainder of 1 is dropped
    let mut bits = vec![1u8; 33];
    bits[32] = 1;
    assert_eq!(pack_words(&bits), vec![0xffff_ffffu32]);

    // a remainder of 31 is dropped entirely
    let bits = vec![1u8; 31];
    assert_eq!(pack_words(&bits), Vec::<u32>::new());

    // exactly divisible input loses nothing
    let mut bits = vec![0u8; 64];
    bits[0] = 1;
    bits[63] = 1;
    assert_eq!(pack_words(&bits), vec![0x8000_0000u32, 0x0000_0001]);
}

#[test]
fn packer_is_most_significant_bit_first() {
    let mut bits = vec![0u8; 32];
    bits[0] = 1;
    assert_eq!(pack_bits_into_u32(&bits, 0), 0x8000_0000);
    let mut bits = vec![0u8; 40];
    bits[8] = 1;
    bits[39] = 1;
    assert_eq!(pack_bits_into_u32(&bits, 8), 0x8000_0001);
}
