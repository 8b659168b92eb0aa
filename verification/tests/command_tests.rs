use pico_qpsk::command::{
    parse_u32_token, tokenize, Command, CommandError, FrequencyOffsetCommandOption,
};

#[test]
fn tokenizer_splits_on_whitespace_runs() {
    let line = b"ssp  1s\t1000 5".to_vec();
    let toks = tokenize(&line);
    assert_eq!(
        toks,
        vec![b"ssp".to_vec(), b"1s".to_vec(), b"1000".to_vec(), b"5".to_vec()]
    );
    assert_eq!(tokenize(&b"   ".to_vec()), Vec::<Vec<u8>>::new());
    assert_eq!(tokenize(&Vec::new()), Vec::<Vec<u8>>::new());
}

#[test]
fn tokenizer_reads_bytes_as_one_byte_characters() {
    // 0xa0 and 0x85 are whitespace under the byte-per-character reading
    let line = b"help\xa0".to_vec();
    assert_eq!(Command::from_str(&line), Ok(Command::Help));
    let line = b"ssp\x8510 2".to_vec();
    assert_eq!(
        Command::from_str(&line),
        Ok(Command::SendSequentialPacket {
            interval_ms: 10,
            number_packets: 2,
            payload_length: None,
        })
    );
}

#[test]
fn u32_tokens_follow_rust_parsing() {
    assert_eq!(parse_u32_token(b"0"), Some(0));
    assert_eq!(parse_u32_token(b"+42"), Some(42));
    assert_eq!(parse_u32_token(b"4294967295"), Some(u32::MAX));
    assert_eq!(parse_u32_token(b"4294967296"), None);
    assert_eq!(parse_u32_token(b"99999999999999999999"), None);
    assert_eq!(parse_u32_token(b""), None);
    assert_eq!(parse_u32_token(b"+"), None);
    assert_eq!(parse_u32_token(b"12a"), None);
    assert_eq!(parse_u32_token(b"-1"), None);
}

#[test]
fn restart_and_help_commands() {
    assert_eq!(Command::from_str(&b"restart".to_vec()), Ok(Command::Restart));
    assert_eq!(Command::from_str(&b"  help ".to_vec()), Ok(Command::Help));
}

#[test]
fn ssp_accepts_the_three_interval_forms() {
    assert_eq!(
        Command::from_str(&b"ssp 100 10".to_vec()),
        Ok(Command::SendSequentialPacket {
            interval_ms: 100,
            number_packets: 10,
            payload_length: None,
        })
    );
    assert_eq!(
        Command::from_str(&b"ssp 250ms 3 7".to_vec()),
        Ok(Command::SendSequentialPacket {
            interval_ms: 250,
            number_packets: 3,
            payload_length: Some(7),
        })
    );
    assert_eq!(
        Command::from_str(&b"ssp 1s 1000 5".to_vec()),
        Ok(Command::SendSequentialPacket {
            interval_ms: 1000,
            number_packets: 1000,
            payload_length: Some(5),
        })
    );
}

#[test]
fn ssp_interval_errors_are_named_by_form() {
    assert_eq!(
        Command::from_str(&b"ssp abc 1".to_vec()),
        Err(CommandError::ArgsError { arg_name: "interval_ms" })
    );
    assert_eq!(
        Command::from_str(&b"ssp 9xms 1".to_vec()),
        Err(CommandError::ArgsError { arg_name: "interval_ms ms" })
    );
    assert_eq!(
        Command::from_str(&b"ssp 9xs 1".to_vec()),
        Err(CommandError::ArgsError { arg_name: "interval_ms s" })
    );
    // seconds whose millisecond value cannot fit are malformed
    assert_eq!(
        Command::from_str(&b"ssp 4294968s 1".to_vec()),
        Err(CommandError::ArgsError { arg_name: "interval_ms s" })
    );
    // the largest interval that still fits
    assert_eq!(
        Command::from_str(&b"ssp 4294967s 1".to_vec()),
        Ok(Command::SendSequentialPacket {
            interval_ms: 4_294_967_000,
            number_packets: 1,
            payload_length: None,
        })
    );
}

#[test]
fn ssp_count_and_payload_errors() {
    assert_eq!(
        Command::from_str(&b"ssp 10".to_vec()),
        Err(CommandError::UnknownError)
    );
    assert_eq!(
        Command::from_str(&b"ssp 10 abc".to_vec()),
        Err(CommandError::ArgsError { arg_name: "number_packets" })
    );
    // a malformed payload is reported under the count's name
    assert_eq!(
        Command::from_str(&b"ssp 10 5 x".to_vec()),
        Err(CommandError::ArgsError { arg_name: "number_packets" })
    );
    assert_eq!(
        Command::from_str(&b"ssp 10 5 1001".to_vec()),
        Err(CommandError::ArgsError { arg_name: "payload_length" })
    );
    assert_eq!(
        Command::from_str(&b"ssp 10 5 1000".to_vec()),
        Ok(Command::SendSequentialPacket {
            interval_ms: 10,
            number_packets: 5,
            payload_length: Some(1000),
        })
    );
}

#[test]
fn freq_accepts_each_spelling() {
    assert_eq!(
        Command::from_str(&b"freq 2".to_vec()),
        Ok(Command::SetFrequencyOffset { frequency: FrequencyOffsetCommandOption::F2MHz })
    );
    assert_eq!(
        Command::from_str(&b"freq 4mhz".to_vec()),
        Ok(Command::SetFrequencyOffset { frequency: FrequencyOffsetCommandOption::F4MHz })
    );
    assert_eq!(
        Command::from_str(&b"freq 8MHz".to_vec()),
        Ok(Command::SetFrequencyOffset { frequency: FrequencyOffsetCommandOption::F8MHz })
    );
    assert_eq!(
        Command::from_str(&b"freq 3".to_vec()),
        Err(CommandError::ArgsError { arg_name: "frequency" })
    );
    assert_eq!(
        Command::from_str(&b"freq".to_vec()),
        Err(CommandError::UnknownError)
    );
}

#[test]
fn unknown_lines_report_the_whole_input() {
    assert_eq!(
        Command::from_str(&b"bogus 1 2".to_vec()),
        Err(CommandError::UnknownCommand(b"bogus 1 2".to_vec()))
    );
    assert_eq!(Command::from_str(&Vec::new()), Err(CommandError::UnknownError));
}

#[test]
fn frequency_option_parser_returns_the_callers_error() {
    let err = CommandError::ArgsError { arg_name: "frequency" };
    assert_eq!(
        FrequencyOffsetCommandOption::parse_from_str(&b"2mhz".to_vec(), err.clone()),
        Ok(FrequencyOffsetCommandOption::F2MHz)
    );
    assert_eq!(
        FrequencyOffsetCommandOption::parse_from_str(&b"7".to_vec(), err.clone()),
        Err(err)
    );
}
