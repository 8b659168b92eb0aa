use pico_qpsk::config::{
    PllParams, ProcessorClockConfig, StandardTransmitOption, StateMachineClockDividerSetting,
};
use pico_qpsk::driver::{
    check_packet_size, executor_step, fill_transmit_buffer, sequential_payload, ExecutorAction,
    MAX_PACKET_PIO_BUFFER,
};
use pico_qpsk::pipeline::convert_bytes;

#[test]
fn transmit_profiles_select_their_dividers() {
    assert_eq!(
        StandardTransmitOption::Clk128MHzOffset8MHz.state_machine_clock(),
        StateMachineClockDividerSetting::NoDivider
    );
    assert_eq!(
        StandardTransmitOption::Clk144MHzOffset6MHz.state_machine_clock(),
        StateMachineClockDividerSetting::NoDivider
    );
    assert_eq!(
        StandardTransmitOption::Clk128MHzOffset4MHz.state_machine_clock(),
        StateMachineClockDividerSetting::Integer(2)
    );
    assert_eq!(
        StandardTransmitOption::Clk128MHzOffset2MHz.state_machine_clock(),
        StateMachineClockDividerSetting::Integer(4)
    );
}

#[test]
fn transmit_profiles_select_their_processor_clocks() {
    assert_eq!(
        StandardTransmitOption::Clk144MHzOffset6MHz.processor_clock(),
        ProcessorClockConfig::F144MHz
    );
    assert_eq!(
        StandardTransmitOption::Clk128MHzOffset8MHz.processor_clock(),
        ProcessorClockConfig::F128MHz
    );
    assert_eq!(
        ProcessorClockConfig::F128MHz.pll(),
        PllParams { vco_freq_hz: 1_536_000_000, refdiv: 1, post_div1: 6, post_div2: 2 }
    );
    assert_eq!(
        ProcessorClockConfig::F144MHz.pll(),
        PllParams { vco_freq_hz: 1_440_000_000, refdiv: 1, post_div1: 5, post_div2: 2 }
    );
    let custom = PllParams { vco_freq_hz: 1_200_000_000, refdiv: 1, post_div1: 5, post_div2: 1 };
    assert_eq!(ProcessorClockConfig::Custom(custom).pll(), custom);
}

#[test]
fn transmit_profiles_encode_with_their_parameters() {
    let msg = vec![0x00u8];
    assert_eq!(
        StandardTransmitOption::Clk128MHzOffset8MHz.convert(&msg),
        convert_bytes(&msg, 4, 16)
    );
    let two = StandardTransmitOption::Clk128MHzOffset2MHz.convert(&msg);
    let expected: Vec<u32> = vec![
        0x19b6f6f7, 0xb7bdb66c, 0xdb6cd99b, 0x6db6db33, 0x6dedb36d, 0xb66dbdb6, 0x66dbdbde,
        0xdef6d9b3, 0x6db3666d, 0xb6db6ccd, 0xb7b6cdb6,
    ];
    assert_eq!(two, expected);
    assert_eq!(StandardTransmitOption::Clk144MHzOffset6MHz.convert(&msg).len(), 58);
    assert_eq!(StandardTransmitOption::Clk128MHzOffset4MHz.convert(&msg).len(), 23);
}

#[test]
fn executor_keeps_state_except_on_freq() {
    let base = StandardTransmitOption::Clk128MHzOffset8MHz;
    let (state, action) = executor_step(base, &b"help".to_vec());
    assert_eq!(state, base);
    assert_eq!(action, ExecutorAction::PrintHelp);

    let (state, action) = executor_step(base, &b"freq 2".to_vec());
    assert_eq!(state, StandardTransmitOption::Clk128MHzOffset2MHz);
    assert_eq!(action, ExecutorAction::AnnounceFrequency);

    let (state, action) = executor_step(state, &b"nonsense".to_vec());
    assert_eq!(state, StandardTransmitOption::Clk128MHzOffset2MHz);
    assert_eq!(action, ExecutorAction::ReportUnknownCommand);

    let (_, action) = executor_step(base, &b"restart".to_vec());
    assert_eq!(action, ExecutorAction::Restart);
}

#[test]
fn executor_defaults_the_payload_size() {
    let base = StandardTransmitOption::Clk128MHzOffset8MHz;
    let (_, action) = executor_step(base, &b"ssp 100 10".to_vec());
    assert_eq!(
        action,
        ExecutorAction::SendPackets { interval_ms: 100, number_packets: 10, payload_size: 4 }
    );
    let (_, action) = executor_step(base, &b"ssp 1s 2 9".to_vec());
    assert_eq!(
        action,
        ExecutorAction::SendPackets { interval_ms: 1000, number_packets: 2, payload_size: 9 }
    );
    let (_, action) = executor_step(base, &b"ssp zz 2".to_vec());
    assert_eq!(action, ExecutorAction::ReportArgsError { arg_name: "interval_ms" });
}

#[test]
fn sequential_payload_counts_up_and_wraps() {
    assert_eq!(sequential_payload(5), vec![0u8, 1, 2, 3, 4]);
    let long = sequential_payload(258);
    assert_eq!(long.len(), 258);
    assert_eq!(long[255], 255);
    assert_eq!(long[256], 0);
    assert_eq!(long[257], 1);
}

#[test]
fn capacity_overrun_is_surfaced_not_dropped() {
    assert_eq!(check_packet_size(MAX_PACKET_PIO_BUFFER, MAX_PACKET_PIO_BUFFER), None);
    assert_eq!(check_packet_size(4001, MAX_PACKET_PIO_BUFFER), Some(1));
    assert_eq!(check_packet_size(0, MAX_PACKET_PIO_BUFFER), None);
}

#[test]
fn transmit_buffer_truncates_at_capacity() {
    let words = vec![1u32, 2, 3, 4, 5];
    assert_eq!(fill_transmit_buffer(&words, 3), vec![1u32, 2, 3]);
    assert_eq!(fill_transmit_buffer(&words, 5), words);
    assert_eq!(fill_transmit_buffer(&words, 9), words);
    assert_eq!(fill_transmit_buffer(&words, 0), Vec::<u32>::new());
}
