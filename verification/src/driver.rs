use vstd::prelude::*;

use crate::command::{
    parse_spec, Command, CommandError, FrequencyOffsetCommandOption, ParsedCommand,
};
use crate::config::StandardTransmitOption;

verus! {

/// The payload length a sequential-packet command uses when none is given.
pub const DEFAULT_PAYLOAD_SIZE: u32 = 4;

/// How many instruction words the transmit driver's buffer holds.
pub const MAX_PACKET_PIO_BUFFER: usize = 4000;

/// What the serial session should do in response to one command line. The
/// session itself performs the action; every decision behind it is made here.
#[derive(Clone, Debug, PartialEq, Eq)]
pub enum ExecutorAction {
    /// Reset the device.
    Restart,
    /// Print the command reference.
    PrintHelp,
    /// Send `number_packets` sequential-payload packets of `payload_size`
    /// bytes, `interval_ms` milliseconds apart.
    SendPackets { interval_ms: u32, number_packets: u32, payload_size: u32 },
    /// Acknowledge the frequency-offset change carried by the new state.
    AnnounceFrequency,
    /// Report an unrecognized command and continue.
    ReportUnknownCommand,
    /// Report a command that could not be read and continue.
    ReportUnknownError,
    /// Report a malformed argument by name and continue.
    ReportArgsError { arg_name: &'static str },
}

/// The transmit profile a frequency-offset choice selects.
pub open spec fn spec_option_for_frequency(f: FrequencyOffsetCommandOption) -> StandardTransmitOption {
    match f {
        FrequencyOffsetCommandOption::F2MHz => StandardTransmitOption::Clk128MHzOffset2MHz,
        FrequencyOffsetCommandOption::F4MHz => StandardTransmitOption::Clk128MHzOffset4MHz,
        FrequencyOffsetCommandOption::F8MHz => StandardTransmitOption::Clk128MHzOffset8MHz,
    }
}

/// One step of the serial command session: reads one line against the command
/// grammar and decides the next transmit profile and the action to perform.
/// Only a well-formed `freq` command changes the profile; a missing payload
/// length falls back to the default; every malformed line leaves the state
/// unchanged and asks for the matching report.
pub fn executor_step(option: StandardTransmitOption, input: &Vec<u8>) -> (r: (
    StandardTransmitOption,
    ExecutorAction,
))
    ensures
        match parse_spec(input@) {
            ParsedCommand::Restart => r == (option, ExecutorAction::Restart),
            ParsedCommand::Help => r == (option, ExecutorAction::PrintHelp),
            ParsedCommand::Ssp { interval_ms, number_packets, payload_length } => r == (
                option,
                ExecutorAction::SendPackets {
                    interval_ms,
                    number_packets,
                    payload_size: payload_length.unwrap_or(DEFAULT_PAYLOAD_SIZE),
                },
            ),
            ParsedCommand::Freq { mhz } => r == (
                spec_option_for_frequency(crate::command::freq_option_of(mhz)),
                ExecutorAction::AnnounceFrequency,
            ),
            ParsedCommand::UnknownCommand => r == (option, ExecutorAction::ReportUnknownCommand),
            ParsedCommand::UnknownError => r == (option, ExecutorAction::ReportUnknownError),
            ParsedCommand::BadArg { which } => r.0 == option && (r.1 matches
                ExecutorAction::ReportArgsError { arg_name } && arg_name@
                == crate::command::arg_name_of(which)),
        },
{
    match Command::from_str(input) {
        Ok(Command::Restart) => (option, ExecutorAction::Restart),
        Ok(Command::Help) => (option, ExecutorAction::PrintHelp),
        Ok(Command::SendSequentialPacket { interval_ms, number_packets, payload_length }) => {
            let payload_size = match payload_length {
                Some(p) => p,
                None => DEFAULT_PAYLOAD_SIZE,
            };
            (option, ExecutorAction::SendPackets { interval_ms, number_packets, payload_size })
        },
        Ok(Command::SetFrequencyOffset { frequency }) => {
            let new_option = match frequency {
                FrequencyOffsetCommandOption::F2MHz => StandardTransmitOption::Clk128MHzOffset2MHz,
                FrequencyOffsetCommandOption::F4MHz => StandardTransmitOption::Clk128MHzOffset4MHz,
                FrequencyOffsetCommandOption::F8MHz => StandardTransmitOption::Clk128MHzOffset8MHz,
            };
            (new_option, ExecutorAction::AnnounceFrequency)
        },
        Err(CommandError::UnknownCommand(_)) => (option, ExecutorAction::ReportUnknownCommand),
        Err(CommandError::UnknownError) => (option, ExecutorAction::ReportUnknownError),
        Err(CommandError::ArgsError { arg_name }) => (
            option,
            ExecutorAction::ReportArgsError { arg_name },
        ),
    }
}

/// The sequential test payload: `size` bytes counting up from zero, wrapping
/// at 256.
pub fn sequential_payload(size: usize) -> (r: Vec<u8>)
    ensures
        r@.len() == size,
        forall|i: int| 0 <= i < size ==> r@[i] == (i % 256) as u8,
{
    let mut r: Vec<u8> = Vec::new();
    let mut i: usize = 0;
    while i < size
        invariant
            i <= size,
            r@.len() == i,
            forall|k: int| 0 <= k < i ==> r@[k] == (k % 256) as u8,
        decreases size - i,
    {
        r.push((i % 256) as u8);
        i = i + 1;
    }
    r
}

/// Capacity check before transmission: how many instruction words beyond the
/// driver's buffer an encoding produced, if any. The overrun is surfaced as a
/// warning, never dropped silently.
pub fn check_packet_size(word_count: usize, capacity: usize) -> (excess: Option<usize>)
    ensures
        excess is Some <==> word_count > capacity,
        word_count > capacity ==> excess == Some((word_count - capacity) as usize),
{
    if word_count > capacity {
        Some(word_count - capacity)
    } else {
        None
    }
}

/// Fills the bounded transmit buffer: at most `capacity` leading words are
/// kept, the rest are truncated away.
pub fn fill_transmit_buffer(words: &Vec<u32>, capacity: usize) -> (buf: Vec<u32>)
    ensures
        buf@ == if words@.len() <= capacity {
            words@
        } else {
            words@.take(capacity as int)
        },
{
    let count = if words.len() <= capacity {
        words.len()
    } else {
        capacity
    };
    let mut buf: Vec<u32> = Vec::new();
    let mut i: usize = 0;
    while i < count
        invariant
            i <= count,
            count <= words@.len(),
            buf@ == words@.take(i as int),
        decreases count - i,
    {
        buf.push(words[i]);
        proof {
            assert(buf@ =~= words@.take(i + 1));
        }
        i = i + 1;
    }
    proof {
        assert(words@.take(words@.len() as int) =~= words@);
    }
    buf
}

} // verus!
