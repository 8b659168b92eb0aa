use vstd::prelude::*;

use crate::pipeline::{convert_bytes, encoded_words};

verus! {

/// The system-PLL parameters for a processor clock target, as plain values:
/// the VCO frequency in hertz, the reference divider, and the two post
/// dividers. The clock hardware consumes these at board bring-up.
#[derive(Copy, Clone, Debug, PartialEq, Eq, Structural)]
pub struct PllParams {
    pub vco_freq_hz: u32,
    pub refdiv: u8,
    pub post_div1: u8,
    pub post_div2: u8,
}

/// A processor clock target: one of the two tuned profiles, or caller-supplied
/// PLL parameters.
#[derive(Copy, Clone, Debug, PartialEq, Eq, Structural)]
pub enum ProcessorClockConfig {
    Custom(PllParams),
    F128MHz,
    F144MHz,
}

impl ProcessorClockConfig {
    /// The PLL parameters realizing this clock target.
    ///
    /// For 128 MHz: the 12 MHz crystal is multiplied to a 1536 MHz VCO
    /// (within the valid 750-1600 MHz range and as high as possible to
    /// minimize jitter), then divided by 6 and by 2.
    ///
    /// For 144 MHz: a 1440 MHz VCO divided by 5 and by 2.
    pub fn pll(self) -> (r: PllParams)
        ensures
            r == match self {
                ProcessorClockConfig::Custom(p) => p,
                ProcessorClockConfig::F128MHz => PllParams {
                    vco_freq_hz: 1_536_000_000,
                    refdiv: 1,
                    post_div1: 6,
                    post_div2: 2,
                },
                ProcessorClockConfig::F144MHz => PllParams {
                    vco_freq_hz: 1_440_000_000,
                    refdiv: 1,
                    post_div1: 5,
                    post_div2: 2,
                },
            },
    {
        match self {
            ProcessorClockConfig::Custom(pll) => pll,
            ProcessorClockConfig::F128MHz => PllParams {
                vco_freq_hz: 1_536_000_000,
                refdiv: 1,
                post_div1: 6,
                post_div2: 2,
            },
            ProcessorClockConfig::F144MHz => PllParams {
                vco_freq_hz: 1_440_000_000,
                refdiv: 1,
                post_div1: 5,
                post_div2: 2,
            },
        }
    }
}

/// The clock divider asked of the waveform engine's state machine: a fixed
/// point divider, an integer divider, or the full clock untouched.
#[derive(Copy, Clone, Debug, PartialEq, Eq, Structural)]
pub enum StateMachineClockDividerSetting {
    Fixed { integer_part: u16, fractional_part: u8 },
    Integer(u16),
    NoDivider,
}

/// One of the tuned transmit profiles: a processor clock target paired with
/// the oversampling factor and chip count that realize the named frequency
/// offset.
#[derive(Copy, Clone, Debug, PartialEq, Eq, Structural)]
pub enum StandardTransmitOption {
    Clk128MHzOffset8MHz,
    Clk144MHzOffset6MHz,
    Clk128MHzOffset4MHz,
    Clk128MHzOffset2MHz,
}

impl StandardTransmitOption {
    /// The oversampling factor this profile encodes with.
    pub open spec fn spec_oversampling_factor(self) -> u8 {
        match self {
            StandardTransmitOption::Clk128MHzOffset8MHz => 4,
            StandardTransmitOption::Clk144MHzOffset6MHz => 3,
            StandardTransmitOption::Clk128MHzOffset4MHz => 2,
            StandardTransmitOption::Clk128MHzOffset2MHz => 1,
        }
    }

    /// The chip-count parameter this profile shapes pulses with.
    pub open spec fn spec_chip_count(self) -> u8 {
        match self {
            StandardTransmitOption::Clk144MHzOffset6MHz => 24,
            _ => 16,
        }
    }

    /// The divider the engine's state machine runs with under this profile.
    pub fn state_machine_clock(&self) -> (r: StateMachineClockDividerSetting)
        ensures
            r == match self {
                StandardTransmitOption::Clk128MHzOffset8MHz => StateMachineClockDividerSetting::NoDivider,
                StandardTransmitOption::Clk128MHzOffset2MHz => StateMachineClockDividerSetting::Integer(
                    4,
                ),
                StandardTransmitOption::Clk144MHzOffset6MHz => StateMachineClockDividerSetting::NoDivider,
                StandardTransmitOption::Clk128MHzOffset4MHz => StateMachineClockDividerSetting::Integer(
                    2,
                ),
            },
    {
        match self {
            StandardTransmitOption::Clk128MHzOffset8MHz => StateMachineClockDividerSetting::NoDivider,
            StandardTransmitOption::Clk128MHzOffset2MHz => StateMachineClockDividerSetting::Integer(
                4,
            ),
            StandardTransmitOption::Clk144MHzOffset6MHz => StateMachineClockDividerSetting::NoDivider,
            StandardTransmitOption::Clk128MHzOffset4MHz => StateMachineClockDividerSetting::Integer(
                2,
            ),
        }
    }

    /// The processor clock target this profile runs the host at.
    pub fn processor_clock(&self) -> (r: ProcessorClockConfig)
        ensures
            r == match self {
                StandardTransmitOption::Clk144MHzOffset6MHz => ProcessorClockConfig::F144MHz,
                _ => ProcessorClockConfig::F128MHz,
            },
    {
        match self {
            StandardTransmitOption::Clk128MHzOffset8MHz => ProcessorClockConfig::F128MHz,
            StandardTransmitOption::Clk128MHzOffset2MHz => ProcessorClockConfig::F128MHz,
            StandardTransmitOption::Clk144MHzOffset6MHz => ProcessorClockConfig::F144MHz,
            StandardTransmitOption::Clk128MHzOffset4MHz => ProcessorClockConfig::F128MHz,
        }
    }

    /// Encodes a byte message under this profile's oversampling factor and
    /// chip count.
    pub fn convert(&self, message_bytes: &Vec<u8>) -> (r: Vec<u32>)
        requires
            message_bytes@.len() * 768 <= usize::MAX,
        ensures
            r@ == encoded_words(
                message_bytes@,
                self.spec_oversampling_factor(),
                self.spec_chip_count(),
            ),
    {
        proof {
            assert(message_bytes@.len() * 192 * 1 <= message_bytes@.len() * 768
                && message_bytes@.len() * 192 * 2 <= message_bytes@.len() * 768
                && message_bytes@.len() * 192 * 3 <= message_bytes@.len() * 768
                && message_bytes@.len() * 192 * 4 <= message_bytes@.len() * 768)
                by (nonlinear_arith);
        }
        match self {
            StandardTransmitOption::Clk128MHzOffset2MHz => convert_bytes(message_bytes, 1, 16),
            StandardTransmitOption::Clk128MHzOffset8MHz => convert_bytes(message_bytes, 4, 16),
            StandardTransmitOption::Clk144MHzOffset6MHz => convert_bytes(message_bytes, 3, 24),
            StandardTransmitOption::Clk128MHzOffset4MHz => convert_bytes(message_bytes, 2, 16),
        }
    }
}

} // verus!
