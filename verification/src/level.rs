use vstd::prelude::*;

verus! {

/// One piecewise-constant segment of the synthesized waveform: the output pin
/// held high or low for a number of engine cycles, or a no-op placeholder that
/// carries no signal time and is dropped downstream.
#[derive(Copy, Clone, Debug, PartialEq, Eq, Structural)]
pub enum Level {
    High(u8),
    Low(u8),
    Nop,
}

/// Whether a level drives the output pin high. `Nop` carries no polarity;
/// callers guard with `is_signal`.
pub open spec fn is_high(l: Level) -> bool {
    l is High
}

/// Whether a level carries signal time at all (`High` or `Low`, not `Nop`).
pub open spec fn is_signal(l: Level) -> bool {
    !(l is Nop)
}

/// The duration of a level in engine cycles; a `Nop` has none.
pub open spec fn duration(l: Level) -> int {
    match l {
        Level::High(d) => d as int,
        Level::Low(d) => d as int,
        Level::Nop => 0,
    }
}

/// The state the run merger carries after absorbing one more level, per the
/// four-quadrant merge table: equal polarities add their durations, a polarity
/// change replaces the state, and `Nop` leaves it untouched.
pub open spec fn combined_state(state: Level, next: Level) -> Level {
    match next {
        Level::High(n) => match state {
            Level::High(m) => Level::High((n + m) as u8),
            Level::Low(_) => next,
            Level::Nop => state,
        },
        Level::Low(n) => match state {
            Level::Low(m) => Level::Low((n + m) as u8),
            Level::High(_) => next,
            Level::Nop => state,
        },
        Level::Nop => state,
    }
}

/// What the run merger emits while absorbing one more level: the old state
/// exactly when the polarity changes, a `Nop` otherwise.
pub open spec fn combined_emit(state: Level, next: Level) -> Level {
    match next {
        Level::High(_) => match state {
            Level::Low(_) => state,
            _ => Level::Nop,
        },
        Level::Low(_) => match state {
            Level::High(_) => state,
            _ => Level::Nop,
        },
        Level::Nop => Level::Nop,
    }
}

/// True when absorbing `next` into `state` cannot overflow the 8-bit duration:
/// only a same-polarity merge adds durations.
pub open spec fn combine_fits(state: Level, next: Level) -> bool {
    match (state, next) {
        (Level::High(m), Level::High(n)) => m + n <= u8::MAX,
        (Level::Low(m), Level::Low(n)) => m + n <= u8::MAX,
        _ => true,
    }
}

/// One step of the run merger: coalesces `next` into the carried accumulator
/// and returns what this step emits (the finished run on a polarity change,
/// otherwise `Nop`).
pub fn combine_waves(state: &mut Level, next: Level) -> (emitted: Option<Level>)
    requires
        combine_fits(*old(state), next),
    ensures
        *final(state) == combined_state(*old(state), next),
        emitted == Some(combined_emit(*old(state), next)),
{
    match next {
        Level::High(next_len) => {
            match state {
                Level::High(state_len) => {
                    // same polarity: keep accumulating, nothing is finished yet
                    *state = Level::High(next_len + *state_len);
                    Some(Level::Nop)
                }
                Level::Low(_) => {
                    // polarity change: the accumulated low run is complete
                    let temp = Some(*state);
                    *state = next;
                    temp
                }
                Level::Nop => Some(Level::Nop),
            }
        }
        Level::Low(next_len) => {
            match state {
                Level::Low(state_len) => {
                    *state = Level::Low(next_len + *state_len);
                    Some(Level::Nop)
                }
                Level::High(_) => {
                    let temp = Some(*state);
                    *state = next;
                    temp
                }
                Level::Nop => Some(Level::Nop),
            }
        }
        Level::Nop => Some(Level::Nop),
    }
}

/// The duration the hardware is asked to hold a finished run: never below the
/// minimum sustained pulse width of four cycles.
pub open spec fn clamped(d: int) -> int {
    if d > 4 {
        d
    } else {
        4
    }
}

/// Minimum-pulse clamp: a finished `High` or `Low` run yields its duration,
/// raised to the four-cycle hardware minimum; a `Nop` yields nothing.
pub fn levels_to_ints(o: Level) -> (r: Option<u8>)
    ensures
        match o {
            Level::High(v) => r == Some((clamped(v as int)) as u8),
            Level::Low(v) => r == Some((clamped(v as int)) as u8),
            Level::Nop => r is None,
        },
{
    match o {
        Level::Low(v) | Level::High(v) => {
            // the very first run can be shorter than the hardware minimum
            // (it starts from the merger's zero-length seed)
            if v > 4 {
                Some(v)
            } else {
                Some(4)
            }
        }
        Level::Nop => None,
    }
}

} // verus!
