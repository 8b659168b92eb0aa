use vstd::prelude::*;

use vstd::slice::{slice_index_get, slice_subrange};

verus! {

/// The bytes that separate tokens on the command line: the byte values whose
/// one-byte-per-character reading Rust counts as whitespace.
pub open spec fn is_space(b: u8) -> bool {
    b == 0x09 || b == 0x0a || b == 0x0b || b == 0x0c || b == 0x0d || b == 0x20 || b == 0x85 || b
        == 0xa0
}

/// The longest space-free prefix of a byte stream.
pub open spec fn token_prefix(s: Seq<u8>) -> Seq<u8>
    decreases s.len(),
{
    if s.len() == 0 || is_space(s.first()) {
        Seq::empty()
    } else {
        seq![s.first()] + token_prefix(s.drop_first())
    }
}

/// A token is at most the stream, and nonempty when the stream starts with a
/// non-space byte.
pub proof fn lemma_token_prefix_len(s: Seq<u8>)
    ensures
        token_prefix(s).len() <= s.len(),
        s.len() > 0 && !is_space(s.first()) ==> token_prefix(s).len() >= 1,
    decreases s.len(),
{
    if s.len() > 0 && !is_space(s.first()) {
        lemma_token_prefix_len(s.drop_first());
    }
}

/// The whitespace-separated tokens of a command line, in order.
pub open spec fn tokens(s: Seq<u8>) -> Seq<Seq<u8>>
    decreases s.len(),
    via tokens_decreases
{
    if s.len() == 0 {
        Seq::empty()
    } else if is_space(s.first()) {
        tokens(s.drop_first())
    } else {
        seq![token_prefix(s)] + tokens(s.skip(token_prefix(s).len() as int))
    }
}

#[via_fn]
proof fn tokens_decreases(s: Seq<u8>) {
    if s.len() > 0 && !is_space(s.first()) {
        lemma_token_prefix_len(s);
    }
}

/// An ASCII decimal digit.
pub open spec fn is_digit(b: u8) -> bool {
    0x30 <= b <= 0x39
}

/// The decimal value of a digit string.
pub open spec fn digits_value(ds: Seq<u8>) -> int
    decreases ds.len(),
{
    if ds.len() == 0 {
        0
    } else {
        10 * digits_value(ds.drop_last()) + (ds.last() - 0x30)
    }
}

/// The part of a numeric token after an optional leading plus sign, mirroring
/// what Rust's unsigned integer parsing accepts.
pub open spec fn numeric_body(t: Seq<u8>) -> Seq<u8> {
    if t.len() >= 1 && t.first() == 0x2b {
        t.drop_first()
    } else {
        t
    }
}

/// Whether a token parses as a `u32`: an optional plus sign, then at least one
/// digit and nothing else, with a value that fits.
pub open spec fn is_valid_u32(t: Seq<u8>) -> bool {
    let body = numeric_body(t);
    body.len() >= 1 && (forall|i: int| 0 <= i < body.len() ==> is_digit(#[trigger] body[i]))
        && digits_value(body) <= u32::MAX
}

/// The numeric value of a token that parses as a `u32`.
pub open spec fn u32_value(t: Seq<u8>) -> int {
    digits_value(numeric_body(t))
}

/// A digit string's value is non-negative.
pub proof fn lemma_digits_value_nonneg(ds: Seq<u8>)
    requires
        forall|i: int| 0 <= i < ds.len() ==> is_digit(#[trigger] ds[i]),
    ensures
        digits_value(ds) >= 0,
    decreases ds.len(),
{
    if ds.len() > 0 {
        lemma_digits_value_nonneg(ds.drop_last());
    }
}

/// Reading more digits never shrinks the value: once a prefix overflows, the
/// whole token overflows.
pub proof fn lemma_digits_value_grows(ds: Seq<u8>, k: int)
    requires
        0 <= k <= ds.len(),
        forall|i: int| 0 <= i < ds.len() ==> is_digit(#[trigger] ds[i]),
    ensures
        digits_value(ds) >= digits_value(ds.take(k)),
    decreases ds.len() - k,
{
    if k < ds.len() {
        lemma_digits_value_grows(ds, k + 1);
        lemma_digits_value_nonneg(ds.take(k));
        assert(ds.take(k + 1).drop_last() =~= ds.take(k));
        assert(digits_value(ds.take(k + 1)) >= digits_value(ds.take(k)));
    } else {
        assert(ds.take(k) =~= ds);
    }
}

/// Parses a token as a `u32`, accepting exactly what Rust's own `u32` parsing
/// accepts: an optional plus sign, then decimal digits, rejecting overflow.
pub fn parse_u32_token(t: &[u8]) -> (r: Option<u32>)
    ensures
        r is Some <==> is_valid_u32(t@),
        r matches Some(v) ==> v == u32_value(t@),
{
    let n = t.len();
    let start: usize = if n >= 1 && *slice_index_get(t, 0) == 0x2b {
        1
    } else {
        0
    };
    let ghost body = numeric_body(t@);
    proof {
        assert(body =~= t@.skip(start as int));
    }
    if n == start {
        return None;
    }
    let mut value: u64 = 0;
    let mut j: usize = start;
    while j < n
        invariant
            start <= j <= n,
            n == t@.len(),
            body == t@.skip(start as int),
            body == numeric_body(t@),
            forall|k: int| 0 <= k < j - start ==> is_digit(#[trigger] body[k]),
            value == digits_value(body.take(j - start)),
            value <= u32::MAX,
        decreases n - j,
    {
        let b = *slice_index_get(t, j);
        if b < 0x30 || b > 0x39 {
            proof {
                assert(body[j - start] == t@[j as int]);
                assert(!is_digit(body[j - start]));
            }
            return None;
        }
        proof {
            assert(body.take(j - start + 1).drop_last() =~= body.take(j - start));
            assert(body.take(j - start + 1).last() == body[j - start]);
        }
        value = value * 10 + ((b - 0x30) as u64);
        j = j + 1;
        if value > 0xffff_ffff {
            proof {
                if forall|i: int| 0 <= i < body.len() ==> is_digit(#[trigger] body[i]) {
                    lemma_digits_value_grows(body, j - start);
                }
            }
            return None;
        }
    }
    proof {
        assert(body.take(n - start) =~= body);
    }
    Some(value as u32)
}

/// A frequency-offset argument: the offset in megahertz for the tokens the
/// grammar accepts, `2`/`2mhz`/`2MHz` and likewise for 4 and 8.
pub open spec fn freq_value(t: Seq<u8>) -> Option<u8> {
    // "2", "2mhz", "2MHz"; likewise for 4 and 8
    if t == seq![0x32u8] || t == seq![0x32u8, 0x6d, 0x68, 0x7a] || t == seq![0x32u8, 0x4d, 0x48, 0x7a] {
        Some(2u8)
    } else if t == seq![0x34u8] || t == seq![0x34u8, 0x6d, 0x68, 0x7a] || t == seq![0x34u8, 0x4d, 0x48, 0x7a] {
        Some(4u8)
    } else if t == seq![0x38u8] || t == seq![0x38u8, 0x6d, 0x68, 0x7a] || t == seq![0x38u8, 0x4d, 0x48, 0x7a] {
        Some(8u8)
    } else {
        None
    }
}

/// Whether the byte at `j` separates tokens.
fn space_at(input: &Vec<u8>, j: usize) -> (r: bool)
    requires
        j < input@.len(),
    ensures
        r == is_space(input@[j as int]),
{
    let b = input[j];
    b == 0x09 || b == 0x0a || b == 0x0b || b == 0x0c || b == 0x0d || b == 0x20 || b == 0x85 || b
        == 0xa0
}

/// A maximal space-free stretch is the token the grammar reads there.
proof fn lemma_token_prefix_chars(s: Seq<u8>, k: int)
    requires
        0 <= k <= s.len(),
        forall|m: int| 0 <= m < k ==> !is_space(#[trigger] s[m]),
        k == s.len() || is_space(s[k]),
    ensures
        token_prefix(s) == s.take(k),
    decreases k,
{
    if k == 0 {
        assert(s.take(0) =~= Seq::<u8>::empty());
    } else {
        lemma_token_prefix_chars(s.drop_first(), k - 1);
        assert(seq![s.first()] + s.drop_first().take(k - 1) =~= s.take(k));
    }
}

/// Splits a command line into its whitespace-separated tokens, in order.
pub fn tokenize(input: &Vec<u8>) -> (r: Vec<Vec<u8>>)
    ensures
        r@.map_values(|t: Vec<u8>| t@) == tokens(input@),
{
    let n = input.len();
    let mut r: Vec<Vec<u8>> = Vec::new();
    let mut i: usize = 0;
    proof {
        assert(input@.skip(0) =~= input@);
        assert(r@.map_values(|t: Vec<u8>| t@) + tokens(input@) =~= tokens(input@));
    }
    while i < n
        invariant
            i <= n,
            n == input@.len(),
            tokens(input@) == r@.map_values(|t: Vec<u8>| t@) + tokens(input@.skip(i as int)),
        decreases n - i,
    {
        if space_at(input, i) {
            proof {
                assert(input@.skip(i as int).drop_first() =~= input@.skip(i + 1));
            }
            i = i + 1;
        } else {
            let mut j = i + 1;
            while j < n && !space_at(input, j)
                invariant
                    i < j <= n,
                    n == input@.len(),
                    forall|k: int| i < k < j ==> !is_space(#[trigger] input@[k]),
                decreases n - j,
            {
                j = j + 1;
            }
            let tok = vstd::slice::slice_to_vec(slice_subrange(input.as_slice(), i, j));
            proof {
                let rest = input@.skip(i as int);
                lemma_token_prefix_chars(rest, j - i);
                assert(rest.take(j - i) =~= input@.subrange(i as int, j as int));
                assert(rest.skip(j - i) =~= input@.skip(j as int));
                assert(r@.push(tok).map_values(|t: Vec<u8>| t@) =~= r@.map_values(
                    |t: Vec<u8>| t@,
                ).push(tok@));
                assert(r@.map_values(|t: Vec<u8>| t@) + (seq![tok@] + tokens(input@.skip(j as int)))
                    =~= r@.map_values(|t: Vec<u8>| t@).push(tok@) + tokens(input@.skip(j as int)));
            }
            r.push(tok);
            i = j;
        }
    }
    proof {
        assert(input@.skip(n as int) =~= Seq::<u8>::empty());
        assert(r@.map_values(|t: Vec<u8>| t@) + tokens(input@.skip(n as int)) =~= r@.map_values(
            |t: Vec<u8>| t@,
        ));
    }
    r
}

/// A frequency-offset choice on the command line.
#[derive(Copy, Clone, Debug, PartialEq, Eq, Structural)]
pub enum FrequencyOffsetCommandOption {
    F2MHz,
    F4MHz,
    F8MHz,
}

/// An operator command read from the serial line.
#[derive(Clone, Debug, PartialEq, Eq)]
pub enum Command {
    Restart,
    Help,
    SendSequentialPacket { interval_ms: u32, number_packets: u32, payload_length: Option<u32> },
    SetFrequencyOffset { frequency: FrequencyOffsetCommandOption },
}

/// Why a command line was rejected; the session continues after reporting it.
#[derive(Clone, Debug, PartialEq, Eq)]
pub enum CommandError {
    UnknownCommand(Vec<u8>),
    UnknownError,
    ArgsError { arg_name: &'static str },
}

/// Which argument a rejected command line failed on; the names double as the
/// operator-facing messages.
pub ghost enum ArgKind {
    IntervalWithMsSuffix,
    IntervalWithSSuffix,
    Interval,
    NumberPackets,
    PayloadLength,
    Frequency,
}

/// The operator-facing name of a rejected argument.
pub open spec fn arg_name_of(which: ArgKind) -> Seq<char> {
    match which {
        ArgKind::IntervalWithMsSuffix => "interval_ms ms"@,
        ArgKind::IntervalWithSSuffix => "interval_ms s"@,
        ArgKind::Interval => "interval_ms"@,
        ArgKind::NumberPackets => "number_packets"@,
        ArgKind::PayloadLength => "payload_length"@,
        ArgKind::Frequency => "frequency"@,
    }
}

/// What the command grammar makes of a line.
pub ghost enum ParsedCommand {
    Restart,
    Help,
    Ssp { interval_ms: u32, number_packets: u32, payload_length: Option<u32> },
    Freq { mhz: u8 },
    UnknownCommand,
    UnknownError,
    BadArg { which: ArgKind },
}

/// The payload size cap a sequential-packet command accepts.
pub const MAX_PAYLOAD_SIZE: u32 = 1000;

/// The count and optional payload length after a parsed interval: a missing
/// count is an unknown error, a malformed count or payload a named argument
/// error — the original reports a malformed payload under the count's name —
/// and a payload over the cap its own.
pub open spec fn ssp_rest_spec(toks: Seq<Seq<u8>>, interval_ms: u32) -> ParsedCommand {
    if toks.len() < 3 {
        ParsedCommand::UnknownError
    } else if !is_valid_u32(toks[2]) {
        ParsedCommand::BadArg { which: ArgKind::NumberPackets }
    } else {
        let number_packets = u32_value(toks[2]) as u32;
        if toks.len() >= 4 {
            if !is_valid_u32(toks[3]) {
                ParsedCommand::BadArg { which: ArgKind::NumberPackets }
            } else if u32_value(toks[3]) > MAX_PAYLOAD_SIZE {
                ParsedCommand::BadArg { which: ArgKind::PayloadLength }
            } else {
                ParsedCommand::Ssp {
                    interval_ms,
                    number_packets,
                    payload_length: Some(u32_value(toks[3]) as u32),
                }
            }
        } else {
            ParsedCommand::Ssp { interval_ms, number_packets, payload_length: None }
        }
    }
}

/// A sequential-packet command: an interval (`<n>`, `<n>ms` or `<n>s`), a
/// packet count, and an optional payload length. An interval in seconds whose
/// millisecond value cannot fit is rejected as malformed.
pub open spec fn ssp_spec(toks: Seq<Seq<u8>>) -> ParsedCommand {
    if toks.len() < 2 {
        ParsedCommand::UnknownError
    } else {
        let t = toks[1];
        // 0x6d 0x73 is "ms", 0x73 is "s"
        if t.len() >= 2 && t[t.len() - 2] == 0x6d && t[t.len() - 1] == 0x73 {
            let body = t.take(t.len() - 2);
            if is_valid_u32(body) {
                ssp_rest_spec(toks, u32_value(body) as u32)
            } else {
                ParsedCommand::BadArg { which: ArgKind::IntervalWithMsSuffix }
            }
        } else if t.len() >= 1 && t[t.len() - 1] == 0x73 {
            let body = t.take(t.len() - 1);
            if is_valid_u32(body) && u32_value(body) * 1000 <= u32::MAX {
                ssp_rest_spec(toks, (u32_value(body) * 1000) as u32)
            } else {
                ParsedCommand::BadArg { which: ArgKind::IntervalWithSSuffix }
            }
        } else {
            if is_valid_u32(t) {
                ssp_rest_spec(toks, u32_value(t) as u32)
            } else {
                ParsedCommand::BadArg { which: ArgKind::Interval }
            }
        }
    }
}

/// The command grammar over a whole line: the first token selects the command,
/// later tokens are its arguments, and anything beyond them is ignored.
pub open spec fn parse_spec(input: Seq<u8>) -> ParsedCommand {
    let toks = tokens(input);
    if toks.len() == 0 {
        ParsedCommand::UnknownError
    } else if toks[0] == seq![0x72u8, 0x65, 0x73, 0x74, 0x61, 0x72, 0x74] {  // "restart"
        ParsedCommand::Restart
    } else if toks[0] == seq![0x68u8, 0x65, 0x6c, 0x70] {  // "help"
        ParsedCommand::Help
    } else if toks[0] == seq![0x73u8, 0x73, 0x70] {  // "ssp"
        ssp_spec(toks)
    } else if toks[0] == seq![0x66u8, 0x72, 0x65, 0x71] {  // "freq"
        if toks.len() < 2 {
            ParsedCommand::UnknownError
        } else if freq_value(toks[1]) is Some {
            ParsedCommand::Freq { mhz: freq_value(toks[1]).unwrap() }
        } else {
            ParsedCommand::BadArg { which: ArgKind::Frequency }
        }
    } else {
        ParsedCommand::UnknownCommand
    }
}

/// The frequency option a parsed offset in megahertz selects.
pub open spec fn freq_option_of(mhz: u8) -> FrequencyOffsetCommandOption {
    if mhz == 2 {
        FrequencyOffsetCommandOption::F2MHz
    } else if mhz == 4 {
        FrequencyOffsetCommandOption::F4MHz
    } else {
        FrequencyOffsetCommandOption::F8MHz
    }
}

/// Whether an executable parse result means what the grammar says of the line.
pub open spec fn parse_matches(input: Seq<u8>, r: Result<Command, CommandError>) -> bool {
    match parse_spec(input) {
        ParsedCommand::Restart => r == Result::<Command, CommandError>::Ok(Command::Restart),
        ParsedCommand::Help => r == Result::<Command, CommandError>::Ok(Command::Help),
        ParsedCommand::Ssp { interval_ms, number_packets, payload_length } => r == Result::<
            Command,
            CommandError,
        >::Ok(Command::SendSequentialPacket { interval_ms, number_packets, payload_length }),
        ParsedCommand::Freq { mhz } => r == Result::<Command, CommandError>::Ok(
            Command::SetFrequencyOffset { frequency: freq_option_of(mhz) },
        ),
        ParsedCommand::UnknownCommand => r matches Err(CommandError::UnknownCommand(v)) && v@
            == input,
        ParsedCommand::UnknownError => r == Result::<Command, CommandError>::Err(
            CommandError::UnknownError,
        ),
        ParsedCommand::BadArg { which } => r matches Err(CommandError::ArgsError { arg_name })
            && arg_name@ == arg_name_of(which),
    }
}

impl FrequencyOffsetCommandOption {
    /// Reads a frequency-offset argument, handing back the caller's error when
    /// the token is not one the grammar accepts.
    pub fn parse_from_str(value: &Vec<u8>, possible_error: CommandError) -> (r: Result<
        FrequencyOffsetCommandOption,
        CommandError,
    >)
        ensures
            freq_value(value@) matches Some(mhz) ==> r == Result::<
                FrequencyOffsetCommandOption,
                CommandError,
            >::Ok(freq_option_of(mhz)),
            freq_value(value@) is None ==> r == Result::<
                FrequencyOffsetCommandOption,
                CommandError,
            >::Err(possible_error),
    {
        let two: [u8; 1] = [0x32];
        let two_l: [u8; 4] = [0x32, 0x6d, 0x68, 0x7a];
        let two_u: [u8; 4] = [0x32, 0x4d, 0x48, 0x7a];
        let four: [u8; 1] = [0x34];
        let four_l: [u8; 4] = [0x34, 0x6d, 0x68, 0x7a];
        let four_u: [u8; 4] = [0x34, 0x4d, 0x48, 0x7a];
        let eight: [u8; 1] = [0x38];
        let eight_l: [u8; 4] = [0x38, 0x6d, 0x68, 0x7a];
        let eight_u: [u8; 4] = [0x38, 0x4d, 0x48, 0x7a];
        proof {
            assert(two@ =~= seq![0x32u8]);
            assert(two_l@ =~= seq![0x32u8, 0x6d, 0x68, 0x7a]);
            assert(two_u@ =~= seq![0x32u8, 0x4d, 0x48, 0x7a]);
            assert(four@ =~= seq![0x34u8]);
            assert(four_l@ =~= seq![0x34u8, 0x6d, 0x68, 0x7a]);
            assert(four_u@ =~= seq![0x34u8, 0x4d, 0x48, 0x7a]);
            assert(eight@ =~= seq![0x38u8]);
            assert(eight_l@ =~= seq![0x38u8, 0x6d, 0x68, 0x7a]);
            assert(eight_u@ =~= seq![0x38u8, 0x4d, 0x48, 0x7a]);
        }
        if token_is(value, &two) || token_is(value, &two_l) || token_is(value, &two_u) {
            Ok(FrequencyOffsetCommandOption::F2MHz)
        } else if token_is(value, &four) || token_is(value, &four_l) || token_is(value, &four_u) {
            Ok(FrequencyOffsetCommandOption::F4MHz)
        } else if token_is(value, &eight) || token_is(value, &eight_l) || token_is(value, &eight_u) {
            Ok(FrequencyOffsetCommandOption::F8MHz)
        } else {
            Err(possible_error)
        }
    }
}

/// Whether a token is exactly the given keyword.
fn token_is(t: &Vec<u8>, kw: &[u8]) -> (r: bool)
    ensures
        r == (t@ == kw@),
{
    if t.len() != kw.len() {
        return false;
    }
    let n = t.len();
    let mut i: usize = 0;
    while i < n
        invariant
            i <= n,
            n == t@.len() == kw@.len(),
            forall|k: int| 0 <= k < i ==> t@[k] == kw@[k],
        decreases n - i,
    {
        if t[i] != *slice_index_get(kw, i) {
            return false;
        }
        i = i + 1;
    }
    proof {
        assert(t@ =~= kw@);
    }
    true
}

/// Reads the packet count and optional payload length of a sequential-packet
/// command, once the interval has been parsed.
fn ssp_rest(toks: &Vec<Vec<u8>>, interval_ms: u32) -> (r: Result<Command, CommandError>)
    ensures
        ({
            let tks = toks@.map_values(|t: Vec<u8>| t@);
            match ssp_rest_spec(tks, interval_ms) {
                ParsedCommand::Ssp { interval_ms, number_packets, payload_length } => r
                    == Result::<Command, CommandError>::Ok(
                    Command::SendSequentialPacket { interval_ms, number_packets, payload_length },
                ),
                ParsedCommand::UnknownError => r == Result::<Command, CommandError>::Err(
                    CommandError::UnknownError,
                ),
                ParsedCommand::BadArg { which } => r matches Err(
                    CommandError::ArgsError { arg_name },
                ) && arg_name@ == arg_name_of(which),
                _ => true,
            }
        }),
{
    let ghost tks = toks@.map_values(|t: Vec<u8>| t@);
    if toks.len() < 3 {
        return Err(CommandError::UnknownError);
    }
    proof {
        assert(tks[2] == toks@[2]@);
    }
    let number_packets = match parse_u32_token(toks[2].as_slice()) {
        Some(n) => n,
        None => {
            return Err(CommandError::ArgsError { arg_name: "number_packets" });
        },
    };
    if toks.len() >= 4 {
        proof {
            assert(tks[3] == toks@[3]@);
        }
        let payload = match parse_u32_token(toks[3].as_slice()) {
            Some(p) => p,
            None => {
                // the original reports a malformed payload under the count's name
                return Err(CommandError::ArgsError { arg_name: "number_packets" });
            },
        };
        if payload > MAX_PAYLOAD_SIZE {
            return Err(CommandError::ArgsError { arg_name: "payload_length" });
        }
        Ok(
            Command::SendSequentialPacket {
                interval_ms,
                number_packets,
                payload_length: Some(payload),
            },
        )
    } else {
        Ok(Command::SendSequentialPacket { interval_ms, number_packets, payload_length: None })
    }
}

impl Command {
    /// Parses one command line against the grammar: `restart`, `help`,
    /// `ssp <interval> <count> [payload_length]`, or `freq <2|4|8>`.
    pub fn from_str(input: &Vec<u8>) -> (r: Result<Command, CommandError>)
        ensures
            parse_matches(input@, r),
    {
        let toks = tokenize(input);
        let ghost tks = tokens(input@);
        if toks.len() == 0 {
            return Err(CommandError::UnknownError);
        }
        proof {
            assert(tks[0] == toks@[0]@);
        }
        let kw_restart: [u8; 7] = [0x72, 0x65, 0x73, 0x74, 0x61, 0x72, 0x74];
        let kw_help: [u8; 4] = [0x68, 0x65, 0x6c, 0x70];
        let kw_ssp: [u8; 3] = [0x73, 0x73, 0x70];
        let kw_freq: [u8; 4] = [0x66, 0x72, 0x65, 0x71];
        proof {
            assert(kw_restart@ =~= seq![0x72u8, 0x65, 0x73, 0x74, 0x61, 0x72, 0x74]);
            assert(kw_help@ =~= seq![0x68u8, 0x65, 0x6c, 0x70]);
            assert(kw_ssp@ =~= seq![0x73u8, 0x73, 0x70]);
            assert(kw_freq@ =~= seq![0x66u8, 0x72, 0x65, 0x71]);
        }
        if token_is(&toks[0], &kw_restart) {
            Ok(Command::Restart)
        } else if token_is(&toks[0], &kw_help) {
            Ok(Command::Help)
        } else if token_is(&toks[0], &kw_ssp) {
            if toks.len() < 2 {
                return Err(CommandError::UnknownError);
            }
            proof {
                assert(tks[1] == toks@[1]@);
            }
            let t1 = &toks[1];
            let len1 = t1.len();
            if len1 >= 2 && t1[len1 - 2] == 0x6d && t1[len1 - 1] == 0x73 {
                match parse_u32_token(slice_subrange(t1.as_slice(), 0, len1 - 2)) {
                    Some(v) => ssp_rest(&toks, v),
                    None => Err(CommandError::ArgsError { arg_name: "interval_ms ms" }),
                }
            } else if len1 >= 1 && t1[len1 - 1] == 0x73 {
                match parse_u32_token(slice_subrange(t1.as_slice(), 0, len1 - 1)) {
                    Some(v) => {
                        if v > u32::MAX / 1000 {
                            Err(CommandError::ArgsError { arg_name: "interval_ms s" })
                        } else {
                            ssp_rest(&toks, v * 1000)
                        }
                    },
                    None => Err(CommandError::ArgsError { arg_name: "interval_ms s" }),
                }
            } else {
                match parse_u32_token(t1.as_slice()) {
                    Some(v) => ssp_rest(&toks, v),
                    None => Err(CommandError::ArgsError { arg_name: "interval_ms" }),
                }
            }
        } else if token_is(&toks[0], &kw_freq) {
            if toks.len() < 2 {
                return Err(CommandError::UnknownError);
            }
            proof {
                assert(tks[1] == toks@[1]@);
            }
            let frequency = match FrequencyOffsetCommandOption::parse_from_str(
                &toks[1],
                CommandError::ArgsError { arg_name: "frequency" },
            ) {
                Ok(f) => f,
                Err(e) => {
                    return Err(e);
                },
            };
            Ok(Command::SetFrequencyOffset { frequency })
        } else {
            Err(CommandError::UnknownCommand(input.clone()))
        }
    }
}

} // verus!
