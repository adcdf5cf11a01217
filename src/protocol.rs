//! The serial wire codec: command frames, response frames and their error
//! sentinel.
use vstd::prelude::*;
use vstd::string::StrSliceExecFns;
use vstd::string::StringExecFns;
use vstd::string::StringSliceAdditionalSpecFns;
use vstd::utf8::*;
use hex::FromHex;
use crate::error::DeviceError;

verus! {

broadcast use vstd::utf8::valid_utf8_concat;

// ---------------------------------------------------------------- hex text

/// Whether `c` is an ASCII hexadecimal digit of either case.
pub open spec fn is_hex_digit(c: u8) -> bool {
    (48 <= c <= 57) || (97 <= c <= 102) || (65 <= c <= 70)
}

/// The value of a hexadecimal digit.
pub open spec fn hex_value(c: u8) -> int {
    if 48 <= c <= 57 {
        c - 48
    } else if 97 <= c <= 102 {
        c - 87
    } else {
        c - 55
    }
}

/// Text that decodes as hexadecimal: an even number of hex digits.
pub open spec fn is_hex_text(h: Seq<u8>) -> bool {
    h.len() % 2 == 0 && forall|i: int| 0 <= i < h.len() ==> is_hex_digit(#[trigger] h[i])
}

/// The bytes that hexadecimal text stands for, two digits per byte, high
/// digit first.
pub open spec fn unhex(h: Seq<u8>) -> Seq<u8> {
    Seq::new(
        (h.len() / 2) as nat,
        |i: int| (hex_value(h[2 * i]) * 16 + hex_value(h[2 * i + 1])) as u8,
    )
}

/// The lowercase hexadecimal digit of `d`, for `d` below sixteen.
pub open spec fn lower_digit(d: int) -> u8 {
    if d < 10 {
        (48 + d) as u8
    } else {
        (87 + d) as u8
    }
}

/// The uppercase hexadecimal digit of `d`, for `d` below sixteen.
pub open spec fn upper_digit(d: int) -> u8 {
    if d < 10 {
        (48 + d) as u8
    } else {
        (55 + d) as u8
    }
}

/// Each byte as two lowercase hexadecimal digits, high digit first.
pub open spec fn hex_lower(b: Seq<u8>) -> Seq<u8> {
    Seq::new(
        2 * b.len(),
        |i: int|
            if i % 2 == 0 {
                lower_digit(b[i / 2] as int / 16)
            } else {
                lower_digit(b[i / 2] as int % 16)
            },
    )
}

/// A number in uppercase hexadecimal, without leading zeros.
pub open spec fn upper_hex(n: nat) -> Seq<u8>
    decreases n,
{
    if n < 16 {
        seq![upper_digit(n as int)]
    } else {
        upper_hex(n / 16).push(upper_digit((n % 16) as int))
    }
}

#[verifier::external_type_specification]
#[verifier::external_body]
pub struct ExFromHexError(hex::FromHexError);

/// Relies on `hex::encode`: two lowercase hex digits for each byte, high
/// digit first.
#[verifier::external_body]
fn hex_encode(data: &[u8]) -> (r: Vec<u8>)
    ensures
        r@ == hex_lower(data@),
{
    hex::encode(data).into_bytes()
}

/// Relies on `FromHex for Vec<u8>` of the hex crate: it accepts exactly the
/// texts of even length made of hex digits of either case, and decodes each
/// pair of digits into one byte.
#[verifier::external_body]
fn hex_decode(text: &[u8]) -> (r: Result<Vec<u8>, hex::FromHexError>)
    ensures
        r is Ok <==> is_hex_text(text@),
        r matches Ok(v) ==> v@ == unhex(text@),
{
    Vec::<u8>::from_hex(text)
}

proof fn lemma_digit_values(d: int)
    requires
        0 <= d < 16,
    ensures
        is_hex_digit(lower_digit(d)),
        hex_value(lower_digit(d)) == d,
        is_hex_digit(upper_digit(d)),
        hex_value(upper_digit(d)) == d,
{
}

proof fn lemma_hex_lower_digits(b: Seq<u8>)
    ensures
        is_hex_text(hex_lower(b)),
        unhex(hex_lower(b)) =~= b,
{
    let h = hex_lower(b);
    assert forall|i: int| 0 <= i < h.len() implies is_hex_digit(#[trigger] h[i]) by {
        lemma_digit_values(b[i / 2] as int / 16);
        lemma_digit_values(b[i / 2] as int % 16);
    }
    assert(h.len() % 2 == 0);
    assert forall|j: int| 0 <= j < b.len() implies #[trigger] unhex(h)[j] == b[j] by {
        assert((2 * j) / 2 == j && (2 * j) % 2 == 0);
        assert((2 * j + 1) / 2 == j && (2 * j + 1) % 2 == 1);
        lemma_digit_values(b[j] as int / 16);
        lemma_digit_values(b[j] as int % 16);
    }
}

proof fn lemma_unhex_concat(x: Seq<u8>, y: Seq<u8>)
    requires
        is_hex_text(x),
        is_hex_text(y),
    ensures
        is_hex_text(x + y),
        unhex(x + y) =~= unhex(x) + unhex(y),
{
    let z = x + y;
    assert forall|i: int| 0 <= i < z.len() implies is_hex_digit(#[trigger] z[i]) by {
        if i >= x.len() {
            assert(z[i] == y[i - x.len()]);
        }
    }
    let k = x.len() / 2;
    assert forall|i: int| 0 <= i < unhex(z).len() implies #[trigger] unhex(z)[i] == (unhex(x) + unhex(y))[i] by {
        if i >= k {
            assert(z[2 * i] == y[2 * (i - k)]);
            assert(z[2 * i + 1] == y[2 * (i - k) + 1]);
        }
    }
}

// ---------------------------------------------------------------- commands

/// The commands of the serial protocol. Each is identified by a numeric code
/// whose bytes, read big-endian, are the command's ASCII mnemonic.
#[derive(Clone, Copy, Debug, PartialEq, Eq, Structural)]
pub enum Command {
    /// The adjustable 12V output: a level, or `0`/`1` to switch it.
    Adj12VOutput,
    /// The power level of dew heater A.
    Dew1Power,
    /// The power level of dew heater B.
    Dew2Power,
    /// The status probe.
    Status,
    /// The firmware version query.
    FirmwareVersion,
    /// The power consumption and statistics query.
    PowerConsumAndStats,
    /// The power metrics query.
    PowerMetrics,
    /// The power and sensor readings query.
    PowerAndSensorReadings,
    /// The power state of the outputs at boot.
    PowerStatusOnBoot,
    /// The quad 12V port switch.
    QuadPortStatus,
    /// The reboot command.
    Reboot,
}

impl Command {
    pub open spec fn spec_code(self) -> u32 {
        match self {
            Command::Adj12VOutput => 0x50323a,
            Command::Dew1Power => 0x50333a,
            Command::Dew2Power => 0x50343a,
            Command::Status => 0x5023,
            Command::FirmwareVersion => 0x5056,
            Command::PowerConsumAndStats => 0x5053,
            Command::PowerMetrics => 0x5043,
            Command::PowerAndSensorReadings => 0x5041,
            Command::PowerStatusOnBoot => 0x50453a,
            Command::QuadPortStatus => 0x50313a,
            Command::Reboot => 0x5046,
        }
    }

    /// The mnemonic that the device reads, as ASCII bytes.
    pub open spec fn mnemonic(self) -> Seq<u8> {
        match self {
            Command::Adj12VOutput => seq![0x50u8, 0x32u8, 0x3au8],
            Command::Dew1Power => seq![0x50u8, 0x33u8, 0x3au8],
            Command::Dew2Power => seq![0x50u8, 0x34u8, 0x3au8],
            Command::Status => seq![0x50u8, 0x23u8],
            Command::FirmwareVersion => seq![0x50u8, 0x56u8],
            Command::PowerConsumAndStats => seq![0x50u8, 0x53u8],
            Command::PowerMetrics => seq![0x50u8, 0x43u8],
            Command::PowerAndSensorReadings => seq![0x50u8, 0x41u8],
            Command::PowerStatusOnBoot => seq![0x50u8, 0x45u8, 0x3au8],
            Command::QuadPortStatus => seq![0x50u8, 0x31u8, 0x3au8],
            Command::Reboot => seq![0x50u8, 0x46u8],
        }
    }

    /// The numeric code of this command.
    pub fn code(&self) -> (r: u32)
        ensures
            r == self.spec_code(),
    {
        match self {
            Command::Adj12VOutput => 0x50323a,
            Command::Dew1Power => 0x50333a,
            Command::Dew2Power => 0x50343a,
            Command::Status => 0x5023,
            Command::FirmwareVersion => 0x5056,
            Command::PowerConsumAndStats => 0x5053,
            Command::PowerMetrics => 0x5043,
            Command::PowerAndSensorReadings => 0x5041,
            Command::PowerStatusOnBoot => 0x50453a,
            Command::QuadPortStatus => 0x50313a,
            Command::Reboot => 0x5046,
        }
    }
}

/// The code of a command, written in hexadecimal, decodes to its mnemonic.
proof fn lemma_code_text(c: Command)
    ensures
        is_hex_text(upper_hex(c.spec_code() as nat)),
        unhex(upper_hex(c.spec_code() as nat)) =~= c.mnemonic(),
{
    reveal_with_fuel(upper_hex, 7);
    match c {
        Command::Adj12VOutput => {
            assert(upper_hex(0x50323a) =~= seq![0x35u8, 0x30u8, 0x33u8, 0x32u8, 0x33u8, 0x41u8]);
            assert(unhex(seq![0x35u8, 0x30u8, 0x33u8, 0x32u8, 0x33u8, 0x41u8]) =~= c.mnemonic());
        },
        Command::Dew1Power => {
            assert(upper_hex(0x50333a) =~= seq![0x35u8, 0x30u8, 0x33u8, 0x33u8, 0x33u8, 0x41u8]);
            assert(unhex(seq![0x35u8, 0x30u8, 0x33u8, 0x33u8, 0x33u8, 0x41u8]) =~= c.mnemonic());
        },
        Command::Dew2Power => {
            assert(upper_hex(0x50343a) =~= seq![0x35u8, 0x30u8, 0x33u8, 0x34u8, 0x33u8, 0x41u8]);
            assert(unhex(seq![0x35u8, 0x30u8, 0x33u8, 0x34u8, 0x33u8, 0x41u8]) =~= c.mnemonic());
        },
        Command::Status => {
            assert(upper_hex(0x5023) =~= seq![0x35u8, 0x30u8, 0x32u8, 0x33u8]);
            assert(unhex(seq![0x35u8, 0x30u8, 0x32u8, 0x33u8]) =~= c.mnemonic());
        },
        Command::FirmwareVersion => {
            assert(upper_hex(0x5056) =~= seq![0x35u8, 0x30u8, 0x35u8, 0x36u8]);
            assert(unhex(seq![0x35u8, 0x30u8, 0x35u8, 0x36u8]) =~= c.mnemonic());
        },
        Command::PowerConsumAndStats => {
            assert(upper_hex(0x5053) =~= seq![0x35u8, 0x30u8, 0x35u8, 0x33u8]);
            assert(unhex(seq![0x35u8, 0x30u8, 0x35u8, 0x33u8]) =~= c.mnemonic());
        },
        Command::PowerMetrics => {
            assert(upper_hex(0x5043) =~= seq![0x35u8, 0x30u8, 0x34u8, 0x33u8]);
            assert(unhex(seq![0x35u8, 0x30u8, 0x34u8, 0x33u8]) =~= c.mnemonic());
        },
        Command::PowerAndSensorReadings => {
            assert(upper_hex(0x5041) =~= seq![0x35u8, 0x30u8, 0x34u8, 0x31u8]);
            assert(unhex(seq![0x35u8, 0x30u8, 0x34u8, 0x31u8]) =~= c.mnemonic());
        },
        Command::PowerStatusOnBoot => {
            assert(upper_hex(0x50453a) =~= seq![0x35u8, 0x30u8, 0x34u8, 0x35u8, 0x33u8, 0x41u8]);
            assert(unhex(seq![0x35u8, 0x30u8, 0x34u8, 0x35u8, 0x33u8, 0x41u8]) =~= c.mnemonic());
        },
        Command::QuadPortStatus => {
            assert(upper_hex(0x50313a) =~= seq![0x35u8, 0x30u8, 0x33u8, 0x31u8, 0x33u8, 0x41u8]);
            assert(unhex(seq![0x35u8, 0x30u8, 0x33u8, 0x31u8, 0x33u8, 0x41u8]) =~= c.mnemonic());
        },
        Command::Reboot => {
            assert(upper_hex(0x5046) =~= seq![0x35u8, 0x30u8, 0x34u8, 0x36u8]);
            assert(unhex(seq![0x35u8, 0x30u8, 0x34u8, 0x36u8]) =~= c.mnemonic());
        },
    }
}

/// Writes `code` in uppercase hexadecimal, without leading zeros.
fn code_digits(code: u32) -> (r: Vec<u8>)
    ensures
        r@ == upper_hex(code as nat),
{
    let mut out: Vec<u8> = Vec::new();
    let mut rem = code;
    while rem >= 16
        invariant
            upper_hex(code as nat) == upper_hex(rem as nat) + out@,
        decreases rem,
    {
        let d = digit_upper((rem % 16) as u8);
        let ghost prev = out@;
        out.insert(0, d);
        proof {
            assert(upper_hex(rem as nat) == upper_hex((rem / 16) as nat).push(d));
            assert(upper_hex((rem / 16) as nat) + out@ =~= upper_hex((rem / 16) as nat).push(d) + prev);
        }
        rem = rem / 16;
    }
    let d = digit_upper(rem as u8);
    out.insert(0, d);
    assert(upper_hex(code as nat) =~= out@);
    out
}

fn digit_upper(d: u8) -> (r: u8)
    requires
        d < 16,
    ensures
        r == upper_digit(d as int),
{
    if d < 10 {
        48 + d
    } else {
        55 + d
    }
}

/// The bytes sent for a command: its mnemonic, the value's bytes, and a
/// newline.
pub open spec fn request_frame(cmd: Command, value: Seq<u8>) -> Seq<u8> {
    cmd.mnemonic() + value + seq![10u8]
}

/// The UTF-8 bytes of an optional value; none when it is absent.
pub open spec fn value_bytes(val: Option<&str>) -> Seq<u8> {
    match val {
        Some(v) => v.spec_bytes(),
        None => Seq::empty(),
    }
}

/// Builds the frame for `cmd` with an optional value: the code is written
/// in hexadecimal, the value's UTF-8 bytes in hexadecimal are appended, the
/// text is decoded back into bytes and a newline ends the frame.
pub fn encode_command(cmd: Command, val: Option<&str>) -> (r: Vec<u8>)
    ensures
        r@ == request_frame(cmd, value_bytes(val)),
{
    let mut text = code_digits(cmd.code());
    let ghost code_text = text@;
    proof {
        lemma_code_text(cmd);
    }
    match val {
        Some(v) => {
            let mut h = hex_encode(v.as_bytes());
            proof {
                lemma_hex_lower_digits(v.spec_bytes());
                lemma_unhex_concat(code_text, h@);
            }
            text.append(&mut h);
        },
        None => {
            assert(text@ =~= code_text + Seq::empty());
            assert(unhex(Seq::<u8>::empty()) =~= Seq::<u8>::empty());
            proof {
                lemma_unhex_concat(code_text, Seq::empty());
            }
        },
    }
    let mut frame = match hex_decode(text.as_slice()) {
        Ok(bytes) => bytes,
        Err(_) => Vec::new(),
    };
    frame.push(10);
    assert(frame@ =~= request_frame(cmd, value_bytes(val)));
    frame
}

proof fn lemma_ascii_valid(b: Seq<u8>)
    requires
        forall|i: int| 0 <= i < b.len() ==> #[trigger] b[i] < 128,
    ensures
        valid_utf8(b),
    decreases b.len(),
{
    if b.len() > 0 {
        assert(pop_first_scalar(b) =~= b.drop_first());
        lemma_ascii_valid(b.drop_first());
    }
}

proof fn lemma_mnemonic_ascii(c: Command)
    ensures
        forall|i: int| 0 <= i < c.mnemonic().len() ==> #[trigger] c.mnemonic()[i] < 128,
{
}

// ---------------------------------------------------------------- responses

/// `s` cut at every occurrence of `sep`; an empty text is one empty field.
pub open spec fn split_on(s: Seq<char>, sep: char) -> Seq<Seq<char>>
    decreases s.len(),
{
    if s.len() == 0 {
        seq![Seq::empty()]
    } else {
        let rest = split_on(s.drop_last(), sep);
        if s.last() == sep {
            rest.push(Seq::empty())
        } else {
            rest.update(rest.len() - 1, rest.last().push(s.last()))
        }
    }
}

pub proof fn lemma_split_on_nonempty(s: Seq<char>, sep: char)
    ensures
        split_on(s, sep).len() >= 1,
    decreases s.len(),
{
    if s.len() > 0 {
        lemma_split_on_nonempty(s.drop_last(), sep);
    }
}

/// The views of a sequence of strings.
pub open spec fn texts(v: Seq<String>) -> Seq<Seq<char>> {
    v.map_values(|s: String| s@)
}

/// Splits `text` at every occurrence of `sep`.
pub fn split_fields(text: &str, sep: char) -> (r: Vec<String>)
    ensures
        texts(r@) == split_on(text@, sep),
{
    let n = text.unicode_len();
    let mut done: Vec<String> = Vec::new();
    let mut start: usize = 0;
    let mut i: usize = 0;
    assert(text@.take(0) =~= Seq::<char>::empty());
    assert(texts(done@).push(text@.subrange(0, 0)) =~~= seq![Seq::<char>::empty()]);
    while i < n
        invariant
            n == text@.len(),
            start <= i <= n,
            split_on(text@.take(i as int), sep) == texts(done@).push(text@.subrange(start as int, i as int)),
        decreases n - i,
    {
        let c = text.get_char(i);
        let ghost prefix = text@.take(i as int);
        let ghost old_done = texts(done@);
        assert(text@.take(i + 1).drop_last() =~= prefix);
        assert(text@.take(i + 1).last() == c);
        if c == sep {
            let field = String::from_str(text.substring_char(start, i));
            done.push(field);
            assert(texts(done@) =~~= old_done.push(text@.subrange(start as int, i as int)));
            start = i + 1;
            assert(split_on(text@.take(i + 1), sep) =~~= texts(done@).push(text@.subrange(start as int, i + 1)));
        } else {
            assert(text@.subrange(start as int, i + 1) =~= text@.subrange(start as int, i as int).push(c));
            assert(split_on(text@.take(i + 1), sep) =~~= texts(done@).push(text@.subrange(start as int, i + 1)));
        }
        i = i + 1;
    }
    let last = String::from_str(text.substring_char(start, n));
    let ghost before = texts(done@);
    done.push(last);
    assert(text@.take(n as int) =~= text@);
    assert(texts(done@) =~~= before.push(text@.subrange(start as int, n as int)));
    done
}

/// The field text `ERR`, which a device answers in place of a value it
/// rejects.
pub open spec fn error_field() -> Seq<char> {
    seq!['E', 'R', 'R']
}

/// A response whose second colon-separated field is `ERR`.
pub open spec fn is_error_reply(t: Seq<char>) -> bool {
    let f = split_on(t, ':');
    f.len() > 1 && f[1] == error_field()
}

/// What a complete response frame means: the two terminator bytes are cut,
/// the rest must be UTF-8 text, and the error sentinel turns it into a
/// rejection.
pub open spec fn response_result(raw: Seq<u8>) -> Result<Seq<char>, DeviceError> {
    if raw.len() < 2 {
        Err(DeviceError::ComError)
    } else {
        let body = raw.subrange(0, raw.len() - 2);
        if !valid_utf8(body) {
            Err(DeviceError::ComError)
        } else if is_error_reply(decode_utf8(body)) {
            Err(DeviceError::InvalidValue)
        } else {
            Ok(decode_utf8(body))
        }
    }
}

/// Whether an executable text result agrees with a result over views.
pub open spec fn same_text_result(r: Result<String, DeviceError>, s: Result<Seq<char>, DeviceError>) -> bool {
    match (r, s) {
        (Ok(a), Ok(b)) => a@ == b,
        (Err(a), Err(b)) => a == b,
        _ => false,
    }
}

/// Relies on `std::str::from_utf8`: it accepts exactly the valid UTF-8
/// byte strings, and the text has those bytes as its encoding.
#[verifier::external_body]
fn utf8_text(bytes: &[u8]) -> (r: Option<String>)
    ensures
        r is Some <==> valid_utf8(bytes@),
        r matches Some(s) ==> s@ == decode_utf8(bytes@),
{
    match std::str::from_utf8(bytes) {
        Ok(s) => Some(s.to_string()),
        Err(_) => None,
    }
}

/// Whether `s` is the text `ERR`.
fn is_error_field(s: &String) -> (r: bool)
    ensures
        r == (s@ == error_field()),
{
    let t = s.as_str();
    if t.unicode_len() != 3 {
        return false;
    }
    let r = t.get_char(0) == 'E' && t.get_char(1) == 'R' && t.get_char(2) == 'R';
    proof {
        if r {
            assert(t@ =~= error_field());
        }
    }
    r
}

/// Interprets a complete response frame, terminator included.
pub fn decode_response(raw: &[u8]) -> (r: Result<String, DeviceError>)
    ensures
        same_text_result(r, response_result(raw@)),
{
    let n = raw.len();
    if n < 2 {
        return Err(DeviceError::ComError);
    }
    let body = vstd::slice::slice_subrange(raw, 0, n - 2);
    match utf8_text(body) {
        None => Err(DeviceError::ComError),
        Some(text) => {
            let fields = split_fields(text.as_str(), ':');
            proof {
                lemma_split_on_nonempty(text@, ':');
            }
            if fields.len() > 1 && is_error_field(&fields[1]) {
                Err(DeviceError::InvalidValue)
            } else {
                proof {
                    if fields.len() > 1 {
                        assert(texts(fields@)[1] == fields@[1]@);
                    }
                }
                Ok(text)
            }
        },
    }
}

/// How one command/response exchange over the serial link ended.
#[derive(Debug)]
pub enum Reply {
    /// A complete frame arrived, terminator included.
    Received(Vec<u8>),
    /// No terminator arrived within the time bound.
    TimedOut,
    /// The link failed for another reason.
    Failed,
}

/// What an exchange yields: the response text, or the error it amounts to.
pub open spec fn reply_result(r: Reply) -> Result<Seq<char>, DeviceError> {
    match r {
        Reply::Received(raw) => response_result(raw@),
        Reply::TimedOut => Err(DeviceError::Timeout),
        Reply::Failed => Err(DeviceError::ComError),
    }
}

/// Interprets how an exchange ended.
pub fn read_reply(reply: &Reply) -> (r: Result<String, DeviceError>)
    ensures
        same_text_result(r, reply_result(*reply)),
{
    match reply {
        Reply::Received(raw) => decode_response(raw.as_slice()),
        Reply::TimedOut => Err(DeviceError::Timeout),
        Reply::Failed => Err(DeviceError::ComError),
    }
}

/// Sending a command with a value and reading the device's echo of that
/// frame (the same bytes, ended by a carriage return and a newline) gives
/// back the mnemonic followed by exactly the value's bytes. The one echo read
/// otherwise is one whose value field is the error sentinel: it reads as a
/// rejection.
pub proof fn lemma_echo_round_trip(cmd: Command, v: Seq<char>)
    ensures
        ({
            let sent = request_frame(cmd, encode_utf8(v));
            let echo = sent.drop_last() + seq![13u8, 10u8];
            let body = cmd.mnemonic() + encode_utf8(v);
            match response_result(echo) {
                Ok(t) => encode_utf8(t) == body && !is_error_reply(t),
                Err(e) => e == DeviceError::InvalidValue && is_error_reply(decode_utf8(body)),
            }
        }),
{
    let sent = request_frame(cmd, encode_utf8(v));
    let echo = sent.drop_last() + seq![13u8, 10u8];
    let body = cmd.mnemonic() + encode_utf8(v);
    assert(echo.subrange(0, echo.len() - 2) =~= body);
    lemma_mnemonic_ascii(cmd);
    lemma_ascii_valid(cmd.mnemonic());
    encode_utf8_valid_utf8(v);
    decode_utf8_encode_utf8(body);
}

} // verus!
