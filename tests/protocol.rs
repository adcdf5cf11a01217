use pegasus_astro::error::DeviceError;
use pegasus_astro::properties::Kind;
use pegasus_astro::protocol::{decode_response, encode_command, read_reply, split_fields, Command, Reply};

fn bytes(s: &str) -> Vec<u8> {
    s.as_bytes().to_vec()
}

/// The mnemonic of a command followed by `rest`.
fn with_mnemonic(cmd: Command, rest: &str) -> Vec<u8> {
    let mut v = encode_command(cmd, None);
    v.pop();
    v.extend_from_slice(rest.as_bytes());
    v
}

#[test]
fn status_probe_frame() {
    assert_eq!(encode_command(Command::Status, None), vec![b'P', b'#', b'\n']);
}

#[test]
fn frame_carries_value_bytes() {
    let frame = encode_command(Command::Adj12VOutput, Some("50"));
    assert_eq!(frame, vec![0x50, 0x32, 0x3a, b'5', b'0', b'\n']);
}

#[test]
fn frame_carries_utf8_value() {
    let frame = encode_command(Command::PowerStatusOnBoot, Some("é1"));
    let mut expected = vec![0x50, 0x45, 0x3a];
    expected.extend_from_slice("é1".as_bytes());
    expected.push(b'\n');
    assert_eq!(frame, expected);
}

#[test]
fn command_codes() {
    assert_eq!(Command::Adj12VOutput.code(), 0x50323a);
    assert_eq!(Command::Reboot.code(), 0x5046);
    assert_eq!(encode_command(Command::Reboot, None), vec![b'P', b'F', b'\n']);
    assert_eq!(encode_command(Command::FirmwareVersion, None), vec![b'P', b'V', b'\n']);
}

#[test]
fn error_sentinel_is_invalid_value() {
    let raw = with_mnemonic(Command::Adj12VOutput, "ERR\r\n");
    assert_eq!(decode_response(&raw), Err(DeviceError::InvalidValue));
}

#[test]
fn stats_response_has_four_fields() {
    let raw = bytes("PS:1.2:3.4:5.6:789\r\n");
    let text = decode_response(&raw).unwrap();
    assert_eq!(text, "PS:1.2:3.4:5.6:789");
    let fields = split_fields(&text, ':');
    assert_eq!(fields.len() - 1, 4);
    assert_eq!(fields[4], "789");
}

#[test]
fn echo_round_trip() {
    let frame = encode_command(Command::Dew1Power, Some("128"));
    let mut echo = frame.clone();
    echo.pop();
    echo.extend_from_slice(b"\r\n");
    let text = decode_response(&echo).unwrap();
    let fields = split_fields(&text, ':');
    assert_eq!(fields[1].as_bytes(), "128".as_bytes());
}

#[test]
fn short_or_garbled_frames_are_link_errors() {
    assert_eq!(decode_response(&[b'\n']), Err(DeviceError::ComError));
    assert_eq!(decode_response(&[]), Err(DeviceError::ComError));
    assert_eq!(decode_response(&[0xff, 0xfe, b'\r', b'\n']), Err(DeviceError::ComError));
}

#[test]
fn error_in_other_field_is_not_a_rejection() {
    let raw = bytes("PA:1:ERR\r\n");
    assert_eq!(decode_response(&raw), Ok("PA:1:ERR".to_string()));
    let raw = bytes("ERR\r\n");
    assert_eq!(decode_response(&raw), Ok("ERR".to_string()));
}

#[test]
fn link_outcomes() {
    assert_eq!(read_reply(&Reply::TimedOut), Err(DeviceError::Timeout));
    assert_eq!(read_reply(&Reply::Failed), Err(DeviceError::ComError));
    assert_eq!(read_reply(&Reply::Received(bytes("PV:1.4\r\n"))), Ok("PV:1.4".to_string()));
}

#[test]
fn splitting_keeps_empty_fields() {
    assert_eq!(split_fields("a::b", ':'), vec!["a", "", "b"]);
    assert_eq!(split_fields("", ':'), vec![""]);
    assert_eq!(split_fields(":", ':'), vec!["", ""]);
    assert_eq!(split_fields("devices/x/update", '/'), vec!["devices", "x", "update"]);
}

#[test]
fn kinds_accept_well_formed_values() {
    assert!(Kind::Integer.accepts("42"));
    assert!(Kind::Integer.accepts("-7"));
    assert!(!Kind::Integer.accepts("4.2"));
    assert!(!Kind::Integer.accepts(""));
    assert!(!Kind::Integer.accepts("-"));
    assert!(Kind::Float.accepts("12.5"));
    assert!(Kind::Float.accepts("-0.25"));
    assert!(Kind::Float.accepts("3"));
    assert!(!Kind::Float.accepts("1.2.3"));
    assert!(!Kind::Float.accepts("."));
    assert!(!Kind::Float.accepts("abc"));
    assert!(Kind::Boolean.accepts("0"));
    assert!(Kind::Boolean.accepts("1"));
    assert!(!Kind::Boolean.accepts("2"));
    assert!(!Kind::Boolean.accepts("true"));
    assert!(Kind::Text.accepts("anything at all"));
}
