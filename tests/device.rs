use pegasus_astro::device::{
    device_id_for, AstronomicalDevice, BaseDevice, PowerBoxDevice, RefreshCycle, RefreshStep, GROUP_COUNT,
};
use pegasus_astro::error::DeviceError;
use pegasus_astro::properties::Permission;
use pegasus_astro::protocol::{encode_command, Command, Reply};

fn line(s: &str) -> Reply {
    let mut v = s.as_bytes().to_vec();
    v.extend_from_slice(b"\r\n");
    Reply::Received(v)
}

fn connected() -> PowerBoxDevice {
    BaseDevice::new("PegausPowerBoxAdvanced-PPBA1234", "/dev/ttyUSB0", 9600, line("PPBA_OK")).unwrap()
}

fn value(d: &BaseDevice, name: &str) -> String {
    let i = d.find_property_index(name).unwrap();
    d.get_properties()[i].value.clone()
}

/// The device's echo of a write frame.
fn echo(frame: &[u8]) -> Reply {
    let mut v = frame[..frame.len() - 1].to_vec();
    v.extend_from_slice(b"\r\n");
    Reply::Received(v)
}

const STATS: &str = "PS:0.45:1.2:14.4:86400";
const METRICS: &str = "PC:1.5:0.8:0.3:0.4:86400";
const READINGS: &str = "PPBA:12.2:0.5:21.3:45:8.9:1:0:128:64:1:0:9";

fn refresh(d: &mut BaseDevice, answers: &[Reply]) -> Result<(), DeviceError> {
    let (mut cycle, _frame) = RefreshCycle::start();
    let mut k = 0;
    loop {
        let reply = match &answers[k] {
            Reply::Received(v) => Reply::Received(v.clone()),
            Reply::TimedOut => Reply::TimedOut,
            Reply::Failed => Reply::Failed,
        };
        k += 1;
        match d.fetch_props(&mut cycle, reply) {
            RefreshStep::Send(_) => {}
            RefreshStep::Finished(r) => return r,
        }
    }
}

fn snapshot(d: &BaseDevice) -> Vec<(String, String)> {
    d.get_properties().iter().map(|p| (p.name.clone(), p.value.clone())).collect()
}

#[test]
fn connect_builds_fixed_table() {
    let d = connected();
    assert_eq!(d.get_properties().len(), 23);
    assert_eq!(d.name, "PegausPowerBoxAdvanced-PPBA1234");
    assert_eq!(d.address, "/dev/ttyUSB0");
    assert_eq!(d.baud, 9600);
    assert_eq!(value(&d, "firmware_version"), "UNKNOWN");
    assert_eq!(value(&d, "power_status_on_boot"), "1111");
    assert_eq!(d.get_properties()[0].name, "average_amps");
    assert_eq!(d.get_properties()[22].name, "firmware_version");
    assert_eq!(d.find_property_index("adjustable_output"), Some(19));
}

#[test]
fn failed_probe_cannot_connect() {
    assert!(matches!(BaseDevice::new("x", "/dev/null", 9600, Reply::TimedOut), Err(DeviceError::CannotConnect)));
    assert!(matches!(BaseDevice::new("x", "/dev/null", 9600, Reply::Failed), Err(DeviceError::CannotConnect)));
    assert!(matches!(BaseDevice::new("x", "/dev/null", 9600, line("P#:ERR")), Err(DeviceError::CannotConnect)));
}

#[test]
fn stable_identifier_from_name() {
    let d = connected();
    assert_eq!(d.id, "aa7ec6da-ded9-5d5d-b84b-ec29ad20e19b");
    assert_eq!(device_id_for("abc"), "7697a46f-b283-5da3-8e7c-62c11c03dd9e");
    assert_eq!(device_id_for("abc"), device_id_for("abc"));
}

#[test]
fn probe_and_firmware_frames() {
    assert_eq!(BaseDevice::probe_request(), encode_command(Command::Status, None));
    assert_eq!(BaseDevice::firmware_request(), vec![b'P', b'V', b'\n']);
}

#[test]
fn read_only_property_is_never_written() {
    let mut d = connected();
    for name in ["temp", "adj_output_status", "firmware_version", "uptime"] {
        assert!(matches!(d.prepare_update(name, "1"), Err(DeviceError::CannotUpdateReadOnlyProperty)));
        let before = snapshot(&d);
        assert_eq!(d.update_property(name, "1", line("OK")), Err(DeviceError::CannotUpdateReadOnlyProperty));
        assert_eq!(snapshot(&d), before);
    }
    let p = &d.get_properties()[d.find_property_index("temp").unwrap()];
    assert_eq!(p.permission, Permission::ReadOnly);
}

#[test]
fn unknown_property_is_refused() {
    let mut d = connected();
    assert!(matches!(d.prepare_update("no_such_thing", "1"), Err(DeviceError::UnknownProperty)));
    assert_eq!(d.update_property("no_such_thing", "1", line("OK")), Err(DeviceError::UnknownProperty));
    assert_eq!(d.update_property_remote("temp", "1"), Err(DeviceError::UnknownProperty));
    assert_eq!(d.find_property_index("Temp"), None);
}

#[test]
fn malformed_value_is_refused_before_sending() {
    let mut d = connected();
    assert!(matches!(d.prepare_update("dew1_power", "abc"), Err(DeviceError::InvalidValue)));
    assert!(matches!(d.prepare_update("quadport_status", "2"), Err(DeviceError::InvalidValue)));
    assert_eq!(d.update_property("dew1_power", "abc", line("OK")), Err(DeviceError::InvalidValue));
    assert_eq!(value(&d, "dew1_power"), "0");
}

#[test]
fn adjustable_output_switch_keeps_level() {
    let mut d = connected();
    let w = d.prepare_update("adjustable_output", "50").unwrap();
    assert_eq!(w.frame, vec![0x50, 0x32, 0x3a, b'5', b'0', b'\n']);
    assert_eq!(d.update_property(&w.property, &w.value, echo(&w.frame)), Ok(()));
    assert_eq!(value(&d, "adjustable_output"), "50");
    assert_eq!(value(&d, "adj_output_status"), "0");

    let w = d.prepare_update("adjustable_output", "0").unwrap();
    assert_eq!(d.update_property(&w.property, &w.value, echo(&w.frame)), Ok(()));
    assert_eq!(value(&d, "adjustable_output"), "50");
    let w = d.prepare_update("adjustable_output", "1").unwrap();
    assert_eq!(d.update_property(&w.property, &w.value, echo(&w.frame)), Ok(()));
    assert_eq!(value(&d, "adjustable_output"), "50");
    assert_eq!(value(&d, "adj_output_status"), "0");

    let w = d.prepare_update("quadport_status", "1").unwrap();
    assert_eq!(d.update_property(&w.property, &w.value, echo(&w.frame)), Ok(()));
    assert_eq!(value(&d, "quadport_status"), "1");
}

#[test]
fn rejected_or_failed_write_changes_nothing() {
    let mut d = connected();
    let w = d.prepare_update("dew2_power", "77").unwrap();
    let mut err = w.frame[..w.frame.len() - 1].to_vec();
    err.truncate(3);
    err.extend_from_slice(b"ERR\r\n");
    assert_eq!(d.update_property("dew2_power", "77", Reply::Received(err)), Err(DeviceError::InvalidValue));
    assert_eq!(d.update_property("dew2_power", "77", Reply::TimedOut), Err(DeviceError::Timeout));
    assert_eq!(d.update_property("dew2_power", "77", Reply::Failed), Err(DeviceError::ComError));
    assert_eq!(value(&d, "dew2_power"), "0");
}

#[test]
fn reboot_sends_no_value() {
    let d = connected();
    let w = d.reboot().unwrap();
    assert_eq!(w.frame, vec![b'P', b'F', b'\n']);
    assert_eq!(w.property, "reboot");
}

#[test]
fn typed_writes() {
    let d = connected();
    assert!(matches!(d.set_dew_pwm(0, 300), Err(DeviceError::InvalidValue)));
    assert!(matches!(d.set_dew_pwm(2, 10), Err(DeviceError::UnknownProperty)));
    let w = d.set_dew_pwm(0, 128).unwrap();
    assert_eq!(w.frame, vec![0x50, 0x33, 0x3a, b'1', b'2', b'8', b'\n']);
    assert_eq!(w.value, "128");
    let w = d.set_dew_pwm(1, 255).unwrap();
    assert_eq!(w.property, "dew2_power");
    let w = d.set_adjustable_output(true).unwrap();
    assert_eq!(w.frame, vec![0x50, 0x31, 0x3a, b'1', b'\n']);
    let w = d.set_adjustable_output(false).unwrap();
    assert_eq!(w.value, "0");
}

#[test]
fn firmware_version_is_best_effort() {
    let mut d = connected();
    d.update_firmware_version(Reply::TimedOut);
    assert_eq!(value(&d, "firmware_version"), "UNKNOWN");
    d.update_firmware_version(line("1.4"));
    assert_eq!(value(&d, "firmware_version"), "1.4");
    d.update_firmware_version(Reply::Failed);
    assert_eq!(value(&d, "firmware_version"), "1.4");
}

#[test]
fn full_refresh_fills_all_groups() {
    let mut d = connected();
    let (cycle, first) = RefreshCycle::start();
    assert_eq!(first, vec![b'P', b'S', b'\n']);
    assert!(cycle.is_active());
    assert_eq!(refresh(&mut d, &[line(STATS), line(METRICS), line(READINGS)]), Ok(()));
    assert_eq!(value(&d, "average_amps"), "0.45");
    assert_eq!(value(&d, "uptime"), "86400");
    assert_eq!(value(&d, "total_current"), "1.5");
    assert_eq!(value(&d, "current_dewB"), "0.4");
    assert_eq!(value(&d, "input_voltage"), "12.2");
    assert_eq!(value(&d, "quadport_status"), "1");
    assert_eq!(value(&d, "dew1_power"), "128");
    assert_eq!(value(&d, "adjustable_output"), "9");
}

#[test]
fn refresh_steps_through_groups() {
    let mut d = connected();
    let (mut cycle, _) = RefreshCycle::start();
    match d.fetch_props(&mut cycle, line(STATS)) {
        RefreshStep::Send(f) => assert_eq!(f, vec![b'P', b'C', b'\n']),
        other => panic!("unexpected {:?}", other),
    }
    match d.fetch_props(&mut cycle, line(METRICS)) {
        RefreshStep::Send(f) => assert_eq!(f, vec![b'P', b'A', b'\n']),
        other => panic!("unexpected {:?}", other),
    }
    assert!(matches!(d.fetch_props(&mut cycle, line(READINGS)), RefreshStep::Finished(Ok(()))));
    assert_eq!(cycle.next_group, GROUP_COUNT);
    assert!(!cycle.is_active());
    assert!(matches!(d.fetch_props(&mut cycle, line(READINGS)), RefreshStep::Finished(Ok(()))));
}

#[test]
fn refresh_twice_is_idempotent() {
    let mut d = connected();
    let answers = [line(STATS), line(METRICS), line(READINGS)];
    assert_eq!(refresh(&mut d, &answers), Ok(()));
    let once = snapshot(&d);
    assert_eq!(refresh(&mut d, &answers), Ok(()));
    assert_eq!(snapshot(&d), once);
}

#[test]
fn timeout_in_second_group_keeps_first() {
    let mut d = connected();
    let before = snapshot(&d);
    let r = refresh(&mut d, &[line(STATS), Reply::TimedOut]);
    assert_eq!(r, Err(DeviceError::Timeout));
    assert_eq!(value(&d, "average_amps"), "0.45");
    assert_eq!(value(&d, "amps_hours"), "1.2");
    let after = snapshot(&d);
    assert_eq!(after[4..], before[4..]);
}

#[test]
fn malformed_group_is_not_applied() {
    let mut d = connected();
    let before = snapshot(&d);
    assert_eq!(refresh(&mut d, &[line("PS:0.45:1.2")]), Err(DeviceError::InvalidValue));
    assert_eq!(refresh(&mut d, &[line("PS:0.45:1.2:x:4")]), Err(DeviceError::InvalidValue));
    assert_eq!(snapshot(&d), before);
}

#[test]
fn init_props_resets_table() {
    let mut d = connected();
    assert_eq!(refresh(&mut d, &[line(STATS), line(METRICS), line(READINGS)]), Ok(()));
    d.init_props();
    assert_eq!(value(&d, "average_amps"), "0");
    assert_eq!(d.get_properties().len(), 23);
}
