use pegasus_astro::error::DeviceError;
use pegasus_astro::manager::{
    after_refresh, check_set_property, delete_topic, device_name_for, look_for_devices, new_device_topic,
    removes_device, request_text, route_topic, state_topic, update_error_topic, update_topic, DeviceRegistry,
    Inbound, LoopAction, RequestValue, SerialPortInfo, SerialPortType, UsbPortInfo,
};

fn usb(name: &str, serial: Option<&str>) -> SerialPortInfo {
    SerialPortInfo {
        port_name: name.to_string(),
        port_type: SerialPortType::UsbPort(UsbPortInfo {
            vid: 0x0403,
            pid: 0x6015,
            serial_number: serial.map(|s| s.to_string()),
            manufacturer: None,
            product: None,
        }),
    }
}

#[test]
fn discovery_keeps_product_ports_in_order() {
    let ports = vec![
        usb("/dev/ttyUSB0", Some("PPBA0001")),
        usb("/dev/ttyUSB1", Some("XXXX0001")),
        SerialPortInfo { port_name: "/dev/ttyS0".to_string(), port_type: SerialPortType::Unknown },
        usb("/dev/ttyUSB2", None),
        usb("/dev/ttyUSB3", Some("PPB")),
        usb("/dev/ttyUSB4", Some("PPBA0002")),
        SerialPortInfo { port_name: "/dev/ttyS1".to_string(), port_type: SerialPortType::PciPort },
    ];
    let found = look_for_devices(ports, "PPBA");
    let names: Vec<&str> = found.iter().map(|(n, _)| n.as_str()).collect();
    assert_eq!(names, vec!["/dev/ttyUSB0", "/dev/ttyUSB4"]);
    assert_eq!(found[1].1.serial_number.as_deref(), Some("PPBA0002"));
    assert!(look_for_devices(Vec::new(), "PPBA").is_empty());
}

#[test]
fn device_names() {
    assert_eq!(device_name_for("PPBA1234"), "PegausPowerBoxAdvanced-PPBA1234");
}

#[test]
fn registry_keeps_one_entry_per_id() {
    let mut reg: DeviceRegistry<u32> = DeviceRegistry::new();
    assert_eq!(reg.len(), 0);
    let name = device_name_for("PPBA1234");
    let id = reg.plan_add(&name).unwrap();
    assert_eq!(id, "aa7ec6da-ded9-5d5d-b84b-ec29ad20e19b");
    assert!(reg.insert(id.clone(), 7));
    assert!(reg.contains(&id));
    assert_eq!(reg.plan_add(&name), None);
    assert!(!reg.insert(id.clone(), 8));
    assert_eq!(reg.get(&id), Some(&7));
    assert!(reg.insert("other".to_string(), 9));
    assert_eq!(reg.len(), 2);
    assert_eq!(reg.remove(&id), Some(7));
    assert_eq!(reg.remove(&id), None);
    assert!(!reg.contains(&id));
    assert_eq!(reg.get("other"), Some(&9));
    assert_eq!(reg.len(), 1);
}

#[test]
fn topics() {
    assert_eq!(state_topic("abc"), "devices/abc");
    assert_eq!(update_topic("abc"), "devices/abc/update");
    assert_eq!(update_error_topic("abc"), "devices/abc/update/error");
    assert_eq!(delete_topic("abc"), "devices/abc/delete");
    assert_eq!(new_device_topic("ppba"), "devices/ppba/new");
}

#[test]
fn inbound_routing() {
    assert!(matches!(route_topic("devices/abc/update"), Inbound::Update(id) if id == "abc"));
    assert!(matches!(route_topic("devices/abc/delete"), Inbound::Delete(id) if id == "abc"));
    assert!(matches!(route_topic("devices/ppba/new"), Inbound::NewDevice));
    assert!(matches!(route_topic("devices/abc/other"), Inbound::Ignored));
    assert!(matches!(route_topic("devices/abc"), Inbound::Ignored));
    assert!(matches!(route_topic("things/abc/update"), Inbound::Ignored));
    assert!(matches!(route_topic("devices/abc/update/error"), Inbound::Ignored));
}

#[test]
fn refresh_loop_is_fail_fast() {
    assert!(matches!(after_refresh("abc", &Ok(())), LoopAction::Publish(t) if t == "devices/abc"));
    assert!(matches!(after_refresh("abc", &Err(DeviceError::Timeout)), LoopAction::Retire(t) if t == "devices/abc/delete"));
}

#[test]
fn only_link_failures_remove_devices() {
    assert!(removes_device(DeviceError::ComError));
    assert!(!removes_device(DeviceError::Timeout));
    assert!(!removes_device(DeviceError::InvalidValue));
    assert!(!removes_device(DeviceError::UnknownProperty));
}

#[test]
fn set_property_requests_need_all_parts() {
    assert_eq!(check_set_property("", "a", "b"), Err(DeviceError::InvalidValue));
    assert_eq!(check_set_property("id", "", "b"), Err(DeviceError::InvalidValue));
    assert_eq!(check_set_property("id", "a", ""), Err(DeviceError::InvalidValue));
    assert_eq!(check_set_property("id", "a", "b"), Ok(()));
}

#[test]
fn request_values_as_text() {
    assert_eq!(request_text(RequestValue::Int(128)), "128");
    assert_eq!(request_text(RequestValue::Int(0)), "0");
    assert_eq!(request_text(RequestValue::Bool(true)), "1");
    assert_eq!(request_text(RequestValue::Bool(false)), "0");
    assert_eq!(request_text(RequestValue::Text("1111".to_string())), "1111");
}
