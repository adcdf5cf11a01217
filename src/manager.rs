//! The device manager's decisions: which ports are power boxes, the
//! registry of served devices, the message-bus topics, and what to do after
//! a refresh or a failed write.
use vstd::prelude::*;
use vstd::string::StrSliceExecFns;
use vstd::string::StringExecFns;
use vstd::string::StringSliceAdditionalSpecFns;
use crate::device::{decimal, decimal_text, device_id_for, oid_name_uuid};
use crate::table::text_eq;
use crate::error::DeviceError;
use crate::protocol::{split_fields, split_on};

verus! {

// ---------------------------------------------------------------- discovery

/// What the platform reports of a USB serial adapter.
#[derive(Debug)]
pub struct UsbPortInfo {
    pub vid: u16,
    pub pid: u16,
    pub serial_number: Option<String>,
    pub manufacturer: Option<String>,
    pub product: Option<String>,
}

/// The kind of a serial port.
#[derive(Debug)]
pub enum SerialPortType {
    UsbPort(UsbPortInfo),
    PciPort,
    BluetoothPort,
    Unknown,
}

/// A serial port that the platform lists.
#[derive(Debug)]
pub struct SerialPortInfo {
    pub port_name: String,
    pub port_type: SerialPortType,
}

/// Whether `s` begins with `prefix`.
pub open spec fn has_prefix(s: Seq<char>, prefix: Seq<char>) -> bool {
    s.len() >= prefix.len() && s.take(prefix.len() as int) == prefix
}

/// A port is a device of the product when it is a USB port whose serial
/// number begins with the product's prefix.
pub open spec fn is_product_port(p: SerialPortInfo, prefix: Seq<char>) -> bool {
    match p.port_type {
        SerialPortType::UsbPort(info) => match info.serial_number {
            Some(s) => has_prefix(s@, prefix),
            None => false,
        },
        _ => false,
    }
}

/// The ports of the product among `ports`, in the order they were listed,
/// each with its USB description.
pub open spec fn product_ports(ports: Seq<SerialPortInfo>, prefix: Seq<char>) -> Seq<(String, UsbPortInfo)>
    decreases ports.len(),
{
    if ports.len() == 0 {
        Seq::empty()
    } else {
        let rest = product_ports(ports.drop_last(), prefix);
        let p = ports.last();
        if is_product_port(p, prefix) {
            rest.push((p.port_name, p.port_type->UsbPort_0))
        } else {
            rest
        }
    }
}

/// Whether `s` begins with `prefix`.
pub fn starts_with(s: &str, prefix: &str) -> (r: bool)
    ensures
        r == has_prefix(s@, prefix@),
{
    let n = prefix.unicode_len();
    if s.unicode_len() < n {
        return false;
    }
    let mut i: usize = 0;
    while i < n
        invariant
            n == prefix@.len() <= s@.len(),
            i <= n,
            s@.take(i as int) == prefix@.take(i as int),
        decreases n - i,
    {
        if s.get_char(i) != prefix.get_char(i) {
            assert(s@.take(n as int)[i as int] != prefix@[i as int]);
            return false;
        }
        assert(s@.take(i + 1) =~= s@.take(i as int).push(s@[i as int]));
        assert(prefix@.take(i + 1) =~= prefix@.take(i as int).push(prefix@[i as int]));
        i = i + 1;
    }
    assert(prefix@.take(n as int) =~= prefix@);
    true
}

/// Picks the ports of the product whose serial numbers begin with
/// `device_name`, keeping the order in which they were listed.
pub fn look_for_devices(ports: Vec<SerialPortInfo>, device_name: &str) -> (r: Vec<(String, UsbPortInfo)>)
    ensures
        r@ == product_ports(ports@, device_name@),
{
    let ghost all = ports@;
    let mut rest = ports;
    let mut found: Vec<(String, UsbPortInfo)> = Vec::new();
    let ghost mut i: int = 0;
    while rest.len() > 0
        invariant
            0 <= i <= all.len(),
            rest@ == all.subrange(i, all.len() as int),
            found@ == product_ports(all.take(i), device_name@),
        decreases rest@.len(),
    {
        let p = rest.remove(0);
        proof {
            assert(p == all[i]);
            assert(all.take(i + 1).drop_last() =~= all.take(i));
            assert(all.take(i + 1).last() == p);
            i = i + 1;
            assert(rest@ =~= all.subrange(i, all.len() as int));
        }
        if let SerialPortType::UsbPort(info) = p.port_type {
            let selected = match &info.serial_number {
                Some(serial) => starts_with(serial.as_str(), device_name),
                None => false,
            };
            if selected {
                found.push((p.port_name, info));
            }
        }
    }
    assert(all.take(i) =~= all);
    found
}

/// The name under which a power box with serial number `serial` is known.
pub fn device_name_for(serial: &str) -> (r: String)
    ensures
        r@ == "PegausPowerBoxAdvanced-"@ + serial@,
{
    let mut name = String::from_str("PegausPowerBoxAdvanced-");
    name.append(serial);
    name
}

// ---------------------------------------------------------------- registry

/// Whether two entries share an identifier.
pub open spec fn ids_distinct<T>(e: Seq<(String, T)>) -> bool {
    forall|i: int, j: int| 0 <= i < j < e.len() ==> (#[trigger] e[i]).0@ != (#[trigger] e[j]).0@
}

/// The position of the entry with identifier `id`, if any.
pub open spec fn position_of<T>(e: Seq<(String, T)>, id: Seq<char>) -> Option<int> {
    if exists|i: int| 0 <= i < e.len() && (#[trigger] e[i]).0@ == id {
        Some(choose|i: int| 0 <= i < e.len() && (#[trigger] e[i]).0@ == id)
    } else {
        None
    }
}

/// The devices that are being served, each under its identifier. No two
/// entries share an identifier.
pub struct DeviceRegistry<T> {
    entries: Vec<(String, T)>,
}

impl<T> DeviceRegistry<T> {
    /// The entries, in the order they were added.
    pub closed spec fn entries(&self) -> Seq<(String, T)> {
        self.entries@
    }

    /// No two entries share an identifier.
    pub open spec fn wf(&self) -> bool {
        ids_distinct(self.entries())
    }

    /// Whether an entry has identifier `id`.
    pub open spec fn has(&self, id: Seq<char>) -> bool {
        position_of(self.entries(), id) is Some
    }

    /// An empty registry.
    pub fn new() -> (r: Self)
        ensures
            r.entries() == Seq::<(String, T)>::empty(),
            r.wf(),
    {
        DeviceRegistry { entries: Vec::new() }
    }

    /// The number of devices.
    pub fn len(&self) -> (r: usize)
        ensures
            r == self.entries().len(),
    {
        self.entries.len()
    }

    fn find(&self, id: &str) -> (r: Option<usize>)
        ensures
            match r {
                Some(i) => i < self.entries().len() && self.entries()[i as int].0@ == id@,
                None => !self.has(id@),
            },
            r is Some <==> self.has(id@),
    {
        let mut i: usize = 0;
        while i < self.entries.len()
            invariant
                i <= self.entries@.len(),
                forall|k: int| 0 <= k < i ==> (#[trigger] self.entries@[k]).0@ != id@,
            decreases self.entries@.len() - i,
        {
            if text_eq(self.entries[i].0.as_str(), id) {
                return Some(i);
            }
            i = i + 1;
        }
        None
    }

    /// Whether a device with identifier `id` is registered.
    pub fn contains(&self, id: &str) -> (r: bool)
        ensures
            r == self.has(id@),
    {
        self.find(id).is_some()
    }

    /// The device registered under `id`.
    pub fn get(&self, id: &str) -> (r: Option<&T>)
        ensures
            r is Some <==> self.has(id@),
            r matches Some(v) ==> exists|i: int|
                0 <= i < self.entries().len() && (#[trigger] self.entries()[i]).0@ == id@ && self.entries()[i].1 == *v,
    {
        match self.find(id) {
            Some(i) => Some(&self.entries[i].1),
            None => None,
        }
    }

    /// Registers `device` under `id` unless a device is registered under it
    /// already, in which case nothing changes. Says whether it registered.
    pub fn insert(&mut self, id: String, device: T) -> (r: bool)
        ensures
            old(self).wf() ==> final(self).wf(),
            r == !old(self).has(id@),
            r ==> final(self).entries() == old(self).entries().push((id, device)),
            !r ==> final(self).entries() == old(self).entries(),
    {
        if self.contains(id.as_str()) {
            return false;
        }
        self.entries.push((id, device));
        proof {
            let e = self.entries@;
            assert forall|i: int, j: int| old(self).wf() && 0 <= i < j < e.len() implies (#[trigger] e[i]).0@ != (#[trigger] e[j]).0@ by {
                if j == e.len() - 1 {
                    assert(e[i] == old(self).entries@[i]);
                }
            }
        }
        true
    }

    /// Removes the device registered under `id` and hands it back.
    pub fn remove(&mut self, id: &str) -> (r: Option<T>)
        ensures
            old(self).wf() ==> final(self).wf() && !final(self).has(id@),
            r is Some <==> old(self).has(id@),
            match r {
                Some(v) => exists|i: int|
                    0 <= i < old(self).entries().len() && (#[trigger] old(self).entries()[i]).0@ == id@
                        && old(self).entries()[i].1 == v && final(self).entries() == old(self).entries().remove(i),
                None => final(self).entries() == old(self).entries(),
            },
    {
        match self.find(id) {
            None => None,
            Some(i) => {
                let (_, device) = self.entries.remove(i);
                proof {
                    let e = self.entries@;
                    let o = old(self).entries@;
                    assert forall|a: int, b: int| old(self).wf() && 0 <= a < b < e.len() implies (#[trigger] e[a]).0@ != (#[trigger] e[b]).0@ by {
                        let oa = if a < i { a } else { a + 1 };
                        let ob = if b < i { b } else { b + 1 };
                        assert(e[a] == o[oa] && e[b] == o[ob]);
                    }
                    assert forall|k: int| old(self).wf() && 0 <= k < e.len() implies (#[trigger] e[k]).0@ != id@ by {
                        let ok = if k < i { k } else { k + 1 };
                        assert(e[k] == o[ok]);
                        assert(o[i as int].0@ == id@);
                    }
                }
                Some(device)
            },
        }
    }

    /// Decides whether the device called `device_name` is new: its stable
    /// identifier when no device is registered under it, nothing otherwise.
    pub fn plan_add(&self, device_name: &str) -> (r: Option<String>)
        ensures
            r is Some <==> !self.has(oid_name_uuid(device_name.spec_bytes())),
            r matches Some(id) ==> id@ == oid_name_uuid(device_name.spec_bytes()),
    {
        let id = device_id_for(device_name);
        if self.contains(id.as_str()) {
            None
        } else {
            Some(id)
        }
    }
}

// ---------------------------------------------------------------- control plane

/// `devices/` followed by `id`.
fn device_topic(id: &str) -> (r: String)
    ensures
        r@ == "devices/"@ + id@,
{
    let mut t = String::from_str("devices/");
    t.append(id);
    t
}

/// The topic on which the state of device `id` is published.
pub fn state_topic(id: &str) -> (r: String)
    ensures
        r@ == "devices/"@ + id@,
{
    device_topic(id)
}

/// The topic on which changes to the properties of device `id` are asked.
pub fn update_topic(id: &str) -> (r: String)
    ensures
        r@ == "devices/"@ + id@ + "/update"@,
{
    let mut t = device_topic(id);
    t.append("/update");
    t
}

/// The topic on which failed property changes of device `id` are reported.
pub fn update_error_topic(id: &str) -> (r: String)
    ensures
        r@ == "devices/"@ + id@ + "/update/error"@,
{
    let mut t = device_topic(id);
    t.append("/update/error");
    t
}

/// The topic that announces, or asks for, the removal of device `id`.
pub fn delete_topic(id: &str) -> (r: String)
    ensures
        r@ == "devices/"@ + id@ + "/delete"@,
{
    let mut t = device_topic(id);
    t.append("/delete");
    t
}

/// The topic that announces a new device of a product.
pub fn new_device_topic(product: &str) -> (r: String)
    ensures
        r@ == "devices/"@ + product@ + "/new"@,
{
    let mut t = device_topic(product);
    t.append("/new");
    t
}

/// A topic of the form `devices/{id}/{action}`, as its id and action.
pub open spec fn topic_parts(topic: Seq<char>) -> Option<(Seq<char>, Seq<char>)> {
    let f = split_on(topic, '/');
    if f.len() == 3 && f[0] == "devices"@ {
        Some((f[1], f[2]))
    } else {
        None
    }
}

/// What an inbound message asks for.
#[derive(Debug)]
pub enum Inbound {
    /// Change a property of the device with this identifier.
    Update(String),
    /// Remove the device with this identifier.
    Delete(String),
    /// A new device was announced.
    NewDevice,
    /// Nothing that this driver handles.
    Ignored,
}

/// Reads what an inbound message on `topic` asks for.
pub fn route_topic(topic: &str) -> (r: Inbound)
    ensures
        match topic_parts(topic@) {
            Some((id, action)) => if action == "update"@ {
                r matches Inbound::Update(x) && x@ == id
            } else if action == "delete"@ {
                r matches Inbound::Delete(x) && x@ == id
            } else if action == "new"@ {
                r matches Inbound::NewDevice
            } else {
                r matches Inbound::Ignored
            },
            None => r matches Inbound::Ignored,
        },
{
    let mut fields = split_fields(topic, '/');
    let ghost f = split_on(topic@, '/');
    assert(f.len() == fields@.len());
    if fields.len() != 3 || !text_eq(fields[0].as_str(), "devices") {
        proof {
            if fields.len() == 3 {
                assert(f[0] == fields@[0]@);
            }
        }
        return Inbound::Ignored;
    }
    assert(f[0] == fields@[0]@ && f[1] == fields@[1]@ && f[2] == fields@[2]@);
    let action = fields.pop().unwrap();
    let id = fields.pop().unwrap();
    if text_eq(action.as_str(), "update") {
        Inbound::Update(id)
    } else if text_eq(action.as_str(), "delete") {
        Inbound::Delete(id)
    } else if text_eq(action.as_str(), "new") {
        Inbound::NewDevice
    } else {
        Inbound::Ignored
    }
}

/// What the refresh loop of a device does after a refresh.
#[derive(Debug)]
pub enum LoopAction {
    /// Publish the device's state on this topic, then wait for the next
    /// refresh.
    Publish(String),
    /// Announce the device's removal on this topic and end the loop. A
    /// failed hardware session is not retried.
    Retire(String),
}

/// Decides what the refresh loop of device `id` does after a refresh that
/// ended with `result`.
pub fn after_refresh(id: &str, result: &Result<(), DeviceError>) -> (r: LoopAction)
    ensures
        result is Ok ==> (r matches LoopAction::Publish(t) && t@ == "devices/"@ + id@),
        result is Err ==> (r matches LoopAction::Retire(t) && t@ == "devices/"@ + id@ + "/delete"@),
{
    match result {
        Ok(()) => LoopAction::Publish(state_topic(id)),
        Err(_) => LoopAction::Retire(delete_topic(id)),
    }
}

/// Whether a failed property change means the device is gone: only a
/// failure of the serial link does.
pub fn removes_device(e: DeviceError) -> (r: bool)
    ensures
        r == (e == DeviceError::ComError),
{
    match e {
        DeviceError::ComError => true,
        _ => false,
    }
}

/// Checks a remote request to set a property before any device is looked
/// up: none of its parts may be empty.
pub fn check_set_property(device_id: &str, property_name: &str, property_value: &str) -> (r: Result<(), DeviceError>)
    ensures
        r is Ok <==> (device_id@.len() > 0 && property_name@.len() > 0 && property_value@.len() > 0),
        r is Err ==> r == Err::<(), DeviceError>(DeviceError::InvalidValue),
{
    if device_id.unicode_len() == 0 || property_name.unicode_len() == 0 || property_value.unicode_len() == 0 {
        Err(DeviceError::InvalidValue)
    } else {
        Ok(())
    }
}

/// A value in a request to change a property.
#[derive(Debug)]
pub enum RequestValue {
    Int(u32),
    Bool(bool),
    Text(String),
}

/// The text that a requested value is written as on the device: decimal
/// digits for a number, `1` or `0` for a boolean.
pub fn request_text(v: RequestValue) -> (r: String)
    ensures
        match v {
            RequestValue::Int(n) => r@ == decimal_text(n as nat),
            RequestValue::Bool(b) => r@ == if b { "1"@ } else { "0"@ },
            RequestValue::Text(s) => r@ == s@,
        },
{
    match v {
        RequestValue::Int(n) => decimal(n),
        RequestValue::Bool(true) => String::from_str("1"),
        RequestValue::Bool(false) => String::from_str("0"),
        RequestValue::Text(s) => s,
    }
}

} // verus!
