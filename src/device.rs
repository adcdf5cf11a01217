//! One power box: writes to its properties, the refresh cycle that reads
//! them back, and the laws that these obey.
use vstd::prelude::*;
use vstd::string::StrSliceExecFns;
use vstd::string::StringExecFns;
use vstd::string::StringSliceAdditionalSpecFns;
use vstd::utf8::encode_utf8;
use crate::error::DeviceError;
use crate::properties::{fits_kind, views, Permission, Property, PropertyView};
use crate::protocol::{encode_command, read_reply, reply_result, request_frame, split_fields, split_on, texts, Command, Reply};
use crate::table::{
    index_from, index_of, initial_properties, initial_table, lemma_index_from, lemma_initial_names_distinct,
    lemma_initial_wf, same_layout, table_wf, text_eq, FIRMWARE_INDEX,
};

verus! {

// ---------------------------------------------------------------- writes

/// The command that writes a property on the device, and whether the value
/// travels with it.
pub open spec fn write_command(n: Seq<char>) -> Option<(Command, bool)> {
    if n == "adjustable_output"@ {
        Some((Command::Adj12VOutput, true))
    } else if n == "quadport_status"@ {
        Some((Command::QuadPortStatus, true))
    } else if n == "dew1_power"@ {
        Some((Command::Dew1Power, true))
    } else if n == "dew2_power"@ {
        Some((Command::Dew2Power, true))
    } else if n == "power_status_on_boot"@ {
        Some((Command::PowerStatusOnBoot, true))
    } else if n == "reboot"@ {
        Some((Command::Reboot, false))
    } else {
        None
    }
}

/// The frame that writes value `v` to the property named `n`.
pub open spec fn write_frame(n: Seq<char>, v: Seq<char>) -> Option<Seq<u8>> {
    match write_command(n) {
        Some((c, true)) => Some(request_frame(c, encode_utf8(v))),
        Some((c, false)) => Some(request_frame(c, Seq::empty())),
        None => None,
    }
}

/// Whether writing `v` to the property named `n` may be sent to the device,
/// and if so, the position of the property.
pub open spec fn write_check(t: Seq<PropertyView>, n: Seq<char>, v: Seq<char>) -> Result<int, DeviceError> {
    match index_of(t, n) {
        None => Err(DeviceError::UnknownProperty),
        Some(i) => if t[i].permission == Permission::ReadOnly {
            Err(DeviceError::CannotUpdateReadOnlyProperty)
        } else if !fits_kind(t[i].kind, v) {
            Err(DeviceError::InvalidValue)
        } else if write_command(n) is None {
            Err(DeviceError::UnknownProperty)
        } else {
            Ok(i)
        },
    }
}

/// The value that a confirmed write of `v` leaves in the table. Writing `0`
/// or `1` to the adjustable output switches it rather than setting its
/// level, so the stored level stays; the switch state is read back by the
/// next refresh.
pub open spec fn stored_value(n: Seq<char>, v: Seq<char>, old: Seq<char>) -> Seq<char> {
    if n == "adjustable_output"@ && (v == seq!['0'] || v == seq!['1']) {
        old
    } else {
        v
    }
}

/// The table and result after a write of `v` to the property named `n`,
/// whose frame the device answered with `reply`.
pub open spec fn update_outcome(t: Seq<PropertyView>, n: Seq<char>, v: Seq<char>, reply: Reply) -> (Seq<PropertyView>, Result<(), DeviceError>) {
    match write_check(t, n, v) {
        Err(e) => (t, Err(e)),
        Ok(i) => match reply_result(reply) {
            Err(e) => (t, Err(e)),
            Ok(_) => (
                t.update(i, PropertyView { value: stored_value(n, v, t[i].value), ..t[i] }),
                Ok(()),
            ),
        },
    }
}

/// What any model of an astronomical device offers its driver. The device's
/// remote writes go through `update_property_remote`, whose frame the driver
/// sends, and `update_property`, which takes the device's answer.
pub trait AstronomicalDevice {
    /// Sets the property table to its initial state.
    fn init_props(&mut self);

    /// The property table.
    fn get_properties(&self) -> &Vec<Property>;

    /// Applies a write of `val` to `prop_name`, given how the device answered
    /// the write's frame.
    fn update_property(&mut self, prop_name: &str, val: &str, reply: Reply) -> Result<(), DeviceError>;

    /// The frame that writes `val` to `prop_name` on the device.
    fn update_property_remote(&self, prop_name: &str, val: &str) -> Result<Vec<u8>, DeviceError>;

    /// The position of the first property called `prop_name`.
    fn find_property_index(&self, prop_name: &str) -> Option<usize>;
}

// ---------------------------------------------------------------- refresh

/// Number of fetch groups in a refresh cycle.
pub const GROUP_COUNT: usize = 3;

/// The query command of each fetch group: consumption and statistics,
/// power metrics, then power and sensor readings.
pub open spec fn group_command(g: int) -> Command {
    if g == 0 {
        Command::PowerConsumAndStats
    } else if g == 1 {
        Command::PowerMetrics
    } else {
        Command::PowerAndSensorReadings
    }
}

/// The table position of a group's first entry.
pub open spec fn group_base(g: int) -> int {
    if g == 0 {
        0
    } else if g == 1 {
        4
    } else {
        8
    }
}

/// The number of table entries that a group fills.
pub open spec fn group_len(g: int) -> int {
    if g == 0 {
        4
    } else if g == 1 {
        4
    } else {
        12
    }
}

/// The frame that queries group `g`.
pub open spec fn group_frame(g: int) -> Seq<u8> {
    request_frame(group_command(g), Seq::empty())
}

/// The values that a group's response carries for the table. Field `k + 1`
/// of the response (after its leading tag) is the value of the group's entry
/// `k`; fields beyond the group are ignored. A response with too few fields,
/// or with a field malformed for its entry's kind, carries nothing.
pub open spec fn group_values(t: Seq<PropertyView>, g: int, text: Seq<char>) -> Option<Seq<Seq<char>>> {
    let f = split_on(text, ':');
    let b = group_base(g);
    let n = group_len(g);
    if f.len() >= n + 1 && b + n <= t.len() && (forall|k: int| 0 <= k < n ==> fits_kind(t[b + k].kind, #[trigger] f[k + 1])) {
        Some(f.subrange(1, n + 1))
    } else {
        None
    }
}

/// `t` with the values of group `g` replaced by `vals`.
pub open spec fn merge_group(t: Seq<PropertyView>, g: int, vals: Seq<Seq<char>>) -> Seq<PropertyView> {
    Seq::new(
        t.len(),
        |i: int|
            if group_base(g) <= i < group_base(g) + group_len(g) {
                PropertyView { value: vals[i - group_base(g)], ..t[i] }
            } else {
                t[i]
            },
    )
}

/// The table and result after group `g` was fetched with `reply`. Nothing
/// of the table changes unless the whole group is applied.
pub open spec fn group_step(t: Seq<PropertyView>, g: int, reply: Reply) -> (Seq<PropertyView>, Result<(), DeviceError>) {
    match reply_result(reply) {
        Err(e) => (t, Err(e)),
        Ok(text) => match group_values(t, g, text) {
            None => (t, Err(DeviceError::InvalidValue)),
            Some(vals) => (merge_group(t, g, vals), Ok(())),
        },
    }
}

/// The table and result of a refresh from group `g` on, the device
/// answering group `k` with `replies[k]`: the groups run in order, and the
/// first failure ends the refresh, leaving later groups as they were.
pub open spec fn run_groups(t: Seq<PropertyView>, g: nat, replies: Seq<Reply>) -> (Seq<PropertyView>, Result<(), DeviceError>)
    decreases 3 - g,
{
    if g >= 3 {
        (t, Ok(()))
    } else {
        let (t1, r) = group_step(t, g as int, replies[g as int]);
        if r is Err {
            (t1, r)
        } else {
            run_groups(t1, g + 1, replies)
        }
    }
}

/// The state of one refresh cycle: the group to fetch next. The cycle is
/// over once it reaches `GROUP_COUNT`.
pub struct RefreshCycle {
    pub next_group: usize,
}

/// What the caller does after a step of a refresh cycle.
#[derive(Debug)]
pub enum RefreshStep {
    /// Send this frame and hand the device's answer to the next step.
    Send(Vec<u8>),
    /// The cycle is over, with this result.
    Finished(Result<(), DeviceError>),
}

fn group_frame_exec(g: usize) -> (r: Vec<u8>)
    ensures
        r@ == group_frame(g as int),
{
    let cmd = if g == 0 {
        Command::PowerConsumAndStats
    } else if g == 1 {
        Command::PowerMetrics
    } else {
        Command::PowerAndSensorReadings
    };
    encode_command(cmd, None)
}

impl RefreshCycle {
    /// Begins a refresh cycle: the cycle, and the frame of its first query.
    pub fn start() -> (r: (RefreshCycle, Vec<u8>))
        ensures
            r.0.next_group == 0,
            r.1@ == group_frame(0),
    {
        (RefreshCycle { next_group: 0 }, group_frame_exec(0))
    }

    /// Whether the cycle still waits for an answer.
    pub fn is_active(&self) -> (r: bool)
        ensures
            r == (self.next_group < GROUP_COUNT),
    {
        self.next_group < GROUP_COUNT
    }
}

// ---------------------------------------------------------------- identity

/// The identifier that the OID-namespace, name-based (SHA-1) UUID scheme
/// gives to a name, in its hyphenated text form.
pub uninterp spec fn oid_name_uuid(name: Seq<u8>) -> Seq<char>;

/// Relies on `uuid::Uuid::new_v5` with `Uuid::NAMESPACE_OID`, written out by
/// its `Display` impl: the text depends on the name's bytes alone, so a unit
/// that reconnects under the same name gets the same identifier.
#[verifier::external_body]
fn name_uuid(name: &str) -> (r: String)
    ensures
        r@ == oid_name_uuid(name.spec_bytes()),
{
    uuid::Uuid::new_v5(&uuid::Uuid::NAMESPACE_OID, name.as_bytes()).to_string()
}

/// The stable identifier of the device called `name`.
pub fn device_id_for(name: &str) -> (r: String)
    ensures
        r@ == oid_name_uuid(name.spec_bytes()),
{
    name_uuid(name)
}

// ---------------------------------------------------------------- device

/// One power box: its identity, where it is attached, and the model of its
/// properties. The serial connection itself belongs to the caller, which
/// performs the exchanges that this model asks for.
pub struct BaseDevice {
    pub id: String,
    pub name: String,
    pub address: String,
    pub baud: u32,
    pub properties: Vec<Property>,
}

/// The power box device.
pub type PowerBoxDevice = BaseDevice;

/// The power box device, under the name its driver uses.
pub type PegasusPowerBox = BaseDevice;

impl BaseDevice {
    /// The property table as plain values.
    pub open spec fn table(&self) -> Seq<PropertyView> {
        views(self.properties@)
    }

    /// The device's table has its fixed layout and well-formed values.
    pub open spec fn wf(&self) -> bool {
        table_wf(self.table())
    }

    /// Whether `other` is this device with another property table.
    pub open spec fn same_identity(&self, other: &BaseDevice) -> bool {
        &&& self.id@ == other.id@
        &&& self.name@ == other.name@
        &&& self.address@ == other.address@
        &&& self.baud == other.baud
    }

    /// The frame of the startup probe.
    pub fn probe_request() -> (r: Vec<u8>)
        ensures
            r@ == request_frame(Command::Status, Seq::empty()),
    {
        encode_command(Command::Status, None)
    }

    /// Creates the model of the device called `name` at `address`, once the
    /// port is open and the startup probe was answered by `probe`. A probe
    /// that ended in any error means the device cannot be used.
    pub fn new(name: &str, address: &str, baud: u32, probe: Reply) -> (r: Result<BaseDevice, DeviceError>)
        ensures
            r is Ok <==> reply_result(probe) is Ok,
            r is Err ==> r == Err::<BaseDevice, DeviceError>(DeviceError::CannotConnect),
            r matches Ok(d) ==> {
                &&& d.id@ == oid_name_uuid(name.spec_bytes())
                &&& d.name@ == name@
                &&& d.address@ == address@
                &&& d.baud == baud
                &&& d.table() == initial_table()
                &&& d.wf()
            },
    {
        match read_reply(&probe) {
            Err(_) => Err(DeviceError::CannotConnect),
            Ok(_) => {
                let d = BaseDevice {
                    id: name_uuid(name),
                    name: String::from_str(name),
                    address: String::from_str(address),
                    baud,
                    properties: initial_properties(),
                };
                proof {
                    lemma_initial_wf();
                }
                Ok(d)
            },
        }
    }
}

impl BaseDevice {
    /// Looks a property up by name; the first match wins.
    fn find_index(&self, prop_name: &str) -> (r: Option<usize>)
        ensures
            match r {
                Some(i) => index_of(self.table(), prop_name@) == Some(i as int),
                None => index_of(self.table(), prop_name@) is None,
            },
            r matches Some(i) ==> i < self.properties@.len(),
    {
        let ghost t = self.table();
        proof {
            lemma_index_from(t, prop_name@, 0);
        }
        let n = self.properties.len();
        let mut i: usize = 0;
        while i < n
            invariant
                n == self.properties@.len() == t.len(),
                t == self.table(),
                i <= n,
                index_of(t, prop_name@) == index_from(t, prop_name@, i as int),
            decreases n - i,
        {
            assert(t[i as int] == self.properties@[i as int]@);
            if text_eq(self.properties[i].name.as_str(), prop_name) {
                return Some(i);
            }
            i = i + 1;
        }
        None
    }

    /// Decides whether a write may be sent, as `write_check` says.
    fn check_write(&self, prop_name: &str, val: &str) -> (r: Result<usize, DeviceError>)
        ensures
            match r {
                Ok(i) => write_check(self.table(), prop_name@, val@) == Ok::<int, DeviceError>(i as int),
                Err(e) => write_check(self.table(), prop_name@, val@) == Err::<int, DeviceError>(e),
            },
            r matches Ok(i) ==> i < self.properties@.len(),
    {
        proof {
            lemma_index_from(self.table(), prop_name@, 0);
        }
        match self.find_index(prop_name) {
            None => Err(DeviceError::UnknownProperty),
            Some(i) => {
                let p = &self.properties[i];
                assert(self.table()[i as int] == p@);
                if p.permission == Permission::ReadOnly {
                    Err(DeviceError::CannotUpdateReadOnlyProperty)
                } else if !p.kind.accepts(val) {
                    Err(DeviceError::InvalidValue)
                } else if write_command_for(prop_name).is_none() {
                    Err(DeviceError::UnknownProperty)
                } else {
                    Ok(i)
                }
            },
        }
    }
}

/// The remote write command of a property name, as `write_command` says.
fn write_command_for(name: &str) -> (r: Option<(Command, bool)>)
    ensures
        r == write_command(name@),
{
    if text_eq(name, "adjustable_output") {
        Some((Command::Adj12VOutput, true))
    } else if text_eq(name, "quadport_status") {
        Some((Command::QuadPortStatus, true))
    } else if text_eq(name, "dew1_power") {
        Some((Command::Dew1Power, true))
    } else if text_eq(name, "dew2_power") {
        Some((Command::Dew2Power, true))
    } else if text_eq(name, "power_status_on_boot") {
        Some((Command::PowerStatusOnBoot, true))
    } else if text_eq(name, "reboot") {
        Some((Command::Reboot, false))
    } else {
        None
    }
}

impl AstronomicalDevice for BaseDevice {
    fn init_props(&mut self)
        ensures
            final(self).table() == initial_table(),
            final(self).wf(),
            final(self).same_identity(old(self)),
    {
        self.properties = initial_properties();
        proof {
            lemma_initial_wf();
        }
    }

    fn get_properties(&self) -> (r: &Vec<Property>)
        ensures
            views(r@) == self.table(),
    {
        &self.properties
    }

    fn update_property(&mut self, prop_name: &str, val: &str, reply: Reply) -> (r: Result<(), DeviceError>)
        ensures
            ({
                let (t, res) = update_outcome(old(self).table(), prop_name@, val@, reply);
                final(self).table() == t && r == res
            }),
            final(self).same_identity(old(self)),
            old(self).wf() ==> final(self).wf(),
    {
        let ghost t0 = self.table();
        proof {
            lemma_index_from(t0, prop_name@, 0);
        }
        match self.check_write(prop_name, val) {
            Err(e) => Err(e),
            Ok(i) => match read_reply(&reply) {
                Err(e) => Err(e),
                Ok(_) => {
                    proof {
                        reveal_strlit("0");
                        reveal_strlit("1");
                        assert("0"@ =~= seq!['0']);
                        assert("1"@ =~= seq!['1']);
                    }
                    if text_eq(prop_name, "adjustable_output") && (text_eq(val, "0") || text_eq(val, "1")) {
                        assert(t0.update(i as int, PropertyView { value: t0[i as int].value, ..t0[i as int] }) =~= t0);
                        return Ok(());
                    }
                    self.properties[i].value = String::from_str(val);
                    assert(self.table() =~= t0.update(i as int, PropertyView { value: val@, ..t0[i as int] }));
                    Ok(())
                },
            },
        }
    }

    fn update_property_remote(&self, prop_name: &str, val: &str) -> (r: Result<Vec<u8>, DeviceError>)
        ensures
            match write_frame(prop_name@, val@) {
                Some(f) => r is Ok && r->Ok_0@ == f,
                None => r == Err::<Vec<u8>, DeviceError>(DeviceError::UnknownProperty),
            },
    {
        match write_command_for(prop_name) {
            None => Err(DeviceError::UnknownProperty),
            Some((cmd, true)) => Ok(encode_command(cmd, Some(val))),
            Some((cmd, false)) => Ok(encode_command(cmd, None)),
        }
    }

    fn find_property_index(&self, prop_name: &str) -> (r: Option<usize>)
        ensures
            match r {
                Some(i) => index_of(self.table(), prop_name@) == Some(i as int),
                None => index_of(self.table(), prop_name@) is None,
            },
    {
        self.find_index(prop_name)
    }
}

impl BaseDevice {
    /// Fetches group `g` into the table from the device's answer `reply`.
    fn apply_group(&mut self, g: usize, reply: &Reply) -> (r: Result<(), DeviceError>)
        requires
            g < GROUP_COUNT,
        ensures
            ({
                let (t, res) = group_step(old(self).table(), g as int, *reply);
                final(self).table() == t && r == res
            }),
            final(self).same_identity(old(self)),
    {
        let text = match read_reply(reply) {
            Err(e) => {
                return Err(e);
            },
            Ok(text) => text,
        };
        let fields = split_fields(text.as_str(), ':');
        let ghost t0 = self.table();
        let ghost f = split_on(text@, ':');
        let b: usize = if g == 0 {
            0
        } else if g == 1 {
            4
        } else {
            8
        };
        let n: usize = if g == 2 {
            12
        } else {
            4
        };
        assert(f.len() == fields@.len());
        assert(t0.len() == self.properties@.len());
        if fields.len() < n + 1 || self.properties.len() < b + n {
            return Err(DeviceError::InvalidValue);
        }
        let mut k: usize = 0;
        while k < n
            invariant
                k <= n,
                b + n <= self.properties@.len(),
                n + 1 <= fields@.len(),
                t0 == self.table(),
                t0 == old(self).table(),
                f == split_on(text@, ':'),
                reply_result(*reply) == Ok::<Seq<char>, DeviceError>(text@),
                texts(fields@) == f,
                b == group_base(g as int),
                n == group_len(g as int),
                forall|m: int| 0 <= m < k ==> fits_kind(t0[b + m].kind, #[trigger] f[m + 1]),
            decreases n - k,
        {
            assert(t0[b + k] == self.properties@[b + k]@);
            assert(f[k + 1] == fields@[k + 1]@);
            if !self.properties[b + k].kind.accepts(fields[k + 1].as_str()) {
                return Err(DeviceError::InvalidValue);
            }
            k = k + 1;
        }
        let ghost vals = f.subrange(1, n + 1);
        assert(group_values(t0, g as int, text@) == Some(vals));
        k = 0;
        while k < n
            invariant
                k <= n,
                b + n <= self.properties@.len(),
                n + 1 <= fields@.len(),
                texts(fields@) == f,
                vals == f.subrange(1, n + 1),
                b == group_base(g as int),
                n == group_len(g as int),
                self.table().len() == t0.len(),
                forall|i: int|
                    0 <= i < t0.len() ==> #[trigger] self.table()[i] == if b <= i < b + k {
                        PropertyView { value: vals[i - b], ..t0[i] }
                    } else {
                        t0[i]
                    },
                self.same_identity(old(self)),
            decreases n - k,
        {
            let v = String::from_str(fields[k + 1].as_str());
            assert(v@ == f[k + 1]);
            assert(vals[k as int] == f[k + 1]);
            let ghost prev = self.table();
            self.properties[b + k].value = v;
            assert(self.table() =~= prev.update(b + k, PropertyView { value: v@, ..prev[b + k] }));
            k = k + 1;
        }
        assert(self.table() =~= merge_group(t0, g as int, vals));
        Ok(())
    }

    /// Takes the device's answer to the current query of a refresh cycle,
    /// fetches that group into the table and says what comes next: the next
    /// query, or the end of the cycle. A failed group ends the cycle with
    /// its error; groups fetched before it stay applied.
    pub fn fetch_props(&mut self, cycle: &mut RefreshCycle, reply: Reply) -> (r: RefreshStep)
        ensures
            final(self).same_identity(old(self)),
            old(self).wf() ==> final(self).wf(),
            old(cycle).next_group >= GROUP_COUNT ==> {
                &&& final(self).table() == old(self).table()
                &&& final(cycle).next_group == old(cycle).next_group
                &&& r == RefreshStep::Finished(Ok(()))
            },
            old(cycle).next_group < GROUP_COUNT ==> {
                let g = old(cycle).next_group as int;
                let (t, res) = group_step(old(self).table(), g, reply);
                &&& final(self).table() == t
                &&& res is Err ==> r == RefreshStep::Finished(res) && final(cycle).next_group == GROUP_COUNT
                &&& res is Ok && g + 1 < GROUP_COUNT ==> final(cycle).next_group == g + 1 && (r matches RefreshStep::Send(f) && f@ == group_frame(g + 1))
                &&& res is Ok && g + 1 == GROUP_COUNT ==> final(cycle).next_group == GROUP_COUNT && r == RefreshStep::Finished(Ok(()))
            },
    {
        if cycle.next_group >= GROUP_COUNT {
            return RefreshStep::Finished(Ok(()));
        }
        let g = cycle.next_group;
        let ghost t0 = self.table();
        let res = self.apply_group(g, &reply);
        proof {
            lemma_group_step_layout(t0, g as int, reply);
            if old(self).wf() {
                lemma_group_step_wf(t0, g as int, reply);
            }
        }
        match res {
            Err(e) => {
                cycle.next_group = GROUP_COUNT;
                RefreshStep::Finished(Err(e))
            },
            Ok(()) => {
                if g + 1 < GROUP_COUNT {
                    cycle.next_group = g + 1;
                    RefreshStep::Send(group_frame_exec(g + 1))
                } else {
                    cycle.next_group = GROUP_COUNT;
                    RefreshStep::Finished(Ok(()))
                }
            },
        }
    }
}

/// A fetched group changes values only.
pub proof fn lemma_group_step_layout(t: Seq<PropertyView>, g: int, reply: Reply)
    ensures
        same_layout(group_step(t, g, reply).0, t),
{
    let t1 = group_step(t, g, reply).0;
    assert forall|i: int| 0 <= i < t1.len() implies {
        &&& (#[trigger] t1[i]).name == t[i].name
        &&& t1[i].kind == t[i].kind
        &&& t1[i].permission == t[i].permission
    } by {}
}

/// A fetched group keeps a well-formed table well-formed.
pub proof fn lemma_group_step_wf(t: Seq<PropertyView>, g: int, reply: Reply)
    requires
        table_wf(t),
    ensures
        table_wf(group_step(t, g, reply).0),
{
    lemma_group_step_layout(t, g, reply);
    let t1 = group_step(t, g, reply).0;
    if let Ok(text) = reply_result(reply) {
        if let Some(vals) = group_values(t, g, text) {
            let b = group_base(g);
            assert forall|i: int| 0 <= i < t1.len() implies fits_kind((#[trigger] t1[i]).kind, t1[i].value) by {
                if b <= i < b + group_len(g) {
                    let f = split_on(text, ':');
                    assert(vals[i - b] == f[(i - b) + 1]);
                }
            }
        }
    }
    assert(same_layout(t1, initial_table()));
}


/// A write that may be sent: the property, the value as text, and the frame
/// that carries it to the device.
pub struct PendingWrite {
    pub property: String,
    pub value: String,
    pub frame: Vec<u8>,
}

/// Decimal digits of `n`, without sign or leading zeros.
pub open spec fn decimal_text(n: nat) -> Seq<char>
    decreases n,
{
    if n < 10 {
        seq![(48 + n) as char]
    } else {
        decimal_text(n / 10).push((48 + n % 10) as char)
    }
}

/// Relies on the `Display` impl of `u32`, through `ToString`: decimal
/// digits, without sign or leading zeros.
#[verifier::external_body]
pub(crate) fn decimal(v: u32) -> (r: String)
    ensures
        r@ == decimal_text(v as nat),
{
    v.to_string()
}

/// A dew heater level is one byte.
pub fn check_u8_fits(num: u32) -> (r: Result<(), DeviceError>)
    ensures
        r is Ok <==> num <= 255,
        r is Err ==> r == Err::<(), DeviceError>(DeviceError::InvalidValue),
{
    if num > 255 {
        Err(DeviceError::InvalidValue)
    } else {
        Ok(())
    }
}

/// What preparing a write of `v` to the property named `n` yields, as
/// plain values: the frame, or the refusal.
pub open spec fn prepared(t: Seq<PropertyView>, n: Seq<char>, v: Seq<char>, r: Result<PendingWrite, DeviceError>) -> bool {
    match write_check(t, n, v) {
        Ok(_) => r matches Ok(w) && w.property@ == n && w.value@ == v && w.frame@ == write_frame(n, v)->0,
        Err(e) => r == Err::<PendingWrite, DeviceError>(e),
    }
}

impl BaseDevice {
    /// Prepares a write of `val` to `prop_name`: the frame to send, or why
    /// the write is refused before anything is sent (an unknown name, a
    /// read-only property, or a value malformed for the property's kind).
    /// The device's answer to the frame then goes to `update_property`.
    pub fn prepare_update(&self, prop_name: &str, val: &str) -> (r: Result<PendingWrite, DeviceError>)
        ensures
            prepared(self.table(), prop_name@, val@, r),
    {
        match self.check_write(prop_name, val) {
            Err(e) => Err(e),
            Ok(_) => match self.update_property_remote(prop_name, val) {
                Ok(frame) => Ok(PendingWrite { property: String::from_str(prop_name), value: String::from_str(val), frame }),
                Err(e) => Err(e),
            },
        }
    }

    /// Prepares switching the quad 12V port bank on or off.
    pub fn set_adjustable_output(&self, val: bool) -> (r: Result<PendingWrite, DeviceError>)
        ensures
            prepared(self.table(), "quadport_status"@, if val { "1"@ } else { "0"@ }, r),
    {
        if val {
            self.prepare_update("quadport_status", "1")
        } else {
            self.prepare_update("quadport_status", "0")
        }
    }

    /// Prepares setting the power level of dew heater `idx` (0 for heater A,
    /// 1 for heater B). A level must fit in a byte.
    pub fn set_dew_pwm(&self, idx: usize, val: u32) -> (r: Result<PendingWrite, DeviceError>)
        ensures
            val > 255 ==> r == Err::<PendingWrite, DeviceError>(DeviceError::InvalidValue),
            val <= 255 && idx == 0 ==> prepared(self.table(), "dew1_power"@, decimal_text(val as nat), r),
            val <= 255 && idx == 1 ==> prepared(self.table(), "dew2_power"@, decimal_text(val as nat), r),
            val <= 255 && idx > 1 ==> r == Err::<PendingWrite, DeviceError>(DeviceError::UnknownProperty),
    {
        if let Err(e) = check_u8_fits(val) {
            return Err(e);
        }
        let text = decimal(val);
        if idx == 0 {
            self.prepare_update("dew1_power", text.as_str())
        } else if idx == 1 {
            self.prepare_update("dew2_power", text.as_str())
        } else {
            Err(DeviceError::UnknownProperty)
        }
    }

    /// Prepares a reboot of the device.
    pub fn reboot(&self) -> (r: Result<PendingWrite, DeviceError>)
        ensures
            prepared(self.table(), "reboot"@, "1"@, r),
    {
        self.prepare_update("reboot", "1")
    }

    /// The frame of the firmware version query.
    pub fn firmware_request() -> (r: Vec<u8>)
        ensures
            r@ == request_frame(Command::FirmwareVersion, Seq::empty()),
    {
        encode_command(Command::FirmwareVersion, None)
    }

    /// Records the firmware version that the device answered. The version
    /// is informational: a failed query leaves the recorded value as it was
    /// (`UNKNOWN` on a new device) and reports nothing.
    pub fn update_firmware_version(&mut self, reply: Reply)
        ensures
            final(self).same_identity(old(self)),
            old(self).wf() ==> final(self).wf(),
            match reply_result(reply) {
                Ok(text) => old(self).table().len() > FIRMWARE_INDEX ==> final(self).table() == old(self).table().update(
                    FIRMWARE_INDEX as int,
                    PropertyView { value: text, ..old(self).table()[FIRMWARE_INDEX as int] },
                ),
                Err(_) => final(self).table() == old(self).table(),
            },
            old(self).table().len() <= FIRMWARE_INDEX ==> final(self).table() == old(self).table(),
    {
        if let Ok(text) = read_reply(&reply) {
            if self.properties.len() > FIRMWARE_INDEX {
                let ghost prev = self.table();
                self.properties[FIRMWARE_INDEX].value = text;
                assert(self.table() =~= prev.update(
                    FIRMWARE_INDEX as int,
                    PropertyView { value: text@, ..prev[FIRMWARE_INDEX as int] },
                ));
            }
        }
    }
}

// ---------------------------------------------------------------- laws

/// A read-only property can never be written. The write is refused before
/// any frame is built, so nothing reaches the device, and whatever answer is
/// handed in afterwards, the table stays as it was and the refusal is
/// reported.
pub proof fn lemma_read_only_refused(t: Seq<PropertyView>, i: int, v: Seq<char>, reply: Reply)
    requires
        table_wf(t),
        0 <= i < t.len(),
        t[i].permission == Permission::ReadOnly,
    ensures
        write_check(t, t[i].name, v) == Err::<int, DeviceError>(DeviceError::CannotUpdateReadOnlyProperty),
        update_outcome(t, t[i].name, v, reply) == (t, Err::<(), DeviceError>(DeviceError::CannotUpdateReadOnlyProperty)),
{
    lemma_index_of_entry(t, i);
}

/// In a well-formed table, looking an entry's name up finds that entry.
pub proof fn lemma_index_of_entry(t: Seq<PropertyView>, i: int)
    requires
        table_wf(t),
        0 <= i < t.len(),
    ensures
        index_of(t, t[i].name) == Some(i),
{
    lemma_initial_names_distinct();
    lemma_index_from(t, t[i].name, 0);
    let j = index_of(t, t[i].name)->0;
    if j != i {
        assert(t[j].name == initial_table()[j].name);
        assert(t[i].name == initial_table()[i].name);
        if j < i {
            assert(initial_table()[j].name != initial_table()[i].name);
        } else {
            assert(initial_table()[i].name != initial_table()[j].name);
        }
    }
}

/// A write to a name that no property has is refused as unknown, before any
/// frame is built, and leaves the table as it was.
pub proof fn lemma_unknown_refused(t: Seq<PropertyView>, n: Seq<char>, v: Seq<char>, reply: Reply)
    requires
        forall|j: int| 0 <= j < t.len() ==> (#[trigger] t[j]).name != n,
    ensures
        write_check(t, n, v) == Err::<int, DeviceError>(DeviceError::UnknownProperty),
        update_outcome(t, n, v, reply) == (t, Err::<(), DeviceError>(DeviceError::UnknownProperty)),
{
    lemma_index_from(t, n, 0);
}

/// Whether `u` already holds `vals` as the values of group `g`.
pub open spec fn holds_group(u: Seq<PropertyView>, g: int, vals: Seq<Seq<char>>) -> bool {
    &&& group_base(g) + group_len(g) <= u.len()
    &&& vals.len() == group_len(g)
    &&& forall|k: int| 0 <= k < group_len(g) ==> #[trigger] u[group_base(g) + k].value == vals[k]
}

proof fn lemma_values_follow_kinds(t: Seq<PropertyView>, u: Seq<PropertyView>, g: int, text: Seq<char>)
    requires
        same_layout(t, u),
    ensures
        group_values(t, g, text) == group_values(u, g, text),
{
    let f = split_on(text, ':');
    let b = group_base(g);
    let n = group_len(g);
    if f.len() >= n + 1 && b + n <= t.len() {
        assert((forall|k: int| 0 <= k < n ==> fits_kind(t[b + k].kind, #[trigger] f[k + 1])) == (forall|k: int|
            0 <= k < n ==> fits_kind(u[b + k].kind, #[trigger] f[k + 1])));
    }
}

proof fn lemma_merge_held(u: Seq<PropertyView>, g: int, vals: Seq<Seq<char>>)
    requires
        holds_group(u, g, vals),
    ensures
        merge_group(u, g, vals) == u,
{
    let m = merge_group(u, g, vals);
    assert forall|i: int| 0 <= i < u.len() implies #[trigger] m[i] == u[i] by {
        if group_base(g) <= i < group_base(g) + group_len(g) {
            assert(u[group_base(g) + (i - group_base(g))].value == vals[i - group_base(g)]);
        }
    }
    assert(m =~= u);
}

/// A group that applies leaves the table holding its values, keeps the
/// layout, and keeps the values of every other group.
proof fn lemma_step_applied(t: Seq<PropertyView>, g: int, reply: Reply, h: int, other: Seq<Seq<char>>)
    requires
        0 <= g < 3,
        0 <= h < 3,
        group_step(t, g, reply).1 is Ok,
        h != g && holds_group(t, h, other),
    ensures
        same_layout(group_step(t, g, reply).0, t),
        holds_group(group_step(t, g, reply).0, g, group_values(t, g, reply_result(reply)->Ok_0)->Some_0),
        holds_group(group_step(t, g, reply).0, h, other),
{
    lemma_group_step_layout(t, g, reply);
    let u = group_step(t, g, reply).0;
    let vals = group_values(t, g, reply_result(reply)->Ok_0)->Some_0;
    assert forall|k: int| 0 <= k < group_len(g) implies #[trigger] u[group_base(g) + k].value == vals[k] by {}
    assert forall|k: int| 0 <= k < group_len(h) implies #[trigger] u[group_base(h) + k].value == other[k] by {
        assert(u[group_base(h) + k] == t[group_base(h) + k]);
    }
}

/// Refreshing twice while the device gives the same answers leaves the
/// table, and the result, exactly as refreshing once.
pub proof fn lemma_refresh_idempotent(t: Seq<PropertyView>, replies: Seq<Reply>)
    requires
        replies.len() == GROUP_COUNT,
    ensures
        run_groups(run_groups(t, 0, replies).0, 0, replies) == run_groups(t, 0, replies),
{
    reveal_with_fuel(run_groups, 4);
    let s0 = group_step(t, 0, replies[0]);
    if s0.1 is Err {
        return;
    }
    let v0 = group_values(t, 0, reply_result(replies[0])->Ok_0)->Some_0;
    let t1 = s0.0;
    lemma_group_step_layout(t, 0, replies[0]);
    assert(holds_group(t1, 0, v0)) by {
        let u = t1;
        assert forall|k: int| 0 <= k < group_len(0) implies #[trigger] u[group_base(0) + k].value == v0[k] by {}
    }
    lemma_values_follow_kinds(t, t1, 0, reply_result(replies[0])->Ok_0);
    lemma_merge_held(t1, 0, v0);
    let s1 = group_step(t1, 1, replies[1]);
    if s1.1 is Err {
        return;
    }
    let v1 = group_values(t1, 1, reply_result(replies[1])->Ok_0)->Some_0;
    let t2 = s1.0;
    lemma_step_applied(t1, 1, replies[1], 0, v0);
    lemma_values_follow_kinds(t, t2, 0, reply_result(replies[0])->Ok_0);
    lemma_values_follow_kinds(t1, t2, 1, reply_result(replies[1])->Ok_0);
    lemma_merge_held(t2, 0, v0);
    lemma_merge_held(t2, 1, v1);
    let s2 = group_step(t2, 2, replies[2]);
    if s2.1 is Err {
        return;
    }
    let v2 = group_values(t2, 2, reply_result(replies[2])->Ok_0)->Some_0;
    let t3 = s2.0;
    lemma_step_applied(t2, 2, replies[2], 0, v0);
    lemma_step_applied(t2, 2, replies[2], 1, v1);
    lemma_values_follow_kinds(t, t3, 0, reply_result(replies[0])->Ok_0);
    lemma_values_follow_kinds(t1, t3, 1, reply_result(replies[1])->Ok_0);
    lemma_values_follow_kinds(t2, t3, 2, reply_result(replies[2])->Ok_0);
    lemma_merge_held(t3, 0, v0);
    lemma_merge_held(t3, 1, v1);
    lemma_merge_held(t3, 2, v2);
}

} // verus!
