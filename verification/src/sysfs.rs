//! What the tool looks up and changes in sysfs.
use crate::error::Error;
use crate::host::{
    ask_run, do_run, elapsed, seen, sleep_run, then, Action, Answer, Halt, Host, Request, Run,
    Stop,
};
use crate::path::{file_name, file_name_of, join, joined, parent_name, parent_name_of};
use crate::protocol::fail;
use crate::text::{
    char_is_numeric, contains, ends_with, format_hex4, hex4, is_numeric, lowered, occurs,
    split_at_first, split_once, str_eq, strip_prefix, to_ascii_lowercase, trim, trimmed,
    u16_written,
};
use vstd::pervasive::unreached;
use vstd::prelude::*;
use vstd::string::*;
use vstd::utf8::encode_utf8;

verus! {

/// 8 s, in nanoseconds.
pub const DEBUGUSB_WAIT: u64 = 8_000_000_000;

/// 100 ms, in nanoseconds.
pub const DEBUGUSB_POLL: u64 = 100_000_000;

/// 250 ms, in nanoseconds: the pause between taking a driver away and giving it back.
pub const REBIND_WAIT: u64 = 250_000_000;

/// 3 s, in nanoseconds: how long a partner may take to appear.
pub const PARTNER_WAIT: u64 = 3_000_000_000;

/// 100 ms, in nanoseconds.
pub const PARTNER_POLL: u64 = 100_000_000;

/// An entry of `/sys/class/typec`, and the label of its connector where that can be read.
#[derive(Debug)]
pub struct Connector {
    pub port: String,
    pub label: Option<String>,
}

/// A USB device, and its ids where they can be read.
#[derive(Debug)]
pub struct UsbEntry {
    pub path: String,
    pub id_vendor: Option<String>,
    pub id_product: Option<String>,
}

/// The bus and the address, as text, of a device on an I2C bus: in a directory `i2c-BUS` it is
/// named `BUS-ADDRESS`.
pub open spec fn i2c_device_parts(path: Seq<char>) -> Option<(Seq<char>, Seq<char>)> {
    match (parent_name_of(path), file_name_of(path)) {
        (Some(dir), Some(name)) => match split_at_first(name, '-') {
            Some((bus, addr)) => if dir == "i2c-"@ + bus {
                Some((bus, addr))
            } else {
                None
            },
            None => None,
        },
        _ => None,
    }
}

/// The bus and the address, as text, of a device on an I2C bus.
fn split_i2c_device(path: &str) -> (res: Option<(&str, &str)>)
    ensures
        match res {
            Some((bus, addr)) => i2c_device_parts(path@) == Some((bus@, addr@)),
            None => i2c_device_parts(path@) is None,
        },
{
    // First, check that this device is located on an i2c bus
    let dir: &str = match parent_name(path) {
        Some(dir) => dir,
        None => return None,
    };
    let bus_id: &str = match strip_prefix(dir, "i2c-") {
        Some(bus_id) => bus_id,
        None => {
            assert forall|bus: Seq<char>| dir@ != "i2c-"@ + bus by {
                if dir@ == "i2c-"@ + bus {
                    assert(dir@.take("i2c-"@.len() as int) =~= "i2c-"@);
                }
            }
            return None;
        },
    };
    assert(dir@ =~= "i2c-"@ + bus_id@);
    // Only consider I2C devices with the pattern ("%d-%04x", bus, addr)
    let name: &str = match file_name(path) {
        Some(name) => name,
        None => return None,
    };
    match split_once(name, '-') {
        Some((bus, addr)) => {
            proof {
                if dir@ == "i2c-"@ + bus@ {
                    assert(bus@ =~= dir@.skip("i2c-"@.len() as int));
                }
            }
            if str_eq(bus, bus_id) {
                Some((bus, addr))
            } else {
                None
            }
        },
        None => None,
    }
}

/// The character device of the bus of a device on an I2C bus, and the address of the device. Only
/// a device with a hexadecimal address counts.
pub open spec fn i2c_dev_of(path: Seq<char>) -> Option<(Seq<char>, u16)> {
    match i2c_device_parts(path) {
        Some((bus, addr)) => match u16_written(addr, 16) {
            Some(addr) => Some(("/dev/i2c-"@ + bus, addr)),
            None => None,
        },
        None => None,
    }
}

/// The character device of the bus on which the device with the resolved path `path` is, and its
/// address there.
pub fn get_i2c_dev_from_typec_port(path: &str) -> (res: Option<(String, u16)>)
    ensures
        match res {
            Some((bus, addr)) => i2c_dev_of(path@) == Some((bus@, addr)),
            None => i2c_dev_of(path@) is None,
        },
{
    match split_i2c_device(path) {
        Some((bus, addr)) => match u16::from_str_radix(addr, 16) {
            Ok(addr) => Some(("/dev/i2c-".to_owned().concat(bus), addr)),
            Err(_) => None,
        },
        None => None,
    }
}

/// Whether a text is the name of a port: `port`, and a number.
pub open spec fn is_port_name(name: Seq<char>) -> bool {
    &&& "port"@.is_prefix_of(name)
    &&& forall|i: int| "port"@.len() <= i < name.len() ==> #[trigger] is_numeric(name[i])
}

/// Whether a connector is one that `wanted` describes: a port whose label, in lower case, begins
/// with `usb-c ` and holds `wanted`.
pub open spec fn connector_matches(c: Connector, wanted: Seq<char>) -> bool {
    &&& is_port_name(c.port@)
    &&& c.label matches Some(label) && "usb-c "@.is_prefix_of(lowered(label@)) && occurs(
        wanted,
        lowered(label@),
    )
}

/// How many bytes the label of a connector has.
pub open spec fn label_len(c: Connector) -> nat {
    encode_utf8(lowered(c.label->0@)).len()
}

/// The connector that `wanted` stands for: of those that it describes the one with the shortest
/// label, and of several such the first.
pub open spec fn best_connector(connectors: Seq<Connector>, wanted: Seq<char>) -> Option<int>
    decreases connectors.len(),
{
    if connectors.len() == 0 {
        None
    } else {
        let n = connectors.len() - 1;
        match best_connector(connectors.drop_last(), wanted) {
            Some(i) => if connector_matches(connectors[n], wanted) && label_len(connectors[n])
                < label_len(connectors[i]) {
                Some(n)
            } else {
                Some(i)
            },
            None => if connector_matches(connectors[n], wanted) {
                Some(n)
            } else {
                None
            },
        }
    }
}

/// Whether a text is the name of a port.
fn names_port(name: &str) -> (res: bool)
    ensures
        res == is_port_name(name@),
{
    match strip_prefix(name, "port") {
        Some(id) => {
            let len: usize = id.unicode_len();
            let mut i: usize = 0;
            while i < len
                invariant
                    len == id@.len(),
                    i <= len,
                    "port"@.is_prefix_of(name@),
                    id@ == name@.skip("port"@.len() as int),
                    forall|j: int| 0 <= j < i ==> is_numeric(#[trigger] id@[j]),
                decreases len - i,
            {
                if !char_is_numeric(id.get_char(i)) {
                    assert(!is_numeric(name@["port"@.len() + i]));
                    return false;
                }
                i = i + 1;
            }
            assert forall|j: int| "port"@.len() <= j < name@.len() implies #[trigger] is_numeric(
                name@[j],
            ) by {
                assert(id@[j - "port"@.len()] == name@[j]);
            }
            true
        },
        None => false,
    }
}

/// The length of the label of a connector that `wanted` describes; nothing of any other.
fn matching_label_len(c: &Connector, wanted: &str) -> (res: Option<usize>)
    ensures
        match res {
            Some(len) => connector_matches(*c, wanted@) && len == label_len(*c),
            None => !connector_matches(*c, wanted@),
        },
{
    if !names_port(c.port.as_str()) {
        return None;
    }
    match &c.label {
        Some(label) => {
            // convert to lower case for case insensitive match
            let label: String = to_ascii_lowercase(label.as_str());
            if strip_prefix(label.as_str(), "usb-c ").is_some() && contains(
                label.as_str(),
                wanted,
            ) {
                Some(label.as_str().as_bytes().len())
            } else {
                None
            }
        },
        None => None,
    }
}

/// The port whose connector `connector`, a part of its label in lower case, stands for.
///
/// The shortest match is used so that "USB-C Back Left" and "USB-C Back Left Middle" can be told
/// apart: "back left" always stands for the former.
pub fn get_typec_port_from_connector<'a>(connectors: &'a Vec<Connector>, connector: &str) -> (res:
    Result<&'a str, Error>)
    ensures
        match res {
            Ok(port) => best_connector(connectors@, connector@) matches Some(i) && port@
                == connectors@[i].port@,
            Err(e) => best_connector(connectors@, connector@) is None && e == Error::DeviceNotFound,
        },
{
    let mut candidate: Option<(usize, usize)> = None;
    let mut i: usize = 0;
    while i < connectors.len()
        invariant
            i <= connectors@.len(),
            match candidate {
                Some((at, len)) => best_connector(connectors@.take(i as int), connector@) == Some(
                    at as int,
                ) && at < i && len == label_len(connectors@[at as int]),
                None => best_connector(connectors@.take(i as int), connector@) is None,
            },
        decreases connectors@.len() - i,
    {
        assert(connectors@.take(i + 1).drop_last() =~= connectors@.take(i as int));
        if let Some(len) = matching_label_len(&connectors[i], connector) {
            match candidate {
                Some((_, match_len)) => if len < match_len {
                    candidate = Some((i, len));
                },
                None => candidate = Some((i, len)),
            }
        }
        i = i + 1;
    }
    assert(connectors@.take(i as int) =~= connectors@);
    match candidate {
        Some((at, _)) => Ok(connectors[at].port.as_str()),
        None => Err(Error::DeviceNotFound),
    }
}

/// The text of a file, without white space at its ends, where it can be read.
pub open spec fn trimmed_text(value: Option<String>) -> Option<Seq<char>> {
    match value {
        Some(text) => Some(trimmed(text@)),
        None => None,
    }
}

/// The text of a file, without white space at its ends, where it can be read.
pub fn read_trimmed(value: &Option<String>) -> (res: Option<&str>)
    ensures
        match res {
            Some(text) => trimmed_text(*value) == Some(text@),
            None => trimmed_text(*value) is None,
        },
{
    match value {
        Some(text) => Some(trim(text.as_str())),
        None => None,
    }
}

/// Whether a USB device is Apple's DebugUSB function.
pub open spec fn is_debugusb(entry: UsbEntry) -> bool {
    &&& trimmed_text(entry.id_vendor) == Some("05ac"@)
    &&& trimmed_text(entry.id_product) == Some("1881"@)
}

/// Where the first DebugUSB function is.
pub open spec fn debugusb_path(entries: Seq<UsbEntry>) -> Option<Seq<char>>
    decreases entries.len(),
{
    if entries.len() == 0 {
        None
    } else if is_debugusb(entries[0]) {
        Some(entries[0].path@)
    } else {
        debugusb_path(entries.drop_first())
    }
}

/// Whether a file that could be read holds `text`.
fn reads(value: &Option<String>, text: &str) -> (res: bool)
    ensures
        res == (trimmed_text(*value) == Some(text@)),
{
    match read_trimmed(value) {
        Some(value) => str_eq(value, text),
        None => false,
    }
}

/// The path of the first device that is the DebugUSB function.
pub fn debugusb_device_in(entries: &Vec<UsbEntry>) -> (res: Option<&str>)
    ensures
        match res {
            Some(path) => debugusb_path(entries@) == Some(path@),
            None => debugusb_path(entries@) is None,
        },
{
    let mut i: usize = 0;
    assert(entries@.skip(0) =~= entries@);
    while i < entries.len()
        invariant
            i <= entries@.len(),
            debugusb_path(entries@.skip(i as int)) == debugusb_path(entries@),
        decreases entries@.len() - i,
    {
        let entry: &UsbEntry = &entries[i];
        if reads(&entry.id_vendor, "05ac") && reads(&entry.id_product, "1881") {
            return Some(entry.path.as_str());
        }
        assert(entries@.skip(i as int).drop_first() =~= entries@.skip(i + 1));
        i = i + 1;
    }
    None
}

/// Whether a name is that of a partner.
pub open spec fn is_partner_name(name: Seq<char>) -> bool {
    "-partner"@.is_suffix_of(name)
}

/// Whether what a port holds includes a partner.
pub open spec fn port_holds_partner(children: Seq<String>) -> bool {
    exists|j: int| 0 <= j < children.len() && is_partner_name(#[trigger] children[j]@)
}

/// Whether one of the ports of a device holds a partner.
pub open spec fn holds_partner(ports: Option<Vec<Vec<String>>>) -> bool {
    ports matches Some(list) && some_port_holds_partner(list@)
}

/// Whether one of some ports holds a partner.
pub open spec fn some_port_holds_partner(ports: Seq<Vec<String>>) -> bool {
    exists|i: int| 0 <= i < ports.len() && port_holds_partner(#[trigger] ports[i]@)
}

/// Whether what a port holds includes a partner.
fn port_has_partner(children: &Vec<String>) -> (res: bool)
    ensures
        res == port_holds_partner(children@),
{
    let mut j: usize = 0;
    while j < children.len()
        invariant
            j <= children@.len(),
            forall|k: int| 0 <= k < j ==> !is_partner_name(#[trigger] children@[k]@),
        decreases children@.len() - j,
    {
        if ends_with(children[j].as_str(), "-partner") {
            assert(is_partner_name(children@[j as int]@));
            return true;
        }
        j = j + 1;
    }
    false
}

/// Whether one of some ports holds a partner.
fn some_port_has_partner(ports: &Vec<Vec<String>>) -> (res: bool)
    ensures
        res == some_port_holds_partner(ports@),
{
    let mut i: usize = 0;
    while i < ports.len()
        invariant
            i <= ports@.len(),
            forall|k: int| 0 <= k < i ==> !port_holds_partner(#[trigger] ports@[k]@),
        decreases ports@.len() - i,
    {
        if port_has_partner(&ports[i]) {
            assert(port_holds_partner(ports@[i as int]@));
            return true;
        }
        i = i + 1;
    }
    false
}

/// Whether one of the ports of a device holds a partner, given the names of what each port holds.
pub fn has_typec_partner(ports: &Option<Vec<Vec<String>>>) -> (res: bool)
    ensures
        res == holds_partner(*ports),
{
    match ports {
        Some(list) => some_port_has_partner(list),
        None => false,
    }
}

/// The directory of the device with the address `addr` on an I2C bus, in sysfs.
pub open spec fn sysfs_device(bus: Seq<char>, addr: u16) -> Option<Seq<char>> {
    match file_name_of(bus) {
        Some(name) => if "i2c-"@.is_prefix_of(name) {
            Some(
                "/sys/bus/i2c/devices/"@ + name.skip("i2c-"@.len() as int) + "-"@ + hex4(addr),
            )
        } else {
            None
        },
        None => None,
    }
}

/// The directory of the device with the address `addr` on the I2C bus `bus`, in sysfs.
pub fn get_i2c_sysfs_device(bus: &str, addr: u16) -> (res: Option<String>)
    ensures
        match res {
            Some(path) => sysfs_device(bus@, addr) == Some(path@),
            None => sysfs_device(bus@, addr) is None,
        },
{
    match file_name(bus) {
        Some(name) => match strip_prefix(name, "i2c-") {
            Some(id) => {
                let mut path: String = "/sys/bus/i2c/devices/".to_owned();
                path.append(id);
                path.append("-");
                path.append(format_hex4(addr).as_str());
                Some(path)
            },
            None => None,
        },
        None => None,
    }
}

/// Asks whether a path exists.
pub open spec fn exists_run(r: Run, path: Seq<char>) -> (Run, Result<bool, Stop>) {
    then(
        ask_run(r, Request::Exists { path }),
        |r1: Run, a: Answer| (r1, Ok(a->Present_0)),
    )
}

/// Asks whether a device has a partner.
pub open spec fn partner_run(r: Run, device: Seq<char>) -> (Run, Result<bool, Stop>) {
    then(
        ask_run(r, Request::ListPorts { dir: joined(device, "typec"@) }),
        |r1: Run, a: Answer| (r1, Ok(holds_partner(a->Ports_0))),
    )
}

/// Whether the driver at `path` is that of the controller, by its name.
pub open spec fn drives_hpm(path: Seq<char>) -> bool {
    file_name_of(path) == Some("tps6598x"@)
}

/// Asks for the driver of a device, and tells where it is if it is that of the controller.
pub open spec fn driver_run(r: Run, device: Seq<char>) -> (Run, Result<Option<Seq<char>>, Stop>) {
    then(
        ask_run(r, Request::ResolveDriver { link: joined(device, "driver"@) }),
        |r1: Run, a: Answer|
            match a->Driver_0 {
                Some(path) => (
                    r1,
                    Ok(
                        if drives_hpm(path@) {
                            Some(path@)
                        } else {
                            None
                        },
                    ),
                ),
                None => (r1, Ok(None)),
            },
    )
}

/// Looks, with pauses, until a device has a partner, or `PARTNER_WAIT` has passed since `start`.
pub open spec fn await_partner_run(r: Run, device: Seq<char>, start: u64) -> (Run, Result<(), Stop>)
    decreases r.left(),
{
    if elapsed(start, r.now()) < PARTNER_WAIT {
        match partner_run(r, device) {
            (r1, Ok(true)) => (r1, Ok(())),
            (r1, Ok(false)) => match sleep_run(r1, PARTNER_POLL) {
                (r2, Ok(())) => await_partner_run(r2, device, start),
                stopped => stopped,
            },
            (r1, Err(s)) => (r1, Err(s)),
        }
    } else {
        (r, Ok(()))
    }
}

/// Takes the driver of a device away and gives it back, then waits for a partner: the id of the
/// device is written to the files `unbind` and `bind` of the driver at `driver`.
pub open spec fn rebind_run(
    r: Run,
    driver: Seq<char>,
    device: Seq<char>,
    id: Seq<char>,
) -> (Run, Result<(), Stop>) {
    then(
        do_run(r, Request::WriteDriver { file: joined(driver, "unbind"@), id }),
        |r1: Run, _u: ()|
            then(
                sleep_run(r1, REBIND_WAIT),
                |r2: Run, _u: ()|
                    then(
                        do_run(r2, Request::WriteDriver { file: joined(driver, "bind"@), id }),
                        |r3: Run, _u: ()| await_partner_run(r3, device, r3.now()),
                    ),
            ),
    )
}

/// Makes Linux read the state of one controller afresh: its driver, and no other, is taken away
/// and given back. Nothing is done where the controller is not in sysfs or has another driver.
#[verifier::opaque]
pub open spec fn reprobe_hpm_run(r: Run, bus: Seq<char>, addr: u16) -> (Run, Result<(), Stop>) {
    match sysfs_device(bus, addr) {
        None => (r, Ok(())),
        Some(device) => then(
            exists_run(r, device),
            |r1: Run, present: bool|
                if !present {
                    (r1, Ok(()))
                } else {
                    match file_name_of(device) {
                        None => (r1, fail(Error::DeviceNotFound)),
                        Some(id) => then(
                            driver_run(r1, device),
                            |r2: Run, found: Option<Seq<char>>|
                                match found {
                                    Some(driver) => rebind_run(r2, driver, device, id),
                                    None => (r2, Ok(())),
                                },
                        ),
                    }
                },
        ),
    }
}

/// Has Linux read the state of a controller afresh where it sees no partner.
pub open spec fn recover_missing_partner_run(r: Run, bus: Seq<char>, addr: u16) -> (
    Run,
    Result<(), Stop>,
) {
    match sysfs_device(bus, addr) {
        None => (r, Ok(())),
        Some(device) => then(
            exists_run(r, device),
            |r1: Run, present: bool|
                if !present {
                    (r1, Ok(()))
                } else {
                    then(
                        partner_run(r1, device),
                        |r2: Run, partner: bool|
                            if partner {
                                (r2, Ok(()))
                            } else {
                                reprobe_hpm_run(r2, bus, addr)
                            },
                    )
                },
        ),
    }
}

/// Scans the USB devices, with pauses, until the DebugUSB function is among them, or
/// `DEBUGUSB_WAIT` has passed since `start`.
pub open spec fn await_debugusb_run(r: Run, start: u64) -> (Run, Result<Option<Seq<char>>, Stop>)
    decreases r.left(),
{
    if elapsed(start, r.now()) < DEBUGUSB_WAIT {
        match ask_run(r, Request::ScanUsb) {
            (r1, Ok(a)) => match debugusb_path(a->UsbDevices_0@) {
                Some(path) => (r1, Ok(Some(path))),
                None => match sleep_run(r1, DEBUGUSB_POLL) {
                    (r2, Ok(())) => await_debugusb_run(r2, start),
                    (r2, Err(s)) => (r2, Err(s)),
                },
            },
            (r1, Err(s)) => (r1, Err(s)),
        }
    } else {
        (r, Ok(None))
    }
}

/// Waits for the DebugUSB function.
pub open spec fn wait_for_debugusb_run(r: Run) -> (Run, Result<Option<Seq<char>>, Stop>) {
    await_debugusb_run(r, r.now())
}

/// Asks whether a path exists.
fn path_exists(host: &mut Host, path: &str) -> (res: Result<bool, Halt>)
    ensures
        (final(host)@, seen(res)) == exists_run(old(host)@, path@),
{
    match host.ask(Action::Exists { path: path.to_owned() })? {
        Answer::Present(present) => Ok(*present),
        _ => unreached(),
    }
}

/// Asks whether a device has a partner.
fn partner(host: &mut Host, device: &str) -> (res: Result<bool, Halt>)
    ensures
        (final(host)@, seen(res)) == partner_run(old(host)@, device@),
        res is Ok ==> 0 <= final(host)@.left() < old(host)@.left(),
{
    match host.ask(Action::ListPorts { dir: join(device, "typec") })? {
        Answer::Ports(ports) => Ok(has_typec_partner(ports)),
        _ => unreached(),
    }
}

/// Asks for the driver of a device, and tells where it is if it is that of the controller.
fn driver_of<'a>(host: &mut Host<'a>, device: &str) -> (res: Result<Option<&'a str>, Halt>)
    ensures
        match res {
            Ok(Some(path)) => (final(host)@, Ok::<Option<Seq<char>>, Stop>(Some(path@)))
                == driver_run(old(host)@, device@),
            Ok(None) => (final(host)@, Ok::<Option<Seq<char>>, Stop>(None)) == driver_run(
                old(host)@,
                device@,
            ),
            Err(h) => (final(host)@, Err::<Option<Seq<char>>, Stop>(h@)) == driver_run(
                old(host)@,
                device@,
            ),
        },
{
    match host.ask(Action::ResolveDriver { link: join(device, "driver") })? {
        Answer::Driver(Some(path)) => match file_name(path.as_str()) {
            Some(name) => if str_eq(name, "tps6598x") {
                Ok(Some(path.as_str()))
            } else {
                Ok(None)
            },
            None => Ok(None),
        },
        Answer::Driver(None) => Ok(None),
        _ => unreached(),
    }
}

/// Waits until a device has a partner, or long enough.
fn await_partner(host: &mut Host, device: &str) -> (res: Result<(), Halt>)
    ensures
        (final(host)@, seen(res)) == await_partner_run(old(host)@, device@, old(host)@.now()),
{
    let start: u64 = host.now();
    while host.elapsed(start) < PARTNER_WAIT
        invariant
            start == old(host)@.now(),
            await_partner_run(host@, device@, start) == await_partner_run(
                old(host)@,
                device@,
                start,
            ),
        decreases host@.left(),
    {
        if partner(host, device)? {
            return Ok(());
        }
        host.sleep(PARTNER_POLL)?;
    }
    Ok(())
}

/// Makes Linux read the state of the controller at `addr` on `bus` afresh.
///
/// If Linux misses a reconnect of the target while the controller is in DBMa mode, the physical
/// contract can exist while the kernel has no Type-C partner. Rebinding only the selected
/// controller makes its driver reread the live contract; the host's USB controller is neither
/// reset nor unbound.
pub fn reprobe_hpm(host: &mut Host, bus: &str, addr: u16) -> (res: Result<(), Halt>)
    ensures
        (final(host)@, seen(res)) == reprobe_hpm_run(old(host)@, bus@, addr),
{
    proof {
        reveal(reprobe_hpm_run);
    }
    let device: String = match get_i2c_sysfs_device(bus, addr) {
        Some(device) => device,
        None => return Ok(()),
    };
    if !path_exists(host, device.as_str())? {
        return Ok(());
    }
    let device_id: &str = match file_name(device.as_str()) {
        Some(id) => id,
        None => return Err(Halt::Fail(Error::DeviceNotFound)),
    };
    let driver: &str = match driver_of(host, device.as_str())? {
        Some(driver) => driver,
        None => return Ok(()),
    };
    host.perform(
        Action::WriteDriver { file: join(driver, "unbind"), id: device_id.to_owned() },
    )?;
    host.sleep(REBIND_WAIT)?;
    host.perform(Action::WriteDriver { file: join(driver, "bind"), id: device_id.to_owned() })?;
    await_partner(host, device.as_str())
}

/// Has Linux read the state of the controller afresh where it sees no partner.
pub fn recover_missing_partner(host: &mut Host, bus: &str, addr: u16) -> (res: Result<(), Halt>)
    ensures
        (final(host)@, seen(res)) == recover_missing_partner_run(old(host)@, bus@, addr),
{
    let device: String = match get_i2c_sysfs_device(bus, addr) {
        Some(device) => device,
        None => return Ok(()),
    };
    if !path_exists(host, device.as_str())? || partner(host, device.as_str())? {
        return Ok(());
    }
    reprobe_hpm(host, bus, addr)
}

/// Has Linux read the state of the controller afresh after a message without a reply.
pub fn recover_vdm_timeout(host: &mut Host, bus: &str, addr: u16) -> (res: Result<(), Halt>)
    ensures
        (final(host)@, seen(res)) == reprobe_hpm_run(old(host)@, bus@, addr),
{
    reprobe_hpm(host, bus, addr)
}

/// Has Linux read the state of the controller afresh where the DebugUSB function did not appear.
pub fn recover_debugusb_enumeration(host: &mut Host, bus: &str, addr: u16) -> (res: Result<
    (),
    Halt,
>)
    ensures
        (final(host)@, seen(res)) == reprobe_hpm_run(old(host)@, bus@, addr),
{
    reprobe_hpm(host, bus, addr)
}

/// Waits for the DebugUSB function, and tells where it is if it came.
///
/// A new enumeration is not told by its bus path or device number: when the host is rebuilt for
/// the reconnect, Linux legitimately reuses both. That the function with the exact ids is present
/// is the useful contract.
pub fn wait_for_debugusb<'a>(host: &mut Host<'a>) -> (res: Result<Option<&'a str>, Halt>)
    ensures
        match res {
            Ok(Some(path)) => (final(host)@, Ok::<Option<Seq<char>>, Stop>(Some(path@)))
                == wait_for_debugusb_run(old(host)@),
            Ok(None) => (final(host)@, Ok::<Option<Seq<char>>, Stop>(None))
                == wait_for_debugusb_run(old(host)@),
            Err(h) => (final(host)@, Err::<Option<Seq<char>>, Stop>(h@)) == wait_for_debugusb_run(
                old(host)@,
            ),
        },
{
    let start: u64 = host.now();
    while host.elapsed(start) < DEBUGUSB_WAIT
        invariant
            start == old(host)@.now(),
            await_debugusb_run(host@, start) == await_debugusb_run(old(host)@, start),
        decreases host@.left(),
    {
        let entries: &'a Vec<UsbEntry> = match host.ask(Action::ScanUsb)? {
            Answer::UsbDevices(entries) => entries,
            _ => unreached(),
        };
        if let Some(path) = debugusb_device_in(entries) {
            return Ok(Some(path));
        }
        host.sleep(DEBUGUSB_POLL)?;
    }
    Ok(None)
}

} // verus!
