//! The tool: which controller it works on, what it does there, and when it tries again.
use crate::cd321x::{key_of, Device};
use crate::error::Error;
use crate::host::{
    ask_run, do_run, seen, then, Action, Answer, Halt, Host, Request, Reply, Run, Stop,
    Transcript,
};
use crate::path::{join, joined};
use crate::protocol::{
    debugusb_run, dfu_run, disconnect_run, fail, leave_run, new_run, reboot_run,
    reboot_wait_run, reset_run, serial_run,
};
use crate::sysfs::{
    best_connector, get_i2c_dev_from_typec_port, get_typec_port_from_connector, i2c_dev_of,
    recover_debugusb_enumeration, recover_missing_partner, recover_missing_partner_run,
    recover_vdm_timeout, reprobe_hpm_run, wait_for_debugusb, wait_for_debugusb_run, Connector,
};
use crate::text::{
    lowered, split_at_first, split_once, str_eq, strip_prefix, to_ascii_lowercase,
    to_uppercase, u16_error, u16_written, uppercased, utf8_error,
};
use vstd::pervasive::unreached;
use vstd::prelude::*;
use vstd::string::*;
use vstd::utf8::{decode_utf8, valid_utf8};

verus! {

/// What the tool was started with.
#[derive(Debug)]
pub struct Invocation {
    /// Part of the label of the connector, where the controller is chosen by it.
    pub connector: Option<String>,
    /// The address of the controller, else.
    pub address: String,
    /// The I2C bus of the controller, else.
    pub bus: String,
    /// The command.
    pub subcommand: Option<String>,
    /// The command within the command.
    pub nested: Option<String>,
}

/// Whether `word` is given and reads `text`.
pub open spec fn is_word(word: Option<String>, text: Seq<char>) -> bool {
    word matches Some(w) && w@ == text
}

/// Whether `word` is given and reads `text`.
fn word_is(word: &Option<String>, text: &str) -> (res: bool)
    ensures
        res == is_word(*word, text@),
{
    match word {
        Some(w) => str_eq(w.as_str(), text),
        None => false,
    }
}

impl Invocation {
    /// Whether the command is to reset the controller.
    pub open spec fn is_reset(self) -> bool {
        is_word(self.subcommand, "reset-controller"@)
    }

    /// Whether the command is to do nothing.
    pub open spec fn is_nop(self) -> bool {
        is_word(self.subcommand, "nop"@)
    }

    /// Whether the command reboots the target into DebugUSB mode.
    pub open spec fn is_reboot_debugusb(self) -> bool {
        ||| is_word(self.subcommand, "reboot debugusb"@)
        ||| is_word(self.subcommand, "reboot"@) && is_word(self.nested, "debugusb"@)
    }

    /// Whether the command brings the target into DebugUSB mode.
    pub open spec fn is_debugusb(self) -> bool {
        is_word(self.subcommand, "debugusb"@) || self.is_reboot_debugusb()
    }
}

/// Whether the command brings the target into DebugUSB mode.
pub fn is_debugusb_command(matches: &Invocation) -> (res: bool)
    ensures
        res == matches.is_debugusb(),
{
    word_is(&matches.subcommand, "debugusb") || is_reboot_debugusb_command(matches)
}

/// Whether the command reboots the target into DebugUSB mode.
pub fn is_reboot_debugusb_command(matches: &Invocation) -> (res: bool)
    ensures
        res == matches.is_reboot_debugusb(),
{
    word_is(&matches.subcommand, "reboot debugusb") || word_is(&matches.subcommand, "reboot")
        && word_is(&matches.nested, "debugusb")
}

/// The controller behind a connector, where there is no sysfs to find it in: there is none.
pub fn get_typec_dev_fromconnector(connector: &str) -> (res: Result<(String, u16), Error>)
    ensures
        res == Err::<(String, u16), Error>(Error::DeviceNotFound),
{
    Err(Error::DeviceNotFound)
}

/// The device's own name on a machine made by Apple, by the first ten bytes of the list of what
/// the machine is compatible with.
pub open spec fn apple_device_of(compat: Seq<u8>) -> Result<Seq<char>, Error> {
    if !valid_utf8(compat.take(10)) {
        Err(Error::Utf8(utf8_error(compat.take(10))))
    } else {
        match split_at_first(decode_utf8(compat.take(10)), ',') {
            Some((manufacturer, device)) => if manufacturer == "apple"@ {
                Ok(device)
            } else {
                Err(Error::Compatible)
            },
            None => Err(Error::Compatible),
        }
    }
}

/// The device's own name on a machine made by Apple.
pub fn apple_device(compat: &[u8]) -> (res: Result<&str, Error>)
    requires
        compat@.len() >= 10,
    ensures
        match res {
            Ok(device) => apple_device_of(compat@) == Ok::<Seq<char>, Error>(device@),
            Err(e) => apple_device_of(compat@) == Err::<Seq<char>, Error>(e),
        },
{
    let head: &[u8] = vstd::slice::slice_subrange(compat, 0, 10);
    assert(head@ =~= compat@.take(10));
    match core::str::from_utf8(head) {
        Ok(text) => match split_once(text, ',') {
            Some((manufacturer, device)) => if str_eq(manufacturer, "apple") {
                Ok(device)
            } else {
                Err(Error::Compatible)
            },
            None => Err(Error::Compatible),
        },
        Err(e) => Err(Error::Utf8(e)),
    }
}

/// The number that a text is to be read as, and its base: hexadecimal after `0x`, else decimal.
pub open spec fn address_digits(text: Seq<char>) -> (Seq<char>, u32) {
    if "0x"@.is_prefix_of(text) {
        (text.skip("0x"@.len() as int), 16)
    } else {
        (text, 10)
    }
}

/// The address that a text gives.
pub open spec fn address_of(text: Seq<char>) -> Result<u16, Error> {
    let (digits, radix) = address_digits(text);
    match u16_written(digits, radix) {
        Some(addr) => Ok(addr),
        None => Err(Error::Parse(u16_error(digits, radix))),
    }
}

/// The address that a text gives.
pub fn parse_address(text: &str) -> (res: Result<u16, Error>)
    ensures
        res == address_of(text@),
{
    let parsed = match strip_prefix(text, "0x") {
        Some(stripped) => u16::from_str_radix(stripped, 16),
        None => u16::from_str_radix(text, 10),
    };
    match parsed {
        Ok(addr) => Ok(addr),
        Err(e) => Err(Error::Parse(e)),
    }
}

/// Finds out the code of the machine, which unlocks its controllers.
pub open spec fn code_run(r: Run) -> (Run, Result<Seq<char>, Stop>) {
    then(
        ask_run(r, Request::ReadCompatible),
        |r1: Run, a: Answer|
            match apple_device_of(a->Contents_0@) {
                Ok(device) => (r1, Ok(uppercased(device))),
                Err(e) => (r1, fail(e)),
            },
    )
}

/// The link of a Type-C port to its device.
pub open spec fn port_link(port: Seq<char>) -> Seq<char> {
    joined(joined("/sys/class/typec"@, port), "device"@)
}

/// Finds out the bus and the address of the controller behind a connector.
pub open spec fn find_run(r: Run, connector: Seq<char>) -> (Run, Result<(Seq<char>, u16), Stop>) {
    then(
        ask_run(r, Request::ListConnectors),
        |r1: Run, listed: Answer|
            match best_connector(listed->Connectors_0@, lowered(connector)) {
                None => (r1, fail(Error::DeviceNotFound)),
                Some(i) => then(
                    ask_run(
                        r1,
                        Request::ResolvePort { link: port_link(listed->Connectors_0@[i].port@) },
                    ),
                    |r2: Run, resolved: Answer|
                        match resolved->DevicePath_0 {
                            None => (r2, fail(Error::DeviceNotFound)),
                            Some(path) => match i2c_dev_of(path@) {
                                None => (r2, fail(Error::DeviceNotFound)),
                                Some(dev) => (r2, Ok(dev)),
                            },
                        },
                ),
            },
    )
}

/// Finds out the bus and the address of the controller.
pub open spec fn select_run(r: Run, matches: Invocation) -> (Run, Result<(Seq<char>, u16), Stop>) {
    match matches.connector {
        Some(connector) => find_run(r, connector@),
        None => match address_of(matches.address@) {
            Ok(addr) => (r, Ok((matches.bus@, addr))),
            Err(e) => (r, fail(e)),
        },
    }
}

/// What the command does to a controller that has been taken over.
pub open spec fn command_run(r: Run, matches: Invocation) -> (Run, Result<(), Stop>) {
    if is_word(matches.subcommand, "dfu"@) {
        dfu_run(r)
    } else if is_word(matches.subcommand, "reboot"@) {
        if is_word(matches.nested, "serial"@) {
            then(reboot_wait_run(r), |r1: Run, _u: ()| serial_run(r1))
        } else if is_word(matches.nested, "debugusb"@) {
            then(reboot_wait_run(r), |r1: Run, _u: ()| debugusb_run(r1))
        } else if matches.nested is None {
            reboot_run(r)
        } else {
            (r, Ok(()))
        }
    } else if is_word(matches.subcommand, "serial"@) {
        serial_run(r)
    } else if is_word(matches.subcommand, "debugusb"@) {
        debugusb_run(r)
    } else if is_word(matches.subcommand, "disconnect"@) {
        disconnect_run(r)
    } else if matches.is_reset() {
        reset_run(r)
    } else {
        (r, Ok(()))
    }
}

/// Whether the command, from `r` on, gets as far as DebugUSB mode: a target that is to be rebooted
/// first has been, and is connected again.
pub open spec fn reaches_debugusb(r: Run, matches: Invocation) -> bool {
    if is_word(matches.subcommand, "reboot"@) {
        is_word(matches.nested, "debugusb"@) && reboot_wait_run(r).1 is Ok
    } else {
        is_word(matches.subcommand, "debugusb"@)
    }
}

/// The command, and the end of the controller's use.
pub open spec fn session_run(r: Run, matches: Invocation, skip_shutdown: bool) -> (
    Run,
    Result<(), Stop>,
) {
    let done = command_run(r, matches);
    leave_run(done, skip_shutdown || matches.is_reset() && done.1 is Ok)
}

/// The command, from the opening of the bus to its closing.
#[verifier::opaque]
pub open spec fn execute_command_run(
    r: Run,
    matches: Invocation,
    bus: Seq<char>,
    addr: u16,
    code: Seq<char>,
    reset_controller: bool,
) -> (Run, Result<(), Stop>) {
    then(
        do_run(r, Request::OpenBus { bus, addr }),
        |r1: Run, _u: ()|
            if reset_controller {
                session_run(r1, matches, true)
            } else {
                then(
                    new_run(r1, key_of(code)),
                    |r2: Run, _u: ()| session_run(r2, matches, false),
                )
            },
    )
}

/// Whether the command, from the opening of the bus on, gets as far as DebugUSB mode.
pub open spec fn session_reaches_debugusb(
    r: Run,
    matches: Invocation,
    bus: Seq<char>,
    addr: u16,
    code: Seq<char>,
    reset_controller: bool,
) -> bool {
    let (r1, opened) = do_run(r, Request::OpenBus { bus, addr });
    let (r2, taken) = new_run(r1, key_of(code));
    &&& opened is Ok
    &&& if reset_controller {
        reaches_debugusb(r1, matches)
    } else {
        taken is Ok && reaches_debugusb(r2, matches)
    }
}

/// DebugUSB mode alone, from the opening of the bus to its closing.
#[verifier::opaque]
pub open spec fn execute_debugusb_run(r: Run, bus: Seq<char>, addr: u16, code: Seq<char>) -> (
    Run,
    Result<(), Stop>,
) {
    then(
        do_run(r, Request::OpenBus { bus, addr }),
        |r1: Run, _u: ()|
            then(
                new_run(r1, key_of(code)),
                |r2: Run, _u: ()| leave_run(debugusb_run(r2), false),
            ),
    )
}

/// The command once more, after the controller has been probed again. A target that was told to
/// reboot into DebugUSB mode is not told to reboot again.
pub open spec fn second_attempt_run(
    r: Run,
    matches: Invocation,
    bus: Seq<char>,
    addr: u16,
    code: Seq<char>,
) -> (Run, Result<(), Stop>) {
    then(
        reprobe_hpm_run(r, bus, addr),
        |r1: Run, _u: ()|
            if matches.is_reboot_debugusb() {
                execute_debugusb_run(r1, bus, addr, code)
            } else {
                execute_command_run(r1, matches, bus, addr, code, false)
            },
    )
}

/// The command, and once more after a message without a reply. Where it succeeds, it tells whether
/// DebugUSB mode has been tried twice by then.
pub open spec fn attempt_run(
    r: Run,
    matches: Invocation,
    bus: Seq<char>,
    addr: u16,
    code: Seq<char>,
) -> (Run, Result<bool, Stop>) {
    let reset = matches.is_reset();
    let first = execute_command_run(r, matches, bus, addr, code, reset);
    if first.1 == fail::<()>(Error::VdmReplyTimeout) && !reset && !matches.is_nop() {
        let reached = session_reaches_debugusb(r, matches, bus, addr, code, reset);
        then(
            second_attempt_run(first.0, matches, bus, addr, code),
            |r1: Run, _u: ()| (r1, Ok(reached)),
        )
    } else {
        then(first, |r1: Run, _u: ()| (r1, Ok(false)))
    }
}

/// DebugUSB mode once more, after the controller has been probed again, and the wait for the
/// DebugUSB function.
pub open spec fn rearm_run(r: Run, bus: Seq<char>, addr: u16, code: Seq<char>) -> (
    Run,
    Result<Option<Seq<char>>, Stop>,
) {
    then(
        reprobe_hpm_run(r, bus, addr),
        |r1: Run, _u: ()|
            then(
                execute_debugusb_run(r1, bus, addr, code),
                |r2: Run, _u: ()| wait_for_debugusb_run(r2),
            ),
    )
}

/// Waits for the DebugUSB function, and tries DebugUSB mode once more where it does not come and
/// has not been `retried` before.
pub open spec fn confirm_run(
    r: Run,
    bus: Seq<char>,
    addr: u16,
    code: Seq<char>,
    retried: bool,
) -> (Run, Result<(), Stop>) {
    then(
        wait_for_debugusb_run(r),
        |r1: Run, found: Option<Seq<char>>|
            if found is Some {
                (r1, Ok(()))
            } else if retried {
                (r1, fail(Error::DebugUsbEnumerationTimeout))
            } else {
                then(
                    rearm_run(r1, bus, addr, code),
                    |r2: Run, found: Option<Seq<char>>|
                        if found is Some {
                            (r2, Ok(()))
                        } else {
                            (r2, fail(Error::DebugUsbEnumerationTimeout))
                        },
                )
            },
    )
}

/// What the tool does with the controller that it works on, once Linux sees it: the command, and
/// for DebugUSB mode the wait for its function.
pub open spec fn serve_run(
    r: Run,
    matches: Invocation,
    bus: Seq<char>,
    addr: u16,
    code: Seq<char>,
) -> (Run, Result<(), Stop>) {
    then(
        attempt_run(r, matches, bus, addr, code),
        |r1: Run, retried: bool|
            if matches.is_debugusb() {
                confirm_run(r1, bus, addr, code, retried)
            } else {
                (r1, Ok(()))
            },
    )
}

/// What the tool does with the controller that it works on.
pub open spec fn drive_run(
    r: Run,
    matches: Invocation,
    bus: Seq<char>,
    addr: u16,
    code: Seq<char>,
) -> (Run, Result<(), Stop>) {
    if matches.is_reset() || matches.is_nop() {
        serve_run(r, matches, bus, addr, code)
    } else {
        then(
            recover_missing_partner_run(r, bus, addr),
            |r1: Run, _u: ()| serve_run(r1, matches, bus, addr, code),
        )
    }
}

/// What the tool does once it knows the code of the machine: it finds the controller and works on
/// it.
pub open spec fn work_run(r: Run, matches: Invocation, code: Seq<char>) -> (Run, Result<(), Stop>) {
    then(
        select_run(r, matches),
        |r1: Run, dev: (Seq<char>, u16)| drive_run(r1, matches, dev.0, dev.1, code),
    )
}

/// What the tool does.
pub open spec fn vdmtool_run(r: Run, matches: Invocation) -> (Run, Result<(), Stop>) {
    then(code_run(r), |r1: Run, code: Seq<char>| work_run(r1, matches, code))
}

/// Finds out the code of the machine, which unlocks its controllers.
fn machine_code(host: &mut Host) -> (res: Result<String, Halt>)
    ensures
        match res {
            Ok(code) => (final(host)@, Ok::<Seq<char>, Stop>(code@)) == code_run(old(host)@),
            Err(h) => (final(host)@, Err::<Seq<char>, Stop>(h@)) == code_run(old(host)@),
        },
{
    let compat: &Vec<u8> = match host.ask(Action::ReadCompatible)? {
        Answer::Contents(compat) => compat,
        _ => unreached(),
    };
    match apple_device(compat.as_slice()) {
        Ok(device) => Ok(to_uppercase(device)),
        Err(e) => Err(Halt::Fail(e)),
    }
}

/// Finds out the bus and the address of the controller behind a connector.
fn find_controller(host: &mut Host, connector: &str) -> (res: Result<(String, u16), Halt>)
    ensures
        match res {
            Ok((bus, addr)) => (final(host)@, Ok::<(Seq<char>, u16), Stop>((bus@, addr)))
                == find_run(old(host)@, connector@),
            Err(h) => (final(host)@, Err::<(Seq<char>, u16), Stop>(h@)) == find_run(
                old(host)@,
                connector@,
            ),
        },
{
    let connector: String = to_ascii_lowercase(connector);
    let connectors: &Vec<Connector> = match host.ask(Action::ListConnectors)? {
        Answer::Connectors(connectors) => connectors,
        _ => unreached(),
    };
    let port: &str = match get_typec_port_from_connector(connectors, connector.as_str()) {
        Ok(port) => port,
        Err(e) => return Err(Halt::Fail(e)),
    };
    let link: String = join(join("/sys/class/typec", port).as_str(), "device");
    match host.ask(Action::ResolvePort { link })? {
        Answer::DevicePath(Some(path)) => match get_i2c_dev_from_typec_port(path.as_str()) {
            Some(dev) => Ok(dev),
            None => Err(Halt::Fail(Error::DeviceNotFound)),
        },
        Answer::DevicePath(None) => Err(Halt::Fail(Error::DeviceNotFound)),
        _ => unreached(),
    }
}

/// Finds out the bus and the address of the controller.
fn select_controller(host: &mut Host, matches: &Invocation) -> (res: Result<(String, u16), Halt>)
    ensures
        match res {
            Ok((bus, addr)) => (final(host)@, Ok::<(Seq<char>, u16), Stop>((bus@, addr)))
                == select_run(old(host)@, *matches),
            Err(h) => (final(host)@, Err::<(Seq<char>, u16), Stop>(h@)) == select_run(
                old(host)@,
                *matches,
            ),
        },
{
    match &matches.connector {
        Some(connector) => find_controller(host, connector.as_str()),
        None => match parse_address(matches.address.as_str()) {
            Ok(addr) => Ok((matches.bus.clone(), addr)),
            Err(e) => Err(Halt::Fail(e)),
        },
    }
}

/// Does what the command says to a controller that has been taken over, and tells whether that got
/// as far as DebugUSB mode.
fn command(device: &mut Device, host: &mut Host, matches: &Invocation) -> (res: (
    Result<(), Halt>,
    bool,
))
    ensures
        (final(host)@, seen(res.0)) == command_run(old(host)@, *matches),
        res.1 == reaches_debugusb(old(host)@, *matches),
        final(device).skips_shutdown() == (old(device).skips_shutdown() || matches.is_reset()
            && res.0 is Ok),
{
    proof {
        reveal_strlit("reset-controller");
        reveal_strlit("dfu");
        reveal_strlit("reboot");
        reveal_strlit("serial");
        reveal_strlit("debugusb");
        reveal_strlit("disconnect");
        assert("reset-controller"@.len() == 16);
        assert("dfu"@.len() == 3 && "reboot"@.len() == 6 && "serial"@.len() == 6);
        assert("debugusb"@.len() == 8 && "disconnect"@.len() == 10);
    }
    if word_is(&matches.subcommand, "dfu") {
        (device.dfu(host), false)
    } else if word_is(&matches.subcommand, "reboot") {
        if word_is(&matches.nested, "serial") {
            match device.reboot_wait(host) {
                Ok(()) => (device.serial(host), false),
                stopped => (stopped, false),
            }
        } else if word_is(&matches.nested, "debugusb") {
            match device.reboot_wait(host) {
                Ok(()) => (device.debugusb(host), true),
                stopped => (stopped, false),
            }
        } else if matches.nested.is_none() {
            (device.reboot(host), false)
        } else {
            (Ok(()), false)
        }
    } else if word_is(&matches.subcommand, "serial") {
        (device.serial(host), false)
    } else if word_is(&matches.subcommand, "debugusb") {
        (device.debugusb(host), true)
    } else if word_is(&matches.subcommand, "disconnect") {
        (device.disconnect(host), false)
    } else if word_is(&matches.subcommand, "reset-controller") {
        (device.reset_controller_nowait(host), false)
    } else {
        (Ok(()), false)
    }
}

/// Ends the use of a controller with the result that it had.
fn leave(device: Device, host: &mut Host, done: Result<(), Halt>) -> (res: Result<(), Halt>)
    ensures
        (final(host)@, seen(res)) == leave_run(
            (old(host)@, seen(done)),
            device.skips_shutdown(),
        ),
{
    if let Err(Halt::Ask(action)) = done {
        return Err(Halt::Ask(action));
    }
    device.drop(host)?;
    done
}

/// Runs the command, from the opening of the bus to its closing, and tells whether that got as far
/// as DebugUSB mode.
fn session(
    host: &mut Host,
    matches: &Invocation,
    bus: &str,
    addr: u16,
    code: &str,
    reset_controller: bool,
) -> (res: (Result<(), Halt>, bool))
    ensures
        (final(host)@, seen(res.0)) == execute_command_run(
            old(host)@,
            *matches,
            bus@,
            addr,
            code@,
            reset_controller,
        ),
        res.1 == session_reaches_debugusb(
            old(host)@,
            *matches,
            bus@,
            addr,
            code@,
            reset_controller,
        ),
{
    proof {
        reveal(execute_command_run);
    }
    if let Err(stopped) = host.perform(Action::OpenBus { bus: bus.to_owned(), addr }) {
        return (Err(stopped), false);
    }
    let mut device: Device = if reset_controller {
        Device::new_for_reset(code)
    } else {
        match Device::new(host, code) {
            Ok(device) => device,
            Err(stopped) => return (Err(stopped), false),
        }
    };
    let (done, reached) = command(&mut device, host, matches);
    (leave(device, host, done), reached)
}

/// Runs the command, from the opening of the bus to its closing.
pub fn execute_command(
    host: &mut Host,
    matches: &Invocation,
    bus: &str,
    addr: u16,
    code: &str,
    reset_controller: bool,
) -> (res: Result<(), Halt>)
    ensures
        (final(host)@, seen(res)) == execute_command_run(
            old(host)@,
            *matches,
            bus@,
            addr,
            code@,
            reset_controller,
        ),
{
    session(host, matches, bus, addr, code, reset_controller).0
}

/// Runs DebugUSB mode alone, from the opening of the bus to its closing.
pub fn execute_debugusb(host: &mut Host, bus: &str, addr: u16, code: &str) -> (res: Result<
    (),
    Halt,
>)
    ensures
        (final(host)@, seen(res)) == execute_debugusb_run(old(host)@, bus@, addr, code@),
{
    proof {
        reveal(execute_debugusb_run);
    }
    host.perform(Action::OpenBus { bus: bus.to_owned(), addr })?;
    let device: Device = Device::new(host, code)?;
    let done: Result<(), Halt> = device.debugusb(host);
    leave(device, host, done)
}

/// Runs the command, and once more after a message without a reply. Tells whether DebugUSB mode has
/// been tried twice by then.
fn attempt(host: &mut Host, matches: &Invocation, bus: &str, addr: u16, code: &str) -> (res: Result<
    bool,
    Halt,
>)
    ensures
        (final(host)@, seen(res)) == attempt_run(old(host)@, *matches, bus@, addr, code@),
{
    let reset_controller: bool = word_is(&matches.subcommand, "reset-controller");
    let nop: bool = word_is(&matches.subcommand, "nop");
    let (first, reached) = session(host, matches, bus, addr, code, reset_controller);
    match first {
        Ok(()) => Ok(false),
        Err(Halt::Fail(Error::VdmReplyTimeout)) => {
            if reset_controller || nop {
                return Err(Halt::Fail(Error::VdmReplyTimeout));
            }
            recover_vdm_timeout(host, bus, addr)?;
            if is_reboot_debugusb_command(matches) {
                execute_debugusb(host, bus, addr, code)?;
            } else {
                execute_command(host, matches, bus, addr, code, false)?;
            }
            Ok(reached)
        },
        Err(stopped) => Err(stopped),
    }
}

/// Waits for the DebugUSB function, and tries DebugUSB mode once more where it does not come and
/// has not been `retried` before.
fn confirm(host: &mut Host, bus: &str, addr: u16, code: &str, retried: bool) -> (res: Result<
    (),
    Halt,
>)
    ensures
        (final(host)@, seen(res)) == confirm_run(old(host)@, bus@, addr, code@, retried),
{
    if wait_for_debugusb(host)?.is_some() {
        return Ok(());
    }
    if retried {
        return Err(Halt::Fail(Error::DebugUsbEnumerationTimeout));
    }
    recover_debugusb_enumeration(host, bus, addr)?;
    execute_debugusb(host, bus, addr, code)?;
    if wait_for_debugusb(host)?.is_some() {
        return Ok(());
    }
    Err(Halt::Fail(Error::DebugUsbEnumerationTimeout))
}

/// Runs the tool.
pub fn vdmtool(host: &mut Host, matches: &Invocation) -> (res: Result<(), Halt>)
    ensures
        (final(host)@, seen(res)) == vdmtool_run(old(host)@, *matches),
{
    let code: String = machine_code(host)?;
    let (bus, addr) = select_controller(host, matches)?;
    if !word_is(&matches.subcommand, "reset-controller") && !word_is(&matches.subcommand, "nop") {
        recover_missing_partner(host, bus.as_str(), addr)?;
    }
    let retried: bool = attempt(host, matches, bus.as_str(), addr, code.as_str())?;
    if is_debugusb_command(matches) {
        confirm(host, bus.as_str(), addr, code.as_str(), retried)
    } else {
        Ok(())
    }
}

/// The whole run of the tool over a transcript.
pub open spec fn whole_run(matches: Invocation, replies: Seq<Reply>) -> (Run, Result<(), Stop>) {
    vdmtool_run(Run { replies, asked: Seq::empty() }, matches)
}

/// Runs the tool over what the host has replied so far: tells how it ended, or what the host is to
/// do next.
pub fn next(matches: &Invocation, transcript: &Transcript) -> (res: Result<(), Halt>)
    ensures
        seen(res) == whole_run(*matches, transcript@).1,
{
    let mut host: Host = Host::new(transcript);
    vdmtool(&mut host, matches)
}

} // verus!
