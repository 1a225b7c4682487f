//! What can be said of everything that the tool asks for.
use crate::cd321x::key_of;
use crate::error::Error;
use crate::host::{ask_run, do_run, sleep_run, Request, Run, Stop};
use crate::laws_text::law_hpm_id;
use crate::path::{file_name_of, joined};
use crate::protocol::{debugusb_run, fail, grows, new_run, reboot_wait_run, serial_run};
use crate::sysfs::{
    await_debugusb_run, await_partner_run, best_connector, driver_run, exists_run, partner_run,
    rebind_run, recover_missing_partner_run, reprobe_hpm_run, sysfs_device,
    wait_for_debugusb_run, DEBUGUSB_POLL, PARTNER_POLL, REBIND_WAIT,
};
use crate::text::lowered;
use crate::tool::{
    attempt_run, code_run, command_run, confirm_run, drive_run, execute_command_run,
    execute_debugusb_run, find_run, is_word, port_link, reaches_debugusb, rearm_run,
    second_attempt_run, select_run, serve_run, session_reaches_debugusb, session_run,
    vdmtool_run, work_run, Invocation,
};
use crate::trace::{
    about_controller, about_sysfs, beside_bus, cut, driver_at, extended, found_driver_at,
    in_order, is_open, lemma_ask_beside, lemma_ask_cut, lemma_extended,
    lemma_extended_in_order, lemma_grows_take, only_sysfs, opens, reboots, replays,
    through_bus, to_closed_bus, waits, writes_own_driver,
};
use crate::trace_device::{
    lemma_debugusb, lemma_dfu, lemma_disconnect, lemma_drop, lemma_leave, lemma_new,
    lemma_reboot, lemma_reboot_wait, lemma_reset, lemma_serial,
};
use vstd::prelude::*;

verus! {

/// The id by which the driver of a controller knows it.
pub open spec fn hpm_id(bus: Seq<char>, addr: u16) -> Seq<char> {
    file_name_of(sysfs_device(bus, addr)->0)->0
}

/// Whether the way from `r` to `s` leaves the bus alone, and changes nothing in sysfs but the
/// driver of the device `id`.
pub open spec fn in_sysfs(r: Run, s: Run, id: Seq<char>) -> bool {
    beside_bus(r, s) && only_sysfs(r, s, id)
}

proof fn lemma_ask_sysfs(r: Run, q: Request, id: Seq<char>, n: int)
    requires
        r.left() >= 0,
        about_sysfs(q, id),
        writes_own_driver(extended(r, q), r.asked.len() as int),
    ensures
        in_sysfs(r, ask_run(r, q).0, id),
        replays(r, ask_run(r, q), ask_run(cut(r, n), q), n),
{
    lemma_ask_beside(r, q, n);
}

proof fn lemma_sleep(r: Run, nanos: u64, id: Seq<char>, n: int)
    requires
        r.left() >= 0,
    ensures
        in_sysfs(r, sleep_run(r, nanos).0, id),
        replays(r, sleep_run(r, nanos), sleep_run(cut(r, n), nanos), n),
{
    lemma_ask_sysfs(r, Request::Sleep { nanos }, id, n);
}

proof fn lemma_exists(r: Run, path: Seq<char>, id: Seq<char>, n: int)
    requires
        r.left() >= 0,
    ensures
        in_sysfs(r, exists_run(r, path).0, id),
        replays(r, exists_run(r, path), exists_run(cut(r, n), path), n),
{
    lemma_ask_sysfs(r, Request::Exists { path }, id, n);
}

proof fn lemma_partner(r: Run, device: Seq<char>, id: Seq<char>, n: int)
    requires
        r.left() >= 0,
    ensures
        in_sysfs(r, partner_run(r, device).0, id),
        replays(r, partner_run(r, device), partner_run(cut(r, n), device), n),
{
    lemma_ask_sysfs(r, Request::ListPorts { dir: joined(device, "typec"@) }, id, n);
}

proof fn lemma_driver(r: Run, device: Seq<char>, id: Seq<char>, n: int)
    requires
        r.left() >= 0,
        device == "/sys/bus/i2c/devices/"@ + id,
    ensures
        in_sysfs(r, driver_run(r, device).0, id),
        replays(r, driver_run(r, device), driver_run(cut(r, n), device), n),
        driver_run(r, device) matches (s, Ok(Some(driver))) ==> {
            let j = s.asked.len() - 1;
            found_driver_at(s, j, id) && driver_at(s, j) == driver
        },
{
    lemma_ask_sysfs(r, Request::ResolveDriver { link: joined(device, "driver"@) }, id, n);
}

proof fn lemma_await_partner(r: Run, device: Seq<char>, start: u64, id: Seq<char>, n: int)
    requires
        r.left() >= 0,
    ensures
        in_sysfs(r, await_partner_run(r, device, start).0, id),
        replays(
            r,
            await_partner_run(r, device, start),
            await_partner_run(cut(r, n), device, start),
            n,
        ),
    decreases r.left(),
{
    lemma_partner(r, device, id, n);
    let (s, _) = await_partner_run(r, device, start);
    if let (r1, Ok(_)) = partner_run(r, device) {
        lemma_sleep(r1, PARTNER_POLL, id, n);
        if let (r2, Ok(())) = sleep_run(r1, PARTNER_POLL) {
            lemma_await_partner(r2, device, start, id, n);
            lemma_grows_take(r2, await_partner_run(r2, device, start).0, n);
        }
        if s != r {
            lemma_grows_take(r1, s, n);
        }
    }
}

proof fn lemma_rebind(r: Run, driver: Seq<char>, device: Seq<char>, id: Seq<char>, n: int)
    requires
        r.left() >= 0,
        found_driver_at(r, r.asked.len() - 1, id),
        driver_at(r, r.asked.len() - 1) == driver,
    ensures
        in_sysfs(r, rebind_run(r, driver, device, id).0, id),
        replays(
            r,
            rebind_run(r, driver, device, id),
            rebind_run(cut(r, n), driver, device, id),
            n,
        ),
{
    let (s, _) = rebind_run(r, driver, device, id);
    let unbind = Request::WriteDriver { file: joined(driver, "unbind"@), id };
    let bind = Request::WriteDriver { file: joined(driver, "bind"@), id };
    lemma_ask_sysfs(r, unbind, id, n);
    if let (r1, Ok(())) = do_run(r, unbind) {
        lemma_sleep(r1, REBIND_WAIT, id, n);
        if let (r2, Ok(())) = sleep_run(r1, REBIND_WAIT) {
            lemma_ask_sysfs(r2, bind, id, n);
            if let (r3, Ok(())) = do_run(r2, bind) {
                lemma_await_partner(r3, device, r3.now(), id, n);
                lemma_grows_take(r3, s, n);
            }
            lemma_grows_take(r2, s, n);
        }
        lemma_grows_take(r1, s, n);
    }
}

/// A controller is probed again.
pub proof fn lemma_reprobe(r: Run, bus: Seq<char>, addr: u16, n: int)
    requires
        r.left() >= 0,
    ensures
        in_sysfs(r, reprobe_hpm_run(r, bus, addr).0, hpm_id(bus, addr)),
        replays(r, reprobe_hpm_run(r, bus, addr), reprobe_hpm_run(cut(r, n), bus, addr), n),
{
    let id = hpm_id(bus, addr);
    reveal(reprobe_hpm_run);
    let (s, _) = reprobe_hpm_run(r, bus, addr);
    if let Some(device) = sysfs_device(bus, addr) {
        law_hpm_id(bus, addr);
        assert(device =~= "/sys/bus/i2c/devices/"@ + id);
        lemma_exists(r, device, id, n);
        if let (r1, Ok(present)) = exists_run(r, device) {
            lemma_driver(r1, device, id, n);
            if let (r2, Ok(Some(driver))) = driver_run(r1, device) {
                lemma_rebind(r2, driver, device, id, n);
                lemma_grows_take(r2, rebind_run(r2, driver, device, id).0, n);
            }
            lemma_grows_take(r1, s, n);
        }
    }
}

/// A controller without a partner is probed again.
pub proof fn lemma_recover(r: Run, bus: Seq<char>, addr: u16, n: int)
    requires
        r.left() >= 0,
    ensures
        in_sysfs(r, recover_missing_partner_run(r, bus, addr).0, hpm_id(bus, addr)),
        replays(
            r,
            recover_missing_partner_run(r, bus, addr),
            recover_missing_partner_run(cut(r, n), bus, addr),
            n,
        ),
{
    let id = hpm_id(bus, addr);
    let (s, _) = recover_missing_partner_run(r, bus, addr);
    if let Some(device) = sysfs_device(bus, addr) {
        lemma_exists(r, device, id, n);
        if let (r1, Ok(present)) = exists_run(r, device) {
            lemma_partner(r1, device, id, n);
            if let (r2, Ok(partner)) = partner_run(r1, device) {
                lemma_reprobe(r2, bus, addr, n);
                lemma_grows_take(r2, reprobe_hpm_run(r2, bus, addr).0, n);
            }
            lemma_grows_take(r1, s, n);
        }
    }
}

/// The wait for the DebugUSB function.
pub proof fn lemma_await_debugusb(r: Run, start: u64, id: Seq<char>, n: int)
    requires
        r.left() >= 0,
    ensures
        in_sysfs(r, await_debugusb_run(r, start).0, id),
        replays(r, await_debugusb_run(r, start), await_debugusb_run(cut(r, n), start), n),
    decreases r.left(),
{
    lemma_ask_sysfs(r, Request::ScanUsb, id, n);
    let (s, _) = await_debugusb_run(r, start);
    if let (r1, Ok(_)) = ask_run(r, Request::ScanUsb) {
        lemma_sleep(r1, DEBUGUSB_POLL, id, n);
        if let (r2, Ok(())) = sleep_run(r1, DEBUGUSB_POLL) {
            lemma_await_debugusb(r2, start, id, n);
            lemma_grows_take(r2, await_debugusb_run(r2, start).0, n);
        }
        if s != r {
            lemma_grows_take(r1, s, n);
        }
    }
}

/// How often a command tells the target to reboot, at the most.
pub open spec fn command_reboots(matches: Invocation) -> nat {
    if is_word(matches.subcommand, "reboot"@) {
        1
    } else {
        0
    }
}

/// What a command does to a controller that has been taken over.
pub proof fn lemma_command(r: Run, matches: Invocation, n: int)
    requires
        r.left() >= 0,
    ensures
        through_bus(r, command_run(r, matches).0, command_reboots(matches)),
        replays(r, command_run(r, matches), command_run(cut(r, n), matches), n),
{
    let (s, _) = command_run(r, matches);
    reveal_strlit("dfu");
    reveal_strlit("reboot");
    assert("dfu"@.len() == 3 && "reboot"@.len() == 6);
    if is_word(matches.subcommand, "reboot"@) {
        lemma_reboot(r, n);
        lemma_reboot_wait(r, n);
        if let (r1, Ok(())) = reboot_wait_run(r) {
            lemma_serial(r1, n);
            lemma_debugusb(r1, n);
            lemma_grows_take(r1, serial_run(r1).0, n);
            lemma_grows_take(r1, debugusb_run(r1).0, n);
        }
    } else {
        lemma_dfu(r, n);
        lemma_serial(r, n);
        lemma_debugusb(r, n);
        lemma_disconnect(r, n);
        lemma_reset(r, n);
    }
}

proof fn lemma_session(r: Run, matches: Invocation, skip_shutdown: bool, n: int)
    requires
        r.left() >= 0,
    ensures
        to_closed_bus(
            r,
            session_run(r, matches, skip_shutdown),
            command_reboots(matches),
        ),
        replays(
            r,
            session_run(r, matches, skip_shutdown),
            session_run(cut(r, n), matches, skip_shutdown),
            n,
        ),
{
    let done = command_run(r, matches);
    let skip = skip_shutdown || matches.is_reset() && done.1 is Ok;
    lemma_command(r, matches, n);
    lemma_leave(
        r,
        done,
        command_run(cut(r, n), matches),
        skip,
        command_reboots(matches),
        n,
    );
}

/// Where a controller is: the bus, and the address on it.
pub struct Place {
    pub bus: Seq<char>,
    pub addr: u16,
}

impl Place {
    /// The id by which the driver of the controller knows it.
    pub open spec fn id(self) -> Seq<char> {
        hpm_id(self.bus, self.addr)
    }

    /// The request that opens the bus.
    pub open spec fn opening(self) -> Request {
        Request::OpenBus { bus: self.bus, addr: self.addr }
    }
}

/// How often things are done, at the most.
pub struct Most {
    pub opens: nat,
    pub reboots: nat,
}

/// Whether the way from `r`, with the bus closed, is one of the tool's: everything is in order,
/// the bus is closed again in the end, it is opened and the target rebooted no more often than
/// `most` says, no other bus than the one `at` is opened, and of sysfs nothing is changed but the
/// driver of the device there.
pub open spec fn works<T>(r: Run, end: (Run, Result<T, Stop>), most: Most, at: Place) -> bool {
    &&& grows(r, end.0)
    &&& in_order(r) && !is_open(r) ==> in_order(end.0) && (!waits(end.1) ==> !is_open(end.0))
    &&& opens(end.0.asked) <= opens(r.asked) + most.opens
    &&& reboots(end.0.asked) <= reboots(r.asked) + most.reboots
    &&& forall|i: int|
        r.asked.len() <= i < end.0.asked.len() ==> about_controller(#[trigger] end.0.asked[i])
            || about_sysfs(end.0.asked[i], at.id()) || end.0.asked[i] == at.opening()
}

/// Whether everything that was asked for between `r` and `s` is about the controller `at`.
pub open spec fn only_there(r: Run, s: Run, at: Place) -> bool {
    forall|i: int|
        r.asked.len() <= i < s.asked.len() ==> about_controller(#[trigger] s.asked[i])
            || s.asked[i] == at.opening()
}

/// Whether `end` is the end of a way of the tool's, and `short` what it is with the first `n`
/// replies.
#[verifier::opaque]
pub open spec fn sound<T>(
    r: Run,
    end: (Run, Result<T, Stop>),
    short: (Run, Result<T, Stop>),
    most: Most,
    at: Place,
    n: int,
) -> bool {
    works(r, end, most, at) && replays(r, end, short, n)
}

/// A part that leaves the bus alone is sound.
proof fn lemma_beside<T>(
    r: Run,
    end: (Run, Result<T, Stop>),
    short: (Run, Result<T, Stop>),
    at: Place,
    n: int,
)
    requires
        in_sysfs(r, end.0, at.id()),
        replays(r, end, short, n),
    ensures
        sound(r, end, short, Most { opens: 0, reboots: 0 }, at, n),
{
    reveal(sound);
}

/// A part that asks for nothing is sound.
proof fn lemma_nothing<T>(
    r: Run,
    end: (Run, Result<T, Stop>),
    short: (Run, Result<T, Stop>),
    most: Most,
    at: Place,
    n: int,
)
    requires
        r.left() >= 0,
        end.0 == r,
        !waits(end.1),
        short == (cut(r, n), end.1),
    ensures
        sound(r, end, short, most, at, n),
{
    reveal(sound);
}

/// One sound part after another, in which the first has succeeded: `rest` is the second with the
/// first `n` replies, and `short` both.
proof fn lemma_both<A, B>(
    r: Run,
    first: (Run, Result<A, Stop>),
    first_short: (Run, Result<A, Stop>),
    end: (Run, Result<B, Stop>),
    rest: (Run, Result<B, Stop>),
    short: (Run, Result<B, Stop>),
    most1: Most,
    most2: Most,
    at: Place,
    n: int,
)
    requires
        sound(r, first, first_short, most1, at, n),
        first.1 is Ok,
        sound(first.0, end, rest, most2, at, n),
        first_short.1 matches Err(s) ==> short == (first_short.0, Err::<B, Stop>(s)),
        first_short == (cut(first.0, n), first.1) ==> short == rest,
    ensures
        sound(
            r,
            end,
            short,
            Most { opens: most1.opens + most2.opens, reboots: most1.reboots + most2.reboots },
            at,
            n,
        ),
{
    reveal(sound);
    lemma_grows_take(first.0, end.0, n);
}

/// A sound part that has not succeeded.
proof fn lemma_stopped<A, B>(
    r: Run,
    first: (Run, Result<A, Stop>),
    first_short: (Run, Result<A, Stop>),
    end: (Run, Result<B, Stop>),
    short: (Run, Result<B, Stop>),
    most: Most,
    at: Place,
    n: int,
)
    requires
        sound(r, first, first_short, most, at, n),
        first.1 matches Err(s) && end == (first.0, Err::<B, Stop>(s)),
        first_short.1 matches Err(s) ==> short == (first_short.0, Err::<B, Stop>(s)),
    ensures
        sound(r, end, short, most, at, n),
{
    reveal(sound);
}

/// What is sound is sound with a higher bound.
proof fn lemma_more<T>(
    r: Run,
    end: (Run, Result<T, Stop>),
    short: (Run, Result<T, Stop>),
    most: Most,
    more: Most,
    at: Place,
    n: int,
)
    requires
        sound(r, end, short, most, at, n),
        most.opens <= more.opens,
        most.reboots <= more.reboots,
    ensures
        sound(r, end, short, more, at, n),
{
    reveal(sound);
}

/// The bus is opened, or is not.
pub proof fn lemma_open(r: Run, bus: Seq<char>, addr: u16, n: int)
    requires
        r.left() >= 0,
    ensures
        ({
            let q = Request::OpenBus { bus, addr };
            let (s, done) = do_run(r, q);
            &&& grows(r, s)
            &&& in_order(r) ==> in_order(s)
            &&& !waits(done) ==> is_open(s) == done is Ok
            &&& waits(done) ==> s == r
            &&& opens(s.asked) <= opens(r.asked) + 1
            &&& reboots(s.asked) == reboots(r.asked)
            &&& forall|i: int| r.asked.len() <= i < s.asked.len() ==> #[trigger] s.asked[i] == q
            &&& replays(r, (s, done), do_run(cut(r, n), q), n)
        }),
{
    let q = Request::OpenBus { bus, addr };
    lemma_ask_cut(r, q, n);
    if r.has_answer(q) {
        lemma_extended(r, q);
        if in_order(r) {
            lemma_extended_in_order(r, q);
        }
    }
}

/// A command, from the opening of the bus to its closing.
pub proof fn lemma_execute_command(
    r: Run,
    matches: Invocation,
    bus: Seq<char>,
    addr: u16,
    code: Seq<char>,
    reset_controller: bool,
    n: int,
)
    requires
        r.left() >= 0,
    ensures
        sound(
            r,
            execute_command_run(r, matches, bus, addr, code, reset_controller),
            execute_command_run(cut(r, n), matches, bus, addr, code, reset_controller),
            Most { opens: 1, reboots: command_reboots(matches) },
            (Place { bus, addr }),
            n,
        ),
        only_there(
            r,
            execute_command_run(r, matches, bus, addr, code, reset_controller).0,
            Place { bus, addr },
        ),
{
    reveal(sound);
    reveal(execute_command_run);
    let (s, _) = execute_command_run(r, matches, bus, addr, code, reset_controller);
    lemma_open(r, bus, addr, n);
    if let (r1, Ok(())) = do_run(r, Request::OpenBus { bus, addr }) {
        if reset_controller {
            lemma_session(r1, matches, true, n);
        } else {
            lemma_new(r1, key_of(code), n);
            if let (r2, Ok(())) = new_run(r1, key_of(code)) {
                lemma_session(r2, matches, false, n);
                lemma_grows_take(r2, s, n);
            }
        }
        lemma_grows_take(r1, s, n);
    }
}

/// DebugUSB mode, from the opening of the bus to its closing.
pub proof fn lemma_execute_debugusb(r: Run, bus: Seq<char>, addr: u16, code: Seq<char>, n: int)
    requires
        r.left() >= 0,
    ensures
        sound(
            r,
            execute_debugusb_run(r, bus, addr, code),
            execute_debugusb_run(cut(r, n), bus, addr, code),
            Most { opens: 1, reboots: 0 },
            (Place { bus, addr }),
            n,
        ),
{
    reveal(sound);
    reveal(execute_debugusb_run);
    let (s, _) = execute_debugusb_run(r, bus, addr, code);
    lemma_open(r, bus, addr, n);
    if let (r1, Ok(())) = do_run(r, Request::OpenBus { bus, addr }) {
        lemma_new(r1, key_of(code), n);
        if let (r2, Ok(())) = new_run(r1, key_of(code)) {
            lemma_debugusb(r2, n);
            lemma_leave(r2, debugusb_run(r2), debugusb_run(cut(r2, n)), false, 0, n);
            lemma_grows_take(r2, s, n);
        }
        lemma_grows_take(r1, s, n);
    }
}

/// How often the target is told to reboot in two attempts, at the most: not twice where it is
/// rebooted into DebugUSB mode.
pub open spec fn attempt_reboots(matches: Invocation) -> nat {
    if !is_word(matches.subcommand, "reboot"@) {
        0
    } else if matches.is_reboot_debugusb() {
        1
    } else {
        2
    }
}

/// A sound part that has ended, however it did.
proof fn lemma_ended(
    r: Run,
    first: (Run, Result<(), Stop>),
    first_short: (Run, Result<(), Stop>),
    most: Most,
    at: Place,
    n: int,
)
    requires
        sound(r, first, first_short, most, at, n),
        !waits(first.1),
    ensures
        sound(
            r,
            (first.0, Ok(())),
            if waits(first_short.1) {
                first_short
            } else {
                (first_short.0, Ok(()))
            },
            most,
            at,
            n,
        ),
        waits(first_short.1) || first_short == (cut(first.0, n), first.1) || !(r.asked.len() <= n
            <= r.replies.len()),
{
    reveal(sound);
}

/// The second attempt at a command.
pub proof fn lemma_second_attempt(
    r: Run,
    matches: Invocation,
    bus: Seq<char>,
    addr: u16,
    code: Seq<char>,
    n: int,
)
    requires
        r.left() >= 0,
    ensures
        sound(
            r,
            second_attempt_run(r, matches, bus, addr, code),
            second_attempt_run(cut(r, n), matches, bus, addr, code),
            Most {
                opens: 1,
                reboots: if matches.is_reboot_debugusb() { 0 } else { command_reboots(matches) },
            },
            (Place { bus, addr }),
            n,
        ),
{
    let at = Place { bus, addr };
    let none = Most { opens: 0, reboots: 0 };
    let most = Most {
        opens: 1,
        reboots: if matches.is_reboot_debugusb() { 0 } else { command_reboots(matches) },
    };
    let first = reprobe_hpm_run(r, bus, addr);
    let first_short = reprobe_hpm_run(cut(r, n), bus, addr);
    let end = second_attempt_run(r, matches, bus, addr, code);
    let short = second_attempt_run(cut(r, n), matches, bus, addr, code);
    lemma_reprobe(r, bus, addr, n);
    lemma_beside(r, first, first_short, at, n);
    if let (r1, Ok(())) = first {
        if matches.is_reboot_debugusb() {
            lemma_execute_debugusb(r1, bus, addr, code, n);
            let rest = execute_debugusb_run(cut(r1, n), bus, addr, code);
            lemma_both(r, first, first_short, end, rest, short, none, most, at, n);
        } else {
            lemma_execute_command(r1, matches, bus, addr, code, false, n);
            let rest = execute_command_run(cut(r1, n), matches, bus, addr, code, false);
            lemma_both(r, first, first_short, end, rest, short, none, most, at, n);
        }
    } else {
        lemma_stopped(r, first, first_short, end, short, none, at, n);
        lemma_more(r, end, short, none, most, at, n);
    }
}

/// With fewer replies than have been read, or more than there are, nothing is said of the shorter
/// run.
proof fn lemma_beyond<T>(
    r: Run,
    end: (Run, Result<T, Stop>),
    short1: (Run, Result<T, Stop>),
    short2: (Run, Result<T, Stop>),
    most: Most,
    at: Place,
    m: int,
    n: int,
)
    requires
        sound(r, end, short1, most, at, m),
        !(r.asked.len() <= n <= r.replies.len()),
    ensures
        sound(r, end, short2, most, at, n),
{
    reveal(sound);
}

/// With as many replies as the command needs, it gets as far as with more.
proof fn lemma_reaches_cut(r: Run, matches: Invocation, n: int)
    requires
        r.left() >= 0,
        command_run(r, matches).0.asked.len() <= n <= r.replies.len(),
    ensures
        reaches_debugusb(cut(r, n), matches) == reaches_debugusb(r, matches),
{
    reveal_strlit("dfu");
    reveal_strlit("reboot");
    reveal_strlit("serial");
    reveal_strlit("debugusb");
    assert("dfu"@.len() == 3 && "reboot"@.len() == 6);
    assert("serial"@.len() == 6 && "debugusb"@.len() == 8);
    if is_word(matches.subcommand, "reboot"@) && is_word(matches.nested, "debugusb"@) {
        lemma_reboot_wait(r, n);
        if let (r1, Ok(())) = reboot_wait_run(r) {
            lemma_debugusb(r1, n);
        }
    }
}

/// With as many replies as the command needs, from the opening of the bus to its closing, it gets
/// as far as with more.
proof fn lemma_session_reaches_cut(
    r: Run,
    matches: Invocation,
    bus: Seq<char>,
    addr: u16,
    code: Seq<char>,
    reset: bool,
    n: int,
)
    requires
        r.left() >= 0,
        execute_command_run(r, matches, bus, addr, code, reset).0.asked.len() <= n
            <= r.replies.len(),
        !waits(execute_command_run(r, matches, bus, addr, code, reset).1),
    ensures
        session_reaches_debugusb(cut(r, n), matches, bus, addr, code, reset)
            == session_reaches_debugusb(r, matches, bus, addr, code, reset),
{
    reveal(execute_command_run);
    let key = key_of(code);
    lemma_open(r, bus, addr, n);
    if let (r1, Ok(())) = do_run(r, Request::OpenBus { bus, addr }) {
        if reset {
            lemma_command(r1, matches, n);
            lemma_session(r1, matches, true, n);
            let (r3, done) = command_run(r1, matches);
            lemma_drop(r3, true, n);
            lemma_reaches_cut(r1, matches, n);
        } else {
            lemma_new(r1, key, n);
            if let (r2, Ok(())) = new_run(r1, key) {
                lemma_command(r2, matches, n);
                let (r3, done) = command_run(r2, matches);
                lemma_drop(r3, matches.is_reset() && done is Ok, n);
                lemma_session(r2, matches, false, n);
                lemma_reaches_cut(r2, matches, n);
            }
        }
    }
}

/// A command, and once more, with a number of replies that there can be.
proof fn lemma_attempt_within(
    r: Run,
    matches: Invocation,
    bus: Seq<char>,
    addr: u16,
    code: Seq<char>,
    n: int,
)
    requires
        r.left() >= 0,
        r.asked.len() <= n <= r.replies.len(),
    ensures
        sound(
            r,
            attempt_run(r, matches, bus, addr, code),
            attempt_run(cut(r, n), matches, bus, addr, code),
            Most {
                opens: if matches.is_reset() || matches.is_nop() { 1 } else { 2 },
                reboots: attempt_reboots(matches),
            },
            (Place { bus, addr }),
            n,
        ),
        matches.is_reset() || matches.is_nop() ==> only_there(
            r,
            attempt_run(r, matches, bus, addr, code).0,
            Place { bus, addr },
        ),
{
    let at = Place { bus, addr };
    let most1 = Most { opens: 1, reboots: command_reboots(matches) };
    let most2 = Most {
        opens: 1,
        reboots: if matches.is_reboot_debugusb() { 0 } else { command_reboots(matches) },
    };
    let most = Most {
        opens: if matches.is_reset() || matches.is_nop() { 1 } else { 2 },
        reboots: attempt_reboots(matches),
    };
    let none = Most { opens: 0, reboots: 0 };
    let reset = matches.is_reset();
    let first = execute_command_run(r, matches, bus, addr, code, reset);
    let first_short = execute_command_run(cut(r, n), matches, bus, addr, code, reset);
    let end = attempt_run(r, matches, bus, addr, code);
    let short = attempt_run(cut(r, n), matches, bus, addr, code);
    lemma_execute_command(r, matches, bus, addr, code, reset, n);
    assert(first.0.left() >= 0) by {
        reveal(sound);
    }
    if waits(first.1) {
        assert(waits(first_short.1)) by {
            reveal(sound);
        }
        lemma_stopped(r, first, first_short, end, short, most1, at, n);
        lemma_more(r, end, short, most1, most, at, n);
    } else {
        lemma_ended(r, first, first_short, most1, at, n);
        let again = first.1 == fail::<()>(Error::VdmReplyTimeout) && !reset && !matches.is_nop();
        if !again {
            if first.1 is Ok {
                let rest: (Run, Result<bool, Stop>) = (cut(first.0, n), Ok(false));
                lemma_nothing(first.0, end, rest, none, at, n);
                lemma_both(r, first, first_short, end, rest, short, most1, none, at, n);
            } else {
                lemma_stopped(r, first, first_short, end, short, most1, at, n);
            }
            lemma_more(r, end, short, most1, most, at, n);
        } else {
            let ended: (Run, Result<(), Stop>) = (first.0, Ok(()));
            let ended_short: (Run, Result<(), Stop>) = if waits(first_short.1) {
                first_short
            } else {
                (first_short.0, Ok(()))
            };
            let both = Most { opens: 2, reboots: most1.reboots + most2.reboots };
            let second = second_attempt_run(first.0, matches, bus, addr, code);
            let rest = second_attempt_run(cut(first.0, n), matches, bus, addr, code);
            let second_short = if waits(first_short.1) {
                first_short
            } else {
                rest
            };
            lemma_second_attempt(first.0, matches, bus, addr, code, n);
            lemma_both(r, ended, ended_short, second, rest, second_short, most1, most2, at, n);
            if !waits(first_short.1) {
                assert(first.0.asked.len() <= n) by {
                    reveal(sound);
                }
                lemma_session_reaches_cut(r, matches, bus, addr, code, reset, n);
            }
            if let (r2, Ok(())) = second {
                let last: (Run, Result<bool, Stop>) = (cut(r2, n), end.1);
                assert(r2.left() >= 0) by {
                    reveal(sound);
                }
                lemma_nothing(r2, end, last, none, at, n);
                lemma_both(r, second, second_short, end, last, short, both, none, at, n);
            } else {
                lemma_stopped(r, second, second_short, end, short, both, at, n);
            }
            lemma_more(r, end, short, both, most, at, n);
        }
    }
}

/// A command, and once more.
pub proof fn lemma_attempt(
    r: Run,
    matches: Invocation,
    bus: Seq<char>,
    addr: u16,
    code: Seq<char>,
    n: int,
)
    requires
        r.left() >= 0,
    ensures
        sound(
            r,
            attempt_run(r, matches, bus, addr, code),
            attempt_run(cut(r, n), matches, bus, addr, code),
            Most {
                opens: if matches.is_reset() || matches.is_nop() { 1 } else { 2 },
                reboots: attempt_reboots(matches),
            },
            (Place { bus, addr }),
            n,
        ),
        matches.is_reset() || matches.is_nop() ==> only_there(
            r,
            attempt_run(r, matches, bus, addr, code).0,
            Place { bus, addr },
        ),
{
    if r.asked.len() <= n <= r.replies.len() {
        lemma_attempt_within(r, matches, bus, addr, code, n);
    } else {
        let m = r.asked.len() as int;
        let most = Most {
            opens: if matches.is_reset() || matches.is_nop() { 1 } else { 2 },
            reboots: attempt_reboots(matches),
        };
        let end = attempt_run(r, matches, bus, addr, code);
        let short1 = attempt_run(cut(r, m), matches, bus, addr, code);
        let short2 = attempt_run(cut(r, n), matches, bus, addr, code);
        lemma_attempt_within(r, matches, bus, addr, code, m);
        lemma_beyond(r, end, short1, short2, most, (Place { bus, addr }), m, n);
    }
}

/// DebugUSB mode once more, and the wait for the DebugUSB function.
proof fn lemma_rearm(r: Run, bus: Seq<char>, addr: u16, code: Seq<char>, n: int)
    requires
        r.left() >= 0,
    ensures
        sound(
            r,
            rearm_run(r, bus, addr, code),
            rearm_run(cut(r, n), bus, addr, code),
            Most { opens: 1, reboots: 0 },
            (Place { bus, addr }),
            n,
        ),
{
    let at = Place { bus, addr };
    let none = Most { opens: 0, reboots: 0 };
    let one = Most { opens: 1, reboots: 0 };
    let first = reprobe_hpm_run(r, bus, addr);
    let first_short = reprobe_hpm_run(cut(r, n), bus, addr);
    let end = rearm_run(r, bus, addr, code);
    let short = rearm_run(cut(r, n), bus, addr, code);
    lemma_reprobe(r, bus, addr, n);
    lemma_beside(r, first, first_short, at, n);
    if let (r1, Ok(())) = first {
        let second = execute_debugusb_run(r1, bus, addr, code);
        let second_short = execute_debugusb_run(cut(r1, n), bus, addr, code);
        let rest: (Run, Result<Option<Seq<char>>, Stop>) = match second_short {
            (r2, Ok(())) => wait_for_debugusb_run(r2),
            (r2, Err(e)) => (r2, Err(e)),
        };
        lemma_execute_debugusb(r1, bus, addr, code, n);
        if let (r2, Ok(())) = second {
            assert(r2.left() >= 0) by {
                reveal(sound);
            }
            let last = wait_for_debugusb_run(cut(r2, n));
            lemma_await_debugusb(r2, r2.now(), at.id(), n);
            lemma_beside(r2, end, last, at, n);
            lemma_both(r1, second, second_short, end, last, rest, one, none, at, n);
        } else {
            lemma_stopped(r1, second, second_short, end, rest, one, at, n);
        }
        lemma_both(r, first, first_short, end, rest, short, none, one, at, n);
    } else {
        lemma_stopped(r, first, first_short, end, short, none, at, n);
        lemma_more(r, end, short, none, one, at, n);
    }
}

/// The wait for the DebugUSB function, and once more.
pub proof fn lemma_confirm(
    r: Run,
    bus: Seq<char>,
    addr: u16,
    code: Seq<char>,
    retried: bool,
    n: int,
)
    requires
        r.left() >= 0,
    ensures
        sound(
            r,
            confirm_run(r, bus, addr, code, retried),
            confirm_run(cut(r, n), bus, addr, code, retried),
            Most { opens: if retried { 0 } else { 1 }, reboots: 0 },
            (Place { bus, addr }),
            n,
        ),
{
    let at = Place { bus, addr };
    let none = Most { opens: 0, reboots: 0 };
    let one = Most { opens: 1, reboots: 0 };
    let most = Most { opens: if retried { 0 } else { 1 }, reboots: 0 };
    let first = wait_for_debugusb_run(r);
    let first_short = wait_for_debugusb_run(cut(r, n));
    let end = confirm_run(r, bus, addr, code, retried);
    let short = confirm_run(cut(r, n), bus, addr, code, retried);
    lemma_await_debugusb(r, r.now(), at.id(), n);
    lemma_beside(r, first, first_short, at, n);
    if let (r1, Ok(found)) = first {
        if found is Some || retried {
            let rest = (cut(r1, n), end.1);
            lemma_nothing(r1, end, rest, most, at, n);
            lemma_both(r, first, first_short, end, rest, short, none, most, at, n);
        } else {
            let second = rearm_run(r1, bus, addr, code);
            let second_short = rearm_run(cut(r1, n), bus, addr, code);
            let rest: (Run, Result<(), Stop>) = match second_short {
                (r2, Ok(found)) => if found is Some {
                    (r2, Ok(()))
                } else {
                    (r2, fail(Error::DebugUsbEnumerationTimeout))
                },
                (r2, Err(e)) => (r2, Err(e)),
            };
            lemma_rearm(r1, bus, addr, code, n);
            if let (r2, Ok(_)) = second {
                let last = (cut(r2, n), end.1);
                assert(r2.left() >= 0) by {
                    reveal(sound);
                }
                lemma_nothing(r2, end, last, none, at, n);
                lemma_both(r1, second, second_short, end, last, rest, one, none, at, n);
            } else {
                lemma_stopped(r1, second, second_short, end, rest, one, at, n);
            }
            lemma_both(r, first, first_short, end, rest, short, none, one, at, n);
        }
    } else {
        lemma_stopped(r, first, first_short, end, short, none, at, n);
        lemma_more(r, end, short, none, most, at, n);
    }
}

/// How often the tool opens the bus and reboots the target, at the most.
pub open spec fn most_of(matches: Invocation) -> Most {
    let attempts: nat = if matches.is_reset() || matches.is_nop() {
        1
    } else {
        2
    };
    Most {
        opens: attempts + if matches.is_debugusb() { 1nat } else { 0 },
        reboots: attempt_reboots(matches),
    }
}

/// What the tool does with the controller that it works on, once Linux sees it.
pub proof fn lemma_serve(
    r: Run,
    matches: Invocation,
    bus: Seq<char>,
    addr: u16,
    code: Seq<char>,
    n: int,
)
    requires
        r.left() >= 0,
    ensures
        sound(
            r,
            serve_run(r, matches, bus, addr, code),
            serve_run(cut(r, n), matches, bus, addr, code),
            most_of(matches),
            (Place { bus, addr }),
            n,
        ),
        (matches.is_reset() || matches.is_nop()) && !matches.is_debugusb() ==> only_there(
            r,
            serve_run(r, matches, bus, addr, code).0,
            Place { bus, addr },
        ),
{
    let at = Place { bus, addr };
    let most1 = Most {
        opens: if matches.is_reset() || matches.is_nop() { 1 } else { 2 },
        reboots: attempt_reboots(matches),
    };
    let most2 = Most { opens: if matches.is_debugusb() { 1 } else { 0 }, reboots: 0 };
    let first = attempt_run(r, matches, bus, addr, code);
    let first_short = attempt_run(cut(r, n), matches, bus, addr, code);
    let end = serve_run(r, matches, bus, addr, code);
    let short = serve_run(cut(r, n), matches, bus, addr, code);
    lemma_attempt(r, matches, bus, addr, code, n);
    if let (r1, Ok(retried)) = first {
        assert(r1.left() >= 0) by {
            reveal(sound);
        }
        if matches.is_debugusb() {
            lemma_confirm(r1, bus, addr, code, retried, n);
            let rest = confirm_run(cut(r1, n), bus, addr, code, retried);
            let once = Most { opens: if retried { 0 } else { 1 }, reboots: 0 };
            lemma_more(r1, end, rest, once, most2, at, n);
            lemma_both(r, first, first_short, end, rest, short, most1, most2, at, n);
        } else {
            let rest: (Run, Result<(), Stop>) = (cut(r1, n), Ok(()));
            lemma_nothing(r1, end, rest, most2, at, n);
            lemma_both(r, first, first_short, end, rest, short, most1, most2, at, n);
        }
    } else {
        lemma_stopped(r, first, first_short, end, short, most1, at, n);
        lemma_more(r, end, short, most1, most_of(matches), at, n);
    }
}

/// What the tool does with the controller that it works on.
pub proof fn lemma_drive(
    r: Run,
    matches: Invocation,
    bus: Seq<char>,
    addr: u16,
    code: Seq<char>,
    n: int,
)
    requires
        r.left() >= 0,
    ensures
        sound(
            r,
            drive_run(r, matches, bus, addr, code),
            drive_run(cut(r, n), matches, bus, addr, code),
            most_of(matches),
            (Place { bus, addr }),
            n,
        ),
        (matches.is_reset() || matches.is_nop()) && !matches.is_debugusb() ==> only_there(
            r,
            drive_run(r, matches, bus, addr, code).0,
            Place { bus, addr },
        ),
{
    let at = Place { bus, addr };
    let none = Most { opens: 0, reboots: 0 };
    let most = most_of(matches);
    let end = drive_run(r, matches, bus, addr, code);
    let short = drive_run(cut(r, n), matches, bus, addr, code);
    if matches.is_reset() || matches.is_nop() {
        lemma_serve(r, matches, bus, addr, code, n);
    } else {
        let first = recover_missing_partner_run(r, bus, addr);
        let first_short = recover_missing_partner_run(cut(r, n), bus, addr);
        lemma_recover(r, bus, addr, n);
        lemma_beside(r, first, first_short, at, n);
        if let (r1, Ok(())) = first {
            lemma_serve(r1, matches, bus, addr, code, n);
            let rest = serve_run(cut(r1, n), matches, bus, addr, code);
            lemma_both(r, first, first_short, end, rest, short, none, most, at, n);
        } else {
            lemma_stopped(r, first, first_short, end, short, none, at, n);
            lemma_more(r, end, short, none, most, at, n);
        }
    }
}

/// Whether everything that was asked for between `r` and `s` looks for the controller.
pub open spec fn only_lookups(r: Run, s: Run) -> bool {
    forall|i: int|
        r.asked.len() <= i < s.asked.len() ==> {
            ||| #[trigger] s.asked[i] is ReadCompatible
            ||| s.asked[i] is ListConnectors
            ||| s.asked[i] is ResolvePort
        }
}

/// The code of the machine is found out.
pub proof fn lemma_code(r: Run, n: int)
    requires
        r.left() >= 0,
    ensures
        beside_bus(r, code_run(r).0),
        only_lookups(r, code_run(r).0),
        replays(r, code_run(r), code_run(cut(r, n)), n),
{
    lemma_ask_beside(r, Request::ReadCompatible, n);
}

proof fn lemma_find(r: Run, connector: Seq<char>, n: int)
    requires
        r.left() >= 0,
    ensures
        beside_bus(r, find_run(r, connector).0),
        only_lookups(r, find_run(r, connector).0),
        replays(r, find_run(r, connector), find_run(cut(r, n), connector), n),
{
    let (s, _) = find_run(r, connector);
    lemma_ask_beside(r, Request::ListConnectors, n);
    if let (r1, Ok(listed)) = ask_run(r, Request::ListConnectors) {
        if let Some(i) = best_connector(listed->Connectors_0@, lowered(connector)) {
            let link = port_link(listed->Connectors_0@[i].port@);
            lemma_ask_beside(r1, Request::ResolvePort { link }, n);
        }
        lemma_grows_take(r1, s, n);
    }
}

/// The controller is chosen.
pub proof fn lemma_select(r: Run, matches: Invocation, n: int)
    requires
        r.left() >= 0,
    ensures
        beside_bus(r, select_run(r, matches).0),
        only_lookups(r, select_run(r, matches).0),
        replays(r, select_run(r, matches), select_run(cut(r, n), matches), n),
{
    if let Some(connector) = matches.connector {
        lemma_find(r, connector@, n);
    }
}

/// Whether `end` is the end of a way from `r` with everything in order, and `short` what it is with
/// the first `n` replies.
#[verifier::opaque]
pub open spec fn sound_whole(
    r: Run,
    end: (Run, Result<(), Stop>),
    short: (Run, Result<(), Stop>),
    most: Most,
    n: int,
) -> bool {
    &&& grows(r, end.0)
    &&& in_order(r) && !is_open(r) ==> in_order(end.0) && (!waits(end.1) ==> !is_open(end.0))
    &&& opens(end.0.asked) <= opens(r.asked) + most.opens
    &&& reboots(end.0.asked) <= reboots(r.asked) + most.reboots
    &&& replays(r, end, short, n)
}

proof fn lemma_whole_both<A>(
    r: Run,
    first: (Run, Result<A, Stop>),
    first_short: (Run, Result<A, Stop>),
    end: (Run, Result<(), Stop>),
    rest: (Run, Result<(), Stop>),
    short: (Run, Result<(), Stop>),
    most: Most,
    n: int,
)
    requires
        r.left() >= 0,
        beside_bus(r, first.0),
        replays(r, first, first_short, n),
        first.1 matches Err(s) ==> end == (first.0, Err::<(), Stop>(s)),
        first.1 is Ok ==> sound_whole(first.0, end, rest, most, n),
        first_short.1 matches Err(s) ==> short == (first_short.0, Err::<(), Stop>(s)),
        first.1 is Ok && first_short == (cut(first.0, n), first.1) ==> short == rest,
    ensures
        sound_whole(r, end, short, most, n),
{
    reveal(sound_whole);
    if first.1 is Ok {
        lemma_grows_take(first.0, end.0, n);
    }
}

/// What the tool does.
pub proof fn lemma_vdmtool(r: Run, matches: Invocation, n: int)
    requires
        r.left() >= 0,
    ensures
        sound_whole(
            r,
            vdmtool_run(r, matches),
            vdmtool_run(cut(r, n), matches),
            most_of(matches),
            n,
        ),
{
    let most = most_of(matches);
    let first = code_run(r);
    let first_short = code_run(cut(r, n));
    let end = vdmtool_run(r, matches);
    let short = vdmtool_run(cut(r, n), matches);
    lemma_code(r, n);
    let rest1: (Run, Result<(), Stop>) = match first {
        (r1, Ok(code)) => work_run(cut(r1, n), matches, code),
        _ => short,
    };
    if let (r1, Ok(code)) = first {
        let second = select_run(r1, matches);
        let second_short = select_run(cut(r1, n), matches);
        lemma_select(r1, matches, n);
        let rest2: (Run, Result<(), Stop>) = match second {
            (r2, Ok(dev)) => drive_run(cut(r2, n), matches, dev.0, dev.1, code),
            _ => rest1,
        };
        if let (r2, Ok(dev)) = second {
            lemma_drive(r2, matches, dev.0, dev.1, code, n);
            assert(sound_whole(r2, end, rest2, most, n)) by {
                reveal(sound);
                reveal(sound_whole);
            }
        }
        lemma_whole_both(r1, second, second_short, end, rest2, rest1, most, n);
    }
    lemma_whole_both(r, first, first_short, end, rest1, short, most, n);
}

} // verus!
