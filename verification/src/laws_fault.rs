//! What the host reports as failed is handed on unchanged.
use crate::cd321x::{
    all_le_bytes, key_of, VdmSopType, BUSY_WAIT, CMD_TIMEOUT, POLL_WAIT, RECONNECT_WAIT,
    RETRY_WAIT, TPS_REG_CMD1, TPS_REG_DATA1, TPS_REG_MODE, TPS_REG_POWER_STATUS,
    TPS_REG_VDM_RX_STATUS, VDM_CMD_TIMEOUT,
};
use crate::error::{Error, Fault};
use crate::host::{
    ask_run, do_run, read_block_run, sleep_run, write_block_run, Answer, Reply, Request, Run,
    Stop,
};
use crate::laws::beginning;
use crate::path::{file_name_of, joined};
use crate::protocol::{
    await_connected_run, await_done_run, await_idle_run, await_reply_run, check_connected_run,
    dbma_run, debugusb_run, enter_run, exec_cmd_run, exec_cmd_with_timing_run, expect_dbma_run,
    fail, get_mode_run, grows, insist_run, leave_run, lemma_vdms_grows, lock_run, new_run,
    reboot_run, reboot_wait_run, serial_run, tag_dbma, tag_disc, tag_dven, tag_gaid, tag_lock,
    tag_vdms, vdm_data, vdms_run, vdos_debugusb, vdos_dfu, vdos_reboot, vdos_serial,
    write_input_run,
};
use crate::sysfs::{
    await_debugusb_run, await_partner_run, best_connector, driver_run, exists_run, partner_run,
    rebind_run, recover_missing_partner_run, reprobe_hpm_run, sysfs_device,
    wait_for_debugusb_run, DEBUGUSB_POLL, PARTNER_POLL, REBIND_WAIT,
};
use crate::text::lowered;
use crate::tool::{
    attempt_run, code_run, command_run, confirm_run, execute_command_run, execute_debugusb_run,
    is_word, port_link, select_run, serve_run, session_run, whole_run, Invocation,
};
use crate::trace::{only_controller, waits};
use crate::trace_device::{lemma_debugusb, lemma_drop, lemma_enter, lemma_new};
use crate::trace_tool::{
    lemma_attempt, lemma_await_debugusb, lemma_code, lemma_command, lemma_confirm,
    lemma_execute_command, lemma_execute_debugusb, lemma_open, lemma_recover, lemma_reprobe,
    lemma_select, sound,
};
use vstd::prelude::*;

verus! {

/// A request that the host reports as failed fails with just that error.
pub proof fn law_fault_handed_on(r: Run, request: Request, fault: Fault)
    requires
        r.has_answer(request),
        r.replies[r.asked.len() as int].answer == Answer::Failed(fault),
    ensures
        ask_run(r, request).1 == fail::<Answer>(fault.spec_error()),
{
}

/// No two faults are handed on as one error.
pub proof fn law_faults_stay_apart(a: Fault, b: Fault)
    requires
        a.spec_error() == b.spec_error(),
    ensures
        a == b,
{
}

/// Whether the host reported of the `i`th request that it failed with `fault`.
pub open spec fn failed_at(s: Run, i: int, fault: Fault) -> bool {
    0 <= i < s.asked.len() && s.replies[i].answer == Answer::Failed(fault)
}

/// Whether a part that fails with the error of `fault` does so because the host reported it.
pub open spec fn reported<T>(end: (Run, Result<T, Stop>), fault: Fault) -> bool {
    end.1 == fail::<T>(fault.spec_error()) ==> exists|i: int| failed_at(end.0, i, fault)
}

proof fn lemma_ask(r: Run, q: Request, f: Fault)
    ensures
        reported(ask_run(r, q), f),
        reported(do_run(r, q), f),
{
    if ask_run(r, q).1 == fail::<Answer>(f.spec_error()) {
        assert(failed_at(ask_run(r, q).0, r.asked.len() as int, f));
    }
}

proof fn lemma_read(r: Run, reg: u8, len: nat, f: Fault)
    ensures
        reported(read_block_run(r, reg, len), f),
{
    lemma_ask(r, Request::ReadBlock { reg, len }, f);
}

proof fn lemma_write(r: Run, reg: u8, data: Seq<u8>, f: Fault)
    ensures
        reported(write_block_run(r, reg, data), f),
{
    lemma_ask(r, Request::WriteBlock { reg, data }, f);
}

proof fn lemma_sleep(r: Run, nanos: u64, f: Fault)
    ensures
        reported(sleep_run(r, nanos), f),
{
    lemma_ask(r, Request::Sleep { nanos }, f);
}

proof fn lemma_mode(r: Run, f: Fault)
    ensures
        reported(get_mode_run(r), f),
        reported(expect_dbma_run(r), f),
{
    lemma_read(r, TPS_REG_MODE, 4, f);
}

proof fn lemma_idle(r: Run, start: u64, f: Fault)
    ensures
        reported(await_idle_run(r, start), f),
    decreases r.left(),
{
    lemma_read(r, TPS_REG_CMD1, 4, f);
    if let (r1, Ok(_)) = read_block_run(r, TPS_REG_CMD1, 4) {
        lemma_sleep(r1, BUSY_WAIT, f);
        if let (r2, Ok(())) = sleep_run(r1, BUSY_WAIT) {
            lemma_idle(r2, start, f);
        }
    }
}

proof fn lemma_done(r: Run, start: u64, timeout: u64, f: Fault)
    ensures
        reported(await_done_run(r, start, timeout), f),
    decreases r.left(),
{
    lemma_read(r, TPS_REG_CMD1, 4, f);
    if let (r1, Ok(_)) = read_block_run(r, TPS_REG_CMD1, 4) {
        lemma_done(r1, start, timeout, f);
    }
}

proof fn lemma_reply(r: Run, before: u8, start: u64, f: Fault)
    ensures
        reported(await_reply_run(r, before, start), f),
    decreases r.left(),
{
    lemma_read(r, TPS_REG_VDM_RX_STATUS, 64, f);
    if let (r1, Ok(_)) = read_block_run(r, TPS_REG_VDM_RX_STATUS, 64) {
        lemma_sleep(r1, BUSY_WAIT, f);
        if let (r2, Ok(())) = sleep_run(r1, BUSY_WAIT) {
            lemma_reply(r2, before, start, f);
        }
    }
}

proof fn lemma_cmd(r: Run, tag: Seq<u8>, data: Seq<u8>, timeout: u64, delay: u64, f: Fault)
    ensures
        reported(exec_cmd_with_timing_run(r, tag, data, timeout, delay), f),
{
    reveal(exec_cmd_with_timing_run);
    lemma_idle(r, r.now(), f);
    if let (r1, Ok(())) = await_idle_run(r, r.now()) {
        lemma_write(r1, TPS_REG_DATA1, data, f);
        if let (r2, Ok(())) = write_input_run(r1, data) {
            lemma_write(r2, TPS_REG_CMD1, tag, f);
            if let (r3, Ok(())) = write_block_run(r2, TPS_REG_CMD1, tag) {
                lemma_done(r3, r3.now(), timeout, f);
                if let (r4, Ok(())) = await_done_run(r3, r3.now(), timeout) {
                    lemma_sleep(r4, delay, f);
                }
            }
        }
    }
}

proof fn lemma_dbma(r: Run, debug: bool, f: Fault)
    ensures
        reported(dbma_run(r, debug), f),
{
    let data = seq![if debug { 1u8 } else { 0u8 }];
    lemma_cmd(r, tag_dbma(), data, CMD_TIMEOUT, 0, f);
    if let (r1, Ok(())) = exec_cmd_run(r, tag_dbma(), data) {
        lemma_mode(r1, f);
    }
}

proof fn lemma_vdms(r: Run, sop: VdmSopType, vdos: Seq<u32>, f: Fault)
    ensures
        reported(vdms_run(r, sop, vdos), f),
{
    reveal(vdms_run);
    let data = vdm_data(sop, vdos);
    lemma_mode(r, f);
    if let (r1, Ok(())) = expect_dbma_run(r) {
        lemma_read(r1, TPS_REG_VDM_RX_STATUS, 64, f);
        if let (r2, Ok(before)) = read_block_run(r1, TPS_REG_VDM_RX_STATUS, 64) {
            lemma_cmd(r2, tag_vdms(), data, VDM_CMD_TIMEOUT, 0, f);
            let sent = exec_cmd_with_timing_run(r2, tag_vdms(), data, VDM_CMD_TIMEOUT, 0);
            if let (r3, Ok(())) = sent {
                lemma_reply(r3, before[0], r3.now(), f);
            }
        }
    }
}

proof fn lemma_connected(r: Run, start: u64, f: Fault)
    ensures
        reported(await_connected_run(r, start), f),
    decreases r.left(),
{
    let (r1, looked) = check_connected_run(r);
    lemma_read(r, TPS_REG_POWER_STATUS, 2, f);
    lemma_sleep(r1, POLL_WAIT, f);
    if !waits(looked) {
        if let (r2, Ok(())) = sleep_run(r1, POLL_WAIT) {
            lemma_connected(r2, start, f);
        }
    }
}

proof fn lemma_reboot_wait(r: Run, f: Fault)
    ensures
        reported(reboot_wait_run(r), f),
{
    lemma_vdms(r, VdmSopType::SopStar, vdos_reboot(), f);
    if let (r1, Ok(())) = reboot_run(r) {
        lemma_sleep(r1, RECONNECT_WAIT, f);
        if let (r2, Ok(())) = sleep_run(r1, RECONNECT_WAIT) {
            lemma_connected(r2, r2.now(), f);
            if let (r3, Ok(())) = await_connected_run(r2, r2.now()) {
                lemma_sleep(r3, RECONNECT_WAIT, f);
            }
        }
    }
}

proof fn lemma_insist(r: Run, vdos: Seq<u32>, start: u64, f: Fault)
    requires
        r.left() >= 0,
    ensures
        reported(insist_run(r, vdos, start), f),
    decreases r.left(),
{
    lemma_vdms(r, VdmSopType::SopStar, vdos, f);
    lemma_vdms_grows(r, VdmSopType::SopStar, vdos);
    let r1 = vdms_run(r, VdmSopType::SopStar, vdos).0;
    lemma_sleep(r1, RETRY_WAIT, f);
    if let (r2, Ok(())) = sleep_run(r1, RETRY_WAIT) {
        lemma_insist(r2, vdos, start, f);
    }
}

proof fn lemma_serial(r: Run, f: Fault)
    requires
        r.left() >= 0,
    ensures
        reported(serial_run(r), f),
{
    lemma_insist(r, vdos_serial(), r.now(), f);
    if let (r1, Ok(())) = insist_run(r, vdos_serial(), r.now()) {
        lemma_mode(r1, f);
        if let (r2, Ok(())) = expect_dbma_run(r1) {
            let data = all_le_bytes(vdos_serial().subrange(1, 2));
            lemma_cmd(r2, tag_dven(), data, CMD_TIMEOUT, 0, f);
        }
    }
}

proof fn lemma_takeover(r: Run, key: Seq<u8>, f: Fault)
    ensures
        reported(enter_run(r, key), f),
{
    lemma_mode(r, f);
    if let (r1, Ok(_)) = get_mode_run(r) {
        lemma_cmd(r1, tag_lock(), key, CMD_TIMEOUT, 0, f);
        if let (r2, Ok(())) = lock_run(r1, key) {
            lemma_dbma(r2, true, f);
        }
    }
}

/// A failure that the host reported stays so when the controller is left.
proof fn lemma_left(part: (Run, Result<(), Stop>), skip_shutdown: bool, f: Fault)
    requires
        part.0.left() >= 0,
        reported(part, f),
    ensures
        reported(leave_run(part, skip_shutdown), f),
{
    lemma_drop(part.0, skip_shutdown, 0);
    let s = leave_run(part, skip_shutdown).0;
    if !waits(part.1) && part.1 == fail::<()>(f.spec_error()) {
        let i = choose|i: int| failed_at(part.0, i, f);
        assert(grows(part.0, s));
        assert(failed_at(s, i, f));
    }
}

proof fn lemma_taken(r: Run, key: Seq<u8>, f: Fault)
    requires
        r.left() >= 0,
    ensures
        reported(new_run(r, key), f),
{
    reveal(new_run);
    lemma_enter(r, key, 0);
    lemma_takeover(r, key, f);
    lemma_left(enter_run(r, key), false, f);
}

proof fn lemma_commanded(r: Run, matches: Invocation, f: Fault)
    requires
        r.left() >= 0,
    ensures
        reported(command_run(r, matches), f),
{
    if is_word(matches.subcommand, "dfu"@) {
        lemma_vdms(r, VdmSopType::SopStar, vdos_dfu(), f);
    } else if is_word(matches.subcommand, "reboot"@) {
        lemma_vdms(r, VdmSopType::SopStar, vdos_reboot(), f);
        lemma_reboot_wait(r, f);
        crate::trace_device::lemma_reboot_wait(r, 0);
        if let (r1, Ok(())) = reboot_wait_run(r) {
            lemma_serial(r1, f);
            lemma_insist(r1, vdos_debugusb(), r1.now(), f);
        }
    } else {
        lemma_serial(r, f);
        lemma_insist(r, vdos_debugusb(), r.now(), f);
        lemma_cmd(r, tag_disc(), seq![3u8], CMD_TIMEOUT, 0, f);
        lemma_write(r, TPS_REG_CMD1, tag_gaid(), f);
    }
}

proof fn lemma_session(r: Run, matches: Invocation, skip_shutdown: bool, f: Fault)
    requires
        r.left() >= 0,
    ensures
        reported(session_run(r, matches, skip_shutdown), f),
{
    let done = command_run(r, matches);
    lemma_command(r, matches, 0);
    lemma_commanded(r, matches, f);
    lemma_left(done, skip_shutdown || matches.is_reset() && done.1 is Ok, f);
}

proof fn lemma_executed(
    r: Run,
    matches: Invocation,
    bus: Seq<char>,
    addr: u16,
    code: Seq<char>,
    reset_controller: bool,
    f: Fault,
)
    requires
        r.left() >= 0,
    ensures
        reported(execute_command_run(r, matches, bus, addr, code, reset_controller), f),
{
    reveal(execute_command_run);
    lemma_ask(r, Request::OpenBus { bus, addr }, f);
    lemma_open(r, bus, addr, 0);
    if let (r1, Ok(())) = do_run(r, Request::OpenBus { bus, addr }) {
        lemma_session(r1, matches, true, f);
        lemma_taken(r1, key_of(code), f);
        lemma_new(r1, key_of(code), 0);
        if let (r2, Ok(())) = new_run(r1, key_of(code)) {
            lemma_session(r2, matches, false, f);
        }
    }
}

proof fn lemma_armed(r: Run, bus: Seq<char>, addr: u16, code: Seq<char>, f: Fault)
    requires
        r.left() >= 0,
    ensures
        reported(execute_debugusb_run(r, bus, addr, code), f),
{
    reveal(execute_debugusb_run);
    lemma_ask(r, Request::OpenBus { bus, addr }, f);
    lemma_open(r, bus, addr, 0);
    if let (r1, Ok(())) = do_run(r, Request::OpenBus { bus, addr }) {
        lemma_taken(r1, key_of(code), f);
        lemma_new(r1, key_of(code), 0);
        if let (r2, Ok(())) = new_run(r1, key_of(code)) {
            lemma_debugusb(r2, 0);
            lemma_insist(r2, vdos_debugusb(), r2.now(), f);
            lemma_left(debugusb_run(r2), false, f);
        }
    }
}

proof fn lemma_partner(r: Run, device: Seq<char>, f: Fault)
    ensures
        reported(partner_run(r, device), f),
{
    lemma_ask(r, Request::ListPorts { dir: joined(device, "typec"@) }, f);
}

proof fn lemma_await_partner(r: Run, device: Seq<char>, start: u64, f: Fault)
    ensures
        reported(await_partner_run(r, device, start), f),
    decreases r.left(),
{
    lemma_partner(r, device, f);
    if let (r1, Ok(_)) = partner_run(r, device) {
        lemma_sleep(r1, PARTNER_POLL, f);
        if let (r2, Ok(())) = sleep_run(r1, PARTNER_POLL) {
            lemma_await_partner(r2, device, start, f);
        }
    }
}

proof fn lemma_rebound(r: Run, driver: Seq<char>, device: Seq<char>, id: Seq<char>, f: Fault)
    ensures
        reported(rebind_run(r, driver, device, id), f),
{
    let unbind = Request::WriteDriver { file: joined(driver, "unbind"@), id };
    let bind = Request::WriteDriver { file: joined(driver, "bind"@), id };
    lemma_ask(r, unbind, f);
    if let (r1, Ok(())) = do_run(r, unbind) {
        lemma_sleep(r1, REBIND_WAIT, f);
        if let (r2, Ok(())) = sleep_run(r1, REBIND_WAIT) {
            lemma_ask(r2, bind, f);
            if let (r3, Ok(())) = do_run(r2, bind) {
                lemma_await_partner(r3, device, r3.now(), f);
            }
        }
    }
}

proof fn lemma_reprobed(r: Run, bus: Seq<char>, addr: u16, f: Fault)
    ensures
        reported(reprobe_hpm_run(r, bus, addr), f),
{
    reveal(reprobe_hpm_run);
    if let Some(device) = sysfs_device(bus, addr) {
        lemma_ask(r, Request::Exists { path: device }, f);
        if let (r1, Ok(_)) = exists_run(r, device) {
            lemma_ask(r1, Request::ResolveDriver { link: joined(device, "driver"@) }, f);
            if let (r2, Ok(Some(driver))) = driver_run(r1, device) {
                let id = file_name_of(device)->0;
                lemma_rebound(r2, driver, device, id, f);
            }
        }
    }
}

proof fn lemma_recovered(r: Run, bus: Seq<char>, addr: u16, f: Fault)
    ensures
        reported(recover_missing_partner_run(r, bus, addr), f),
{
    if let Some(device) = sysfs_device(bus, addr) {
        lemma_ask(r, Request::Exists { path: device }, f);
        if let (r1, Ok(_)) = exists_run(r, device) {
            lemma_partner(r1, device, f);
            if let (r2, Ok(_)) = partner_run(r1, device) {
                lemma_reprobed(r2, bus, addr, f);
            }
        }
    }
}

proof fn lemma_scanned(r: Run, start: u64, f: Fault)
    ensures
        reported(await_debugusb_run(r, start), f),
    decreases r.left(),
{
    lemma_ask(r, Request::ScanUsb, f);
    if let (r1, Ok(_)) = ask_run(r, Request::ScanUsb) {
        lemma_sleep(r1, DEBUGUSB_POLL, f);
        if let (r2, Ok(())) = sleep_run(r1, DEBUGUSB_POLL) {
            lemma_scanned(r2, start, f);
        }
    }
}

proof fn lemma_attempted(
    r: Run,
    matches: Invocation,
    bus: Seq<char>,
    addr: u16,
    code: Seq<char>,
    f: Fault,
)
    requires
        r.left() >= 0,
    ensures
        reported(attempt_run(r, matches, bus, addr, code), f),
{
    let reset = matches.is_reset();
    lemma_executed(r, matches, bus, addr, code, reset, f);
    lemma_execute_command(r, matches, bus, addr, code, reset, 0);
    reveal(sound);
    let r1 = execute_command_run(r, matches, bus, addr, code, reset).0;
    lemma_reprobed(r1, bus, addr, f);
    lemma_reprobe(r1, bus, addr, 0);
    if let (r2, Ok(())) = reprobe_hpm_run(r1, bus, addr) {
        lemma_armed(r2, bus, addr, code, f);
        lemma_executed(r2, matches, bus, addr, code, false, f);
    }
}

proof fn lemma_confirmed(
    r: Run,
    bus: Seq<char>,
    addr: u16,
    code: Seq<char>,
    retried: bool,
    f: Fault,
)
    requires
        r.left() >= 0,
    ensures
        reported(confirm_run(r, bus, addr, code, retried), f),
{
    lemma_scanned(r, r.now(), f);
    lemma_await_debugusb(r, r.now(), Seq::empty(), 0);
    if let (r1, Ok(_)) = wait_for_debugusb_run(r) {
        lemma_reprobed(r1, bus, addr, f);
        lemma_reprobe(r1, bus, addr, 0);
        if let (r2, Ok(())) = reprobe_hpm_run(r1, bus, addr) {
            lemma_armed(r2, bus, addr, code, f);
            if let (r3, Ok(())) = execute_debugusb_run(r2, bus, addr, code) {
                lemma_scanned(r3, r3.now(), f);
            }
        }
    }
}

proof fn lemma_served(
    r: Run,
    matches: Invocation,
    bus: Seq<char>,
    addr: u16,
    code: Seq<char>,
    f: Fault,
)
    requires
        r.left() >= 0,
    ensures
        reported(serve_run(r, matches, bus, addr, code), f),
{
    lemma_attempted(r, matches, bus, addr, code, f);
    lemma_attempt(r, matches, bus, addr, code, 0);
    reveal(sound);
    if let (r1, Ok(retried)) = attempt_run(r, matches, bus, addr, code) {
        lemma_confirmed(r1, bus, addr, code, retried, f);
    }
}

proof fn lemma_selected(r: Run, matches: Invocation, f: Fault)
    ensures
        reported(select_run(r, matches), f),
{
    if let Some(connector) = matches.connector {
        lemma_ask(r, Request::ListConnectors, f);
        if let (r1, Ok(listed)) = ask_run(r, Request::ListConnectors) {
            if let Some(i) = best_connector(listed->Connectors_0@, lowered(connector@)) {
                let link = port_link(listed->Connectors_0@[i].port@);
                lemma_ask(r1, Request::ResolvePort { link }, f);
            }
        }
    }
}

/// The tool makes up no failure of the host: where it fails with the error of `fault`, the host has
/// reported that very fault of something that it was asked for.
pub proof fn law_faults_are_reported(matches: Invocation, replies: Seq<Reply>, fault: Fault)
    requires
        whole_run(matches, replies).1 == fail::<()>(fault.spec_error()),
    ensures
        exists|i: int| failed_at(whole_run(matches, replies).0, i, fault),
{
    let r = beginning(replies);
    lemma_ask(r, Request::ReadCompatible, fault);
    lemma_code(r, 0);
    if let (r1, Ok(code)) = code_run(r) {
        lemma_selected(r1, matches, fault);
        lemma_select(r1, matches, 0);
        if let (r2, Ok((bus, addr))) = select_run(r1, matches) {
            lemma_served(r2, matches, bus, addr, code, fault);
            lemma_recovered(r2, bus, addr, fault);
            lemma_recover(r2, bus, addr, 0);
            if let (r3, Ok(())) = recover_missing_partner_run(r2, bus, addr) {
                lemma_served(r3, matches, bus, addr, code, fault);
            }
        }
    }
}

/// Whether a request is one whose failure ends the run: any that can fail, but for the reads and
/// writes of registers, which a target that reconnects and a controller that is left may fail.
pub open spec fn ends_by_failing(q: Request) -> bool {
    q is ReadCompatible || q is ListConnectors || q is OpenBus || q is ResolveDriver
        || q is WriteDriver || q is ScanUsb
}

/// Whether, from `r` on, such a failure is the last thing that happened, and the error is the one
/// that the host reported.
pub open spec fn handed_on<T>(r: Run, end: (Run, Result<T, Stop>)) -> bool {
    forall|i: int|
        r.asked.len() <= i < end.0.asked.len() && ends_by_failing(#[trigger] end.0.asked[i]) ==> {
            end.0.replies[i].answer matches Answer::Failed(fault) ==> i == end.0.asked.len() - 1
                && end.1 == fail::<T>(fault.spec_error())
        }
}

proof fn lemma_await_partner_on(r: Run, device: Seq<char>, start: u64)
    requires
        r.left() >= 0,
    ensures
        handed_on(r, await_partner_run(r, device, start)),
        grows(r, await_partner_run(r, device, start).0),
    decreases r.left(),
{
    if let (r1, Ok(_)) = partner_run(r, device) {
        if let (r2, Ok(())) = sleep_run(r1, PARTNER_POLL) {
            lemma_await_partner_on(r2, device, start);
        }
    }
}

proof fn lemma_rebind_on(r: Run, driver: Seq<char>, device: Seq<char>, id: Seq<char>)
    requires
        r.left() >= 0,
    ensures
        handed_on(r, rebind_run(r, driver, device, id)),
        grows(r, rebind_run(r, driver, device, id).0),
{
    let unbind = Request::WriteDriver { file: joined(driver, "unbind"@), id };
    let bind = Request::WriteDriver { file: joined(driver, "bind"@), id };
    if let (r1, Ok(())) = do_run(r, unbind) {
        if let (r2, Ok(())) = sleep_run(r1, REBIND_WAIT) {
            if let (r3, Ok(())) = do_run(r2, bind) {
                lemma_await_partner_on(r3, device, r3.now());
            }
        }
    }
}

proof fn lemma_reprobe_on(r: Run, bus: Seq<char>, addr: u16)
    requires
        r.left() >= 0,
    ensures
        handed_on(r, reprobe_hpm_run(r, bus, addr)),
{
    lemma_reprobe(r, bus, addr, 0);
    reveal(reprobe_hpm_run);
    if let Some(device) = sysfs_device(bus, addr) {
        if let (r1, Ok(_)) = exists_run(r, device) {
            if let (r2, Ok(Some(driver))) = driver_run(r1, device) {
                let id = file_name_of(device)->0;
                lemma_rebind_on(r2, driver, device, id);
            }
        }
    }
}

proof fn lemma_recover_on(r: Run, bus: Seq<char>, addr: u16)
    requires
        r.left() >= 0,
    ensures
        handed_on(r, recover_missing_partner_run(r, bus, addr)),
{
    if let Some(device) = sysfs_device(bus, addr) {
        if let (r1, Ok(_)) = exists_run(r, device) {
            if let (r2, Ok(_)) = partner_run(r1, device) {
                lemma_reprobe_on(r2, bus, addr);
                lemma_reprobe(r2, bus, addr, 0);
            }
        }
    }
}

proof fn lemma_scan_on(r: Run, start: u64)
    requires
        r.left() >= 0,
    ensures
        handed_on(r, await_debugusb_run(r, start)),
    decreases r.left(),
{
    if let (r1, Ok(_)) = ask_run(r, Request::ScanUsb) {
        if let (r2, Ok(())) = sleep_run(r1, DEBUGUSB_POLL) {
            lemma_scan_on(r2, start);
            lemma_await_debugusb(r2, start, Seq::empty(), 0);
        }
    }
}

proof fn lemma_session_on(r: Run, matches: Invocation, skip_shutdown: bool)
    requires
        r.left() >= 0,
    ensures
        only_controller(r, session_run(r, matches, skip_shutdown).0),
        grows(r, session_run(r, matches, skip_shutdown).0),
{
    let (r1, done) = command_run(r, matches);
    lemma_command(r, matches, 0);
    lemma_drop(r1, skip_shutdown || matches.is_reset() && done is Ok, 0);
}

proof fn lemma_execute_command_on(
    r: Run,
    matches: Invocation,
    bus: Seq<char>,
    addr: u16,
    code: Seq<char>,
    reset_controller: bool,
)
    requires
        r.left() >= 0,
    ensures
        handed_on(r, execute_command_run(r, matches, bus, addr, code, reset_controller)),
{
    reveal(execute_command_run);
    lemma_open(r, bus, addr, 0);
    if let (r1, Ok(())) = do_run(r, Request::OpenBus { bus, addr }) {
        if reset_controller {
            lemma_session_on(r1, matches, true);
        } else {
            lemma_new(r1, key_of(code), 0);
            if let (r2, Ok(())) = new_run(r1, key_of(code)) {
                lemma_session_on(r2, matches, false);
            }
        }
    }
}

proof fn lemma_execute_debugusb_on(r: Run, bus: Seq<char>, addr: u16, code: Seq<char>)
    requires
        r.left() >= 0,
    ensures
        handed_on(r, execute_debugusb_run(r, bus, addr, code)),
{
    reveal(execute_debugusb_run);
    lemma_open(r, bus, addr, 0);
    if let (r1, Ok(())) = do_run(r, Request::OpenBus { bus, addr }) {
        lemma_new(r1, key_of(code), 0);
        if let (r2, Ok(())) = new_run(r1, key_of(code)) {
            lemma_debugusb(r2, 0);
            lemma_drop(debugusb_run(r2).0, false, 0);
        }
    }
}

proof fn lemma_attempt_on(
    r: Run,
    matches: Invocation,
    bus: Seq<char>,
    addr: u16,
    code: Seq<char>,
)
    requires
        r.left() >= 0,
    ensures
        handed_on(r, attempt_run(r, matches, bus, addr, code)),
{
    let reset = matches.is_reset();
    let (r1, first) = execute_command_run(r, matches, bus, addr, code, reset);
    lemma_execute_command_on(r, matches, bus, addr, code, reset);
    lemma_execute_command(r, matches, bus, addr, code, reset, 0);
    reveal(sound);
    if first == fail::<()>(Error::VdmReplyTimeout) {
        lemma_reprobe_on(r1, bus, addr);
        lemma_reprobe(r1, bus, addr, 0);
        if let (r2, Ok(())) = reprobe_hpm_run(r1, bus, addr) {
            lemma_execute_debugusb_on(r2, bus, addr, code);
            lemma_execute_debugusb(r2, bus, addr, code, 0);
            lemma_execute_command_on(r2, matches, bus, addr, code, false);
            lemma_execute_command(r2, matches, bus, addr, code, false, 0);
        }
    }
}

proof fn lemma_confirm_on(r: Run, bus: Seq<char>, addr: u16, code: Seq<char>, retried: bool)
    requires
        r.left() >= 0,
    ensures
        handed_on(r, confirm_run(r, bus, addr, code, retried)),
{
    lemma_scan_on(r, r.now());
    lemma_await_debugusb(r, r.now(), Seq::empty(), 0);
    reveal(sound);
    if let (r1, Ok(None)) = wait_for_debugusb_run(r) {
        lemma_reprobe_on(r1, bus, addr);
        lemma_reprobe(r1, bus, addr, 0);
        if let (r2, Ok(())) = reprobe_hpm_run(r1, bus, addr) {
            lemma_execute_debugusb_on(r2, bus, addr, code);
            lemma_execute_debugusb(r2, bus, addr, code, 0);
            if let (r3, Ok(())) = execute_debugusb_run(r2, bus, addr, code) {
                lemma_scan_on(r3, r3.now());
                lemma_await_debugusb(r3, r3.now(), Seq::empty(), 0);
            }
        }
    }
}

proof fn lemma_serve_on(
    r: Run,
    matches: Invocation,
    bus: Seq<char>,
    addr: u16,
    code: Seq<char>,
)
    requires
        r.left() >= 0,
    ensures
        handed_on(r, serve_run(r, matches, bus, addr, code)),
        grows(r, serve_run(r, matches, bus, addr, code).0),
{
    lemma_attempt_on(r, matches, bus, addr, code);
    lemma_attempt(r, matches, bus, addr, code, 0);
    reveal(sound);
    if let (r1, Ok(retried)) = attempt_run(r, matches, bus, addr, code) {
        lemma_confirm_on(r1, bus, addr, code, retried);
        lemma_confirm(r1, bus, addr, code, retried, 0);
    }
}

/// A failure that the host reports is handed on unchanged: where anything fails but the read or
/// write of a register, nothing more is asked for, and the tool fails with just that error.
pub proof fn law_failure_ends_the_run(
    matches: Invocation,
    replies: Seq<Reply>,
    i: int,
    fault: Fault,
)
    requires
        failed_at(whole_run(matches, replies).0, i, fault),
        ends_by_failing(whole_run(matches, replies).0.asked[i]),
    ensures
        i == whole_run(matches, replies).0.asked.len() - 1,
        whole_run(matches, replies).1 == fail::<()>(fault.spec_error()),
{
    let r = beginning(replies);
    lemma_code(r, 0);
    if let (r1, Ok(code)) = code_run(r) {
        lemma_select(r1, matches, 0);
        if let (r2, Ok((bus, addr))) = select_run(r1, matches) {
            if matches.is_reset() || matches.is_nop() {
                lemma_serve_on(r2, matches, bus, addr, code);
            } else {
                lemma_recover_on(r2, bus, addr);
                lemma_recover(r2, bus, addr, 0);
                if let (r3, Ok(())) = recover_missing_partner_run(r2, bus, addr) {
                    lemma_serve_on(r3, matches, bus, addr, code);
                }
            }
        }
    }
}

} // verus!
