//! What can be said of everything that the operations of the controller ask for.
use crate::cd321x::{
    all_le_bytes, VdmSopType, BUSY_WAIT, CMD_TIMEOUT, POLL_WAIT, RECONNECT_WAIT, RETRY_WAIT,
    TPS_REG_CMD1, TPS_REG_DATA1, TPS_REG_MODE, TPS_REG_POWER_STATUS, TPS_REG_VDM_RX_STATUS,
    VDM_CMD_TIMEOUT,
};
use crate::host::{do_run, read_block_run, sleep_run, write_block_run, Request, Run, Stop};
use crate::protocol::{
    await_connected_run, await_done_run, await_idle_run, await_reply_run, check_connected_run,
    dbma_run, debugusb_run, dfu_run, disconnect_run, drop_run, dven_run, enter_run,
    exec_cmd_run, exec_cmd_with_timing_run, expect_dbma_run, get_mode_run, insist_run,
    leave_run, lock_run, new_run, reboot_run, reboot_wait_run, reset_run, serial_run, tag_dbma,
    tag_disc, tag_dven, tag_gaid, tag_lock, tag_vdms, vdm_data, vdms_run, vdos_debugusb,
    vdos_dfu, vdos_reboot, vdos_serial, write_input_run,
};
use crate::trace::{
    cut, debugusb_data, idle_at, in_order, is_open, lemma_ask_cut, lemma_ask_through,
    lemma_extended, lemma_extended_in_order, lemma_grows_take, reboot_data, replays,
    through_bus, to_closed_bus, unarmed, waits,
};
use vstd::prelude::*;

verus! {

/// A register is read.
pub proof fn lemma_read(r: Run, reg: u8, len: nat, n: int)
    requires
        r.left() >= 0,
    ensures
        through_bus(r, read_block_run(r, reg, len).0, 0),
        unarmed(r, read_block_run(r, reg, len).0),
        replays(r, read_block_run(r, reg, len), read_block_run(cut(r, n), reg, len), n),
{
    lemma_ask_through(r, Request::ReadBlock { reg, len }, n);
}

proof fn lemma_sleep(r: Run, nanos: u64, n: int)
    requires
        r.left() >= 0,
    ensures
        through_bus(r, sleep_run(r, nanos).0, 0),
        unarmed(r, sleep_run(r, nanos).0),
        replays(r, sleep_run(r, nanos), sleep_run(cut(r, n), nanos), n),
{
    lemma_ask_through(r, Request::Sleep { nanos }, n);
}

proof fn lemma_get_mode(r: Run, n: int)
    requires
        r.left() >= 0,
    ensures
        through_bus(r, get_mode_run(r).0, 0),
        unarmed(r, get_mode_run(r).0),
        replays(r, get_mode_run(r), get_mode_run(cut(r, n)), n),
{
    lemma_read(r, TPS_REG_MODE, 4, n);
}

/// The mode of the controller is looked at.
pub proof fn lemma_expect_dbma(r: Run, n: int)
    requires
        r.left() >= 0,
    ensures
        through_bus(r, expect_dbma_run(r).0, 0),
        unarmed(r, expect_dbma_run(r).0),
        replays(r, expect_dbma_run(r), expect_dbma_run(cut(r, n)), n),
{
    lemma_get_mode(r, n);
}

/// The wait for an idle controller.
pub proof fn lemma_await_idle(r: Run, start: u64, n: int)
    requires
        r.left() >= 0,
    ensures
        through_bus(r, await_idle_run(r, start).0, 0),
        unarmed(r, await_idle_run(r, start).0),
        replays(r, await_idle_run(r, start), await_idle_run(cut(r, n), start), n),
        await_idle_run(r, start).1 is Ok ==> {
            let s = await_idle_run(r, start).0;
            s.asked.len() > r.asked.len() && idle_at(s, s.asked.len() - 1)
        },
    decreases r.left(),
{
    lemma_read(r, TPS_REG_CMD1, 4, n);
    let (s, _) = await_idle_run(r, start);
    if let (r1, Ok(_)) = read_block_run(r, TPS_REG_CMD1, 4) {
        lemma_sleep(r1, BUSY_WAIT, n);
        if let (r2, Ok(())) = sleep_run(r1, BUSY_WAIT) {
            lemma_await_idle(r2, start, n);
            lemma_grows_take(r2, await_idle_run(r2, start).0, n);
        }
        lemma_grows_take(r1, s, n);
    }
}

proof fn lemma_await_done(r: Run, start: u64, timeout: u64, n: int)
    requires
        r.left() >= 0,
    ensures
        through_bus(r, await_done_run(r, start, timeout).0, 0),
        unarmed(r, await_done_run(r, start, timeout).0),
        replays(r, await_done_run(r, start, timeout), await_done_run(cut(r, n), start, timeout), n),
    decreases r.left(),
{
    lemma_read(r, TPS_REG_CMD1, 4, n);
    let (s, _) = await_done_run(r, start, timeout);
    if let (r1, Ok(_)) = read_block_run(r, TPS_REG_CMD1, 4) {
        lemma_await_done(r1, start, timeout, n);
        lemma_grows_take(r1, s, n);
    }
}

proof fn lemma_await_reply(r: Run, before: u8, start: u64, n: int)
    requires
        r.left() >= 0,
    ensures
        through_bus(r, await_reply_run(r, before, start).0, 0),
        unarmed(r, await_reply_run(r, before, start).0),
        replays(r, await_reply_run(r, before, start), await_reply_run(cut(r, n), before, start), n),
    decreases r.left(),
{
    lemma_read(r, TPS_REG_VDM_RX_STATUS, 64, n);
    let (s, _) = await_reply_run(r, before, start);
    if let (r1, Ok(_)) = read_block_run(r, TPS_REG_VDM_RX_STATUS, 64) {
        lemma_sleep(r1, BUSY_WAIT, n);
        if let (r2, Ok(())) = sleep_run(r1, BUSY_WAIT) {
            lemma_await_reply(r2, before, start, n);
            lemma_grows_take(r2, await_reply_run(r2, before, start).0, n);
        }
        lemma_grows_take(r1, s, n);
    }
}

/// Whether a command with what it works on is the message that reboots the target.
pub open spec fn reboots_target(tag: Seq<u8>, data: Seq<u8>) -> nat {
    if tag == tag_vdms() && data == reboot_data() {
        1
    } else {
        0
    }
}

/// What a command works on, and the command itself, after the controller was found idle.
proof fn lemma_submit(r: Run, tag: Seq<u8>, data: Seq<u8>, n: int)
    requires
        r.left() >= 0,
        idle_at(r, r.asked.len() - 1),
    ensures
        ({
            let (r1, done) = write_input_run(r, data);
            &&& through_bus(r, r1, 0)
            &&& unarmed(r, r1)
            &&& replays(r, (r1, done), write_input_run(cut(r, n), data), n)
            &&& done is Ok ==> {
                let submitted = write_block_run(r1, TPS_REG_CMD1, tag);
                &&& through_bus(r1, submitted.0, reboots_target(tag, data))
                &&& tag != tag_vdms() || data != debugusb_data() ==> unarmed(r1, submitted.0)
                &&& replays(r1, submitted, write_block_run(cut(r1, n), TPS_REG_CMD1, tag), n)
            }
        }),
{
    let input = Request::WriteBlock { reg: TPS_REG_DATA1, data };
    let command = Request::WriteBlock { reg: TPS_REG_CMD1, data: tag };
    lemma_ask_cut(r, input, n);
    if data.len() > 0 && r.has_answer(input) {
        lemma_extended(r, input);
        if in_order(r) && is_open(r) {
            lemma_extended_in_order(r, input);
        }
    }
    let (r1, done) = write_input_run(r, data);
    if done is Ok {
        lemma_ask_cut(r1, command, n);
        if r1.has_answer(command) {
            lemma_extended(r1, command);
            if in_order(r1) && is_open(r1) {
                lemma_extended_in_order(r1, command);
            }
        }
    }
}

proof fn lemma_exec_cmd(r: Run, tag: Seq<u8>, data: Seq<u8>, timeout: u64, delay: u64, n: int)
    requires
        r.left() >= 0,
    ensures
        through_bus(
            r,
            exec_cmd_with_timing_run(r, tag, data, timeout, delay).0,
            reboots_target(tag, data),
        ),
        tag != tag_vdms() || data != debugusb_data() ==> unarmed(
            r,
            exec_cmd_with_timing_run(r, tag, data, timeout, delay).0,
        ),
        replays(
            r,
            exec_cmd_with_timing_run(r, tag, data, timeout, delay),
            exec_cmd_with_timing_run(cut(r, n), tag, data, timeout, delay),
            n,
        ),
{
    reveal(exec_cmd_with_timing_run);
    let (s, _) = exec_cmd_with_timing_run(r, tag, data, timeout, delay);
    lemma_await_idle(r, r.now(), n);
    if let (r1, Ok(())) = await_idle_run(r, r.now()) {
        lemma_submit(r1, tag, data, n);
        if let (r2, Ok(())) = write_input_run(r1, data) {
            if let (r3, Ok(())) = write_block_run(r2, TPS_REG_CMD1, tag) {
                lemma_await_done(r3, r3.now(), timeout, n);
                if let (r4, Ok(())) = await_done_run(r3, r3.now(), timeout) {
                    lemma_sleep(r4, delay, n);
                    lemma_grows_take(r4, s, n);
                }
                lemma_grows_take(r3, s, n);
            }
            lemma_grows_take(r2, s, n);
        }
        lemma_grows_take(r1, s, n);
    }
}

/// No other message than the one that reboots the target is that one.
proof fn lemma_messages_differ()
    ensures
        vdm_data(VdmSopType::SopStar, vdos_serial()) != reboot_data(),
        vdm_data(VdmSopType::SopStar, vdos_debugusb()) != reboot_data(),
        vdm_data(VdmSopType::SopStar, vdos_dfu()) != reboot_data(),
{
    assert(reboot_data()[0] == 51);
    assert(vdm_data(VdmSopType::SopStar, vdos_serial())[0] == 50);
    assert(vdm_data(VdmSopType::SopStar, vdos_debugusb())[0] == 50);
    reveal_with_fuel(all_le_bytes, 4);
    assert(vdos_reboot().drop_last().drop_last() =~= vdos_dfu().drop_last().drop_last());
    assert(vdos_reboot().drop_last().last() == 0x105);
    assert(vdos_dfu().drop_last().last() == 0x106);
    assert(reboot_data()[5] == 5);
    assert(vdm_data(VdmSopType::SopStar, vdos_dfu())[5] == 6);
}

pub proof fn lemma_lock(r: Run, key: Seq<u8>, n: int)
    requires
        r.left() >= 0,
    ensures
        through_bus(r, lock_run(r, key).0, 0),
        unarmed(r, lock_run(r, key).0),
        replays(r, lock_run(r, key), lock_run(cut(r, n), key), n),
{
    assert(tag_lock()[0] != tag_vdms()[0]);
    lemma_exec_cmd(r, tag_lock(), key, CMD_TIMEOUT, 0, n);
}

pub proof fn lemma_dbma(r: Run, debug: bool, n: int)
    requires
        r.left() >= 0,
    ensures
        through_bus(r, dbma_run(r, debug).0, 0),
        unarmed(r, dbma_run(r, debug).0),
        replays(r, dbma_run(r, debug), dbma_run(cut(r, n), debug), n),
{
    let data = seq![if debug { 1u8 } else { 0u8 }];
    assert(tag_dbma()[0] != tag_vdms()[0]);
    lemma_exec_cmd(r, tag_dbma(), data, CMD_TIMEOUT, 0, n);
    if let (r1, Ok(())) = exec_cmd_run(r, tag_dbma(), data) {
        lemma_expect_dbma(r1, n);
        lemma_grows_take(r1, dbma_run(r, debug).0, n);
    }
}

/// The local end is put into a mode.
pub proof fn lemma_dven(r: Run, vdos: Seq<u32>, n: int)
    requires
        r.left() >= 0,
    ensures
        through_bus(r, dven_run(r, vdos).0, 0),
        replays(r, dven_run(r, vdos), dven_run(cut(r, n), vdos), n),
{
    assert(tag_dven()[0] != tag_vdms()[0]);
    lemma_exec_cmd(r, tag_dven(), all_le_bytes(vdos), CMD_TIMEOUT, 0, n);
}

/// The cable is pulled and plugged in, as it were.
pub proof fn lemma_disconnect(r: Run, n: int)
    requires
        r.left() >= 0,
    ensures
        through_bus(r, disconnect_run(r).0, 0),
        replays(r, disconnect_run(r), disconnect_run(cut(r, n)), n),
{
    assert(tag_disc()[0] != tag_vdms()[0]);
    lemma_exec_cmd(r, tag_disc(), seq![3u8], CMD_TIMEOUT, 0, n);
}

proof fn lemma_vdms(r: Run, sop: VdmSopType, vdos: Seq<u32>, n: int)
    requires
        r.left() >= 0,
    ensures
        through_bus(
            r,
            vdms_run(r, sop, vdos).0,
            reboots_target(tag_vdms(), vdm_data(sop, vdos)),
        ),
        vdm_data(sop, vdos) != debugusb_data() ==> unarmed(r, vdms_run(r, sop, vdos).0),
        replays(r, vdms_run(r, sop, vdos), vdms_run(cut(r, n), sop, vdos), n),
{
    reveal(vdms_run);
    let (s, _) = vdms_run(r, sop, vdos);
    let data = vdm_data(sop, vdos);
    lemma_expect_dbma(r, n);
    if let (r1, Ok(())) = expect_dbma_run(r) {
        lemma_read(r1, TPS_REG_VDM_RX_STATUS, 64, n);
        if let (r2, Ok(before)) = read_block_run(r1, TPS_REG_VDM_RX_STATUS, 64) {
            lemma_exec_cmd(r2, tag_vdms(), data, VDM_CMD_TIMEOUT, 0, n);
            let sent = exec_cmd_with_timing_run(r2, tag_vdms(), data, VDM_CMD_TIMEOUT, 0);
            if let (r3, Ok(())) = sent {
                lemma_await_reply(r3, before[0], r3.now(), n);
                lemma_grows_take(r3, await_reply_run(r3, before[0], r3.now()).0, n);
            }
            if 1 <= vdos.len() <= 7 {
                lemma_grows_take(r2, s, n);
            }
        }
        if 1 <= vdos.len() <= 7 {
            lemma_grows_take(r1, s, n);
        }
    }
}

proof fn lemma_check_connected(r: Run, n: int)
    requires
        r.left() >= 0,
    ensures
        through_bus(r, check_connected_run(r).0, 0),
        unarmed(r, check_connected_run(r).0),
        replays(r, check_connected_run(r), check_connected_run(cut(r, n)), n),
{
    lemma_read(r, TPS_REG_POWER_STATUS, 2, n);
}

/// The wait for a connection.
pub proof fn lemma_await_connected(r: Run, start: u64, n: int)
    requires
        r.left() >= 0,
    ensures
        through_bus(r, await_connected_run(r, start).0, 0),
        unarmed(r, await_connected_run(r, start).0),
        replays(r, await_connected_run(r, start), await_connected_run(cut(r, n), start), n),
    decreases r.left(),
{
    lemma_check_connected(r, n);
    let (s, _) = await_connected_run(r, start);
    let (r1, _) = check_connected_run(r);
    lemma_sleep(r1, POLL_WAIT, n);
    if let (r2, Ok(())) = sleep_run(r1, POLL_WAIT) {
        lemma_await_connected(r2, start, n);
        lemma_grows_take(r2, await_connected_run(r2, start).0, n);
    }
    lemma_grows_take(r1, s, n);
}

/// The target is rebooted.
pub proof fn lemma_reboot(r: Run, n: int)
    requires
        r.left() >= 0,
    ensures
        through_bus(r, reboot_run(r).0, 1),
        unarmed(r, reboot_run(r).0),
        replays(r, reboot_run(r), reboot_run(cut(r, n)), n),
{
    lemma_messages_differ();
    lemma_vdms(r, VdmSopType::SopStar, vdos_reboot(), n);
}

/// The target is put into DFU mode.
pub proof fn lemma_dfu(r: Run, n: int)
    requires
        r.left() >= 0,
    ensures
        through_bus(r, dfu_run(r).0, 0),
        replays(r, dfu_run(r), dfu_run(cut(r, n)), n),
{
    lemma_messages_differ();
    lemma_vdms(r, VdmSopType::SopStar, vdos_dfu(), n);
}

/// The target is rebooted, and waited for.
pub proof fn lemma_reboot_wait(r: Run, n: int)
    requires
        r.left() >= 0,
    ensures
        through_bus(r, reboot_wait_run(r).0, 1),
        unarmed(r, reboot_wait_run(r).0),
        replays(r, reboot_wait_run(r), reboot_wait_run(cut(r, n)), n),
{
    let (s, _) = reboot_wait_run(r);
    lemma_reboot(r, n);
    if let (r1, Ok(())) = reboot_run(r) {
        lemma_sleep(r1, RECONNECT_WAIT, n);
        if let (r2, Ok(())) = sleep_run(r1, RECONNECT_WAIT) {
            lemma_await_connected(r2, r2.now(), n);
            if let (r3, Ok(())) = await_connected_run(r2, r2.now()) {
                lemma_sleep(r3, RECONNECT_WAIT, n);
                lemma_grows_take(r3, s, n);
            }
            lemma_grows_take(r2, s, n);
        }
        lemma_grows_take(r1, s, n);
    }
}

proof fn lemma_insist(r: Run, vdos: Seq<u32>, start: u64, n: int)
    requires
        r.left() >= 0,
        vdm_data(VdmSopType::SopStar, vdos) != reboot_data(),
    ensures
        through_bus(r, insist_run(r, vdos, start).0, 0),
        replays(r, insist_run(r, vdos, start), insist_run(cut(r, n), vdos, start), n),
    decreases r.left(),
{
    lemma_vdms(r, VdmSopType::SopStar, vdos, n);
    let (s, _) = insist_run(r, vdos, start);
    let (r1, _) = vdms_run(r, VdmSopType::SopStar, vdos);
    lemma_sleep(r1, RETRY_WAIT, n);
    if let (r2, Ok(())) = sleep_run(r1, RETRY_WAIT) {
        lemma_insist(r2, vdos, start, n);
        lemma_grows_take(r2, insist_run(r2, vdos, start).0, n);
    }
    lemma_grows_take(r1, s, n);
}

/// Both ends are put into serial mode.
pub proof fn lemma_serial(r: Run, n: int)
    requires
        r.left() >= 0,
    ensures
        through_bus(r, serial_run(r).0, 0),
        replays(r, serial_run(r), serial_run(cut(r, n)), n),
{
    let (s, _) = serial_run(r);
    lemma_messages_differ();
    lemma_insist(r, vdos_serial(), r.now(), n);
    if let (r1, Ok(())) = insist_run(r, vdos_serial(), r.now()) {
        lemma_expect_dbma(r1, n);
        if let (r2, Ok(())) = expect_dbma_run(r1) {
            lemma_dven(r2, vdos_serial().subrange(1, 2), n);
            lemma_grows_take(r2, s, n);
        }
        lemma_grows_take(r1, s, n);
    }
}

/// The target is put into DebugUSB mode.
pub proof fn lemma_debugusb(r: Run, n: int)
    requires
        r.left() >= 0,
    ensures
        through_bus(r, debugusb_run(r).0, 0),
        replays(r, debugusb_run(r), debugusb_run(cut(r, n)), n),
{
    lemma_messages_differ();
    lemma_insist(r, vdos_debugusb(), r.now(), n);
}

/// The controller is reset.
pub proof fn lemma_reset(r: Run, n: int)
    requires
        r.left() >= 0,
    ensures
        through_bus(r, reset_run(r).0, 0),
        replays(r, reset_run(r), reset_run(cut(r, n)), n),
{
    assert(tag_gaid()[0] != tag_vdms()[0]);
    lemma_ask_through(r, Request::WriteBlock { reg: TPS_REG_CMD1, data: tag_gaid() }, n);
}

/// The controller is brought into DBMa mode.
pub proof fn lemma_enter(r: Run, key: Seq<u8>, n: int)
    requires
        r.left() >= 0,
    ensures
        through_bus(r, enter_run(r, key).0, 0),
        unarmed(r, enter_run(r, key).0),
        replays(r, enter_run(r, key), enter_run(cut(r, n), key), n),
{
    let (s, _) = enter_run(r, key);
    lemma_get_mode(r, n);
    if let (r1, Ok(mode)) = get_mode_run(r) {
        lemma_lock(r1, key, n);
        if let (r2, Ok(())) = lock_run(r1, key) {
            lemma_dbma(r2, true, n);
            lemma_grows_take(r2, dbma_run(r2, true).0, n);
        }
        lemma_grows_take(r1, s, n);
    }
}

/// The bus is closed.
proof fn lemma_close(r: Run, n: int)
    requires
        r.left() >= 0,
    ensures
        to_closed_bus(r, do_run(r, Request::CloseBus), 0),
        unarmed(r, do_run(r, Request::CloseBus).0),
        replays(r, do_run(r, Request::CloseBus), do_run(cut(r, n), Request::CloseBus), n),
        waits(do_run(r, Request::CloseBus).1) || do_run(r, Request::CloseBus).1 is Ok,
{
    let q = Request::CloseBus;
    lemma_ask_cut(r, q, n);
    if r.has_answer(q) {
        lemma_extended(r, q);
        if in_order(r) {
            lemma_extended_in_order(r, q);
        }
    }
}

/// The use of a controller ends with a closed bus, and never fails.
pub proof fn lemma_drop(r: Run, skip_shutdown: bool, n: int)
    requires
        r.left() >= 0,
    ensures
        to_closed_bus(r, drop_run(r, skip_shutdown), 0),
        unarmed(r, drop_run(r, skip_shutdown).0),
        replays(r, drop_run(r, skip_shutdown), drop_run(cut(r, n), skip_shutdown), n),
        waits(drop_run(r, skip_shutdown).1) || drop_run(r, skip_shutdown).1 is Ok,
{
    reveal(drop_run);
    let (s, _) = drop_run(r, skip_shutdown);
    if skip_shutdown {
        lemma_close(r, n);
    } else {
        lemma_dbma(r, false, n);
        let (r1, off) = dbma_run(r, false);
        if !waits(off) {
            let zeros = seq![0u8, 0, 0, 0];
            lemma_lock(r1, zeros, n);
            let (r2, locked) = lock_run(r1, zeros);
            if !waits(locked) {
                lemma_close(r2, n);
                lemma_grows_take(r2, s, n);
            }
            lemma_grows_take(r1, s, n);
        }
    }
}

/// What has ended, or waits, ends with a closed bus, or waits.
pub proof fn lemma_leave(
    r: Run,
    part: (Run, Result<(), Stop>),
    short: (Run, Result<(), Stop>),
    skip_shutdown: bool,
    most: nat,
    n: int,
)
    requires
        r.left() >= 0,
        through_bus(r, part.0, most),
        replays(r, part, short, n),
    ensures
        to_closed_bus(r, leave_run(part, skip_shutdown), most),
        replays(r, leave_run(part, skip_shutdown), leave_run(short, skip_shutdown), n),
        waits(part.1) ==> leave_run(part, skip_shutdown) == part,
        !waits(part.1) ==> waits(leave_run(part, skip_shutdown).1) || leave_run(
            part,
            skip_shutdown,
        ).1 == part.1,
{
    lemma_drop(part.0, skip_shutdown, n);
    lemma_grows_take(part.0, leave_run(part, skip_shutdown).0, n);
}

/// Whether the way from `r`, with the bus open, is one through the bus where it succeeds and one to
/// a closed bus where it fails.
pub open spec fn through_or_closed(r: Run, end: (Run, Result<(), Stop>)) -> bool {
    &&& end.1 is Ok ==> through_bus(r, end.0, 0)
    &&& end.1 is Err ==> to_closed_bus(r, end, 0)
}

/// A controller is taken over, or the bus is closed.
pub proof fn lemma_new(r: Run, key: Seq<u8>, n: int)
    requires
        r.left() >= 0,
    ensures
        through_or_closed(r, new_run(r, key)),
        unarmed(r, new_run(r, key).0),
        replays(r, new_run(r, key), new_run(cut(r, n), key), n),
{
    reveal(new_run);
    lemma_enter(r, key, n);
    lemma_leave(r, enter_run(r, key), enter_run(cut(r, n), key), false, 0, n);
    lemma_drop(enter_run(r, key).0, false, n);
}

} // verus!
