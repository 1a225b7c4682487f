//! What holds of the tool as a whole.
use crate::cd321x::{
    key_of, le_u32, VdmSopType, BUSY_WAIT, CMD_IDLE_TIMEOUT, POLL_WAIT, RECONNECT_TIMEOUT,
    RETRY_WAIT, TPS_REG_CMD1, TPS_REG_DATA1, TPS_REG_VDM_RX_STATUS, VDM_CMD_TIMEOUT,
    VDM_REPLY_TIMEOUT,
};
use crate::error::Error;
use crate::host::{
    ask_run, do_run, elapsed, read_block_run, sleep_run, write_block_run, Answer, Reply,
    Request, Run, Stop,
};
use crate::protocol::{
    ack_header, await_connected_run, await_done_run, await_idle_run, await_reply_run,
    check_connected_run, dbma_run, debugusb_run, drop_run, enter_run, exec_cmd_with_timing_run,
    expect_dbma_run, fail, grows, insist_run, leave_run, lemma_vdms_grows, lock_run, new_run,
    tag_gaid, tag_vdms, vdm_data, vdms_run, write_input_run,
};
use crate::sysfs::{
    await_debugusb_run, debugusb_path, recover_missing_partner_run, reprobe_hpm_run,
    wait_for_debugusb_run, DEBUGUSB_POLL, DEBUGUSB_WAIT,
};
use crate::tool::{
    attempt_run, code_run, confirm_run, drive_run, execute_command_run, execute_debugusb_run,
    rearm_run, select_run, vdmtool_run, whole_run, Invocation,
};
use crate::trace::{
    armed_sessions, bus_open, cut, extended, idle_at, in_order, is_open, lemma_extended, opens,
    reboots, request_in_order, submits, touches_bus, waits, writes_input, writes_own_driver,
};
use crate::trace_arm::{lemma_serve_armed, lemma_unarmed};
use crate::trace_device::{
    lemma_await_idle, lemma_debugusb, lemma_drop, lemma_enter, lemma_expect_dbma, lemma_leave,
    lemma_new, lemma_read,
};
use crate::trace_tool::{
    hpm_id, lemma_attempt, lemma_await_debugusb, lemma_code, lemma_confirm, lemma_drive,
    lemma_execute_debugusb, lemma_recover, lemma_reprobe, lemma_select, lemma_vdmtool, most_of,
    sound, sound_whole,
};
use vstd::prelude::*;

verus! {

/// A run at its beginning.
pub open spec fn beginning(replies: Seq<Reply>) -> Run {
    Run { replies, asked: Seq::empty() }
}

proof fn lemma_whole(matches: Invocation, replies: Seq<Reply>, n: int)
    ensures
        sound_whole(
            beginning(replies),
            whole_run(matches, replies),
            vdmtool_run(cut(beginning(replies), n), matches),
            most_of(matches),
            n,
        ),
        in_order(beginning(replies)),
        !is_open(beginning(replies)),
        opens(beginning(replies).asked) == 0,
        reboots(beginning(replies).asked) == 0,
{
    lemma_vdmtool(beginning(replies), matches, n);
}

/// The tool can be run anew after every reply: over the first `n` replies it asks for just what the
/// run over all of them asked for after `n` replies, or ends in the same way.
pub proof fn law_replay(matches: Invocation, replies: Seq<Reply>, n: int)
    requires
        0 <= n <= replies.len(),
    ensures
        ({
            let (s, end) = whole_run(matches, replies);
            whole_run(matches, replies.take(n)) == if n < s.asked.len() {
                (
                    Run { replies: replies.take(n), asked: s.asked.take(n) },
                    Err::<(), Stop>(Stop::Ask(s.asked[n])),
                )
            } else {
                (Run { replies: replies.take(n), asked: s.asked }, end)
            }
        }),
{
    lemma_whole(matches, replies, n);
    reveal(sound_whole);
}

/// The tool goes on once it is answered: what it has asked for, and now has an answer to, is done.
pub proof fn law_answered(matches: Invocation, replies: Seq<Reply>, reply: Reply)
    requires
        whole_run(matches, replies).1 matches Err(Stop::Ask(q)) && reply.answer.answers(q),
        whole_run(matches, replies).0.asked.len() == replies.len(),
    ensures
        ({
            let (s, end) = whole_run(matches, replies);
            whole_run(matches, replies.push(reply)).0.asked == s.asked.push(end->Err_0->Ask_0)
        }),
{
    let all = replies.push(reply);
    let (s, end) = whole_run(matches, replies);
    let s1 = whole_run(matches, all).0;
    lemma_whole(matches, all, replies.len() as int);
    law_replay(matches, all, replies.len() as int);
    assert(all.take(replies.len() as int) =~= replies);
    reveal(sound_whole);
    assert(s1.asked =~= s.asked.push(end->Err_0->Ask_0));
}

/// The `i`th request of a run was answered by the `i`th reply.
pub proof fn law_every_request_answered(matches: Invocation, replies: Seq<Reply>, i: int)
    requires
        0 <= i < whole_run(matches, replies).0.asked.len(),
    ensures
        i < replies.len(),
        replies[i].answer.answers(whole_run(matches, replies).0.asked[i]),
{
    lemma_whole(matches, replies, 0);
    reveal(sound_whole);
    assert(request_in_order(whole_run(matches, replies).0, i));
}

/// No command is submitted while another is running: right before a command, or before what it
/// works on, the controller was found idle. The command that resets the controller is another
/// matter.
pub proof fn law_no_command_disturbed(matches: Invocation, replies: Seq<Reply>, i: int)
    requires
        0 <= i < whole_run(matches, replies).0.asked.len(),
    ensures
        ({
            let s = whole_run(matches, replies).0;
            &&& writes_input(s.asked[i]) ==> idle_at(s, i - 1)
            &&& submits(s.asked[i]) ==> idle_at(s, i - 1) || i > 0 && writes_input(s.asked[i - 1])
                && idle_at(s, i - 2)
        }),
{
    lemma_whole(matches, replies, 0);
    reveal(sound_whole);
    assert(request_in_order(whole_run(matches, replies).0, i));
}

/// Registers are read and written through an open bus only.
pub proof fn law_bus_open_when_used(matches: Invocation, replies: Seq<Reply>, i: int)
    requires
        0 <= i < whole_run(matches, replies).0.asked.len(),
        touches_bus(whole_run(matches, replies).0.asked[i]),
    ensures
        bus_open(replies, whole_run(matches, replies).0.asked.take(i)),
{
    lemma_whole(matches, replies, 0);
    reveal(sound_whole);
    assert(request_in_order(whole_run(matches, replies).0, i));
}

/// However the tool ends, the bus is closed.
pub proof fn law_bus_closed_in_the_end(matches: Invocation, replies: Seq<Reply>)
    requires
        !waits(whole_run(matches, replies).1),
    ensures
        !is_open(whole_run(matches, replies).0),
{
    lemma_whole(matches, replies, 0);
    reveal(sound_whole);
}

/// On the way into DebugUSB mode the target is told to reboot once at the most, however often
/// something is tried again. Without a reboot in the command it is not told to at all.
pub proof fn law_rebooted_once(matches: Invocation, replies: Seq<Reply>)
    requires
        matches.is_debugusb(),
    ensures
        reboots(whole_run(matches, replies).0.asked) <= 1,
        !matches.is_reboot_debugusb() ==> reboots(whole_run(matches, replies).0.asked) == 0,
{
    lemma_whole(matches, replies, 0);
    reveal(sound_whole);
    reveal_strlit("debugusb");
    reveal_strlit("reboot");
    assert("debugusb"@.len() == 8 && "reboot"@.len() == 6);
}

/// The message that puts the target into DebugUSB mode is sent in two sessions at the most, each
/// from one opening of the bus to the next: DebugUSB mode is retried once. Without a reboot before
/// it, the bus is opened twice at the most.
pub proof fn law_armed_twice(matches: Invocation, replies: Seq<Reply>)
    requires
        matches.is_debugusb(),
    ensures
        armed_sessions(whole_run(matches, replies).0.asked) <= 2,
        !matches.is_reboot_debugusb() ==> opens(whole_run(matches, replies).0.asked) <= 2,
{
    let r = beginning(replies);
    let s = whole_run(matches, replies).0;
    lemma_code(r, 0);
    let (r1, code) = code_run(r);
    lemma_unarmed(r, r1);
    if code is Ok {
        lemma_select(r1, matches, 0);
        let (r2, chosen) = select_run(r1, matches);
        lemma_unarmed(r1, r2);
        if let Ok((bus, addr)) = chosen {
            lemma_recover(r2, bus, addr, 0);
            let (r3, recovered) = recover_missing_partner_run(r2, bus, addr);
            lemma_unarmed(r2, r3);
            reveal_strlit("reset-controller");
            reveal_strlit("nop");
            reveal_strlit("reboot");
            reveal_strlit("debugusb");
            reveal_strlit("reboot debugusb");
            assert("reset-controller"@.len() == 16 && "nop"@.len() == 3 && "reboot"@.len() == 6);
            assert("debugusb"@.len() == 8 && "reboot debugusb"@.len() == 15);
            if recovered is Ok {
                lemma_serve_armed(r3, matches, bus, addr, code->Ok_0);
            }
        }
    }
}

/// The bus is opened for a command twice at the most, and once for a reset or to do nothing. Only
/// where the target is to be rebooted into DebugUSB mode can it be opened three times: a session in
/// which the reboot got no reply comes before the two.
pub proof fn law_tries(matches: Invocation, replies: Seq<Reply>)
    ensures
        opens(whole_run(matches, replies).0.asked) <= 3,
        !matches.is_reboot_debugusb() ==> opens(whole_run(matches, replies).0.asked) <= 2,
        !matches.is_debugusb() && (matches.is_reset() || matches.is_nop()) ==> opens(
            whole_run(matches, replies).0.asked,
        ) <= 1,
{
    lemma_whole(matches, replies, 0);
    reveal(sound_whole);
    if matches.is_debugusb() {
        law_armed_twice(matches, replies);
    }
}

/// Only the controller that was chosen is worked on: no other bus or address is opened, and no
/// other device loses or gets its driver.
pub proof fn law_only_chosen_controller(matches: Invocation, replies: Seq<Reply>, i: int)
    requires
        0 <= i < whole_run(matches, replies).0.asked.len(),
    ensures
        ({
            let chosen = select_run(code_run(beginning(replies)).0, matches).1;
            let q = whole_run(matches, replies).0.asked[i];
            &&& q matches Request::OpenBus { bus, addr } ==> chosen == Ok::<
                (Seq<char>, u16),
                Stop,
            >((bus, addr))
            &&& q matches Request::WriteDriver { file, id } ==> {
                chosen matches Ok((bus, addr)) && id == hpm_id(bus, addr)
            }
        }),
{
    let r = beginning(replies);
    let (s, _) = whole_run(matches, replies);
    lemma_code(r, 0);
    if let (r1, Ok(code)) = code_run(r) {
        lemma_select(r1, matches, 0);
        if let (r2, Ok(dev)) = select_run(r1, matches) {
            lemma_drive(r2, matches, dev.0, dev.1, code, 0);
            reveal(sound);
        }
    }
}

/// Only the driver of the controller is written to: what loses or gets its driver does so by a
/// write to the file `unbind` or `bind` of the driver that was found for it right before, and that
/// is the driver of the controller by its name.
pub proof fn law_only_its_driver(matches: Invocation, replies: Seq<Reply>, i: int)
    requires
        0 <= i < whole_run(matches, replies).0.asked.len(),
    ensures
        writes_own_driver(whole_run(matches, replies).0, i),
{
    lemma_whole(matches, replies, 0);
    reveal(sound_whole);
    assert(request_in_order(whole_run(matches, replies).0, i));
}

/// A reset, and doing nothing, leave sysfs alone: once the controller is found, all that is asked
/// for is about that controller.
pub proof fn law_reset_leaves_sysfs_alone(matches: Invocation, replies: Seq<Reply>, i: int)
    requires
        matches.is_reset() || matches.is_nop(),
        0 <= i < whole_run(matches, replies).0.asked.len(),
    ensures
        ({
            let q = whole_run(matches, replies).0.asked[i];
            q !is Exists && q !is ListPorts && q !is ResolveDriver && q !is WriteDriver
                && q !is ScanUsb
        }),
{
    let r = beginning(replies);
    reveal_strlit("reset-controller");
    reveal_strlit("nop");
    reveal_strlit("debugusb");
    reveal_strlit("reboot debugusb");
    reveal_strlit("reboot");
    assert("reset-controller"@.len() == 16 && "nop"@.len() == 3);
    assert("debugusb"@.len() == 8 && "reboot debugusb"@.len() == 15 && "reboot"@.len() == 6);
    lemma_code(r, 0);
    if let (r1, Ok(code)) = code_run(r) {
        lemma_select(r1, matches, 0);
        if let (r2, Ok(dev)) = select_run(r1, matches) {
            lemma_drive(r2, matches, dev.0, dev.1, code, 0);
            reveal(sound);
        }
    }
}

/// Whether the last thing that a run did was to find the DebugUSB function.
pub open spec fn found_debugusb(s: Run) -> bool {
    &&& s.asked.len() > 0
    &&& s.asked.last() is ScanUsb
    &&& s.replies[s.asked.len() - 1].answer matches Answer::UsbDevices(entries) && debugusb_path(
        entries@,
    ) is Some
}

proof fn lemma_await_debugusb_found(r: Run, start: u64)
    requires
        r.left() >= 0,
        await_debugusb_run(r, start).1 matches Ok(Some(_)),
    ensures
        found_debugusb(await_debugusb_run(r, start).0),
    decreases r.left(),
{
    if let (r1, Ok(a)) = ask_run(r, Request::ScanUsb) {
        if debugusb_path(a->UsbDevices_0@) is None {
            if let (r2, Ok(())) = sleep_run(r1, DEBUGUSB_POLL) {
                lemma_await_debugusb_found(r2, start);
            }
        }
    }
}

/// An acknowledged message alone is no success of DebugUSB mode: the tool succeeds only when the
/// DebugUSB function itself has just been seen.
pub proof fn law_debugusb_seen(matches: Invocation, replies: Seq<Reply>)
    requires
        matches.is_debugusb(),
        whole_run(matches, replies).1 is Ok,
    ensures
        found_debugusb(whole_run(matches, replies).0),
{
    let r = beginning(replies);
    let (s, _) = whole_run(matches, replies);
    lemma_code(r, 0);
    if let (r1, Ok(code)) = code_run(r) {
        lemma_select(r1, matches, 0);
        if let (r2, Ok((bus, addr))) = select_run(r1, matches) {
            lemma_recover(r2, bus, addr, 0);
            let r3 = if matches.is_reset() || matches.is_nop() {
                r2
            } else {
                recover_missing_partner_run(r2, bus, addr).0
            };
            lemma_attempt(r3, matches, bus, addr, code, 0);
            reveal(sound);
            let (r4, retried) = attempt_run(r3, matches, bus, addr, code);
            lemma_confirmed(r4, bus, addr, code, retried->Ok_0);
        }
    }
}

proof fn lemma_confirmed(r: Run, bus: Seq<char>, addr: u16, code: Seq<char>, retried: bool)
    requires
        r.left() >= 0,
        confirm_run(r, bus, addr, code, retried).1 is Ok,
    ensures
        found_debugusb(confirm_run(r, bus, addr, code, retried).0),
{
    if let (r1, Ok(found)) = wait_for_debugusb_run(r) {
        if found is Some {
            lemma_await_debugusb_found(r, r.now());
        } else {
            lemma_await_debugusb(r, r.now(), Seq::empty(), 0);
            lemma_reprobe(r1, bus, addr, 0);
            let r2 = reprobe_hpm_run(r1, bus, addr).0;
            lemma_execute_debugusb(r2, bus, addr, code, 0);
            reveal(sound);
            let r3 = execute_debugusb_run(r2, bus, addr, code).0;
            lemma_await_debugusb_found(r3, r3.now());
        }
    }
}

proof fn lemma_opens_grow(r: Run, s: Run)
    requires
        grows(r, s),
    ensures
        opens(r.asked) <= opens(s.asked),
    decreases s.asked.len(),
{
    if s.asked.len() > r.asked.len() {
        lemma_opens_grow(r, Run { asked: s.asked.drop_last(), ..s });
    } else {
        assert(s.asked =~= r.asked);
    }
}

proof fn lemma_execute_debugusb_opens(r: Run, bus: Seq<char>, addr: u16, code: Seq<char>)
    requires
        r.left() >= 0,
        execute_debugusb_run(r, bus, addr, code).1 is Ok,
    ensures
        opens(execute_debugusb_run(r, bus, addr, code).0.asked) == opens(r.asked) + 1,
{
    let s = execute_debugusb_run(r, bus, addr, code).0;
    let q = Request::OpenBus { bus, addr };
    assert(r.left() > 0 && grows(extended(r, q), s)) by {
        reveal(execute_debugusb_run);
        let r1 = do_run(r, q).0;
        lemma_new(r1, key_of(code), 0);
        let r2 = new_run(r1, key_of(code)).0;
        lemma_debugusb(r2, 0);
        lemma_leave(r2, debugusb_run(r2), debugusb_run(cut(r2, 0)), false, 0, 0);
    }
    lemma_execute_debugusb(r, bus, addr, code, 0);
    reveal(sound);
    lemma_extended(r, q);
    lemma_opens_grow(extended(r, q), s);
}

/// Where the DebugUSB function does not come after an acknowledged message, the bus is opened for
/// DebugUSB mode once more and not again, and the target is not told to reboot. Where it comes, or
/// DebugUSB mode has been `retried` before, nothing more is asked for; in the latter case the
/// tool gives up.
pub proof fn law_rearmed_once(
    r: Run,
    bus: Seq<char>,
    addr: u16,
    code: Seq<char>,
    retried: bool,
)
    requires
        r.left() >= 0,
    ensures
        ({
            let (r1, found) = wait_for_debugusb_run(r);
            let (s, end) = confirm_run(r, bus, addr, code, retried);
            let absent = found == Ok::<Option<Seq<char>>, Stop>(None);
            &&& opens(s.asked) <= opens(r.asked) + 1
            &&& reboots(s.asked) <= reboots(r.asked)
            &&& found matches Ok(Some(_)) ==> s == r1 && end is Ok
            &&& absent && retried ==> s == r1 && end == fail::<()>(
                Error::DebugUsbEnumerationTimeout,
            )
            &&& absent && !retried && rearm_run(r1, bus, addr, code).1 is Ok ==> opens(s.asked)
                == opens(r.asked) + 1
        }),
{
    lemma_confirm(r, bus, addr, code, retried, 0);
    reveal(sound);
    if let (r1, Ok(None)) = wait_for_debugusb_run(r) {
        lemma_await_debugusb(r, r.now(), Seq::empty(), 0);
        lemma_reprobe(r1, bus, addr, 0);
        if !retried && rearm_run(r1, bus, addr, code).1 is Ok {
            let r2 = reprobe_hpm_run(r1, bus, addr).0;
            let r3 = execute_debugusb_run(r2, bus, addr, code).0;
            lemma_execute_debugusb(r2, bus, addr, code, 0);
            lemma_execute_debugusb_opens(r2, bus, addr, code);
            lemma_await_debugusb(r3, r3.now(), Seq::empty(), 0);
        }
    }
}

/// Whether the `c`th request submitted the command `tag`, working on `data`, to a controller that
/// was found idle right before.
pub open spec fn submitted_at(s: Run, c: int, tag: Seq<u8>, data: Seq<u8>) -> bool {
    &&& 0 <= c < s.asked.len()
    &&& s.asked[c] == (Request::WriteBlock { reg: TPS_REG_CMD1, data: tag })
    &&& if data.len() == 0 {
        idle_at(s, c - 1)
    } else {
        &&& c > 0
        &&& s.asked[c - 1] == (Request::WriteBlock { reg: TPS_REG_DATA1, data })
        &&& idle_at(s, c - 2)
    }
}

proof fn lemma_await_done_idle(r: Run, start: u64, timeout: u64)
    requires
        r.left() >= 0,
        await_done_run(r, start, timeout).1 is Ok,
    ensures
        ({
            let s = await_done_run(r, start, timeout).0;
            &&& grows(r, s)
            &&& s.asked.len() > r.asked.len()
            &&& idle_at(s, s.asked.len() - 1)
        }),
    decreases r.left(),
{
    if let (r1, Ok(status)) = read_block_run(r, TPS_REG_CMD1, 4) {
        if le_u32(status) != 0 {
            lemma_await_done_idle(r1, start, timeout);
        }
    }
}

/// A command that succeeds was submitted, as it was given, to an idle controller, and the
/// controller was idle again before it was over.
pub proof fn law_command_done(r: Run, tag: Seq<u8>, data: Seq<u8>, timeout: u64, delay: u64)
    requires
        r.left() >= 0,
        exec_cmd_with_timing_run(r, tag, data, timeout, delay).1 is Ok,
    ensures
        ({
            let s = exec_cmd_with_timing_run(r, tag, data, timeout, delay).0;
            &&& grows(r, s)
            &&& s.asked.last() == (Request::Sleep { nanos: delay })
            &&& idle_at(s, s.asked.len() - 2)
            &&& exists|c: int|
                r.asked.len() < c < s.asked.len() - 2 && #[trigger] submitted_at(s, c, tag, data)
        }),
{
    reveal(exec_cmd_with_timing_run);
    let (s, _) = exec_cmd_with_timing_run(r, tag, data, timeout, delay);
    lemma_await_idle(r, r.now(), 0);
    let r1 = await_idle_run(r, r.now()).0;
    let r2 = write_input_run(r1, data).0;
    let r3 = write_block_run(r2, TPS_REG_CMD1, tag).0;
    lemma_await_done_idle(r3, r3.now(), timeout);
    assert(submitted_at(s, r2.asked.len() as int, tag, data));
}

proof fn lemma_await_reply_new(r: Run, before: u8, start: u64)
    requires
        r.left() >= 0,
        await_reply_run(r, before, start).1 is Ok,
    ensures
        ({
            let (s, reply) = await_reply_run(r, before, start);
            &&& grows(r, s)
            &&& s.asked.len() > r.asked.len()
            &&& received_at(s, s.asked.len() - 1, reply->Ok_0)
            &&& reply->Ok_0[0] != before
        }),
    decreases r.left(),
{
    if let (r1, Ok(reply)) = read_block_run(r, TPS_REG_VDM_RX_STATUS, 64) {
        if reply[0] == before {
            if let (r2, Ok(())) = sleep_run(r1, BUSY_WAIT) {
                lemma_await_reply_new(r2, before, start);
            }
        }
    }
}

/// Whether the `i`th request read `data` from the receive status.
pub open spec fn received_at(s: Run, i: int, data: Seq<u8>) -> bool {
    &&& 0 <= i < s.asked.len()
    &&& s.asked[i] == (Request::ReadBlock { reg: TPS_REG_VDM_RX_STATUS, len: 64 })
    &&& s.replies[i].answer matches Answer::Block { reg: _, data: block } && block@ == data
}

/// A message that succeeds was acknowledged: it was submitted once the receive status had been
/// noted, and what was read in the end is a new reply whose first word acknowledges the message.
/// That the controller took the message is not enough.
pub proof fn law_vdm_acknowledged(r: Run, sop: VdmSopType, vdos: Seq<u32>)
    requires
        r.left() >= 0,
        vdms_run(r, sop, vdos).1 is Ok,
    ensures
        1 <= vdos.len() <= 7,
        ({
            let s = vdms_run(r, sop, vdos).0;
            exists|before: Seq<u8>, reply: Seq<u8>, b: int, c: int|
                {
                    &&& r.asked.len() <= b < c < s.asked.len() - 1
                    &&& #[trigger] received_at(s, b, before)
                    &&& #[trigger] submitted_at(s, c, tag_vdms(), vdm_data(sop, vdos))
                    &&& #[trigger] received_at(s, s.asked.len() - 1, reply)
                    &&& reply[0] != before[0]
                    &&& le_u32(reply.subrange(1, 5)) == ack_header(vdos)
                }
        }),
{
    reveal(vdms_run);
    let (s, _) = vdms_run(r, sop, vdos);
    let data = vdm_data(sop, vdos);
    lemma_expect_dbma(r, 0);
    let r1 = expect_dbma_run(r).0;
    lemma_read(r1, TPS_REG_VDM_RX_STATUS, 64, 0);
    let (r2, read) = read_block_run(r1, TPS_REG_VDM_RX_STATUS, 64);
    let before = read->Ok_0;
    law_command_done(r2, tag_vdms(), data, VDM_CMD_TIMEOUT, 0);
    let r3 = exec_cmd_with_timing_run(r2, tag_vdms(), data, VDM_CMD_TIMEOUT, 0).0;
    let c = choose|c: int|
        r2.asked.len() < c < r3.asked.len() - 2 && #[trigger] submitted_at(r3, c, tag_vdms(), data);
    lemma_await_reply_new(r3, before[0], r3.now());
    let reply = await_reply_run(r3, before[0], r3.now()).1->Ok_0;
    assert(received_at(s, r1.asked.len() as int, before));
    assert(submitted_at(s, c, tag_vdms(), data));
    assert(received_at(s, s.asked.len() - 1, reply));
}

/// A message of no words, or of more than seven, is refused, and nothing is asked for.
pub proof fn law_vdm_length(r: Run, sop: VdmSopType, vdos: Seq<u32>)
    requires
        vdos.len() == 0 || vdos.len() > 7,
    ensures
        vdms_run(r, sop, vdos) == (r, fail::<()>(Error::InvalidArgument)),
{
    reveal(vdms_run);
}

/// A controller that is too busy for a message is given up on only after the time to reconnect.
pub proof fn law_busy_is_retried(r: Run, vdos: Seq<u32>, start: u64)
    requires
        r.left() >= 0,
        insist_run(r, vdos, start).1 == fail::<()>(Error::ControllerTimeout),
    ensures
        elapsed(start, insist_run(r, vdos, start).0.now()) >= RECONNECT_TIMEOUT,
    decreases r.left(),
{
    lemma_vdms_grows(r, VdmSopType::SopStar, vdos);
    let (r1, _) = vdms_run(r, VdmSopType::SopStar, vdos);
    if elapsed(start, r1.now()) < RECONNECT_TIMEOUT {
        if let (r2, Ok(())) = sleep_run(r1, RETRY_WAIT) {
            law_busy_is_retried(r2, vdos, start);
        }
    }
}

/// The end of a controller's use never fails, and the result that the use had stands.
pub proof fn law_result_stands(part: (Run, Result<(), Stop>), skip_shutdown: bool)
    requires
        part.0.left() >= 0,
        !waits(part.1),
    ensures
        waits(leave_run(part, skip_shutdown).1) || leave_run(part, skip_shutdown).1 == part.1,
        leave_run(part, skip_shutdown).0 == drop_run(part.0, skip_shutdown).0,
{
    lemma_drop(part.0, skip_shutdown, 0);
}

/// A controller is left with DBMa mode off and locked, as far as it lets itself: neither failure
/// keeps the rest from being tried. Then the bus is closed.
pub proof fn law_teardown(r: Run)
    requires
        r.left() >= 0,
        !waits(drop_run(r, false).1),
    ensures
        ({
            let off = dbma_run(r, false);
            let locked = lock_run(off.0, seq![0u8, 0, 0, 0]);
            let s = drop_run(r, false).0;
            &&& !waits(off.1)
            &&& !waits(locked.1)
            &&& s.asked == locked.0.asked.push(Request::CloseBus)
            &&& drop_run(r, false).1 is Ok
        }),
{
    reveal(drop_run);
}

/// A controller that cannot be taken over is left as after any other use.
pub proof fn law_failed_takeover(r: Run, key: Seq<u8>)
    requires
        r.left() >= 0,
        enter_run(r, key).1 is Err,
        !waits(enter_run(r, key).1),
    ensures
        new_run(r, key).0 == drop_run(enter_run(r, key).0, false).0,
        waits(new_run(r, key).1) || new_run(r, key).1 == enter_run(r, key).1,
{
    reveal(new_run);
    lemma_enter(r, key, 0);
    lemma_drop(enter_run(r, key).0, false, 0);
}

/// A reset that succeeds is one write, in a bus that is opened for it and closed after it: nothing
/// is read, nothing is waited for, and the controller is not touched again.
pub proof fn law_reset_is_one_write(
    r: Run,
    matches: Invocation,
    bus: Seq<char>,
    addr: u16,
    code: Seq<char>,
)
    requires
        matches.is_reset(),
        drive_run(r, matches, bus, addr, code).1 is Ok,
    ensures
        drive_run(r, matches, bus, addr, code).0.asked == r.asked + seq![
            Request::OpenBus { bus, addr },
            Request::WriteBlock { reg: TPS_REG_CMD1, data: tag_gaid() },
            Request::CloseBus,
        ],
{
    reveal_strlit("reset-controller");
    reveal_strlit("nop");
    reveal_strlit("dfu");
    reveal_strlit("serial");
    reveal_strlit("disconnect");
    reveal_strlit("debugusb");
    reveal_strlit("reboot debugusb");
    reveal_strlit("reboot");
    assert("reset-controller"@.len() == 16 && "dfu"@.len() == 3 && "serial"@.len() == 6);
    assert("debugusb"@.len() == 8 && "reboot debugusb"@.len() == 15 && "reboot"@.len() == 6);
    assert("disconnect"@.len() == 10);
    reveal(execute_command_run);
    reveal(drop_run);
    let opening = Request::OpenBus { bus, addr };
    let writing = Request::WriteBlock { reg: TPS_REG_CMD1, data: tag_gaid() };
    let s = drive_run(r, matches, bus, addr, code).0;
    assert(s.asked =~= r.asked.push(opening).push(writing).push(Request::CloseBus));
}

/// A controller that is still at another command is given up on only after the time that it may
/// be busy.
pub proof fn law_idle_timeout(r: Run, start: u64)
    requires
        await_idle_run(r, start).1 == fail::<()>(Error::ControllerTimeout),
    ensures
        elapsed(start, await_idle_run(r, start).0.now()) > CMD_IDLE_TIMEOUT,
    decreases r.left(),
{
    if let (r1, Ok(status)) = read_block_run(r, TPS_REG_CMD1, 4) {
        if let (r2, Ok(())) = sleep_run(r1, BUSY_WAIT) {
            if elapsed(start, r1.now()) <= CMD_IDLE_TIMEOUT {
                law_idle_timeout(r2, start);
            }
        }
    }
}

/// A command counts as not done only after the time that it may take.
pub proof fn law_done_timeout(r: Run, start: u64, timeout: u64)
    requires
        await_done_run(r, start, timeout).1 == fail::<()>(Error::ControllerTimeout),
    ensures
        elapsed(start, await_done_run(r, start, timeout).0.now()) > timeout,
    decreases r.left(),
{
    if let (r1, Ok(status)) = read_block_run(r, TPS_REG_CMD1, 4) {
        if elapsed(start, r1.now()) <= timeout {
            law_done_timeout(r1, start, timeout);
        }
    }
}

/// A message counts as not replied to only after the time that a reply may take.
pub proof fn law_reply_timeout(r: Run, before: u8, start: u64)
    requires
        await_reply_run(r, before, start).1 == fail::<Seq<u8>>(Error::VdmReplyTimeout),
    ensures
        elapsed(start, await_reply_run(r, before, start).0.now()) > VDM_REPLY_TIMEOUT,
    decreases r.left(),
{
    if let (r1, Ok(reply)) = read_block_run(r, TPS_REG_VDM_RX_STATUS, 64) {
        if let (r2, Ok(())) = sleep_run(r1, BUSY_WAIT) {
            if reply[0] == before && elapsed(start, r1.now()) <= VDM_REPLY_TIMEOUT {
                law_reply_timeout(r2, before, start);
            }
        }
    }
}

/// A target counts as not connected again only after the time that it may take.
pub proof fn law_reconnect_timeout(r: Run, start: u64)
    requires
        r.left() >= 0,
        await_connected_run(r, start).1 == fail::<()>(Error::ReconnectTimeout),
    ensures
        elapsed(start, await_connected_run(r, start).0.now()) > RECONNECT_TIMEOUT,
    decreases r.left(),
{
    let (r1, looked) = check_connected_run(r);
    if !waits(looked) && looked != Ok::<bool, Stop>(true) {
        if let (r2, Ok(())) = sleep_run(r1, POLL_WAIT) {
            if elapsed(start, r2.now()) <= RECONNECT_TIMEOUT {
                law_reconnect_timeout(r2, start);
            }
        }
    }
}

/// The DebugUSB function counts as absent only after the time that it may take.
pub proof fn law_enumeration_timeout(r: Run, start: u64)
    requires
        r.left() >= 0,
        await_debugusb_run(r, start).1 == Ok::<Option<Seq<char>>, Stop>(None),
    ensures
        elapsed(start, await_debugusb_run(r, start).0.now()) >= DEBUGUSB_WAIT,
    decreases r.left(),
{
    if elapsed(start, r.now()) < DEBUGUSB_WAIT {
        if let (r1, Ok(a)) = ask_run(r, Request::ScanUsb) {
            if let (r2, Ok(())) = sleep_run(r1, DEBUGUSB_POLL) {
                law_enumeration_timeout(r2, start);
            }
        }
    }
}

} // verus!
