//! What the success of a command means: the target has acknowledged it, and both ends have done
//! their part.
use crate::cd321x::{
    all_le_bytes, key_of, le_u32, VdmSopType, CMD_TIMEOUT, POLL_WAIT, RECONNECT_WAIT,
    RETRY_WAIT, TPS_REG_POWER_STATUS,
};
use crate::error::Error;
use crate::host::{do_run, sleep_run, Answer, Reply, Request, Run, Stop};
use crate::laws::{beginning, law_command_done, law_vdm_acknowledged, received_at, submitted_at};
use crate::protocol::{
    ack_header, await_connected_run, check_connected_run, debugusb_run, expect_dbma_run, fail,
    grows, insist_run, lemma_vdms_grows, new_run, reboot_run, reboot_wait_run, serial_run,
    tag_dven, tag_vdms, vdm_data, vdms_run, vdos_debugusb, vdos_dfu, vdos_reboot, vdos_serial,
};
use crate::sysfs::{recover_missing_partner_run, reprobe_hpm_run};
use crate::tool::{
    attempt_run, code_run, command_run, execute_command_run, execute_debugusb_run, is_word,
    select_run, whole_run, Invocation,
};
use crate::trace_device::{
    lemma_await_connected, lemma_debugusb, lemma_drop, lemma_dven, lemma_expect_dbma, lemma_new,
};
use crate::trace_tool::{
    lemma_attempt, lemma_code, lemma_command, lemma_confirm, lemma_execute_command,
    lemma_recover, lemma_reprobe, lemma_select, sound,
};
use vstd::prelude::*;

verus! {

/// Whether the requests `b`, `c` and `e` are those of an acknowledged message: the receive status
/// was noted, the message submitted, and a new reply read whose first word acknowledges it.
pub open spec fn acknowledged_at(
    s: Run,
    vdos: Seq<u32>,
    b: int,
    c: int,
    e: int,
    before: Seq<u8>,
    reply: Seq<u8>,
) -> bool {
    &&& b < c < e
    &&& received_at(s, b, before)
    &&& submitted_at(s, c, tag_vdms(), vdm_data(VdmSopType::SopStar, vdos))
    &&& received_at(s, e, reply)
    &&& reply[0] != before[0]
    &&& le_u32(reply.subrange(1, 5)) == ack_header(vdos)
}

/// Whether the target has acknowledged the message `vdos` between the requests `from` and `to`.
pub open spec fn acknowledged_within(s: Run, vdos: Seq<u32>, from: int, to: int) -> bool {
    exists|b: int, c: int, e: int, before: Seq<u8>, reply: Seq<u8>|
        from <= b && e < to && #[trigger] acknowledged_at(s, vdos, b, c, e, before, reply)
}

/// Whether the target has acknowledged the message `vdos` in the course of a run.
pub open spec fn acknowledged(s: Run, vdos: Seq<u32>) -> bool {
    acknowledged_within(s, vdos, 0, s.asked.len() as int)
}

/// Whether the `p`th request found that something is connected.
pub open spec fn connected_at(s: Run, p: int) -> bool {
    &&& 0 <= p < s.asked.len()
    &&& s.asked[p] == (Request::ReadBlock { reg: TPS_REG_POWER_STATUS, len: 2 })
    &&& s.replies[p].answer matches Answer::Block { reg: _, data } && data@[0] % 2 == 1
}

/// Whether the `d`th request submitted the command that puts the local end into serial mode.
pub open spec fn local_serial_at(s: Run, d: int) -> bool {
    submitted_at(s, d, tag_dven(), all_le_bytes(vdos_serial().subrange(1, 2)))
}

/// Whether both ends were put into serial mode after the request `from`: the target has
/// acknowledged its message, and then the command for the local end was submitted.
pub open spec fn both_ends_serial(s: Run, from: int) -> bool {
    exists|d: int|
        #[trigger] local_serial_at(s, d) && acknowledged_within(s, vdos_serial(), from, d)
}

/// Whether the target was rebooted and then put into serial mode: it has acknowledged the reboot,
/// was found connected, and then both ends were put into serial mode.
pub open spec fn rebooted_into_serial(s: Run) -> bool {
    exists|p: int|
        #[trigger] connected_at(s, p) && acknowledged_within(s, vdos_reboot(), 0, p)
            && both_ends_serial(s, p + 1)
}

/// The message by which a command ends, if it sends one.
pub open spec fn final_message(matches: Invocation) -> Option<Seq<u32>> {
    if is_word(matches.subcommand, "dfu"@) {
        Some(vdos_dfu())
    } else if is_word(matches.subcommand, "reboot"@) {
        if is_word(matches.nested, "serial"@) {
            Some(vdos_serial())
        } else if is_word(matches.nested, "debugusb"@) {
            Some(vdos_debugusb())
        } else if matches.nested is None {
            Some(vdos_reboot())
        } else {
            None
        }
    } else if is_word(matches.subcommand, "serial"@) {
        Some(vdos_serial())
    } else if is_word(matches.subcommand, "debugusb"@) {
        Some(vdos_debugusb())
    } else {
        None
    }
}

/// Whether a command reboots the target into serial mode.
pub open spec fn reboots_into_serial(matches: Invocation) -> bool {
    is_word(matches.subcommand, "reboot"@) && is_word(matches.nested, "serial"@)
}

/// Whether a command has done what it is for: its last message was acknowledged; for serial mode
/// both ends were put into it; and for serial mode after a reboot the target was connected again in
/// between.
pub open spec fn command_fulfilled(s: Run, matches: Invocation) -> bool {
    &&& final_message(matches) matches Some(vdos) ==> acknowledged(s, vdos)
    &&& is_word(matches.subcommand, "serial"@) ==> both_ends_serial(s, 0)
    &&& reboots_into_serial(matches) ==> rebooted_into_serial(s)
}

/// What has been acknowledged stays so.
proof fn lemma_stays(r: Run, s: Run, vdos: Seq<u32>, from: int, to: int)
    requires
        grows(r, s),
        acknowledged_within(r, vdos, from, to),
    ensures
        acknowledged_within(s, vdos, from, to),
{
    let (b, c, e, before, reply) = choose|b: int, c: int, e: int, before: Seq<u8>, reply: Seq<u8>|
        from <= b && e < to && #[trigger] acknowledged_at(r, vdos, b, c, e, before, reply);
    assert(acknowledged_at(s, vdos, b, c, e, before, reply));
}

/// What has been acknowledged within some requests has been within more.
proof fn lemma_wider(s: Run, vdos: Seq<u32>, from: int, to: int, from2: int, to2: int)
    requires
        acknowledged_within(s, vdos, from, to),
        from2 <= from,
        to <= to2,
    ensures
        acknowledged_within(s, vdos, from2, to2),
{
    let (b, c, e, before, reply) = choose|b: int, c: int, e: int, before: Seq<u8>, reply: Seq<u8>|
        from <= b && e < to && #[trigger] acknowledged_at(s, vdos, b, c, e, before, reply);
    assert(acknowledged_at(s, vdos, b, c, e, before, reply));
}

proof fn lemma_both_ends_stay(r: Run, s: Run, from: int, from2: int)
    requires
        grows(r, s),
        both_ends_serial(r, from),
        from2 <= from,
    ensures
        both_ends_serial(s, from2),
{
    let d = choose|d: int|
        #[trigger] local_serial_at(r, d) && acknowledged_within(r, vdos_serial(), from, d);
    lemma_stays(r, s, vdos_serial(), from, d);
    lemma_wider(s, vdos_serial(), from, d, from2, d);
    assert(local_serial_at(s, d));
}

proof fn lemma_fulfilled_stays(r: Run, s: Run, matches: Invocation)
    requires
        grows(r, s),
        command_fulfilled(r, matches),
    ensures
        command_fulfilled(s, matches),
{
    let (n, m) = (r.asked.len() as int, s.asked.len() as int);
    if let Some(vdos) = final_message(matches) {
        lemma_stays(r, s, vdos, 0, n);
        lemma_wider(s, vdos, 0, n, 0, m);
    }
    if is_word(matches.subcommand, "serial"@) {
        lemma_both_ends_stay(r, s, 0, 0);
    }
    if reboots_into_serial(matches) {
        let p = choose|p: int|
            #[trigger] connected_at(r, p) && acknowledged_within(r, vdos_reboot(), 0, p)
                && both_ends_serial(r, p + 1);
        lemma_stays(r, s, vdos_reboot(), 0, p);
        lemma_both_ends_stay(r, s, p + 1, p + 1);
        assert(connected_at(s, p));
    }
}

proof fn lemma_vdms_acknowledged(r: Run, vdos: Seq<u32>)
    requires
        r.left() >= 0,
        vdms_run(r, VdmSopType::SopStar, vdos).1 is Ok,
    ensures
        ({
            let s = vdms_run(r, VdmSopType::SopStar, vdos).0;
            &&& grows(r, s)
            &&& acknowledged_within(s, vdos, r.asked.len() as int, s.asked.len() as int)
        }),
{
    let sop = VdmSopType::SopStar;
    let s = vdms_run(r, sop, vdos).0;
    lemma_vdms_grows(r, sop, vdos);
    law_vdm_acknowledged(r, sop, vdos);
    let (before, reply, b, c) = choose|before: Seq<u8>, reply: Seq<u8>, b: int, c: int|
        {
            &&& r.asked.len() <= b < c < s.asked.len() - 1
            &&& #[trigger] received_at(s, b, before)
            &&& #[trigger] submitted_at(s, c, tag_vdms(), vdm_data(sop, vdos))
            &&& #[trigger] received_at(s, s.asked.len() - 1, reply)
            &&& reply[0] != before[0]
            &&& le_u32(reply.subrange(1, 5)) == ack_header(vdos)
        };
    assert(acknowledged_at(s, vdos, b, c, s.asked.len() - 1, before, reply));
}

proof fn lemma_insist_acknowledged(r: Run, vdos: Seq<u32>, start: u64)
    requires
        r.left() >= 0,
        insist_run(r, vdos, start).1 is Ok,
    ensures
        ({
            let s = insist_run(r, vdos, start).0;
            &&& grows(r, s)
            &&& acknowledged_within(s, vdos, r.asked.len() as int, s.asked.len() as int)
        }),
    decreases r.left(),
{
    let s = insist_run(r, vdos, start).0;
    let (r1, sent) = vdms_run(r, VdmSopType::SopStar, vdos);
    lemma_vdms_grows(r, VdmSopType::SopStar, vdos);
    if sent is Ok {
        lemma_vdms_acknowledged(r, vdos);
    } else {
        let r2 = sleep_run(r1, RETRY_WAIT).0;
        let n = s.asked.len() as int;
        lemma_insist_acknowledged(r2, vdos, start);
        lemma_wider(s, vdos, r2.asked.len() as int, n, r.asked.len() as int, n);
    }
}

proof fn lemma_serial_fulfilled(r: Run)
    requires
        r.left() >= 0,
        serial_run(r).1 is Ok,
    ensures
        ({
            let s = serial_run(r).0;
            &&& grows(r, s)
            &&& acknowledged(s, vdos_serial())
            &&& both_ends_serial(s, r.asked.len() as int)
        }),
{
    let s = serial_run(r).0;
    let n = r.asked.len() as int;
    let local = vdos_serial().subrange(1, 2);
    let r1 = insist_run(r, vdos_serial(), r.now()).0;
    let e = r1.asked.len() as int;
    lemma_insist_acknowledged(r, vdos_serial(), r.now());
    lemma_expect_dbma(r1, 0);
    let r2 = expect_dbma_run(r1).0;
    lemma_dven(r2, local, 0);
    law_command_done(r2, tag_dven(), all_le_bytes(local), CMD_TIMEOUT, 0);
    let d = choose|d: int|
        r2.asked.len() < d < s.asked.len() - 2 && #[trigger] submitted_at(
            s,
            d,
            tag_dven(),
            all_le_bytes(local),
        );
    lemma_stays(r1, s, vdos_serial(), n, e);
    lemma_wider(s, vdos_serial(), n, e, n, d);
    lemma_wider(s, vdos_serial(), n, e, 0, s.asked.len() as int);
    assert(local_serial_at(s, d));
}

proof fn lemma_await_connected_seen(r: Run, start: u64)
    requires
        r.left() >= 0,
        await_connected_run(r, start).1 is Ok,
    ensures
        ({
            let s = await_connected_run(r, start).0;
            &&& s.asked.len() > r.asked.len()
            &&& connected_at(s, s.asked.len() - 1)
        }),
    decreases r.left(),
{
    let (r1, looked) = check_connected_run(r);
    if looked != Ok::<bool, Stop>(true) {
        let r2 = sleep_run(r1, POLL_WAIT).0;
        lemma_await_connected_seen(r2, start);
    }
}

/// A reboot that is waited for: where the target was found connected after it had acknowledged.
proof fn lemma_reboot_wait_seen(r: Run) -> (p: int)
    requires
        r.left() >= 0,
        reboot_wait_run(r).1 is Ok,
    ensures
        grows(r, reboot_wait_run(r).0),
        connected_at(reboot_wait_run(r).0, p),
        acknowledged_within(reboot_wait_run(r).0, vdos_reboot(), 0, p),
{
    let s = reboot_wait_run(r).0;
    let r1 = reboot_run(r).0;
    lemma_vdms_acknowledged(r, vdos_reboot());
    let r2 = sleep_run(r1, RECONNECT_WAIT).0;
    lemma_await_connected(r2, r2.now(), 0);
    lemma_await_connected_seen(r2, r2.now());
    let r3 = await_connected_run(r2, r2.now()).0;
    let p = r3.asked.len() - 1;
    assert(grows(r3, s));
    assert(connected_at(s, p));
    let (n, e) = (r.asked.len() as int, r1.asked.len() as int);
    lemma_stays(r1, s, vdos_reboot(), n, e);
    lemma_wider(s, vdos_reboot(), n, e, 0, p);
    p
}

proof fn lemma_command_fulfilled(r: Run, matches: Invocation)
    requires
        r.left() >= 0,
        command_run(r, matches).1 is Ok,
    ensures
        command_fulfilled(command_run(r, matches).0, matches),
{
    reveal_strlit("dfu");
    reveal_strlit("reboot");
    reveal_strlit("serial");
    assert("dfu"@.len() == 3 && "reboot"@.len() == 6 && "serial"@.len() == 6);
    assert("reboot"@[0] == 'r' && "serial"@[0] == 's');
    let s = command_run(r, matches).0;
    let m = s.asked.len() as int;
    if is_word(matches.subcommand, "dfu"@) {
        lemma_vdms_acknowledged(r, vdos_dfu());
        lemma_wider(s, vdos_dfu(), r.asked.len() as int, m, 0, m);
    } else if is_word(matches.subcommand, "reboot"@) {
        if is_word(matches.nested, "serial"@) {
            let p = lemma_reboot_wait_seen(r);
            let r1 = reboot_wait_run(r).0;
            lemma_serial_fulfilled(r1);
            lemma_stays(r1, s, vdos_reboot(), 0, p);
            lemma_both_ends_stay(s, s, r1.asked.len() as int, p + 1);
            assert(connected_at(s, p));
        } else if is_word(matches.nested, "debugusb"@) {
            lemma_reboot_wait_seen(r);
            let r1 = reboot_wait_run(r).0;
            lemma_insist_acknowledged(r1, vdos_debugusb(), r1.now());
            lemma_wider(s, vdos_debugusb(), r1.asked.len() as int, m, 0, m);
        } else if matches.nested is None {
            lemma_vdms_acknowledged(r, vdos_reboot());
            lemma_wider(s, vdos_reboot(), r.asked.len() as int, m, 0, m);
        }
    } else if is_word(matches.subcommand, "serial"@) {
        lemma_serial_fulfilled(r);
        lemma_both_ends_stay(s, s, r.asked.len() as int, 0);
    } else if is_word(matches.subcommand, "debugusb"@) {
        lemma_insist_acknowledged(r, vdos_debugusb(), r.now());
        lemma_wider(s, vdos_debugusb(), r.asked.len() as int, m, 0, m);
    }
}

proof fn lemma_execute_command_fulfilled(
    r: Run,
    matches: Invocation,
    bus: Seq<char>,
    addr: u16,
    code: Seq<char>,
    reset_controller: bool,
)
    requires
        r.left() >= 0,
        execute_command_run(r, matches, bus, addr, code, reset_controller).1 is Ok,
    ensures
        command_fulfilled(
            execute_command_run(r, matches, bus, addr, code, reset_controller).0,
            matches,
        ),
{
    reveal(execute_command_run);
    let s = execute_command_run(r, matches, bus, addr, code, reset_controller).0;
    let r1 = do_run(r, Request::OpenBus { bus, addr }).0;
    lemma_new(r1, key_of(code), 0);
    let r2 = if reset_controller {
        r1
    } else {
        new_run(r1, key_of(code)).0
    };
    lemma_command(r2, matches, 0);
    let (r3, done) = command_run(r2, matches);
    let skip = reset_controller || matches.is_reset() && done is Ok;
    lemma_drop(r3, skip, 0);
    lemma_command_fulfilled(r2, matches);
    lemma_fulfilled_stays(r3, s, matches);
}

proof fn lemma_execute_debugusb_acknowledged(r: Run, bus: Seq<char>, addr: u16, code: Seq<char>)
    requires
        r.left() >= 0,
        execute_debugusb_run(r, bus, addr, code).1 is Ok,
    ensures
        acknowledged(execute_debugusb_run(r, bus, addr, code).0, vdos_debugusb()),
{
    reveal(execute_debugusb_run);
    let s = execute_debugusb_run(r, bus, addr, code).0;
    let r1 = do_run(r, Request::OpenBus { bus, addr }).0;
    lemma_new(r1, key_of(code), 0);
    let r2 = new_run(r1, key_of(code)).0;
    lemma_debugusb(r2, 0);
    let r3 = debugusb_run(r2).0;
    lemma_drop(r3, false, 0);
    lemma_insist_acknowledged(r2, vdos_debugusb(), r2.now());
    let (n, e, m) = (r2.asked.len() as int, r3.asked.len() as int, s.asked.len() as int);
    lemma_stays(r3, s, vdos_debugusb(), n, e);
    lemma_wider(s, vdos_debugusb(), n, e, 0, m);
}

proof fn lemma_attempt_fulfilled(
    r: Run,
    matches: Invocation,
    bus: Seq<char>,
    addr: u16,
    code: Seq<char>,
)
    requires
        r.left() >= 0,
        attempt_run(r, matches, bus, addr, code).1 is Ok,
    ensures
        command_fulfilled(attempt_run(r, matches, bus, addr, code).0, matches),
{
    let first = execute_command_run(r, matches, bus, addr, code, matches.is_reset());
    lemma_execute_command(r, matches, bus, addr, code, matches.is_reset(), 0);
    reveal(sound);
    if first.1 is Ok {
        lemma_execute_command_fulfilled(r, matches, bus, addr, code, matches.is_reset());
    } else {
        assert(first.1 == fail::<()>(Error::VdmReplyTimeout));
        lemma_reprobe(first.0, bus, addr, 0);
        let r1 = reprobe_hpm_run(first.0, bus, addr).0;
        if matches.is_reboot_debugusb() {
            lemma_execute_debugusb_acknowledged(r1, bus, addr, code);
            reveal_strlit("dfu");
            reveal_strlit("reboot");
            reveal_strlit("serial");
            reveal_strlit("debugusb");
            reveal_strlit("reboot debugusb");
            assert("dfu"@.len() == 3 && "reboot"@.len() == 6 && "serial"@.len() == 6);
            assert("debugusb"@.len() == 8 && "reboot debugusb"@.len() == 15);
            assert("reboot"@[0] == 'r' && "serial"@[0] == 's');
        } else {
            lemma_execute_command_fulfilled(r1, matches, bus, addr, code, false);
        }
    }
}

/// A command that succeeds was acknowledged by the target: the message by which it ends was
/// submitted, and a new reply that acknowledges it was read. Serial mode is entered at both ends:
/// the command for the local end was submitted after that reply. For serial mode after a reboot,
/// the reboot was acknowledged as well, and the target was found connected between the two.
pub proof fn law_success_is_acknowledged(matches: Invocation, replies: Seq<Reply>)
    requires
        whole_run(matches, replies).1 is Ok,
    ensures
        command_fulfilled(whole_run(matches, replies).0, matches),
{
    let r = beginning(replies);
    let s = whole_run(matches, replies).0;
    lemma_code(r, 0);
    if let (r1, Ok(code)) = code_run(r) {
        lemma_select(r1, matches, 0);
        if let (r2, Ok((bus, addr))) = select_run(r1, matches) {
            lemma_recover(r2, bus, addr, 0);
            let r3 = if matches.is_reset() || matches.is_nop() {
                r2
            } else {
                recover_missing_partner_run(r2, bus, addr).0
            };
            lemma_attempt(r3, matches, bus, addr, code, 0);
            let (r4, retried) = attempt_run(r3, matches, bus, addr, code);
            lemma_attempt_fulfilled(r3, matches, bus, addr, code);
            reveal(sound);
            lemma_confirm(r4, bus, addr, code, retried->Ok_0, 0);
            lemma_fulfilled_stays(r4, s, matches);
        }
    }
}

} // verus!
