//! In how many sessions the tool sends the message that puts the target into DebugUSB mode.
use crate::cd321x::{key_of, BUSY_WAIT, CMD_TIMEOUT, TPS_REG_CMD1};
use crate::error::Error;
use crate::host::{do_run, read_block_run, sleep_run, write_block_run, Request, Run, Stop};
use crate::protocol::{
    await_done_run, await_idle_run, enter_run, exec_cmd_run, exec_cmd_with_timing_run, fail,
    get_mode_run, grows, lock_run, new_run, tag_dbma, tag_lock, write_input_run,
};
use crate::tool::{
    attempt_run, command_run, execute_command_run, serve_run, session_reaches_debugusb,
    Invocation,
};
use crate::trace::{
    armed_in_session, armed_sessions, arms_at, in_order, is_open, opens, request_in_order,
    unarmed,
};
use crate::trace_device::{lemma_drop, lemma_enter, lemma_new, lemma_reboot_wait};
use crate::trace_tool::{
    lemma_confirm, lemma_execute_command, lemma_open, lemma_second_attempt, lemma_serve, sound,
};
use vstd::prelude::*;

verus! {

/// Where the message is not submitted, no session is added to those in which it was.
pub proof fn lemma_unarmed(r: Run, s: Run)
    requires
        grows(r, s),
        unarmed(r, s),
    ensures
        armed_sessions(s.asked) == armed_sessions(r.asked),
    decreases s.asked.len(),
{
    if s.asked.len() > r.asked.len() {
        let last = s.asked.len() - 1;
        let p = Run { asked: s.asked.drop_last(), ..s };
        assert(!arms_at(s.asked, last)) by {
            assert(s.asked[last] == s.asked.last());
        }
        assert forall|i: int|
            #![trigger p.asked[i]]
            r.asked.len() <= i < p.asked.len() implies !arms_at(p.asked, i) by {
            assert(p.asked[i] == s.asked[i]);
        }
        lemma_unarmed(r, p);
    } else {
        assert(s.asked =~= r.asked);
    }
}

/// The message is submitted in no more sessions than there are, where the bus was closed before
/// them. While the bus is open for a session without it, there is one session to spare.
proof fn lemma_armed_by_opens(r: Run, s: Run)
    requires
        grows(r, s),
        in_order(s),
        !is_open(r),
    ensures
        armed_sessions(s.asked) + opens(r.asked) <= armed_sessions(r.asked) + opens(s.asked),
        is_open(s) && !armed_in_session(s.asked) ==> armed_sessions(s.asked) + opens(r.asked)
            < armed_sessions(r.asked) + opens(s.asked),
    decreases s.asked.len(),
{
    if s.asked.len() > r.asked.len() {
        let last = s.asked.len() - 1;
        let p = Run { asked: s.asked.drop_last(), ..s };
        assert forall|i: int| 0 <= i < p.asked.len() implies #[trigger] request_in_order(p, i) by {
            assert(request_in_order(s, i));
            assert(p.asked.take(i) =~= s.asked.take(i));
        }
        lemma_armed_by_opens(r, p);
        assert(request_in_order(s, last));
        assert(s.asked.take(last) =~= p.asked);
    } else {
        assert(s.asked =~= r.asked);
    }
}

/// Whether a part did not end for want of a reply to a message.
pub open spec fn not_unreplied<T>(end: Result<T, Stop>) -> bool {
    end != fail::<T>(Error::VdmReplyTimeout)
}

proof fn lemma_idle_not_unreplied(r: Run, start: u64)
    ensures
        not_unreplied(await_idle_run(r, start).1),
    decreases r.left(),
{
    if let (r1, Ok(_)) = read_block_run(r, TPS_REG_CMD1, 4) {
        if let (r2, Ok(())) = sleep_run(r1, BUSY_WAIT) {
            lemma_idle_not_unreplied(r2, start);
        }
    }
}

proof fn lemma_done_not_unreplied(r: Run, start: u64, timeout: u64)
    ensures
        not_unreplied(await_done_run(r, start, timeout).1),
    decreases r.left(),
{
    if let (r1, Ok(_)) = read_block_run(r, TPS_REG_CMD1, 4) {
        lemma_done_not_unreplied(r1, start, timeout);
    }
}

proof fn lemma_cmd_not_unreplied(r: Run, tag: Seq<u8>, data: Seq<u8>)
    ensures
        not_unreplied(exec_cmd_run(r, tag, data).1),
{
    reveal(exec_cmd_with_timing_run);
    lemma_idle_not_unreplied(r, r.now());
    if let (r1, Ok(())) = await_idle_run(r, r.now()) {
        if let (r2, Ok(())) = write_input_run(r1, data) {
            if let (r3, Ok(())) = write_block_run(r2, TPS_REG_CMD1, tag) {
                lemma_done_not_unreplied(r3, r3.now(), CMD_TIMEOUT);
            }
        }
    }
}

/// No message is sent while a controller is taken over.
proof fn lemma_new_not_unreplied(r: Run, key: Seq<u8>)
    requires
        r.left() >= 0,
    ensures
        not_unreplied(new_run(r, key).1),
{
    reveal(new_run);
    lemma_enter(r, key, 0);
    lemma_drop(enter_run(r, key).0, false, 0);
    if let (r1, Ok(mode)) = get_mode_run(r) {
        lemma_cmd_not_unreplied(r1, tag_lock(), key);
        if let (r2, Ok(())) = lock_run(r1, key) {
            lemma_cmd_not_unreplied(r2, tag_dbma(), seq![1u8]);
        }
    }
}

/// A command that is to bring the target into DebugUSB mode, and does not get as far, does not
/// submit the message. Without a reboot before it, it ends for want of a reply only where it does
/// get as far.
proof fn lemma_unreached(
    r: Run,
    matches: Invocation,
    bus: Seq<char>,
    addr: u16,
    code: Seq<char>,
    reset: bool,
)
    requires
        r.left() >= 0,
        matches.is_debugusb(),
        !matches.is_reset(),
        !reset,
        !session_reaches_debugusb(r, matches, bus, addr, code, reset),
    ensures
        unarmed(r, execute_command_run(r, matches, bus, addr, code, reset).0),
        !matches.is_reboot_debugusb() ==> not_unreplied(
            execute_command_run(r, matches, bus, addr, code, reset).1,
        ),
{
    reveal(execute_command_run);
    reveal_strlit("dfu");
    reveal_strlit("reboot");
    reveal_strlit("serial");
    reveal_strlit("debugusb");
    reveal_strlit("reboot debugusb");
    reveal_strlit("disconnect");
    assert("dfu"@.len() == 3 && "reboot"@.len() == 6 && "serial"@.len() == 6);
    assert("debugusb"@.len() == 8 && "reboot debugusb"@.len() == 15 && "disconnect"@.len() == 10);
    lemma_open(r, bus, addr, 0);
    if let (r1, Ok(())) = do_run(r, Request::OpenBus { bus, addr }) {
        lemma_new(r1, key_of(code), 0);
        lemma_new_not_unreplied(r1, key_of(code));
        if let (r2, Ok(())) = new_run(r1, key_of(code)) {
            lemma_reboot_wait(r2, 0);
            let (r3, done) = command_run(r2, matches);
            lemma_drop(r3, false, 0);
        }
    }
}

/// DebugUSB mode is tried in two sessions at the most, and without a reboot before it the bus is
/// opened twice at the most.
pub proof fn lemma_serve_armed(
    r: Run,
    matches: Invocation,
    bus: Seq<char>,
    addr: u16,
    code: Seq<char>,
)
    requires
        r.left() >= 0,
        in_order(r),
        !is_open(r),
        matches.is_debugusb(),
    ensures
        ({
            let s = serve_run(r, matches, bus, addr, code).0;
            &&& armed_sessions(s.asked) <= armed_sessions(r.asked) + 2
            &&& !matches.is_reboot_debugusb() ==> opens(s.asked) <= opens(r.asked) + 2
        }),
{
    reveal_strlit("reset-controller");
    reveal_strlit("reboot");
    reveal_strlit("debugusb");
    reveal_strlit("reboot debugusb");
    assert("reset-controller"@.len() == 16 && "reboot"@.len() == 6);
    assert("debugusb"@.len() == 8 && "reboot debugusb"@.len() == 15);
    let s = serve_run(r, matches, bus, addr, code).0;
    let reached = session_reaches_debugusb(r, matches, bus, addr, code, false);
    let (r1, first) = execute_command_run(r, matches, bus, addr, code, false);
    let (r2, attempted) = attempt_run(r, matches, bus, addr, code);
    lemma_serve(r, matches, bus, addr, code, 0);
    lemma_execute_command(r, matches, bus, addr, code, false, 0);
    reveal(sound);
    if r2 != r1 {
        lemma_second_attempt(r1, matches, bus, addr, code, 0);
    }
    if attempted is Ok {
        lemma_confirm(r2, bus, addr, code, attempted->Ok_0, 0);
    }
    if first == fail::<()>(Error::VdmReplyTimeout) && !reached {
        lemma_unreached(r, matches, bus, addr, code, false);
        lemma_unarmed(r, r1);
        lemma_second_attempt(r1, matches, bus, addr, code, 0);
        lemma_armed_by_opens(r1, s);
    } else {
        lemma_armed_by_opens(r, s);
    }
}

} // verus!
