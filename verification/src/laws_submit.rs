//! Which commands the tool submits to the controller, and what they work on.
use crate::cd321x::{all_le_bytes, key_of, RETRY_WAIT, VdmSopType};
use crate::error::Error;
use crate::host::{do_run, read_block_run, sleep_run, Reply, Request, Run};
use crate::laws::beginning;
use crate::laws_choice::law_machine;
use crate::laws_command::law_command;
use crate::laws_wait::{law_reconnect_wait, law_reply_wait};
use crate::protocol::{
    dbma_run, debugusb_run, drop_run, enter_run, exec_cmd_with_timing_run, expect_dbma_run, fail,
    get_mode_run, grows, insist_run, lemma_vdms_grows, lock_run, new_run, reboot_run,
    reboot_wait_run, reset_run, serial_run, tag_dbma, tag_disc, tag_dven, tag_gaid, tag_lock,
    tag_vdms, vdm_data, vdms_run, vdos_debugusb, vdos_dfu, vdos_reboot, vdos_serial,
};
use crate::sysfs::{recover_missing_partner_run, reprobe_hpm_run, wait_for_debugusb_run};
use crate::text::uppercased;
use crate::tool::{
    attempt_run, code_run, command_run, execute_command_run, execute_debugusb_run, select_run,
    serve_run, session_run, whole_run, Invocation,
};
use crate::trace_device::{lemma_enter, lemma_reboot_wait};
use crate::trace_tool::{
    lemma_attempt, lemma_await_debugusb, lemma_code, lemma_command, lemma_confirm,
    lemma_execute_command, lemma_execute_debugusb, lemma_open, lemma_recover, lemma_reprobe,
    lemma_select, sound,
};
use vstd::prelude::*;
use vstd::utf8::{decode_utf8, encode_utf8};

verus! {

/// What the command that is the `i`th request works on: what was written to register 0x09 right
/// before it, or nothing.
pub open spec fn given(asked: Seq<Request>, i: int) -> Seq<u8> {
    if i > 0 {
        match asked[i - 1] {
            Request::WriteBlock { reg, data } => if reg == 0x09 {
                data
            } else {
                Seq::empty()
            },
            _ => Seq::empty(),
        }
    } else {
        Seq::empty()
    }
}

/// Whether, between `r` and `s`, nothing is written but commands that `p` allows, with what they
/// work on, and what they work on.
pub open spec fn submits_only(
    r: Run,
    s: Run,
    p: spec_fn(Seq<u8>, Seq<u8>) -> bool,
) -> bool {
    forall|i: int|
        r.asked.len() <= i < s.asked.len() ==> (#[trigger] s.asked[i] matches Request::WriteBlock {
            reg,
            data,
        } ==> reg == 0x09 || reg == 0x08 && p(data, given(s.asked, i)))
}

pub proof fn lemma_exec(
    r: Run,
    tag: Seq<u8>,
    data: Seq<u8>,
    timeout: u64,
    delay: u64,
    p: spec_fn(Seq<u8>, Seq<u8>) -> bool,
)
    requires
        r.left() >= 0,
        p(tag, data),
    ensures
        submits_only(r, exec_cmd_with_timing_run(r, tag, data, timeout, delay).0, p),
        grows(r, exec_cmd_with_timing_run(r, tag, data, timeout, delay).0),
{
    let c = law_command(r, tag, data, timeout, delay);
    let s = exec_cmd_with_timing_run(r, tag, data, timeout, delay).0;
    assert forall|i: int| r.asked.len() <= i < s.asked.len() implies (
    #[trigger] s.asked[i] matches Request::WriteBlock { reg, data: d } ==> reg == 0x09 || reg == 0x08
        && p(d, given(s.asked, i))) by {
        if i == c {
            if data.len() == 0 {
                assert(s.asked[c - 1] !is WriteBlock);
                assert(data =~= Seq::empty());
            }
            assert(given(s.asked, i) == data);
        }
    }
}

pub proof fn lemma_dbma(r: Run, debug: bool, p: spec_fn(Seq<u8>, Seq<u8>) -> bool)
    requires
        r.left() >= 0,
        p(tag_dbma(), seq![if debug { 1u8 } else { 0u8 }]),
    ensures
        submits_only(r, dbma_run(r, debug).0, p),
        grows(r, dbma_run(r, debug).0),
{
    lemma_exec(r, tag_dbma(), seq![if debug { 1u8 } else { 0u8 }], 1_000_000_000, 0, p);
}

pub proof fn lemma_message(
    r: Run,
    sop: VdmSopType,
    vdos: Seq<u32>,
    p: spec_fn(Seq<u8>, Seq<u8>) -> bool,
)
    requires
        r.left() >= 0,
        p(tag_vdms(), vdm_data(sop, vdos)),
    ensures
        submits_only(r, vdms_run(r, sop, vdos).0, p),
        grows(r, vdms_run(r, sop, vdos).0),
{
    reveal(vdms_run);
    lemma_vdms_grows(r, sop, vdos);
    if let (r1, Ok(())) = expect_dbma_run(r) {
        if let (r2, Ok(before)) = read_block_run(r1, 0x4d, 64) {
            let data = vdm_data(sop, vdos);
            lemma_exec(r2, tag_vdms(), data, 200_000_000, 0, p);
            if let (r3, Ok(())) = exec_cmd_with_timing_run(r2, tag_vdms(), data, 200_000_000, 0) {
                law_reply_wait(r3, before[0], r3.now());
            }
        }
    }
}

pub proof fn lemma_insist(
    r: Run,
    vdos: Seq<u32>,
    start: u64,
    p: spec_fn(Seq<u8>, Seq<u8>) -> bool,
)
    requires
        r.left() >= 0,
        p(tag_vdms(), vdm_data(VdmSopType::SopStar, vdos)),
    ensures
        submits_only(r, insist_run(r, vdos, start).0, p),
        grows(r, insist_run(r, vdos, start).0),
    decreases r.left(),
{
    lemma_message(r, VdmSopType::SopStar, vdos, p);
    let (r1, sent) = vdms_run(r, VdmSopType::SopStar, vdos);
    if let (r2, Ok(())) = sleep_run(r1, RETRY_WAIT) {
        lemma_insist(r2, vdos, start, p);
    }
}

pub proof fn lemma_serial_only(r: Run, p: spec_fn(Seq<u8>, Seq<u8>) -> bool)
    requires
        r.left() >= 0,
        p(tag_vdms(), vdm_data(VdmSopType::SopStar, vdos_serial())),
        p(tag_dven(), all_le_bytes(vdos_serial().subrange(1, 2))),
    ensures
        submits_only(r, serial_run(r).0, p),
        grows(r, serial_run(r).0),
{
    lemma_insist(r, vdos_serial(), r.now(), p);
    if let (r1, Ok(())) = insist_run(r, vdos_serial(), r.now()) {
        if let (r2, Ok(())) = expect_dbma_run(r1) {
            let data = all_le_bytes(vdos_serial().subrange(1, 2));
            lemma_exec(r2, tag_dven(), data, 1_000_000_000, 0, p);
        }
    }
}

pub proof fn lemma_reboot_wait_only(r: Run, p: spec_fn(Seq<u8>, Seq<u8>) -> bool)
    requires
        r.left() >= 0,
        p(tag_vdms(), vdm_data(VdmSopType::SopStar, vdos_reboot())),
    ensures
        submits_only(r, reboot_wait_run(r).0, p),
        grows(r, reboot_wait_run(r).0),
{
    lemma_reboot_wait(r, 0);
    lemma_message(r, VdmSopType::SopStar, vdos_reboot(), p);
    if let (r1, Ok(())) = reboot_run(r) {
        if let (r2, Ok(())) = sleep_run(r1, 1_000_000_000) {
            law_reconnect_wait(r2, r2.now());
        }
    }
}

pub proof fn lemma_drop_only(r: Run, skip_shutdown: bool, p: spec_fn(Seq<u8>, Seq<u8>) -> bool)
    requires
        r.left() >= 0,
        p(tag_dbma(), seq![0u8]),
        p(tag_lock(), seq![0u8, 0, 0, 0]),
    ensures
        submits_only(r, drop_run(r, skip_shutdown).0, p),
        grows(r, drop_run(r, skip_shutdown).0),
{
    reveal(drop_run);
    lemma_dbma(r, false, p);
    let r1 = dbma_run(r, false).0;
    lemma_exec(r1, tag_lock(), seq![0u8, 0, 0, 0], 1_000_000_000, 0, p);
}

pub proof fn lemma_new_only(r: Run, key: Seq<u8>, p: spec_fn(Seq<u8>, Seq<u8>) -> bool)
    requires
        r.left() >= 0,
        p(tag_dbma(), seq![0u8]),
        p(tag_dbma(), seq![1u8]),
        p(tag_lock(), seq![0u8, 0, 0, 0]),
        p(tag_lock(), key),
    ensures
        submits_only(r, new_run(r, key).0, p),
        grows(r, new_run(r, key).0),
{
    reveal(new_run);
    let s = enter_run(r, key).0;
    lemma_enter(r, key, 0);
    assert(submits_only(r, s, p)) by {
        if let (r1, Ok(_)) = get_mode_run(r) {
            lemma_exec(r1, tag_lock(), key, 1_000_000_000, 0, p);
            if let (r2, Ok(())) = lock_run(r1, key) {
                lemma_dbma(r2, true, p);
            }
        }
    }
    lemma_drop_only(s, false, p);
}

/// What a command may submit besides the takeover and the end of a controller's use.
pub open spec fn allows_command(
    p: spec_fn(Seq<u8>, Seq<u8>) -> bool,
    matches: Invocation,
) -> bool {
    let star = VdmSopType::SopStar;
    &&& is_dfu(matches) ==> p(tag_vdms(), vdm_data(star, vdos_dfu()))
    &&& is_reboot(matches) ==> p(tag_vdms(), vdm_data(star, vdos_reboot()))
    &&& is_serial(matches) ==> p(tag_vdms(), vdm_data(star, vdos_serial())) && p(
        tag_dven(),
        all_le_bytes(vdos_serial().subrange(1, 2)),
    )
    &&& matches.is_debugusb() ==> p(tag_vdms(), vdm_data(star, vdos_debugusb()))
    &&& is_disconnect(matches) ==> p(tag_disc(), seq![3u8])
    &&& matches.is_reset() ==> p(tag_gaid(), Seq::empty())
}

/// Whether the command is `dfu`.
pub open spec fn is_dfu(matches: Invocation) -> bool {
    matches.subcommand matches Some(w) && w@ == "dfu"@
}

/// Whether the command is `reboot`, alone or with `serial` or `debugusb` behind it.
pub open spec fn is_reboot(matches: Invocation) -> bool {
    &&& matches.subcommand matches Some(w) && w@ == "reboot"@
    &&& matches.nested matches Some(w) ==> w@ == "serial"@ || w@ == "debugusb"@
}

/// Whether the command is `serial` or `reboot serial`.
pub open spec fn is_serial(matches: Invocation) -> bool {
    ||| matches.subcommand matches Some(w) && w@ == "serial"@
    ||| {
        &&& matches.subcommand matches Some(w) && w@ == "reboot"@
        &&& matches.nested matches Some(w) && w@ == "serial"@
    }
}

/// Whether the command is `disconnect`.
pub open spec fn is_disconnect(matches: Invocation) -> bool {
    matches.subcommand matches Some(w) && w@ == "disconnect"@
}

proof fn lemma_command_only(
    r: Run,
    matches: Invocation,
    p: spec_fn(Seq<u8>, Seq<u8>) -> bool,
)
    requires
        r.left() >= 0,
        r.asked.len() > 0,
        r.asked.last() !is WriteBlock,
        allows_command(p, matches),
    ensures
        submits_only(r, command_run(r, matches).0, p),
        grows(r, command_run(r, matches).0),
{
    use_words();
    lemma_command(r, matches, 0);
    if is_dfu(matches) {
        lemma_message(r, VdmSopType::SopStar, vdos_dfu(), p);
    } else if matches.subcommand matches Some(w) && w@ == "reboot"@ {
        if is_reboot(matches) {
            lemma_message(r, VdmSopType::SopStar, vdos_reboot(), p);
            lemma_reboot_wait_only(r, p);
            if let (r1, Ok(())) = reboot_wait_run(r) {
                if is_serial(matches) {
                    lemma_serial_only(r1, p);
                }
                if matches.is_debugusb() {
                    lemma_insist(r1, vdos_debugusb(), r1.now(), p);
                }
            }
        }
    } else if is_serial(matches) {
        lemma_serial_only(r, p);
    } else if matches.subcommand matches Some(w) && w@ == "debugusb"@ {
        lemma_insist(r, vdos_debugusb(), r.now(), p);
    } else if is_disconnect(matches) {
        lemma_exec(r, tag_disc(), seq![3u8], 1_000_000_000, 0, p);
    } else if matches.is_reset() {
        assert(given(reset_run(r).0.asked, r.asked.len() as int) =~= Seq::empty());
    }
}

/// The words of the command line are all different.
pub proof fn use_words()
    ensures
        "dfu"@ != "reboot"@,
        "dfu"@ != "serial"@,
        "dfu"@ != "debugusb"@,
        "dfu"@ != "disconnect"@,
        "dfu"@ != "reset-controller"@,
        "dfu"@ != "reboot debugusb"@,
        "dfu"@ != "nop"@,
        "reboot"@ != "serial"@,
        "reboot"@ != "debugusb"@,
        "reboot"@ != "disconnect"@,
        "reboot"@ != "reset-controller"@,
        "reboot"@ != "reboot debugusb"@,
        "reboot"@ != "nop"@,
        "serial"@ != "debugusb"@,
        "serial"@ != "disconnect"@,
        "serial"@ != "reset-controller"@,
        "serial"@ != "reboot debugusb"@,
        "serial"@ != "nop"@,
        "debugusb"@ != "disconnect"@,
        "debugusb"@ != "reset-controller"@,
        "debugusb"@ != "reboot debugusb"@,
        "debugusb"@ != "nop"@,
        "disconnect"@ != "reset-controller"@,
        "disconnect"@ != "reboot debugusb"@,
        "disconnect"@ != "nop"@,
        "reset-controller"@ != "reboot debugusb"@,
        "reset-controller"@ != "nop"@,
        "reboot debugusb"@ != "nop"@,
{
    reveal_strlit("dfu");
    reveal_strlit("reboot");
    reveal_strlit("serial");
    reveal_strlit("debugusb");
    reveal_strlit("disconnect");
    reveal_strlit("reset-controller");
    reveal_strlit("reboot debugusb");
    reveal_strlit("nop");
    assert("dfu"@.len() == 3 && "nop"@.len() == 3 && "reboot"@.len() == 6 && "serial"@.len() == 6);
    assert("debugusb"@.len() == 8 && "disconnect"@.len() == 10);
    assert("reset-controller"@.len() == 16 && "reboot debugusb"@.len() == 15);
    assert("reboot"@[0] == 'r' && "serial"@[0] == 's' && "dfu"@[0] == 'd' && "nop"@[0] == 'n');
}

/// What any session may submit.
pub open spec fn allows_session(p: spec_fn(Seq<u8>, Seq<u8>) -> bool, key: Seq<u8>) -> bool {
    &&& p(tag_dbma(), seq![0u8])
    &&& p(tag_dbma(), seq![1u8])
    &&& p(tag_lock(), seq![0u8, 0, 0, 0])
    &&& p(tag_lock(), key)
}

pub proof fn lemma_session_only(
    r: Run,
    matches: Invocation,
    skip_shutdown: bool,
    key: Seq<u8>,
    p: spec_fn(Seq<u8>, Seq<u8>) -> bool,
)
    requires
        r.left() >= 0,
        r.asked.len() > 0,
        r.asked.last() !is WriteBlock,
        allows_command(p, matches),
        allows_session(p, key),
    ensures
        submits_only(r, session_run(r, matches, skip_shutdown).0, p),
        grows(r, session_run(r, matches, skip_shutdown).0),
{
    lemma_command_only(r, matches, p);
    let (r1, done) = command_run(r, matches);
    lemma_drop_only(r1, skip_shutdown || matches.is_reset() && done is Ok, p);
}

/// A takeover that succeeds ends with a read.
pub proof fn lemma_new_ends(r: Run, key: Seq<u8>)
    requires
        r.left() >= 0,
        new_run(r, key).1 is Ok,
    ensures
        new_run(r, key).0.asked.len() > 0,
        new_run(r, key).0.asked.last() is ReadBlock,
{
    reveal(new_run);
}

proof fn lemma_execute_command_only(
    r: Run,
    matches: Invocation,
    bus: Seq<char>,
    addr: u16,
    code: Seq<char>,
    reset: bool,
    p: spec_fn(Seq<u8>, Seq<u8>) -> bool,
)
    requires
        r.left() >= 0,
        allows_command(p, matches),
        allows_session(p, key_of(code)),
    ensures
        submits_only(r, execute_command_run(r, matches, bus, addr, code, reset).0, p),
{
    reveal(execute_command_run);
    lemma_open(r, bus, addr, 0);
    let key = key_of(code);
    if let (r1, Ok(())) = do_run(r, Request::OpenBus { bus, addr }) {
        if reset {
            lemma_session_only(r1, matches, true, key, p);
        } else {
            lemma_new_only(r1, key, p);
            if let (r2, Ok(())) = new_run(r1, key) {
                lemma_new_ends(r1, key);
                lemma_session_only(r2, matches, false, key, p);
            }
        }
    }
}

proof fn lemma_execute_debugusb_only(
    r: Run,
    bus: Seq<char>,
    addr: u16,
    code: Seq<char>,
    p: spec_fn(Seq<u8>, Seq<u8>) -> bool,
)
    requires
        r.left() >= 0,
        p(tag_vdms(), vdm_data(VdmSopType::SopStar, vdos_debugusb())),
        allows_session(p, key_of(code)),
    ensures
        submits_only(r, execute_debugusb_run(r, bus, addr, code).0, p),
{
    reveal(execute_debugusb_run);
    lemma_open(r, bus, addr, 0);
    let key = key_of(code);
    if let (r1, Ok(())) = do_run(r, Request::OpenBus { bus, addr }) {
        lemma_new_only(r1, key, p);
        if let (r2, Ok(())) = new_run(r1, key) {
            lemma_insist(r2, vdos_debugusb(), r2.now(), p);
            lemma_drop_only(debugusb_run(r2).0, false, p);
        }
    }
}

proof fn lemma_attempt_only(
    r: Run,
    matches: Invocation,
    bus: Seq<char>,
    addr: u16,
    code: Seq<char>,
    p: spec_fn(Seq<u8>, Seq<u8>) -> bool,
)
    requires
        r.left() >= 0,
        allows_command(p, matches),
        allows_session(p, key_of(code)),
    ensures
        submits_only(r, attempt_run(r, matches, bus, addr, code).0, p),
{
    let reset = matches.is_reset();
    lemma_execute_command_only(r, matches, bus, addr, code, reset, p);
    lemma_execute_command(r, matches, bus, addr, code, reset, 0);
    reveal(sound);
    let (r1, first) = execute_command_run(r, matches, bus, addr, code, reset);
    if first == fail::<()>(Error::VdmReplyTimeout) {
        lemma_reprobe(r1, bus, addr, 0);
        if let (r2, Ok(())) = reprobe_hpm_run(r1, bus, addr) {
            lemma_execute_command_only(r2, matches, bus, addr, code, false, p);
            lemma_execute_command(r2, matches, bus, addr, code, false, 0);
            lemma_execute_debugusb(r2, bus, addr, code, 0);
            if matches.is_reboot_debugusb() {
                lemma_execute_debugusb_only(r2, bus, addr, code, p);
            }
        }
    }
}

proof fn lemma_serve_only(
    r: Run,
    matches: Invocation,
    bus: Seq<char>,
    addr: u16,
    code: Seq<char>,
    p: spec_fn(Seq<u8>, Seq<u8>) -> bool,
)
    requires
        r.left() >= 0,
        allows_command(p, matches),
        allows_session(p, key_of(code)),
    ensures
        submits_only(r, serve_run(r, matches, bus, addr, code).0, p),
        grows(r, serve_run(r, matches, bus, addr, code).0),
{
    lemma_attempt_only(r, matches, bus, addr, code, p);
    lemma_attempt(r, matches, bus, addr, code, 0);
    reveal(sound);
    if let (r1, Ok(retried)) = attempt_run(r, matches, bus, addr, code) {
        if matches.is_debugusb() {
            lemma_confirm(r1, bus, addr, code, retried, 0);
            lemma_await_debugusb(r1, r1.now(), Seq::empty(), 0);
            if let (r2, Ok(None)) = wait_for_debugusb_run(r1) {
                lemma_reprobe(r2, bus, addr, 0);
                if let (r3, Ok(())) = reprobe_hpm_run(r2, bus, addr) {
                    lemma_execute_debugusb_only(r3, bus, addr, code, p);
                    lemma_execute_debugusb(r3, bus, addr, code, 0);
                    if let (r4, Ok(())) = execute_debugusb_run(r3, bus, addr, code) {
                        lemma_await_debugusb(r4, r4.now(), Seq::empty(), 0);
                    }
                }
            }
        }
    }
}

/// The messages in bytes.
pub proof fn lemma_message_literals()
    ensures
        vdm_data(VdmSopType::SopStar, vdos_dfu()) == seq![
            0x33u8, 0x12, 0x80, 0xac, 0x05, 0x06, 0x01, 0, 0, 0, 0, 0x01, 0x80,
        ],
        vdm_data(VdmSopType::SopStar, vdos_reboot()) == seq![
            0x33u8, 0x12, 0x80, 0xac, 0x05, 0x05, 0x01, 0, 0, 0, 0, 0, 0x80,
        ],
        vdm_data(VdmSopType::SopStar, vdos_serial()) == seq![
            0x32u8, 0x12, 0x80, 0xac, 0x05, 0x06, 0x03, 0x84, 0x01,
        ],
        vdm_data(VdmSopType::SopStar, vdos_debugusb()) == seq![
            0x32u8, 0x12, 0x80, 0xac, 0x05, 0x06, 0x46, 0x82, 0x01,
        ],
        all_le_bytes(vdos_serial().subrange(1, 2)) == seq![0x06u8, 0x03, 0x84, 0x01],
{
    reveal_with_fuel(all_le_bytes, 4);
    let a = vdos_dfu();
    assert(a.drop_last() =~= seq![0x5ac8012u32, 0x106]);
    assert(a.drop_last().drop_last() =~= seq![0x5ac8012u32]);
    assert(a.drop_last().drop_last().drop_last() =~= Seq::<u32>::empty());
    let b = vdos_reboot();
    assert(b.drop_last() =~= seq![0x5ac8012u32, 0x105]);
    assert(b.drop_last().drop_last() =~= seq![0x5ac8012u32]);
    let c = vdos_serial();
    assert(c.drop_last() =~= seq![0x5ac8012u32]);
    let d = vdos_debugusb();
    assert(d.drop_last() =~= seq![0x5ac8012u32]);
    let e = vdos_serial().subrange(1, 2);
    assert(e =~= seq![0x1840306u32]);
    assert(e.drop_last() =~= Seq::<u32>::empty());
    assert(vdm_data(VdmSopType::SopStar, a) =~= seq![
        0x33u8, 0x12, 0x80, 0xac, 0x05, 0x06, 0x01, 0, 0, 0, 0, 0x01, 0x80,
    ]);
    assert(vdm_data(VdmSopType::SopStar, b) =~= seq![
        0x33u8, 0x12, 0x80, 0xac, 0x05, 0x05, 0x01, 0, 0, 0, 0, 0, 0x80,
    ]);
    assert(vdm_data(VdmSopType::SopStar, c) =~= seq![
        0x32u8, 0x12, 0x80, 0xac, 0x05, 0x06, 0x03, 0x84, 0x01,
    ]);
    assert(vdm_data(VdmSopType::SopStar, d) =~= seq![
        0x32u8, 0x12, 0x80, 0xac, 0x05, 0x06, 0x46, 0x82, 0x01,
    ]);
    assert(all_le_bytes(e) =~= seq![0x06u8, 0x03, 0x84, 0x01]);
}

/// Whether a word of the command line reads `text`.
pub open spec fn says(word: Option<String>, text: Seq<char>) -> bool {
    word matches Some(w) && w@ == text
}

/// Whatever is written to the controller is a command, or what a command works on, and each command
/// is one that the command line asks for:
/// - `LOCK` with the key of the machine, which is the bytes of its name in upper case in reverse,
///   or with four zeros;
/// - `DBMa` with 1 or 0;
/// - `VDMs` with the message for DFU mode, for a reboot, for serial mode or for DebugUSB mode, each
///   only where the command line says so;
/// - `DVEn` with the word for serial mode, `DISC` with 3, and `Gaid`, each only where the command
///   line says so.
pub proof fn law_commands_sent(matches: Invocation, replies: Seq<Reply>, i: int)
    requires
        0 <= i < whole_run(matches, replies).0.asked.len(),
        replies[0].answer.well_formed(),
    ensures
        ({
            let asked = whole_run(matches, replies).0.asked;
            let compat = replies[0].answer->Contents_0@;
            let name = decode_utf8(compat.subrange(0, 10));
            let key = encode_utf8(uppercased(name.subrange(6, name.len() as int))).reverse();
            let serial = says(matches.subcommand, "serial"@) || says(
                matches.subcommand,
                "reboot"@,
            ) && says(matches.nested, "serial"@);
            asked[i] matches Request::WriteBlock { reg, data: tag } ==> reg == 0x09 || reg == 0x08
                && {
                let on = given(asked, i);
                ||| tag == seq![0x4cu8, 0x4f, 0x43, 0x4b] && (on == key || on == seq![
                    0u8,
                    0,
                    0,
                    0,
                ])
                ||| tag == seq![0x44u8, 0x42, 0x4d, 0x61] && (on == seq![0u8] || on == seq![1u8])
                ||| tag == seq![0x56u8, 0x44, 0x4d, 0x73] && on == seq![
                    0x33u8, 0x12, 0x80, 0xac, 0x05, 0x06, 0x01, 0, 0, 0, 0, 0x01, 0x80,
                ] && says(matches.subcommand, "dfu"@)
                ||| tag == seq![0x56u8, 0x44, 0x4d, 0x73] && on == seq![
                    0x33u8, 0x12, 0x80, 0xac, 0x05, 0x05, 0x01, 0, 0, 0, 0, 0, 0x80,
                ] && says(matches.subcommand, "reboot"@) && (matches.nested is None || says(
                    matches.nested,
                    "serial"@,
                ) || says(matches.nested, "debugusb"@))
                ||| tag == seq![0x56u8, 0x44, 0x4d, 0x73] && on == seq![
                    0x32u8, 0x12, 0x80, 0xac, 0x05, 0x06, 0x03, 0x84, 0x01,
                ] && serial
                ||| tag == seq![0x56u8, 0x44, 0x4d, 0x73] && on == seq![
                    0x32u8, 0x12, 0x80, 0xac, 0x05, 0x06, 0x46, 0x82, 0x01,
                ] && (says(matches.subcommand, "debugusb"@) || says(
                    matches.subcommand,
                    "reboot debugusb"@,
                ) || says(matches.subcommand, "reboot"@) && says(matches.nested, "debugusb"@))
                ||| tag == seq![0x44u8, 0x56, 0x45, 0x6e] && on == seq![0x06u8, 0x03, 0x84, 0x01]
                    && serial
                ||| tag == seq![0x44u8, 0x49, 0x53, 0x43] && on == seq![3u8] && says(
                    matches.subcommand,
                    "disconnect"@,
                )
                ||| tag == seq![0x47u8, 0x61, 0x69, 0x64] && on.len() == 0 && says(
                    matches.subcommand,
                    "reset-controller"@,
                )
            }
        }),
{
    let r = beginning(replies);
    let s = whole_run(matches, replies).0;
    let compat = replies[0].answer->Contents_0@;
    let name = decode_utf8(compat.subrange(0, 10));
    let key = encode_utf8(uppercased(name.subrange(6, name.len() as int))).reverse();
    let star = VdmSopType::SopStar;
    let p = |tag: Seq<u8>, on: Seq<u8>|
        {
            ||| tag == tag_lock() && (on == key || on == seq![0u8, 0, 0, 0])
            ||| tag == tag_dbma() && (on == seq![0u8] || on == seq![1u8])
            ||| tag == tag_vdms() && on == vdm_data(star, vdos_dfu()) && is_dfu(matches)
            ||| tag == tag_vdms() && on == vdm_data(star, vdos_reboot()) && is_reboot(matches)
            ||| tag == tag_vdms() && on == vdm_data(star, vdos_serial()) && is_serial(matches)
            ||| tag == tag_vdms() && on == vdm_data(star, vdos_debugusb()) && matches.is_debugusb()
            ||| tag == tag_dven() && on == all_le_bytes(vdos_serial().subrange(1, 2)) && is_serial(
                matches,
            )
            ||| tag == tag_disc() && on == seq![3u8] && is_disconnect(matches)
            ||| tag == tag_gaid() && on == Seq::<u8>::empty() && matches.is_reset()
        };
    lemma_message_literals();
    lemma_code(r, 0);
    if let (r1, Ok(code)) = code_run(r) {
        law_machine(compat);
        assert(key_of(code) == key);
        lemma_select(r1, matches, 0);
        if let (r2, Ok((bus, addr))) = select_run(r1, matches) {
            assert(allows_command(p, matches));
            assert(allows_session(p, key_of(code)));
            if matches.is_reset() || matches.is_nop() {
                lemma_serve_only(r2, matches, bus, addr, code, p);
            } else {
                lemma_recover(r2, bus, addr, 0);
                if let (r3, Ok(())) = recover_missing_partner_run(r2, bus, addr) {
                    lemma_serve_only(r3, matches, bus, addr, code, p);
                }
            }
        }
    }
    assert(submits_only(r, s, p));
    assert(s.asked[i] matches Request::WriteBlock { reg, data } ==> reg == 0x09 || reg == 0x08 && p(
        data,
        given(s.asked, i),
    ));
}

} // verus!
