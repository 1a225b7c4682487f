//! What happens in the course of a session with a controller, and in what order.
//!
//! Times are in nanoseconds, registers and bytes are written out.
use crate::cd321x::{key_of, VdmSopType};
use crate::error::Error;
use crate::host::{do_run, sleep_run, Reply, Request, Run, Stop};
use crate::laws::beginning;
use crate::laws_command::{header, law_message, sane};
use crate::laws_submit::{
    given, lemma_drop_only, lemma_exec, lemma_insist, lemma_message, lemma_message_literals,
    lemma_new_ends, lemma_new_only, lemma_reboot_wait_only, lemma_serial_only, submits_only,
    use_words,
};
use crate::laws_wait::{block_at, clock, law_reconnect_wait, read_at, sees_connection};
use crate::protocol::{
    await_connected_run, debugusb_run, grows, new_run, reboot_run, reboot_wait_run, reset_run,
    tag_dbma, tag_disc, tag_dven, tag_gaid, tag_lock, tag_vdms, vdm_data, vdos_debugusb, vdos_dfu,
    vdos_reboot, vdos_serial,
};
use crate::sysfs::{recover_missing_partner_run, reprobe_hpm_run, wait_for_debugusb_run};
use crate::tool::{
    attempt_run, code_run, command_run, execute_command_run, execute_debugusb_run, select_run,
    serve_run, whole_run, Invocation,
};
use crate::trace_tool::{
    lemma_attempt, lemma_await_debugusb, lemma_code, lemma_command, lemma_execute_command,
    lemma_execute_debugusb, lemma_open, lemma_recover, lemma_reprobe, lemma_select, sound,
};
use vstd::prelude::*;

verus! {

/// A reboot that is waited for. Once it is acknowledged, with the `e`th request, there is a pause
/// of 1 s; then the power status is read, every 100 ms, until something is connected; then there is
/// another pause of 1 s, and only that is success. Where nothing is connected 3 s after the first
/// pause, and no read found anything, the wait fails with `ReconnectTimeout`. Before the
/// acknowledgement nothing of this happens.
pub proof fn law_reboot_wait(r: Run) -> (e: int)
    requires
        r.left() >= 0,
        sane(r),
    ensures
        ({
            let (s, end) = reboot_wait_run(r);
            let (n, m) = (r.asked.len() as int, s.asked.len() as int);
            let look = Request::ReadBlock { reg: 0x3f, len: 2 };
            let long = Request::Sleep { nanos: 1_000_000_000 };
            &&& grows(r, s)
            &&& n < e
            &&& forall|i: int| n <= i < m && i <= e ==> #[trigger] s.asked[i] != look
            &&& m > e + 1 ==> {
                &&& s.asked[e] == (Request::ReadBlock { reg: 0x4d, len: 64 })
                &&& read_at(s, e) && header(block_at(s, e)) == 0x5ac8052
                &&& s.asked[e + 1] == long
            }
            &&& forall|i: int|
                e + 1 < i < m ==> {
                    ||| #[trigger] s.asked[i] == look && (i - e) % 2 == 0
                    ||| s.asked[i] == (Request::Sleep { nanos: 100_000_000 }) && (i - e) % 2 == 1
                        && !sees_connection(s, i - 1)
                    ||| s.asked[i] == long && i == m - 1 && end is Ok && sees_connection(s, i - 1)
                }
            &&& match end {
                Ok(()) => e + 2 < m - 1 && s.asked[m - 1] == long && sees_connection(s, m - 2),
                Err(Stop::Fail(Error::ReconnectTimeout)) => e + 1 < m - 1 && clock(s, m) - clock(
                    s,
                    e + 2,
                ) > 3_000_000_000 && forall|i: int| e < i < m ==> !#[trigger] sees_connection(s, i),
                Err(Stop::Fail(_)) => m <= e + 1,
                Err(Stop::Ask(_)) => true,
            }
        }),
{
    let vdos = vdos_reboot();
    let (s, end) = reboot_wait_run(r);
    let m = s.asked.len() as int;
    let (c, k) = law_message(r, VdmSopType::SopStar, vdos);
    let (r1, sent) = reboot_run(r);
    assert(0x5ac8012u32 | 0x40u32 == 0x5ac8052u32) by (bit_vector);
    if sent is Err {
        m + 9
    } else {
        let e = r1.asked.len() - 1;
        if let (r2, Ok(())) = sleep_run(r1, 1_000_000_000) {
            law_reconnect_wait(r2, r2.now());
            let (r3, found) = await_connected_run(r2, r2.now());
            assert(grows(r3, s));
            assert forall|i: int| 0 <= i < r3.asked.len() implies #[trigger] sees_connection(s, i)
                == sees_connection(r3, i) by {}
        }
        assert(grows(r1, s));
        e
    }
}

/// The message that reboots the target, as the `i`th request.
pub open spec fn reboots_at(asked: Seq<Request>, i: int) -> bool {
    &&& asked[i] == (Request::WriteBlock { reg: 0x08, data: seq![0x56u8, 0x44, 0x4d, 0x73] })
    &&& given(asked, i) == seq![
        0x33u8, 0x12, 0x80, 0xac, 0x05, 0x05, 0x01, 0, 0, 0, 0, 0, 0x80,
    ]
}

/// The message that puts the target into serial or DebugUSB mode, as the `i`th request.
pub open spec fn sets_mode_at(asked: Seq<Request>, i: int) -> bool {
    &&& asked[i] == (Request::WriteBlock { reg: 0x08, data: seq![0x56u8, 0x44, 0x4d, 0x73] })
    &&& given(asked, i) == seq![0x32u8, 0x12, 0x80, 0xac, 0x05, 0x06, 0x03, 0x84, 0x01] || given(
        asked,
        i,
    ) == seq![0x32u8, 0x12, 0x80, 0xac, 0x05, 0x06, 0x46, 0x82, 0x01]
}

/// Whether, between the requests `from` and `to`, a message was acknowledged whose first word is
/// 0x5ac8012, then followed a pause of 1 s, then a read of the power status that found something
/// connected, and right after it another pause of 1 s.
pub open spec fn reconnected_between(s: Run, from: int, to: int, e: int, p: int) -> bool {
    &&& from < e && e + 1 < p && p + 1 < to
    &&& s.asked[e] == (Request::ReadBlock { reg: 0x4d, len: 64 })
    &&& read_at(s, e) && header(block_at(s, e)) == 0x5ac8052
    &&& s.asked[e + 1] == (Request::Sleep { nanos: 1_000_000_000 })
    &&& sees_connection(s, p)
    &&& s.asked[p + 1] == (Request::Sleep { nanos: 1_000_000_000 })
}

spec fn no_opening(asked: Seq<Request>, from: int, to: int) -> bool {
    forall|o: int| from < o < to ==> #[trigger] asked[o] !is OpenBus
}

/// Whether, from `r` on, every mode that follows a reboot in the same session follows a reconnect.
spec fn modes_wait(r: Run, s: Run) -> bool {
    forall|c: int, i: int|
        #![trigger s.asked[c], s.asked[i]]
        r.asked.len() <= c < i < s.asked.len() && reboots_at(s.asked, c) && sets_mode_at(s.asked, i)
            && no_opening(s.asked, c, i) ==> exists|e: int, p: int|
            reconnected_between(s, c, i, e, p)
}

/// Whether, from `r` on, the bus is opened before any mode is set.
spec fn opened_first(r: Run, s: Run) -> bool {
    forall|i: int|
        r.asked.len() <= i < s.asked.len() && sets_mode_at(s.asked, i) ==> exists|o: int|
            r.asked.len() <= o < i && #[trigger] s.asked[o] is OpenBus
}

proof fn lemma_calm(r: Run, s: Run)
    requires
        forall|i: int|
            r.asked.len() <= i < s.asked.len() ==> #[trigger] s.asked[i] !is WriteBlock,
    ensures
        modes_wait(r, s),
        opened_first(r, s),
{
}

proof fn lemma_chain(r: Run, r1: Run, s: Run)
    requires
        grows(r, r1),
        grows(r1, s),
        modes_wait(r, r1),
        modes_wait(r1, s),
        opened_first(r, r1),
        opened_first(r1, s),
    ensures
        modes_wait(r, s),
        opened_first(r, s),
{
    assert forall|i: int| 0 <= i < r1.asked.len() implies given(s.asked, i) == given(
        r1.asked,
        i,
    ) by {}
    assert forall|c: int, i: int|
        #![trigger s.asked[c], s.asked[i]]
        r.asked.len() <= c < i < s.asked.len() && reboots_at(s.asked, c) && sets_mode_at(s.asked, i)
            && no_opening(s.asked, c, i) implies exists|e: int, p: int|
        reconnected_between(s, c, i, e, p) by {
        if i < r1.asked.len() {
            assert(r1.asked[c] == s.asked[c] && r1.asked[i] == s.asked[i]);
            assert(given(r1.asked, c) == given(s.asked, c));
            assert(given(r1.asked, i) == given(s.asked, i));
            assert forall|o: int| c < o < i implies #[trigger] r1.asked[o] !is OpenBus by {
                assert(s.asked[o] !is OpenBus);
            }
            let (e, p) = choose|e: int, p: int| reconnected_between(r1, c, i, e, p);
            assert(reconnected_between(s, c, i, e, p));
        } else if c < r1.asked.len() {
            let o = choose|o: int|
                r1.asked.len() <= o < i && #[trigger] s.asked[o] is OpenBus;
            assert(s.asked[o] !is OpenBus);
        }
    }
    assert forall|i: int|
        r.asked.len() <= i < s.asked.len() && sets_mode_at(s.asked, i) implies exists|o: int|
        r.asked.len() <= o < i && #[trigger] s.asked[o] is OpenBus by {
        if i < r1.asked.len() {
            assert(r1.asked[i] == s.asked[i]);
            assert(given(r1.asked, i) == given(s.asked, i));
            assert(sets_mode_at(r1.asked, i));
            let o = choose|o: int| r.asked.len() <= o < i && #[trigger] r1.asked[o] is OpenBus;
            assert(s.asked[o] is OpenBus);
        } else {
            let o = choose|o: int| r1.asked.len() <= o < i && #[trigger] s.asked[o] is OpenBus;
            assert(s.asked[o] is OpenBus);
        }
    }
}

spec fn no_message(tag: Seq<u8>, on: Seq<u8>) -> bool {
    tag != seq![0x56u8, 0x44, 0x4d, 0x73]
}

spec fn no_reboot(tag: Seq<u8>, on: Seq<u8>) -> bool {
    tag == seq![0x56u8, 0x44, 0x4d, 0x73] ==> on != seq![
        0x33u8, 0x12, 0x80, 0xac, 0x05, 0x05, 0x01, 0, 0, 0, 0, 0, 0x80,
    ]
}

spec fn no_mode(tag: Seq<u8>, on: Seq<u8>) -> bool {
    tag == seq![0x56u8, 0x44, 0x4d, 0x73] ==> on != seq![
        0x32u8, 0x12, 0x80, 0xac, 0x05, 0x06, 0x03, 0x84, 0x01,
    ] && on != seq![0x32u8, 0x12, 0x80, 0xac, 0x05, 0x06, 0x46, 0x82, 0x01]
}

pub proof fn lemma_tags_differ()
    ensures
        tag_vdms() == seq![0x56u8, 0x44, 0x4d, 0x73],
        tag_lock() != tag_vdms(),
        tag_dbma() != tag_vdms(),
        tag_disc() != tag_vdms(),
        tag_dven() != tag_vdms(),
        tag_gaid() != tag_vdms(),
        vdm_data(VdmSopType::SopStar, vdos_reboot()) != vdm_data(VdmSopType::SopStar, vdos_dfu()),
        vdm_data(VdmSopType::SopStar, vdos_reboot()).len() == 13,
        vdm_data(VdmSopType::SopStar, vdos_dfu()).len() == 13,
        vdm_data(VdmSopType::SopStar, vdos_serial()).len() == 9,
        vdm_data(VdmSopType::SopStar, vdos_debugusb()).len() == 9,
{
    lemma_message_literals();
    assert(tag_lock()[0] == 0x4c && tag_vdms()[0] == 0x56 && tag_dbma()[0] == 0x44);
    assert(tag_disc()[0] == 0x44 && tag_dven()[0] == 0x44 && tag_gaid()[0] == 0x47);
    assert(vdm_data(VdmSopType::SopStar, vdos_reboot())[5] == 5);
    assert(vdm_data(VdmSopType::SopStar, vdos_dfu())[5] == 6);
}

/// What the command does to a controller that has been taken over: a mode follows a reboot only
/// after a reconnect.
proof fn lemma_command_waits(r: Run, matches: Invocation)
    requires
        r.left() >= 0,
        sane(r),
        r.asked.len() > 0,
        r.asked.last() !is WriteBlock,
    ensures
        modes_wait(r, command_run(r, matches).0),
        grows(r, command_run(r, matches).0),
{
    use_words();
    lemma_message_literals();
    lemma_tags_differ();
    lemma_command(r, matches, 0);
    let s = command_run(r, matches).0;
    let unrebooted = |tag: Seq<u8>, on: Seq<u8>| no_reboot(tag, on);
    let unset = |tag: Seq<u8>, on: Seq<u8>| no_mode(tag, on);
    let word = matches.subcommand;
    if word matches Some(w) && w@ == "reboot"@ {
        if (matches.nested matches Some(v) && (v@ == "serial"@ || v@ == "debugusb"@)) {
            let (r1, waited) = reboot_wait_run(r);
            lemma_reboot_wait_only(r, unset);
            let e = law_reboot_wait(r);
            if waited is Ok {
                let p = r1.asked.len() - 2;
                let vdos = if matches.nested->0@ == "serial"@ {
                    lemma_serial_only(r1, unrebooted);
                    vdos_serial()
                } else {
                    lemma_insist(r1, vdos_debugusb(), r1.now(), unrebooted);
                    vdos_debugusb()
                };
                assert(grows(r1, s));
                assert(submits_only(r1, s, unrebooted));
                assert forall|c: int, i: int|
                    #![trigger s.asked[c], s.asked[i]]
                    r.asked.len() <= c < i < s.asked.len() && reboots_at(s.asked, c)
                        && sets_mode_at(s.asked, i) && no_opening(
                        s.asked,
                        c,
                        i,
                    ) implies exists|e: int, p: int| reconnected_between(s, c, i, e, p) by {
                    if i < r1.asked.len() {
                        assert(r1.asked[i] == s.asked[i]);
                        assert(given(r1.asked, i) == given(s.asked, i));
                        assert(unset(seq![0x56u8, 0x44, 0x4d, 0x73], given(r1.asked, i)));
                    }
                    if c >= r1.asked.len() {
                        assert(unrebooted(seq![0x56u8, 0x44, 0x4d, 0x73], given(s.asked, c)));
                    }
                    assert(c <= e) by {
                        assert(r1.asked[c] == s.asked[c]);
                    }
                    assert(s.asked[e] == r1.asked[e]);
                    assert(c != e);
                    assert(reconnected_between(s, c, i, e, p));
                }
            } else {
                assert(submits_only(r, s, unset));
                lemma_unset(r, s);
            }
        } else if matches.nested is None {
            lemma_message(r, VdmSopType::SopStar, vdos_reboot(), unset);
            lemma_unset(r, s);
        }
    } else {
        assert(submits_only(r, s, unrebooted)) by {
            lemma_message(r, VdmSopType::SopStar, vdos_dfu(), unrebooted);
            lemma_serial_only(r, unrebooted);
            lemma_insist(r, vdos_debugusb(), r.now(), unrebooted);
            lemma_exec(r, tag_disc(), seq![3u8], 1_000_000_000, 0, unrebooted);
            assert(given(reset_run(r).0.asked, r.asked.len() as int)
                =~= Seq::empty());
        }
        lemma_unrebooted(r, s);
    }
}

proof fn lemma_unset(r: Run, s: Run)
    requires
        submits_only(r, s, |tag: Seq<u8>, on: Seq<u8>| no_mode(tag, on)),
    ensures
        modes_wait(r, s),
        forall|i: int|
            r.asked.len() <= i < s.asked.len() ==> !#[trigger] sets_mode_at(s.asked, i),
{
    assert forall|i: int| r.asked.len() <= i < s.asked.len() implies !#[trigger] sets_mode_at(
        s.asked,
        i,
    ) by {
        assert(s.asked[i] == s.asked[i]);
    }
    assert forall|c: int, i: int|
        #![trigger s.asked[c], s.asked[i]]
        r.asked.len() <= c < i < s.asked.len() && reboots_at(s.asked, c) && sets_mode_at(s.asked, i)
            && no_opening(s.asked, c, i) implies exists|e: int, p: int|
        reconnected_between(s, c, i, e, p) by {
        assert(!sets_mode_at(s.asked, i));
    }
}

proof fn lemma_unrebooted(r: Run, s: Run)
    requires
        submits_only(r, s, |tag: Seq<u8>, on: Seq<u8>| no_reboot(tag, on)),
    ensures
        modes_wait(r, s),
{
}

/// A part that begins with the opening of the bus.
proof fn lemma_begins_open(r: Run, s: Run)
    requires
        s.asked.len() > r.asked.len() ==> s.asked[r.asked.len() as int] is OpenBus,
    ensures
        opened_first(r, s),
{
    assert forall|i: int|
        r.asked.len() <= i < s.asked.len() && sets_mode_at(s.asked, i) implies exists|o: int|
        r.asked.len() <= o < i && #[trigger] s.asked[o] is OpenBus by {
        let o = r.asked.len() as int;
        assert(s.asked[o] is OpenBus);
        assert(i != o);
    }
}

/// Where only the middle part of a session sends messages, it is enough that modes wait there.
proof fn lemma_only_middle(r: Run, a: Run, b: Run, s: Run)
    requires
        grows(r, a),
        grows(a, b),
        grows(b, s),
        submits_only(r, a, |tag: Seq<u8>, on: Seq<u8>| no_message(tag, on)),
        submits_only(b, s, |tag: Seq<u8>, on: Seq<u8>| no_message(tag, on)),
        modes_wait(a, b),
    ensures
        modes_wait(r, s),
{
    assert forall|c: int, i: int|
        #![trigger s.asked[c], s.asked[i]]
        r.asked.len() <= c < i < s.asked.len() && reboots_at(s.asked, c) && sets_mode_at(s.asked, i)
            && no_opening(s.asked, c, i) implies exists|e: int, p: int|
        reconnected_between(s, c, i, e, p) by {
        if c < a.asked.len() {
            assert(a.asked[c] == s.asked[c]);
        }
        assert(c >= a.asked.len());
        assert(i < b.asked.len());
        assert(b.asked[c] == s.asked[c] && b.asked[i] == s.asked[i]);
        assert(given(b.asked, c) == given(s.asked, c));
        assert(given(b.asked, i) == given(s.asked, i));
        assert forall|o: int| c < o < i implies #[trigger] b.asked[o] !is OpenBus by {
            assert(s.asked[o] !is OpenBus);
        }
        let (e, p) = choose|e: int, p: int| reconnected_between(b, c, i, e, p);
        assert(reconnected_between(s, c, i, e, p));
    }
}

proof fn lemma_execute_command_waits(
    r: Run,
    matches: Invocation,
    bus: Seq<char>,
    addr: u16,
    code: Seq<char>,
    reset: bool,
)
    requires
        r.left() >= 0,
        sane(r),
    ensures
        modes_wait(r, execute_command_run(r, matches, bus, addr, code, reset).0),
        opened_first(r, execute_command_run(r, matches, bus, addr, code, reset).0),
{
    reveal(execute_command_run);
    lemma_tags_differ();
    let quiet = |tag: Seq<u8>, on: Seq<u8>| no_message(tag, on);
    let key = key_of(code);
    let s = execute_command_run(r, matches, bus, addr, code, reset).0;
    lemma_open(r, bus, addr, 0);
    let (r1, opened) = do_run(r, Request::OpenBus { bus, addr });
    if opened is Ok {
        if reset {
            lemma_command_waits(r1, matches);
            let (r3, done) = command_run(r1, matches);
            lemma_drop_only(r3, true, quiet);
            lemma_only_middle(r, r1, r3, s);
        } else {
            lemma_new_only(r1, key, quiet);
            let (r2, taken) = new_run(r1, key);
            if taken is Ok {
                lemma_new_ends(r1, key);
                lemma_command_waits(r2, matches);
                let (r3, done) = command_run(r2, matches);
                lemma_drop_only(r3, matches.is_reset() && done is Ok, quiet);
                lemma_only_middle(r, r2, r3, s);
            } else {
                lemma_calm(s, s);
                lemma_only_middle(r, s, s, s);
            }
        }
    }
    lemma_begins_open(r, s);
}

proof fn lemma_execute_debugusb_waits(r: Run, bus: Seq<char>, addr: u16, code: Seq<char>)
    requires
        r.left() >= 0,
    ensures
        modes_wait(r, execute_debugusb_run(r, bus, addr, code).0),
        opened_first(r, execute_debugusb_run(r, bus, addr, code).0),
{
    reveal(execute_debugusb_run);
    lemma_tags_differ();
    lemma_message_literals();
    let quiet = |tag: Seq<u8>, on: Seq<u8>| no_message(tag, on);
    let unrebooted = |tag: Seq<u8>, on: Seq<u8>| no_reboot(tag, on);
    let key = key_of(code);
    let s = execute_debugusb_run(r, bus, addr, code).0;
    lemma_open(r, bus, addr, 0);
    let (r1, opened) = do_run(r, Request::OpenBus { bus, addr });
    if opened is Ok {
        lemma_new_only(r1, key, quiet);
        let (r2, taken) = new_run(r1, key);
        if taken is Ok {
            lemma_insist(r2, vdos_debugusb(), r2.now(), unrebooted);
            let r3 = debugusb_run(r2).0;
            lemma_unrebooted(r2, r3);
            lemma_drop_only(r3, false, quiet);
            lemma_only_middle(r, r2, r3, s);
        } else {
            lemma_calm(s, s);
            lemma_only_middle(r, s, s, s);
        }
    }
    lemma_begins_open(r, s);
}

proof fn lemma_reprobe_calm(r: Run, bus: Seq<char>, addr: u16)
    requires
        r.left() >= 0,
    ensures
        modes_wait(r, reprobe_hpm_run(r, bus, addr).0),
        opened_first(r, reprobe_hpm_run(r, bus, addr).0),
        grows(r, reprobe_hpm_run(r, bus, addr).0),
{
    lemma_reprobe(r, bus, addr, 0);
    lemma_calm(r, reprobe_hpm_run(r, bus, addr).0);
}

proof fn lemma_attempt_waits(
    r: Run,
    matches: Invocation,
    bus: Seq<char>,
    addr: u16,
    code: Seq<char>,
)
    requires
        r.left() >= 0,
        sane(r),
    ensures
        modes_wait(r, attempt_run(r, matches, bus, addr, code).0),
        opened_first(r, attempt_run(r, matches, bus, addr, code).0),
{
    let reset = matches.is_reset();
    let s = attempt_run(r, matches, bus, addr, code).0;
    lemma_execute_command_waits(r, matches, bus, addr, code, reset);
    lemma_execute_command(r, matches, bus, addr, code, reset, 0);
    let (r1, first) = execute_command_run(r, matches, bus, addr, code, reset);
    assert(grows(r, r1)) by {
        reveal(sound);
    }
    if r1 != s {
        lemma_reprobe_calm(r1, bus, addr);
        let (r2, probed) = reprobe_hpm_run(r1, bus, addr);
        lemma_chain(r, r1, r2);
        if probed is Ok {
            if matches.is_reboot_debugusb() {
                lemma_execute_debugusb_waits(r2, bus, addr, code);
                lemma_execute_debugusb(r2, bus, addr, code, 0);
            } else {
                lemma_execute_command_waits(r2, matches, bus, addr, code, false);
                lemma_execute_command(r2, matches, bus, addr, code, false, 0);
            }
            assert(grows(r2, s)) by {
                reveal(sound);
            }
            lemma_chain(r, r2, s);
        }
    }
}

proof fn lemma_scan_calm(r: Run)
    requires
        r.left() >= 0,
    ensures
        modes_wait(r, wait_for_debugusb_run(r).0),
        opened_first(r, wait_for_debugusb_run(r).0),
        grows(r, wait_for_debugusb_run(r).0),
{
    lemma_await_debugusb(r, r.now(), Seq::empty(), 0);
    lemma_calm(r, wait_for_debugusb_run(r).0);
}

proof fn lemma_serve_waits(
    r: Run,
    matches: Invocation,
    bus: Seq<char>,
    addr: u16,
    code: Seq<char>,
)
    requires
        r.left() >= 0,
        sane(r),
    ensures
        modes_wait(r, serve_run(r, matches, bus, addr, code).0),
        opened_first(r, serve_run(r, matches, bus, addr, code).0),
        grows(r, serve_run(r, matches, bus, addr, code).0),
{
    let s = serve_run(r, matches, bus, addr, code).0;
    lemma_attempt_waits(r, matches, bus, addr, code);
    lemma_attempt(r, matches, bus, addr, code, 0);
    let (r1, attempted) = attempt_run(r, matches, bus, addr, code);
    assert(grows(r, r1)) by {
        reveal(sound);
    }
    if attempted is Ok && matches.is_debugusb() {
        lemma_scan_calm(r1);
        let (r2, found) = wait_for_debugusb_run(r1);
        lemma_chain(r, r1, r2);
        if found == Ok::<Option<Seq<char>>, Stop>(None) && !attempted->Ok_0 {
            lemma_reprobe_calm(r2, bus, addr);
            let (r3, probed) = reprobe_hpm_run(r2, bus, addr);
            lemma_chain(r, r2, r3);
            if probed is Ok {
                lemma_execute_debugusb_waits(r3, bus, addr, code);
                lemma_execute_debugusb(r3, bus, addr, code, 0);
                let (r4, armed) = execute_debugusb_run(r3, bus, addr, code);
                assert(grows(r3, r4)) by {
                    reveal(sound);
                }
                lemma_chain(r, r3, r4);
                if armed is Ok {
                    lemma_scan_calm(r4);
                    lemma_chain(r, r4, s);
                }
            }
        }
    }
}

/// After a reboot, no mode is set before the target is back. Wherever, in one session, the message
/// for serial or DebugUSB mode is submitted after the message that reboots the target, the reboot
/// was acknowledged in between, then followed a pause of 1 s, then a read of the power status that
/// found the target connected, and right after it another pause of 1 s.
pub proof fn law_mode_after_reconnect(
    matches: Invocation,
    replies: Seq<Reply>,
    c: int,
    i: int,
) -> (ep: (int, int))
    requires
        sane(beginning(replies)),
        0 < c < i < whole_run(matches, replies).0.asked.len(),
        ({
            let asked = whole_run(matches, replies).0.asked;
            let vdms = Request::WriteBlock { reg: 0x08, data: seq![0x56u8, 0x44, 0x4d, 0x73] };
            &&& asked[c] == vdms
            &&& asked[c - 1] == (Request::WriteBlock {
                reg: 0x09,
                data: seq![0x33u8, 0x12, 0x80, 0xac, 0x05, 0x05, 0x01, 0, 0, 0, 0, 0, 0x80],
            })
            &&& asked[i] == vdms
            &&& asked[i - 1] == (Request::WriteBlock {
                reg: 0x09,
                data: seq![0x32u8, 0x12, 0x80, 0xac, 0x05, 0x06, 0x46, 0x82, 0x01],
            }) || asked[i - 1] == (Request::WriteBlock {
                reg: 0x09,
                data: seq![0x32u8, 0x12, 0x80, 0xac, 0x05, 0x06, 0x03, 0x84, 0x01],
            })
            &&& forall|o: int| c < o < i ==> #[trigger] asked[o] !is OpenBus
        }),
    ensures
        ({
            let s = whole_run(matches, replies).0;
            let (e, p) = ep;
            &&& c < e && e + 1 < p && p + 1 < i
            &&& s.asked[e] == (Request::ReadBlock { reg: 0x4d, len: 64 })
            &&& read_at(s, e) && header(block_at(s, e)) == 0x5ac8052
            &&& s.asked[e + 1] == (Request::Sleep { nanos: 1_000_000_000 })
            &&& s.asked[p] == (Request::ReadBlock { reg: 0x3f, len: 2 })
            &&& read_at(s, p) && block_at(s, p)[0] % 2 == 1
            &&& s.asked[p + 1] == (Request::Sleep { nanos: 1_000_000_000 })
        }),
{
    let r = beginning(replies);
    let s = whole_run(matches, replies).0;
    lemma_code(r, 0);
    let (r1, code) = code_run(r);
    lemma_calm(r, r1);
    if code is Ok {
        lemma_select(r1, matches, 0);
        let (r2, chosen) = select_run(r1, matches);
        lemma_calm(r1, r2);
        lemma_chain(r, r1, r2);
        if let Ok((bus, addr)) = chosen {
            if matches.is_reset() || matches.is_nop() {
                lemma_serve_waits(r2, matches, bus, addr, code->Ok_0);
                lemma_chain(r, r2, s);
            } else {
                lemma_recover(r2, bus, addr, 0);
                let (r3, recovered) = recover_missing_partner_run(r2, bus, addr);
                lemma_calm(r2, r3);
                lemma_chain(r, r2, r3);
                if recovered is Ok {
                    lemma_serve_waits(r3, matches, bus, addr, code->Ok_0);
                    lemma_chain(r, r3, s);
                }
            }
        }
    }
    assert(modes_wait(r, s));
    assert(reboots_at(s.asked, c) && sets_mode_at(s.asked, i));
    assert(no_opening(s.asked, c, i));
    assert(s.asked[c] == s.asked[c] && s.asked[i] == s.asked[i]);
    choose|e: int, p: int| reconnected_between(s, c, i, e, p)
}

} // verus!
