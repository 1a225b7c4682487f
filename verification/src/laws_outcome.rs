//! What a command line comes to: which steps are taken for it, what is tried again, and how it
//! ends.
use crate::cd321x::{key_of, VdmSopType};
use crate::error::Error;
use crate::host::{ask_run, do_run, sleep_run, Answer, Reply, Request, Run, Stop};
use crate::laws_command::{law_message, sane};
use crate::laws_recovery::lemma_asked;
use crate::laws_session::{lemma_tags_differ, reboots_at};
use crate::laws_steps::{law_takeover, law_use_ends};
use crate::laws_submit::{given, lemma_drop_only, lemma_new_only, says, use_words};
use crate::laws_wait::{failed_with, law_reconnect_wait};
use crate::path::joined;
use crate::protocol::{
    await_connected_run, debugusb_run, disconnect_run, drop_run, grows, insist_run, new_run, reboot_run,
    reboot_wait_run, reset_run, serial_run, vdms_run, vdos_debugusb, vdos_dfu, vdos_reboot,
};
use crate::sysfs::{
    best_connector, i2c_dev_of, recover_missing_partner_run, reprobe_hpm_run, wait_for_debugusb_run,
};
use crate::text::{lowered, uppercased};
use crate::tool::{
    address_of, apple_device_of, attempt_run, code_run, command_run, drive_run, execute_command_run,
    execute_debugusb_run, find_run, select_run, serve_run, whole_run, Invocation,
};
use crate::trace_device::{lemma_debugusb, lemma_new};
use crate::trace_tool::{lemma_command, lemma_execute_command, sound};
use vstd::prelude::*;

verus! {

/// What is done to a controller that has been taken over, word by word of the command line. A
/// command line that says none of them does nothing to it.
pub proof fn law_words(r: Run, matches: Invocation)
    ensures
        ({
            let (word, more) = (matches.subcommand, matches.nested);
            let done = command_run(r, matches);
            let waited = reboot_wait_run(r);
            let whole = seq![0x5ac8012u32, 0x1824606];
            &&& says(word, "dfu"@) ==> done == vdms_run(
                r,
                VdmSopType::SopStar,
                seq![0x5ac8012u32, 0x106, 0x80010000],
            )
            &&& says(word, "reboot"@) && more is None ==> done == vdms_run(
                r,
                VdmSopType::SopStar,
                seq![0x5ac8012u32, 0x105, 0x80000000],
            )
            &&& says(word, "reboot"@) && says(more, "serial"@) ==> if waited.1 is Ok {
                done == serial_run(waited.0)
            } else {
                done == waited
            }
            &&& says(word, "reboot"@) && says(more, "debugusb"@) ==> if waited.1 is Ok {
                done == insist_run(waited.0, whole, waited.0.now())
            } else {
                done == waited
            }
            &&& says(word, "serial"@) ==> done == serial_run(r)
            &&& says(word, "debugusb"@) ==> done == insist_run(r, whole, r.now())
            &&& says(word, "disconnect"@) ==> done == disconnect_run(r)
            &&& says(word, "reset-controller"@) ==> done == reset_run(r)
            &&& !says(word, "dfu"@) && !says(word, "serial"@) && !says(word, "debugusb"@) && !says(
                word,
                "disconnect"@,
            ) && !says(word, "reset-controller"@) && (!says(word, "reboot"@) || more is Some
                && !says(more, "serial"@) && !says(more, "debugusb"@)) ==> done == (
                r,
                Ok::<(), Stop>(()),
            )
        }),
{
    use_words();
    assert(vdos_dfu() =~= seq![0x5ac8012u32, 0x106, 0x80010000]);
    assert(vdos_reboot() =~= seq![0x5ac8012u32, 0x105, 0x80000000]);
    assert(vdos_debugusb() =~= seq![0x5ac8012u32, 0x1824606]);
}

/// A reboot that is waited for submits one message and no other: the one that reboots the target,
/// as the request `c`. There is no success without it.
pub proof fn law_reboot_sent(r: Run) -> (c: int)
    requires
        r.left() >= 0,
        sane(r),
    ensures
        ({
            let (s, end) = reboot_wait_run(r);
            let (n, m) = (r.asked.len() as int, s.asked.len() as int);
            &&& grows(r, s)
            &&& n < c
            &&& m > c ==> reboots_at(s.asked, c)
            &&& end is Ok ==> m > c
            &&& forall|i: int|
                n <= i < m ==> (#[trigger] s.asked[i] matches Request::WriteBlock { reg, .. } ==> reg
                    == 0x09 || i == c)
        }),
{
    let vdos = vdos_reboot();
    let (s, end) = reboot_wait_run(r);
    let (n, m) = (r.asked.len() as int, s.asked.len() as int);
    let (c, k) = law_message(r, VdmSopType::SopStar, vdos);
    let (r1, sent) = reboot_run(r);
    if sent is Ok {
        if let (r2, Ok(())) = sleep_run(r1, 1_000_000_000) {
            law_reconnect_wait(r2, r2.now());
            assert(grows(r2, await_connected_run(r2, r2.now()).0));
        }
    }
    assert(grows(r1, s));
    assert(forall|i: int| r1.asked.len() <= i < m ==> #[trigger] s.asked[i] !is WriteBlock);
    if r1.asked.len() > c {
        let data = given(r1.asked, c);
        assert(vdos[0] == 0x5ac8012 && vdos[1] == 0x105 && vdos[2] == 0x80000000);
        assert(data =~= seq![0x33u8, 0x12, 0x80, 0xac, 0x05, 0x05, 0x01, 0, 0, 0, 0, 0, 0x80]);
        assert(given(s.asked, c) == data);
    }
    c
}

/// How a part that is followed by nothing else is handed on.
pub open spec fn handed_on<T>(end: Result<T, Stop>) -> Result<(), Stop> {
    match end {
        Ok(_) => Ok(()),
        Err(stop) => Err(stop),
    }
}

/// A session begins with the opening of the bus. Where that works, and the controller is not one to
/// be reset, it is taken over; only where that works, the command is done to it; and then its use
/// ends, whatever came of the command, and with the bus closed. What came of the command is what
/// comes of the session.
pub proof fn law_session(
    r: Run,
    matches: Invocation,
    bus: Seq<char>,
    addr: u16,
    code: Seq<char>,
    reset_controller: bool,
)
    requires
        r.left() >= 0,
    ensures
        ({
            let (s, end) = execute_command_run(r, matches, bus, addr, code, reset_controller);
            let (n, m) = (r.asked.len() as int, s.asked.len() as int);
            let opening = Request::OpenBus { bus, addr };
            let (r1, opened) = do_run(r, opening);
            let (r2, taken) = if reset_controller {
                (r1, opened)
            } else {
                new_run(r1, key_of(code))
            };
            let (r3, done) = command_run(r2, matches);
            &&& m == n ==> end == Err::<(), Stop>(Stop::Ask(opening))
            &&& m > n ==> s.asked[n] == opening
            &&& opened is Err ==> s == r1 && end == opened
            &&& opened is Ok && taken is Err ==> s == r2 && end == taken
            &&& opened is Ok && taken is Ok ==> {
                &&& grows(r3, s)
                &&& done matches Err(Stop::Ask(_)) ==> s == r3 && end == done
                &&& !(done matches Err(Stop::Ask(_))) ==> {
                    ||| end is Err && end->Err_0 is Ask
                    ||| end == done && m > n && s.asked[m - 1] == Request::CloseBus
                }
                &&& reset_controller || says(matches.subcommand, "reset-controller"@) && done is Ok
                    ==> m <= r3.asked.len() + 1
                &&& !reset_controller && !(says(matches.subcommand, "reset-controller"@)
                    && done is Ok) && !(done matches Err(Stop::Ask(_))) ==> s == drop_run(
                    r3,
                    false,
                ).0
            }
        }),
{
    reveal(execute_command_run);
    let (r1, opened) = do_run(r, Request::OpenBus { bus, addr });
    if opened is Ok {
        law_takeover(r1, key_of(code));
        lemma_new(r1, key_of(code), 0);
        let (r2, taken) = if reset_controller {
            (r1, opened)
        } else {
            new_run(r1, key_of(code))
        };
        if taken is Ok {
            lemma_command(r2, matches, 0);
            let (r3, done) = command_run(r2, matches);
            law_use_ends(r3, true);
            law_use_ends(r3, false);
        }
    }
}

/// A session for DebugUSB mode alone begins with the opening of the bus, and the controller is taken
/// over; only where that works, the message for DebugUSB mode is insisted on, and then the use of the
/// controller ends, whatever came of the message. What came of that is what comes of the session.
pub proof fn law_debugusb_session(r: Run, bus: Seq<char>, addr: u16, code: Seq<char>)
    requires
        r.left() >= 0,
    ensures
        ({
            let (s, end) = execute_debugusb_run(r, bus, addr, code);
            let (n, m) = (r.asked.len() as int, s.asked.len() as int);
            let opening = Request::OpenBus { bus, addr };
            let (r1, opened) = do_run(r, opening);
            let (r2, taken) = new_run(r1, key_of(code));
            let (r3, done) = insist_run(r2, seq![0x5ac8012u32, 0x1824606], r2.now());
            &&& m == n ==> end == Err::<(), Stop>(Stop::Ask(opening))
            &&& m > n ==> s.asked[n] == opening
            &&& opened is Err ==> s == r1 && end == opened
            &&& opened is Ok && taken is Err ==> s == r2 && end == taken
            &&& opened is Ok && taken is Ok ==> {
                &&& grows(r3, s)
                &&& done matches Err(Stop::Ask(_)) ==> s == r3 && end == done
                &&& !(done matches Err(Stop::Ask(_))) ==> s == drop_run(r3, false).0 && {
                    ||| end is Err && end->Err_0 is Ask
                    ||| end == done && m > n && s.asked[m - 1] == Request::CloseBus
                }
            }
        }),
{
    reveal(execute_debugusb_run);
    assert(vdos_debugusb() =~= seq![0x5ac8012u32, 0x1824606]);
    let (r1, opened) = do_run(r, Request::OpenBus { bus, addr });
    if opened is Ok {
        law_takeover(r1, key_of(code));
        lemma_new(r1, key_of(code), 0);
        let (r2, taken) = new_run(r1, key_of(code));
        if taken is Ok {
            lemma_debugusb(r2, 0);
            law_use_ends(debugusb_run(r2).0, false);
        }
    }
}

/// What is tried again. A session that ends with a message not replied to is followed, unless the
/// controller is to be reset or nothing is to be done, by probing the controller again and by one
/// more session; that one is for DebugUSB mode alone where the target has been told to reboot into
/// it. What comes of that is what comes of it all. A session that ends in any other way is
/// the only one.
pub proof fn law_tried_again(
    r: Run,
    matches: Invocation,
    bus: Seq<char>,
    addr: u16,
    code: Seq<char>,
)
    ensures
        ({
            let word = matches.subcommand;
            let reset = says(word, "reset-controller"@);
            let (s, end) = attempt_run(r, matches, bus, addr, code);
            let first = execute_command_run(r, matches, bus, addr, code, reset);
            let probed = reprobe_hpm_run(first.0, bus, addr);
            let again = if says(word, "reboot debugusb"@) || says(word, "reboot"@) && says(
                matches.nested,
                "debugusb"@,
            ) {
                execute_debugusb_run(probed.0, bus, addr, code)
            } else {
                execute_command_run(probed.0, matches, bus, addr, code, false)
            };
            let last = if first.1 != Err::<(), Stop>(Stop::Fail(Error::VdmReplyTimeout)) || reset
                || says(word, "nop"@) {
                first
            } else if probed.1 is Err {
                probed
            } else {
                again
            };
            &&& (s, handed_on(end)) == last
            &&& last == first ==> end != Ok::<bool, Stop>(true)
        }),
{
    use_words();
    let word = matches.subcommand;
    let reset = says(word, "reset-controller"@);
    let first = execute_command_run(r, matches, bus, addr, code, reset);
    assert(matches.is_reset() == reset);
    assert(matches.is_nop() == says(word, "nop"@));
    if first.1 == Err::<(), Stop>(Stop::Fail(Error::VdmReplyTimeout)) && !reset && !says(
        word,
        "nop"@,
    ) {
        let end = attempt_run(r, matches, bus, addr, code).1;
        assert(handed_on(first.1) is Err);
    }
}

/// What follows the command: only for DebugUSB mode there is anything, namely the wait for its
/// function. Where that is seen, all is done. Where it is not, and DebugUSB mode was not tried a
/// second time before, the controller is probed again, DebugUSB mode is set once more, in a session
/// of its own, and the function is waited for once more. Where it is still not seen, or
/// DebugUSB mode was tried twice before, the tool gives up with `DebugUsbEnumerationTimeout`.
pub proof fn law_confirmed(
    r: Run,
    matches: Invocation,
    bus: Seq<char>,
    addr: u16,
    code: Seq<char>,
)
    ensures
        ({
            let word = matches.subcommand;
            let wanted = says(word, "debugusb"@) || says(word, "reboot debugusb"@) || says(
                word,
                "reboot"@,
            ) && says(matches.nested, "debugusb"@);
            let gone = Err::<(), Stop>(Stop::Fail(Error::DebugUsbEnumerationTimeout));
            let end = serve_run(r, matches, bus, addr, code);
            let (r1, tried) = attempt_run(r, matches, bus, addr, code);
            let (r2, seen) = wait_for_debugusb_run(r1);
            let (r3, probed) = reprobe_hpm_run(r2, bus, addr);
            let (r4, armed) = execute_debugusb_run(r3, bus, addr, code);
            let (r5, seen_then) = wait_for_debugusb_run(r4);
            end == if tried is Err || !wanted {
                (r1, handed_on(tried))
            } else if seen is Err || seen->Ok_0 is Some {
                (r2, handed_on(seen))
            } else if tried == Ok::<bool, Stop>(true) {
                (r2, gone)
            } else if probed is Err {
                (r3, probed)
            } else if armed is Err {
                (r4, armed)
            } else if seen_then is Err || seen_then->Ok_0 is Some {
                (r5, handed_on(seen_then))
            } else {
                (r5, gone)
            }
        }),
{
}

/// Where the command line wants the controller reset, or nothing done, nothing is done about its
/// partner. Else a missing partner is recovered first, and where that fails nothing follows.
pub proof fn law_recovered_first(
    r: Run,
    matches: Invocation,
    bus: Seq<char>,
    addr: u16,
    code: Seq<char>,
)
    ensures
        ({
            let word = matches.subcommand;
            let (r1, recovered) = recover_missing_partner_run(r, bus, addr);
            drive_run(r, matches, bus, addr, code) == if says(word, "reset-controller"@) || says(
                word,
                "nop"@,
            ) {
                serve_run(r, matches, bus, addr, code)
            } else if recovered is Err {
                (r1, recovered)
            } else {
                serve_run(r1, matches, bus, addr, code)
            }
        }),
{
}

/// The message that puts the target into DebugUSB mode, as the `i`th request.
pub open spec fn arms_at(asked: Seq<Request>, i: int) -> bool {
    &&& asked[i] == (Request::WriteBlock { reg: 0x08, data: seq![0x56u8, 0x44, 0x4d, 0x73] })
    &&& given(asked, i) == seq![0x32u8, 0x12, 0x80, 0xac, 0x05, 0x06, 0x46, 0x82, 0x01]
}

/// Where DebugUSB mode was not replied to, it was submitted.
proof fn lemma_unanswered(r: Run, start: u64) -> (c: int)
    requires
        r.left() >= 0,
        sane(r),
        insist_run(r, vdos_debugusb(), start).1 == Err::<(), Stop>(
            Stop::Fail(Error::VdmReplyTimeout),
        ),
    ensures
        ({
            let s = insist_run(r, vdos_debugusb(), start).0;
            &&& grows(r, s)
            &&& r.asked.len() <= c < s.asked.len()
            &&& arms_at(s.asked, c)
        }),
    decreases r.left(),
{
    let vdos = vdos_debugusb();
    let s = insist_run(r, vdos, start).0;
    let (c, k) = law_message(r, VdmSopType::SopStar, vdos);
    let (r1, sent) = vdms_run(r, VdmSopType::SopStar, vdos);
    if sent == Err::<(), Stop>(Stop::Fail(Error::ControllerTimeout)) {
        lemma_unanswered(sleep_run(r1, 20_000_000).0, start)
    } else {
        assert(vdos[0] == 0x5ac8012 && vdos[1] == 0x1824606);
        assert(given(s.asked, c) =~= seq![0x32u8, 0x12, 0x80, 0xac, 0x05, 0x06, 0x46, 0x82, 0x01]);
        c
    }
}

proof fn lemma_arms_kept(r: Run, s: Run)
    requires
        grows(r, s),
    ensures
        forall|i: int|
            0 <= i < r.asked.len() ==> #[trigger] arms_at(s.asked, i) == arms_at(r.asked, i),
{
    assert forall|i: int| 0 <= i < r.asked.len() implies #[trigger] arms_at(s.asked, i) == arms_at(
        r.asked,
        i,
    ) by {
        assert(s.asked[i] == r.asked[i]);
        assert(given(s.asked, i) == given(r.asked, i));
    }
}

/// DebugUSB mode counts as tried twice, which is the end of it, just where the command was tried
/// again and succeeded, and its first session had submitted DebugUSB mode, as the request `c`: not
/// where that session got no further than the reboot.
pub proof fn law_tried_twice(
    r: Run,
    matches: Invocation,
    bus: Seq<char>,
    addr: u16,
    code: Seq<char>,
) -> (c: int)
    requires
        r.left() >= 0,
        sane(r),
        says(matches.subcommand, "debugusb"@) || says(matches.subcommand, "reboot"@) && says(
            matches.nested,
            "debugusb"@,
        ),
    ensures
        ({
            let end = attempt_run(r, matches, bus, addr, code).1;
            let (s, first) = execute_command_run(r, matches, bus, addr, code, false);
            &&& grows(r, s)
            &&& end == Ok::<bool, Stop>(true) ==> first is Err && r.asked.len() <= c
                < s.asked.len() && arms_at(s.asked, c)
            &&& end == Ok::<bool, Stop>(false) && first is Err ==> forall|i: int|
                r.asked.len() <= i < s.asked.len() ==> !#[trigger] arms_at(s.asked, i)
        }),
{
    use_words();
    lemma_tags_differ();
    law_words(r, matches);
    law_session(r, matches, bus, addr, code, false);
    lemma_execute_command(r, matches, bus, addr, code, false, 0);
    reveal(sound);
    let end = attempt_run(r, matches, bus, addr, code).1;
    let (s, first) = execute_command_run(r, matches, bus, addr, code, false);
    let quiet = |tag: Seq<u8>, on: Seq<u8>| tag != seq![0x56u8, 0x44, 0x4d, 0x73];
    let key = key_of(code);
    let (r1, opened) = do_run(r, Request::OpenBus { bus, addr });
    if opened is Ok && first == Err::<(), Stop>(Stop::Fail(Error::VdmReplyTimeout)) {
        lemma_new_only(r1, key, quiet);
        let (r2, taken) = new_run(r1, key);
        if taken is Ok {
            law_words(r2, matches);
            lemma_command(r2, matches, 0);
            let (r3, done) = command_run(r2, matches);
            lemma_drop_only(r3, false, quiet);
            lemma_arms_kept(r3, s);
            let waited = reboot_wait_run(r2);
            let whole = seq![0x5ac8012u32, 0x1824606];
            assert(vdos_debugusb() =~= whole);
            if says(matches.subcommand, "debugusb"@) {
                lemma_unanswered(r2, r2.now())
            } else {
                let c = law_reboot_sent(r2);
                if waited.1 is Ok {
                    lemma_unanswered(waited.0, waited.0.now())
                } else {
                    assert forall|i: int| r.asked.len() <= i < s.asked.len() implies
                        !#[trigger] arms_at(s.asked, i) by {
                        if i < r2.asked.len() {
                            lemma_arms_kept(r2, s);
                            assert(r2.asked[i] == s.asked[i]);
                        } else if i < r3.asked.len() {
                            assert(r3.asked[i] == s.asked[i]);
                            if i == c {
                                assert(given(r3.asked, i)[0] == 0x33);
                                assert(given(s.asked, i) == given(r3.asked, i));
                            }
                        }
                    }
                    c
                }
            }
        } else {
            0
        }
    } else {
        0
    }
}

/// The machine is found out first, with one read. A machine that is none of those the tool is for
/// ends the run there.
pub proof fn law_machine_first(r: Run)
    requires
        r.left() >= 0,
    ensures
        ({
            let (s, end) = code_run(r);
            let n = r.asked.len() as int;
            match end {
                Err(Stop::Ask(q)) => s == r && q == Request::ReadCompatible,
                _ => grows(r, s) && s.asked == r.asked.push(Request::ReadCompatible) && (
                match s.replies[n].answer {
                    Answer::Contents(compat) => match apple_device_of(compat@) {
                        Ok(name) => end == Ok::<Seq<char>, Stop>(uppercased(name)),
                        Err(e) => end == Err::<Seq<char>, Stop>(Stop::Fail(e)),
                    },
                    _ => end matches Err(Stop::Fail(e)) && failed_with(s, n, e),
                }),
            }
        }),
{
    lemma_asked(r, Request::ReadCompatible);
}

/// The controller behind a connector is found out from the list of connectors and then from the
/// link of the port to its device, and from nothing else. Where no connector is meant, or there is
/// no such device, or it is none on an I2C bus, there is `DeviceNotFound`, and nothing more is
/// looked at.
pub proof fn law_found(r: Run, connector: Seq<char>)
    requires
        r.left() >= 0,
    ensures
        ({
            let (s, end) = find_run(r, connector);
            let (n, m) = (r.asked.len() as int, s.asked.len() as int);
            let absent = Err::<(Seq<char>, u16), Stop>(Stop::Fail(Error::DeviceNotFound));
            &&& grows(r, s) && m <= n + 2
            &&& m == n ==> end == Err::<(Seq<char>, u16), Stop>(Stop::Ask(Request::ListConnectors))
            &&& m > n ==> s.asked[n] == Request::ListConnectors
            &&& m > n ==> match s.replies[n].answer {
                Answer::Connectors(list) => match best_connector(list@, lowered(connector)) {
                    None => m == n + 1 && end == absent,
                    Some(i) => {
                        let asking = Request::ResolvePort {
                            link: joined(joined("/sys/class/typec"@, list@[i].port@), "device"@),
                        };
                        &&& m == n + 1 ==> end == Err::<(Seq<char>, u16), Stop>(Stop::Ask(asking))
                        &&& m == n + 2 ==> s.asked[n + 1] == asking && match s.replies[n + 1].answer {
                            Answer::DevicePath(Some(path)) => match i2c_dev_of(path@) {
                                Some(dev) => end == Ok::<(Seq<char>, u16), Stop>(dev),
                                None => end == absent,
                            },
                            Answer::DevicePath(None) => end == absent,
                            _ => end matches Err(Stop::Fail(e)) && failed_with(s, n + 1, e),
                        }
                    },
                },
                _ => m == n + 1 && (end matches Err(Stop::Fail(e)) && failed_with(s, n, e)),
            }
        }),
{
    lemma_asked(r, Request::ListConnectors);
    if let (r1, Ok(Answer::Connectors(list))) = ask_run(r, Request::ListConnectors) {
        if let Some(i) = best_connector(list@, lowered(connector)) {
            let link = joined(joined("/sys/class/typec"@, list@[i].port@), "device"@);
            lemma_asked(r1, Request::ResolvePort { link });
        }
    }
}

/// Which controller is meant: where a connector is named, the one behind it, and only where none is
/// named, the one with the bus and the address of the command line.
pub proof fn law_meant(r: Run, matches: Invocation)
    ensures
        select_run(r, matches) == match matches.connector {
            Some(connector) => find_run(r, connector@),
            None => match address_of(matches.address@) {
                Ok(addr) => (r, Ok::<(Seq<char>, u16), Stop>((matches.bus@, addr))),
                Err(e) => (r, Err::<(Seq<char>, u16), Stop>(Stop::Fail(e))),
            },
        },
{
}

/// The whole run: the machine is found out, then the controller, and then the controller is worked
/// on. Where one of these fails, the run ends with it.
pub proof fn law_in_order(matches: Invocation, replies: Seq<Reply>)
    ensures
        ({
            let (r1, code) = code_run(Run { replies, asked: Seq::empty() });
            let (r2, dev) = select_run(r1, matches);
            whole_run(matches, replies) == if code is Err {
                (r1, handed_on(code))
            } else if dev is Err {
                (r2, handed_on(dev))
            } else {
                drive_run(r2, matches, dev->Ok_0.0, dev->Ok_0.1, code->Ok_0)
            }
        }),
{
}

} // verus!
