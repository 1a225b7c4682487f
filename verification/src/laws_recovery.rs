//! What is done to make Linux see the partner of a controller again.
//!
//! Times are in nanoseconds, paths are written out.
use crate::host::{ask_run, do_run, sleep_run, Answer, Request, Run, Stop};
use crate::laws_choice::law_hex_digits;
use crate::laws_text::law_hpm_id;
use crate::laws_wait::{
    clock, failed_with, law_partner_wait, lemma_failed, lemma_shows_partner, shows_partner,
};
use crate::path::{file_name_of, joined};
use crate::protocol::grows;
use crate::sysfs::{
    driver_run, exists_run, partner_run, recover_missing_partner_run, reprobe_hpm_run, sysfs_device,
};
use crate::text::hex4;
use crate::trace_tool::{hpm_id, lemma_recover, lemma_reprobe};
use vstd::prelude::*;

verus! {

/// Whether the driver in the `i`th reply is one called `tps6598x`, and is at `path`.
pub open spec fn names_driver(s: Run, i: int, path: Seq<char>) -> bool {
    s.replies[i].answer matches Answer::Driver(Some(p)) && p@ == path && file_name_of(path) == Some(
        "tps6598x"@,
    )
}

/// The device of a controller in sysfs ends in a digit, so it is joined to by a `/`.
proof fn lemma_device(bus: Seq<char>, addr: u16)
    requires
        sysfs_device(bus, addr) is Some,
    ensures
        ({
            let d = sysfs_device(bus, addr)->0;
            &&& d.len() > 0 && d.last() != '/'
            &&& joined(d, "driver"@) == d + "/driver"@
            &&& joined(d, "typec"@) == d + "/typec"@
            &&& d == "/sys/bus/i2c/devices/"@ + hpm_id(bus, addr)
            &&& file_name_of(d) == Some(hpm_id(bus, addr))
        }),
{
    law_hpm_id(bus, addr);
    let d = sysfs_device(bus, addr)->0;
    let id = hpm_id(bus, addr);
    assert(d =~= "/sys/bus/i2c/devices/"@ + id);
    let h = hex4(addr);
    assert(d.last() == h[3]);
    law_hex_digits(addr, 3);
    reveal_strlit("/driver");
    reveal_strlit("/typec");
    reveal_strlit("driver");
    reveal_strlit("typec");
    reveal_strlit("/");
    assert("/driver"@ =~= "/"@ + "driver"@);
    assert("/typec"@ =~= "/"@ + "typec"@);
    assert(d + "/"@ + "driver"@ =~= d + "/driver"@);
    assert(d + "/"@ + "typec"@ =~= d + "/typec"@);
}

/// A request: what it leaves behind.
pub proof fn lemma_asked(r: Run, q: Request)
    requires
        r.left() >= 0,
    ensures
        match ask_run(r, q) {
            (s, Ok(a)) => grows(r, s) && s.asked == r.asked.push(q) && a
                == r.replies[r.asked.len() as int].answer && a.answers(q) && a !is Failed,
            (s, Err(Stop::Fail(e))) => grows(r, s) && s.asked == r.asked.push(q) && failed_with(
                s,
                r.asked.len() as int,
                e,
            ),
            (s, Err(Stop::Ask(a))) => s == r && a == q,
        },
{
    if r.has_answer(q) {
        if let Answer::Failed(f) = r.replies[r.asked.len() as int].answer {
            lemma_failed(ask_run(r, q).0, r.asked.len() as int, f);
        }
    }
}

/// Probing a controller again, for the device that stands for it in sysfs, called `id` there: it is
/// looked whether the device exists, and where its driver is. Where the device does not exist, or
/// its driver is not one called `tps6598x`, that is all, and no failure. Else `id` is written to
/// the file `unbind` of that driver, there is a pause of 250 ms, and `id` is written to its file
/// `bind`; then a partner is looked for, every 100 ms, for 3 s, and it is no failure if none comes.
/// Only what the host reports as failed fails. A bus that is not in sysfs is left alone.
pub proof fn law_reprobe(r: Run, bus: Seq<char>, addr: u16, driver: Seq<char>)
    requires
        r.left() >= 0,
    ensures
        sysfs_device(bus, addr) is None ==> reprobe_hpm_run(r, bus, addr) == (
            r,
            Ok::<(), Stop>(()),
        ),
        sysfs_device(bus, addr) matches Some(d) ==> {
            let (s, end) = reprobe_hpm_run(r, bus, addr);
            let (n, m) = (r.asked.len() as int, s.asked.len() as int);
            let id = file_name_of(d)->0;
            let listing = Request::ListPorts { dir: d + "/typec"@ };
            &&& grows(r, s)
            &&& d == "/sys/bus/i2c/devices/"@ + id
            &&& m == n ==> end == Err::<(), Stop>(Stop::Ask(Request::Exists { path: d }))
            &&& m > n ==> s.asked[n] == (Request::Exists { path: d })
            &&& m > n ==> (s.replies[n].answer == Answer::Present(false) <==> m == n + 1
                && end is Ok)
            &&& m > n + 1 ==> s.asked[n + 1] == (Request::ResolveDriver { link: d + "/driver"@ })
                && s.replies[n].answer == Answer::Present(true)
            &&& m > n + 1 && names_driver(s, n + 1, driver) ==> {
                &&& m == n + 2 ==> end == Err::<(), Stop>(
                    Stop::Ask(Request::WriteDriver { file: joined(driver, "unbind"@), id }),
                )
                &&& m > n + 2 ==> s.asked[n + 2] == (Request::WriteDriver {
                    file: joined(driver, "unbind"@),
                    id,
                })
                &&& m > n + 3 ==> s.asked[n + 3] == (Request::Sleep { nanos: 250_000_000 })
                &&& m > n + 4 ==> s.asked[n + 4] == (Request::WriteDriver {
                    file: joined(driver, "bind"@),
                    id,
                })
                &&& forall|i: int|
                    n + 5 <= i < m ==> #[trigger] s.asked[i] == if (i - n - 5) % 2 == 0 {
                        listing
                    } else {
                        Request::Sleep { nanos: 100_000_000 }
                    }
                &&& forall|i: int|
                    #![trigger shows_partner(s, i)]
                    n + 5 <= i < m - 1 && (i - n - 5) % 2 == 0 ==> !shows_partner(s, i) && clock(
                        s,
                        i,
                    ) - clock(s, n + 5) < 3_000_000_000
                &&& end is Ok ==> m >= n + 5 && if (m - n - 5) % 2 == 1 {
                    shows_partner(s, m - 1)
                } else {
                    clock(s, m) - clock(s, n + 5) >= 3_000_000_000
                }
            }
            &&& m > n + 1 && s.replies[n + 1].answer is Driver && (forall|p: Seq<char>|
                !(#[trigger] names_driver(s, n + 1, p))) ==> m == n + 2 && end is Ok
            &&& end matches Err(Stop::Fail(e)) ==> m > n && failed_with(s, m - 1, e)
        },
{
    reveal(reprobe_hpm_run);
    lemma_reprobe(r, bus, addr, 0);
    if let Some(d) = sysfs_device(bus, addr) {
        let (s, end) = reprobe_hpm_run(r, bus, addr);
        let (n, m) = (r.asked.len() as int, s.asked.len() as int);
        lemma_device(bus, addr);
        let id = hpm_id(bus, addr);
        lemma_asked(r, Request::Exists { path: d });
        let (r1, present) = exists_run(r, d);
        if present == Ok::<bool, Stop>(true) {
            lemma_asked(r1, Request::ResolveDriver { link: joined(d, "driver"@) });
            let (r2, found) = driver_run(r1, d);
            if let Ok(at) = found {
                let answer = r1.replies[n + 1].answer;
                assert(answer is Driver);
                if at is None {
                    assert(forall|p: Seq<char>| !(#[trigger] names_driver(s, n + 1, p)));
                }
                if let Some(path) = at {
                    assert(names_driver(s, n + 1, path));
                    let unbind = Request::WriteDriver { file: joined(path, "unbind"@), id };
                    let bind = Request::WriteDriver { file: joined(path, "bind"@), id };
                    lemma_asked(r2, unbind);
                    if let (r3, Ok(())) = do_run(r2, unbind) {
                        if let (r4, Ok(())) = sleep_run(r3, 250_000_000) {
                            lemma_asked(r4, bind);
                            if let (r5, Ok(())) = do_run(r4, bind) {
                                law_partner_wait(r5, d, r5.now());
                            }
                        }
                    }
                }
            }
        }
    }
}

/// Before a command, the device of the controller is looked for, and where it exists its ports are
/// listed. Where it does not exist, or has a partner, that is all; only where it exists without one
/// is it probed again.
pub proof fn law_recovery(r: Run, bus: Seq<char>, addr: u16)
    requires
        r.left() >= 0,
    ensures
        sysfs_device(bus, addr) is None ==> recover_missing_partner_run(r, bus, addr) == (
            r,
            Ok::<(), Stop>(()),
        ),
        sysfs_device(bus, addr) matches Some(d) ==> {
            let (s, end) = recover_missing_partner_run(r, bus, addr);
            let (n, m) = (r.asked.len() as int, s.asked.len() as int);
            &&& grows(r, s)
            &&& m == n ==> end == Err::<(), Stop>(Stop::Ask(Request::Exists { path: d }))
            &&& m > n ==> s.asked[n] == (Request::Exists { path: d })
            &&& m > n ==> (s.replies[n].answer == Answer::Present(false) <==> m == n + 1
                && end is Ok)
            &&& m > n + 1 ==> s.asked[n + 1] == (Request::ListPorts { dir: d + "/typec"@ })
                && s.replies[n].answer == Answer::Present(true)
            &&& m > n + 1 ==> (shows_partner(s, n + 1) <==> m == n + 2 && end is Ok)
            &&& m > n + 2 ==> s.asked[n + 2] == (Request::Exists { path: d })
            &&& m > n + 1 && !shows_partner(s, n + 1) ==> (s, end) == reprobe_hpm_run(
                Run { asked: s.asked.take(n + 2), ..s },
                bus,
                addr,
            )
        },
{
    lemma_recover(r, bus, addr, 0);
    if let Some(d) = sysfs_device(bus, addr) {
        let (s, end) = recover_missing_partner_run(r, bus, addr);
        let (n, m) = (r.asked.len() as int, s.asked.len() as int);
        lemma_device(bus, addr);
        lemma_asked(r, Request::Exists { path: d });
        let (r1, present) = exists_run(r, d);
        if present == Ok::<bool, Stop>(true) {
            let listing = Request::ListPorts { dir: joined(d, "typec"@) };
            lemma_asked(r1, listing);
            let (r2, partner) = partner_run(r1, d);
            if partner is Ok {
                lemma_shows_partner(r2, n + 1);
                assert(shows_partner(s, n + 1) == shows_partner(r2, n + 1));
                if partner == Ok::<bool, Stop>(false) {
                    law_reprobe(r2, bus, addr, Seq::empty());
                    assert(s.asked.take(n + 2) =~= r2.asked);
                }
            }
        }
    }
}

} // verus!
