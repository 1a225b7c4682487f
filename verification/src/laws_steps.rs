//! The steps that a session with a controller is made of.
//!
//! Times are in nanoseconds, registers and bytes are written out.
use crate::cd321x::{TpsMode, VdmSopType};
use crate::error::Error;
use crate::host::{sleep_run, Request, Run, Stop};
use crate::laws_command::{header, law_command, law_message, law_mode_read, sane};
use crate::laws_submit::{given, lemma_message_literals};
use crate::laws_wait::{all_zero, block_at, clock, failed_with, read_at, says_unknown};
use crate::protocol::{
    dbma_run, drop_run, dven_run, enter_run, exec_cmd_run, expect_dbma_run, get_mode_run, grows,
    insist_run, lock_run, new_run, serial_run, tag_dbma, tag_dven, tag_lock, vdms_run, vdos_serial,
};
use crate::trace::waits;
use crate::trace_device::{lemma_dbma, lemma_drop, lemma_enter, lemma_lock, lemma_new};
use vstd::prelude::*;

verus! {

/// A message that is insisted on. A pause of 20 ms comes only right after CMD1 was found busy, that
/// is neither zero nor `!CMD`, and only while 3 s since `start` are not over; after it the message
/// begins anew, with a look at the mode. No command but `VDMs` is submitted. There is no giving up
/// before 3 s are over, and none but with CMD1 busy. A message that was sent and is acknowledged,
/// rejected, or not replied to is the last one.
pub proof fn law_insist(r: Run, vdos: Seq<u32>, start: u64)
    requires
        r.left() >= 0,
        sane(r),
        1 <= vdos.len() <= 7,
    ensures
        ({
            let (s, end) = insist_run(r, vdos, start);
            let (n, m) = (r.asked.len() as int, s.asked.len() as int);
            let pause = Request::Sleep { nanos: 20_000_000 };
            let mode = Request::ReadBlock { reg: 0x03, len: 4 };
            let busy = Request::ReadBlock { reg: 0x08, len: 4 };
            let status = Request::ReadBlock { reg: 0x4d, len: 64 };
            &&& grows(r, s)
            &&& m > n ==> s.asked[n] == mode
            &&& forall|i: int|
                #![trigger s.asked[i]]
                n <= i < m && s.asked[i] == pause ==> {
                    &&& n < i && s.asked[i - 1] == busy && read_at(s, i - 1)
                    &&& !all_zero(block_at(s, i - 1)) && !says_unknown(block_at(s, i - 1))
                    &&& clock(s, i) - start < 3_000_000_000
                    &&& i + 1 < m ==> s.asked[i + 1] == mode
                }
            &&& forall|i: int|
                n <= i < m ==> (#[trigger] s.asked[i] matches Request::WriteBlock { reg, data }
                    ==> reg == 0x09 || reg == 0x08 && data == seq![0x56u8, 0x44, 0x4d, 0x73])
            &&& match end {
                Ok(()) => m > n && s.asked[m - 1] == status && read_at(s, m - 1) && header(
                    block_at(s, m - 1),
                ) == (vdos[0] | 0x40u32),
                Err(Stop::Fail(Error::VdmRejected)) => m > n && s.asked[m - 1] == status && read_at(
                    s,
                    m - 1,
                ) && header(block_at(s, m - 1)) != (vdos[0] | 0x40u32),
                Err(Stop::Fail(Error::VdmReplyTimeout)) => m > n && s.asked[m - 1] == status
                    && read_at(s, m - 1),
                Err(Stop::Fail(Error::ControllerTimeout)) => m > n && s.asked[m - 1] == busy
                    && read_at(s, m - 1) && !all_zero(block_at(s, m - 1)) && !says_unknown(
                    block_at(s, m - 1),
                ) && clock(s, m) - start >= 3_000_000_000,
                Err(Stop::Fail(Error::TypecController)) => m > n && read_at(s, m - 1) && (
                s.asked[m - 1] == mode || s.asked[m - 1] == busy && says_unknown(
                    block_at(s, m - 1),
                )),
                Err(Stop::Fail(e)) => m > n && failed_with(s, m - 1, e),
                Err(Stop::Ask(_)) => true,
            }
        }),
    decreases r.left(),
{
    let (s, end) = insist_run(r, vdos, start);
    let n = r.asked.len() as int;
    let (c, k) = law_message(r, VdmSopType::SopStar, vdos);
    let (r1, sent) = vdms_run(r, VdmSopType::SopStar, vdos);
    if sent == Err::<(), Stop>(Stop::Fail(Error::ControllerTimeout)) {
        let i = r1.asked.len() as int;
        assert(r1.now() == clock(r1, i));
        if let (r2, Ok(())) = sleep_run(r1, 20_000_000) {
            if clock(r1, i) - start < 3_000_000_000 {
                law_insist(r2, vdos, start);
                assert(forall|j: int|
                    0 <= j < r2.asked.len() ==> #[trigger] block_at(s, j) == block_at(r2, j));
                assert(clock(s, i) == clock(r1, i));
            }
        }
    }
}

/// DBMa mode is turned on by the command `DBMa` with 1 and off by it with 0, which is the `c`th
/// request if it comes to that; and it only succeeds where a look at the mode after it reads
/// `DBMa`.
pub proof fn law_dbma(r: Run, debug: bool) -> (c: int)
    requires
        r.left() >= 0,
        sane(r),
    ensures
        ({
            let (s, end) = dbma_run(r, debug);
            let (n, m) = (r.asked.len() as int, s.asked.len() as int);
            let mode = Request::ReadBlock { reg: 0x03, len: 4 };
            let dbma = seq![0x44u8, 0x42, 0x4d, 0x61];
            &&& grows(r, s)
            &&& n < c
            &&& m > c ==> s.asked[c] == (Request::WriteBlock { reg: 0x08, data: dbma }) && given(
                s.asked,
                c,
            ) == (if debug {
                seq![1u8]
            } else {
                seq![0u8]
            })
            &&& end is Ok ==> c < m - 1 && s.asked[m - 1] == mode && read_at(s, m - 1) && block_at(
                s,
                m - 1,
            ) == dbma
            &&& m > n && s.asked[m - 1] == mode && read_at(s, m - 1) && block_at(s, m - 1) != dbma
                ==> end == Err::<(), Stop>(Stop::Fail(Error::TypecController))
        }),
{
    let data = seq![if debug {
        1u8
    } else {
        0u8
    }];
    let dbma = seq![0x44u8, 0x42, 0x4d, 0x61];
    assert(tag_dbma() =~= dbma);
    let (s, end) = dbma_run(r, debug);
    let c = law_command(r, dbma, data, 1_000_000_000, 0);
    let (r1, done) = exec_cmd_run(r, dbma, data);
    if done is Ok {
        law_mode_read(r1);
        let (r2, mode) = get_mode_run(r1);
        assert(grows(r1, s));
    }
    if s.asked.len() > c {
        assert(given(s.asked, c) =~= data);
    }
    assert(data =~= if debug {
        seq![1u8]
    } else {
        seq![0u8]
    });
    c
}

/// Bringing a controller into DBMa mode begins with a look at its mode. A controller in DBMa mode
/// is left as it is. One that reads `APP ` is given `LOCK` with the key, as the request `c`, and
/// after it `DBMa` with 1, as the request `d`; and it is in DBMa mode only where a look at the mode
/// then reads `DBMa`. Any other mode is no success, and nothing more is done.
pub proof fn law_entry(r: Run, key: Seq<u8>) -> (cd: (int, int))
    requires
        r.left() >= 0,
        sane(r),
        key.len() > 0,
    ensures
        ({
            let (s, end) = enter_run(r, key);
            let (n, m) = (r.asked.len() as int, s.asked.len() as int);
            let (c, d) = cd;
            let mode = Request::ReadBlock { reg: 0x03, len: 4 };
            let dbma = seq![0x44u8, 0x42, 0x4d, 0x61];
            let app = seq![0x41u8, 0x50, 0x50, 0x20];
            &&& grows(r, s)
            &&& m == n ==> end == Err::<(), Stop>(Stop::Ask(mode))
            &&& m > n ==> s.asked[n] == mode
            &&& m > n && read_at(s, n) && block_at(s, n) == dbma ==> end is Ok && m == n + 1
            &&& m > n && block_at(s, n) != dbma && block_at(s, n) != app ==> end is Err && m == n
                + 1
            &&& m > n + 1 ==> n < c && read_at(s, n) && block_at(s, n) == app
            &&& m > n + 1 && m > c ==> s.asked[c] == (Request::WriteBlock {
                reg: 0x08,
                data: seq![0x4cu8, 0x4f, 0x43, 0x4b],
            }) && given(s.asked, c) == key
            &&& end is Ok && block_at(s, n) != dbma ==> {
                &&& n < c < d < m - 1
                &&& s.asked[d] == (Request::WriteBlock { reg: 0x08, data: dbma })
                &&& given(s.asked, d) == seq![1u8]
                &&& s.asked[m - 1] == mode && read_at(s, m - 1) && block_at(s, m - 1) == dbma
            }
        }),
{
    let (s, end) = enter_run(r, key);
    let n = r.asked.len() as int;
    let dbma = seq![0x44u8, 0x42, 0x4d, 0x61];
    let app = seq![0x41u8, 0x50, 0x50, 0x20];
    let lock = seq![0x4cu8, 0x4f, 0x43, 0x4b];
    assert(dbma[0] == 0x44 && app[0] == 0x41);
    assert(tag_lock() =~= lock);
    law_mode_read(r);
    let (r1, mode) = get_mode_run(r);
    if mode == Ok::<TpsMode, Stop>(TpsMode::App) {
        let c = law_command(r1, lock, key, 1_000_000_000, 0);
        let (r2, locked) = lock_run(r1, key);
        if r2.asked.len() > c {
            assert(given(r2.asked, c) =~= key);
        }
        if locked is Ok {
            let d = law_dbma(r2, true);
            assert(grows(r2, s));
            assert(given(s.asked, c) =~= key);
            assert(block_at(s, n) == block_at(r1, n));
            (c, d)
        } else {
            assert(block_at(s, n) == block_at(r1, n));
            (c, c + 1)
        }
    } else {
        (n + 1, n + 2)
    }
}

/// The use of a controller ends with DBMa mode turned off, then `LOCK` with four zeros, and then
/// the bus is closed. Neither the one nor the other keeps the next from being done, and none of
/// them is a failure. Where there is nothing to be undone, only the bus is closed.
pub proof fn law_use_ends(r: Run, skip_shutdown: bool)
    requires
        r.left() >= 0,
    ensures
        ({
            let (s, end) = drop_run(r, skip_shutdown);
            let m = s.asked.len() as int;
            let (r1, off) = dbma_run(r, false);
            let (r2, locked) = exec_cmd_run(
                r1,
                seq![0x4cu8, 0x4f, 0x43, 0x4b],
                seq![0u8, 0, 0, 0],
            );
            &&& grows(r, s)
            &&& match end {
                Ok(()) => m > r.asked.len() && s.asked[m - 1] == Request::CloseBus,
                Err(Stop::Fail(_)) => false,
                Err(Stop::Ask(_)) => true,
            }
            &&& skip_shutdown ==> m <= r.asked.len() + 1
            &&& !skip_shutdown ==> {
                &&& grows(r1, s)
                &&& off matches Err(Stop::Ask(_)) ==> s == r1 && end == off
                &&& !(off matches Err(Stop::Ask(_))) ==> {
                    &&& grows(r2, s)
                    &&& locked matches Err(Stop::Ask(_)) ==> s == r2 && end == locked
                    &&& m <= r2.asked.len() + 1
                }
            }
        }),
{
    reveal(drop_run);
    assert(tag_lock() =~= seq![0x4cu8, 0x4f, 0x43, 0x4b]);
    lemma_drop(r, skip_shutdown, 0);
    let (r1, off) = dbma_run(r, false);
    lemma_dbma(r, false, 0);
    if !waits(off) {
        lemma_lock(r1, seq![0u8, 0, 0, 0], 0);
    }
}

/// A controller that is taken over is brought into DBMa mode, and that is all. Where that fails,
/// its use ends as always does: the bus is closed last, and the failure stands.
pub proof fn law_takeover(r: Run, key: Seq<u8>)
    requires
        r.left() >= 0,
    ensures
        ({
            let (t, entered) = enter_run(r, key);
            let (s, end) = new_run(r, key);
            &&& grows(t, s)
            &&& entered is Ok ==> s == t && end == entered
            &&& entered matches Err(Stop::Ask(_)) ==> s == t && end == entered
            &&& entered matches Err(Stop::Fail(_)) ==> (end is Err && (end == entered ==> s.asked[
            s.asked.len() - 1] == Request::CloseBus)) && (end == entered || end matches Err(
                Stop::Ask(_),
            ))
        }),
{
    reveal(new_run);
    lemma_new(r, key, 0);
    lemma_enter(r, key, 0);
    law_use_ends(enter_run(r, key).0, false);
}

/// The local end is put into serial mode by `DVEn` with one word, as the request `d` if it comes to
/// that, and there is no success without it.
pub proof fn law_local_end(r: Run) -> (d: int)
    requires
        r.left() >= 0,
    ensures
        ({
            let (s, end) = dven_run(r, vdos_serial().subrange(1, 2));
            let (n, m) = (r.asked.len() as int, s.asked.len() as int);
            &&& grows(r, s)
            &&& n + 1 < d
            &&& forall|i: int|
                n <= i < m && i < d ==> (#[trigger] s.asked[i] matches Request::WriteBlock {
                    reg,
                    ..
                } ==> reg == 0x09)
            &&& m > d ==> s.asked[d] == (Request::WriteBlock {
                reg: 0x08,
                data: seq![0x44u8, 0x56, 0x45, 0x6e],
            }) && given(s.asked, d) == seq![0x06u8, 0x03, 0x84, 0x01]
            &&& end is Ok ==> m > d
        }),
{
    let dven = seq![0x44u8, 0x56, 0x45, 0x6e];
    let word = seq![0x06u8, 0x03, 0x84, 0x01];
    lemma_message_literals();
    assert(tag_dven() =~= dven);
    let (s, end) = dven_run(r, vdos_serial().subrange(1, 2));
    let m = s.asked.len() as int;
    let d = law_command(r, dven, word, 1_000_000_000, 0);
    if m > d {
        assert(given(s.asked, d) =~= word);
        d
    } else {
        m + 9
    }
}

/// The message for serial mode, as it is insisted on.
proof fn lemma_serial_message(r: Run)
    requires
        r.left() >= 0,
        sane(r),
    ensures
        ({
            let (s, end) = insist_run(r, vdos_serial(), r.now());
            let (n, m) = (r.asked.len() as int, s.asked.len() as int);
            &&& grows(r, s)
            &&& forall|i: int|
                n <= i < m ==> (#[trigger] s.asked[i] matches Request::WriteBlock { reg, data }
                    ==> reg == 0x09 || reg == 0x08 && data == seq![0x56u8, 0x44, 0x4d, 0x73])
            &&& end is Ok ==> m > n && s.asked[m - 1] == (Request::ReadBlock { reg: 0x4d, len: 64 })
                && read_at(s, m - 1) && header(block_at(s, m - 1)) == 0x5ac8052
        }),
{
    assert(0x5ac8012u32 | 0x40u32 == 0x5ac8052u32) by (bit_vector);
    law_insist(r, vdos_serial(), r.now());
}

/// A look whether the mode is DBMa.
proof fn lemma_in_dbma(r: Run)
    requires
        r.left() >= 0,
        sane(r),
    ensures
        ({
            let (s, end) = expect_dbma_run(r);
            let n = r.asked.len() as int;
            &&& grows(r, s)
            &&& s.asked.len() <= n + 1
            &&& s.asked.len() > n ==> s.asked[n] == (Request::ReadBlock { reg: 0x03, len: 4 })
            &&& end is Ok ==> s.asked.len() == n + 1 && read_at(s, n) && block_at(s, n) == seq![
                0x44u8,
                0x42,
                0x4d,
                0x61,
            ]
        }),
{
    law_mode_read(r);
}

/// Serial mode. The local end is put into it by `DVEn`, with the second word of the message, as the
/// request `d`; no other command but `VDMs` comes before it, and it only comes where the message
/// was acknowledged, with the request `e`, and the look at the mode right after that reads `DBMa`.
/// There is no success without it.
pub proof fn law_serial(r: Run) -> (ed: (int, int))
    requires
        r.left() >= 0,
        sane(r),
    ensures
        ({
            let (s, end) = serial_run(r);
            let (n, m) = (r.asked.len() as int, s.asked.len() as int);
            let (e, d) = ed;
            &&& grows(r, s)
            &&& n <= e && e + 2 < d
            &&& forall|i: int|
                n <= i < m && i < d ==> (#[trigger] s.asked[i] matches Request::WriteBlock {
                    reg,
                    data,
                } ==> reg == 0x09 || reg == 0x08 && data == seq![0x56u8, 0x44, 0x4d, 0x73])
            &&& m > d ==> {
                &&& s.asked[e] == (Request::ReadBlock { reg: 0x4d, len: 64 })
                &&& read_at(s, e) && header(block_at(s, e)) == 0x5ac8052
                &&& s.asked[e + 1] == (Request::ReadBlock { reg: 0x03, len: 4 })
                &&& read_at(s, e + 1) && block_at(s, e + 1) == seq![0x44u8, 0x42, 0x4d, 0x61]
                &&& s.asked[d] == (Request::WriteBlock {
                    reg: 0x08,
                    data: seq![0x44u8, 0x56, 0x45, 0x6e],
                })
                &&& given(s.asked, d) == seq![0x06u8, 0x03, 0x84, 0x01]
            }
            &&& end is Ok ==> m > d
        }),
{
    let (s, end) = serial_run(r);
    let (n, m) = (r.asked.len() as int, s.asked.len() as int);
    lemma_serial_message(r);
    let (r1, sent) = insist_run(r, vdos_serial(), r.now());
    let e = r1.asked.len() - 1;
    if sent is Ok {
        lemma_in_dbma(r1);
        let (r2, mode) = expect_dbma_run(r1);
        if mode is Ok {
            let d = law_local_end(r2);
            assert(grows(r2, s));
            assert(block_at(s, e) == block_at(r1, e));
            assert(block_at(s, e + 1) == block_at(r2, e + 1));
            (e, d)
        } else {
            assert(grows(r1, s));
            (e, m + 9)
        }
    } else {
        (n, m + 9)
    }
}

} // verus!
