//! What a command and a message are, byte by byte and request by request.
//!
//! Times are in nanoseconds, registers and bytes are written out.
use crate::cd321x::{all_le_bytes, mode_named, TpsMode, VdmSopType};
use crate::error::Error;
use crate::host::{read_block_run, write_block_run, Answer, Request, Run, Stop};
use crate::laws_wait::{
    all_zero, block_at, clock, failed_with, law_done_wait, law_idle_wait, law_reply_wait,
    lemma_failed, lemma_look, read_at, says_unknown,
};
use crate::protocol::{
    await_done_run, await_idle_run, await_reply_run, disconnect_run, dven_run, exec_cmd_run,
    exec_cmd_with_timing_run, expect_dbma_run, get_mode_run, grows, lock_run, reset_run, tag_vdms,
    vdm_data, vdms_run, write_input_run,
};
use vstd::prelude::*;
use vstd::utf8::{
    decode_utf8, decode_utf8_encode_utf8, encode_utf8, encode_utf8_decode_utf8, is_ascii_chars,
    is_ascii_chars_encode_utf8, valid_utf8,
};

verus! {

/// Whether every reply is one that a transcript can hold.
pub open spec fn sane(r: Run) -> bool {
    forall|i: int| 0 <= i < r.replies.len() ==> (#[trigger] r.replies[i]).answer.well_formed()
}

proof fn lemma_ascii(b: Seq<u8>, name: Seq<char>)
    requires
        valid_utf8(b),
        is_ascii_chars(name),
    ensures
        decode_utf8(b) == name <==> (b.len() == name.len() && forall|i: int|
            0 <= i < b.len() ==> #[trigger] b[i] == name[i] as u8),
{
    is_ascii_chars_encode_utf8(name);
    encode_utf8_decode_utf8(name);
    decode_utf8_encode_utf8(b);
    if b.len() == name.len() && forall|i: int|
        0 <= i < b.len() ==> #[trigger] b[i] == name[i] as u8 {
        assert(b =~= encode_utf8(name));
    }
}

/// The modes by the four bytes that the controller shows: `APP `, `BOOT`, `BIST`, `DISC`, `PTCH`
/// and `DBMa`; no other bytes are a mode.
pub proof fn law_mode_bytes(b: Seq<u8>)
    requires
        valid_utf8(b),
    ensures
        mode_named(decode_utf8(b)) == if b == seq![0x41u8, 0x50, 0x50, 0x20] {
            Some(TpsMode::App)
        } else if b == seq![0x42u8, 0x4f, 0x4f, 0x54] {
            Some(TpsMode::Boot)
        } else if b == seq![0x42u8, 0x49, 0x53, 0x54] {
            Some(TpsMode::Bist)
        } else if b == seq![0x44u8, 0x49, 0x53, 0x43] {
            Some(TpsMode::Disc)
        } else if b == seq![0x50u8, 0x54, 0x43, 0x48] {
            Some(TpsMode::Ptch)
        } else if b == seq![0x44u8, 0x42, 0x4d, 0x61] {
            Some(TpsMode::Dbma)
        } else {
            None
        },
{
    reveal_strlit("APP ");
    reveal_strlit("BOOT");
    reveal_strlit("BIST");
    reveal_strlit("DISC");
    reveal_strlit("PTCH");
    reveal_strlit("DBMa");
    lemma_ascii(b, "APP "@);
    lemma_ascii(b, "BOOT"@);
    lemma_ascii(b, "BIST"@);
    lemma_ascii(b, "DISC"@);
    lemma_ascii(b, "PTCH"@);
    lemma_ascii(b, "DBMa"@);
    if decode_utf8(b) == "APP "@ {
        assert(b =~= seq![0x41u8, 0x50, 0x50, 0x20]);
    }
    if decode_utf8(b) == "BOOT"@ {
        assert(b =~= seq![0x42u8, 0x4f, 0x4f, 0x54]);
    }
    if decode_utf8(b) == "BIST"@ {
        assert(b =~= seq![0x42u8, 0x49, 0x53, 0x54]);
    }
    if decode_utf8(b) == "DISC"@ {
        assert(b =~= seq![0x44u8, 0x49, 0x53, 0x43]);
    }
    if decode_utf8(b) == "PTCH"@ {
        assert(b =~= seq![0x50u8, 0x54, 0x43, 0x48]);
    }
    if decode_utf8(b) == "DBMa"@ {
        assert(b =~= seq![0x44u8, 0x42, 0x4d, 0x61]);
    }
}

/// A look at the mode is one read of four bytes from register 0x03. What it reads as `DBMa` is
/// DBMa mode, as `APP ` the mode of the application; bytes that are no mode fail with
/// `TypecController`.
pub proof fn law_mode_read(r: Run)
    requires
        r.left() >= 0,
        sane(r),
    ensures
        ({
            let (s, end) = get_mode_run(r);
            let n = r.asked.len() as int;
            &&& grows(r, s)
            &&& match end {
                Err(Stop::Ask(q)) => s == r && q == (Request::ReadBlock { reg: 0x03, len: 4 }),
                _ => s.asked == r.asked.push(Request::ReadBlock { reg: 0x03, len: 4 }),
            }
            &&& match end {
                Ok(mode) => read_at(s, n) && (mode == TpsMode::Dbma <==> block_at(s, n) == seq![
                    0x44u8,
                    0x42,
                    0x4d,
                    0x61,
                ]) && (mode == TpsMode::App <==> block_at(s, n) == seq![0x41u8, 0x50, 0x50, 0x20]),
                Err(Stop::Fail(Error::TypecController)) => read_at(s, n) && block_at(s, n) != seq![
                    0x44u8,
                    0x42,
                    0x4d,
                    0x61,
                ] && block_at(s, n) != seq![0x41u8, 0x50, 0x50, 0x20],
                Err(Stop::Fail(e)) => failed_with(s, n, e),
                Err(Stop::Ask(_)) => true,
            }
        }),
{
    lemma_look(r, 0x03, 4);
    if let (s, Ok(name)) = read_block_run(r, 0x03, 4) {
        let n = r.asked.len() as int;
        assert(r.replies[n].answer.well_formed());
        law_mode_bytes(name);
        assert(seq![0x44u8, 0x42, 0x4d, 0x61][0] == 0x44);
        assert(seq![0x41u8, 0x50, 0x50, 0x20][0] == 0x41);
        assert(seq![0x42u8, 0x4f, 0x4f, 0x54][0] == 0x42);
        assert(seq![0x42u8, 0x49, 0x53, 0x54][0] == 0x42);
        assert(seq![0x50u8, 0x54, 0x43, 0x48][0] == 0x50);
        assert(seq![0x44u8, 0x49, 0x53, 0x43][1] == 0x49);
        assert(seq![0x44u8, 0x42, 0x4d, 0x61][1] == 0x42);
    }
}

/// A write of a register: what it leaves behind.
proof fn lemma_put(r: Run, reg: u8, data: Seq<u8>)
    requires
        r.left() >= 0,
    ensures
        ({
            let n = r.asked.len() as int;
            let q = Request::WriteBlock { reg, data };
            match write_block_run(r, reg, data) {
                (s, Ok(())) => grows(r, s) && s.asked == r.asked.push(q),
                (s, Err(Stop::Fail(e))) => grows(r, s) && s.asked == r.asked.push(q)
                    && failed_with(s, n, e) && e != Error::TypecController && e
                    != Error::ControllerTimeout,
                (s, Err(Stop::Ask(a))) => s == r && a == q,
            }
        }),
{
    if let Answer::Failed(f) = r.replies[r.asked.len() as int].answer {
        if r.has_answer(Request::WriteBlock { reg, data }) {
            lemma_failed(write_block_run(r, reg, data).0, r.asked.len() as int, f);
        }
    }
}

/// A command, which is the `c`th request if it comes to that: CMD1, register 0x08, is waited for
/// until it is idle; what the command works on is written to register 0x09, if there is anything,
/// and right after it the command to register 0x08; then CMD1 is read until the command is done,
/// and in the end comes the pause `delay`.
///
/// It succeeds just so. It fails with `TypecController` only where the last read of CMD1 gave
/// `!CMD`; with `ControllerTimeout` only where that gave something else that is not zero, more than
/// 2 s after the wait began where the command was not written yet, and more than `timeout` after
/// the command where it was. Any other failure is the host's. And as long as CMD1 is read again,
/// that time is not over.
pub proof fn law_command(
    r: Run,
    tag: Seq<u8>,
    data: Seq<u8>,
    timeout: u64,
    delay: u64,
) -> (c: int)
    requires
        r.left() >= 0,
    ensures
        ({
            let (s, end) = exec_cmd_with_timing_run(r, tag, data, timeout, delay);
            let (n, m) = (r.asked.len() as int, s.asked.len() as int);
            let look = Request::ReadBlock { reg: 0x08, len: 4 };
            let input = Request::WriteBlock { reg: 0x09, data };
            let command = Request::WriteBlock { reg: 0x08, data: tag };
            &&& grows(r, s)
            &&& n < c
            // Before it, the controller is waited for, and given what to work on.
            &&& forall|i: int|
                n <= i < m && i < c ==> {
                    ||| #[trigger] s.asked[i] == look
                    ||| s.asked[i] == (Request::Sleep { nanos: 10_000_000 })
                    ||| s.asked[i] == input && data.len() > 0 && i == c - 1
                }
            &&& m > c ==> {
                let idle = if data.len() > 0 {
                    c - 2
                } else {
                    c - 1
                };
                &&& s.asked[c] == command
                &&& data.len() > 0 ==> s.asked[c - 1] == input
                &&& n <= idle && s.asked[idle] == look && read_at(s, idle) && all_zero(
                    block_at(s, idle),
                )
            }
            // After it, its end is waited for.
            &&& forall|i: int|
                c < i < m ==> {
                    ||| #[trigger] s.asked[i] == look
                    ||| s.asked[i] == (Request::Sleep { nanos: delay }) && i == m - 1
                        && end is Ok
                }
            // What is read as idle is not read again.
            &&& forall|i: int|
                #![trigger block_at(s, i)]
                n <= i < m && s.asked[i] == look && read_at(s, i) && all_zero(block_at(s, i)) ==> {
                    ||| i == m - 1
                    ||| i == c - 1 && data.len() == 0
                    ||| i == c - 2 && data.len() > 0
                    ||| i == m - 2 && end is Ok
                }
            // While something is read again, its time is not over.
            &&& forall|i: int|
                #![trigger block_at(s, i)]
                n <= i < m - 1 && s.asked[i] == look && !all_zero(block_at(s, i)) ==> {
                    &&& !says_unknown(block_at(s, i))
                    &&& if i < c {
                        clock(s, i + 1) - clock(s, n) <= 2_000_000_000
                    } else {
                        clock(s, i + 1) - clock(s, c + 1) <= timeout
                    }
                }
            &&& match end {
                Ok(()) => c < m - 2 && s.asked[m - 1] == (Request::Sleep { nanos: delay })
                    && s.asked[m - 2] == look && read_at(s, m - 2) && all_zero(
                    block_at(s, m - 2),
                ),
                Err(Stop::Fail(Error::TypecController)) => m > n && s.asked[m - 1] == look
                    && read_at(s, m - 1) && says_unknown(block_at(s, m - 1)),
                Err(Stop::Fail(Error::ControllerTimeout)) => {
                    &&& m > n && s.asked[m - 1] == look && read_at(s, m - 1)
                    &&& !all_zero(block_at(s, m - 1)) && !says_unknown(block_at(s, m - 1))
                    &&& if m - 1 < c {
                        clock(s, m) - clock(s, n) > 2_000_000_000
                    } else {
                        clock(s, m) - clock(s, c + 1) > timeout
                    }
                },
                Err(Stop::Fail(e)) => m > n && failed_with(s, m - 1, e),
                Err(Stop::Ask(q)) => q == look || q is Sleep || q == input || q == command,
            }
        }),
{
    reveal(exec_cmd_with_timing_run);
    let (s, end) = exec_cmd_with_timing_run(r, tag, data, timeout, delay);
    let (n, m) = (r.asked.len() as int, s.asked.len() as int);
    let look = Request::ReadBlock { reg: 0x08, len: 4 };
    law_idle_wait(r, r.now());
    let (r1, idle) = await_idle_run(r, r.now());
    if idle is Err {
        m + 5
    } else {
        let c = r1.asked.len() as int + if data.len() > 0 {
            1int
        } else {
            0
        };
        lemma_put(r1, 0x09, data);
        let (r2, given) = write_input_run(r1, data);
        if given is Ok {
            lemma_put(r2, 0x08, tag);
            let (r3, written) = write_block_run(r2, 0x08, tag);
            if written is Ok {
                law_done_wait(r3, r3.now(), timeout);
                let (r4, done) = await_done_run(r3, r3.now(), timeout);
                assert(grows(r4, s));
                assert(forall|i: int| #[trigger] block_at(s, i) == block_at(r4, i));
                assert(grows(r3, s));
            }
            assert(grows(r2, s));
        }
        assert(grows(r1, s));
        assert(forall|i: int| n <= i < r1.asked.len() ==> block_at(s, i) == block_at(r1, i));
        c
    }
}

/// A command without a time of its own may take 1 s, and no pause follows it. Locking, the local
/// end, the cable and the reset are one command each: `LOCK`, `DVEn`, `DISC` with 3, and `Gaid`,
/// which is written as it is.
pub proof fn law_plain_commands(r: Run, tag: Seq<u8>, data: Seq<u8>, vdos: Seq<u32>)
    ensures
        exec_cmd_run(r, tag, data) == exec_cmd_with_timing_run(r, tag, data, 1_000_000_000, 0),
        lock_run(r, data) == exec_cmd_run(r, seq![0x4cu8, 0x4f, 0x43, 0x4b], data),
        disconnect_run(r) == exec_cmd_run(r, seq![0x44u8, 0x49, 0x53, 0x43], seq![3u8]),
        reset_run(r) == write_block_run(r, 0x08, seq![0x47u8, 0x61, 0x69, 0x64]),
        forall|d: Seq<u8>|
            d.len() == 4 * vdos.len() && #[trigger] spelled(d, vdos, 0) ==> dven_run(r, vdos)
                == exec_cmd_run(r, seq![0x44u8, 0x56, 0x45, 0x6e], d),
{
    assert forall|d: Seq<u8>| d.len() == 4 * vdos.len() && #[trigger] spelled(
        d,
        vdos,
        0,
    ) implies dven_run(r, vdos) == exec_cmd_run(r, seq![0x44u8, 0x56, 0x45, 0x6e], d) by {
        lemma_spelled(vdos);
        let e = all_le_bytes(vdos);
        assert forall|j: int| 0 <= j < d.len() implies d[j] == e[j] by {
            let k = j / 4;
            assert(0 <= k < vdos.len());
            let v = vdos[k];
            assert(d[0 + 4 * k] == e[0 + 4 * k]);
            assert(d[0 + 4 * k + 1] == e[0 + 4 * k + 1]);
            assert(d[0 + 4 * k + 2] == e[0 + 4 * k + 2]);
            assert(d[0 + 4 * k + 3] == e[0 + 4 * k + 3]);
            assert(j == 4 * k || j == 4 * k + 1 || j == 4 * k + 2 || j == 4 * k + 3);
        }
        assert(d =~= e);
    }
}

/// Whether `d` holds, from `at` on, four bytes of each number, the lowest first.
pub open spec fn spelled(d: Seq<u8>, vdos: Seq<u32>, at: int) -> bool {
    forall|k: int|
        #![trigger vdos[k]]
        0 <= k < vdos.len() ==> {
            &&& d[at + 4 * k] as int == vdos[k] as int % 0x100
            &&& d[at + 4 * k + 1] as int == vdos[k] as int / 0x100 % 0x100
            &&& d[at + 4 * k + 2] as int == vdos[k] as int / 0x1_0000 % 0x100
            &&& d[at + 4 * k + 3] as int == vdos[k] as int / 0x100_0000
        }
}

proof fn lemma_spelled(vdos: Seq<u32>)
    ensures
        all_le_bytes(vdos).len() == 4 * vdos.len(),
        spelled(all_le_bytes(vdos), vdos, 0),
    decreases vdos.len(),
{
    if vdos.len() > 0 {
        let rest = vdos.drop_last();
        lemma_spelled(rest);
        let d = all_le_bytes(vdos);
        assert forall|k: int| #![trigger vdos[k]] 0 <= k < vdos.len() implies {
            &&& d[0 + 4 * k] as int == vdos[k] as int % 0x100
            &&& d[0 + 4 * k + 1] as int == vdos[k] as int / 0x100 % 0x100
            &&& d[0 + 4 * k + 2] as int == vdos[k] as int / 0x1_0000 % 0x100
            &&& d[0 + 4 * k + 3] as int == vdos[k] as int / 0x100_0000
        } by {
            if k < rest.len() {
                assert(rest[k] == vdos[k]);
            }
        }
    }
}

/// The first byte of a message: the type of its addressee in the upper half, and how many words it
/// has in the lower.
pub open spec fn first_byte(sop: VdmSopType, len: int) -> int {
    len + match sop {
        VdmSopType::Sop => 0x00int,
        VdmSopType::SopPrime => 0x10,
        VdmSopType::SopPrimePrime => 0x20,
        VdmSopType::SopStar => 0x30,
    }
}

/// A message as the controller takes it: its first byte, then its words, the lowest byte of each
/// first.
pub proof fn law_message_bytes(sop: VdmSopType, vdos: Seq<u32>)
    requires
        1 <= vdos.len() <= 7,
    ensures
        vdm_data(sop, vdos).len() == 1 + 4 * vdos.len(),
        vdm_data(sop, vdos)[0] as int == first_byte(sop, vdos.len() as int),
        spelled(vdm_data(sop, vdos), vdos, 1),
{
    lemma_spelled(vdos);
    let d = vdm_data(sop, vdos);
    let e = all_le_bytes(vdos);
    assert forall|k: int| #![trigger vdos[k]] 0 <= k < vdos.len() implies {
        &&& d[1 + 4 * k] as int == vdos[k] as int % 0x100
        &&& d[1 + 4 * k + 1] as int == vdos[k] as int / 0x100 % 0x100
        &&& d[1 + 4 * k + 2] as int == vdos[k] as int / 0x1_0000 % 0x100
        &&& d[1 + 4 * k + 3] as int == vdos[k] as int / 0x100_0000
    } by {
        assert(d[1 + 4 * k] == e[4 * k]);
        assert(d[1 + 4 * k + 1] == e[4 * k + 1]);
        assert(d[1 + 4 * k + 2] == e[4 * k + 2]);
        assert(d[1 + 4 * k + 3] == e[4 * k + 3]);
    }
}

/// The number in the bytes 1 to 4, the lowest first.
pub open spec fn header(b: Seq<u8>) -> int {
    b[1] + 0x100 * b[2] + 0x1_0000 * b[3] + 0x100_0000 * b[4]
}

/// What the requests from `r` to `s` are, and how they end, where a message is sent: the command is
/// the request `c`, and is over with the request `k`.
pub open spec fn message_goes(
    r: Run,
    s: Run,
    end: Result<(), Stop>,
    sop: VdmSopType,
    vdos: Seq<u32>,
    c: int,
    k: int,
) -> bool {
    let (n, m) = (r.asked.len() as int, s.asked.len() as int);
    let dbma = seq![0x44u8, 0x42, 0x4d, 0x61];
    let busy = Request::ReadBlock { reg: 0x08, len: 4 };
    let status = Request::ReadBlock { reg: 0x4d, len: 64 };
    let noted = block_at(s, n + 1)[0];
    &&& grows(r, s)
    &&& n + 2 < c < k
    &&& m > n ==> s.asked[n] == (Request::ReadBlock { reg: 0x03, len: 4 })
    &&& m > n + 1 ==> read_at(s, n) && block_at(s, n) == dbma && s.asked[n + 1] == status
    &&& m > n + 2 ==> read_at(s, n + 1)
    &&& m > c ==> {
        &&& s.asked[c] == (Request::WriteBlock {
            reg: 0x08,
            data: seq![0x56u8, 0x44, 0x4d, 0x73],
        })
        &&& s.asked[c - 1] matches Request::WriteBlock { reg, data } && reg == 0x09
            && data.len() == 1 + 4 * vdos.len() && data[0] as int == first_byte(
            sop,
            vdos.len() as int,
        ) && spelled(data, vdos, 1)
        &&& s.asked[c - 2] == busy && read_at(s, c - 2) && all_zero(block_at(s, c - 2))
    }
    &&& forall|i: int|
        n + 2 <= i < m && i < c ==> {
            ||| #[trigger] s.asked[i] == busy
            ||| s.asked[i] == (Request::Sleep { nanos: 10_000_000 })
            ||| i == c - 1 && (s.asked[i] matches Request::WriteBlock { reg, .. } && reg
                == 0x09)
        }
    &&& forall|i: int|
        n <= i < m && #[trigger] s.asked[i] is WriteBlock ==> i == c || i == c - 1
    &&& forall|i: int|
        c < i < m ==> #[trigger] s.asked[i] == if i < k {
            busy
        } else if i == k {
            Request::Sleep { nanos: 0 }
        } else if (i - k) % 2 == 1 {
            status
        } else {
            Request::Sleep { nanos: 10_000_000 }
        }
    &&& m > k ==> c < k - 1 && read_at(s, k - 1) && all_zero(block_at(s, k - 1))
    &&& forall|i: int|
        #![trigger block_at(s, i)]
        k < i < m - 1 && (i - k) % 2 == 1 ==> read_at(s, i) && block_at(s, i)[0] == noted
            && clock(s, i + 1) - clock(s, k + 1) <= 2_000_000_000
    &&& match end {
        Ok(()) => k < m - 1 && s.asked[m - 1] == status && read_at(s, m - 1) && block_at(
            s,
            m - 1,
        )[0] != noted && header(block_at(s, m - 1)) == (vdos[0] | 0x40u32),
        Err(Stop::Fail(Error::VdmRejected)) => k < m - 1 && s.asked[m - 1] == status
            && read_at(s, m - 1) && block_at(s, m - 1)[0] != noted && header(
            block_at(s, m - 1),
        ) != (vdos[0] | 0x40u32),
        Err(Stop::Fail(Error::VdmReplyTimeout)) => k < m - 1 && s.asked[m - 1] == status
            && read_at(s, m - 1) && block_at(s, m - 1)[0] == noted && clock(s, m) - clock(
            s,
            k + 1,
        ) > 2_000_000_000,
        Err(Stop::Fail(Error::TypecController)) => {
            ||| m == n + 1 && read_at(s, n) && block_at(s, n) != dbma
            ||| n + 2 < m <= k && s.asked[m - 1] == busy && read_at(s, m - 1)
                && says_unknown(block_at(s, m - 1))
        },
        Err(Stop::Fail(Error::ControllerTimeout)) => {
            &&& n + 2 < m <= k && s.asked[m - 1] == busy && read_at(s, m - 1)
            &&& !all_zero(block_at(s, m - 1)) && !says_unknown(block_at(s, m - 1))
            &&& if m - 1 < c {
                clock(s, m) - clock(s, n + 2) > 2_000_000_000
            } else {
                clock(s, m) - clock(s, c + 1) > 200_000_000
            }
        },
        Err(Stop::Fail(e)) => m > n && failed_with(s, m - 1, e),
        Err(Stop::Ask(_)) => true,
    }
}

/// A message where the command does not come to its end.
proof fn lemma_not_sent(r: Run, r2: Run, sop: VdmSopType, vdos: Seq<u32>) -> (ck: (int, int))
    requires
        r.left() >= 0,
        sane(r),
        1 <= vdos.len() <= 7,
        expect_dbma_run(r).1 is Ok,
        read_block_run(expect_dbma_run(r).0, 0x4d, 64) matches (r1, Ok(_)) && r1 == r2,
        exec_cmd_with_timing_run(r2, tag_vdms(), vdm_data(sop, vdos), 200_000_000, 0).1 is Err,
    ensures
        ({
            let (s, end) = vdms_run(r, sop, vdos);
            message_goes(r, s, end, sop, vdos, ck.0, ck.1)
        }),
{
    reveal(vdms_run);
    let (s, end) = vdms_run(r, sop, vdos);
    let (n, m) = (r.asked.len() as int, s.asked.len() as int);
    let tag = seq![0x56u8, 0x44, 0x4d, 0x73];
    assert(tag =~= tag_vdms());
    law_mode_read(r);
    let (r1, mode) = expect_dbma_run(r);
    lemma_look(r1, 0x4d, 64);
    law_message_bytes(sop, vdos);
    let c = law_command(r2, tag, vdm_data(sop, vdos), 200_000_000, 0);
    let far = if c > m {
        c
    } else {
        m
    };
    assert(grows(r2, s));
    assert(block_at(s, n) == block_at(r1, n));
    (c, far + 9)
}

/// A message where the command does come to its end.
proof fn lemma_sent(r: Run, r2: Run, sop: VdmSopType, vdos: Seq<u32>) -> (ck: (int, int))
    requires
        r.left() >= 0,
        sane(r),
        1 <= vdos.len() <= 7,
        expect_dbma_run(r).1 is Ok,
        read_block_run(expect_dbma_run(r).0, 0x4d, 64) matches (r1, Ok(_)) && r1 == r2,
        exec_cmd_with_timing_run(r2, tag_vdms(), vdm_data(sop, vdos), 200_000_000, 0).1 is Ok,
    ensures
        ({
            let (s, end) = vdms_run(r, sop, vdos);
            message_goes(r, s, end, sop, vdos, ck.0, ck.1)
        }),
{
    reveal(vdms_run);
    let (s, end) = vdms_run(r, sop, vdos);
    let (n, m) = (r.asked.len() as int, s.asked.len() as int);
    let data = vdm_data(sop, vdos);
    let tag = seq![0x56u8, 0x44, 0x4d, 0x73];
    assert(tag =~= tag_vdms());
    law_mode_read(r);
    let (r1, mode) = expect_dbma_run(r);
    lemma_look(r1, 0x4d, 64);
    let noted = block_at(r2, n + 1)[0];
    law_message_bytes(sop, vdos);
    let c = law_command(r2, tag, data, 200_000_000, 0);
    let (r3, sent) = exec_cmd_with_timing_run(r2, tag, data, 200_000_000, 0);
    let k = r3.asked.len() - 1;
    law_reply_wait(r3, noted, r3.now());
    let (r4, reply) = await_reply_run(r3, noted, r3.now());
    assert(r4 == s);
    assert(grows(r3, s));
    assert(forall|i: int| 0 <= i < r3.asked.len() ==> s.asked[i] == r3.asked[i]);
    assert(forall|i: int| #[trigger] block_at(s, i) == block_at(r3, i));
    assert forall|i: int| n + 2 <= i < m && i < c implies {
        ||| #[trigger] s.asked[i] == (Request::ReadBlock { reg: 0x08, len: 4 })
        ||| s.asked[i] == (Request::Sleep { nanos: 10_000_000 })
        ||| i == c - 1 && (s.asked[i] matches Request::WriteBlock { reg, .. } && reg == 0x09)
    } by {
        assert(s.asked[i] == r3.asked[i]);
    }
    assert forall|i: int| c < i < m implies #[trigger] s.asked[i] == if i < k {
        Request::ReadBlock { reg: 0x08, len: 4 }
    } else if i == k {
        Request::Sleep { nanos: 0 }
    } else if (i - k) % 2 == 1 {
        Request::ReadBlock { reg: 0x4d, len: 64 }
    } else {
        Request::Sleep { nanos: 10_000_000 }
    } by {
        if i <= k {
            assert(s.asked[i] == r3.asked[i]);
            assert(r3.asked[k] == (Request::Sleep { nanos: 0 }));
        }
    }
    assert(clock(s, k + 1) == r3.now());
    if let Ok(b) = reply {
        let w = b.subrange(1, 5);
        assert(w[0] == b[1] && w[1] == b[2] && w[2] == b[3] && w[3] == b[4]);
    }
    let dbma = seq![0x44u8, 0x42, 0x4d, 0x61];
    assert(read_at(s, n) && block_at(s, n) == dbma);
    assert(read_at(s, n + 1) && block_at(s, n + 1)[0] == noted);
    assert(n + 2 < c < k - 1);
    assert(s.asked[c - 1] == (Request::WriteBlock { reg: 0x09, data }));
    assert(read_at(s, c - 2) && all_zero(block_at(s, c - 2)));
    assert(read_at(s, k - 1) && all_zero(block_at(s, k - 1)));
    assert forall|i: int| n <= i < m && #[trigger] s.asked[i] is WriteBlock implies i == c || i == c
        - 1 by {}
    assert forall|i: int| #![trigger block_at(s, i)] k < i < m - 1 && (i - k) % 2 == 1 implies
        read_at(s, i) && block_at(s, i)[0] == noted && clock(s, i + 1) - clock(s, k + 1)
        <= 2_000_000_000 by {}
    (c, k)
}

/// A message. First the mode is read, and nothing more is done unless it is `DBMa`; then the
/// receive status is read, and its first byte noted. The command `VDMs`, which is the `c`th request
/// if it comes to that, is submitted with the message, and may take 200 ms. When it is over, with
/// the `k`th request, the receive status is read, with pauses of 10 ms, until its first byte is
/// another than the one noted.
///
/// The message succeeds just where the first such reply has, in the bytes 1 to 4, the first word of
/// the message with bit 6 set; it is rejected just where it has another. It counts as not replied
/// to only where the first byte is still the same more than 2 s after the command was over.
pub proof fn law_message(r: Run, sop: VdmSopType, vdos: Seq<u32>) -> (ck: (int, int))
    requires
        r.left() >= 0,
        sane(r),
        1 <= vdos.len() <= 7,
    ensures
        ({
            let (s, end) = vdms_run(r, sop, vdos);
            message_goes(r, s, end, sop, vdos, ck.0, ck.1)
        }),
{
    reveal(vdms_run);
    let (s, end) = vdms_run(r, sop, vdos);
    let m = s.asked.len() as int;
    law_mode_read(r);
    let (r1, mode) = expect_dbma_run(r);
    if mode is Err {
        (m + 9, m + 19)
    } else {
        lemma_look(r1, 0x4d, 64);
        let (r2, read) = read_block_run(r1, 0x4d, 64);
        if read is Err {
            (m + 9, m + 19)
        } else if exec_cmd_with_timing_run(
            r2,
            tag_vdms(),
            vdm_data(sop, vdos),
            200_000_000,
            0,
        ).1 is Err {
            lemma_not_sent(r, r2, sop, vdos)
        } else {
            lemma_sent(r, r2, sop, vdos)
        }
    }
}

} // verus!
