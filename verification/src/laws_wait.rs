//! What every wait looks at, how often, for how long, and what ends it.
//!
//! Times are in nanoseconds, registers and bytes are written out.
use crate::cd321x::{invalid_cmd, le_u32};
use crate::error::{Error, Fault};
use crate::host::{ask_run, read_block_run, sleep_run, Answer, Request, Run, Stop};
use crate::protocol::{
    await_connected_run, await_done_run, await_idle_run, await_reply_run, check_connected_run, fail,
    grows,
};
use crate::sysfs::{
    await_debugusb_run, await_partner_run, debugusb_path, holds_partner, is_debugusb,
    is_partner_name, partner_run, port_holds_partner, trimmed_text, wait_for_debugusb_run, UsbEntry,
};
use crate::text::{is_white_space, trimmed};
use vstd::prelude::*;

verus! {

/// What the `i`th reply holds of a register.
pub open spec fn block_at(s: Run, i: int) -> Seq<u8> {
    s.replies[i].answer->Block_data@
}

/// Whether the `i`th reply holds something of a register.
pub open spec fn read_at(s: Run, i: int) -> bool {
    0 <= i < s.asked.len() && s.replies[i].answer is Block
}

/// The time after `k` requests.
pub open spec fn clock(s: Run, k: int) -> int {
    if k <= 0 {
        0
    } else {
        s.replies[k - 1].now as int
    }
}

/// The error that an answer stands for, where the host reports with it that something failed.
#[verifier::opaque]
pub open spec fn fault_in(answer: Answer) -> Option<Error> {
    match answer {
        Answer::Failed(Fault::Device) => Some(Error::Device),
        Answer::Failed(Fault::FeatureMissing) => Some(Error::FeatureMissing),
        Answer::Failed(Fault::I2C) => Some(Error::I2C),
        Answer::Failed(Fault::Io(code)) => Some(Error::Io(code)),
        _ => None,
    }
}

/// Whether the `i`th request failed, and with the error `e`.
pub open spec fn failed_with(s: Run, i: int, e: Error) -> bool {
    &&& 0 <= i < s.asked.len() && fault_in(s.replies[i].answer) == Some(e)
    &&& e is Device || e is FeatureMissing || e is I2C || e is Io
}

/// Four zero bytes: no command is running.
pub open spec fn all_zero(b: Seq<u8>) -> bool {
    b.len() == 4 && b[0] == 0 && b[1] == 0 && b[2] == 0 && b[3] == 0
}

/// The bytes `!CMD`: the command is not known.
pub open spec fn says_unknown(b: Seq<u8>) -> bool {
    b.len() == 4 && b[0] == 0x21 && b[1] == 0x43 && b[2] == 0x4d && b[3] == 0x44
}

proof fn lemma_words(b: Seq<u8>)
    requires
        b.len() == 4,
    ensures
        le_u32(b) == 0 <==> all_zero(b),
        invalid_cmd(le_u32(b)) <==> says_unknown(b),
{
    let (b0, b1, b2, b3) = (b[0] as int, b[1] as int, b[2] as int, b[3] as int);
    let v = b0 + 0x100 * b1 + 0x1_0000 * b2 + 0x100_0000 * b3;
    assert(le_u32(b) == v);
    if v == 0x444d4321 {
        assert(b0 == v % 0x100);
        assert(b1 == v / 0x100 % 0x100);
        assert(b2 == v / 0x1_0000 % 0x100);
        assert(b3 == v / 0x100_0000);
    }
}

pub proof fn lemma_failed(s: Run, i: int, f: Fault)
    requires
        0 <= i < s.asked.len(),
        s.replies[i].answer == Answer::Failed(f),
    ensures
        failed_with(s, i, f.spec_error()),
{
    reveal(fault_in);
}

/// What a read leaves behind.
pub proof fn lemma_look(r: Run, reg: u8, len: nat)
    requires
        r.left() >= 0,
    ensures
        ({
            let n = r.asked.len() as int;
            let q = Request::ReadBlock { reg, len };
            match read_block_run(r, reg, len) {
                (s, Ok(data)) => grows(r, s) && s.asked == r.asked.push(q) && read_at(s, n)
                    && block_at(s, n) == data && data.len() == len,
                (s, Err(Stop::Fail(e))) => grows(r, s) && s.asked == r.asked.push(q)
                    && failed_with(s, n, e) && (e is Device || e is FeatureMissing || e is I2C || e
                    is Io),
                (s, Err(Stop::Ask(a))) => s == r && a == q,
            }
        }),
{
    if let Answer::Failed(f) = r.replies[r.asked.len() as int].answer {
        if r.has_answer(Request::ReadBlock { reg, len }) {
            lemma_failed(read_block_run(r, reg, len).0, r.asked.len() as int, f);
        }
    }
}

/// The wait for an idle controller: CMD1, register 0x08, is read, with a pause of 10 ms between two
/// reads. Four zero bytes end the wait, `!CMD` fails it with `TypecController`; any other value is
/// read again until more than 2 s have passed since `start`, and only then fails it with
/// `ControllerTimeout`.
pub proof fn law_idle_wait(r: Run, start: u64)
    requires
        r.left() >= 0,
    ensures
        ({
            let (s, end) = await_idle_run(r, start);
            let (n, m) = (r.asked.len() as int, s.asked.len() as int);
            &&& grows(r, s)
            &&& forall|i: int|
                n <= i < m ==> #[trigger] s.asked[i] == if (i - n) % 2 == 0 {
                    Request::ReadBlock { reg: 0x08, len: 4 }
                } else {
                    Request::Sleep { nanos: 10_000_000 }
                }
            &&& forall|i: int|
                #![trigger read_at(s, i)]
                #![trigger block_at(s, i)]
                n <= i < m - 1 && (i - n) % 2 == 0 ==> read_at(s, i) && !all_zero(
                    block_at(s, i),
                ) && !says_unknown(block_at(s, i)) && clock(s, i + 1) - start <= 2_000_000_000
            &&& match end {
                Ok(()) => (m - n) % 2 == 1 && read_at(s, m - 1) && all_zero(block_at(s, m - 1)),
                Err(Stop::Fail(Error::TypecController)) => (m - n) % 2 == 1 && read_at(s, m - 1)
                    && says_unknown(block_at(s, m - 1)),
                Err(Stop::Fail(Error::ControllerTimeout)) => (m - n) % 2 == 1 && read_at(s, m - 1)
                    && !all_zero(block_at(s, m - 1)) && !says_unknown(block_at(s, m - 1)) && clock(
                    s,
                    m,
                ) - start > 2_000_000_000,
                Err(Stop::Fail(e)) => (m - n) % 2 == 1 && failed_with(s, m - 1, e),
                Err(Stop::Ask(q)) => if (m - n) % 2 == 0 {
                    q == (Request::ReadBlock { reg: 0x08, len: 4 })
                } else {
                    q == (Request::Sleep { nanos: 10_000_000 }) && read_at(s, m - 1) && !all_zero(
                        block_at(s, m - 1),
                    ) && !says_unknown(block_at(s, m - 1)) && clock(s, m) - start <= 2_000_000_000
                },
            }
        }),
    decreases r.left(),
{
    lemma_look(r, 0x08, 4);
    if let (r1, Ok(status)) = read_block_run(r, 0x08, 4) {
        lemma_words(status);
        if let (r2, Ok(())) = sleep_run(r1, 10_000_000) {
            law_idle_wait(r2, start);
        }
    }
}

/// The wait for the end of a command: CMD1, register 0x08, is read again and again. Four zero bytes
/// end the wait, `!CMD` fails it with `TypecController`; any other value is read again until more
/// than `timeout` has passed since `start`, and only then fails it with `ControllerTimeout`.
pub proof fn law_done_wait(r: Run, start: u64, timeout: u64)
    requires
        r.left() >= 0,
    ensures
        ({
            let (s, end) = await_done_run(r, start, timeout);
            let (n, m) = (r.asked.len() as int, s.asked.len() as int);
            &&& grows(r, s)
            &&& forall|i: int|
                n <= i < m ==> #[trigger] s.asked[i] == (Request::ReadBlock { reg: 0x08, len: 4 })
            &&& forall|i: int|
                #![trigger read_at(s, i)]
                #![trigger block_at(s, i)]
                n <= i < m - 1 ==> read_at(s, i) && !all_zero(block_at(s, i))
                    && !says_unknown(block_at(s, i)) && clock(s, i + 1) - start <= timeout
            &&& match end {
                Ok(()) => m > n && read_at(s, m - 1) && all_zero(block_at(s, m - 1)),
                Err(Stop::Fail(Error::TypecController)) => m > n && read_at(s, m - 1)
                    && says_unknown(block_at(s, m - 1)),
                Err(Stop::Fail(Error::ControllerTimeout)) => m > n && read_at(s, m - 1)
                    && !all_zero(block_at(s, m - 1)) && !says_unknown(block_at(s, m - 1)) && clock(
                    s,
                    m,
                ) - start > timeout,
                Err(Stop::Fail(e)) => m > n && failed_with(s, m - 1, e),
                Err(Stop::Ask(q)) => q == (Request::ReadBlock { reg: 0x08, len: 4 }) && (m > n
                    ==> read_at(s, m - 1) && !all_zero(block_at(s, m - 1)) && !says_unknown(
                    block_at(s, m - 1),
                ) && clock(s, m) - start <= timeout),
            }
        }),
    decreases r.left(),
{
    lemma_look(r, 0x08, 4);
    if let (r1, Ok(status)) = read_block_run(r, 0x08, 4) {
        lemma_words(status);
        if !says_unknown(status) && !all_zero(status) && clock(r1, r1.asked.len() as int) - start
            <= timeout {
            law_done_wait(r1, start, timeout);
        }
    }
}

/// The wait for a reply: the receive status, register 0x4d of 64 bytes, is read, with a pause of
/// 10 ms between two reads. The first read whose first byte is another than `before` ends the wait
/// with what was read; only where it still is the same after more than 2 s since `start` does the
/// wait fail with `VdmReplyTimeout`.
pub proof fn law_reply_wait(r: Run, before: u8, start: u64)
    requires
        r.left() >= 0,
    ensures
        ({
            let (s, end) = await_reply_run(r, before, start);
            let (n, m) = (r.asked.len() as int, s.asked.len() as int);
            &&& grows(r, s)
            &&& forall|i: int|
                n <= i < m ==> #[trigger] s.asked[i] == if (i - n) % 2 == 0 {
                    Request::ReadBlock { reg: 0x4d, len: 64 }
                } else {
                    Request::Sleep { nanos: 10_000_000 }
                }
            &&& forall|i: int|
                #![trigger read_at(s, i)]
                #![trigger block_at(s, i)]
                n <= i < m - 1 && (i - n) % 2 == 0 ==> read_at(s, i) && block_at(s, i)[0]
                    == before && clock(s, i + 1) - start <= 2_000_000_000
            &&& match end {
                Ok(reply) => (m - n) % 2 == 1 && read_at(s, m - 1) && reply == block_at(s, m - 1)
                    && reply.len() == 64 && reply[0] != before,
                Err(Stop::Fail(Error::VdmReplyTimeout)) => (m - n) % 2 == 1 && read_at(s, m - 1)
                    && block_at(s, m - 1)[0] == before && clock(s, m) - start > 2_000_000_000,
                Err(Stop::Fail(e)) => (m - n) % 2 == 1 && failed_with(s, m - 1, e),
                Err(Stop::Ask(q)) => if (m - n) % 2 == 0 {
                    q == (Request::ReadBlock { reg: 0x4d, len: 64 })
                } else {
                    q == (Request::Sleep { nanos: 10_000_000 }) && read_at(s, m - 1) && block_at(
                        s,
                        m - 1,
                    )[0] == before && clock(s, m) - start <= 2_000_000_000
                },
            }
        }),
    decreases r.left(),
{
    lemma_look(r, 0x4d, 64);
    if let (r1, Ok(reply)) = read_block_run(r, 0x4d, 64) {
        if let (r2, Ok(())) = sleep_run(r1, 10_000_000) {
            if reply[0] == before && clock(r1, r1.asked.len() as int) - start <= 2_000_000_000 {
                law_reply_wait(r2, before, start);
            }
        }
    }
}

/// Whether the `i`th request read the power status, register 0x3f, with the lowest bit of its first
/// byte set.
pub open spec fn sees_connection(s: Run, i: int) -> bool {
    &&& read_at(s, i)
    &&& s.asked[i] == (Request::ReadBlock { reg: 0x3f, len: 2 })
    &&& block_at(s, i)[0] % 2 == 1
}

/// The wait for a reconnect: the power status, register 0x3f, is read, with a pause of 100 ms after
/// each read that did not find the lowest bit of the first byte set or failed. The first read that
/// does ends the wait with success, whenever it comes; so the wait fails with `ReconnectTimeout`
/// only where no read found a connection, and after more than 3 s since `start`. It does not fail
/// in another way.
pub proof fn law_reconnect_wait(r: Run, start: u64)
    requires
        r.left() >= 0,
    ensures
        ({
            let (s, end) = await_connected_run(r, start);
            let (n, m) = (r.asked.len() as int, s.asked.len() as int);
            &&& grows(r, s)
            &&& forall|i: int|
                n <= i < m ==> #[trigger] s.asked[i] == if (i - n) % 2 == 0 {
                    Request::ReadBlock { reg: 0x3f, len: 2 }
                } else {
                    Request::Sleep { nanos: 100_000_000 }
                }
            &&& forall|i: int| n <= i < m - 1 ==> !#[trigger] sees_connection(s, i)
            &&& forall|i: int|
                n <= i < m - 1 && (i - n) % 2 == 1 ==> #[trigger] clock(s, i + 1) - start
                    <= 3_000_000_000
            &&& match end {
                Ok(()) => m > n && sees_connection(s, m - 1),
                Err(Stop::Fail(e)) => e == Error::ReconnectTimeout && m > n && (m - n) % 2 == 0
                    && !sees_connection(s, m - 1) && clock(s, m) - start > 3_000_000_000,
                Err(Stop::Ask(q)) => if (m - n) % 2 == 0 {
                    q == (Request::ReadBlock { reg: 0x3f, len: 2 })
                } else {
                    q == (Request::Sleep { nanos: 100_000_000 }) && !sees_connection(s, m - 1)
                },
            }
        }),
    decreases r.left(),
{
    lemma_look(r, 0x3f, 2);
    let (r1, looked) = check_connected_run(r);
    if looked !is Err || looked->Err_0 !is Ask {
        if looked != Ok::<bool, Stop>(true) {
            if let (r2, Ok(())) = sleep_run(r1, 100_000_000) {
                if clock(r2, r2.asked.len() as int) - start <= 3_000_000_000 {
                    law_reconnect_wait(r2, start);
                }
            }
        }
    }
}

/// Whether the `i`th reply names something that ends in `-partner` among what a port holds.
pub open spec fn shows_partner(s: Run, i: int) -> bool {
    s.replies[i].answer matches Answer::Ports(Some(ports)) && exists|p: int, c: int|
        0 <= p < ports@.len() && 0 <= c < ports@[p]@.len() && "-partner"@.is_suffix_of(
            #[trigger] ports@[p]@[c]@,
        )
}

pub proof fn lemma_shows_partner(s: Run, i: int)
    requires
        s.replies[i].answer is Ports,
    ensures
        shows_partner(s, i) <==> holds_partner(s.replies[i].answer->Ports_0),
{
    if let Some(ports) = s.replies[i].answer->Ports_0 {
        if shows_partner(s, i) {
            let (p, c) = choose|p: int, c: int|
                0 <= p < ports@.len() && 0 <= c < ports@[p]@.len() && "-partner"@.is_suffix_of(
                    #[trigger] ports@[p]@[c]@,
                );
            assert(is_partner_name(ports@[p]@[c]@));
            assert(port_holds_partner(ports@[p]@));
        }
        if holds_partner(Some(ports)) {
            let p = choose|p: int|
                0 <= p < ports@.len() && port_holds_partner(#[trigger] ports@[p]@);
            let c = choose|c: int|
                0 <= c < ports@[p]@.len() && is_partner_name(
                    #[trigger] ports@[p]@[c]@,
                );
            assert("-partner"@.is_suffix_of(ports@[p]@[c]@));
        }
    }
}

/// The wait for a partner: the ports of the device are listed, with a pause of 100 ms after each
/// listing without a partner, while less than 3 s have passed since `start`. The first listing with
/// a partner ends the wait; so does the time, and either way nothing has failed.
pub proof fn law_partner_wait(r: Run, device: Seq<char>, start: u64)
    requires
        r.left() >= 0,
        device.len() > 0,
        device.last() != '/',
    ensures
        ({
            let (s, end) = await_partner_run(r, device, start);
            let (n, m) = (r.asked.len() as int, s.asked.len() as int);
            let listing = Request::ListPorts { dir: device + "/typec"@ };
            &&& grows(r, s)
            &&& forall|i: int|
                n <= i < m ==> #[trigger] s.asked[i] == if (i - n) % 2 == 0 {
                    listing
                } else {
                    Request::Sleep { nanos: 100_000_000 }
                }
            &&& forall|i: int|
                #![trigger s.replies[i]]
                #![trigger shows_partner(s, i)]
                n <= i < m && (i - n) % 2 == 0 ==> s.replies[i].answer is Ports && (i < m - 1
                    ==> !shows_partner(s, i)) && clock(s, i) - start < 3_000_000_000
            &&& match end {
                Ok(()) => if (m - n) % 2 == 1 {
                    shows_partner(s, m - 1)
                } else {
                    clock(s, m) - start >= 3_000_000_000
                },
                Err(Stop::Fail(_)) => false,
                Err(Stop::Ask(q)) => if (m - n) % 2 == 0 {
                    q == listing && clock(s, m) - start < 3_000_000_000
                } else {
                    q == (Request::Sleep { nanos: 100_000_000 }) && !shows_partner(s, m - 1)
                },
            }
        }),
    decreases r.left(),
{
    reveal_strlit("typec");
    reveal_strlit("/typec");
    reveal_strlit("/");
    assert("/typec"@ =~= "/"@ + "typec"@);
    assert(device + "/"@ + "typec"@ =~= device + "/typec"@);
    let (r1, looked) = partner_run(r, device);
    if looked is Ok {
        lemma_shows_partner(r1, r.asked.len() as int);
        if let (r2, Ok(())) = sleep_run(r1, 100_000_000) {
            if clock(r, r.asked.len() as int) - start < 3_000_000_000 {
                law_partner_wait(r2, device, start);
            }
        }
    }
}

/// Whether a text is `word` with nothing but white space around it.
pub open spec fn reads_as(text: Seq<char>, word: Seq<char>) -> bool {
    exists|a: int, b: int|
        0 <= a <= b <= text.len() && #[trigger] text.subrange(a, b) == word && (forall|k: int|
            0 <= k < a || b <= k < text.len() ==> is_white_space(#[trigger] text[k]))
}

proof fn lemma_trimmed_is_inside(t: Seq<char>) -> (ab: (int, int))
    ensures
        0 <= ab.0 <= ab.1 <= t.len(),
        trimmed(t) == t.subrange(ab.0, ab.1),
        forall|k: int| 0 <= k < ab.0 || ab.1 <= k < t.len() ==> is_white_space(#[trigger] t[k]),
    decreases t.len(),
{
    if t.len() > 0 && is_white_space(t.first()) {
        let rest = t.drop_first();
        let (a, b) = lemma_trimmed_is_inside(rest);
        assert(rest.subrange(a, b) =~= t.subrange(a + 1, b + 1));
        assert forall|k: int| 0 <= k < a + 1 || b + 1 <= k < t.len() implies is_white_space(
            #[trigger] t[k],
        ) by {
            if k > 0 {
                assert(rest[k - 1] == t[k]);
            }
        }
        (a + 1, b + 1)
    } else if t.len() > 0 && is_white_space(t.last()) {
        let rest = t.drop_last();
        let (a, b) = lemma_trimmed_is_inside(rest);
        assert(rest.subrange(a, b) =~= t.subrange(a, b));
        assert forall|k: int| 0 <= k < a || b <= k < t.len() implies is_white_space(
            #[trigger] t[k],
        ) by {
            if k < rest.len() {
                assert(rest[k] == t[k]);
            }
        }
        (a, b)
    } else {
        assert(t.subrange(0, t.len() as int) =~= t);
        (0, t.len() as int)
    }
}

proof fn lemma_trimmed_of(t: Seq<char>, a: int, b: int)
    requires
        0 <= a < b <= t.len(),
        forall|k: int| 0 <= k < a || b <= k < t.len() ==> is_white_space(#[trigger] t[k]),
        !is_white_space(t[a]),
        !is_white_space(t[b - 1]),
    ensures
        trimmed(t) == t.subrange(a, b),
    decreases t.len(),
{
    if is_white_space(t.first()) {
        let rest = t.drop_first();
        assert forall|k: int| 0 <= k < a - 1 || b - 1 <= k < rest.len() implies is_white_space(
            #[trigger] rest[k],
        ) by {
            assert(t[k + 1] == rest[k]);
        }
        lemma_trimmed_of(rest, a - 1, b - 1);
        assert(rest.subrange(a - 1, b - 1) =~= t.subrange(a, b));
    } else if is_white_space(t.last()) {
        let rest = t.drop_last();
        assert(a == 0);
        assert forall|k: int| 0 <= k < a || b <= k < rest.len() implies is_white_space(
            #[trigger] rest[k],
        ) by {
            assert(t[k] == rest[k]);
        }
        lemma_trimmed_of(rest, a, b);
        assert(rest.subrange(a, b) =~= t.subrange(a, b));
    } else {
        assert(a == 0 && b == t.len());
        assert(t.subrange(a, b) =~= t);
    }
}

/// A text without its white space is a word without white space at its ends just where the text is
/// that word with nothing but white space around it.
pub proof fn law_trimmed(text: Seq<char>, word: Seq<char>)
    requires
        word.len() > 0,
        !is_white_space(word.first()),
        !is_white_space(word.last()),
    ensures
        trimmed(text) == word <==> reads_as(text, word),
{
    if trimmed(text) == word {
        let (a, b) = lemma_trimmed_is_inside(text);
        assert(text.subrange(a, b) == word);
    }
    if reads_as(text, word) {
        let (a, b) = choose|a: int, b: int|
            0 <= a <= b <= text.len() && #[trigger] text.subrange(a, b) == word && (forall|k: int|
                0 <= k < a || b <= k < text.len() ==> is_white_space(#[trigger] text[k]));
        assert(text[a] == word.first());
        assert(text[b - 1] == word.last());
        lemma_trimmed_of(text, a, b);
    }
}

/// Whether a USB device shows the ids 05ac and 1881.
pub open spec fn shows_ids(entry: UsbEntry) -> bool {
    &&& entry.id_vendor matches Some(vendor) && reads_as(vendor@, "05ac"@)
    &&& entry.id_product matches Some(product) && reads_as(product@, "1881"@)
}

proof fn lemma_shows_ids(entry: UsbEntry)
    ensures
        shows_ids(entry) <==> is_debugusb(entry),
{
    reveal_strlit("05ac");
    reveal_strlit("1881");
    if let Some(vendor) = entry.id_vendor {
        law_trimmed(vendor@, "05ac"@);
    }
    if let Some(product) = entry.id_product {
        law_trimmed(product@, "1881"@);
    }
}

/// What a file reads as: there is nothing just where the file could not be read; and a word without
/// white space at its ends just where the file holds that word with nothing but white space around
/// it.
pub proof fn law_read(value: Option<String>, word: Seq<char>)
    requires
        word.len() > 0,
        !is_white_space(word.first()),
        !is_white_space(word.last()),
    ensures
        trimmed_text(value) is None <==> value is None,
        trimmed_text(value) == Some(word) <==> (value matches Some(v) && reads_as(v@, word)),
{
    if let Some(v) = value {
        law_trimmed(v@, word);
    }
}

/// The device that is taken is the first whose vendor id reads 05ac and whose product id reads
/// 1881, but for white space around them; where there is none, none is taken.
pub proof fn law_first_with_ids(entries: Seq<UsbEntry>)
    ensures
        match debugusb_path(entries) {
            Some(path) => exists|i: int|
                0 <= i < entries.len() && shows_ids(#[trigger] entries[i]) && path
                    == entries[i].path@ && (forall|j: int|
                    0 <= j < i ==> !shows_ids(#[trigger] entries[j])),
            None => forall|i: int| 0 <= i < entries.len() ==> !shows_ids(#[trigger] entries[i]),
        },
    decreases entries.len(),
{
    if entries.len() > 0 {
        lemma_shows_ids(entries[0]);
        let rest = entries.drop_first();
        if !shows_ids(entries[0]) {
            law_first_with_ids(rest);
            if debugusb_path(rest) is Some {
                let i = choose|i: int|
                    0 <= i < rest.len() && shows_ids(#[trigger] rest[i]) && debugusb_path(rest)->0
                        == rest[i].path@ && (forall|j: int|
                        0 <= j < i ==> !shows_ids(#[trigger] rest[j]));
                assert forall|j: int| 0 <= j < i + 1 implies !shows_ids(#[trigger] entries[j]) by {
                    if j > 0 {
                        assert(rest[j - 1] == entries[j]);
                    }
                }
                assert(shows_ids(entries[i + 1]));
            } else {
                assert forall|j: int| 0 <= j < entries.len() implies !shows_ids(
                    #[trigger] entries[j],
                ) by {
                    if j > 0 {
                        assert(rest[j - 1] == entries[j]);
                    }
                }
            }
        }
    }
}

/// Whether the `i`th reply lists a USB device with the ids 05ac and 1881.
pub open spec fn shows_debugusb(s: Run, i: int) -> bool {
    s.replies[i].answer matches Answer::UsbDevices(entries) && exists|k: int|
        0 <= k < entries@.len() && shows_ids(#[trigger] entries@[k])
}

/// Whether the `i`th reply lists the USB devices, and the first of them with the ids of the
/// DebugUSB function is at `path`.
pub open spec fn lists_debugusb(s: Run, i: int, path: Seq<char>) -> bool {
    s.replies[i].answer matches Answer::UsbDevices(entries) && exists|k: int|
        0 <= k < entries@.len() && shows_ids(#[trigger] entries@[k]) && path == entries@[k].path@
            && (forall|j: int| 0 <= j < k ==> !shows_ids(#[trigger] entries@[j]))
}

proof fn lemma_await_debugusb_wait(r: Run, start: u64)
    requires
        r.left() >= 0,
    ensures
        ({
            let (s, end) = await_debugusb_run(r, start);
            let (n, m) = (r.asked.len() as int, s.asked.len() as int);
            &&& grows(r, s)
            &&& forall|i: int|
                n <= i < m ==> #[trigger] s.asked[i] == if (i - n) % 2 == 0 {
                    Request::ScanUsb
                } else {
                    Request::Sleep { nanos: 100_000_000 }
                }
            &&& forall|i: int|
                #![trigger s.replies[i]]
                #![trigger shows_debugusb(s, i)]
                n <= i < m && (i - n) % 2 == 0 ==> clock(s, i) - start < 8_000_000_000 && (i < m - 1
                    ==> s.replies[i].answer is UsbDevices && !shows_debugusb(s, i))
            &&& match end {
                Ok(Some(path)) => (m - n) % 2 == 1 && shows_debugusb(s, m - 1) && lists_debugusb(
                    s,
                    m - 1,
                    path,
                ),
                Ok(None) => (m - n) % 2 == 0 && clock(s, m) - start >= 8_000_000_000,
                Err(Stop::Fail(e)) => (m - n) % 2 == 1 && failed_with(s, m - 1, e),
                Err(Stop::Ask(q)) => if (m - n) % 2 == 0 {
                    q is ScanUsb && clock(s, m) - start < 8_000_000_000
                } else {
                    q == (Request::Sleep { nanos: 100_000_000 }) && s.replies[m
                        - 1].answer is UsbDevices && !shows_debugusb(s, m - 1)
                },
            }
        }),
    decreases r.left(),
{
    let (r1, looked) = ask_run(r, Request::ScanUsb);
    let n = r.asked.len() as int;
    if r.has_answer(Request::ScanUsb) {
        if let Answer::Failed(f) = r.replies[n].answer {
            lemma_failed(r1, n, f);
        }
    }
    if let Ok(a) = looked {
        law_first_with_ids(a->UsbDevices_0@);
        if let (r2, Ok(())) = sleep_run(r1, 100_000_000) {
            if clock(r, n) - start < 8_000_000_000 && debugusb_path(a->UsbDevices_0@) is None {
                lemma_await_debugusb_wait(r2, start);
            }
        }
    }
}

/// The wait for the DebugUSB function: the USB devices are listed, with a pause of 100 ms after
/// each listing without the function, while less than 8 s have passed since the wait began. The
/// first listing with it ends the wait with success; so it is given up on only after 8 s, in which
/// no listing had it, and which were spent on nothing but listings and those pauses, in turn. What
/// is found is the path of the first device with the ids of the function.
pub proof fn law_debugusb_wait(r: Run)
    requires
        r.left() >= 0,
    ensures
        ({
            let (s, end) = wait_for_debugusb_run(r);
            let (n, m) = (r.asked.len() as int, s.asked.len() as int);
            let start = clock(r, n);
            &&& grows(r, s)
            &&& forall|i: int|
                n <= i < m ==> #[trigger] s.asked[i] == if (i - n) % 2 == 0 {
                    Request::ScanUsb
                } else {
                    Request::Sleep { nanos: 100_000_000 }
                }
            &&& forall|i: int|
                #![trigger s.replies[i]]
                #![trigger shows_debugusb(s, i)]
                n <= i < m && (i - n) % 2 == 0 ==> clock(s, i) - start < 8_000_000_000 && (i < m - 1
                    ==> s.replies[i].answer is UsbDevices && !shows_debugusb(s, i))
            &&& match end {
                Ok(Some(path)) => (m - n) % 2 == 1 && shows_debugusb(s, m - 1) && lists_debugusb(
                    s,
                    m - 1,
                    path,
                ),
                Ok(None) => (m - n) % 2 == 0 && clock(s, m) - start >= 8_000_000_000,
                Err(Stop::Fail(e)) => (m - n) % 2 == 1 && failed_with(s, m - 1, e),
                Err(Stop::Ask(q)) => if (m - n) % 2 == 0 {
                    q is ScanUsb && clock(s, m) - start < 8_000_000_000
                } else {
                    q == (Request::Sleep { nanos: 100_000_000 }) && s.replies[m
                        - 1].answer is UsbDevices && !shows_debugusb(s, m - 1)
                },
            }
        }),
{
    lemma_await_debugusb_wait(r, r.now());
}

} // verus!
