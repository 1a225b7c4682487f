//! What a conversation with the controller is: for each operation, what it asks for next and how
//! it ends, given the replies that there are.
use crate::cd321x::{
    all_le_bytes, invalid_cmd, le_u32, mode_named, TpsMode, VdmSopType, BUSY_WAIT,
    CMD_IDLE_TIMEOUT, CMD_TIMEOUT, POLL_WAIT, RECONNECT_TIMEOUT, RECONNECT_WAIT, RETRY_WAIT,
    TPS_REG_CMD1, TPS_REG_DATA1, TPS_REG_MODE, TPS_REG_POWER_STATUS, TPS_REG_VDM_RX_STATUS,
    VDM_CMD_TIMEOUT, VDM_REPLY_TIMEOUT,
};
use crate::error::Error;
use crate::host::{
    do_run, elapsed, read_block_run, sleep_run, then, write_block_run, Request, Run, Stop,
};
use vstd::prelude::*;
use vstd::utf8::decode_utf8;

verus! {

/// `LOCK`
pub open spec fn tag_lock() -> Seq<u8> {
    seq![0x4cu8, 0x4f, 0x43, 0x4b]
}

/// `DBMa`
pub open spec fn tag_dbma() -> Seq<u8> {
    seq![0x44u8, 0x42, 0x4d, 0x61]
}

/// `VDMs`
pub open spec fn tag_vdms() -> Seq<u8> {
    seq![0x56u8, 0x44, 0x4d, 0x73]
}

/// `DVEn`
pub open spec fn tag_dven() -> Seq<u8> {
    seq![0x44u8, 0x56, 0x45, 0x6e]
}

/// `DISC`
pub open spec fn tag_disc() -> Seq<u8> {
    seq![0x44u8, 0x49, 0x53, 0x43]
}

/// `Gaid`
pub open spec fn tag_gaid() -> Seq<u8> {
    seq![0x47u8, 0x61, 0x69, 0x64]
}

/// The message that puts the target into DFU mode.
pub open spec fn vdos_dfu() -> Seq<u32> {
    seq![0x5ac8012u32, 0x106, 0x80010000]
}

/// The message that reboots the target.
pub open spec fn vdos_reboot() -> Seq<u32> {
    seq![0x5ac8012u32, 0x105, 0x80000000]
}

/// The message that puts the target into serial mode.
pub open spec fn vdos_serial() -> Seq<u32> {
    seq![0x5ac8012u32, 0x1840306]
}

/// The message that puts the target into DebugUSB mode.
pub open spec fn vdos_debugusb() -> Seq<u32> {
    seq![0x5ac8012u32, 0x1824606]
}

/// The failure `e`.
pub open spec fn fail<T>(e: Error) -> Result<T, Stop> {
    Err(Stop::Fail(e))
}

/// Reads the mode of the controller.
pub open spec fn get_mode_run(r: Run) -> (Run, Result<TpsMode, Stop>) {
    then(
        read_block_run(r, TPS_REG_MODE, 4),
        |r1: Run, name: Seq<u8>|
            match mode_named(decode_utf8(name)) {
                Some(mode) => (r1, Ok(mode)),
                None => (r1, fail(Error::TypecController)),
            },
    )
}

/// Makes sure that the controller is in DBMa mode.
pub open spec fn expect_dbma_run(r: Run) -> (Run, Result<(), Stop>) {
    then(
        get_mode_run(r),
        |r1: Run, mode: TpsMode|
            if mode == TpsMode::Dbma {
                (r1, Ok(()))
            } else {
                (r1, fail(Error::TypecController))
            },
    )
}

/// Looks at CMD1, with pauses, until no command is running: it may have been busy for
/// `CMD_IDLE_TIMEOUT` since `start`.
pub open spec fn await_idle_run(r: Run, start: u64) -> (Run, Result<(), Stop>)
    decreases r.left(),
{
    match read_block_run(r, TPS_REG_CMD1, 4) {
        (r1, Ok(status)) => if le_u32(status) == 0 {
            (r1, Ok(()))
        } else if invalid_cmd(le_u32(status)) {
            (r1, fail(Error::TypecController))
        } else if elapsed(start, r1.now()) > CMD_IDLE_TIMEOUT {
            (r1, fail(Error::ControllerTimeout))
        } else {
            match sleep_run(r1, BUSY_WAIT) {
                (r2, Ok(())) => await_idle_run(r2, start),
                stopped => stopped,
            }
        },
        (r1, Err(s)) => (r1, Err(s)),
    }
}

/// Looks at CMD1 until the command is done: it may have taken `timeout` since `start`.
pub open spec fn await_done_run(r: Run, start: u64, timeout: u64) -> (Run, Result<(), Stop>)
    decreases r.left(),
{
    match read_block_run(r, TPS_REG_CMD1, 4) {
        (r1, Ok(status)) => if invalid_cmd(le_u32(status)) {
            (r1, fail(Error::TypecController))
        } else if le_u32(status) == 0 {
            (r1, Ok(()))
        } else if elapsed(start, r1.now()) > timeout {
            (r1, fail(Error::ControllerTimeout))
        } else {
            await_done_run(r1, start, timeout)
        },
        (r1, Err(s)) => (r1, Err(s)),
    }
}

/// Writes what a command works on, if there is anything.
pub open spec fn write_input_run(r: Run, data: Seq<u8>) -> (Run, Result<(), Stop>) {
    if data.len() == 0 {
        (r, Ok(()))
    } else {
        write_block_run(r, TPS_REG_DATA1, data)
    }
}

/// A command, from the wait for the one before it to the wait for its own end.
#[verifier::opaque]
pub open spec fn exec_cmd_with_timing_run(
    r: Run,
    tag: Seq<u8>,
    data: Seq<u8>,
    timeout: u64,
    delay: u64,
) -> (Run, Result<(), Stop>) {
    then(
        await_idle_run(r, r.now()),
        |r1: Run, _u: ()|
            then(
                write_input_run(r1, data),
                |r2: Run, _u: ()|
                    then(
                        write_block_run(r2, TPS_REG_CMD1, tag),
                        |r3: Run, _u: ()|
                            then(
                                await_done_run(r3, r3.now(), timeout),
                                |r4: Run, _u: ()| sleep_run(r4, delay),
                            ),
                    ),
            ),
    )
}

/// A command that may take `CMD_TIMEOUT`.
pub open spec fn exec_cmd_run(r: Run, tag: Seq<u8>, data: Seq<u8>) -> (Run, Result<(), Stop>) {
    exec_cmd_with_timing_run(r, tag, data, CMD_TIMEOUT, 0)
}

/// Unlocks the controller with its key, or locks it with zeros.
pub open spec fn lock_run(r: Run, key: Seq<u8>) -> (Run, Result<(), Stop>) {
    exec_cmd_run(r, tag_lock(), key)
}

/// Turns DBMa mode on or off. Either way the controller has to be in DBMa mode afterwards.
pub open spec fn dbma_run(r: Run, debug: bool) -> (Run, Result<(), Stop>) {
    then(
        exec_cmd_run(r, tag_dbma(), seq![if debug { 1u8 } else { 0u8 }]),
        |r1: Run, _u: ()| expect_dbma_run(r1),
    )
}

/// A message as the controller takes it: whom it is for and how many words it has, then the
/// words.
pub open spec fn vdm_data(sop: VdmSopType, vdos: Seq<u32>) -> Seq<u8> {
    seq![(sop.spec_code() * 16 + vdos.len()) as u8] + all_le_bytes(vdos)
}

/// The first word of the reply that acknowledges a message.
pub open spec fn ack_header(vdos: Seq<u32>) -> u32 {
    vdos[0] | 0x40u32
}

/// Looks at the receive status, with pauses, until it is another than `before`: that may take
/// `VDM_REPLY_TIMEOUT` from `start`.
pub open spec fn await_reply_run(r: Run, before: u8, start: u64) -> (Run, Result<Seq<u8>, Stop>)
    decreases r.left(),
{
    match read_block_run(r, TPS_REG_VDM_RX_STATUS, 64) {
        (r1, Ok(reply)) => if reply[0] != before {
            (r1, Ok(reply))
        } else if elapsed(start, r1.now()) > VDM_REPLY_TIMEOUT {
            (r1, fail(Error::VdmReplyTimeout))
        } else {
            match sleep_run(r1, BUSY_WAIT) {
                (r2, Ok(())) => await_reply_run(r2, before, start),
                (r2, Err(s)) => (r2, Err(s)),
            }
        },
        (r1, Err(s)) => (r1, Err(s)),
    }
}

/// Sends a message, and waits for the target to acknowledge it.
#[verifier::opaque]
pub open spec fn vdms_run(r: Run, sop: VdmSopType, vdos: Seq<u32>) -> (Run, Result<(), Stop>) {
    if vdos.len() == 0 || vdos.len() > 7 {
        (r, fail(Error::InvalidArgument))
    } else {
        then(
            expect_dbma_run(r),
            |r1: Run, _u: ()|
                then(
                    read_block_run(r1, TPS_REG_VDM_RX_STATUS, 64),
                    |r2: Run, before: Seq<u8>|
                        then(
                            exec_cmd_with_timing_run(
                                r2,
                                tag_vdms(),
                                vdm_data(sop, vdos),
                                VDM_CMD_TIMEOUT,
                                0,
                            ),
                            |r3: Run, _u: ()|
                                then(
                                    await_reply_run(r3, before[0], r3.now()),
                                    |r4: Run, reply: Seq<u8>|
                                        if le_u32(reply.subrange(1, 5)) == ack_header(vdos) {
                                            (r4, Ok(()))
                                        } else {
                                            (r4, fail(Error::VdmRejected))
                                        },
                                ),
                        ),
                ),
        )
    }
}

/// Puts the local end into a mode that vendor messages describe.
pub open spec fn dven_run(r: Run, vdos: Seq<u32>) -> (Run, Result<(), Stop>) {
    exec_cmd_run(r, tag_dven(), all_le_bytes(vdos))
}

/// Tells whether something is connected.
pub open spec fn check_connected_run(r: Run) -> (Run, Result<bool, Stop>) {
    then(
        read_block_run(r, TPS_REG_POWER_STATUS, 2),
        |r1: Run, status: Seq<u8>| (r1, Ok(status[0] % 2 == 1)),
    )
}

/// Looks, with pauses, until something is connected: that may take `RECONNECT_TIMEOUT` from
/// `start`. A look that fails finds nothing.
pub open spec fn await_connected_run(r: Run, start: u64) -> (Run, Result<(), Stop>)
    decreases r.left(),
{
    match check_connected_run(r) {
        (r1, Err(Stop::Ask(q))) => (r1, Err(Stop::Ask(q))),
        (r1, looked) => if looked == Ok::<bool, Stop>(true) {
            (r1, Ok(()))
        } else {
            match sleep_run(r1, POLL_WAIT) {
                (r2, Ok(())) => if elapsed(start, r2.now()) > RECONNECT_TIMEOUT {
                    (r2, fail(Error::ReconnectTimeout))
                } else {
                    await_connected_run(r2, start)
                },
                stopped => stopped,
            }
        },
    }
}

/// Reboots the target.
pub open spec fn reboot_run(r: Run) -> (Run, Result<(), Stop>) {
    vdms_run(r, VdmSopType::SopStar, vdos_reboot())
}

/// Reboots the target, and waits until it is connected again.
pub open spec fn reboot_wait_run(r: Run) -> (Run, Result<(), Stop>) {
    then(
        reboot_run(r),
        |r1: Run, _u: ()|
            then(
                sleep_run(r1, RECONNECT_WAIT),
                |r2: Run, _u: ()|
                    then(
                        await_connected_run(r2, r2.now()),
                        |r3: Run, _u: ()| sleep_run(r3, RECONNECT_WAIT),
                    ),
            ),
    )
}

/// Sends a message to the target until the controller takes it: while less than
/// `RECONNECT_TIMEOUT` has passed since `start`, a controller that is too busy is tried again.
pub open spec fn insist_run(r: Run, vdos: Seq<u32>, start: u64) -> (Run, Result<(), Stop>)
    decreases r.left(),
    via insist_run_decreases
{
    match vdms_run(r, VdmSopType::SopStar, vdos) {
        (r1, Err(Stop::Fail(Error::ControllerTimeout))) => if elapsed(start, r1.now())
            < RECONNECT_TIMEOUT {
            match sleep_run(r1, RETRY_WAIT) {
                (r2, Ok(())) => insist_run(r2, vdos, start),
                stopped => stopped,
            }
        } else {
            (r1, fail(Error::ControllerTimeout))
        },
        ended => ended,
    }
}

/// Puts the target, then the local end, into serial mode.
pub open spec fn serial_run(r: Run) -> (Run, Result<(), Stop>) {
    then(
        insist_run(r, vdos_serial(), r.now()),
        |r1: Run, _u: ()|
            then(
                expect_dbma_run(r1),
                |r2: Run, _u: ()| dven_run(r2, vdos_serial().subrange(1, 2)),
            ),
    )
}

/// Puts the target into DebugUSB mode.
pub open spec fn debugusb_run(r: Run) -> (Run, Result<(), Stop>) {
    insist_run(r, vdos_debugusb(), r.now())
}

/// Puts the target into DFU mode.
pub open spec fn dfu_run(r: Run) -> (Run, Result<(), Stop>) {
    vdms_run(r, VdmSopType::SopStar, vdos_dfu())
}

/// Acts as if the cable were pulled and plugged in again.
pub open spec fn disconnect_run(r: Run) -> (Run, Result<(), Stop>) {
    exec_cmd_run(r, tag_disc(), seq![3u8])
}

/// Resets the controller itself: nothing is read, before or after.
pub open spec fn reset_run(r: Run) -> (Run, Result<(), Stop>) {
    write_block_run(r, TPS_REG_CMD1, tag_gaid())
}

/// Goes on with `rest` whether the part before it has succeeded or failed; only a part that waits
/// for the host holds it up.
pub open spec fn regardless<A, B>(
    part: (Run, Result<A, Stop>),
    rest: spec_fn(Run) -> (Run, Result<B, Stop>),
) -> (Run, Result<B, Stop>) {
    match part {
        (r, Err(Stop::Ask(q))) => (r, Err(Stop::Ask(q))),
        (r, _) => rest(r),
    }
}

/// Leaves the controller as it was: DBMa mode off, locked, and the bus closed. After a reset only
/// the bus is closed.
#[verifier::opaque]
pub open spec fn drop_run(r: Run, skip_shutdown: bool) -> (Run, Result<(), Stop>) {
    if skip_shutdown {
        do_run(r, Request::CloseBus)
    } else {
        regardless(
            dbma_run(r, false),
            |r1: Run|
                regardless(
                    lock_run(r1, seq![0u8, 0, 0, 0]),
                    |r2: Run| do_run(r2, Request::CloseBus),
                ),
        )
    }
}

/// Brings the controller into DBMa mode, unless it is in it already.
pub open spec fn enter_run(r: Run, key: Seq<u8>) -> (Run, Result<(), Stop>) {
    then(
        get_mode_run(r),
        |r1: Run, mode: TpsMode|
            if mode == TpsMode::App {
                then(lock_run(r1, key), |r2: Run, _u: ()| dbma_run(r2, true))
            } else if mode == TpsMode::Dbma {
                (r1, Ok(()))
            } else {
                (r1, fail(Error::TypecController))
            },
    )
}

/// What follows a part that has ended: the controller is left as it was, and the part's own result
/// stands. A part that waits for the host has not ended.
pub open spec fn leave_run(part: (Run, Result<(), Stop>), skip_shutdown: bool) -> (
    Run,
    Result<(), Stop>,
) {
    regardless(
        part,
        |r1: Run|
            match drop_run(r1, skip_shutdown) {
                (r2, Ok(())) => (r2, part.1),
                (r2, Err(s)) => (r2, Err(s)),
            },
    )
}

/// Takes the controller over. Where that fails, it is left as it was.
#[verifier::opaque]
pub open spec fn new_run(r: Run, key: Seq<u8>) -> (Run, Result<(), Stop>) {
    match enter_run(r, key) {
        (r1, Ok(())) => (r1, Ok(())),
        failed => leave_run(failed, false),
    }
}

/// A run asks for nothing twice: what has been asked for stays, and so do the replies.
pub open spec fn grows(r: Run, r1: Run) -> bool {
    &&& r1.replies == r.replies
    &&& r.asked.len() <= r1.asked.len() <= r1.replies.len()
    &&& forall|i: int| 0 <= i < r.asked.len() ==> r1.asked[i] == r.asked[i]
}

proof fn lemma_await_idle_grows(r: Run, start: u64)
    requires
        r.left() >= 0,
    ensures
        grows(r, await_idle_run(r, start).0),
    decreases r.left(),
{
    if let (r1, Ok(status)) = read_block_run(r, TPS_REG_CMD1, 4) {
        if let (r2, Ok(())) = sleep_run(r1, BUSY_WAIT) {
            lemma_await_idle_grows(r2, start);
        }
    }
}

proof fn lemma_await_done_grows(r: Run, start: u64, timeout: u64)
    requires
        r.left() >= 0,
    ensures
        grows(r, await_done_run(r, start, timeout).0),
    decreases r.left(),
{
    if let (r1, Ok(status)) = read_block_run(r, TPS_REG_CMD1, 4) {
        lemma_await_done_grows(r1, start, timeout);
    }
}

proof fn lemma_await_reply_grows(r: Run, before: u8, start: u64)
    requires
        r.left() >= 0,
    ensures
        grows(r, await_reply_run(r, before, start).0),
    decreases r.left(),
{
    if let (r1, Ok(reply)) = read_block_run(r, TPS_REG_VDM_RX_STATUS, 64) {
        if let (r2, Ok(())) = sleep_run(r1, BUSY_WAIT) {
            lemma_await_reply_grows(r2, before, start);
        }
    }
}

proof fn lemma_exec_cmd_grows(r: Run, tag: Seq<u8>, data: Seq<u8>, timeout: u64, delay: u64)
    requires
        r.left() >= 0,
    ensures
        grows(r, exec_cmd_with_timing_run(r, tag, data, timeout, delay).0),
{
    reveal(exec_cmd_with_timing_run);
    lemma_await_idle_grows(r, r.now());
    if let (r1, Ok(())) = await_idle_run(r, r.now()) {
        if let (r2, Ok(())) = write_input_run(r1, data) {
            if let (r3, Ok(())) = write_block_run(r2, TPS_REG_CMD1, tag) {
                lemma_await_done_grows(r3, r3.now(), timeout);
            }
        }
    }
}

/// A message only adds to what has been asked for.
pub proof fn lemma_vdms_grows(r: Run, sop: VdmSopType, vdos: Seq<u32>)
    requires
        r.left() >= 0,
    ensures
        grows(r, vdms_run(r, sop, vdos).0),
{
    reveal(vdms_run);
    if let (r1, Ok(())) = expect_dbma_run(r) {
        if let (r2, Ok(before)) = read_block_run(r1, TPS_REG_VDM_RX_STATUS, 64) {
            let sent = exec_cmd_with_timing_run(
                r2,
                tag_vdms(),
                vdm_data(sop, vdos),
                VDM_CMD_TIMEOUT,
                0,
            );
            lemma_exec_cmd_grows(r2, tag_vdms(), vdm_data(sop, vdos), VDM_CMD_TIMEOUT, 0);
            if let (r3, Ok(())) = sent {
                lemma_await_reply_grows(r3, before[0], r3.now());
            }
        }
    }
}

#[via_fn]
proof fn insist_run_decreases(r: Run, vdos: Seq<u32>, start: u64) {
    if r.left() >= 0 {
        lemma_vdms_grows(r, VdmSopType::SopStar, vdos);
    } else {
        reveal(vdms_run);
    }
}

} // verus!
