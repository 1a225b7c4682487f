//! What can be said of everything that a run has asked for.
use crate::cd321x::{le_u32, VdmSopType, TPS_REG_CMD1, TPS_REG_DATA1};
use crate::host::{ask_run, Answer, Reply, Request, Run, Stop};
use crate::path::joined;
use crate::protocol::{grows, tag_gaid, tag_vdms, vdm_data, vdos_debugusb, vdos_reboot};
use crate::sysfs::drives_hpm;
use vstd::prelude::*;

verus! {

/// Whether the bus is open after `asked`: the last request about it opened it.
pub open spec fn bus_open(replies: Seq<Reply>, asked: Seq<Request>) -> bool
    decreases asked.len(),
{
    if asked.len() == 0 {
        false
    } else {
        match asked.last() {
            Request::OpenBus { .. } => replies[asked.len() - 1].answer is Done,
            Request::CloseBus => false,
            _ => bus_open(replies, asked.drop_last()),
        }
    }
}

/// Whether the bus is open where a run is.
pub open spec fn is_open(r: Run) -> bool {
    bus_open(r.replies, r.asked)
}

/// Whether a request goes through the bus.
pub open spec fn touches_bus(q: Request) -> bool {
    q is ReadBlock || q is WriteBlock
}

/// Whether the `i`th request found that no command was running.
pub open spec fn idle_at(r: Run, i: int) -> bool {
    &&& 0 <= i < r.asked.len()
    &&& r.asked[i] == (Request::ReadBlock { reg: TPS_REG_CMD1, len: 4 })
    &&& r.replies[i].answer matches Answer::Block { reg: _, data } && le_u32(data@) == 0
}

/// Whether a request submits a command, other than the one that resets the controller.
pub open spec fn submits(q: Request) -> bool {
    q matches Request::WriteBlock { reg, data } && reg == TPS_REG_CMD1 && data != tag_gaid()
}

/// Whether a request writes what a command works on.
pub open spec fn writes_input(q: Request) -> bool {
    q matches Request::WriteBlock { reg, data } && reg == TPS_REG_DATA1
}

/// Whether the `i`th request disturbs no command: what is submitted, and what it works on, is
/// written right after the controller was found idle.
pub open spec fn disturbs_nothing(r: Run, i: int) -> bool {
    &&& writes_input(r.asked[i]) ==> idle_at(r, i - 1)
    &&& submits(r.asked[i]) ==> idle_at(r, i - 1) || i > 0 && writes_input(r.asked[i - 1])
        && idle_at(r, i - 2)
}

/// The driver that the `j`th request found.
pub open spec fn driver_at(r: Run, j: int) -> Seq<char> {
    r.replies[j].answer->Driver_0->0@
}

/// Whether the `j`th request looked for the driver of the device `id` on an I2C bus, and found that
/// of the controller.
pub open spec fn found_driver_at(r: Run, j: int, id: Seq<char>) -> bool {
    &&& 0 <= j < r.asked.len()
    &&& r.asked[j] == (Request::ResolveDriver {
        link: joined("/sys/bus/i2c/devices/"@ + id, "driver"@),
    })
    &&& r.replies[j].answer matches Answer::Driver(Some(path)) && drives_hpm(path@)
}

/// Whether the `i`th request, if it writes to a file of a driver, writes to `unbind` or `bind` of
/// the driver that was found for the device right before: the former first, then, after a pause,
/// the latter.
pub open spec fn writes_own_driver(r: Run, i: int) -> bool {
    r.asked[i] matches Request::WriteDriver { file, id } ==> {
        ||| found_driver_at(r, i - 1, id) && file == joined(driver_at(r, i - 1), "unbind"@)
        ||| found_driver_at(r, i - 3, id) && file == joined(driver_at(r, i - 3), "bind"@)
    }
}

/// Whether the `i`th request was answered, went through an open bus if it needed one, disturbed no
/// command, and wrote to no other driver than the one that was found.
pub open spec fn request_in_order(r: Run, i: int) -> bool {
    &&& r.replies[i].answer.answers(r.asked[i])
    &&& touches_bus(r.asked[i]) ==> bus_open(r.replies, r.asked.take(i))
    &&& disturbs_nothing(r, i)
    &&& writes_own_driver(r, i)
}

/// Whether everything that a run has asked for was in order.
pub open spec fn in_order(r: Run) -> bool {
    &&& r.asked.len() <= r.replies.len()
    &&& forall|i: int| 0 <= i < r.asked.len() ==> #[trigger] request_in_order(r, i)
}

/// How often a bus was opened, or tried to be.
pub open spec fn opens(asked: Seq<Request>) -> nat
    decreases asked.len(),
{
    if asked.len() == 0 {
        0
    } else {
        opens(asked.drop_last()) + if asked.last() is OpenBus {
            1nat
        } else {
            0
        }
    }
}

/// The message that reboots the target, as the controller takes it.
pub open spec fn reboot_data() -> Seq<u8> {
    vdm_data(VdmSopType::SopStar, vdos_reboot())
}

/// Whether the last request submits the message that reboots the target.
pub open spec fn ends_in_reboot(asked: Seq<Request>) -> bool {
    &&& asked.len() >= 2
    &&& asked.last() == (Request::WriteBlock { reg: TPS_REG_CMD1, data: tag_vdms() })
    &&& asked[asked.len() - 2] == (Request::WriteBlock { reg: TPS_REG_DATA1, data: reboot_data() })
}

/// How often the message that reboots the target was submitted.
pub open spec fn reboots(asked: Seq<Request>) -> nat
    decreases asked.len(),
{
    if asked.len() == 0 {
        0
    } else {
        reboots(asked.drop_last()) + if ends_in_reboot(asked) {
            1nat
        } else {
            0
        }
    }
}

/// The message that puts the target into DebugUSB mode, as the controller takes it.
pub open spec fn debugusb_data() -> Seq<u8> {
    vdm_data(VdmSopType::SopStar, vdos_debugusb())
}

/// Whether the `i`th request submits the message that puts the target into DebugUSB mode.
pub open spec fn arms_at(asked: Seq<Request>, i: int) -> bool {
    &&& 0 < i < asked.len()
    &&& asked[i] == (Request::WriteBlock { reg: TPS_REG_CMD1, data: tag_vdms() })
    &&& asked[i - 1] == (Request::WriteBlock { reg: TPS_REG_DATA1, data: debugusb_data() })
}

/// Whether that message was submitted since the bus was opened last.
pub open spec fn armed_in_session(asked: Seq<Request>) -> bool
    decreases asked.len(),
{
    asked.len() > 0 && asked.last() !is OpenBus && (arms_at(asked, asked.len() - 1)
        || armed_in_session(asked.drop_last()))
}

/// In how many sessions, each from one opening of the bus to the next, that message was submitted.
pub open spec fn armed_sessions(asked: Seq<Request>) -> nat
    decreases asked.len(),
{
    if asked.len() == 0 {
        0
    } else {
        armed_sessions(asked.drop_last()) + if arms_at(asked, asked.len() - 1)
            && !armed_in_session(asked.drop_last()) {
            1nat
        } else {
            0
        }
    }
}

/// Whether nothing that was asked for between `r` and `s` submits the message that puts the target
/// into DebugUSB mode.
pub open spec fn unarmed(r: Run, s: Run) -> bool {
    forall|i: int|
        #![trigger s.asked[i]]
        r.asked.len() <= i < s.asked.len() ==> !arms_at(s.asked, i)
}

/// Whether a request is about a controller that has been taken over: a register, a pause, or the
/// end of its use.
pub open spec fn about_controller(q: Request) -> bool {
    q is CloseBus || q is ReadBlock || q is WriteBlock || q is Sleep
}

/// Whether everything that was asked for between `r` and `s` is about the controller.
pub open spec fn only_controller(r: Run, s: Run) -> bool {
    forall|i: int| r.asked.len() <= i < s.asked.len() ==> about_controller(#[trigger] s.asked[i])
}

/// Whether a request is about sysfs, and changes nothing there but the driver of the device `id`.
pub open spec fn about_sysfs(q: Request, id: Seq<char>) -> bool {
    ||| q is Exists || q is ListPorts || q is ResolveDriver || q is ScanUsb || q is Sleep
    ||| q matches Request::WriteDriver { file: _, id: written } && written == id
}

/// Whether everything that was asked for between `r` and `s` is about sysfs, and changes nothing
/// there but the driver of the device `id`.
pub open spec fn only_sysfs(r: Run, s: Run, id: Seq<char>) -> bool {
    forall|i: int| r.asked.len() <= i < s.asked.len() ==> about_sysfs(#[trigger] s.asked[i], id)
}

/// Whether the way from `r` to `s` is one through an open bus: it stays open, everything is in
/// order, and the target is rebooted `most` times at the most.
pub open spec fn through_bus(r: Run, s: Run, most: nat) -> bool {
    &&& grows(r, s)
    &&& in_order(r) && is_open(r) ==> in_order(s) && is_open(s)
    &&& opens(s.asked) == opens(r.asked)
    &&& reboots(s.asked) <= reboots(r.asked) + most
    &&& only_controller(r, s)
}

/// Whether the way from `r` to `s` leaves the bus alone: it stays open or closed, and everything is
/// in order.
pub open spec fn beside_bus(r: Run, s: Run) -> bool {
    &&& grows(r, s)
    &&& in_order(r) ==> in_order(s)
    &&& is_open(s) == is_open(r)
    &&& opens(s.asked) == opens(r.asked)
    &&& reboots(s.asked) == reboots(r.asked)
}

/// Whether a part of a run has not ended, but waits for the host.
pub open spec fn waits<T>(end: Result<T, Stop>) -> bool {
    end matches Err(Stop::Ask(_))
}

/// Whether the way from `r`, with the bus open, is one to a closed bus: everything is in order, the
/// bus is closed in the end, and the target is rebooted `most` times at the most.
pub open spec fn to_closed_bus<T>(r: Run, end: (Run, Result<T, Stop>), most: nat) -> bool {
    &&& grows(r, end.0)
    &&& in_order(r) && is_open(r) ==> in_order(end.0)
    &&& !waits(end.1) ==> !is_open(end.0)
    &&& opens(end.0.asked) == opens(r.asked)
    &&& reboots(end.0.asked) <= reboots(r.asked) + most
    &&& only_controller(r, end.0)
}

/// A run with only the first `n` replies.
pub open spec fn cut(r: Run, n: int) -> Run {
    Run { replies: r.replies.take(n), asked: r.asked }
}

/// Whether `whole`, which went on from `r`, can be replayed: `part` is what it is when there are
/// only the first `n` replies. That is the same, unless it needed more replies; then it asks for
/// what `whole` asked for next. And `whole` waits for nothing that has been answered.
pub open spec fn replays<T>(
    r: Run,
    whole: (Run, Result<T, Stop>),
    part: (Run, Result<T, Stop>),
    n: int,
) -> bool {
    &&& whole.1 matches Err(Stop::Ask(q)) ==> !whole.0.has_answer(q)
    &&& r.asked.len() <= n <= r.replies.len() ==> part == if n < whole.0.asked.len() {
        (
            Run { replies: whole.0.replies.take(n), asked: whole.0.asked.take(n) },
            Err(Stop::Ask(whole.0.asked[n])),
        )
    } else {
        (cut(whole.0, n), whole.1)
    }
}

/// What a longer run began with.
pub proof fn lemma_grows_take(r: Run, s: Run, n: int)
    requires
        grows(r, s),
    ensures
        0 <= n <= r.asked.len() ==> s.asked.take(n) == r.asked.take(n),
        0 <= n < r.asked.len() ==> s.asked[n] == r.asked[n],
{
    if 0 <= n <= r.asked.len() {
        assert(s.asked.take(n) =~= r.asked.take(n));
    }
}

/// One more request.
pub open spec fn extended(r: Run, q: Request) -> Run {
    Run { asked: r.asked.push(q), ..r }
}

/// How a request changes what is counted.
pub proof fn lemma_extended(r: Run, q: Request)
    requires
        r.left() > 0,
    ensures
        grows(r, extended(r, q)),
        opens(extended(r, q).asked) == opens(r.asked) + if q is OpenBus { 1nat } else { 0 },
        reboots(extended(r, q).asked) == reboots(r.asked) + if ends_in_reboot(
            extended(r, q).asked,
        ) { 1nat } else { 0 },
        is_open(extended(r, q)) == match q {
            Request::OpenBus { .. } => r.replies[r.asked.len() as int].answer is Done,
            Request::CloseBus => false,
            _ => is_open(r),
        },
{
    assert(extended(r, q).asked.drop_last() =~= r.asked);
}

/// A request in order, after requests in order.
pub proof fn lemma_extended_in_order(r: Run, q: Request)
    requires
        in_order(r),
        r.has_answer(q),
        touches_bus(q) ==> is_open(r),
        disturbs_nothing(extended(r, q), r.asked.len() as int),
        writes_own_driver(extended(r, q), r.asked.len() as int),
    ensures
        in_order(extended(r, q)),
{
    let s = extended(r, q);
    assert forall|i: int| 0 <= i < s.asked.len() implies #[trigger] request_in_order(s, i) by {
        if i < r.asked.len() {
            assert(request_in_order(r, i));
            assert(s.asked.take(i) =~= r.asked.take(i));
        } else {
            assert(s.asked.take(i) =~= r.asked);
        }
    }
}

/// A request for which a run with fewer replies waits.
pub proof fn lemma_ask_cut(r: Run, q: Request, n: int)
    ensures
        replays(r, ask_run(r, q), ask_run(cut(r, n), q), n),
{
    let s = ask_run(r, q).0;
    assert(n == r.asked.len() ==> s.asked.take(n) =~= r.asked);
}

/// A request through the bus that submits nothing.
pub proof fn lemma_ask_through(r: Run, q: Request, n: int)
    requires
        r.left() >= 0,
        q is ReadBlock || q is WriteBlock || q is Sleep,
        !writes_input(q) && !submits(q),
    ensures
        through_bus(r, ask_run(r, q).0, 0),
        unarmed(r, ask_run(r, q).0),
        replays(r, ask_run(r, q), ask_run(cut(r, n), q), n),
{
    lemma_ask_cut(r, q, n);
    if r.has_answer(q) {
        lemma_extended(r, q);
        assert(tag_vdms()[0] != tag_gaid()[0]);
        if in_order(r) && is_open(r) {
            lemma_extended_in_order(r, q);
        }
    }
}

/// A request that has nothing to do with the bus.
pub proof fn lemma_ask_beside(r: Run, q: Request, n: int)
    requires
        r.left() >= 0,
        q !is OpenBus && q !is CloseBus,
        !touches_bus(q),
        writes_own_driver(extended(r, q), r.asked.len() as int),
    ensures
        beside_bus(r, ask_run(r, q).0),
        replays(r, ask_run(r, q), ask_run(cut(r, n), q), n),
{
    lemma_ask_cut(r, q, n);
    if r.has_answer(q) {
        lemma_extended(r, q);
        if in_order(r) {
            lemma_extended_in_order(r, q);
        }
    }
}

} // verus!
