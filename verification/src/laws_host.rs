//! What is asked of the host, and what counts as an answer.
use crate::cd321x::{invalid_cmd, mode_named, TpsMode};
use crate::host::{ask_run, Action, Answer, Halt, Request, Run, Stop};
use crate::laws_wait::{block_at, failed_with, fault_in, lemma_look, read_at};
use crate::protocol::{check_connected_run, grows};
use vstd::prelude::*;
use vstd::utf8::valid_utf8;

verus! {

/// An action is what contracts take it for: of the same form, and with the same contents in the
/// same places.
pub proof fn law_action(action: Action)
    ensures
        match (action, action@) {
            (Action::ReadCompatible, Request::ReadCompatible) => true,
            (Action::ListConnectors, Request::ListConnectors) => true,
            (Action::ResolvePort { link }, Request::ResolvePort { link: to }) => link@ == to,
            (Action::OpenBus { bus, addr }, Request::OpenBus { bus: on, addr: at }) => bus@ == on
                && addr == at,
            (Action::CloseBus, Request::CloseBus) => true,
            (Action::ReadBlock { reg, len }, Request::ReadBlock { reg: from, len: most }) => reg
                == from && len as nat == most,
            (Action::WriteBlock { reg, data }, Request::WriteBlock { reg: to, data: bytes }) => reg
                == to && data@ == bytes,
            (Action::Sleep { nanos }, Request::Sleep { nanos: pause }) => nanos == pause,
            (Action::Exists { path }, Request::Exists { path: at }) => path@ == at,
            (Action::ListPorts { dir }, Request::ListPorts { dir: of }) => dir@ == of,
            (Action::ResolveDriver { link }, Request::ResolveDriver { link: to }) => link@ == to,
            (
                Action::WriteDriver { file, id },
                Request::WriteDriver { file: to, id: name },
            ) => file@ == to && id@ == name,
            (Action::ScanUsb, Request::ScanUsb) => true,
            _ => false,
        },
{
}

/// A run that halts for the host halts for the action itself, and one that fails fails with the
/// error itself.
pub proof fn law_halt(halt: Halt)
    ensures
        match halt {
            Halt::Ask(action) => halt@ == Stop::Ask(action@),
            Halt::Fail(e) => halt@ == Stop::Fail(e),
        },
{
}

/// What each answer answers. A block answers a read of as many bytes from the same register. That
/// something failed answers what can fail: it does not answer a look for a port's device, the
/// closing of the bus, a pause, a look for a path, or a list of ports.
pub proof fn law_answer(answer: Answer, request: Request)
    ensures
        answer.answers(request) <==> match answer {
            Answer::Contents(_) => request == Request::ReadCompatible,
            Answer::Connectors(_) => request == Request::ListConnectors,
            Answer::DevicePath(_) => request is ResolvePort,
            Answer::Block { reg, data } => request == (Request::ReadBlock { reg, len: data@.len() }),
            Answer::Present(_) => request is Exists,
            Answer::Ports(_) => request is ListPorts,
            Answer::Driver(_) => request is ResolveDriver,
            Answer::UsbDevices(_) => request == Request::ScanUsb,
            Answer::Done => request is OpenBus || request is CloseBus || request is WriteBlock
                || request is Sleep || request is WriteDriver,
            Answer::Failed(_) => !(request is ResolvePort || request is CloseBus || request is Sleep
                || request is Exists || request is ListPorts),
        },
        answer.well_formed() <==> match answer {
            Answer::Contents(bytes) => bytes@.len() >= 10,
            Answer::Block { reg, data } => reg == 0x03 ==> valid_utf8(data@),
            _ => true,
        },
{
}

/// A request takes the next reply, if that is an answer to it, and nothing else is done; where it
/// is none, or there is none yet, the request stays open. Where the host could not do it, its fault
/// is the error, and no other answer is one.
pub proof fn law_request(r: Run, request: Request)
    requires
        r.left() >= 0,
    ensures
        ({
            let (s, end) = ask_run(r, request);
            let n = r.asked.len() as int;
            if n < r.replies.len() && r.replies[n].answer.answers(request) {
                &&& s.asked == r.asked.push(request) && s.replies == r.replies
                &&& match end {
                    Ok(answer) => answer == r.replies[n].answer && answer !is Failed,
                    Err(Stop::Fail(e)) => failed_with(s, n, e),
                    Err(Stop::Ask(_)) => false,
                }
            } else {
                s == r && end == Err::<Answer, Stop>(Stop::Ask(request))
            }
        }),
{
    reveal(fault_in);
}

/// Whether something is connected is one read of two bytes from register 0x3f, and the lowest bit
/// of the first of them.
pub proof fn law_connected(r: Run)
    requires
        r.left() >= 0,
    ensures
        ({
            let (s, end) = check_connected_run(r);
            let n = r.asked.len() as int;
            let look = Request::ReadBlock { reg: 0x3f, len: 2 };
            &&& grows(r, s)
            &&& match end {
                Ok(found) => s.asked == r.asked.push(look) && read_at(s, n) && (found <==> block_at(
                    s,
                    n,
                )[0] % 2 == 1),
                Err(Stop::Fail(e)) => s.asked == r.asked.push(look) && failed_with(s, n, e),
                Err(Stop::Ask(q)) => s == r && q == look,
            }
        }),
{
    lemma_look(r, 0x3f, 2);
}

/// The one word that says that a command was not known is `!CMD`, the lowest byte first.
pub proof fn law_unknown(val: u32)
    ensures
        invalid_cmd(val) <==> val == 0x21 + 0x100 * 0x43 + 0x1_0000 * 0x4d + 0x100_0000 * 0x44,
{
}

/// The names of the modes.
pub proof fn law_mode_names(name: Seq<char>)
    ensures
        mode_named(name) == Some(TpsMode::App) <==> name == seq!['A', 'P', 'P', ' '],
        mode_named(name) == Some(TpsMode::Boot) <==> name == seq!['B', 'O', 'O', 'T'],
        mode_named(name) == Some(TpsMode::Bist) <==> name == seq!['B', 'I', 'S', 'T'],
        mode_named(name) == Some(TpsMode::Disc) <==> name == seq!['D', 'I', 'S', 'C'],
        mode_named(name) == Some(TpsMode::Ptch) <==> name == seq!['P', 'T', 'C', 'H'],
        mode_named(name) == Some(TpsMode::Dbma) <==> name == seq!['D', 'B', 'M', 'a'],
{
    reveal_strlit("APP ");
    reveal_strlit("BOOT");
    reveal_strlit("BIST");
    reveal_strlit("DISC");
    reveal_strlit("PTCH");
    reveal_strlit("DBMa");
    assert("APP "@ =~= seq!['A', 'P', 'P', ' ']);
    assert("BOOT"@ =~= seq!['B', 'O', 'O', 'T']);
    assert("BIST"@ =~= seq!['B', 'I', 'S', 'T']);
    assert("DISC"@ =~= seq!['D', 'I', 'S', 'C']);
    assert("PTCH"@ =~= seq!['P', 'T', 'C', 'H']);
    assert("DBMa"@ =~= seq!['D', 'B', 'M', 'a']);
    assert("APP "@[0] == 'A' && "PTCH"@[0] == 'P');
    assert("BOOT"@[1] == 'O' && "BIST"@[1] == 'I');
    assert("DISC"@[1] == 'I' && "DBMa"@[1] == 'B');
    assert("BOOT"@[0] == 'B' && "DISC"@[0] == 'D' && "BIST"@[0] == 'B' && "DBMa"@[0] == 'D');
}

} // verus!
