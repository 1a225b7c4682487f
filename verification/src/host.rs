//! The host: what the tool asks of it, and what it has answered.
//!
//! The tool does no input or output of its own. It is a function of the transcript of the
//! host's replies: given what has been answered so far, it says what to do next, or how it
//! ended. Every run reads the transcript from its beginning.
use crate::cd321x::TPS_REG_MODE;
use crate::error::{Error, Fault};
use crate::sysfs::{Connector, UsbEntry};
use vstd::pervasive::unreached;
use vstd::prelude::*;
use vstd::utf8::valid_utf8;

verus! {

/// What the host is to do next.
#[derive(Debug)]
pub enum Action {
    /// Read `/proc/device-tree/compatible`, the list of what the machine is compatible with.
    ReadCompatible,
    /// List the entries of `/sys/class/typec`, with the labels of their connectors.
    ListConnectors,
    /// Find the device that the link of a Type-C port leads to, links resolved.
    ResolvePort { link: String },
    /// Open the I2C bus for one target address.
    OpenBus { bus: String, addr: u16 },
    /// Let go of the bus that was opened last.
    CloseBus,
    /// Read `len` bytes from a register of the controller.
    ReadBlock { reg: u8, len: usize },
    /// Write bytes to a register of the controller.
    WriteBlock { reg: u8, data: Vec<u8> },
    /// Wait.
    Sleep { nanos: u64 },
    /// Tell whether a path exists.
    Exists { path: String },
    /// List what each of the Type-C ports in a directory holds.
    ListPorts { dir: String },
    /// Find the driver that the link of a device leads to, links resolved.
    ResolveDriver { link: String },
    /// Write the id of a device to a file of a driver.
    WriteDriver { file: String, id: String },
    /// List the USB devices in `/sys/bus/usb/devices`, with the ids that they show.
    ScanUsb,
}

/// What an `Action` asks for.
pub enum Request {
    ReadCompatible,
    ListConnectors,
    ResolvePort { link: Seq<char> },
    OpenBus { bus: Seq<char>, addr: u16 },
    CloseBus,
    ReadBlock { reg: u8, len: nat },
    WriteBlock { reg: u8, data: Seq<u8> },
    Sleep { nanos: u64 },
    Exists { path: Seq<char> },
    ListPorts { dir: Seq<char> },
    ResolveDriver { link: Seq<char> },
    WriteDriver { file: Seq<char>, id: Seq<char> },
    ScanUsb,
}

impl View for Action {
    type V = Request;

    open spec fn view(&self) -> Request {
        match self {
            Action::ReadCompatible => Request::ReadCompatible,
            Action::ListConnectors => Request::ListConnectors,
            Action::ResolvePort { link } => Request::ResolvePort { link: link@ },
            Action::OpenBus { bus, addr } => Request::OpenBus { bus: bus@, addr: *addr },
            Action::CloseBus => Request::CloseBus,
            Action::ReadBlock { reg, len } => Request::ReadBlock { reg: *reg, len: *len as nat },
            Action::WriteBlock { reg, data } => Request::WriteBlock { reg: *reg, data: data@ },
            Action::Sleep { nanos } => Request::Sleep { nanos: *nanos },
            Action::Exists { path } => Request::Exists { path: path@ },
            Action::ListPorts { dir } => Request::ListPorts { dir: dir@ },
            Action::ResolveDriver { link } => Request::ResolveDriver { link: link@ },
            Action::WriteDriver { file, id } => Request::WriteDriver { file: file@, id: id@ },
            Action::ScanUsb => Request::ScanUsb,
        }
    }
}

/// What the host answers.
#[derive(Debug)]
pub enum Answer {
    /// It is done.
    Done,
    /// It could not be done.
    Failed(Fault),
    /// The contents of a file.
    Contents(Vec<u8>),
    /// The entries of `/sys/class/typec`.
    Connectors(Vec<Connector>),
    /// The path of a device, if there is one.
    DevicePath(Option<String>),
    /// What was read from a register.
    Block { reg: u8, data: Vec<u8> },
    /// Whether the path exists.
    Present(bool),
    /// The names of what each port holds, or nothing where the ports cannot be listed.
    Ports(Option<Vec<Vec<String>>>),
    /// The path of a driver, where it is text.
    Driver(Option<String>),
    /// The USB devices.
    UsbDevices(Vec<UsbEntry>),
}

impl Answer {
    /// What every answer of a working host meets: the list of compatible machines has at least
    /// ten bytes, and the mode of the controller is text.
    pub open spec fn well_formed(&self) -> bool {
        match self {
            Answer::Contents(bytes) => bytes@.len() >= 10,
            Answer::Block { reg, data } => *reg == TPS_REG_MODE ==> valid_utf8(data@),
            _ => true,
        }
    }

    /// Whether the answer is one that a transcript can hold.
    pub fn is_well_formed(&self) -> (res: bool)
        ensures
            res == self.well_formed(),
    {
        match self {
            Answer::Contents(bytes) => bytes.len() >= 10,
            Answer::Block { reg, data } => *reg != TPS_REG_MODE || core::str::from_utf8(
                data.as_slice(),
            ).is_ok(),
            _ => true,
        }
    }

    /// Whether this is an answer to `request` at all.
    pub open spec fn answers(&self, request: Request) -> bool {
        match request {
            Request::ReadCompatible => self is Contents || self is Failed,
            Request::ListConnectors => self is Connectors || self is Failed,
            Request::ResolvePort { .. } => self is DevicePath,
            Request::OpenBus { .. } => self is Done || self is Failed,
            Request::CloseBus => self is Done,
            Request::ReadBlock { reg, len } => match self {
                Answer::Block { reg: from, data } => *from == reg && data@.len() == len,
                Answer::Failed(_) => true,
                _ => false,
            },
            Request::WriteBlock { .. } => self is Done || self is Failed,
            Request::Sleep { .. } => self is Done,
            Request::Exists { .. } => self is Present,
            Request::ListPorts { .. } => self is Ports,
            Request::ResolveDriver { .. } => self is Driver || self is Failed,
            Request::WriteDriver { .. } => self is Done || self is Failed,
            Request::ScanUsb => self is UsbDevices || self is Failed,
        }
    }

    /// Whether this is an answer to `action` at all.
    fn is_answer_to(&self, action: &Action) -> (res: bool)
        ensures
            res == self.answers(action@),
    {
        match (action, self) {
            (Action::ReadCompatible, Answer::Contents(_)) => true,
            (Action::ReadCompatible, Answer::Failed(_)) => true,
            (Action::ListConnectors, Answer::Connectors(_)) => true,
            (Action::ListConnectors, Answer::Failed(_)) => true,
            (Action::ResolvePort { .. }, Answer::DevicePath(_)) => true,
            (Action::OpenBus { .. }, Answer::Done) => true,
            (Action::OpenBus { .. }, Answer::Failed(_)) => true,
            (Action::CloseBus, Answer::Done) => true,
            (Action::ReadBlock { reg, len }, Answer::Block { reg: from, data }) => *from == *reg
                && data.len() == *len,
            (Action::ReadBlock { .. }, Answer::Failed(_)) => true,
            (Action::WriteBlock { .. }, Answer::Done) => true,
            (Action::WriteBlock { .. }, Answer::Failed(_)) => true,
            (Action::Sleep { .. }, Answer::Done) => true,
            (Action::Exists { .. }, Answer::Present(_)) => true,
            (Action::ListPorts { .. }, Answer::Ports(_)) => true,
            (Action::ResolveDriver { .. }, Answer::Driver(_)) => true,
            (Action::ResolveDriver { .. }, Answer::Failed(_)) => true,
            (Action::WriteDriver { .. }, Answer::Done) => true,
            (Action::WriteDriver { .. }, Answer::Failed(_)) => true,
            (Action::ScanUsb, Answer::UsbDevices(_)) => true,
            (Action::ScanUsb, Answer::Failed(_)) => true,
            _ => false,
        }
    }
}

/// An answer, and when it came: nanoseconds since the tool was started.
#[derive(Debug)]
pub struct Reply {
    pub now: u64,
    pub answer: Answer,
}

/// What the host has replied so far.
pub struct Transcript {
    replies: Vec<Reply>,
}

impl View for Transcript {
    type V = Seq<Reply>;

    closed spec fn view(&self) -> Seq<Reply> {
        self.replies@
    }
}

impl Transcript {
    #[verifier::type_invariant]
    spec fn holds(self) -> bool {
        forall|i: int| 0 <= i < self.replies@.len() ==> self.replies@[i].answer.well_formed()
    }

    /// Nothing has been replied yet.
    pub fn new() -> (res: Transcript)
        ensures
            res@ == Seq::<Reply>::empty(),
    {
        Transcript { replies: Vec::new() }
    }

    /// Takes down the next reply.
    pub fn push(&mut self, reply: Reply)
        requires
            reply.answer.well_formed(),
        ensures
            final(self)@ == old(self)@.push(reply),
    {
        proof {
            use_type_invariant(&*self);
        }
        let mut replies: Vec<Reply> = Vec::new();
        core::mem::swap(&mut replies, &mut self.replies);
        replies.push(reply);
        self.replies = replies;
    }
}

/// How far a run has come: the replies that there are, and what has been asked for. The
/// `i`th request is the one that the `i`th reply answers.
#[verifier::ext_equal]
pub struct Run {
    pub replies: Seq<Reply>,
    pub asked: Seq<Request>,
}

/// Why a run does not go on.
pub enum Stop {
    /// It has no answer to this yet.
    Ask(Request),
    /// It has failed.
    Fail(Error),
}

/// Why a run does not go on.
#[derive(Debug)]
pub enum Halt {
    /// The host is to do this first.
    Ask(Action),
    /// The run has failed.
    Fail(Error),
}

impl View for Halt {
    type V = Stop;

    open spec fn view(&self) -> Stop {
        match self {
            Halt::Ask(action) => Stop::Ask(action@),
            Halt::Fail(e) => Stop::Fail(*e),
        }
    }
}

/// The result of a part of a run, as contracts speak of it.
pub open spec fn seen<T>(res: Result<T, Halt>) -> Result<T, Stop> {
    match res {
        Ok(v) => Ok(v),
        Err(h) => Err(h@),
    }
}

/// Goes on with `rest` where the part before it has succeeded.
pub open spec fn then<A, B>(
    part: (Run, Result<A, Stop>),
    rest: spec_fn(Run, A) -> (Run, Result<B, Stop>),
) -> (Run, Result<B, Stop>) {
    match part {
        (r, Ok(v)) => rest(r, v),
        (r, Err(s)) => (r, Err(s)),
    }
}

/// Nanoseconds between two times; none where the clock seems to have gone back.
pub open spec fn elapsed(since: u64, now: u64) -> u64 {
    if now >= since {
        (now - since) as u64
    } else {
        0
    }
}

impl Run {
    /// When the last reply came.
    pub open spec fn now(self) -> u64 {
        if self.asked.len() == 0 {
            0
        } else {
            self.replies[self.asked.len() - 1].now
        }
    }

    /// How many replies have not been read.
    pub open spec fn left(self) -> int {
        self.replies.len() - self.asked.len()
    }

    /// Whether the next reply answers `request`.
    pub open spec fn has_answer(self, request: Request) -> bool {
        &&& self.asked.len() < self.replies.len()
        &&& self.replies[self.asked.len() as int].answer.answers(request)
    }
}

/// Asks for something. A reply that is no answer to it leaves the request open.
pub open spec fn ask_run(r: Run, request: Request) -> (Run, Result<Answer, Stop>) {
    if r.has_answer(request) {
        (
            Run { asked: r.asked.push(request), ..r },
            match r.replies[r.asked.len() as int].answer {
                Answer::Failed(fault) => Err(Stop::Fail(fault.spec_error())),
                answer => Ok(answer),
            },
        )
    } else {
        (r, Err(Stop::Ask(request)))
    }
}

/// Asks for something that is done or fails.
pub open spec fn do_run(r: Run, request: Request) -> (Run, Result<(), Stop>) {
    then(ask_run(r, request), |r1: Run, a: Answer| (r1, Ok(())))
}

/// Reads a register.
pub open spec fn read_block_run(r: Run, reg: u8, len: nat) -> (Run, Result<Seq<u8>, Stop>) {
    then(
        ask_run(r, Request::ReadBlock { reg, len }),
        |r1: Run, a: Answer| (r1, Ok(a->Block_data@)),
    )
}

/// Writes a register.
pub open spec fn write_block_run(r: Run, reg: u8, data: Seq<u8>) -> (Run, Result<(), Stop>) {
    do_run(r, Request::WriteBlock { reg, data })
}

/// Waits.
pub open spec fn sleep_run(r: Run, nanos: u64) -> (Run, Result<(), Stop>) {
    do_run(r, Request::Sleep { nanos })
}

/// The host as a run sees it: the transcript, and how much of it has been read.
pub struct Host<'a> {
    transcript: &'a Transcript,
    pos: usize,
    asked: Ghost<Seq<Request>>,
}

impl<'a> View for Host<'a> {
    type V = Run;

    closed spec fn view(&self) -> Run {
        Run { replies: self.transcript@, asked: self.asked@ }
    }
}

impl<'a> Host<'a> {
    #[verifier::type_invariant]
    spec fn holds(self) -> bool {
        &&& self.pos == self.asked@.len()
        &&& self.pos <= self.transcript@.len()
    }

    /// A run at its beginning.
    pub fn new(transcript: &'a Transcript) -> (res: Host<'a>)
        ensures
            res@ == (Run { replies: transcript@, asked: Seq::empty() }),
    {
        Host { transcript, pos: 0, asked: Ghost(Seq::empty()) }
    }

    /// When the last reply came.
    pub fn now(&self) -> (res: u64)
        ensures
            res == self@.now(),
            self@.left() >= 0,
    {
        proof {
            use_type_invariant(self);
        }
        if self.pos == 0 {
            0
        } else {
            self.transcript.replies[self.pos - 1].now
        }
    }

    /// Nanoseconds between `since` and the last reply.
    pub fn elapsed(&self, since: u64) -> (res: u64)
        ensures
            res == elapsed(since, self@.now()),
            self@.left() >= 0,
    {
        let now: u64 = self.now();
        if now >= since {
            now - since
        } else {
            0
        }
    }

    /// Asks the host for something.
    pub fn ask(&mut self, action: Action) -> (res: Result<&'a Answer, Halt>)
        ensures
            match res {
                Ok(a) => (final(self)@, Ok::<Answer, Stop>(*a)) == ask_run(old(self)@, action@)
                    && a.answers(action@) && a.well_formed() && a !is Failed,
                Err(h) => (final(self)@, Err::<Answer, Stop>(h@)) == ask_run(old(self)@, action@),
            },
            res is Ok ==> 0 <= final(self)@.left() < old(self)@.left(),
    {
        proof {
            use_type_invariant(&*self);
            use_type_invariant(self.transcript);
        }
        let pos: usize = self.pos;
        if pos < self.transcript.replies.len() {
            let reply: &'a Reply = &self.transcript.replies[pos];
            if reply.answer.is_answer_to(&action) {
                let ghost asked = self.asked@.push(action@);
                *self = Host { transcript: self.transcript, pos: pos + 1, asked: Ghost(asked) };
                return match &reply.answer {
                    Answer::Failed(fault) => Err(Halt::Fail(fault.error())),
                    answer => Ok(answer),
                };
            }
        }
        Err(Halt::Ask(action))
    }

    /// Asks the host for something that is done or fails.
    pub fn perform(&mut self, action: Action) -> (res: Result<(), Halt>)
        ensures
            (final(self)@, seen(res)) == do_run(old(self)@, action@),
            res is Ok ==> 0 <= final(self)@.left() < old(self)@.left(),
    {
        self.ask(action)?;
        Ok(())
    }

    /// Reads `len` bytes from a register of the controller.
    pub fn read_block(&mut self, reg: u8, len: usize) -> (res: Result<&'a Vec<u8>, Halt>)
        ensures
            match res {
                Ok(data) => (final(self)@, Ok::<Seq<u8>, Stop>(data@)) == read_block_run(
                    old(self)@,
                    reg,
                    len as nat,
                ) && data@.len() == len && (reg == TPS_REG_MODE ==> valid_utf8(data@)),
                Err(h) => (final(self)@, Err::<Seq<u8>, Stop>(h@)) == read_block_run(
                    old(self)@,
                    reg,
                    len as nat,
                ),
            },
            res is Ok ==> 0 <= final(self)@.left() < old(self)@.left(),
    {
        match self.ask(Action::ReadBlock { reg, len })? {
            Answer::Block { reg: _, data } => Ok(data),
            _ => unreached(),
        }
    }

    /// Writes bytes to a register of the controller.
    pub fn write_block(&mut self, reg: u8, data: &[u8]) -> (res: Result<(), Halt>)
        ensures
            (final(self)@, seen(res)) == write_block_run(old(self)@, reg, data@),
            res is Ok ==> 0 <= final(self)@.left() < old(self)@.left(),
    {
        let mut copy: Vec<u8> = Vec::new();
        copy.extend_from_slice(data);
        assert(copy@ =~= data@);
        self.perform(Action::WriteBlock { reg, data: copy })
    }

    /// Waits.
    pub fn sleep(&mut self, nanos: u64) -> (res: Result<(), Halt>)
        ensures
            (final(self)@, seen(res)) == sleep_run(old(self)@, nanos),
            res is Ok ==> 0 <= final(self)@.left() < old(self)@.left(),
    {
        self.perform(Action::Sleep { nanos })
    }
}

} // verus!
