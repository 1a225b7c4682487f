//! The CD321x USB-C controller: its commands, and the vendor-defined messages that it sends.
use crate::error::Error;
use crate::host::{seen, Action, Halt, Host, Stop};
use crate::protocol::{
    await_connected_run, await_done_run, await_idle_run, await_reply_run, check_connected_run,
    dbma_run, debugusb_run, dfu_run, disconnect_run, drop_run, dven_run, enter_run,
    exec_cmd_run, exec_cmd_with_timing_run, expect_dbma_run, get_mode_run, insist_run,
    lemma_vdms_grows, lock_run, new_run, reboot_run, reboot_wait_run, reset_run, serial_run,
    tag_dbma, tag_disc, tag_dven, tag_gaid, tag_lock, tag_vdms, vdm_data, vdms_run,
    vdos_debugusb, vdos_dfu, vdos_reboot, vdos_serial,
};
use crate::text::str_eq;
use vstd::pervasive::unreached;
use vstd::prelude::*;
use vstd::string::*;
use vstd::utf8::encode_utf8;

verus! {

/// 3 s, in nanoseconds.
pub const RECONNECT_TIMEOUT: u64 = 3_000_000_000;

/// 100 ms, in nanoseconds.
pub const POLL_WAIT: u64 = 100_000_000;

/// 1 s, in nanoseconds.
pub const RECONNECT_WAIT: u64 = 1_000_000_000;

/// 2 s, in nanoseconds.
pub const CMD_IDLE_TIMEOUT: u64 = 2_000_000_000;

/// 10 ms, in nanoseconds: the pause between two looks at a busy register.
pub const BUSY_WAIT: u64 = 10_000_000;

/// 1 s, in nanoseconds: how long a command may take.
pub const CMD_TIMEOUT: u64 = 1_000_000_000;

/// 200 ms, in nanoseconds: how long the controller may take to accept a message.
pub const VDM_CMD_TIMEOUT: u64 = 200_000_000;

/// 2 s, in nanoseconds.
pub const VDM_REPLY_TIMEOUT: u64 = 2_000_000_000;

/// 20 ms, in nanoseconds: the pause before a message is sent once more.
pub const RETRY_WAIT: u64 = 20_000_000;

pub const TPS_REG_MODE: u8 = 0x03;

pub const TPS_REG_CMD1: u8 = 0x08;

pub const TPS_REG_DATA1: u8 = 0x09;

pub const TPS_REG_POWER_STATUS: u8 = 0x3f;

pub const TPS_REG_VDM_RX_STATUS: u8 = 0x4d;

/// Whom a message is for.
#[derive(Debug, Clone, Copy, PartialEq, Eq, Structural)]
pub enum VdmSopType {
    Sop,
    SopPrime,
    SopPrimePrime,
    SopStar,
}

impl VdmSopType {
    /// The number of the type, of two bits.
    pub open spec fn spec_code(self) -> u8 {
        match self {
            VdmSopType::Sop => 0,
            VdmSopType::SopPrime => 1,
            VdmSopType::SopPrimePrime => 2,
            VdmSopType::SopStar => 3,
        }
    }

    /// The number of the type, of two bits.
    pub fn code(self) -> (res: u8)
        ensures
            res == self.spec_code(),
    {
        match self {
            VdmSopType::Sop => 0,
            VdmSopType::SopPrime => 1,
            VdmSopType::SopPrimePrime => 2,
            VdmSopType::SopStar => 3,
        }
    }
}

/// The mode that the controller is in.
#[derive(Debug, Clone, Copy, PartialEq, Eq, Structural)]
pub enum TpsMode {
    App,
    Boot,
    Bist,
    Disc,
    Ptch,
    Dbma,
}

/// The mode that the controller calls `name`.
pub open spec fn mode_named(name: Seq<char>) -> Option<TpsMode> {
    if name == "APP "@ {
        Some(TpsMode::App)
    } else if name == "BOOT"@ {
        Some(TpsMode::Boot)
    } else if name == "BIST"@ {
        Some(TpsMode::Bist)
    } else if name == "DISC"@ {
        Some(TpsMode::Disc)
    } else if name == "PTCH"@ {
        Some(TpsMode::Ptch)
    } else if name == "DBMa"@ {
        Some(TpsMode::Dbma)
    } else {
        None
    }
}

impl TpsMode {
    /// The mode that the controller calls `input`.
    pub fn from_str(input: &str) -> (res: Result<TpsMode, ()>)
        ensures
            match res {
                Ok(mode) => mode_named(input@) == Some(mode),
                Err(()) => mode_named(input@) is None,
            },
    {
        if str_eq(input, "APP ") {
            Ok(TpsMode::App)
        } else if str_eq(input, "BOOT") {
            Ok(TpsMode::Boot)
        } else if str_eq(input, "BIST") {
            Ok(TpsMode::Bist)
        } else if str_eq(input, "DISC") {
            Ok(TpsMode::Disc)
        } else if str_eq(input, "PTCH") {
            Ok(TpsMode::Ptch)
        } else if str_eq(input, "DBMa") {
            Ok(TpsMode::Dbma)
        } else {
            Err(())
        }
    }
}

/// The number that four bytes hold, the lowest first.
pub open spec fn le_u32(b: Seq<u8>) -> u32 {
    (b[0] + 0x100 * b[1] + 0x1_0000 * b[2] + 0x100_0000 * b[3]) as u32
}

/// The four bytes of a number, the lowest first.
pub open spec fn le_bytes(v: u32) -> Seq<u8> {
    seq![
        (v % 0x100) as u8,
        (v / 0x100 % 0x100) as u8,
        (v / 0x1_0000 % 0x100) as u8,
        (v / 0x100_0000) as u8,
    ]
}

/// The bytes of some numbers, one after the other.
pub open spec fn all_le_bytes(vs: Seq<u32>) -> Seq<u8>
    decreases vs.len(),
{
    if vs.len() == 0 {
        Seq::empty()
    } else {
        all_le_bytes(vs.drop_last()) + le_bytes(vs.last())
    }
}

/// The number at `at` in `b`, the lowest byte first.
fn u32_from_le_bytes(b: &[u8], at: usize) -> (res: u32)
    requires
        at + 4 <= b@.len(),
    ensures
        res == le_u32(b@.subrange(at as int, at + 4)),
{
    b[at] as u32 + 0x100 * b[at + 1] as u32 + 0x1_0000 * b[at + 2] as u32 + 0x100_0000 * b[at
        + 3] as u32
}

/// Puts the bytes of some numbers behind `buf`.
fn push_le_bytes(buf: &mut Vec<u8>, vs: &[u32])
    ensures
        final(buf)@ == old(buf)@ + all_le_bytes(vs@),
{
    let mut i: usize = 0;
    assert(buf@ =~= old(buf)@ + all_le_bytes(vs@.take(0)));
    while i < vs.len()
        invariant
            i <= vs@.len(),
            buf@ == old(buf)@ + all_le_bytes(vs@.take(i as int)),
        decreases vs@.len() - i,
    {
        let v: u32 = vs[i];
        buf.push((v % 0x100) as u8);
        buf.push((v / 0x100 % 0x100) as u8);
        buf.push((v / 0x1_0000 % 0x100) as u8);
        buf.push((v / 0x100_0000) as u8);
        proof {
            assert(vs@.take(i + 1).drop_last() =~= vs@.take(i as int));
            assert(buf@ =~= old(buf)@ + all_le_bytes(vs@.take(i + 1)));
        }
        i = i + 1;
    }
    assert(vs@.take(vs@.len() as int) =~= vs@);
}

/// What CMD1 holds after a command that the controller does not know: `!CMD`.
pub open spec fn invalid_cmd(val: u32) -> bool {
    val == 0x444d4321
}

/// Whether `val`, read from CMD1, says that the command was not known.
pub fn is_invalid_cmd(val: u32) -> (res: bool)
    ensures
        res == invalid_cmd(val),
{
    val == 0x444d4321
}

/// The key that a machine's code stands for: its bytes, the last first.
pub open spec fn key_of(code: Seq<char>) -> Seq<u8> {
    encode_utf8(code).reverse()
}

/// The key that a machine's code stands for.
fn reversed_bytes(code: &str) -> (res: Vec<u8>)
    ensures
        res@ == key_of(code@),
{
    let bytes: &[u8] = code.as_bytes();
    let mut key: Vec<u8> = Vec::new();
    let mut i: usize = bytes.len();
    while i > 0
        invariant
            i <= bytes@.len(),
            key@.len() == bytes@.len() - i,
            forall|j: int| 0 <= j < key@.len() ==> key@[j] == bytes@[bytes@.len() - 1 - j],
        decreases i,
    {
        i = i - 1;
        key.push(bytes[i]);
    }
    assert(key@ =~= bytes@.reverse());
    key
}

/// The controller, taken over through an open bus.
pub struct Device {
    key: Vec<u8>,
    skip_shutdown: bool,
}

impl Device {
    /// What unlocks the controller.
    pub closed spec fn key(&self) -> Seq<u8> {
        self.key@
    }

    /// Whether the controller is to be left alone in the end.
    pub closed spec fn skips_shutdown(&self) -> bool {
        self.skip_shutdown
    }

    /// Takes the controller as it is, for a reset.
    pub fn new_for_reset(code: &str) -> (res: Device)
        ensures
            res.key() == key_of(code@),
            res.skips_shutdown(),
    {
        Device { key: reversed_bytes(code), skip_shutdown: true }
    }

    /// Takes the controller over: it is unlocked and brought into DBMa mode, unless it is in that
    /// mode already. Where that fails, the controller is left as after any other use.
    pub fn new(host: &mut Host, code: &str) -> (res: Result<Device, Halt>)
        ensures
            match res {
                Ok(device) => (final(host)@, Ok::<(), Stop>(())) == new_run(
                    old(host)@,
                    key_of(code@),
                ) && device.key() == key_of(code@) && !device.skips_shutdown(),
                Err(h) => (final(host)@, Err::<(), Stop>(h@)) == new_run(
                    old(host)@,
                    key_of(code@),
                ),
            },
    {
        proof {
            reveal(new_run);
        }
        let device: Device = Device { key: reversed_bytes(code), skip_shutdown: false };
        match device.enter(host) {
            Ok(()) => Ok(device),
            Err(Halt::Ask(action)) => Err(Halt::Ask(action)),
            Err(failed) => {
                device.drop(host)?;
                Err(failed)
            },
        }
    }

    /// Brings the controller into DBMa mode, unless it is in it already.
    fn enter(&self, host: &mut Host) -> (res: Result<(), Halt>)
        ensures
            (final(host)@, seen(res)) == enter_run(old(host)@, self.key()),
    {
        match self.get_mode(host)? {
            TpsMode::App => {
                self.lock(host, self.key.as_slice())?;
                self.dbma(host, true)
            },
            TpsMode::Dbma => Ok(()),
            _ => Err(Halt::Fail(Error::TypecController)),
        }
    }

    /// Runs a command that may take a second.
    pub fn exec_cmd(&self, host: &mut Host, cmd_tag: &[u8; 4], in_data: &[u8]) -> (res: Result<
        (),
        Halt,
    >)
        ensures
            (final(host)@, seen(res)) == exec_cmd_run(old(host)@, cmd_tag@, in_data@),
    {
        self.exec_cmd_with_timing(host, cmd_tag, in_data, CMD_TIMEOUT, 0)
    }

    /// Runs a command: waits until the controller is idle, writes what the command works on and
    /// the command, and waits until it is done.
    pub fn exec_cmd_with_timing(
        &self,
        host: &mut Host,
        cmd_tag: &[u8; 4],
        in_data: &[u8],
        cmd_timeout: u64,
        res_delay: u64,
    ) -> (res: Result<(), Halt>)
        ensures
            (final(host)@, seen(res)) == exec_cmd_with_timing_run(
                old(host)@,
                cmd_tag@,
                in_data@,
                cmd_timeout,
                res_delay,
            ),
    {
        proof {
            reveal(exec_cmd_with_timing_run);
        }
        // During a reconnect the controller can still be finishing its own traffic; treating
        // that normal transient as a hard error loses the early boot window.
        let idle_start: u64 = host.now();
        self.await_idle(host, idle_start)?;

        if !in_data.is_empty() {
            host.write_block(TPS_REG_DATA1, in_data)?;
        }
        host.write_block(TPS_REG_CMD1, cmd_tag)?;

        let start: u64 = host.now();
        self.await_done(host, start, cmd_timeout)?;
        host.sleep(res_delay)
    }

    /// Waits until CMD1 is idle.
    fn await_idle(&self, host: &mut Host, start: u64) -> (res: Result<(), Halt>)
        ensures
            (final(host)@, seen(res)) == await_idle_run(old(host)@, start),
    {
        loop
            invariant
                await_idle_run(host@, start) == await_idle_run(old(host)@, start),
            decreases host@.left(),
        {
            let status: &Vec<u8> = host.read_block(TPS_REG_CMD1, 4)?;
            assert(status@.subrange(0, 4) =~= status@);
            let val: u32 = u32_from_le_bytes(status.as_slice(), 0);
            if val == 0 {
                return Ok(());
            }
            if is_invalid_cmd(val) {
                return Err(Halt::Fail(Error::TypecController));
            }
            if host.elapsed(start) > CMD_IDLE_TIMEOUT {
                return Err(Halt::Fail(Error::ControllerTimeout));
            }
            host.sleep(BUSY_WAIT)?;
        }
    }

    /// Waits until the command in CMD1 is done.
    fn await_done(&self, host: &mut Host, start: u64, timeout: u64) -> (res: Result<(), Halt>)
        ensures
            (final(host)@, seen(res)) == await_done_run(old(host)@, start, timeout),
    {
        loop
            invariant
                await_done_run(host@, start, timeout) == await_done_run(old(host)@, start, timeout),
            decreases host@.left(),
        {
            let status: &Vec<u8> = host.read_block(TPS_REG_CMD1, 4)?;
            assert(status@.subrange(0, 4) =~= status@);
            let val: u32 = u32_from_le_bytes(status.as_slice(), 0);
            if is_invalid_cmd(val) {
                return Err(Halt::Fail(Error::TypecController));
            }
            if val == 0 {
                return Ok(());
            }
            if host.elapsed(start) > timeout {
                return Err(Halt::Fail(Error::ControllerTimeout));
            }
        }
    }

    /// Reads the mode that the controller is in.
    pub fn get_mode(&self, host: &mut Host) -> (res: Result<TpsMode, Halt>)
        ensures
            (final(host)@, seen(res)) == get_mode_run(old(host)@),
    {
        let buf: &Vec<u8> = host.read_block(TPS_REG_MODE, 4)?;
        match core::str::from_utf8(buf.as_slice()) {
            Ok(name) => match TpsMode::from_str(name) {
                Ok(mode) => Ok(mode),
                Err(()) => Err(Halt::Fail(Error::TypecController)),
            },
            Err(_) => unreached(),
        }
    }

    /// Makes sure that the controller is in DBMa mode.
    fn expect_dbma(&self, host: &mut Host) -> (res: Result<(), Halt>)
        ensures
            (final(host)@, seen(res)) == expect_dbma_run(old(host)@),
    {
        if self.get_mode(host)? != TpsMode::Dbma {
            return Err(Halt::Fail(Error::TypecController));
        }
        Ok(())
    }

    /// Unlocks the controller with its key, or locks it with zeros.
    pub fn lock(&self, host: &mut Host, key: &[u8]) -> (res: Result<(), Halt>)
        ensures
            (final(host)@, seen(res)) == lock_run(old(host)@, key@),
    {
        let tag: [u8; 4] = [0x4c, 0x4f, 0x43, 0x4b];
        assert(tag@ =~= tag_lock());
        self.exec_cmd(host, &tag, key)
    }

    /// Turns DBMa mode on or off.
    pub fn dbma(&self, host: &mut Host, debug: bool) -> (res: Result<(), Halt>)
        ensures
            (final(host)@, seen(res)) == dbma_run(old(host)@, debug),
    {
        let tag: [u8; 4] = [0x44, 0x42, 0x4d, 0x61];
        let data: [u8; 1] = [if debug { 1 } else { 0 }];
        assert(tag@ =~= tag_dbma());
        assert(data@ =~= seq![if debug { 1u8 } else { 0u8 }]);
        self.exec_cmd(host, &tag, &data)?;
        self.expect_dbma(host)
    }

    /// Sends a message, and waits until the target has acknowledged it.
    ///
    /// CMD1 becoming idle only means that the controller accepted the command; it does not mean
    /// that the partner received or acknowledged the message. So the generation of the receive
    /// status is noted before the transmission, and a new reply with the right header is waited
    /// for.
    pub fn vdms(&self, host: &mut Host, sop: VdmSopType, vdos: &[u32]) -> (res: Result<(), Halt>)
        ensures
            (final(host)@, seen(res)) == vdms_run(old(host)@, sop, vdos@),
    {
        proof {
            reveal(vdms_run);
        }
        if vdos.is_empty() || vdos.len() > 7 {
            return Err(Halt::Fail(Error::InvalidArgument));
        }
        self.expect_dbma(host)?;

        let before: &Vec<u8> = host.read_block(TPS_REG_VDM_RX_STATUS, 64)?;
        let rx_status: u8 = before[0];
        let mut data: Vec<u8> = Vec::new();
        data.push(sop.code() * 16 + vdos.len() as u8);
        push_le_bytes(&mut data, vdos);
        assert(data@ =~= vdm_data(sop, vdos@));
        let tag: [u8; 4] = [0x56, 0x44, 0x4d, 0x73];
        assert(tag@ =~= tag_vdms());
        self.exec_cmd_with_timing(host, &tag, data.as_slice(), VDM_CMD_TIMEOUT, 0)?;

        let start: u64 = host.now();
        let reply: &Vec<u8> = self.await_reply(host, rx_status, start)?;
        let reply_header: u32 = u32_from_le_bytes(reply.as_slice(), 1);
        let expected_header: u32 = vdos[0] | 0x40;
        if reply_header != expected_header {
            return Err(Halt::Fail(Error::VdmRejected));
        }
        Ok(())
    }

    /// Waits until the receive status is another than `before`.
    fn await_reply<'a>(&self, host: &mut Host<'a>, before: u8, start: u64) -> (res: Result<
        &'a Vec<u8>,
        Halt,
    >)
        ensures
            match res {
                Ok(reply) => (final(host)@, Ok::<Seq<u8>, Stop>(reply@)) == await_reply_run(
                    old(host)@,
                    before,
                    start,
                ) && reply@.len() == 64,
                Err(h) => (final(host)@, Err::<Seq<u8>, Stop>(h@)) == await_reply_run(
                    old(host)@,
                    before,
                    start,
                ),
            },
    {
        loop
            invariant
                await_reply_run(host@, before, start) == await_reply_run(old(host)@, before, start),
            decreases host@.left(),
        {
            let reply: &'a Vec<u8> = host.read_block(TPS_REG_VDM_RX_STATUS, 64)?;
            if reply[0] != before {
                return Ok(reply);
            }
            if host.elapsed(start) > VDM_REPLY_TIMEOUT {
                return Err(Halt::Fail(Error::VdmReplyTimeout));
            }
            host.sleep(BUSY_WAIT)?;
        }
    }

    /// Puts the local end into the mode that `vdos` describe.
    pub fn dven(&self, host: &mut Host, vdos: &[u32]) -> (res: Result<(), Halt>)
        ensures
            (final(host)@, seen(res)) == dven_run(old(host)@, vdos@),
    {
        let mut data: Vec<u8> = Vec::new();
        push_le_bytes(&mut data, vdos);
        assert(data@ =~= all_le_bytes(vdos@));
        let tag: [u8; 4] = [0x44, 0x56, 0x45, 0x6e];
        assert(tag@ =~= tag_dven());
        self.exec_cmd(host, &tag, data.as_slice())
    }

    /// Tells whether something is connected.
    pub fn check_connected(&self, host: &mut Host) -> (res: Result<bool, Halt>)
        ensures
            (final(host)@, seen(res)) == check_connected_run(old(host)@),
            res is Ok ==> 0 <= final(host)@.left() < old(host)@.left(),
    {
        let buf: &Vec<u8> = host.read_block(TPS_REG_POWER_STATUS, 2)?;
        Ok(buf[0] % 2 == 1)
    }

    /// Puts the target into DFU mode.
    pub fn dfu(&self, host: &mut Host) -> (res: Result<(), Halt>)
        ensures
            (final(host)@, seen(res)) == dfu_run(old(host)@),
    {
        let vdos: [u32; 3] = [0x5ac8012, 0x106, 0x80010000];
        assert(vdos@ =~= vdos_dfu());
        self.vdms(host, VdmSopType::SopStar, &vdos)
    }

    /// Reboots the target into normal mode.
    pub fn reboot(&self, host: &mut Host) -> (res: Result<(), Halt>)
        ensures
            (final(host)@, seen(res)) == reboot_run(old(host)@),
    {
        let vdos: [u32; 3] = [0x5ac8012, 0x105, 0x80000000];
        assert(vdos@ =~= vdos_reboot());
        self.vdms(host, VdmSopType::SopStar, &vdos)
    }

    /// Reboots the target, and waits until it is connected again.
    ///
    /// The target has one second to reboot, then the fresh contract is polled for. Requiring an
    /// observed disconnect would race a fast reconnect, and miss the early window for serial and
    /// DebugUSB messages.
    pub fn reboot_wait(&self, host: &mut Host) -> (res: Result<(), Halt>)
        ensures
            (final(host)@, seen(res)) == reboot_wait_run(old(host)@),
    {
        self.reboot(host)?;
        host.sleep(RECONNECT_WAIT)?;
        let reconnect_start: u64 = host.now();
        self.await_connected(host, reconnect_start)?;
        host.sleep(RECONNECT_WAIT)
    }

    /// Waits until something is connected.
    fn await_connected(&self, host: &mut Host, start: u64) -> (res: Result<(), Halt>)
        ensures
            (final(host)@, seen(res)) == await_connected_run(old(host)@, start),
    {
        loop
            invariant
                await_connected_run(host@, start) == await_connected_run(old(host)@, start),
            decreases host@.left(),
        {
            match self.check_connected(host) {
                Ok(true) => return Ok(()),
                Err(Halt::Ask(action)) => return Err(Halt::Ask(action)),
                _ => {},
            }
            host.sleep(POLL_WAIT)?;
            if host.elapsed(start) > RECONNECT_TIMEOUT {
                return Err(Halt::Fail(Error::ReconnectTimeout));
            }
        }
    }

    /// Sends a message to the target until the controller takes it.
    fn insist(&self, host: &mut Host, vdos: &[u32]) -> (res: Result<(), Halt>)
        ensures
            (final(host)@, seen(res)) == insist_run(old(host)@, vdos@, old(host)@.now()),
    {
        let start: u64 = host.now();
        loop
            invariant
                start == old(host)@.now(),
                insist_run(host@, vdos@, start) == insist_run(old(host)@, vdos@, start),
                host@.left() >= 0,
            decreases host@.left(),
        {
            proof {
                lemma_vdms_grows(host@, VdmSopType::SopStar, vdos@);
            }
            match self.vdms(host, VdmSopType::SopStar, vdos) {
                Err(Halt::Fail(Error::ControllerTimeout)) => {
                    if host.elapsed(start) >= RECONNECT_TIMEOUT {
                        return Err(Halt::Fail(Error::ControllerTimeout));
                    }
                    host.sleep(RETRY_WAIT)?;
                },
                ended => return ended,
            }
        }
    }

    /// Puts the target, then the local end, into serial mode.
    pub fn serial(&self, host: &mut Host) -> (res: Result<(), Halt>)
        ensures
            (final(host)@, seen(res)) == serial_run(old(host)@),
    {
        let vdos: [u32; 2] = [0x5ac8012, 0x1840306];
        assert(vdos@ =~= vdos_serial());
        self.insist(host, &vdos)?;
        self.expect_dbma(host)?;
        let local: [u32; 1] = [vdos[1]];
        assert(local@ =~= vdos_serial().subrange(1, 2));
        self.dven(host, &local)
    }

    /// Puts the target into DebugUSB mode.
    pub fn debugusb(&self, host: &mut Host) -> (res: Result<(), Halt>)
        ensures
            (final(host)@, seen(res)) == debugusb_run(old(host)@),
    {
        let vdos: [u32; 2] = [0x5ac8012, 0x1824606];
        assert(vdos@ =~= vdos_debugusb());
        self.insist(host, &vdos)
    }

    /// Acts as if the cable were pulled and plugged in again.
    pub fn disconnect(&self, host: &mut Host) -> (res: Result<(), Halt>)
        ensures
            (final(host)@, seen(res)) == disconnect_run(old(host)@),
    {
        let data: [u8; 1] = [3];
        let tag: [u8; 4] = [0x44, 0x49, 0x53, 0x43];
        assert(data@ =~= seq![3u8]);
        assert(tag@ =~= tag_disc());
        self.exec_cmd(host, &tag, &data)
    }

    /// Resets the controller itself.
    ///
    /// The command is submitted directly in APP mode, without polling and without the usual
    /// teardown: the I2C endpoint is intentionally unavailable while the firmware restarts.
    pub fn reset_controller_nowait(&mut self, host: &mut Host) -> (res: Result<(), Halt>)
        ensures
            (final(host)@, seen(res)) == reset_run(old(host)@),
            final(self).key() == old(self).key(),
            final(self).skips_shutdown() == (old(self).skips_shutdown() || res is Ok),
    {
        let tag: [u8; 4] = [0x47, 0x61, 0x69, 0x64];
        assert(tag@ =~= tag_gaid());
        host.write_block(TPS_REG_CMD1, &tag)?;
        self.skip_shutdown = true;
        Ok(())
    }

    /// Leaves the controller: DBMa mode is turned off and the controller locked, whether or not
    /// either succeeds, unless there is no controller to talk to. Then the bus is closed.
    pub fn drop(self, host: &mut Host) -> (res: Result<(), Halt>)
        ensures
            (final(host)@, seen(res)) == drop_run(old(host)@, self.skips_shutdown()),
    {
        proof {
            reveal(drop_run);
        }
        if !self.skip_shutdown {
            if let Err(Halt::Ask(action)) = self.dbma(host, false) {
                return Err(Halt::Ask(action));
            }
            let lock: [u8; 4] = [0, 0, 0, 0];
            assert(lock@ =~= seq![0u8, 0, 0, 0]);
            if let Err(Halt::Ask(action)) = self.lock(host, &lock) {
                return Err(Halt::Ask(action));
            }
        }
        host.perform(Action::CloseBus)
    }
}

} // verus!
