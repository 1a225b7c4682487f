use tuxvdmtool::cd321x::{
    TPS_REG_CMD1, TPS_REG_DATA1, TPS_REG_MODE, TPS_REG_POWER_STATUS, TPS_REG_VDM_RX_STATUS,
};
use tuxvdmtool::error::{Error, Fault};
use tuxvdmtool::host::{Action, Answer, Halt, Reply, Transcript};
use tuxvdmtool::sysfs::{Connector, UsbEntry};
use tuxvdmtool::tool::{
    apple_device, get_typec_dev_fromconnector, is_debugusb_command, is_reboot_debugusb_command,
    next, parse_address, Invocation,
};

const REBOOT: [u8; 13] = [
    0x33, 0x12, 0x80, 0xac, 0x05, 0x05, 0x01, 0x00, 0x00, 0x00, 0x00, 0x00, 0x80,
];
const DFU: [u8; 13] = [
    0x33, 0x12, 0x80, 0xac, 0x05, 0x06, 0x01, 0x00, 0x00, 0x00, 0x00, 0x01, 0x80,
];
const SERIAL: [u8; 9] = [0x32, 0x12, 0x80, 0xac, 0x05, 0x06, 0x03, 0x84, 0x01];
const DEBUGUSB: [u8; 9] = [0x32, 0x12, 0x80, 0xac, 0x05, 0x06, 0x46, 0x82, 0x01];

/// A machine with one controller, and a target behind it.
struct Machine {
    now: u64,
    compat: Vec<u8>,
    mode: Vec<u8>,
    data: Vec<u8>,
    /// Every command with what it worked on.
    commands: Vec<(String, Vec<u8>)>,
    /// Every action, as text.
    log: Vec<String>,
    rx: [u8; 64],
    /// What CMD1 shows before commands are done.
    stuck: u32,
    /// How many messages the target does not reply to.
    deaf: usize,
    /// How many messages for DebugUSB mode the target does not reply to.
    deaf_to_debugusb: usize,
    rejects: bool,
    connected: bool,
    bus_open: bool,
    bus_fails: Option<Fault>,
    /// What the file system fails with where the driver is written to.
    write_fails: Option<Fault>,
    present: bool,
    partner: bool,
    driver: Option<String>,
    driver_fails: bool,
    /// After how many messages for DebugUSB mode the function appears.
    usb_after: usize,
    connectors: Vec<(String, Option<String>)>,
    device_path: Option<String>,
}

impl Machine {
    fn new() -> Machine {
        Machine {
            now: 0,
            compat: b"apple,j314s\0".to_vec(),
            mode: b"APP ".to_vec(),
            data: Vec::new(),
            commands: Vec::new(),
            log: Vec::new(),
            rx: [0; 64],
            stuck: 0,
            deaf: 0,
            deaf_to_debugusb: 0,
            rejects: false,
            connected: true,
            bus_open: false,
            bus_fails: None,
            write_fails: None,
            present: true,
            partner: true,
            driver: Some("/sys/bus/i2c/drivers/tps6598x".to_string()),
            driver_fails: false,
            usb_after: 1,
            connectors: Vec::new(),
            device_path: None,
        }
    }

    fn messages(&self, data: &[u8]) -> usize {
        self.commands
            .iter()
            .filter(|(tag, d)| tag == "VDMs" && d == data)
            .count()
    }

    fn submit(&mut self, tag: &[u8]) {
        let tag = String::from_utf8(tag.to_vec()).unwrap();
        let data = std::mem::take(&mut self.data);
        match tag.as_str() {
            "DBMa" => {
                self.mode = if data == [1] {
                    b"DBMa".to_vec()
                } else {
                    b"APP ".to_vec()
                };
            }
            "VDMs" => {
                if self.deaf > 0 {
                    self.deaf -= 1;
                } else if data == DEBUGUSB && self.deaf_to_debugusb > 0 {
                    self.deaf_to_debugusb -= 1;
                } else {
                    self.rx[0] = self.rx[0].wrapping_add(1);
                    let header = u32::from_le_bytes([data[1], data[2], data[3], data[4]]);
                    let reply = if self.rejects { header | 0x80 } else { header | 0x40 };
                    self.rx[1..5].copy_from_slice(&reply.to_le_bytes());
                }
            }
            _ => {}
        }
        self.commands.push((tag, data));
    }

    fn perform(&mut self, action: &Action) -> Answer {
        self.now += 1_000_000;
        self.log.push(format!("{:?}", action));
        match action {
            Action::ReadCompatible => Answer::Contents(self.compat.clone()),
            Action::ListConnectors => Answer::Connectors(
                self.connectors
                    .iter()
                    .map(|(port, label)| Connector {
                        port: port.clone(),
                        label: label.clone(),
                    })
                    .collect(),
            ),
            Action::ResolvePort { .. } => Answer::DevicePath(self.device_path.clone()),
            Action::OpenBus { .. } => {
                assert!(!self.bus_open);
                if let Some(fault) = self.bus_fails {
                    Answer::Failed(fault)
                } else {
                    self.bus_open = true;
                    Answer::Done
                }
            }
            Action::CloseBus => {
                assert!(self.bus_open);
                self.bus_open = false;
                Answer::Done
            }
            Action::ReadBlock { reg, len } => {
                assert!(self.bus_open);
                let data = if *reg == TPS_REG_MODE {
                    self.mode.clone()
                } else if *reg == TPS_REG_CMD1 {
                    self.stuck.to_le_bytes().to_vec()
                } else if *reg == TPS_REG_POWER_STATUS {
                    vec![if self.connected { 0xff } else { 0xfe }, 0x01]
                } else {
                    assert_eq!(*reg, TPS_REG_VDM_RX_STATUS);
                    self.rx.to_vec()
                };
                assert_eq!(data.len(), *len);
                Answer::Block { reg: *reg, data }
            }
            Action::WriteBlock { reg, data } => {
                assert!(self.bus_open);
                if *reg == TPS_REG_DATA1 {
                    self.data = data.clone();
                } else {
                    assert_eq!(*reg, TPS_REG_CMD1);
                    self.submit(data);
                }
                Answer::Done
            }
            Action::Sleep { nanos } => {
                self.now += *nanos;
                Answer::Done
            }
            Action::Exists { .. } => Answer::Present(self.present),
            Action::ListPorts { .. } => Answer::Ports(Some(vec![if self.partner {
                vec!["power".to_string(), "port0-partner".to_string()]
            } else {
                vec!["power".to_string()]
            }])),
            Action::ResolveDriver { .. } => {
                if self.driver_fails {
                    Answer::Failed(Fault::Io(Some(5)))
                } else {
                    Answer::Driver(self.driver.clone())
                }
            }
            Action::WriteDriver { .. } => match self.write_fails {
                Some(fault) => Answer::Failed(fault),
                None => Answer::Done,
            },
            Action::ScanUsb => {
                let there = self.messages(&DEBUGUSB) >= self.usb_after;
                Answer::UsbDevices(vec![UsbEntry {
                    path: "/sys/bus/usb/devices/1-1".to_string(),
                    id_vendor: Some("05ac\n".to_string()),
                    id_product: Some(if there { "1881\n" } else { "1234\n" }.to_string()),
                }])
            }
        }
    }

    fn run(&mut self, invocation: &Invocation) -> Result<(), Error> {
        let mut transcript = Transcript::new();
        loop {
            match next(invocation, &transcript) {
                Ok(()) => return Ok(()),
                Err(Halt::Fail(e)) => return Err(e),
                Err(Halt::Ask(action)) => {
                    let answer = self.perform(&action);
                    assert!(answer.is_well_formed());
                    transcript.push(Reply {
                        now: self.now,
                        answer,
                    });
                }
            }
        }
    }

    fn count(&self, what: &str) -> usize {
        self.log.iter().filter(|line| line.starts_with(what)).count()
    }

    fn tags(&self) -> Vec<&str> {
        self.commands.iter().map(|(tag, _)| tag.as_str()).collect()
    }
}

fn command(subcommand: &str, nested: Option<&str>) -> Invocation {
    Invocation {
        connector: None,
        address: "0x38".to_string(),
        bus: "/dev/i2c-0".to_string(),
        subcommand: Some(subcommand.to_string()),
        nested: nested.map(|s| s.to_string()),
    }
}

#[test]
fn dfu_takes_over_sends_and_leaves() {
    let mut m = Machine::new();
    assert_eq!(m.run(&command("dfu", None)), Ok(()));
    assert_eq!(m.tags(), vec!["LOCK", "DBMa", "VDMs", "DBMa", "LOCK"]);
    assert_eq!(m.commands[0].1, b"413J".to_vec());
    assert_eq!(m.commands[1].1, vec![1]);
    assert_eq!(m.commands[2].1, DFU.to_vec());
    assert_eq!(m.commands[3].1, vec![0]);
    assert_eq!(m.commands[4].1, vec![0, 0, 0, 0]);
    assert!(!m.bus_open);
    assert_eq!(
        m.log[1],
        "Exists { path: \"/sys/bus/i2c/devices/0-0038\" }"
    );
    assert_eq!(m.log[3], "OpenBus { bus: \"/dev/i2c-0\", addr: 56 }");
}

#[test]
fn a_controller_in_dbma_mode_is_reused() {
    let mut m = Machine::new();
    m.mode = b"DBMa".to_vec();
    assert_eq!(m.run(&command("dfu", None)), Ok(()));
    assert_eq!(m.tags(), vec!["VDMs", "DBMa", "LOCK"]);
}

#[test]
fn other_modes_are_refused_and_the_controller_left() {
    for mode in [b"BOOT", b"BIST", b"DISC", b"PTCH", b"what"] {
        let mut m = Machine::new();
        m.mode = mode.to_vec();
        assert_eq!(m.run(&command("dfu", None)), Err(Error::TypecController));
        assert_eq!(m.tags(), vec!["DBMa", "LOCK"]);
        assert!(!m.bus_open);
    }
}

#[test]
fn nop_takes_over_and_leaves() {
    let mut m = Machine::new();
    assert_eq!(m.run(&command("nop", None)), Ok(()));
    assert_eq!(m.tags(), vec!["LOCK", "DBMa", "DBMa", "LOCK"]);
    assert_eq!(m.count("Exists"), 0);
}

#[test]
fn reset_is_one_write() {
    let mut m = Machine::new();
    assert_eq!(m.run(&command("reset-controller", None)), Ok(()));
    assert_eq!(
        m.log[1..].to_vec(),
        vec![
            "OpenBus { bus: \"/dev/i2c-0\", addr: 56 }".to_string(),
            "WriteBlock { reg: 8, data: [71, 97, 105, 100] }".to_string(),
            "CloseBus".to_string(),
        ]
    );
}

#[test]
fn disconnect_sends_three() {
    let mut m = Machine::new();
    assert_eq!(m.run(&command("disconnect", None)), Ok(()));
    assert_eq!(m.commands[2], ("DISC".to_string(), vec![3]));
}

#[test]
fn serial_sets_both_ends() {
    let mut m = Machine::new();
    assert_eq!(m.run(&command("serial", None)), Ok(()));
    assert_eq!(m.commands[2], ("VDMs".to_string(), SERIAL.to_vec()));
    assert_eq!(
        m.commands[3],
        ("DVEn".to_string(), vec![0x06, 0x03, 0x84, 0x01])
    );
}

#[test]
fn reboot_serial_waits_for_the_target() {
    let mut m = Machine::new();
    assert_eq!(m.run(&command("reboot", Some("serial"))), Ok(()));
    assert_eq!(m.commands[2], ("VDMs".to_string(), REBOOT.to_vec()));
    assert_eq!(m.commands[3], ("VDMs".to_string(), SERIAL.to_vec()));
    assert_eq!(
        m.commands[4],
        ("DVEn".to_string(), vec![0x06, 0x03, 0x84, 0x01])
    );
    assert_eq!(m.count("ReadBlock { reg: 63,"), 1);
    assert_eq!(m.count("Sleep { nanos: 1000000000 }"), 2);
}

#[test]
fn reboot_without_reconnect_times_out() {
    let mut m = Machine::new();
    m.connected = false;
    assert_eq!(
        m.run(&command("reboot", Some("serial"))),
        Err(Error::ReconnectTimeout)
    );
    assert!(m.count("Sleep { nanos: 100000000 }") >= 29);
    assert_eq!(m.messages(&REBOOT), 1);
    assert!(!m.bus_open);
}

#[test]
fn plain_reboot_is_tried_twice() {
    let mut m = Machine::new();
    m.deaf = 9;
    assert_eq!(m.run(&command("reboot", None)), Err(Error::VdmReplyTimeout));
    assert_eq!(m.messages(&REBOOT), 2);
    assert_eq!(m.count("OpenBus"), 2);
    assert_eq!(m.count("WriteDriver"), 2);
}

#[test]
fn one_lost_reply_is_recovered_from() {
    let mut m = Machine::new();
    m.deaf = 1;
    assert_eq!(m.run(&command("dfu", None)), Ok(()));
    assert_eq!(m.messages(&DFU), 2);
    assert!(m.log.contains(
        &"WriteDriver { file: \"/sys/bus/i2c/drivers/tps6598x/unbind\", id: \"0-0038\" }"
            .to_string()
    ));
    assert!(m.log.contains(
        &"WriteDriver { file: \"/sys/bus/i2c/drivers/tps6598x/bind\", id: \"0-0038\" }"
            .to_string()
    ));
}

#[test]
fn debugusb_needs_the_function_itself() {
    let mut m = Machine::new();
    assert_eq!(m.run(&command("debugusb", None)), Ok(()));
    assert_eq!(m.log.last().unwrap(), "ScanUsb");

    let mut m = Machine::new();
    m.usb_after = 99;
    assert_eq!(
        m.run(&command("debugusb", None)),
        Err(Error::DebugUsbEnumerationTimeout)
    );
    assert_eq!(m.messages(&DEBUGUSB), 2);
    assert_eq!(m.count("WriteDriver"), 2);
}

#[test]
fn debugusb_is_armed_once_more() {
    let mut m = Machine::new();
    m.usb_after = 2;
    assert_eq!(m.run(&command("reboot", Some("debugusb"))), Ok(()));
    assert_eq!(m.messages(&DEBUGUSB), 2);
    assert_eq!(m.messages(&REBOOT), 1);
    assert_eq!(m.count("OpenBus"), 2);
}

#[test]
fn the_target_is_not_rebooted_twice_into_debugusb() {
    let mut m = Machine::new();
    m.deaf = 1;
    m.usb_after = 2;
    assert_eq!(m.run(&command("reboot", Some("debugusb"))), Ok(()));
    assert_eq!(m.messages(&REBOOT), 1);
    assert_eq!(m.messages(&DEBUGUSB), 2);
    assert_eq!(m.count("OpenBus"), 3);
}

#[test]
fn help_entries_do_nothing_to_the_target() {
    let mut m = Machine::new();
    m.usb_after = 0;
    assert_eq!(m.run(&command("reboot debugusb", None)), Ok(()));
    assert_eq!(m.messages(&REBOOT), 0);
    assert_eq!(m.messages(&DEBUGUSB), 0);
    let mut m = Machine::new();
    assert_eq!(m.run(&command("reboot", Some("help"))), Ok(()));
    assert_eq!(m.tags(), vec!["LOCK", "DBMa", "DBMa", "LOCK"]);
}

#[test]
fn a_rejected_message_fails() {
    let mut m = Machine::new();
    m.rejects = true;
    assert_eq!(m.run(&command("dfu", None)), Err(Error::VdmRejected));
    assert_eq!(m.messages(&DFU), 1);
    assert!(!m.bus_open);
}

#[test]
fn a_busy_controller_times_out() {
    let mut m = Machine::new();
    m.stuck = 1;
    assert_eq!(m.run(&command("dfu", None)), Err(Error::ControllerTimeout));
    assert!(m.commands.is_empty());
    assert!(!m.bus_open);
}

#[test]
fn a_busy_controller_is_tried_for_three_seconds() {
    let mut m = Machine::new();
    m.mode = b"DBMa".to_vec();
    m.stuck = 1;
    assert_eq!(
        m.run(&command("serial", None)),
        Err(Error::ControllerTimeout)
    );
    assert_eq!(m.count("Sleep { nanos: 20000000 }"), 1);
}

#[test]
fn an_unknown_command_is_refused() {
    let mut m = Machine::new();
    m.stuck = 0x444d4321;
    assert_eq!(m.run(&command("dfu", None)), Err(Error::TypecController));
    assert!(m.commands.is_empty());
}

#[test]
fn a_bus_that_cannot_be_opened_is_not_closed() {
    for (fault, error) in [
        (Fault::I2C, Error::I2C),
        (Fault::Device, Error::Device),
        (Fault::FeatureMissing, Error::FeatureMissing),
        (Fault::Io(Some(13)), Error::Io(Some(13))),
        (Fault::Io(None), Error::Io(None)),
    ] {
        let mut m = Machine::new();
        m.bus_fails = Some(fault);
        assert_eq!(m.run(&command("dfu", None)), Err(error));
        assert_eq!(m.count("CloseBus"), 0);
        assert!(m.log.last().unwrap().starts_with("OpenBus"));
    }
}

#[test]
fn the_driver_is_found_and_written_to() {
    let mut m = Machine::new();
    m.partner = false;
    assert_eq!(m.run(&command("dfu", None)), Ok(()));
    assert_eq!(
        m.log[1..8].to_vec(),
        vec![
            "Exists { path: \"/sys/bus/i2c/devices/0-0038\" }".to_string(),
            "ListPorts { dir: \"/sys/bus/i2c/devices/0-0038/typec\" }".to_string(),
            "Exists { path: \"/sys/bus/i2c/devices/0-0038\" }".to_string(),
            "ResolveDriver { link: \"/sys/bus/i2c/devices/0-0038/driver\" }".to_string(),
            "WriteDriver { file: \"/sys/bus/i2c/drivers/tps6598x/unbind\", id: \"0-0038\" }"
                .to_string(),
            "Sleep { nanos: 250000000 }".to_string(),
            "WriteDriver { file: \"/sys/bus/i2c/drivers/tps6598x/bind\", id: \"0-0038\" }"
                .to_string(),
        ]
    );

    let mut m = Machine::new();
    m.partner = false;
    m.write_fails = Some(Fault::Io(Some(19)));
    assert_eq!(m.run(&command("dfu", None)), Err(Error::Io(Some(19))));
    assert_eq!(m.count("WriteDriver"), 1);
    assert_eq!(m.count("OpenBus"), 0);

    let mut m = Machine::new();
    m.partner = false;
    m.driver = None;
    assert_eq!(m.run(&command("dfu", None)), Ok(()));
    assert_eq!(m.count("WriteDriver"), 0);
}

#[test]
fn a_missing_partner_is_recovered_first() {
    let mut m = Machine::new();
    m.partner = false;
    assert_eq!(m.run(&command("dfu", None)), Ok(()));
    assert_eq!(m.count("WriteDriver"), 2);
    // One look before the recovery, then one every 102 ms for three seconds.
    assert_eq!(m.count("ListPorts"), 31);
    assert_eq!(m.messages(&DFU), 1);

    let mut m = Machine::new();
    m.partner = false;
    m.driver = Some("/sys/bus/i2c/drivers/other".to_string());
    assert_eq!(m.run(&command("dfu", None)), Ok(()));
    assert_eq!(m.count("WriteDriver"), 0);

    let mut m = Machine::new();
    m.partner = false;
    m.driver_fails = true;
    assert_eq!(m.run(&command("dfu", None)), Err(Error::Io(Some(5))));
    assert_eq!(m.count("OpenBus"), 0);

    let mut m = Machine::new();
    m.present = false;
    m.partner = false;
    assert_eq!(m.run(&command("dfu", None)), Ok(()));
    assert_eq!(m.count("ListPorts"), 0);
}

#[test]
fn other_machines_are_refused() {
    let mut m = Machine::new();
    m.compat = b"qemu,virt\0\0\0".to_vec();
    assert_eq!(m.run(&command("dfu", None)), Err(Error::Compatible));
    assert_eq!(m.log.len(), 1);
    assert_eq!(apple_device(b"apple,t600"), Ok("t600"));
    assert_eq!(apple_device(b"apple,j314s and more"), Ok("j314"));
    assert_eq!(apple_device(b"no-comma-in-it"), Err(Error::Compatible));
    let bytes = [b'a', b'p', b'p', b'l', b'e', b',', 0xff, 0xff, 0xff, 0xff];
    let cause = std::str::from_utf8(&bytes).unwrap_err();
    assert_eq!(cause.valid_up_to(), 6);
    assert_eq!(apple_device(&bytes), Err(Error::Utf8(cause)));
}

#[test]
fn addresses_are_hexadecimal_or_decimal() {
    assert_eq!(parse_address("0x38"), Ok(0x38));
    assert_eq!(parse_address("0x+38"), Ok(0x38));
    assert_eq!(parse_address("56"), Ok(56));
    assert_eq!(parse_address("65535"), Ok(65535));
    for text in ["65536", "38h", "+", "-1", "", "zz"] {
        let cause = text.parse::<u16>().unwrap_err();
        assert_eq!(parse_address(text), Err(Error::Parse(cause.clone())));
        let mut invocation = command("dfu", None);
        invocation.address = text.to_string();
        assert_eq!(Machine::new().run(&invocation), Err(Error::Parse(cause)));
    }
    for digits in ["10000", "", "zz", "-1"] {
        let cause = u16::from_str_radix(digits, 16).unwrap_err();
        let text = format!("0x{}", digits);
        assert_eq!(parse_address(&text), Err(Error::Parse(cause)));
    }
}

#[test]
fn causes_are_printed() {
    assert_eq!(
        format!("{:?}", parse_address("").unwrap_err()),
        "Parse(ParseIntError { kind: Empty })"
    );
    assert_eq!(
        format!("{:?}", parse_address("0xg").unwrap_err()),
        "Parse(ParseIntError { kind: InvalidDigit })"
    );
    assert_eq!(
        format!("{:?}", parse_address("70000").unwrap_err()),
        "Parse(ParseIntError { kind: PosOverflow })"
    );
}

#[test]
fn debugusb_is_not_armed_a_third_time() {
    // The first message gets no reply, the second is acknowledged, and no device ever appears.
    let mut m = Machine::new();
    m.deaf_to_debugusb = 1;
    m.usb_after = 99;
    assert_eq!(
        m.run(&command("debugusb", None)),
        Err(Error::DebugUsbEnumerationTimeout)
    );
    assert_eq!(m.messages(&DEBUGUSB), 2);
    assert_eq!(m.count("OpenBus"), 2);
    assert_eq!(m.count("WriteDriver"), 2);
    assert!(!m.bus_open);

    let mut m = Machine::new();
    m.deaf_to_debugusb = 1;
    m.usb_after = 99;
    assert_eq!(
        m.run(&command("reboot", Some("debugusb"))),
        Err(Error::DebugUsbEnumerationTimeout)
    );
    assert_eq!(m.messages(&REBOOT), 1);
    assert_eq!(m.messages(&DEBUGUSB), 2);
    assert_eq!(m.count("OpenBus"), 2);
    assert_eq!(m.count("WriteDriver"), 2);
}

#[test]
fn a_reboot_without_reply_arms_nothing() {
    // The session in which the reboot got no reply is not one that armed DebugUSB mode.
    let mut m = Machine::new();
    m.deaf = 1;
    m.usb_after = 99;
    assert_eq!(
        m.run(&command("reboot", Some("debugusb"))),
        Err(Error::DebugUsbEnumerationTimeout)
    );
    assert_eq!(m.messages(&REBOOT), 1);
    assert_eq!(m.messages(&DEBUGUSB), 2);
    assert_eq!(m.count("OpenBus"), 3);
}

#[test]
fn debugusb_after_one_lost_reply_succeeds() {
    let mut m = Machine::new();
    m.deaf_to_debugusb = 1;
    m.usb_after = 2;
    assert_eq!(m.run(&command("debugusb", None)), Ok(()));
    assert_eq!(m.messages(&DEBUGUSB), 2);
    assert_eq!(m.count("OpenBus"), 2);
}

#[test]
fn a_connector_leads_to_its_controller() {
    let mut m = Machine::new();
    m.connectors = vec![
        ("port1".to_string(), Some("USB-C Back Left Middle\0".to_string())),
        ("port0".to_string(), Some("USB-C Back Left\0".to_string())),
        ("portx".to_string(), Some("USB-C Back\0".to_string())),
        ("port2".to_string(), None),
    ];
    m.device_path = Some("/sys/devices/soc/i2c-3/3-003f".to_string());
    let mut invocation = command("dfu", None);
    invocation.connector = Some("Back LEFT".to_string());
    assert_eq!(m.run(&invocation), Ok(()));
    assert_eq!(m.log[2], "ResolvePort { link: \"/sys/class/typec/port0/device\" }");
    assert!(m
        .log
        .contains(&"OpenBus { bus: \"/dev/i2c-3\", addr: 63 }".to_string()));

    let mut m = Machine::new();
    m.connectors = vec![("port0".to_string(), Some("USB-C Right".to_string()))];
    assert_eq!(m.run(&invocation), Err(Error::DeviceNotFound));

    let mut m = Machine::new();
    m.connectors = vec![("port0".to_string(), Some("usb-c back left".to_string()))];
    assert_eq!(m.run(&invocation), Err(Error::DeviceNotFound));
    assert_eq!(m.count("ResolvePort"), 1);

    let mut m = Machine::new();
    m.connectors = vec![("port0".to_string(), Some("usb-c back left".to_string()))];
    m.device_path = Some("/sys/devices/platform/x".to_string());
    assert_eq!(m.run(&invocation), Err(Error::DeviceNotFound));

    let mut m = Machine::new();
    m.connectors = vec![("port0".to_string(), Some("usb-c back left".to_string()))];
    m.device_path = Some("/sys/devices/i2c-0/0-zz".to_string());
    assert_eq!(m.run(&invocation), Err(Error::DeviceNotFound));
}

#[test]
fn debugusb_commands_are_told_apart() {
    assert!(is_debugusb_command(&command("debugusb", None)));
    assert!(is_debugusb_command(&command("reboot", Some("debugusb"))));
    assert!(is_debugusb_command(&command("reboot debugusb", None)));
    assert!(!is_debugusb_command(&command("reboot", Some("serial"))));
    assert!(!is_debugusb_command(&command("serial", Some("debugusb"))));
    assert!(!is_reboot_debugusb_command(&command("debugusb", None)));
    assert!(is_reboot_debugusb_command(&command("reboot", Some("debugusb"))));
    assert!(is_reboot_debugusb_command(&command("reboot debugusb", None)));
}

#[test]
fn without_sysfs_no_connector_is_found() {
    assert_eq!(
        get_typec_dev_fromconnector("back left"),
        Err(Error::DeviceNotFound)
    );
}

#[test]
fn a_reply_to_something_else_is_no_answer() {
    let mut transcript = Transcript::new();
    transcript.push(Reply {
        now: 0,
        answer: Answer::Present(true),
    });
    assert!(matches!(
        next(&command("dfu", None), &transcript),
        Err(Halt::Ask(Action::ReadCompatible))
    ));
}

#[test]
fn malformed_answers_are_told_apart() {
    assert!(!Answer::Contents(vec![0; 9]).is_well_formed());
    assert!(Answer::Contents(vec![0; 10]).is_well_formed());
    assert!(!Answer::Block {
        reg: TPS_REG_MODE,
        data: vec![0xff; 4]
    }
    .is_well_formed());
    assert!(Answer::Block {
        reg: TPS_REG_CMD1,
        data: vec![0xff; 4]
    }
    .is_well_formed());
    assert!(Answer::DevicePath(Some("/sys/i2c-1/1-zz".to_string())).is_well_formed());
}

#[test]
fn a_run_is_the_same_over_every_prefix() {
    let invocation = command("reboot", Some("serial"));
    let mut first = Machine::new();
    assert_eq!(first.run(&invocation), Ok(()));

    // A second machine answers in the same way; what is asked for after each reply is the same.
    let mut second = Machine::new();
    let mut transcript = Transcript::new();
    for expected in &first.log {
        let action = match next(&invocation, &transcript) {
            Err(Halt::Ask(action)) => action,
            other => panic!("{:?}", other),
        };
        assert_eq!(&format!("{:?}", action), expected);
        // Asking again changes nothing.
        match next(&invocation, &transcript) {
            Err(Halt::Ask(again)) => assert_eq!(format!("{:?}", again), *expected),
            other => panic!("{:?}", other),
        }
        let answer = second.perform(&action);
        transcript.push(Reply {
            now: second.now,
            answer,
        });
    }
    assert!(next(&invocation, &transcript).is_ok());

    // Replies beyond the end are not read.
    transcript.push(Reply {
        now: 0,
        answer: Answer::Failed(Fault::Io(Some(5))),
    });
    assert!(next(&invocation, &transcript).is_ok());
}

#[test]
fn the_key_is_the_code_in_upper_case_backwards() {
    let mut m = Machine::new();
    m.compat = "apple,é1z".as_bytes().to_vec();
    assert_eq!(m.run(&command("nop", None)), Ok(()));
    assert_eq!(
        m.commands[0],
        ("LOCK".to_string(), vec![b'Z', b'1', 0x89, 0xc3])
    );
}

#[test]
fn failures_of_the_file_system_are_passed_on() {
    let mut transcript = Transcript::new();
    transcript.push(Reply {
        now: 0,
        answer: Answer::Failed(Fault::Io(Some(5))),
    });
    assert!(matches!(
        next(&command("dfu", None), &transcript),
        Err(Halt::Fail(Error::Io(Some(5))))
    ));
}

#[test]
fn only_the_chosen_controller_is_touched() {
    let mut m = Machine::new();
    m.partner = false;
    m.deaf = 1;
    m.usb_after = 2;
    let mut invocation = command("reboot", Some("debugusb"));
    invocation.bus = "/dev/i2c-5".to_string();
    invocation.address = "63".to_string();
    assert_eq!(m.run(&invocation), Ok(()));
    for line in &m.log {
        if line.starts_with("OpenBus") {
            assert_eq!(line, "OpenBus { bus: \"/dev/i2c-5\", addr: 63 }");
        }
        if line.starts_with("WriteDriver") {
            assert!(line.ends_with("id: \"5-003f\" }"));
        }
    }
    assert_eq!(m.count("OpenBus"), 3);
    assert_eq!(m.count("WriteDriver"), 6);
}
