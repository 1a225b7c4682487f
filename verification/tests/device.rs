use tuxvdmtool::cd321x::{
    is_invalid_cmd, Device, TpsMode, VdmSopType, TPS_REG_CMD1, TPS_REG_MODE, TPS_REG_POWER_STATUS,
    TPS_REG_VDM_RX_STATUS,
};
use tuxvdmtool::error::{Error, Fault};
use tuxvdmtool::host::{Action, Answer, Halt, Host, Reply, Transcript};

const MS: u64 = 1_000_000;

fn transcript(replies: Vec<(u64, Answer)>) -> Transcript {
    let mut t = Transcript::new();
    for (now, answer) in replies {
        assert!(answer.is_well_formed());
        t.push(Reply { now, answer });
    }
    t
}

fn block(reg: u8, data: &[u8]) -> Answer {
    Answer::Block {
        reg,
        data: data.to_vec(),
    }
}

fn idle() -> Answer {
    block(TPS_REG_CMD1, &[0, 0, 0, 0])
}

fn busy() -> Answer {
    block(TPS_REG_CMD1, &[1, 0, 0, 0])
}

fn invalid() -> Answer {
    block(TPS_REG_CMD1, b"!CMD")
}

fn dbma() -> Answer {
    block(TPS_REG_MODE, b"DBMa")
}

fn rx(generation: u8, header: u32) -> Answer {
    let mut data = vec![0u8; 64];
    data[0] = generation;
    data[1..5].copy_from_slice(&header.to_le_bytes());
    block(TPS_REG_VDM_RX_STATUS, &data)
}

fn device() -> Device {
    Device::new_for_reset("J314")
}

fn failure(res: Result<(), Halt>) -> Error {
    match res {
        Err(Halt::Fail(e)) => e,
        other => panic!("{:?}", other),
    }
}

fn asked<T>(res: Result<T, Halt>) -> Action {
    match res {
        Err(Halt::Ask(action)) => action,
        _ => panic!("nothing is asked for"),
    }
}

#[test]
fn the_value_of_an_invalid_command() {
    assert!(is_invalid_cmd(0x444d4321));
    assert!(!is_invalid_cmd(0));
    assert!(!is_invalid_cmd(0x444d4320));
}

#[test]
fn modes_by_name() {
    assert_eq!(TpsMode::from_str("APP "), Ok(TpsMode::App));
    assert_eq!(TpsMode::from_str("BOOT"), Ok(TpsMode::Boot));
    assert_eq!(TpsMode::from_str("BIST"), Ok(TpsMode::Bist));
    assert_eq!(TpsMode::from_str("DISC"), Ok(TpsMode::Disc));
    assert_eq!(TpsMode::from_str("PTCH"), Ok(TpsMode::Ptch));
    assert_eq!(TpsMode::from_str("DBMa"), Ok(TpsMode::Dbma));
    assert_eq!(TpsMode::from_str("DBMA"), Err(()));
    assert_eq!(TpsMode::from_str("APP"), Err(()));
}

#[test]
fn the_mode_is_read() {
    let t = transcript(vec![(1, dbma()), (2, block(TPS_REG_MODE, "zzé".as_bytes()))]);
    let mut host = Host::new(&t);
    assert_eq!(device().get_mode(&mut host).unwrap(), TpsMode::Dbma);
    assert!(matches!(
        device().get_mode(&mut host),
        Err(Halt::Fail(Error::TypecController))
    ));
    assert!(matches!(
        asked(device().get_mode(&mut host)),
        Action::ReadBlock {
            reg: TPS_REG_MODE,
            len: 4
        }
    ));
}

#[test]
fn a_command_waits_for_the_one_before_it() {
    let t = transcript(vec![
        (MS, busy()),
        (11 * MS, Answer::Done),
        (12 * MS, idle()),
        (13 * MS, Answer::Done),
        (14 * MS, Answer::Done),
        (15 * MS, busy()),
        (16 * MS, idle()),
        (17 * MS, Answer::Done),
    ]);
    let mut host = Host::new(&t);
    assert!(device().exec_cmd(&mut host, b"LOCK", b"413J").is_ok());
    assert_eq!(host.now(), 17 * MS);
}

#[test]
fn a_command_without_input_writes_none() {
    let t = transcript(vec![(0, idle()), (0, Answer::Done), (0, idle())]);
    let mut host = Host::new(&t);
    assert!(matches!(
        asked(device().exec_cmd_with_timing(&mut host, b"LOCK", &[], MS, 7)),
        Action::Sleep { nanos: 7 }
    ));
}

#[test]
fn a_command_asks_for_its_writes() {
    let t = transcript(vec![(0, idle())]);
    match asked(device().lock(&mut Host::new(&t), &[1, 2])) {
        Action::WriteBlock { reg, data } => assert_eq!((reg, data), (9, vec![1, 2])),
        other => panic!("{:?}", other),
    }
    let t = transcript(vec![(0, idle()), (0, Answer::Done)]);
    match asked(device().lock(&mut Host::new(&t), &[1, 2])) {
        Action::WriteBlock { reg, data } => assert_eq!((reg, data), (8, b"LOCK".to_vec())),
        other => panic!("{:?}", other),
    }
}

#[test]
fn a_busy_controller_gets_two_seconds() {
    let t = transcript(vec![(2000 * MS, busy())]);
    assert!(matches!(
        asked(device().exec_cmd(&mut Host::new(&t), b"LOCK", &[])),
        Action::Sleep { nanos: 10_000_000 }
    ));
    let t = transcript(vec![(2000 * MS + 1, busy())]);
    assert_eq!(
        failure(device().exec_cmd(&mut Host::new(&t), b"LOCK", &[])),
        Error::ControllerTimeout
    );
}

#[test]
fn a_command_gets_its_time() {
    let before = |now: u64, last: Answer| {
        transcript(vec![(0, idle()), (5, Answer::Done), (now, last)])
    };
    let t = before(MS + 5, busy());
    assert!(matches!(
        asked(device().exec_cmd_with_timing(&mut Host::new(&t), b"LOCK", &[], MS, 0)),
        Action::ReadBlock {
            reg: TPS_REG_CMD1,
            len: 4
        }
    ));
    let t = before(MS + 6, busy());
    assert_eq!(
        failure(device().exec_cmd_with_timing(&mut Host::new(&t), b"LOCK", &[], MS, 0)),
        Error::ControllerTimeout
    );
    let t = before(6, invalid());
    assert_eq!(
        failure(device().exec_cmd_with_timing(&mut Host::new(&t), b"LOCK", &[], MS, 0)),
        Error::TypecController
    );
    let t = transcript(vec![(0, invalid())]);
    assert_eq!(
        failure(device().exec_cmd(&mut Host::new(&t), b"LOCK", &[])),
        Error::TypecController
    );
}

#[test]
fn a_failed_transfer_ends_a_command() {
    for (fault, error) in [
        (Fault::I2C, Error::I2C),
        (Fault::Device, Error::Device),
        (Fault::FeatureMissing, Error::FeatureMissing),
        (Fault::Io(Some(5)), Error::Io(Some(5))),
    ] {
        let t = transcript(vec![(0, Answer::Failed(fault))]);
        assert_eq!(
            failure(device().exec_cmd(&mut Host::new(&t), b"LOCK", &[])),
            error
        );
    }
}

#[test]
fn dbma_mode_is_checked() {
    let done = |mode: Answer| {
        transcript(vec![
            (0, idle()),
            (0, Answer::Done),
            (0, Answer::Done),
            (0, idle()),
            (0, Answer::Done),
            (0, mode),
        ])
    };
    let t = done(dbma());
    assert!(device().dbma(&mut Host::new(&t), true).is_ok());
    let t = done(block(TPS_REG_MODE, b"APP "));
    assert_eq!(
        failure(device().dbma(&mut Host::new(&t), true)),
        Error::TypecController
    );
}

fn message(last: Vec<(u64, Answer)>) -> Transcript {
    let mut replies = vec![
        (0, dbma()),
        (0, rx(7, 0)),
        (0, idle()),
        (0, Answer::Done),
        (0, Answer::Done),
        (0, idle()),
        (0, Answer::Done),
    ];
    replies.extend(last);
    transcript(replies)
}

#[test]
fn a_message_has_one_to_seven_words() {
    let t = Transcript::new();
    let d = device();
    assert_eq!(
        failure(d.vdms(&mut Host::new(&t), VdmSopType::Sop, &[])),
        Error::InvalidArgument
    );
    assert_eq!(
        failure(d.vdms(&mut Host::new(&t), VdmSopType::Sop, &[0; 8])),
        Error::InvalidArgument
    );
    asked(d.vdms(&mut Host::new(&t), VdmSopType::Sop, &[0; 7]));
}

#[test]
fn a_message_needs_dbma_mode() {
    let t = transcript(vec![(0, block(TPS_REG_MODE, b"APP "))]);
    assert_eq!(
        failure(device().vdms(&mut Host::new(&t), VdmSopType::SopStar, &[1])),
        Error::TypecController
    );
}

#[test]
fn a_message_is_written_word_by_word() {
    let t = transcript(vec![(0, dbma()), (0, rx(7, 0)), (0, idle())]);
    for (sop, first) in [
        (VdmSopType::Sop, 0x02),
        (VdmSopType::SopPrime, 0x12),
        (VdmSopType::SopPrimePrime, 0x22),
        (VdmSopType::SopStar, 0x32),
    ] {
        match asked(device().vdms(&mut Host::new(&t), sop, &[0x01020304, 0xa0b0c0d0])) {
            Action::WriteBlock { reg, data } => {
                assert_eq!(reg, 9);
                assert_eq!(
                    data,
                    vec![first, 0x04, 0x03, 0x02, 0x01, 0xd0, 0xc0, 0xb0, 0xa0]
                );
            }
            other => panic!("{:?}", other),
        }
    }
}

#[test]
fn a_message_needs_a_new_reply_with_the_right_header() {
    let send = |t: &Transcript| device().vdms(&mut Host::new(t), VdmSopType::SopStar, &[0x5ac8012]);
    let t = message(vec![(MS, rx(8, 0x5ac8052))]);
    assert!(send(&t).is_ok());
    // An old reply does not count, right header or not.
    let t = message(vec![(MS, rx(7, 0x5ac8052))]);
    assert!(matches!(asked(send(&t)), Action::Sleep { nanos: 10_000_000 }));
    let t = message(vec![(MS, rx(7, 0)), (MS, Answer::Done), (MS, rx(9, 0x5ac8052))]);
    assert!(send(&t).is_ok());
    let t = message(vec![(MS, rx(8, 0x5ac8012))]);
    assert_eq!(failure(send(&t)), Error::VdmRejected);
    let t = message(vec![(2000 * MS, rx(7, 0))]);
    asked(send(&t));
    let t = message(vec![(2000 * MS + 1, rx(7, 0))]);
    assert_eq!(failure(send(&t)), Error::VdmReplyTimeout);
}

#[test]
fn the_local_end_gets_the_words() {
    let t = transcript(vec![(0, idle())]);
    match asked(device().dven(&mut Host::new(&t), &[0x1840306])) {
        Action::WriteBlock { reg, data } => {
            assert_eq!((reg, data), (9, vec![0x06, 0x03, 0x84, 0x01]))
        }
        other => panic!("{:?}", other),
    }
}

#[test]
fn the_lowest_bit_tells_the_connection() {
    let t = transcript(vec![
        (0, block(TPS_REG_POWER_STATUS, &[0x01, 0])),
        (0, block(TPS_REG_POWER_STATUS, &[0xfe, 0xff])),
    ]);
    let mut host = Host::new(&t);
    assert!(device().check_connected(&mut host).unwrap());
    assert!(!device().check_connected(&mut host).unwrap());
}

#[test]
fn a_failed_look_is_no_connection() {
    let t = message(vec![
        (MS, rx(8, 0x5ac8052)),
        (1001 * MS, Answer::Done),
        (1002 * MS, Answer::Failed(Fault::I2C)),
        (1102 * MS, Answer::Done),
        (1103 * MS, block(TPS_REG_POWER_STATUS, &[1, 0])),
        (2103 * MS, Answer::Done),
    ]);
    assert!(device().reboot_wait(&mut Host::new(&t)).is_ok());
    let t = message(vec![
        (MS, rx(8, 0x5ac8052)),
        (1000 * MS, Answer::Done),
        (1002 * MS, Answer::Failed(Fault::I2C)),
        (4000 * MS + 1, Answer::Done),
    ]);
    assert_eq!(
        failure(device().reboot_wait(&mut Host::new(&t))),
        Error::ReconnectTimeout
    );
}

#[test]
fn a_reset_waits_for_nothing() {
    let t = Transcript::new();
    let mut d = device();
    match asked(d.reset_controller_nowait(&mut Host::new(&t))) {
        Action::WriteBlock { reg, data } => assert_eq!((reg, data), (8, b"Gaid".to_vec())),
        other => panic!("{:?}", other),
    }
    assert!(matches!(
        asked(d.drop(&mut Host::new(&t))),
        Action::CloseBus
    ));
}

#[test]
fn a_taken_over_controller_is_left_in_steps() {
    let t = transcript(vec![
        (0, dbma()),
        (0, Answer::Failed(Fault::I2C)),
        (0, Answer::Failed(Fault::I2C)),
        (0, Answer::Done),
    ]);
    let mut host = Host::new(&t);
    let d = Device::new(&mut host, "J314").unwrap();
    assert!(d.drop(&mut host).is_ok());
}

#[test]
fn time_does_not_run_backwards() {
    let t = transcript(vec![(50, idle())]);
    let mut host = Host::new(&t);
    assert_eq!(host.now(), 0);
    assert!(host.read_block(TPS_REG_CMD1, 4).is_ok());
    assert_eq!(host.elapsed(20), 30);
    assert_eq!(host.elapsed(80), 0);
}
