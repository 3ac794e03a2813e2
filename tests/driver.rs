use std::cell::RefCell;
use std::collections::VecDeque;
use std::rc::Rc;

use imxrt_usdhc::{
    rebuild_long_response, transport_error, Command, DataRate, DataTransferDirection,
    DataTransferWidth, DDRPrescaler, DmaSelect, EndianMode, Reg, Registers, ResponseLen,
    SDRPrescaler, Status, Timing, TransportError, Usdhc, Watermark,
};

#[derive(Clone, Copy, Debug, PartialEq, Eq)]
enum Op {
    Read(Reg, u32),
    Write(Reg, u32),
    Delay(u32),
}

const RESETS: u32 = 0x0700_0000;

fn slot(reg: Reg) -> usize {
    match reg {
        Reg::BlkAtt => 0,
        Reg::CmdArg => 1,
        Reg::CmdXfrTyp => 2,
        Reg::CmdRsp0 => 3,
        Reg::CmdRsp1 => 4,
        Reg::CmdRsp2 => 5,
        Reg::CmdRsp3 => 6,
        Reg::DataBuffAccPort => 7,
        Reg::PresState => 8,
        Reg::ProtCtrl => 9,
        Reg::SysCtrl => 10,
        Reg::IntStatus => 11,
        Reg::IntStatusEn => 12,
        Reg::IntSignalEn => 13,
        Reg::WtmkLvl => 14,
        Reg::MixCtrl => 15,
    }
}

/// A register block in memory: reads return the value stored, or the next
/// scripted value of that register; the reset requests clear themselves; the
/// interrupt status is write-one-to-clear. Every access is logged.
struct Mock {
    log: Rc<RefCell<Vec<Op>>>,
    values: [u32; 16],
    script: Vec<VecDeque<u32>>,
}

impl Mock {
    fn new(log: Rc<RefCell<Vec<Op>>>) -> Mock {
        Mock { log, values: [0; 16], script: vec![VecDeque::new(); 16] }
    }

    fn set(&mut self, reg: Reg, value: u32) {
        self.values[slot(reg)] = value;
    }

    fn push(&mut self, reg: Reg, value: u32) {
        self.script[slot(reg)].push_back(value);
    }
}

impl Registers for Mock {
    fn load(&mut self, reg: Reg) -> u32 {
        let i = slot(reg);
        let v = match self.script[i].pop_front() {
            Some(v) => v,
            None => self.values[i],
        };
        if reg == Reg::SysCtrl {
            self.values[i] &= !RESETS;
        }
        self.log.borrow_mut().push(Op::Read(reg, v));
        v
    }

    fn store(&mut self, reg: Reg, value: u32) {
        let i = slot(reg);
        if reg == Reg::IntStatus {
            self.values[i] &= !value;
        } else {
            self.values[i] = value;
        }
        if reg == Reg::CmdXfrTyp {
            // The command completes at once.
            self.values[slot(Reg::IntStatus)] |= CC;
        }
        self.log.borrow_mut().push(Op::Write(reg, value));
    }
}

fn host(mock: Mock) -> Usdhc<Mock> {
    Usdhc::with_poll_limit(mock, 1000)
}

fn driver() -> (Usdhc<Mock>, Rc<RefCell<Vec<Op>>>) {
    let log = Rc::new(RefCell::new(Vec::new()));
    (Usdhc::new(Mock::new(log.clone())), log)
}

fn writes(log: &[Op]) -> Vec<(Reg, u32)> {
    log.iter()
        .filter_map(|op| match op {
            Op::Write(r, v) => Some((*r, *v)),
            _ => None,
        })
        .collect()
}

fn command(cmd: u8, arg: u32, response_len: ResponseLen) -> Command {
    Command { cmd, arg, response_len, check_index: true, check_crc: true }
}

const CC: u32 = 0x1;
const BRR: u32 = 0x20;
const BWR: u32 = 0x10;

#[test]
fn status_truncates_unknown_bits() {
    let s = Status::from_bits_truncate(0xFFFF_FFFF);
    assert_eq!(s.bits(), 0x157F_51FF);
    assert_eq!(Status::all().bits(), 0x157F_51FF);
    assert_eq!(Status::empty().bits(), 0);
    assert!(!Status::empty().is_error());
}

#[test]
fn each_error_bit_is_an_error() {
    for bit in [Status::DMAE, Status::TNE, Status::AC12E, Status::DEBE, Status::DCE, Status::DTOE,
        Status::CIE, Status::CEBE, Status::CCE, Status::CTOE]
    {
        assert!(Status::from_bits_truncate(bit).is_error());
    }
    for bit in [Status::CC, Status::TC, Status::BRR, Status::BWR, Status::CINS, Status::CRM] {
        assert!(!Status::from_bits_truncate(bit).is_error());
    }
}

#[test]
fn classification_follows_priority() {
    let s = |b: u32| Status::from_bits_truncate(b);
    assert_eq!(transport_error(s(Status::CTOE | Status::CIE | Status::DTOE | Status::CCE | Status::CEBE)),
        TransportError::CommandTimeout);
    assert_eq!(transport_error(s(Status::CIE | Status::DTOE | Status::DCE)), TransportError::CommandIndex);
    assert_eq!(transport_error(s(Status::DTOE | Status::CCE | Status::DEBE)), TransportError::DataTimeout);
    assert_eq!(transport_error(s(Status::DCE | Status::CEBE)), TransportError::Crc);
    assert_eq!(transport_error(s(Status::CCE)), TransportError::Crc);
    assert_eq!(transport_error(s(Status::DEBE | Status::DMAE)), TransportError::Bit);
    assert_eq!(transport_error(s(Status::CEBE)), TransportError::Bit);
    assert_eq!(transport_error(s(Status::DMAE | Status::TNE | Status::AC12E)), TransportError::Uncategorized);
}

#[test]
fn long_response_is_shifted_by_a_byte() {
    let r = rebuild_long_response([0xAABB_CCDD, 0x1122_3344, 0x5566_7788, 0x99AA_BBCC]);
    assert_eq!(r, [0xBBCC_DD00, 0x2233_44AA, 0x6677_8811, 0xAABB_CC55]);
    assert_eq!(rebuild_long_response([0, 0, 0, 0]), [0, 0, 0, 0]);
}

#[test]
fn transfer_long_response_rebuilds_words() {
    let (usdhc, _log) = driver();
    let mut response = [7u32; 4];
    let mut buf = Vec::new();
    let mut mock = usdhc.release();
    mock.set(Reg::IntStatus, CC);
    mock.set(Reg::CmdRsp0, 0xAABB_CCDD);
    mock.set(Reg::CmdRsp1, 0x1122_3344);
    mock.set(Reg::CmdRsp2, 0x5566_7788);
    mock.set(Reg::CmdRsp3, 0x99AA_BBCC);
    let mut usdhc = host(mock);
    let r = usdhc.transfer(command(2, 0, ResponseLen::R136), &mut response, None, &mut buf);
    assert_eq!(r, Ok(()));
    assert_eq!(response, [0xBBCC_DD00, 0x2233_44AA, 0x6677_8811, 0xAABB_CC55]);
}

#[test]
fn transfer_short_response_sets_first_word_only() {
    let log = Rc::new(RefCell::new(Vec::new()));
    let mut mock = Mock::new(log.clone());
    mock.set(Reg::IntStatus, CC);
    mock.set(Reg::CmdRsp0, 0x1234_5678);
    mock.set(Reg::CmdRsp1, 0xFFFF_FFFF);
    let mut usdhc = host(mock);
    let mut response = [1u32, 2, 3, 4];
    let mut buf = Vec::new();
    let r = usdhc.transfer(command(13, 0x1234_0000, ResponseLen::R48), &mut response, None, &mut buf);
    assert_eq!(r, Ok(()));
    assert_eq!(response, [0x1234_5678, 2, 3, 4]);
    let w = writes(&log.borrow());
    assert!(w.contains(&(Reg::CmdArg, 0x1234_0000)));
    // index 13, command type 0, no data, both checks, response type 2
    assert!(w.contains(&(Reg::CmdXfrTyp, (13 << 24) | (1 << 20) | (1 << 19) | (2 << 16))));
    assert!(w.contains(&(Reg::BlkAtt, 0)));
}

#[test]
fn transfer_no_response_leaves_buffer() {
    let log = Rc::new(RefCell::new(Vec::new()));
    let mut mock = Mock::new(log.clone());
    mock.set(Reg::IntStatus, CC);
    let mut usdhc = host(mock);
    let mut response = [9u32; 4];
    let mut buf = Vec::new();
    let cmd = Command { cmd: 0, arg: 0, response_len: ResponseLen::Zero, check_index: false, check_crc: false };
    assert_eq!(usdhc.transfer(cmd, &mut response, None, &mut buf), Ok(()));
    assert_eq!(response, [9u32; 4]);
    assert!(writes(&log.borrow()).contains(&(Reg::CmdXfrTyp, 0)));
    assert!(!log.borrow().iter().any(|op| matches!(op, Op::Read(Reg::CmdRsp0, _))));
}

#[test]
fn misaligned_length_touches_no_register() {
    let (mut usdhc, log) = driver();
    let mut response = [0u32; 4];
    let mut buf = vec![0u8; 6];
    let r = usdhc.transfer(command(17, 0, ResponseLen::R48), &mut response, Some(DataTransferDirection::Read), &mut buf);
    assert_eq!(r, Err(TransportError::NotSupported));
    assert!(log.borrow().is_empty());
    let mut buf = vec![1u8, 2, 3];
    let r = usdhc.transfer(command(24, 0, ResponseLen::R48), &mut response, Some(DataTransferDirection::Write), &mut buf);
    assert_eq!(r, Err(TransportError::NotSupported));
    assert!(log.borrow().is_empty());
    assert_eq!(buf, vec![1u8, 2, 3]);
}

#[test]
fn power_cycle_sequence() {
    let (mut usdhc, log) = driver();
    let delays = log.clone();
    let mut delay = |units: u32| delays.borrow_mut().push(Op::Delay(units));
    assert_eq!(usdhc.power_cycle(&mut delay), Ok(()));
    let log = log.borrow();
    let ds: Vec<u32> = log.iter().filter_map(|op| match op {
        Op::Delay(d) => Some(*d),
        _ => None,
    }).collect();
    assert_eq!(ds, vec![100, 5, 5]);
    let expected = vec![
        Op::Read(Reg::SysCtrl, 0),
        Op::Write(Reg::SysCtrl, 1 << 23),
        Op::Delay(100),
        Op::Read(Reg::SysCtrl, 1 << 23),
        Op::Write(Reg::SysCtrl, 0),
        Op::Read(Reg::SysCtrl, 0),
        Op::Write(Reg::SysCtrl, RESETS),
        Op::Read(Reg::SysCtrl, RESETS),
        Op::Read(Reg::SysCtrl, 0),
        Op::Write(Reg::IntStatusEn, 0x157F_51FF),
        Op::Write(Reg::IntStatus, 0x157F_51FF),
        Op::Write(Reg::IntSignalEn, 0),
        Op::Read(Reg::MixCtrl, 0),
        Op::Write(Reg::MixCtrl, 0),
        Op::Read(Reg::ProtCtrl, 0),
        Op::Write(Reg::ProtCtrl, 0),
        Op::Delay(5),
        Op::Read(Reg::SysCtrl, 0),
        Op::Write(Reg::SysCtrl, 1 << 27),
        Op::Delay(5),
    ];
    assert_eq!(*log, expected);
}

#[test]
fn unsupported_bus_width_is_refused() {
    let log = Rc::new(RefCell::new(Vec::new()));
    let mut mock = Mock::new(log.clone());
    mock.set(Reg::ProtCtrl, 1 << 1);
    let mut usdhc = host(mock);
    assert_eq!(usdhc.set_bus_width(2), Err(TransportError::NotSupported));
    assert!(log.borrow().is_empty());
    assert_eq!(usdhc.data_transfer_width(), Some(DataTransferWidth::Bit4));
}

#[test]
fn supported_bus_widths() {
    let (mut usdhc, _log) = driver();
    assert_eq!(usdhc.set_bus_width(8), Ok(()));
    assert_eq!(usdhc.data_transfer_width(), Some(DataTransferWidth::Bit8));
    assert_eq!(usdhc.set_bus_width(1), Ok(()));
    assert_eq!(usdhc.data_transfer_width(), Some(DataTransferWidth::Bit1));
    assert_eq!(usdhc.set_bus_width(4), Ok(()));
    assert_eq!(usdhc.data_transfer_width(), Some(DataTransferWidth::Bit4));
    assert_eq!(usdhc.set_bus_width(0), Err(TransportError::NotSupported));
}

#[test]
fn read_transfer_packs_little_endian() {
    let log = Rc::new(RefCell::new(Vec::new()));
    let mut mock = Mock::new(log.clone());
    mock.push(Reg::IntStatus, 0);
    mock.push(Reg::IntStatus, CC);
    mock.push(Reg::IntStatus, BRR);
    mock.push(Reg::IntStatus, 0);
    mock.push(Reg::IntStatus, BRR);
    mock.push(Reg::DataBuffAccPort, 0x4433_2211);
    mock.push(Reg::DataBuffAccPort, 0x8877_6655);
    let mut usdhc = host(mock);
    let mut response = [0u32; 4];
    let mut buf = vec![0u8; 8];
    let r = usdhc.transfer(command(17, 0, ResponseLen::R48), &mut response, Some(DataTransferDirection::Read), &mut buf);
    assert_eq!(r, Ok(()));
    assert_eq!(buf, vec![0x11, 0x22, 0x33, 0x44, 0x55, 0x66, 0x77, 0x88]);
    let log = log.borrow();
    let port_reads = log.iter().filter(|op| matches!(op, Op::Read(Reg::DataBuffAccPort, _))).count();
    assert_eq!(port_reads, 2);
    let brr_clears = log.iter().filter(|op| **op == Op::Write(Reg::IntStatus, BRR)).count();
    assert_eq!(brr_clears, 2);
    let w = writes(&log);
    assert!(w.contains(&(Reg::BlkAtt, 8)));
    assert!(w.contains(&(Reg::WtmkLvl, (128 << 16) | 1)));
    assert!(w.contains(&(Reg::MixCtrl, 1 << 4)));
    assert!(w.contains(&(Reg::CmdXfrTyp, (17 << 24) | (1 << 21) | (1 << 20) | (1 << 19) | (2 << 16))));
}

#[test]
fn write_transfer_sends_little_endian_words() {
    let log = Rc::new(RefCell::new(Vec::new()));
    let mut mock = Mock::new(log.clone());
    mock.push(Reg::IntStatus, 0);
    mock.push(Reg::IntStatus, CC);
    mock.push(Reg::IntStatus, BWR);
    mock.push(Reg::IntStatus, BWR);
    mock.push(Reg::IntStatus, BWR);
    mock.set(Reg::MixCtrl, 1 << 4);
    let mut usdhc = host(mock);
    let mut response = [0u32; 4];
    let data = vec![1u8, 2, 3, 4, 5, 6, 7, 8, 9, 10, 11, 12];
    let mut buf = data.clone();
    let r = usdhc.transfer(command(25, 0, ResponseLen::R48), &mut response, Some(DataTransferDirection::Write), &mut buf);
    assert_eq!(r, Ok(()));
    assert_eq!(buf, data);
    let log = log.borrow();
    let words: Vec<u32> = log.iter().filter_map(|op| match op {
        Op::Write(Reg::DataBuffAccPort, v) => Some(*v),
        _ => None,
    }).collect();
    assert_eq!(words, vec![0x0403_0201, 0x0807_0605, 0x0C0B_0A09]);
    let w = writes(&log);
    assert!(w.contains(&(Reg::MixCtrl, 0)));
    assert!(w.contains(&(Reg::BlkAtt, 12)));
}

#[test]
fn command_error_is_classified() {
    let log = Rc::new(RefCell::new(Vec::new()));
    let mut mock = Mock::new(log.clone());
    mock.push(Reg::IntStatus, 0);
    mock.push(Reg::IntStatus, Status::CTOE | Status::CCE);
    let mut usdhc = host(mock);
    let mut response = [5u32; 4];
    let mut buf = Vec::new();
    let r = usdhc.transfer(command(8, 0x1AA, ResponseLen::R48), &mut response, None, &mut buf);
    assert_eq!(r, Err(TransportError::CommandTimeout));
    assert_eq!(response, [5u32; 4]);
}

#[test]
fn data_error_stops_the_read() {
    let log = Rc::new(RefCell::new(Vec::new()));
    let mut mock = Mock::new(log.clone());
    mock.push(Reg::IntStatus, 0);
    mock.push(Reg::IntStatus, CC);
    mock.push(Reg::IntStatus, BRR);
    mock.push(Reg::IntStatus, Status::DCE);
    mock.push(Reg::DataBuffAccPort, 0xDDCC_BBAA);
    let mut usdhc = host(mock);
    let mut response = [0u32; 4];
    let mut buf = vec![0xEEu8; 8];
    let r = usdhc.transfer(command(17, 0, ResponseLen::R48), &mut response, Some(DataTransferDirection::Read), &mut buf);
    assert_eq!(r, Err(TransportError::Crc));
    assert_eq!(buf, vec![0xAA, 0xBB, 0xCC, 0xDD, 0xEE, 0xEE, 0xEE, 0xEE]);
}

#[test]
fn stale_errors_are_cleared_first() {
    let log = Rc::new(RefCell::new(Vec::new()));
    let mut mock = Mock::new(log.clone());
    mock.push(Reg::IntStatus, Status::DTOE);
    mock.push(Reg::IntStatus, CC);
    let mut usdhc = host(mock);
    let mut response = [0u32; 4];
    let mut buf = Vec::new();
    let r = usdhc.transfer(command(0, 0, ResponseLen::Zero), &mut response, None, &mut buf);
    assert_eq!(r, Ok(()));
    let log = log.borrow();
    assert_eq!(log[0], Op::Read(Reg::IntStatus, Status::DTOE));
    assert_eq!(log[1], Op::Write(Reg::IntStatus, 0x157F_0000));
}

#[test]
fn inhibit_flags_are_waited_out() {
    let log = Rc::new(RefCell::new(Vec::new()));
    let mut mock = Mock::new(log.clone());
    mock.push(Reg::PresState, 0x3);
    mock.push(Reg::PresState, 0x2);
    mock.push(Reg::PresState, 0x0);
    mock.set(Reg::IntStatus, CC);
    let mut usdhc = host(mock);
    let mut response = [0u32; 4];
    let mut buf = Vec::new();
    assert_eq!(usdhc.transfer(command(0, 0, ResponseLen::Zero), &mut response, None, &mut buf), Ok(()));
    let polls = log.borrow().iter().filter(|op| matches!(op, Op::Read(Reg::PresState, _))).count();
    assert_eq!(polls, 3);
}

#[test]
fn wait_gives_up_at_the_poll_limit() {
    let log = Rc::new(RefCell::new(Vec::new()));
    let mock = Mock::new(log.clone());
    let mut usdhc = Usdhc::with_poll_limit(mock, 5);
    assert_eq!(usdhc.max_polls(), 5);
    assert_eq!(usdhc.wait_for(Status::from_bits_truncate(CC)), Err(TransportError::TimedOut));
    assert_eq!(log.borrow().len(), 5);
}

#[test]
fn watermark_is_clamped_and_read_back() {
    let (mut usdhc, log) = driver();
    usdhc.set_watermark(Watermark { write_level: 200, read_level: 16 });
    assert_eq!(usdhc.watermark(), Watermark { write_level: 128, read_level: 16 });
    assert_eq!(writes(&log.borrow()), vec![(Reg::WtmkLvl, (128 << 16) | 16)]);
}

#[test]
fn endian_mode_round_trip() {
    let (mut usdhc, _log) = driver();
    assert_eq!(usdhc.endian_mode(), Some(EndianMode::BigEndian));
    usdhc.set_endian_mode(EndianMode::LittleEndian);
    assert_eq!(usdhc.endian_mode(), Some(EndianMode::LittleEndian));
    usdhc.set_endian_mode(EndianMode::HalwordBigEndian);
    assert_eq!(usdhc.endian_mode(), Some(EndianMode::HalwordBigEndian));
    assert_eq!(EndianMode::default(), EndianMode::LittleEndian);
}

#[test]
fn invalid_field_encodings_read_as_none() {
    let log = Rc::new(RefCell::new(Vec::new()));
    let mut mock = Mock::new(log);
    mock.set(Reg::ProtCtrl, (3 << 4) | (3 << 1));
    let mut usdhc = host(mock);
    assert_eq!(usdhc.endian_mode(), None);
    assert_eq!(usdhc.data_transfer_width(), None);
}

#[test]
fn timing_clamps_divisor() {
    let log = Rc::new(RefCell::new(Vec::new()));
    let mut mock = Mock::new(log.clone());
    mock.set(Reg::PresState, 1 << 3);
    mock.set(Reg::SysCtrl, 0xFFFF_FFFF & !RESETS);
    let mut usdhc = host(mock);
    let t = Timing { divisor: 40, data_rate: DataRate::DualDataRate(DDRPrescaler::Divide2) };
    assert_eq!(usdhc.set_timing(t), Ok(()));
    let w = writes(&log.borrow());
    assert_eq!(w[0], (Reg::MixCtrl, 1 << 3));
    // divisor 16 - 1, prescaler 0, data timeout 0; other bits kept
    assert_eq!(w[1], (Reg::SysCtrl, (0xF8FF_FFFF & !0x000F_FFF0) | (15 << 4)));
    let t = Timing { divisor: 0, data_rate: DataRate::SingleDataRate(SDRPrescaler::Divide1) };
    assert_eq!(usdhc.set_timing(t), Ok(()));
    let w = writes(&log.borrow());
    assert_eq!(w[2], (Reg::MixCtrl, 0));
    assert_eq!(w[3].1 & 0x000F_FFF0, 0);
}

#[test]
fn dma_enable_and_disable() {
    let (mut usdhc, log) = driver();
    usdhc.set_dma_enable(Some(DmaSelect::Simple));
    assert_eq!(writes(&log.borrow()), vec![(Reg::ProtCtrl, 0), (Reg::MixCtrl, 1)]);
    usdhc.set_dma_enable(None);
    assert_eq!(writes(&log.borrow())[2..], [(Reg::MixCtrl, 0), (Reg::ProtCtrl, 0)]);
}

#[test]
fn hardware_reset_line_levels() {
    let (mut usdhc, log) = driver();
    usdhc.set_hardware_reset(false);
    usdhc.set_hardware_reset(true);
    assert_eq!(writes(&log.borrow()), vec![(Reg::SysCtrl, 1 << 23), (Reg::SysCtrl, 0)]);
}

#[test]
fn command_reset_waits_for_the_bit() {
    let log = Rc::new(RefCell::new(Vec::new()));
    let mut mock = Mock::new(log.clone());
    mock.push(Reg::SysCtrl, 0);
    mock.push(Reg::SysCtrl, 1 << 25);
    mock.push(Reg::SysCtrl, 1 << 25);
    mock.push(Reg::SysCtrl, 0);
    let mut usdhc = host(mock);
    assert_eq!(usdhc.command_reset(), Ok(()));
    assert_eq!(writes(&log.borrow()), vec![(Reg::SysCtrl, 1 << 25)]);
    let reads = log.borrow().iter().filter(|op| matches!(op, Op::Read(Reg::SysCtrl, _))).count();
    assert_eq!(reads, 4);
}

#[test]
fn status_registers_are_written_whole() {
    let (mut usdhc, log) = driver();
    usdhc.set_status_enable(Status::all());
    usdhc.set_status_interrupt(Status::empty());
    usdhc.clear_status(Status::from_bits_truncate(CC | BRR));
    usdhc.write_data_buffer(0xCAFE_F00D);
    usdhc.set_data_transfer_direction(DataTransferDirection::Read);
    usdhc.set_data_transfer_width(DataTransferWidth::Bit8);
    usdhc.initialize_card();
    assert_eq!(writes(&log.borrow()), vec![
        (Reg::IntStatusEn, 0x157F_51FF),
        (Reg::IntSignalEn, 0),
        (Reg::IntStatus, CC | BRR),
        (Reg::DataBuffAccPort, 0xCAFE_F00D),
        (Reg::MixCtrl, 1 << 4),
        (Reg::ProtCtrl, 2 << 1),
        (Reg::SysCtrl, 1 << 27),
    ]);
}

#[test]
fn present_state_and_data_port_reads() {
    let log = Rc::new(RefCell::new(Vec::new()));
    let mut mock = Mock::new(log);
    mock.set(Reg::PresState, 0xFFFF_FFFF);
    mock.set(Reg::DataBuffAccPort, 0x1234_5678);
    mock.set(Reg::IntStatus, 0xFFFF_FFFF);
    let mut usdhc = host(mock);
    assert_eq!(usdhc.present_state().bits(), 0x008D_9C8F);
    assert!(usdhc.present_state().intersects(imxrt_usdhc::PresentState::SDSTB));
    assert_eq!(usdhc.read_data_buffer(), 0x1234_5678);
    assert_eq!(usdhc.status().bits(), 0x157F_51FF);
    assert!(usdhc.set_mode(()).is_ok());
}

#[test]
fn union_of_errors_keeps_first_priority() {
    let a = Status::from_bits_truncate(Status::DCE);
    let b = Status::from_bits_truncate(Status::CIE);
    assert_eq!(transport_error(a), TransportError::Crc);
    assert_eq!(transport_error(b), TransportError::CommandIndex);
    assert_eq!(transport_error(a.union(b)), TransportError::CommandIndex);
    assert!(a.union(b).contains(a));
    assert!(a.union(b).intersects(b));
    assert!(!a.intersects(b));
    assert_eq!(Status::errors().bits(), 0x157F_0000);
}

#[test]
fn block_size_field_holds_thirteen_bits() {
    let log = Rc::new(RefCell::new(Vec::new()));
    let mock = Mock::new(log.clone());
    let mut usdhc = host(mock);
    let mut response = [0u32; 4];
    let mut buf = vec![0u8; 8192];
    let r = usdhc.transfer(command(18, 0, ResponseLen::R48), &mut response, Some(DataTransferDirection::Read), &mut buf);
    // no data ever arrives, so the wait for the first word gives up
    assert_eq!(r, Err(TransportError::TimedOut));
    let polls = log.borrow().iter().rev().take_while(|op| matches!(op, Op::Read(Reg::IntStatus, _))).count();
    assert_eq!(polls, 1000);
    assert!(writes(&log.borrow()).contains(&(Reg::BlkAtt, 0)));
}

#[test]
fn empty_read_transfer_moves_no_data() {
    let log = Rc::new(RefCell::new(Vec::new()));
    let mock = Mock::new(log.clone());
    let mut usdhc = host(mock);
    let mut response = [0u32; 4];
    let mut buf: Vec<u8> = Vec::new();
    let r = usdhc.transfer(command(17, 0, ResponseLen::R48), &mut response, Some(DataTransferDirection::Read), &mut buf);
    assert_eq!(r, Ok(()));
    assert!(!log.borrow().iter().any(|op| matches!(op, Op::Read(Reg::DataBuffAccPort, _))));
    assert!(writes(&log.borrow()).contains(&(Reg::CmdXfrTyp, (17 << 24) | (1 << 21) | (1 << 20) | (1 << 19) | (2 << 16))));
}
