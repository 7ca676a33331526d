//! The two-hop I2C chain: native master batches, the demodulator relay
//! convention, and the tuner drivers' bit-reversed register reads.

use it930x::bus::SimBus;
use it930x::checksum::checksum;
use it930x::errors::{CtrlMsgError, TunerError};
use it930x::rt710::RT710ChipType;
use it930x::frame::encode_request;
use it930x::i2c::{I2CCommRequest, I2CRequestType};
use it930x::it930x::IT930x;
use it930x::r850::R850;
use it930x::rt710::RT710;
use it930x::tc90522::TC90522;

fn make_response(seqno: u8, status: u8, payload: &[u8]) -> Vec<u8> {
    let mut body = vec![seqno, status];
    body.extend_from_slice(payload);
    let ck = checksum(&body);
    let mut out = vec![(body.len() + 2) as u8];
    out.extend_from_slice(&body);
    out.push((ck >> 8) as u8);
    out.push((ck & 0xff) as u8);
    out
}

fn session_with(responses: Vec<Vec<u8>>) -> IT930x<SimBus> {
    IT930x::new(SimBus::new(responses))
}

#[test]
fn i2c_batch_runs_in_order() {
    let mut dev = session_with(vec![
        make_response(0, 0, &[]),
        make_response(1, 0, &[0x44, 0x55]),
    ]);
    let requests = vec![
        I2CCommRequest::write(0x20, vec![0x10]),
        I2CCommRequest::read(0x20, 2),
    ];
    let results = dev.i2c_master_request(1, &requests).unwrap();
    assert_eq!(results.len(), 2);
    assert_eq!(results[0], Vec::<u8>::new());
    assert_eq!(results[1], vec![0x44, 0x55]);
    // write: [count, bus, addr<<1, data..]; read: [count, bus, addr<<1]
    assert_eq!(dev.bus.sent_frame(0), encode_request(0x002b, 0, &[1, 1, 0x40, 0x10]));
    assert_eq!(dev.bus.sent_frame(1), encode_request(0x002a, 1, &[2, 1, 0x40]));
}

#[test]
fn i2c_oversize_read_is_rejected() {
    let mut dev = session_with(vec![]);
    let requests = vec![I2CCommRequest::read(0x20, 252)];
    assert_eq!(dev.i2c_master_request(1, &requests), Err(CtrlMsgError::InvalidLength));
    assert_eq!(dev.bus.sent_count(), 0);
}

#[test]
fn i2c_oversize_write_is_rejected() {
    let mut dev = session_with(vec![]);
    let requests = vec![I2CCommRequest::write(0x20, vec![0u8; 248])];
    assert_eq!(dev.i2c_master_request(1, &requests), Err(CtrlMsgError::InvalidLength));
    assert_eq!(dev.bus.sent_count(), 0);
}

#[test]
fn i2c_batch_stops_at_first_failure() {
    // the first transaction is acknowledged, the second gets no answer
    let mut dev = session_with(vec![make_response(0, 0, &[])]);
    let requests = vec![
        I2CCommRequest::write(0x20, vec![0x10]),
        I2CCommRequest::write(0x21, vec![0x11]),
        I2CCommRequest::write(0x22, vec![0x12]),
    ];
    assert!(dev.i2c_master_request(1, &requests).is_err());
    assert_eq!(dev.bus.sent_count(), 2);
}

#[test]
fn relay_wraps_write_with_sub_address() {
    let mut dev = session_with(vec![make_response(0, 0, &[])]);
    let demod = TC90522::new(2, 0x11, false);
    let requests = vec![I2CCommRequest::write(0x3d, vec![0x02, 0xaa])];
    let results = demod.i2c_master_request(&mut dev, &requests).unwrap();
    assert_eq!(results.len(), 1);
    // one hop-1 write at the demodulator: [0xFE, target<<1, payload..]
    assert_eq!(
        dev.bus.sent_frame(0),
        encode_request(0x002b, 0, &[4, 2, 0x22, 0xfe, 0x7a, 0x02, 0xaa])
    );
}

#[test]
fn relay_wraps_read_as_setup_write_then_read() {
    let mut dev = session_with(vec![
        make_response(0, 0, &[]),
        make_response(1, 0, &[0x12, 0x34]),
    ]);
    let demod = TC90522::new(2, 0x11, false);
    let requests = vec![I2CCommRequest::read(0x3d, 2)];
    let results = demod.i2c_master_request(&mut dev, &requests).unwrap();
    assert_eq!(results[0], vec![0x12, 0x34]);
    // setup write [0xFE, target<<1|1], then the read itself
    assert_eq!(dev.bus.sent_frame(0), encode_request(0x002b, 0, &[2, 2, 0x22, 0xfe, 0x7b]));
    assert_eq!(dev.bus.sent_frame(1), encode_request(0x002a, 1, &[2, 2, 0x22]));
}

#[test]
fn relay_rejects_empty_downstream_write() {
    let mut dev = session_with(vec![]);
    let demod = TC90522::new(2, 0x11, false);
    let requests = vec![I2CCommRequest::write(0x3d, vec![])];
    assert_eq!(demod.i2c_master_request(&mut dev, &requests), Err(CtrlMsgError::InvalidLength));
    assert_eq!(dev.bus.sent_count(), 0);
}

#[test]
fn demod_read_selects_then_reads_without_prefix() {
    let mut dev = session_with(vec![
        make_response(0, 0, &[]),
        make_response(1, 0, &[0x99]),
    ]);
    let demod = TC90522::new(2, 0x11, false);
    let r = demod.read_regs(&mut dev, 0x47, 1).unwrap();
    assert_eq!(r, vec![0x99]);
    // the demodulator's own registers: plain [reg] select, no 0xFE
    assert_eq!(dev.bus.sent_frame(0), encode_request(0x002b, 0, &[1, 2, 0x22, 0x47]));
    assert_eq!(dev.bus.sent_frame(1), encode_request(0x002a, 1, &[1, 2, 0x22]));
}

#[test]
fn demod_write_carries_reg_and_data() {
    let mut dev = session_with(vec![make_response(0, 0, &[])]);
    let demod = TC90522::new(2, 0x11, false);
    assert_eq!(demod.write_regs(&mut dev, 0x47, &[0x01, 0x02]), Ok(()));
    assert_eq!(dev.bus.sent_frame(0), encode_request(0x002b, 0, &[3, 2, 0x22, 0x47, 0x01, 0x02]));
}

#[test]
fn demod_multiple_reads_keep_order_and_lengths() {
    let mut dev = session_with(vec![
        make_response(0, 0, &[]),
        make_response(1, 0, &[0x01]),
        make_response(2, 0, &[]),
        make_response(3, 0, &[0x02, 0x03]),
    ]);
    let demod = TC90522::new(2, 0x11, false);
    let regs = vec![(0x10u8, 1usize), (0x20u8, 2usize)];
    let out = demod.read_multiple_regs(&mut dev, &regs).unwrap();
    assert_eq!(out, vec![vec![0x01], vec![0x02, 0x03]]);
}

#[test]
fn reverse_bit_swaps_msb_and_lsb() {
    // the documented wiring quirk: 0b10110000 surfaces as 0b00001101
    assert_eq!(RT710::reverse_bit(0b1011_0000), 0b0000_1101);
    assert_eq!(R850::reverse_bit(0b1011_0000), 0b0000_1101);
    assert_eq!(RT710::reverse_bit(0x00), 0x00);
    assert_eq!(RT710::reverse_bit(0xff), 0xff);
    assert_eq!(RT710::reverse_bit(0x80), 0x01);
    for v in 0u16..=255 {
        let v = v as u8;
        assert_eq!(RT710::reverse_bit(RT710::reverse_bit(v)), v);
    }
}

#[test]
fn tuner_read_bit_reverses_raw_bytes() {
    // raw 0xB0 from the wire surfaces as 0x0D through the passthrough
    let mut dev = session_with(vec![
        make_response(0, 0, &[]),
        make_response(1, 0, &[]),
        make_response(2, 0, &[0xb0]),
    ]);
    let tuner = RT710::new(2, 0x11);
    let r = tuner.read_regs(&mut dev, 0, 1).unwrap();
    assert_eq!(r, vec![0b0000_1101]);
    // relayed select: [0xFE, tuner<<1, 0x00]; setup [0xFE, tuner<<1|1]; read
    assert_eq!(dev.bus.sent_frame(0), encode_request(0x002b, 0, &[3, 2, 0x22, 0xfe, 0x7a, 0x00]));
    assert_eq!(dev.bus.sent_frame(1), encode_request(0x002b, 1, &[2, 2, 0x22, 0xfe, 0x7b]));
    assert_eq!(dev.bus.sent_frame(2), encode_request(0x002a, 2, &[1, 2, 0x22]));
}

#[test]
fn tuner_read_cuts_the_requested_window() {
    // the chip answers registers 0..reg+len; only the window comes back
    let mut dev = session_with(vec![
        make_response(0, 0, &[]),
        make_response(1, 0, &[]),
        make_response(2, 0, &[0x01, 0x02, 0x03, 0x04]),
    ]);
    let tuner = RT710::new(2, 0x11);
    let r = tuner.read_regs(&mut dev, 3, 1).unwrap();
    assert_eq!(r, vec![RT710::reverse_bit(0x04)]);
}

#[test]
fn tuner_write_is_relayed_with_register_index() {
    let mut dev = session_with(vec![make_response(0, 0, &[])]);
    let tuner = RT710::new(2, 0x11);
    assert_eq!(tuner.write_regs(&mut dev, 0x02, &[0xaa]), Ok(()));
    assert_eq!(
        dev.bus.sent_frame(0),
        encode_request(0x002b, 0, &[4, 2, 0x22, 0xfe, 0x7a, 0x02, 0xaa])
    );
}

#[test]
fn tuner_read_validates_the_register_window() {
    let mut dev = session_with(vec![]);
    let tuner = RT710::new(2, 0x11);
    assert_eq!(tuner.read_regs(&mut dev, 0, 0), Err(CtrlMsgError::InvalidLength));
    assert_eq!(tuner.read_regs(&mut dev, 0x10, 1), Err(CtrlMsgError::InvalidLength));
    assert_eq!(tuner.read_regs(&mut dev, 0x0f, 2), Err(CtrlMsgError::InvalidLength));
    assert_eq!(dev.bus.sent_count(), 0);
}

#[test]
fn rt710_init_classifies_the_chip() {
    // surfaced register 3 must read 0x7X for an RT710; raw is bit-reversed
    let raw = RT710::reverse_bit(0x70);
    let mut dev = session_with(vec![
        make_response(0, 0, &[]),
        make_response(1, 0, &[]),
        make_response(2, 0, &[0x00, 0x00, 0x00, raw]),
    ]);
    let mut tuner = RT710::new(2, 0x11);
    assert_eq!(tuner.init(&mut dev), Ok(()));
    assert!(matches!(tuner.priv_.chip, RT710ChipType::RT710));
    assert!(tuner.priv_.init);
}

#[test]
fn r850_init_fails_without_a_detected_chip() {
    // four probes, each answered with a zero identity byte
    let mut responses = Vec::new();
    for probe in 0u8..4 {
        responses.push(make_response(probe * 3, 0, &[]));
        responses.push(make_response(probe * 3 + 1, 0, &[]));
        responses.push(make_response(probe * 3 + 2, 0, &[0x00]));
    }
    let mut dev = session_with(responses);
    let mut tuner = R850::new(2, 0x10);
    assert_eq!(tuner.init(&mut dev), Err(TunerError::ChipNotDetected));
    assert_eq!(dev.bus.sent_count(), 12);
}

#[test]
fn r850_init_detects_and_refreshes_registers() {
    // probe answers identity 0x98 (raw bytes are bit-reversed), then the
    // register refresh reads 0x08..0x30 and writes the window back
    let probe_raw = R850::reverse_bit(0x98);
    let mut window_raw = vec![0u8; 48];
    for (k, b) in window_raw.iter_mut().enumerate() {
        *b = k as u8;
    }
    let responses = vec![
        make_response(0, 0, &[]),
        make_response(1, 0, &[]),
        make_response(2, 0, &[probe_raw]),
        make_response(3, 0, &[]),
        make_response(4, 0, &[]),
        make_response(5, 0, &window_raw),
        make_response(6, 0, &[]),
    ];
    let mut dev = session_with(responses);
    let mut tuner = R850::new(2, 0x10);
    assert_eq!(tuner.init(&mut dev), Ok(()));
    assert_eq!(dev.bus.sent_count(), 7);
    assert_eq!(tuner.priv_.chip, 0);
    // the write-back carries the bit-reversed window bytes
    let frame = dev.bus.sent_frame(6);
    assert_eq!(frame[1], 0x00);
    assert_eq!(frame[2], 0x2b);
    // relayed write payload: [count, bus, demod<<1, 0xFE, tuner<<1, reg, data..]
    assert_eq!(frame[4], 43);
    assert_eq!(frame[9], 0x08);
    assert_eq!(frame[10], R850::reverse_bit(window_raw[8]));
}

#[test]
fn r850_xtal_probe_stops_at_a_usable_bank() {
    // oscillator reports valid (bit 6 set) with a bank within range on
    // the first drive step, so one margin step is added
    let surfaced = 0x76u8;  // bank 54, within 12 of 49
    let raw = R850::reverse_bit(surfaced);
    let responses = vec![
        make_response(0, 0, &[]),            // probe configuration write
        make_response(1, 0, &[]),            // drive step write
        make_response(2, 0, &[]),            // read select
        make_response(3, 0, &[]),            // read setup
        make_response(4, 0, &[raw, raw, raw]),
    ];
    let mut dev = session_with(responses);
    let mut tuner = R850::new(2, 0x10);
    assert_eq!(tuner.check_xtal_power(&mut dev), Ok(()));
    assert_eq!(tuner.priv_.xtal_pwr, 1);
    assert_eq!(dev.bus.sent_count(), 5);
}
