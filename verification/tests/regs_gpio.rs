//! Register access, sequencing, masked writes and GPIO caching, driven
//! over the scripted transport.

use it930x::bus::SimBus;
use it930x::checksum::checksum;
use it930x::errors::{BusError, CtrlMsgError};
use it930x::frame::encode_request;
use it930x::it930x::{GpioMode, IT930x};
use it930x::regs::it930x_reg_length;

fn make_response(seqno: u8, status: u8, payload: &[u8]) -> Vec<u8> {
    let mut body = vec![seqno, status];
    body.extend_from_slice(payload);
    let ck = checksum(&body);
    let mut out = vec![(body.len() + 2) as u8];
    out.extend_from_slice(&body);
    out.push((ck >> 8) as u8);
    out.push((ck & 0xff) as u8);
    out
}

fn session_with(responses: Vec<Vec<u8>>) -> IT930x<SimBus> {
    IT930x::new(SimBus::new(responses))
}

#[test]
fn register_width_selection() {
    assert_eq!(it930x_reg_length(0x000000ff), 1);
    assert_eq!(it930x_reg_length(0x0000ff00), 2);
    assert_eq!(it930x_reg_length(0x00ff0000), 3);
    assert_eq!(it930x_reg_length(0xff000000), 4);
    assert_eq!(it930x_reg_length(0), 1);
}

#[test]
fn read_regs_frame_layout_and_payload() {
    let mut dev = session_with(vec![make_response(0, 0, &[0x5a])]);
    let r = dev.read_regs(0x4979, 1);
    assert_eq!(r, Ok(vec![0x5a]));
    assert_eq!(dev.bus.sent_count(), 1);
    // header: count, width, address high to low
    let expect = encode_request(0x0000, 0, &[1, 2, 0x00, 0x00, 0x49, 0x79]);
    assert_eq!(dev.bus.sent_frame(0), expect);
}

#[test]
fn read_regs_rejects_oversize_before_io() {
    let mut dev = session_with(vec![]);
    assert_eq!(dev.read_regs(0x1000, 252), Err(CtrlMsgError::InvalidLength));
    assert_eq!(dev.bus.sent_count(), 0);
    assert_eq!(dev.seqno, 0);
}

#[test]
fn write_regs_frame_layout() {
    let mut dev = session_with(vec![make_response(0, 0, &[])]);
    assert_eq!(dev.write_regs(0xd920, &[0x01, 0x02]), Ok(()));
    let expect = encode_request(0x0001, 0, &[2, 2, 0x00, 0x00, 0xd9, 0x20, 0x01, 0x02]);
    assert_eq!(dev.bus.sent_frame(0), expect);
}

#[test]
fn sequence_numbers_increment_per_exchange() {
    let mut dev = session_with(vec![
        make_response(0, 0, &[0x00]),
        make_response(1, 0, &[0x00]),
        make_response(2, 0, &[0x00]),
    ]);
    for call in 0u8..3 {
        dev.read_regs(0x10, 1).unwrap();
        assert_eq!(dev.bus.sent_frame(call as usize)[3], call);
    }
    assert_eq!(dev.seqno, 3);
}

#[test]
fn sequence_number_wraps_mod_256() {
    let mut dev = session_with(vec![make_response(255, 0, &[0x00])]);
    dev.seqno = 255;
    dev.read_regs(0x10, 1).unwrap();
    assert_eq!(dev.bus.sent_frame(0)[3], 255);
    assert_eq!(dev.seqno, 0);
}

#[test]
fn stale_sequence_echo_is_rejected() {
    // checksum and status are fine, but the echo is from another exchange
    let mut dev = session_with(vec![make_response(9, 0, &[0x00])]);
    assert_eq!(dev.read_regs(0x10, 1), Err(CtrlMsgError::InvalidSequence));
}

#[test]
fn write_reg_mask_zero_mask_is_rejected_without_io() {
    let mut dev = session_with(vec![]);
    assert_eq!(dev.write_reg_mask(0xda1d, 0x01, 0x00), Err(CtrlMsgError::InvalidArgument));
    assert_eq!(dev.bus.sent_count(), 0);
    assert_eq!(dev.seqno, 0);
}

#[test]
fn write_reg_mask_full_mask_equals_direct_write() {
    let mut dev = session_with(vec![make_response(0, 0, &[])]);
    assert_eq!(dev.write_reg_mask(0xda1d, 0x5a, 0xff), Ok(()));
    assert_eq!(dev.bus.sent_count(), 1);
    let mut direct = session_with(vec![make_response(0, 0, &[])]);
    direct.write_regs(0xda1d, &[0x5a]).unwrap();
    assert_eq!(dev.bus.sent_frame(0), direct.bus.sent_frame(0));
}

#[test]
fn write_reg_mask_unchanged_byte_skips_the_write() {
    // current byte 0xf0; asking for 0xf0 in the high nibble changes nothing
    let mut dev = session_with(vec![make_response(0, 0, &[0xf0])]);
    assert_eq!(dev.write_reg_mask(0x1234, 0xf0, 0xf0), Ok(()));
    assert_eq!(dev.bus.sent_count(), 1);
    assert_eq!(dev.seqno, 1);
}

#[test]
fn write_reg_mask_changed_byte_writes_back() {
    // current byte 0x0f; the high nibble must become 0xf0
    let mut dev = session_with(vec![
        make_response(0, 0, &[0x0f]),
        make_response(1, 0, &[]),
    ]);
    assert_eq!(dev.write_reg_mask(0x1234, 0xf0, 0xf0), Ok(()));
    assert_eq!(dev.bus.sent_count(), 2);
    let expect = encode_request(0x0001, 1, &[1, 2, 0x00, 0x00, 0x12, 0x34, 0xff]);
    assert_eq!(dev.bus.sent_frame(1), expect);
}

#[test]
fn gpio_set_mode_twice_issues_writes_only_once() {
    let mut dev = session_with(vec![
        make_response(0, 0, &[]),
        make_response(1, 0, &[]),
    ]);
    // first call from (input, disabled): one mode write, one enable write
    assert_eq!(dev.set_gpio_mode(7, GpioMode::Out, true), Ok(()));
    assert_eq!(dev.bus.sent_count(), 2);
    // repeating the identical call touches the bus not at all
    assert_eq!(dev.set_gpio_mode(7, GpioMode::Out, true), Ok(()));
    assert_eq!(dev.bus.sent_count(), 2);
}

#[test]
fn gpio_set_mode_writes_the_pin_registers() {
    let mut dev = session_with(vec![
        make_response(0, 0, &[]),
        make_response(1, 0, &[]),
    ]);
    dev.set_gpio_mode(7, GpioMode::Out, true).unwrap();
    // pin 7's mode register is 0xd8c4, its enable register 0xd8c5
    assert_eq!(dev.bus.sent_frame(0), encode_request(0x0001, 0, &[1, 2, 0, 0, 0xd8, 0xc4, 1]));
    assert_eq!(dev.bus.sent_frame(1), encode_request(0x0001, 1, &[1, 2, 0, 0, 0xd8, 0xc5, 1]));
}

#[test]
fn gpio_write_refuses_non_output_pin() {
    let mut dev = session_with(vec![]);
    assert_eq!(dev.write_gpio(7, true), Err(CtrlMsgError::InvalidArgument));
    assert_eq!(dev.bus.sent_count(), 0);
}

#[test]
fn gpio_write_drives_the_output_register() {
    let mut dev = session_with(vec![
        make_response(0, 0, &[]),
        make_response(1, 0, &[]),
        make_response(2, 0, &[]),
    ]);
    dev.set_gpio_mode(7, GpioMode::Out, true).unwrap();
    dev.write_gpio(7, true).unwrap();
    // pin 7's output register is 0xd8c3
    assert_eq!(dev.bus.sent_frame(2), encode_request(0x0001, 2, &[1, 2, 0, 0, 0xd8, 0xc3, 1]));
}

#[test]
fn gpio_pin_range_is_validated() {
    let mut dev = session_with(vec![]);
    assert_eq!(dev.set_gpio_mode(0, GpioMode::Out, true), Err(CtrlMsgError::InvalidArgument));
    assert_eq!(dev.set_gpio_mode(17, GpioMode::Out, true), Err(CtrlMsgError::InvalidArgument));
    assert_eq!(dev.write_gpio(0, true), Err(CtrlMsgError::InvalidArgument));
    assert_eq!(dev.write_gpio(17, true), Err(CtrlMsgError::InvalidArgument));
    assert_eq!(dev.bus.sent_count(), 0);
}

#[test]
fn device_error_status_is_passed_through() {
    let mut dev = session_with(vec![make_response(0, 2, &[])]);
    assert_eq!(dev.read_regs(0x10, 0), Err(CtrlMsgError::DeviceError(2)));
}

#[test]
fn bus_timeout_surfaces_as_bus_error() {
    let mut dev = session_with(vec![]);
    assert_eq!(dev.read_regs(0x10, 1), Err(CtrlMsgError::Bus(BusError::Timeout)));
}

#[test]
fn gpio_cache_moves_only_behind_a_successful_write() {
    // no responses: the mode write fails, so the cache must not flip and
    // a retry issues the mode write again
    let mut dev = session_with(vec![]);
    assert!(dev.set_gpio_mode(7, GpioMode::Out, true).is_err());
    assert_eq!(dev.bus.sent_count(), 1);
    // now answer the retry: both writes go out again from scratch
    dev.bus.responses = vec![make_response(1, 0, &[]), make_response(2, 0, &[])];
    dev.bus.next_resp = 0;
    assert_eq!(dev.set_gpio_mode(7, GpioMode::Out, true), Ok(()));
    assert_eq!(dev.bus.sent_count(), 3);
}
