//! Firmware image parsing and upload, the liveness probe, the EEPROM
//! check, and warm-init register programming.

use it930x::bus::SimBus;
use it930x::checksum::checksum;
use it930x::errors::{BusError, CtrlMsgError};
use it930x::firmware::parse_fw_block;
use it930x::frame::encode_request;
use it930x::it930x::{GpioMode, IT930x};
use it930x::px4_device::Px4Device;

fn make_response(seqno: u8, status: u8, payload: &[u8]) -> Vec<u8> {
    let mut body = vec![seqno, status];
    body.extend_from_slice(payload);
    let ck = checksum(&body);
    let mut out = vec![(body.len() + 2) as u8];
    out.extend_from_slice(&body);
    out.push((ck >> 8) as u8);
    out.push((ck & 0xff) as u8);
    out
}

fn session_with(responses: Vec<Vec<u8>>) -> IT930x<SimBus> {
    IT930x::new(SimBus::new(responses))
}

#[test]
fn fw_block_with_no_descriptors_consumes_four_bytes() {
    let image = [0x03u8, 0x00, 0x00, 0x00];
    assert_eq!(parse_fw_block(&image, 0), Ok((4, 0)));
}

#[test]
fn fw_block_with_two_fragments_sums_their_lengths() {
    // M = 2, fragment lengths 5 and 3 (each triplet's length byte is its
    // third): total 4 + 6 + 8 = 18
    let mut image = vec![0x03u8, 0x00, 0x00, 0x02];
    image.extend_from_slice(&[0, 0, 5, 0, 0, 3]);
    image.extend_from_slice(&[0u8; 8]);
    assert_eq!(parse_fw_block(&image, 0), Ok((18, 8)));
}

#[test]
fn fw_block_with_bad_marker_is_a_format_error() {
    let image = [0x04u8, 0x00, 0x00, 0x00];
    assert_eq!(parse_fw_block(&image, 0), Err(CtrlMsgError::FormatError));
}

#[test]
fn fw_block_truncated_table_is_a_format_error() {
    let image = [0x03u8, 0x00, 0x00, 0x05, 0x01];
    assert_eq!(parse_fw_block(&image, 0), Err(CtrlMsgError::FormatError));
}

#[test]
fn fw_block_truncated_payload_is_a_format_error() {
    let image = [0x03u8, 0x00, 0x00, 0x01, 0, 0, 9, 0xaa];
    assert_eq!(parse_fw_block(&image, 0), Err(CtrlMsgError::FormatError));
}

#[test]
fn read_firmware_version_assembles_big_endian() {
    let mut dev = session_with(vec![make_response(0, 0, &[1, 2, 3, 4])]);
    assert_eq!(dev.read_firmware_version(), Ok(0x01020304));
    // QUERYINFO carries subcommand 1
    assert_eq!(dev.bus.sent_frame(0), encode_request(0x0022, 0, &[1]));
}

#[test]
fn load_firmware_skips_when_already_loaded() {
    let mut dev = session_with(vec![make_response(0, 0, &[0, 0, 0, 1])]);
    assert_eq!(dev.load_firmware(&[0xff, 0xff]), Ok(()));
    assert_eq!(dev.bus.sent_count(), 1);
}

#[test]
fn load_firmware_uploads_blocks_and_boots() {
    // one real block: M=1, one 2-byte fragment
    let block = [0x03u8, 0, 0, 1, 0, 0, 2, 0xca, 0xfe];
    let responses = vec![
        make_response(0, 0, &[0, 0, 0, 0]),  // not loaded yet
        make_response(1, 0, &[]),            // I2C speed register
        make_response(2, 0, &[]),            // the scatter block
        make_response(3, 0, &[]),            // boot
        make_response(4, 0, &[0, 0, 0, 9]),  // version after boot
    ];
    let mut dev = session_with(responses);
    assert_eq!(dev.load_firmware(&block), Ok(()));
    assert_eq!(dev.bus.sent_count(), 5);
    // the I2C speed register gets the configured speed
    assert_eq!(dev.bus.sent_frame(1), encode_request(0x0001, 1, &[1, 2, 0, 0, 0xf1, 0x03, 0x07]));
    // the block goes out whole under FW_SCATTER_WRITE
    assert_eq!(dev.bus.sent_frame(2), encode_request(0x0029, 2, &block));
    // then BOOT with no payload
    assert_eq!(dev.bus.sent_frame(3), encode_request(0x0023, 3, &[]));
}

#[test]
fn load_firmware_skips_padding_blocks() {
    // a padding block (no payload) produces no scatter-write exchange
    let image = [0x03u8, 0, 0, 0];
    let responses = vec![
        make_response(0, 0, &[0, 0, 0, 0]),
        make_response(1, 0, &[]),
        make_response(2, 0, &[]),            // boot
        make_response(3, 0, &[0, 0, 0, 9]),
    ];
    let mut dev = session_with(responses);
    assert_eq!(dev.load_firmware(&image), Ok(()));
    assert_eq!(dev.bus.sent_count(), 4);
}

#[test]
fn load_firmware_aborts_on_malformed_block() {
    let image = [0x07u8, 0, 0, 0];
    let responses = vec![
        make_response(0, 0, &[0, 0, 0, 0]),
        make_response(1, 0, &[]),
    ];
    let mut dev = session_with(responses);
    assert_eq!(dev.load_firmware(&image), Err(CtrlMsgError::FormatError));
    assert_eq!(dev.bus.sent_count(), 2);
}

#[test]
fn load_firmware_reports_boot_failure() {
    let responses = vec![
        make_response(0, 0, &[0, 0, 0, 0]),
        make_response(1, 0, &[]),
        make_response(2, 0, &[]),
        make_response(3, 0, &[0, 0, 0, 0]),  // still version zero
    ];
    let mut dev = session_with(responses);
    assert_eq!(dev.load_firmware(&[]), Err(CtrlMsgError::BootFailed));
}

#[test]
fn raise_gives_up_after_five_probes() {
    let mut dev = session_with(vec![]);
    assert_eq!(dev.raise(), Err(CtrlMsgError::Bus(BusError::Timeout)));
    assert_eq!(dev.bus.sent_count(), 5);
    assert_eq!(dev.seqno, 5);
}

#[test]
fn raise_succeeds_on_first_answer() {
    let mut dev = session_with(vec![make_response(0, 0, &[0, 0, 0, 1])]);
    assert_eq!(dev.raise(), Ok(()));
    assert_eq!(dev.bus.sent_count(), 1);
}

#[test]
fn eeprom_zero_byte_is_a_resource_error() {
    let mut dev = session_with(vec![make_response(0, 0, &[0x00])]);
    assert_eq!(dev.check_epprom(), Err(CtrlMsgError::EepromError));
}

#[test]
fn eeprom_nonzero_byte_passes() {
    let mut dev = session_with(vec![make_response(0, 0, &[0x1a])]);
    assert_eq!(dev.check_epprom(), Ok(()));
    // the probe reads one byte at register 0x4979
    assert_eq!(dev.bus.sent_frame(0), encode_request(0x0000, 0, &[1, 2, 0, 0, 0x49, 0x79]));
}

#[test]
fn config_i2c_programs_speed_and_enabled_inputs() {
    // two speed writes plus an address/bus pair for each of the four
    // enabled stock inputs
    let mut responses = Vec::new();
    for k in 0u8..10 {
        responses.push(make_response(k, 0, &[]));
    }
    let mut dev = session_with(responses);
    assert_eq!(dev.config_i2c(), Ok(()));
    assert_eq!(dev.bus.sent_count(), 10);
    assert_eq!(dev.bus.sent_frame(0), encode_request(0x0001, 0, &[1, 2, 0, 0, 0xf6, 0xa7, 0x07]));
    assert_eq!(dev.bus.sent_frame(1), encode_request(0x0001, 1, &[1, 2, 0, 0, 0xf1, 0x03, 0x07]));
    // first input: slave 0, address 0x11 shifted, bus 2
    assert_eq!(dev.bus.sent_frame(2), encode_request(0x0001, 2, &[1, 2, 0, 0, 0x49, 0x75, 0x22]));
    assert_eq!(dev.bus.sent_frame(3), encode_request(0x0001, 3, &[1, 2, 0, 0, 0x49, 0x71, 0x02]));
}

#[test]
fn config_stream_input_programs_every_port() {
    // port 1 takes four writes (parallel-mode byte included), ports 2 to
    // 4 three each, and the disabled spare one disable write
    let mut responses = Vec::new();
    for k in 0u8..14 {
        responses.push(make_response(k, 0, &[]));
    }
    let mut dev = session_with(responses);
    assert_eq!(dev.config_stream_input(), Ok(()));
    assert_eq!(dev.bus.sent_count(), 14);
    // port 1 is serial: its parallel-mode register gets zero
    assert_eq!(dev.bus.sent_frame(0), encode_request(0x0001, 0, &[1, 2, 0, 0, 0xda, 0x59, 0]));
    // port 1 aggregation mode and sync byte
    assert_eq!(dev.bus.sent_frame(1), encode_request(0x0001, 1, &[1, 2, 0, 0, 0xda, 0x74, 1]));
    assert_eq!(dev.bus.sent_frame(2), encode_request(0x0001, 2, &[1, 2, 0, 0, 0xda, 0x79, 0x17]));
    assert_eq!(dev.bus.sent_frame(3), encode_request(0x0001, 3, &[1, 2, 0, 0, 0xda, 0x4d, 1]));
    // the disabled spare (port 0) is only switched off
    assert_eq!(dev.bus.sent_frame(13), encode_request(0x0001, 13, &[1, 2, 0, 0, 0xda, 0x4c, 0]));
}

#[test]
fn set_power_drives_the_power_rails() {
    let mut responses = Vec::new();
    for k in 0u8..6 {
        responses.push(make_response(k, 0, &[]));
    }
    let mut dev = session_with(responses);
    dev.set_gpio_mode(7, GpioMode::Out, true).unwrap();
    dev.set_gpio_mode(2, GpioMode::Out, true).unwrap();
    let mut px4 = Px4Device::new(dev);
    assert_eq!(px4.set_power(true), Ok(()));
    // gpio 7 low, then gpio 2 high
    assert_eq!(px4.it930x.bus.sent_frame(4), encode_request(0x0001, 4, &[1, 2, 0, 0, 0xd8, 0xc3, 0]));
    assert_eq!(px4.it930x.bus.sent_frame(5), encode_request(0x0001, 5, &[1, 2, 0, 0, 0xd8, 0xb7, 1]));
}

#[test]
fn set_power_refuses_unconfigured_pins() {
    let dev = session_with(vec![]);
    let mut px4 = Px4Device::new(dev);
    assert_eq!(px4.set_power(true), Err(CtrlMsgError::InvalidArgument));
    assert_eq!(px4.it930x.bus.sent_count(), 0);
}

#[test]
fn load_firmware_sends_nothing_after_a_failed_scatter_write() {
    // two real blocks; the device rejects the first scatter write, so the
    // second block and the boot command never go out
    let mut image = vec![0x03u8, 0, 0, 1, 0, 0, 1, 0xaa];
    image.extend_from_slice(&[0x03u8, 0, 0, 1, 0, 0, 1, 0xbb]);
    let responses = vec![
        make_response(0, 0, &[0, 0, 0, 0]),
        make_response(1, 0, &[]),
        make_response(2, 9, &[]),  // device error on the first block
    ];
    let mut dev = session_with(responses);
    assert_eq!(dev.load_firmware(&image), Err(CtrlMsgError::DeviceError(9)));
    assert_eq!(dev.bus.sent_count(), 3);
}

#[test]
fn raise_reports_the_last_attempts_validation_error() {
    // five answers, each echoing a stale sequence number
    let mut responses = Vec::new();
    for _ in 0..5 {
        responses.push(make_response(0xee, 0, &[0, 0, 0, 1]));
    }
    let mut dev = session_with(responses);
    assert_eq!(dev.raise(), Err(CtrlMsgError::InvalidSequence));
    assert_eq!(dev.bus.sent_count(), 5);
}
