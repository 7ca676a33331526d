//! Checksum and frame codec behaviour.

use it930x::checksum::checksum;
use it930x::errors::CtrlMsgError;
use it930x::frame::{check_response, encode_request};

/// Build a response frame the way the device does: length byte, sequence
/// echo, status, payload, and a big-endian checksum over everything after
/// the length byte.
fn make_response(seqno: u8, status: u8, payload: &[u8]) -> Vec<u8> {
    let mut body = vec![seqno, status];
    body.extend_from_slice(payload);
    let ck = checksum(&body);
    let mut out = vec![(body.len() + 2) as u8];
    out.extend_from_slice(&body);
    out.push((ck >> 8) as u8);
    out.push((ck & 0xff) as u8);
    out
}

#[test]
fn checksum_known_values() {
    assert_eq!(checksum(&[]), 0xffff);
    // words 0x0022 and 0x0001 sum to 0x0023; NOT gives 0xffdc
    assert_eq!(checksum(&[0x00, 0x22, 0x00, 0x01]), 0xffdc);
    // an odd trailing byte counts as the high byte of a final word
    assert_eq!(checksum(&[0xab]), !0xab00u16);
    // wrapping word sum
    assert_eq!(checksum(&[0xff, 0xff, 0x00, 0x02]), !0x0001u16);
}

#[test]
fn checksum_is_deterministic() {
    let buf = [0x03u8, 0x14, 0x15, 0x92, 0x65];
    assert_eq!(checksum(&buf), checksum(&buf));
}

#[test]
fn checksum_changes_on_any_single_bit_flip() {
    let base = [0x12u8, 0x34, 0x56, 0x78, 0x9a];
    let base_ck = checksum(&base);
    for i in 0..base.len() {
        for b in 0..8 {
            let mut flipped = base;
            flipped[i] ^= 1 << b;
            assert_ne!(checksum(&flipped), base_ck, "flip byte {} bit {}", i, b);
        }
    }
}

#[test]
fn encode_request_layout() {
    // QUERYINFO with subcommand 1 under sequence 0
    let frame = encode_request(0x0022, 0, &[1]);
    assert_eq!(frame, vec![0x06, 0x00, 0x22, 0x00, 0x01, 0xff, 0xdc]);
}

#[test]
fn encode_request_recovers_fields() {
    let payload = [0xde, 0xad, 0xbe, 0xef];
    let frame = encode_request(0x0001, 0x42, &payload);
    assert_eq!(frame.len(), payload.len() + 6);
    assert_eq!(frame[0] as usize, payload.len() + 5);
    assert_eq!(((frame[1] as u16) << 8) | frame[2] as u16, 0x0001);
    assert_eq!(frame[3], 0x42);
    assert_eq!(&frame[4..4 + payload.len()], &payload);
    // the trailing checksum matches a fresh checksum of the covered range
    let ck = checksum(&frame[1..frame.len() - 2]);
    assert_eq!(frame[frame.len() - 2], (ck >> 8) as u8);
    assert_eq!(frame[frame.len() - 1], (ck & 0xff) as u8);
}

#[test]
fn check_response_accepts_valid_frame() {
    let resp = make_response(7, 0, &[0xab, 0xcd]);
    let r = check_response(&resp, 7, 2);
    assert_eq!(r, Ok(vec![0xab, 0xcd]));
}

#[test]
fn check_response_returns_requested_prefix() {
    let resp = make_response(7, 0, &[0xab, 0xcd, 0xef]);
    let r = check_response(&resp, 7, 1);
    assert_eq!(r, Ok(vec![0xab]));
}

#[test]
fn check_response_rejects_short_frame() {
    assert_eq!(check_response(&[4, 0, 0, 0], 0, 0), Err(CtrlMsgError::InvalidLength));
}

#[test]
fn check_response_rejects_bad_declared_length() {
    let mut resp = make_response(1, 0, &[]);
    resp[0] = 200;  // declares more bytes than were received
    assert_eq!(check_response(&resp, 1, 0), Err(CtrlMsgError::InvalidLength));
}

#[test]
fn check_response_rejects_corrupt_checksum() {
    let mut resp = make_response(3, 0, &[0x11]);
    let last = resp.len() - 1;
    resp[last] ^= 0x01;
    assert_eq!(check_response(&resp, 3, 1), Err(CtrlMsgError::InvalidChecksum));
}

#[test]
fn check_response_rejects_sequence_mismatch() {
    // checksum and status are valid, only the echoed sequence differs
    let resp = make_response(5, 0, &[0x11]);
    assert_eq!(check_response(&resp, 6, 1), Err(CtrlMsgError::InvalidSequence));
}

#[test]
fn check_response_reports_device_error() {
    let resp = make_response(2, 0x7f, &[]);
    assert_eq!(check_response(&resp, 2, 0), Err(CtrlMsgError::DeviceError(0x7f)));
}

#[test]
fn check_response_rejects_short_payload() {
    let resp = make_response(0, 0, &[0x01]);
    assert_eq!(check_response(&resp, 0, 4), Err(CtrlMsgError::InvalidLength));
}
