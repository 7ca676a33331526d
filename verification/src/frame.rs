//! Framing of control messages: request encoding and response validation.
//!
//! Request frame: `[frameLength, cmdHi, cmdLo, seq, payload.., ckHi, ckLo]`
//! with `frameLength = totalLength - 1` and the checksum covering everything
//! after the length byte up to the checksum field.
//!
//! Response frame: `[frameLength, seqEcho, status, payload.., ckHi, ckLo]`
//! with the checksum covering `[seqEcho .. end of payload]`.

use vstd::prelude::*;
use crate::checksum::{checksum, checksum_spec};
use crate::errors::CtrlMsgError;

verus! {

pub const IT930X_CMD_REG_READ: u16 = 0x0000;

pub const IT930X_CMD_REG_WRITE: u16 = 0x0001;

pub const IT930X_CMD_QUERYINFO: u16 = 0x0022;

pub const IT930X_CMD_BOOT: u16 = 0x0023;

pub const IT930X_CMD_FW_SCATTER_WRITE: u16 = 0x0029;

pub const IT930X_CMD_I2C_READ: u16 = 0x002a;

pub const IT930X_CMD_I2C_WRITE: u16 = 0x002b;

/// Largest request payload: the frame-length byte must fit in `u8`, and the
/// five other framing bytes leave room for 250 payload bytes.
pub const MAX_CTRL_PAYLOAD: usize = 250;

pub open spec fn u16_hi(x: u16) -> u8 {
    (x / 0x100) as u8
}

pub open spec fn u16_lo(x: u16) -> u8 {
    (x % 0x100) as u8
}

/// The two big-endian bytes `hi, lo` read back as one 16-bit word.
pub open spec fn be_word(hi: u8, lo: u8) -> u16 {
    (hi * 0x100 + lo) as u16
}

/// Checksum-covered part of a request frame: command, sequence, payload.
pub open spec fn frame_body(cmd: u16, seqno: u8, payload: Seq<u8>) -> Seq<u8> {
    seq![u16_hi(cmd), u16_lo(cmd), seqno] + payload
}

/// A whole encoded request frame for `payload.len() <= MAX_CTRL_PAYLOAD`.
pub open spec fn frame_spec(cmd: u16, seqno: u8, payload: Seq<u8>) -> Seq<u8> {
    let body = frame_body(cmd, seqno, payload);
    let ck = checksum_spec(body);
    seq![(payload.len() + 5) as u8] + body + seq![u16_hi(ck), u16_lo(ck)]
}

/// Outcome of validating a received response against the sequence number
/// that was sent and the payload length the caller asked for.  The checks
/// run in protocol order: received length, declared frame length, checksum,
/// echoed sequence, status byte, payload length.
pub open spec fn check_response_spec(resp: Seq<u8>, seqno: u8, want: nat) -> Result<
    Seq<u8>,
    CtrlMsgError,
> {
    if resp.len() < 5 {
        Err(CtrlMsgError::InvalidLength)
    } else {
        let flen = resp[0] + 1;
        if flen < 5 || flen > resp.len() {
            Err(CtrlMsgError::InvalidLength)
        } else if checksum_spec(resp.subrange(1, flen - 2)) != be_word(
            resp[flen - 2],
            resp[flen - 1],
        ) {
            Err(CtrlMsgError::InvalidChecksum)
        } else if resp[1] != seqno {
            Err(CtrlMsgError::InvalidSequence)
        } else if resp[2] != 0 {
            Err(CtrlMsgError::DeviceError(resp[2]))
        } else if flen - 5 < want {
            Err(CtrlMsgError::InvalidLength)
        } else {
            Ok(resp.subrange(3, 3 + want as int))
        }
    }
}

/// The validated payload of a received transfer: what `check_response_spec`
/// hands back when it accepts `resp`.
pub open spec fn exchange_payload(resp: Seq<u8>, seqno: u8, want: nat) -> Seq<u8> {
    check_response_spec(resp, seqno, want)->Ok_0
}

/// `r` is exactly what `check_response_spec` prescribes for `resp`.
pub open spec fn response_matches(
    r: Result<Vec<u8>, CtrlMsgError>,
    resp: Seq<u8>,
    seqno: u8,
    want: nat,
) -> bool {
    match check_response_spec(resp, seqno, want) {
        Ok(p) => r is Ok && r->Ok_0@ == p,
        Err(e) => r == Err::<Vec<u8>, CtrlMsgError>(e),
    }
}

/// Encode one request frame.
pub fn encode_request(cmd: u16, seqno: u8, payload: &[u8]) -> (r: Vec<u8>)
    requires
        payload@.len() <= MAX_CTRL_PAYLOAD,
    ensures
        r@ == frame_spec(cmd, seqno, payload@),
{
    let plen = payload.len();
    let mut tx: Vec<u8> = Vec::new();
    tx.push((plen + 5) as u8);
    tx.push((cmd / 0x100) as u8);
    tx.push((cmd % 0x100) as u8);
    tx.push(seqno);
    tx.extend_from_slice(payload);
    let ck = checksum(vstd::slice::slice_subrange(tx.as_slice(), 1, 4 + plen));
    assert(tx@.subrange(1, 4 + plen as int) =~= frame_body(cmd, seqno, payload@));
    tx.push((ck / 0x100) as u8);
    tx.push((ck % 0x100) as u8);
    assert(tx@ =~= frame_spec(cmd, seqno, payload@));
    tx
}

/// Validate a received response and hand back the first `want` payload
/// bytes.  Every length derived from the response's own framing is bounded
/// by the actually received byte count before it is used to index.
pub fn check_response(resp: &[u8], seqno: u8, want: usize) -> (r: Result<Vec<u8>, CtrlMsgError>)
    ensures
        response_matches(r, resp@, seqno, want as nat),
        r is Ok ==> r->Ok_0@.len() == want,
{
    let rlen = resp.len();
    if rlen < 5 {
        return Err(CtrlMsgError::InvalidLength);
    }
    let flen = resp[0] as usize + 1;
    if flen < 5 || flen > rlen {
        return Err(CtrlMsgError::InvalidLength);
    }
    let ck = checksum(vstd::slice::slice_subrange(resp, 1, flen - 2));
    let recv_ck = (resp[flen - 2] as u16) * 0x100 + (resp[flen - 1] as u16);
    if ck != recv_ck {
        return Err(CtrlMsgError::InvalidChecksum);
    }
    if resp[1] != seqno {
        return Err(CtrlMsgError::InvalidSequence);
    }
    if resp[2] != 0 {
        return Err(CtrlMsgError::DeviceError(resp[2]));
    }
    if flen - 5 < want {
        return Err(CtrlMsgError::InvalidLength);
    }
    let mut out: Vec<u8> = Vec::new();
    let mut i: usize = 0;
    while i < want
        invariant
            i <= want,
            3 + want <= rlen,
            rlen == resp@.len(),
            out@ == resp@.subrange(3, 3 + i as int),
        decreases want - i,
    {
        out.push(resp[3 + i]);
        assert(out@ =~= resp@.subrange(3, 3 + (i + 1)));
        i = i + 1;
    }
    assert(out@ =~= check_response_spec(resp@, seqno, want as nat)->Ok_0);
    Ok(out)
}

/// Frame round trip: an encoded request carries its fields back out
/// unchanged, and its trailing checksum matches a fresh checksum of the
/// covered range, so validation of an uncorrupted frame always passes the
/// checksum comparison.
pub proof fn lemma_frame_roundtrip(cmd: u16, seqno: u8, payload: Seq<u8>)
    requires
        payload.len() <= MAX_CTRL_PAYLOAD,
    ensures
        frame_spec(cmd, seqno, payload).len() == payload.len() + 6,
        frame_spec(cmd, seqno, payload)[0] == payload.len() + 5,
        be_word(frame_spec(cmd, seqno, payload)[1], frame_spec(cmd, seqno, payload)[2]) == cmd,
        frame_spec(cmd, seqno, payload)[3] == seqno,
        frame_spec(cmd, seqno, payload).subrange(4, 4 + payload.len() as int) == payload,
        checksum_spec(
            frame_spec(cmd, seqno, payload).subrange(
                1,
                frame_spec(cmd, seqno, payload).len() - 2,
            ),
        ) == be_word(
            frame_spec(cmd, seqno, payload)[frame_spec(cmd, seqno, payload).len() - 2],
            frame_spec(cmd, seqno, payload)[frame_spec(cmd, seqno, payload).len() - 1],
        ),
{
    let f = frame_spec(cmd, seqno, payload);
    let body = frame_body(cmd, seqno, payload);
    assert(f.subrange(4, 4 + payload.len() as int) =~= payload);
    assert(f.subrange(1, f.len() - 2) =~= body);
}

/// A response whose checksum is intact but whose echoed sequence differs
/// from the sent one is rejected as `InvalidSequence`, whatever its status
/// byte or payload says.
pub proof fn lemma_sequence_mismatch_rejected(resp: Seq<u8>, seqno: u8, want: nat)
    requires
        resp.len() >= 5,
        5 <= resp[0] + 1 <= resp.len(),
        checksum_spec(resp.subrange(1, resp[0] + 1 - 2)) == be_word(
            resp[resp[0] + 1 - 2],
            resp[resp[0] + 1 - 1],
        ),
        resp[1] != seqno,
    ensures
        check_response_spec(resp, seqno, want) == Err::<Seq<u8>, CtrlMsgError>(
            CtrlMsgError::InvalidSequence,
        ),
{
}

} // verus!
