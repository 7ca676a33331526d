//! Register access: fixed-width reads and writes and the masked
//! read-modify-write, built on the control-message codec.

use vstd::prelude::*;
use crate::bus::BusOps;
use crate::errors::CtrlMsgError;
use crate::frame::{check_response_spec, frame_spec, IT930X_CMD_REG_READ, IT930X_CMD_REG_WRITE};
use crate::it930x::{
    exchange_result, exchange_result_unit, history_extends, seq_succ, session_preserved,
    unit_response_matches, IT930x,
};

verus! {

/// Largest register read per call.
pub const MAX_REG_READ: usize = 251;

/// Largest register write per call.
pub const MAX_REG_WRITE: usize = 244;

/// Effective width of a register address: the position of its highest
/// non-zero byte, and 1 for address zero.
pub open spec fn reg_width_spec(reg: u32) -> u8 {
    if reg & 0xff000000 != 0 {
        4
    } else if reg & 0x00ff0000 != 0 {
        3
    } else if reg & 0x0000ff00 != 0 {
        2
    } else {
        1
    }
}

/// Effective byte width of a register address.
pub fn it930x_reg_length(reg: u32) -> (r: u8)
    ensures
        r == reg_width_spec(reg),
        1 <= r <= 4,
{
    if reg & 0xff000000 != 0 {
        4
    } else if reg & 0x00ff0000 != 0 {
        3
    } else if reg & 0x0000ff00 != 0 {
        2
    } else {
        1
    }
}

/// Header of a register command: count, width, address high to low.
pub open spec fn reg_header(reg: u32, count: u8) -> Seq<u8> {
    seq![
        count,
        reg_width_spec(reg),
        ((reg >> 24) & 0xff) as u8,
        ((reg >> 16) & 0xff) as u8,
        ((reg >> 8) & 0xff) as u8,
        (reg & 0xff) as u8,
    ]
}

/// Payload of a `REG_WRITE` command.
pub open spec fn reg_write_payload(reg: u32, data: Seq<u8>) -> Seq<u8> {
    reg_header(reg, data.len() as u8) + data
}

/// The single byte `(old & !mask) | (val & mask)` of a masked update.
pub open spec fn masked_byte(old_byte: u8, val: u8, mask: u8) -> u8 {
    (old_byte & !mask) | (val & mask)
}

impl<B: BusOps> IT930x<B> {
    /// Read `len` consecutive register bytes starting at `reg`.
    pub fn read_regs(&mut self, reg: u32, len: usize) -> (r: Result<Vec<u8>, CtrlMsgError>)
        requires
            old(self).wf(),
        ensures
            final(self).wf(),
            session_preserved(*old(self), *final(self)),
            len > MAX_REG_READ ==> r == Err::<Vec<u8>, CtrlMsgError>(CtrlMsgError::InvalidLength)
                && final(self).bus.sent() == old(self).bus.sent() && final(self).bus.received()
                == old(self).bus.received() && final(self).seqno == old(self).seqno,
            len <= MAX_REG_READ ==> final(self).seqno == seq_succ(old(self).seqno)
                && exchange_result(
                old(self).bus.sent(),
                final(self).bus.sent(),
                old(self).bus.received(),
                final(self).bus.received(),
                IT930X_CMD_REG_READ,
                old(self).seqno,
                reg_header(reg, len as u8),
                len as nat,
                r,
            ),
            history_extends(old(self).bus.sent(), final(self).bus.sent()),
            history_extends(old(self).bus.received(), final(self).bus.received()),
            r is Ok ==> r->Ok_0@.len() == len,
    {
        if len > MAX_REG_READ {
            return Err(CtrlMsgError::InvalidLength);
        }
        let mut buf: Vec<u8> = Vec::new();
        buf.push(len as u8);
        buf.push(it930x_reg_length(reg));
        buf.push(((reg >> 24) & 0xff) as u8);
        buf.push(((reg >> 16) & 0xff) as u8);
        buf.push(((reg >> 8) & 0xff) as u8);
        buf.push((reg & 0xff) as u8);
        assert(buf@ =~= reg_header(reg, len as u8));
        self.ctrl_msg(IT930X_CMD_REG_READ, buf.as_slice(), len)
    }

    /// Write `data` to consecutive registers starting at `reg`.
    pub fn write_regs(&mut self, reg: u32, data: &[u8]) -> (r: Result<(), CtrlMsgError>)
        requires
            old(self).wf(),
        ensures
            final(self).wf(),
            session_preserved(*old(self), *final(self)),
            data@.len() > MAX_REG_WRITE ==> r == Err::<(), CtrlMsgError>(
                CtrlMsgError::InvalidLength,
            ) && final(self).bus.sent() == old(self).bus.sent() && final(self).bus.received()
                == old(self).bus.received() && final(self).seqno == old(self).seqno,
            data@.len() <= MAX_REG_WRITE ==> final(self).seqno == seq_succ(old(self).seqno)
                && exchange_result_unit(
                old(self).bus.sent(),
                final(self).bus.sent(),
                old(self).bus.received(),
                final(self).bus.received(),
                IT930X_CMD_REG_WRITE,
                old(self).seqno,
                reg_write_payload(reg, data@),
                r,
            ),
            history_extends(old(self).bus.sent(), final(self).bus.sent()),
            history_extends(old(self).bus.received(), final(self).bus.received()),
    {
        if data.len() > MAX_REG_WRITE {
            return Err(CtrlMsgError::InvalidLength);
        }
        let mut buf: Vec<u8> = Vec::new();
        buf.push(data.len() as u8);
        buf.push(it930x_reg_length(reg));
        buf.push(((reg >> 24) & 0xff) as u8);
        buf.push(((reg >> 16) & 0xff) as u8);
        buf.push(((reg >> 8) & 0xff) as u8);
        buf.push((reg & 0xff) as u8);
        buf.extend_from_slice(data);
        assert(buf@ =~= reg_write_payload(reg, data@));
        let r = self.ctrl_msg(IT930X_CMD_REG_WRITE, buf.as_slice(), 0);
        proof {
            let ghost sq = old(self).seqno;
            if !(r matches Err(CtrlMsgError::Bus(_))) {
                assert(unit_response_matches(
                    if r is Ok {
                        Ok(())
                    } else {
                        Err(r->Err_0)
                    },
                    self.bus.received().last(),
                    sq,
                ));
            }
        }
        match r {
            Ok(_) => Ok(()),
            Err(e) => Err(e),
        }
    }

    /// Masked read-modify-write of one register byte.
    ///
    /// `mask == 0` is rejected before any bus I/O.  `mask == 0xff` is a
    /// direct one-byte write of `val`, byte-for-byte what `write_regs` of
    /// `val` issues.  Otherwise the current byte is read, the masked bits
    /// replaced, and — only if the byte actually changes — written back.
    pub fn write_reg_mask(&mut self, reg: u32, val: u8, mask: u8) -> (r: Result<(), CtrlMsgError>)
        requires
            old(self).wf(),
        ensures
            final(self).wf(),
            session_preserved(*old(self), *final(self)),
            mask == 0 ==> r == Err::<(), CtrlMsgError>(CtrlMsgError::InvalidArgument) && final(self).bus.sent() == old(self).bus.sent() && final(self).bus.received() == old(self).bus.received() && final(self).seqno == old(self).seqno,
            mask == 0xff ==> final(self).seqno == seq_succ(old(self).seqno)
                && exchange_result_unit(
                old(self).bus.sent(),
                final(self).bus.sent(),
                old(self).bus.received(),
                final(self).bus.received(),
                IT930X_CMD_REG_WRITE,
                old(self).seqno,
                reg_write_payload(reg, seq![val]),
                r,
            ),
            mask != 0 && mask != 0xff ==> write_reg_mask_post(
                old(self).bus.sent(),
                final(self).bus.sent(),
                old(self).bus.received(),
                final(self).bus.received(),
                old(self).seqno,
                final(self).seqno,
                reg,
                val,
                mask,
                r,
            ),
            history_extends(old(self).bus.sent(), final(self).bus.sent()),
            history_extends(old(self).bus.received(), final(self).bus.received()),
    {
        if mask == 0 {
            return Err(CtrlMsgError::InvalidArgument);
        }
        if mask == 0xff {
            let one = [val];
            assert(one@ =~= seq![val]);
            return self.write_regs(reg, &one);
        }
        let cur = match self.read_regs(reg, 1) {
            Ok(v) => v,
            Err(e) => {
                return Err(e);
            },
        };
        let old_byte = cur[0];
        let new_byte = (old_byte & !mask) | (val & mask);
        assert(new_byte == masked_byte(old_byte, val, mask));
        if new_byte == old_byte {
            assert(masked_byte(old_byte, val, mask) == old_byte);
            return Ok(());
        }
        assert(masked_byte(old_byte, val, mask) != old_byte);
        let one = [new_byte];
        assert(one@ =~= seq![masked_byte(old_byte, val, mask)]);
        let r = self.write_regs(reg, &one);
        r
    }
}

/// Traffic and outcome of a proper masked update (`mask` neither 0 nor
/// 0xff): a one-byte read of `reg` goes out first, and the byte actually
/// received decides everything.  If its masked update is the byte itself,
/// no write is issued (bus-load optimization); otherwise the updated byte
/// is written back as a second exchange.  The read-then-write pair is two
/// exchanges, not atomic against a concurrent masked write of the same
/// register unless the caller serializes, which exclusive `&mut` access to
/// the session does.
pub open spec fn write_reg_mask_post(
    pre_sent: Seq<Seq<u8>>,
    post_sent: Seq<Seq<u8>>,
    pre_rx: Seq<Seq<u8>>,
    post_rx: Seq<Seq<u8>>,
    pre_seq: u8,
    post_seq: u8,
    reg: u32,
    val: u8,
    mask: u8,
    r: Result<(), CtrlMsgError>,
) -> bool {
    let read_frame = frame_spec(IT930X_CMD_REG_READ, pre_seq, reg_header(reg, 1));
    ||| {
        // the read failed at the transport: nothing received, nothing written
        &&& r matches Err(CtrlMsgError::Bus(_))
        &&& post_seq == seq_succ(pre_seq)
        &&& (post_sent == pre_sent || post_sent == pre_sent.push(read_frame))
        &&& post_rx == pre_rx
    }
    ||| ({
        // the read exchange completed; the received transfer decides
        let resp0 = post_rx[pre_rx.len() as int];
        &&& post_rx.len() > pre_rx.len()
        &&& match check_response_spec(resp0, pre_seq, 1) {
            Err(e) => {
                &&& r == Err::<(), CtrlMsgError>(e)
                &&& post_sent == pre_sent.push(read_frame)
                &&& post_rx == pre_rx.push(resp0)
                &&& post_seq == seq_succ(pre_seq)
            },
            Ok(p) => {
                let b = p[0];
                if masked_byte(b, val, mask) == b {
                    // the register already carries the requested bits
                    &&& r is Ok
                    &&& post_sent == pre_sent.push(read_frame)
                    &&& post_rx == pre_rx.push(resp0)
                    &&& post_seq == seq_succ(pre_seq)
                } else {
                    &&& exchange_result_unit(
                        pre_sent.push(read_frame),
                        post_sent,
                        pre_rx.push(resp0),
                        post_rx,
                        IT930X_CMD_REG_WRITE,
                        seq_succ(pre_seq),
                        reg_write_payload(reg, seq![masked_byte(b, val, mask)]),
                        r,
                    )
                    &&& post_seq == seq_succ(seq_succ(pre_seq))
                }
            },
        }
    })
}

} // verus!
