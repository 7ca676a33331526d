//! RT710/RT720 satellite tuner driver: register access through the
//! demodulator passthrough, with the bit-reversal read quirk.

use vstd::prelude::*;
use crate::bus::BusOps;
use crate::errors::{CtrlMsgError, TunerError};
use crate::i2c::{i2c_frames, I2CCommRequest};
use crate::frame::exchange_payload;
use crate::it930x::{history_extends, seq_add, session_preserved, IT930x};
use crate::tc90522::{passthrough_read_requests, passthrough_write_requests, relay_wrapped, rev_bits_spec, wrap_one, TC90522};

verus! {

/// Number of registers the driver addresses.
pub const RT710_NUM_REGS: usize = 0x10;

#[derive(Debug, Clone, Copy, PartialEq, Eq, Structural)]
pub enum RT710ChipType {
    UNKNOWN,
    RT710,
    RT720,
}

#[derive(Debug, Clone, Copy, PartialEq, Eq, Structural)]
pub enum SignalOutputMode {
    Single,
    Differential,
}

#[derive(Debug, Clone, Copy, PartialEq, Eq, Structural)]
pub enum AgcMode {
    Negative,
    Positive,
}

#[derive(Debug, Clone, Copy, PartialEq, Eq, Structural)]
pub enum VgaAttenuateMode {
    Off,
    On,
}

#[derive(Debug, Clone, Copy, PartialEq, Eq, Structural)]
pub enum FineGain {
    FineGain3DB,
    FineGain2DB,
    FineGain1DB,
    FineGain0DB,
}

#[derive(Debug, Clone, Copy, PartialEq, Eq, Structural)]
pub enum ScanMode {
    Manual,
    Auto,
}

/// Static tuner configuration.
#[derive(Debug, Clone, Copy, PartialEq, Eq, Structural)]
pub struct RT710Config {
    pub xtal: u32,
    pub loop_through: bool,
    pub clock_out: bool,
    pub signal_output_mode: SignalOutputMode,
    pub agc_mode: AgcMode,
    pub vga_atten_mode: VgaAttenuateMode,
    pub fine_gain: FineGain,
    pub scan_mode: ScanMode,
}

/// Mutable tuner state.
#[derive(Debug, Clone, Copy, PartialEq, Eq, Structural)]
pub struct RT710Priv {
    pub init: bool,
    pub freq: u32,
    pub chip: RT710ChipType,
}

/// One RT710-family tuner behind a demodulator passthrough.
pub struct RT710 {
    pub tc90522: TC90522,
    pub i2c_addr: u8,
    pub config: RT710Config,
    pub priv_: RT710Priv,
}

impl RT710 {
    /// Reverse the bit order of one byte: raw bus bytes from this chip
    /// come back with MSB and LSB swapped end for end.
    pub fn reverse_bit(val: u8) -> (r: u8)
        ensures
            r == rev_bits_spec(val),
    {
        let t1 = ((val & 0x55) << 1) | ((val & 0xAA) >> 1);
        let t2 = ((t1 & 0x33) << 2) | ((t1 & 0xCC) >> 2);
        let r = ((t2 & 0x0F) << 4) | ((t2 & 0xF0) >> 4);
        assert(r == ((val & 0x01) << 7) | ((val & 0x02) << 5) | ((val & 0x04) << 3) | ((val
            & 0x08) << 1) | ((val & 0x10) >> 1) | ((val & 0x20) >> 3) | ((val & 0x40) >> 5) | ((val
            & 0x80) >> 7)) by (bit_vector)
            requires
                t1 == ((val & 0x55) << 1) | ((val & 0xAA) >> 1),
                t2 == ((t1 & 0x33) << 2) | ((t1 & 0xCC) >> 2),
                r == ((t2 & 0x0F) << 4) | ((t2 & 0xF0) >> 4),
        ;
        r
    }

    /// A tuner handle behind the demodulator at `tc90522_addr` on bus
    /// `tc90522_bus`, with the stock ISDB-S configuration.
    pub fn new(tc90522_bus: u8, tc90522_addr: u8) -> (r: RT710)
        ensures
            r.tc90522.bus == tc90522_bus,
            r.tc90522.i2c_addr == tc90522_addr,
            r.i2c_addr == 0x3d,
            !r.priv_.init,
            r.priv_.freq == 0,
            r.priv_.chip == RT710ChipType::RT710,
    {
        RT710 {
            tc90522: TC90522::new(tc90522_bus, tc90522_addr, false),
            i2c_addr: 0x3d,
            config: RT710Config {
                xtal: 24000,
                loop_through: false,
                clock_out: false,
                signal_output_mode: SignalOutputMode::Differential,
                agc_mode: AgcMode::Positive,
                vga_atten_mode: VgaAttenuateMode::Off,
                fine_gain: FineGain::FineGain3DB,
                scan_mode: ScanMode::Manual,
            },
            priv_: RT710Priv { init: false, freq: 0, chip: RT710ChipType::RT710 },
        }
    }

    /// Read `len` tuner registers starting at `reg` through the
    /// passthrough.  The chip returns registers 0 to `reg + len - 1`; the
    /// requested window is cut out and every byte bit-reversed before it
    /// reaches the caller.
    pub fn read_regs<B: BusOps>(&self, dev: &mut IT930x<B>, reg: u8, len: usize) -> (r: Result<
        Vec<u8>,
        CtrlMsgError,
    >)
        requires
            old(dev).wf(),
        ensures
            final(dev).wf(),
            session_preserved(*old(dev), *final(dev)),
            len == 0 || reg as int + len > RT710_NUM_REGS ==> r == Err::<Vec<u8>, CtrlMsgError>(
                CtrlMsgError::InvalidLength,
            ) && final(dev).bus.sent() == old(dev).bus.sent() && final(dev).seqno == old(dev).seqno,
            r is Ok ==> ({
                let wrapped = relay_wrapped(
                    self.tc90522.i2c_addr,
                    passthrough_read_requests(self.i2c_addr, reg, len as int),
                );
                &&& r->Ok_0@.len() == len
                &&& wrapped.len() == 3
                &&& final(dev).bus.sent() == old(dev).bus.sent() + i2c_frames(
                    self.tc90522.bus,
                    wrapped,
                    old(dev).seqno,
                )
                &&& final(dev).bus.sent().len() == old(dev).bus.sent().len() + 3
                &&& final(dev).seqno == seq_add(old(dev).seqno, wrapped.len() as int)
                &&& final(dev).bus.received().len() == old(dev).bus.received().len() + 3
                &&& crate::frame::check_response_spec(
                    final(dev).bus.received().last(),
                    seq_add(old(dev).seqno, 2),
                    (reg + len) as nat,
                ) is Ok
                &&& r->Ok_0@ == Seq::new(
                    len as nat,
                    |q: int|
                        rev_bits_spec(
                            exchange_payload(
                                final(dev).bus.received().last(),
                                seq_add(old(dev).seqno, 2),
                                (reg + len) as nat,
                            )[reg + q],
                        ),
                )
            }),
            history_extends(old(dev).bus.sent(), final(dev).bus.sent()),
            history_extends(old(dev).bus.received(), final(dev).bus.received()),
    {
        if len == 0 || reg as usize >= RT710_NUM_REGS || len > RT710_NUM_REGS - reg as usize {
            return Err(CtrlMsgError::InvalidLength);
        }
        let mut setup: Vec<u8> = Vec::new();
        setup.push(0x00);
        assert(setup@ =~= seq![0u8]);
        let mut requests: Vec<I2CCommRequest> = Vec::new();
        requests.push(I2CCommRequest::write(self.i2c_addr, setup));
        requests.push(I2CCommRequest::read(self.i2c_addr, reg as usize + len));
        proof {
            assert(requests.deep_view() =~= passthrough_read_requests(self.i2c_addr, reg, len as int));
        }
        let rr = self.tc90522.i2c_master_request(dev, &requests);
        let results = match rr {
            Ok(v) => v,
            Err(e) => {
                return Err(e);
            },
        };
        let ghost rv = requests.deep_view();
        let ghost a = self.tc90522.i2c_addr;
        proof {
            // the relayed batch is setup write, read-setup write, read
            assert(rv.skip(1).skip(1) =~= Seq::<crate::i2c::I2CReqView>::empty());
            assert(relay_wrapped(a, rv.skip(1).skip(1)) =~= Seq::<
                crate::i2c::I2CReqView,
            >::empty());
            assert(rv.skip(1)[0] == rv[1]);
            assert(relay_wrapped(a, rv.skip(1)) =~= wrap_one(a, rv[1]));
            assert(relay_wrapped(a, rv) =~= wrap_one(a, rv[0]) + wrap_one(a, rv[1]));
            assert(relay_wrapped(a, rv).len() == 3);
            crate::i2c::lemma_i2c_frames_len(
                self.tc90522.bus,
                relay_wrapped(a, rv),
                old(dev).seqno,
            );
            // the read's hop-1 slot is the batch's last exchange
            assert(rv.take(1) =~= seq![rv[0]]);
            assert(seq![rv[0]].skip(1) =~= Seq::<crate::i2c::I2CReqView>::empty());
            assert(relay_wrapped(a, seq![rv[0]]).len() == 1);
            assert(crate::tc90522::relay_slot(a, rv, 1) == 2);
            assert(dev.bus.received().last() == dev.bus.received()[old(dev).bus.received().len() as int + 2]);
            assert(results@[1]@ == exchange_payload(
                dev.bus.received().last(),
                seq_add(old(dev).seqno, 2),
                (reg + len) as nat,
            ));
        }
        let raw = &results[1];
        let mut out: Vec<u8> = Vec::new();
        let mut i: usize = 0;
        while i < len
            invariant
                i <= len,
                reg < 16,
                len <= 16,
                reg as int + len <= raw@.len(),
                out@ == Seq::new(i as nat, |q: int| rev_bits_spec(raw@[reg + q])),
            decreases len - i,
        {
            out.push(Self::reverse_bit(raw[reg as usize + i]));
            assert(out@ =~= Seq::new((i + 1) as nat, |q: int| rev_bits_spec(raw@[reg + q])));
            i = i + 1;
        }
        proof {
            assert(out@ =~= Seq::new(
                len as nat,
                |q: int|
                    rev_bits_spec(
                        exchange_payload(
                            dev.bus.received().last(),
                            seq_add(old(dev).seqno, 2),
                            (reg + len) as nat,
                        )[reg + q],
                    ),
            ));
        }
        Ok(out)
    }

    /// Write tuner registers starting at `reg` through the passthrough.
    pub fn write_regs<B: BusOps>(&self, dev: &mut IT930x<B>, reg: u8, data: &[u8]) -> (r: Result<
        (),
        CtrlMsgError,
    >)
        requires
            old(dev).wf(),
        ensures
            final(dev).wf(),
            session_preserved(*old(dev), *final(dev)),
            data@.len() == 0 || reg as int + data@.len() > RT710_NUM_REGS ==> r == Err::<
                (),
                CtrlMsgError,
            >(CtrlMsgError::InvalidLength) && final(dev).bus.sent() == old(dev).bus.sent() && final(dev).seqno == old(dev).seqno,
            r is Ok ==> ({
                let wrapped = relay_wrapped(
                    self.tc90522.i2c_addr,
                    passthrough_write_requests(self.i2c_addr, reg, data@),
                );
                &&& final(dev).bus.sent() == old(dev).bus.sent() + i2c_frames(
                    self.tc90522.bus,
                    wrapped,
                    old(dev).seqno,
                )
                &&& final(dev).seqno == seq_add(old(dev).seqno, wrapped.len() as int)
            }),
            history_extends(old(dev).bus.sent(), final(dev).bus.sent()),
            history_extends(old(dev).bus.received(), final(dev).bus.received()),
    {
        if data.len() == 0 || reg as usize >= RT710_NUM_REGS || data.len() > RT710_NUM_REGS
            - reg as usize {
            return Err(CtrlMsgError::InvalidLength);
        }
        let mut wbuf: Vec<u8> = Vec::new();
        wbuf.push(reg);
        wbuf.extend_from_slice(data);
        assert(wbuf@ =~= seq![reg] + data@);
        let mut requests: Vec<I2CCommRequest> = Vec::new();
        requests.push(I2CCommRequest::write(self.i2c_addr, wbuf));
        proof {
            assert(requests.deep_view() =~= passthrough_write_requests(self.i2c_addr, reg, data@));
        }
        let rr = self.tc90522.i2c_master_request(dev, &requests);
        match rr {
            Ok(_) => Ok(()),
            Err(e) => Err(e),
        }
    }

    /// Probe the chip: read register 3 and classify the part.  High
    /// nibble 0x7 is an RT710, anything else an RT720.
    pub fn init<B: BusOps>(&mut self, dev: &mut IT930x<B>) -> (r: Result<(), TunerError>)
        requires
            old(dev).wf(),
        ensures
            final(dev).wf(),
            session_preserved(*old(dev), *final(dev)),
            final(self).tc90522 == old(self).tc90522,
            final(self).i2c_addr == old(self).i2c_addr,
            final(self).config == old(self).config,
            r is Ok ==> ({
                // the classification is exactly what the returned register
                // byte dictates: high nibble 0x7 after bit reversal
                let probed = rev_bits_spec(
                    exchange_payload(
                        final(dev).bus.received().last(),
                        seq_add(old(dev).seqno, 2),
                        4,
                    )[3],
                );
                &&& final(self).priv_.init
                &&& final(self).priv_.freq == 0
                &&& final(dev).bus.sent().len() == old(dev).bus.sent().len() + 3
                &&& final(dev).bus.received().len() == old(dev).bus.received().len() + 3
                &&& final(self).priv_.chip == (if (probed & 0xf0) == 0x70 {
                    RT710ChipType::RT710
                } else {
                    RT710ChipType::RT720
                })
            }),
            r is Err ==> !final(self).priv_.init,
            history_extends(old(dev).bus.sent(), final(dev).bus.sent()),
            history_extends(old(dev).bus.received(), final(dev).bus.received()),
    {
        self.priv_.init = false;
        self.priv_.freq = 0;
        let tmp = match self.read_regs(dev, 0x03, 1) {
            Ok(v) => v,
            Err(e) => {
                return Err(TunerError::CtrlMsg(e));
            },
        };
        proof {
            assert(tmp@[0] == rev_bits_spec(
                exchange_payload(dev.bus.received().last(), seq_add(old(dev).seqno, 2), 4)[3],
            ));
        }
        self.priv_.chip = if (tmp[0] & 0xf0) == 0x70 {
            RT710ChipType::RT710
        } else {
            RT710ChipType::RT720
        };
        self.priv_.init = true;
        Ok(())
    }
}

} // verus!
