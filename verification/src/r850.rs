//! R850 terrestrial tuner driver: register access through the demodulator
//! passthrough, chip detection, and the crystal-power probe.

use vstd::prelude::*;
use crate::bus::BusOps;
use crate::errors::{CtrlMsgError, TunerError};
use crate::frame::{check_response_spec, exchange_payload};
use crate::i2c::{i2c_frames, I2CCommRequest};
use crate::it930x::{history_extends, seq_add, session_preserved, IT930x};
use crate::tc90522::{
    passthrough_read_requests, passthrough_write_requests, relay_wrapped, rev_bits_spec, wrap_one,
    TC90522,
};

verus! {

/// Number of registers the driver addresses.
pub const R850_NUM_REGS: usize = 0x30;

/// Broadcast system the tuner is programmed for.
#[derive(Debug, Clone, Copy, PartialEq, Eq, Structural)]
pub enum R850System {
    Undefined,
    DvbT,
    DvbT2,
    DvbT2_1,
    DvbC,
    J83B,
    IsdbT,
    Dtmb,
    Atsc,
    Fm,
}

/// Channel bandwidth.
#[derive(Debug, Clone, Copy, PartialEq, Eq, Structural)]
pub enum R850Bandwidth {
    B6M,
    B7M,
    B8M,
}

/// Static tuner configuration.
#[derive(Debug, Clone, Copy, PartialEq, Eq, Structural)]
pub struct R850Config {
    pub xtal: u32,
    pub loop_through: bool,
    pub clock_out: bool,
    pub no_imr_calibration: bool,
    pub no_lpf_calibration: bool,
}

/// System, bandwidth and intermediate frequency selection.
#[derive(Debug, Clone, Copy, PartialEq, Eq, Structural)]
pub struct R850SystemConfig {
    pub system: R850System,
    pub bandwidth: R850Bandwidth,
    pub if_freq: u32,
}

/// One image-rejection calibration point.
#[derive(Debug, Clone, Copy, PartialEq, Eq, Structural)]
pub struct R850Imr {
    pub gain: u8,
    pub phase: u8,
    pub iqcap: u8,
    pub value: u8,
}

/// Image-rejection calibration state for one signal path.
#[derive(Debug, Clone, Copy)]
pub struct R850ImrCal {
    pub imr: [R850Imr; 5],
    pub done: bool,
    pub result: [bool; 5],
    pub mixer_amp_lpf: u8,
}

/// Mutable tuner state.
pub struct R850Priv {
    pub init: bool,
    pub chip: i32,
    pub xtal_pwr: u8,
    pub regs: Vec<u8>,
    pub sleep: bool,
    pub sys: R850SystemConfig,
    pub mixer_mode: u8,
    pub mixer_amp_lpf_imr_cal: u8,
    pub imr_cal: [R850ImrCal; 2],
    pub sys_curr: R850SystemConfig,
}

/// One R850 tuner behind a demodulator passthrough.
pub struct R850 {
    pub tc90522: TC90522,
    pub xtal: u32,
    pub loop_through: bool,
    pub clock_out: bool,
    pub no_imr_calibration: bool,
    pub no_lpf_calibration: bool,
    pub i2c_addr: u8,
    pub priv_: R850Priv,
}

/// Power-on defaults of the tuner's register file.
pub open spec fn init_regs_spec() -> Seq<u8> {
    seq![
        0x00u8, 0x00, 0x00, 0x00, 0x00, 0x00, 0x00, 0x00, 0xca, 0xc0, 0x72, 0x50, 0x00, 0xe0,
        0x00, 0x30, 0x86, 0xbb, 0xf8, 0xb0, 0xd2, 0x81, 0xcd, 0x46, 0x37, 0x40, 0x89, 0x8c, 0x55,
        0x95, 0x07, 0x23, 0x21, 0xf1, 0x4c, 0x5f, 0xc4, 0x20, 0xa9, 0x6c, 0x53, 0xab, 0x5b, 0x46,
        0xb3, 0x93, 0x6e, 0x41,
    ]
}

/// The register file as the crystal-power probe configures it, before the
/// per-step tweak of register 0x22.
pub open spec fn xtal_probe_regs(chip: i32) -> Seq<u8> {
    let r0 = init_regs_spec();
    let r1 = if chip != 0 {
        r0.update(0x2f, (r0[0x2f] & 0xfd) as u8)
    } else {
        r0.update(0x2f, (r0[0x2f] & 0xfc) as u8)
    };
    let r2 = r1.update(0x1b, ((r1[0x1b] & 0x80) | 0x12) as u8);
    let r3 = r2.update(0x1e, ((r2[0x1e] & 0xe0) | 0x08) as u8);
    let r4 = r3.update(0x22, (r3[0x22] & 0x27) as u8);
    let r5 = r4.update(0x1d, (r4[0x1d] & 0x0f) as u8);
    let r6 = r5.update(0x21, (r5[0x21] | 0xf8) as u8);
    let r7 = r6.update(0x22, ((r6[0x22] & 0x77) | 0x80) as u8);
    let r8 = r7.update(0x1f, ((r7[0x1f] & 0x80) | 0x40) as u8);
    r8.update(0x1f, (r8[0x1f] & 0xbf) as u8)
}

impl R850 {
    /// The tuner state is usable: a complete 0x30-byte register file.
    pub open spec fn wf(&self) -> bool {
        self.priv_.regs@.len() == R850_NUM_REGS
    }

    /// Reverse the bit order of one byte: raw bus bytes from this chip
    /// come back with MSB and LSB swapped end for end.
    pub fn reverse_bit(val: u8) -> (r: u8)
        ensures
            r == rev_bits_spec(val),
    {
        let t1 = ((val & 0x55) << 1) | ((val & 0xAA) >> 1);
        let t2 = ((t1 & 0x33) << 2) | ((t1 & 0xCC) >> 2);
        let r = ((t2 & 0x0F) << 4) | ((t2 & 0xF0) >> 4);
        assert(r == ((val & 0x01) << 7) | ((val & 0x02) << 5) | ((val & 0x04) << 3) | ((val
            & 0x08) << 1) | ((val & 0x10) >> 1) | ((val & 0x20) >> 3) | ((val & 0x40) >> 5) | ((val
            & 0x80) >> 7)) by (bit_vector)
            requires
                t1 == ((val & 0x55) << 1) | ((val & 0xAA) >> 1),
                t2 == ((t1 & 0x33) << 2) | ((t1 & 0xCC) >> 2),
                r == ((t2 & 0x0F) << 4) | ((t2 & 0xF0) >> 4),
        ;
        r
    }

    /// A tuner handle behind the demodulator at `tc90522_addr` on bus
    /// `tc90522_bus`.
    pub fn new(tc90522_bus: u8, tc90522_addr: u8) -> (r: R850)
        ensures
            r.wf(),
            r.tc90522.bus == tc90522_bus,
            r.tc90522.i2c_addr == tc90522_addr,
            r.i2c_addr == 0x7c,
            !r.priv_.init,
            r.priv_.chip == 0,
    {
        let mut regs: Vec<u8> = Vec::new();
        let mut i: usize = 0;
        while i < R850_NUM_REGS
            invariant
                i <= R850_NUM_REGS,
                regs@.len() == i,
            decreases R850_NUM_REGS - i,
        {
            regs.push(0);
            i = i + 1;
        }
        let imr = R850Imr { gain: 0, phase: 0, iqcap: 0, value: 0 };
        let cal = R850ImrCal {
            imr: [imr, imr, imr, imr, imr],
            done: false,
            result: [false, false, false, false, false],
            mixer_amp_lpf: 0,
        };
        R850 {
            tc90522: TC90522::new(tc90522_bus, tc90522_addr, false),
            i2c_addr: 0x7c,
            xtal: 0,
            loop_through: false,
            clock_out: false,
            no_imr_calibration: false,
            no_lpf_calibration: false,
            priv_: R850Priv {
                init: false,
                chip: 0,
                xtal_pwr: 0,
                regs,
                sleep: false,
                sys: R850SystemConfig {
                    system: R850System::Undefined,
                    bandwidth: R850Bandwidth::B6M,
                    if_freq: 0,
                },
                sys_curr: R850SystemConfig {
                    system: R850System::Undefined,
                    bandwidth: R850Bandwidth::B6M,
                    if_freq: 0,
                },
                imr_cal: [cal, cal],
                mixer_mode: 0,
                mixer_amp_lpf_imr_cal: 0,
            },
        }
    }

    /// Read `len` tuner registers starting at `reg` through the
    /// passthrough, bit-reversing every byte handed back.
    pub fn read_regs<B: BusOps>(&self, dev: &mut IT930x<B>, reg: u8, len: usize) -> (r: Result<
        Vec<u8>,
        CtrlMsgError,
    >)
        requires
            old(dev).wf(),
        ensures
            final(dev).wf(),
            session_preserved(*old(dev), *final(dev)),
            len == 0 || reg as int + len > R850_NUM_REGS ==> r == Err::<Vec<u8>, CtrlMsgError>(
                CtrlMsgError::InvalidLength,
            ) && final(dev).bus.sent() == old(dev).bus.sent() && final(dev).seqno == old(dev).seqno,
            r is Ok ==> ({
                let wrapped = relay_wrapped(
                    self.tc90522.i2c_addr,
                    passthrough_read_requests(self.i2c_addr, reg, len as int),
                );
                &&& r->Ok_0@.len() == len
                &&& wrapped.len() == 3
                &&& final(dev).bus.sent() == old(dev).bus.sent() + i2c_frames(
                    self.tc90522.bus,
                    wrapped,
                    old(dev).seqno,
                )
                &&& final(dev).bus.sent().len() == old(dev).bus.sent().len() + 3
                &&& final(dev).seqno == seq_add(old(dev).seqno, wrapped.len() as int)
                &&& final(dev).bus.received().len() == old(dev).bus.received().len() + 3
                &&& crate::frame::check_response_spec(
                    final(dev).bus.received().last(),
                    seq_add(old(dev).seqno, 2),
                    (reg + len) as nat,
                ) is Ok
                &&& r->Ok_0@ == Seq::new(
                    len as nat,
                    |q: int|
                        rev_bits_spec(
                            exchange_payload(
                                final(dev).bus.received().last(),
                                seq_add(old(dev).seqno, 2),
                                (reg + len) as nat,
                            )[reg + q],
                        ),
                )
            }),
            history_extends(old(dev).bus.sent(), final(dev).bus.sent()),
            history_extends(old(dev).bus.received(), final(dev).bus.received()),
    {
        if len == 0 || reg as usize >= R850_NUM_REGS || len > R850_NUM_REGS - reg as usize {
            return Err(CtrlMsgError::InvalidLength);
        }
        let mut setup: Vec<u8> = Vec::new();
        setup.push(0x00);
        assert(setup@ =~= seq![0u8]);
        let mut requests: Vec<I2CCommRequest> = Vec::new();
        requests.push(I2CCommRequest::write(self.i2c_addr, setup));
        requests.push(I2CCommRequest::read(self.i2c_addr, reg as usize + len));
        proof {
            assert(requests.deep_view() =~= passthrough_read_requests(
                self.i2c_addr,
                reg,
                len as int,
            ));
        }
        let rr = self.tc90522.i2c_master_request(dev, &requests);
        let results = match rr {
            Ok(v) => v,
            Err(e) => {
                return Err(e);
            },
        };
        let ghost rv = requests.deep_view();
        let ghost a = self.tc90522.i2c_addr;
        proof {
            // the relayed batch is setup write, read-setup write, read
            assert(rv.skip(1).skip(1) =~= Seq::<crate::i2c::I2CReqView>::empty());
            assert(relay_wrapped(a, rv.skip(1).skip(1)) =~= Seq::<
                crate::i2c::I2CReqView,
            >::empty());
            assert(rv.skip(1)[0] == rv[1]);
            assert(relay_wrapped(a, rv.skip(1)) =~= wrap_one(a, rv[1]));
            assert(relay_wrapped(a, rv) =~= wrap_one(a, rv[0]) + wrap_one(a, rv[1]));
            assert(relay_wrapped(a, rv).len() == 3);
            crate::i2c::lemma_i2c_frames_len(
                self.tc90522.bus,
                relay_wrapped(a, rv),
                old(dev).seqno,
            );
            // the read's hop-1 slot is the batch's last exchange
            assert(rv.take(1) =~= seq![rv[0]]);
            assert(seq![rv[0]].skip(1) =~= Seq::<crate::i2c::I2CReqView>::empty());
            assert(relay_wrapped(a, seq![rv[0]]).len() == 1);
            assert(crate::tc90522::relay_slot(a, rv, 1) == 2);
            assert(dev.bus.received().last() == dev.bus.received()[old(dev).bus.received().len() as int + 2]);
            assert(results@[1]@ == exchange_payload(
                dev.bus.received().last(),
                seq_add(old(dev).seqno, 2),
                (reg + len) as nat,
            ));
        }
        let raw = &results[1];
        let mut out: Vec<u8> = Vec::new();
        let mut i: usize = 0;
        while i < len
            invariant
                i <= len,
                reg < 0x30,
                len <= 0x30,
                reg as int + len <= raw@.len(),
                out@ == Seq::new(i as nat, |q: int| rev_bits_spec(raw@[reg + q])),
            decreases len - i,
        {
            out.push(Self::reverse_bit(raw[reg as usize + i]));
            assert(out@ =~= Seq::new((i + 1) as nat, |q: int| rev_bits_spec(raw@[reg + q])));
            i = i + 1;
        }
        proof {
            assert(out@ =~= Seq::new(
                len as nat,
                |q: int|
                    rev_bits_spec(
                        exchange_payload(
                            dev.bus.received().last(),
                            seq_add(old(dev).seqno, 2),
                            (reg + len) as nat,
                        )[reg + q],
                    ),
            ));
        }
        Ok(out)
    }

    /// Write tuner registers starting at `reg` through the passthrough.
    pub fn write_regs<B: BusOps>(&self, dev: &mut IT930x<B>, reg: u8, data: &[u8]) -> (r: Result<
        (),
        CtrlMsgError,
    >)
        requires
            old(dev).wf(),
        ensures
            final(dev).wf(),
            session_preserved(*old(dev), *final(dev)),
            data@.len() == 0 || reg as int + data@.len() > R850_NUM_REGS ==> r == Err::<
                (),
                CtrlMsgError,
            >(CtrlMsgError::InvalidLength) && final(dev).bus.sent() == old(dev).bus.sent()
                && final(dev).seqno == old(dev).seqno,
            r is Ok ==> ({
                let wrapped = relay_wrapped(
                    self.tc90522.i2c_addr,
                    passthrough_write_requests(self.i2c_addr, reg, data@),
                );
                &&& final(dev).bus.sent() == old(dev).bus.sent() + i2c_frames(
                    self.tc90522.bus,
                    wrapped,
                    old(dev).seqno,
                )
                &&& final(dev).seqno == seq_add(old(dev).seqno, wrapped.len() as int)
            }),
            history_extends(old(dev).bus.sent(), final(dev).bus.sent()),
            history_extends(old(dev).bus.received(), final(dev).bus.received()),
    {
        if data.len() == 0 || reg as usize >= R850_NUM_REGS || data.len() > R850_NUM_REGS
            - reg as usize {
            return Err(CtrlMsgError::InvalidLength);
        }
        let mut wbuf: Vec<u8> = Vec::new();
        wbuf.push(reg);
        wbuf.extend_from_slice(data);
        assert(wbuf@ =~= seq![reg] + data@);
        let mut requests: Vec<I2CCommRequest> = Vec::new();
        requests.push(I2CCommRequest::write(self.i2c_addr, wbuf));
        proof {
            assert(requests.deep_view() =~= passthrough_write_requests(self.i2c_addr, reg, data@));
        }
        let rr = self.tc90522.i2c_master_request(dev, &requests);
        match rr {
            Ok(_) => Ok(()),
            Err(e) => Err(e),
        }
    }

    /// Reset the cached register file to its power-on defaults.
    pub fn init_regs(&mut self)
        ensures
            final(self).wf(),
            final(self).priv_.regs@ == init_regs_spec(),
            final(self).tc90522 == old(self).tc90522,
            final(self).i2c_addr == old(self).i2c_addr,
            final(self).priv_.chip == old(self).priv_.chip,
            final(self).priv_.init == old(self).priv_.init,
            final(self).priv_.xtal_pwr == old(self).priv_.xtal_pwr,
    {
        let table: [u8; 48] = [
            0x00, 0x00, 0x00, 0x00, 0x00, 0x00, 0x00, 0x00, 0xca, 0xc0, 0x72, 0x50, 0x00, 0xe0,
            0x00, 0x30, 0x86, 0xbb, 0xf8, 0xb0, 0xd2, 0x81, 0xcd, 0x46, 0x37, 0x40, 0x89, 0x8c,
            0x55, 0x95, 0x07, 0x23, 0x21, 0xf1, 0x4c, 0x5f, 0xc4, 0x20, 0xa9, 0x6c, 0x53, 0xab,
            0x5b, 0x46, 0xb3, 0x93, 0x6e, 0x41,
        ];
        let mut regs: Vec<u8> = Vec::new();
        let mut i: usize = 0;
        while i < 48
            invariant
                i <= 48,
                regs@.len() == i,
                forall|j: int| 0 <= j < i ==> regs@[j] == table@[j],
            decreases 48 - i,
        {
            regs.push(table[i]);
            i = i + 1;
        }
        self.priv_.regs = regs;
        proof {
            assert(self.priv_.regs@ =~= init_regs_spec());
        }
    }

    /// Probe the crystal drive power: program the probe register
    /// configuration, then raise the drive step by step until the
    /// oscillator reports a usable bank, and keep one step of margin.
    pub fn check_xtal_power<B: BusOps>(&mut self, dev: &mut IT930x<B>) -> (r: Result<
        (),
        CtrlMsgError,
    >)
        requires
            old(dev).wf(),
        ensures
            final(dev).wf(),
            session_preserved(*old(dev), *final(dev)),
            final(self).wf(),
            final(self).tc90522 == old(self).tc90522,
            final(self).i2c_addr == old(self).i2c_addr,
            final(self).priv_.chip == old(self).priv_.chip,
            r is Ok ==> 1 <= final(self).priv_.xtal_pwr <= 3,
            r is Ok ==> exists|x: u8|
                final(self).priv_.regs@ == #[trigger] xtal_probe_regs(
                    old(self).priv_.chip,
                ).update(0x22, x),
            // the probe really ran: at least one drive-step write and one
            // oscillator read reached the bus
            r is Ok ==> final(dev).bus.sent().len() >= old(dev).bus.sent().len() + 4,
            history_extends(old(dev).bus.sent(), final(dev).bus.sent()),
            history_extends(old(dev).bus.received(), final(dev).bus.received()),
    {
        let bank: u8 = 55;
        let mut pwr: u8 = 3;
        let ghost chip = self.priv_.chip;
        self.init_regs();
        let t2f = self.priv_.regs[0x2f];
        if self.priv_.chip != 0 {
            self.priv_.regs[0x2f] = t2f & 0xfd;
        } else {
            self.priv_.regs[0x2f] = t2f & 0xfc;
        }
        let t1b = self.priv_.regs[0x1b];
        self.priv_.regs[0x1b] = (t1b & 0x80) | 0x12;
        let t1e = self.priv_.regs[0x1e];
        self.priv_.regs[0x1e] = (t1e & 0xe0) | 0x08;
        let t22 = self.priv_.regs[0x22];
        self.priv_.regs[0x22] = t22 & 0x27;
        let t1d = self.priv_.regs[0x1d];
        self.priv_.regs[0x1d] = t1d & 0x0f;
        let t21 = self.priv_.regs[0x21];
        self.priv_.regs[0x21] = t21 | 0xf8;
        let t22b = self.priv_.regs[0x22];
        self.priv_.regs[0x22] = (t22b & 0x77) | 0x80;
        let t1f = self.priv_.regs[0x1f];
        self.priv_.regs[0x1f] = (t1f & 0x80) | 0x40;
        let t1fb = self.priv_.regs[0x1f];
        self.priv_.regs[0x1f] = t1fb & 0xbf;
        proof {
            assert(self.priv_.regs@ =~= xtal_probe_regs(chip));
            assert(xtal_probe_regs(chip).update(0x22, xtal_probe_regs(chip)[0x22] as u8)
                =~= xtal_probe_regs(chip));
        }
        // Program the whole probe configuration from register 8 up; the
        // original deliberately ignores this write's outcome.
        let mut wdata: Vec<u8> = Vec::new();
        let mut j: usize = 0x08;
        while j < R850_NUM_REGS
            invariant
                0x08 <= j <= R850_NUM_REGS,
                self.wf(),
                wdata@.len() == j - 0x08,
            decreases R850_NUM_REGS - j,
        {
            wdata.push(self.priv_.regs[j]);
            j = j + 1;
        }
        let _ = self.write_regs(dev, 0x08, wdata.as_slice());
        let ghost base_len = dev.bus.sent().len() as int;
        // Raise the drive until the oscillator reports a usable bank.
        let mut i: u8 = 0;
        let mut found = false;
        while i < 4 && !found
            invariant
                i <= 4,
                bank == 55,
                dev.wf(),
                session_preserved(*old(dev), *dev),
                history_extends(old(dev).bus.sent(), dev.bus.sent()),
                history_extends(old(dev).bus.received(), dev.bus.received()),
                base_len >= old(dev).bus.sent().len(),
                dev.bus.sent().len() >= base_len + (if found { 4int } else { 4int * i }),
                self.wf(),
                self.tc90522 == old(self).tc90522,
                self.i2c_addr == old(self).i2c_addr,
                self.priv_.chip == chip,
                chip == old(self).priv_.chip,
                exists|x: u8| self.priv_.regs@ == #[trigger] xtal_probe_regs(chip).update(0x22, x),
                !found ==> pwr == 3,
                found ==> pwr <= 3,
            decreases 4 - i + (if found { 0int } else { 1int }),
        {
            let t = self.priv_.regs[0x22];
            self.priv_.regs[0x22] = (t & 0xcf) | (i << 4);
            proof {
                let x0 = choose|x: u8| self.priv_.regs@ == #[trigger] xtal_probe_regs(
                    chip,
                ).update(0x22, x);
                assert(self.priv_.regs@ =~= xtal_probe_regs(chip).update(
                    0x22,
                    ((t & 0xcf) | (i << 4)) as u8,
                ));
            }
            let one = [self.priv_.regs[0x22]];
            match self.write_regs(dev, 0x22, &one) {
                Ok(_) => {
                    proof {
                        let wreq = passthrough_write_requests(self.i2c_addr, 0x22, one@);
                        assert(wreq.skip(1) =~= Seq::<crate::i2c::I2CReqView>::empty());
                        assert(relay_wrapped(self.tc90522.i2c_addr, wreq.skip(1)) =~= Seq::<
                            crate::i2c::I2CReqView,
                        >::empty());
                        assert(relay_wrapped(self.tc90522.i2c_addr, wreq).len() == 1);
                        crate::i2c::lemma_i2c_frames_len(
                            self.tc90522.bus,
                            relay_wrapped(self.tc90522.i2c_addr, wreq),
                            dev.seqno,
                        );
                    }
                },
                Err(e) => {
                    return Err(e);
                },
            }
            let tmp = match self.read_regs(dev, 0x02, 1) {
                Ok(v) => v,
                Err(e) => {
                    return Err(e);
                },
            };
            if (tmp[0] & 0x40) != 0 && (tmp[0] & 0x3f).wrapping_sub(bank - 6) <= 12 {
                pwr = i;
                found = true;
            } else {
                i = i + 1;
            }
        }
        if pwr < 3 {
            pwr = pwr + 1;
        }
        self.priv_.xtal_pwr = pwr;
        Ok(())
    }

    /// Detect and reset the chip: clear the cached state, probe register
    /// zero up to four times for a live part, then refresh the register
    /// file from the hardware.
    pub fn init<B: BusOps>(&mut self, dev: &mut IT930x<B>) -> (r: Result<(), TunerError>)
        requires
            old(dev).wf(),
            old(self).wf(),
        ensures
            final(dev).wf(),
            session_preserved(*old(dev), *final(dev)),
            final(self).wf(),
            final(self).tc90522 == old(self).tc90522,
            final(self).i2c_addr == old(self).i2c_addr,
            r is Ok ==> ({
                &&& final(self).priv_.chip == 0
                &&& !final(self).priv_.sleep
                &&& final(self).priv_.sys.system == R850System::Undefined
                &&& final(self).priv_.sys_curr.system == R850System::Undefined
                // the probe, the register-file read, and the write-back all
                // reached the bus
                &&& final(dev).bus.sent().len() >= old(dev).bus.sent().len() + 7
                // detection is owed to a received transfer whose identity
                // byte carries bits 0x98 after the wiring reversal
                &&& exists|j: int, sq: u8|
                    old(dev).bus.received().len() <= j < final(dev).bus.received().len()
                        && check_response_spec(final(dev).bus.received()[j], sq, 1) is Ok && (
                    rev_bits_spec(
                        #[trigger] exchange_payload(final(dev).bus.received()[j], sq, 1)[0],
                    ) & 0x98) != 0
            }),
            history_extends(old(dev).bus.sent(), final(dev).bus.sent()),
            history_extends(old(dev).bus.received(), final(dev).bus.received()),
    {
        self.priv_.init = false;
        self.priv_.chip = 0;
        self.priv_.sleep = false;
        self.priv_.sys.system = R850System::Undefined;
        self.priv_.sys_curr.system = R850System::Undefined;
        let imr = R850Imr { gain: 0, phase: 0, iqcap: 0, value: 0 };
        let cal = R850ImrCal {
            imr: [imr, imr, imr, imr, imr],
            done: false,
            result: [false, false, false, false, false],
            mixer_amp_lpf: 0,
        };
        self.priv_.imr_cal = [cal, cal];
        // Chip probe: up to four attempts, failures ignored in between.
        let mut detected = false;
        let mut t: u8 = 0;
        let ghost mut det_j: int = 0;
        let ghost mut det_sq: u8 = 0;
        while t < 4 && !detected
            invariant
                t <= 4,
                dev.wf(),
                session_preserved(*old(dev), *dev),
                history_extends(old(dev).bus.sent(), dev.bus.sent()),
                history_extends(old(dev).bus.received(), dev.bus.received()),
                self.wf(),
                self.tc90522 == old(self).tc90522,
                self.i2c_addr == old(self).i2c_addr,
                self.priv_.chip == 0,
                !self.priv_.sleep,
                self.priv_.sys.system == R850System::Undefined,
                self.priv_.sys_curr.system == R850System::Undefined,
                detected ==> ({
                    &&& old(dev).bus.received().len() <= det_j < dev.bus.received().len()
                    &&& check_response_spec(dev.bus.received()[det_j], det_sq, 1) is Ok
                    &&& (rev_bits_spec(
                        exchange_payload(dev.bus.received()[det_j], det_sq, 1)[0],
                    ) & 0x98) != 0
                    &&& dev.bus.sent().len() >= old(dev).bus.sent().len() + 3
                }),
            decreases 4 - t + (if detected { 0int } else { 1int }),
        {
            let ghost sq_before = dev.seqno;
            match self.read_regs(dev, 0x00, 1) {
                Ok(v) => {
                    if (v[0] & 0x98) != 0 {
                        proof {
                            det_j = dev.bus.received().len() - 1;
                            det_sq = seq_add(sq_before, 2);
                            assert(v@[0] == rev_bits_spec(
                                exchange_payload(dev.bus.received()[det_j], det_sq, 1)[0],
                            ));
                        }
                        self.priv_.chip = 0;
                        detected = true;
                    } else {
                        t = t + 1;
                    }
                },
                Err(_) => {
                    t = t + 1;
                },
            }
        }
        if !detected {
            return Err(TunerError::ChipNotDetected);
        }
        // Refresh the register file from the hardware.
        let regs = match self.read_regs(dev, 0x08, R850_NUM_REGS - 0x08) {
            Ok(v) => v,
            Err(e) => {
                return Err(TunerError::CtrlMsg(e));
            },
        };
        match self.write_regs(dev, 0x08, regs.as_slice()) {
            Ok(_) => {},
            Err(e) => {
                return Err(TunerError::CtrlMsg(e));
            },
        }
        proof {
            // one downstream write relays as a single hop-1 exchange
            let wreq = passthrough_write_requests(self.i2c_addr, 0x08, regs@);
            assert(wreq.skip(1) =~= Seq::<crate::i2c::I2CReqView>::empty());
            assert(relay_wrapped(self.tc90522.i2c_addr, wreq.skip(1)) =~= Seq::<
                crate::i2c::I2CReqView,
            >::empty());
            assert(relay_wrapped(self.tc90522.i2c_addr, wreq).len() == 1);
            crate::i2c::lemma_i2c_frames_len(
                self.tc90522.bus,
                relay_wrapped(self.tc90522.i2c_addr, wreq),
                dev.seqno,
            );
        }
        Ok(())
    }
}

} // verus!
