//! Hop 2: the demodulator-relayed I2C passthrough.
//!
//! A downstream chip is reachable only through the demodulator's relay
//! convention: every relayed transaction is prefixed with sub-address 0xFE
//! at the demodulator's own address, followed by `targetAddr<<1 | readBit`.
//! A downstream write becomes one hop-1 write; a downstream read becomes a
//! setup write immediately followed by a hop-1 read.  All wrapped
//! transactions of one logical call go out as a single hop-1 batch, so
//! foreign I2C traffic cannot interleave mid-sequence.

use vstd::prelude::*;
use crate::bus::BusOps;
use crate::errors::CtrlMsgError;
use crate::frame::{check_response_spec, exchange_payload};
use crate::i2c::{i2c_frames, i2c_req_valid, I2CCommRequest, I2CReqView, I2CRequestType};
use crate::i2c::lemma_i2c_frames_snoc;
use crate::it930x::{frames_in_position, history_extends, seq_add, session_preserved, IT930x};

verus! {

/// A 7-bit I2C device address.
#[derive(Debug, Clone, Copy, PartialEq, Eq, Structural)]
pub struct I2CAddr(pub u8);

/// An 8-bit register index of a downstream chip.
#[derive(Debug, Clone, Copy, PartialEq, Eq, Structural)]
pub struct Reg(pub u8);

/// Bit order reversal of one byte, the hardware wiring quirk of bytes read
/// back through the passthrough: bit `k` surfaces as bit `7 - k`.
pub open spec fn rev_bits_spec(v: u8) -> u8 {
    ((v & 0x01) << 7) | ((v & 0x02) << 5) | ((v & 0x04) << 3) | ((v & 0x08) << 1) | ((v & 0x10)
        >> 1) | ((v & 0x20) >> 3) | ((v & 0x40) >> 5) | ((v & 0x80) >> 7)
}

/// One demodulator bridge, addressed at `i2c_addr` on hop-1 bus `bus`.
pub struct TC90522 {
    pub bus: u8,
    pub i2c_addr: u8,
    pub is_secondary: bool,
}

/// The hop-1 transactions one downstream transaction is relayed as.
pub open spec fn wrap_one(self_addr: u8, r: I2CReqView) -> Seq<I2CReqView> {
    if r.is_read {
        seq![
            I2CReqView { addr: self_addr, is_read: false, data: seq![0xFEu8, (r.addr << 1) | 1] },
            I2CReqView {
                addr: self_addr,
                is_read: true,
                data: Seq::new(r.data.len(), |q: int| 0u8),
            },
        ]
    } else {
        seq![
            I2CReqView {
                addr: self_addr,
                is_read: false,
                data: seq![0xFEu8, r.addr << 1] + r.data,
            },
        ]
    }
}

/// The whole hop-1 batch a downstream batch is relayed as, in order.
pub open spec fn relay_wrapped(self_addr: u8, reqs: Seq<I2CReqView>) -> Seq<I2CReqView>
    decreases reqs.len(),
{
    if reqs.len() == 0 {
        Seq::empty()
    } else {
        wrap_one(self_addr, reqs[0]) + relay_wrapped(self_addr, reqs.skip(1))
    }
}

/// Position of downstream read `i`'s hop-1 read within the relayed batch:
/// everything relayed for the requests before it, plus its own setup write.
pub open spec fn relay_slot(self_addr: u8, reqs: Seq<I2CReqView>, i: int) -> int {
    relay_wrapped(self_addr, reqs.take(i)).len() as int + 1
}

/// Every downstream write carries between 1 and 253 bytes.
pub open spec fn relay_writes_valid(reqs: Seq<I2CReqView>) -> bool {
    forall|i: int|
        0 <= i < reqs.len() && !(#[trigger] reqs[i]).is_read ==> 1 <= reqs[i].data.len() <= 253
}

/// Wrapping one more downstream transaction appends exactly its relayed
/// form.
pub proof fn lemma_relay_snoc(self_addr: u8, reqs: Seq<I2CReqView>, k: int)
    requires
        0 <= k < reqs.len(),
    ensures
        relay_wrapped(self_addr, reqs.take(k + 1)) == relay_wrapped(self_addr, reqs.take(k))
            + wrap_one(self_addr, reqs[k]),
    decreases k,
{
    if k == 0 {
        let one = reqs.take(1);
        assert(one.len() == 1 && one[0] == reqs[0]);
        assert(one.skip(1) =~= Seq::<I2CReqView>::empty());
        assert(relay_wrapped(self_addr, one.skip(1)) =~= Seq::<I2CReqView>::empty());
        assert(reqs.take(0) =~= Seq::<I2CReqView>::empty());
        assert(relay_wrapped(self_addr, reqs.take(1)) =~= relay_wrapped(self_addr, reqs.take(0))
            + wrap_one(self_addr, reqs[0]));
    } else {
        let tail = reqs.skip(1);
        lemma_relay_snoc(self_addr, tail, k - 1);
        assert(reqs.take(k + 1).skip(1) =~= tail.take(k));
        assert(reqs.take(k).skip(1) =~= tail.take(k - 1));
        assert(reqs.take(k + 1)[0] == reqs[0]);
        assert(reqs.take(k)[0] == reqs[0]);
        assert(tail[k - 1] == reqs[k]);
        assert(relay_wrapped(self_addr, reqs.take(k + 1)) =~= relay_wrapped(
            self_addr,
            reqs.take(k),
        ) + wrap_one(self_addr, reqs[k]));
    }
}

/// The downstream transactions of one passthrough register read: select
/// register zero, then read `reg + len` bytes from the chip, which answers
/// with registers 0 through `reg + len - 1`.
pub open spec fn passthrough_read_requests(addr: u8, reg: u8, len: int) -> Seq<I2CReqView> {
    seq![
        I2CReqView { addr, is_read: false, data: seq![0u8] },
        I2CReqView { addr, is_read: true, data: Seq::new((reg + len) as nat, |q: int| 0u8) },
    ]
}

/// The downstream transaction of one passthrough register write:
/// `[reg, data..]` to the chip.
pub open spec fn passthrough_write_requests(addr: u8, reg: u8, data: Seq<u8>) -> Seq<I2CReqView> {
    seq![I2CReqView { addr, is_read: false, data: seq![reg] + data }]
}

impl TC90522 {
    /// A bridge handle for the demodulator at `i2c_addr` on bus `bus`.
    pub fn new(bus: u8, i2c_addr: u8, is_secondary: bool) -> (r: TC90522)
        ensures
            r.bus == bus,
            r.i2c_addr == i2c_addr,
            r.is_secondary == is_secondary,
    {
        TC90522 { bus, i2c_addr, is_secondary }
    }

    /// Relay an ordered batch of downstream transactions through the
    /// demodulator as one hop-1 batch.
    ///
    /// Downstream writes with an empty or oversize payload are rejected
    /// before any bus I/O.  On success the returned vector has one entry
    /// per downstream transaction — the bytes read for a read, empty for a
    /// write — and the bus carried exactly the relayed batch's frames.
    #[verifier::rlimit(60)]
    pub fn i2c_master_request<B: BusOps>(
        &self,
        dev: &mut IT930x<B>,
        requests: &Vec<I2CCommRequest>,
    ) -> (r: Result<Vec<Vec<u8>>, CtrlMsgError>)
        requires
            old(dev).wf(),
        ensures
            final(dev).wf(),
            session_preserved(*old(dev), *final(dev)),
            !relay_writes_valid(requests.deep_view()) ==> r == Err::<Vec<Vec<u8>>, CtrlMsgError>(
                CtrlMsgError::InvalidLength,
            ) && final(dev).bus.sent() == old(dev).bus.sent() && final(dev).seqno == old(dev).seqno,
            r is Ok ==> ({
                let reqs = requests.deep_view();
                let wrapped = relay_wrapped(self.i2c_addr, reqs);
                &&& relay_writes_valid(reqs)
                &&& r->Ok_0@.len() == reqs.len()
                &&& forall|i: int|
                    0 <= i < reqs.len() ==> #[trigger] r->Ok_0@[i]@.len() == (
                    if reqs[i].is_read {
                        reqs[i].data.len()
                    } else {
                        0
                    })
                &&& final(dev).bus.sent() == old(dev).bus.sent() + i2c_frames(
                    self.bus,
                    wrapped,
                    old(dev).seqno,
                )
                &&& final(dev).seqno == seq_add(old(dev).seqno, wrapped.len() as int)
                &&& final(dev).bus.received().len() == old(dev).bus.received().len()
                    + wrapped.len()
                &&& forall|i: int|
                    0 <= i < reqs.len() && (#[trigger] reqs[i]).is_read ==> r->Ok_0@[i]@
                        == exchange_payload(
                        final(dev).bus.received()[old(dev).bus.received().len() + relay_slot(
                            self.i2c_addr,
                            reqs,
                            i,
                        )],
                        seq_add(old(dev).seqno, relay_slot(self.i2c_addr, reqs, i)),
                        reqs[i].data.len(),
                    ) && check_response_spec(
                        final(dev).bus.received()[old(dev).bus.received().len() + relay_slot(
                            self.i2c_addr,
                            reqs,
                            i,
                        )],
                        seq_add(old(dev).seqno, relay_slot(self.i2c_addr, reqs, i)),
                        reqs[i].data.len(),
                    ) is Ok
            }),
            r is Err ==> exists|j: int|
                0 <= j <= relay_wrapped(self.i2c_addr, requests.deep_view()).len() && final(dev).bus.sent() == old(dev).bus.sent() + #[trigger] i2c_frames(
                    self.bus,
                    relay_wrapped(self.i2c_addr, requests.deep_view()).take(j),
                    old(dev).seqno,
                ),
            history_extends(old(dev).bus.sent(), final(dev).bus.sent()),
            history_extends(old(dev).bus.received(), final(dev).bus.received()),
    {
        let ghost reqs = requests.deep_view();
        let n = requests.len();
        // Reject bad downstream writes before any bus traffic.
        let mut v: usize = 0;
        while v < n
            invariant
                v <= n,
                n == reqs.len(),
                reqs == requests.deep_view(),
                *dev == *old(dev),
                old(dev).wf(),
                forall|i: int|
                    0 <= i < v && !(#[trigger] reqs[i]).is_read ==> 1 <= reqs[i].data.len() <= 253,
            decreases n - v,
        {
            let req = &requests[v];
            if matches!(req.req, I2CRequestType::Write) {
                if req.data.len() == 0 || req.data.len() > 253 {
                    proof {
                        assert(reqs[v as int] == requests@[v as int].deep_view());
                        assert(!reqs[v as int].is_read);
                        assert(reqs[v as int].data.len() == 0 || reqs[v as int].data.len() > 253);
                        assert(!relay_writes_valid(reqs));
                        let w0 = relay_wrapped(self.i2c_addr, reqs).take(0);
                        assert(w0 =~= Seq::<I2CReqView>::empty());
                        assert(i2c_frames(self.bus, w0, old(dev).seqno) =~= Seq::<
                            Seq<u8>,
                        >::empty());
                        assert(old(dev).bus.sent() =~= old(dev).bus.sent() + i2c_frames(
                            self.bus,
                            w0,
                            old(dev).seqno,
                        ));
                    }
                    return Err(CtrlMsgError::InvalidLength);
                }
            }
            v = v + 1;
        }
        assert(relay_writes_valid(reqs));
        // Build the wrapped hop-1 batch.
        let mut wrapped: Vec<I2CCommRequest> = Vec::new();
        let mut k: usize = 0;
        proof {
            assert(reqs.take(0) =~= Seq::<I2CReqView>::empty());
            assert(wrapped.deep_view() =~= relay_wrapped(self.i2c_addr, reqs.take(0)));
        }
        while k < n
            invariant
                k <= n,
                n == reqs.len(),
                reqs == requests.deep_view(),
                *dev == *old(dev),
                old(dev).wf(),
                wrapped.deep_view() == relay_wrapped(self.i2c_addr, reqs.take(k as int)),
            decreases n - k,
        {
            let req = &requests[k];
            proof {
                lemma_relay_snoc(self.i2c_addr, reqs, k as int);
            }
            match req.req {
                I2CRequestType::Read => {
                    let mut setup: Vec<u8> = Vec::new();
                    setup.push(0xFE);
                    setup.push((req.addr << 1) | 1);
                    assert(setup@ =~= seq![0xFEu8, (reqs[k as int].addr << 1) | 1]);
                    wrapped.push(I2CCommRequest::write(self.i2c_addr, setup));
                    wrapped.push(I2CCommRequest::read(self.i2c_addr, req.data.len()));
                    assert(wrapped.deep_view() =~= relay_wrapped(
                        self.i2c_addr,
                        reqs.take(k + 1),
                    ));
                },
                I2CRequestType::Write => {
                    let mut data: Vec<u8> = Vec::new();
                    data.push(0xFE);
                    data.push(req.addr << 1);
                    data.extend_from_slice(req.data.as_slice());
                    assert(data@ =~= seq![0xFEu8, reqs[k as int].addr << 1] + reqs[k as int].data);
                    wrapped.push(I2CCommRequest::write(self.i2c_addr, data));
                    assert(wrapped.deep_view() =~= relay_wrapped(
                        self.i2c_addr,
                        reqs.take(k + 1),
                    ));
                },
            }
            k = k + 1;
        }
        proof {
            assert(reqs.take(n as int) =~= reqs);
        }
        // One hop-1 batch for the whole relay.
        let rr = dev.i2c_master_request(self.bus, &wrapped);
        let mut results = match rr {
            Ok(v) => v,
            Err(e) => {
                proof {
                    let pre = old(dev).bus.sent();
                    let sq = old(dev).seqno;
                    let wv = wrapped.deep_view();
                    let j = choose|j: int|
                        0 <= j < wv.len() && (forall|q: int|
                            0 <= q < j ==> i2c_req_valid(#[trigger] wv[q])) && (dev.bus.sent()
                            == pre + #[trigger] i2c_frames(self.bus, wv.take(j), sq)
                            || dev.bus.sent() == pre + i2c_frames(self.bus, wv.take(j + 1), sq))
                            && (dev.seqno == seq_add(sq, j) || dev.seqno == seq_add(sq, j + 1))
                            && (!i2c_req_valid(wv[j]) ==> rr == Err::<Vec<Vec<u8>>, CtrlMsgError>(
                            CtrlMsgError::InvalidLength,
                        ) && dev.bus.sent() == pre + i2c_frames(self.bus, wv.take(j), sq)
                            && dev.seqno == seq_add(sq, j));
                    if dev.bus.sent() == pre + i2c_frames(self.bus, wv.take(j), sq) {
                        assert(dev.bus.sent() == pre + i2c_frames(
                            self.bus,
                            relay_wrapped(self.i2c_addr, reqs).take(j),
                            sq,
                        ));
                    } else {
                        assert(dev.bus.sent() == pre + i2c_frames(
                            self.bus,
                            relay_wrapped(self.i2c_addr, reqs).take(j + 1),
                            sq,
                        ));
                    }
                }
                return Err(e);
            },
        };
        // Hand each downstream read its bytes back, in order.
        let ghost wv = relay_wrapped(self.i2c_addr, reqs);
        let ghost full = results@;
        let ghost dev_rx = dev.bus.received();
        let ghost pre_rx = old(dev).bus.received();
        let ghost s0 = old(dev).seqno;
        let mut out: Vec<Vec<u8>> = Vec::new();
        let mut idx: usize = 0;
        proof {
            assert(reqs.skip(0) =~= reqs);
            assert(reqs.take(0) =~= Seq::<I2CReqView>::empty());
            assert(relay_wrapped(self.i2c_addr, reqs.take(0)) =~= Seq::<I2CReqView>::empty());
            assert(wv =~= relay_wrapped(self.i2c_addr, reqs.take(0)) + relay_wrapped(
                self.i2c_addr,
                reqs.skip(0),
            ));
            assert(full =~= full.skip(0));
        }
        while idx < n
            invariant
                idx <= n,
                n == reqs.len(),
                reqs == requests.deep_view(),
                dev.wf(),
                session_preserved(*old(dev), *dev),
                relay_writes_valid(reqs),
                wv == relay_wrapped(self.i2c_addr, reqs),
                dev.bus.sent() == old(dev).bus.sent() + i2c_frames(self.bus, wv, s0),
                dev.seqno == seq_add(s0, wv.len() as int),
                dev.bus.received() == dev_rx,
                dev_rx.len() == pre_rx.len() + wv.len(),
                pre_rx == old(dev).bus.received(),
                s0 == old(dev).seqno,
                history_extends(pre_rx, dev_rx),
                out@.len() == idx,
                full.len() == wv.len(),
                wv == relay_wrapped(self.i2c_addr, reqs.take(idx as int)) + relay_wrapped(
                    self.i2c_addr,
                    reqs.skip(idx as int),
                ),
                results@ == full.skip(
                    relay_wrapped(self.i2c_addr, reqs.take(idx as int)).len() as int,
                ),
                forall|w: int|
                    0 <= w < wv.len() ==> (#[trigger] full[w])@.len() == (
                    if wv[w].is_read {
                        wv[w].data.len()
                    } else {
                        0
                    }),
                forall|w: int|
                    0 <= w < wv.len() && (#[trigger] wv[w]).is_read ==> full[w]@
                        == exchange_payload(
                        dev_rx[pre_rx.len() + w],
                        seq_add(s0, w),
                        wv[w].data.len(),
                    ) && check_response_spec(
                        dev_rx[pre_rx.len() + w],
                        seq_add(s0, w),
                        wv[w].data.len(),
                    ) is Ok,
                forall|i: int|
                    0 <= i < idx ==> #[trigger] out@[i]@.len() == (
                    if reqs[i].is_read {
                        reqs[i].data.len()
                    } else {
                        0
                    }),
                forall|i: int|
                    0 <= i < idx && (#[trigger] reqs[i]).is_read ==> out@[i]@
                        == exchange_payload(
                        dev_rx[pre_rx.len() + relay_slot(self.i2c_addr, reqs, i)],
                        seq_add(s0, relay_slot(self.i2c_addr, reqs, i)),
                        reqs[i].data.len(),
                    ) && check_response_spec(
                        dev_rx[pre_rx.len() + relay_slot(self.i2c_addr, reqs, i)],
                        seq_add(s0, relay_slot(self.i2c_addr, reqs, i)),
                        reqs[i].data.len(),
                    ) is Ok,
            decreases n - idx,
        {
            let ghost suffix = reqs.skip(idx as int);
            let ghost wsuf = relay_wrapped(self.i2c_addr, suffix);
            let ghost c = relay_wrapped(self.i2c_addr, reqs.take(idx as int)).len() as int;
            proof {
                assert(suffix.len() > 0);
                assert(wsuf == wrap_one(self.i2c_addr, suffix[0]) + relay_wrapped(
                    self.i2c_addr,
                    suffix.skip(1),
                ));
                assert(suffix[0] == reqs[idx as int]);
                assert(suffix.skip(1) =~= reqs.skip(idx + 1));
                lemma_relay_snoc(self.i2c_addr, reqs, idx as int);
            }
            let req = &requests[idx];
            match req.req {
                I2CRequestType::Read => {
                    proof {
                        // the slot's element of the batch is this read
                        assert(wv[c + 1] == wsuf[1]);
                        assert(wsuf[1].is_read);
                        assert(wsuf[1].data.len() == reqs[idx as int].data.len());
                        assert(relay_slot(self.i2c_addr, reqs, idx as int) == c + 1);
                    }
                    let _setup = results.remove(0);
                    let data = results.remove(0);
                    proof {
                        assert(full.skip(c).remove(0) =~= full.skip(c + 1));
                        assert(full.skip(c + 1).remove(0) =~= full.skip(c + 2));
                        assert(data == full.skip(c + 1)[0]);
                        assert(data@ == full[c + 1]@);
                        assert(data@ == exchange_payload(
                            dev_rx[pre_rx.len() + (c + 1)],
                            seq_add(s0, c + 1),
                            reqs[idx as int].data.len(),
                        ));
                        assert(results@ =~= full.skip(
                            relay_wrapped(self.i2c_addr, reqs.take(idx + 1)).len() as int,
                        ));
                        assert(wv =~= relay_wrapped(self.i2c_addr, reqs.take(idx + 1))
                            + relay_wrapped(self.i2c_addr, reqs.skip(idx + 1)));
                    }
                    out.push(data);
                },
                I2CRequestType::Write => {
                    let _ack = results.remove(0);
                    proof {
                        assert(full.skip(c).remove(0) =~= full.skip(c + 1));
                        assert(results@ =~= full.skip(
                            relay_wrapped(self.i2c_addr, reqs.take(idx + 1)).len() as int,
                        ));
                        assert(wv =~= relay_wrapped(self.i2c_addr, reqs.take(idx + 1))
                            + relay_wrapped(self.i2c_addr, reqs.skip(idx + 1)));
                    }
                    out.push(Vec::new());
                },
            }
            idx = idx + 1;
        }
        proof {
            assert(reqs.take(n as int) =~= reqs);
        }
        Ok(out)
    }
}

/// The hop-1 transactions of one direct demodulator register read:
/// select the register, then read `len` bytes back.
pub open spec fn demod_read_requests(addr: u8, reg: u8, len: int) -> Seq<I2CReqView> {
    seq![
        I2CReqView { addr, is_read: false, data: seq![reg] },
        I2CReqView { addr, is_read: true, data: Seq::new(len as nat, |q: int| 0u8) },
    ]
}

/// The hop-1 transaction of one direct demodulator register write:
/// `[reg, data..]` at the demodulator's own address.
pub open spec fn demod_write_requests(addr: u8, reg: u8, data: Seq<u8>) -> Seq<I2CReqView> {
    seq![I2CReqView { addr, is_read: false, data: seq![reg] + data }]
}

/// The frames of a list of direct register reads, two exchanges each.
pub open spec fn demod_multi_read_frames(
    bus: u8,
    addr: u8,
    regs: Seq<(u8, usize)>,
    seqno: u8,
) -> Seq<Seq<u8>>
    decreases regs.len(),
{
    if regs.len() == 0 {
        Seq::empty()
    } else {
        demod_multi_read_frames(bus, addr, regs.drop_last(), seqno) + i2c_frames(
            bus,
            demod_read_requests(addr, regs.last().0, regs.last().1 as int),
            seq_add(seqno, 2 * (regs.len() - 1)),
        )
    }
}

/// The frames of a list of direct register writes, one exchange each.
pub open spec fn demod_multi_write_frames(
    bus: u8,
    addr: u8,
    regs: Seq<(u8, Seq<u8>)>,
    seqno: u8,
) -> Seq<Seq<u8>>
    decreases regs.len(),
{
    if regs.len() == 0 {
        Seq::empty()
    } else {
        demod_multi_write_frames(bus, addr, regs.drop_last(), seqno) + i2c_frames(
            bus,
            demod_write_requests(addr, regs.last().0, regs.last().1),
            seq_add(seqno, regs.len() - 1),
        )
    }
}

impl TC90522 {
    /// Read `len` of the demodulator's own registers starting at `reg`:
    /// one hop-1 batch of a register-select write and a read, with no
    /// relay prefix — these are the bridge chip's direct registers.
    pub fn read_regs<B: BusOps>(&self, dev: &mut IT930x<B>, reg: u8, len: usize) -> (r: Result<
        Vec<u8>,
        CtrlMsgError,
    >)
        requires
            old(dev).wf(),
        ensures
            final(dev).wf(),
            session_preserved(*old(dev), *final(dev)),
            len == 0 ==> r == Err::<Vec<u8>, CtrlMsgError>(CtrlMsgError::InvalidLength) && final(dev).bus.sent() == old(dev).bus.sent() && final(dev).seqno == old(dev).seqno,
            r is Ok ==> ({
                &&& r->Ok_0@.len() == len
                &&& final(dev).bus.sent() == old(dev).bus.sent() + i2c_frames(
                    self.bus,
                    demod_read_requests(self.i2c_addr, reg, len as int),
                    old(dev).seqno,
                )
                &&& final(dev).seqno == seq_add(old(dev).seqno, 2)
                // the returned bytes are exactly the validated payload of
                // the read exchange's received transfer
                &&& final(dev).bus.received().len() == old(dev).bus.received().len() + 2
                &&& check_response_spec(
                    final(dev).bus.received().last(),
                    seq_add(old(dev).seqno, 1),
                    len as nat,
                ) is Ok
                &&& r->Ok_0@ == exchange_payload(
                    final(dev).bus.received().last(),
                    seq_add(old(dev).seqno, 1),
                    len as nat,
                )
            }),
            // on any outcome the traffic is an in-order prefix of the two
            // frames of the select-and-read batch
            frames_in_position(
                old(dev).bus.sent(),
                final(dev).bus.sent(),
                i2c_frames(
                    self.bus,
                    demod_read_requests(self.i2c_addr, reg, len as int),
                    old(dev).seqno,
                ),
            ),
            history_extends(old(dev).bus.sent(), final(dev).bus.sent()),
            history_extends(old(dev).bus.received(), final(dev).bus.received()),
    {
        if len == 0 {
            return Err(CtrlMsgError::InvalidLength);
        }
        let mut setup: Vec<u8> = Vec::new();
        setup.push(reg);
        assert(setup@ =~= seq![reg]);
        let mut requests: Vec<I2CCommRequest> = Vec::new();
        requests.push(I2CCommRequest::write(self.i2c_addr, setup));
        requests.push(I2CCommRequest::read(self.i2c_addr, len));
        proof {
            assert(requests.deep_view() =~= demod_read_requests(self.i2c_addr, reg, len as int));
        }
        let rr = dev.i2c_master_request(self.bus, &requests);
        let ghost rv = requests.deep_view();
        proof {
            crate::i2c::lemma_i2c_frames_len(self.bus, rv, old(dev).seqno);
            crate::i2c::lemma_i2c_frames_len(self.bus, rv.take(1), old(dev).seqno);
            crate::i2c::lemma_i2c_frames_len(self.bus, rv.take(2), old(dev).seqno);
            lemma_i2c_frames_snoc(self.bus, rv, old(dev).seqno, 0);
            lemma_i2c_frames_snoc(self.bus, rv, old(dev).seqno, 1);
            assert(rv.take(2) =~= rv);
        }
        let mut results = match rr {
            Ok(v) => v,
            Err(e) => {
                return Err(e);
            },
        };
        proof {
            assert(dev.bus.received().last() == dev.bus.received()[old(dev).bus.received().len() as int + 1]);
        }
        let data = results.remove(1);
        Ok(data)
    }

    /// Write the demodulator's own registers starting at `reg`: one
    /// direct hop-1 write carrying `[reg, data..]`.
    pub fn write_regs<B: BusOps>(&self, dev: &mut IT930x<B>, reg: u8, data: &[u8]) -> (r: Result<
        (),
        CtrlMsgError,
    >)
        requires
            old(dev).wf(),
        ensures
            final(dev).wf(),
            session_preserved(*old(dev), *final(dev)),
            data@.len() == 0 || data@.len() > 254 ==> r == Err::<(), CtrlMsgError>(
                CtrlMsgError::InvalidLength,
            ) && final(dev).bus.sent() == old(dev).bus.sent() && final(dev).seqno == old(dev).seqno,
            r is Ok ==> ({
                &&& final(dev).bus.sent() == old(dev).bus.sent() + i2c_frames(
                    self.bus,
                    demod_write_requests(self.i2c_addr, reg, data@),
                    old(dev).seqno,
                )
                &&& final(dev).seqno == seq_add(old(dev).seqno, 1)
            }),
            history_extends(old(dev).bus.sent(), final(dev).bus.sent()),
    {
        if data.len() == 0 || data.len() > 254 {
            return Err(CtrlMsgError::InvalidLength);
        }
        let mut wbuf: Vec<u8> = Vec::new();
        wbuf.push(reg);
        wbuf.extend_from_slice(data);
        assert(wbuf@ =~= seq![reg] + data@);
        let mut requests: Vec<I2CCommRequest> = Vec::new();
        requests.push(I2CCommRequest::write(self.i2c_addr, wbuf));
        proof {
            assert(requests.deep_view() =~= demod_write_requests(self.i2c_addr, reg, data@));
        }
        let rr = dev.i2c_master_request(self.bus, &requests);
        match rr {
            Ok(_) => Ok(()),
            Err(e) => Err(e),
        }
    }

    /// Read several demodulator register ranges, in order, each as its
    /// own select-and-read batch.
    #[verifier::rlimit(100)]
    pub fn read_multiple_regs<B: BusOps>(
        &self,
        dev: &mut IT930x<B>,
        regs: &Vec<(u8, usize)>,
    ) -> (r: Result<Vec<Vec<u8>>, CtrlMsgError>)
        requires
            old(dev).wf(),
        ensures
            final(dev).wf(),
            session_preserved(*old(dev), *final(dev)),
            r is Ok ==> ({
                &&& r->Ok_0@.len() == regs@.len()
                &&& forall|i: int|
                    0 <= i < regs@.len() ==> #[trigger] r->Ok_0@[i]@.len() == regs@[i].1
                &&& forall|i: int| 0 <= i < regs@.len() ==> (#[trigger] regs@[i]).1 > 0
                &&& final(dev).bus.sent() == old(dev).bus.sent() + demod_multi_read_frames(
                    self.bus,
                    self.i2c_addr,
                    regs@,
                    old(dev).seqno,
                )
                &&& final(dev).seqno == seq_add(old(dev).seqno, 2 * regs@.len() as int)
                &&& final(dev).bus.received().len() == old(dev).bus.received().len() + 2
                    * regs@.len()
                // each range's bytes are the validated payload of its own
                // read exchange's received transfer
                &&& forall|k: int|
                    0 <= k < regs@.len() ==> (#[trigger] r->Ok_0@[k])@ == exchange_payload(
                        final(dev).bus.received()[old(dev).bus.received().len() + 2 * k + 1],
                        seq_add(old(dev).seqno, 2 * k + 1),
                        regs@[k].1 as nat,
                    )
                &&& forall|k: int|
                    0 <= k < regs@.len() ==> check_response_spec(
                        #[trigger] final(dev).bus.received()[old(dev).bus.received().len() + 2
                            * k + 1],
                        seq_add(old(dev).seqno, 2 * k + 1),
                        regs@[k].1 as nat,
                    ) is Ok
            }),
            history_extends(old(dev).bus.sent(), final(dev).bus.sent()),
            history_extends(old(dev).bus.received(), final(dev).bus.received()),
    {
        let n = regs.len();
        let mut out: Vec<Vec<u8>> = Vec::new();
        let mut i: usize = 0;
        proof {
            assert(regs@.take(0) =~= Seq::<(u8, usize)>::empty());
            vstd::arithmetic::div_mod::lemma_small_mod(old(dev).seqno as nat, 256);
            assert(dev.bus.sent() =~= old(dev).bus.sent() + demod_multi_read_frames(
                self.bus,
                self.i2c_addr,
                regs@.take(0),
                old(dev).seqno,
            ));
        }
        while i < n
            invariant
                i <= n,
                n == regs@.len(),
                dev.wf(),
                session_preserved(*old(dev), *dev),
                out@.len() == i,
                history_extends(old(dev).bus.sent(), dev.bus.sent()),
                history_extends(old(dev).bus.received(), dev.bus.received()),
                dev.bus.sent() == old(dev).bus.sent() + demod_multi_read_frames(
                    self.bus,
                    self.i2c_addr,
                    regs@.take(i as int),
                    old(dev).seqno,
                ),
                dev.seqno == seq_add(old(dev).seqno, 2 * i as int),
                dev.bus.received().len() == old(dev).bus.received().len() + 2 * i,
                forall|k: int| 0 <= k < i ==> #[trigger] out@[k]@.len() == regs@[k].1,
                forall|k: int| 0 <= k < i ==> (#[trigger] regs@[k]).1 > 0,
                forall|k: int|
                    0 <= k < i ==> (#[trigger] out@[k])@ == exchange_payload(
                        dev.bus.received()[old(dev).bus.received().len() + 2 * k + 1],
                        seq_add(old(dev).seqno, 2 * k + 1),
                        regs@[k].1 as nat,
                    ) && check_response_spec(
                        dev.bus.received()[old(dev).bus.received().len() + 2 * k + 1],
                        seq_add(old(dev).seqno, 2 * k + 1),
                        regs@[k].1 as nat,
                    ) is Ok,
            decreases n - i,
        {
            let (reg, len) = (regs[i].0, regs[i].1);
            proof {
                assert(regs@.take(i + 1).drop_last() =~= regs@.take(i as int));
                assert(regs@.take(i + 1).last() == regs@[i as int]);
            }
            match self.read_regs(dev, reg, len) {
                Ok(v) => {
                    proof {
                        crate::i2c::lemma_seq_add_add(old(dev).seqno, 2 * i as int, 2);
                        crate::i2c::lemma_seq_add_add(old(dev).seqno, 2 * i as int, 1);
                        let pre = old(dev).bus.sent();
                        let a = demod_multi_read_frames(
                            self.bus,
                            self.i2c_addr,
                            regs@.take(i as int),
                            old(dev).seqno,
                        );
                        let b = i2c_frames(
                            self.bus,
                            demod_read_requests(self.i2c_addr, regs@[i as int].0, regs@[i as int].1 as int),
                            seq_add(old(dev).seqno, 2 * i as int),
                        );
                        assert((pre + a) + b =~= pre + (a + b));
                        assert(dev.bus.received().last() == dev.bus.received()[old(dev).bus.received().len() as int + 2 * i + 1]);
                    }
                    let ghost prev_out = out@;
                    let ghost prev_rx = dev.bus.received();
                    out.push(v);
                    proof {
                        let base = old(dev).bus.received().len() as int;
                        let s0 = old(dev).seqno;
                        assert(out@ == prev_out.push(v));
                        assert forall|k: int| 0 <= k < i + 1 implies #[trigger] out@[k]@.len()
                            == regs@[k].1 by {
                            if k < i {
                                assert(out@[k] == prev_out[k]);
                            } else {
                                assert(out@[k] == v);
                            }
                        }
                        assert forall|k: int| 0 <= k < i + 1 implies (#[trigger] out@[k])@
                            == exchange_payload(
                            dev.bus.received()[base + 2 * k + 1],
                            seq_add(s0, 2 * k + 1),
                            regs@[k].1 as nat,
                        ) && check_response_spec(
                            dev.bus.received()[base + 2 * k + 1],
                            seq_add(s0, 2 * k + 1),
                            regs@[k].1 as nat,
                        ) is Ok by {
                            if k < i {
                                assert(out@[k] == prev_out[k]);
                                assert(dev.bus.received()[base + 2 * k + 1] == prev_rx[base + 2
                                    * k + 1]);
                            } else {
                                assert(out@[k] == v);
                            }
                        }
                    }
                },
                Err(e) => {
                    return Err(e);
                },
            }
            i = i + 1;
        }
        proof {
            assert(regs@.take(n as int) =~= regs@);
            assert forall|k: int| 0 <= k < regs@.len() implies (#[trigger] out@[k])@
                == exchange_payload(
                dev.bus.received()[old(dev).bus.received().len() + 2 * k + 1],
                seq_add(old(dev).seqno, 2 * k + 1),
                regs@[k].1 as nat,
            ) && check_response_spec(
                dev.bus.received()[old(dev).bus.received().len() + 2 * k + 1],
                seq_add(old(dev).seqno, 2 * k + 1),
                regs@[k].1 as nat,
            ) is Ok by {
                assert(0 <= k < n);
            }
            assert forall|k: int|
                0 <= k < regs@.len() implies check_response_spec(
                #[trigger] dev.bus.received()[old(dev).bus.received().len() + 2 * k + 1],
                seq_add(old(dev).seqno, 2 * k + 1),
                regs@[k].1 as nat,
            ) is Ok by {
                assert(out@[k]@.len() == regs@[k].1);
            }
        }
        Ok(out)
    }

    /// Write several demodulator register ranges, in order, each as its
    /// own hop-1 write.
    pub fn write_multiple_regs<B: BusOps>(
        &self,
        dev: &mut IT930x<B>,
        regs: &Vec<(u8, Vec<u8>)>,
    ) -> (r: Result<(), CtrlMsgError>)
        requires
            old(dev).wf(),
        ensures
            final(dev).wf(),
            session_preserved(*old(dev), *final(dev)),
            r is Ok ==> ({
                &&& forall|i: int|
                    0 <= i < regs@.len() ==> 1 <= (#[trigger] regs@[i]).1@.len() <= 254
                &&& final(dev).bus.sent() == old(dev).bus.sent() + demod_multi_write_frames(
                    self.bus,
                    self.i2c_addr,
                    regs@.map_values(|t: (u8, Vec<u8>)| (t.0, t.1@)),
                    old(dev).seqno,
                )
                &&& final(dev).seqno == seq_add(old(dev).seqno, regs@.len() as int)
            }),
            history_extends(old(dev).bus.sent(), final(dev).bus.sent()),
    {
        let ghost rv = regs@.map_values(|t: (u8, Vec<u8>)| (t.0, t.1@));
        let n = regs.len();
        let mut i: usize = 0;
        proof {
            assert(rv.take(0) =~= Seq::<(u8, Seq<u8>)>::empty());
            vstd::arithmetic::div_mod::lemma_small_mod(old(dev).seqno as nat, 256);
            assert(dev.bus.sent() =~= old(dev).bus.sent() + demod_multi_write_frames(
                self.bus,
                self.i2c_addr,
                rv.take(0),
                old(dev).seqno,
            ));
        }
        while i < n
            invariant
                i <= n,
                n == regs@.len(),
                rv == regs@.map_values(|t: (u8, Vec<u8>)| (t.0, t.1@)),
                dev.wf(),
                session_preserved(*old(dev), *dev),
                history_extends(old(dev).bus.sent(), dev.bus.sent()),
                dev.bus.sent() == old(dev).bus.sent() + demod_multi_write_frames(
                    self.bus,
                    self.i2c_addr,
                    rv.take(i as int),
                    old(dev).seqno,
                ),
                dev.seqno == seq_add(old(dev).seqno, i as int),
                forall|k: int| 0 <= k < i ==> 1 <= (#[trigger] rv[k]).1.len() <= 254,
            decreases n - i,
        {
            let reg = regs[i].0;
            let data = &regs[i].1;
            proof {
                assert(rv.take(i + 1).drop_last() =~= rv.take(i as int));
                assert(rv.take(i + 1).last() == rv[i as int]);
                assert(rv[i as int] == (regs@[i as int].0, regs@[i as int].1@));
            }
            match self.write_regs(dev, reg, data.as_slice()) {
                Ok(_) => {
                    proof {
                        crate::i2c::lemma_seq_add_add(old(dev).seqno, i as int, 1);
                        let pre = old(dev).bus.sent();
                        let a = demod_multi_write_frames(
                            self.bus,
                            self.i2c_addr,
                            rv.take(i as int),
                            old(dev).seqno,
                        );
                        let b = i2c_frames(
                            self.bus,
                            demod_write_requests(self.i2c_addr, rv[i as int].0, rv[i as int].1),
                            seq_add(old(dev).seqno, i as int),
                        );
                        assert((pre + a) + b =~= pre + (a + b));
                    }
                },
                Err(e) => {
                    return Err(e);
                },
            }
            i = i + 1;
        }
        proof {
            assert(rv.take(n as int) =~= rv);
            assert forall|k: int| 0 <= k < regs@.len() implies 1 <= (#[trigger] regs@[k]).1@.len()
                <= 254 by {
                assert(rv[k] == (regs@[k].0, regs@[k].1@));
            }
        }
        Ok(())
    }
}

} // verus!
