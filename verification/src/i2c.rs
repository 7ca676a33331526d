//! Hop 1: the bridge chip's native I2C master.
//!
//! A batch of transactions executes strictly in submission order; each
//! transaction is one control exchange.  Exclusive use of the session
//! (`&mut self`) keeps a batch from interleaving with other I2C traffic.

use vstd::prelude::*;
use crate::bus::BusOps;
use crate::errors::CtrlMsgError;
use crate::frame::{
    check_response_spec, exchange_payload, frame_spec, IT930X_CMD_I2C_READ, IT930X_CMD_I2C_WRITE,
};
use crate::it930x::{history_extends, seq_add, seq_succ, session_preserved, IT930x};

verus! {

/// Largest I2C read per transaction.
pub const MAX_I2C_READ: usize = 251;

/// Largest I2C write per transaction.
pub const MAX_I2C_WRITE: usize = 247;

/// Direction of one I2C transaction.
#[derive(Debug, Clone, Copy, PartialEq, Eq, Structural)]
pub enum I2CRequestType {
    Read,
    Write,
}

/// One I2C transaction: 7-bit device address, direction, and buffer.  For
/// a write, `data` is what goes on the wire; for a read, its length is how
/// many bytes to read back.
pub struct I2CCommRequest {
    pub addr: u8,
    pub req: I2CRequestType,
    pub data: Vec<u8>,
}

/// Mathematical view of one I2C transaction.
pub struct I2CReqView {
    pub addr: u8,
    pub is_read: bool,
    pub data: Seq<u8>,
}

impl vstd::prelude::DeepView for I2CCommRequest {
    type V = I2CReqView;

    open spec fn deep_view(&self) -> I2CReqView {
        I2CReqView { addr: self.addr, is_read: self.req is Read, data: self.data@ }
    }
}

impl I2CCommRequest {
    /// A read transaction of `len` bytes from `addr`.
    pub fn read(addr: u8, len: usize) -> (r: I2CCommRequest)
        ensures
            r.deep_view() == (I2CReqView {
                addr,
                is_read: true,
                data: Seq::new(len as nat, |q: int| 0u8),
            }),
    {
        let mut data: Vec<u8> = Vec::new();
        let mut i: usize = 0;
        while i < len
            invariant
                i <= len,
                data@ == Seq::new(i as nat, |q: int| 0u8),
            decreases len - i,
        {
            data.push(0);
            assert(data@ =~= Seq::new((i + 1) as nat, |q: int| 0u8));
            i = i + 1;
        }
        I2CCommRequest { addr, req: I2CRequestType::Read, data }
    }

    /// A write transaction of `data` to `addr`.
    pub fn write(addr: u8, data: Vec<u8>) -> (r: I2CCommRequest)
        ensures
            r.deep_view() == (I2CReqView { addr, is_read: false, data: data@ }),
    {
        I2CCommRequest { addr, req: I2CRequestType::Write, data }
    }
}

/// The transaction's length is within what one control exchange carries.
pub open spec fn i2c_req_valid(r: I2CReqView) -> bool {
    if r.is_read {
        r.data.len() <= MAX_I2C_READ
    } else {
        r.data.len() <= MAX_I2C_WRITE
    }
}

/// The control frame one I2C transaction turns into: a read sends
/// `[count, bus, addr<<1]` under `I2C_READ`, a write sends
/// `[count, bus, addr<<1, data..]` under `I2C_WRITE`.
pub open spec fn i2c_frame(bus: u8, r: I2CReqView, seqno: u8) -> Seq<u8> {
    if r.is_read {
        frame_spec(IT930X_CMD_I2C_READ, seqno, seq![r.data.len() as u8, bus, r.addr << 1])
    } else {
        frame_spec(
            IT930X_CMD_I2C_WRITE,
            seqno,
            seq![r.data.len() as u8, bus, r.addr << 1] + r.data,
        )
    }
}

/// The control frames of a whole batch, in submission order, one sequence
/// number per transaction.
pub open spec fn i2c_frames(bus: u8, reqs: Seq<I2CReqView>, seqno: u8) -> Seq<Seq<u8>>
    decreases reqs.len(),
{
    if reqs.len() == 0 {
        Seq::empty()
    } else {
        seq![i2c_frame(bus, reqs[0], seqno)] + i2c_frames(bus, reqs.skip(1), seq_succ(seqno))
    }
}

/// A batch produces exactly one frame per transaction.
pub proof fn lemma_i2c_frames_len(bus: u8, reqs: Seq<I2CReqView>, s: u8)
    ensures
        i2c_frames(bus, reqs, s).len() == reqs.len(),
    decreases reqs.len(),
{
    if reqs.len() > 0 {
        lemma_i2c_frames_len(bus, reqs.skip(1), seq_succ(s));
    }
}

/// Extending a batch by its `k`-th transaction appends exactly that
/// transaction's frame, sent under the `k`-th sequence number.
pub proof fn lemma_i2c_frames_snoc(bus: u8, reqs: Seq<I2CReqView>, s0: u8, k: int)
    requires
        0 <= k < reqs.len(),
    ensures
        i2c_frames(bus, reqs.take(k + 1), s0) == i2c_frames(bus, reqs.take(k), s0).push(
            i2c_frame(bus, reqs[k], seq_add(s0, k)),
        ),
    decreases k,
{
    if k == 0 {
        assert(reqs.take(1) =~= seq![reqs[0]]);
        assert(reqs.take(0) =~= Seq::<I2CReqView>::empty());
        assert(seq_add(s0, 0) == s0) by {
            vstd::arithmetic::div_mod::lemma_small_mod(s0 as nat, 256);
        }
        let one = reqs.take(1);
        assert(one.len() == 1 && one[0] == reqs[0]);
        assert(one.skip(1) =~= Seq::<I2CReqView>::empty());
        assert(i2c_frames(bus, one.skip(1), seq_succ(s0)) =~= Seq::<Seq<u8>>::empty());
        assert(i2c_frames(bus, one, s0) =~= seq![i2c_frame(bus, reqs[0], s0)]);
        assert(i2c_frames(bus, reqs.take(0), s0) =~= Seq::<Seq<u8>>::empty());
        assert(i2c_frames(bus, reqs.take(1), s0) =~= i2c_frames(bus, reqs.take(0), s0).push(
            i2c_frame(bus, reqs[0], s0),
        ));
    } else {
        let tail = reqs.skip(1);
        lemma_i2c_frames_snoc(bus, tail, seq_succ(s0), k - 1);
        assert(reqs.take(k + 1).skip(1) =~= tail.take(k));
        assert(reqs.take(k).skip(1) =~= tail.take(k - 1));
        assert(reqs.take(k + 1)[0] == reqs[0]);
        assert(reqs.take(k)[0] == reqs[0]);
        assert(tail[k - 1] == reqs[k]);
        lemma_seq_add_succ(s0, k - 1);
        assert(i2c_frames(bus, reqs.take(k + 1), s0) =~= i2c_frames(bus, reqs.take(k), s0).push(
            i2c_frame(bus, reqs[k], seq_add(s0, k)),
        ));
    }
}

/// `seq_add(seq_succ(s), n) == seq_add(s, n + 1)` for any `n >= 0`.
pub proof fn lemma_seq_add_succ(s: u8, n: int)
    requires
        n >= 0,
    ensures
        seq_add(seq_succ(s), n) == seq_add(s, n + 1),
{
    vstd::arithmetic::div_mod::lemma_mod_pos_bound(s + 1, 256);
    vstd::arithmetic::div_mod::lemma_add_mod_noop(s + 1, n, 256);
    vstd::arithmetic::div_mod::lemma_mod_twice(s + 1, 256);
    assert(((s + 1) % 256 + n) % 256 == (s + 1 + n) % 256);
}

/// Advancing the counter twice in a row adds the step counts.
pub proof fn lemma_seq_add_add(s: u8, a: int, b: int)
    requires
        a >= 0,
        b >= 0,
    ensures
        seq_add(seq_add(s, a), b) == seq_add(s, a + b),
{
    vstd::arithmetic::div_mod::lemma_mod_pos_bound(s + a, 256);
    vstd::arithmetic::div_mod::lemma_add_mod_noop(s + a, b, 256);
    vstd::arithmetic::div_mod::lemma_mod_twice(s + a, 256);
    assert(((s + a) % 256 + b) % 256 == (s + a + b) % 256);
}

impl<B: BusOps> IT930x<B> {
    /// Run an ordered batch of I2C transactions on bus `bus_index`.
    ///
    /// On success the returned vector has one entry per transaction: the
    /// bytes read for a read, empty for a write; and the bus carried
    /// exactly the batch's frames in order.  On error, the completed
    /// prefix (plus at most the failing frame) is on the bus and whatever
    /// hardware side effects it had remain.
    #[verifier::rlimit(60)]
    pub fn i2c_master_request(&mut self, bus_index: u8, requests: &Vec<I2CCommRequest>) -> (r:
        Result<Vec<Vec<u8>>, CtrlMsgError>)
        requires
            old(self).wf(),
        ensures
            final(self).wf(),
            session_preserved(*old(self), *final(self)),
            r is Ok ==> ({
                let reqs = requests.deep_view();
                &&& r->Ok_0@.len() == reqs.len()
                &&& forall|i: int|
                    0 <= i < reqs.len() ==> #[trigger] r->Ok_0@[i]@.len() == (
                    if reqs[i].is_read {
                        reqs[i].data.len()
                    } else {
                        0
                    })
                &&& forall|i: int| 0 <= i < reqs.len() ==> i2c_req_valid(#[trigger] reqs[i])
                &&& final(self).bus.sent() == old(self).bus.sent() + i2c_frames(
                    bus_index,
                    reqs,
                    old(self).seqno,
                )
                &&& final(self).seqno == seq_add(old(self).seqno, reqs.len() as int)
                &&& final(self).bus.received().len() == old(self).bus.received().len()
                    + reqs.len()
                &&& forall|i: int|
                    0 <= i < reqs.len() && (#[trigger] reqs[i]).is_read ==> r->Ok_0@[i]@
                        == exchange_payload(
                        final(self).bus.received()[old(self).bus.received().len() + i],
                        seq_add(old(self).seqno, i),
                        reqs[i].data.len(),
                    ) && check_response_spec(
                        final(self).bus.received()[old(self).bus.received().len() + i],
                        seq_add(old(self).seqno, i),
                        reqs[i].data.len(),
                    ) is Ok
            }),
            r is Err ==> exists|j: int|
                0 <= j < requests.deep_view().len() && (forall|q: int|
                    0 <= q < j ==> i2c_req_valid(#[trigger] requests.deep_view()[q]))
                    && (final(self).bus.sent() == old(self).bus.sent() + #[trigger] i2c_frames(
                    bus_index,
                    requests.deep_view().take(j),
                    old(self).seqno,
                ) || final(self).bus.sent() == old(self).bus.sent() + i2c_frames(
                    bus_index,
                    requests.deep_view().take(j + 1),
                    old(self).seqno,
                )) && (final(self).seqno == seq_add(old(self).seqno, j) || final(self).seqno
                    == seq_add(old(self).seqno, j + 1)) && (!i2c_req_valid(
                    requests.deep_view()[j],
                ) ==> r == Err::<Vec<Vec<u8>>, CtrlMsgError>(CtrlMsgError::InvalidLength)
                    && final(self).bus.sent() == old(self).bus.sent() + i2c_frames(
                    bus_index,
                    requests.deep_view().take(j),
                    old(self).seqno,
                ) && final(self).seqno == seq_add(old(self).seqno, j)),
            history_extends(old(self).bus.sent(), final(self).bus.sent()),
            history_extends(old(self).bus.received(), final(self).bus.received()),
    {
        let ghost reqs = requests.deep_view();
        let ghost pre_sent = old(self).bus.sent();
        let ghost pre_rx = old(self).bus.received();
        let ghost pre_seq = old(self).seqno;
        let n = requests.len();
        let mut out: Vec<Vec<u8>> = Vec::new();
        let mut idx: usize = 0;
        proof {
            assert(reqs.take(0) =~= Seq::<I2CReqView>::empty());
            vstd::arithmetic::div_mod::lemma_small_mod(pre_seq as nat, 256);
            assert(self.bus.sent() =~= pre_sent + i2c_frames(bus_index, reqs.take(0), pre_seq));
        }
        while idx < n
            invariant
                self.wf(),
                session_preserved(*old(self), *self),
                idx <= n,
                n == reqs.len(),
                reqs == requests.deep_view(),
                out@.len() == idx,
                forall|i: int|
                    0 <= i < idx ==> #[trigger] out@[i]@.len() == (
                    if reqs[i].is_read {
                        reqs[i].data.len()
                    } else {
                        0
                    }),
                forall|i: int| 0 <= i < idx ==> i2c_req_valid(#[trigger] reqs[i]),
                self.bus.sent() == pre_sent + i2c_frames(bus_index, reqs.take(idx as int), pre_seq),
                self.seqno == seq_add(pre_seq, idx as int),
                self.bus.received().len() == pre_rx.len() + idx,
                history_extends(pre_rx, self.bus.received()),
                forall|i: int|
                    0 <= i < idx && (#[trigger] reqs[i]).is_read ==> out@[i]@ == exchange_payload(
                        self.bus.received()[pre_rx.len() + i],
                        seq_add(pre_seq, i),
                        reqs[i].data.len(),
                    ) && check_response_spec(
                        self.bus.received()[pre_rx.len() + i],
                        seq_add(pre_seq, i),
                        reqs[i].data.len(),
                    ) is Ok,
                pre_sent == old(self).bus.sent(),
                pre_rx == old(self).bus.received(),
                pre_seq == old(self).seqno,
            decreases n - idx,
        {
            let req = &requests[idx];
            let len = req.data.len();
            match req.req {
                I2CRequestType::Read => {
                    if len > MAX_I2C_READ {
                        proof {
                            let j = idx as int;
                            assert(self.bus.sent() == pre_sent + i2c_frames(
                                bus_index,
                                reqs.take(j),
                                pre_seq,
                            ) && self.seqno == seq_add(pre_seq, j));
                        }
                        return Err(CtrlMsgError::InvalidLength);
                    }
                    let mut buf: Vec<u8> = Vec::new();
                    buf.push(len as u8);
                    buf.push(bus_index);
                    buf.push(req.addr << 1);
                    assert(buf@ =~= seq![reqs[idx as int].data.len() as u8, bus_index, reqs[idx as int].addr << 1]);
                    let cr = self.ctrl_msg(IT930X_CMD_I2C_READ, buf.as_slice(), len);
                    proof {
                        lemma_i2c_frames_snoc(bus_index, reqs, pre_seq, idx as int);
                        lemma_seq_add_succ(pre_seq, idx as int);
                    }
                    proof {
                        let j = idx as int;
                        let mid = pre_sent + i2c_frames(bus_index, reqs.take(j), pre_seq);
                        let fr = i2c_frame(bus_index, reqs[j], seq_add(pre_seq, j));
                        assert(mid.push(fr) =~= pre_sent + i2c_frames(
                            bus_index,
                            reqs.take(j),
                            pre_seq,
                        ).push(fr));
                        assert(self.bus.sent() == mid || self.bus.sent() == mid.push(fr));
                    }
                    match cr {
                        Ok(data) => {
                            assert(self.bus.sent() == pre_sent + i2c_frames(
                                bus_index,
                                reqs.take(idx + 1),
                                pre_seq,
                            ));
                            out.push(data);
                        },
                        Err(e) => {
                            proof {
                                let j = idx as int;
                                if self.bus.sent() == pre_sent + i2c_frames(
                                    bus_index,
                                    reqs.take(j),
                                    pre_seq,
                                ) {
                                    assert(self.seqno == seq_add(pre_seq, j + 1));
                                } else {
                                    assert(self.bus.sent() == pre_sent + i2c_frames(
                                        bus_index,
                                        reqs.take(j + 1),
                                        pre_seq,
                                    ) && self.seqno == seq_add(pre_seq, j + 1));
                                }
                            }
                            return Err(e);
                        },
                    }
                },
                I2CRequestType::Write => {
                    if len > MAX_I2C_WRITE {
                        proof {
                            let j = idx as int;
                            assert(self.bus.sent() == pre_sent + i2c_frames(
                                bus_index,
                                reqs.take(j),
                                pre_seq,
                            ) && self.seqno == seq_add(pre_seq, j));
                        }
                        return Err(CtrlMsgError::InvalidLength);
                    }
                    let mut buf: Vec<u8> = Vec::new();
                    buf.push(len as u8);
                    buf.push(bus_index);
                    buf.push(req.addr << 1);
                    buf.extend_from_slice(req.data.as_slice());
                    assert(buf@ =~= seq![reqs[idx as int].data.len() as u8, bus_index, reqs[idx as int].addr << 1] + reqs[idx as int].data);
                    let cr = self.ctrl_msg(IT930X_CMD_I2C_WRITE, buf.as_slice(), 0);
                    proof {
                        lemma_i2c_frames_snoc(bus_index, reqs, pre_seq, idx as int);
                        lemma_seq_add_succ(pre_seq, idx as int);
                    }
                    proof {
                        let j = idx as int;
                        let mid = pre_sent + i2c_frames(bus_index, reqs.take(j), pre_seq);
                        let fr = i2c_frame(bus_index, reqs[j], seq_add(pre_seq, j));
                        assert(mid.push(fr) =~= pre_sent + i2c_frames(
                            bus_index,
                            reqs.take(j),
                            pre_seq,
                        ).push(fr));
                        assert(self.bus.sent() == mid || self.bus.sent() == mid.push(fr));
                    }
                    match cr {
                        Ok(_) => {
                            assert(self.bus.sent() == pre_sent + i2c_frames(
                                bus_index,
                                reqs.take(idx + 1),
                                pre_seq,
                            ));
                            out.push(Vec::new());
                        },
                        Err(e) => {
                            proof {
                                let j = idx as int;
                                if self.bus.sent() == pre_sent + i2c_frames(
                                    bus_index,
                                    reqs.take(j),
                                    pre_seq,
                                ) {
                                    assert(self.seqno == seq_add(pre_seq, j + 1));
                                } else {
                                    assert(self.bus.sent() == pre_sent + i2c_frames(
                                        bus_index,
                                        reqs.take(j + 1),
                                        pre_seq,
                                    ) && self.seqno == seq_add(pre_seq, j + 1));
                                }
                            }
                            return Err(e);
                        },
                    }
                },
            }
            idx = idx + 1;
        }
        proof {
            assert(reqs.take(n as int) =~= reqs);
        }
        Ok(out)
    }
}

} // verus!
