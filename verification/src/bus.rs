//! Bus transport capability surface.
//!
//! [`BusOps`] is the narrow contract the protocol stack is verified against:
//! a control-transfer send and receive, bulk stream receive, streaming
//! start/stop and the maximum bulk transfer size.  Its ghost state is the
//! pair of histories — control frames sent, control transfers received — on
//! which the layers above state exactly which bus traffic an operation
//! produces and how its decisions follow from the bytes that actually came
//! back.  [`SimBus`] is a verified scripted transport for driving the stack
//! without hardware.

use vstd::prelude::*;
use crate::errors::BusError;

verus! {

/// Minimal bus transport contract.
///
/// `sent()` abstracts the ordered history of control frames pushed to the
/// device, `received()` the ordered history of control transfers handed
/// back, and `max_bulk_spec()` the (fixed) maximum bulk transfer size.  A
/// successful `ctrl_tx` appends exactly its buffer to the sent history and
/// a failed one sends nothing; a successful `ctrl_rx` appends exactly what
/// it returns to the received history.  Received bytes themselves are
/// device-controlled and carry no promise beyond their length bound, but
/// recording them lets the layers above tie their decisions to the bytes
/// actually observed.
pub trait BusOps: Sized {
    /// Ordered history of control frames sent so far.  An implementation
    /// overrides this with its own model of what went out.
    open spec fn sent(&self) -> Seq<Seq<u8>> {
        Seq::empty()
    }

    /// Ordered history of control transfers received so far.  An
    /// implementation overrides this with its own model of what came in.
    open spec fn received(&self) -> Seq<Seq<u8>> {
        Seq::empty()
    }

    /// Maximum size of one bulk transfer, a fixed property of the link.
    open spec fn max_bulk_spec(&self) -> u32 {
        512
    }

    /// Send one control transfer.
    fn ctrl_tx(&mut self, buf: &[u8]) -> (r: Result<(), BusError>)
        ensures
            r is Ok ==> final(self).sent() == old(self).sent().push(buf@),
            r is Err ==> final(self).sent() == old(self).sent(),
            final(self).received() == old(self).received(),
            final(self).max_bulk_spec() == old(self).max_bulk_spec(),
    ;

    /// Receive one control transfer of at most `max_len` bytes.
    fn ctrl_rx(&mut self, max_len: usize) -> (r: Result<Vec<u8>, BusError>)
        ensures
            final(self).sent() == old(self).sent(),
            final(self).max_bulk_spec() == old(self).max_bulk_spec(),
            r is Ok ==> r->Ok_0@.len() <= max_len && final(self).received() == old(
                self,
            ).received().push(r->Ok_0@),
            r is Err ==> final(self).received() == old(self).received(),
    ;

    /// Receive at most `max_len` bytes from the bulk stream endpoint,
    /// waiting at most `timeout_millis`.
    fn stream_rx(&mut self, max_len: usize, timeout_millis: u64) -> (r: Result<Vec<u8>, BusError>)
        ensures
            final(self).sent() == old(self).sent(),
            final(self).received() == old(self).received(),
            final(self).max_bulk_spec() == old(self).max_bulk_spec(),
            r is Ok ==> r->Ok_0@.len() <= max_len,
    ;

    /// Start the bulk stream.
    fn start_streaming(&mut self) -> (r: Result<(), BusError>)
        ensures
            final(self).sent() == old(self).sent(),
            final(self).received() == old(self).received(),
            final(self).max_bulk_spec() == old(self).max_bulk_spec(),
    ;

    /// Stop the bulk stream.
    fn stop_streaming(&mut self) -> (r: Result<(), BusError>)
        ensures
            final(self).sent() == old(self).sent(),
            final(self).received() == old(self).received(),
            final(self).max_bulk_spec() == old(self).max_bulk_spec(),
    ;

    /// Maximum size of one bulk transfer.
    fn max_bulk_size(&self) -> (r: u32)
        ensures
            r == self.max_bulk_spec(),
    ;
}

/// Scripted transport: records every frame sent and answers each receive
/// with the next canned response.  It stands in for the USB link in tests
/// and is itself verified against the [`BusOps`] contract.
pub struct SimBus {
    /// Every control frame sent, in order.
    pub tx_log: Vec<Vec<u8>>,
    /// Every control transfer handed back, in order.
    pub rx_log: Vec<Vec<u8>>,
    /// Canned responses, handed out front to back.
    pub responses: Vec<Vec<u8>>,
    /// Index of the next canned response.
    pub next_resp: usize,
    /// Reported maximum bulk transfer size.
    pub max_bulk: u32,
}

impl SimBus {
    /// A scripted bus that will answer with `responses`, in order.
    pub fn new(responses: Vec<Vec<u8>>) -> (r: SimBus)
        ensures
            r.sent() == Seq::<Seq<u8>>::empty(),
            r.received() == Seq::<Seq<u8>>::empty(),
            r.responses@ == responses@,
            r.next_resp == 0,
            r.max_bulk_spec() == 512u32,
    {
        let r = SimBus {
            tx_log: Vec::new(),
            rx_log: Vec::new(),
            responses,
            next_resp: 0,
            max_bulk: 512,
        };
        proof {
            assert(r.tx_log@.map_values(|v: Vec<u8>| v@) =~= Seq::<Seq<u8>>::empty());
            assert(r.rx_log@.map_values(|v: Vec<u8>| v@) =~= Seq::<Seq<u8>>::empty());
        }
        r
    }

    /// Number of frames sent so far.
    pub fn sent_count(&self) -> (r: usize)
        ensures
            r == self.sent().len(),
    {
        self.tx_log.len()
    }

    /// A copy of sent frame `i`.
    pub fn sent_frame(&self, i: usize) -> (r: Vec<u8>)
        requires
            i < self.sent().len(),
        ensures
            r@ == self.sent()[i as int],
    {
        copy_bytes(&self.tx_log[i], self.tx_log[i].len())
    }
}

/// Copy of the first `n` bytes of `src`.
fn copy_bytes(src: &Vec<u8>, n: usize) -> (r: Vec<u8>)
    requires
        n <= src@.len(),
    ensures
        r@ == src@.take(n as int),
{
    let mut out: Vec<u8> = Vec::new();
    let mut i: usize = 0;
    while i < n
        invariant
            i <= n,
            n <= src@.len(),
            out@ == src@.take(i as int),
        decreases n - i,
    {
        out.push(src[i]);
        assert(out@ =~= src@.take(i + 1));
        i = i + 1;
    }
    out
}

impl BusOps for SimBus {
    open spec fn sent(&self) -> Seq<Seq<u8>> {
        self.tx_log@.map_values(|v: Vec<u8>| v@)
    }

    open spec fn received(&self) -> Seq<Seq<u8>> {
        self.rx_log@.map_values(|v: Vec<u8>| v@)
    }

    open spec fn max_bulk_spec(&self) -> u32 {
        self.max_bulk
    }

    fn ctrl_tx(&mut self, buf: &[u8]) -> (r: Result<(), BusError>) {
        let mut frame: Vec<u8> = Vec::new();
        frame.extend_from_slice(buf);
        assert(frame@ =~= buf@);
        self.tx_log.push(frame);
        proof {
            assert(self.tx_log@.map_values(|v: Vec<u8>| v@) =~= old(
                self,
            ).tx_log@.map_values(|v: Vec<u8>| v@).push(buf@));
        }
        Ok(())
    }

    fn ctrl_rx(&mut self, max_len: usize) -> (r: Result<Vec<u8>, BusError>) {
        if self.next_resp >= self.responses.len() {
            return Err(BusError::Timeout);
        }
        let resp = &self.responses[self.next_resp];
        let n = if resp.len() < max_len {
            resp.len()
        } else {
            max_len
        };
        let out = copy_bytes(resp, n);
        let kept = copy_bytes(&out, out.len());
        assert(kept@ =~= out@);
        self.next_resp = self.next_resp + 1;
        self.rx_log.push(kept);
        proof {
            assert(self.rx_log@.map_values(|v: Vec<u8>| v@) =~= old(
                self,
            ).rx_log@.map_values(|v: Vec<u8>| v@).push(out@));
        }
        Ok(out)
    }

    fn stream_rx(&mut self, max_len: usize, timeout_millis: u64) -> (r: Result<
        Vec<u8>,
        BusError,
    >) {
        let _ = timeout_millis;
        let _ = max_len;
        Err(BusError::Timeout)
    }

    fn start_streaming(&mut self) -> (r: Result<(), BusError>) {
        Ok(())
    }

    fn stop_streaming(&mut self) -> (r: Result<(), BusError>) {
        Ok(())
    }

    fn max_bulk_size(&self) -> (r: u32) {
        self.max_bulk
    }
}

} // verus!
