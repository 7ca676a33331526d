//! The device session and the control-message codec.
//!
//! An [`IT930x`] owns the bus transport, the 8-bit sequence counter and the
//! GPIO pin-state cache.  `ctrl_msg` performs one full request/response
//! round trip; its contract pins down the frame that goes out, how the
//! sequence counter moves, and — for every possible device answer — exactly
//! which result comes back.

use vstd::prelude::*;
use crate::bus::BusOps;
use crate::errors::CtrlMsgError;
use crate::frame::{
    check_response, check_response_spec, encode_request, frame_spec, response_matches,
    MAX_CTRL_PAYLOAD,
};

verus! {

/// Direction and mode of one GPIO pin.
#[derive(Debug, Clone, Copy, PartialEq, Eq, Structural)]
pub enum GpioMode {
    In,
    Out,
}

/// Cached state of one GPIO pin.
#[derive(Debug, Clone, Copy, PartialEq, Eq, Structural)]
pub struct GpioStatus {
    pub mode: GpioMode,
    pub enable: bool,
}

impl Default for GpioStatus {
    /// A pin starts out as an input, disabled.
    fn default() -> (r: GpioStatus)
        ensures
            r == (GpioStatus { mode: GpioMode::In, enable: false }),
    {
        GpioStatus { mode: GpioMode::In, enable: false }
    }
}

/// One transport-stream input port of the bridge chip.
#[derive(Debug, Clone, Copy, PartialEq, Eq, Structural)]
pub struct StreamInput {
    pub enable: bool,
    pub is_parallel: bool,
    pub port_number: u8,
    pub slave_number: u8,
    pub i2c_bus: u8,
    pub i2c_addr: u8,
    pub packet_len: u8,
    pub sync_byte: u8,
}

/// Static configuration of one bridge chip.
pub struct IT930xConfig {
    pub i2c_speed: u8,
    pub xfer_size: u32,
    pub inputs: Vec<StreamInput>,
}

impl IT930xConfig {
    /// The configuration is usable: exactly five stream inputs.
    pub open spec fn wf(&self) -> bool {
        self.inputs@.len() == 5
    }

    pub open spec fn eq_spec(&self, other: &IT930xConfig) -> bool {
        &&& self.i2c_speed == other.i2c_speed
        &&& self.xfer_size == other.xfer_size
        &&& self.inputs@ == other.inputs@
    }
}

/// The stock stream-input table: four enabled serial inputs on I2C bus 2
/// and one disabled spare.
pub open spec fn stock_stream_inputs() -> Seq<StreamInput> {
    seq![
        StreamInput {
            enable: true,
            is_parallel: false,
            port_number: 1,
            slave_number: 0,
            i2c_bus: 2,
            i2c_addr: 0x11,
            packet_len: 188,
            sync_byte: 0x17,
        },
        StreamInput {
            enable: true,
            is_parallel: false,
            port_number: 2,
            slave_number: 1,
            i2c_bus: 2,
            i2c_addr: 0x13,
            packet_len: 188,
            sync_byte: 0x27,
        },
        StreamInput {
            enable: true,
            is_parallel: false,
            port_number: 3,
            slave_number: 2,
            i2c_bus: 2,
            i2c_addr: 0x10,
            packet_len: 188,
            sync_byte: 0x37,
        },
        StreamInput {
            enable: true,
            is_parallel: false,
            port_number: 4,
            slave_number: 3,
            i2c_bus: 2,
            i2c_addr: 0x12,
            packet_len: 188,
            sync_byte: 0x47,
        },
        StreamInput {
            enable: false,
            is_parallel: false,
            port_number: 0,
            slave_number: 0,
            i2c_bus: 0,
            i2c_addr: 0,
            packet_len: 0,
            sync_byte: 0,
        },
    ]
}

impl Default for IT930xConfig {
    /// Stock four-tuner configuration: four enabled serial inputs on I2C
    /// bus 2 and one disabled spare.
    fn default() -> (r: IT930xConfig)
        ensures
            r.wf(),
            r.i2c_speed == 0x07,
            r.xfer_size == 188 * 816,
            r.inputs@ == stock_stream_inputs(),
            r.inputs@[0] == (StreamInput {
                enable: true,
                is_parallel: false,
                port_number: 1,
                slave_number: 0,
                i2c_bus: 2,
                i2c_addr: 0x11,
                packet_len: 188,
                sync_byte: 0x17,
            }),
            r.inputs@[1] == (StreamInput {
                enable: true,
                is_parallel: false,
                port_number: 2,
                slave_number: 1,
                i2c_bus: 2,
                i2c_addr: 0x13,
                packet_len: 188,
                sync_byte: 0x27,
            }),
            r.inputs@[2] == (StreamInput {
                enable: true,
                is_parallel: false,
                port_number: 3,
                slave_number: 2,
                i2c_bus: 2,
                i2c_addr: 0x10,
                packet_len: 188,
                sync_byte: 0x37,
            }),
            r.inputs@[3] == (StreamInput {
                enable: true,
                is_parallel: false,
                port_number: 4,
                slave_number: 3,
                i2c_bus: 2,
                i2c_addr: 0x12,
                packet_len: 188,
                sync_byte: 0x47,
            }),
            r.inputs@[4] == (StreamInput {
                enable: false,
                is_parallel: false,
                port_number: 0,
                slave_number: 0,
                i2c_bus: 0,
                i2c_addr: 0,
                packet_len: 0,
                sync_byte: 0,
            }),
    {
        let mut inputs: Vec<StreamInput> = Vec::new();
        inputs.push(
            StreamInput {
                enable: true,
                is_parallel: false,
                port_number: 1,
                slave_number: 0,
                i2c_bus: 2,
                i2c_addr: 0x11,
                packet_len: 188,
                sync_byte: 0x17,
            },
        );
        inputs.push(
            StreamInput {
                enable: true,
                is_parallel: false,
                port_number: 2,
                slave_number: 1,
                i2c_bus: 2,
                i2c_addr: 0x13,
                packet_len: 188,
                sync_byte: 0x27,
            },
        );
        inputs.push(
            StreamInput {
                enable: true,
                is_parallel: false,
                port_number: 3,
                slave_number: 2,
                i2c_bus: 2,
                i2c_addr: 0x10,
                packet_len: 188,
                sync_byte: 0x37,
            },
        );
        inputs.push(
            StreamInput {
                enable: true,
                is_parallel: false,
                port_number: 4,
                slave_number: 3,
                i2c_bus: 2,
                i2c_addr: 0x12,
                packet_len: 188,
                sync_byte: 0x47,
            },
        );
        inputs.push(
            StreamInput {
                enable: false,
                is_parallel: false,
                port_number: 0,
                slave_number: 0,
                i2c_bus: 0,
                i2c_addr: 0,
                packet_len: 0,
                sync_byte: 0,
            },
        );
        assert(inputs@ =~= stock_stream_inputs());
        IT930xConfig { i2c_speed: 0x07, xfer_size: 188 * 816, inputs }
    }
}

/// One bridge-chip session: bus handle, sequence counter, configuration and
/// the 16-entry GPIO pin-state cache.
pub struct IT930x<B: BusOps> {
    pub bus: B,
    pub seqno: u8,
    pub config: IT930xConfig,
    pub gpio: Vec<GpioStatus>,
}

/// Successor of the sequence counter: plus one, wrapping mod 256.
pub open spec fn seq_succ(s: u8) -> u8 {
    ((s + 1) % 256) as u8
}

/// The sequence counter after `n` further exchanges.
pub open spec fn seq_add(s: u8, n: int) -> u8 {
    ((s + n) % 256) as u8
}

/// Advancing one call at a time is the same as advancing by the call count:
/// after `n` exchanges each stepping the counter once mod 256, the counter
/// reads `(start + n) mod 256`.
pub proof fn lemma_seq_progression(s: u8, n: int)
    requires
        n >= 0,
    ensures
        seq_add(s, n + 1) == seq_succ(seq_add(s, n)),
{
    let m = 256;
    vstd::arithmetic::div_mod::lemma_mod_pos_bound(s + n, m);
    vstd::arithmetic::div_mod::lemma_add_mod_noop(s + n, 1, m);
    vstd::arithmetic::div_mod::lemma_mod_twice(s + n, m);
    vstd::arithmetic::div_mod::lemma_small_mod(1, m as nat);
}

/// A bus history only ever grows: `post` carries `pre` unchanged as its
/// prefix.  Used for both the sent and the received history.
pub open spec fn history_extends(pre: Seq<Seq<u8>>, post: Seq<Seq<u8>>) -> bool {
    &&& post.len() >= pre.len()
    &&& forall|i: int| 0 <= i < pre.len() ==> post[i] == pre[i]
}

/// Whatever was appended to `post` beyond `pre` sits, frame for frame, at
/// its position in the `expect` schedule, and nothing beyond the schedule
/// was sent.
pub open spec fn frames_in_position(
    pre: Seq<Seq<u8>>,
    post: Seq<Seq<u8>>,
    expect: Seq<Seq<u8>>,
) -> bool {
    &&& pre.len() <= post.len() <= pre.len() + expect.len()
    &&& forall|k: int| 0 <= k < post.len() - pre.len() ==> post[pre.len() + k] == expect[k]
}

/// Everything of the session except the bus history and the sequence
/// counter is untouched.
pub open spec fn session_preserved<B: BusOps>(pre: IT930x<B>, post: IT930x<B>) -> bool {
    &&& post.gpio@ == pre.gpio@
    &&& post.config.eq_spec(&pre.config)
    &&& post.bus.max_bulk_spec() == pre.bus.max_bulk_spec()
}

/// Bus traffic and result of one control exchange with request `cmd` /
/// `wdata` sent under sequence number `seqno`, asking for `want` response
/// payload bytes.
///
/// Either the exchange failed at the transport (a `Bus` error, with the
/// request frame sent or not and nothing received), or the frame went out,
/// exactly one transfer of at most 256 bytes was received, and the result
/// is exactly what response validation prescribes for those bytes.
pub open spec fn exchange_result(
    pre_sent: Seq<Seq<u8>>,
    post_sent: Seq<Seq<u8>>,
    pre_rx: Seq<Seq<u8>>,
    post_rx: Seq<Seq<u8>>,
    cmd: u16,
    seqno: u8,
    wdata: Seq<u8>,
    want: nat,
    r: Result<Vec<u8>, CtrlMsgError>,
) -> bool {
    let frame = frame_spec(cmd, seqno, wdata);
    ||| {
        &&& r matches Err(CtrlMsgError::Bus(_))
        &&& (post_sent == pre_sent || post_sent == pre_sent.push(frame))
        &&& post_rx == pre_rx
    }
    ||| {
        &&& post_sent == pre_sent.push(frame)
        &&& post_rx.len() == pre_rx.len() + 1
        &&& post_rx == pre_rx.push(post_rx.last())
        &&& post_rx.last().len() <= 256
        &&& response_matches(r, post_rx.last(), seqno, want)
    }
}

/// One complete exchange of `frame`: it went out and exactly one transfer
/// of at most 256 bytes came back.
pub open spec fn single_exchange(
    pre_sent: Seq<Seq<u8>>,
    post_sent: Seq<Seq<u8>>,
    pre_rx: Seq<Seq<u8>>,
    post_rx: Seq<Seq<u8>>,
    frame: Seq<u8>,
) -> bool {
    &&& post_sent == pre_sent.push(frame)
    &&& post_rx.len() == pre_rx.len() + 1
    &&& post_rx == pre_rx.push(post_rx.last())
    &&& post_rx.last().len() <= 256
}

/// As `exchange_result`, for callers that drop the response payload.
pub open spec fn exchange_result_unit(
    pre_sent: Seq<Seq<u8>>,
    post_sent: Seq<Seq<u8>>,
    pre_rx: Seq<Seq<u8>>,
    post_rx: Seq<Seq<u8>>,
    cmd: u16,
    seqno: u8,
    wdata: Seq<u8>,
    r: Result<(), CtrlMsgError>,
) -> bool {
    let frame = frame_spec(cmd, seqno, wdata);
    ||| {
        &&& r matches Err(CtrlMsgError::Bus(_))
        &&& (post_sent == pre_sent || post_sent == pre_sent.push(frame))
        &&& post_rx == pre_rx
    }
    ||| {
        &&& post_sent == pre_sent.push(frame)
        &&& post_rx.len() == pre_rx.len() + 1
        &&& post_rx == pre_rx.push(post_rx.last())
        &&& post_rx.last().len() <= 256
        &&& unit_response_matches(r, post_rx.last(), seqno)
    }
}

/// `r` mirrors response validation with the payload dropped.
pub open spec fn unit_response_matches(
    r: Result<(), CtrlMsgError>,
    resp: Seq<u8>,
    seqno: u8,
) -> bool {
    match check_response_spec(resp, seqno, 0) {
        Ok(_) => r is Ok,
        Err(e) => r == Err::<(), CtrlMsgError>(e),
    }
}

impl<B: BusOps> IT930x<B> {
    /// The session is usable: one cache entry per GPIO pin and a complete
    /// configuration.
    pub open spec fn wf(&self) -> bool {
        &&& self.gpio@.len() == 16
        &&& self.config.wf()
    }

    /// A fresh session over `bus`: sequence counter at zero, stock
    /// configuration, all pins cached as input and disabled.
    pub fn new(bus: B) -> (r: IT930x<B>)
        ensures
            r.wf(),
            r.bus.sent() == bus.sent(),
            r.bus.received() == bus.received(),
            r.bus.max_bulk_spec() == bus.max_bulk_spec(),
            r.seqno == 0,
            r.config.i2c_speed == 0x07,
            r.config.xfer_size == 188 * 816,
            r.config.inputs@ == stock_stream_inputs(),
            forall|i: int|
                0 <= i < 16 ==> r.gpio@[i] == (GpioStatus { mode: GpioMode::In, enable: false }),
    {
        let mut gpio: Vec<GpioStatus> = Vec::new();
        let mut i: usize = 0;
        while i < 16
            invariant
                i <= 16,
                gpio@.len() == i,
                forall|j: int|
                    0 <= j < i ==> gpio@[j] == (GpioStatus {
                        mode: GpioMode::In,
                        enable: false,
                    }),
            decreases 16 - i,
        {
            gpio.push(GpioStatus { mode: GpioMode::In, enable: false });
            i = i + 1;
        }
        IT930x { bus, seqno: 0, config: Default::default(), gpio }
    }

    /// One control-message round trip: frame the request, send it, receive
    /// and validate the response, and return the first `read_len` payload
    /// bytes.
    ///
    /// The sequence counter steps once whatever happens.  An oversize
    /// payload is rejected before any bus I/O; otherwise exactly one
    /// request frame goes out and the result follows response validation.
    pub fn ctrl_msg(&mut self, cmd: u16, wdata: &[u8], read_len: usize) -> (r: Result<
        Vec<u8>,
        CtrlMsgError,
    >)
        requires
            old(self).wf(),
        ensures
            final(self).wf(),
            session_preserved(*old(self), *final(self)),
            final(self).seqno == seq_succ(old(self).seqno),
            wdata@.len() > MAX_CTRL_PAYLOAD ==> r == Err::<Vec<u8>, CtrlMsgError>(
                CtrlMsgError::InvalidLength,
            ) && final(self).bus.sent() == old(self).bus.sent() && final(self).bus.received()
                == old(self).bus.received(),
            wdata@.len() <= MAX_CTRL_PAYLOAD ==> exchange_result(
                old(self).bus.sent(),
                final(self).bus.sent(),
                old(self).bus.received(),
                final(self).bus.received(),
                cmd,
                old(self).seqno,
                wdata@,
                read_len as nat,
                r,
            ),
            history_extends(old(self).bus.sent(), final(self).bus.sent()),
            history_extends(old(self).bus.received(), final(self).bus.received()),
            r is Ok ==> r->Ok_0@.len() == read_len,
    {
        let seqno = self.seqno;
        self.seqno = if seqno == 255 {
            0
        } else {
            seqno + 1
        };
        if wdata.len() > MAX_CTRL_PAYLOAD {
            return Err(CtrlMsgError::InvalidLength);
        }
        let tx = encode_request(cmd, seqno, wdata);
        match self.bus.ctrl_tx(tx.as_slice()) {
            Ok(_) => {},
            Err(e) => {
                return Err(CtrlMsgError::Bus(e));
            },
        }
        let rx = match self.bus.ctrl_rx(256) {
            Ok(v) => v,
            Err(e) => {
                return Err(CtrlMsgError::Bus(e));
            },
        };
        let r = check_response(rx.as_slice(), seqno, read_len);
        proof {
            assert(response_matches(r, rx@, seqno, read_len as nat));
        }
        r
    }
}

} // verus!
