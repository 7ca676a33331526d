//! Warm initialisation of the bridge chip: I2C master setup, stream input
//! and output configuration, and the register programming they share.
//!
//! Each function's register schedule is stated as a sequence of
//! [`SchedStep`]s: a plain write pins its frame outright, while a masked
//! write's traffic branches on the byte it reads back, exactly as
//! `write_reg_mask` specifies.  `sched_runs` threads the bus state through
//! the whole schedule, so a successful run fixes every frame that went out
//! up to those read-back bytes.

use vstd::prelude::*;
use crate::bus::BusOps;
use crate::errors::CtrlMsgError;
use crate::frame::{check_response_spec, frame_spec, IT930X_CMD_REG_WRITE};
use crate::it930x::{history_extends, seq_add, seq_succ, session_preserved, IT930x, StreamInput};
use crate::regs::{reg_write_payload, write_reg_mask_post};

verus! {

/// The observable bus state a schedule step moves between: the two
/// histories and the sequence counter.
pub struct BusPoint {
    pub sent: Seq<Seq<u8>>,
    pub rx: Seq<Seq<u8>>,
    pub seqno: u8,
}

/// The observable bus state of a session.
pub open spec fn point_of<B: BusOps>(d: IT930x<B>) -> BusPoint {
    BusPoint { sent: d.bus.sent(), rx: d.bus.received(), seqno: d.seqno }
}

/// One step of a register schedule: a plain write of fixed bytes, or a
/// masked write whose traffic branches on the byte read back.
pub enum SchedStep {
    Plain(u32, Seq<u8>),
    Masked(u32, u8, u8),
}

/// One successful plain register write between two bus states.
pub open spec fn write_step(pre: BusPoint, post: BusPoint, reg: u32, data: Seq<u8>) -> bool {
    &&& post.sent == pre.sent.push(reg_write_frame(reg, data, pre.seqno))
    &&& post.rx.len() == pre.rx.len() + 1
    &&& post.rx == pre.rx.push(post.rx.last())
    &&& check_response_spec(post.rx.last(), pre.seqno, 0) is Ok
    &&& post.seqno == seq_succ(pre.seqno)
}

/// What one schedule step means: a plain write, or a whole successful
/// masked update with its read-back-dependent traffic.
pub open spec fn sched_step(pre: BusPoint, post: BusPoint, s: SchedStep) -> bool {
    match s {
        SchedStep::Plain(reg, data) => write_step(pre, post, reg, data),
        SchedStep::Masked(reg, val, mask) => write_reg_mask_post(
            pre.sent,
            post.sent,
            pre.rx,
            post.rx,
            pre.seqno,
            post.seqno,
            reg,
            val,
            mask,
            Ok(()),
        ),
    }
}

/// The whole schedule ran, step by step, from `pre` to `post`.
pub open spec fn sched_runs(steps: Seq<SchedStep>, pre: BusPoint, post: BusPoint) -> bool
    decreases steps.len(),
{
    if steps.len() == 0 {
        post == pre
    } else {
        exists|mid: BusPoint|
            #[trigger] sched_step(pre, mid, steps[0]) && sched_runs(steps.skip(1), mid, post)
    }
}

/// A single-step schedule runs exactly when its step does.
pub proof fn lemma_sched_runs_one(pre: BusPoint, post: BusPoint, s: SchedStep)
    requires
        sched_step(pre, post, s),
    ensures
        sched_runs(seq![s], pre, post),
{
    assert(seq![s].skip(1) =~= Seq::<SchedStep>::empty());
    assert(sched_runs(seq![s].skip(1), post, post));
    assert(seq![s][0] == s);
}

/// Schedules compose: running `a` then `b` runs their concatenation.
pub proof fn lemma_sched_runs_concat(
    a: Seq<SchedStep>,
    b: Seq<SchedStep>,
    pre: BusPoint,
    mid: BusPoint,
    post: BusPoint,
)
    requires
        sched_runs(a, pre, mid),
        sched_runs(b, mid, post),
    ensures
        sched_runs(a + b, pre, post),
    decreases a.len(),
{
    if a.len() == 0 {
        assert(a + b =~= b);
    } else {
        let m1 = choose|m: BusPoint|
            #[trigger] sched_step(pre, m, a[0]) && sched_runs(a.skip(1), m, mid);
        lemma_sched_runs_concat(a.skip(1), b, m1, mid, post);
        assert((a + b).skip(1) =~= a.skip(1) + b);
        assert((a + b)[0] == a[0]);
        assert(sched_step(pre, m1, (a + b)[0]));
    }
}

/// A write list as a schedule of plain steps.
pub open spec fn plain_steps(w: Seq<(u32, Seq<u8>)>) -> Seq<SchedStep> {
    w.map_values(|t: (u32, Seq<u8>)| SchedStep::Plain(t.0, t.1))
}

/// The two bytes of the transfer-size threshold register, low byte first.
pub open spec fn xfer_threshold_bytes(xfer: u32) -> Seq<u8> {
    let x = ((xfer / 4) & 0xffff) as u16;
    seq![(x & 0xff) as u8, ((x >> 8) & 0xff) as u8]
}

/// The register schedule of the inner stream-output programming.
pub open spec fn stream_output_inner_schedule(xfer: u32, maxbulk: u32) -> Seq<SchedStep> {
    seq![
        SchedStep::Masked(0xdd11, 0x00, 0x20),
        SchedStep::Masked(0xdd13, 0x00, 0x20),
        SchedStep::Masked(0xdd11, 0x20, 0x20),
        SchedStep::Plain(0xdd88, xfer_threshold_bytes(xfer)),
        SchedStep::Plain(0xdd0c, seq![((maxbulk / 4) & 0xff) as u8]),
        SchedStep::Masked(0xda05, 0x00, 0x01),
        SchedStep::Masked(0xda06, 0x00, 0x01),
    ]
}

/// The whole stream-output schedule: the hold bit raised, the inner
/// programming, the hold bit dropped, and the final gate write.
pub open spec fn config_stream_output_schedule(xfer: u32, maxbulk: u32) -> Seq<SchedStep> {
    seq![SchedStep::Masked(0xda1d, 0x01, 0x01)] + stream_output_inner_schedule(xfer, maxbulk)
        + seq![SchedStep::Masked(0xda1d, 0x00, 0x01), SchedStep::Plain(0xd920, seq![0u8])]
}

/// The complete register schedule of warm initialisation.
pub open spec fn init_warm_schedule(
    speed: u8,
    inputs: Seq<StreamInput>,
    xfer: u32,
    maxbulk: u32,
) -> Seq<SchedStep> {
    seq![
        SchedStep::Plain(0x4976, seq![0u8]),
        SchedStep::Plain(0x4bfb, seq![0u8]),
        SchedStep::Plain(0x4978, seq![0u8]),
        SchedStep::Plain(0x4977, seq![0u8]),
        SchedStep::Plain(0xda1a, seq![0u8]),
        SchedStep::Masked(0xf41f, 0x04, 0x04),
        SchedStep::Masked(0xda10, 0x00, 0x01),
        SchedStep::Masked(0xf41a, 0x01, 0x01),
    ] + config_stream_output_schedule(xfer, maxbulk) + seq![
        SchedStep::Plain(0xd833, seq![1u8]),
        SchedStep::Plain(0xd830, seq![0u8]),
        SchedStep::Plain(0xd831, seq![1u8]),
        SchedStep::Plain(0xd832, seq![0u8]),
    ] + plain_steps(config_i2c_writes(speed, inputs)) + plain_steps(
        config_stream_input_writes(inputs),
    )
}

/// The frame of one register write.
pub open spec fn reg_write_frame(reg: u32, data: Seq<u8>, seqno: u8) -> Seq<u8> {
    frame_spec(IT930X_CMD_REG_WRITE, seqno, reg_write_payload(reg, data))
}

/// The frames of a list of register writes, one sequence number each.
pub open spec fn write_frames(writes: Seq<(u32, Seq<u8>)>, seqno: u8) -> Seq<Seq<u8>>
    decreases writes.len(),
{
    if writes.len() == 0 {
        Seq::empty()
    } else {
        seq![reg_write_frame(writes[0].0, writes[0].1, seqno)] + write_frames(
            writes.skip(1),
            seq_succ(seqno),
        )
    }
}

/// View of an owned write list.
pub open spec fn writes_view(v: Seq<(u32, Vec<u8>)>) -> Seq<(u32, Seq<u8>)> {
    v.map_values(|t: (u32, Vec<u8>)| (t.0, t.1@))
}

/// Every write fits one register-write exchange.
pub open spec fn writes_valid(w: Seq<(u32, Seq<u8>)>) -> bool {
    forall|i: int| 0 <= i < w.len() ==> (#[trigger] w[i]).1.len() <= 244
}

/// Extending a write list appends exactly one more frame.
pub proof fn lemma_write_frames_snoc(writes: Seq<(u32, Seq<u8>)>, s0: u8, k: int)
    requires
        0 <= k < writes.len(),
    ensures
        write_frames(writes.take(k + 1), s0) == write_frames(writes.take(k), s0).push(
            reg_write_frame(writes[k].0, writes[k].1, seq_add(s0, k)),
        ),
    decreases k,
{
    if k == 0 {
        let one = writes.take(1);
        assert(one.len() == 1 && one[0] == writes[0]);
        assert(one.skip(1) =~= Seq::<(u32, Seq<u8>)>::empty());
        assert(write_frames(one.skip(1), seq_succ(s0)) =~= Seq::<Seq<u8>>::empty());
        assert(seq_add(s0, 0) == s0) by {
            vstd::arithmetic::div_mod::lemma_small_mod(s0 as nat, 256);
        }
        assert(writes.take(0) =~= Seq::<(u32, Seq<u8>)>::empty());
        assert(write_frames(writes.take(1), s0) =~= write_frames(writes.take(0), s0).push(
            reg_write_frame(writes[0].0, writes[0].1, s0),
        ));
    } else {
        let tail = writes.skip(1);
        lemma_write_frames_snoc(tail, seq_succ(s0), k - 1);
        assert(writes.take(k + 1).skip(1) =~= tail.take(k));
        assert(writes.take(k).skip(1) =~= tail.take(k - 1));
        assert(writes.take(k + 1)[0] == writes[0]);
        assert(writes.take(k)[0] == writes[0]);
        assert(tail[k - 1] == writes[k]);
        crate::i2c::lemma_seq_add_succ(s0, k - 1);
        assert(write_frames(writes.take(k + 1), s0) =~= write_frames(writes.take(k), s0).push(
            reg_write_frame(writes[k].0, writes[k].1, seq_add(s0, k)),
        ));
    }
}

/// I2C address/bus register pair of stream-input slave `sn`.
pub open spec fn i2c_pair_regs(sn: int) -> (u32, u32) {
    if sn == 0 {
        (0x4975, 0x4971)
    } else if sn == 1 {
        (0x4974, 0x4970)
    } else if sn == 2 {
        (0x4973, 0x496f)
    } else if sn == 3 {
        (0x4972, 0x496e)
    } else {
        (0x4964, 0x4963)
    }
}

/// Every enabled input names one of the five slave slots.
pub open spec fn slaves_valid(inputs: Seq<StreamInput>) -> bool {
    forall|i: int|
        0 <= i < inputs.len() && (#[trigger] inputs[i]).enable ==> inputs[i].slave_number < 5
}

/// The register writes that hook one enabled input's demodulator up to
/// the I2C master: its shifted address, then its bus index.
pub open spec fn input_i2c_writes(inp: StreamInput) -> Seq<(u32, Seq<u8>)> {
    if inp.enable {
        seq![
            (i2c_pair_regs(inp.slave_number as int).0, seq![inp.i2c_addr << 1]),
            (i2c_pair_regs(inp.slave_number as int).1, seq![inp.i2c_bus]),
        ]
    } else {
        Seq::empty()
    }
}

/// All register writes of `config_i2c`: both speed registers, then the
/// address/bus pair of every enabled input, in order.
pub open spec fn config_i2c_writes(speed: u8, inputs: Seq<StreamInput>) -> Seq<(u32, Seq<u8>)>
    decreases inputs.len(),
{
    if inputs.len() == 0 {
        seq![(0xf6a7u32, seq![speed]), (0xf103u32, seq![speed])]
    } else {
        config_i2c_writes(speed, inputs.drop_last()) + input_i2c_writes(inputs.last())
    }
}

/// The register writes that configure one stream input port.
pub open spec fn input_stream_writes(inp: StreamInput) -> Seq<(u32, Seq<u8>)> {
    let port = inp.port_number as u32;
    if !inp.enable {
        seq![((0xda4c + port) as u32, seq![0u8])]
    } else {
        let par: Seq<(u32, Seq<u8>)> = if inp.port_number < 2 {
            seq![
                ((0xda58 + port) as u32, seq![if inp.is_parallel { 1u8 } else { 0u8 }]),
            ]
        } else {
            Seq::empty()
        };
        par + seq![
            ((0xda73 + port) as u32, seq![1u8]),
            ((0xda78 + port) as u32, seq![inp.sync_byte]),
            ((0xda4c + port) as u32, seq![1u8]),
        ]
    }
}

/// All register writes of `config_stream_input`, in input order.
pub open spec fn config_stream_input_writes(inputs: Seq<StreamInput>) -> Seq<(u32, Seq<u8>)>
    decreases inputs.len(),
{
    if inputs.len() == 0 {
        Seq::empty()
    } else {
        config_stream_input_writes(inputs.drop_last()) + input_stream_writes(inputs.last())
    }
}


/// The head of the warm-init schedule: five gating writes and three
/// masked mode bits, chained step by step.
#[verifier::rlimit(100)]
#[verifier::spinoff_prover]
pub proof fn lemma_init_warm_head(
    h0: BusPoint,
    h1: BusPoint,
    h2: BusPoint,
    h3: BusPoint,
    h4: BusPoint,
    h5: BusPoint,
    h6: BusPoint,
    h7: BusPoint,
    h8: BusPoint,
)
    requires
        sched_step(h0, h1, SchedStep::Plain(0x4976, seq![0u8])),
        sched_step(h1, h2, SchedStep::Plain(0x4bfb, seq![0u8])),
        sched_step(h2, h3, SchedStep::Plain(0x4978, seq![0u8])),
        sched_step(h3, h4, SchedStep::Plain(0x4977, seq![0u8])),
        sched_step(h4, h5, SchedStep::Plain(0xda1a, seq![0u8])),
        sched_step(h5, h6, SchedStep::Masked(0xf41f, 0x04, 0x04)),
        sched_step(h6, h7, SchedStep::Masked(0xda10, 0x00, 0x01)),
        sched_step(h7, h8, SchedStep::Masked(0xf41a, 0x01, 0x01)),
    ensures
        sched_runs(
            seq![
                SchedStep::Plain(0x4976, seq![0u8]),
                SchedStep::Plain(0x4bfb, seq![0u8]),
                SchedStep::Plain(0x4978, seq![0u8]),
                SchedStep::Plain(0x4977, seq![0u8]),
                SchedStep::Plain(0xda1a, seq![0u8]),
                SchedStep::Masked(0xf41f, 0x04, 0x04),
                SchedStep::Masked(0xda10, 0x00, 0x01),
                SchedStep::Masked(0xf41a, 0x01, 0x01),
            ],
            h0,
            h8,
        ),
{
    let s0 = SchedStep::Plain(0x4976, seq![0u8]);
    let s1 = SchedStep::Plain(0x4bfb, seq![0u8]);
    let s2 = SchedStep::Plain(0x4978, seq![0u8]);
    let s3 = SchedStep::Plain(0x4977, seq![0u8]);
    let s4 = SchedStep::Plain(0xda1a, seq![0u8]);
    let s5 = SchedStep::Masked(0xf41f, 0x04, 0x04);
    let s6 = SchedStep::Masked(0xda10, 0x00, 0x01);
    let s7 = SchedStep::Masked(0xf41a, 0x01, 0x01);
    lemma_sched_runs_one(h7, h8, s7);
    lemma_sched_runs_one(h6, h7, s6);
    lemma_sched_runs_concat(seq![s6], seq![s7], h6, h7, h8);
    lemma_sched_runs_one(h5, h6, s5);
    lemma_sched_runs_concat(seq![s5], seq![s6] + seq![s7], h5, h6, h8);
    lemma_sched_runs_one(h4, h5, s4);
    lemma_sched_runs_concat(seq![s4], seq![s5] + (seq![s6] + seq![s7]), h4, h5, h8);
    lemma_sched_runs_one(h3, h4, s3);
    lemma_sched_runs_concat(seq![s3], seq![s4] + (seq![s5] + (seq![s6] + seq![s7])), h3, h4, h8);
    lemma_sched_runs_one(h2, h3, s2);
    lemma_sched_runs_concat(
        seq![s2],
        seq![s3] + (seq![s4] + (seq![s5] + (seq![s6] + seq![s7]))),
        h2,
        h3,
        h8,
    );
    lemma_sched_runs_one(h1, h2, s1);
    lemma_sched_runs_concat(
        seq![s1],
        seq![s2] + (seq![s3] + (seq![s4] + (seq![s5] + (seq![s6] + seq![s7])))),
        h1,
        h2,
        h8,
    );
    lemma_sched_runs_one(h0, h1, s0);
    let chain = seq![s1] + (seq![s2] + (seq![s3] + (seq![s4] + (seq![s5] + (seq![s6]
        + seq![s7])))));
    lemma_sched_runs_concat(seq![s0], chain, h0, h1, h8);
    assert(seq![s0] + chain =~= seq![s0, s1, s2, s3, s4, s5, s6, s7]);
}

/// The four power-configuration writes, chained step by step.
#[verifier::rlimit(100)]
#[verifier::spinoff_prover]
pub proof fn lemma_init_warm_power(
    h9: BusPoint,
    h10: BusPoint,
    h11: BusPoint,
    h12: BusPoint,
    h13: BusPoint,
)
    requires
        sched_step(h9, h10, SchedStep::Plain(0xd833, seq![1u8])),
        sched_step(h10, h11, SchedStep::Plain(0xd830, seq![0u8])),
        sched_step(h11, h12, SchedStep::Plain(0xd831, seq![1u8])),
        sched_step(h12, h13, SchedStep::Plain(0xd832, seq![0u8])),
    ensures
        sched_runs(
            seq![
                SchedStep::Plain(0xd833, seq![1u8]),
                SchedStep::Plain(0xd830, seq![0u8]),
                SchedStep::Plain(0xd831, seq![1u8]),
                SchedStep::Plain(0xd832, seq![0u8]),
            ],
            h9,
            h13,
        ),
{
    let p0 = SchedStep::Plain(0xd833, seq![1u8]);
    let p1 = SchedStep::Plain(0xd830, seq![0u8]);
    let p2 = SchedStep::Plain(0xd831, seq![1u8]);
    let p3 = SchedStep::Plain(0xd832, seq![0u8]);
    lemma_sched_runs_one(h12, h13, p3);
    lemma_sched_runs_one(h11, h12, p2);
    lemma_sched_runs_concat(seq![p2], seq![p3], h11, h12, h13);
    lemma_sched_runs_one(h10, h11, p1);
    lemma_sched_runs_concat(seq![p1], seq![p2] + seq![p3], h10, h11, h13);
    lemma_sched_runs_one(h9, h10, p0);
    lemma_sched_runs_concat(seq![p0], seq![p1] + (seq![p2] + seq![p3]), h9, h10, h13);
    assert(seq![p0] + (seq![p1] + (seq![p2] + seq![p3])) =~= seq![p0, p1, p2, p3]);
}

/// The five segments of warm init assemble into its whole schedule.
#[verifier::rlimit(100)]
#[verifier::spinoff_prover]
pub proof fn lemma_init_warm_assemble(
    h0: BusPoint,
    h8: BusPoint,
    h9: BusPoint,
    h13: BusPoint,
    h14: BusPoint,
    h15: BusPoint,
    speed: u8,
    inputs: Seq<StreamInput>,
    xfer: u32,
    maxbulk: u32,
)
    requires
        sched_runs(
            seq![
                SchedStep::Plain(0x4976, seq![0u8]),
                SchedStep::Plain(0x4bfb, seq![0u8]),
                SchedStep::Plain(0x4978, seq![0u8]),
                SchedStep::Plain(0x4977, seq![0u8]),
                SchedStep::Plain(0xda1a, seq![0u8]),
                SchedStep::Masked(0xf41f, 0x04, 0x04),
                SchedStep::Masked(0xda10, 0x00, 0x01),
                SchedStep::Masked(0xf41a, 0x01, 0x01),
            ],
            h0,
            h8,
        ),
        sched_runs(config_stream_output_schedule(xfer, maxbulk), h8, h9),
        sched_runs(
            seq![
                SchedStep::Plain(0xd833, seq![1u8]),
                SchedStep::Plain(0xd830, seq![0u8]),
                SchedStep::Plain(0xd831, seq![1u8]),
                SchedStep::Plain(0xd832, seq![0u8]),
            ],
            h9,
            h13,
        ),
        sched_runs(plain_steps(config_i2c_writes(speed, inputs)), h13, h14),
        sched_runs(plain_steps(config_stream_input_writes(inputs)), h14, h15),
    ensures
        sched_runs(init_warm_schedule(speed, inputs, xfer, maxbulk), h0, h15),
{
    let head = seq![
        SchedStep::Plain(0x4976, seq![0u8]),
        SchedStep::Plain(0x4bfb, seq![0u8]),
        SchedStep::Plain(0x4978, seq![0u8]),
        SchedStep::Plain(0x4977, seq![0u8]),
        SchedStep::Plain(0xda1a, seq![0u8]),
        SchedStep::Masked(0xf41f, 0x04, 0x04),
        SchedStep::Masked(0xda10, 0x00, 0x01),
        SchedStep::Masked(0xf41a, 0x01, 0x01),
    ];
    let cso = config_stream_output_schedule(xfer, maxbulk);
    let power = seq![
        SchedStep::Plain(0xd833, seq![1u8]),
        SchedStep::Plain(0xd830, seq![0u8]),
        SchedStep::Plain(0xd831, seq![1u8]),
        SchedStep::Plain(0xd832, seq![0u8]),
    ];
    let ci = plain_steps(config_i2c_writes(speed, inputs));
    let csi = plain_steps(config_stream_input_writes(inputs));
    lemma_sched_runs_concat(head, cso, h0, h8, h9);
    lemma_sched_runs_concat(head + cso, power, h0, h9, h13);
    lemma_sched_runs_concat(head + cso + power, ci, h0, h13, h14);
    lemma_sched_runs_concat(head + cso + power + ci, csi, h0, h14, h15);
}

impl<B: BusOps> IT930x<B> {
    /// Issue a list of register writes in order, one exchange each,
    /// stopping at the first failure.
    fn run_reg_writes(&mut self, writes: &Vec<(u32, Vec<u8>)>) -> (r: Result<(), CtrlMsgError>)
        requires
            old(self).wf(),
            writes_valid(writes_view(writes@)),
        ensures
            final(self).wf(),
            session_preserved(*old(self), *final(self)),
            r is Ok ==> final(self).bus.sent() == old(self).bus.sent() + write_frames(
                writes_view(writes@),
                old(self).seqno,
            ) && final(self).seqno == seq_add(old(self).seqno, writes@.len() as int),
            r is Err ==> exists|j: int|
                0 <= j <= writes@.len() && final(self).bus.sent() == old(self).bus.sent()
                    + #[trigger] write_frames(writes_view(writes@).take(j), old(self).seqno),
            r is Ok ==> sched_runs(
                plain_steps(writes_view(writes@)),
                point_of(*old(self)),
                point_of(*final(self)),
            ),
            history_extends(old(self).bus.sent(), final(self).bus.sent()),
    {
        let ghost wv = writes_view(writes@);
        let ghost pre_sent = old(self).bus.sent();
        let ghost pre_seq = old(self).seqno;
        let n = writes.len();
        let mut idx: usize = 0;
        proof {
            assert(wv.take(0) =~= Seq::<(u32, Seq<u8>)>::empty());
            vstd::arithmetic::div_mod::lemma_small_mod(pre_seq as nat, 256);
            assert(self.bus.sent() =~= pre_sent + write_frames(wv.take(0), pre_seq));
        }
        proof {
            assert(plain_steps(wv.take(0)) =~= Seq::<SchedStep>::empty());
            assert(sched_runs(plain_steps(wv.take(0)), point_of(*old(self)), point_of(*self)));
        }
        while idx < n
            invariant
                self.wf(),
                session_preserved(*old(self), *self),
                idx <= n,
                n == writes@.len(),
                wv == writes_view(writes@),
                writes_valid(wv),
                self.bus.sent() == pre_sent + write_frames(wv.take(idx as int), pre_seq),
                self.seqno == seq_add(pre_seq, idx as int),
                sched_runs(plain_steps(wv.take(idx as int)), point_of(*old(self)), point_of(*self)),
                pre_sent == old(self).bus.sent(),
                pre_seq == old(self).seqno,
            decreases n - idx,
        {
            let reg = writes[idx].0;
            let data = &writes[idx].1;
            let ghost gp = point_of(*self);
            proof {
                assert(wv[idx as int] == (reg, data@));
                lemma_write_frames_snoc(wv, pre_seq, idx as int);
                crate::i2c::lemma_seq_add_succ(pre_seq, idx as int);
            }
            let wr = self.write_regs(reg, data.as_slice());
            proof {
                let j = idx as int;
                let mid = pre_sent + write_frames(wv.take(j), pre_seq);
                let fr = reg_write_frame(wv[j].0, wv[j].1, seq_add(pre_seq, j));
                assert(mid.push(fr) =~= pre_sent + write_frames(wv.take(j), pre_seq).push(fr));
            }
            match wr {
                Ok(_) => {
                    proof {
                        let j = idx as int;
                        let gq = point_of(*self);
                        assert(write_step(gp, gq, wv[j].0, wv[j].1));
                        assert(sched_step(gp, gq, SchedStep::Plain(wv[j].0, wv[j].1)));
                        lemma_sched_runs_one(gp, gq, SchedStep::Plain(wv[j].0, wv[j].1));
                        lemma_sched_runs_concat(
                            plain_steps(wv.take(j)),
                            seq![SchedStep::Plain(wv[j].0, wv[j].1)],
                            point_of(*old(self)),
                            gp,
                            gq,
                        );
                        assert(plain_steps(wv.take(j)) + seq![
                            SchedStep::Plain(wv[j].0, wv[j].1),
                        ] =~= plain_steps(wv.take(j + 1)));
                    }
                },
                Err(e) => {
                    proof {
                        let j = idx as int;
                        if self.bus.sent() != pre_sent + write_frames(wv.take(j), pre_seq) {
                            assert(self.bus.sent() == pre_sent + write_frames(
                                wv.take(j + 1),
                                pre_seq,
                            ));
                        }
                    }
                    return Err(e);
                },
            }
            idx = idx + 1;
        }
        proof {
            assert(wv.take(n as int) =~= wv);
        }
        Ok(())
    }

    /// Program the I2C master: both speed registers, then the demodulator
    /// address and bus index of every enabled stream input.  An enabled
    /// input naming a slave slot out of range is rejected before any bus
    /// I/O.
    pub fn config_i2c(&mut self) -> (r: Result<(), CtrlMsgError>)
        requires
            old(self).wf(),
        ensures
            final(self).wf(),
            session_preserved(*old(self), *final(self)),
            !slaves_valid(old(self).config.inputs@) ==> r == Err::<(), CtrlMsgError>(
                CtrlMsgError::InvalidLength,
            ) && final(self).bus.sent() == old(self).bus.sent() && final(self).seqno == old(
                self,
            ).seqno,
            r is Ok ==> final(self).bus.sent() == old(self).bus.sent() + write_frames(
                config_i2c_writes(old(self).config.i2c_speed, old(self).config.inputs@),
                old(self).seqno,
            ),
            r is Ok ==> sched_runs(
                plain_steps(config_i2c_writes(old(self).config.i2c_speed, old(self).config.inputs@)),
                point_of(*old(self)),
                point_of(*final(self)),
            ),
            history_extends(old(self).bus.sent(), final(self).bus.sent()),
    {
        let ghost inputs = self.config.inputs@;
        let speed = self.config.i2c_speed;
        let n = self.config.inputs.len();
        let mut v: usize = 0;
        while v < n
            invariant
                v <= n,
                n == inputs.len(),
                inputs == self.config.inputs@,
                *self == *old(self),
                old(self).wf(),
                forall|i: int|
                    0 <= i < v && (#[trigger] inputs[i]).enable ==> inputs[i].slave_number < 5,
            decreases n - v,
        {
            let inp = &self.config.inputs[v];
            if inp.enable && inp.slave_number >= 5 {
                assert(!slaves_valid(inputs));
                return Err(CtrlMsgError::InvalidLength);
            }
            v = v + 1;
        }
        assert(slaves_valid(inputs));
        let mut writes: Vec<(u32, Vec<u8>)> = Vec::new();
        let mut speed_buf: Vec<u8> = Vec::new();
        speed_buf.push(speed);
        writes.push((0xf6a7, speed_buf));
        let mut speed_buf2: Vec<u8> = Vec::new();
        speed_buf2.push(speed);
        writes.push((0xf103, speed_buf2));
        proof {
            assert(inputs.take(0) =~= Seq::<StreamInput>::empty());
            assert(writes_view(writes@) =~= config_i2c_writes(speed, inputs.take(0)));
        }
        let mut k: usize = 0;
        while k < n
            invariant
                k <= n,
                n == inputs.len(),
                inputs == self.config.inputs@,
                *self == *old(self),
                old(self).wf(),
                slaves_valid(inputs),
                writes_view(writes@) == config_i2c_writes(speed, inputs.take(k as int)),
                writes_valid(writes_view(writes@)),
                speed == self.config.i2c_speed,
            decreases n - k,
        {
            let inp = &self.config.inputs[k];
            proof {
                assert(inputs.take(k + 1).drop_last() =~= inputs.take(k as int));
                assert(inputs.take(k + 1).last() == inputs[k as int]);
            }
            if inp.enable {
                let sn = inp.slave_number;
                let (addr_reg, bus_reg): (u32, u32) = if sn == 0 {
                    (0x4975, 0x4971)
                } else if sn == 1 {
                    (0x4974, 0x4970)
                } else if sn == 2 {
                    (0x4973, 0x496f)
                } else if sn == 3 {
                    (0x4972, 0x496e)
                } else {
                    (0x4964, 0x4963)
                };
                let mut a: Vec<u8> = Vec::new();
                a.push(inp.i2c_addr << 1);
                writes.push((addr_reg, a));
                let mut b: Vec<u8> = Vec::new();
                b.push(inp.i2c_bus);
                writes.push((bus_reg, b));
            }
            proof {
                assert(writes_view(writes@) =~= config_i2c_writes(speed, inputs.take(k + 1)));
            }
            k = k + 1;
        }
        proof {
            assert(inputs.take(n as int) =~= inputs);
        }
        self.run_reg_writes(&writes)
    }

    /// Configure every stream input port: parallel mode for the first two
    /// ports, aggregation mode and sync byte, and the port enable; a
    /// disabled input only has its port disabled.
    pub fn config_stream_input(&mut self) -> (r: Result<(), CtrlMsgError>)
        requires
            old(self).wf(),
        ensures
            final(self).wf(),
            session_preserved(*old(self), *final(self)),
            r is Ok ==> final(self).bus.sent() == old(self).bus.sent() + write_frames(
                config_stream_input_writes(old(self).config.inputs@),
                old(self).seqno,
            ),
            r is Ok ==> sched_runs(
                plain_steps(config_stream_input_writes(old(self).config.inputs@)),
                point_of(*old(self)),
                point_of(*final(self)),
            ),
            history_extends(old(self).bus.sent(), final(self).bus.sent()),
    {
        let ghost inputs = self.config.inputs@;
        let n = self.config.inputs.len();
        let mut writes: Vec<(u32, Vec<u8>)> = Vec::new();
        proof {
            assert(inputs.take(0) =~= Seq::<StreamInput>::empty());
            assert(writes_view(writes@) =~= config_stream_input_writes(inputs.take(0)));
        }
        let mut k: usize = 0;
        while k < n
            invariant
                k <= n,
                n == inputs.len(),
                inputs == self.config.inputs@,
                *self == *old(self),
                old(self).wf(),
                writes_view(writes@) == config_stream_input_writes(inputs.take(k as int)),
                writes_valid(writes_view(writes@)),
            decreases n - k,
        {
            let inp = &self.config.inputs[k];
            let port = inp.port_number as u32;
            proof {
                assert(inputs.take(k + 1).drop_last() =~= inputs.take(k as int));
                assert(inputs.take(k + 1).last() == inputs[k as int]);
            }
            if !inp.enable {
                let mut z: Vec<u8> = Vec::new();
                z.push(0);
                writes.push((0xda4c + port, z));
            } else {
                if inp.port_number < 2 {
                    let mut p: Vec<u8> = Vec::new();
                    p.push(if inp.is_parallel {
                        1
                    } else {
                        0
                    });
                    writes.push((0xda58 + port, p));
                }
                let mut agg: Vec<u8> = Vec::new();
                agg.push(1);
                writes.push((0xda73 + port, agg));
                let mut sync: Vec<u8> = Vec::new();
                sync.push(inp.sync_byte);
                writes.push((0xda78 + port, sync));
                let mut en: Vec<u8> = Vec::new();
                en.push(1);
                writes.push((0xda4c + port, en));
            }
            proof {
                assert(writes_view(writes@) =~= config_stream_input_writes(inputs.take(k + 1)));
            }
            k = k + 1;
        }
        proof {
            assert(inputs.take(n as int) =~= inputs);
        }
        self.run_reg_writes(&writes)
    }

    /// The inner stream-output programming: endpoint 4 gating, transfer
    /// threshold, and bulk packet size.
    fn stream_output_steps(&mut self) -> (r: Result<(), CtrlMsgError>)
        requires
            old(self).wf(),
        ensures
            final(self).wf(),
            session_preserved(*old(self), *final(self)),
            history_extends(old(self).bus.sent(), final(self).bus.sent()),
            r is Ok ==> old(self).bus.sent().len() + 7 <= final(self).bus.sent().len() <= old(
                self,
            ).bus.sent().len() + 12,
            r is Ok ==> sched_runs(
                stream_output_inner_schedule(
                    old(self).config.xfer_size,
                    old(self).bus.max_bulk_spec(),
                ),
                point_of(*old(self)),
                point_of(*final(self)),
            ),
    {
        let ghost sched = stream_output_inner_schedule(
            old(self).config.xfer_size,
            old(self).bus.max_bulk_spec(),
        );
        let ghost g0 = point_of(*old(self));
        // disable ep4, drop its nak, then enable it again
        self.write_reg_mask(0xdd11, 0x00, 0x20)?;
        let ghost g1 = point_of(*self);
        self.write_reg_mask(0xdd13, 0x00, 0x20)?;
        let ghost g2 = point_of(*self);
        self.write_reg_mask(0xdd11, 0x20, 0x20)?;
        let ghost g3 = point_of(*self);
        // threshold of transfer size
        let x = ((self.config.xfer_size / 4) & 0xffff) as u16;
        let buf = [(x & 0xff) as u8, ((x >> 8) & 0xff) as u8];
        assert(buf@ =~= xfer_threshold_bytes(old(self).config.xfer_size));
        self.write_regs(0xdd88, &buf)?;
        let ghost g4 = point_of(*self);
        // max bulk packet size
        let v = ((self.bus.max_bulk_size() / 4) & 0xff) as u8;
        let one = [v];
        assert(one@ =~= seq![((old(self).bus.max_bulk_spec() / 4) & 0xff) as u8]);
        self.write_regs(0xdd0c, &one)?;
        let ghost g5 = point_of(*self);
        self.write_reg_mask(0xda05, 0x00, 0x01)?;
        let ghost g6 = point_of(*self);
        self.write_reg_mask(0xda06, 0x00, 0x01)?;
        proof {
            let g7 = point_of(*self);
            assert(sched_step(g0, g1, sched[0]));
            assert(sched_step(g1, g2, sched[1]));
            assert(sched_step(g2, g3, sched[2]));
            assert(write_step(g3, g4, 0xdd88, xfer_threshold_bytes(old(self).config.xfer_size)));
            assert(sched_step(g3, g4, sched[3]));
            assert(write_step(
                g4,
                g5,
                0xdd0c,
                seq![((old(self).bus.max_bulk_spec() / 4) & 0xff) as u8],
            ));
            assert(sched_step(g4, g5, sched[4]));
            assert(sched_step(g5, g6, sched[5]));
            assert(sched_step(g6, g7, sched[6]));
            lemma_sched_runs_one(g6, g7, sched[6]);
            lemma_sched_runs_one(g5, g6, sched[5]);
            lemma_sched_runs_concat(seq![sched[5]], seq![sched[6]], g5, g6, g7);
            lemma_sched_runs_one(g4, g5, sched[4]);
            lemma_sched_runs_concat(seq![sched[4]], seq![sched[5]] + seq![sched[6]], g4, g5, g7);
            lemma_sched_runs_one(g3, g4, sched[3]);
            lemma_sched_runs_concat(
                seq![sched[3]],
                seq![sched[4]] + (seq![sched[5]] + seq![sched[6]]),
                g3,
                g4,
                g7,
            );
            lemma_sched_runs_one(g2, g3, sched[2]);
            lemma_sched_runs_concat(
                seq![sched[2]],
                seq![sched[3]] + (seq![sched[4]] + (seq![sched[5]] + seq![sched[6]])),
                g2,
                g3,
                g7,
            );
            lemma_sched_runs_one(g1, g2, sched[1]);
            lemma_sched_runs_concat(
                seq![sched[1]],
                seq![sched[2]] + (seq![sched[3]] + (seq![sched[4]] + (seq![sched[5]]
                    + seq![sched[6]]))),
                g1,
                g2,
                g7,
            );
            lemma_sched_runs_one(g0, g1, sched[0]);
            lemma_sched_runs_concat(
                seq![sched[0]],
                seq![sched[1]] + (seq![sched[2]] + (seq![sched[3]] + (seq![sched[4]]
                    + (seq![sched[5]] + seq![sched[6]])))),
                g0,
                g1,
                g7,
            );
            assert(seq![sched[0]] + (seq![sched[1]] + (seq![sched[2]] + (seq![sched[3]]
                + (seq![sched[4]] + (seq![sched[5]] + seq![sched[6]]))))) =~= sched);
        }
        Ok(())
    }

    /// Configure the stream output path.  Register 0xda1d's hold bit is
    /// raised first and dropped again at the end on every path, so the
    /// chip is never left held even when an inner step fails.
    pub fn config_stream_output(&mut self) -> (r: Result<(), CtrlMsgError>)
        requires
            old(self).wf(),
        ensures
            final(self).wf(),
            session_preserved(*old(self), *final(self)),
            history_extends(old(self).bus.sent(), final(self).bus.sent()),
            r is Ok ==> old(self).bus.sent().len() + 10 <= final(self).bus.sent().len() <= old(
                self,
            ).bus.sent().len() + 17,
            // the first exchange is the read of the hold register
            r is Ok ==> final(self).bus.sent()[old(self).bus.sent().len() as int] == frame_spec(
                crate::frame::IT930X_CMD_REG_READ,
                old(self).seqno,
                crate::regs::reg_header(0xda1d, 1),
            ),
            // the whole register schedule, conditional on the bytes each
            // masked write read back
            r is Ok ==> sched_runs(
                config_stream_output_schedule(
                    old(self).config.xfer_size,
                    old(self).bus.max_bulk_spec(),
                ),
                point_of(*old(self)),
                point_of(*final(self)),
            ),
    {
        let ghost g0 = point_of(*old(self));
        self.write_reg_mask(0xda1d, 0x01, 0x01)?;
        let ghost g1 = point_of(*self);
        assert(self.bus.sent()[old(self).bus.sent().len() as int] == frame_spec(
            crate::frame::IT930X_CMD_REG_READ,
            old(self).seqno,
            crate::regs::reg_header(0xda1d, 1),
        ));
        let ret = self.stream_output_steps();
        let ghost g2 = point_of(*self);
        // exit path runs regardless of the inner outcome
        let ret2 = self.write_reg_mask(0xda1d, 0x00, 0x01);
        let ghost g3 = point_of(*self);
        let zero = [0u8];
        let ret3 = self.write_regs(0xd920, &zero);
        match ret {
            Ok(_) => {},
            Err(_) => {
                return ret;
            },
        }
        match ret2 {
            Ok(_) => {},
            Err(e) => {
                return Err(e);
            },
        }
        match ret3 {
            Ok(_) => {},
            Err(e) => {
                return Err(e);
            },
        }
        proof {
            let g4 = point_of(*self);
            let inner = stream_output_inner_schedule(
                old(self).config.xfer_size,
                old(self).bus.max_bulk_spec(),
            );
            assert(zero@ =~= seq![0u8]);
            assert(sched_step(g0, g1, SchedStep::Masked(0xda1d, 0x01, 0x01)));
            assert(sched_runs(inner, g1, g2));
            assert(sched_step(g2, g3, SchedStep::Masked(0xda1d, 0x00, 0x01)));
            assert(write_step(g3, g4, 0xd920, seq![0u8]));
            assert(sched_step(g3, g4, SchedStep::Plain(0xd920, seq![0u8])));
            lemma_sched_runs_one(g3, g4, SchedStep::Plain(0xd920, seq![0u8]));
            lemma_sched_runs_one(g2, g3, SchedStep::Masked(0xda1d, 0x00, 0x01));
            lemma_sched_runs_concat(
                seq![SchedStep::Masked(0xda1d, 0x00, 0x01)],
                seq![SchedStep::Plain(0xd920, seq![0u8])],
                g2,
                g3,
                g4,
            );
            lemma_sched_runs_concat(
                inner,
                seq![SchedStep::Masked(0xda1d, 0x00, 0x01)] + seq![
                    SchedStep::Plain(0xd920, seq![0u8]),
                ],
                g1,
                g2,
                g4,
            );
            lemma_sched_runs_one(g0, g1, SchedStep::Masked(0xda1d, 0x01, 0x01));
            lemma_sched_runs_concat(
                seq![SchedStep::Masked(0xda1d, 0x01, 0x01)],
                inner + (seq![SchedStep::Masked(0xda1d, 0x00, 0x01)] + seq![
                    SchedStep::Plain(0xd920, seq![0u8]),
                ]),
                g0,
                g1,
                g4,
            );
            assert(seq![SchedStep::Masked(0xda1d, 0x01, 0x01)] + (inner + (seq![
                SchedStep::Masked(0xda1d, 0x00, 0x01),
            ] + seq![SchedStep::Plain(0xd920, seq![0u8])])) =~= config_stream_output_schedule(
                old(self).config.xfer_size,
                old(self).bus.max_bulk_spec(),
            ));
        }
        Ok(())
    }

    /// Warm initialisation: bus gating registers, interrupt and mode
    /// bits, stream output, power configuration, I2C master, and stream
    /// inputs, in the chip's required order.
    #[verifier::rlimit(100)]
    #[verifier::spinoff_prover]
    pub fn init_warm(&mut self) -> (r: Result<(), CtrlMsgError>)
        requires
            old(self).wf(),
        ensures
            final(self).wf(),
            session_preserved(*old(self), *final(self)),
            history_extends(old(self).bus.sent(), final(self).bus.sent()),
            r is Ok ==> slaves_valid(old(self).config.inputs@),
            // the whole register schedule ran, in order, conditional only
            // on the bytes the masked writes read back
            r is Ok ==> sched_runs(
                init_warm_schedule(
                    old(self).config.i2c_speed,
                    old(self).config.inputs@,
                    old(self).config.xfer_size,
                    old(self).bus.max_bulk_spec(),
                ),
                point_of(*old(self)),
                point_of(*final(self)),
            ),
            r is Ok ==> ({
                let pre = old(self).bus.sent();
                let s0 = old(self).seqno;
                &&& final(self).bus.sent().len() >= pre.len() + 5
                &&& final(self).bus.sent()[pre.len() as int] == reg_write_frame(
                    0x4976,
                    seq![0u8],
                    s0,
                )
                &&& final(self).bus.sent()[pre.len() as int + 1] == reg_write_frame(
                    0x4bfb,
                    seq![0u8],
                    seq_succ(s0),
                )
                &&& final(self).bus.sent()[pre.len() as int + 2] == reg_write_frame(
                    0x4978,
                    seq![0u8],
                    seq_succ(seq_succ(s0)),
                )
                &&& final(self).bus.sent()[pre.len() as int + 3] == reg_write_frame(
                    0x4977,
                    seq![0u8],
                    seq_succ(seq_succ(seq_succ(s0))),
                )
                &&& final(self).bus.sent()[pre.len() as int + 4] == reg_write_frame(
                    0xda1a,
                    seq![0u8],
                    seq_succ(seq_succ(seq_succ(seq_succ(s0)))),
                )
            }),
    {
        let ghost pre = old(self).bus.sent();
        let ghost s0 = old(self).seqno;
        let ghost h0 = point_of(*old(self));
        let zero = [0u8];
        let one = [1u8];
        assert(zero@ =~= seq![0u8]);
        assert(one@ =~= seq![1u8]);
        self.write_regs(0x4976, &zero)?;
        let ghost h1 = point_of(*self);
        self.write_regs(0x4bfb, &zero)?;
        let ghost h2 = point_of(*self);
        self.write_regs(0x4978, &zero)?;
        let ghost h3 = point_of(*self);
        self.write_regs(0x4977, &zero)?;
        let ghost h4 = point_of(*self);
        // ignore sync byte: no
        self.write_regs(0xda1a, &zero)?;
        let ghost h5 = point_of(*self);
        let ghost five = self.bus.sent();
        proof {
            assert(five.len() == pre.len() + 5);
            assert(five[pre.len() as int] == reg_write_frame(0x4976, seq![0u8], s0));
            assert(five[pre.len() as int + 1] == reg_write_frame(0x4bfb, seq![0u8], seq_succ(s0)));
            assert(five[pre.len() as int + 2] == reg_write_frame(
                0x4978,
                seq![0u8],
                seq_succ(seq_succ(s0)),
            ));
            assert(five[pre.len() as int + 3] == reg_write_frame(
                0x4977,
                seq![0u8],
                seq_succ(seq_succ(seq_succ(s0))),
            ));
            assert(five[pre.len() as int + 4] == reg_write_frame(
                0xda1a,
                seq![0u8],
                seq_succ(seq_succ(seq_succ(seq_succ(s0)))),
            ));
        }
        // dvb-t interrupt: enable
        self.write_reg_mask(0xf41f, 0x04, 0x04)?;
        let ghost h6 = point_of(*self);
        assert(history_extends(five, self.bus.sent()));
        // mpeg full speed
        self.write_reg_mask(0xda10, 0x00, 0x01)?;
        let ghost h7 = point_of(*self);
        assert(history_extends(five, self.bus.sent()));
        // dvb-t mode: enable
        self.write_reg_mask(0xf41a, 0x01, 0x01)?;
        let ghost h8 = point_of(*self);
        assert(history_extends(five, self.bus.sent()));
        self.config_stream_output()?;
        let ghost h9 = point_of(*self);
        assert(history_extends(five, self.bus.sent()));
        // power configuration
        self.write_regs(0xd833, &one)?;
        let ghost h10 = point_of(*self);
        assert(history_extends(five, self.bus.sent()));
        self.write_regs(0xd830, &zero)?;
        let ghost h11 = point_of(*self);
        assert(history_extends(five, self.bus.sent()));
        self.write_regs(0xd831, &one)?;
        let ghost h12 = point_of(*self);
        assert(history_extends(five, self.bus.sent()));
        self.write_regs(0xd832, &zero)?;
        let ghost h13 = point_of(*self);
        assert(history_extends(five, self.bus.sent()));
        match self.config_i2c() {
            Ok(_) => {},
            Err(e) => {
                return Err(e);
            },
        }
        let ghost h14 = point_of(*self);
        assert(history_extends(five, self.bus.sent()));
        self.config_stream_input()?;
        assert(history_extends(five, self.bus.sent()));
        proof {
            let h15 = point_of(*self);
            assert(sched_step(h0, h1, SchedStep::Plain(0x4976, seq![0u8])));
            assert(sched_step(h1, h2, SchedStep::Plain(0x4bfb, seq![0u8])));
            assert(sched_step(h2, h3, SchedStep::Plain(0x4978, seq![0u8])));
            assert(sched_step(h3, h4, SchedStep::Plain(0x4977, seq![0u8])));
            assert(sched_step(h4, h5, SchedStep::Plain(0xda1a, seq![0u8])));
            assert(sched_step(h5, h6, SchedStep::Masked(0xf41f, 0x04, 0x04)));
            assert(sched_step(h6, h7, SchedStep::Masked(0xda10, 0x00, 0x01)));
            assert(sched_step(h7, h8, SchedStep::Masked(0xf41a, 0x01, 0x01)));
            lemma_init_warm_head(h0, h1, h2, h3, h4, h5, h6, h7, h8);
            assert(sched_runs(
                config_stream_output_schedule(
                    old(self).config.xfer_size,
                    old(self).bus.max_bulk_spec(),
                ),
                h8,
                h9,
            ));
            assert(sched_step(h9, h10, SchedStep::Plain(0xd833, seq![1u8])));
            assert(sched_step(h10, h11, SchedStep::Plain(0xd830, seq![0u8])));
            assert(sched_step(h11, h12, SchedStep::Plain(0xd831, seq![1u8])));
            assert(sched_step(h12, h13, SchedStep::Plain(0xd832, seq![0u8])));
            lemma_init_warm_power(h9, h10, h11, h12, h13);
            assert(sched_runs(
                plain_steps(
                    config_i2c_writes(old(self).config.i2c_speed, old(self).config.inputs@),
                ),
                h13,
                h14,
            ));
            assert(sched_runs(
                plain_steps(config_stream_input_writes(old(self).config.inputs@)),
                h14,
                h15,
            ));
            lemma_init_warm_assemble(
                h0,
                h8,
                h9,
                h13,
                h14,
                h15,
                old(self).config.i2c_speed,
                old(self).config.inputs@,
                old(self).config.xfer_size,
                old(self).bus.max_bulk_spec(),
            );
        }
        Ok(())
    }
}

} // verus!
