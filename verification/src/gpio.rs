//! Cached GPIO state management.
//!
//! The session caches mode and enable state for the 16 pins and writes the
//! slow bus only on observed state transitions, never unconditionally.

use vstd::prelude::*;
use crate::bus::BusOps;
use crate::errors::CtrlMsgError;
use crate::frame::{frame_spec, IT930X_CMD_REG_WRITE};
use crate::it930x::{
    exchange_result_unit, frames_in_position, history_extends, seq_succ, session_preserved,
    GpioMode, GpioStatus, IT930x,
};
use crate::regs::reg_write_payload;

verus! {

/// Mode/enable register pair base of pin `idx + 1`; the matching output
/// register sits one address below it and the enable register one above.
pub open spec fn gpio_mode_reg_spec(idx: int) -> u32 {
    if idx == 0 {
        0xd8b0
    } else if idx == 1 {
        0xd8b8
    } else if idx == 2 {
        0xd8b4
    } else if idx == 3 {
        0xd8c0
    } else if idx == 4 {
        0xd8bc
    } else if idx == 5 {
        0xd8c8
    } else if idx == 6 {
        0xd8c4
    } else if idx == 7 {
        0xd8d0
    } else if idx == 8 {
        0xd8cc
    } else if idx == 9 {
        0xd8d8
    } else if idx == 10 {
        0xd8d4
    } else if idx == 11 {
        0xd8e0
    } else if idx == 12 {
        0xd8dc
    } else if idx == 13 {
        0xd8e4
    } else if idx == 14 {
        0xd8e8
    } else {
        0xd8ec
    }
}

/// Mode register of pin index `idx` (pin number minus one).
pub fn gpio_mode_reg(idx: usize) -> (r: u32)
    requires
        idx < 16,
    ensures
        r == gpio_mode_reg_spec(idx as int),
{
    let regs: [u32; 16] = [
        0xd8b0, 0xd8b8, 0xd8b4, 0xd8c0, 0xd8bc, 0xd8c8, 0xd8c4, 0xd8d0, 0xd8cc, 0xd8d8, 0xd8d4,
        0xd8e0, 0xd8dc, 0xd8e4, 0xd8e8, 0xd8ec,
    ];
    regs[idx]
}

/// Register value of a pin mode.
pub open spec fn gpio_mode_val(mode: GpioMode) -> u8 {
    match mode {
        GpioMode::In => 0,
        GpioMode::Out => 1,
    }
}

/// Cache state of a pin after `set_gpio_mode(pin, mode, enable)` succeeds:
/// the mode is taken over, and the enabled flag only ever rises.
pub open spec fn set_mode_next(st: GpioStatus, mode: GpioMode, enable: bool) -> GpioStatus {
    GpioStatus { mode, enable: st.enable || enable }
}

/// The register writes a successful `set_gpio_mode` issues, given the
/// cached state: the mode register only when the cached mode differs, then
/// the enable register only on a disabled-to-enabled transition.
pub open spec fn set_mode_frames(
    st: GpioStatus,
    idx: int,
    mode: GpioMode,
    enable: bool,
    seqno: u8,
) -> Seq<Seq<u8>> {
    let mode_frames: Seq<Seq<u8>> = if st.mode != mode {
        seq![
            frame_spec(
                IT930X_CMD_REG_WRITE,
                seqno,
                reg_write_payload(gpio_mode_reg_spec(idx), seq![gpio_mode_val(mode)]),
            ),
        ]
    } else {
        Seq::empty()
    };
    let seq2 = if st.mode != mode {
        seq_succ(seqno)
    } else {
        seqno
    };
    let enable_frames: Seq<Seq<u8>> = if enable && !st.enable {
        seq![
            frame_spec(
                IT930X_CMD_REG_WRITE,
                seq2,
                reg_write_payload((gpio_mode_reg_spec(idx) + 1) as u32, seq![1u8]),
            ),
        ]
    } else {
        Seq::empty()
    };
    mode_frames + enable_frames
}

/// GPIO cache discipline, the idempotence law: a successful
/// `set_gpio_mode` leaves the cache in a state from which repeating the
/// same call issues no bus write at all; and from a pin cached as input
/// and disabled, `set_gpio_mode(pin, Out, true)` issues exactly one mode
/// write and one enable write.
pub proof fn lemma_set_mode_idempotent(
    st: GpioStatus,
    idx: int,
    mode: GpioMode,
    enable: bool,
    s1: u8,
    s2: u8,
)
    ensures
        set_mode_frames(set_mode_next(st, mode, enable), idx, mode, enable, s2) == Seq::<
            Seq<u8>,
        >::empty(),
        st == (GpioStatus { mode: GpioMode::In, enable: false }) && mode == GpioMode::Out
            && enable ==> set_mode_frames(st, idx, mode, enable, s1).len() == 2,
{
    let post = set_mode_next(st, mode, enable);
    assert(post.mode == mode);
    assert(set_mode_frames(post, idx, mode, enable, s2) =~= Seq::<Seq<u8>>::empty());
}

impl<B: BusOps> IT930x<B> {
    /// Set a pin's direction and enable it, writing only the registers
    /// whose cached state actually changes.  Pins are numbered 1 to 16.
    pub fn set_gpio_mode(&mut self, gpio: i32, mode: GpioMode, enable: bool) -> (r: Result<
        (),
        CtrlMsgError,
    >)
        requires
            old(self).wf(),
        ensures
            final(self).wf(),
            final(self).config.eq_spec(&old(self).config),
            final(self).bus.max_bulk_spec() == old(self).bus.max_bulk_spec(),
            !(1 <= gpio <= 16) ==> r == Err::<(), CtrlMsgError>(CtrlMsgError::InvalidArgument)
                && final(self).bus.sent() == old(self).bus.sent() && final(self).seqno == old(self).seqno && final(self).gpio@ == old(self).gpio@,
            1 <= gpio <= 16 && r is Err ==> ({
                let idx = gpio - 1;
                let st = old(self).gpio@[idx as int];
                // the cache moves only behind a successful write: on error
                // it is untouched, or carries exactly the mode whose write
                // succeeded before the enable write failed
                ||| final(self).gpio@ == old(self).gpio@
                ||| final(self).gpio@ == old(self).gpio@.update(
                    idx as int,
                    GpioStatus { mode, enable: st.enable },
                )
            }),
            1 <= gpio <= 16 && r is Ok ==> ({
                let idx = gpio - 1;
                let st = old(self).gpio@[idx as int];
                &&& final(self).gpio@ == old(self).gpio@.update(
                    idx as int,
                    set_mode_next(st, mode, enable),
                )
                &&& final(self).bus.sent() == old(self).bus.sent() + set_mode_frames(
                    st,
                    idx as int,
                    mode,
                    enable,
                    old(self).seqno,
                )
                &&& final(self).seqno == if st.mode != mode && (enable && !st.enable) {
                    seq_succ(seq_succ(old(self).seqno))
                } else if st.mode != mode || (enable && !st.enable) {
                    seq_succ(old(self).seqno)
                } else {
                    old(self).seqno
                }
            }),
            history_extends(old(self).bus.sent(), final(self).bus.sent()),
            // whatever happens, only the pin's own mode/enable registers are
            // written, in schedule order; in particular no output register
            1 <= gpio <= 16 ==> frames_in_position(
                old(self).bus.sent(),
                final(self).bus.sent(),
                set_mode_frames(
                    old(self).gpio@[gpio - 1],
                    gpio - 1,
                    mode,
                    enable,
                    old(self).seqno,
                ),
            ),
    {
        if gpio <= 0 || gpio > 16 {
            return Err(CtrlMsgError::InvalidArgument);
        }
        let idx = (gpio - 1) as usize;
        let ghost st = self.gpio@[idx as int];
        let ghost pre_sent = self.bus.sent();
        let ghost pre_seq = self.seqno;
        let val = match mode {
            GpioMode::In => 0u8,
            GpioMode::Out => 1u8,
        };
        let mode_reg = gpio_mode_reg(idx);
        if self.gpio[idx].mode != mode {
            let one = [val];
            assert(one@ =~= seq![gpio_mode_val(mode)]);
            match self.write_regs(mode_reg, &one) {
                Ok(_) => {
                    // the write is on the wire: take the mode over
                    self.gpio[idx].mode = mode;
                },
                Err(e) => {
                    return Err(e);
                },
            }
        }
        if enable && !self.gpio[idx].enable {
            let one = [1u8];
            assert(one@ =~= seq![1u8]);
            match self.write_regs(mode_reg + 1, &one) {
                Ok(_) => {
                    self.gpio[idx].enable = true;
                },
                Err(e) => {
                    return Err(e);
                },
            }
        }
        proof {
            assert(self.bus.sent() =~= pre_sent + set_mode_frames(
                st,
                idx as int,
                mode,
                enable,
                pre_seq,
            ));
        }
        Ok(())
    }

    /// Drive an output pin high or low.  Refused when the pin's cached
    /// mode is not output: driving an input pin is a caller error.
    pub fn write_gpio(&mut self, gpio: i32, high: bool) -> (r: Result<(), CtrlMsgError>)
        requires
            old(self).wf(),
        ensures
            final(self).wf(),
            final(self).gpio@ == old(self).gpio@,
            session_preserved(*old(self), *final(self)),
            !(1 <= gpio <= 16) ==> r == Err::<(), CtrlMsgError>(CtrlMsgError::InvalidArgument)
                && final(self).bus.sent() == old(self).bus.sent() && final(self).seqno == old(self).seqno,
            1 <= gpio <= 16 && old(self).gpio@[gpio - 1].mode != GpioMode::Out ==> r == Err::<
                (),
                CtrlMsgError,
            >(CtrlMsgError::InvalidArgument) && final(self).bus.sent() == old(self).bus.sent()
                && final(self).seqno == old(self).seqno,
            1 <= gpio <= 16 && old(self).gpio@[gpio - 1].mode == GpioMode::Out ==> final(self).seqno == seq_succ(old(self).seqno) && exchange_result_unit(
                old(self).bus.sent(),
                final(self).bus.sent(),
                old(self).bus.received(),
                final(self).bus.received(),
                IT930X_CMD_REG_WRITE,
                old(self).seqno,
                reg_write_payload(
                    (gpio_mode_reg_spec(gpio - 1) - 1) as u32,
                    seq![if high { 1u8 } else { 0u8 }],
                ),
                r,
            ),
            history_extends(old(self).bus.sent(), final(self).bus.sent()),
    {
        if gpio <= 0 || gpio > 16 {
            return Err(CtrlMsgError::InvalidArgument);
        }
        let idx = (gpio - 1) as usize;
        if self.gpio[idx].mode != GpioMode::Out {
            return Err(CtrlMsgError::InvalidArgument);
        }
        let v: u8 = if high {
            1
        } else {
            0
        };
        let out_reg = gpio_mode_reg(idx) - 1;
        let one = [v];
        assert(one@ =~= seq![if high { 1u8 } else { 0u8 }]);
        self.write_regs(out_reg, &one)
    }
}

} // verus!
