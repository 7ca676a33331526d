//! Bring-up orchestration for a four-tuner receiver: power GPIOs and the
//! per-channel tuner set.

use vstd::prelude::*;
use crate::bus::BusOps;
use crate::errors::{CtrlMsgError, TunerError};
use crate::frame::{frame_spec, IT930X_CMD_REG_WRITE};
use crate::gpio::gpio_mode_reg_spec;
use crate::it930x::{history_extends, seq_succ, GpioMode, IT930x};
use crate::r850::R850;
use crate::regs::reg_write_payload;
use crate::rt710::RT710;

verus! {

/// Broadcast system of one receiver channel.
#[allow(non_camel_case_types)]
#[derive(Debug, Clone, Copy, PartialEq, Eq, Structural)]
pub enum System {
    ISDB_S,
    ISDB_T,
}

/// The tuner chip serving one channel.
pub enum Tuner {
    RT710(RT710),
    R850(R850),
}

/// One receiver channel: its system, stream port wiring, and tuner.
pub struct Px4Chrdev {
    pub system: System,
    pub port_number: u8,
    pub slave_number: u8,
    pub sync_byte: u8,
    pub tuner: Tuner,
}

/// One four-channel receiver: the bridge-chip session and its channels.
pub struct Px4Device<B: BusOps> {
    pub it930x: IT930x<B>,
    pub px4chrdev: Vec<Px4Chrdev>,
}

/// System of channel `i`: two satellite channels, then two terrestrial.
pub open spec fn chrdev_system(i: int) -> System {
    if i < 2 {
        System::ISDB_S
    } else {
        System::ISDB_T
    }
}

/// Demodulator address of channel `i`.
pub open spec fn chrdev_addr(i: int) -> u8 {
    if i == 0 {
        0x11
    } else if i == 1 {
        0x13
    } else if i == 2 {
        0x10
    } else {
        0x12
    }
}

impl<B: BusOps> Px4Device<B> {
    /// The device is usable: its session is.
    pub open spec fn wf(&self) -> bool {
        self.it930x.wf()
    }

    /// A receiver over an already-raised session, with no channels yet.
    pub fn new(it930x: IT930x<B>) -> (r: Px4Device<B>)
        requires
            it930x.wf(),
        ensures
            r.wf(),
            r.it930x == it930x,
            r.px4chrdev@.len() == 0,
    {
        Px4Device { it930x, px4chrdev: Vec::new() }
    }

    /// Switch the front-end power rails: drive GPIO 7 low and GPIO 2 high
    /// to power up, the reverse to power down.  Powering down ignores
    /// write failures.  The settle delays between the power-up edges are
    /// the caller's business; this only issues the writes, in order.
    pub fn set_power(&mut self, state: bool) -> (r: Result<(), CtrlMsgError>)
        requires
            old(self).wf(),
        ensures
            final(self).wf(),
            final(self).px4chrdev == old(self).px4chrdev,
            state && old(self).it930x.gpio@[6].mode != GpioMode::Out ==> r == Err::<
                (),
                CtrlMsgError,
            >(CtrlMsgError::InvalidArgument) && final(self).it930x.bus.sent() == old(self).it930x.bus.sent(),
            // powering down never fails and ignores write outcomes: at most
            // the two rail writes go out and the cache is untouched
            !state ==> r is Ok && final(self).it930x.gpio@ == old(self).it930x.gpio@
                && final(self).it930x.bus.sent().len() <= old(self).it930x.bus.sent().len() + 2,
            history_extends(old(self).it930x.bus.sent(), final(self).it930x.bus.sent()),
            state && r is Ok ==> final(self).it930x.bus.sent() == old(self).it930x.bus.sent().push(
                frame_spec(
                    IT930X_CMD_REG_WRITE,
                    old(self).it930x.seqno,
                    reg_write_payload((gpio_mode_reg_spec(6) - 1) as u32, seq![0u8]),
                ),
            ).push(
                frame_spec(
                    IT930X_CMD_REG_WRITE,
                    seq_succ(old(self).it930x.seqno),
                    reg_write_payload((gpio_mode_reg_spec(1) - 1) as u32, seq![1u8]),
                ),
            ) && final(self).it930x.seqno == seq_succ(seq_succ(old(self).it930x.seqno)),
    {
        if state {
            match self.it930x.write_gpio(7, false) {
                Ok(_) => {},
                Err(e) => {
                    return Err(e);
                },
            }
            match self.it930x.write_gpio(2, true) {
                Ok(_) => {},
                Err(e) => {
                    return Err(e);
                },
            }
        } else {
            let _ = self.it930x.write_gpio(2, false);
            let _ = self.it930x.write_gpio(7, true);
        }
        Ok(())
    }

    /// Build and probe the four channels in order: ports 1 to 4, slaves 0
    /// to 3, sync bytes 0x17 to 0x47, satellite tuners on the first two
    /// demodulator addresses and terrestrial on the last two.  Each tuner
    /// is probed as it is built; the first failure aborts.
    pub fn init(&mut self) -> (r: Result<(), TunerError>)
        requires
            old(self).wf(),
        ensures
            final(self).wf(),
            // probing four tuners puts at least their probe and refresh
            // exchanges on the bus
            r is Ok ==> final(self).it930x.bus.sent().len() >= old(self).it930x.bus.sent().len()
                + 20,
            r is Ok ==> ({
                &&& final(self).px4chrdev@.len() == 4
                &&& forall|i: int|
                    0 <= i < 4 ==> {
                        let ch = #[trigger] final(self).px4chrdev@[i];
                        &&& ch.system == chrdev_system(i)
                        &&& ch.port_number == i + 1
                        &&& ch.slave_number == i
                        &&& ch.sync_byte == (((i + 1) as u8) << 4) | 0x07
                        &&& (ch.system == System::ISDB_S <==> ch.tuner is RT710)
                    }
            }),
            history_extends(old(self).it930x.bus.sent(), final(self).it930x.bus.sent()),
    {
        let mut chrdevs: Vec<Px4Chrdev> = Vec::new();
        let mut i: u8 = 0;
        while i < 4
            invariant
                i <= 4,
                self.wf(),
                history_extends(old(self).it930x.bus.sent(), self.it930x.bus.sent()),
                self.it930x.bus.sent().len() >= old(self).it930x.bus.sent().len() + (
                if i <= 2 {
                    3int * i
                } else {
                    6int + 7int * (i - 2)
                }),
                chrdevs@.len() == i,
                forall|k: int|
                    0 <= k < i ==> {
                        let ch = #[trigger] chrdevs@[k];
                        &&& ch.system == chrdev_system(k)
                        &&& ch.port_number == k + 1
                        &&& ch.slave_number == k
                        &&& ch.sync_byte == (((k + 1) as u8) << 4) | 0x07
                        &&& (ch.system == System::ISDB_S <==> ch.tuner is RT710)
                    },
            decreases 4 - i,
        {
            let addr = if i == 0 {
                0x11
            } else if i == 1 {
                0x13
            } else if i == 2 {
                0x10
            } else {
                0x12
            };
            let system = if i < 2 {
                System::ISDB_S
            } else {
                System::ISDB_T
            };
            // Hop-1 bus 2 carries all four demodulators on this board.
            let tuner = match system {
                System::ISDB_S => {
                    let mut t = RT710::new(2, addr);
                    match t.init(&mut self.it930x) {
                        Ok(_) => {},
                        Err(e) => {
                            return Err(e);
                        },
                    }
                    Tuner::RT710(t)
                },
                System::ISDB_T => {
                    let mut t = R850::new(2, addr);
                    match t.init(&mut self.it930x) {
                        Ok(_) => {},
                        Err(e) => {
                            return Err(e);
                        },
                    }
                    Tuner::R850(t)
                },
            };
            chrdevs.push(
                Px4Chrdev {
                    system,
                    port_number: i + 1,
                    slave_number: i,
                    sync_byte: ((i + 1) << 4) | 0x07,
                    tuner,
                },
            );
            i = i + 1;
        }
        self.px4chrdev = chrdevs;
        Ok(())
    }
}

} // verus!
