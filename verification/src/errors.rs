//! Error taxonomy of the protocol stack.

use vstd::prelude::*;

verus! {

/// Transport-level failure reported by a bus implementation.  `Usb` carries
/// the transport's raw error code.
#[derive(Debug, Clone, Copy, PartialEq, Eq, Structural)]
pub enum BusError {
    Usb(i32),
    Timeout,
    Disconnected,
    Other,
}

/// Error of a control-message exchange or of one of the layers above it.
///
/// `Bus` wraps a transport failure; `InvalidLength`, `InvalidChecksum` and
/// `InvalidSequence` are framing errors of a corrupted exchange;
/// `InvalidArgument` rejects bad caller input before any bus I/O;
/// `DeviceError` passes a nonzero firmware status byte through uninterpreted;
/// `EepromError` reports a missing or invalid EEPROM; `FormatError` a
/// malformed firmware image; `BootFailed` a zero firmware version after boot.
#[derive(Debug, Clone, Copy, PartialEq, Eq, Structural)]
pub enum CtrlMsgError {
    Bus(BusError),
    InvalidLength,
    InvalidArgument,
    InvalidChecksum,
    InvalidSequence,
    DeviceError(u8),
    EepromError,
    FormatError,
    BootFailed,
}

/// Error of tuner bring-up.
#[derive(Debug, Clone, Copy, PartialEq, Eq, Structural)]
pub enum TunerError {
    CtrlMsg(CtrlMsgError),
    ChipNotDetected,
}

} // verus!
