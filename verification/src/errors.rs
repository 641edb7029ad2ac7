//! Error taxonomy of the dosing core.
//!
//! Configuration errors are fatal to the operation that hit them and carry
//! no retry; hardware faults are reported to the caller as typed results
//! rather than aborting the task; client errors (a bad motor index, a zero
//! calibration volume) are reported per item and never abort a batch.
//! Persistence failures live with the storage glue outside this crate.

use vstd::prelude::*;

verus! {

/// A pin-level or transmission-level hardware failure.
#[derive(Clone, Copy, Debug, PartialEq, Eq, Structural)]
pub struct HardwareFault;

/// Invalid profile or pulse parameters.
#[derive(Clone, Copy, Debug, PartialEq, Eq, Structural)]
pub enum ConfigError {
    /// A clock, ramp or speed parameter was zero.
    ZeroParameter,
    /// The microstep-scaled ramp or speed does not fit the rate type.
    RateOverflow,
    /// The fixed high pulse is not representable (zero ticks, or more
    /// than one pulse can carry).
    PulseWidth,
    /// A delay is shorter than the fixed high pulse, so no low pulse
    /// could complete the period.
    DelayBelowPulse,
    /// A delay's low pulse exceeds what one pulse can carry.
    DelayAboveCeiling,
}

/// A request named a motor index outside the registry, or carried a
/// value no calibration can use.
#[derive(Clone, Copy, Debug, PartialEq, Eq, Structural)]
pub enum ClientError {
    /// The motor index is out of range.
    BadIndex,
    /// A calibration volume was zero.
    ZeroVolume,
    /// A rescaled calibration no longer fits its number type.
    CalibrationOverflow,
}

/// What a dosing operation can report: a client mistake or a hardware
/// fault; everything else succeeded.
#[derive(Clone, Copy, Debug, PartialEq, Eq, Structural)]
pub enum DoseError {
    Client(ClientError),
    Hardware(HardwareFault),
}

} // verus!
