//! Motion-control and dosing core for a multi-pump liquid-dosing device.
//!
//! The library models the device's verified core: a trapezoidal motion
//! profile generator, a waveform encoder that turns inter-step delays into
//! pulse pairs, a model of the single shared transmission channel, the
//! stepper pump driver built on those, the dosing domain model (priming,
//! calibration, dispensing, unit conversion) and the startup reconciler
//! that merges persisted calibration records with detected hardware.
//!
//! Everything hardware- or network-facing (pin levels, the RMT peripheral,
//! HTTP, non-volatile storage, firmware flashing) lives outside this crate;
//! the library computes what to do and records what would be emitted.

pub mod arith;
pub mod channel;
pub mod dosing;
pub mod driver;
pub mod errors;
pub mod ota;
pub mod profile;
pub mod reconcile;
pub mod registry;
pub mod units;
pub mod waveform;
