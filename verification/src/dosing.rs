//! The logical pump: a calibration record bound to a stepper driver.
//!
//! A logical pump carries its persisted calibration — how much liquid one
//! full step moves, and how many steps fill the dead tubing volume — and,
//! at runtime, the driver of the physical pump it stands for. A pump with
//! no bound driver is inert: every motion operation on it is a no-op.
//!
//! The calibration rate is an exact rational number of volume units per
//! full step, so that rescaling by a measured ratio loses nothing:
//! calibrating with an expected and an actual volume multiplies the rate
//! by `actual / expected` exactly.

use crate::channel::{TransmissionView, TxChannel};
use crate::driver::{
    spec_sat_i32, spec_scaled_steps, spec_step_transmission, spec_stepped, DRV8825,
};
use crate::errors::{ClientError, HardwareFault};
use vstd::prelude::*;

verus! {

/// How many full steps a dispense backs off afterwards to relieve line
/// pressure, so no extra liquid drips from the nozzle.
pub const BACKOFF_STEPS: u32 = 50;

/// Volume units dispensed per full step, as an exact rational
/// `num / den`.
#[derive(Clone, Copy, Debug, PartialEq, Eq, Structural)]
pub struct MlPerStep {
    pub num: u64,
    pub den: u64,
}

impl MlPerStep {
    /// Both sides positive: the rate is a well-defined positive rational.
    pub open spec fn wf(self) -> bool {
        &&& self.num >= 1
        &&& self.den >= 1
    }

    /// Equality as rational numbers, by cross-multiplication.
    pub open spec fn spec_eq(self, other: MlPerStep) -> bool {
        self.num as int * other.den as int == other.num as int * self.den as int
    }

    /// Rescales the rate after a measurement: dispensing what the current
    /// calibration called `expected` was observed to move `actual`, so
    /// the rate is multiplied by `actual / expected` exactly. Fails on a
    /// zero volume, or when the exact rescaled fraction no longer fits.
    pub fn calibrate(&mut self, expected: u64, actual: u64) -> (r: Result<(), ClientError>)
        requires
            old(self).wf(),
        ensures
            final(self).wf(),
            expected == 0 || actual == 0 ==> r == Err::<(), ClientError>(ClientError::ZeroVolume)
                && *final(self) == *old(self),
            expected >= 1 && actual >= 1 ==> {
                if old(self).num as int * actual as int <= u64::MAX as int && old(self).den as int
                    * expected as int <= u64::MAX as int {
                    &&& r is Ok
                    &&& final(self).num as int == old(self).num as int * actual as int
                    &&& final(self).den as int == old(self).den as int * expected as int
                } else {
                    &&& r == Err::<(), ClientError>(ClientError::CalibrationOverflow)
                    &&& *final(self) == *old(self)
                }
            },
    {
        if expected == 0 || actual == 0 {
            return Err(ClientError::ZeroVolume);
        }
        let ghost n0 = self.num;
        let ghost d0 = self.den;
        match (self.num.checked_mul(actual), self.den.checked_mul(expected)) {
            (Some(num), Some(den)) => {
                proof {
                    assert(num >= 1 && den >= 1) by (nonlinear_arith)
                        requires
                            num == n0 as int * actual as int,
                            den == d0 as int * expected as int,
                            n0 >= 1,
                            d0 >= 1,
                            actual >= 1,
                            expected >= 1,
                    ;
                }
                self.num = num;
                self.den = den;
                Ok(())
            }
            _ => Err(ClientError::CalibrationOverflow),
        }
    }
}

impl Default for MlPerStep {
    /// The factory rate: 0.0032 ml per full step, i.e. 32 volume units.
    fn default() -> (r: Self)
        ensures
            r == (MlPerStep { num: 32, den: 1 }),
            r.wf(),
    {
        MlPerStep { num: 32, den: 1 }
    }
}

/// Calibration round-trip: rescaling by `actual / expected` and then by
/// `expected / actual` restores the original rate exactly, as a rational
/// number. The hypotheses are the success clauses of
/// [`MlPerStep::calibrate`] applied twice with the volumes swapped.
pub proof fn lemma_calibrate_round_trip(r0: MlPerStep, r1: MlPerStep, r2: MlPerStep, e: u64, a: u64)
    requires
        r0.wf(),
        e >= 1,
        a >= 1,
        r1.num as int == r0.num as int * a as int,
        r1.den as int == r0.den as int * e as int,
        r2.num as int == r1.num as int * e as int,
        r2.den as int == r1.den as int * a as int,
    ensures
        r2.spec_eq(r0),
{
    assert(r0.num as int * a as int * e as int * r0.den as int == r0.num as int * (r0.den as int
        * e as int * a as int)) by (nonlinear_arith);
}

/// The persisted attributes of one logical pump.
#[derive(Clone, Copy, Debug, PartialEq, Eq, Structural)]
pub struct CalibrationRecord {
    /// The pump identity, derived from the enable-pin assignment.
    pub id: u32,
    /// Volume units dispensed per full step.
    pub ml_per_step: MlPerStep,
    /// Steps needed to pull liquid through the tubing up to the nozzle.
    pub prime_steps: u32,
}

impl CalibrationRecord {
    pub open spec fn wf(self) -> bool {
        self.ml_per_step.wf()
    }
}

/// One logical pump: a calibration record and, when the hardware was
/// detected, the driver bound to it.
#[derive(Clone, Copy, Debug)]
pub struct LogicalPump {
    pub id: u32,
    pub driver: Option<DRV8825>,
    pub ml_per_step: MlPerStep,
    pub prime_steps: u32,
}

impl Default for LogicalPump {
    /// An unbound pump with the factory calibration and no priming.
    fn default() -> (r: Self)
        ensures
            r.id == 0,
            r.driver is None,
            r.ml_per_step == (MlPerStep { num: 32, den: 1 }),
            r.prime_steps == 0,
            r.wf(),
    {
        LogicalPump { id: 0, driver: None, ml_per_step: MlPerStep::default(), prime_steps: 0 }
    }
}

/// Clamps an unsigned step count to the signed step argument.
pub open spec fn spec_clamp_u32(s: int) -> int {
    if s > i32::MAX as int {
        i32::MAX as int
    } else {
        s
    }
}

/// Clamps an unsigned step count into a signed step argument.
pub fn clamp_steps(s: u32) -> (r: i32)
    ensures
        r as int == spec_clamp_u32(s as int),
{
    if s > i32::MAX as u32 {
        i32::MAX
    } else {
        s as i32
    }
}

/// The pump after its driver (if any) moved by `steps`.
pub open spec fn spec_pump_stepped(p: LogicalPump, steps: int) -> LogicalPump {
    match p.driver {
        Some(d) => LogicalPump { driver: Some(spec_stepped(d, steps)), ..p },
        None => p,
    }
}

/// The pump after its driver (if any) was re-baselined to position zero.
pub open spec fn spec_pump_rezeroed(p: LogicalPump) -> LogicalPump {
    match p.driver {
        Some(d) => LogicalPump { driver: Some(DRV8825 { position: 0, ..d }), ..p },
        None => p,
    }
}

/// How many full steps a dispense of `vol` volume units drives: the
/// exact quotient of the volume by the rational rate, rounded down and
/// clamped to the step argument.
pub open spec fn spec_dispense_steps(cal: MlPerStep, vol: u64) -> int
    recommends
        cal.wf(),
{
    let steps = vol as int * cal.den as int / cal.num as int;
    if steps > i32::MAX as int {
        i32::MAX as int
    } else {
        steps
    }
}

/// Computes the full-step count a dispense drives.
pub fn dispense_steps(cal: MlPerStep, vol: u64) -> (r: i32)
    requires
        cal.wf(),
    ensures
        r as int == spec_dispense_steps(cal, vol),
{
    proof {
        crate::arith::lemma_u64_mul_fits_u128(vol, cal.den);
    }
    let exact: u128 = vol as u128 * cal.den as u128 / cal.num as u128;
    if exact > i32::MAX as u128 {
        i32::MAX
    } else {
        exact as i32
    }
}

/// What one `ensure_primed` does: the pump after it, the records it put
/// on the channel, and whether it succeeded.
pub open spec fn spec_ensure_primed(p: LogicalPump, healthy: bool) -> (
    LogicalPump,
    Seq<TransmissionView>,
    bool,
) {
    match p.driver {
        None => (p, Seq::<TransmissionView>::empty(), true),
        Some(d) => {
            if p.spec_is_primed() {
                (p, Seq::<TransmissionView>::empty(), true)
            } else {
                let steps = spec_clamp_u32(p.prime_steps as int);
                if healthy {
                    (spec_pump_stepped(p, steps), seq![spec_step_transmission(d, steps)], true)
                } else {
                    (spec_pump_stepped(p, steps), Seq::<TransmissionView>::empty(), false)
                }
            }
        }
    }
}

/// What one `unprime` does: a full reverse purge of twice the priming
/// count, then the counter re-baselined to zero.
pub open spec fn spec_unprime(p: LogicalPump, healthy: bool) -> (
    LogicalPump,
    Seq<TransmissionView>,
    bool,
) {
    match p.driver {
        None => (p, Seq::<TransmissionView>::empty(), true),
        Some(d) => {
            let steps = spec_sat_i32(-2 * p.prime_steps as int);
            let p2 = spec_pump_rezeroed(spec_pump_stepped(p, steps));
            if healthy {
                (p2, seq![spec_step_transmission(d, steps)], true)
            } else {
                (p2, Seq::<TransmissionView>::empty(), false)
            }
        }
    }
}

/// What one `dispense_ml` does: prime if needed, drive the calibrated
/// step count, then back off. On a faulty channel the first motion
/// reports the fault and the operation stops there; its position
/// advance still lands (the driver's position policy).
pub open spec fn spec_dispense_pump(p: LogicalPump, vol: u64, healthy: bool) -> (
    LogicalPump,
    Seq<TransmissionView>,
    bool,
) {
    match p.driver {
        None => (p, Seq::<TransmissionView>::empty(), true),
        Some(d) => {
            let prime = spec_clamp_u32(p.prime_steps as int);
            let main = spec_dispense_steps(p.ml_per_step, vol);
            let back = -(BACKOFF_STEPS as int);
            if !healthy {
                let first = if p.spec_is_primed() {
                    main
                } else {
                    prime
                };
                (spec_pump_stepped(p, first), Seq::<TransmissionView>::empty(), false)
            } else if p.spec_is_primed() {
                let p2 = spec_pump_stepped(spec_pump_stepped(p, main), back);
                (p2, seq![spec_step_transmission(d, main), spec_step_transmission(d, back)], true)
            } else {
                let p3 = spec_pump_stepped(
                    spec_pump_stepped(spec_pump_stepped(p, prime), main),
                    back,
                );
                (
                    p3,
                    seq![
                        spec_step_transmission(d, prime),
                        spec_step_transmission(d, main),
                        spec_step_transmission(d, back),
                    ],
                    true,
                )
            }
        }
    }
}

/// How many of these channel records carry actual motion (a nonempty
/// pulse stream).
pub open spec fn spec_motion_count(txs: Seq<TransmissionView>) -> int
    decreases txs.len(),
{
    if txs.len() == 0 {
        0
    } else {
        (if txs[0].symbols.len() > 0 {
            1 as int
        } else {
            0 as int
        }) + spec_motion_count(txs.drop_first())
    }
}

/// Motion counts add over concatenation.
pub proof fn lemma_motion_count_concat(a: Seq<TransmissionView>, b: Seq<TransmissionView>)
    ensures
        spec_motion_count(a + b) == spec_motion_count(a) + spec_motion_count(b),
    decreases a.len(),
{
    if a.len() == 0 {
        assert(a + b =~= b);
    } else {
        assert((a + b).drop_first() =~= a.drop_first() + b);
        lemma_motion_count_concat(a.drop_first(), b);
    }
}

/// A single record counts one motion exactly when its pulse stream is
/// nonempty.
pub proof fn lemma_motion_count_single(t: TransmissionView)
    ensures
        spec_motion_count(seq![t]) == if t.symbols.len() > 0 {
            1 as int
        } else {
            0 as int
        },
{
    assert(seq![t].drop_first() =~= Seq::<TransmissionView>::empty());
    assert(spec_motion_count(Seq::<TransmissionView>::empty()) == 0);
}

impl LogicalPump {
    pub open spec fn wf(self) -> bool {
        &&& self.ml_per_step.wf()
        &&& (self.driver matches Some(d) ==> d.wf())
    }

    /// A pump is primed exactly when its bound driver's position counter
    /// is strictly positive; an unbound pump never is.
    pub open spec fn spec_is_primed(self) -> bool {
        match self.driver {
            Some(d) => d.spec_position() > 0,
            None => false,
        }
    }

    pub fn is_primed(&self) -> (r: bool)
        ensures
            r == self.spec_is_primed(),
    {
        match &self.driver {
            Some(drv) => drv.get_position() > 0,
            None => false,
        }
    }

    /// Moves the bound driver by `steps`; an unbound pump stays inert.
    pub(crate) fn step_driver(&mut self, chan: &mut TxChannel, steps: i32) -> (r: Result<(), HardwareFault>)
        requires
            old(self).wf(),
        ensures
            final(self).wf(),
            *final(self) == spec_pump_stepped(*old(self), steps as int),
            final(chan).spec_healthy() == old(chan).spec_healthy(),
            old(self).driver matches Some(d) ==> {
                &&& (old(chan).spec_healthy() ==> r is Ok && final(chan).spec_log() == old(
                    chan,
                ).spec_log().push(spec_step_transmission(d, steps as int)))
                &&& (!old(chan).spec_healthy() ==> r is Err && final(chan).spec_log() == old(
                    chan,
                ).spec_log())
            },
            old(self).driver is None ==> r is Ok && final(chan).spec_log() == old(
                chan,
            ).spec_log(),
    {
        let res = match &mut self.driver {
            Some(drv) => drv.step_by(chan, steps),
            None => Ok(()),
        };
        res
    }

    /// Re-baselines the bound driver's counter to zero.
    fn rezero_driver(&mut self)
        requires
            old(self).wf(),
        ensures
            final(self).wf(),
            *final(self) == spec_pump_rezeroed(*old(self)),
    {
        match &mut self.driver {
            Some(drv) => drv.reset_position(),
            None => {},
        }
    }

    /// Primes the pump unless it already is: drives `prime_steps`
    /// forward so dead tubing volume is filled before dosing.
    pub fn ensure_primed(&mut self, chan: &mut TxChannel) -> (r: Result<(), HardwareFault>)
        requires
            old(self).wf(),
        ensures
            final(self).wf(),
            final(chan).spec_healthy() == old(chan).spec_healthy(),
            ({
                let (p2, txs, ok) = spec_ensure_primed(*old(self), old(chan).spec_healthy());
                &&& *final(self) == p2
                &&& final(chan).spec_log() == old(chan).spec_log() + txs
                &&& (r is Ok <==> ok)
            }),
    {
        let ghost log0 = chan.spec_log();
        if self.is_primed() {
            proof {
                assert(chan.spec_log() =~= log0 + Seq::<TransmissionView>::empty());
            }
            return Ok(());
        }
        let steps = clamp_steps(self.prime_steps);
        let r = self.step_driver(chan, steps);
        proof {
            if old(self).driver is Some && old(chan).spec_healthy() {
                assert(chan.spec_log() =~= log0 + seq![
                    spec_step_transmission(old(self).driver->Some_0, steps as int),
                ]);
            } else {
                assert(chan.spec_log() =~= log0 + Seq::<TransmissionView>::empty());
            }
        }
        r
    }

    /// Purges the pump: drives twice the priming count in reverse (a
    /// full reverse purge of the tubing) and then re-baselines the
    /// position counter to exactly zero — always, whatever the position
    /// was before and even when the transmission faulted.
    pub fn unprime(&mut self, chan: &mut TxChannel) -> (r: Result<(), HardwareFault>)
        requires
            old(self).wf(),
        ensures
            final(self).wf(),
            final(chan).spec_healthy() == old(chan).spec_healthy(),
            ({
                let (p2, txs, ok) = spec_unprime(*old(self), old(chan).spec_healthy());
                &&& *final(self) == p2
                &&& final(chan).spec_log() == old(chan).spec_log() + txs
                &&& (r is Ok <==> ok)
            }),
            final(self).driver is Some ==> final(self).driver->Some_0.spec_position() == 0,
    {
        let ghost log0 = chan.spec_log();
        let steps: i32 = if self.prime_steps > (i32::MAX / 2) as u32 {
            i32::MIN
        } else {
            -2 * (self.prime_steps as i32)
        };
        proof {
            assert(steps as int == spec_sat_i32(-2 * old(self).prime_steps as int));
        }
        let r = self.step_driver(chan, steps);
        self.rezero_driver();
        proof {
            if old(self).driver is Some && old(chan).spec_healthy() {
                assert(chan.spec_log() =~= log0 + seq![
                    spec_step_transmission(old(self).driver->Some_0, steps as int),
                ]);
            } else {
                assert(chan.spec_log() =~= log0 + Seq::<TransmissionView>::empty());
            }
        }
        r
    }

    /// Dispenses `vol` volume units: primes if needed, drives
    /// `floor(vol / ml_per_step)` full steps, then backs off
    /// `BACKOFF_STEPS` to relieve line pressure.
    pub fn dispense_ml(&mut self, chan: &mut TxChannel, vol: u64) -> (r: Result<(), HardwareFault>)
        requires
            old(self).wf(),
        ensures
            final(self).wf(),
            final(chan).spec_healthy() == old(chan).spec_healthy(),
            ({
                let (p2, txs, ok) = spec_dispense_pump(*old(self), vol, old(chan).spec_healthy());
                &&& *final(self) == p2
                &&& final(chan).spec_log() == old(chan).spec_log() + txs
                &&& (r is Ok <==> ok)
            }),
    {
        let ghost pre = *old(self);
        let ghost healthy = old(chan).spec_healthy();
        let ghost log0 = chan.spec_log();
        let primed_res = self.ensure_primed(chan);
        if let Err(e) = primed_res {
            proof {
                assert(chan.spec_log() =~= log0 + spec_dispense_pump(pre, vol, healthy).1);
            }
            return Err(e);
        }
        let steps = dispense_steps(self.ml_per_step, vol);
        let r1 = self.step_driver(chan, steps);
        proof {
            if pre.driver is Some {
                crate::driver::lemma_transmission_same_setup(
                    spec_ensure_primed(pre, healthy).0.driver->Some_0,
                    pre.driver->Some_0,
                    steps as int,
                );
            }
        }
        if let Err(e) = r1 {
            proof {
                assert(chan.spec_log() =~= log0 + spec_dispense_pump(pre, vol, healthy).1);
            }
            return Err(e);
        }
        let back: i32 = -(BACKOFF_STEPS as i32);
        let r2 = self.step_driver(chan, back);
        proof {
            if pre.driver is Some {
                crate::driver::lemma_transmission_same_setup(
                    spec_pump_stepped(spec_ensure_primed(pre, healthy).0, steps as int).driver
                        ->Some_0,
                    pre.driver->Some_0,
                    back as int,
                );
                if healthy {
                    assert(chan.spec_log() =~= log0 + spec_dispense_pump(pre, vol, healthy).1);
                }
            } else {
                assert(chan.spec_log() =~= log0 + Seq::<TransmissionView>::empty());
            }
        }
        r2
    }
}

/// Priming is idempotent: across two consecutive `ensure_primed` calls,
/// hardware motion (a transmission with a nonempty pulse stream) is
/// issued at most once. The hypothesis excludes a counter so far below
/// zero that one priming cannot raise it above zero; for such a pump the
/// reference behaviour really does prime on both calls.
pub proof fn lemma_ensure_primed_idempotent(p: LogicalPump, healthy: bool)
    requires
        p.wf(),
        p.driver matches Some(d) ==> (p.prime_steps > 0 ==> d.spec_position() > 0
            || d.spec_position() as int + spec_clamp_u32(p.prime_steps as int) > 0),
    ensures
        ({
            let (p1, t1, ok1) = spec_ensure_primed(p, healthy);
            let (p2, t2, ok2) = spec_ensure_primed(p1, healthy);
            spec_motion_count(t1 + t2) <= 1
        }),
{
    let (p1, t1, ok1) = spec_ensure_primed(p, healthy);
    let (p2, t2, ok2) = spec_ensure_primed(p1, healthy);
    lemma_motion_count_concat(t1, t2);
    match p.driver {
        None => {},
        Some(d) => {
            if !p.spec_is_primed() {
                let steps = spec_clamp_u32(p.prime_steps as int);
                if p.prime_steps == 0 {
                    let f = d.spec_microsteps().spec_factor() as int;
                    assert(0 * f == 0) by (nonlinear_arith);
                    assert(spec_scaled_steps(steps, d.spec_microsteps()) == 0);
                    assert(spec_step_transmission(d, steps).symbols.len() == 0);
                    if healthy {
                        lemma_motion_count_single(spec_step_transmission(d, steps));
                        let d1 = p1.driver->Some_0;
                        assert(spec_step_transmission(d1, steps).symbols.len() == 0);
                        lemma_motion_count_single(spec_step_transmission(d1, steps));
                    }
                } else {
                    assert(p1.spec_is_primed());
                    if healthy {
                        lemma_motion_count_single(spec_step_transmission(d, steps));
                    }
                }
            }
        }
    }
}

} // verus!
