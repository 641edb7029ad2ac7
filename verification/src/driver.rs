//! The stepper pump driver.
//!
//! One `DRV8825` stands for one physical pump: its identity (derived from
//! the enable-pin assignment), its microstepping multiplier, its
//! kinematic configuration against the shared channel's clock, and a
//! signed step-position counter. Relative and absolute moves build a
//! trapezoidal profile, encode it as a waveform and hand it to the shared
//! channel in one piece.
//!
//! Position policy: a move advances the position counter by the full
//! requested step count (saturating at the counter's bounds) even when
//! the transmission reports a hardware fault. The physical position is
//! uncertain after a fault, and this best-effort accounting keeps the
//! counter deterministic; callers that want re-homing on faults can watch
//! the returned result.

use crate::channel::{Transmission, TransmissionView, TxChannel};
use crate::errors::{ConfigError, HardwareFault};
use crate::profile::{spec_delay_at, KinematicConfig, ProfileIter};
use crate::waveform::{spec_encodable, spec_symbol, Symbol, MAX_PULSE_TICKS};
use vstd::prelude::*;

verus! {

/// Width of the high (step) pulse, in microseconds: long enough for the
/// stepper driver to latch reliably.
pub const STEP_PULSE_US: u32 = 2;

/// The microstepping multiplier a pump's driver is strapped to.
#[derive(Clone, Copy, Debug, PartialEq, Eq, Structural)]
pub enum MicroSteps {
    M1,
    M2,
    M4,
    M8,
    M16,
    M32,
}

impl MicroSteps {
    /// How many microsteps one full step subdivides into.
    pub open spec fn spec_factor(self) -> u32 {
        match self {
            MicroSteps::M1 => 1,
            MicroSteps::M2 => 2,
            MicroSteps::M4 => 4,
            MicroSteps::M8 => 8,
            MicroSteps::M16 => 16,
            MicroSteps::M32 => 32,
        }
    }

    pub fn factor(&self) -> (f: u32)
        ensures
            f == self.spec_factor(),
            1 <= f <= 32,
    {
        match self {
            MicroSteps::M1 => 1,
            MicroSteps::M2 => 2,
            MicroSteps::M4 => 4,
            MicroSteps::M8 => 8,
            MicroSteps::M16 => 16,
            MicroSteps::M32 => 32,
        }
    }

    /// Scales a full-step figure up to microsteps.
    pub fn scale(&self, val: u32) -> (r: u64)
        ensures
            r == val as int * self.spec_factor() as int,
    {
        val as u64 * self.factor() as u64
    }
}

/// Clamps to the range of the position counter.
pub open spec fn spec_sat_i32(v: int) -> int {
    if v > i32::MAX as int {
        i32::MAX as int
    } else if v < i32::MIN as int {
        i32::MIN as int
    } else {
        v
    }
}

/// Saturating add on the position counter.
pub fn sat_add_i32(a: i32, b: i32) -> (r: i32)
    ensures
        r as int == spec_sat_i32(a as int + b as int),
{
    match a.checked_add(b) {
        Some(v) => v,
        None => if b > 0 {
            i32::MAX
        } else {
            i32::MIN
        },
    }
}

/// Saturating subtract on the position counter.
pub fn sat_sub_i32(a: i32, b: i32) -> (r: i32)
    ensures
        r as int == spec_sat_i32(a as int - b as int),
{
    match a.checked_sub(b) {
        Some(v) => v,
        None => if b < 0 {
            i32::MAX
        } else {
            i32::MIN
        },
    }
}

/// Stepping by `s` and then by `-s` restores the position counter to its
/// original value, for any step count whose moves stay inside the
/// counter's bounds (the saturation edge cases are excluded). This is the
/// position clause of [`DRV8825::step_by`] applied twice.
pub proof fn lemma_step_by_round_trip(p: int, s: int)
    requires
        i32::MIN as int <= p <= i32::MAX as int,
        (i32::MIN as int) < s <= i32::MAX as int,
        i32::MIN as int <= p + s <= i32::MAX as int,
    ensures
        spec_sat_i32(spec_sat_i32(p + s) + (-s)) == p,
{
}

/// How many microstep pulses a move of `steps` full steps emits: the
/// magnitude scaled by the microstepping factor, saturated at the
/// profile generator's step-count type.
pub open spec fn spec_scaled_steps(steps: int, microsteps: MicroSteps) -> int {
    let mag = if steps >= 0 {
        steps
    } else {
        -steps
    };
    let scaled = mag * microsteps.spec_factor() as int;
    if scaled > u32::MAX as int {
        u32::MAX as int
    } else {
        scaled
    }
}

/// One pump's stepper driver.
#[derive(Clone, Copy, Debug)]
pub struct DRV8825 {
    pub id: u32,
    pub position: i32,
    pub microsteps: MicroSteps,
    pub cfg: KinematicConfig,
    pub high_ticks: u16,
}

/// The driver state after a move of `steps`: the position counter
/// advances, saturating at its bounds; nothing else changes.
pub open spec fn spec_stepped(d: DRV8825, steps: int) -> DRV8825 {
    DRV8825 { position: spec_sat_i32(d.position as int + steps) as i32, ..d }
}

/// What `DRV8825::new` computes from the raw parameters: the microstep-
/// scaled kinematic configuration and the high pulse width in ticks, or
/// the configuration error the parameters draw.
pub open spec fn spec_driver_setup(
    clock_hz: u32,
    ramp_rate: u32,
    max_speed: u32,
    microsteps: MicroSteps,
) -> Result<(KinematicConfig, u16), ConfigError> {
    let f = microsteps.spec_factor() as int;
    let ramp = ramp_rate as int * f;
    let speed = max_speed as int * f;
    let high = clock_hz as int * STEP_PULSE_US as int / 1_000_000;
    if clock_hz == 0 || ramp_rate == 0 || max_speed == 0 {
        Err(ConfigError::ZeroParameter)
    } else if ramp > u32::MAX as int || speed > u32::MAX as int {
        Err(ConfigError::RateOverflow)
    } else if high < 1 || high > MAX_PULSE_TICKS as int {
        Err(ConfigError::PulseWidth)
    } else {
        let cfg = KinematicConfig {
            clock_hz,
            ramp_rate: ramp as u32,
            max_speed: speed as u32,
        };
        if cfg.spec_min_delay() < high {
            Err(ConfigError::DelayBelowPulse)
        } else if cfg.spec_max_delay() > high + MAX_PULSE_TICKS as int {
            Err(ConfigError::DelayAboveCeiling)
        } else {
            Ok((cfg, high as u16))
        }
    }
}

/// The direction level and pulse stream a move emits, as one whole
/// channel record.
pub open spec fn spec_step_transmission(d: DRV8825, steps: int) -> TransmissionView {
    TransmissionView {
        pump_id: d.spec_id(),
        forward: steps > 0,
        symbols: spec_step_waveform(d, steps),
    }
}

/// The pulse stream of a move: one symbol per microstep, each spanning
/// the profile's delay for its position in the move.
pub open spec fn spec_step_waveform(d: DRV8825, steps: int) -> Seq<Symbol> {
    let n = spec_scaled_steps(steps, d.spec_microsteps());
    Seq::new(n as nat, |i: int| spec_symbol(spec_delay_at(d.spec_cfg(), n, i), d.spec_high_ticks() as int))
}

/// A move's channel record depends only on the driver's setup, never on
/// its position counter: two states of one driver emit identical
/// waveforms for the same step count.
pub proof fn lemma_transmission_same_setup(a: DRV8825, b: DRV8825, steps: int)
    requires
        spec_same_setup(a, b),
    ensures
        spec_step_transmission(a, steps) == spec_step_transmission(b, steps),
{
    assert(spec_step_waveform(a, steps) =~= spec_step_waveform(b, steps));
}

/// The configuration of two driver states agrees (everything but the
/// position counter).
pub open spec fn spec_same_setup(a: DRV8825, b: DRV8825) -> bool {
    &&& a.spec_id() == b.spec_id()
    &&& a.spec_microsteps() == b.spec_microsteps()
    &&& a.spec_cfg() == b.spec_cfg()
    &&& a.spec_high_ticks() == b.spec_high_ticks()
}

impl DRV8825 {
    /// The stable identity of the pump this driver runs, derived from
    /// its enable-pin assignment.
    pub open spec fn spec_id(self) -> u32 {
        self.id
    }

    /// The signed step-position counter.
    pub open spec fn spec_position(self) -> i32 {
        self.position
    }

    pub open spec fn spec_microsteps(self) -> MicroSteps {
        self.microsteps
    }

    pub open spec fn spec_cfg(self) -> KinematicConfig {
        self.cfg
    }

    pub open spec fn spec_high_ticks(self) -> u16 {
        self.high_ticks
    }

    /// A driver is well formed when its kinematics are positive and every
    /// delay its profiles can produce fits a waveform symbol: the fastest
    /// step still spans the high pulse, and the slowest step's low pulse
    /// still fits one pulse field.
    pub open spec fn wf(self) -> bool {
        &&& self.spec_cfg().wf()
        &&& 1 <= self.spec_high_ticks()
        &&& self.spec_high_ticks() as int <= self.spec_cfg().spec_min_delay()
        &&& self.spec_cfg().spec_max_delay() <= self.spec_high_ticks() as int
            + MAX_PULSE_TICKS as int
    }

    /// Builds a driver for one pump. The ramp rate and speed cap are
    /// given in full steps and scaled here by the microstepping
    /// multiplier; the high pulse width is sized against the channel
    /// clock. Succeeds exactly when `spec_driver_setup` does, with the
    /// position counter at zero.
    pub fn new(
        id: u32,
        clock_hz: u32,
        ramp_rate: u32,
        max_speed: u32,
        microsteps: MicroSteps,
    ) -> (r: Result<DRV8825, ConfigError>)
        ensures
            r is Ok <==> spec_driver_setup(clock_hz, ramp_rate, max_speed, microsteps) is Ok,
            r matches Ok(d) ==> {
                &&& spec_driver_setup(clock_hz, ramp_rate, max_speed, microsteps) matches Ok(
                    setup,
                )
                &&& d.wf()
                &&& d.spec_id() == id
                &&& d.spec_position() == 0
                &&& d.spec_microsteps() == microsteps
                &&& d.spec_cfg() == setup.0
                &&& d.spec_high_ticks() == setup.1
            },
            r matches Err(e) ==> spec_driver_setup(clock_hz, ramp_rate, max_speed, microsteps)
                matches Err(e2) && e == e2,
    {
        let ramp64: u64 = microsteps.scale(ramp_rate);
        let speed64: u64 = microsteps.scale(max_speed);
        let high64: u64 = clock_hz as u64 * STEP_PULSE_US as u64 / 1_000_000;
        if clock_hz == 0 || ramp_rate == 0 || max_speed == 0 {
            Err(ConfigError::ZeroParameter)
        } else if ramp64 > u32::MAX as u64 || speed64 > u32::MAX as u64 {
            Err(ConfigError::RateOverflow)
        } else if high64 < 1 || high64 > MAX_PULSE_TICKS as u64 {
            Err(ConfigError::PulseWidth)
        } else {
            let cfg = KinematicConfig {
                clock_hz,
                ramp_rate: ramp64 as u32,
                max_speed: speed64 as u32,
            };
            let high = high64 as u16;
            proof {
                assert(ramp64 >= 1 && speed64 >= 1) by (nonlinear_arith)
                    requires
                        ramp64 == ramp_rate as int * microsteps.spec_factor() as int,
                        speed64 == max_speed as int * microsteps.spec_factor() as int,
                        ramp_rate >= 1,
                        max_speed >= 1,
                        microsteps.spec_factor() >= 1,
                ;
            }
            let min_delay: u32 = clock_hz / cfg.max_speed;
            let slow_rate: u32 = if cfg.ramp_rate <= cfg.max_speed {
                cfg.ramp_rate
            } else {
                cfg.max_speed
            };
            let max_delay: u32 = clock_hz / slow_rate;
            if min_delay < high as u32 {
                Err(ConfigError::DelayBelowPulse)
            } else if max_delay > high as u32 + MAX_PULSE_TICKS as u32 {
                Err(ConfigError::DelayAboveCeiling)
            } else {
                Ok(DRV8825 { id, position: 0, microsteps, cfg, high_ticks: high })
            }
        }
    }

    /// The pump identity.
    pub fn id(&self) -> (r: u32)
        ensures
            r == self.spec_id(),
    {
        self.id
    }

    /// Reads the position counter.
    pub fn get_position(&self) -> (p: i32)
        ensures
            p == self.spec_position(),
    {
        self.position
    }

    /// Re-baselines the position counter to zero.
    pub fn reset_position(&mut self)
        ensures
            spec_same_setup(*final(self), *old(self)),
            final(self).spec_position() == 0,
            old(self).wf() ==> final(self).wf(),
    {
        self.position = 0;
    }

    /// Moves the pump by `steps` full steps (sign gives the direction):
    /// builds the trapezoidal waveform for the scaled magnitude and
    /// transmits it on the shared channel as one whole record. The
    /// position counter advances by `steps`, saturating at its bounds,
    /// whether or not the transmission succeeded (see the module note on
    /// the position policy).
    pub fn step_by(&mut self, chan: &mut TxChannel, steps: i32) -> (r: Result<(), HardwareFault>)
        requires
            old(self).wf(),
        ensures
            final(self).wf(),
            *final(self) == spec_stepped(*old(self), steps as int),
            final(chan).spec_healthy() == old(chan).spec_healthy(),
            old(chan).spec_healthy() ==> {
                &&& r is Ok
                &&& final(chan).spec_log() == old(chan).spec_log().push(
                    spec_step_transmission(*old(self), steps as int),
                )
            },
            !old(chan).spec_healthy() ==> {
                &&& r is Err
                &&& final(chan).spec_log() == old(chan).spec_log()
            },
    {
        let mag: u32 = if steps >= 0 {
            steps as u32
        } else {
            (-(steps as i64)) as u32
        };
        let scaled64: u64 = self.microsteps.scale(mag);
        let n: u32 = if scaled64 > u32::MAX as u64 {
            u32::MAX
        } else {
            scaled64 as u32
        };
        proof {
            assert(n as int == spec_scaled_steps(steps as int, self.microsteps));
        }
        let symbols = self.build_waveform(n);
        let t = Transmission { pump_id: self.id, forward: steps > 0, symbols };
        proof {
            assert(t@.symbols =~= spec_step_waveform(*old(self), steps as int));
            assert(t@ == spec_step_transmission(*old(self), steps as int));
        }
        let res = chan.transmit(t);
        self.position = sat_add_i32(self.position, steps);
        res
    }

    /// Builds the pulse stream for a move of `n` microsteps. Private to
    /// the driver: the well-formedness bounds guarantee every profile
    /// delay encodes.
    fn build_waveform(&self, n: u32) -> (symbols: Vec<Symbol>)
        requires
            self.wf(),
        ensures
            symbols@.len() == n as int,
            forall|i: int|
                0 <= i < n as int ==> symbols@[i] == spec_symbol(
                    spec_delay_at(self.spec_cfg(), n as int, i),
                    self.spec_high_ticks() as int,
                ),
    {
        let mut it = ProfileIter::new(self.cfg, n);
        let mut symbols: Vec<Symbol> = Vec::new();
        loop
            invariant
                self.wf(),
                it.wf(),
                it.spec_cfg() == self.spec_cfg(),
                it.spec_total() == n as int,
                it.spec_emitted() == symbols@.len(),
                symbols@.len() <= n as int,
                forall|i: int|
                    0 <= i < symbols@.len() ==> symbols@[i] == spec_symbol(
                        spec_delay_at(self.spec_cfg(), n as int, i),
                        self.spec_high_ticks() as int,
                    ),
            decreases n as int - symbols@.len(),
        {
            let ghost at = symbols@.len() as int;
            match it.next() {
                Some(delay) => {
                    proof {
                        crate::profile::lemma_delay_bounds(self.spec_cfg(), n as int, at);
                        assert(spec_encodable(delay as int, self.spec_high_ticks() as int));
                    }
                    match crate::waveform::encode_delay(delay, self.high_ticks) {
                        Ok(s) => {
                            symbols.push(s);
                        }
                        Err(_) => {
                            proof {
                                assert(false);
                            }
                            return vstd::pervasive::unreached();
                        }
                    }
                }
                None => {
                    return symbols;
                }
            }
        }
    }

    /// Moves to an absolute position: computes the (saturating)
    /// difference from the current position and delegates to `step_by`.
    /// Whenever that difference fits the counter, the pump lands exactly
    /// on `target_pos`.
    pub fn goto(&mut self, chan: &mut TxChannel, target_pos: i32) -> (r: Result<
        (),
        HardwareFault,
    >)
        requires
            old(self).wf(),
        ensures
            final(self).wf(),
            ({
                let delta = spec_sat_i32(target_pos as int - old(self).spec_position() as int);
                &&& *final(self) == spec_stepped(*old(self), delta)
                &&& (i32::MIN as int <= target_pos as int - old(self).spec_position() as int
                    <= i32::MAX as int ==> final(self).spec_position() == target_pos)
                &&& final(chan).spec_healthy() == old(chan).spec_healthy()
                &&& (old(chan).spec_healthy() ==> r is Ok && final(chan).spec_log() == old(
                    chan,
                ).spec_log().push(spec_step_transmission(*old(self), delta)))
                &&& (!old(chan).spec_healthy() ==> r is Err && final(chan).spec_log() == old(
                    chan,
                ).spec_log())
            }),
    {
        let delta = sat_sub_i32(target_pos, self.position);
        self.step_by(chan, delta)
    }
}

} // verus!
