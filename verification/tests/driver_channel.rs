//! The pump driver against the shared channel model.

use nutrient_doser::channel::TxChannel;
use nutrient_doser::driver::{DRV8825, MicroSteps};
use nutrient_doser::errors::ConfigError;

/// A small single-microstep setup: clock 1 MHz (high pulse 2 ticks),
/// ramp 100 steps/s per step, cap 1000 steps/s.
fn small_driver(id: u32) -> DRV8825 {
    DRV8825::new(id, 1_000_000, 100, 1000, MicroSteps::M1).unwrap()
}

#[test]
fn new_starts_disengaged_at_zero() {
    let d = small_driver(4);
    assert_eq!(d.id(), 4);
    assert_eq!(d.get_position(), 0);
}

#[test]
fn new_rejects_zero_parameters() {
    assert_eq!(
        DRV8825::new(1, 0, 100, 1000, MicroSteps::M1).unwrap_err(),
        ConfigError::ZeroParameter
    );
    assert_eq!(
        DRV8825::new(1, 1_000_000, 0, 1000, MicroSteps::M1).unwrap_err(),
        ConfigError::ZeroParameter
    );
    assert_eq!(
        DRV8825::new(1, 1_000_000, 100, 0, MicroSteps::M1).unwrap_err(),
        ConfigError::ZeroParameter
    );
}

#[test]
fn new_rejects_microstep_rate_overflow() {
    assert_eq!(
        DRV8825::new(1, 1_000_000, u32::MAX / 2, 1000, MicroSteps::M32).unwrap_err(),
        ConfigError::RateOverflow
    );
}

#[test]
fn new_rejects_a_clock_too_slow_for_the_pulse() {
    // 100 kHz: a 2 microsecond pulse is zero ticks.
    assert_eq!(
        DRV8825::new(1, 100_000, 100, 1000, MicroSteps::M1).unwrap_err(),
        ConfigError::PulseWidth
    );
}

#[test]
fn new_rejects_a_speed_cap_faster_than_the_pulse() {
    // 2 MHz clock, high pulse 4 ticks; 600 000 steps/s would need
    // 3-tick periods.
    assert_eq!(
        DRV8825::new(1, 2_000_000, 100, 600_000, MicroSteps::M1).unwrap_err(),
        ConfigError::DelayBelowPulse
    );
}

#[test]
fn new_rejects_a_ramp_too_slow_to_encode() {
    // First-step speed 1 step/s: a 2-million-tick delay cannot fit one
    // pulse field.
    assert_eq!(
        DRV8825::new(1, 2_000_000, 1, 500_000, MicroSteps::M1).unwrap_err(),
        ConfigError::DelayAboveCeiling
    );
}

#[test]
fn step_by_advances_position_and_transmits_once() {
    let mut d = small_driver(7);
    let mut chan = TxChannel::new();
    d.step_by(&mut chan, 3).unwrap();
    assert_eq!(d.get_position(), 3);
    assert_eq!(chan.log_len(), 1);
    let t = chan.transmission_at(0);
    assert_eq!(t.pump_id, 7);
    assert!(t.forward);
    assert_eq!(t.symbols.len(), 3);
    // Three-step profile: ramp indices [0,1,0], speeds [100,200,100],
    // delays [10000, 5000, 10000], high pulse 2 ticks.
    assert_eq!(t.symbols[0].high_ticks, 2);
    assert_eq!(t.symbols[0].low_ticks, 9998);
    assert_eq!(t.symbols[1].low_ticks, 4998);
    assert_eq!(t.symbols[2].low_ticks, 9998);
}

#[test]
fn microstepping_scales_the_pulse_count() {
    // Device-like figures: 400 steps/s^2-class ramp, about 400 rpm on a
    // 200-step motor (1333 full steps/s), 32 microsteps, 2 MHz clock.
    let mut d = DRV8825::new(9, 2_000_000, 400, 1333, MicroSteps::M32).unwrap();
    let mut chan = TxChannel::new();
    d.step_by(&mut chan, 2).unwrap();
    // Two full steps at 32 microsteps each.
    assert_eq!(chan.transmission_at(0).symbols.len(), 64);
    // The position counter advances by the requested full-step count.
    assert_eq!(d.get_position(), 2);
}

#[test]
fn step_by_round_trip_restores_position() {
    let mut d = small_driver(1);
    let mut chan = TxChannel::new();
    d.step_by(&mut chan, 123).unwrap();
    d.step_by(&mut chan, -123).unwrap();
    assert_eq!(d.get_position(), 0);
    let t = chan.transmission_at(1);
    assert!(!t.forward);
    assert_eq!(t.symbols.len(), 123);
}

#[test]
fn goto_lands_on_the_target() {
    let mut d = small_driver(1);
    let mut chan = TxChannel::new();
    d.goto(&mut chan, 40).unwrap();
    assert_eq!(d.get_position(), 40);
    d.goto(&mut chan, -5).unwrap();
    assert_eq!(d.get_position(), -5);
    assert_eq!(chan.log_len(), 2);
}

#[test]
fn reset_position_rebaselines() {
    let mut d = small_driver(1);
    let mut chan = TxChannel::new();
    d.step_by(&mut chan, 17).unwrap();
    d.reset_position();
    assert_eq!(d.get_position(), 0);
}

#[test]
fn fault_still_advances_position_but_transmits_nothing() {
    // The best-effort position policy: after a hardware fault the
    // physical position is uncertain, and the counter advances anyway.
    let mut d = small_driver(1);
    let mut chan = TxChannel::new();
    chan.set_healthy(false);
    let r = d.step_by(&mut chan, 5);
    assert!(r.is_err());
    assert_eq!(d.get_position(), 5);
    assert_eq!(chan.log_len(), 0);
}

#[test]
fn transmissions_never_interleave() {
    // Two pumps sharing the one channel: each motion lands as one whole
    // waveform record attributed to its pump, in issue order.
    let mut a = small_driver(10);
    let mut b = small_driver(11);
    let mut chan = TxChannel::new();
    a.step_by(&mut chan, 4).unwrap();
    b.step_by(&mut chan, 2).unwrap();
    a.step_by(&mut chan, 1).unwrap();
    assert_eq!(chan.log_len(), 3);
    assert_eq!(chan.transmission_at(0).pump_id, 10);
    assert_eq!(chan.transmission_at(0).symbols.len(), 4);
    assert_eq!(chan.transmission_at(1).pump_id, 11);
    assert_eq!(chan.transmission_at(1).symbols.len(), 2);
    assert_eq!(chan.transmission_at(2).pump_id, 10);
    assert_eq!(chan.transmission_at(2).symbols.len(), 1);
}

#[test]
fn channel_recovers_with_health() {
    let mut d = small_driver(1);
    let mut chan = TxChannel::new();
    chan.set_healthy(false);
    assert!(d.step_by(&mut chan, 1).is_err());
    chan.set_healthy(true);
    assert!(d.step_by(&mut chan, 1).is_ok());
    assert_eq!(chan.log_len(), 1);
}

#[test]
fn microstep_factors() {
    let all = [
        (MicroSteps::M1, 1),
        (MicroSteps::M2, 2),
        (MicroSteps::M4, 4),
        (MicroSteps::M8, 8),
        (MicroSteps::M16, 16),
        (MicroSteps::M32, 32),
    ];
    for (m, f) in all {
        assert_eq!(m.factor(), f);
        assert_eq!(m.scale(3), 3 * f as u64);
    }
}
