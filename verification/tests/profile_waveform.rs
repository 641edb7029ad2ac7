//! The profile generator and the waveform encoder on concrete moves.

use nutrient_doser::errors::ConfigError;
use nutrient_doser::profile::{generate, KinematicConfig, ProfileIter};
use nutrient_doser::waveform::{encode_delay, encode_profile, Symbol, MAX_PULSE_TICKS};

fn cfg(clock_hz: u32, ramp_rate: u32, max_speed: u32) -> KinematicConfig {
    KinematicConfig { clock_hz, ramp_rate, max_speed }
}

#[test]
fn zero_steps_yield_empty_profile() {
    let v = generate(cfg(1_000_000, 100, 1000), 0);
    assert!(v.is_empty());
}

#[test]
fn profile_has_exactly_n_delays() {
    for n in [1u32, 2, 3, 7, 100] {
        let v = generate(cfg(1_000_000, 100, 1000), n);
        assert_eq!(v.len(), n as usize);
    }
}

#[test]
fn five_step_profile_exact_values() {
    // ramp indices [0,1,2,1,0]; speeds min(3, k+1) = [1,2,3,2,1];
    // delays 1000 / speed.
    let v = generate(cfg(1000, 1, 3), 5);
    assert_eq!(v, vec![1000, 500, 333, 500, 1000]);
}

#[test]
fn cruise_holds_the_speed_cap() {
    // With a one-step ramp to the cap, the middle of the move sits at
    // the minimum delay.
    let v = generate(cfg(1000, 5, 5), 6);
    assert_eq!(v, vec![200, 200, 200, 200, 200, 200]);
}

#[test]
fn delays_never_undercut_the_max_speed_floor() {
    let c = cfg(2_000_000, 400, 42_656);
    let floor = (c.clock_hz / c.max_speed) as u32;
    let v = generate(c, 500);
    for d in v {
        assert!(d >= floor);
    }
}

#[test]
fn profile_is_a_valley() {
    let c = cfg(2_000_000, 137, 9_999);
    let v = generate(c, 301);
    let mid = (v.len() - 1) / 2;
    for i in 0..mid {
        assert!(v[i + 1] <= v[i], "accelerating half must not slow down");
    }
    for i in mid..v.len() - 1 {
        assert!(v[i + 1] >= v[i], "decelerating half must not speed up");
    }
}

#[test]
fn profile_is_symmetric() {
    let v = generate(cfg(1_000_000, 17, 3000), 44);
    let n = v.len();
    for i in 0..n {
        assert_eq!(v[i], v[n - 1 - i]);
    }
}

#[test]
fn iterator_yields_once_then_none() {
    let mut it = ProfileIter::new(cfg(1000, 1, 3), 2);
    assert_eq!(it.next(), Some(1000));
    assert_eq!(it.next(), Some(1000));
    assert_eq!(it.next(), None);
    assert_eq!(it.next(), None);
}

#[test]
fn encode_splits_delay_into_high_and_low() {
    assert_eq!(encode_delay(10, 4), Ok(Symbol { high_ticks: 4, low_ticks: 6 }));
    assert_eq!(encode_delay(4, 4), Ok(Symbol { high_ticks: 4, low_ticks: 0 }));
}

#[test]
fn encode_rejects_delay_below_the_pulse() {
    assert_eq!(encode_delay(3, 4), Err(ConfigError::DelayBelowPulse));
}

#[test]
fn encode_rejects_delay_above_the_ceiling() {
    let too_long = 4 + MAX_PULSE_TICKS as u32 + 1;
    assert_eq!(encode_delay(too_long, 4), Err(ConfigError::DelayAboveCeiling));
    assert_eq!(
        encode_delay(4 + MAX_PULSE_TICKS as u32, 4),
        Ok(Symbol { high_ticks: 4, low_ticks: MAX_PULSE_TICKS })
    );
}

#[test]
fn encode_profile_maps_every_delay() {
    let delays = vec![10, 20, 30];
    let syms = encode_profile(&delays, 4).unwrap();
    assert_eq!(
        syms,
        vec![
            Symbol { high_ticks: 4, low_ticks: 6 },
            Symbol { high_ticks: 4, low_ticks: 16 },
            Symbol { high_ticks: 4, low_ticks: 26 },
        ]
    );
}

#[test]
fn encode_profile_reports_the_first_bad_delay() {
    let delays = vec![10, 3, 2];
    assert_eq!(encode_profile(&delays, 4), Err(ConfigError::DelayBelowPulse));
}
