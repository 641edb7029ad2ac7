//! Unit conversion and calibration arithmetic on concrete values.

use nutrient_doser::dosing::{dispense_steps, MlPerStep};
use nutrient_doser::errors::ClientError;
use nutrient_doser::units::{
    nutrient_volume, solution_volume, VolUnit, VOL_UNITS_PER_GAL, VOL_UNITS_PER_ML,
};

#[test]
fn the_unit_scale_table() {
    assert_eq!(VolUnit::Ml.scale_to_ml(), 10_000);
    assert_eq!(VolUnit::L.scale_to_ml(), 10_000_000);
    assert_eq!(VolUnit::Gal.scale_to_ml(), 37_854_100);
    assert_eq!(VolUnit::FlOz.scale_to_ml(), 295_735);
}

#[test]
fn one_gallon_is_3785_41_ml() {
    // target_amount 1.0 in gallons: 3785.41 ml.
    let units = solution_volume(1 * VOL_UNITS_PER_ML, VolUnit::Gal);
    assert_eq!(units, 37_854_100);
    assert_eq!(units / VOL_UNITS_PER_ML, 3785);
}

#[test]
fn two_litres_are_2000_ml() {
    let units = solution_volume(2 * VOL_UNITS_PER_ML, VolUnit::L);
    assert_eq!(units, 20_000_000);
    assert_eq!(units / VOL_UNITS_PER_ML, 2000);
}

#[test]
fn fractional_amounts_convert_exactly() {
    // 0.5 fl oz = 14.78675 ml = 147867.5 volume units, rounded down.
    assert_eq!(solution_volume(5_000, VolUnit::FlOz), 147_867);
}

#[test]
fn nutrient_need_scales_by_gallons() {
    // One gallon of solution at 5 ml of nutrient per gallon.
    let solution = solution_volume(10_000, VolUnit::Gal);
    assert_eq!(nutrient_volume(solution, 5 * VOL_UNITS_PER_ML), 5 * VOL_UNITS_PER_ML);
    // Half a gallon halves the need.
    assert_eq!(nutrient_volume(solution / 2, 5 * VOL_UNITS_PER_ML), 25_000);
    assert_eq!(nutrient_volume(solution, 0), 0);
}

#[test]
fn default_rate_is_32_units_per_step() {
    let cal = MlPerStep::default();
    assert_eq!(cal, MlPerStep { num: 32, den: 1 });
}

#[test]
fn dispense_steps_floor_the_quotient() {
    let cal = MlPerStep::default();
    // 0.032 ml at 0.0032 ml per step: ten steps.
    assert_eq!(dispense_steps(cal, 320), 10);
    // A remainder is dropped.
    assert_eq!(dispense_steps(cal, 350), 10);
    assert_eq!(dispense_steps(cal, 31), 0);
}

#[test]
fn calibrate_rescales_by_the_measured_ratio() {
    let mut cal = MlPerStep::default();
    // Asked for 1.0 ml, measured 0.5 ml: the pump moves half of what the
    // rate claimed, so the rate halves.
    cal.calibrate(10_000, 5_000).unwrap();
    assert_eq!(cal.num, 32 * 5_000);
    assert_eq!(cal.den, 10_000);
    // As a rational: 16 volume units per step.
    assert_eq!(cal.num * 1, 16 * cal.den);
}

#[test]
fn calibrate_round_trip_restores_the_rate() {
    let mut cal = MlPerStep::default();
    cal.calibrate(10_000, 7_337).unwrap();
    cal.calibrate(7_337, 10_000).unwrap();
    // Equal to the original 32/1 as a rational number.
    assert_eq!(cal.num * 1, 32 * cal.den);
}

#[test]
fn calibrate_rejects_zero_volumes() {
    let mut cal = MlPerStep::default();
    assert_eq!(cal.calibrate(0, 5_000), Err(ClientError::ZeroVolume));
    assert_eq!(cal.calibrate(5_000, 0), Err(ClientError::ZeroVolume));
    assert_eq!(cal, MlPerStep::default());
}

#[test]
fn calibrate_reports_overflow_and_keeps_the_rate() {
    let mut cal = MlPerStep { num: u64::MAX, den: 1 };
    assert_eq!(cal.calibrate(1, 2), Err(ClientError::CalibrationOverflow));
    assert_eq!(cal, MlPerStep { num: u64::MAX, den: 1 });
}

#[test]
fn gallon_constant_matches_the_table() {
    assert_eq!(VOL_UNITS_PER_GAL, VolUnit::Gal.scale_to_ml());
}

#[test]
fn conversions_saturate_at_the_largest_volume() {
    assert_eq!(solution_volume(u64::MAX, VolUnit::L), u64::MAX);
    assert_eq!(nutrient_volume(u64::MAX, u64::MAX), u64::MAX);
}

#[test]
fn dispense_steps_clamp_at_the_counter_range() {
    let fine = MlPerStep { num: 1, den: 1 };
    assert_eq!(dispense_steps(fine, u64::MAX), i32::MAX);
}
