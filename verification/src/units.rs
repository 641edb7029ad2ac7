//! Volume units and fixed-point conversion.
//!
//! All liquid volumes inside the library are integers counted in "volume
//! units" of one ten-thousandth of a millilitre (0.0001 ml), which is fine
//! enough to represent every unit scale in the dosing API exactly
//! (one US gallon is 3785.41 ml, one fluid ounce 29.5735 ml).

use vstd::prelude::*;

verus! {

/// Volume units per millilitre: volumes are fixed-point with four
/// decimal places.
pub const VOL_UNITS_PER_ML: u64 = 10_000;

/// Volume units per US gallon, the reference unit for per-nutrient
/// concentrations (3785.41 ml).
pub const VOL_UNITS_PER_GAL: u64 = 37_854_100;

/// A unit in which a dosing request may express its target amount.
#[derive(Clone, Copy, Debug, PartialEq, Eq, Structural)]
pub enum VolUnit {
    /// Millilitre, scale 1.0.
    Ml,
    /// Litre, scale 1000.0.
    L,
    /// US gallon, scale 3785.41.
    Gal,
    /// US fluid ounce, scale 29.5735.
    FlOz,
}

impl VolUnit {
    /// How many volume units one whole unit of `self` stands for.
    pub open spec fn spec_scale_to_ml(self) -> u64 {
        match self {
            VolUnit::Ml => 10_000,
            VolUnit::L => 10_000_000,
            VolUnit::Gal => 37_854_100,
            VolUnit::FlOz => 295_735,
        }
    }

    /// The fixed per-unit scale table: the size of one whole unit,
    /// in volume units.
    pub fn scale_to_ml(&self) -> (r: u64)
        ensures
            r == self.spec_scale_to_ml(),
    {
        match self {
            VolUnit::Ml => 10_000,
            VolUnit::L => 10_000_000,
            VolUnit::Gal => 37_854_100,
            VolUnit::FlOz => 295_735,
        }
    }
}

/// The total solution volume, in volume units, for a target amount given
/// as a fixed-point scalar with four decimal places (so `10_000` means
/// an amount of 1.0 in `unit`). Saturates at `u64::MAX`.
pub open spec fn spec_solution_volume(target_amount: u64, unit: VolUnit) -> u64 {
    let exact = target_amount * unit.spec_scale_to_ml() / 10_000;
    if exact > u64::MAX {
        u64::MAX
    } else {
        exact as u64
    }
}

/// Converts a dosing request's target amount (fixed point, four decimal
/// places) into the solution volume in volume units.
pub fn solution_volume(target_amount: u64, unit: VolUnit) -> (r: u64)
    ensures
        r == spec_solution_volume(target_amount, unit),
{
    let scale = unit.scale_to_ml();
    proof {
        crate::arith::lemma_u64_mul_fits_u128(target_amount, scale);
    }
    let wide: u128 = target_amount as u128 * scale as u128 / 10_000;
    if wide > u64::MAX as u128 {
        u64::MAX
    } else {
        wide as u64
    }
}

/// The volume of one nutrient to dispense, in volume units: the solution
/// volume expressed in gallons times the nutrient's concentration in
/// volume units per gallon, rounded down. Saturates at `u64::MAX`.
pub open spec fn spec_nutrient_volume(solution: u64, per_gal: u64) -> u64 {
    let exact = solution * per_gal / (VOL_UNITS_PER_GAL as int);
    if exact > u64::MAX {
        u64::MAX
    } else {
        exact as u64
    }
}

/// Computes how much of a nutrient a solution needs, given the solution
/// volume and the nutrient's concentration in volume units per gallon.
pub fn nutrient_volume(solution: u64, per_gal: u64) -> (r: u64)
    ensures
        r == spec_nutrient_volume(solution, per_gal),
{
    proof {
        crate::arith::lemma_u64_mul_fits_u128(solution, per_gal);
    }
    let wide: u128 = solution as u128 * per_gal as u128 / VOL_UNITS_PER_GAL as u128;
    if wide > u64::MAX as u128 {
        u64::MAX
    } else {
        wide as u64
    }
}

} // verus!
