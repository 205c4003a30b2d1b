//! The user's display preferences: preferred units, how many digits to
//! show and whether to show the calculation trace. Kept apart from the
//! rounding policy a calculation follows; nothing here changes a result.

use vstd::prelude::*;
use crate::units::{AngleUnit, LengthUnit};

verus! {

/// What a user chose to see; never read by a calculation.
#[derive(Debug, Clone, Copy, PartialEq, Eq, Structural)]
pub struct DisplayConfig {
    pub preferred_length_unit: LengthUnit,
    pub preferred_angle_unit: AngleUnit,
    pub length_decimal_places: u32,
    pub angle_decimal_places: u32,
    pub stress_significant_figures: u32,
    pub show_calculation_trace: bool,
}

/// The defaults follow the workspace's imperial convention: inches and
/// degrees, four decimals for lengths, one for angles, four significant
/// figures for stresses, no trace.
pub open spec fn default_display_config() -> DisplayConfig {
    DisplayConfig {
        preferred_length_unit: LengthUnit::Inch,
        preferred_angle_unit: AngleUnit::Degree,
        length_decimal_places: 4,
        angle_decimal_places: 1,
        stress_significant_figures: 4,
        show_calculation_trace: false,
    }
}

impl Default for DisplayConfig {
    fn default() -> (r: Self)
        ensures
            r == default_display_config(),
    {
        DisplayConfig {
            preferred_length_unit: LengthUnit::Inch,
            preferred_angle_unit: AngleUnit::Degree,
            length_decimal_places: 4,
            angle_decimal_places: 1,
            stress_significant_figures: 4,
            show_calculation_trace: false,
        }
    }
}

} // verus!
