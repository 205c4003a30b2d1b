//! Engineering rounding rules: a fixed number of decimal places (used for
//! addition and subtraction) or a fixed number of significant figures
//! (used for multiplication, division and display). The floating-point
//! rounding itself happens at the caller; this module decides how many
//! digits a rule keeps for a value of a given decimal magnitude.

use vstd::prelude::*;

verus! {

/// One rounding rule.
#[derive(Debug, Clone, Copy, PartialEq, Eq, Structural)]
pub enum RoundingRule {
    DecimalPlaces(u32),
    SignificantFigures(u32),
}

/// The rounding rules of one calculation context, plus the display rule.
#[derive(Debug, Clone, Copy, PartialEq, Eq, Structural)]
pub struct PrecisionPolicy {
    pub addition_subtraction: RoundingRule,
    pub multiplication_division: RoundingRule,
    pub display: RoundingRule,
}

/// The power of ten a value of decimal magnitude `magnitude`
/// (`floor(log10(|v|))`) is scaled by before rounding to `sig_figs`
/// significant figures: `sig_figs - magnitude - 1`.
pub open spec fn sig_fig_power(sig_figs: u32, magnitude: i32) -> int {
    sig_figs - magnitude - 1
}

/// Decimal places a formatted value keeps under `rule`. `magnitude` is
/// `None` for the value zero and `Some(floor(log10(|v|)))` otherwise.
/// Significant figures of zero show `sig_figs - 1` zeros after the point
/// (none when `sig_figs` is zero); otherwise the count never goes below
/// zero, so very large values are shown whole.
pub open spec fn display_decimals(rule: RoundingRule, magnitude: Option<i32>) -> int {
    match rule {
        RoundingRule::DecimalPlaces(p) => p as int,
        RoundingRule::SignificantFigures(s) => match magnitude {
            None => if s == 0 { 0 } else { s - 1 },
            Some(m) => if sig_fig_power(s, m) < 0 { 0 } else { sig_fig_power(s, m) },
        },
    }
}

impl RoundingRule {
    /// The power of ten used when rounding a value of the given magnitude
    /// to `sig_figs` significant figures (see [`sig_fig_power`]).
    pub fn significant_power(sig_figs: u32, magnitude: i32) -> (r: i32)
        requires
            i32::MIN <= sig_fig_power(sig_figs, magnitude) <= i32::MAX,
        ensures
            r as int == sig_fig_power(sig_figs, magnitude),
    {
        (sig_figs as i64 - magnitude as i64 - 1) as i32
    }

    /// Decimal places a formatted value keeps under this rule (see
    /// [`display_decimals`]).
    pub fn decimals_for(self, magnitude: Option<i32>) -> (r: u32)
        requires
            match (self, magnitude) {
                (RoundingRule::SignificantFigures(s), Some(m)) => sig_fig_power(s, m) <= u32::MAX,
                _ => true,
            },
        ensures
            r as int == display_decimals(self, magnitude),
    {
        match self {
            RoundingRule::DecimalPlaces(p) => p,
            RoundingRule::SignificantFigures(s) => match magnitude {
                None => if s == 0 { 0 } else { s - 1 },
                Some(m) => {
                    let power: i64 = s as i64 - m as i64 - 1;
                    if power < 0 { 0 } else { power as u32 }
                },
            },
        }
    }
}

/// Four decimal places for addition/subtraction; four significant
/// figures for multiplication/division and for display.
pub open spec fn engineering_default_policy() -> PrecisionPolicy {
    PrecisionPolicy {
        addition_subtraction: RoundingRule::DecimalPlaces(4),
        multiplication_division: RoundingRule::SignificantFigures(4),
        display: RoundingRule::SignificantFigures(4),
    }
}

impl PrecisionPolicy {
    /// A default for imperial dimension and stress work (see
    /// [`engineering_default_policy`]). The addition/subtraction rule and
    /// the multiplication/division rule always differ.
    pub fn engineering_default() -> (r: Self)
        ensures
            r == engineering_default_policy(),
            r.addition_subtraction != r.multiplication_division,
    {
        PrecisionPolicy {
            addition_subtraction: RoundingRule::DecimalPlaces(4),
            multiplication_division: RoundingRule::SignificantFigures(4),
            display: RoundingRule::SignificantFigures(4),
        }
    }
}

} // verus!
