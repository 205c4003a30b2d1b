//! The discrete choices of the bushing workbench: outer and inner
//! geometry, which countersink dimension is derived, end constraint, and
//! how a tolerance band is entered and how the fit came out. The
//! interference-fit mechanics over these choices are floating-point
//! calculations done by the caller.

use vstd::prelude::*;

verus! {

/// The bushing's outer-diameter geometry: a plain shank, a shank with a
/// flange, or an external countersink cut into the outer diameter.
#[derive(Debug, Clone, Copy, PartialEq, Eq, Structural)]
pub enum BushingType {
    Straight,
    Flanged,
    Countersink,
}

/// The bushing's inner-diameter (bore-facing) geometry.
#[derive(Debug, Clone, Copy, PartialEq, Eq, Structural)]
pub enum IdType {
    Straight,
    Countersink,
}

impl Default for BushingType {
    fn default() -> (r: Self)
        ensures
            r == BushingType::Straight,
    {
        BushingType::Straight
    }
}

impl Default for IdType {
    fn default() -> (r: Self)
        ensures
            r == IdType::Straight,
    {
        IdType::Straight
    }
}

/// Which countersink dimension is derived from the other two (and the
/// base diameter): in `DiaAngle` the depth is derived, in `DepthAngle`
/// the diameter, in `DiaDepth` the angle.
#[derive(Debug, Clone, Copy, PartialEq, Eq, Structural)]
pub enum CsMode {
    DiaAngle,
    DepthAngle,
    DiaDepth,
}

impl Default for CsMode {
    fn default() -> (r: Self)
        ensures
            r == CsMode::DepthAngle,
    {
        CsMode::DepthAngle
    }
}

/// One countersink dimension.
#[derive(Debug, Clone, Copy, PartialEq, Eq, Structural)]
pub enum CsField {
    Dia,
    Depth,
    Angle,
}

/// The dimension a countersink mode derives rather than takes as input.
pub open spec fn derived_field(mode: CsMode) -> CsField {
    match mode {
        CsMode::DiaAngle => CsField::Depth,
        CsMode::DepthAngle => CsField::Dia,
        CsMode::DiaDepth => CsField::Angle,
    }
}

/// Whether a countersink dimension is typed in by the user under `mode`:
/// every dimension except the one the mode derives.
pub fn cs_field_is_direct_input(mode: CsMode, which: CsField) -> (r: bool)
    ensures
        r == (which != derived_field(mode)),
{
    match (mode, which) {
        (CsMode::DepthAngle, CsField::Dia) => false,
        (CsMode::DiaAngle, CsField::Depth) => false,
        (CsMode::DiaDepth, CsField::Angle) => false,
        _ => true,
    }
}

/// Every countersink mode takes exactly two of the three dimensions as
/// input.
pub proof fn lemma_two_direct_inputs(mode: CsMode)
    ensures
        (CsField::Dia != derived_field(mode)) as int + (CsField::Depth != derived_field(mode)) as int + (
        CsField::Angle != derived_field(mode)) as int == 2,
{
}

/// How far the housing restrains the bushing axially: not at all, at one
/// end, or at both ends.
#[derive(Debug, Clone, Copy, PartialEq, Eq, Structural)]
pub enum EndConstraint {
    Free,
    OneEnd,
    BothEnds,
}

impl Default for EndConstraint {
    fn default() -> (r: Self)
        ensures
            r == EndConstraint::Free,
    {
        EndConstraint::Free
    }
}

/// The share of full axial restraint an end constraint gives, in halves:
/// none, one half, or all of it.
pub fn end_constraint_halves(ec: EndConstraint) -> (r: u8)
    ensures
        r == match ec {
            EndConstraint::Free => 0u8,
            EndConstraint::OneEnd => 1u8,
            EndConstraint::BothEnds => 2u8,
        },
{
    match ec {
        EndConstraint::Free => 0,
        EndConstraint::OneEnd => 1,
        EndConstraint::BothEnds => 2,
    }
}

/// Whether a tolerance band is entered as nominal and plus/minus
/// tolerances or as lower and upper limits.
#[derive(Debug, Clone, Copy, PartialEq, Eq, Structural)]
pub enum ToleranceMode {
    NominalTol,
    Limits,
}

/// How the outer-diameter tolerance came out: inside the requested
/// interference window, clamped into it, or impossible to contain.
#[derive(Debug, Clone, Copy, PartialEq, Eq, Structural)]
pub enum ToleranceStatus {
    /// The fit is contained in the requested window as designed.
    Contained,
    Clamped,
    Infeasible,
}


/// A step of the bushing workbench's stepper, in order.
#[derive(Debug, Clone, Copy, PartialEq, Eq, Structural)]
pub enum Step {
    Repair,
    Geometry,
    Material,
    Fit,
    Analysis,
    Results,
}

impl Default for Step {
    fn default() -> (r: Self)
        ensures
            r == Step::Repair,
    {
        Step::Repair
    }
}

/// The position of a step in the stepper, counted from zero.
pub open spec fn step_index(s: Step) -> nat {
    match s {
        Step::Repair => 0,
        Step::Geometry => 1,
        Step::Material => 2,
        Step::Fit => 3,
        Step::Analysis => 4,
        Step::Results => 5,
    }
}

impl Step {
    /// Every step, in stepper order.
    pub fn all() -> (r: Vec<Step>)
        ensures
            r.len() == 6,
            forall|i: int| 0 <= i < 6 ==> step_index(#[trigger] r@[i]) == i,
    {
        vec![Step::Repair, Step::Geometry, Step::Material, Step::Fit, Step::Analysis, Step::Results]
    }

    /// The step's name as the stepper shows it.
    pub fn label(self) -> (r: &'static str)
        ensures
            r@ == match self {
                Step::Repair => "Repair"@,
                Step::Geometry => "Geometry"@,
                Step::Material => "Material"@,
                Step::Fit => "Fit"@,
                Step::Analysis => "Analysis"@,
                Step::Results => "Results"@,
            },
    {
        match self {
            Step::Repair => "Repair",
            Step::Geometry => "Geometry",
            Step::Material => "Material",
            Step::Fit => "Fit",
            Step::Analysis => "Analysis",
            Step::Results => "Results",
        }
    }

    /// The step's number as the stepper shows it: its position, from one.
    pub fn number(self) -> (r: u8)
        ensures
            r == step_index(self) + 1,
    {
        match self {
            Step::Repair => 1,
            Step::Geometry => 2,
            Step::Material => 3,
            Step::Fit => 4,
            Step::Analysis => 5,
            Step::Results => 6,
        }
    }
}

} // verus!
