//! Unit families for engineering quantities. Each family has one base unit
//! (inch, pound-force, psi, inch-pound-force, degree, square inch, cubic
//! inch, pound-mass); two units can only be converted into one another
//! when they belong to the same family. The numeric conversion factors
//! themselves are floating-point data and live with the caller.

use vstd::prelude::*;

verus! {

/// Length units; the family's base unit is the inch.
#[derive(Debug, Clone, Copy, PartialEq, Eq, Structural)]
pub enum LengthUnit {
    Inch,
    Millimeter,
    Foot,
    Meter,
}

/// Force units; the base unit is the pound-force.
#[derive(Debug, Clone, Copy, PartialEq, Eq, Structural)]
pub enum ForceUnit {
    PoundForce,
    Newton,
}

/// Pressure units; the base unit is the psi.
#[derive(Debug, Clone, Copy, PartialEq, Eq, Structural)]
pub enum PressureUnit {
    Psi,
    Ksi,
    Pascal,
    Megapascal,
}

/// Torque units; the base unit is the inch-pound-force.
#[derive(Debug, Clone, Copy, PartialEq, Eq, Structural)]
pub enum TorqueUnit {
    InchPoundForce,
    FootPoundForce,
    NewtonMeter,
}

/// Angle units; the base unit is the degree.
#[derive(Debug, Clone, Copy, PartialEq, Eq, Structural)]
pub enum AngleUnit {
    Degree,
    Radian,
}

/// Area units; the base unit is the square inch.
#[derive(Debug, Clone, Copy, PartialEq, Eq, Structural)]
pub enum AreaUnit {
    SquareInch,
    SquareMillimeter,
    SquareFoot,
}

/// Volume units; the base unit is the cubic inch.
#[derive(Debug, Clone, Copy, PartialEq, Eq, Structural)]
pub enum VolumeUnit {
    CubicInch,
    CubicMillimeter,
    CubicFoot,
}

/// Mass units; the base unit is the pound-mass.
#[derive(Debug, Clone, Copy, PartialEq, Eq, Structural)]
pub enum MassUnit {
    PoundMass,
    Kilogram,
}

/// One unit from any supported family.
#[derive(Debug, Clone, Copy, PartialEq, Eq, Structural)]
pub enum Unit {
    Length(LengthUnit),
    Force(ForceUnit),
    Pressure(PressureUnit),
    Torque(TorqueUnit),
    Angle(AngleUnit),
    Area(AreaUnit),
    Volume(VolumeUnit),
    Mass(MassUnit),
}

/// The family a unit belongs to, numbered in declaration order.
pub open spec fn family_of(u: Unit) -> int {
    match u {
        Unit::Length(_) => 0,
        Unit::Force(_) => 1,
        Unit::Pressure(_) => 2,
        Unit::Torque(_) => 3,
        Unit::Angle(_) => 4,
        Unit::Area(_) => 5,
        Unit::Volume(_) => 6,
        Unit::Mass(_) => 7,
    }
}

/// The lower-case name of a unit's family.
pub open spec fn family_name_of(u: Unit) -> Seq<char> {
    match u {
        Unit::Length(_) => "length"@,
        Unit::Force(_) => "force"@,
        Unit::Pressure(_) => "pressure"@,
        Unit::Torque(_) => "torque"@,
        Unit::Angle(_) => "angle"@,
        Unit::Area(_) => "area"@,
        Unit::Volume(_) => "volume"@,
        Unit::Mass(_) => "mass"@,
    }
}

/// The printed symbol of a unit.
pub open spec fn symbol_of(u: Unit) -> Seq<char> {
    match u {
        Unit::Length(LengthUnit::Inch) => "in"@,
        Unit::Length(LengthUnit::Millimeter) => "mm"@,
        Unit::Length(LengthUnit::Foot) => "ft"@,
        Unit::Length(LengthUnit::Meter) => "m"@,
        Unit::Force(ForceUnit::PoundForce) => "lbf"@,
        Unit::Force(ForceUnit::Newton) => "N"@,
        Unit::Pressure(PressureUnit::Psi) => "psi"@,
        Unit::Pressure(PressureUnit::Ksi) => "ksi"@,
        Unit::Pressure(PressureUnit::Pascal) => "Pa"@,
        Unit::Pressure(PressureUnit::Megapascal) => "MPa"@,
        Unit::Torque(TorqueUnit::InchPoundForce) => "in\u{00b7}lbf"@,
        Unit::Torque(TorqueUnit::FootPoundForce) => "ft\u{00b7}lbf"@,
        Unit::Torque(TorqueUnit::NewtonMeter) => "N\u{00b7}m"@,
        Unit::Angle(AngleUnit::Degree) => "\u{00b0}"@,
        Unit::Angle(AngleUnit::Radian) => "rad"@,
        Unit::Area(AreaUnit::SquareInch) => "in\u{00b2}"@,
        Unit::Area(AreaUnit::SquareMillimeter) => "mm\u{00b2}"@,
        Unit::Area(AreaUnit::SquareFoot) => "ft\u{00b2}"@,
        Unit::Volume(VolumeUnit::CubicInch) => "in\u{00b3}"@,
        Unit::Volume(VolumeUnit::CubicMillimeter) => "mm\u{00b3}"@,
        Unit::Volume(VolumeUnit::CubicFoot) => "ft\u{00b3}"@,
        Unit::Mass(MassUnit::PoundMass) => "lbm"@,
        Unit::Mass(MassUnit::Kilogram) => "kg"@,
    }
}

impl Unit {
    /// The lower-case name of this unit's family ("length", "pressure", ...).
    pub fn family_name(self) -> (r: &'static str)
        ensures
            r@ == family_name_of(self),
    {
        match self {
            Unit::Length(_) => "length",
            Unit::Force(_) => "force",
            Unit::Pressure(_) => "pressure",
            Unit::Torque(_) => "torque",
            Unit::Angle(_) => "angle",
            Unit::Area(_) => "area",
            Unit::Volume(_) => "volume",
            Unit::Mass(_) => "mass",
        }
    }

    /// Whether two units belong to the same family.
    pub fn same_family(self, other: Unit) -> (r: bool)
        ensures
            r == (family_of(self) == family_of(other)),
    {
        self.family_index() == other.family_index()
    }

    fn family_index(self) -> (r: u8)
        ensures
            r as int == family_of(self),
    {
        match self {
            Unit::Length(_) => 0,
            Unit::Force(_) => 1,
            Unit::Pressure(_) => 2,
            Unit::Torque(_) => 3,
            Unit::Angle(_) => 4,
            Unit::Area(_) => 5,
            Unit::Volume(_) => 6,
            Unit::Mass(_) => 7,
        }
    }

    /// The printed symbol of this unit ("in", "psi", "N·m", ...), the text
    /// that follows a value when a quantity is displayed.
    pub fn symbol(self) -> (r: &'static str)
        ensures
            r@ == symbol_of(self),
    {
        match self {
            Unit::Length(LengthUnit::Inch) => "in",
            Unit::Length(LengthUnit::Millimeter) => "mm",
            Unit::Length(LengthUnit::Foot) => "ft",
            Unit::Length(LengthUnit::Meter) => "m",
            Unit::Force(ForceUnit::PoundForce) => "lbf",
            Unit::Force(ForceUnit::Newton) => "N",
            Unit::Pressure(PressureUnit::Psi) => "psi",
            Unit::Pressure(PressureUnit::Ksi) => "ksi",
            Unit::Pressure(PressureUnit::Pascal) => "Pa",
            Unit::Pressure(PressureUnit::Megapascal) => "MPa",
            Unit::Torque(TorqueUnit::InchPoundForce) => "in\u{00b7}lbf",
            Unit::Torque(TorqueUnit::FootPoundForce) => "ft\u{00b7}lbf",
            Unit::Torque(TorqueUnit::NewtonMeter) => "N\u{00b7}m",
            Unit::Angle(AngleUnit::Degree) => "\u{00b0}",
            Unit::Angle(AngleUnit::Radian) => "rad",
            Unit::Area(AreaUnit::SquareInch) => "in\u{00b2}",
            Unit::Area(AreaUnit::SquareMillimeter) => "mm\u{00b2}",
            Unit::Area(AreaUnit::SquareFoot) => "ft\u{00b2}",
            Unit::Volume(VolumeUnit::CubicInch) => "in\u{00b3}",
            Unit::Volume(VolumeUnit::CubicMillimeter) => "mm\u{00b3}",
            Unit::Volume(VolumeUnit::CubicFoot) => "ft\u{00b3}",
            Unit::Mass(MassUnit::PoundMass) => "lbm",
            Unit::Mass(MassUnit::Kilogram) => "kg",
        }
    }
}

/// Two units from different families were used where they must match.
#[derive(Debug, Clone, PartialEq)]
pub struct UnitMismatch {
    pub from: &'static str,
    pub to: &'static str,
}

impl UnitMismatch {
    /// The human-readable error text:
    /// "cannot convert {from} to {to} - different unit families".
    pub fn message(&self) -> (r: String)
        ensures
            r@ == "cannot convert "@ + self.from@ + " to "@ + self.to@ + " - different unit families"@,
    {
        let mut out: Vec<char> = Vec::new();
        crate::text::extend_str(&mut out, "cannot convert ");
        crate::text::extend_str(&mut out, self.from);
        crate::text::extend_str(&mut out, " to ");
        crate::text::extend_str(&mut out, self.to);
        crate::text::extend_str(&mut out, " - different unit families");
        crate::text::string_from(out.as_slice())
    }
}

/// Decides whether a value in `from` may be converted to `target`: allowed
/// exactly when both units are in the same family; otherwise the error
/// names both families.
pub fn check_conversion(from: Unit, target: Unit) -> (r: Result<(), UnitMismatch>)
    ensures
        r is Ok <==> family_of(from) == family_of(target),
        r matches Err(e) ==> e.from@ == family_name_of(from) && e.to@ == family_name_of(target),
{
    if !from.same_family(target) {
        return Err(UnitMismatch { from: from.family_name(), to: target.family_name() });
    }
    Ok(())
}

/// Being in the same family is an equivalence relation on units: every
/// unit converts to itself, conversion is allowed in both directions or
/// neither, and two units convertible to a third are convertible to each
/// other.
pub proof fn lemma_same_family_is_equivalence(a: Unit, b: Unit, c: Unit)
    ensures
        family_of(a) == family_of(a),
        (family_of(a) == family_of(b)) == (family_of(b) == family_of(a)),
        family_of(a) == family_of(b) && family_of(b) == family_of(c) ==> family_of(a) == family_of(c),
{
}

/// Two units are in the same family exactly when their family names are
/// equal, so the error text of a refused conversion always names two
/// different families.
pub proof fn lemma_family_name_identifies_family(a: Unit, b: Unit)
    ensures
        (family_of(a) == family_of(b)) <==> (family_name_of(a) == family_name_of(b)),
{
    reveal_strlit("length");
    reveal_strlit("force");
    reveal_strlit("pressure");
    reveal_strlit("torque");
    reveal_strlit("angle");
    reveal_strlit("area");
    reveal_strlit("volume");
    reveal_strlit("mass");
    if family_of(a) != family_of(b) {
        assert(family_name_of(a) != family_name_of(b) ) by {
            let x = family_name_of(a);
            let y = family_name_of(b);
            if x.len() == y.len() {
                assert(x[0] != y[0] || x[1] != y[1]);
            }
        }
    }
}

} // verus!
