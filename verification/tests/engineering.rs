use toolbench::bushing::{
    cs_field_is_direct_input, end_constraint_halves, BushingType, CsField, CsMode, EndConstraint, IdType, Step,
};
use toolbench::config::DisplayConfig;
use toolbench::materials::{get_material, materials};
use toolbench::precision::{PrecisionPolicy, RoundingRule};
use toolbench::theme::theme_colors;
use toolbench::units::{
    check_conversion, AngleUnit, AreaUnit, ForceUnit, LengthUnit, MassUnit, PressureUnit, TorqueUnit, Unit,
    UnitMismatch, VolumeUnit,
};

#[test]
fn default_matches_this_workspaces_existing_imperial_convention() {
    let cfg = DisplayConfig::default();
    assert_eq!(cfg.preferred_length_unit, LengthUnit::Inch);
    assert_eq!(cfg.preferred_angle_unit, AngleUnit::Degree);
    assert!(!cfg.show_calculation_trace);
}

#[test]
fn display_defaults_keep_four_length_decimals_and_one_angle_decimal() {
    let cfg = DisplayConfig::default();
    assert_eq!(cfg.length_decimal_places, 4);
    assert_eq!(cfg.angle_decimal_places, 1);
    assert_eq!(cfg.stress_significant_figures, 4);
}

#[test]
fn seventeen_materials_present_matching_the_ts_source() {
    assert_eq!(materials().len(), 17);
}

#[test]
fn get_material_falls_back_to_first_entry_on_unknown_id() {
    assert_eq!(get_material("does-not-exist").id, "al7075");
}

#[test]
fn known_material_properties_match_the_ts_source_exactly() {
    let bronze = get_material("bronze");
    assert_eq!(bronze.e_ksi, 17000);
    assert_eq!(bronze.nu_hundredths, 34);
    assert_eq!(bronze.alpha_tenths_u_f, 90);
}

#[test]
fn material_lookup_finds_the_exact_id() {
    let ti = get_material("ti6al4v");
    assert_eq!(ti.name, "Ti-6Al-4V Gr.5");
    assert_eq!(ti.sy_ksi, 126);
    assert_eq!(get_material("beryllium").ftu_ksi, 100);
    assert_eq!(get_material("").id, "al7075");
    assert_eq!(get_material("BRONZE").id, "al7075");
}

#[test]
fn engineering_default_separates_addition_subtraction_from_multiplication_division() {
    let p = PrecisionPolicy::engineering_default();
    assert_ne!(p.addition_subtraction, p.multiplication_division);
    // A value whose decimal-place and significant-figure results differ
    // shows the two rules are wired to different fields. Each rule scales
    // by the power of ten the library gives for it, then rounds.
    let v: f64 = 123.456789;
    let apply = |rule: RoundingRule, x: f64| {
        let power = match rule {
            RoundingRule::DecimalPlaces(places) => places as i32,
            RoundingRule::SignificantFigures(s) => {
                RoundingRule::significant_power(s, x.abs().log10().floor() as i32)
            }
        };
        let f = 10f64.powi(power);
        (x * f).round() / f
    };
    assert_ne!(apply(p.addition_subtraction, v), apply(p.multiplication_division, v));
    assert_eq!(apply(p.addition_subtraction, v), 123.4568);
    assert_eq!(apply(p.multiplication_division, v), 123.5);
}

#[test]
fn rounding_rules_give_the_expected_decimal_counts() {
    assert_eq!(RoundingRule::DecimalPlaces(3).decimals_for(Some(5)), 3);
    assert_eq!(RoundingRule::SignificantFigures(4).decimals_for(Some(2)), 1);
    assert_eq!(RoundingRule::SignificantFigures(4).decimals_for(Some(-3)), 6);
    assert_eq!(RoundingRule::SignificantFigures(4).decimals_for(Some(7)), 0);
    assert_eq!(RoundingRule::SignificantFigures(4).decimals_for(None), 3);
    assert_eq!(RoundingRule::SignificantFigures(0).decimals_for(None), 0);
    assert_eq!(RoundingRule::significant_power(4, 2), 1);
    assert_eq!(RoundingRule::significant_power(3, -2), 4);
}

#[test]
fn cross_family_conversion_is_a_typed_error_not_a_panic_or_garbage_value() {
    let err = check_conversion(Unit::Length(LengthUnit::Inch), Unit::Pressure(PressureUnit::Psi)).unwrap_err();
    assert_eq!(err.from, "length");
    assert_eq!(err.to, "pressure");
}

#[test]
fn same_family_conversion_is_allowed() {
    assert!(check_conversion(Unit::Length(LengthUnit::Inch), Unit::Length(LengthUnit::Millimeter)).is_ok());
    assert!(check_conversion(Unit::Mass(MassUnit::PoundMass), Unit::Mass(MassUnit::Kilogram)).is_ok());
    assert!(check_conversion(Unit::Angle(AngleUnit::Degree), Unit::Angle(AngleUnit::Degree)).is_ok());
}

#[test]
fn unit_mismatch_message_names_both_families() {
    let err = check_conversion(Unit::Force(ForceUnit::PoundForce), Unit::Torque(TorqueUnit::InchPoundForce)).unwrap_err();
    assert_eq!(err, UnitMismatch { from: "force", to: "torque" });
    assert_eq!(err.message(), "cannot convert force to torque - different unit families");
}

#[test]
fn unit_family_names_and_symbols() {
    assert_eq!(Unit::Area(AreaUnit::SquareInch).family_name(), "area");
    assert_eq!(Unit::Volume(VolumeUnit::CubicInch).family_name(), "volume");
    assert_eq!(Unit::Length(LengthUnit::Inch).symbol(), "in");
    assert_eq!(Unit::Pressure(PressureUnit::Psi).symbol(), "psi");
    assert!(Unit::Length(LengthUnit::Inch).same_family(Unit::Length(LengthUnit::Foot)));
    assert!(!Unit::Length(LengthUnit::Inch).same_family(Unit::Area(AreaUnit::SquareInch)));
}

#[test]
fn countersink_modes_have_exactly_two_direct_inputs() {
    for mode in [CsMode::DiaAngle, CsMode::DepthAngle, CsMode::DiaDepth] {
        let direct = [CsField::Dia, CsField::Depth, CsField::Angle]
            .iter()
            .filter(|f| cs_field_is_direct_input(mode, **f))
            .count();
        assert_eq!(direct, 2);
    }
    assert!(!cs_field_is_direct_input(CsMode::DiaAngle, CsField::Depth));
    assert!(!cs_field_is_direct_input(CsMode::DepthAngle, CsField::Dia));
    assert!(!cs_field_is_direct_input(CsMode::DiaDepth, CsField::Angle));
    assert_eq!(CsMode::default(), CsMode::DepthAngle);
}

#[test]
fn end_constraints_scale_axial_stress_in_halves() {
    assert_eq!(end_constraint_halves(EndConstraint::Free), 0);
    assert_eq!(end_constraint_halves(EndConstraint::OneEnd), 1);
    assert_eq!(end_constraint_halves(EndConstraint::BothEnds), 2);
    assert_eq!(EndConstraint::default(), EndConstraint::Free);
    assert_eq!(BushingType::default(), BushingType::Straight);
    assert_eq!(IdType::default(), IdType::Straight);
}

#[test]
fn theme_colors_differ_between_dark_and_light() {
    let dark = theme_colors(true);
    let light = theme_colors(false);
    assert_eq!(dark.bg, "#1b1e25");
    assert_eq!(light.bg, "#ffffff");
    assert_ne!(dark.bushing_hatch, light.bushing_hatch);
}

#[test]
fn workbench_steps_are_numbered_from_one_in_order() {
    let steps = Step::all();
    assert_eq!(steps.len(), 6);
    let numbers: Vec<u8> = steps.iter().map(|s| s.number()).collect();
    assert_eq!(numbers, vec![1, 2, 3, 4, 5, 6]);
    assert_eq!(Step::Analysis.label(), "Analysis");
    assert_eq!(Step::default(), Step::Repair);
}
