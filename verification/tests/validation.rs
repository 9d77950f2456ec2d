//! The rules and the failure-mode policy, on concrete assets.

use forgeimages_core::templates::{
    AssetClass, ColorCountRule, ExportFormat, ExportSpec, FailureMode, ResolutionRule, RuleConfig,
    Template, Tolerance, ValidationConfig, ValidationRules,
};
use forgeimages_core::text::{decimal_string, digit_text};
use forgeimages_core::validation::{
    ratio_string, ratios_differ, AspectRatioRule, AssetInput, BuiltinRule,
    ColorCountRule as ColorCountCheck, ResolutionRule as ResolutionCheck, ValidationResult,
    ValidationViolation, Validator,
};
use forgeimages_core::{ValidationRule, ViolationSeverity};

fn template(mode: FailureMode, colors: bool) -> Template {
    Template {
        id: "test-icon".to_string(),
        name: "Test Icon".to_string(),
        description: "Test template".to_string(),
        template_version: "1.0.0".to_string(),
        engine_min_version: "1.0.0".to_string(),
        deprecated: false,
        superseded_by: None,
        asset_class: AssetClass::Icon,
        aspect_ratio: [1, 1],
        canonical_size: [1024, 1024],
        vector_master: true,
        validation: ValidationConfig {
            required: true,
            failure_mode: mode,
            rules: ValidationRules {
                aspect_ratio: RuleConfig { enabled: true, tolerance: Tolerance { millionths: 10_000 } },
                resolution: ResolutionRule { enabled: true, min_width: 512, min_height: 512 },
                color_count: ColorCountRule { enabled: colors, max: 16 },
            },
        },
        exports: vec![ExportSpec {
            id: "master".to_string(),
            description: "SVG master".to_string(),
            size: [1024, 1024],
            format: ExportFormat::Svg,
            required: true,
        }],
    }
}

fn input(width: u32, height: u32, color_count: Option<u32>) -> AssetInput {
    AssetInput { width, height, color_count, format: None }
}

fn rules_of(result: &ValidationResult) -> Vec<String> {
    result.violations.iter().map(|v| v.rule.clone()).collect()
}

#[test]
fn square_asset_of_sufficient_size_is_valid_without_violations() {
    let result = Validator::new().validate(&input(1024, 1024, Some(8)), &template(FailureMode::Block, false));
    assert!(result.valid);
    assert!(result.violations.is_empty());
    assert_eq!(result.template_id, "test-icon");
    assert_eq!(result.template_version, "1.0.0");
    assert!(!result.has_errors());
}

#[test]
fn wrong_aspect_ratio_is_an_error_with_its_details() {
    let result = Validator::new().validate(&input(1024, 512, None), &template(FailureMode::Block, false));
    assert!(!result.valid);
    assert!(result.has_errors());
    assert_eq!(result.violations.len(), 1);
    let violation = &result.violations[0];
    assert_eq!(violation.rule, "aspect_ratio");
    assert_eq!(violation.severity, ViolationSeverity::Error);
    assert_eq!(violation.message, "Aspect ratio mismatch");
    assert_eq!(violation.expected.as_deref(), Some("1:1"));
    assert_eq!(violation.actual.as_deref(), Some("2.000"));
    assert_eq!(violation.remediation, vec!["Crop or resize to match template aspect ratio".to_string()]);
}

#[test]
fn too_small_asset_is_an_error_with_its_details() {
    let result = Validator::new().validate(&input(100, 100, None), &template(FailureMode::Block, false));
    assert!(!result.valid);
    assert_eq!(result.violations.len(), 1);
    let violation = &result.violations[0];
    assert_eq!(violation.rule, "resolution");
    assert_eq!(violation.severity, ViolationSeverity::Error);
    assert_eq!(violation.message, "Resolution too low");
    assert_eq!(violation.expected.as_deref(), Some("512x512 minimum"));
    assert_eq!(violation.actual.as_deref(), Some("100x100"));
    assert_eq!(violation.remediation, vec!["Provide higher resolution source image".to_string()]);
}

#[test]
fn resolution_fails_on_either_side_alone() {
    let validator = Validator::new();
    let mut wide = template(FailureMode::Block, false);
    wide.validation.rules.aspect_ratio.enabled = false;
    assert!(!validator.validate(&input(511, 512, None), &wide).valid);
    assert!(!validator.validate(&input(512, 511, None), &wide).valid);
    assert!(validator.validate(&input(512, 512, None), &wide).valid);
}

#[test]
fn too_many_colors_is_a_warning_with_its_details() {
    let result = Validator::new().validate(&input(1024, 1024, Some(20)), &template(FailureMode::Warn, true));
    assert!(result.valid);
    assert_eq!(result.violations.len(), 1);
    let violation = &result.violations[0];
    assert_eq!(violation.rule, "color_count");
    assert_eq!(violation.severity, ViolationSeverity::Warning);
    assert_eq!(violation.message, "Too many colors for clean icon");
    assert_eq!(violation.expected.as_deref(), Some("16 colors max"));
    assert_eq!(violation.actual.as_deref(), Some("20 colors"));
    assert_eq!(violation.remediation, vec!["Reduce color palette".to_string()]);
    assert!(!result.has_errors());
}

#[test]
fn color_rule_is_silent_when_disabled_unknown_or_within_the_maximum() {
    let validator = Validator::new();
    let off = template(FailureMode::Warn, false);
    let on = template(FailureMode::Warn, true);
    assert!(validator.validate(&input(1024, 1024, Some(1000)), &off).violations.is_empty());
    assert!(validator.validate(&input(1024, 1024, None), &on).violations.is_empty());
    assert!(validator.validate(&input(1024, 1024, Some(16)), &on).violations.is_empty());
    assert_eq!(validator.validate(&input(1024, 1024, Some(17)), &on).violations.len(), 1);
}

#[test]
fn block_discards_warnings_when_there_is_no_error() {
    let result = Validator::new().validate(&input(1024, 1024, Some(20)), &template(FailureMode::Block, true));
    assert!(result.valid);
    assert!(result.violations.is_empty());
}

#[test]
fn block_with_an_error_carries_errors_and_warnings_in_rule_order() {
    let result = Validator::new().validate(&input(400, 100, Some(20)), &template(FailureMode::Block, true));
    assert!(!result.valid);
    assert_eq!(rules_of(&result), vec!["aspect_ratio", "resolution", "color_count"]);
    assert_eq!(result.violations[2].severity, ViolationSeverity::Warning);
}

#[test]
fn warn_and_log_are_valid_and_carry_everything_found() {
    for mode in [FailureMode::Warn, FailureMode::Log] {
        let result = Validator::new().validate(&input(400, 100, Some(20)), &template(mode, true));
        assert!(result.valid);
        assert!(result.has_errors());
        assert_eq!(rules_of(&result), vec!["aspect_ratio", "resolution", "color_count"]);
    }
    for mode in [FailureMode::Warn, FailureMode::Log] {
        let result = Validator::new().validate(&input(1024, 1024, Some(2)), &template(mode, true));
        assert!(result.valid);
        assert!(result.violations.is_empty());
    }
}

#[test]
fn disabled_rules_report_nothing() {
    let mut relaxed = template(FailureMode::Block, true);
    relaxed.validation.rules.aspect_ratio.enabled = false;
    relaxed.validation.rules.resolution.enabled = false;
    relaxed.validation.rules.color_count.enabled = false;
    let result = Validator::new().validate(&input(3, 1, Some(99)), &relaxed);
    assert!(result.valid);
    assert!(result.violations.is_empty());
    let probe = input(3, 1, Some(99));
    assert!(AspectRatioRule.validate(&probe, &relaxed).is_empty());
    assert!(ResolutionCheck.validate(&probe, &relaxed).is_empty());
    assert!(ColorCountCheck.validate(&probe, &relaxed).is_empty());
}

#[test]
fn each_rule_reports_under_its_name() {
    let strict = template(FailureMode::Block, true);
    let probe = input(400, 100, Some(20));
    assert_eq!(AspectRatioRule.name(), "aspect_ratio");
    assert_eq!(ResolutionCheck.name(), "resolution");
    assert_eq!(ColorCountCheck.name(), "color_count");
    assert_eq!(BuiltinRule::AspectRatio.name(), "aspect_ratio");
    assert_eq!(BuiltinRule::Resolution.name(), "resolution");
    assert_eq!(BuiltinRule::ColorCount.name(), "color_count");
    assert_eq!(AspectRatioRule.validate(&probe, &strict)[0].rule, "aspect_ratio");
    assert_eq!(ResolutionCheck.validate(&probe, &strict)[0].rule, "resolution");
    assert_eq!(ColorCountCheck.validate(&probe, &strict)[0].rule, "color_count");
    assert_eq!(BuiltinRule::Resolution.validate(&probe, &strict)[0].rule, "resolution");
}

#[test]
fn the_tolerance_is_met_exactly_at_its_bound() {
    // 101:100 misses 1:1 by exactly 0.01
    assert!(!ratios_differ(1, 1, 101, 100, 10_000));
    assert!(!ratios_differ(1, 1, 99, 100, 10_000));
    assert!(ratios_differ(1, 1, 102, 100, 10_000));
    assert!(ratios_differ(1, 1, 98, 100, 10_000));
    assert!(ratios_differ(1, 1, 1011, 1000, 10_000));
    assert!(!ratios_differ(1, 1, 101, 100, 10_001));
    assert!(ratios_differ(1, 1, 101, 100, 9_999));
    assert!(!ratios_differ(16, 9, 1920, 1080, 0));
    assert!(ratios_differ(16, 9, 1921, 1080, 0));
    assert!(!ratios_differ(16, 9, 1921, 1080, 1_000));
    assert!(!ratios_differ(u32::MAX, 1, u32::MAX, 1, 0));
    assert!(ratios_differ(u32::MAX, 1, 1, u32::MAX, u32::MAX - 1));
    assert!(!ratios_differ(1, u32::MAX, 2, u32::MAX, u32::MAX));
}

#[test]
fn degenerate_ratios_follow_the_rules_of_infinity() {
    assert!(ratios_differ(1, 1, 5, 0, 10_000));
    assert!(!ratios_differ(1, 1, 0, 0, 10_000));
    assert!(ratios_differ(1, 0, 5, 5, 10_000));
    assert!(!ratios_differ(0, 0, 5, 5, 10_000));
    assert!(!ratios_differ(1, 0, 5, 0, 10_000));
    assert!(!ratios_differ(0, 0, 0, 0, 10_000));
    let result = Validator::new().validate(&input(600, 0, None), &template(FailureMode::Warn, false));
    assert_eq!(rules_of(&result), vec!["aspect_ratio", "resolution"]);
    assert_eq!(result.violations[0].actual.as_deref(), Some("inf"));
    let empty = Validator::new().validate(&input(0, 0, None), &template(FailureMode::Warn, false));
    assert_eq!(rules_of(&empty), vec!["resolution"]);
}

#[test]
fn ratios_are_written_with_three_decimals() {
    assert_eq!(ratio_string(1024, 512), "2.000");
    assert_eq!(ratio_string(1, 1), "1.000");
    assert_eq!(ratio_string(0, 5), "0.000");
    assert_eq!(ratio_string(1, 3), "0.333");
    assert_eq!(ratio_string(2, 3), "0.667");
    assert_eq!(ratio_string(16, 9), "1.778");
    assert_eq!(ratio_string(1, 16), "0.062");
    assert_eq!(ratio_string(3, 16), "0.188");
    assert_eq!(ratio_string(1, 2000), "0.000");
    assert_eq!(ratio_string(3, 2000), "0.002");
    assert_eq!(ratio_string(1999, 2000), "1.000");
    assert_eq!(ratio_string(u32::MAX, 1), "4294967295.000");
    assert_eq!(ratio_string(1, u32::MAX), "0.000");
    assert_eq!(ratio_string(7, 0), "inf");
    assert_eq!(ratio_string(0, 0), "NaN");
    assert_eq!(ratio_string(1024, 512), format!("{:.3}", 1024.0_f64 / 512.0_f64));
    assert_eq!(ratio_string(16, 9), format!("{:.3}", 16.0_f64 / 9.0_f64));
}

#[test]
fn numbers_are_written_in_decimal() {
    assert_eq!(decimal_string(0), "0");
    assert_eq!(decimal_string(7), "7");
    assert_eq!(decimal_string(10), "10");
    assert_eq!(decimal_string(4_294_967_295), "4294967295");
    assert_eq!(decimal_string(u128::MAX), u128::MAX.to_string());
    assert_eq!(digit_text(0), "0");
    assert_eq!(digit_text(9), "9");
}

#[test]
fn results_are_built_as_success_or_failure() {
    let contract = template(FailureMode::Block, false);
    let ok = ValidationResult::success(&contract);
    assert!(ok.valid);
    assert!(ok.violations.is_empty());
    assert_eq!(ok.template_id, "test-icon");
    assert_eq!(ok.template_version, "1.0.0");
    let info = ValidationViolation {
        rule: "note".to_string(),
        severity: ViolationSeverity::Info,
        message: "for the record".to_string(),
        expected: None,
        actual: None,
        remediation: vec![],
    };
    let warned = ValidationResult::failure(&contract, vec![info]);
    assert!(!warned.valid);
    assert_eq!(warned.violations.len(), 1);
    assert!(!warned.has_errors());
    let error = ValidationViolation {
        rule: "broken".to_string(),
        severity: ViolationSeverity::Error,
        message: "it is".to_string(),
        expected: Some("whole".to_string()),
        actual: Some("broken".to_string()),
        remediation: vec!["mend it".to_string()],
    };
    let failed = ValidationResult::failure(&contract, vec![warned.violations[0].clone(), error]);
    assert!(failed.has_errors());
    assert_eq!(failed.template_id, "test-icon");
}

#[test]
fn the_default_validator_runs_the_same_rules() {
    let result = Validator::default().validate(&input(400, 100, Some(20)), &template(FailureMode::Log, true));
    assert_eq!(rules_of(&result), vec!["aspect_ratio", "resolution", "color_count"]);
}

#[test]
fn ratios_are_rounded_to_the_nearest_thousandth() {
    for width in 0u32..200 {
        for height in 1u32..200 {
            let halfway = (2000 * u64::from(width)) % (2 * u64::from(height)) == u64::from(height);
            if !halfway {
                let ratio = f64::from(width) / f64::from(height);
                assert_eq!(ratio_string(width, height), format!("{:.3}", ratio));
            }
        }
    }
    // halfway between two thousandths, the even one is taken
    assert_eq!(ratio_string(1, 2000), "0.000");
    assert_eq!(ratio_string(3, 2000), "0.002");
    assert_eq!(ratio_string(5, 2000), "0.002");
    assert_eq!(ratio_string(7, 2000), "0.004");
    assert_eq!(ratio_string(4001, 2000), "2.000");
    assert_eq!(ratio_string(4003, 2000), "2.002");
}
