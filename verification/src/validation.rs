//! Validation: rules that find violations, and the policy that turns the
//! violations found into a verdict.
//!
//! A rule looks at the measured properties of an asset and at a template and
//! reports what deviates. Violations are data. The validator runs the rules in
//! a fixed order and applies the template's failure mode to what they found.

use vstd::prelude::*;
use vstd::string::*;
use crate::templates::{FailureMode, Template};
use crate::text::{decimal_string, decimal_text, digit_char, digit_text, push_decimal};

verus! {

/// How serious a violation is.
#[derive(Debug, Clone, PartialEq, Eq)]
pub enum ViolationSeverity {
    Error,
    Warning,
    Info,
}

/// One deviation that a rule found.
#[derive(Debug, Clone)]
pub struct ValidationViolation {
    pub rule: String,
    pub severity: ViolationSeverity,
    pub message: String,
    pub expected: Option<String>,
    pub actual: Option<String>,
    pub remediation: Vec<String>,
}

/// The outcome of validating one asset against one template.
#[derive(Debug, Clone)]
pub struct ValidationResult {
    pub valid: bool,
    pub violations: Vec<ValidationViolation>,
    pub template_id: String,
    pub template_version: String,
}

/// The measured properties of a candidate asset.
#[derive(Debug, Clone)]
pub struct AssetInput {
    pub width: u32,
    pub height: u32,
    pub color_count: Option<u32>,
    pub format: Option<String>,
}

/// What a violation says, as plain text.
pub ghost struct ViolationView {
    pub rule: Seq<char>,
    pub severity: ViolationSeverity,
    pub message: Seq<char>,
    pub expected: Option<Seq<char>>,
    pub actual: Option<Seq<char>>,
    pub remediation: Seq<Seq<char>>,
}

/// What a validation result says, as plain text.
pub ghost struct ResultView {
    pub valid: bool,
    pub violations: Seq<ViolationView>,
    pub template_id: Seq<char>,
    pub template_version: Seq<char>,
}

/// The text of an optional string.
pub open spec fn optional_text(text: Option<String>) -> Option<Seq<char>> {
    match text {
        Some(t) => Some(t@),
        None => None,
    }
}

/// The texts of a list of strings.
pub open spec fn texts(list: Seq<String>) -> Seq<Seq<char>> {
    Seq::new(list.len(), |i: int| list[i]@)
}

/// The views of a list of violations.
pub open spec fn violation_views(list: Seq<ValidationViolation>) -> Seq<ViolationView> {
    Seq::new(list.len(), |i: int| list[i]@)
}

impl View for ValidationViolation {
    type V = ViolationView;

    open spec fn view(&self) -> ViolationView {
        ViolationView {
            rule: self.rule@,
            severity: self.severity,
            message: self.message@,
            expected: optional_text(self.expected),
            actual: optional_text(self.actual),
            remediation: texts(self.remediation@),
        }
    }
}

impl View for ValidationResult {
    type V = ResultView;

    open spec fn view(&self) -> ResultView {
        ResultView {
            valid: self.valid,
            violations: violation_views(self.violations@),
            template_id: self.template_id@,
            template_version: self.template_version@,
        }
    }
}

/// Whether any of the violations has Error severity.
pub open spec fn has_error(found: Seq<ViolationView>) -> bool {
    exists|i: int| 0 <= i < found.len() && (#[trigger] found[i]).severity is Error
}

impl ValidationResult {
    /// A valid result without violations.
    pub fn success(template: &Template) -> (result: Self)
        ensures
            result@ == (ResultView {
                valid: true,
                violations: Seq::empty(),
                template_id: template.id@,
                template_version: template.template_version@,
            }),
    {
        let result = ValidationResult {
            valid: true,
            violations: Vec::new(),
            template_id: template.id.clone(),
            template_version: template.template_version.clone(),
        };
        proof {
            assert(result@.violations =~= Seq::empty());
        }
        result
    }

    /// An invalid result that carries `violations`.
    pub fn failure(template: &Template, violations: Vec<ValidationViolation>) -> (result: Self)
        ensures
            result@ == (ResultView {
                valid: false,
                violations: violation_views(violations@),
                template_id: template.id@,
                template_version: template.template_version@,
            }),
    {
        ValidationResult {
            valid: false,
            violations,
            template_id: template.id.clone(),
            template_version: template.template_version.clone(),
        }
    }

    /// Whether the result carries a violation of Error severity.
    pub fn has_errors(&self) -> (any: bool)
        ensures
            any == has_error(self@.violations),
    {
        any_error(&self.violations)
    }
}

fn any_error(violations: &Vec<ValidationViolation>) -> (any: bool)
    ensures
        any == has_error(violation_views(violations@)),
{
    let mut i: usize = 0;
    while i < violations.len()
        invariant
            i <= violations@.len(),
            forall|j: int| 0 <= j < i ==> !(violation_views(violations@)[j].severity is Error),
        decreases violations@.len() - i,
    {
        match violations[i].severity {
            ViolationSeverity::Error => {
                assert(violation_views(violations@)[i as int].severity is Error);
                return true;
            },
            _ => {},
        }
        i += 1;
    }
    false
}

/// Whether the ratio `actual_width : actual_height` is further from
/// `target_width : target_height` than the tolerance allows.
///
/// Both ratios are taken as exact fractions. A ratio with a zero denominator
/// is infinite when its numerator is positive and undefined when that is zero
/// too: an infinite ratio is too far from every finite one, and nothing is too
/// far from an undefined ratio or from a second infinite one.
pub open spec fn ratio_mismatch(
    target_width: int,
    target_height: int,
    actual_width: int,
    actual_height: int,
    tolerance_millionths: int,
) -> bool {
    if target_height > 0 && actual_height > 0 {
        let cross = target_width * actual_height - actual_width * target_height;
        let distance = if cross >= 0 {
            cross
        } else {
            -cross
        };
        distance * 1_000_000 > tolerance_millionths * target_height * actual_height
    } else if target_height > 0 {
        actual_width > 0
    } else if actual_height > 0 {
        target_width > 0
    } else {
        false
    }
}

/// `width / height` in thousandths, rounded to the nearest, a half to the
/// even neighbour; for `height > 0`.
pub open spec fn ratio_thousandths(width: int, height: int) -> int {
    let quotient = (1000 * width) / height;
    let rest = (1000 * width) % height;
    if 2 * rest > height || (2 * rest == height && quotient % 2 == 1) {
        quotient + 1
    } else {
        quotient
    }
}

/// The ratio `width / height` written with three decimal places; `inf` for a
/// positive width over a zero height, and `NaN` for zero over zero.
pub open spec fn ratio_text(width: int, height: int) -> Seq<char> {
    if height > 0 {
        let thousandths = ratio_thousandths(width, height);
        decimal_text((thousandths / 1000) as nat) + "."@ + seq![
            digit_char(thousandths % 1000 / 100),
            digit_char(thousandths % 100 / 10),
            digit_char(thousandths % 10),
        ]
    } else if width > 0 {
        "inf"@
    } else {
        "NaN"@
    }
}

/// What the aspect-ratio rule reports: nothing when it is disabled, else one
/// Error when the asset's ratio misses the template's by more than the
/// configured tolerance.
pub open spec fn aspect_ratio_violations(input: AssetInput, template: Template) -> Seq<
    ViolationView,
> {
    if template.validation.rules.aspect_ratio.enabled && ratio_mismatch(
        template.aspect_ratio[0] as int,
        template.aspect_ratio[1] as int,
        input.width as int,
        input.height as int,
        template.validation.rules.aspect_ratio.tolerance.millionths as int,
    ) {
        seq![
            ViolationView {
                rule: "aspect_ratio"@,
                severity: ViolationSeverity::Error,
                message: "Aspect ratio mismatch"@,
                expected: Some(
                    decimal_text(template.aspect_ratio[0] as nat) + ":"@ + decimal_text(
                        template.aspect_ratio[1] as nat,
                    ),
                ),
                actual: Some(ratio_text(input.width as int, input.height as int)),
                remediation: seq!["Crop or resize to match template aspect ratio"@],
            },
        ]
    } else {
        Seq::empty()
    }
}

/// What the resolution rule reports: nothing when it is disabled, else one
/// Error when the asset is narrower or lower than the configured minimum.
pub open spec fn resolution_violations(input: AssetInput, template: Template) -> Seq<
    ViolationView,
> {
    let config = template.validation.rules.resolution;
    if config.enabled && (input.width < config.min_width || input.height < config.min_height) {
        seq![
            ViolationView {
                rule: "resolution"@,
                severity: ViolationSeverity::Error,
                message: "Resolution too low"@,
                expected: Some(
                    decimal_text(config.min_width as nat) + "x"@ + decimal_text(
                        config.min_height as nat,
                    ) + " minimum"@,
                ),
                actual: Some(
                    decimal_text(input.width as nat) + "x"@ + decimal_text(input.height as nat),
                ),
                remediation: seq!["Provide higher resolution source image"@],
            },
        ]
    } else {
        Seq::empty()
    }
}

/// What the color-count rule reports: nothing when it is disabled or the
/// asset's color count is unknown, else one Warning when the count exceeds the
/// configured maximum.
pub open spec fn color_count_violations(input: AssetInput, template: Template) -> Seq<
    ViolationView,
> {
    let config = template.validation.rules.color_count;
    if config.enabled && input.color_count is Some && input.color_count->0 > config.max {
        seq![
            ViolationView {
                rule: "color_count"@,
                severity: ViolationSeverity::Warning,
                message: "Too many colors for clean icon"@,
                expected: Some(decimal_text(config.max as nat) + " colors max"@),
                actual: Some(decimal_text(input.color_count->0 as nat) + " colors"@),
                remediation: seq!["Reduce color palette"@],
            },
        ]
    } else {
        Seq::empty()
    }
}

/// A validation rule: a name, and the violations it finds.
pub trait ValidationRule {
    /// The rule's name.
    spec fn rule_name(&self) -> Seq<char>;

    /// The violations the rule finds in `input` under `template`.
    spec fn violations(&self, input: AssetInput, template: Template) -> Seq<ViolationView>;

    fn name(&self) -> (name: &'static str)
        ensures
            name@ == self.rule_name(),
    ;

    fn validate(&self, input: &AssetInput, template: &Template) -> (found: Vec<
        ValidationViolation,
    >)
        ensures
            violation_views(found@) == self.violations(*input, *template),
    ;
}

/// Compares the asset's aspect ratio with the template's.
pub struct AspectRatioRule;

/// Compares the asset's size with the template's minimum.
pub struct ResolutionRule;

/// Compares the asset's color count with the template's maximum.
pub struct ColorCountRule;

fn one_remedy(text: &str) -> (list: Vec<String>)
    ensures
        texts(list@) == seq![text@],
{
    let mut list: Vec<String> = Vec::new();
    list.push(String::from_str(text));
    proof {
        assert(texts(list@) =~= seq![text@]);
    }
    list
}

fn one_violation(violation: ValidationViolation) -> (list: Vec<ValidationViolation>)
    ensures
        violation_views(list@) == seq![violation@],
{
    let mut list: Vec<ValidationViolation> = Vec::new();
    list.push(violation);
    proof {
        assert(violation_views(list@) =~= seq![violation@]);
    }
    list
}

fn no_violation() -> (list: Vec<ValidationViolation>)
    ensures
        violation_views(list@) == Seq::<ViolationView>::empty(),
{
    let list: Vec<ValidationViolation> = Vec::new();
    proof {
        assert(violation_views(list@) =~= Seq::<ViolationView>::empty());
    }
    list
}

/// Decides `ratio_mismatch`.
pub fn ratios_differ(
    target_width: u32,
    target_height: u32,
    actual_width: u32,
    actual_height: u32,
    tolerance_millionths: u32,
) -> (differ: bool)
    ensures
        differ == ratio_mismatch(
            target_width as int,
            target_height as int,
            actual_width as int,
            actual_height as int,
            tolerance_millionths as int,
        ),
{
    if target_height > 0 && actual_height > 0 {
        let tw = target_width as u128;
        let th = target_height as u128;
        let w = actual_width as u128;
        let h = actual_height as u128;
        let tolerance = tolerance_millionths as u128;
        assert(tw * h <= 0xffff_ffff * 0xffff_ffff && w * th <= 0xffff_ffff * 0xffff_ffff
            && th * h <= 0xffff_ffff * 0xffff_ffff) by (nonlinear_arith)
            requires
                tw <= 0xffff_ffff,
                th <= 0xffff_ffff,
                w <= 0xffff_ffff,
                h <= 0xffff_ffff,
        ;
        let ours = tw * h;
        let theirs = w * th;
        let distance = if ours >= theirs {
            ours - theirs
        } else {
            theirs - ours
        };
        let scale = th * h;
        assert(tolerance * scale <= 0xffff_ffff * (0xffff_ffff * 0xffff_ffff))
            by (nonlinear_arith)
            requires
                tolerance <= 0xffff_ffff,
                scale <= 0xffff_ffff * 0xffff_ffff,
        ;
        assert(tolerance * scale == tolerance * th * h) by (nonlinear_arith)
            requires
                scale == th * h,
        ;
        distance * 1_000_000 > tolerance * scale
    } else if target_height > 0 {
        actual_width > 0
    } else if actual_height > 0 {
        target_width > 0
    } else {
        false
    }
}

/// Writes `ratio_text`.
pub fn ratio_string(width: u32, height: u32) -> (text: String)
    ensures
        text@ == ratio_text(width as int, height as int),
{
    if height > 0 {
        let scaled: u64 = 1000 * (width as u64);
        let quotient = scaled / (height as u64);
        let rest = scaled % (height as u64);
        let thousandths = if 2 * rest > height as u64 || (2 * rest == height as u64 && quotient
            % 2 == 1) {
            quotient + 1
        } else {
            quotient
        };
        assert(thousandths == ratio_thousandths(width as int, height as int));
        let mut text = decimal_string((thousandths / 1000) as u128);
        text.append(".");
        let ghost whole = text@;
        text.append(digit_text((thousandths % 1000 / 100) as u8));
        text.append(digit_text((thousandths % 100 / 10) as u8));
        text.append(digit_text((thousandths % 10) as u8));
        proof {
            assert(text@ =~= whole + seq![
                digit_char(thousandths as int % 1000 / 100),
                digit_char(thousandths as int % 100 / 10),
                digit_char(thousandths as int % 10),
            ]);
        }
        text
    } else if width > 0 {
        String::from_str("inf")
    } else {
        String::from_str("NaN")
    }
}

impl ValidationRule for AspectRatioRule {
    open spec fn rule_name(&self) -> Seq<char> {
        "aspect_ratio"@
    }

    open spec fn violations(&self, input: AssetInput, template: Template) -> Seq<ViolationView> {
        aspect_ratio_violations(input, template)
    }

    fn name(&self) -> (name: &'static str) {
        "aspect_ratio"
    }

    fn validate(&self, input: &AssetInput, template: &Template) -> (found: Vec<
        ValidationViolation,
    >) {
        if !template.validation.rules.aspect_ratio.enabled {
            return no_violation();
        }
        let target_width = template.aspect_ratio[0];
        let target_height = template.aspect_ratio[1];
        let tolerance = template.validation.rules.aspect_ratio.tolerance.millionths;
        if ratios_differ(target_width, target_height, input.width, input.height, tolerance) {
            let mut expected = decimal_string(target_width as u128);
            expected.append(":");
            push_decimal(&mut expected, target_height as u128);
            one_violation(
                ValidationViolation {
                    rule: String::from_str(self.name()),
                    severity: ViolationSeverity::Error,
                    message: String::from_str("Aspect ratio mismatch"),
                    expected: Some(expected),
                    actual: Some(ratio_string(input.width, input.height)),
                    remediation: one_remedy("Crop or resize to match template aspect ratio"),
                },
            )
        } else {
            no_violation()
        }
    }
}

impl ValidationRule for ResolutionRule {
    open spec fn rule_name(&self) -> Seq<char> {
        "resolution"@
    }

    open spec fn violations(&self, input: AssetInput, template: Template) -> Seq<ViolationView> {
        resolution_violations(input, template)
    }

    fn name(&self) -> (name: &'static str) {
        "resolution"
    }

    fn validate(&self, input: &AssetInput, template: &Template) -> (found: Vec<
        ValidationViolation,
    >) {
        if !template.validation.rules.resolution.enabled {
            return no_violation();
        }
        let min_width = template.validation.rules.resolution.min_width;
        let min_height = template.validation.rules.resolution.min_height;
        if input.width < min_width || input.height < min_height {
            let mut expected = decimal_string(min_width as u128);
            expected.append("x");
            push_decimal(&mut expected, min_height as u128);
            expected.append(" minimum");
            let mut actual = decimal_string(input.width as u128);
            actual.append("x");
            push_decimal(&mut actual, input.height as u128);
            one_violation(
                ValidationViolation {
                    rule: String::from_str(self.name()),
                    severity: ViolationSeverity::Error,
                    message: String::from_str("Resolution too low"),
                    expected: Some(expected),
                    actual: Some(actual),
                    remediation: one_remedy("Provide higher resolution source image"),
                },
            )
        } else {
            no_violation()
        }
    }
}

impl ValidationRule for ColorCountRule {
    open spec fn rule_name(&self) -> Seq<char> {
        "color_count"@
    }

    open spec fn violations(&self, input: AssetInput, template: Template) -> Seq<ViolationView> {
        color_count_violations(input, template)
    }

    fn name(&self) -> (name: &'static str) {
        "color_count"
    }

    fn validate(&self, input: &AssetInput, template: &Template) -> (found: Vec<
        ValidationViolation,
    >) {
        if !template.validation.rules.color_count.enabled {
            return no_violation();
        }
        match input.color_count {
            Some(count) => {
                let max = template.validation.rules.color_count.max;
                if count > max {
                    let mut expected = decimal_string(max as u128);
                    expected.append(" colors max");
                    let mut actual = decimal_string(count as u128);
                    actual.append(" colors");
                    return one_violation(
                        ValidationViolation {
                            rule: String::from_str(self.name()),
                            severity: ViolationSeverity::Warning,
                            message: String::from_str("Too many colors for clean icon"),
                            expected: Some(expected),
                            actual: Some(actual),
                            remediation: one_remedy("Reduce color palette"),
                        },
                    );
                }
            },
            None => {},
        }
        no_violation()
    }
}

/// The rules that every validator runs.
pub enum BuiltinRule {
    AspectRatio,
    Resolution,
    ColorCount,
}

impl ValidationRule for BuiltinRule {
    open spec fn rule_name(&self) -> Seq<char> {
        match self {
            BuiltinRule::AspectRatio => AspectRatioRule.rule_name(),
            BuiltinRule::Resolution => ResolutionRule.rule_name(),
            BuiltinRule::ColorCount => ColorCountRule.rule_name(),
        }
    }

    open spec fn violations(&self, input: AssetInput, template: Template) -> Seq<ViolationView> {
        match self {
            BuiltinRule::AspectRatio => AspectRatioRule.violations(input, template),
            BuiltinRule::Resolution => ResolutionRule.violations(input, template),
            BuiltinRule::ColorCount => ColorCountRule.violations(input, template),
        }
    }

    fn name(&self) -> (name: &'static str) {
        match self {
            BuiltinRule::AspectRatio => AspectRatioRule.name(),
            BuiltinRule::Resolution => ResolutionRule.name(),
            BuiltinRule::ColorCount => ColorCountRule.name(),
        }
    }

    fn validate(&self, input: &AssetInput, template: &Template) -> (found: Vec<
        ValidationViolation,
    >) {
        match self {
            BuiltinRule::AspectRatio => AspectRatioRule.validate(input, template),
            BuiltinRule::Resolution => ResolutionRule.validate(input, template),
            BuiltinRule::ColorCount => ColorCountRule.validate(input, template),
        }
    }
}

/// What the rules find on an asset, in the order in which they run: aspect
/// ratio, then resolution, then color count.
pub open spec fn all_violations(input: AssetInput, template: Template) -> Seq<ViolationView> {
    aspect_ratio_violations(input, template) + resolution_violations(input, template)
        + color_count_violations(input, template)
}

/// The verdict on the violations `found` under the template's failure mode.
///
/// Under `Block`, an Error makes the result invalid, and it then carries
/// everything found; without an Error the result is valid and carries
/// nothing, whatever warnings were found. Under `Warn` and `Log` the result is
/// valid and carries everything found.
pub open spec fn verdict(found: Seq<ViolationView>, template: Template) -> ResultView {
    let blocking = template.validation.failure_mode is Block;
    ResultView {
        valid: !(blocking && has_error(found)),
        violations: if blocking && !has_error(found) {
            Seq::empty()
        } else {
            found
        },
        template_id: template.id@,
        template_version: template.template_version@,
    }
}

/// Under `Block`, violations without an Error among them give a valid result
/// that carries nothing, whatever warnings there were.
pub proof fn lemma_block_without_error_is_clean(found: Seq<ViolationView>, template: Template)
    requires
        template.validation.failure_mode is Block,
        !has_error(found),
    ensures
        verdict(found, template).valid,
        verdict(found, template).violations == Seq::<ViolationView>::empty(),
{
}

/// Under `Block`, an Error makes the result invalid, and the result carries
/// everything that was found.
pub proof fn lemma_block_with_error_carries_all(found: Seq<ViolationView>, template: Template)
    requires
        template.validation.failure_mode is Block,
        has_error(found),
    ensures
        !verdict(found, template).valid,
        verdict(found, template).violations == found,
{
}

/// Under `Warn` and `Log` the result is valid whatever was found, and carries
/// everything that was found.
pub proof fn lemma_warn_and_log_record_only(found: Seq<ViolationView>, template: Template)
    requires
        template.validation.failure_mode is Warn || template.validation.failure_mode is Log,
    ensures
        verdict(found, template).valid,
        verdict(found, template).violations == found,
{
}

/// Runs the rules and applies the failure-mode policy.
pub struct Validator {
    rules: Vec<BuiltinRule>,
}

/// What the first `count` of `rules` find, one rule after the other.
spec fn found_by(rules: Seq<BuiltinRule>, count: int, input: AssetInput, template: Template) -> Seq<
    ViolationView,
>
    decreases count,
{
    if count <= 0 {
        Seq::empty()
    } else {
        found_by(rules, count - 1, input, template) + rules[count - 1].violations(input, template)
    }
}

/// The three rules in their fixed order: aspect ratio, resolution, color
/// count.
pub open spec fn builtin_rules() -> Seq<BuiltinRule> {
    seq![BuiltinRule::AspectRatio, BuiltinRule::Resolution, BuiltinRule::ColorCount]
}

impl Validator {
    #[verifier::type_invariant]
    spec fn runs_the_builtin_rules(&self) -> bool {
        self.rules@ == builtin_rules()
    }

    /// The rules that the validator runs, in the order in which it runs them.
    pub closed spec fn rules(&self) -> Seq<BuiltinRule> {
        self.rules@
    }

    /// A validator with the three rules in their fixed order.
    pub fn new() -> (validator: Self)
        ensures
            validator.rules() == builtin_rules(),
    {
        let mut rules: Vec<BuiltinRule> = Vec::new();
        rules.push(BuiltinRule::AspectRatio);
        rules.push(BuiltinRule::Resolution);
        rules.push(BuiltinRule::ColorCount);
        proof {
            assert(rules@ =~= seq![
                BuiltinRule::AspectRatio,
                BuiltinRule::Resolution,
                BuiltinRule::ColorCount,
            ]);
        }
        Validator { rules }
    }

    /// Validates `input` against `template`.
    pub fn validate(&self, input: &AssetInput, template: &Template) -> (result: ValidationResult)
        ensures
            result@ == verdict(all_violations(*input, *template), *template),
            template.validation.failure_mode is Block && !has_error(
                all_violations(*input, *template),
            ) ==> result@.valid && result@.violations.len() == 0,
            !(template.validation.failure_mode is Block) ==> result@.valid && result@.violations
                == all_violations(*input, *template),
            result@.valid <==> !(template.validation.failure_mode is Block && has_error(
                all_violations(*input, *template),
            )),
    {
        proof {
            use_type_invariant(self);
        }
        let mut found: Vec<ValidationViolation> = Vec::new();
        let mut i: usize = 0;
        while i < self.rules.len()
            invariant
                i <= self.rules@.len(),
                violation_views(found@) == found_by(self.rules@, i as int, *input, *template),
            decreases self.rules@.len() - i,
        {
            let mut more = self.rules[i].validate(input, template);
            let ghost before = found@;
            let ghost added = more@;
            found.append(&mut more);
            i += 1;
            proof {
                assert(violation_views(found@) =~= violation_views(before) + violation_views(
                    added,
                ));
            }
        }
        proof {
            reveal_with_fuel(found_by, 4);
            assert(violation_views(found@) =~= all_violations(*input, *template));
        }
        let errors = any_error(&found);
        match template.validation.failure_mode {
            FailureMode::Block => {
                if errors {
                    ValidationResult::failure(template, found)
                } else {
                    ValidationResult::success(template)
                }
            },
            _ => ValidationResult {
                valid: true,
                violations: found,
                template_id: template.id.clone(),
                template_version: template.template_version.clone(),
            },
        }
    }
}

impl Default for Validator {
    fn default() -> (validator: Self)
        ensures
            validator.rules() == builtin_rules(),
    {
        Validator::new()
    }
}

} // verus!
