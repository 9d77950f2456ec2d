//! The pipeline from request to compiled asset, on concrete requests.

use base64::Engine;
use forgeimages_core::hashing::{compute_manifest_hash, sha256_hex};
use forgeimages_core::json::to_text;
use forgeimages_core::pipeline::{
    assemble_asset, format_extension, generate_exports, get_validation_call_count, render_export,
    reset_validation_call_count, ValidationCounter,
};
use forgeimages_core::templates::{
    AssetClass, ColorCountRule, ExportFormat, ExportSpec, FailureMode, ResolutionRule, RuleConfig,
    Template, TemplateRegistry, Tolerance, ValidationConfig, ValidationRules,
};
use forgeimages_core::validation::{AssetInput, Validator};
use forgeimages_core::version::{check_compatibility, judge_compatibility, Compatibility};
use forgeimages_core::{CompilationPipeline, CompileRequest, PipelineError};

const SVG_1024: &str = r#"<svg xmlns="http://www.w3.org/2000/svg" viewBox="0 0 1024 1024"></svg>"#;

const PNG_PIXEL: [u8; 67] = [
    0x89, 0x50, 0x4E, 0x47, 0x0D, 0x0A, 0x1A, 0x0A, 0x00, 0x00, 0x00, 0x0D, 0x49, 0x48, 0x44, 0x52,
    0x00, 0x00, 0x00, 0x01, 0x00, 0x00, 0x00, 0x01, 0x08, 0x06, 0x00, 0x00, 0x00, 0x1F, 0x15, 0xC4,
    0x89, 0x00, 0x00, 0x00, 0x0A, 0x49, 0x44, 0x41, 0x54, 0x78, 0x9C, 0x63, 0x00, 0x01, 0x00, 0x00,
    0x05, 0x00, 0x01, 0x0D, 0x0A, 0x2D, 0xB4, 0x00, 0x00, 0x00, 0x00, 0x49, 0x45, 0x4E, 0x44, 0xAE,
    0x42, 0x60, 0x82,
];

fn export(id: &str, size: [u32; 2], format: ExportFormat) -> ExportSpec {
    ExportSpec { id: id.to_string(), description: String::new(), size, format, required: true }
}

fn template(id: &str, minimum: &str, mode: FailureMode, exports: Vec<ExportSpec>) -> Template {
    Template {
        id: id.to_string(),
        name: "Test Icon".to_string(),
        description: "Test template".to_string(),
        template_version: "1.0.0".to_string(),
        engine_min_version: minimum.to_string(),
        deprecated: false,
        superseded_by: None,
        asset_class: AssetClass::Icon,
        aspect_ratio: [1, 1],
        canonical_size: [1024, 1024],
        vector_master: true,
        validation: ValidationConfig {
            required: true,
            failure_mode: mode,
            rules: ValidationRules {
                aspect_ratio: RuleConfig { enabled: true, tolerance: Tolerance { millionths: 10_000 } },
                resolution: ResolutionRule { enabled: true, min_width: 512, min_height: 512 },
                color_count: ColorCountRule { enabled: true, max: 16 },
            },
        },
        exports,
    }
}

fn icon() -> Template {
    template(
        "test-icon",
        "1.0.0",
        FailureMode::Block,
        vec![export("master", [1024, 1024], ExportFormat::Svg)],
    )
}

fn pipeline_of(templates: Vec<Template>) -> CompilationPipeline {
    let mut registry = TemplateRegistry::new();
    for t in templates {
        registry.register(t);
    }
    CompilationPipeline::new(registry)
}

fn request(template_id: &str, width: u32, height: u32, colors: Option<u32>) -> CompileRequest {
    CompileRequest {
        template_id: template_id.to_string(),
        asset_input: AssetInput { width, height, color_count: colors, format: None },
        source_data: None,
        seed: None,
        prompt: None,
    }
}

fn seeded() -> CompileRequest {
    CompileRequest {
        template_id: "test-icon".to_string(),
        asset_input: AssetInput { width: 1024, height: 1024, color_count: Some(4), format: None },
        source_data: None,
        seed: Some(42),
        prompt: Some("test".to_string()),
    }
}

const SEEDED_PAYLOAD: &str = r#"{"asset_input":{"color_count":4,"format":null,"height":1024,"width":1024},"prompt":"test","seed":42,"source_data":null,"template_id":"test-icon"}"#;

#[test]
fn a_valid_square_asset_validates_without_violations() {
    let pipeline = pipeline_of(vec![icon()]);
    let input = AssetInput { width: 1024, height: 1024, color_count: Some(8), format: None };
    let result = pipeline.validate_asset("test-icon", &input).unwrap();
    assert!(result.valid);
    assert!(result.violations.is_empty());
}

#[test]
fn compile_fails_on_wrong_aspect_ratio_and_names_the_rule() {
    let pipeline = pipeline_of(vec![icon()]);
    let error = pipeline.compile_asset(&request("test-icon", 1024, 512, None)).unwrap_err();
    assert!(matches!(error, PipelineError::ValidationFailed(_)));
    let message = error.to_string();
    assert!(message.contains("Validation failed"));
    assert!(message.contains("aspect_ratio"));
    assert_eq!(message, "Validation failed: aspect_ratio: Aspect ratio mismatch");
}

#[test]
fn the_failure_message_joins_all_violations_of_the_result() {
    let pipeline = pipeline_of(vec![icon()]);
    let error = pipeline.compile_asset(&request("test-icon", 400, 100, Some(20))).unwrap_err();
    assert_eq!(
        error.to_string(),
        "Validation failed: aspect_ratio: Aspect ratio mismatch; resolution: Resolution too low; \
         color_count: Too many colors for clean icon"
    );
}

#[test]
fn an_unknown_template_is_not_found_with_its_identifier() {
    let pipeline = pipeline_of(vec![icon()]);
    let error = pipeline.compile_asset(&request("nonexistent", 1024, 1024, None)).unwrap_err();
    assert!(matches!(&error, PipelineError::TemplateNotFound(id) if id == "nonexistent"));
    assert_eq!(error.to_string(), "Template not found: nonexistent");
    let input = AssetInput { width: 1, height: 1, color_count: None, format: None };
    let error = pipeline.validate_asset("missing", &input).unwrap_err();
    assert_eq!(error.to_string(), "Template not found: missing");
    assert!(CompilationPipeline::default().validate_asset("test-icon", &input).is_err());
}

#[test]
fn identical_requests_have_identical_job_hashes() {
    let pipeline = pipeline_of(vec![icon()]);
    let first = pipeline.compile_asset(&seeded()).unwrap();
    let second = pipeline.compile_asset(&seeded()).unwrap();
    assert_eq!(first.job_hash, second.job_hash);
    let mut other = seeded();
    other.seed = Some(43);
    assert_ne!(pipeline.compile_asset(&other).unwrap().job_hash, first.job_hash);
}

#[test]
fn the_job_hash_is_the_digest_of_template_payload_and_engine() {
    let pipeline = pipeline_of(vec![icon()]);
    let asset = pipeline.compile_asset(&seeded()).unwrap();
    assert_eq!(to_text(&forgeimages_core::json::sort_value(&seeded().to_json())).unwrap(), SEEDED_PAYLOAD);
    let hashed = format!("test-icon:1.0.0:{}:1.0.0", SEEDED_PAYLOAD);
    assert_eq!(asset.job_hash, sha256_hex(hashed.as_bytes()));
    assert_eq!(asset.job_hash.len(), 64);
}

#[test]
fn a_too_small_asset_is_invalid_with_telling_violations() {
    let pipeline = pipeline_of(vec![icon()]);
    let input = AssetInput { width: 100, height: 100, color_count: None, format: None };
    let result = pipeline.validate_asset("test-icon", &input).unwrap();
    assert!(!result.valid);
    assert!(!result.violations.is_empty());
    for violation in &result.violations {
        assert!(!violation.rule.is_empty());
        assert!(!violation.message.is_empty());
    }
    assert!(pipeline.compile_asset(&request("test-icon", 100, 100, None)).is_err());
}

#[test]
fn warn_mode_compiles_what_block_mode_rejects() {
    let lenient = template(
        "lenient",
        "1.0.0",
        FailureMode::Warn,
        vec![export("master", [8, 8], ExportFormat::Png)],
    );
    let pipeline = pipeline_of(vec![icon(), lenient]);
    assert!(pipeline.compile_asset(&request("test-icon", 1024, 512, None)).is_err());
    let asset = pipeline.compile_asset(&request("lenient", 1024, 512, None)).unwrap();
    assert!(asset.validation.valid);
    assert_eq!(asset.validation.violations.len(), 1);
    assert_eq!(asset.validation.violations[0].rule, "aspect_ratio");
}

#[test]
fn the_compiled_asset_records_template_engine_and_validation() {
    let pipeline = pipeline_of(vec![icon()]);
    let asset = pipeline.compile_asset(&seeded()).unwrap();
    assert_eq!(asset.template_id, "test-icon");
    assert_eq!(asset.template_version, "1.0.0");
    assert_eq!(asset.engine_version, "1.0.0");
    assert!(asset.validation.valid);
    assert!(asset.validation.violations.is_empty());
    assert_eq!(asset.validation.template_id, "test-icon");
    assert_eq!(asset.manifest_hash.len(), 64);
    assert!(asset.manifest_hash.chars().all(|c| c.is_ascii_digit() || ('a'..='f').contains(&c)));
}

#[test]
fn identifiers_are_random_and_times_are_rfc_3339() {
    let pipeline = pipeline_of(vec![icon()]);
    let first = pipeline.compile_asset(&seeded()).unwrap();
    let second = pipeline.compile_asset(&seeded()).unwrap();
    assert_ne!(first.id, second.id);
    let parsed = uuid::Uuid::parse_str(&first.id).unwrap();
    assert_eq!(parsed.get_version_num(), 4);
    assert_eq!(first.id, parsed.to_string());
    let moment = chrono::DateTime::parse_from_rfc3339(&first.created_at).unwrap();
    assert!(first.created_at.ends_with('Z'));
    assert_eq!(
        serde_json::to_string(&moment.with_timezone(&chrono::Utc)).unwrap(),
        format!("\"{}\"", first.created_at)
    );
}

#[test]
fn exports_follow_the_template_in_order() {
    let contract = template(
        "all",
        "1.0.0",
        FailureMode::Block,
        vec![
            export("master", [1024, 1024], ExportFormat::Svg),
            export("icon", [64, 32], ExportFormat::Png),
            export("fav", [16, 16], ExportFormat::Ico),
            export("doc", [210, 297], ExportFormat::Pdf),
            export("photo", [800, 600], ExportFormat::Jpg),
        ],
    );
    let pipeline = pipeline_of(vec![contract]);
    let asset = pipeline.compile_asset(&request("all", 1024, 1024, None)).unwrap();
    let standard = base64::engine::general_purpose::STANDARD;
    assert_eq!(asset.exports.len(), 5);

    let master = &asset.exports[0];
    assert_eq!(master.id, "master");
    assert_eq!(master.filename, "master.svg");
    assert_eq!(master.format, "svg");
    assert_eq!(master.size, [1024, 1024]);
    assert_eq!(master.data_base64, standard.encode(SVG_1024.as_bytes()));
    assert_eq!(master.hash, sha256_hex(SVG_1024.as_bytes()));
    assert_eq!(standard.decode(&master.data_base64).unwrap(), SVG_1024.as_bytes());
    assert_ne!(master.data_base64, SVG_1024);

    let icon = &asset.exports[1];
    assert_eq!(icon.filename, "icon.png");
    assert_eq!(icon.format, "png");
    assert_eq!(icon.size, [64, 32]);
    assert_eq!(icon.data_base64, standard.encode(PNG_PIXEL));
    assert_eq!(icon.hash, sha256_hex(&PNG_PIXEL));

    for (index, extension) in [(2, "ico"), (3, "pdf"), (4, "jpg")] {
        let file = &asset.exports[index];
        assert_eq!(file.format, extension);
        assert_eq!(file.filename, format!("{}.{}", file.id, extension));
        assert_eq!(file.data_base64, "cGxhY2Vob2xkZXI=");
        assert_eq!(file.hash, sha256_hex(b"placeholder"));
    }
}

#[test]
fn a_template_without_exports_compiles_to_an_asset_without_files() {
    let bare = template("bare", "1.0.0", FailureMode::Block, vec![]);
    let pipeline = pipeline_of(vec![bare]);
    let asset = pipeline.compile_asset(&request("bare", 600, 600, None)).unwrap();
    assert!(asset.exports.is_empty());
}

#[test]
fn placeholders_are_rendered_for_every_format() {
    let any = request("test-icon", 1, 1, None);
    assert_eq!(render_export(&export("a", [1024, 1024], ExportFormat::Svg), &any).unwrap(), SVG_1024.as_bytes());
    assert_eq!(
        render_export(&export("a", [0, 4294967295], ExportFormat::Svg), &any).unwrap(),
        br#"<svg xmlns="http://www.w3.org/2000/svg" viewBox="0 0 0 4294967295"></svg>"#
    );
    assert_eq!(render_export(&export("a", [1, 1], ExportFormat::Png), &any).unwrap(), PNG_PIXEL);
    assert_eq!(render_export(&export("a", [1, 1], ExportFormat::Ico), &any).unwrap(), b"placeholder");
    assert_eq!(render_export(&export("a", [1, 1], ExportFormat::Pdf), &any).unwrap(), b"placeholder");
    assert_eq!(render_export(&export("a", [1, 1], ExportFormat::Jpg), &any).unwrap(), b"placeholder");
    let files = generate_exports(&icon(), &any).unwrap();
    assert_eq!(files.len(), 1);
    assert_eq!(files[0].filename, "master.svg");
}

#[test]
fn every_format_has_its_extension() {
    assert_eq!(format_extension(&ExportFormat::Svg), "svg");
    assert_eq!(format_extension(&ExportFormat::Png), "png");
    assert_eq!(format_extension(&ExportFormat::Ico), "ico");
    assert_eq!(format_extension(&ExportFormat::Pdf), "pdf");
    assert_eq!(format_extension(&ExportFormat::Jpg), "jpg");
}

#[test]
fn the_manifest_hash_covers_the_asset_with_an_empty_hash_field() {
    let pipeline = pipeline_of(vec![icon()]);
    let asset = pipeline.compile_asset(&seeded()).unwrap();
    let mut draft = asset.clone();
    draft.manifest_hash = String::new();
    assert_eq!(compute_manifest_hash(&draft.to_json()).unwrap(), asset.manifest_hash);
    assert_ne!(compute_manifest_hash(&asset.to_json()).unwrap(), asset.manifest_hash);
    let mut tampered = draft.clone();
    tampered.exports[0].hash = sha256_hex(b"something else");
    assert_ne!(compute_manifest_hash(&tampered.to_json()).unwrap(), asset.manifest_hash);
}

#[test]
fn assembling_with_a_given_identifier_and_time_is_reproducible() {
    let contract = icon();
    let order = seeded();
    let assemble = || {
        let validation = Validator::new().validate(&order.asset_input, &contract);
        let exports = generate_exports(&contract, &order).unwrap();
        assemble_asset(
            &contract,
            &order,
            validation,
            exports,
            "6f2c8c1e-8a53-4a7b-9d0e-0123456789ab".to_string(),
            "2024-05-06T07:08:09.123456789Z".to_string(),
        )
        .unwrap()
    };
    let first = assemble();
    let second = assemble();
    assert_eq!(first.manifest_hash, second.manifest_hash);
    assert_eq!(first.job_hash, second.job_hash);
    assert_eq!(first.id, "6f2c8c1e-8a53-4a7b-9d0e-0123456789ab");
    assert_eq!(first.created_at, "2024-05-06T07:08:09.123456789Z");

    let job_hash = sha256_hex(format!("test-icon:1.0.0:{}:1.0.0", SEEDED_PAYLOAD).as_bytes());
    let svg = base64::engine::general_purpose::STANDARD.encode(SVG_1024.as_bytes());
    let manifest = format!(
        "{{\"created_at\":\"2024-05-06T07:08:09.123456789Z\",\"engine_version\":\"1.0.0\",\
         \"exports\":[{{\"data_base64\":\"{}\",\"filename\":\"master.svg\",\"format\":\"svg\",\
         \"hash\":\"{}\",\"id\":\"master\",\"size\":[1024,1024]}}],\
         \"id\":\"6f2c8c1e-8a53-4a7b-9d0e-0123456789ab\",\"job_hash\":\"{}\",\
         \"manifest_hash\":\"\",\"template_id\":\"test-icon\",\"template_version\":\"1.0.0\",\
         \"validation\":{{\"template_id\":\"test-icon\",\"template_version\":\"1.0.0\",\
         \"valid\":true,\"violations\":[]}}}}",
        svg,
        sha256_hex(SVG_1024.as_bytes()),
        job_hash
    );
    assert_eq!(first.job_hash, job_hash);
    assert_eq!(first.manifest_hash, sha256_hex(manifest.as_bytes()));
}

#[test]
fn the_manifest_of_a_rejected_asset_lists_its_violations() {
    let contract = template("lenient", "1.0.0", FailureMode::Log, vec![]);
    let order = request("lenient", 100, 100, Some(20));
    let validation = Validator::new().validate(&order.asset_input, &contract);
    let asset = assemble_asset(&contract, &order, validation, vec![], "id".to_string(), "now".to_string())
        .unwrap();
    let manifest: serde_json::Value =
        serde_json::from_str(&to_text(&asset.to_json()).unwrap()).unwrap();
    assert_eq!(manifest["id"], "id");
    assert_eq!(manifest["created_at"], "now");
    assert_eq!(manifest["template_id"], "lenient");
    assert_eq!(manifest["engine_version"], "1.0.0");
    assert_eq!(manifest["manifest_hash"], asset.manifest_hash.as_str());
    assert_eq!(manifest["job_hash"], asset.job_hash.as_str());
    assert_eq!(manifest["exports"], serde_json::Value::Array(vec![]));
    assert_eq!(manifest["validation"]["valid"], true);
    let violations = manifest["validation"]["violations"].as_array().unwrap();
    assert_eq!(violations.len(), 2);
    assert_eq!(violations[0]["rule"], "resolution");
    assert_eq!(violations[0]["severity"], "error");
    assert_eq!(violations[0]["message"], "Resolution too low");
    assert_eq!(violations[0]["expected"], "512x512 minimum");
    assert_eq!(violations[0]["actual"], "100x100");
    assert_eq!(violations[0]["remediation"][0], "Provide higher resolution source image");
    assert_eq!(violations[1]["rule"], "color_count");
    assert_eq!(violations[1]["severity"], "warning");
    assert_eq!(manifest.as_object().unwrap().len(), 9);
    assert_eq!(violations[0].as_object().unwrap().len(), 6);
}

#[test]
fn requests_have_their_structured_form() {
    let order = CompileRequest {
        template_id: "t".to_string(),
        asset_input: AssetInput {
            width: 3,
            height: 4,
            color_count: None,
            format: Some("png".to_string()),
        },
        source_data: Some("aGk=".to_string()),
        seed: Some(u64::MAX),
        prompt: None,
    };
    assert_eq!(
        to_text(&order.to_json()).unwrap(),
        r#"{"template_id":"t","asset_input":{"width":3,"height":4,"color_count":null,"format":"png"},"source_data":"aGk=","seed":18446744073709551615,"prompt":null}"#
    );
}

#[test]
fn the_engine_must_be_as_new_as_the_template_asks() {
    let newer = template("newer", "2.0.0", FailureMode::Block, vec![]);
    let patch = template("patch", "1.0.1", FailureMode::Block, vec![]);
    let older = template("older", "0.9.9", FailureMode::Block, vec![]);
    let alpha = template("alpha", "1.0.0-alpha.1", FailureMode::Block, vec![]);
    let build = template("build", "1.0.0+build.5", FailureMode::Block, vec![]);
    let pipeline = pipeline_of(vec![newer, patch, older, alpha, build]);
    let input = AssetInput { width: 600, height: 600, color_count: None, format: None };

    let error = pipeline.validate_asset("newer", &input).unwrap_err();
    assert!(matches!(&error, PipelineError::EngineVersionMismatch(t, m, e)
        if t == "1.0.0" && m == "2.0.0" && e == "1.0.0"));
    assert_eq!(
        error.to_string(),
        "Template version 1.0.0 requires engine >= 2.0.0, current is 1.0.0"
    );
    assert!(matches!(
        pipeline.compile_asset(&request("patch", 600, 600, None)),
        Err(PipelineError::EngineVersionMismatch(..))
    ));
    assert!(pipeline.validate_asset("older", &input).is_ok());
    assert!(pipeline.validate_asset("alpha", &input).is_ok());
    // build metadata takes part in the order of versions
    assert!(matches!(
        pipeline.validate_asset("build", &input),
        Err(PipelineError::EngineVersionMismatch(..))
    ));
}

#[test]
fn an_unreadable_minimum_version_is_a_compilation_error() {
    let input = AssetInput { width: 600, height: 600, color_count: None, format: None };
    for minimum in ["", "1.0", "1.0.01", "one", "1.0.0-", "v1.0.0", " 1.0.0"] {
        let pipeline = pipeline_of(vec![template("odd", minimum, FailureMode::Warn, vec![])]);
        let error = pipeline.validate_asset("odd", &input).unwrap_err();
        assert!(matches!(&error, PipelineError::CompilationError(_)));
        assert_eq!(error.to_string(), "Compilation error: Invalid template min version");
        assert!(pipeline.compile_asset(&request("odd", 600, 600, None)).is_err());
        let template = pipeline.get_template("odd").unwrap();
        assert!(pipeline.check_engine_version(template).is_err());
    }
    let pipeline = pipeline_of(vec![icon()]);
    assert!(pipeline.check_engine_version(pipeline.get_template("test-icon").unwrap()).is_ok());
}

#[test]
fn versions_are_read_and_ordered_as_semantic_versions() {
    assert_eq!(check_compatibility("1.0.0", "1.0.0"), Compatibility::Compatible);
    assert_eq!(check_compatibility("1.2.3", "1.2.2"), Compatibility::Compatible);
    assert_eq!(check_compatibility("1.10.0", "1.9.0"), Compatibility::Compatible);
    assert_eq!(check_compatibility("1.9.0", "1.10.0"), Compatibility::EngineTooOld);
    assert_eq!(check_compatibility("1.0.0-rc.1", "1.0.0"), Compatibility::EngineTooOld);
    assert_eq!(check_compatibility("1.0.0", "1.0.0-rc.1"), Compatibility::Compatible);
    assert_eq!(check_compatibility("x", "1.0.0"), Compatibility::EngineUnreadable);
    assert_eq!(check_compatibility("x", "y"), Compatibility::EngineUnreadable);
    assert_eq!(check_compatibility("1.0.0", "y"), Compatibility::MinimumUnreadable);
}

#[test]
fn compatibility_follows_from_what_was_read() {
    for older in [false, true] {
        assert_eq!(judge_compatibility(false, false, older), Compatibility::EngineUnreadable);
        assert_eq!(judge_compatibility(false, true, older), Compatibility::EngineUnreadable);
        assert_eq!(judge_compatibility(true, false, older), Compatibility::MinimumUnreadable);
    }
    assert_eq!(judge_compatibility(true, true, true), Compatibility::EngineTooOld);
    assert_eq!(judge_compatibility(true, true, false), Compatibility::Compatible);
}

#[test]
fn every_error_has_its_message() {
    assert_eq!(
        PipelineError::TemplateNotFound("icon".to_string()).to_string(),
        "Template not found: icon"
    );
    assert_eq!(
        PipelineError::ValidationFailed("a: b; c: d".to_string()).to_string(),
        "Validation failed: a: b; c: d"
    );
    assert_eq!(
        PipelineError::EngineVersionMismatch("1.2.0".to_string(), "3.0.0".to_string(), "2.9.9".to_string())
            .to_string(),
        "Template version 1.2.0 requires engine >= 3.0.0, current is 2.9.9"
    );
    assert_eq!(
        PipelineError::CompilationError("Invalid engine version".to_string()).to_string(),
        "Compilation error: Invalid engine version"
    );
    assert_eq!(
        PipelineError::SerializationError("key must be a string".to_string()).to_string(),
        "Serialization error: key must be a string"
    );
}

#[test]
fn the_pipeline_lists_and_finds_its_templates() {
    let pipeline = pipeline_of(vec![
        icon(),
        template("second", "1.0.0", FailureMode::Log, vec![]),
    ]);
    let mut ids: Vec<&str> = pipeline.list_templates().iter().map(|t| t.id.as_str()).collect();
    ids.sort();
    assert_eq!(ids, vec!["second", "test-icon"]);
    assert_eq!(pipeline.get_template("second").unwrap().validation.failure_mode, FailureMode::Log);
    assert!(pipeline.get_template("third").is_none());
    assert!(CompilationPipeline::default().list_templates().is_empty());
}

#[test]
fn validations_are_counted() {
    let pipeline = pipeline_of(vec![icon()]);
    let mut counter = ValidationCounter::new();
    assert_eq!(get_validation_call_count(&counter), 0);

    let input = AssetInput { width: 1024, height: 1024, color_count: None, format: None };
    assert!(pipeline.validate_asset_counted(&mut counter, "test-icon", &input).is_ok());
    assert_eq!(get_validation_call_count(&counter), 1);
    assert!(pipeline.validate_asset_counted(&mut counter, "missing", &input).is_err());
    assert_eq!(get_validation_call_count(&counter), 2);

    // compiling validates exactly once, whether the asset passes or not
    assert!(pipeline.compile_asset_counted(&mut counter, &seeded()).is_ok());
    assert_eq!(get_validation_call_count(&counter), 3);
    assert!(pipeline.compile_asset_counted(&mut counter, &request("test-icon", 1024, 512, None)).is_err());
    assert_eq!(get_validation_call_count(&counter), 4);

    // a request without a template never reaches validation
    assert!(pipeline.compile_asset_counted(&mut counter, &request("missing", 1, 1, None)).is_err());
    assert_eq!(get_validation_call_count(&counter), 4);

    reset_validation_call_count(&mut counter);
    assert_eq!(get_validation_call_count(&counter), 0);
    assert!(pipeline.compile_asset_counted(&mut counter, &seeded()).is_ok());
    assert_eq!(get_validation_call_count(&counter), 1);
}
