//! The guarantees of the pipeline, on concrete requests.

use forgeimages_core::hashing::canonical_json;
use forgeimages_core::json::JsonValue;
use forgeimages_core::templates::{
    AssetClass, ExportFormat, ExportSpec, FailureMode, ResolutionRule, RuleConfig,
    Template, TemplateRegistry, Tolerance, ValidationConfig, ValidationRules,
};
use forgeimages_core::validation::AssetInput;
use forgeimages_core::{CompilationPipeline, CompileRequest};

fn create_test_template() -> Template {
    Template {
        id: "test-icon".to_string(),
        name: "Test Icon".to_string(),
        description: "Test template".to_string(),
        template_version: "1.0.0".to_string(),
        engine_min_version: "1.0.0".to_string(),
        deprecated: false,
        superseded_by: None,
        asset_class: AssetClass::Icon,
        aspect_ratio: [1, 1],
        canonical_size: [1024, 1024],
        vector_master: true,
        validation: ValidationConfig {
            required: true,
            failure_mode: FailureMode::Block,
            rules: ValidationRules {
                aspect_ratio: RuleConfig { enabled: true, tolerance: Tolerance { millionths: 10_000 } },
                resolution: ResolutionRule { enabled: true, min_width: 512, min_height: 512 },
                color_count: Default::default(),
            },
        },
        exports: vec![ExportSpec {
            id: "master".to_string(),
            description: "SVG master".to_string(),
            size: [1024, 1024],
            format: ExportFormat::Svg,
            required: true,
        }],
    }
}

fn create_pipeline() -> CompilationPipeline {
    let mut registry = TemplateRegistry::new();
    registry.register(create_test_template());
    CompilationPipeline::new(registry)
}

fn number(n: i128) -> JsonValue {
    JsonValue::Number(n)
}

fn object(members: Vec<(&str, JsonValue)>) -> JsonValue {
    JsonValue::Object(members.into_iter().map(|(key, value)| (key.to_string(), value)).collect())
}

#[test]
fn invariant_compile_calls_validate() {
    let pipeline = create_pipeline();

    // Invalid: wrong aspect ratio
    let request = CompileRequest {
        template_id: "test-icon".to_string(),
        asset_input: AssetInput { width: 1024, height: 512, color_count: None, format: None },
        source_data: None,
        seed: None,
        prompt: None,
    };

    let result = pipeline.compile_asset(&request);

    // Must fail - validation is enforced
    assert!(result.is_err());
    let err = result.unwrap_err();
    assert!(err.to_string().contains("Validation failed"));
}

#[test]
fn invariant_valid_asset_compiles() {
    let pipeline = create_pipeline();

    let request = CompileRequest {
        template_id: "test-icon".to_string(),
        asset_input: AssetInput { width: 1024, height: 1024, color_count: Some(8), format: None },
        source_data: None,
        seed: None,
        prompt: None,
    };

    let result = pipeline.compile_asset(&request);
    assert!(result.is_ok());

    let asset = result.unwrap();
    assert!(asset.validation.valid);
    assert!(!asset.manifest_hash.is_empty());
}

#[test]
fn invariant_manifest_hash_stable() {
    let pipeline = create_pipeline();

    let request = CompileRequest {
        template_id: "test-icon".to_string(),
        asset_input: AssetInput { width: 1024, height: 1024, color_count: Some(4), format: None },
        source_data: None,
        seed: Some(42),
        prompt: Some("test".to_string()),
    };

    let asset1 = pipeline.compile_asset(&request).unwrap();
    let asset2 = pipeline.compile_asset(&request).unwrap();

    // Job hash should be identical (same inputs)
    assert_eq!(asset1.job_hash, asset2.job_hash);

    // Template info should match
    assert_eq!(asset1.template_id, asset2.template_id);
    assert_eq!(asset1.template_version, asset2.template_version);
}

#[test]
fn invariant_canonical_json_deterministic() {
    let obj1 = object(vec![
        ("z", number(1)),
        ("a", number(2)),
        ("m", object(vec![("b", number(1)), ("a", number(2))])),
    ]);
    let obj2 = object(vec![
        ("a", number(2)),
        ("m", object(vec![("a", number(2)), ("b", number(1))])),
        ("z", number(1)),
    ]);

    let c1 = canonical_json(&obj1).unwrap();
    let c2 = canonical_json(&obj2).unwrap();

    // Must be identical despite different input ordering
    assert_eq!(c1, c2);
}

#[test]
fn invariant_template_not_found_error() {
    let pipeline = create_pipeline();

    let request = CompileRequest {
        template_id: "nonexistent".to_string(),
        asset_input: AssetInput { width: 1024, height: 1024, color_count: None, format: None },
        source_data: None,
        seed: None,
        prompt: None,
    };

    let result = pipeline.compile_asset(&request);
    assert!(result.is_err());
    assert!(result.unwrap_err().to_string().contains("Template not found"));
}

#[test]
fn invariant_validation_result_structure() {
    let pipeline = create_pipeline();

    let input = AssetInput { width: 100, height: 100, color_count: None, format: None };

    let result = pipeline.validate_asset("test-icon", &input).unwrap();

    // Validation failed
    assert!(!result.valid);

    // Has violations with required fields
    assert!(!result.violations.is_empty());
    for v in &result.violations {
        assert!(!v.rule.is_empty());
        assert!(!v.message.is_empty());
    }

    // Template info present
    assert_eq!(result.template_id, "test-icon");
    assert_eq!(result.template_version, "1.0.0");
}
