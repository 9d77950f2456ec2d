//! A policy gate for visual assets: a proposed asset is validated against a
//! versioned template contract, and only a validated asset is compiled into a
//! manifest whose hashes are reproducible.

use vstd::prelude::*;

pub mod hashing;
pub mod hex;
pub mod json;
pub mod manifest;
pub mod member_order;
pub mod pipeline;
pub mod print;
pub mod templates;
pub mod text;
pub mod validation;
pub mod version;

pub use hashing::{canonical_json, compute_job_hash, compute_manifest_hash};
pub use pipeline::{CompilationPipeline, CompileRequest, CompiledAsset, PipelineError};
pub use print::PrintAuthority;
pub use templates::{AssetClass, ExportSpec, Template, TemplateId};
pub use validation::{ValidationResult, ValidationRule, ValidationViolation, ViolationSeverity};

verus! {

/// The version of this engine.
pub const ENGINE_VERSION: &'static str = "1.0.0";

/// The oldest template version that this engine knows.
pub const MIN_TEMPLATE_VERSION: &'static str = "1.0.0";

} // verus!
