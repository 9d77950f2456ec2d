//! The structured form of requests, validation results and compiled assets:
//! what is brought into canonical text and hashed.
//!
//! Each record becomes an object whose keys are the names of its fields; an
//! absent value becomes `null`, a pixel size an array of width and height.

use vstd::prelude::*;
use vstd::string::*;
use crate::json::{item_models, member_models, JsonModel, JsonValue};
use crate::pipeline::{AssetView, CompileRequest, CompiledAsset, ExportedFile, ExportedFileView, export_views};
use crate::validation::{
    optional_text, texts, violation_views, AssetInput, ResultView, ValidationResult,
    ValidationViolation, ViolationSeverity, ViolationView,
};

verus! {

/// A text, or `null` where there is none.
pub open spec fn text_or_null(text: Option<Seq<char>>) -> JsonModel {
    match text {
        Some(t) => JsonModel::String(t),
        None => JsonModel::Null,
    }
}

/// A pixel size as an array of width and height.
pub open spec fn size_json(size: [u32; 2]) -> JsonModel {
    JsonModel::Array(seq![JsonModel::Number(size[0] as int), JsonModel::Number(size[1] as int)])
}

/// The structured form of an asset's measured properties.
pub open spec fn asset_input_json(input: AssetInput) -> JsonModel {
    JsonModel::Object(
        seq![
            ("width"@, JsonModel::Number(input.width as int)),
            ("height"@, JsonModel::Number(input.height as int)),
            (
                "color_count"@,
                match input.color_count {
                    Some(count) => JsonModel::Number(count as int),
                    None => JsonModel::Null,
                },
            ),
            ("format"@, text_or_null(optional_text(input.format))),
        ],
    )
}

/// The structured form of a compile request.
pub open spec fn request_json(request: CompileRequest) -> JsonModel {
    JsonModel::Object(
        seq![
            ("template_id"@, JsonModel::String(request.template_id@)),
            ("asset_input"@, asset_input_json(request.asset_input)),
            ("source_data"@, text_or_null(optional_text(request.source_data))),
            (
                "seed"@,
                match request.seed {
                    Some(seed) => JsonModel::Number(seed as int),
                    None => JsonModel::Null,
                },
            ),
            ("prompt"@, text_or_null(optional_text(request.prompt))),
        ],
    )
}

/// The name of a severity: `error`, `warning` or `info`.
pub open spec fn severity_text(severity: ViolationSeverity) -> Seq<char> {
    match severity {
        ViolationSeverity::Error => "error"@,
        ViolationSeverity::Warning => "warning"@,
        ViolationSeverity::Info => "info"@,
    }
}

/// Texts as string values, in their order.
pub open spec fn texts_json(list: Seq<Seq<char>>) -> Seq<JsonModel> {
    Seq::new(list.len(), |i: int| JsonModel::String(list[i]))
}

/// The structured form of a violation.
pub open spec fn violation_json(violation: ViolationView) -> JsonModel {
    JsonModel::Object(
        seq![
            ("rule"@, JsonModel::String(violation.rule)),
            ("severity"@, JsonModel::String(severity_text(violation.severity))),
            ("message"@, JsonModel::String(violation.message)),
            ("expected"@, text_or_null(violation.expected)),
            ("actual"@, text_or_null(violation.actual)),
            ("remediation"@, JsonModel::Array(texts_json(violation.remediation))),
        ],
    )
}

/// The structured forms of violations, in their order.
pub open spec fn violations_json(list: Seq<ViolationView>) -> Seq<JsonModel> {
    Seq::new(list.len(), |i: int| violation_json(list[i]))
}

/// The structured form of a validation result.
pub open spec fn result_json(result: ResultView) -> JsonModel {
    JsonModel::Object(
        seq![
            ("valid"@, JsonModel::Bool(result.valid)),
            ("violations"@, JsonModel::Array(violations_json(result.violations))),
            ("template_id"@, JsonModel::String(result.template_id)),
            ("template_version"@, JsonModel::String(result.template_version)),
        ],
    )
}

/// The structured form of an exported file.
pub open spec fn export_json(file: ExportedFileView) -> JsonModel {
    JsonModel::Object(
        seq![
            ("id"@, JsonModel::String(file.id)),
            ("filename"@, JsonModel::String(file.filename)),
            ("format"@, JsonModel::String(file.format)),
            ("size"@, size_json(file.size)),
            ("data_base64"@, JsonModel::String(file.data_base64)),
            ("hash"@, JsonModel::String(file.hash)),
        ],
    )
}

/// The structured forms of exported files, in their order.
pub open spec fn exports_json(list: Seq<ExportedFileView>) -> Seq<JsonModel> {
    Seq::new(list.len(), |i: int| export_json(list[i]))
}

/// The structured form of a compiled asset: the manifest.
pub open spec fn asset_json(asset: AssetView) -> JsonModel {
    JsonModel::Object(
        seq![
            ("id"@, JsonModel::String(asset.id)),
            ("template_id"@, JsonModel::String(asset.template_id)),
            ("template_version"@, JsonModel::String(asset.template_version)),
            ("engine_version"@, JsonModel::String(asset.engine_version)),
            ("created_at"@, JsonModel::String(asset.created_at)),
            ("manifest_hash"@, JsonModel::String(asset.manifest_hash)),
            ("job_hash"@, JsonModel::String(asset.job_hash)),
            ("validation"@, result_json(asset.validation)),
            ("exports"@, JsonModel::Array(exports_json(asset.exports))),
        ],
    )
}

fn entry(key: &str, value: JsonValue) -> (member: (String, JsonValue))
    ensures
        member.0@ == key@,
        member.1 == value,
{
    (String::from_str(key), value)
}

fn text_value(text: &String) -> (json: JsonValue)
    ensures
        json@ == JsonModel::String(text@),
{
    JsonValue::String(text.clone())
}

fn optional_text_value(text: &Option<String>) -> (json: JsonValue)
    ensures
        json@ == text_or_null(optional_text(*text)),
{
    match text {
        Some(t) => JsonValue::String(t.clone()),
        None => JsonValue::Null,
    }
}

fn size_value(size: &[u32; 2]) -> (json: JsonValue)
    ensures
        json@ == size_json(*size),
{
    let mut items: Vec<JsonValue> = Vec::new();
    items.push(JsonValue::Number(size[0] as i128));
    items.push(JsonValue::Number(size[1] as i128));
    proof {
        assert(item_models(items@) =~= size_json(*size)->Array_0);
    }
    JsonValue::Array(items)
}

fn texts_value(list: &Vec<String>) -> (json: JsonValue)
    ensures
        json@ == JsonModel::Array(texts_json(texts(list@))),
{
    let mut items: Vec<JsonValue> = Vec::new();
    let mut i: usize = 0;
    while i < list.len()
        invariant
            i <= list@.len(),
            items@.len() == i,
            forall|j: int| 0 <= j < i ==> (#[trigger] items@[j])@ == JsonModel::String(list@[j]@),
        decreases list@.len() - i,
    {
        items.push(JsonValue::String(list[i].clone()));
        i += 1;
    }
    proof {
        assert(item_models(items@) =~= texts_json(texts(list@)));
    }
    JsonValue::Array(items)
}

impl AssetInput {
    /// The structured form of the measured properties.
    pub fn to_json(&self) -> (json: JsonValue)
        ensures
            json@ == asset_input_json(*self),
    {
        let mut members: Vec<(String, JsonValue)> = Vec::new();
        members.push(entry("width", JsonValue::Number(self.width as i128)));
        members.push(entry("height", JsonValue::Number(self.height as i128)));
        members.push(
            entry(
                "color_count",
                match self.color_count {
                    Some(count) => JsonValue::Number(count as i128),
                    None => JsonValue::Null,
                },
            ),
        );
        members.push(entry("format", optional_text_value(&self.format)));
        proof {
            assert(member_models(members@) =~= asset_input_json(*self)->Object_0);
        }
        JsonValue::Object(members)
    }
}

impl CompileRequest {
    /// The structured form of the request.
    pub fn to_json(&self) -> (json: JsonValue)
        ensures
            json@ == request_json(*self),
    {
        let mut members: Vec<(String, JsonValue)> = Vec::new();
        members.push(entry("template_id", text_value(&self.template_id)));
        members.push(entry("asset_input", self.asset_input.to_json()));
        members.push(entry("source_data", optional_text_value(&self.source_data)));
        members.push(
            entry(
                "seed",
                match self.seed {
                    Some(seed) => JsonValue::Number(seed as i128),
                    None => JsonValue::Null,
                },
            ),
        );
        members.push(entry("prompt", optional_text_value(&self.prompt)));
        proof {
            assert(member_models(members@) =~= request_json(*self)->Object_0);
        }
        JsonValue::Object(members)
    }
}

impl ValidationViolation {
    /// The structured form of the violation.
    pub fn to_json(&self) -> (json: JsonValue)
        ensures
            json@ == violation_json(self@),
    {
        let severity = match self.severity {
            ViolationSeverity::Error => "error",
            ViolationSeverity::Warning => "warning",
            ViolationSeverity::Info => "info",
        };
        let mut members: Vec<(String, JsonValue)> = Vec::new();
        members.push(entry("rule", text_value(&self.rule)));
        members.push(entry("severity", JsonValue::String(String::from_str(severity))));
        members.push(entry("message", text_value(&self.message)));
        members.push(entry("expected", optional_text_value(&self.expected)));
        members.push(entry("actual", optional_text_value(&self.actual)));
        members.push(entry("remediation", texts_value(&self.remediation)));
        proof {
            assert(member_models(members@) =~= violation_json(self@)->Object_0);
        }
        JsonValue::Object(members)
    }
}

impl ValidationResult {
    /// The structured form of the result.
    pub fn to_json(&self) -> (json: JsonValue)
        ensures
            json@ == result_json(self@),
    {
        let mut items: Vec<JsonValue> = Vec::new();
        let mut i: usize = 0;
        while i < self.violations.len()
            invariant
                i <= self.violations@.len(),
                items@.len() == i,
                forall|j: int|
                    0 <= j < i ==> (#[trigger] items@[j])@ == violation_json(
                        self.violations@[j]@,
                    ),
            decreases self.violations@.len() - i,
        {
            items.push(self.violations[i].to_json());
            i += 1;
        }
        proof {
            assert(item_models(items@) =~= violations_json(violation_views(self.violations@)));
        }
        let mut members: Vec<(String, JsonValue)> = Vec::new();
        members.push(entry("valid", JsonValue::Bool(self.valid)));
        members.push(entry("violations", JsonValue::Array(items)));
        members.push(entry("template_id", text_value(&self.template_id)));
        members.push(entry("template_version", text_value(&self.template_version)));
        proof {
            assert(member_models(members@) =~= result_json(self@)->Object_0);
        }
        JsonValue::Object(members)
    }
}

impl ExportedFile {
    /// The structured form of the file.
    pub fn to_json(&self) -> (json: JsonValue)
        ensures
            json@ == export_json(self@),
    {
        let mut members: Vec<(String, JsonValue)> = Vec::new();
        members.push(entry("id", text_value(&self.id)));
        members.push(entry("filename", text_value(&self.filename)));
        members.push(entry("format", text_value(&self.format)));
        members.push(entry("size", size_value(&self.size)));
        members.push(entry("data_base64", text_value(&self.data_base64)));
        members.push(entry("hash", text_value(&self.hash)));
        proof {
            assert(member_models(members@) =~= export_json(self@)->Object_0);
        }
        JsonValue::Object(members)
    }
}

impl CompiledAsset {
    /// The structured form of the asset: its manifest.
    pub fn to_json(&self) -> (json: JsonValue)
        ensures
            json@ == asset_json(self@),
    {
        let mut items: Vec<JsonValue> = Vec::new();
        let mut i: usize = 0;
        while i < self.exports.len()
            invariant
                i <= self.exports@.len(),
                items@.len() == i,
                forall|j: int|
                    0 <= j < i ==> (#[trigger] items@[j])@ == export_json(self.exports@[j]@),
            decreases self.exports@.len() - i,
        {
            items.push(self.exports[i].to_json());
            i += 1;
        }
        proof {
            assert(item_models(items@) =~= exports_json(export_views(self.exports@)));
        }
        let mut members: Vec<(String, JsonValue)> = Vec::new();
        members.push(entry("id", text_value(&self.id)));
        members.push(entry("template_id", text_value(&self.template_id)));
        members.push(entry("template_version", text_value(&self.template_version)));
        members.push(entry("engine_version", text_value(&self.engine_version)));
        members.push(entry("created_at", text_value(&self.created_at)));
        members.push(entry("manifest_hash", text_value(&self.manifest_hash)));
        members.push(entry("job_hash", text_value(&self.job_hash)));
        members.push(entry("validation", self.validation.to_json()));
        members.push(entry("exports", JsonValue::Array(items)));
        proof {
            assert(member_models(members@) =~= asset_json(self@)->Object_0);
        }
        JsonValue::Object(members)
    }
}

} // verus!
