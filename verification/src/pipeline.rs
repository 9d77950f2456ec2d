//! The compilation pipeline: the one way from a request to a compiled asset.
//!
//! Compiling always validates first. An asset that its template's policy
//! rejects is never exported or hashed.

use vstd::prelude::*;
use vstd::string::*;
use vstd::utf8::*;
use crate::hashing::{
    compute_job_hash, compute_manifest_hash, has_canonical_text, job_hash_text,
    manifest_hash_text, sha256_hex, sha256_hex_text,
};
use crate::json::JsonError;
use crate::manifest::{asset_json, request_json};
use crate::templates::{ExportFormat, ExportSpec, Template, TemplateRegistry};
use crate::text::{decimal_text, lemma_decimal_text_shape, push_decimal};
use crate::validation::{
    all_violations, has_error, verdict, violation_views, AssetInput, ResultView, ValidationResult,
    ValidationViolation, Validator, ViolationView,
};
use crate::version::{check_compatibility, compatibility, Compatibility};
use crate::ENGINE_VERSION;

verus! {

/// Why the pipeline did not deliver.
#[derive(Debug)]
pub enum PipelineError {
    /// No template is registered under the identifier.
    TemplateNotFound(String),
    /// The template's policy rejects the asset; the violations, joined.
    ValidationFailed(String),
    /// The template's version, the engine version it asks for at least, and
    /// the version of this engine, which is older.
    EngineVersionMismatch(String, String, String),
    /// A version could not be read, or an internal invariant failed.
    CompilationError(String),
    /// A value could not be brought into its canonical text.
    SerializationError(String),
}

/// What a pipeline error says, as plain text.
pub ghost enum ErrorView {
    TemplateNotFound(Seq<char>),
    ValidationFailed(Seq<char>),
    EngineVersionMismatch(Seq<char>, Seq<char>, Seq<char>),
    CompilationError(Seq<char>),
    SerializationError(Seq<char>),
}

impl View for PipelineError {
    type V = ErrorView;

    open spec fn view(&self) -> ErrorView {
        match self {
            PipelineError::TemplateNotFound(id) => ErrorView::TemplateNotFound(id@),
            PipelineError::ValidationFailed(summary) => ErrorView::ValidationFailed(summary@),
            PipelineError::EngineVersionMismatch(template, minimum, engine) =>
                ErrorView::EngineVersionMismatch(template@, minimum@, engine@),
            PipelineError::CompilationError(reason) => ErrorView::CompilationError(reason@),
            PipelineError::SerializationError(reason) => ErrorView::SerializationError(reason@),
        }
    }
}

/// The message of an error.
pub open spec fn error_text(error: ErrorView) -> Seq<char> {
    match error {
        ErrorView::TemplateNotFound(id) => "Template not found: "@ + id,
        ErrorView::ValidationFailed(summary) => "Validation failed: "@ + summary,
        ErrorView::EngineVersionMismatch(template, minimum, engine) => "Template version "@
            + template + " requires engine >= "@ + minimum + ", current is "@ + engine,
        ErrorView::CompilationError(reason) => "Compilation error: "@ + reason,
        ErrorView::SerializationError(reason) => "Serialization error: "@ + reason,
    }
}

impl PipelineError {
    /// The message of the error.
    pub fn to_string(&self) -> (message: String)
        ensures
            message@ == error_text(self@),
    {
        match self {
            PipelineError::TemplateNotFound(id) => {
                let mut message = String::from_str("Template not found: ");
                message.append(id.as_str());
                message
            },
            PipelineError::ValidationFailed(summary) => {
                let mut message = String::from_str("Validation failed: ");
                message.append(summary.as_str());
                message
            },
            PipelineError::EngineVersionMismatch(template, minimum, engine) => {
                let mut message = String::from_str("Template version ");
                message.append(template.as_str());
                message.append(" requires engine >= ");
                message.append(minimum.as_str());
                message.append(", current is ");
                message.append(engine.as_str());
                message
            },
            PipelineError::CompilationError(reason) => {
                let mut message = String::from_str("Compilation error: ");
                message.append(reason.as_str());
                message
            },
            PipelineError::SerializationError(reason) => {
                let mut message = String::from_str("Serialization error: ");
                message.append(reason.as_str());
                message
            },
        }
    }
}

/// What is to be compiled: the asset's measured properties, and what it was
/// made from.
#[derive(Debug, Clone)]
pub struct CompileRequest {
    pub template_id: String,
    pub asset_input: AssetInput,
    /// The source, base64 encoded.
    pub source_data: Option<String>,
    pub seed: Option<u64>,
    pub prompt: Option<String>,
}

/// One exported file of a compiled asset.
#[derive(Debug, Clone)]
pub struct ExportedFile {
    pub id: String,
    pub filename: String,
    pub format: String,
    pub size: [u32; 2],
    pub data_base64: String,
    pub hash: String,
}

/// A compiled asset with the validation result that let it pass.
#[derive(Debug, Clone)]
pub struct CompiledAsset {
    pub id: String,
    pub template_id: String,
    pub template_version: String,
    pub engine_version: String,
    /// The moment of compilation, as RFC 3339 text in UTC.
    pub created_at: String,
    pub manifest_hash: String,
    pub job_hash: String,
    pub validation: ValidationResult,
    pub exports: Vec<ExportedFile>,
}

/// What an exported file holds, as plain text.
pub ghost struct ExportedFileView {
    pub id: Seq<char>,
    pub filename: Seq<char>,
    pub format: Seq<char>,
    pub size: [u32; 2],
    pub data_base64: Seq<char>,
    pub hash: Seq<char>,
}

/// What a compiled asset holds, as plain text.
pub ghost struct AssetView {
    pub id: Seq<char>,
    pub template_id: Seq<char>,
    pub template_version: Seq<char>,
    pub engine_version: Seq<char>,
    pub created_at: Seq<char>,
    pub manifest_hash: Seq<char>,
    pub job_hash: Seq<char>,
    pub validation: ResultView,
    pub exports: Seq<ExportedFileView>,
}

impl View for ExportedFile {
    type V = ExportedFileView;

    open spec fn view(&self) -> ExportedFileView {
        ExportedFileView {
            id: self.id@,
            filename: self.filename@,
            format: self.format@,
            size: self.size,
            data_base64: self.data_base64@,
            hash: self.hash@,
        }
    }
}

/// The views of a list of exported files.
pub open spec fn export_views(list: Seq<ExportedFile>) -> Seq<ExportedFileView> {
    Seq::new(list.len(), |i: int| list[i]@)
}

impl View for CompiledAsset {
    type V = AssetView;

    open spec fn view(&self) -> AssetView {
        AssetView {
            id: self.id@,
            template_id: self.template_id@,
            template_version: self.template_version@,
            engine_version: self.engine_version@,
            created_at: self.created_at@,
            manifest_hash: self.manifest_hash@,
            job_hash: self.job_hash@,
            validation: self.validation@,
            exports: export_views(self.exports@),
        }
    }
}

/// The base64 text of a byte string, as the standard engine of the `base64`
/// crate writes it: the standard alphabet, with padding.
pub uninterp spec fn base64_standard(data: Seq<u8>) -> Seq<char>;

/// Calls `base64::Engine::encode` on `base64::engine::general_purpose::STANDARD`.
/// The call panics where the length of the text does not fit in `usize`;
/// the precondition keeps such input out.
#[verifier::external_body]
fn base64_text(data: &[u8]) -> (text: String)
    requires
        data@.len() / 3 * 4 + 4 <= usize::MAX,
    ensures
        text@ == base64_standard(data@),
{
    base64::Engine::encode(&base64::engine::general_purpose::STANDARD, data)
}

/// A fresh random identifier: `uuid::Uuid::new_v4`, written as text. Nothing
/// is claimed of it: no two calls need agree. The call panics where the
/// system gives no random bytes.
#[verifier::external_body]
fn fresh_asset_id() -> (id: String) {
    uuid::Uuid::new_v4().to_string()
}

/// The current time, `chrono::Utc::now`, as RFC 3339 text in UTC with a `Z`
/// (`DateTime::to_rfc3339_opts`), which is how `chrono` writes a time into
/// JSON. Nothing is claimed of it. The call panics where the system clock
/// stands before 1970.
#[verifier::external_body]
fn current_timestamp() -> (now: String) {
    chrono::Utc::now().to_rfc3339_opts(chrono::SecondsFormat::AutoSi, true)
}

/// Counts validations, for diagnosis. It has no part in any verdict.
#[derive(Debug)]
pub struct ValidationCounter {
    calls: u32,
}

/// The count after one more validation: it starts over after the largest
/// number that fits.
pub open spec fn next_count(count: u32) -> u32 {
    if count == u32::MAX {
        0
    } else {
        (count + 1) as u32
    }
}

impl ValidationCounter {
    /// How many validations were counted.
    pub closed spec fn count(&self) -> u32 {
        self.calls
    }

    /// A counter at zero.
    pub fn new() -> (counter: Self)
        ensures
            counter.count() == 0,
    {
        ValidationCounter { calls: 0 }
    }

    fn record(&mut self)
        ensures
            final(self).count() == next_count(old(self).count()),
    {
        if self.calls == u32::MAX {
            self.calls = 0;
        } else {
            self.calls = self.calls + 1;
        }
    }
}

/// How many validations `counter` has seen.
pub fn get_validation_call_count(counter: &ValidationCounter) -> (count: u32)
    ensures
        count == counter.count(),
{
    counter.calls
}

/// Sets `counter` back to zero.
pub fn reset_validation_call_count(counter: &mut ValidationCounter)
    ensures
        final(counter).count() == 0,
{
    counter.calls = 0;
}

/// The file extension of a format, which is also the format's name in
/// lower case.
pub open spec fn extension_text(format: ExportFormat) -> Seq<char> {
    match format {
        ExportFormat::Svg => "svg"@,
        ExportFormat::Png => "png"@,
        ExportFormat::Ico => "ico"@,
        ExportFormat::Pdf => "pdf"@,
        ExportFormat::Jpg => "jpg"@,
    }
}

/// The file extension of `format`.
pub fn format_extension(format: &ExportFormat) -> (extension: &'static str)
    ensures
        extension@ == extension_text(*format),
{
    match format {
        ExportFormat::Svg => "svg",
        ExportFormat::Png => "png",
        ExportFormat::Ico => "ico",
        ExportFormat::Pdf => "pdf",
        ExportFormat::Jpg => "jpg",
    }
}

/// The placeholder for an SVG export: an empty drawing of the given size.
pub open spec fn svg_placeholder_text(width: u32, height: u32) -> Seq<char> {
    "<svg xmlns=\"http://www.w3.org/2000/svg\" viewBox=\"0 0 "@ + decimal_text(width as nat)
        + " "@ + decimal_text(height as nat) + "\"></svg>"@
}

/// The placeholder for a PNG export: one transparent pixel.
pub open spec fn png_placeholder() -> Seq<u8> {
    seq![
        0x89u8, 0x50u8, 0x4Eu8, 0x47u8, 0x0Du8, 0x0Au8, 0x1Au8, 0x0Au8,
        0x00u8, 0x00u8, 0x00u8, 0x0Du8, 0x49u8, 0x48u8, 0x44u8, 0x52u8,
        0x00u8, 0x00u8, 0x00u8, 0x01u8, 0x00u8, 0x00u8, 0x00u8, 0x01u8,
        0x08u8, 0x06u8, 0x00u8, 0x00u8, 0x00u8, 0x1Fu8, 0x15u8, 0xC4u8,
        0x89u8, 0x00u8, 0x00u8, 0x00u8, 0x0Au8, 0x49u8, 0x44u8, 0x41u8,
        0x54u8, 0x78u8, 0x9Cu8, 0x63u8, 0x00u8, 0x01u8, 0x00u8, 0x00u8,
        0x05u8, 0x00u8, 0x01u8, 0x0Du8, 0x0Au8, 0x2Du8, 0xB4u8, 0x00u8,
        0x00u8, 0x00u8, 0x00u8, 0x49u8, 0x45u8, 0x4Eu8, 0x44u8, 0xAEu8,
        0x42u8, 0x60u8, 0x82u8,
    ]
}

/// The bytes that stand for an export until it is rendered for real: an empty
/// SVG drawing of the export's size, a PNG of one transparent pixel, and the
/// word `placeholder` for every other format.
pub open spec fn placeholder_bytes(spec: ExportSpec) -> Seq<u8> {
    match spec.format {
        ExportFormat::Svg => encode_utf8(svg_placeholder_text(spec.size[0], spec.size[1])),
        ExportFormat::Png => png_placeholder(),
        _ => encode_utf8("placeholder"@),
    }
}

proof fn lemma_placeholder_is_short(spec: ExportSpec)
    ensures
        placeholder_bytes(spec).len() <= 128,
{
    match spec.format {
        ExportFormat::Svg => {
            let head = "<svg xmlns=\"http://www.w3.org/2000/svg\" viewBox=\"0 0 "@;
            let width = decimal_text(spec.size[0] as nat);
            let height = decimal_text(spec.size[1] as nat);
            let tail = "\"></svg>"@;
            reveal_strlit("<svg xmlns=\"http://www.w3.org/2000/svg\" viewBox=\"0 0 ");
            reveal_strlit(" ");
            reveal_strlit("\"></svg>");
            lemma_decimal_text_shape(spec.size[0] as nat);
            lemma_decimal_text_shape(spec.size[1] as nat);
            let text = svg_placeholder_text(spec.size[0], spec.size[1]);
            assert(is_ascii_chars(head));
            assert(is_ascii_chars(" "@));
            assert(is_ascii_chars(tail));
            assert(is_ascii_chars(text));
            is_ascii_chars_encode_utf8(text);
        },
        ExportFormat::Png => {},
        _ => {
            reveal_strlit("placeholder");
            assert(is_ascii_chars("placeholder"@));
            is_ascii_chars_encode_utf8("placeholder"@);
        },
    }
}

/// Renders one export of a request. Until real rendering is in place, this
/// gives the placeholder for the export's format and never fails.
pub fn render_export(spec: &ExportSpec, request: &CompileRequest) -> (rendered: Result<
    Vec<u8>,
    PipelineError,
>)
    ensures
        rendered matches Ok(bytes) && bytes@ == placeholder_bytes(*spec) && bytes@.len() <= 128,
{
    proof {
        lemma_placeholder_is_short(*spec);
    }
    match spec.format {
        ExportFormat::Svg => {
            let mut text = String::from_str(
                "<svg xmlns=\"http://www.w3.org/2000/svg\" viewBox=\"0 0 ",
            );
            push_decimal(&mut text, spec.size[0] as u128);
            text.append(" ");
            push_decimal(&mut text, spec.size[1] as u128);
            text.append("\"></svg>");
            Ok(text.as_str().as_bytes_vec())
        },
        ExportFormat::Png => {
            let bytes: Vec<u8> = vec![
            0x89, 0x50, 0x4E, 0x47, 0x0D, 0x0A, 0x1A, 0x0A,
            0x00, 0x00, 0x00, 0x0D, 0x49, 0x48, 0x44, 0x52,
            0x00, 0x00, 0x00, 0x01, 0x00, 0x00, 0x00, 0x01,
            0x08, 0x06, 0x00, 0x00, 0x00, 0x1F, 0x15, 0xC4,
            0x89, 0x00, 0x00, 0x00, 0x0A, 0x49, 0x44, 0x41,
            0x54, 0x78, 0x9C, 0x63, 0x00, 0x01, 0x00, 0x00,
            0x05, 0x00, 0x01, 0x0D, 0x0A, 0x2D, 0xB4, 0x00,
            0x00, 0x00, 0x00, 0x49, 0x45, 0x4E, 0x44, 0xAE,
            0x42, 0x60, 0x82,
            ];
            proof {
                assert(bytes@ =~= png_placeholder());
            }
            Ok(bytes)
        },
        _ => Ok("placeholder".as_bytes_vec()),
    }
}

/// The exported file that an export specification leads to.
pub open spec fn export_file(spec: ExportSpec) -> ExportedFileView {
    ExportedFileView {
        id: spec.id@,
        filename: spec.id@ + "."@ + extension_text(spec.format),
        format: extension_text(spec.format),
        size: spec.size,
        data_base64: base64_standard(placeholder_bytes(spec)),
        hash: sha256_hex_text(placeholder_bytes(spec)),
    }
}

/// The exported files of a list of export specifications, in their order.
pub open spec fn export_files(specs: Seq<ExportSpec>) -> Seq<ExportedFileView> {
    Seq::new(specs.len(), |i: int| export_file(specs[i]))
}

/// Renders every export of the template, in the template's order, and
/// records each with its content hash.
pub fn generate_exports(template: &Template, request: &CompileRequest) -> (generated: Result<
    Vec<ExportedFile>,
    PipelineError,
>)
    ensures
        generated matches Ok(files) && export_views(files@) == export_files(template.exports@),
{
    let mut files: Vec<ExportedFile> = Vec::new();
    let mut i: usize = 0;
    while i < template.exports.len()
        invariant
            i <= template.exports@.len(),
            files@.len() == i,
            forall|j: int|
                0 <= j < i ==> (#[trigger] files@[j])@ == export_file(template.exports@[j]),
        decreases template.exports@.len() - i,
    {
        let spec = &template.exports[i];
        let data = match render_export(spec, request) {
            Ok(data) => data,
            Err(error) => {
                return Err(error);
            },
        };
        let hash = sha256_hex(data.as_slice());
        let extension = format_extension(&spec.format);
        let mut filename = spec.id.clone();
        filename.append(".");
        filename.append(extension);
        files.push(
            ExportedFile {
                id: spec.id.clone(),
                filename,
                format: String::from_str(extension),
                size: spec.size,
                data_base64: base64_text(data.as_slice()),
                hash,
            },
        );
        i += 1;
    }
    proof {
        assert(export_views(files@) =~= export_files(template.exports@));
    }
    Ok(files)
}

/// What comes of the compatibility of this engine with a template: the error
/// that stops the pipeline, or nothing.
pub open spec fn version_error(found: Compatibility, template: Template) -> Option<ErrorView> {
    match found {
        Compatibility::EngineUnreadable => Some(
            ErrorView::CompilationError("Invalid engine version"@),
        ),
        Compatibility::MinimumUnreadable => Some(
            ErrorView::CompilationError("Invalid template min version"@),
        ),
        Compatibility::EngineTooOld => Some(
            ErrorView::EngineVersionMismatch(
                template.template_version@,
                template.engine_min_version@,
                ENGINE_VERSION@,
            ),
        ),
        Compatibility::Compatible => None,
    }
}

/// The error, if any, that the template's minimum engine version leads to.
pub open spec fn engine_check(template: Template) -> Option<ErrorView> {
    version_error(compatibility(ENGINE_VERSION@, template.engine_min_version@), template)
}

/// What validating an asset against the template named `template_id` comes
/// to: `TemplateNotFound` without such a template, the version error where
/// the engine does not fit the template, else the validator's verdict.
pub open spec fn validation_outcome(
    templates: Map<Seq<char>, Template>,
    template_id: Seq<char>,
    input: AssetInput,
) -> Result<ResultView, ErrorView> {
    if !templates.dom().contains(template_id) {
        Err(ErrorView::TemplateNotFound(template_id))
    } else {
        let template = templates[template_id];
        match engine_check(template) {
            Some(error) => Err(error),
            None => Ok(verdict(all_violations(input, template), template)),
        }
    }
}

/// One violation in a failure message: the rule, a colon, the message.
pub open spec fn violation_line(violation: ViolationView) -> Seq<char> {
    violation.rule + ": "@ + violation.message
}

/// The lines of the first `count` violations, joined by `"; "`.
pub open spec fn failure_summary(violations: Seq<ViolationView>, count: int) -> Seq<char>
    decreases count,
{
    if count <= 0 || count > violations.len() {
        Seq::empty()
    } else if count == 1 {
        violation_line(violations[0])
    } else {
        failure_summary(violations, count - 1) + "; "@ + violation_line(violations[count - 1])
    }
}

/// Whether a request is admitted to compilation: the outcome of validating
/// its asset, where an invalid result has become `ValidationFailed` with all
/// violations of the result. What is admitted carries a valid result.
pub open spec fn admission(templates: Map<Seq<char>, Template>, request: CompileRequest) -> Result<
    ResultView,
    ErrorView,
> {
    match validation_outcome(templates, request.template_id@, request.asset_input) {
        Err(error) => Err(error),
        Ok(result) => if result.valid {
            Ok(result)
        } else {
            Err(
                ErrorView::ValidationFailed(
                    failure_summary(result.violations, result.violations.len() as int),
                ),
            )
        },
    }
}

/// Nothing is admitted to compilation that validation has not passed: the
/// result that an admitted request carries is the outcome of validating its
/// asset against its template, and it is valid. Under `Warn` and `Log` every
/// request that can be validated is admitted; under `Block` exactly those
/// without an Error.
pub proof fn lemma_admission_follows_validation(
    templates: Map<Seq<char>, Template>,
    request: CompileRequest,
)
    ensures
        admission(templates, request) matches Ok(result) ==> result.valid && validation_outcome(
            templates,
            request.template_id@,
            request.asset_input,
        ) == Ok::<ResultView, ErrorView>(result),
        validation_outcome(templates, request.template_id@, request.asset_input) is Err
            ==> admission(templates, request) is Err,
        validation_outcome(templates, request.template_id@, request.asset_input) is Ok ==> (
        admission(templates, request) is Ok <==> !(templates[request.template_id@].validation.failure_mode is Block
            && has_error(all_violations(request.asset_input, templates[request.template_id@])))),
{
}

/// The asset as it stands when the manifest is hashed: complete but for the
/// manifest hash, which is empty.
pub open spec fn draft_asset(
    template: Template,
    request: CompileRequest,
    validation: ResultView,
    exports: Seq<ExportedFileView>,
    id: Seq<char>,
    created_at: Seq<char>,
) -> AssetView {
    AssetView {
        id,
        template_id: request.template_id@,
        template_version: template.template_version@,
        engine_version: ENGINE_VERSION@,
        created_at,
        manifest_hash: Seq::empty(),
        job_hash: job_hash_text(
            request.template_id@,
            template.template_version@,
            request_json(request),
            ENGINE_VERSION@,
        ),
        validation,
        exports,
    }
}

/// The finished asset: the draft, with the hash of the draft's manifest as
/// its manifest hash.
pub open spec fn sealed_asset(draft: AssetView) -> AssetView {
    AssetView { manifest_hash: manifest_hash_text(asset_json(draft)), ..draft }
}

/// The asset that compiling `request` against `template` gives, once the
/// identifier and the time of compilation are chosen.
pub open spec fn compiled_asset(
    template: Template,
    request: CompileRequest,
    id: Seq<char>,
    created_at: Seq<char>,
) -> AssetView {
    sealed_asset(
        draft_asset(
            template,
            request,
            verdict(all_violations(request.asset_input, template), template),
            export_files(template.exports@),
            id,
            created_at,
        ),
    )
}

/// Whether the manifest of the asset that compiling `request` against
/// `template` gives has a canonical text, whatever identifier and time are
/// drawn.
pub open spec fn manifest_is_always_hashable(template: Template, request: CompileRequest) -> bool {
    forall|id: Seq<char>, created_at: Seq<char>|
        has_canonical_text(
            asset_json(
                #[trigger] draft_asset(
                    template,
                    request,
                    verdict(all_violations(request.asset_input, template), template),
                    export_files(template.exports@),
                    id,
                    created_at,
                ),
            ),
        )
}

/// The view of what a validation returned.
pub open spec fn validation_view(returned: Result<ValidationResult, PipelineError>) -> Result<
    ResultView,
    ErrorView,
> {
    match returned {
        Ok(result) => Ok(result@),
        Err(error) => Err(error@),
    }
}

fn serialization_error(reason: JsonError) -> (error: PipelineError)
    ensures
        error is SerializationError,
{
    PipelineError::SerializationError(reason.message)
}

fn summarize(violations: &Vec<ValidationViolation>) -> (summary: String)
    ensures
        summary@ == failure_summary(violation_views(violations@), violations@.len() as int),
{
    let mut summary = String::new();
    let mut i: usize = 0;
    while i < violations.len()
        invariant
            i <= violations@.len(),
            summary@ == failure_summary(violation_views(violations@), i as int),
        decreases violations@.len() - i,
    {
        let ghost before = summary@;
        if i > 0 {
            summary.append("; ");
        }
        summary.append(violations[i].rule.as_str());
        summary.append(": ");
        summary.append(violations[i].message.as_str());
        i += 1;
        proof {
            let line = violation_line(violation_views(violations@)[i - 1]);
            if i == 1 {
                assert(summary@ =~= line);
            } else {
                assert(summary@ =~= before + "; "@ + line);
            }
        }
    }
    summary
}

/// Assembles the compiled asset from its parts: computes the job hash, then
/// the manifest hash over the asset with an empty manifest hash, and stores
/// it. Fails, with `SerializationError`, exactly where the request or the
/// draft has no canonical text.
pub fn assemble_asset(
    template: &Template,
    request: &CompileRequest,
    validation: ValidationResult,
    exports: Vec<ExportedFile>,
    id: String,
    created_at: String,
) -> (assembled: Result<CompiledAsset, PipelineError>)
    ensures
        assembled is Ok <==> has_canonical_text(request_json(*request)) && has_canonical_text(
            asset_json(
                draft_asset(
                    *template,
                    *request,
                    validation@,
                    export_views(exports@),
                    id@,
                    created_at@,
                ),
            ),
        ),
        assembled matches Ok(asset) ==> asset@ == sealed_asset(
            draft_asset(*template, *request, validation@, export_views(exports@), id@, created_at@),
        ),
        assembled matches Ok(asset) ==> asset.job_hash@.len() == 64 && asset.manifest_hash@.len()
            == 64,
        assembled matches Err(error) ==> error is SerializationError,
{
    let payload = request.to_json();
    let job_hash = match compute_job_hash(
        request.template_id.as_str(),
        template.template_version.as_str(),
        &payload,
        ENGINE_VERSION,
    ) {
        Ok(hash) => hash,
        Err(reason) => {
            return Err(serialization_error(reason));
        },
    };
    let mut asset = CompiledAsset {
        id,
        template_id: request.template_id.clone(),
        template_version: template.template_version.clone(),
        engine_version: String::from_str(ENGINE_VERSION),
        created_at,
        manifest_hash: String::new(),
        job_hash,
        validation,
        exports,
    };
    let manifest = asset.to_json();
    match compute_manifest_hash(&manifest) {
        Ok(hash) => {
            asset.manifest_hash = hash;
            Ok(asset)
        },
        Err(reason) => Err(serialization_error(reason)),
    }
}

/// The compilation pipeline: a registry of templates and the validator.
pub struct CompilationPipeline {
    registry: TemplateRegistry,
    validator: Validator,
}

impl CompilationPipeline {
    /// The templates of the pipeline, by identifier.
    pub closed spec fn templates(&self) -> Map<Seq<char>, Template> {
        self.registry@
    }

    /// A pipeline over the templates of `registry`.
    pub fn new(registry: TemplateRegistry) -> (pipeline: Self)
        ensures
            pipeline.templates() == registry@,
    {
        CompilationPipeline { registry, validator: Validator::new() }
    }

    /// Every template of the pipeline, each exactly once, in no promised
    /// order.
    pub fn list_templates(&self) -> (all: Vec<&Template>)
        ensures
            forall|i: int|
                0 <= i < all@.len() ==> self.templates().dom().contains(#[trigger] all@[i].id@)
                    && self.templates()[all@[i].id@] == *all@[i],
            forall|id: Seq<char>|
                self.templates().dom().contains(id) ==> exists|i: int|
                    0 <= i < all@.len() && #[trigger] all@[i].id@ == id,
            forall|i: int, j: int| 0 <= i < j < all@.len() ==> all@[i].id@ != all@[j].id@,
    {
        self.registry.list()
    }

    /// The template registered under `id`.
    pub fn get_template(&self, id: &str) -> (found: Option<&Template>)
        ensures
            match found {
                Some(template) => self.templates().dom().contains(id@) && *template
                    == self.templates()[id@],
                None => !self.templates().dom().contains(id@),
            },
    {
        self.registry.get(id)
    }

    /// Checks that this engine is not older than the template asks for.
    pub fn check_engine_version(&self, template: &Template) -> (checked: Result<
        (),
        PipelineError,
    >)
        ensures
            match engine_check(*template) {
                Some(error) => checked matches Err(e) && e@ == error,
                None => checked is Ok,
            },
    {
        match check_compatibility(ENGINE_VERSION, template.engine_min_version.as_str()) {
            Compatibility::EngineUnreadable => Err(
                PipelineError::CompilationError(String::from_str("Invalid engine version")),
            ),
            Compatibility::MinimumUnreadable => Err(
                PipelineError::CompilationError(String::from_str("Invalid template min version")),
            ),
            Compatibility::EngineTooOld => Err(
                PipelineError::EngineVersionMismatch(
                    template.template_version.clone(),
                    template.engine_min_version.clone(),
                    String::from_str(ENGINE_VERSION),
                ),
            ),
            Compatibility::Compatible => Ok(()),
        }
    }

    /// Validates an asset against the template named `template_id`.
    pub fn validate_asset(&self, template_id: &str, input: &AssetInput) -> (returned: Result<
        ValidationResult,
        PipelineError,
    >)
        ensures
            validation_view(returned) == validation_outcome(self.templates(), template_id@, *input),
    {
        let template = match self.registry.get(template_id) {
            Some(template) => template,
            None => {
                return Err(PipelineError::TemplateNotFound(String::from_str(template_id)));
            },
        };
        match self.check_engine_version(template) {
            Ok(()) => {},
            Err(error) => {
                return Err(error);
            },
        }
        Ok(self.validator.validate(input, template))
    }

    /// Validates as `validate_asset` does, and counts the validation.
    pub fn validate_asset_counted(
        &self,
        counter: &mut ValidationCounter,
        template_id: &str,
        input: &AssetInput,
    ) -> (returned: Result<ValidationResult, PipelineError>)
        ensures
            validation_view(returned) == validation_outcome(self.templates(), template_id@, *input),
            final(counter).count() == next_count(old(counter).count()),
    {
        counter.record();
        self.validate_asset(template_id, input)
    }

    /// Compiles a request into an asset.
    ///
    /// The asset of the request is always validated first. A request that is
    /// not admitted fails with the error of its admission, and nothing is
    /// exported or hashed for it. For an admitted request the result is the
    /// compiled asset for the identifier and the time that were drawn, or
    /// `SerializationError` where a canonical text could not be had.
    pub fn compile_asset(&self, request: &CompileRequest) -> (compiled: Result<
        CompiledAsset,
        PipelineError,
    >)
        ensures
            match admission(self.templates(), *request) {
                Err(error) => compiled matches Err(e) && e@ == error,
                Ok(validation) => match compiled {
                    Ok(asset) => asset@ == compiled_asset(
                        self.templates()[request.template_id@],
                        *request,
                        asset.id@,
                        asset.created_at@,
                    ) && asset.validation@ == validation && validation.valid,
                    Err(error) => error is SerializationError,
                },
            },
            compiled is Ok ==> (validation_outcome(
                self.templates(),
                request.template_id@,
                request.asset_input,
            ) matches Ok(validation) && validation.valid),
            !has_canonical_text(request_json(*request)) ==> compiled is Err,
            admission(self.templates(), *request) is Ok && has_canonical_text(
                request_json(*request),
            ) && manifest_is_always_hashable(self.templates()[request.template_id@], *request)
                ==> compiled is Ok,
            compiled matches Ok(asset) ==> asset.job_hash@.len() == 64 && asset.manifest_hash@.len()
                == 64,
    {
        let mut counter = ValidationCounter::new();
        self.compile_asset_counted(&mut counter, request)
    }

    /// Compiles as `compile_asset` does, and counts the validation that
    /// compiling runs: one for every request whose template exists.
    pub fn compile_asset_counted(
        &self,
        counter: &mut ValidationCounter,
        request: &CompileRequest,
    ) -> (compiled: Result<CompiledAsset, PipelineError>)
        ensures
            match admission(self.templates(), *request) {
                Err(error) => compiled matches Err(e) && e@ == error,
                Ok(validation) => match compiled {
                    Ok(asset) => asset@ == compiled_asset(
                        self.templates()[request.template_id@],
                        *request,
                        asset.id@,
                        asset.created_at@,
                    ) && asset.validation@ == validation && validation.valid,
                    Err(error) => error is SerializationError,
                },
            },
            compiled is Ok ==> (validation_outcome(
                self.templates(),
                request.template_id@,
                request.asset_input,
            ) matches Ok(validation) && validation.valid),
            !has_canonical_text(request_json(*request)) ==> compiled is Err,
            admission(self.templates(), *request) is Ok && has_canonical_text(
                request_json(*request),
            ) && manifest_is_always_hashable(self.templates()[request.template_id@], *request)
                ==> compiled is Ok,
            compiled matches Ok(asset) ==> asset.job_hash@.len() == 64 && asset.manifest_hash@.len()
                == 64,
            final(counter).count() == if self.templates().dom().contains(request.template_id@) {
                next_count(old(counter).count())
            } else {
                old(counter).count()
            },
            compiled is Ok ==> final(counter).count() == next_count(old(counter).count()),
    {
        let template = match self.registry.get(request.template_id.as_str()) {
            Some(template) => template,
            None => {
                return Err(PipelineError::TemplateNotFound(request.template_id.clone()));
            },
        };
        let validation = match self.validate_asset_counted(
            counter,
            request.template_id.as_str(),
            &request.asset_input,
        ) {
            Ok(validation) => validation,
            Err(error) => {
                return Err(error);
            },
        };
        if !validation.valid {
            return Err(PipelineError::ValidationFailed(summarize(&validation.violations)));
        }
        let exports = match generate_exports(template, request) {
            Ok(exports) => exports,
            Err(error) => {
                return Err(error);
            },
        };
        let id = fresh_asset_id();
        let created_at = current_timestamp();
        assemble_asset(template, request, validation, exports, id, created_at)
    }
}

impl Default for CompilationPipeline {
    fn default() -> (pipeline: Self)
        ensures
            pipeline.templates() == Map::<Seq<char>, Template>::empty(),
    {
        CompilationPipeline::new(TemplateRegistry::default())
    }
}

} // verus!
