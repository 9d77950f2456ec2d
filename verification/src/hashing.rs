//! Reproducible hashes: SHA-256 in lowercase hexadecimal, over the canonical
//! text of a structured value.

use vstd::prelude::*;
use vstd::string::*;
use vstd::utf8::*;
use crate::hex::{encode, hex_text};
use crate::json::{
    canonical, json_text, sort_value, to_text, writable, JsonError, JsonModel, JsonValue,
};
use crate::member_order::{
    keys_are_unique, lemma_canonical_ignores_member_order, same_but_for_member_order,
};

verus! {

/// The SHA-256 digest of a byte string, as `sha2` computes it.
pub uninterp spec fn sha256(data: Seq<u8>) -> Seq<u8>;

/// Calls `sha2::Sha256::digest`: the result is the SHA-256 digest of `data`,
/// which has 32 bytes.
#[verifier::external_body]
fn digest(data: &[u8]) -> (hash: Vec<u8>)
    ensures
        hash@ == sha256(data@),
        hash@.len() == 32,
{
    <sha2::Sha256 as sha2::Digest>::digest(data).to_vec()
}

/// The SHA-256 digest of `data` in lowercase hexadecimal.
pub open spec fn sha256_hex_text(data: Seq<u8>) -> Seq<char> {
    hex_text(sha256(data))
}

/// The canonical text of a value: the compact text of its canonical form.
pub open spec fn canonical_text(value: JsonModel) -> Seq<char> {
    json_text(canonical(value))
}

/// The manifest hash of a value: the digest of its canonical text.
pub open spec fn manifest_hash_text(manifest: JsonModel) -> Seq<char> {
    sha256_hex_text(encode_utf8(canonical_text(manifest)))
}

/// What is hashed for a job: the template's identifier and version, the
/// canonical text of the payload and the engine's version, with a colon
/// between one and the next.
pub open spec fn job_hash_input(
    template_id: Seq<char>,
    template_version: Seq<char>,
    canonical_payload: Seq<char>,
    engine_version: Seq<char>,
) -> Seq<char> {
    template_id + ":"@ + template_version + ":"@ + canonical_payload + ":"@ + engine_version
}

/// The job hash: the digest of the job's hash input.
pub open spec fn job_hash_text(
    template_id: Seq<char>,
    template_version: Seq<char>,
    payload: JsonModel,
    engine_version: Seq<char>,
) -> Seq<char> {
    sha256_hex_text(
        encode_utf8(
            job_hash_input(template_id, template_version, canonical_text(payload), engine_version),
        ),
    )
}

/// The SHA-256 digest of `data` as 64 lowercase hexadecimal digits.
pub fn sha256_hex(data: &[u8]) -> (text: String)
    ensures
        text@ == sha256_hex_text(data@),
        text@.len() == 64,
{
    let hash = digest(data);
    encode(hash.as_slice())
}

/// Equal byte strings have equal digests: the digest depends on the bytes and
/// on nothing else.
pub proof fn lemma_sha256_hex_repeats(first: Seq<u8>, second: Seq<u8>)
    requires
        first == second,
    ensures
        sha256_hex_text(first) == sha256_hex_text(second),
{
}

/// Whether a value has a canonical text: whether its canonical form can be
/// written.
pub open spec fn has_canonical_text(value: JsonModel) -> bool {
    writable(canonical(value))
}

/// The canonical text of `value`: keys sorted at every depth, no whitespace.
///
/// Fails exactly where a string of the value has no JSON literal.
pub fn canonical_json(value: &JsonValue) -> (text: Result<String, JsonError>)
    ensures
        text is Ok <==> has_canonical_text(value@),
        text matches Ok(t) ==> t@ == canonical_text(value@),
{
    let sorted = sort_value(value);
    to_text(&sorted)
}

/// The canonical text does not depend on the order of object members, at any
/// depth: two values that are the same but for that order, and in which no
/// object has a key twice, have the same canonical text, or both have none.
pub proof fn lemma_canonical_text_ignores_member_order(first: JsonModel, second: JsonModel)
    requires
        keys_are_unique(first),
        keys_are_unique(second),
        same_but_for_member_order(first, second),
    ensures
        canonical_text(first) == canonical_text(second),
        has_canonical_text(first) == has_canonical_text(second),
{
    lemma_canonical_ignores_member_order(first, second);
}

/// The digest of a text's UTF-8 bytes.
pub fn hash_of_text(text: &str) -> (hash: String)
    ensures
        hash@ == sha256_hex_text(encode_utf8(text@)),
        hash@.len() == 64,
{
    sha256_hex(text.as_bytes())
}

/// The manifest hash of `manifest`.
pub fn compute_manifest_hash(manifest: &JsonValue) -> (hash: Result<String, JsonError>)
    ensures
        hash is Ok <==> has_canonical_text(manifest@),
        hash matches Ok(h) ==> h@ == manifest_hash_text(manifest@) && h@.len() == 64,
{
    match canonical_json(manifest) {
        Ok(text) => Ok(hash_of_text(text.as_str())),
        Err(reason) => Err(reason),
    }
}

/// Joins the four parts of a job's hash input with colons.
pub fn job_hash_preimage(
    template_id: &str,
    template_version: &str,
    canonical_payload: &str,
    engine_version: &str,
) -> (combined: String)
    ensures
        combined@ == job_hash_input(
            template_id@,
            template_version@,
            canonical_payload@,
            engine_version@,
        ),
{
    let mut combined = String::from_str(template_id);
    combined.append(":");
    combined.append(template_version);
    combined.append(":");
    combined.append(canonical_payload);
    combined.append(":");
    combined.append(engine_version);
    combined
}

/// The job hash of a payload compiled against a template by an engine.
pub fn compute_job_hash(
    template_id: &str,
    template_version: &str,
    payload: &JsonValue,
    engine_version: &str,
) -> (hash: Result<String, JsonError>)
    ensures
        hash is Ok <==> has_canonical_text(payload@),
        hash matches Ok(h) ==> h@ == job_hash_text(
            template_id@,
            template_version@,
            payload@,
            engine_version@,
        ) && h@.len() == 64,
{
    match canonical_json(payload) {
        Ok(text) => {
            let combined = job_hash_preimage(
                template_id,
                template_version,
                text.as_str(),
                engine_version,
            );
            Ok(hash_of_text(combined.as_str()))
        },
        Err(reason) => Err(reason),
    }
}

} // verus!
