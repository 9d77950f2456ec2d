//! Semantic versions, as the `semver` crate reads and orders them.

use vstd::prelude::*;

verus! {

/// Whether `semver::Version::parse` accepts `text` as a semantic version.
pub uninterp spec fn semver_valid(text: Seq<char>) -> bool;

/// Whether the version that `a` parses to orders strictly before the one that
/// `b` parses to, in the order of `semver::Version`; for texts that parse.
pub uninterp spec fn semver_less(a: Seq<char>, b: Seq<char>) -> bool;

/// Calls `semver::Version::parse` and says whether it accepted `text`.
#[verifier::external_body]
pub(crate) fn parses(text: &str) -> (accepted: bool)
    ensures
        accepted == semver_valid(text@),
{
    semver::Version::parse(text).is_ok()
}

/// Compares two versions with `<` of `semver::Version`, after parsing both
/// texts with `semver::Version::parse`.
#[verifier::external_body]
pub(crate) fn precedes(a: &str, b: &str) -> (less: bool)
    requires
        semver_valid(a@),
        semver_valid(b@),
    ensures
        less == semver_less(a@, b@),
{
    match (semver::Version::parse(a), semver::Version::parse(b)) {
        (Ok(first), Ok(second)) => first < second,
        _ => false,
    }
}

/// How an engine stands to the minimum version that a template asks for.
#[derive(Debug, Clone, Copy, PartialEq, Eq)]
pub enum Compatibility {
    /// The engine's own version is no semantic version.
    EngineUnreadable,
    /// The template's minimum is no semantic version.
    MinimumUnreadable,
    /// The engine is older than the minimum.
    EngineTooOld,
    /// The engine is at least as new as the minimum.
    Compatible,
}

/// The compatibility that follows from whether each version could be read
/// and, where both could, whether the engine's orders before the minimum.
pub open spec fn compatibility_from(
    engine_valid: bool,
    minimum_valid: bool,
    engine_older: bool,
) -> Compatibility {
    if !engine_valid {
        Compatibility::EngineUnreadable
    } else if !minimum_valid {
        Compatibility::MinimumUnreadable
    } else if engine_older {
        Compatibility::EngineTooOld
    } else {
        Compatibility::Compatible
    }
}

/// How an engine of version `engine` stands to the minimum `minimum`.
pub open spec fn compatibility(engine: Seq<char>, minimum: Seq<char>) -> Compatibility {
    compatibility_from(semver_valid(engine), semver_valid(minimum), semver_less(engine, minimum))
}

/// Decides `compatibility_from`.
pub fn judge_compatibility(engine_valid: bool, minimum_valid: bool, engine_older: bool) -> (found:
    Compatibility)
    ensures
        found == compatibility_from(engine_valid, minimum_valid, engine_older),
{
    if !engine_valid {
        Compatibility::EngineUnreadable
    } else if !minimum_valid {
        Compatibility::MinimumUnreadable
    } else if engine_older {
        Compatibility::EngineTooOld
    } else {
        Compatibility::Compatible
    }
}

/// Reads both versions and compares them.
pub fn check_compatibility(engine: &str, minimum: &str) -> (found: Compatibility)
    ensures
        found == compatibility(engine@, minimum@),
{
    let engine_valid = parses(engine);
    let minimum_valid = parses(minimum);
    let engine_older = if engine_valid && minimum_valid {
        precedes(engine, minimum)
    } else {
        false
    };
    judge_compatibility(engine_valid, minimum_valid, engine_older)
}

} // verus!
