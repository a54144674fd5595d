//! Semantic versions of the contract, parsed and compared by the `semver` crate.
use vstd::prelude::*;

verus! {

#[verifier::external_type_specification]
#[verifier::external_body]
pub struct ExSemverVersion(semver::Version);

/// The message of the error that `semver::Version::parse` gives for `text`, or
/// `None` where `text` is a valid semantic version.
pub uninterp spec fn semver_parse_error(text: Seq<char>) -> Option<Seq<char>>;

/// Whether the version that `a` parses to is not older than the one `b` parses
/// to by the ordering of `semver::Version` (major, minor, patch, pre-release,
/// then build metadata).
pub uninterp spec fn semver_not_older(a: Seq<char>, b: Seq<char>) -> bool;

/// A semantic version, together with the text it was parsed from.
pub struct ParsedVersion {
    text: String,
    version: semver::Version,
}

impl View for ParsedVersion {
    type V = Seq<char>;

    /// The text the version was parsed from.
    closed spec fn view(&self) -> Seq<char> {
        self.text@
    }
}

/// `semver::Version::parse`, with a failure rendered as the error's message.
/// Claims that the call succeeds exactly where `semver_parse_error` is `None`,
/// and fails with that message otherwise; the grammar is not restated here.
#[verifier::external_body]
pub(crate) fn parse_version(text: &str) -> (r: Result<ParsedVersion, String>)
    ensures
        r is Ok <==> semver_parse_error(text@) is None,
        r matches Ok(v) ==> v@ == text@,
        r matches Err(e) ==> semver_parse_error(text@) == Some(e@),
{
    match semver::Version::parse(text) {
        Ok(version) => Ok(ParsedVersion { text: text.to_string(), version }),
        Err(e) => Err(e.to_string()),
    }
}

/// `>=` on `semver::Version` (its derived order over major, minor, patch,
/// pre-release and build metadata). Claims the result is `semver_not_older` of
/// the two source texts, and that a version is never older than an equal one.
#[verifier::external_body]
pub(crate) fn version_at_least(a: &ParsedVersion, b: &ParsedVersion) -> (r: bool)
    ensures
        r == semver_not_older(a@, b@),
        a@ == b@ ==> r,
{
    a.version >= b.version
}

} // verus!
