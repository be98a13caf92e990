//! The remote probe's decision logic: reading the latest published tag out
//! of a release payload and turning it into a remote status.
//!
//! The network request itself is not made here: the caller performs one
//! HTTP request per entry and hands over the response body, or nothing when
//! the request or the response failed. A transient failure surfaces as
//! `RemoteStatus::Unavailable` for that run; it never aborts the run and is
//! never retried.

use vstd::prelude::*;

use crate::status::{remote_status_view, RemoteStatus};
use crate::version::{extract_version, spec_extract};

verus! {

/// The "tag_name" string field of a release payload: what parsing `body` as
/// a JSON document and reading that field yields, a function of the text
/// alone. Nothing when the text is not a JSON document, the field is absent,
/// or the field is not a string.
pub uninterp spec fn json_tag_name(body: Seq<char>) -> Option<Seq<char>>;

/// Relies on serde_json::from_str, serde_json::Value::get and
/// serde_json::Value::as_str: parsing a JSON document and reading its
/// "tag_name" string field is deterministic in the document text.
#[verifier::external_body]
fn parse_tag_name(body: &str) -> (r: Option<String>)
    ensures
        r.deep_view() == json_tag_name(body@),
{
    match serde_json::from_str::<serde_json::Value>(body) {
        Ok(v) => match v.get("tag_name") {
            Some(t) => match t.as_str() {
                Some(s) => Some(s.to_owned()),
                None => None,
            },
            None => None,
        },
        Err(_) => None,
    }
}

/// The endpoint that serves the latest published release of a repository:
/// the repository identifier framed by the release API's fixed path.
pub fn release_url(repo: &str) -> (r: String)
    ensures
        r@ == "https://api.github.com/repos/"@ + repo@ + "/releases/latest"@,
{
    let mut url = String::from_str("https://api.github.com/repos/");
    url.append(repo);
    url.append("/releases/latest");
    url
}

/// Maps one release lookup's outcome to a remote status: a body that parses
/// to a tag yields `Found` with that tag; a failed request (no body) or a
/// payload without a readable tag yields `Unavailable`.
pub fn remote_status_of(body: &Option<String>) -> (r: RemoteStatus)
    ensures
        remote_status_view(r) == match body.deep_view() {
            Some(b) => json_tag_name(b),
            None => None,
        },
{
    match body {
        Some(b) => match parse_tag_name(b.as_str()) {
            Some(tag) => RemoteStatus::Found(tag),
            None => RemoteStatus::Unavailable,
        },
        None => RemoteStatus::Unavailable,
    }
}

/// The comparable version a remote status yields: the version token of the
/// found tag, so that a prefixed tag such as "v1.4.0" compares against local
/// output as "1.4.0". An unavailable lookup, or a tag without a version
/// token, yields nothing.
pub fn remote_version_of(status: &RemoteStatus) -> (r: Option<String>)
    ensures
        r.deep_view() == match remote_status_view(*status) {
            Some(tag) => spec_extract(tag),
            None => None,
        },
{
    match status {
        RemoteStatus::Found(tag) => extract_version(tag.as_str()),
        RemoteStatus::Unavailable => None,
    }
}

} // verus!
