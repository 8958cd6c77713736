//! What the web service answers, between taking a signature out of a request
//! and sending a body back.

use crate::fn_cache::{texts, FnCache};
use percent_encoding::percent_decode;
use std::str::Utf8Error;
use vstd::prelude::*;
use vstd::string::*;

verus! {

/// The error of a UTF-8 check.
#[verifier::external_type_specification]
#[verifier::external_body]
pub struct ExUtf8Error(Utf8Error);

/// The error of `serde_json`.
#[verifier::external_type_specification]
#[verifier::external_body]
pub struct ExJsonError(serde_json::Error);

/// The text that `raw` stands for once each `%` with two hex digits behind it
/// is replaced by the byte they name. Nothing where the bytes are not UTF-8.
pub uninterp spec fn percent_decoded(raw: Seq<char>) -> Option<Seq<char>>;

/// The JSON array of the strings `items`, as `serde_json` writes it. Nothing
/// where it fails to write one.
pub uninterp spec fn json_strings(items: Seq<Seq<char>>) -> Option<Seq<char>>;

/// `percent_decode` and `PercentDecode::decode_utf8`: the decoded text, which
/// is named `percent_decoded`, or the error of the UTF-8 check.
#[verifier::external_body]
fn decoded(raw: &str) -> (r: Result<String, Utf8Error>)
    ensures
        match percent_decoded(raw@) {
            Some(text) => r matches Ok(s) && s@ == text,
            None => r is Err,
        },
{
    Ok(percent_decode(raw.as_bytes()).decode_utf8()?.to_string())
}

/// `serde_json::to_string` of a slice of strings: the array, which is named
/// `json_strings`, or the error of the serialiser.
#[verifier::external_body]
fn json_of(items: &Vec<&str>) -> (r: Result<String, serde_json::Error>)
    ensures
        match json_strings(texts(items@)) {
            Some(text) => r matches Ok(s) && s@ == text,
            None => r is Err,
        },
{
    serde_json::to_string(items.as_slice())
}

/// Why a request got no body.
#[derive(Debug)]
pub enum HandlerError {
    /// The signature in the request is not UTF-8 once decoded.
    Signature(Utf8Error),
    /// The answer could not be written as JSON.
    Json(serde_json::Error),
}

/// How many results a request gets at most.
pub const RESULT_LIMIT: usize = 10;

/// The signature that the path segment `raw` of a request stands for.
pub fn signature_of(raw: &str) -> (r: Result<String, HandlerError>)
    ensures
        match percent_decoded(raw@) {
            Some(text) => r matches Ok(sig) && sig@ == text,
            None => r matches Err(HandlerError::Signature(_)),
        },
{
    match decoded(raw) {
        Ok(sig) => Ok(sig),
        Err(e) => Err(HandlerError::Signature(e)),
    }
}

/// The body that answers a request for suggestions, given what the index
/// suggested: the suggestions as a JSON array, or the empty array where
/// there are none.
pub fn suggestions_body(suggested: Option<Vec<&str>>) -> (r: Result<String, HandlerError>)
    ensures
        match suggested {
            Some(sigs) => match json_strings(texts(sigs@)) {
                Some(text) => r matches Ok(body) && body@ == text,
                None => r matches Err(HandlerError::Json(_)),
            },
            None => r matches Ok(body) && body@ == "[]"@,
        },
{
    match suggested {
        Some(sigs) => match json_of(&sigs) {
            Ok(body) => Ok(body),
            Err(e) => Err(HandlerError::Json(e)),
        },
        None => Ok(String::from_str("[]")),
    }
}

/// The body that answers a request for the completions of the signature that
/// `raw` stands for: the first ten, as a JSON array.
pub fn suggest(cache: &FnCache, raw: &str) -> (r: Result<String, HandlerError>)
    ensures
        match percent_decoded(raw@) {
            None => r matches Err(HandlerError::Signature(_)),
            Some(sig) => match cache.suggested(sig, RESULT_LIMIT as nat) {
                Some(first) => match json_strings(first) {
                    Some(text) => r matches Ok(body) && body@ == text,
                    None => r matches Err(HandlerError::Json(_)),
                },
                None => r matches Ok(body) && body@ == "[]"@,
            },
        },
{
    let sig = signature_of(raw)?;
    suggestions_body(cache.suggest(sig.as_str(), RESULT_LIMIT))
}

/// The ids that answer a search for the signature that `raw` stands for: the
/// first ten stored under it, none where it is not stored.
pub fn search(cache: &FnCache, raw: &str) -> (r: Result<Vec<i64>, HandlerError>)
    ensures
        match percent_decoded(raw@) {
            None => r matches Err(HandlerError::Signature(_)),
            Some(sig) => r matches Ok(ids) && ids@ == match cache.found(
                sig,
                RESULT_LIMIT as nat,
                0,
            ) {
                Some(window) => window,
                None => Seq::empty(),
            },
        },
{
    let sig = signature_of(raw)?;
    match cache.search(sig.as_str(), RESULT_LIMIT, None) {
        Some(ids) => {
            let mut found: Vec<i64> = Vec::new();
            let mut i: usize = 0;
            while i < ids.len()
                invariant
                    i <= ids.len(),
                    found@ == ids@.take(i as int),
                decreases ids.len() - i,
            {
                found.push(ids[i]);
                assert(found@ =~= ids@.take(i + 1));
                i += 1;
            }
            assert(ids@.take(ids.len() as int) =~= ids@);
            Ok(found)
        },
        None => Ok(Vec::new()),
    }
}

} // verus!
