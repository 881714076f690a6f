//! How the destination of an embedding is named when none is given:
//! `name.ext` becomes `name_c2pa.ext`.

use vstd::prelude::*;
use crate::error::EngineError;

verus! {

/// The pattern that parts a path into what stands before its extension
/// and the extension: some characters, a dot, and letters.
pub open spec fn file_pattern() -> Seq<char> {
    "(.+)\\.([a-zA-Z]+)"@
}

/// The texts of the first and the second capture group of the leftmost
/// match that the `regex` crate finds for `pattern` in `text`. `None`
/// where the pattern does not compile, where nothing matches, or where
/// one of the two groups took no part in the match.
pub uninterp spec fn captured_pair(pattern: Seq<char>, text: Seq<char>) -> Option<
    (Seq<char>, Seq<char>),
>;

/// Compiles `pattern` with `regex::Regex::new`, searches `text` with
/// `Regex::captures`, and copies out groups 1 and 2 with `Captures::get`
/// and `Match::as_str`. The search depends on the two texts alone; the
/// contract gives its result a name and claims nothing else about it.
#[verifier::external_body]
fn capture_pair(pattern: &str, text: &str) -> (r: Option<(String, String)>)
    ensures
        r.deep_view() == captured_pair(pattern@, text@),
{
    let compiled = regex::Regex::new(pattern).ok()?;
    let found = compiled.captures(text)?;
    let first = found.get(1)?.as_str().to_owned();
    let second = found.get(2)?.as_str().to_owned();
    Some((first, second))
}

/// The destination named from the two parts of a source path, or the
/// failure to name one where the path did not part.
pub open spec fn dest_of_parts(parts: Option<(Seq<char>, Seq<char>)>) -> Result<
    Seq<char>,
    EngineError,
> {
    match parts {
        Some((stem, extension)) => Ok(stem + "_c2pa"@ + "."@ + extension),
        None => Err(EngineError::InvalidFilename),
    }
}

/// The destination that is derived for the source path `source`.
pub open spec fn derived_dest(source: Seq<char>) -> Result<Seq<char>, EngineError> {
    dest_of_parts(captured_pair(file_pattern(), source))
}

/// Names the destination from the two parts of a source path: the part
/// before the extension, the suffix `_c2pa`, a dot, the extension.
pub fn name_from_parts(parts: Option<(String, String)>) -> (r: Result<String, EngineError>)
    ensures
        match dest_of_parts(parts.deep_view()) {
            Ok(name) => r is Ok && r->Ok_0@ == name,
            Err(e) => r is Err && r->Err_0 == e,
        },
{
    match parts {
        Some((stem, extension)) => {
            let mut name = stem;
            name.append("_c2pa");
            name.append(".");
            name.append(extension.as_str());
            Ok(name)
        },
        None => Err(EngineError::InvalidFilename),
    }
}

/// Derives the destination path from the source path. A source without
/// a recognizable extension has none.
pub fn derive_dest_path(source: &str) -> (r: Result<String, EngineError>)
    ensures
        match derived_dest(source@) {
            Ok(name) => r is Ok && r->Ok_0@ == name,
            Err(e) => r is Err && r->Err_0 == e,
        },
{
    name_from_parts(capture_pair("(.+)\\.([a-zA-Z]+)", source))
}

} // verus!
