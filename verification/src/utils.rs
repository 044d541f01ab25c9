//! Helpers on texts: paths kept inside a base directory, and decimals read
//! from their text.

use crate::decimal::{parsed_decimal, Decimal};
use crate::errors::{AppError, AppResult, ErrorKind};
use std::path::Path;
use vstd::prelude::*;

verus! {

/// `text` without its leading and trailing whitespace.
pub uninterp spec fn trimmed_text(text: Seq<char>) -> Seq<char>;

/// The path that `relative` names under `base`.
pub uninterp spec fn joined_path(base: Seq<char>, relative: Seq<char>) -> Seq<char>;

/// Whether `path` lies at or under `base`, component by component.
pub uninterp spec fn path_starts_with(path: Seq<char>, base: Seq<char>) -> bool;

/// `text` without the slashes it begins with.
pub open spec fn without_leading_slashes(text: Seq<char>) -> Seq<char>
    decreases text.len(),
{
    if text.len() > 0 && text[0] == '/' {
        without_leading_slashes(text.drop_first())
    } else {
        text
    }
}

/// Whether two full stops stand side by side in `text`.
pub open spec fn has_parent_marker(text: Seq<char>) -> bool {
    exists|i: int| 0 <= i && i + 1 < text.len() && #[trigger] text[i] == '.' && text[i + 1] == '.'
}

/// The relative path that a request names: trimmed, and without the
/// slashes it begins with.
pub open spec fn requested_path(path: Seq<char>) -> Seq<char> {
    without_leading_slashes(trimmed_text(path))
}

/// The path that `path` names under `base_dir`, before anything is looked
/// up on disk. A path with a parent marker in it is refused. The caller
/// resolves the result on disk and hands it to [`confine`].
pub fn safe_join(base_dir: &str, path: &str) -> (r: AppResult<String>)
    ensures
        match r {
            Ok(candidate) => !has_parent_marker(requested_path(path@)) && candidate@
                == joined_path(base_dir@, requested_path(path@)),
            Err(e) => has_parent_marker(requested_path(path@)) && e.kind_of()
                == ErrorKind::BadRequest && e.message_of() == "Path traversal attempt detected"@,
        },
{
    let trimmed = trim(path);
    let relative = strip_leading_slashes(trimmed.as_str());
    if contains_parent_marker(relative.as_str()) {
        return Err(AppError::BadRequest("Path traversal attempt detected".to_owned()));
    }
    Ok(join(base_dir, relative.as_str()))
}

/// The resolved path, if it lies at or under the resolved base directory;
/// else a refusal.
pub fn confine(base_canonical: &str, canonical: String) -> (r: AppResult<String>)
    ensures
        match r {
            Ok(path) => path_starts_with(canonical@, base_canonical@) && path == canonical,
            Err(e) => !path_starts_with(canonical@, base_canonical@) && e.kind_of()
                == ErrorKind::BadRequest && e.message_of() == "Path traversal attempt detected"@,
        },
{
    if !starts_with(canonical.as_str(), base_canonical) {
        return Err(AppError::BadRequest("Path traversal attempt detected".to_owned()));
    }
    Ok(canonical)
}

/// The text of the failure to read the field `field_name` from `value`.
pub open spec fn invalid_decimal_message(value: Seq<char>, field_name: Seq<char>) -> Seq<char> {
    "Invalid "@ + field_name + ": "@ + value
}

/// The decimal that `value` is the text of; else a failure that names the
/// field and the text.
pub fn str_to_bigdecimal(value: &str, field_name: &str) -> (r: AppResult<Decimal>)
    ensures
        match r {
            Ok(d) => parsed_decimal(value@) == Some(d@),
            Err(e) => parsed_decimal(value@).is_none() && e.kind_of() == ErrorKind::Internal
                && e.message_of() == invalid_decimal_message(value@, field_name@),
        },
{
    match Decimal::parse(value) {
        Some(d) => Ok(d),
        None => {
            let mut message = "Invalid ".to_owned();
            message.append(field_name);
            message.append(": ");
            message.append(value);
            Err(AppError::Internal(message))
        },
    }
}

/// `str::trim`: the text without leading and trailing whitespace.
#[verifier::external_body]
fn trim(text: &str) -> (r: String)
    ensures
        r@ == trimmed_text(text@),
{
    text.trim().to_owned()
}

/// `str::trim_start_matches` with a slash: the text without the slashes
/// it begins with.
#[verifier::external_body]
fn strip_leading_slashes(text: &str) -> (r: String)
    ensures
        r@ == without_leading_slashes(text@),
{
    text.trim_start_matches('/').to_owned()
}

/// `str::contains` with two full stops: whether they occur side by side.
#[verifier::external_body]
fn contains_parent_marker(text: &str) -> (r: bool)
    ensures
        r == has_parent_marker(text@),
{
    text.contains("..")
}

/// `Path::join`: the path that `relative` names under `base`.
#[verifier::external_body]
fn join(base: &str, relative: &str) -> (r: String)
    ensures
        r@ == joined_path(base@, relative@),
{
    Path::new(base).join(relative).to_string_lossy().into_owned()
}

/// `Path::starts_with`: whether `base` is a prefix of `path`, taken by
/// whole components.
#[verifier::external_body]
fn starts_with(path: &str, base: &str) -> (r: bool)
    ensures
        r == path_starts_with(path@, base@),
{
    Path::new(path).starts_with(Path::new(base))
}

} // verus!
