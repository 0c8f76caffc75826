//! Declarations for the outside functions the library calls: identifier
//! generation and parsing, wall-clock timestamps, case folding, and the
//! metadata document type. Each item's contract states only what the
//! outside crate's source or documentation shows.

use vstd::prelude::*;

verus! {

// serde_json's structured document type. The library never looks inside a
// metadata document; it only stores it, copies it, and hands it back.
#[verifier::external_type_specification]
#[verifier::external_body]
pub struct ExJsonValue(serde_json::Value);

/// Relies on serde_json::Value::clone (a derived Clone): a deep copy,
/// structurally equal to the original document.
pub assume_specification[ <serde_json::Value as Clone>::clone ](
    v: &serde_json::Value,
) -> (r: serde_json::Value)
    ensures
        r == *v,
;

/// Relies on serde_json::Value::Object and serde_json::Map::new: builds the
/// empty metadata document that fresh records start with.
#[verifier::external_body]
pub(crate) fn empty_metadata() -> serde_json::Value {
    serde_json::Value::Object(serde_json::Map::new())
}

/// Relies on uuid::Uuid::new_v4 and Uuid::as_u128: a randomly generated
/// 128-bit identifier. Nothing is promised of the value.
#[verifier::external_body]
pub(crate) fn fresh_id() -> u128 {
    uuid::Uuid::new_v4().as_u128()
}

/// Relies on chrono::Utc::now and DateTime::timestamp_micros: the current
/// wall-clock time in microseconds since the epoch. Nothing is promised of
/// the value.
#[verifier::external_body]
pub(crate) fn now_micros() -> i64 {
    chrono::Utc::now().timestamp_micros()
}

/// What str::to_lowercase returns on a given text; the result depends on
/// the characters alone.
pub uninterp spec fn lower_of(s: Seq<char>) -> Seq<char>;

/// Relies on str::to_lowercase: the result depends on the characters alone,
/// and an empty string stays empty.
#[verifier::external_body]
pub(crate) fn lowercase(s: &str) -> (r: String)
    ensures
        r@ == lower_of(s@),
        s@.len() == 0 ==> r@.len() == 0,
{
    s.to_lowercase()
}

/// What uuid::Uuid::parse_str yields on a given text, as a 128-bit value;
/// `None` where the text is not one of the UUID text forms. The outcome
/// depends on the text alone.
pub uninterp spec fn parsed_id(s: Seq<char>) -> Option<u128>;

/// Relies on uuid::Uuid::parse_str and Uuid::as_u128: parses the textual
/// UUID forms into the corresponding 128-bit value.
#[verifier::external_body]
pub(crate) fn parse_id(s: &str) -> (r: Option<u128>)
    ensures
        r == parsed_id(s@),
{
    match uuid::Uuid::parse_str(s) {
        Ok(u) => Some(u.as_u128()),
        Err(_) => None,
    }
}

/// The hyphenated text form of a 128-bit identifier; it depends on the
/// identifier alone.
pub uninterp spec fn id_text_of(id: u128) -> Seq<char>;

/// Relies on uuid::Uuid::from_u128 and uuid's Display impl: the hyphenated
/// form, 36 characters, determined by the identifier alone. Relies on
/// uuid::Uuid::parse_str accepting the hyphenated form it renders: the text
/// parses back to the same identifier.
#[verifier::external_body]
pub(crate) fn id_text(id: u128) -> (r: String)
    ensures
        r@ == id_text_of(id),
        r@.len() == 36,
        parsed_id(r@) == Some(id),
{
    uuid::Uuid::from_u128(id).to_string()
}

} // verus!
