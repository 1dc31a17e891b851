//! Everything the library takes on trust from other crates and from std:
//! declarations of outside types, and thin wrappers around outside calls.
use vstd::prelude::*;

verus! {

/// A JSON document, carried through the engine without being inspected.
#[verifier::external_type_specification]
#[verifier::external_body]
pub struct ExJsonValue(serde_json::Value);

/// Relies on serde_json's derived `Clone` for `Value`: the copy is the same document.
pub assume_specification[ <serde_json::Value as Clone>::clone ](v: &serde_json::Value)
    -> (r: serde_json::Value)
    ensures
        r == *v,
;

/// Whether jsonschema can compile this document into a validator.
pub uninterp spec fn schema_compiles(schema: serde_json::Value) -> bool;

/// Whether the validator compiled from `schema` accepts `data`.
pub uninterp spec fn schema_accepts(schema: serde_json::Value, data: serde_json::Value) -> bool;

/// Why a document failed a schema check.
pub enum SchemaFailure {
    /// The schema itself could not be compiled; carries jsonschema's message.
    InvalidSchema(String),
    /// The document violates the schema; carries jsonschema's first error.
    Rejected(String),
}

/// Relies on `jsonschema::Validator::new` (compiles the schema, or fails on an
/// invalid one) and `jsonschema::Validator::validate` (the first violation, if any).
#[verifier::external_body]
pub fn check_against_schema(data: &serde_json::Value, schema: &serde_json::Value)
    -> (r: Result<(), SchemaFailure>)
    ensures
        r is Ok <==> (schema_compiles(*schema) && schema_accepts(*schema, *data)),
        (r is Err && r->Err_0 is InvalidSchema) <==> !schema_compiles(*schema),
{
    match jsonschema::Validator::new(schema) {
        Err(e) => Err(SchemaFailure::InvalidSchema(e.to_string())),
        Ok(validator) => match validator.validate(data) {
            Ok(()) => Ok(()),
            Err(e) => Err(SchemaFailure::Rejected(e.to_string())),
        },
    }
}

/// Whether `uuid` parses this text as a UUID.
pub uninterp spec fn uuid_text(s: Seq<char>) -> bool;

/// Relies on `uuid::Uuid::parse_str`: success depends on the text alone, and
/// only texts of 32, 36, 38 or 45 characters (simple, hyphenated, braced, URN)
/// can parse; all of them are ASCII, so characters and bytes agree.
#[verifier::external_body]
pub fn parses_as_uuid(s: &str) -> (r: bool)
    ensures
        r == uuid_text(s@),
        r ==> (s@.len() == 32 || s@.len() == 36 || s@.len() == 38 || s@.len() == 45),
{
    uuid::Uuid::parse_str(s).is_ok()
}

/// The hyphenated lower-case text of a UUID given by its 128-bit value.
pub uninterp spec fn hyphenated_uuid(id: u128) -> Seq<char>;

/// Relies on `uuid::Uuid::from_u128` and its `Display`: the hyphenated form,
/// 36 characters long.
#[verifier::external_body]
pub fn uuid_to_text(id: u128) -> (r: String)
    ensures
        r@ == hyphenated_uuid(id),
        r@.len() == 36,
{
    uuid::Uuid::from_u128(id).to_string()
}

/// Relies on `chrono::Utc::now`: the current instant, in milliseconds since
/// the Unix epoch. Nothing is promised of its value.
#[verifier::external_body]
pub fn now_millis() -> (r: i64) {
    chrono::Utc::now().timestamp_millis()
}

/// Whether std counts the character as alphabetic or numeric.
pub uninterp spec fn alphanumeric(c: char) -> bool;

/// Relies on `char::is_alphanumeric`: the answer depends on the character
/// alone; ASCII letters and digits are alphanumeric, and the ASCII
/// punctuation `_ . - @ #` and the space are not.
#[verifier::external_body]
pub fn is_alphanumeric(c: char) -> (r: bool)
    ensures
        r == alphanumeric(c),
        ('a' as u32 <= c as u32 <= 'z' as u32) || ('A' as u32 <= c as u32 <= 'Z' as u32) || (
        '0' as u32 <= c as u32 <= '9' as u32) ==> r,
        (c == '_' || c == '.' || c == '-' || c == '@' || c == '#' || c == ' ') ==> !r,
{
    c.is_alphanumeric()
}

} // verus!
