//! Input checks: the structural gate on type identifiers, the accepted shapes
//! of domain object ids, and schema validation of setting values.
use vstd::prelude::*;
use vstd::string::*;
use crate::error::SettingsError;
use crate::external::{
    alphanumeric, check_against_schema, is_alphanumeric, parses_as_uuid, schema_accepts,
    schema_compiles, uuid_text, SchemaFailure,
};

verus! {

/// The text starts with the namespace prefix `gts.`.
pub open spec fn has_gts_prefix(s: Seq<char>) -> bool {
    &&& s.len() >= 4
    &&& s[0] == 'g'
    &&& s[1] == 't'
    &&& s[2] == 's'
    &&& s[3] == '.'
}

/// The text holds the separator `~`.
pub open spec fn has_separator(s: Seq<char>) -> bool {
    s.contains('~')
}

/// The two structural checks a type identifier must pass.
pub open spec fn is_gts_shaped(s: Seq<char>) -> bool {
    has_gts_prefix(s) && has_separator(s)
}

/// The literal `generic`.
pub open spec fn is_generic(s: Seq<char>) -> bool {
    s == seq!['g', 'e', 'n', 'e', 'r', 'i', 'c']
}

/// A character allowed in an app code.
pub open spec fn app_code_char(c: char) -> bool {
    alphanumeric(c) || c == '_' || c == '.' || c == '-'
}

/// An app code: starts with an alphanumeric character, holds only alphanumerics,
/// `_`, `.` and `-`, and at least one alphanumeric character.
pub open spec fn is_app_code(s: Seq<char>) -> bool {
    &&& s.len() > 0
    &&& alphanumeric(s[0])
    &&& forall|i: int| 0 <= i < s.len() ==> app_code_char(#[trigger] s[i])
    &&& exists|i: int| 0 <= i < s.len() && alphanumeric(#[trigger] s[i])
}

/// The shapes a domain object id may take, given whether it parses as a UUID.
pub open spec fn object_id_accepted(s: Seq<char>, is_uuid: bool) -> bool {
    s.len() > 0 && (is_generic(s) || is_uuid || is_gts_shaped(s) || is_app_code(s))
}

/// Whether the text starts with `gts.`.
pub fn starts_with_gts(s: &str) -> (r: bool)
    ensures
        r == has_gts_prefix(s@),
{
    let n = s.unicode_len();
    if n < 4 {
        return false;
    }
    s.get_char(0) == 'g' && s.get_char(1) == 't' && s.get_char(2) == 's' && s.get_char(3) == '.'
}

/// Whether the text holds the character `c`.
pub fn contains_char(s: &str, c: char) -> (r: bool)
    ensures
        r == s@.contains(c),
{
    let n = s.unicode_len();
    let mut i: usize = 0;
    while i < n
        invariant
            n == s@.len(),
            i <= n,
            forall|j: int| 0 <= j < i ==> s@[j] != c,
        decreases n - i,
    {
        if s.get_char(i) == c {
            return true;
        }
        i = i + 1;
    }
    false
}

/// Whether two texts are equal.
pub fn same_text(a: &str, b: &str) -> (r: bool)
    ensures
        r == (a@ == b@),
{
    let n = a.unicode_len();
    if n != b.unicode_len() {
        return false;
    }
    let mut i: usize = 0;
    while i < n
        invariant
            n == a@.len(),
            n == b@.len(),
            i <= n,
            forall|j: int| 0 <= j < i ==> a@[j] == b@[j],
        decreases n - i,
    {
        if a.get_char(i) != b.get_char(i) {
            return false;
        }
        i = i + 1;
    }
    assert(a@ =~= b@);
    true
}

/// Whether the text is exactly `generic`.
pub fn is_generic_text(s: &str) -> (r: bool)
    ensures
        r == is_generic(s@),
{
    let n = s.unicode_len();
    if n != 7 {
        return false;
    }
    let ok = s.get_char(0) == 'g' && s.get_char(1) == 'e' && s.get_char(2) == 'n'
        && s.get_char(3) == 'e' && s.get_char(4) == 'r' && s.get_char(5) == 'i'
        && s.get_char(6) == 'c';
    assert(ok ==> s@ =~= seq!['g', 'e', 'n', 'e', 'r', 'i', 'c']);
    ok
}

/// The error for a type identifier `s` that fails the structural gate: it
/// carries `s`, and its details name the missing prefix, else the missing
/// separator.
pub open spec fn is_gts_format_error(e: SettingsError, s: Seq<char>) -> bool {
    e matches SettingsError::InvalidGtsFormat { gts, details } && gts@ == s && (if !has_gts_prefix(
        s,
    ) {
        details@ == "GTS must start with 'gts.'"@
    } else {
        details@ == "GTS must contain '~' separator"@
    })
}

/// The structural gate on type identifiers: the prefix `gts.` and the
/// separator `~`, nothing more.
pub fn validate_gts_format(gts: &str) -> (r: Result<(), SettingsError>)
    ensures
        r is Ok <==> is_gts_shaped(gts@),
        r is Err ==> is_gts_format_error(r->Err_0, gts@),
{
    if !starts_with_gts(gts) {
        return Err(
            SettingsError::InvalidGtsFormat {
                gts: String::from_str(gts),
                details: String::from_str("GTS must start with 'gts.'"),
            },
        );
    }
    if !contains_char(gts, '~') {
        return Err(
            SettingsError::InvalidGtsFormat {
                gts: String::from_str(gts),
                details: String::from_str("GTS must contain '~' separator"),
            },
        );
    }
    Ok(())
}

fn object_id_error(prefix: &str, id: &str, suffix: &str) -> (r: SettingsError)
    ensures
        r is Validation,
{
    let mut message = String::from_str(prefix);
    message.append(id);
    message.append(suffix);
    SettingsError::Validation { message }
}

/// Checks the shape of a domain object id, given whether it parses as a UUID.
pub fn classify_domain_object_id(domain_object_id: &str, is_uuid: bool)
    -> (r: Result<(), SettingsError>)
    ensures
        r is Ok <==> object_id_accepted(domain_object_id@, is_uuid),
        r is Err ==> r->Err_0 is Validation,
{
    let s = domain_object_id;
    let n = s.unicode_len();
    if n == 0 {
        return Err(
            SettingsError::Validation {
                message: String::from_str("domain_object_id cannot be empty"),
            },
        );
    }
    if is_generic_text(s) || is_uuid {
        return Ok(());
    }
    if starts_with_gts(s) && contains_char(s, '~') {
        return Ok(());
    }
    if !is_alphanumeric(s.get_char(0)) {
        return Err(object_id_error("domain_object_id '", s, "' must start with alphanumeric character"));
    }
    let mut i: usize = 0;
    while i < n
        invariant
            n == s@.len(),
            i <= n,
            forall|j: int| 0 <= j < i ==> app_code_char(#[trigger] s@[j]),
            !is_generic(s@),
            !is_uuid,
            !is_gts_shaped(s@),
            n > 0,
            alphanumeric(s@[0]),
            s@ == domain_object_id@,
        decreases n - i,
    {
        let c = s.get_char(i);
        if !(is_alphanumeric(c) || c == '_' || c == '.' || c == '-') {
            assert(!app_code_char(s@[i as int]));
            return Err(
                object_id_error(
                    "domain_object_id '",
                    s,
                    "' contains invalid characters. Only alphanumeric, '_', '.', and '-' are allowed",
                ),
            );
        }
        i = i + 1;
    }
    // The first character is alphanumeric, so the id holds one.
    assert(alphanumeric(s@[0]));
    Ok(())
}

/// Checks the shape of a domain object id: `generic`, a UUID, a type
/// identifier, or an app code.
pub fn validate_domain_object_id(domain_object_id: &str) -> (r: Result<(), SettingsError>)
    ensures
        r is Ok <==> object_id_accepted(domain_object_id@, uuid_text(domain_object_id@)),
        r is Err ==> r->Err_0 is Validation,
        uuid_text(domain_object_id@) ==> (domain_object_id@.len() == 32 || domain_object_id@.len()
            == 36 || domain_object_id@.len() == 38 || domain_object_id@.len() == 45),
{
    let is_uuid = parses_as_uuid(domain_object_id);
    classify_domain_object_id(domain_object_id, is_uuid)
}

/// Validates a value against a JSON Schema. An uncompilable schema is a
/// `Validation` error; a violation is a `SchemaValidation` error with one message.
pub fn validate_against_schema(data: &serde_json::Value, schema: &serde_json::Value)
    -> (r: Result<(), SettingsError>)
    ensures
        r is Ok <==> (schema_compiles(*schema) && schema_accepts(*schema, *data)),
        !schema_compiles(*schema) ==> r matches Err(SettingsError::Validation { .. }),
        schema_compiles(*schema) && !schema_accepts(*schema, *data) ==> (r matches Err(
            SettingsError::SchemaValidation { errors },
        ) && errors@.len() == 1),
{
    match check_against_schema(data, schema) {
        Ok(()) => Ok(()),
        Err(SchemaFailure::InvalidSchema(e)) => {
            let mut message = String::from_str("Invalid JSON Schema: ");
            message.append(e.as_str());
            Err(SettingsError::Validation { message })
        },
        Err(SchemaFailure::Rejected(e)) => {
            let mut errors: Vec<String> = Vec::new();
            errors.push(e);
            Err(SettingsError::SchemaValidation { errors })
        },
    }
}

} // verus!
