use settings_service::error::SettingsError;
use settings_service::validation::{validate_against_schema, validate_domain_object_id, validate_gts_format};
use uuid::Uuid;

fn json(text: &str) -> serde_json::Value {
    serde_json::from_str(text).unwrap()
}

#[test]
fn test_validate_domain_object_id_generic() {
    assert!(validate_domain_object_id("generic").is_ok());
}

#[test]
fn test_validate_domain_object_id_uuid() {
    assert!(validate_domain_object_id("550e8400-e29b-41d4-a716-446655440000").is_ok());
    let uuid = Uuid::new_v4().to_string();
    assert!(validate_domain_object_id(&uuid).is_ok());
}

#[test]
fn test_validate_domain_object_id_gts() {
    assert!(validate_domain_object_id("gts.a.p.sm.storage.v1.0~vendor.app.v1.0").is_ok());
    assert!(validate_domain_object_id("gts.a.p.sm.setting.v1.0~backup.schedule.v1.0").is_ok());
    assert!(validate_domain_object_id("gts.x.y.z~test.v2.0").is_ok());
}

#[test]
fn test_validate_domain_object_id_appcode() {
    assert!(validate_domain_object_id("app.backup.v1").is_ok());
    assert!(validate_domain_object_id("my_app_123").is_ok());
    assert!(validate_domain_object_id("app-code-v2").is_ok());
    assert!(validate_domain_object_id("BackupAgent").is_ok());
    assert!(validate_domain_object_id("agent_v1.2.3").is_ok());
}

#[test]
fn test_validate_domain_object_id_invalid() {
    assert!(validate_domain_object_id("_invalid").is_err());
    assert!(validate_domain_object_id("-invalid").is_err());
    assert!(validate_domain_object_id(".invalid").is_err());
    assert!(validate_domain_object_id("app@code").is_err());
    assert!(validate_domain_object_id("app code").is_err());
    assert!(validate_domain_object_id("app#code").is_err());
    assert!(validate_domain_object_id("").is_err());
    assert!(validate_domain_object_id("___").is_err());
}

#[test]
fn test_valid_schema_validation() {
    let schema = json(
        r#"{"type": "object", "properties": {"name": {"type": "string"}, "age": {"type": "number", "minimum": 0}}, "required": ["name"]}"#,
    );
    let data = json(r#"{"name": "John", "age": 30}"#);
    assert!(validate_against_schema(&data, &schema).is_ok());
}

#[test]
fn test_invalid_schema_validation() {
    let schema = json(
        r#"{"type": "object", "properties": {"name": {"type": "string"}, "age": {"type": "number", "minimum": 0}}, "required": ["name"]}"#,
    );
    let data = json(r#"{"age": -5}"#);
    let result = validate_against_schema(&data, &schema);
    assert!(result.is_err());
    if let Err(SettingsError::SchemaValidation { errors }) = result {
        assert!(!errors.is_empty());
    } else {
        panic!("Expected SchemaValidation error");
    }
}

#[test]
fn test_type_mismatch() {
    let schema = json(r#"{"type": "object", "properties": {"count": {"type": "integer"}}}"#);
    let data = json(r#"{"count": "not a number"}"#);
    let result = validate_against_schema(&data, &schema);
    assert!(result.is_err());
}

#[test]
fn test_domain_object_id_validation_generic() {
    assert!(validate_domain_object_id("generic").is_ok());
}

#[test]
fn test_domain_object_id_validation_uuid() {
    let uuid = "550e8400-e29b-41d4-a716-446655440000";
    assert!(validate_domain_object_id(uuid).is_ok());
    let generated_uuid = Uuid::new_v4().to_string();
    assert!(validate_domain_object_id(&generated_uuid).is_ok());
}

#[test]
fn test_domain_object_id_validation_gts() {
    assert!(validate_domain_object_id("gts.a.p.sm.storage.v1.0~vendor.app.v1.0").is_ok());
    assert!(validate_domain_object_id("gts.a.p.sm.setting.v1.0~backup.schedule.v1.0").is_ok());
    assert!(validate_domain_object_id("gts.x.y.z~test.v2.0").is_ok());
}

#[test]
fn test_domain_object_id_validation_appcode() {
    assert!(validate_domain_object_id("app.backup.v1").is_ok());
    assert!(validate_domain_object_id("my_app_123").is_ok());
    assert!(validate_domain_object_id("app-code-v2").is_ok());
    assert!(validate_domain_object_id("BackupAgent").is_ok());
    assert!(validate_domain_object_id("agent_v1.2.3").is_ok());
}

#[test]
fn test_domain_object_id_validation_invalid() {
    assert!(validate_domain_object_id("_invalid").is_err());
    assert!(validate_domain_object_id("-invalid").is_err());
    assert!(validate_domain_object_id(".invalid").is_err());
    assert!(validate_domain_object_id("app@code").is_err());
    assert!(validate_domain_object_id("app code").is_err());
    assert!(validate_domain_object_id("app#code").is_err());
    assert!(validate_domain_object_id("").is_err());
    assert!(validate_domain_object_id("___").is_err());
}

#[test]
fn test_schema_validation_with_traits() {
    let schema = json(
        r#"{"properties": {"name": {"type": "string"}, "age": {"type": "number", "minimum": 0}}, "required": ["name"], "x-gts-traits": {"options": {"is_value_inheritable": true}}}"#,
    );
    assert!(validate_against_schema(&json(r#"{"name": "John", "age": 30}"#), &schema).is_ok());
    assert!(validate_against_schema(&json(r#"{"age": 30}"#), &schema).is_err());
}

#[test]
fn object_id_shapes_accepted_and_rejected() {
    let uuid = Uuid::new_v4().to_string();
    for ok in ["generic", uuid.as_str(), "gts.a.p.sm.setting.v1.0~x.v1", "app.code-1"] {
        assert!(validate_domain_object_id(ok).is_ok(), "{} should be accepted", ok);
    }
    for bad in ["_bad", "", "a b"] {
        assert!(matches!(validate_domain_object_id(bad), Err(SettingsError::Validation { .. })), "{:?} should be rejected", bad);
    }
}

#[test]
fn object_id_unicode_letters_count_as_alphanumeric() {
    assert!(validate_domain_object_id("Überweisung-1").is_ok());
    assert!(validate_domain_object_id("日本").is_ok());
}

#[test]
fn uuid_shapes_are_told_apart_from_app_codes() {
    // Braced and simple forms parse as UUIDs even though braces are no app-code characters.
    assert!(validate_domain_object_id("{550e8400-e29b-41d4-a716-446655440000}").is_ok());
    assert!(validate_domain_object_id("550e8400e29b41d4a716446655440000").is_ok());
    assert!(validate_domain_object_id("{not-a-uuid}").is_err());
}

#[test]
fn invalid_schema_is_a_validation_error() {
    let schema = json(r#"{"type": "no-such-type"}"#);
    let result = validate_against_schema(&json(r#"{"a": 1}"#), &schema);
    assert!(matches!(result, Err(SettingsError::Validation { .. })));
}

#[test]
fn gts_format_gate() {
    assert!(validate_gts_format("gts.a~b").is_ok());
    assert!(matches!(validate_gts_format("gts.ab"), Err(SettingsError::InvalidGtsFormat { .. })));
    assert!(matches!(validate_gts_format("gt.a~b"), Err(SettingsError::InvalidGtsFormat { .. })));
    assert!(matches!(validate_gts_format(""), Err(SettingsError::InvalidGtsFormat { .. })));
}
