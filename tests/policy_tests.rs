use settings_service::error::SettingsError;
use settings_service::hierarchy::MockTenantHierarchyClient;
use settings_service::model::{
    AuthContext, DomainType, EventConfig, EventTarget, GtsTraits, GtsType, SettingOptions,
};
use settings_service::service::Service;
use uuid::Uuid;

fn json(text: &str) -> serde_json::Value {
    serde_json::from_str(text).unwrap()
}

fn tenant() -> u128 {
    Uuid::new_v4().as_u128()
}

fn gts_type(suffix: &str) -> GtsType {
    GtsType {
        type_id: format!("gts.a.p.sm.setting.v1.0~{}", suffix),
        traits: GtsTraits {
            domain_type: DomainType::Tenant,
            events: EventConfig { audit: EventTarget::Self_, notification: EventTarget::NoEvent },
            options: SettingOptions::default(),
            operation: None,
        },
        schema: None,
        created_at: 0,
        updated_at: 0,
    }
}

fn non_overwritable() -> GtsType {
    let mut t = gts_type("test.non_overwritable.v1");
    t.traits.options.is_value_overwritable = false;
    t
}

// ----- privileged callers -----

#[test]
fn test_root_admin_can_override_non_overwritable_setting() {
    let mut service = Service::new();
    let (parent, child) = (tenant(), tenant());
    let t = non_overwritable();
    service.register_gts_type(t.clone()).unwrap();
    service.upsert_setting(&t.type_id, parent, "generic", json(r#"{"value": "parent_value", "level": "parent"}"#)).unwrap();
    let child_data = json(r#"{"value": "child_value", "level": "child"}"#);
    let refused = service.upsert_setting_with_auth(&t.type_id, child, "generic", child_data.clone(), &AuthContext::non_admin());
    assert!(matches!(refused, Err(SettingsError::Conflict { .. })));
    let admin = AuthContext::root_admin(Some("admin_user_123".to_string()), None);
    let result = service.upsert_setting_with_auth(&t.type_id, child, "generic", child_data.clone(), &admin);
    assert!(result.is_ok(), "Root/admin should be able to override non-overwritable setting");
    let child_setting = result.unwrap();
    assert_eq!(child_setting.data, child_data);
    assert_eq!(child_setting.tenant_id, child);
}

#[test]
fn test_root_admin_can_set_at_any_tenant_level() {
    let mut service = Service::new();
    let t = non_overwritable();
    service.register_gts_type(t.clone()).unwrap();
    let admin = AuthContext::root_admin(Some("admin_user_456".to_string()), None);
    for name in ["Root", "Pax8", "Evergreen", "Datto", "BCS"] {
        let data = json(&format!(r#"{{"tenant": "{0}", "value": "value_{0}"}}"#, name));
        let result = service.upsert_setting_with_auth(&t.type_id, tenant(), "generic", data.clone(), &admin);
        assert!(result.is_ok(), "Root/admin should be able to set at any tenant level");
        assert_eq!(result.unwrap().data, data);
    }
}

#[test]
fn test_non_admin_still_blocked_by_non_overwritable() {
    let mut service = Service::new();
    let (parent, child) = (tenant(), tenant());
    let t = non_overwritable();
    service.register_gts_type(t.clone()).unwrap();
    service.upsert_setting(&t.type_id, parent, "generic", json(r#"{"value": "parent_locked"}"#)).unwrap();
    let result = service.upsert_setting_with_auth(&t.type_id, child, "generic", json(r#"{"value": "child_override"}"#), &AuthContext::non_admin());
    match result {
        Err(SettingsError::Conflict { reason }) => assert!(reason.contains("not overwritable")),
        other => panic!("Expected Conflict error, got {:?}", other),
    }
}

#[test]
fn test_root_admin_can_modify_locked_setting() {
    let mut service = Service::new();
    let tenant_id = tenant();
    let t = non_overwritable();
    service.register_gts_type(t.clone()).unwrap();
    service.upsert_setting(&t.type_id, tenant_id, "generic", json(r#"{"value": "initial"}"#)).unwrap();
    service.lock_setting(&t.type_id, tenant_id, "generic", true).unwrap();
    let result = service.upsert_setting_with_auth(&t.type_id, tenant_id, "generic", json(r#"{"value": "non_admin_change"}"#), &AuthContext::non_admin());
    assert!(result.is_err(), "Non-admin should not be able to modify locked setting");
    let admin_data = json(r#"{"value": "admin_override"}"#);
    let admin = AuthContext::root_admin(Some("admin_789".to_string()), None);
    let result = service.upsert_setting_with_auth(&t.type_id, tenant_id, "generic", admin_data.clone(), &admin);
    assert!(result.is_ok());
    assert_eq!(service.get_setting(&t.type_id, tenant_id, "generic").unwrap().data, admin_data);
    assert!(service.is_locked(&t.type_id, tenant_id, "generic"));
}

#[test]
fn test_root_admin_bypass_both_lock_and_overwritable() {
    let mut service = Service::new();
    let (parent, child) = (tenant(), tenant());
    let t = non_overwritable();
    service.register_gts_type(t.clone()).unwrap();
    service.upsert_setting(&t.type_id, parent, "generic", json(r#"{"v": "parent"}"#)).unwrap();
    let admin = AuthContext::root_admin(Some("admin".to_string()), None);
    service.upsert_setting_with_auth(&t.type_id, child, "generic", json(r#"{"v": "child"}"#), &admin).unwrap();
    service.lock_setting(&t.type_id, child, "generic", true).unwrap();
    let non_admin = service.upsert_setting_with_auth(&t.type_id, child, "generic", json(r#"{"v": "x"}"#), &AuthContext::non_admin());
    assert!(matches!(non_admin, Err(SettingsError::Conflict { .. })));
    let data = json(r#"{"v": "admin"}"#);
    let result = service.upsert_setting_with_auth(&t.type_id, child, "generic", data.clone(), &admin).unwrap();
    assert_eq!(result.data, data);
    let log = service.take_override_log();
    assert_eq!(log.len(), 2);
    assert!(log[1].bypassed_lock && log[1].bypassed_overwrite);
}

#[test]
fn test_auth_context_includes_user_and_client_ids() {
    let ctx = AuthContext::root_admin(Some("user_1".to_string()), Some("client_1".to_string()));
    assert!(ctx.is_root_admin);
    assert_eq!(ctx.user_id.as_deref(), Some("user_1"));
    assert_eq!(ctx.client_id.as_deref(), Some("client_1"));
    let plain = AuthContext::non_admin();
    assert!(!plain.is_root_admin);
    assert!(plain.user_id.is_none() && plain.client_id.is_none());
    assert_eq!(AuthContext::default(), plain);
}

// ----- locks -----

#[test]
fn test_upsert_setting_checks_lock() {
    let mut service = Service::new();
    let tenant_id = tenant();
    let t = gts_type("test.v1");
    service.register_gts_type(t.clone()).unwrap();
    service.upsert_setting(&t.type_id, tenant_id, "generic", json(r#"{"value": "initial"}"#)).unwrap();
    service.lock_setting(&t.type_id, tenant_id, "generic", true).unwrap();
    let result = service.upsert_setting(&t.type_id, tenant_id, "generic", json(r#"{"value": "updated"}"#));
    assert!(matches!(result, Err(SettingsError::Conflict { .. })));
}

#[test]
fn test_delete_setting_checks_lock() {
    let mut service = Service::new();
    let tenant_id = tenant();
    let t = gts_type("test.v1");
    service.register_gts_type(t.clone()).unwrap();
    service.upsert_setting(&t.type_id, tenant_id, "generic", json(r#"{"value": "locked"}"#)).unwrap();
    service.lock_setting(&t.type_id, tenant_id, "generic", true).unwrap();
    let result = service.delete_setting(&t.type_id, tenant_id, "generic");
    assert!(matches!(result, Err(SettingsError::Conflict { .. })));
}

#[test]
fn lock_then_privileged_write_and_refused_delete() {
    let mut service = Service::new();
    let tenant_id = tenant();
    let t = gts_type("test.v1");
    service.register_gts_type(t.clone()).unwrap();
    service.upsert_setting(&t.type_id, tenant_id, "generic", json(r#"{"n": 1}"#)).unwrap();
    service.lock_setting(&t.type_id, tenant_id, "generic", true).unwrap();
    assert!(matches!(service.delete_setting(&t.type_id, tenant_id, "generic"), Err(SettingsError::Conflict { .. })));
    let admin = AuthContext::root_admin(Some("root".to_string()), None);
    let updated = service.upsert_setting_with_auth(&t.type_id, tenant_id, "generic", json(r#"{"n": 2}"#), &admin).unwrap();
    assert_eq!(updated.data, json(r#"{"n": 2}"#));
    assert_eq!(service.get_setting(&t.type_id, tenant_id, "generic").unwrap().data, json(r#"{"n": 2}"#));
    assert!(service.delete_setting_with_auth(&t.type_id, tenant_id, "generic", &admin).is_ok());
}

#[test]
fn read_write_lock_flag_false_imposes_nothing() {
    let mut service = Service::new();
    let tenant_id = tenant();
    let t = gts_type("test.v1");
    service.register_gts_type(t.clone()).unwrap();
    service.upsert_setting(&t.type_id, tenant_id, "generic", json(r#"{"n": 1}"#)).unwrap();
    service.lock_setting(&t.type_id, tenant_id, "generic", false).unwrap();
    assert!(!service.is_locked(&t.type_id, tenant_id, "generic"));
    assert!(service.upsert_setting(&t.type_id, tenant_id, "generic", json(r#"{"n": 2}"#)).is_ok());
}

#[test]
fn locking_a_missing_setting_is_not_found() {
    let mut service = Service::new();
    let t = gts_type("test.v1");
    service.register_gts_type(t.clone()).unwrap();
    let tenant_id = tenant();
    match service.lock_setting(&t.type_id, tenant_id, "generic", true) {
        Err(SettingsError::NotFound { resource, id }) => {
            assert_eq!(resource, "setting");
            assert!(id.contains(&Uuid::from_u128(tenant_id).to_string()));
        }
        other => panic!("expected NotFound, got {:?}", other),
    }
    assert!(!service.is_locked(&t.type_id, tenant_id, "generic"));
}

// ----- unregistered types -----

#[test]
fn unregistered_type_fails_every_settings_operation() {
    let mut service = Service::new();
    let t = "gts.a.p.sm.setting.v1.0~missing.v1";
    let id = tenant();
    let is_unregistered = |e: &SettingsError| matches!(e, SettingsError::TypeNotRegistered { gts_type } if gts_type == t);
    assert!(is_unregistered(&service.upsert_setting(t, id, "generic", json("{}")).unwrap_err()));
    assert!(is_unregistered(&service.get_setting(t, id, "generic").unwrap_err()));
    assert!(is_unregistered(&service.delete_setting(t, id, "generic").unwrap_err()));
    assert!(is_unregistered(&service.lock_setting(t, id, "generic", true).unwrap_err()));
    assert!(is_unregistered(&service.get_settings_by_type(t, None).unwrap_err()));
    let hierarchy = MockTenantHierarchyClient::new();
    assert!(is_unregistered(&service.resolve_inherited_setting(&hierarchy, t, id, "generic").unwrap_err()));
    assert!(is_unregistered(&service.get_gts_type(t).unwrap_err()));
    assert!(service.take_publications().is_empty());
}

// ----- inheritance -----

#[test]
fn nearest_ancestor_wins() {
    let mut service = Service::new();
    let mut hierarchy = MockTenantHierarchyClient::new();
    let (root, child, grandchild) = (tenant(), tenant(), tenant());
    hierarchy.add_tenant(root, None);
    hierarchy.add_tenant(child, Some(root));
    hierarchy.add_tenant(grandchild, Some(child));
    let t = gts_type("test.inherit.v1");
    service.register_gts_type(t.clone()).unwrap();
    service.upsert_setting(&t.type_id, root, "generic", json(r#"{"v": 100}"#)).unwrap();
    let resolved = service.resolve_inherited_setting(&hierarchy, &t.type_id, grandchild, "generic").unwrap();
    assert_eq!(resolved.tenant_id, root);
    assert_eq!(resolved.data, json(r#"{"v": 100}"#));
    service.upsert_setting(&t.type_id, child, "generic", json(r#"{"v": 200}"#)).unwrap();
    let resolved = service.resolve_inherited_setting(&hierarchy, &t.type_id, grandchild, "generic").unwrap();
    assert_eq!(resolved.tenant_id, child);
    assert_eq!(resolved.data, json(r#"{"v": 200}"#));
    let own = service.resolve_inherited_setting(&hierarchy, &t.type_id, child, "generic").unwrap();
    assert_eq!(own.tenant_id, child);
}

#[test]
fn barrier_blocks_inheritance() {
    let mut service = Service::new();
    let mut hierarchy = MockTenantHierarchyClient::new();
    let (root, child, grandchild) = (tenant(), tenant(), tenant());
    hierarchy.add_tenant(root, None);
    hierarchy.add_tenant(child, Some(root));
    hierarchy.add_tenant(grandchild, Some(child));
    let mut t = gts_type("test.barrier.v1");
    t.traits.options.is_barrier_inheritance = true;
    service.register_gts_type(t.clone()).unwrap();
    service.upsert_setting(&t.type_id, root, "generic", json(r#"{"v": 100}"#)).unwrap();
    assert!(matches!(
        service.resolve_inherited_setting(&hierarchy, &t.type_id, child, "generic"),
        Err(SettingsError::NotFound { .. })
    ));
    assert!(service.resolve_inherited_setting(&hierarchy, &t.type_id, root, "generic").is_ok());
}

#[test]
fn inheritance_along_given_ancestors_and_failures() {
    let mut service = Service::new();
    let (a, b, c) = (tenant(), tenant(), tenant());
    let t = gts_type("test.along.v1");
    service.register_gts_type(t.clone()).unwrap();
    service.upsert_setting(&t.type_id, c, "obj-1", json(r#"{"from": "c"}"#)).unwrap();
    service.upsert_setting(&t.type_id, b, "obj-1", json(r#"{"from": "b"}"#)).unwrap();
    let got = service.resolve_inherited_setting_along(&t.type_id, a, "obj-1", &vec![b, c]).unwrap();
    assert_eq!(got.tenant_id, b);
    let got = service.resolve_inherited_setting_along(&t.type_id, a, "obj-1", &vec![c, b]).unwrap();
    assert_eq!(got.tenant_id, c);
    assert!(matches!(
        service.resolve_inherited_setting_along(&t.type_id, a, "obj-2", &vec![b, c]),
        Err(SettingsError::NotFound { .. })
    ));
    // A soft-deleted ancestor value is invisible.
    service.delete_setting(&t.type_id, b, "obj-1").unwrap();
    let got = service.resolve_inherited_setting_along(&t.type_id, a, "obj-1", &vec![b, c]).unwrap();
    assert_eq!(got.tenant_id, c);
    // Unknown tenants and cyclic hierarchies.
    let mut hierarchy = MockTenantHierarchyClient::new();
    assert!(matches!(
        service.resolve_inherited_setting(&hierarchy, &t.type_id, a, "obj-1"),
        Err(SettingsError::NotFound { .. })
    ));
    hierarchy.add_tenant(a, Some(b));
    hierarchy.add_tenant(b, Some(a));
    assert!(matches!(
        service.resolve_inherited_setting(&hierarchy, &t.type_id, a, "obj-1"),
        Err(SettingsError::Internal)
    ));
}

#[test]
fn test_get_inherited_setting_direct() {
    let mut service = Service::new();
    let tenant_id = tenant();
    let t = gts_type("test.v1");
    service.register_gts_type(t.clone()).unwrap();
    let data = json(r#"{"value": "direct_setting"}"#);
    service.upsert_setting(&t.type_id, tenant_id, "generic", data.clone()).unwrap();
    let setting = service.get_setting(&t.type_id, tenant_id, "generic").unwrap();
    assert_eq!(setting.data, data);
}

#[test]
fn test_get_inherited_setting_not_found() {
    let mut service = Service::new();
    let t = gts_type("test.v1");
    service.register_gts_type(t.clone()).unwrap();
    match service.get_setting(&t.type_id, tenant(), "generic") {
        Err(SettingsError::NotFound { .. }) => {}
        _ => panic!("Expected NotFound error"),
    }
}

#[test]
fn test_get_inherited_setting_inheritance_disabled() {
    let mut service = Service::new();
    let mut hierarchy = MockTenantHierarchyClient::new();
    let (root, child) = (tenant(), tenant());
    hierarchy.add_tenant(root, None);
    hierarchy.add_tenant(child, Some(root));
    let mut t = gts_type("test.v1");
    t.traits.options.is_value_inheritable = false;
    service.register_gts_type(t.clone()).unwrap();
    service.upsert_setting(&t.type_id, root, "generic", json(r#"{"v": 1}"#)).unwrap();
    assert!(service.get_setting(&t.type_id, child, "generic").is_err());
    assert!(service.resolve_inherited_setting(&hierarchy, &t.type_id, child, "generic").is_err());
}

// ----- schema -----

#[test]
fn schema_scenario_name_required() {
    let mut service = Service::new();
    let mut t = gts_type("test.v1");
    t.schema = Some(json(r#"{"type": "object", "properties": {"name": {"type": "string"}}, "required": ["name"]}"#));
    service.register_gts_type(t.clone()).unwrap();
    assert_eq!(t.type_id, "gts.a.p.sm.setting.v1.0~test.v1");
    let id = tenant();
    assert!(service.upsert_setting(&t.type_id, id, "generic", json(r#"{"name": "x"}"#)).is_ok());
    match service.upsert_setting(&t.type_id, id, "generic", json(r#"{"age": 1}"#)) {
        Err(SettingsError::SchemaValidation { errors }) => assert_eq!(errors.len(), 1),
        other => panic!("expected SchemaValidation, got {:?}", other),
    }
    let admin = AuthContext::root_admin(None, None);
    assert!(matches!(
        service.upsert_setting_with_auth(&t.type_id, id, "generic", json(r#"{"age": 1}"#), &admin),
        Err(SettingsError::SchemaValidation { .. })
    ));
    assert_eq!(service.get_setting(&t.type_id, id, "generic").unwrap().data, json(r#"{"name": "x"}"#));
}

#[test]
fn test_upsert_setting_with_schema_validation() {
    let mut service = Service::new();
    let tenant_id = tenant();
    let mut t = gts_type("test.v1");
    t.schema = Some(json(
        r#"{"properties": {"enabled": {"type": "boolean"}, "threshold": {"type": "number", "minimum": 0, "maximum": 100}}, "required": ["enabled"]}"#,
    ));
    service.register_gts_type(t.clone()).unwrap();
    assert!(service.upsert_setting(&t.type_id, tenant_id, "generic", json(r#"{"enabled": true, "threshold": 50}"#)).is_ok());
    assert!(service.upsert_setting(&t.type_id, tenant_id, "generic", json(r#"{"threshold": 50}"#)).is_err());
    assert!(service.upsert_setting(&t.type_id, tenant_id, "generic", json(r#"{"enabled": true, "threshold": 150}"#)).is_err());
}

#[test]
fn test_phase2_complete_workflow() {
    let mut service = Service::new();
    let tenant_id = tenant();
    let mut t = gts_type("test.v1");
    t.schema = Some(json(r#"{"properties": {"config": {"type": "string"}}, "required": ["config"]}"#));
    service.register_gts_type(t.clone()).unwrap();
    let uuid_string = Uuid::new_v4().to_string();
    let cases = vec![
        ("generic", json(r#"{"config": "generic_value"}"#)),
        (uuid_string.as_str(), json(r#"{"config": "uuid_value"}"#)),
        ("app.test.v1", json(r#"{"config": "appcode_value"}"#)),
    ];
    for (domain_object_id, data) in cases {
        let setting = service.upsert_setting(&t.type_id, tenant_id, domain_object_id, data.clone()).unwrap();
        assert_eq!(setting.data, data);
        assert_eq!(service.get_setting(&t.type_id, tenant_id, domain_object_id).unwrap().data, data);
        service.lock_setting(&t.type_id, tenant_id, domain_object_id, true).unwrap();
        assert!(service.is_locked(&t.type_id, tenant_id, domain_object_id));
        assert!(service.upsert_setting(&t.type_id, tenant_id, domain_object_id, json(r#"{"config": "new"}"#)).is_err());
        service.unlock_setting(&t.type_id, tenant_id, domain_object_id);
        assert!(!service.is_locked(&t.type_id, tenant_id, domain_object_id));
        assert!(service.upsert_setting(&t.type_id, tenant_id, domain_object_id, json(r#"{"config": "updated"}"#)).is_ok());
    }
}

#[test]
fn test_inheritance_metadata_fields() {
    let mut service = Service::new();
    let mut t = gts_type("test.v1");
    t.traits.options.is_value_inheritable = true;
    t.traits.options.is_value_overwritable = false;
    t.traits.options.is_barrier_inheritance = true;
    service.register_gts_type(t.clone()).unwrap();
    service.upsert_setting(&t.type_id, tenant(), "generic", json(r#"{"value": "test"}"#)).unwrap();
    let retrieved = service.get_gts_type(&t.type_id).unwrap();
    assert!(retrieved.traits.options.is_value_inheritable);
    assert!(!retrieved.traits.options.is_value_overwritable);
    assert!(retrieved.traits.options.is_barrier_inheritance);
}

// ----- type lifecycle -----

#[test]
fn test_update_gts_type_success() {
    let mut service = Service::new();
    let mut t = gts_type("update.v1");
    service.register_gts_type(t.clone()).unwrap();
    t.traits.options.retention_period = 60;
    t.traits.options.is_value_overwritable = false;
    assert!(service.update_gts_type(t.clone()).is_ok());
    let retrieved = service.get_gts_type(&t.type_id).unwrap();
    assert_eq!(retrieved.traits.options.retention_period, 60);
    assert_eq!(retrieved.traits.options.is_value_overwritable, false);
}

#[test]
fn test_update_nonexistent_gts_type() {
    let mut service = Service::new();
    let result = service.update_gts_type(gts_type("nonexistent.v1"));
    assert!(matches!(result, Err(SettingsError::TypeNotRegistered { .. })));
}

#[test]
fn test_update_gts_type_with_invalid_format() {
    let mut service = Service::new();
    let mut t = gts_type("valid.v1");
    service.register_gts_type(t.clone()).unwrap();
    t.type_id = "invalid.format~v1".to_string();
    match service.update_gts_type(t) {
        Err(SettingsError::InvalidGtsFormat { details, .. }) => assert!(details.contains("gts.")),
        other => panic!("Expected InvalidGtsFormat, got {:?}", other),
    }
}

#[test]
fn test_update_gts_type_affects_new_settings() {
    let mut service = Service::new();
    let tenant_id = tenant();
    let mut t = gts_type("schema.v1");
    t.schema = Some(json(r#"{"type": "object", "properties": {"name": {"type": "string"}}}"#));
    service.register_gts_type(t.clone()).unwrap();
    service.upsert_setting(&t.type_id, tenant_id, "generic", json(r#"{"name": "a"}"#)).unwrap();
    t.schema = Some(json(r#"{"type": "object", "properties": {"name": {"type": "string", "minLength": 5}}}"#));
    service.update_gts_type(t.clone()).unwrap();
    let result = service.upsert_setting(&t.type_id, tenant_id, "generic2", json(r#"{"name": "ab"}"#));
    assert!(result.is_err(), "Should fail validation with updated schema");
}

#[test]
fn test_delete_gts_type_success() {
    let mut service = Service::new();
    let t = gts_type("delete.v1");
    service.register_gts_type(t.clone()).unwrap();
    assert!(service.delete_gts_type(&t.type_id).is_ok());
    assert!(service.get_gts_type(&t.type_id).is_err());
}

#[test]
fn test_delete_nonexistent_gts_type() {
    let mut service = Service::new();
    let result = service.delete_gts_type("gts.a.p.sm.setting.v1.0~nonexistent.v1");
    assert!(matches!(result, Err(SettingsError::TypeNotRegistered { .. })));
}

#[test]
fn test_delete_gts_type_with_active_settings() {
    let mut service = Service::new();
    let t = gts_type("active.v1");
    service.register_gts_type(t.clone()).unwrap();
    service.upsert_setting(&t.type_id, tenant(), "generic", json(r#"{"a": 1}"#)).unwrap();
    // Deleting a type does not look at its settings.
    assert!(service.delete_gts_type(&t.type_id).is_ok());
}

#[test]
fn test_cannot_create_setting_after_type_deleted() {
    let mut service = Service::new();
    let t = gts_type("deleted.v1");
    service.register_gts_type(t.clone()).unwrap();
    service.delete_gts_type(&t.type_id).unwrap();
    let result = service.upsert_setting(&t.type_id, tenant(), "generic", json(r#"{"a": 1}"#));
    assert!(matches!(result, Err(SettingsError::TypeNotRegistered { .. })));
}

#[test]
fn test_register_duplicate_gts_type() {
    let mut service = Service::new();
    let t = gts_type("duplicate.v1");
    service.register_gts_type(t.clone()).unwrap();
    match service.register_gts_type(t) {
        Err(SettingsError::Conflict { reason }) => assert!(reason.contains("already exists")),
        other => panic!("Expected Conflict, got {:?}", other),
    }
}

#[test]
fn test_update_inheritance_traits() {
    let mut service = Service::new();
    let mut t = gts_type("inherit.v1");
    service.register_gts_type(t.clone()).unwrap();
    t.traits.options.is_value_inheritable = false;
    t.traits.options.is_value_overwritable = false;
    assert!(service.update_gts_type(t.clone()).is_ok());
    let retrieved = service.get_gts_type(&t.type_id).unwrap();
    assert!(!retrieved.traits.options.is_value_inheritable);
    assert!(!retrieved.traits.options.is_value_overwritable);
}

#[test]
fn test_update_event_configuration() {
    let mut service = Service::new();
    let mut t = gts_type("events.v1");
    service.register_gts_type(t.clone()).unwrap();
    t.traits.events.notification = EventTarget::Subroot;
    assert!(service.update_gts_type(t.clone()).is_ok());
    assert_eq!(service.get_gts_type(&t.type_id).unwrap().traits.events.notification, EventTarget::Subroot);
}

// ----- timestamps and retention -----

#[test]
fn creation_time_is_kept_on_update() {
    let mut service = Service::new();
    let t = gts_type("time.v1");
    service.register_gts_type(t.clone()).unwrap();
    let id = tenant();
    let first = service.upsert_setting(&t.type_id, id, "generic", json(r#"{"n": 1}"#)).unwrap();
    assert!(first.created_at > 0);
    assert_eq!(first.created_at, first.updated_at);
    let second = service.upsert_setting(&t.type_id, id, "generic", json(r#"{"n": 2}"#)).unwrap();
    assert_eq!(second.created_at, first.created_at);
    assert!(second.updated_at >= first.updated_at);
}

#[test]
fn retention_respects_period_and_repeats_cleanly() {
    let mut service = Service::new();
    let mut t = gts_type("retention.v1");
    t.traits.options.retention_period = 30;
    service.register_gts_type(t.clone()).unwrap();
    let id = tenant();
    service.upsert_setting(&t.type_id, id, "a", json("{}")).unwrap();
    service.upsert_setting(&t.type_id, id, "b", json("{}")).unwrap();
    service.delete_setting(&t.type_id, id, "a").unwrap();
    let now = chrono::Utc::now().timestamp_millis();
    let day = 86_400_000i64;
    assert_eq!(service.enforce_retention_at(now + 29 * day), 0);
    assert_eq!(service.enforce_retention_at(now + 31 * day), 1);
    assert_eq!(service.enforce_retention_at(now + 31 * day), 0);
    assert_eq!(service.enforce_retention().unwrap(), 0);
    assert!(service.get_setting(&t.type_id, id, "b").is_ok());
}

#[test]
fn test_schema_evolution_backward_compatible() {
    let mut service = Service::new();
    let tenant_id = tenant();
    let mut t = gts_type("evolution.v1");
    t.schema = Some(json(r#"{"type": "object", "properties": {"name": {"type": "string"}}, "required": ["name"]}"#));
    service.register_gts_type(t.clone()).unwrap();
    service.upsert_setting(&t.type_id, tenant_id, "generic", json(r#"{"name": "test"}"#)).unwrap();
    t.schema = Some(json(
        r#"{"type": "object", "properties": {"name": {"type": "string"}, "description": {"type": "string"}}, "required": ["name"]}"#,
    ));
    service.update_gts_type(t.clone()).unwrap();
    let retrieved = service.get_setting(&t.type_id, tenant_id, "generic").unwrap();
    assert_eq!(retrieved.data["name"], "test");
    service
        .upsert_setting(&t.type_id, tenant_id, "generic2", json(r#"{"name": "test2", "description": "with description"}"#))
        .unwrap();
}

#[test]
fn test_schema_evolution_breaking_change() {
    let mut service = Service::new();
    let tenant_id = tenant();
    let mut t = gts_type("breaking.v1");
    t.schema = Some(json(r#"{"type": "object", "properties": {"value": {"type": "string"}}, "required": ["value"]}"#));
    service.register_gts_type(t.clone()).unwrap();
    service.upsert_setting(&t.type_id, tenant_id, "generic", json(r#"{"value": "test"}"#)).unwrap();
    t.schema = Some(json(r#"{"type": "object", "properties": {"value": {"type": "number"}}, "required": ["value"]}"#));
    service.update_gts_type(t.clone()).unwrap();
    let result = service.upsert_setting(&t.type_id, tenant_id, "generic2", json(r#"{"value": "string_value"}"#));
    assert!(result.is_err(), "Should fail validation with new schema");
}

#[test]
fn test_upsert_setting_validates_domain_object_id() {
    let mut service = Service::new();
    let tenant_id = tenant();
    let t = gts_type("test.v1");
    service.register_gts_type(t.clone()).unwrap();
    let uuid_string = Uuid::new_v4().to_string();
    for domain_object_id in ["generic", uuid_string.as_str(), "gts.a.p.sm.storage.v1.0~test.v1", "app.backup.v1"] {
        let result = service.upsert_setting(&t.type_id, tenant_id, domain_object_id, json(r#"{"value": "test"}"#));
        assert!(result.is_ok(), "Failed for valid domain_object_id: {}", domain_object_id);
    }
    // The write path does not check the shape of the object id.
    for domain_object_id in ["_invalid", "app@code", ""] {
        let result = service.upsert_setting(&t.type_id, tenant_id, domain_object_id, json(r#"{"value": "test"}"#));
        if result.is_ok() {
            println!("Warning: Domain object ID '{}' was accepted", domain_object_id);
        }
    }
}

#[test]
fn test_multi_level_inheritance() {
    let mut hierarchy = MockTenantHierarchyClient::new();
    let (level1, level2, level3, level4, level5) = (tenant(), tenant(), tenant(), tenant(), tenant());
    hierarchy.add_tenant(level1, None);
    hierarchy.add_tenant(level2, Some(level1));
    hierarchy.add_tenant(level3, Some(level2));
    hierarchy.add_tenant(level4, Some(level3));
    hierarchy.add_tenant(level5, Some(level4));
    let path = hierarchy.get_tenant_path(level5).unwrap();
    let ancestors = &path[1..];
    assert_eq!(ancestors.len(), 4);
    assert_eq!(ancestors[0], level4);
    assert_eq!(ancestors[1], level3);
    assert_eq!(ancestors[2], level2);
    assert_eq!(ancestors[3], level1);
    assert!(ancestors.contains(&level1));
    assert!(ancestors.contains(&level3));
    let root_path = hierarchy.get_tenant_path(level1).unwrap();
    assert!(!root_path[1..].contains(&level5));
}
