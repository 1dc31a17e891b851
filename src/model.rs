//! The data the engine works on: type definitions with their policy traits,
//! settings, and the caller's authorization context.
//!
//! Tenant ids are the 128-bit values of UUIDs; instants are milliseconds
//! since the Unix epoch.
use vstd::prelude::*;

verus! {

/// Kind of domain object a setting type is about. Informational only.
#[derive(Debug, Clone, Copy, PartialEq, Eq, Structural)]
pub enum DomainType {
    Tenant,
    Storage,
    User,
    Agent,
    Application,
    Brand,
    Resource,
    Global,
}

/// Where an audit or notification event goes.
#[derive(Debug, Clone, Copy, PartialEq, Eq, Structural)]
pub enum EventTarget {
    /// The tenant on which the change happened.
    Self_,
    /// The tenant on which the change happened, marked as relevant to its subtree.
    Subroot,
    /// No event.
    NoEvent,
}

/// Event targets of the audit and notification channels.
#[derive(Debug, Clone, Copy, PartialEq, Eq, Structural)]
pub struct EventConfig {
    pub audit: EventTarget,
    pub notification: EventTarget,
}

impl Default for EventConfig {
    fn default() -> (r: Self)
        ensures
            r.audit == EventTarget::Self_,
            r.notification == EventTarget::NoEvent,
    {
        EventConfig { audit: EventTarget::Self_, notification: EventTarget::NoEvent }
    }
}

/// Policy options of a setting type.
#[derive(Debug, Clone, Copy, PartialEq, Eq, Structural)]
pub struct SettingOptions {
    /// Days a soft-deleted setting is kept before it is removed for good.
    pub retention_period: u32,
    /// Whether child tenants inherit the value.
    pub is_value_inheritable: bool,
    /// Whether a non-privileged caller may write where another tenant already holds a value.
    pub is_value_overwritable: bool,
    /// Whether inheritance of this type is blocked.
    pub is_barrier_inheritance: bool,
    /// Whether the "generic" domain object is enabled.
    pub enable_generic: bool,
    /// Whether changes need multi-factor authentication; checked by callers.
    pub is_mfa_required: bool,
}

impl Default for SettingOptions {
    fn default() -> (r: Self)
        ensures
            r.retention_period == 30,
            r.is_value_inheritable,
            r.is_value_overwritable,
            !r.is_barrier_inheritance,
            r.enable_generic,
            !r.is_mfa_required,
    {
        SettingOptions {
            retention_period: 30,
            is_value_inheritable: true,
            is_value_overwritable: true,
            is_barrier_inheritance: false,
            enable_generic: true,
            is_mfa_required: false,
        }
    }
}

/// Copies an optional string.
pub fn copy_opt_string(s: &Option<String>) -> (r: Option<String>)
    ensures
        r == *s,
{
    match s {
        Some(x) => Some(x.clone()),
        None => None,
    }
}

/// Copies an optional JSON document.
pub fn copy_opt_json(v: &Option<serde_json::Value>) -> (r: Option<serde_json::Value>)
    ensures
        r == *v,
{
    match v {
        Some(x) => Some(x.clone()),
        None => None,
    }
}

/// The policy traits of a setting type.
#[derive(Debug, Clone, PartialEq, Eq)]
pub struct GtsTraits {
    pub domain_type: DomainType,
    pub events: EventConfig,
    pub options: SettingOptions,
    pub operation: Option<String>,
}

impl GtsTraits {
    /// An exact copy.
    pub fn duplicate(&self) -> (r: Self)
        ensures
            r == *self,
    {
        GtsTraits {
            domain_type: self.domain_type,
            events: self.events,
            options: self.options,
            operation: copy_opt_string(&self.operation),
        }
    }
}

/// A registered setting type.
#[derive(Debug, Clone, PartialEq, Eq)]
pub struct GtsType {
    /// The type identifier.
    pub type_id: String,
    pub traits: GtsTraits,
    /// Optional JSON Schema that setting values must satisfy.
    pub schema: Option<serde_json::Value>,
    pub created_at: i64,
    pub updated_at: i64,
}

impl GtsType {
    /// An exact copy.
    pub fn duplicate(&self) -> (r: Self)
        ensures
            r == *self,
    {
        GtsType {
            type_id: self.type_id.clone(),
            traits: self.traits.duplicate(),
            schema: copy_opt_json(&self.schema),
            created_at: self.created_at,
            updated_at: self.updated_at,
        }
    }
}

/// A setting value, keyed by (type identifier, tenant, domain object).
#[derive(Debug, Clone, PartialEq, Eq)]
pub struct Setting {
    pub type_id: String,
    pub tenant_id: u128,
    pub domain_object_id: String,
    pub data: serde_json::Value,
    pub created_at: i64,
    pub updated_at: i64,
    /// Set when the setting is soft-deleted; such a setting is invisible to reads.
    pub deleted_at: Option<i64>,
}

/// The composite key of a setting, as the contracts see it.
pub type SettingKey = (Seq<char>, u128, Seq<char>);

/// The key of a setting.
pub open spec fn key_of(s: Setting) -> SettingKey {
    (s.type_id@, s.tenant_id, s.domain_object_id@)
}

/// Whether a setting is visible to reads.
pub open spec fn is_live(s: Setting) -> bool {
    s.deleted_at is None
}

impl Setting {
    /// An exact copy.
    pub fn duplicate(&self) -> (r: Self)
        ensures
            r == *self,
    {
        Setting {
            type_id: self.type_id.clone(),
            tenant_id: self.tenant_id,
            domain_object_id: self.domain_object_id.clone(),
            data: self.data.clone(),
            created_at: self.created_at,
            updated_at: self.updated_at,
            deleted_at: self.deleted_at,
        }
    }
}

/// Who is calling: privileged callers bypass locks and the overwrite policy.
#[derive(Debug, Clone, PartialEq, Eq)]
pub struct AuthContext {
    pub is_root_admin: bool,
    /// User identifier, for audit attribution.
    pub user_id: Option<String>,
    /// Client identifier, for audit attribution.
    pub client_id: Option<String>,
}

impl Default for AuthContext {
    fn default() -> (r: Self)
        ensures
            !r.is_root_admin,
            r.user_id is None,
            r.client_id is None,
    {
        AuthContext { is_root_admin: false, user_id: None, client_id: None }
    }
}

impl AuthContext {
    /// A non-privileged context with no identity.
    pub fn non_admin() -> (r: Self)
        ensures
            !r.is_root_admin,
            r.user_id is None,
            r.client_id is None,
    {
        AuthContext { is_root_admin: false, user_id: None, client_id: None }
    }

    /// A privileged context attributed to the given user and client.
    pub fn root_admin(user_id: Option<String>, client_id: Option<String>) -> (r: Self)
        ensures
            r.is_root_admin,
            r.user_id == user_id,
            r.client_id == client_id,
    {
        AuthContext { is_root_admin: true, user_id, client_id }
    }
}

} // verus!
