//! Loosely typed forms of the policy traits, as they travel in requests and
//! are stored: enumerations as upper-case names. Reading a name falls back to
//! a default when it is not recognised.
use vstd::prelude::*;
use vstd::string::*;
use crate::model::{DomainType, EventConfig, EventTarget, GtsTraits, SettingOptions, copy_opt_string};
use crate::validation::same_text;

verus! {

/// The name under which an event target travels.
pub open spec fn target_name(t: EventTarget) -> Seq<char> {
    match t {
        EventTarget::Self_ => "SELF"@,
        EventTarget::Subroot => "SUBROOT"@,
        EventTarget::NoEvent => "NONE"@,
    }
}

/// The event target a name stands for: `SELF`, `SUBROOT`, else none.
pub open spec fn target_named(s: Seq<char>) -> EventTarget {
    if s == "SELF"@ {
        EventTarget::Self_
    } else if s == "SUBROOT"@ {
        EventTarget::Subroot
    } else {
        EventTarget::NoEvent
    }
}

/// The name under which a domain type travels.
pub open spec fn domain_type_name(d: DomainType) -> Seq<char> {
    match d {
        DomainType::Tenant => "TENANT"@,
        DomainType::Storage => "STORAGE"@,
        DomainType::User => "USER"@,
        DomainType::Agent => "AGENT"@,
        DomainType::Application => "APPLICATION"@,
        DomainType::Brand => "BRAND"@,
        DomainType::Resource => "RESOURCE"@,
        DomainType::Global => "GLOBAL"@,
    }
}

/// The domain type a name stands for; an unknown name means `Tenant`.
pub open spec fn domain_type_named(s: Seq<char>) -> DomainType {
    if s == "STORAGE"@ {
        DomainType::Storage
    } else if s == "USER"@ {
        DomainType::User
    } else if s == "AGENT"@ {
        DomainType::Agent
    } else if s == "APPLICATION"@ {
        DomainType::Application
    } else if s == "BRAND"@ {
        DomainType::Brand
    } else if s == "RESOURCE"@ {
        DomainType::Resource
    } else if s == "GLOBAL"@ {
        DomainType::Global
    } else {
        DomainType::Tenant
    }
}

/// The domain object a setting applies to when none is named.
pub fn default_domain_object_id() -> (r: String)
    ensures
        r@ == "generic"@,
{
    String::from_str("generic")
}

/// Reads an event target from its name; an unknown name means no event.
pub fn parse_event_target(s: &str) -> (r: EventTarget)
    ensures
        r == target_named(s@),
{
    if same_text(s, "SELF") {
        EventTarget::Self_
    } else if same_text(s, "SUBROOT") {
        EventTarget::Subroot
    } else {
        EventTarget::NoEvent
    }
}

/// The name of an event target.
pub fn format_event_target(target: EventTarget) -> (r: String)
    ensures
        r@ == target_name(target),
{
    match target {
        EventTarget::Self_ => String::from_str("SELF"),
        EventTarget::Subroot => String::from_str("SUBROOT"),
        EventTarget::NoEvent => String::from_str("NONE"),
    }
}

/// Reads a domain type from its name; an unknown name means `Tenant`.
pub fn parse_domain_type(s: &str) -> (r: DomainType)
    ensures
        r == domain_type_named(s@),
{
    if same_text(s, "STORAGE") {
        DomainType::Storage
    } else if same_text(s, "USER") {
        DomainType::User
    } else if same_text(s, "AGENT") {
        DomainType::Agent
    } else if same_text(s, "APPLICATION") {
        DomainType::Application
    } else if same_text(s, "BRAND") {
        DomainType::Brand
    } else if same_text(s, "RESOURCE") {
        DomainType::Resource
    } else if same_text(s, "GLOBAL") {
        DomainType::Global
    } else {
        DomainType::Tenant
    }
}

/// The name of a domain type.
pub fn format_domain_type(d: DomainType) -> (r: String)
    ensures
        r@ == domain_type_name(d),
{
    match d {
        DomainType::Tenant => String::from_str("TENANT"),
        DomainType::Storage => String::from_str("STORAGE"),
        DomainType::User => String::from_str("USER"),
        DomainType::Agent => String::from_str("AGENT"),
        DomainType::Application => String::from_str("APPLICATION"),
        DomainType::Brand => String::from_str("BRAND"),
        DomainType::Resource => String::from_str("RESOURCE"),
        DomainType::Global => String::from_str("GLOBAL"),
    }
}

/// Reading the name of an event target gives the target back.
pub proof fn lemma_event_target_round_trip(t: EventTarget)
    ensures
        target_named(target_name(t)) == t,
{
    reveal_strlit("SELF");
    reveal_strlit("SUBROOT");
    reveal_strlit("NONE");
    assert("SELF"@.len() != "SUBROOT"@.len());
    assert("NONE"@ != "SELF"@) by {
        assert("NONE"@[0] != "SELF"@[0]);
    }
    assert("NONE"@.len() != "SUBROOT"@.len());
}

/// Event targets, by name.
#[derive(Debug, Clone)]
pub struct EventConfigDto {
    pub audit: String,
    pub notification: String,
}

/// Policy options; the same fields as `SettingOptions`.
#[derive(Debug, Clone, Copy)]
pub struct SettingOptionsDto {
    pub retention_period: u32,
    pub is_value_inheritable: bool,
    pub is_value_overwritable: bool,
    pub is_barrier_inheritance: bool,
    pub enable_generic: bool,
    pub is_mfa_required: bool,
}

/// Policy traits with enumerations by name.
#[derive(Debug, Clone)]
pub struct GtsTraitsDto {
    pub domain_type: String,
    pub events: EventConfigDto,
    pub options: SettingOptionsDto,
    pub operation: Option<String>,
}

/// The options a transported form stands for.
pub open spec fn options_of(o: SettingOptionsDto) -> SettingOptions {
    SettingOptions {
        retention_period: o.retention_period,
        is_value_inheritable: o.is_value_inheritable,
        is_value_overwritable: o.is_value_overwritable,
        is_barrier_inheritance: o.is_barrier_inheritance,
        enable_generic: o.enable_generic,
        is_mfa_required: o.is_mfa_required,
    }
}

impl From<SettingOptions> for SettingOptionsDto {
    fn from(o: SettingOptions) -> (r: Self) {
        SettingOptionsDto {
            retention_period: o.retention_period,
            is_value_inheritable: o.is_value_inheritable,
            is_value_overwritable: o.is_value_overwritable,
            is_barrier_inheritance: o.is_barrier_inheritance,
            enable_generic: o.enable_generic,
            is_mfa_required: o.is_mfa_required,
        }
    }
}

impl vstd::std_specs::convert::FromSpecImpl<SettingOptions> for SettingOptionsDto {
    open spec fn obeys_from_spec() -> bool {
        true
    }

    open spec fn from_spec(o: SettingOptions) -> SettingOptionsDto {
        SettingOptionsDto {
            retention_period: o.retention_period,
            is_value_inheritable: o.is_value_inheritable,
            is_value_overwritable: o.is_value_overwritable,
            is_barrier_inheritance: o.is_barrier_inheritance,
            enable_generic: o.enable_generic,
            is_mfa_required: o.is_mfa_required,
        }
    }
}

impl EventConfigDto {
    /// The targets these names stand for.
    pub fn to_config(&self) -> (r: EventConfig)
        ensures
            r.audit == target_named(self.audit@),
            r.notification == target_named(self.notification@),
    {
        EventConfig {
            audit: parse_event_target(self.audit.as_str()),
            notification: parse_event_target(self.notification.as_str()),
        }
    }

    /// The names of the given targets.
    pub fn from_config(c: EventConfig) -> (r: Self)
        ensures
            r.audit@ == target_name(c.audit),
            r.notification@ == target_name(c.notification),
    {
        EventConfigDto {
            audit: format_event_target(c.audit),
            notification: format_event_target(c.notification),
        }
    }
}

impl GtsTraitsDto {
    /// The traits this transported form stands for; unknown names fall back
    /// to `Tenant` and to no event.
    pub fn to_traits(&self) -> (r: GtsTraits)
        ensures
            r.domain_type == domain_type_named(self.domain_type@),
            r.events.audit == target_named(self.events.audit@),
            r.events.notification == target_named(self.events.notification@),
            r.options == options_of(self.options),
            r.operation == self.operation,
    {
        GtsTraits {
            domain_type: parse_domain_type(self.domain_type.as_str()),
            events: self.events.to_config(),
            options: SettingOptions {
                retention_period: self.options.retention_period,
                is_value_inheritable: self.options.is_value_inheritable,
                is_value_overwritable: self.options.is_value_overwritable,
                is_barrier_inheritance: self.options.is_barrier_inheritance,
                enable_generic: self.options.enable_generic,
                is_mfa_required: self.options.is_mfa_required,
            },
            operation: copy_opt_string(&self.operation),
        }
    }

    /// The transported form of the traits.
    pub fn from_traits(t: &GtsTraits) -> (r: Self)
        ensures
            r.domain_type@ == domain_type_name(t.domain_type),
            r.events.audit@ == target_name(t.events.audit),
            r.events.notification@ == target_name(t.events.notification),
            options_of(r.options) == t.options,
            r.operation == t.operation,
    {
        GtsTraitsDto {
            domain_type: format_domain_type(t.domain_type),
            events: EventConfigDto::from_config(t.events),
            options: SettingOptionsDto {
                retention_period: t.options.retention_period,
                is_value_inheritable: t.options.is_value_inheritable,
                is_value_overwritable: t.options.is_value_overwritable,
                is_barrier_inheritance: t.options.is_barrier_inheritance,
                enable_generic: t.options.enable_generic,
                is_mfa_required: t.options.is_mfa_required,
            },
            operation: copy_opt_string(&t.operation),
        }
    }
}

} // verus!
