//! The settings engine: registration of types, reads, writes under the lock
//! and overwrite policies, soft deletion, locking, inheritance resolution
//! along the tenant hierarchy, and the retention sweep.
use vstd::prelude::*;
use vstd::string::*;
use crate::error::SettingsError;
use crate::events::{
    describes_deletion, describes_lock, publications_for, route_event, upserted_event, Publication,
    SettingEvent,
};
use crate::external::{hyphenated_uuid, now_millis, schema_accepts, schema_compiles, uuid_to_text};
use crate::hierarchy::{
    has_root_path, is_root_path, lemma_root_path_unique,
    HierarchyError, MockTenantHierarchyClient,
};
use crate::model::{key_of, AuthContext, GtsType, Setting, SettingKey};
use crate::table::Keyed;
use crate::store::{
    lock_blocks, soft_deleted, swept, visible, GtsTypeRepository, LockTable, SettingsRepository,
};
use crate::validation::{
    is_gts_format_error, is_gts_shaped, validate_against_schema, validate_gts_format,
};

verus! {

/// A write by a privileged caller, kept for the audit trail.
#[derive(Debug, Clone, PartialEq, Eq)]
pub struct OverrideRecord {
    /// The user id, else the client id, else `unknown`.
    pub caller: String,
    pub setting_type: String,
    pub tenant_id: u128,
    pub domain_object_id: String,
    /// A read-only lock stood at the key.
    pub bypassed_lock: bool,
    /// The overwrite policy would have refused a non-privileged caller.
    pub bypassed_overwrite: bool,
}

/// The engine, with its stores, lock table, the publish calls it has decided
/// on, and the record of privileged overrides.
pub struct Service {
    settings: SettingsRepository,
    types: GtsTypeRepository,
    locks: LockTable,
    outbox: Vec<Publication>,
    overrides: Vec<OverrideRecord>,
}

/// The value satisfies the type's schema, if it has one.
pub open spec fn schema_admits(ty: GtsType, data: serde_json::Value) -> bool {
    match ty.schema {
        Some(s) => schema_compiles(s) && schema_accepts(s, data),
        None => true,
    }
}

/// Another tenant holds a visible value of this type for the same object.
pub open spec fn held_by_other_tenant(
    stored: Map<SettingKey, Setting>,
    t: Seq<char>,
    tenant: u128,
    obj: Seq<char>,
) -> bool {
    exists|k: SettingKey|
        #[trigger] visible(stored, k) is Some && k.0 == t && k.1 != tenant && k.2 == obj
}

/// The overwrite policy refuses a non-privileged write.
pub open spec fn overwrite_blocks(
    stored: Map<SettingKey, Setting>,
    ty: GtsType,
    t: Seq<char>,
    tenant: u128,
    obj: Seq<char>,
) -> bool {
    !ty.traits.options.is_value_overwritable && held_by_other_tenant(stored, t, tenant, obj)
}

/// The first of `ancestors`, in order, that holds a visible setting of type
/// `t` for `obj`: that setting.
pub open spec fn nearest_holder(
    stored: Map<SettingKey, Setting>,
    t: Seq<char>,
    obj: Seq<char>,
    ancestors: Seq<u128>,
) -> Option<Setting>
    decreases ancestors.len(),
{
    if ancestors.len() == 0 {
        None
    } else {
        match visible(stored, (t, ancestors[0], obj)) {
            Some(s) => Some(s),
            None => nearest_holder(stored, t, obj, ancestors.drop_first()),
        }
    }
}

/// The text naming a setting key: type, hyphenated tenant, object, joined by `/`.
pub open spec fn key_text_of(t: Seq<char>, tenant: u128, obj: Seq<char>) -> Seq<char> {
    t + "/"@ + hyphenated_uuid(tenant) + "/"@ + obj
}

/// The error for a read of a setting absent at (t, tenant, obj).
pub open spec fn is_setting_not_found(e: SettingsError, t: Seq<char>, tenant: u128, obj: Seq<char>) -> bool {
    e matches SettingsError::NotFound { resource, id } && resource@ == "setting"@ && id@
        == key_text_of(t, tenant, obj)
}

/// Who a privileged write is attributed to: the user id, else the client id,
/// else `unknown`.
pub open spec fn caller_name(auth: AuthContext) -> Seq<char> {
    match auth.user_id {
        Some(u) => u@,
        None => match auth.client_id {
            Some(c) => c@,
            None => "unknown"@,
        },
    }
}

/// `rec` records a privileged write by `auth` at (t, tenant, obj), with what
/// it bypassed.
pub open spec fn is_override_record(
    rec: OverrideRecord,
    auth: AuthContext,
    t: Seq<char>,
    tenant: u128,
    obj: Seq<char>,
    bypassed_lock: bool,
    bypassed_overwrite: bool,
) -> bool {
    &&& rec.caller@ == caller_name(auth)
    &&& rec.setting_type@ == t
    &&& rec.tenant_id == tenant
    &&& rec.domain_object_id@ == obj
    &&& rec.bypassed_lock == bypassed_lock
    &&& rec.bypassed_overwrite == bypassed_overwrite
}

/// The type lets children inherit and sets no barrier.
pub open spec fn passes_inheritance(ty: GtsType) -> bool {
    ty.traits.options.is_value_inheritable && !ty.traits.options.is_barrier_inheritance
}

impl Service {
    /// The stores are well formed.
    pub closed spec fn wf(&self) -> bool {
        self.settings.wf() && self.types.wf() && self.locks.wf()
    }

    /// Every setting, soft-deleted ones included.
    pub closed spec fn stored(&self) -> Map<SettingKey, Setting> {
        self.settings@
    }

    /// The registered types, by identifier.
    pub closed spec fn registered(&self) -> Map<Seq<char>, GtsType> {
        self.types@
    }

    /// The lock table.
    pub closed spec fn lock_flags(&self) -> Map<SettingKey, bool> {
        self.locks@
    }

    /// The publish calls decided on and not yet taken.
    pub closed spec fn pending(&self) -> Seq<Publication> {
        self.outbox@
    }

    /// The privileged overrides recorded and not yet taken.
    pub closed spec fn override_log(&self) -> Seq<OverrideRecord> {
        self.overrides@
    }

    /// Nothing observable changed.
    pub open spec fn same_state(&self, other: &Service) -> bool {
        &&& other.stored() == self.stored()
        &&& other.registered() == self.registered()
        &&& other.lock_flags() == self.lock_flags()
        &&& other.pending() == self.pending()
        &&& other.override_log() == self.override_log()
    }

    /// A write of `data` at (t, tenant, obj) would be accepted from a caller
    /// with the given privilege.
    pub open spec fn write_permitted(
        &self,
        t: Seq<char>,
        tenant: u128,
        obj: Seq<char>,
        data: serde_json::Value,
        privileged: bool,
    ) -> bool {
        let ty = self.registered()[t];
        &&& self.registered().contains_key(t)
        &&& schema_admits(ty, data)
        &&& (privileged || (!lock_blocks(self.lock_flags(), (t, tenant, obj)) && !overwrite_blocks(
            self.stored(),
            ty,
            t,
            tenant,
            obj,
        )))
    }

    /// `after` is `before` with `row` written at (t, tenant, obj): the row
    /// carries the data, is visible, keeps the creation time of a visible
    /// predecessor, and the type's event targets got an upsert event.
    pub open spec fn upsert_applied(
        before: Service,
        after: Service,
        t: Seq<char>,
        tenant: u128,
        obj: Seq<char>,
        data: serde_json::Value,
        row: Setting,
    ) -> bool {
        let k = (t, tenant, obj);
        let prev = visible(before.stored(), k);
        let ty = before.registered()[t];
        &&& row.type_id@ == t
        &&& row.tenant_id == tenant
        &&& row.domain_object_id@ == obj
        &&& row.data == data
        &&& row.deleted_at is None
        &&& row.created_at == match prev {
            Some(p) => p.created_at,
            None => row.updated_at,
        }
        &&& after.stored() == before.stored().insert(k, row)
        &&& after.registered() == before.registered()
        &&& after.lock_flags() == before.lock_flags()
        &&& after.pending() == before.pending() + publications_for(
            upserted_event(row, prev is None, None, row.updated_at),
            ty.traits.events,
            tenant,
        )
    }

    /// The outcome of a write of `data` at (t, tenant, obj) by a caller with
    /// the given privilege: each refusal with its error and no change, else
    /// the write applied.
    pub open spec fn upsert_outcome(
        before: Service,
        after: Service,
        t: Seq<char>,
        tenant: u128,
        obj: Seq<char>,
        data: serde_json::Value,
        privileged: bool,
        r: Result<Setting, SettingsError>,
    ) -> bool {
        let k = (t, tenant, obj);
        let ty = before.registered()[t];
        &&& !before.registered().contains_key(t) ==> (r matches Err(
            SettingsError::TypeNotRegistered { gts_type },
        ) && gts_type@ == t && before.same_state(&after))
        &&& before.registered().contains_key(t) && ty.schema is Some && !schema_compiles(
            ty.schema->0,
        ) ==> (r matches Err(SettingsError::Validation { .. }) && before.same_state(&after))
        &&& before.registered().contains_key(t) && ty.schema is Some && schema_compiles(
            ty.schema->0,
        ) && !schema_accepts(ty.schema->0, data) ==> (r matches Err(
            SettingsError::SchemaValidation { .. },
        ) && before.same_state(&after))
        &&& before.registered().contains_key(t) && schema_admits(ty, data) && !privileged
            && lock_blocks(before.lock_flags(), k) ==> (r matches Err(
            SettingsError::Conflict { reason },
        ) && reason@ == "Setting is locked for compliance: "@ + key_text_of(t, tenant, obj)
            && before.same_state(&after))
        &&& before.registered().contains_key(t) && schema_admits(ty, data) && !privileged
            && !lock_blocks(before.lock_flags(), k) && overwrite_blocks(
            before.stored(),
            ty,
            t,
            tenant,
            obj,
        ) ==> (r matches Err(SettingsError::Conflict { reason }) && reason@
            == "Setting is not overwritable (is_value_overwritable=false): "@ + key_text_of(
            t,
            tenant,
            obj,
        ) && before.same_state(&after))
        &&& before.write_permitted(t, tenant, obj, data, privileged) ==> (r is Ok
            && Self::upsert_applied(before, after, t, tenant, obj, data, r->Ok_0))
    }

    /// `after` is `before` with the setting at (t, tenant, obj), if any,
    /// marked deleted at some instant, and a deletion event stamped at that
    /// instant sent to the type's event targets.
    pub open spec fn soft_delete_applied(
        before: Service,
        after: Service,
        t: Seq<char>,
        tenant: u128,
        obj: Seq<char>,
    ) -> bool {
        let k = (t, tenant, obj);
        &&& exists|at: i64, e: SettingEvent|
            {
                &&& describes_deletion(e, t, tenant, obj, at)
                &&& (if before.stored().contains_key(k) {
                    after.stored() == before.stored().insert(k, soft_deleted(before.stored()[k], at))
                } else {
                    after.stored() == before.stored()
                })
                &&& after.pending() == before.pending() + publications_for(
                    e,
                    before.registered()[t].traits.events,
                    tenant,
                )
            }
        &&& after.registered() == before.registered()
        &&& after.lock_flags() == before.lock_flags()
        &&& after.override_log() == before.override_log()
    }

    /// Each stored setting sits under its own key.
    pub proof fn lemma_rows_keyed(&self)
        requires
            self.wf(),
        ensures
            forall|k: SettingKey| #[trigger]
                self.stored().contains_key(k) ==> key_of(self.stored()[k]) == k,
    {
        self.settings.lemma_keys_match();
    }

    /// An engine with empty stores.
    pub fn new() -> (r: Self)
        ensures
            r.wf(),
            r.stored() == Map::<SettingKey, Setting>::empty(),
            r.registered() == Map::<Seq<char>, GtsType>::empty(),
            r.lock_flags() == Map::<SettingKey, bool>::empty(),
            r.pending() == Seq::<Publication>::empty(),
            r.override_log() == Seq::<OverrideRecord>::empty(),
    {
        Service {
            settings: SettingsRepository::new(),
            types: GtsTypeRepository::new(),
            locks: LockTable::new(),
            outbox: Vec::new(),
            overrides: Vec::new(),
        }
    }

    fn not_registered(setting_type: &str) -> (r: SettingsError)
        ensures
            r matches SettingsError::TypeNotRegistered { gts_type } && gts_type@ == setting_type@,
    {
        SettingsError::TypeNotRegistered { gts_type: String::from_str(setting_type) }
    }

    fn key_text(setting_type: &str, tenant_id: u128, domain_object_id: &str) -> (r: String)
        ensures
            r@ == key_text_of(setting_type@, tenant_id, domain_object_id@),
    {
        let mut s = String::from_str(setting_type);
        s.append("/");
        let tenant = uuid_to_text(tenant_id);
        s.append(tenant.as_str());
        s.append("/");
        s.append(domain_object_id);
        s
    }

    fn key_error(prefix: &str, setting_type: &str, tenant_id: u128, domain_object_id: &str) -> (r:
        SettingsError)
        ensures
            r matches SettingsError::Conflict { reason } && reason@ == prefix@ + key_text_of(
                setting_type@,
                tenant_id,
                domain_object_id@,
            ),
    {
        let mut reason = String::from_str(prefix);
        let key = Self::key_text(setting_type, tenant_id, domain_object_id);
        reason.append(key.as_str());
        SettingsError::Conflict { reason }
    }

    fn setting_not_found(setting_type: &str, tenant_id: u128, domain_object_id: &str) -> (r:
        SettingsError)
        ensures
            is_setting_not_found(r, setting_type@, tenant_id, domain_object_id@),
    {
        SettingsError::NotFound {
            resource: String::from_str("setting"),
            id: Self::key_text(setting_type, tenant_id, domain_object_id),
        }
    }

    // ===== Type registry =====

    /// Registers a type whose identifier passes the structural gate and is not
    /// yet registered.
    pub fn register_gts_type(&mut self, gts_type: GtsType) -> (r: Result<GtsType, SettingsError>)
        requires
            old(self).wf(),
        ensures
            final(self).wf(),
            !is_gts_shaped(gts_type.type_id@) ==> (r is Err && is_gts_format_error(
                r->Err_0,
                gts_type.type_id@,
            ) && old(self).same_state(final(self))),
            is_gts_shaped(gts_type.type_id@) && old(self).registered().contains_key(
                gts_type.type_id@,
            ) ==> (r matches Err(SettingsError::Conflict { reason }) && reason@
                == "GTS type already exists: "@ + gts_type.type_id@ && old(self).same_state(
                final(self),
            )),
            is_gts_shaped(gts_type.type_id@) && !old(self).registered().contains_key(
                gts_type.type_id@,
            ) ==> {
                &&& r == Ok::<GtsType, SettingsError>(gts_type)
                &&& final(self).registered() == old(self).registered().insert(
                    gts_type.type_id@,
                    gts_type,
                )
                &&& final(self).registered().len() == old(self).registered().len() + 1
                &&& final(self).stored() == old(self).stored()
                &&& final(self).lock_flags() == old(self).lock_flags()
                &&& final(self).pending() == old(self).pending()
                &&& final(self).override_log() == old(self).override_log()
            },
    {
        if let Err(e) = validate_gts_format(gts_type.type_id.as_str()) {
            return Err(e);
        }
        if self.types.contains_type(gts_type.type_id.as_str()) {
            let mut reason = String::from_str("GTS type already exists: ");
            reason.append(gts_type.type_id.as_str());
            return Err(SettingsError::Conflict { reason });
        }
        proof {
            self.types.lemma_finite();
        }
        Ok(self.types.create(gts_type))
    }

    /// The type registered under the identifier.
    pub fn get_gts_type(&self, type_id: &str) -> (r: Result<GtsType, SettingsError>)
        requires
            self.wf(),
        ensures
            self.registered().contains_key(type_id@) ==> r == Ok::<GtsType, SettingsError>(
                self.registered()[type_id@],
            ),
            !self.registered().contains_key(type_id@) ==> (r matches Err(
                SettingsError::TypeNotRegistered { gts_type },
            ) && gts_type@ == type_id@),
    {
        match self.types.find_by_type(type_id) {
            Some(t) => Ok(t),
            None => Err(Self::not_registered(type_id)),
        }
    }

    /// Every registered type, each once.
    pub fn list_gts_types(&self) -> (r: Result<Vec<GtsType>, SettingsError>)
        requires
            self.wf(),
        ensures
            r is Ok,
            forall|i: int|
                0 <= i < r->Ok_0@.len() ==> self.registered().contains_key(
                    #[trigger] r->Ok_0@[i].type_id@,
                ) && self.registered()[r->Ok_0@[i].type_id@] == r->Ok_0@[i],
            forall|k: Seq<char>| #[trigger]
                self.registered().contains_key(k) ==> exists|i: int|
                    0 <= i < r->Ok_0@.len() && r->Ok_0@[i] == self.registered()[k],
            forall|i: int, j: int|
                0 <= i < r->Ok_0@.len() && 0 <= j < r->Ok_0@.len() && i != j ==> (
                #[trigger] r->Ok_0@[i]).type_id@ != (#[trigger] r->Ok_0@[j]).type_id@,
            r->Ok_0@.len() == self.registered().len(),
    {
        let all = self.types.list_all();
        proof {
            assert forall|i: int, j: int|
                0 <= i < all@.len() && 0 <= j < all@.len() && i != j implies (
                #[trigger] all@[i]).type_id@ != (#[trigger] all@[j]).type_id@ by {
                assert(all@[i].key() != all@[j].key());
            }
        }
        Ok(all)
    }

    /// Replaces a registered type's definition.
    pub fn update_gts_type(&mut self, gts_type: GtsType) -> (r: Result<GtsType, SettingsError>)
        requires
            old(self).wf(),
        ensures
            final(self).wf(),
            !is_gts_shaped(gts_type.type_id@) ==> (r is Err && is_gts_format_error(
                r->Err_0,
                gts_type.type_id@,
            ) && old(self).same_state(final(self))),
            is_gts_shaped(gts_type.type_id@) && !old(self).registered().contains_key(
                gts_type.type_id@,
            ) ==> (r matches Err(SettingsError::TypeNotRegistered { gts_type: g }) && g@
                == gts_type.type_id@ && old(self).same_state(final(self))),
            is_gts_shaped(gts_type.type_id@) && old(self).registered().contains_key(
                gts_type.type_id@,
            ) ==> {
                &&& r == Ok::<GtsType, SettingsError>(gts_type)
                &&& final(self).registered() == old(self).registered().insert(
                    gts_type.type_id@,
                    gts_type,
                )
                &&& final(self).stored() == old(self).stored()
                &&& final(self).lock_flags() == old(self).lock_flags()
                &&& final(self).pending() == old(self).pending()
                &&& final(self).override_log() == old(self).override_log()
            },
    {
        if let Err(e) = validate_gts_format(gts_type.type_id.as_str()) {
            return Err(e);
        }
        if !self.types.contains_type(gts_type.type_id.as_str()) {
            return Err(Self::not_registered(gts_type.type_id.as_str()));
        }
        Ok(self.types.update(gts_type))
    }

    /// Removes a registered type. Its settings stay where they are.
    pub fn delete_gts_type(&mut self, type_id: &str) -> (r: Result<(), SettingsError>)
        requires
            old(self).wf(),
        ensures
            final(self).wf(),
            !old(self).registered().contains_key(type_id@) ==> (r matches Err(
                SettingsError::TypeNotRegistered { gts_type },
            ) && gts_type@ == type_id@ && old(self).same_state(final(self))),
            old(self).registered().contains_key(type_id@) ==> {
                &&& r is Ok
                &&& final(self).registered() == old(self).registered().remove(type_id@)
                &&& final(self).stored() == old(self).stored()
                &&& final(self).lock_flags() == old(self).lock_flags()
                &&& final(self).pending() == old(self).pending()
                &&& final(self).override_log() == old(self).override_log()
            },
    {
        if !self.types.contains_type(type_id) {
            return Err(Self::not_registered(type_id));
        }
        self.types.delete(type_id);
        Ok(())
    }

    // ===== Settings =====

    /// The visible settings of a registered type, of one tenant when
    /// `tenant_id` is given.
    pub fn get_settings_by_type(&self, setting_type: &str, tenant_id: Option<u128>) -> (r: Result<
        Vec<Setting>,
        SettingsError,
    >)
        requires
            self.wf(),
        ensures
            !self.registered().contains_key(setting_type@) ==> (r matches Err(
                SettingsError::TypeNotRegistered { gts_type },
            ) && gts_type@ == setting_type@),
            self.registered().contains_key(setting_type@) ==> r is Ok,
            r is Ok ==> forall|i: int|
                0 <= i < r->Ok_0@.len() ==> {
                    let s = #[trigger] r->Ok_0@[i];
                    &&& visible(self.stored(), (s.type_id@, s.tenant_id, s.domain_object_id@))
                        == Some(s)
                    &&& s.type_id@ == setting_type@
                    &&& (tenant_id matches Some(t) ==> s.tenant_id == t)
                },
            r is Ok ==> forall|k: SettingKey|
                #[trigger] visible(self.stored(), k) is Some && k.0 == setting_type@ && (
                tenant_id matches Some(t) ==> k.1 == t) ==> exists|i: int|
                    0 <= i < r->Ok_0@.len() && r->Ok_0@[i] == self.stored()[k],
    {
        if !self.types.contains_type(setting_type) {
            return Err(Self::not_registered(setting_type));
        }
        Ok(self.settings.find_by_type(setting_type, tenant_id))
    }

    /// The visible setting at the exact key of a registered type.
    pub fn get_setting(&self, setting_type: &str, tenant_id: u128, domain_object_id: &str) -> (r:
        Result<Setting, SettingsError>)
        requires
            self.wf(),
        ensures
            !self.registered().contains_key(setting_type@) ==> (r matches Err(
                SettingsError::TypeNotRegistered { gts_type },
            ) && gts_type@ == setting_type@),
            self.registered().contains_key(setting_type@) ==> {
                let found = visible(self.stored(), (setting_type@, tenant_id, domain_object_id@));
                &&& (r is Ok <==> found is Some)
                &&& (r is Ok ==> r->Ok_0 == found->0)
                &&& (r is Ok ==> r->Ok_0.type_id@ == setting_type@ && r->Ok_0.tenant_id == tenant_id
                    && r->Ok_0.domain_object_id@ == domain_object_id@)
                &&& (r is Err ==> is_setting_not_found(
                    r->Err_0,
                    setting_type@,
                    tenant_id,
                    domain_object_id@,
                ))
            },
    {
        if !self.types.contains_type(setting_type) {
            return Err(Self::not_registered(setting_type));
        }
        proof {
            self.settings.lemma_keys_match();
        }
        match self.settings.find_by_key(setting_type, tenant_id, domain_object_id) {
            Some(s) => Ok(s),
            None => Err(Self::setting_not_found(setting_type, tenant_id, domain_object_id)),
        }
    }

    fn held_elsewhere(&self, setting_type: &str, tenant_id: u128, domain_object_id: &str) -> (r:
        bool)
        requires
            self.wf(),
        ensures
            r == held_by_other_tenant(
                self.stored(),
                setting_type@,
                tenant_id,
                domain_object_id@,
            ),
    {
        let existing = self.settings.find_by_type(setting_type, None);
        let ghost stored = self.stored();
        let mut i: usize = 0;
        while i < existing.len()
            invariant
                stored == self.stored(),
                forall|j: int|
                    0 <= j < existing@.len() ==> {
                        let s = #[trigger] existing@[j];
                        &&& visible(stored, (s.type_id@, s.tenant_id, s.domain_object_id@)) == Some(s)
                        &&& s.type_id@ == setting_type@
                    },
                forall|k: SettingKey|
                    #[trigger] visible(stored, k) is Some && k.0 == setting_type@ ==> exists|j: int|
                        0 <= j < existing@.len() && existing@[j] == stored[k],
                i <= existing@.len(),
                forall|j: int|
                    0 <= j < i ==> !(#[trigger] existing@[j].tenant_id != tenant_id
                        && existing@[j].domain_object_id@ == domain_object_id@),
            decreases existing.len() - i,
        {
            let s = &existing[i];
            if s.tenant_id != tenant_id && crate::validation::same_text(
                s.domain_object_id.as_str(),
                domain_object_id,
            ) {
                let ghost k = (s.type_id@, s.tenant_id, s.domain_object_id@);
                assert(existing@[i as int] == *s);
                assert(visible(stored, k) is Some);
                return true;
            }
            i = i + 1;
        }
        proof {
            self.settings.lemma_keys_match();
            assert forall|k: SettingKey|
                #[trigger] visible(self.stored(), k) is Some && k.0 == setting_type@ && k.1
                    != tenant_id implies k.2 != domain_object_id@ by {
                let j = choose|j: int| 0 <= j < existing@.len() && existing@[j] == self.stored()[k];
                assert(visible(self.stored(), k) == Some(existing@[j]));
            }
        }
        false
    }

    /// Creates or updates a setting of a registered type, as a caller with
    /// the given context. The value must satisfy the type's schema, privileged
    /// or not. A non-privileged caller is refused with `Conflict` where a
    /// read-only lock stands at the key, and where the type is not
    /// overwritable and another tenant holds a value for the same object.
    pub fn upsert_setting_with_auth(
        &mut self,
        setting_type: &str,
        tenant_id: u128,
        domain_object_id: &str,
        data: serde_json::Value,
        auth_context: &AuthContext,
    ) -> (r: Result<Setting, SettingsError>)
        requires
            old(self).wf(),
        ensures
            final(self).wf(),
            Self::upsert_outcome(
                *old(self),
                *final(self),
                setting_type@,
                tenant_id,
                domain_object_id@,
                data,
                auth_context.is_root_admin,
                r,
            ),
            r is Ok && auth_context.is_root_admin ==> {
                &&& final(self).override_log().len() == old(self).override_log().len() + 1
                &&& final(self).override_log().drop_last() == old(self).override_log()
                &&& is_override_record(
                    final(self).override_log().last(),
                    *auth_context,
                    setting_type@,
                    tenant_id,
                    domain_object_id@,
                    lock_blocks(old(self).lock_flags(), (setting_type@, tenant_id, domain_object_id@)),
                    overwrite_blocks(
                        old(self).stored(),
                        old(self).registered()[setting_type@],
                        setting_type@,
                        tenant_id,
                        domain_object_id@,
                    ),
                )
            },
            r is Ok && !auth_context.is_root_admin ==> final(self).override_log()
                == old(self).override_log(),
    {
        let gts_type = match self.types.find_by_type(setting_type) {
            Some(t) => t,
            None => {
                return Err(Self::not_registered(setting_type));
            },
        };
        if let Some(schema) = &gts_type.schema {
            if let Err(e) = validate_against_schema(&data, schema) {
                return Err(e);
            }
        }
        let locked = self.locks.get(setting_type, tenant_id, domain_object_id);
        if !auth_context.is_root_admin && locked {
            return Err(
                Self::key_error(
                    "Setting is locked for compliance: ",
                    setting_type,
                    tenant_id,
                    domain_object_id,
                ),
            );
        }
        let overwrite_refused = if !gts_type.traits.options.is_value_overwritable {
            self.held_elsewhere(setting_type, tenant_id, domain_object_id)
        } else {
            false
        };
        if !auth_context.is_root_admin && overwrite_refused {
            return Err(
                Self::key_error(
                    "Setting is not overwritable (is_value_overwritable=false): ",
                    setting_type,
                    tenant_id,
                    domain_object_id,
                ),
            );
        }
        let now = now_millis();
        let is_new = self.settings.find_by_key(setting_type, tenant_id, domain_object_id).is_none();
        let setting = Setting {
            type_id: String::from_str(setting_type),
            tenant_id,
            domain_object_id: String::from_str(domain_object_id),
            data,
            created_at: now,
            updated_at: now,
            deleted_at: None,
        };
        let result = self.settings.upsert(setting);
        let event = SettingEvent::upserted(&result, is_new, None, now);
        route_event(&event, gts_type.traits.events, tenant_id, &mut self.outbox);
        if auth_context.is_root_admin {
            let caller = match &auth_context.user_id {
                Some(u) => u.clone(),
                None => match &auth_context.client_id {
                    Some(c) => c.clone(),
                    None => String::from_str("unknown"),
                },
            };
            self.overrides.push(
                OverrideRecord {
                    caller,
                    setting_type: String::from_str(setting_type),
                    tenant_id,
                    domain_object_id: String::from_str(domain_object_id),
                    bypassed_lock: locked,
                    bypassed_overwrite: overwrite_refused,
                },
            );
        }
        Ok(result)
    }

    /// Creates or updates a setting as a non-privileged caller.
    pub fn upsert_setting(
        &mut self,
        setting_type: &str,
        tenant_id: u128,
        domain_object_id: &str,
        data: serde_json::Value,
    ) -> (r: Result<Setting, SettingsError>)
        requires
            old(self).wf(),
        ensures
            final(self).wf(),
            Self::upsert_outcome(
                *old(self),
                *final(self),
                setting_type@,
                tenant_id,
                domain_object_id@,
                data,
                false,
                r,
            ),
            final(self).override_log() == old(self).override_log(),
    {
        let auth = AuthContext::non_admin();
        self.upsert_setting_with_auth(setting_type, tenant_id, domain_object_id, data, &auth)
    }

    /// Soft-deletes the setting at the key, as a caller with the given
    /// context: a non-privileged caller is refused with `Conflict` where a
    /// read-only lock stands. Deleting where nothing is stored succeeds and
    /// changes no setting.
    pub fn delete_setting_with_auth(
        &mut self,
        setting_type: &str,
        tenant_id: u128,
        domain_object_id: &str,
        auth_context: &AuthContext,
    ) -> (r: Result<(), SettingsError>)
        requires
            old(self).wf(),
        ensures
            final(self).wf(),
            !old(self).registered().contains_key(setting_type@) ==> (r matches Err(
                SettingsError::TypeNotRegistered { gts_type },
            ) && gts_type@ == setting_type@ && old(self).same_state(final(self))),
            old(self).registered().contains_key(setting_type@) && !auth_context.is_root_admin
                && lock_blocks(old(self).lock_flags(), (setting_type@, tenant_id, domain_object_id@))
                ==> (r matches Err(SettingsError::Conflict { .. }) && old(self).same_state(
                final(self),
            )),
            old(self).registered().contains_key(setting_type@) && (auth_context.is_root_admin
                || !lock_blocks(
                old(self).lock_flags(),
                (setting_type@, tenant_id, domain_object_id@),
            )) ==> (r is Ok && Self::soft_delete_applied(
                *old(self),
                *final(self),
                setting_type@,
                tenant_id,
                domain_object_id@,
            )),
    {
        let gts_type = match self.types.find_by_type(setting_type) {
            Some(t) => t,
            None => {
                return Err(Self::not_registered(setting_type));
            },
        };
        if !auth_context.is_root_admin && self.locks.get(setting_type, tenant_id, domain_object_id) {
            return Err(
                Self::key_error(
                    "Setting is locked for compliance: ",
                    setting_type,
                    tenant_id,
                    domain_object_id,
                ),
            );
        }
        let now = now_millis();
        self.settings.soft_delete(setting_type, tenant_id, domain_object_id, now);
        let event = SettingEvent::deleted(
            String::from_str(setting_type),
            tenant_id,
            String::from_str(domain_object_id),
            None,
            now,
        );
        assert(describes_deletion(event, setting_type@, tenant_id, domain_object_id@, now));
        route_event(&event, gts_type.traits.events, tenant_id, &mut self.outbox);
        Ok(())
    }

    /// Soft-deletes the setting at the key as a non-privileged caller.
    pub fn delete_setting(&mut self, setting_type: &str, tenant_id: u128, domain_object_id: &str) -> (r:
        Result<(), SettingsError>)
        requires
            old(self).wf(),
        ensures
            final(self).wf(),
            !old(self).registered().contains_key(setting_type@) ==> (r matches Err(
                SettingsError::TypeNotRegistered { gts_type },
            ) && gts_type@ == setting_type@ && old(self).same_state(final(self))),
            old(self).registered().contains_key(setting_type@) && lock_blocks(
                old(self).lock_flags(),
                (setting_type@, tenant_id, domain_object_id@),
            ) ==> (r matches Err(SettingsError::Conflict { .. }) && old(self).same_state(
                final(self),
            )),
            old(self).registered().contains_key(setting_type@) && !lock_blocks(
                old(self).lock_flags(),
                (setting_type@, tenant_id, domain_object_id@),
            ) ==> (r is Ok && Self::soft_delete_applied(
                *old(self),
                *final(self),
                setting_type@,
                tenant_id,
                domain_object_id@,
            )),
    {
        let auth = AuthContext::non_admin();
        self.delete_setting_with_auth(setting_type, tenant_id, domain_object_id, &auth)
    }

    /// Sets the read-only flag of an existing, visible setting.
    pub fn lock_setting(
        &mut self,
        setting_type: &str,
        tenant_id: u128,
        domain_object_id: &str,
        read_only: bool,
    ) -> (r: Result<(), SettingsError>)
        requires
            old(self).wf(),
        ensures
            final(self).wf(),
            !old(self).registered().contains_key(setting_type@) ==> (r matches Err(
                SettingsError::TypeNotRegistered { gts_type },
            ) && gts_type@ == setting_type@ && old(self).same_state(final(self))),
            old(self).registered().contains_key(setting_type@) && visible(
                old(self).stored(),
                (setting_type@, tenant_id, domain_object_id@),
            ) is None ==> (r is Err && is_setting_not_found(
                r->Err_0,
                setting_type@,
                tenant_id,
                domain_object_id@,
            ) && old(self).same_state(final(self))),
            old(self).registered().contains_key(setting_type@) && visible(
                old(self).stored(),
                (setting_type@, tenant_id, domain_object_id@),
            ) is Some ==> {
                &&& r is Ok
                &&& final(self).lock_flags() == old(self).lock_flags().insert(
                    (setting_type@, tenant_id, domain_object_id@),
                    read_only,
                )
                &&& final(self).stored() == old(self).stored()
                &&& final(self).registered() == old(self).registered()
                &&& final(self).override_log() == old(self).override_log()
                &&& exists|at: i64, e: SettingEvent|
                    describes_lock(e, setting_type@, tenant_id, domain_object_id@, read_only, at)
                        && final(self).pending() == old(self).pending() + publications_for(
                        e,
                        old(self).registered()[setting_type@].traits.events,
                        tenant_id,
                    )
            },
    {
        let gts_type = match self.types.find_by_type(setting_type) {
            Some(t) => t,
            None => {
                return Err(Self::not_registered(setting_type));
            },
        };
        if self.settings.find_by_key(setting_type, tenant_id, domain_object_id).is_none() {
            return Err(Self::setting_not_found(setting_type, tenant_id, domain_object_id));
        }
        self.locks.set(setting_type, tenant_id, domain_object_id, read_only);
        let now = now_millis();
        let event = SettingEvent::locked(
            String::from_str(setting_type),
            tenant_id,
            String::from_str(domain_object_id),
            read_only,
            None,
            now,
        );
        assert(describes_lock(event, setting_type@, tenant_id, domain_object_id@, read_only, now));
        route_event(&event, gts_type.traits.events, tenant_id, &mut self.outbox);
        Ok(())
    }

    /// Whether a read-only lock stands at the key.
    pub fn is_locked(&self, setting_type: &str, tenant_id: u128, domain_object_id: &str) -> (r:
        bool)
        requires
            self.wf(),
        ensures
            r == lock_blocks(self.lock_flags(), (setting_type@, tenant_id, domain_object_id@)),
    {
        self.locks.get(setting_type, tenant_id, domain_object_id)
    }

    /// Removes the lock at the key.
    pub fn unlock_setting(&mut self, setting_type: &str, tenant_id: u128, domain_object_id: &str)
        requires
            old(self).wf(),
        ensures
            final(self).wf(),
            final(self).lock_flags() == old(self).lock_flags().remove(
                (setting_type@, tenant_id, domain_object_id@),
            ),
            final(self).stored() == old(self).stored(),
            final(self).registered() == old(self).registered(),
            final(self).pending() == old(self).pending(),
            final(self).override_log() == old(self).override_log(),
    {
        self.locks.clear(setting_type, tenant_id, domain_object_id);
    }

    /// What a read of (t, tenant, obj) resolves to, given the tenant's
    /// ancestors from the parent up to the root: the tenant's own setting, else
    /// the nearest ancestor's when the type lets it through.
    pub open spec fn inherited_along(
        &self,
        t: Seq<char>,
        tenant: u128,
        obj: Seq<char>,
        ancestors: Seq<u128>,
    ) -> Option<Setting> {
        match visible(self.stored(), (t, tenant, obj)) {
            Some(s) => Some(s),
            None => if passes_inheritance(self.registered()[t]) {
                nearest_holder(self.stored(), t, obj, ancestors)
            } else {
                None
            },
        }
    }

    /// Resolves a read along the given ancestors, parent first and root last:
    /// the tenant's own setting wins; else, for an inheritable type, the first
    /// ancestor holding a setting gives it, unless the type sets a barrier.
    pub fn resolve_inherited_setting_along(
        &self,
        setting_type: &str,
        tenant_id: u128,
        domain_object_id: &str,
        ancestors: &Vec<u128>,
    ) -> (r: Result<Setting, SettingsError>)
        requires
            self.wf(),
        ensures
            !self.registered().contains_key(setting_type@) ==> (r matches Err(
                SettingsError::TypeNotRegistered { gts_type },
            ) && gts_type@ == setting_type@),
            self.registered().contains_key(setting_type@) ==> {
                let found = self.inherited_along(
                    setting_type@,
                    tenant_id,
                    domain_object_id@,
                    ancestors@,
                );
                &&& (r is Ok <==> found is Some)
                &&& (r is Ok ==> r->Ok_0 == found->0)
                &&& (r is Err ==> r->Err_0 is NotFound)
            },
    {
        let gts_type = match self.types.find_by_type(setting_type) {
            Some(t) => t,
            None => {
                return Err(Self::not_registered(setting_type));
            },
        };
        if let Some(s) = self.settings.find_by_key(setting_type, tenant_id, domain_object_id) {
            return Ok(s);
        }
        if !gts_type.traits.options.is_value_inheritable {
            return Err(Self::setting_not_found(setting_type, tenant_id, domain_object_id));
        }
        let ghost stored = self.stored();
        assert(ancestors@.skip(0) =~= ancestors@);
        let mut i: usize = 0;
        while i < ancestors.len()
            invariant
                self.wf(),
                stored == self.stored(),
                self.registered().contains_key(setting_type@),
                gts_type == self.registered()[setting_type@],
                gts_type.traits.options.is_value_inheritable,
                visible(stored, (setting_type@, tenant_id, domain_object_id@)) is None,
                i <= ancestors@.len(),
                nearest_holder(stored, setting_type@, domain_object_id@, ancestors@)
                    == nearest_holder(
                    stored,
                    setting_type@,
                    domain_object_id@,
                    ancestors@.skip(i as int),
                ),
            decreases ancestors.len() - i,
        {
            let ghost rest = ancestors@.skip(i as int);
            assert(rest[0] == ancestors@[i as int]);
            assert(rest.drop_first() =~= ancestors@.skip(i + 1));
            if let Some(s) = self.settings.find_by_key(setting_type, ancestors[i], domain_object_id) {
                if gts_type.traits.options.is_barrier_inheritance {
                    return Err(Self::setting_not_found(setting_type, tenant_id, domain_object_id));
                }
                return Ok(s);
            }
            i = i + 1;
        }
        assert(ancestors@.skip(i as int).len() == 0);
        Err(Self::setting_not_found(setting_type, tenant_id, domain_object_id))
    }

    /// Resolves a read through the tenant hierarchy: the tenant's own setting
    /// wins; else, for an inheritable type, the tenant's path to the root is
    /// walked from the parent up. An unknown tenant is `NotFound`; a cycle or
    /// a chain deeper than allowed is `Internal`.
    pub fn resolve_inherited_setting(
        &self,
        hierarchy: &MockTenantHierarchyClient,
        setting_type: &str,
        tenant_id: u128,
        domain_object_id: &str,
    ) -> (r: Result<Setting, SettingsError>)
        requires
            self.wf(),
        ensures
            !self.registered().contains_key(setting_type@) ==> (r matches Err(
                SettingsError::TypeNotRegistered { gts_type },
            ) && gts_type@ == setting_type@),
            self.registered().contains_key(setting_type@) && visible(
                self.stored(),
                (setting_type@, tenant_id, domain_object_id@),
            ) is Some ==> r == Ok::<Setting, SettingsError>(
                visible(self.stored(), (setting_type@, tenant_id, domain_object_id@))->0,
            ),
            self.registered().contains_key(setting_type@) && visible(
                self.stored(),
                (setting_type@, tenant_id, domain_object_id@),
            ) is None && !self.registered()[setting_type@].traits.options.is_value_inheritable
                ==> (r matches Err(SettingsError::NotFound { .. })),
            self.registered().contains_key(setting_type@) && visible(
                self.stored(),
                (setting_type@, tenant_id, domain_object_id@),
            ) is None && self.registered()[setting_type@].traits.options.is_value_inheritable ==> {
                &&& !hierarchy@.contains_key(tenant_id) ==> (r matches Err(
                    SettingsError::NotFound { .. },
                ))
                &&& hierarchy@.contains_key(tenant_id) && !has_root_path(hierarchy@, tenant_id)
                    ==> (r matches Err(SettingsError::Internal))
                &&& forall|p: Seq<u128>|
                    #[trigger] is_root_path(hierarchy@, tenant_id, p) ==> {
                        let found = self.inherited_along(
                            setting_type@,
                            tenant_id,
                            domain_object_id@,
                            p.drop_first(),
                        );
                        &&& (r is Ok <==> found is Some)
                        &&& (r is Ok ==> r->Ok_0 == found->0)
                        &&& (r is Err ==> r->Err_0 is NotFound)
                    }
            },
    {
        let gts_type = match self.types.find_by_type(setting_type) {
            Some(t) => t,
            None => {
                return Err(Self::not_registered(setting_type));
            },
        };
        if let Some(s) = self.settings.find_by_key(setting_type, tenant_id, domain_object_id) {
            return Ok(s);
        }
        if !gts_type.traits.options.is_value_inheritable {
            return Err(Self::setting_not_found(setting_type, tenant_id, domain_object_id));
        }
        let found_path = hierarchy.get_tenant_path(tenant_id);
        let path = match found_path {
            Ok(p) => p,
            Err(HierarchyError::TenantNotFound(_)) => {
                let mut id = String::from_str("tenant ");
                let text = uuid_to_text(tenant_id);
                id.append(text.as_str());
                return Err(SettingsError::NotFound { resource: String::from_str("tenant"), id });
            },
            Err(_) => {
                assert(hierarchy@.contains_key(tenant_id));
                return Err(SettingsError::Internal);
            },
        };
        let mut ancestors: Vec<u128> = Vec::new();
        let mut i: usize = 1;
        while i < path.len()
            invariant
                1 <= i <= path@.len(),
                ancestors@ == path@.subrange(1, i as int),
            decreases path.len() - i,
        {
            ancestors.push(path[i]);
            assert(ancestors@ =~= path@.subrange(1, i + 1));
            i = i + 1;
        }
        assert(ancestors@ =~= path@.drop_first());
        proof {
            assert forall|p: Seq<u128>| #[trigger] is_root_path(hierarchy@, tenant_id, p) implies p
                == path@ by {
                lemma_root_path_unique(hierarchy@, tenant_id, p, path@);
            }
        }
        self.resolve_inherited_setting_along(setting_type, tenant_id, domain_object_id, &ancestors)
    }

    // ===== Retention =====

    /// Removes for good every soft-deleted setting whose type's retention
    /// period has run out by `now`; returns how many went.
    pub fn enforce_retention_at(&mut self, now: i64) -> (r: usize)
        requires
            old(self).wf(),
        ensures
            final(self).wf(),
            final(self).stored() == swept(old(self).stored(), old(self).registered(), now),
            r == old(self).stored().len() - final(self).stored().len(),
            r == 0 <==> forall|k: SettingKey| #[trigger]
                old(self).stored().contains_key(k) ==> !crate::store::expired(
                    old(self).stored()[k],
                    old(self).registered(),
                    now,
                ),
            final(self).registered() == old(self).registered(),
            final(self).lock_flags() == old(self).lock_flags(),
            final(self).pending() == old(self).pending(),
            final(self).override_log() == old(self).override_log(),
    {
        let ghost before = self.stored();
        let ghost reg = self.registered();
        let r = self.settings.purge_expired(&self.types, now);
        assert(r == 0 <==> forall|k: SettingKey| #[trigger]
            before.contains_key(k) ==> !crate::store::expired(before[k], reg, now));
        r
    }

    /// The retention sweep at the current instant.
    pub fn enforce_retention(&mut self) -> (r: Result<usize, SettingsError>)
        requires
            old(self).wf(),
        ensures
            final(self).wf(),
            r is Ok,
            r->Ok_0 == old(self).stored().len() - final(self).stored().len(),
            exists|now: i64|
                final(self).stored() == swept(old(self).stored(), old(self).registered(), now),
            final(self).registered() == old(self).registered(),
            final(self).lock_flags() == old(self).lock_flags(),
            final(self).pending() == old(self).pending(),
            final(self).override_log() == old(self).override_log(),
    {
        let now = now_millis();
        Ok(self.enforce_retention_at(now))
    }

    // ===== Events and audit =====

    /// Takes the publish calls decided on so far, leaving none.
    pub fn take_publications(&mut self) -> (r: Vec<Publication>)
        ensures
            r@ == old(self).pending(),
            final(self).pending() == Seq::<Publication>::empty(),
            final(self).stored() == old(self).stored(),
            final(self).registered() == old(self).registered(),
            final(self).lock_flags() == old(self).lock_flags(),
            final(self).override_log() == old(self).override_log(),
            final(self).wf() == old(self).wf(),
    {
        let mut out: Vec<Publication> = Vec::new();
        std::mem::swap(&mut out, &mut self.outbox);
        out
    }

    /// Takes the privileged overrides recorded so far, leaving none.
    pub fn take_override_log(&mut self) -> (r: Vec<OverrideRecord>)
        ensures
            r@ == old(self).override_log(),
            final(self).override_log() == Seq::<OverrideRecord>::empty(),
            final(self).stored() == old(self).stored(),
            final(self).registered() == old(self).registered(),
            final(self).lock_flags() == old(self).lock_flags(),
            final(self).pending() == old(self).pending(),
            final(self).wf() == old(self).wf(),
    {
        let mut out: Vec<OverrideRecord> = Vec::new();
        std::mem::swap(&mut out, &mut self.overrides);
        out
    }
}

} // verus!
