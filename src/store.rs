//! In-memory stores the engine works against: settings, type definitions,
//! and the lock table. Each keeps its rows in a vector with unique keys.
use vstd::prelude::*;
use vstd::string::*;
use crate::model::{is_live, key_of, GtsType, Setting, SettingKey};
use crate::table::{
    lemma_table_index, lemma_table_keys, lemma_table_len, lemma_table_push, lemma_table_remove, lemma_table_update, table_map,
    unique_keys, Keyed,
};
use crate::validation::same_text;

verus! {

impl Keyed<SettingKey> for Setting {
    open spec fn key(&self) -> SettingKey {
        key_of(*self)
    }
}

impl Keyed<Seq<char>> for GtsType {
    open spec fn key(&self) -> Seq<char> {
        self.type_id@
    }
}

/// The setting at `k`, unless it is absent or soft-deleted.
pub open spec fn visible(m: Map<SettingKey, Setting>, k: SettingKey) -> Option<Setting> {
    if m.contains_key(k) && is_live(m[k]) {
        Some(m[k])
    } else {
        None
    }
}

/// The setting, marked as soft-deleted at `at`.
pub open spec fn soft_deleted(s: Setting, at: i64) -> Setting {
    Setting { deleted_at: Some(at), ..s }
}

/// Every setting, soft-deleted ones included, keyed by (type, tenant, object).
pub struct SettingsRepository {
    pub(crate) rows: Vec<Setting>,
}

impl View for SettingsRepository {
    type V = Map<SettingKey, Setting>;

    closed spec fn view(&self) -> Map<SettingKey, Setting> {
        table_map(self.rows@)
    }
}

impl SettingsRepository {
    /// The rows have unique keys.
    pub closed spec fn wf(&self) -> bool {
        unique_keys(self.rows@)
    }

    /// Each setting is stored under its own key.
    pub proof fn lemma_keys_match(&self)
        ensures
            forall|k: SettingKey| #[trigger] self@.contains_key(k) ==> key_of(self@[k]) == k,
    {
        lemma_table_keys(self.rows@);
    }

    /// An empty store.
    pub fn new() -> (r: Self)
        ensures
            r.wf(),
            r@ == Map::<SettingKey, Setting>::empty(),
    {
        let r = SettingsRepository { rows: Vec::new() };
        assert(r@ =~= Map::<SettingKey, Setting>::empty());
        r
    }

    fn find_index(&self, setting_type: &str, tenant_id: u128, domain_object_id: &str) -> (r:
        Option<usize>)
        requires
            self.wf(),
        ensures
            r is None ==> !self@.contains_key((setting_type@, tenant_id, domain_object_id@)),
            r is Some ==> r->0 < self.rows@.len() && self.rows@[r->0 as int].key() == (
                setting_type@,
                tenant_id,
                domain_object_id@,
            ),
    {
        let mut i: usize = 0;
        while i < self.rows.len()
            invariant
                i <= self.rows@.len(),
                forall|j: int|
                    0 <= j < i ==> #[trigger] self.rows@[j].key() != (
                        setting_type@,
                        tenant_id,
                        domain_object_id@,
                    ),
            decreases self.rows.len() - i,
        {
            let row = &self.rows[i];
            if same_text(row.type_id.as_str(), setting_type) && row.tenant_id == tenant_id
                && same_text(row.domain_object_id.as_str(), domain_object_id) {
                return Some(i);
            }
            i = i + 1;
        }
        None
    }

    /// Creates or replaces the setting at its key. The creation time of a
    /// visible setting already there is kept.
    pub fn upsert(&mut self, setting: Setting) -> (r: Setting)
        requires
            old(self).wf(),
        ensures
            final(self).wf(),
            final(self)@ == old(self)@.insert(key_of(setting), r),
            r == (Setting {
                created_at: match visible(old(self)@, key_of(setting)) {
                    Some(prev) => prev.created_at,
                    None => setting.created_at,
                },
                ..setting
            }),
    {
        let found = self.find_index(setting.type_id.as_str(), setting.tenant_id, setting.domain_object_id.as_str());
        match found {
            Some(i) => {
                proof {
                    lemma_table_index(self.rows@, i as int);
                }
                let mut row = setting;
                if self.rows[i].deleted_at.is_none() {
                    row.created_at = self.rows[i].created_at;
                }
                let copy = row.duplicate();
                proof {
                    lemma_table_update(self.rows@, i as int, row);
                }
                self.rows.set(i, row);
                copy
            },
            None => {
                let copy = setting.duplicate();
                proof {
                    lemma_table_push(self.rows@, setting);
                }
                self.rows.push(setting);
                copy
            },
        }
    }

    /// The visible setting at the key.
    pub fn find_by_key(&self, setting_type: &str, tenant_id: u128, domain_object_id: &str) -> (r:
        Option<Setting>)
        requires
            self.wf(),
        ensures
            r == visible(self@, (setting_type@, tenant_id, domain_object_id@)),
    {
        match self.find_index(setting_type, tenant_id, domain_object_id) {
            Some(i) => {
                proof {
                    lemma_table_index(self.rows@, i as int);
                }
                if self.rows[i].deleted_at.is_none() {
                    Some(self.rows[i].duplicate())
                } else {
                    None
                }
            },
            None => None,
        }
    }

    /// The visible settings of a type, of one tenant when `tenant_id` is given.
    pub fn find_by_type(&self, setting_type: &str, tenant_id: Option<u128>) -> (r: Vec<Setting>)
        requires
            self.wf(),
        ensures
            forall|i: int|
                0 <= i < r@.len() ==> {
                    let s = #[trigger] r@[i];
                    &&& visible(self@, key_of(s)) == Some(s)
                    &&& s.type_id@ == setting_type@
                    &&& (tenant_id matches Some(t) ==> s.tenant_id == t)
                },
            forall|k: SettingKey|
                #[trigger] visible(self@, k) is Some && k.0 == setting_type@ && (
                tenant_id matches Some(t) ==> k.1 == t) ==> exists|i: int|
                    0 <= i < r@.len() && r@[i] == self@[k],
    {
        let mut out: Vec<Setting> = Vec::new();
        let mut i: usize = 0;
        while i < self.rows.len()
            invariant
                self.wf(),
                i <= self.rows@.len(),
                forall|j: int|
                    0 <= j < out@.len() ==> {
                        let s = #[trigger] out@[j];
                        &&& visible(self@, key_of(s)) == Some(s)
                        &&& s.type_id@ == setting_type@
                        &&& (tenant_id matches Some(t) ==> s.tenant_id == t)
                    },
                forall|j: int|
                    0 <= j < i ==> {
                        let s = #[trigger] self.rows@[j];
                        is_live(s) && s.type_id@ == setting_type@ && (tenant_id matches Some(t)
                            ==> s.tenant_id == t) ==> exists|o: int|
                            0 <= o < out@.len() && out@[o] == s
                    },
            decreases self.rows.len() - i,
        {
            proof {
                lemma_table_index(self.rows@, i as int);
            }
            let row = &self.rows[i];
            let tenant_ok = match tenant_id {
                Some(t) => row.tenant_id == t,
                None => true,
            };
            let ghost prev = out@;
            if row.deleted_at.is_none() && same_text(row.type_id.as_str(), setting_type)
                && tenant_ok {
                let copy = row.duplicate();
                out.push(copy);
                assert(out@[out@.len() - 1] == self.rows@[i as int]);
            }
            proof {
                assert forall|j: int|
                    0 <= j < i + 1 && {
                        let s = #[trigger] self.rows@[j];
                        is_live(s) && s.type_id@ == setting_type@ && (tenant_id matches Some(t)
                            ==> s.tenant_id == t)
                    } implies exists|o: int|
                    0 <= o < out@.len() && out@[o] == self.rows@[j] by {
                    if j < i {
                        let o = choose|o: int| 0 <= o < prev.len() && prev[o] == self.rows@[j];
                        assert(out@[o] == prev[o]);
                    } else {
                        assert(out@[out@.len() - 1] == self.rows@[j]);
                    }
                }
            }
            i = i + 1;
        }
        proof {
            assert forall|k: SettingKey|
                #[trigger] visible(self@, k) is Some && k.0 == setting_type@ && (
                tenant_id matches Some(t) ==> k.1 == t) implies exists|o: int|
                0 <= o < out@.len() && out@[o] == self@[k] by {
                let j = choose|j: int| 0 <= j < self.rows@.len() && #[trigger] self.rows@[j].key() == k;
                lemma_table_index(self.rows@, j);
                let s = self.rows@[j];
                assert(is_live(s) && s.type_id@ == setting_type@);
            }
        }
        out
    }

    fn collect_live(&self, tenant_id: Option<u128>, domain_object_id: Option<&str>) -> (r: Vec<
        Setting,
    >)
        requires
            self.wf(),
        ensures
            forall|i: int|
                0 <= i < r@.len() ==> {
                    let s = #[trigger] r@[i];
                    &&& visible(self@, key_of(s)) == Some(s)
                    &&& (tenant_id matches Some(t) ==> s.tenant_id == t)
                    &&& (domain_object_id matches Some(o) ==> s.domain_object_id@ == o@)
                },
            forall|k: SettingKey|
                #[trigger] visible(self@, k) is Some && (tenant_id matches Some(t) ==> k.1 == t)
                    && (domain_object_id matches Some(o) ==> k.2 == o@) ==> exists|i: int|
                    0 <= i < r@.len() && r@[i] == self@[k],
    {
        let mut out: Vec<Setting> = Vec::new();
        let mut i: usize = 0;
        while i < self.rows.len()
            invariant
                self.wf(),
                i <= self.rows@.len(),
                forall|j: int|
                    0 <= j < out@.len() ==> {
                        let s = #[trigger] out@[j];
                        &&& visible(self@, key_of(s)) == Some(s)
                        &&& (tenant_id matches Some(t) ==> s.tenant_id == t)
                        &&& (domain_object_id matches Some(o) ==> s.domain_object_id@ == o@)
                    },
                forall|j: int|
                    0 <= j < i ==> {
                        let s = #[trigger] self.rows@[j];
                        is_live(s) && (tenant_id matches Some(t) ==> s.tenant_id == t) && (
                        domain_object_id matches Some(o) ==> s.domain_object_id@ == o@) ==> exists|
                            o: int,
                        | 0 <= o < out@.len() && out@[o] == s
                    },
            decreases self.rows.len() - i,
        {
            proof {
                lemma_table_index(self.rows@, i as int);
            }
            let row = &self.rows[i];
            let tenant_ok = match tenant_id {
                Some(t) => row.tenant_id == t,
                None => true,
            };
            let object_ok = match domain_object_id {
                Some(o) => same_text(row.domain_object_id.as_str(), o),
                None => true,
            };
            let ghost prev = out@;
            if row.deleted_at.is_none() && tenant_ok && object_ok {
                let copy = row.duplicate();
                out.push(copy);
                assert(out@[out@.len() - 1] == self.rows@[i as int]);
            }
            proof {
                assert forall|j: int|
                    0 <= j < i + 1 && {
                        let s = #[trigger] self.rows@[j];
                        is_live(s) && (tenant_id matches Some(t) ==> s.tenant_id == t) && (
                        domain_object_id matches Some(o) ==> s.domain_object_id@ == o@)
                    } implies exists|o: int| 0 <= o < out@.len() && out@[o] == self.rows@[j] by {
                    if j < i {
                        let o = choose|o: int| 0 <= o < prev.len() && prev[o] == self.rows@[j];
                        assert(out@[o] == prev[o]);
                    } else {
                        assert(out@[out@.len() - 1] == self.rows@[j]);
                    }
                }
            }
            i = i + 1;
        }
        proof {
            assert forall|k: SettingKey|
                #[trigger] visible(self@, k) is Some && (tenant_id matches Some(t) ==> k.1 == t)
                    && (domain_object_id matches Some(o) ==> k.2 == o@) implies exists|o: int|
                0 <= o < out@.len() && out@[o] == self@[k] by {
                let j = choose|j: int| 0 <= j < self.rows@.len() && #[trigger] self.rows@[j].key() == k;
                lemma_table_index(self.rows@, j);
            }
        }
        out
    }

    /// The visible settings of one tenant.
    pub fn find_by_tenant(&self, tenant_id: u128) -> (r: Vec<Setting>)
        requires
            self.wf(),
        ensures
            forall|i: int|
                0 <= i < r@.len() ==> {
                    let s = #[trigger] r@[i];
                    visible(self@, key_of(s)) == Some(s) && s.tenant_id == tenant_id
                },
            forall|k: SettingKey| #[trigger]
                visible(self@, k) is Some && k.1 == tenant_id ==> exists|i: int|
                    0 <= i < r@.len() && r@[i] == self@[k],
    {
        self.collect_live(Some(tenant_id), None)
    }

    /// The visible settings of one domain object, across types and tenants.
    pub fn find_by_domain_object(&self, domain_object_id: &str) -> (r: Vec<Setting>)
        requires
            self.wf(),
        ensures
            forall|i: int|
                0 <= i < r@.len() ==> {
                    let s = #[trigger] r@[i];
                    visible(self@, key_of(s)) == Some(s) && s.domain_object_id@ == domain_object_id@
                },
            forall|k: SettingKey| #[trigger]
                visible(self@, k) is Some && k.2 == domain_object_id@ ==> exists|i: int|
                    0 <= i < r@.len() && r@[i] == self@[k],
    {
        self.collect_live(None, Some(domain_object_id))
    }

    /// Marks the setting at the key as deleted at `at`; nothing happens when
    /// there is none.
    pub fn soft_delete(&mut self, setting_type: &str, tenant_id: u128, domain_object_id: &str, at: i64)
        requires
            old(self).wf(),
        ensures
            final(self).wf(),
            ({
                let k = (setting_type@, tenant_id, domain_object_id@);
                if old(self)@.contains_key(k) {
                    final(self)@ == old(self)@.insert(k, soft_deleted(old(self)@[k], at))
                } else {
                    final(self)@ == old(self)@
                }
            }),
    {
        match self.find_index(setting_type, tenant_id, domain_object_id) {
            Some(i) => {
                proof {
                    lemma_table_index(self.rows@, i as int);
                }
                let mut row = self.rows[i].duplicate();
                row.deleted_at = Some(at);
                proof {
                    lemma_table_update(self.rows@, i as int, row);
                }
                self.rows.set(i, row);
            },
            None => {},
        }
    }

    /// Removes the setting at the key for good; removing an absent one is no error.
    pub fn hard_delete(&mut self, setting_type: &str, tenant_id: u128, domain_object_id: &str)
        requires
            old(self).wf(),
        ensures
            final(self).wf(),
            final(self)@ == old(self)@.remove((setting_type@, tenant_id, domain_object_id@)),
    {
        match self.find_index(setting_type, tenant_id, domain_object_id) {
            Some(i) => {
                proof {
                    lemma_table_remove(self.rows@, i as int);
                }
                self.rows.remove(i);
            },
            None => {
                assert(self@ =~= self@.remove((setting_type@, tenant_id, domain_object_id@)));
            },
        }
    }
}

/// Milliseconds in a day.
pub const DAY_MILLIS: i128 = 86_400_000;

/// The instant after which a setting soft-deleted at `deleted_at` may be removed.
pub open spec fn retention_deadline(deleted_at: i64, days: u32) -> int {
    deleted_at + days * DAY_MILLIS
}

/// The setting is soft-deleted, its type is registered, and its type's
/// retention period has run out by `now`.
pub open spec fn expired(s: Setting, types: Map<Seq<char>, GtsType>, now: i64) -> bool {
    &&& s.deleted_at is Some
    &&& types.contains_key(s.type_id@)
    &&& now > retention_deadline(
        s.deleted_at->0,
        types[s.type_id@].traits.options.retention_period,
    )
}

/// The store after removing every expired setting.
pub open spec fn swept(
    stored: Map<SettingKey, Setting>,
    types: Map<Seq<char>, GtsType>,
    now: i64,
) -> Map<SettingKey, Setting> {
    Map::new(
        |k: SettingKey| stored.contains_key(k) && !expired(stored[k], types, now),
        |k: SettingKey| stored[k],
    )
}

impl SettingsRepository {
    /// Removes for good every expired setting; returns how many went.
    pub fn purge_expired(&mut self, types: &GtsTypeRepository, now: i64) -> (r: usize)
        requires
            old(self).wf(),
            types.wf(),
        ensures
            final(self).wf(),
            final(self)@ == swept(old(self)@, types@, now),
            r == old(self)@.len() - final(self)@.len(),
            r == 0 <==> forall|k: SettingKey|
                #[trigger] old(self)@.contains_key(k) ==> !expired(old(self)@[k], types@, now),
    {
        let ghost rows = self.rows@;
        let ghost full = table_map(rows);
        let mut kept: Vec<Setting> = Vec::new();
        let mut removed: usize = 0;
        let mut i: usize = 0;
        while i < self.rows.len()
            invariant
                self.rows@ == rows,
                unique_keys(rows),
                full == table_map(rows),
                types.wf(),
                i <= rows.len(),
                removed <= i,
                removed + kept@.len() == i,
                unique_keys(kept@),
                table_map(kept@) == Map::new(
                    |k: SettingKey|
                        exists|j: int|
                            0 <= j < i && #[trigger] rows[j].key() == k && !expired(
                                rows[j],
                                types@,
                                now,
                            ),
                    |k: SettingKey| full[k],
                ),
                removed == 0 <==> forall|j: int|
                    0 <= j < i ==> !expired(#[trigger] rows[j], types@, now),
            decreases rows.len() - i,
        {
            proof {
                lemma_table_index(rows, i as int);
            }
            let row = &self.rows[i];
            let mut gone = false;
            if let Some(at) = row.deleted_at {
                if let Some(ty) = types.find_by_type(row.type_id.as_str()) {
                    let deadline: i128 = at as i128 + ty.traits.options.retention_period as i128
                        * DAY_MILLIS;
                    gone = now as i128 > deadline;
                }
            }
            assert(gone == expired(rows[i as int], types@, now));
            let ghost before = table_map(kept@);
            if gone {
                removed = removed + 1;
            } else {
                let copy = row.duplicate();
                proof {
                    if table_map(kept@).contains_key(copy.key()) {
                        let j = choose|j: int|
                            0 <= j < i && #[trigger] rows[j].key() == copy.key() && !expired(
                                rows[j],
                                types@,
                                now,
                            );
                        assert(rows[j].key() != rows[i as int].key());
                    }
                    lemma_table_push(kept@, copy);
                }
                kept.push(copy);
            }
            proof {
                let target = Map::new(
                    |k: SettingKey|
                        exists|j: int|
                            0 <= j < i + 1 && #[trigger] rows[j].key() == k && !expired(
                                rows[j],
                                types@,
                                now,
                            ),
                    |k: SettingKey| full[k],
                );
                assert forall|k: SettingKey| #[trigger]
                    table_map(kept@).contains_key(k) <==> target.contains_key(k) by {
                    if target.contains_key(k) {
                        let j = choose|j: int|
                            0 <= j < i + 1 && #[trigger] rows[j].key() == k && !expired(
                                rows[j],
                                types@,
                                now,
                            );
                        if j < i {
                            assert(before.contains_key(k));
                        }
                    }
                    if before.contains_key(k) {
                        let j = choose|j: int|
                            0 <= j < i && #[trigger] rows[j].key() == k && !expired(
                                rows[j],
                                types@,
                                now,
                            );
                        assert(target.contains_key(k));
                    }
                    if !gone && k == rows[i as int].key() {
                        assert(target.contains_key(k));
                    }
                }
                assert forall|k: SettingKey| #[trigger]
                    table_map(kept@).contains_key(k) implies table_map(kept@)[k] == target[k] by {
                    if !gone && k == rows[i as int].key() {
                    } else {
                        assert(before.contains_key(k));
                    }
                }
                assert(table_map(kept@) =~= target);
            }
            i = i + 1;
        }
        proof {
            let target = swept(full, types@, now);
            assert forall|k: SettingKey| #[trigger]
                table_map(kept@).contains_key(k) <==> target.contains_key(k) by {
                if full.contains_key(k) {
                    let j = choose|j: int| 0 <= j < rows.len() && #[trigger] rows[j].key() == k;
                    lemma_table_index(rows, j);
                }
            }
            assert(table_map(kept@) =~= target);
            assert((forall|k: SettingKey|
                #[trigger] full.contains_key(k) ==> !expired(full[k], types@, now)) <==> (forall|
                j: int,
            | 0 <= j < rows.len() ==> !expired(#[trigger] rows[j], types@, now))) by {
                if forall|k: SettingKey|
                    #[trigger] full.contains_key(k) ==> !expired(full[k], types@, now) {
                    assert forall|j: int| 0 <= j < rows.len() implies !expired(
                        #[trigger] rows[j],
                        types@,
                        now,
                    ) by {
                        lemma_table_index(rows, j);
                    }
                }
                if forall|j: int| 0 <= j < rows.len() ==> !expired(#[trigger] rows[j], types@, now) {
                    assert forall|k: SettingKey| #[trigger] full.contains_key(k) implies !expired(
                        full[k],
                        types@,
                        now,
                    ) by {
                        let j = choose|j: int| 0 <= j < rows.len() && #[trigger] rows[j].key() == k;
                        lemma_table_index(rows, j);
                    }
                }
            }
        }
        assert(old(self)@ == full);
        assert(i == rows.len());
        proof {
            lemma_table_len(rows);
            lemma_table_len(kept@);
        }
        assert(removed == 0 <==> forall|j: int|
            0 <= j < rows.len() ==> !expired(#[trigger] rows[j], types@, now));
        self.rows = kept;
        removed
    }
}

/// Registered type definitions, keyed by type identifier.
pub struct GtsTypeRepository {
    rows: Vec<GtsType>,
}

impl View for GtsTypeRepository {
    type V = Map<Seq<char>, GtsType>;

    closed spec fn view(&self) -> Map<Seq<char>, GtsType> {
        table_map(self.rows@)
    }
}

impl GtsTypeRepository {
    /// The rows have unique identifiers.
    pub closed spec fn wf(&self) -> bool {
        unique_keys(self.rows@)
    }

    /// The registry holds finitely many definitions.
    pub proof fn lemma_finite(&self)
        requires
            self.wf(),
        ensures
            self@.dom().finite(),
    {
        lemma_table_len(self.rows@);
    }

    /// An empty registry.
    pub fn new() -> (r: Self)
        ensures
            r.wf(),
            r@ == Map::<Seq<char>, GtsType>::empty(),
    {
        let r = GtsTypeRepository { rows: Vec::new() };
        assert(r@ =~= Map::<Seq<char>, GtsType>::empty());
        r
    }

    fn find_index(&self, type_id: &str) -> (r: Option<usize>)
        requires
            self.wf(),
        ensures
            r is None ==> !self@.contains_key(type_id@),
            r is Some ==> r->0 < self.rows@.len() && self.rows@[r->0 as int].key() == type_id@,
    {
        let mut i: usize = 0;
        while i < self.rows.len()
            invariant
                i <= self.rows@.len(),
                forall|j: int| 0 <= j < i ==> #[trigger] self.rows@[j].key() != type_id@,
            decreases self.rows.len() - i,
        {
            if same_text(self.rows[i].type_id.as_str(), type_id) {
                return Some(i);
            }
            i = i + 1;
        }
        None
    }

    /// Stores the definition under its identifier, replacing any there.
    pub fn create(&mut self, gts_type: GtsType) -> (r: GtsType)
        requires
            old(self).wf(),
        ensures
            final(self).wf(),
            final(self)@ == old(self)@.insert(gts_type.type_id@, gts_type),
            r == gts_type,
    {
        let copy = gts_type.duplicate();
        match self.find_index(gts_type.type_id.as_str()) {
            Some(i) => {
                proof {
                    lemma_table_update(self.rows@, i as int, gts_type);
                }
                self.rows.set(i, gts_type);
            },
            None => {
                proof {
                    lemma_table_push(self.rows@, gts_type);
                }
                self.rows.push(gts_type);
            },
        }
        copy
    }

    /// Replaces the definition under its identifier.
    pub fn update(&mut self, gts_type: GtsType) -> (r: GtsType)
        requires
            old(self).wf(),
        ensures
            final(self).wf(),
            final(self)@ == old(self)@.insert(gts_type.type_id@, gts_type),
            r == gts_type,
    {
        self.create(gts_type)
    }

    /// The definition with this identifier.
    pub fn find_by_type(&self, type_id: &str) -> (r: Option<GtsType>)
        requires
            self.wf(),
        ensures
            r == (if self@.contains_key(type_id@) {
                Some(self@[type_id@])
            } else {
                None
            }),
    {
        match self.find_index(type_id) {
            Some(i) => {
                proof {
                    lemma_table_index(self.rows@, i as int);
                }
                Some(self.rows[i].duplicate())
            },
            None => None,
        }
    }

    /// Whether a definition with this identifier exists.
    pub fn contains_type(&self, type_id: &str) -> (r: bool)
        requires
            self.wf(),
        ensures
            r == self@.contains_key(type_id@),
    {
        match self.find_index(type_id) {
            Some(i) => {
                proof {
                    lemma_table_index(self.rows@, i as int);
                }
                true
            },
            None => false,
        }
    }

    /// Removes the definition with this identifier, if any.
    pub fn delete(&mut self, type_id: &str)
        requires
            old(self).wf(),
        ensures
            final(self).wf(),
            final(self)@ == old(self)@.remove(type_id@),
    {
        match self.find_index(type_id) {
            Some(i) => {
                proof {
                    lemma_table_remove(self.rows@, i as int);
                }
                self.rows.remove(i);
            },
            None => {
                assert(self@ =~= self@.remove(type_id@));
            },
        }
    }

    /// Every registered definition, each once.
    pub fn list_all(&self) -> (r: Vec<GtsType>)
        requires
            self.wf(),
        ensures
            forall|i: int|
                0 <= i < r@.len() ==> self@.contains_key(#[trigger] r@[i].type_id@) && self@[r@[i].type_id@]
                    == r@[i],
            forall|k: Seq<char>| #[trigger] self@.contains_key(k) ==> exists|i: int|
                0 <= i < r@.len() && r@[i] == self@[k],
            unique_keys(r@),
            r@.len() == self@.len(),
    {
        let mut out: Vec<GtsType> = Vec::new();
        let mut i: usize = 0;
        while i < self.rows.len()
            invariant
                self.wf(),
                i <= self.rows@.len(),
                out@ == self.rows@.take(i as int),
            decreases self.rows.len() - i,
        {
            out.push(self.rows[i].duplicate());
            assert(out@ =~= self.rows@.take(i + 1));
            i = i + 1;
        }
        assert(out@ =~= self.rows@);
        proof {
            lemma_table_len(self.rows@);
            assert forall|j: int| 0 <= j < out@.len() implies self@.contains_key(
                #[trigger] out@[j].type_id@,
            ) && self@[out@[j].type_id@] == out@[j] by {
                lemma_table_index(self.rows@, j);
            }
            assert forall|k: Seq<char>| #[trigger] self@.contains_key(k) implies exists|j: int|
                0 <= j < out@.len() && out@[j] == self@[k] by {
                let j = choose|j: int| 0 <= j < self.rows@.len() && #[trigger] self.rows@[j].key() == k;
                lemma_table_index(self.rows@, j);
            }
        }
        out
    }
}

/// A compliance lock on one setting key.
pub struct LockEntry {
    pub type_id: String,
    pub tenant_id: u128,
    pub domain_object_id: String,
    pub read_only: bool,
}

impl Keyed<SettingKey> for LockEntry {
    open spec fn key(&self) -> SettingKey {
        (self.type_id@, self.tenant_id, self.domain_object_id@)
    }
}

/// Read-only flags by setting key, kept apart from the settings themselves.
pub struct LockTable {
    rows: Vec<LockEntry>,
}

impl View for LockTable {
    type V = Map<SettingKey, bool>;

    closed spec fn view(&self) -> Map<SettingKey, bool> {
        table_map(self.rows@).map_values(|e: LockEntry| e.read_only)
    }
}

/// Whether the lock table holds a read-only flag at `k`.
pub open spec fn lock_blocks(locks: Map<SettingKey, bool>, k: SettingKey) -> bool {
    locks.contains_key(k) && locks[k]
}

impl LockTable {
    /// The rows have unique keys.
    pub closed spec fn wf(&self) -> bool {
        unique_keys(self.rows@)
    }

    /// An empty table.
    pub fn new() -> (r: Self)
        ensures
            r.wf(),
            r@ == Map::<SettingKey, bool>::empty(),
    {
        let r = LockTable { rows: Vec::new() };
        assert(r@ =~= Map::<SettingKey, bool>::empty());
        r
    }

    fn find_index(&self, setting_type: &str, tenant_id: u128, domain_object_id: &str) -> (r:
        Option<usize>)
        requires
            self.wf(),
        ensures
            r is None ==> !table_map(self.rows@).contains_key(
                (setting_type@, tenant_id, domain_object_id@),
            ),
            r is Some ==> r->0 < self.rows@.len() && self.rows@[r->0 as int].key() == (
                setting_type@,
                tenant_id,
                domain_object_id@,
            ),
    {
        let mut i: usize = 0;
        while i < self.rows.len()
            invariant
                i <= self.rows@.len(),
                forall|j: int|
                    0 <= j < i ==> #[trigger] self.rows@[j].key() != (
                        setting_type@,
                        tenant_id,
                        domain_object_id@,
                    ),
            decreases self.rows.len() - i,
        {
            let row = &self.rows[i];
            if same_text(row.type_id.as_str(), setting_type) && row.tenant_id == tenant_id
                && same_text(row.domain_object_id.as_str(), domain_object_id) {
                return Some(i);
            }
            i = i + 1;
        }
        None
    }

    /// Sets the flag at the key.
    pub fn set(&mut self, setting_type: &str, tenant_id: u128, domain_object_id: &str, read_only: bool)
        requires
            old(self).wf(),
        ensures
            final(self).wf(),
            final(self)@ == old(self)@.insert((setting_type@, tenant_id, domain_object_id@), read_only),
    {
        let entry = LockEntry {
            type_id: String::from_str(setting_type),
            tenant_id,
            domain_object_id: String::from_str(domain_object_id),
            read_only,
        };
        let ghost before = table_map(self.rows@);
        match self.find_index(setting_type, tenant_id, domain_object_id) {
            Some(i) => {
                proof {
                    lemma_table_update(self.rows@, i as int, entry);
                }
                self.rows.set(i, entry);
            },
            None => {
                proof {
                    lemma_table_push(self.rows@, entry);
                }
                self.rows.push(entry);
            },
        }
        assert(self@ =~= old(self)@.insert((setting_type@, tenant_id, domain_object_id@), read_only));
    }

    /// Removes the flag at the key.
    pub fn clear(&mut self, setting_type: &str, tenant_id: u128, domain_object_id: &str)
        requires
            old(self).wf(),
        ensures
            final(self).wf(),
            final(self)@ == old(self)@.remove((setting_type@, tenant_id, domain_object_id@)),
    {
        match self.find_index(setting_type, tenant_id, domain_object_id) {
            Some(i) => {
                proof {
                    lemma_table_remove(self.rows@, i as int);
                }
                self.rows.remove(i);
            },
            None => {},
        }
        assert(self@ =~= old(self)@.remove((setting_type@, tenant_id, domain_object_id@)));
    }

    /// The flag at the key; `false` when there is none.
    pub fn get(&self, setting_type: &str, tenant_id: u128, domain_object_id: &str) -> (r: bool)
        requires
            self.wf(),
        ensures
            r == lock_blocks(self@, (setting_type@, tenant_id, domain_object_id@)),
    {
        match self.find_index(setting_type, tenant_id, domain_object_id) {
            Some(i) => {
                proof {
                    lemma_table_index(self.rows@, i as int);
                }
                self.rows[i].read_only
            },
            None => false,
        }
    }
}

} // verus!
