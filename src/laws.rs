//! Properties that relate several operations of the engine, stated over the
//! same views their contracts use.
use vstd::prelude::*;
use crate::model::{GtsType, Setting, SettingKey};
use crate::service::{nearest_holder, schema_admits, Service};
use crate::store::{expired, lock_blocks, retention_deadline, swept, visible};

verus! {

/// A successful write followed by a read of the same key returns the written
/// row, which carries exactly the data written.
pub proof fn lemma_upsert_then_get(
    before: Service,
    after: Service,
    t: Seq<char>,
    tenant: u128,
    obj: Seq<char>,
    data: serde_json::Value,
    row: Setting,
)
    requires
        before.registered().contains_key(t),
        Service::upsert_applied(before, after, t, tenant, obj, data, row),
    ensures
        after.registered().contains_key(t),
        visible(after.stored(), (t, tenant, obj)) == Some(row),
        row.data == data,
{
}

/// A second retention sweep right after a first one removes nothing, provided
/// no retention deadline fell between the two instants.
pub proof fn lemma_retention_idempotent(
    stored: Map<SettingKey, Setting>,
    types: Map<Seq<char>, GtsType>,
    first: i64,
    second: i64,
)
    requires
        forall|k: SettingKey|
            #[trigger] stored.contains_key(k) && stored[k].deleted_at is Some
                && types.contains_key(stored[k].type_id@) ==> !(first <= retention_deadline(
                stored[k].deleted_at->0,
                types[stored[k].type_id@].traits.options.retention_period,
            ) < second),
    ensures
        forall|k: SettingKey| #[trigger]
            swept(stored, types, first).contains_key(k) ==> !expired(
                swept(stored, types, first)[k],
                types,
                second,
            ),
{
    assert forall|k: SettingKey| #[trigger]
        swept(stored, types, first).contains_key(k) implies !expired(
        swept(stored, types, first)[k],
        types,
        second,
    ) by {
        assert(stored.contains_key(k));
    }
}

/// Once a read-only lock stands at a key, a non-privileged write or delete
/// there is refused, while a privileged write of a value the schema admits
/// goes through.
pub proof fn lemma_lock_blocks_non_privileged(
    svc: Service,
    t: Seq<char>,
    tenant: u128,
    obj: Seq<char>,
    data: serde_json::Value,
)
    requires
        svc.registered().contains_key(t),
        svc.lock_flags().contains_key((t, tenant, obj)),
        svc.lock_flags()[(t, tenant, obj)],
    ensures
        lock_blocks(svc.lock_flags(), (t, tenant, obj)),
        !svc.write_permitted(t, tenant, obj, data, false),
        schema_admits(svc.registered()[t], data) ==> svc.write_permitted(t, tenant, obj, data, true),
{
}

/// After a soft delete, no read sees the setting, though it is still stored.
pub proof fn lemma_soft_delete_hides(
    before: Service,
    after: Service,
    t: Seq<char>,
    tenant: u128,
    obj: Seq<char>,
)
    requires
        Service::soft_delete_applied(before, after, t, tenant, obj),
    ensures
        visible(after.stored(), (t, tenant, obj)) is None,
        before.stored().contains_key((t, tenant, obj)) ==> after.stored().contains_key(
            (t, tenant, obj),
        ),
{
}

/// The retention sweep removes soft-deleted settings only: every visible
/// setting survives it unchanged.
pub proof fn lemma_sweep_keeps_visible(
    stored: Map<SettingKey, Setting>,
    types: Map<Seq<char>, GtsType>,
    now: i64,
    k: SettingKey,
)
    requires
        visible(stored, k) is Some,
    ensures
        visible(swept(stored, types, now), k) == visible(stored, k),
{
}

/// Nearest ancestor wins: when the `i`-th ancestor holds a visible value and
/// none before it does, the walk up finds exactly that value.
pub proof fn lemma_nearest_ancestor_wins(
    stored: Map<SettingKey, Setting>,
    t: Seq<char>,
    obj: Seq<char>,
    ancestors: Seq<u128>,
    i: int,
)
    requires
        0 <= i < ancestors.len(),
        visible(stored, (t, ancestors[i], obj)) is Some,
        forall|j: int| 0 <= j < i ==> visible(stored, (t, #[trigger] ancestors[j], obj)) is None,
    ensures
        nearest_holder(stored, t, obj, ancestors) == visible(stored, (t, ancestors[i], obj)),
    decreases i,
{
    if i > 0 {
        let rest = ancestors.drop_first();
        assert forall|j: int| 0 <= j < i - 1 implies visible(stored, (t, #[trigger] rest[j], obj))
            is None by {
            assert(rest[j] == ancestors[j + 1]);
        }
        assert(visible(stored, (t, ancestors[0], obj)) is None);
        lemma_nearest_ancestor_wins(stored, t, obj, rest, i - 1);
    }
}

/// A barrier on the type stops inheritance: a tenant without a value of its
/// own resolves to nothing, whatever its ancestors hold.
pub proof fn lemma_barrier_blocks(
    svc: Service,
    t: Seq<char>,
    tenant: u128,
    obj: Seq<char>,
    ancestors: Seq<u128>,
)
    requires
        svc.registered().contains_key(t),
        svc.registered()[t].traits.options.is_barrier_inheritance,
        visible(svc.stored(), (t, tenant, obj)) is None,
    ensures
        svc.inherited_along(t, tenant, obj, ancestors) is None,
{
}

} // verus!
