//! Domain events and their targeting: which channel gets an event, and for
//! which tenant. Delivery itself belongs to a publisher outside the engine.
use vstd::prelude::*;
use crate::model::{EventConfig, EventTarget, Setting};

verus! {

/// A setting was created or updated.
#[derive(Debug, Clone, PartialEq, Eq)]
pub struct SettingUpsertedEvent {
    pub setting_type: String,
    pub tenant_id: u128,
    pub domain_object_id: String,
    pub data: serde_json::Value,
    /// Whether the setting was created rather than updated.
    pub is_new: bool,
    pub timestamp: i64,
    pub user_id: Option<u128>,
}

/// A setting was soft-deleted.
#[derive(Debug, Clone, PartialEq, Eq)]
pub struct SettingDeletedEvent {
    pub setting_type: String,
    pub tenant_id: u128,
    pub domain_object_id: String,
    pub timestamp: i64,
    pub user_id: Option<u128>,
}

/// A setting was locked or unlocked for compliance.
#[derive(Debug, Clone, PartialEq, Eq)]
pub struct SettingLockedEvent {
    pub setting_type: String,
    pub tenant_id: u128,
    pub domain_object_id: String,
    pub read_only: bool,
    pub timestamp: i64,
    pub user_id: Option<u128>,
}

/// A domain event about one setting.
#[derive(Debug, Clone, PartialEq, Eq)]
pub enum SettingEvent {
    SettingUpserted(SettingUpsertedEvent),
    SettingDeleted(SettingDeletedEvent),
    SettingLocked(SettingLockedEvent),
}

/// The event for an upsert of `s`.
pub open spec fn upserted_event(s: Setting, is_new: bool, user_id: Option<u128>, timestamp: i64) -> SettingEvent {
    SettingEvent::SettingUpserted(
        SettingUpsertedEvent {
            setting_type: s.type_id,
            tenant_id: s.tenant_id,
            domain_object_id: s.domain_object_id,
            data: s.data,
            is_new,
            timestamp,
            user_id,
        },
    )
}

/// `e` is the deletion event for (t, tenant, obj) stamped at `at`.
pub open spec fn describes_deletion(e: SettingEvent, t: Seq<char>, tenant: u128, obj: Seq<char>, at: i64) -> bool {
    e matches SettingEvent::SettingDeleted(d) && d.setting_type@ == t && d.tenant_id == tenant
        && d.domain_object_id@ == obj && d.timestamp == at && d.user_id is None
}

/// `e` is the lock event for (t, tenant, obj) with the given flag, stamped at `at`.
pub open spec fn describes_lock(
    e: SettingEvent,
    t: Seq<char>,
    tenant: u128,
    obj: Seq<char>,
    read_only: bool,
    at: i64,
) -> bool {
    e matches SettingEvent::SettingLocked(d) && d.setting_type@ == t && d.tenant_id == tenant
        && d.domain_object_id@ == obj && d.read_only == read_only && d.timestamp == at
        && d.user_id is None
}

impl SettingEvent {
    /// The event for an upsert of `setting`, stamped at `timestamp`.
    pub fn upserted(setting: &Setting, is_new: bool, user_id: Option<u128>, timestamp: i64) -> (r:
        Self)
        ensures
            r == upserted_event(*setting, is_new, user_id, timestamp),
    {
        SettingEvent::SettingUpserted(
            SettingUpsertedEvent {
                setting_type: setting.type_id.clone(),
                tenant_id: setting.tenant_id,
                domain_object_id: setting.domain_object_id.clone(),
                data: setting.data.clone(),
                is_new,
                timestamp,
                user_id,
            },
        )
    }

    /// The event for a soft delete, stamped at `timestamp`.
    pub fn deleted(
        setting_type: String,
        tenant_id: u128,
        domain_object_id: String,
        user_id: Option<u128>,
        timestamp: i64,
    ) -> (r: Self)
        ensures
            r == SettingEvent::SettingDeleted(
                SettingDeletedEvent { setting_type, tenant_id, domain_object_id, timestamp, user_id },
            ),
    {
        SettingEvent::SettingDeleted(
            SettingDeletedEvent { setting_type, tenant_id, domain_object_id, timestamp, user_id },
        )
    }

    /// The event for a lock change, stamped at `timestamp`.
    pub fn locked(
        setting_type: String,
        tenant_id: u128,
        domain_object_id: String,
        read_only: bool,
        user_id: Option<u128>,
        timestamp: i64,
    ) -> (r: Self)
        ensures
            r == SettingEvent::SettingLocked(
                SettingLockedEvent {
                    setting_type,
                    tenant_id,
                    domain_object_id,
                    read_only,
                    timestamp,
                    user_id,
                },
            ),
    {
        SettingEvent::SettingLocked(
            SettingLockedEvent {
                setting_type,
                tenant_id,
                domain_object_id,
                read_only,
                timestamp,
                user_id,
            },
        )
    }

    /// An exact copy.
    pub fn duplicate(&self) -> (r: Self)
        ensures
            r == *self,
    {
        match self {
            SettingEvent::SettingUpserted(e) => SettingEvent::SettingUpserted(
                SettingUpsertedEvent {
                    setting_type: e.setting_type.clone(),
                    tenant_id: e.tenant_id,
                    domain_object_id: e.domain_object_id.clone(),
                    data: e.data.clone(),
                    is_new: e.is_new,
                    timestamp: e.timestamp,
                    user_id: e.user_id,
                },
            ),
            SettingEvent::SettingDeleted(e) => SettingEvent::SettingDeleted(
                SettingDeletedEvent {
                    setting_type: e.setting_type.clone(),
                    tenant_id: e.tenant_id,
                    domain_object_id: e.domain_object_id.clone(),
                    timestamp: e.timestamp,
                    user_id: e.user_id,
                },
            ),
            SettingEvent::SettingLocked(e) => SettingEvent::SettingLocked(
                SettingLockedEvent {
                    setting_type: e.setting_type.clone(),
                    tenant_id: e.tenant_id,
                    domain_object_id: e.domain_object_id.clone(),
                    read_only: e.read_only,
                    timestamp: e.timestamp,
                    user_id: e.user_id,
                },
            ),
        }
    }
}

/// The channel an event is published on.
#[derive(Debug, Clone, Copy, PartialEq, Eq, Structural)]
pub enum Channel {
    Audit,
    Notification,
}

/// One publish call the engine has decided on.
#[derive(Debug, Clone, PartialEq, Eq)]
pub struct Publication {
    pub channel: Channel,
    /// `Self_`, or `Subroot` to mark the event as relevant to the tenant's subtree.
    pub target: EventTarget,
    /// The tenant on which the change happened.
    pub tenant_id: u128,
    pub event: SettingEvent,
}

/// The publish calls for one channel: none for `NoEvent`, else one.
pub open spec fn channel_publications(
    channel: Channel,
    target: EventTarget,
    tenant_id: u128,
    event: SettingEvent,
) -> Seq<Publication> {
    if target == EventTarget::NoEvent {
        Seq::empty()
    } else {
        seq![Publication { channel, target, tenant_id, event }]
    }
}

/// The publish calls for an event: the audit channel's, then the notification channel's.
pub open spec fn publications_for(event: SettingEvent, config: EventConfig, tenant_id: u128) -> Seq<
    Publication,
> {
    channel_publications(Channel::Audit, config.audit, tenant_id, event) + channel_publications(
        Channel::Notification,
        config.notification,
        tenant_id,
        event,
    )
}

/// Appends to `outbox` the publish calls that `config` asks for.
pub fn route_event(event: &SettingEvent, config: EventConfig, tenant_id: u128, outbox: &mut Vec<Publication>)
    ensures
        final(outbox)@ == old(outbox)@ + publications_for(*event, config, tenant_id),
{
    let ghost start = outbox@;
    if config.audit != EventTarget::NoEvent {
        outbox.push(
            Publication {
                channel: Channel::Audit,
                target: config.audit,
                tenant_id,
                event: event.duplicate(),
            },
        );
    }
    let ghost mid = outbox@;
    assert(mid =~= start + channel_publications(Channel::Audit, config.audit, tenant_id, *event));
    if config.notification != EventTarget::NoEvent {
        outbox.push(
            Publication {
                channel: Channel::Notification,
                target: config.notification,
                tenant_id,
                event: event.duplicate(),
            },
        );
    }
    assert(outbox@ =~= start + publications_for(*event, config, tenant_id));
}

/// Delivers events to subscribers. Delivery may fail; the engine never
/// depends on its outcome.
pub trait EventPublisher {
    fn publish_audit(&self, event: SettingEvent, target: EventTarget, tenant_id: u128) -> Result<(), String>;

    fn publish_notification(&self, event: SettingEvent, target: EventTarget, tenant_id: u128) -> Result<(), String>;
}

/// A publisher that drops every event.
#[derive(Debug, Clone, Copy, Default)]
pub struct NoOpEventPublisher;

impl EventPublisher for NoOpEventPublisher {
    fn publish_audit(&self, event: SettingEvent, target: EventTarget, tenant_id: u128) -> Result<(), String> {
        Ok(())
    }

    fn publish_notification(&self, event: SettingEvent, target: EventTarget, tenant_id: u128) -> Result<(), String> {
        Ok(())
    }
}

/// Hands each publish call to the publisher, best effort: a failed call is
/// counted and the rest still go out. Returns how many failed.
pub fn deliver<P: EventPublisher>(publisher: &P, publications: Vec<Publication>) -> (failed: usize)
    ensures
        failed <= publications@.len(),
{
    let mut failed: usize = 0;
    let mut rest = publications;
    let total: usize = rest.len();
    while rest.len() > 0
        invariant
            failed + rest@.len() <= total,
            total == publications@.len(),
        decreases rest@.len(),
    {
        let p = rest.remove(0);
        let outcome = match p.channel {
            Channel::Audit => publisher.publish_audit(p.event, p.target, p.tenant_id),
            Channel::Notification => publisher.publish_notification(p.event, p.target, p.tenant_id),
        };
        if outcome.is_err() {
            failed = failed + 1;
        }
    }
    failed
}

} // verus!
