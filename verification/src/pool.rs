//! The pool: every configured upstream, and the generations that order what
//! happens to them.

use vstd::prelude::*;
use vstd::utf8::encode_utf8;

use crate::assoc::Assoc;
use crate::binding::CatalogPolicy;
use crate::clock::{Duration, Instant, WallTime, NANOS_PER_SEC};
use crate::drift::{baseline_of, QuarantineThreshold};
use crate::entry::UpstreamEntry;
use crate::health::UpstreamRecovery;
use crate::lane::{lemma_connected_count, some_connected, BreakerState, Connection, LaneModel};
use crate::manifest::UpstreamManifest;
use crate::names::{lemma_not_seen, lemma_take_contains};
use crate::reconnect::{CredentialMaterialVersion, ReconnectPolicy, ReconnectState};
use crate::refusal_record::RefusalRecord;
use crate::reload::Registry;
use crate::transitions::CatalogTransitions;

verus! {

/// Time a call may take where nothing else is configured: five minutes.
pub const DEFAULT_UPSTREAM_CALL_TIMEOUT_NANOS: u128 = 300_000_000_000;

/// Time a live re-dial of one lane may take: fifteen seconds.
pub const DEFAULT_REDIAL_DIAL_TIMEOUT_NANOS: u128 = 15_000_000_000;

/// Time the first dial of one lane may take: twenty seconds.
pub const DEFAULT_BOOT_DIAL_TIMEOUT_NANOS: u128 = 20_000_000_000;

/// Every configured upstream, and what orders the changes to them.
pub struct UpstreamPool {
    pub entries: Assoc<UpstreamEntry>,
    /// Generation that the next reload gets.
    pub next_reload_gen: u64,
    /// Highest generation that has reached the structural commit.
    pub applied_reload_gen: u64,
    /// Generation of resource ownership and risk.
    pub resource_routing_generation: u64,
    pub catalog_transitions: CatalogTransitions,
    pub audited_refusals: RefusalRecord,
    pub reconnect_policy: ReconnectPolicy,
    pub call_timeout: Option<Duration>,
    pub redial_dial_timeout: Duration,
    pub catalog_attached: bool,
    pub catalog_policy: CatalogPolicy,
    /// Counts failed reads of an authoritative catalog.
    pub catalog_read_error_generation: u64,
    /// Durable reviews decide about quarantined tools, not the local set.
    pub tool_reviews_attached: bool,
    /// There is somewhere to record what operators have to be told.
    pub evidence_attached: bool,
    pub quarantine_threshold: QuarantineThreshold,
}

/// Every entry keeps its invariant.
pub open spec fn registry_wf(registry: Registry) -> bool {
    forall|name: Seq<char>| #[trigger] registry.contains_key(name) ==> registry[name].wf()
}

/// The entry of an upstream that has never been dialed.
pub open spec fn undialed(
    entry: UpstreamEntry,
    name: Seq<char>,
    asked: (UpstreamManifest, CredentialMaterialVersion),
    policy: ReconnectPolicy,
    now: Instant,
    wall: WallTime,
) -> bool {
    &&& entry.id == 0
    &&& entry.manifest == asked.0
    &&& entry.lanes.deep_view() == seq![None::<LaneModel>]
    &&& !entry.forwards_identity
    &&& entry.breaker == BreakerState::Closed
    &&& entry.recovery == (UpstreamRecovery { last_success_at: None, last_error_class: None })
    &&& entry.reconnect == ReconnectState::booted(
        policy.spec_for_server(encode_utf8(name)),
        true,
        asked.1,
        now,
        wall,
    )
    &&& !entry.removed
    &&& entry.quarantined.len() == 0
    &&& baseline_of(entry.observed_schemas@) == Map::<Seq<char>, Seq<char>>::empty()
    &&& entry.last_reload_gen == 0
}

impl UpstreamPool {
    pub open spec fn wf(self) -> bool {
        &&& registry_wf(self.entries@)
        &&& self.reconnect_policy.is_valid()
    }

    /// Everything but the entries is as in another pool.
    pub open spec fn same_but_entries(self, other: Self) -> bool {
        &&& self.next_reload_gen == other.next_reload_gen
        &&& self.applied_reload_gen == other.applied_reload_gen
        &&& self.resource_routing_generation == other.resource_routing_generation
        &&& self.catalog_transitions == other.catalog_transitions
        &&& self.audited_refusals == other.audited_refusals
        &&& self.reconnect_policy == other.reconnect_policy
        &&& self.call_timeout == other.call_timeout
        &&& self.redial_dial_timeout == other.redial_dial_timeout
        &&& self.catalog_attached == other.catalog_attached
        &&& self.catalog_policy == other.catalog_policy
        &&& self.catalog_read_error_generation == other.catalog_read_error_generation
        &&& self.tool_reviews_attached == other.tool_reviews_attached
        &&& self.evidence_attached == other.evidence_attached
        &&& self.quarantine_threshold == other.quarantine_threshold
    }

    /// Settings are the defaults, and nothing has happened yet.
    pub open spec fn starts_afresh(self, policy: ReconnectPolicy) -> bool {
        &&& self.next_reload_gen == 0
        &&& self.applied_reload_gen == 0
        &&& self.resource_routing_generation == 0
        &&& self.reconnect_policy == policy
        &&& self.call_timeout == Some(Duration { nanos: DEFAULT_UPSTREAM_CALL_TIMEOUT_NANOS })
        &&& self.redial_dial_timeout == (Duration { nanos: DEFAULT_REDIAL_DIAL_TIMEOUT_NANOS })
        &&& !self.catalog_attached
        &&& self.catalog_policy == (CatalogPolicy {
            strict_pending_approval: false,
            authoritative: false,
        })
        &&& self.catalog_read_error_generation == 0
        &&& !self.tool_reviews_attached
        &&& !self.evidence_attached
        &&& self.quarantine_threshold == QuarantineThreshold::Off
        &&& forall|server: Seq<char>, tool: Seq<char>|
            (#[trigger] self.catalog_transitions.state(server, tool)) is None
        &&& forall|server: Seq<char>|
            (#[trigger] self.audited_refusals.record_of(server)) is None
    }

    /// A pool without upstreams, under default settings.
    pub fn new(policy: ReconnectPolicy) -> (r: Self)
        requires
            policy.is_valid(),
        ensures
            r.wf(),
            r.entries@ == Map::<Seq<char>, UpstreamEntry>::empty(),
            r.starts_afresh(policy),
    {
        UpstreamPool {
            entries: Assoc::new(),
            next_reload_gen: 0,
            applied_reload_gen: 0,
            resource_routing_generation: 0,
            catalog_transitions: CatalogTransitions::new(),
            audited_refusals: RefusalRecord::new(),
            reconnect_policy: policy,
            call_timeout: Some(Duration { nanos: DEFAULT_UPSTREAM_CALL_TIMEOUT_NANOS }),
            redial_dial_timeout: Duration { nanos: DEFAULT_REDIAL_DIAL_TIMEOUT_NANOS },
            catalog_attached: false,
            catalog_policy: CatalogPolicy { strict_pending_approval: false, authoritative: false },
            catalog_read_error_generation: 0,
            tool_reviews_attached: false,
            evidence_attached: false,
            quarantine_threshold: QuarantineThreshold::Off,
        }
    }

    /// A pool of upstreams none of which has been dialed: one lane each, down,
    /// with a retry armed. Beside each manifest stands the version of the
    /// credentials it would be dialed with.
    pub fn from_manifests_disconnected(
        manifests: Assoc<(UpstreamManifest, CredentialMaterialVersion)>,
        policy: ReconnectPolicy,
        now: Instant,
        wall: WallTime,
    ) -> (r: Self)
        requires
            policy.is_valid(),
        ensures
            r.wf(),
            r.starts_afresh(policy),
            forall|name: Seq<char>| #[trigger]
                r.entries@.contains_key(name) <==> manifests@.contains_key(name),
            forall|name: Seq<char>| #[trigger]
                r.entries@.contains_key(name) ==> undialed(
                    r.entries@[name],
                    name,
                    manifests@[name],
                    policy,
                    now,
                    wall,
                ),
    {
        let mut pool = UpstreamPool::new(policy);
        let ghost wanted = manifests@;
        let mut pending = manifests;
        let names = pending.keys();
        proof {
            assert forall|name: Seq<char>| wanted.contains_key(name) <==> names.deep_view().contains(
                name,
            ) by {
                assert(names.deep_view().to_set().contains(name) <==> names.deep_view().contains(
                    name,
                ));
            }
        }
        let mut i: usize = 0;
        while i < names.len()
            invariant
                i <= names.len(),
                names.deep_view().no_duplicates(),
                policy.is_valid(),
                pool.wf(),
                pool.starts_afresh(policy),
                forall|name: Seq<char>|
                    wanted.contains_key(name) <==> names.deep_view().contains(name),
                forall|name: Seq<char>|
                    !names.deep_view().take(i as int).contains(name) ==> (
                    #[trigger] pending@.contains_key(name) <==> wanted.contains_key(name)) && (
                    pending@.contains_key(name) ==> pending@[name] == wanted[name]),
                forall|name: Seq<char>| #[trigger]
                    pool.entries@.contains_key(name) <==> names.deep_view().take(
                        i as int,
                    ).contains(name),
                forall|name: Seq<char>| #[trigger]
                    pool.entries@.contains_key(name) ==> undialed(
                        pool.entries@[name],
                        name,
                        wanted[name],
                        policy,
                        now,
                        wall,
                    ),
            decreases names.len() - i,
        {
            let ghost here = names.deep_view()[i as int];
            proof {
                lemma_take_contains(names.deep_view(), i as int);
                lemma_not_seen(names.deep_view(), i as int);
                assert(names.deep_view().contains(here));
                assert(pending@.contains_key(here));
            }
            if let Some((manifest, version)) = pending.remove(names[i].as_str()) {
                let mut lanes: Vec<Option<Connection>> = Vec::new();
                lanes.push(None);
                proof {
                    assert(lanes.deep_view() =~= seq![None]);
                    assert(!some_connected(lanes.deep_view()));
                    lemma_connected_count(lanes.deep_view());
                }
                let entry = UpstreamEntry::build(
                    0,
                    names[i].as_str(),
                    manifest,
                    lanes,
                    None,
                    false,
                    policy,
                    version,
                    0,
                    now,
                    wall,
                );
                pool.entries.insert(names[i].clone(), entry);
            }
            i = i + 1;
        }
        proof {
            assert(names.deep_view().take(names.len() as int) =~= names.deep_view());
        }
        pool
    }

    /// Override the time a call may take; none leaves it unbounded.
    pub fn with_call_timeout(self, timeout: Option<Duration>) -> (r: Self)
        ensures
            r == (UpstreamPool { call_timeout: timeout, ..self }),
    {
        let mut pool = self;
        pool.call_timeout = timeout;
        pool
    }

    /// Override the time a live re-dial of one lane may take.
    pub fn with_redial_dial_timeout(self, timeout: Duration) -> (r: Self)
        ensures
            r == (UpstreamPool { redial_dial_timeout: timeout, ..self }),
    {
        let mut pool = self;
        pool.redial_dial_timeout = timeout;
        pool
    }

    /// Attach a recorder of evidence.
    pub fn with_evidence(self) -> (r: Self)
        ensures
            r == (UpstreamPool { evidence_attached: true, ..self }),
    {
        let mut pool = self;
        pool.evidence_attached = true;
        pool
    }

    /// Attach durable reviews, whose decisions replace the local quarantine.
    pub fn with_tool_reviews(self) -> (r: Self)
        ensures
            r == (UpstreamPool { tool_reviews_attached: true, ..self }),
    {
        let mut pool = self;
        pool.tool_reviews_attached = true;
        pool
    }

    /// Override the threshold at which drift quarantines a tool.
    pub fn with_quarantine_threshold(self, threshold: QuarantineThreshold) -> (r: Self)
        ensures
            r == (UpstreamPool { quarantine_threshold: threshold, ..self }),
    {
        let mut pool = self;
        pool.quarantine_threshold = threshold;
        pool
    }

    /// Attach a governed catalog beside which the manifest stays a fallback.
    pub fn with_catalog(self) -> (r: Self)
        ensures
            r == (UpstreamPool { catalog_attached: true, ..self }),
    {
        let mut pool = self;
        pool.catalog_attached = true;
        pool
    }

    /// Attach a governed catalog that alone decides what may be called.
    pub fn with_authoritative_catalog(self) -> (r: Self)
        ensures
            r == (UpstreamPool {
                catalog_attached: true,
                catalog_policy: CatalogPolicy { authoritative: true, ..self.catalog_policy },
                ..self
            }),
    {
        let mut pool = self;
        pool.catalog_attached = true;
        pool.catalog_policy.authoritative = true;
        pool
    }

    /// Decide whether a tool without an approved version is refused.
    pub fn with_catalog_strict_pending_approval(self, strict: bool) -> (r: Self)
        ensures
            r == (UpstreamPool {
                catalog_policy: CatalogPolicy {
                    strict_pending_approval: strict,
                    ..self.catalog_policy
                },
                ..self
            }),
    {
        let mut pool = self;
        pool.catalog_policy.strict_pending_approval = strict;
        pool
    }

    /// Configure the reconnect backoff. Entries that wait for a retry are
    /// re-armed from the new base at once.
    pub fn with_reconnect_policy(
        self,
        base: Duration,
        ceiling: Duration,
        now: Instant,
        wall: WallTime,
    ) -> (r: Self)
        requires
            self.wf(),
            0 < base.nanos <= ceiling.nanos,
        ensures
            r.wf(),
            r.reconnect_policy == (ReconnectPolicy { base, ceiling, ..self.reconnect_policy }),
            r.same_but_entries(UpstreamPool { reconnect_policy: r.reconnect_policy, ..self }),
            forall|name: Seq<char>| #[trigger]
                r.entries@.contains_key(name) <==> self.entries@.contains_key(name),
            forall|name: Seq<char>| #[trigger]
                r.entries@.contains_key(name) ==> {
                    let before = self.entries@[name].reconnect;
                    &&& r.entries@[name].same_but_recovery(self.entries@[name])
                    &&& r.entries@[name].recovery == self.entries@[name].recovery
                    &&& r.entries@[name].reconnect == (ReconnectState {
                        policy: r.reconnect_policy.spec_for_server(encode_utf8(name)),
                        ..before
                    }).restarted(
                        before.next_retry is Some || before.active_claim is Some,
                        now,
                        wall,
                    )
                },
    {
        let mut pool = self;
        pool.reconnect_policy = pool.reconnect_policy.configured(base, ceiling);
        let policy = pool.reconnect_policy;
        let names = pool.entries.keys();
        let ghost start = pool.entries@;
        let mut i: usize = 0;
        while i < names.len()
            invariant
                i <= names.len(),
                names.deep_view().no_duplicates(),
                policy.is_valid(),
                pool.reconnect_policy == policy,
                pool.same_but_entries(UpstreamPool { reconnect_policy: policy, ..self }),
                registry_wf(start),
                pool.wf(),
                forall|name: Seq<char>|
                    #![trigger pool.entries@.contains_key(name)]
                    {
                        let seen = names.deep_view().take(i as int).contains(name);
                        &&& pool.entries@.contains_key(name) <==> start.contains_key(name)
                        &&& pool.entries@.contains_key(name) && !seen ==> pool.entries@[name]
                            == start[name]
                        &&& pool.entries@.contains_key(name) && seen ==> {
                            let before = start[name].reconnect;
                            &&& pool.entries@[name].same_but_recovery(start[name])
                            &&& pool.entries@[name].recovery == start[name].recovery
                            &&& pool.entries@[name].reconnect == (ReconnectState {
                                policy: policy.spec_for_server(encode_utf8(name)),
                                ..before
                            }).restarted(
                                before.next_retry is Some || before.active_claim is Some,
                                now,
                                wall,
                            )
                        }
                    },
            decreases names.len() - i,
        {
            let ghost here = names.deep_view()[i as int];
            proof {
                lemma_take_contains(names.deep_view(), i as int);
                lemma_not_seen(names.deep_view(), i as int);
                assert(pool.entries@.contains_key(here) <==> start.contains_key(here));
            }
            if let Some(mut entry) = pool.entries.remove(names[i].as_str()) {
                let scheduled = entry.reconnect.is_scheduled();
                entry.reconnect.reconfigure(policy, names[i].as_str(), scheduled, now, wall);
                pool.entries.insert(names[i].clone(), entry);
            }
            i = i + 1;
        }
        proof {
            assert(names.deep_view().take(names.len() as int) =~= names.deep_view());
            assert forall|name: Seq<char>| start.contains_key(name) implies names.deep_view().contains(
                name,
            ) by {
                assert(names.deep_view().to_set().contains(name));
            }
        }
        pool
    }
}

/// Two pools are the same but for their entries exactly where giving one the
/// other's entries makes it the other.
pub proof fn entries_are_the_only_difference(a: UpstreamPool, b: UpstreamPool)
    ensures
        a.same_but_entries(b) <==> (UpstreamPool { entries: b.entries, ..a }) == b,
{
}

/// A pool starts with no catalog, no reviews, no evidence, no quarantine and
/// nothing counted, and with the default limits on its calls and dials.
pub proof fn a_new_pool_governs_nothing(
    pool: UpstreamPool,
    policy: ReconnectPolicy,
    server: Seq<char>,
    tool: Seq<char>,
)
    requires
        pool.starts_afresh(policy),
    ensures
        !pool.catalog_attached,
        !pool.catalog_policy.authoritative,
        !pool.catalog_policy.strict_pending_approval,
        !pool.tool_reviews_attached,
        !pool.evidence_attached,
        pool.quarantine_threshold == QuarantineThreshold::Off,
        pool.next_reload_gen == 0,
        pool.applied_reload_gen == 0,
        pool.resource_routing_generation == 0,
        pool.catalog_read_error_generation == 0,
        pool.reconnect_policy == policy,
        pool.call_timeout is Some && pool.call_timeout->0.nanos == 300 * NANOS_PER_SEC,
        pool.redial_dial_timeout.nanos == 15 * NANOS_PER_SEC,
        pool.catalog_transitions.state(server, tool) is None,
        pool.audited_refusals.record_of(server) is None,
{
}

/// An entry that was never dialed has one lane, which is down, nothing observed
/// or quarantined, and a retry under the base delay ahead.
pub proof fn an_undialed_entry_is_down_and_armed(
    entry: UpstreamEntry,
    name: Seq<char>,
    asked: (UpstreamManifest, CredentialMaterialVersion),
    policy: ReconnectPolicy,
    now: Instant,
    wall: WallTime,
)
    requires
        undialed(entry, name, asked, policy, now, wall),
    ensures
        entry.manifest == asked.0,
        entry.lanes.deep_view().len() == 1,
        entry.lanes.deep_view()[0] is None,
        !entry.forwards_identity,
        !entry.removed,
        entry.breaker == BreakerState::Closed,
        entry.quarantined.len() == 0,
        entry.recovery.last_success_at is None,
        entry.recovery.last_error_class is None,
        entry.last_reload_gen == 0,
        entry.reconnect.credential_version == asked.1,
        entry.reconnect.policy.base == policy.base,
        entry.reconnect.policy.ceiling == policy.ceiling,
        entry.reconnect.current_backoff is Some,
        entry.reconnect.next_retry == now.spec_checked_add(entry.reconnect.current_backoff->0),
        entry.reconnect.consecutive_failures == 1,
        entry.reconnect.active_claim is None,
        !baseline_of(entry.observed_schemas@).contains_key(name),
{
}

/// Every entry of a sound pool is sound, and so is its reconnect policy.
pub proof fn sound_pools_hold_sound_entries(pool: UpstreamPool, name: Seq<char>)
    requires
        pool.wf(),
    ensures
        pool.entries@.contains_key(name) ==> pool.entries@[name].wf(),
        0 < pool.reconnect_policy.base.nanos,
        pool.reconnect_policy.base.nanos <= pool.reconnect_policy.ceiling.nanos,
{
}

} // verus!
