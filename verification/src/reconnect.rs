//! Per-upstream reconnect scheduling.
//!
//! The scheduler state lives with the entry it governs. A distressed server
//! therefore cannot impose its retry cadence on another server, and replacing
//! an entry on manifest reload also replaces its failure episode.

use vstd::arithmetic::power2::pow2;
use vstd::bits::{lemma_u32_pow2_no_overflow, lemma_u32_shl_is_mul};
use vstd::prelude::*;
use vstd::utf8::encode_utf8;

use crate::clock::{Duration, Instant, WallTime, NANOS_PER_MILLI};

verus! {

/// Delay before the first retry, unless configured otherwise: one minute.
pub const DEFAULT_BASE_NANOS: u128 = 60_000_000_000;

/// Longest delay between retries, unless configured otherwise: fifteen minutes.
pub const DEFAULT_CEILING_NANOS: u128 = 900_000_000_000;

/// Fingerprint of the credential material a dial would use.
#[derive(Clone, Copy, Debug, PartialEq, Eq, Structural)]
pub struct CredentialMaterialVersion {
    pub high: u128,
    pub low: u128,
}

/// Backoff bounds of a pool, and the secret seeds drawn when it started.
#[derive(Clone, Copy, Debug, PartialEq, Eq)]
pub struct ReconnectPolicy {
    pub base: Duration,
    pub ceiling: Duration,
    pub seed: u64,
    pub credential_key: [u8; 32],
}

/// Backoff bounds of one server, with that server's own jitter stream.
#[derive(Clone, Copy, Debug, PartialEq, Eq, Structural)]
pub struct ServerReconnectPolicy {
    pub base: Duration,
    pub ceiling: Duration,
    pub seed: u64,
}

/// Result of advancing a failure episode after one reconnect attempt.
#[derive(Clone, Copy, Debug, PartialEq, Eq, Structural)]
pub struct ReconnectFailure {
    pub episode_started: bool,
    pub episode_attempt: u64,
    pub backoff: Duration,
}

/// Retry schedule and failure episode of one upstream entry.
#[derive(Clone, Copy, Debug, PartialEq, Eq, Structural)]
pub struct ReconnectState {
    pub policy: ServerReconnectPolicy,
    pub credential_version: CredentialMaterialVersion,
    /// Witness for optimistic outcome finalization. An observation made before
    /// a wait must compare this value again before it clears anything.
    pub revision: u64,
    pub consecutive_failures: u32,
    pub episode_attempts: u64,
    pub jitter_generation: u64,
    pub current_backoff: Option<Duration>,
    pub next_retry: Option<Instant>,
    pub next_retry_at: Option<WallTime>,
    pub active_claim: Option<u64>,
    pub next_claim: u64,
}

pub open spec fn spec_mix64(value: u64) -> u64 {
    let a = value.wrapping_add(0x9e37_79b9_7f4a_7c15);
    let b = (a ^ (a >> 30)).wrapping_mul(0xbf58_476d_1ce4_e5b9);
    let c = (b ^ (b >> 27)).wrapping_mul(0x94d0_49bb_1331_11eb);
    c ^ (c >> 31)
}

/// Spread a counter over the whole 64-bit range.
pub fn mix64(value: u64) -> (r: u64)
    ensures
        r == spec_mix64(value),
{
    let a: u64 = value.wrapping_add(0x9e37_79b9_7f4a_7c15);
    let b: u64 = (a ^ (a >> 30)).wrapping_mul(0xbf58_476d_1ce4_e5b9);
    let c: u64 = (b ^ (b >> 27)).wrapping_mul(0x94d0_49bb_1331_11eb);
    c ^ (c >> 31)
}

/// The hash of a byte string.
pub open spec fn spec_stable_hash(bytes: Seq<u8>) -> u64
    decreases bytes.len(),
{
    if bytes.len() == 0 {
        0xcbf2_9ce4_8422_2325
    } else {
        (spec_stable_hash(bytes.drop_last()) ^ (bytes.last() as u64)).wrapping_mul(
            0x1000_0000_01b3,
        )
    }
}

/// A hash of a server name that is the same in every process: bytes are mixed in
/// one by one, as in FNV-1a.
pub fn stable_hash(bytes: &[u8]) -> (r: u64)
    ensures
        r == spec_stable_hash(bytes@),
{
    let mut hash: u64 = 0xcbf2_9ce4_8422_2325;
    let mut i: usize = 0;
    proof {
        assert(bytes@.take(0) =~= Seq::<u8>::empty());
    }
    while i < bytes.len()
        invariant
            i <= bytes.len(),
            hash == spec_stable_hash(bytes@.take(i as int)),
        decreases bytes.len() - i,
    {
        proof {
            let next = bytes@.take(i + 1);
            assert(next.drop_last() =~= bytes@.take(i as int));
            assert(next.last() == bytes@[i as int]);
        }
        hash = (hash ^ (bytes[i] as u64)).wrapping_mul(0x1000_0000_01b3);
        i = i + 1;
    }
    proof {
        assert(bytes@.take(bytes@.len() as int) =~= bytes@);
    }
    hash
}

/// The factor by which `failures` consecutive failures stretch the base delay:
/// it doubles with each failure after the first, until no `u32` holds it.
pub open spec fn backoff_factor(failures: u32) -> u32 {
    let doublings = if failures == 0 {
        0nat
    } else {
        (failures - 1) as nat
    };
    if doublings < 32 {
        pow2(doublings) as u32
    } else {
        u32::MAX
    }
}

/// The longest delay allowed after `failures` consecutive failures.
pub open spec fn spec_exponential_cap(base: Duration, ceiling: Duration, failures: u32) -> Duration {
    if base.nanos * backoff_factor(failures) <= ceiling.nanos {
        Duration { nanos: (base.nanos * backoff_factor(failures)) as u128 }
    } else {
        ceiling
    }
}

fn backoff_multiplier(failures: u32) -> (factor: u32)
    ensures
        factor == backoff_factor(failures),
{
    let doublings: u32 = failures.saturating_sub(1);
    if doublings < 32 {
        proof {
            lemma_u32_pow2_no_overflow(doublings as nat);
            lemma_u32_shl_is_mul(1, doublings);
        }
        1u32 << doublings
    } else {
        u32::MAX
    }
}

/// Double the base delay with every consecutive failure, up to the ceiling.
pub fn exponential_cap(base: Duration, ceiling: Duration, failures: u32) -> (cap: Duration)
    ensures
        cap == spec_exponential_cap(base, ceiling, failures),
{
    let factor: u32 = backoff_multiplier(failures);
    match base.nanos.checked_mul(factor as u128) {
        Some(nanos) => Duration { nanos }.shorter(ceiling),
        None => ceiling,
    }
}

/// A pseudo-random delay of whole milliseconds between zero and `cap`, fixed by
/// the seed and the generation.
pub open spec fn spec_full_jitter(cap: Duration, seed: u64, generation: u64) -> Duration {
    let cap_ms = cap.spec_millis();
    if cap_ms == 0 {
        Duration { nanos: 0 }
    } else if cap_ms == u64::MAX {
        Duration { nanos: ((spec_mix64(seed ^ generation) % u64::MAX) * NANOS_PER_MILLI) as u128 }
    } else {
        Duration {
            nanos: ((spec_mix64(seed ^ generation) as int % (cap_ms + 1)) * NANOS_PER_MILLI) as u128,
        }
    }
}

/// Draw the delay of one generation from a jitter stream.
pub fn full_jitter(cap: Duration, seed: u64, generation: u64) -> (d: Duration)
    ensures
        d == spec_full_jitter(cap, seed, generation),
{
    let cap_ms: u64 = cap.millis_saturating();
    if cap_ms == 0 {
        return Duration::zero();
    }
    let draw: u64 = mix64(seed ^ generation) % cap_ms.saturating_add(1);
    Duration::from_millis(draw)
}

/// `rand::Rng::next_u64` on the thread's generator. Nothing is claimed of the
/// number drawn.
#[verifier::external_body]
fn draw_seed() -> u64 {
    rand::Rng::next_u64(&mut rand::rng())
}

/// `rand::Rng::fill_bytes` on the thread's generator. Nothing is claimed of the
/// bytes drawn.
#[verifier::external_body]
fn draw_key() -> [u8; 32] {
    let mut key = [0u8; 32];
    rand::Rng::fill_bytes(&mut rand::rng(), &mut key);
    key
}

impl ReconnectPolicy {
    /// The default bounds, with a fresh seed and credential key.
    pub fn random() -> (policy: Self)
        ensures
            policy.base.nanos == DEFAULT_BASE_NANOS,
            policy.ceiling.nanos == DEFAULT_CEILING_NANOS,
            policy.is_valid(),
    {
        let credential_key = draw_key();
        let seed: u64 = draw_seed();
        ReconnectPolicy {
            base: Duration { nanos: DEFAULT_BASE_NANOS },
            ceiling: Duration { nanos: DEFAULT_CEILING_NANOS },
            seed,
            credential_key,
        }
    }

    /// The base delay is not zero and does not exceed the ceiling.
    pub open spec fn is_valid(self) -> bool {
        0 < self.base.nanos <= self.ceiling.nanos
    }

    /// The same seeds under other bounds.
    pub fn configured(self, base: Duration, ceiling: Duration) -> (policy: Self)
        requires
            0 < base.nanos <= ceiling.nanos,
        ensures
            policy == (ReconnectPolicy { base, ceiling, ..self }),
            policy.is_valid(),
    {
        ReconnectPolicy { base, ceiling, seed: self.seed, credential_key: self.credential_key }
    }

    pub open spec fn spec_for_server(self, name: Seq<u8>) -> ServerReconnectPolicy {
        ServerReconnectPolicy {
            base: self.base,
            ceiling: self.ceiling,
            seed: spec_mix64(self.seed ^ spec_stable_hash(name)),
        }
    }

    /// The bounds with the jitter stream of one server.
    pub fn for_server(&self, server: &str) -> (policy: ServerReconnectPolicy)
        ensures
            policy == self.spec_for_server(encode_utf8(server@)),
    {
        ServerReconnectPolicy {
            base: self.base,
            ceiling: self.ceiling,
            seed: mix64(self.seed ^ stable_hash(server.as_bytes())),
        }
    }

    pub fn credential_key(&self) -> (key: &[u8; 32])
        ensures
            *key == self.credential_key,
    {
        &self.credential_key
    }
}

impl ReconnectState {
    /// Nothing is scheduled, and no attempt is under way.
    pub open spec fn is_idle(self) -> bool {
        &&& self.current_backoff is None
        &&& self.next_retry is None
        &&& self.next_retry_at is None
        &&& self.active_claim is None
    }

    /// The invariant of the schedule: an attempt under way hides every
    /// deadline, and a deadline comes with the delay that led to it, which
    /// never exceeds the ceiling.
    pub open spec fn wf(self) -> bool {
        &&& 0 < self.policy.base.nanos <= self.policy.ceiling.nanos
        &&& self.active_claim is Some ==> self.current_backoff is None
        &&& self.current_backoff is None ==> self.next_retry is None && self.next_retry_at is None
        &&& self.current_backoff is Some ==> self.current_backoff->0.nanos
            <= self.policy.ceiling.nanos
    }

    /// The state with a retry armed at most `cap` from now.
    pub open spec fn scheduled(self, cap: Duration, now: Instant, wall: WallTime) -> Self {
        let generation = self.jitter_generation.wrapping_add(1);
        let backoff = spec_full_jitter(cap, self.policy.seed, generation);
        ReconnectState {
            jitter_generation: generation,
            current_backoff: Some(backoff),
            next_retry: now.spec_checked_add(backoff),
            next_retry_at: wall.spec_checked_add(backoff),
            ..self
        }
    }

    /// The state with every deadline and claim dropped and the revision advanced.
    pub open spec fn cleared(self) -> Self {
        ReconnectState {
            revision: self.revision.wrapping_add(1),
            current_backoff: None,
            next_retry: None,
            next_retry_at: None,
            active_claim: None,
            ..self
        }
    }

    /// The state with its failure episode over; a base-delay retry stays armed
    /// while something still needs recovery.
    pub open spec fn restarted(self, needs_recovery: bool, now: Instant, wall: WallTime) -> Self {
        let fresh = ReconnectState {
            consecutive_failures: 0,
            episode_attempts: 0,
            ..self.cleared()
        };
        if needs_recovery {
            fresh.scheduled(self.policy.base, now, wall)
        } else {
            fresh
        }
    }

    /// The state after one more failed attempt.
    pub open spec fn failed(self, now: Instant, wall: WallTime) -> Self {
        let failures = self.consecutive_failures.saturating_add(1);
        let counted = ReconnectState {
            revision: self.revision.wrapping_add(1),
            episode_attempts: self.episode_attempts.saturating_add(1),
            consecutive_failures: failures,
            active_claim: None,
            ..self
        };
        counted.scheduled(
            spec_exponential_cap(self.policy.base, self.policy.ceiling, failures),
            now,
            wall,
        )
    }

    /// The state after a runtime failure was seen.
    pub open spec fn observed(self, now: Instant, wall: WallTime) -> Self {
        let seen = ReconnectState { revision: self.revision.wrapping_add(1), ..self };
        if self.next_retry is None && self.active_claim is None {
            (ReconnectState { consecutive_failures: 0, ..seen }).scheduled(
                self.policy.base,
                now,
                wall,
            )
        } else {
            seen
        }
    }

    /// The state with its due retry taken.
    pub open spec fn claimed(self) -> Self {
        let claim = self.next_claim.wrapping_add(1);
        ReconnectState { next_claim: claim, active_claim: Some(claim), ..self.cleared() }
    }

    /// The state of an entry right after its boot dial. A lane that failed to
    /// dial is already the first consecutive failure.
    pub open spec fn booted(
        policy: ServerReconnectPolicy,
        needs_recovery: bool,
        credential_version: CredentialMaterialVersion,
        now: Instant,
        wall: WallTime,
    ) -> Self {
        let fresh = ReconnectState {
            policy,
            credential_version,
            revision: 0,
            consecutive_failures: if needs_recovery {
                1
            } else {
                0
            },
            episode_attempts: 0,
            jitter_generation: 0,
            current_backoff: None,
            next_retry: None,
            next_retry_at: None,
            active_claim: None,
            next_claim: 0,
        };
        if needs_recovery {
            fresh.scheduled(policy.base, now, wall)
        } else {
            fresh
        }
    }

    /// Start the schedule of an entry whose boot dial has just ended.
    pub fn after_boot_at(
        policy: ReconnectPolicy,
        server: &str,
        needs_recovery: bool,
        credential_version: CredentialMaterialVersion,
        now: Instant,
        wall: WallTime,
    ) -> (state: Self)
        requires
            policy.is_valid(),
        ensures
            state == Self::booted(
                policy.spec_for_server(encode_utf8(server@)),
                needs_recovery,
                credential_version,
                now,
                wall,
            ),
            state.wf(),
    {
        let server_policy = policy.for_server(server);
        let mut state = ReconnectState {
            policy: server_policy,
            credential_version,
            revision: 0,
            consecutive_failures: if needs_recovery {
                1
            } else {
                0
            },
            episode_attempts: 0,
            jitter_generation: 0,
            current_backoff: None,
            next_retry: None,
            next_retry_at: None,
            active_claim: None,
            next_claim: 0,
        };
        if needs_recovery {
            state.schedule(server_policy.base, now, wall);
        }
        state
    }

    fn schedule(&mut self, cap: Duration, now: Instant, wall: WallTime) -> (backoff: Duration)
        requires
            old(self).wf(),
            old(self).active_claim is None,
            cap.nanos <= old(self).policy.ceiling.nanos,
        ensures
            *final(self) == old(self).scheduled(cap, now, wall),
            final(self).current_backoff == Some(backoff),
            final(self).wf(),
    {
        self.jitter_generation = self.jitter_generation.wrapping_add(1);
        let backoff = full_jitter(cap, self.policy.seed, self.jitter_generation);
        proof {
            lemma_jitter_bounded(cap, self.policy.seed, self.jitter_generation);
        }
        self.current_backoff = Some(backoff);
        self.next_retry = now.checked_add(backoff);
        self.next_retry_at = wall.checked_add(backoff);
        backoff
    }

    fn reset(&mut self, needs_recovery: bool, now: Instant, wall: WallTime)
        requires
            old(self).wf(),
        ensures
            *final(self) == old(self).restarted(needs_recovery, now, wall),
            final(self).wf(),
    {
        self.revision = self.revision.wrapping_add(1);
        self.consecutive_failures = 0;
        self.episode_attempts = 0;
        self.current_backoff = None;
        self.next_retry = None;
        self.next_retry_at = None;
        self.active_claim = None;
        if needs_recovery {
            let base = self.policy.base;
            self.schedule(base, now, wall);
        }
    }

    /// Adopt another policy and start over under it.
    pub fn reconfigure(
        &mut self,
        policy: ReconnectPolicy,
        server: &str,
        needs_recovery: bool,
        now: Instant,
        wall: WallTime,
    )
        requires
            policy.is_valid(),
        ensures
            *final(self) == (ReconnectState {
                policy: policy.spec_for_server(encode_utf8(server@)),
                ..*old(self)
            }).restarted(needs_recovery, now, wall),
            final(self).wf(),
    {
        self.policy = policy.for_server(server);
        self.current_backoff = None;
        self.next_retry = None;
        self.next_retry_at = None;
        self.reset(needs_recovery, now, wall);
    }

    /// Arm the first retry after an ordinary runtime failure without escalating
    /// for repeated failures. Only failed reconnect dials advance the backoff.
    /// A failure observed while a retry is armed or under way still advances
    /// the revision: it may be another lane failing during recovery.
    pub fn observe_runtime_failure_at(&mut self, now: Instant, wall: WallTime)
        requires
            old(self).wf(),
        ensures
            *final(self) == old(self).observed(now, wall),
            final(self).wf(),
    {
        self.revision = self.revision.wrapping_add(1);
        if self.next_retry.is_none() && self.active_claim.is_none() {
            self.consecutive_failures = 0;
            let base = self.policy.base;
            self.schedule(base, now, wall);
        }
    }

    /// Start a fresh episode before an explicit operator attempt while keeping
    /// a base-delay fallback armed if the attempt is cancelled.
    pub fn reset_for_operator_at(&mut self, now: Instant, wall: WallTime)
        requires
            old(self).wf(),
        ensures
            *final(self) == old(self).restarted(true, now, wall),
            final(self).wf(),
    {
        self.reset(true, now, wall);
    }

    /// Count a failed reconnect attempt and arm the next one.
    pub fn record_failure_at(&mut self, now: Instant, wall: WallTime) -> (failure: ReconnectFailure)
        requires
            old(self).wf(),
        ensures
            *final(self) == old(self).failed(now, wall),
            failure.episode_started == (old(self).episode_attempts == 0),
            failure.episode_attempt == final(self).episode_attempts,
            final(self).current_backoff == Some(failure.backoff),
            final(self).wf(),
    {
        self.revision = self.revision.wrapping_add(1);
        let episode_started = self.episode_attempts == 0;
        self.episode_attempts = self.episode_attempts.saturating_add(1);
        self.consecutive_failures = self.consecutive_failures.saturating_add(1);
        self.active_claim = None;
        let cap = exponential_cap(
            self.policy.base,
            self.policy.ceiling,
            self.consecutive_failures,
        );
        let backoff = self.schedule(cap, now, wall);
        ReconnectFailure { episode_started, episode_attempt: self.episode_attempts, backoff }
    }

    /// Count a failed attempt only if no newer transition has changed the state
    /// sampled when its dials were installed.
    pub fn record_failure_if_revision(
        &mut self,
        expected: u64,
        credential_version: CredentialMaterialVersion,
        now: Instant,
        wall: WallTime,
    ) -> (failure: Option<ReconnectFailure>)
        requires
            old(self).wf(),
        ensures
            failure is Some <==> old(self).revision == expected,
            failure is None ==> *final(self) == *old(self),
            failure is Some ==> {
                &&& *final(self) == (ReconnectState {
                    credential_version,
                    ..*old(self)
                }).failed(now, wall)
                &&& failure->0.episode_started == (old(self).episode_attempts == 0)
                &&& failure->0.episode_attempt == final(self).episode_attempts
                &&& final(self).current_backoff == Some(failure->0.backoff)
            },
            final(self).wf(),
    {
        if self.revision != expected {
            return None;
        }
        self.credential_version = credential_version;
        Some(self.record_failure_at(now, wall))
    }

    /// End the failure episode.
    pub fn record_success_at(&mut self, needs_recovery: bool, now: Instant, wall: WallTime)
        requires
            old(self).wf(),
        ensures
            *final(self) == old(self).restarted(needs_recovery, now, wall),
            final(self).wf(),
    {
        self.reset(needs_recovery, now, wall);
    }

    /// Apply a success derived from an earlier lane snapshot only if no newer
    /// failure or operator transition has changed the state since then.
    pub fn record_success_if_revision(
        &mut self,
        expected: u64,
        needs_recovery: bool,
        credential_version: CredentialMaterialVersion,
        now: Instant,
        wall: WallTime,
    ) -> (applied: bool)
        requires
            old(self).wf(),
        ensures
            applied == (old(self).revision == expected),
            !applied ==> *final(self) == *old(self),
            applied ==> *final(self) == (ReconnectState {
                credential_version,
                ..*old(self)
            }).restarted(needs_recovery, now, wall),
            final(self).wf(),
    {
        if self.revision != expected {
            return false;
        }
        self.credential_version = credential_version;
        self.record_success_at(needs_recovery, now, wall);
        true
    }

    /// Observe the current dial inputs. True exactly once per change, so that a
    /// credential rotation starts a fresh episode and a repeated look does not.
    pub fn update_credential_version(
        &mut self,
        credential_version: CredentialMaterialVersion,
    ) -> (changed: bool)
        ensures
            changed == (old(self).credential_version != credential_version),
            *final(self) == (ReconnectState { credential_version, ..*old(self) }),
    {
        if self.credential_version == credential_version {
            return false;
        }
        self.credential_version = credential_version;
        true
    }

    /// A retry is armed, its moment has come, and no attempt is under way.
    pub open spec fn due(self, now: Instant) -> bool {
        &&& self.active_claim is None
        &&& self.next_retry is Some
        &&& self.next_retry->0.nanos <= now.nanos
    }

    pub fn is_due(&self, now: Instant) -> (b: bool)
        ensures
            b == self.due(now),
    {
        self.active_claim.is_none() && match self.next_retry {
            Some(deadline) => deadline.nanos <= now.nanos,
            None => false,
        }
    }

    /// Take the due retry. The claim hides the deadline until it is settled.
    pub fn claim_due(&mut self, now: Instant) -> (claim: Option<u64>)
        requires
            old(self).wf(),
        ensures
            claim is Some <==> old(self).due(now),
            claim is None ==> *final(self) == *old(self),
            claim is Some ==> *final(self) == old(self).claimed() && claim
                == final(self).active_claim,
            final(self).wf(),
    {
        if !self.is_due(now) {
            return None;
        }
        self.revision = self.revision.wrapping_add(1);
        self.next_claim = self.next_claim.wrapping_add(1);
        self.active_claim = Some(self.next_claim);
        self.current_backoff = None;
        self.next_retry = None;
        self.next_retry_at = None;
        self.active_claim
    }

    pub fn claim_is_active(&self, claim: u64) -> (b: bool)
        ensures
            b == (self.active_claim == Some(claim)),
    {
        match self.active_claim {
            Some(active) => active == claim,
            None => false,
        }
    }

    /// Release a claimed attempt that ended before it could report success or
    /// failure, re-arming the base delay while something needs recovery.
    pub fn release_claim(
        &mut self,
        claim: u64,
        needs_recovery: bool,
        now: Instant,
        wall: WallTime,
    ) -> (released: bool)
        requires
            old(self).wf(),
        ensures
            released == (old(self).active_claim == Some(claim)),
            !released ==> *final(self) == *old(self),
            released ==> *final(self) == if needs_recovery {
                old(self).cleared().scheduled(old(self).policy.base, now, wall)
            } else {
                old(self).cleared()
            },
            final(self).wf(),
    {
        if !self.claim_is_active(claim) {
            return false;
        }
        self.revision = self.revision.wrapping_add(1);
        self.active_claim = None;
        self.current_backoff = None;
        self.next_retry = None;
        self.next_retry_at = None;
        if needs_recovery {
            let base = self.policy.base;
            self.schedule(base, now, wall);
        }
        true
    }

    pub open spec fn spec_delay(self, now: Instant) -> Option<Duration> {
        if self.active_claim is Some || self.next_retry is None {
            None
        } else {
            Some(self.next_retry->0.spec_since(now))
        }
    }

    /// How long to wait for the armed retry; nothing while an attempt is under way.
    pub fn delay(&self, now: Instant) -> (d: Option<Duration>)
        ensures
            d == self.spec_delay(now),
    {
        if self.active_claim.is_some() {
            return None;
        }
        match self.next_retry {
            Some(deadline) => Some(deadline.saturating_duration_since(now)),
            None => None,
        }
    }

    /// The schedule as an operator sees it.
    pub fn snapshot(&self) -> (r: (Option<Duration>, Option<WallTime>))
        ensures
            r == (self.current_backoff, self.next_retry_at),
    {
        (self.current_backoff, self.next_retry_at)
    }

    pub fn is_scheduled(&self) -> (b: bool)
        ensures
            b == (self.next_retry is Some || self.active_claim is Some),
    {
        self.next_retry.is_some() || self.active_claim.is_some()
    }

    pub fn episode_attempts(&self) -> (n: u64)
        ensures
            n == self.episode_attempts,
    {
        self.episode_attempts
    }

    pub fn revision(&self) -> (n: u64)
        ensures
            n == self.revision,
    {
        self.revision
    }

    pub open spec fn spec_jitter_catalog_interval(self, floor: Duration, effective_ttl: Duration) -> Duration {
        let slack = if effective_ttl.nanos >= floor.nanos {
            (effective_ttl.nanos - floor.nanos) as u128
        } else {
            0
        };
        let tenth = effective_ttl.nanos / 10;
        let max_advance = if slack <= tenth {
            slack
        } else {
            tenth
        };
        let advance = spec_full_jitter(Duration { nanos: max_advance }, self.policy.seed, u64::MAX);
        if effective_ttl.nanos >= advance.nanos {
            Duration { nanos: (effective_ttl.nanos - advance.nanos) as u128 }
        } else {
            Duration { nanos: 0 }
        }
    }

    /// Spread catalog deadlines by a stable fraction of each entry, inside the
    /// window from `floor` to `effective_ttl`: never staler than the lifetime,
    /// never refreshed faster than the floor.
    pub fn jitter_catalog_interval(&self, floor: Duration, effective_ttl: Duration) -> (d: Duration)
        ensures
            d == self.spec_jitter_catalog_interval(floor, effective_ttl),
            d.nanos <= effective_ttl.nanos,
            d.nanos >= effective_ttl.nanos - effective_ttl.nanos / 10,
            floor.nanos <= effective_ttl.nanos ==> floor.nanos <= d.nanos,
    {
        let slack = effective_ttl.saturating_sub(floor);
        let max_advance = slack.shorter(Duration { nanos: effective_ttl.nanos / 10 });
        proof {
            lemma_jitter_bounded(max_advance, self.policy.seed, u64::MAX);
        }
        effective_ttl.saturating_sub(full_jitter(max_advance, self.policy.seed, u64::MAX))
    }
}

/// A jittered delay never exceeds its cap.
pub proof fn lemma_jitter_bounded(cap: Duration, seed: u64, generation: u64)
    ensures
        spec_full_jitter(cap, seed, generation).nanos <= cap.nanos,
{
    let cap_ms = cap.spec_millis();
    let draw = spec_mix64(seed ^ generation);
    if cap_ms == 0 {
    } else if cap_ms == u64::MAX {
        assert(0 <= draw % u64::MAX < u64::MAX);
        assert((draw % u64::MAX) * NANOS_PER_MILLI <= cap_ms * NANOS_PER_MILLI);
    } else {
        let m = draw as int % (cap_ms + 1);
        assert(0 <= m <= cap_ms);
        assert(m * NANOS_PER_MILLI <= cap_ms * NANOS_PER_MILLI);
    }
    assert(cap_ms * NANOS_PER_MILLI <= cap.nanos);
}

/// The delay allowed after a failure starts at the base, never shrinks as
/// failures repeat, doubles until the ceiling is reached and never passes it.
pub proof fn backoff_escalates_to_the_ceiling(base: Duration, ceiling: Duration, failures: u32)
    requires
        base.nanos <= ceiling.nanos,
        1 <= failures < u32::MAX,
    ensures
        spec_exponential_cap(base, ceiling, 1) == base,
        spec_exponential_cap(base, ceiling, failures).nanos <= ceiling.nanos,
        spec_exponential_cap(base, ceiling, failures).nanos <= spec_exponential_cap(
            base,
            ceiling,
            (failures + 1) as u32,
        ).nanos,
        failures < 32 ==> spec_exponential_cap(base, ceiling, (failures + 1) as u32).nanos == if 2
            * spec_exponential_cap(base, ceiling, failures).nanos <= ceiling.nanos {
            2 * spec_exponential_cap(base, ceiling, failures).nanos
        } else {
            ceiling.nanos as int
        },
        spec_exponential_cap(base, ceiling, failures) == ceiling ==> spec_exponential_cap(
            base,
            ceiling,
            (failures + 1) as u32,
        ) == ceiling,
{
    let here = backoff_factor(failures);
    let next = backoff_factor((failures + 1) as u32);
    vstd::arithmetic::power2::lemma2_to64();
    if failures < 32 {
        lemma_u32_pow2_no_overflow((failures - 1) as nat);
        lemma_u32_pow2_no_overflow(failures as nat);
        vstd::arithmetic::power2::lemma_pow2_unfold(failures as nat);
        assert(next == 2 * here);
        assert(base.nanos * next == 2 * (base.nanos * here)) by (nonlinear_arith)
            requires
                next == 2 * here,
        ;
    } else {
        if failures == 32 {
            lemma_u32_pow2_no_overflow(31);
        }
        assert(here <= next);
        assert(base.nanos * here <= base.nanos * next) by (nonlinear_arith)
            requires
                here <= next,
        ;
    }
    assert(backoff_factor(1) == 1);
    assert(base.nanos * 1 == base.nanos);
}

/// A failed attempt waits no longer than its exponential cap, and so never
/// longer than the ceiling.
pub proof fn failure_delay_is_bounded(state: ReconnectState, now: Instant, wall: WallTime)
    requires
        state.wf(),
    ensures
        state.failed(now, wall).current_backoff is Some,
        state.failed(now, wall).current_backoff->0.nanos <= spec_exponential_cap(
            state.policy.base,
            state.policy.ceiling,
            state.consecutive_failures.saturating_add(1),
        ).nanos,
        state.failed(now, wall).current_backoff->0.nanos <= state.policy.ceiling.nanos,
{
    lemma_jitter_bounded(
        spec_exponential_cap(
            state.policy.base,
            state.policy.ceiling,
            state.consecutive_failures.saturating_add(1),
        ),
        state.policy.seed,
        state.jitter_generation.wrapping_add(1),
    );
}

/// Every recovery transition moves the revision, so an outcome sampled before
/// it no longer matches.
pub proof fn transitions_invalidate_older_samples(
    state: ReconnectState,
    needs_recovery: bool,
    now: Instant,
    wall: WallTime,
)
    ensures
        state.observed(now, wall).revision != state.revision,
        state.failed(now, wall).revision != state.revision,
        state.restarted(needs_recovery, now, wall).revision != state.revision,
        state.claimed().revision != state.revision,
        state.cleared().revision != state.revision,
{
}

/// While an attempt is under way no deadline shows and nothing can be claimed,
/// also after further runtime failures.
pub proof fn claim_hides_the_deadline(
    state: ReconnectState,
    now: Instant,
    wall: WallTime,
    later: Instant,
)
    requires
        state.wf(),
        state.active_claim is Some,
    ensures
        !state.due(later),
        state.spec_delay(later) is None,
        state.observed(now, wall).active_claim == state.active_claim,
        state.observed(now, wall).next_retry is None,
        state.observed(now, wall).next_retry_at is None,
        !state.observed(now, wall).due(later),
        state.observed(now, wall).spec_delay(later) is None,
{
}

/// A claim taken later never carries the number of the one before it, so a
/// settled claim cannot be mistaken for its successor.
pub proof fn successive_claims_differ(
    state: ReconnectState,
    needs_recovery: bool,
    now: Instant,
    wall: WallTime,
)
    ensures
        state.claimed().active_claim is Some,
        state.claimed().failed(now, wall).claimed().active_claim != state.claimed().active_claim,
        state.claimed().restarted(needs_recovery, now, wall).claimed().active_claim
            != state.claimed().active_claim,
        state.claimed().cleared().scheduled(state.policy.base, now, wall).claimed().active_claim
            != state.claimed().active_claim,
{
}

/// The state after a row of failed attempts.
pub open spec fn after_failures(
    state: ReconnectState,
    moments: Seq<(Instant, WallTime)>,
) -> ReconnectState
    decreases moments.len(),
{
    if moments.len() == 0 {
        state
    } else {
        after_failures(state, moments.drop_last()).failed(moments.last().0, moments.last().1)
    }
}

/// A success or an operator reset ends the failure episode: the attempts that
/// follow are numbered from one again.
pub proof fn reset_starts_a_fresh_episode(
    state: ReconnectState,
    needs_recovery: bool,
    now: Instant,
    wall: WallTime,
    moments: Seq<(Instant, WallTime)>,
)
    requires
        moments.len() <= u32::MAX,
    ensures
        after_failures(state.restarted(needs_recovery, now, wall), moments).episode_attempts
            == moments.len(),
        after_failures(state.restarted(needs_recovery, now, wall), moments).consecutive_failures
            == moments.len(),
    decreases moments.len(),
{
    if moments.len() > 0 {
        reset_starts_a_fresh_episode(state, needs_recovery, now, wall, moments.drop_last());
    }
}

/// An entry whose boot dial failed is due again within the base delay, counts
/// one consecutive failure and has no reconnect attempt to its name yet.
pub proof fn boot_failure_arms_the_base_delay(
    policy: ReconnectPolicy,
    server: Seq<char>,
    version: CredentialMaterialVersion,
    now: Instant,
    wall: WallTime,
)
    requires
        policy.is_valid(),
    ensures
        ({
            let state = ReconnectState::booted(
                policy.spec_for_server(encode_utf8(server)),
                true,
                version,
                now,
                wall,
            );
            &&& state.current_backoff is Some
            &&& state.current_backoff->0.nanos <= policy.base.nanos
            &&& state.next_retry == now.spec_checked_add(state.current_backoff->0)
            &&& state.next_retry_at == wall.spec_checked_add(state.current_backoff->0)
            &&& state.episode_attempts == 0
            &&& state.consecutive_failures == 1
        }),
{
    let own = policy.spec_for_server(encode_utf8(server));
    lemma_jitter_bounded(policy.base, own.seed, 1);
}

/// A jittered delay is a whole number of milliseconds, drawn from all of those up
/// to the cap by the mixed seed and generation; a cap below a millisecond leaves
/// none.
pub proof fn jitter_is_drawn_from_the_whole_range(cap: Duration, seed: u64, generation: u64)
    ensures
        cap.nanos < NANOS_PER_MILLI ==> spec_full_jitter(cap, seed, generation).nanos == 0,
        NANOS_PER_MILLI <= cap.nanos && cap.spec_millis() < u64::MAX ==> spec_full_jitter(
            cap,
            seed,
            generation,
        ).nanos == (spec_mix64(seed ^ generation) as int % (cap.spec_millis() + 1))
            * NANOS_PER_MILLI,
        spec_full_jitter(cap, seed, generation).nanos <= cap.nanos,
        spec_full_jitter(cap, seed, generation).nanos % NANOS_PER_MILLI == 0,
{
    lemma_jitter_bounded(cap, seed, generation);
    let drawn = spec_full_jitter(cap, seed, generation).nanos as int;
    let cap_ms = cap.spec_millis() as int;
    let mixed = spec_mix64(seed ^ generation) as int;
    if cap_ms == u64::MAX {
        let ms = mixed % (u64::MAX as int);
        assert(0 <= ms < u64::MAX);
        assert(ms * NANOS_PER_MILLI <= u128::MAX) by (nonlinear_arith)
            requires
                0 <= ms < u64::MAX,
        ;
        assert(0 <= ms * NANOS_PER_MILLI) by (nonlinear_arith)
            requires
                0 <= ms,
        ;
        assert(drawn == ms * NANOS_PER_MILLI);
        assert((ms * NANOS_PER_MILLI) % (NANOS_PER_MILLI as int) == 0) by (nonlinear_arith);
    } else if cap_ms > 0 {
        let ms = mixed % (cap_ms + 1);
        assert(0 <= ms <= cap_ms);
        assert(ms * NANOS_PER_MILLI <= u128::MAX) by (nonlinear_arith)
            requires
                0 <= ms <= u64::MAX,
        ;
        assert(0 <= ms * NANOS_PER_MILLI) by (nonlinear_arith)
            requires
                0 <= ms,
        ;
        assert(drawn == ms * NANOS_PER_MILLI);
        assert((ms * NANOS_PER_MILLI) % (NANOS_PER_MILLI as int) == 0) by (nonlinear_arith);
    }
    if NANOS_PER_MILLI <= cap.nanos {
        assert(cap.nanos / NANOS_PER_MILLI >= 1) by (nonlinear_arith)
            requires
                NANOS_PER_MILLI <= cap.nanos,
        ;
    }
}

/// The hash of a name starts from the offset basis and takes in each byte by an
/// exclusive or and a multiplication with the prime.
pub proof fn the_stable_hash_takes_in_each_byte(bytes: Seq<u8>, next: u8)
    ensures
        spec_stable_hash(Seq::empty()) == 14_695_981_039_346_656_037u64,
        spec_stable_hash(bytes.push(next)) == (spec_stable_hash(bytes) ^ (next as u64)).wrapping_mul(
            17_592_186_044_851u64,
        ),
{
    assert(bytes.push(next).drop_last() =~= bytes);
}

/// A server's policy has the bounds of the pool's, and a seed of its own from the
/// pool's seed and the server's name.
pub proof fn servers_share_bounds_and_not_seeds(policy: ReconnectPolicy, name: Seq<u8>)
    ensures
        policy.spec_for_server(name).base == policy.base,
        policy.spec_for_server(name).ceiling == policy.ceiling,
        policy.spec_for_server(name).seed == spec_mix64(policy.seed ^ spec_stable_hash(name)),
        policy.is_valid() <==> policy.base.nanos > 0 && policy.base.nanos <= policy.ceiling.nanos,
{
}

/// A first failure waits up to the base delay, and so does a state without one.
pub proof fn backoff_starts_at_the_base(base: Duration, ceiling: Duration)
    requires
        base.nanos <= ceiling.nanos,
    ensures
        spec_exponential_cap(base, ceiling, 0) == base,
        spec_exponential_cap(base, ceiling, 1) == base,
{
    vstd::arithmetic::power2::lemma2_to64();
    assert(backoff_factor(0) == 1 && backoff_factor(1) == 1);
    assert(base.nanos * 1 == base.nanos);
}

/// A recorded failure counts once in its episode and in the row of failures, ends
/// the claim it ran under, and schedules the next retry one jittered delay ahead
/// on both clocks, under the cap of the failures so far.
pub proof fn a_failure_schedules_the_next_retry(state: ReconnectState, now: Instant, wall: WallTime)
    ensures
        ({
            let after = state.failed(now, wall);
            let backoff = spec_full_jitter(
                spec_exponential_cap(
                    state.policy.base,
                    state.policy.ceiling,
                    after.consecutive_failures,
                ),
                state.policy.seed,
                after.jitter_generation,
            );
            &&& after.consecutive_failures == state.consecutive_failures.saturating_add(1)
            &&& after.episode_attempts == state.episode_attempts.saturating_add(1)
            &&& after.jitter_generation == state.jitter_generation.wrapping_add(1)
            &&& after.active_claim is None
            &&& after.current_backoff == Some(backoff)
            &&& after.next_retry == now.spec_checked_add(backoff)
            &&& after.next_retry_at == wall.spec_checked_add(backoff)
            &&& after.policy == state.policy
            &&& after.credential_version == state.credential_version
            &&& after.next_claim == state.next_claim
        }),
{
}

/// A restart ends the episode, its row of failures, its claim and its delay; it
/// schedules a retry under the base delay where recovery is still needed, and
/// none where it is not.
pub proof fn a_restart_begins_anew(
    state: ReconnectState,
    needs_recovery: bool,
    now: Instant,
    wall: WallTime,
)
    ensures
        ({
            let after = state.restarted(needs_recovery, now, wall);
            &&& after.consecutive_failures == 0
            &&& after.episode_attempts == 0
            &&& after.active_claim is None
            &&& after.policy == state.policy
            &&& after.credential_version == state.credential_version
            &&& after.next_claim == state.next_claim
            &&& !needs_recovery ==> after.is_idle() && after.next_retry is None
                && after.next_retry_at is None && after.current_backoff is None
            &&& needs_recovery ==> {
                let backoff = spec_full_jitter(
                    state.policy.base,
                    state.policy.seed,
                    state.jitter_generation.wrapping_add(1),
                );
                &&& after.current_backoff == Some(backoff)
                &&& after.next_retry == now.spec_checked_add(backoff)
                &&& after.next_retry_at == wall.spec_checked_add(backoff)
            }
        }),
{
}

/// A failure seen at run time schedules a retry under the base delay where none
/// is scheduled and none is running, and leaves the schedule alone otherwise; it
/// counts as no attempt.
pub proof fn a_runtime_failure_arms_an_idle_schedule(
    state: ReconnectState,
    now: Instant,
    wall: WallTime,
)
    ensures
        ({
            let after = state.observed(now, wall);
            &&& after.revision != state.revision
            &&& after.episode_attempts == state.episode_attempts
            &&& after.active_claim == state.active_claim
            &&& after.policy == state.policy
            &&& after.credential_version == state.credential_version
            &&& state.next_retry is None && state.active_claim is None ==> {
                let backoff = spec_full_jitter(
                    state.policy.base,
                    state.policy.seed,
                    state.jitter_generation.wrapping_add(1),
                );
                &&& after.consecutive_failures == 0
                &&& after.current_backoff == Some(backoff)
                &&& after.next_retry == now.spec_checked_add(backoff)
                &&& after.next_retry_at == wall.spec_checked_add(backoff)
            }
            &&& state.next_retry is Some || state.active_claim is Some ==> {
                &&& after.consecutive_failures == state.consecutive_failures
                &&& after.current_backoff == state.current_backoff
                &&& after.next_retry == state.next_retry
                &&& after.next_retry_at == state.next_retry_at
                &&& after.jitter_generation == state.jitter_generation
            }
        }),
{
}

/// A claim takes the next number and the schedule with it; what counts the
/// episode stays.
pub proof fn a_claim_takes_the_schedule(state: ReconnectState)
    ensures
        ({
            let after = state.claimed();
            &&& after.active_claim == Some(state.next_claim.wrapping_add(1))
            &&& after.next_claim == state.next_claim.wrapping_add(1)
            &&& after.next_retry is None
            &&& after.next_retry_at is None
            &&& after.current_backoff is None
            &&& after.consecutive_failures == state.consecutive_failures
            &&& after.episode_attempts == state.episode_attempts
            &&& after.policy == state.policy
            &&& after.credential_version == state.credential_version
        }),
        ({
            let after = state.cleared();
            &&& after.active_claim is None
            &&& after.next_claim == state.next_claim
            &&& after.next_retry is None
            &&& after.next_retry_at is None
            &&& after.current_backoff is None
            &&& after.consecutive_failures == state.consecutive_failures
            &&& after.episode_attempts == state.episode_attempts
            &&& after.jitter_generation == state.jitter_generation
            &&& after.policy == state.policy
            &&& after.credential_version == state.credential_version
        }),
{
}

/// A retry is due exactly where one is scheduled for a moment that has come and
/// no claim is running; until then its delay is the time that is left.
pub proof fn a_retry_is_due_when_its_moment_has_come(state: ReconnectState, now: Instant)
    ensures
        state.active_claim is Some ==> !state.due(now) && state.spec_delay(now) is None,
        state.next_retry is None ==> !state.due(now) && state.spec_delay(now) is None,
        state.active_claim is None && state.next_retry is Some ==> {
            &&& state.due(now) <==> state.next_retry->0.nanos <= now.nanos
            &&& state.spec_delay(now) is Some
            &&& state.next_retry->0.nanos <= now.nanos ==> state.spec_delay(now)->0.nanos == 0
            &&& state.next_retry->0.nanos > now.nanos ==> now.nanos + state.spec_delay(
                now,
            )->0.nanos == state.next_retry->0.nanos
        },
{
}

/// An upstream that boots whole has nothing scheduled and no failure counted; one
/// that does not has one failure counted and a retry under the base delay.
pub proof fn a_boot_arms_what_is_missing(
    policy: ServerReconnectPolicy,
    version: CredentialMaterialVersion,
    now: Instant,
    wall: WallTime,
)
    ensures
        ({
            let whole = ReconnectState::booted(policy, false, version, now, wall);
            &&& whole.is_idle()
            &&& whole.next_retry is None
            &&& whole.active_claim is None
            &&& whole.consecutive_failures == 0
            &&& whole.episode_attempts == 0
            &&& whole.policy == policy
            &&& whole.credential_version == version
        }),
        ({
            let partial = ReconnectState::booted(policy, true, version, now, wall);
            let backoff = spec_full_jitter(policy.base, policy.seed, 1);
            &&& partial.consecutive_failures == 1
            &&& partial.episode_attempts == 0
            &&& partial.active_claim is None
            &&& partial.current_backoff == Some(backoff)
            &&& partial.next_retry == now.spec_checked_add(backoff)
            &&& partial.next_retry_at == wall.spec_checked_add(backoff)
            &&& partial.policy == policy
            &&& partial.credential_version == version
        }),
{
}

/// A state is idle exactly where it holds no delay, no moment and no claim.
pub proof fn idle_states_hold_nothing(state: ReconnectState)
    ensures
        state.is_idle() <==> state.current_backoff is None && state.next_retry is None
            && state.next_retry_at is None && state.active_claim is None,
{
}

/// A refresh interval is its age less a jittered advance, of at most a tenth of
/// the age and of no more than leaves the floor.
pub proof fn refreshes_advance_by_at_most_a_tenth(
    state: ReconnectState,
    floor: Duration,
    age: Duration,
)
    ensures
        age.nanos <= floor.nanos ==> state.spec_jitter_catalog_interval(floor, age) == age,
        floor.nanos <= age.nanos && age.nanos / 10 <= age.nanos - floor.nanos
            ==> state.spec_jitter_catalog_interval(floor, age).nanos == age.nanos
            - spec_full_jitter(
            Duration { nanos: age.nanos / 10 },
            state.policy.seed,
            u64::MAX,
        ).nanos,
        floor.nanos <= age.nanos && age.nanos - floor.nanos <= age.nanos / 10
            ==> state.spec_jitter_catalog_interval(floor, age).nanos == age.nanos
            - spec_full_jitter(
            Duration { nanos: (age.nanos - floor.nanos) as u128 },
            state.policy.seed,
            u64::MAX,
        ).nanos,
{
    let tenth = Duration { nanos: age.nanos / 10 };
    lemma_jitter_bounded(tenth, state.policy.seed, u64::MAX);
    assert(tenth.nanos <= age.nanos);
    if floor.nanos <= age.nanos {
        let slack = Duration { nanos: (age.nanos - floor.nanos) as u128 };
        lemma_jitter_bounded(slack, state.policy.seed, u64::MAX);
    }
    lemma_jitter_bounded(Duration { nanos: 0 }, state.policy.seed, u64::MAX);
}

/// The mixer steps by the golden ratio and folds the word onto itself three
/// times, with a multiplication between the folds.
pub proof fn mixing_folds_the_word(value: u64)
    ensures
        ({
            let stepped = value.wrapping_add(11_400_714_819_323_198_485u64);
            let once = (stepped ^ (stepped >> 30)).wrapping_mul(13_787_848_793_156_543_929u64);
            let twice = (once ^ (once >> 27)).wrapping_mul(10_723_151_780_598_845_931u64);
            spec_mix64(value) == twice ^ (twice >> 31)
        }),
{
}

/// A sound schedule has positive bounds in order, waits for no retry while one is
/// claimed, knows a moment only with a delay, and delays by no more than the
/// ceiling.
pub proof fn sound_schedules_keep_their_bounds(state: ReconnectState)
    requires
        state.wf(),
    ensures
        0 < state.policy.base.nanos,
        state.policy.base.nanos <= state.policy.ceiling.nanos,
        state.active_claim is Some ==> state.current_backoff is None && state.next_retry is None
            && state.next_retry_at is None,
        state.next_retry is Some ==> state.current_backoff is Some,
        state.current_backoff is Some ==> state.current_backoff->0.nanos
            <= state.policy.ceiling.nanos,
{
}

} // verus!
