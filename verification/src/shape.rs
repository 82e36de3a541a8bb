//! What a manifest means for the connections that serve it.

use vstd::prelude::*;

use crate::manifest::{
    ApprovalMode, Auth, Classification, ClassificationMode, Exchange, Manifest, Mtls,
    SessionConfig, SessionIsolation, ToolClassification, Transport, UpstreamAuth,
    UpstreamManifest, UpstreamProtocol,
};
use crate::value::Value;

verus! {

/// Everything about a manifest that is baked into a connection at dial time.
#[verifier::ext_equal]
pub struct ConnectionShape {
    pub transport: Transport,
    pub protocol: UpstreamProtocol,
    pub url: Option<Seq<char>>,
    pub command: Option<Seq<Seq<char>>>,
    pub auth: Option<Auth>,
    pub mtls: Option<Mtls>,
    pub isolation: Option<SessionIsolation>,
    pub concurrency: Option<usize>,
}

/// Everything about a manifest that a live re-dial commits in one step: the
/// connection shape, and the identity posture and setup-retry policy that have
/// to land with it.
#[verifier::ext_equal]
pub struct CommittedFields {
    pub shape: ConnectionShape,
    pub retry_on_setup_failure: Option<bool>,
    pub exchange: Option<Exchange>,
    pub tier_a_required: bool,
    pub tier_c_peer: Option<u128>,
}

impl Manifest {
    pub open spec fn shape(self) -> ConnectionShape {
        ConnectionShape {
            transport: self.transport,
            protocol: self.protocol,
            url: self.url,
            command: self.command,
            auth: self.auth,
            mtls: self.mtls,
            isolation: match self.session {
                Some(session) => session.isolation,
                None => None,
            },
            concurrency: match self.session {
                Some(session) => session.concurrency,
                None => None,
            },
        }
    }

    pub open spec fn setup_retry(self) -> Option<bool> {
        match self.session {
            Some(session) => session.retry_on_setup_failure,
            None => None,
        }
    }

    pub open spec fn committed(self) -> CommittedFields {
        CommittedFields {
            shape: self.shape(),
            retry_on_setup_failure: self.setup_retry(),
            exchange: self.exchange,
            tier_a_required: self.tier_a_required,
            tier_c_peer: self.tier_c_peer,
        }
    }

    /// Whether the upstream is reached over the network.
    pub open spec fn networked(self) -> bool {
        self.transport != Transport::Stdio
    }

    /// Whether native resource operations may run on this upstream: they carry
    /// no exchanged or federated identity.
    pub open spec fn serves_resources(self) -> bool {
        !self.tier_a_required && self.exchange is None && self.tier_c_peer is None
    }
}

pub fn matches_transport(a: Transport, b: Transport) -> (r: bool)
    ensures
        r == (a == b),
{
    a == b
}

/// Compare dial-time credentials.
pub fn auth_eq(a: &Option<UpstreamAuth>, b: &Option<UpstreamAuth>) -> (r: bool)
    ensures
        r == (a.deep_view() == b.deep_view()),
{
    match (a, b) {
        (None, None) => true,
        (Some(a), Some(b)) => a.bearer_env.same(&b.bearer_env) && a.catalog_probe_groups.same(
            &b.catalog_probe_groups,
        ),
        _ => false,
    }
}

/// Compare only the session fields that shape live connections; an absent
/// session block counts as an empty one. The setup-retry policy is read per
/// call and does not count.
pub fn session_connection_shape_eq(a: &Option<SessionConfig>, b: &Option<SessionConfig>) -> (r:
    bool)
    ensures
        r == ((match a.deep_view() {
            Some(s) => (s.isolation, s.concurrency),
            None => (None, None),
        }) == (match b.deep_view() {
            Some(s) => (s.isolation, s.concurrency),
            None => (None, None),
        })),
{
    let (isolation_a, concurrency_a) = match a {
        Some(s) => (s.isolation, s.concurrency),
        None => (None, None),
    };
    let (isolation_b, concurrency_b) = match b {
        Some(s) => (s.isolation, s.concurrency),
        None => (None, None),
    };
    isolation_a.same(&isolation_b) && concurrency_a.same(&concurrency_b)
}

/// Whether two manifests ask for the same connections.
pub fn connection_shape_eq(a: &UpstreamManifest, b: &UpstreamManifest) -> (r: bool)
    ensures
        r == (a.deep_view().shape() == b.deep_view().shape()),
{
    matches_transport(a.transport, b.transport) && a.protocol == b.protocol && a.url.same(&b.url)
        && a.command.same(&b.command) && auth_eq(&a.auth, &b.auth) && a.mtls.same(&b.mtls)
        && session_connection_shape_eq(&a.session, &b.session)
}

fn setup_retry_of(manifest: &UpstreamManifest) -> (r: Option<bool>)
    ensures
        r == manifest.deep_view().setup_retry(),
{
    match &manifest.session {
        Some(session) => session.retry_on_setup_failure,
        None => None,
    }
}

pub fn setup_retry_policy_eq(a: &UpstreamManifest, b: &UpstreamManifest) -> (r: bool)
    ensures
        r == (a.deep_view().setup_retry() == b.deep_view().setup_retry()),
{
    setup_retry_of(a).same(&setup_retry_of(b))
}

/// Whether two manifests agree on every field a live re-dial commits. This is
/// the comparison of the commit-time compare-and-swap: a slow older re-dial
/// neither rolls back a newer one's shape nor clobbers a newer reload's
/// identity posture. Classifications are not written by a re-dial and may drift.
pub fn redial_committed_fields_eq(a: &UpstreamManifest, b: &UpstreamManifest) -> (r: bool)
    ensures
        r == (a.deep_view().committed() == b.deep_view().committed()),
{
    connection_shape_eq(a, b) && setup_retry_policy_eq(a, b) && a.exchange.same(&b.exchange)
        && a.tier_a_required == b.tier_a_required && a.tier_c_peer.same(&b.tier_c_peer)
}

/// Whether two manifests share the connection shape a reload's re-dial commits
/// under.
pub fn manifest_connection_shape_eq(a: &UpstreamManifest, b: &UpstreamManifest) -> (r: bool)
    ensures
        r == (a.deep_view().committed() == b.deep_view().committed()),
{
    redial_committed_fields_eq(a, b)
}

/// Whether a live reload must refuse this edit of an existing server, so that
/// resource ownership never advances apart from the backend that serves it.
pub fn resource_shape_change_requires_restart(
    current: &UpstreamManifest,
    candidate: &UpstreamManifest,
) -> (r: bool)
    ensures
        r == (current.deep_view().resources != candidate.deep_view().resources
            && current.deep_view().shape() != candidate.deep_view().shape()),
{
    !current.resources.same(&candidate.resources) && !connection_shape_eq(current, candidate)
}

/// Whether native resource operations may run on an upstream.
pub fn manifest_supports_resource_operations(manifest: &UpstreamManifest) -> (r: bool)
    ensures
        r == manifest.deep_view().serves_resources(),
{
    !manifest.tier_a_required && manifest.exchange.is_none() && manifest.tier_c_peer.is_none()
}

/// Number of connection lanes of an upstream: one child process, or as many as
/// the manifest asks for, or the default of the pool, and at least one.
pub open spec fn spec_slot_count(manifest: Manifest, pool_size: usize) -> usize {
    if !manifest.networked() {
        1
    } else {
        let asked = match manifest.shape().concurrency {
            Some(n) => n,
            None => pool_size,
        };
        if asked == 0 {
            1
        } else {
            asked
        }
    }
}

pub fn slot_count(manifest: &UpstreamManifest, pool_size: usize) -> (n: usize)
    ensures
        n == spec_slot_count(manifest.deep_view(), pool_size),
        n >= 1,
{
    match manifest.transport {
        Transport::Stdio => 1,
        Transport::Http | Transport::Sse => {
            let asked: usize = match &manifest.session {
                Some(session) => session.concurrency.unwrap_or(pool_size),
                None => pool_size,
            };
            if asked == 0 {
                1
            } else {
                asked
            }
        },
    }
}

/// The session isolation that governs an upstream: what the manifest asks for
/// on the network, a session per call where it asks for nothing, and always
/// the one long-lived session of a child process.
pub open spec fn spec_resolve_isolation(manifest: Manifest) -> SessionIsolation {
    if !manifest.networked() {
        SessionIsolation::Reuse
    } else {
        match manifest.shape().isolation {
            Some(isolation) => isolation,
            None => SessionIsolation::PerCall,
        }
    }
}

pub fn resolve_isolation(manifest: &UpstreamManifest) -> (r: SessionIsolation)
    ensures
        r == spec_resolve_isolation(manifest.deep_view()),
{
    match manifest.transport {
        Transport::Stdio => SessionIsolation::Reuse,
        Transport::Http | Transport::Sse => match &manifest.session {
            Some(session) => session.isolation.unwrap_or(SessionIsolation::PerCall),
            None => SessionIsolation::PerCall,
        },
    }
}

/// Whether a change of manifest provably keeps the number of lanes, whatever
/// the default of the pool: both are child processes, or both are networked
/// and ask for the same concurrency.
pub open spec fn lanes_stay(before: Manifest, after: Manifest) -> bool {
    &&& before.networked() == after.networked()
    &&& after.networked() ==> before.shape().concurrency == after.shape().concurrency
}

pub fn slot_count_stable(before: &UpstreamManifest, after: &UpstreamManifest) -> (r: bool)
    ensures
        r == lanes_stay(before.deep_view(), after.deep_view()),
{
    let before_net = before.transport != Transport::Stdio;
    let after_net = after.transport != Transport::Stdio;
    if before_net != after_net {
        return false;
    }
    if !after_net {
        return true;
    }
    let before_count: Option<usize> = match &before.session {
        Some(session) => session.concurrency,
        None => None,
    };
    let after_count: Option<usize> = match &after.session {
        Some(session) => session.concurrency,
        None => None,
    };
    before_count.same(&after_count)
}

/// The last classification of a name.
pub open spec fn last_classification(
    classifications: Seq<Classification>,
    name: Seq<char>,
) -> Option<Classification>
    decreases classifications.len(),
{
    if classifications.len() == 0 {
        None
    } else if classifications.last().name == name {
        Some(classifications.last())
    } else {
        last_classification(classifications.drop_last(), name)
    }
}

fn find_last_classification(classifications: &Vec<ToolClassification>, name: &String) -> (r: Option<
    usize,
>)
    ensures
        match r {
            Some(i) => i < classifications.len() && last_classification(
                classifications.deep_view(),
                name@,
            ) == Some(classifications.deep_view()[i as int]),
            None => last_classification(classifications.deep_view(), name@) is None,
        },
{
    let mut i: usize = classifications.len();
    proof {
        assert(classifications.deep_view().take(classifications.len() as int)
            =~= classifications.deep_view());
    }
    while i > 0
        invariant
            i <= classifications.len(),
            last_classification(classifications.deep_view(), name@) == last_classification(
                classifications.deep_view().take(i as int),
                name@,
            ),
        decreases i,
    {
        proof {
            let here = classifications.deep_view().take(i as int);
            assert(here.drop_last() =~= classifications.deep_view().take(i - 1));
            assert(here.last() == classifications.deep_view()[i - 1]);
        }
        i = i - 1;
        if classifications[i].name == *name {
            return Some(i);
        }
    }
    None
}

/// Whether the authorization-bearing declaration of a tool is another one than
/// the current manifest holds.
pub open spec fn declaration_changes(current: Manifest, target: Manifest, tool: Classification) -> bool {
    ||| current.classification_mode != target.classification_mode
    ||| current.approval_mode != target.approval_mode
    ||| last_classification(current.tools, tool.name) != Some(tool)
}

/// Names of the target's tools whose declaration changes, in manifest order.
pub open spec fn changed_tool_names(current: Manifest, target: Manifest) -> Seq<Seq<char>> {
    target.tools.filter(|tool: Classification| declaration_changes(current, target, tool)).map_values(
        |tool: Classification| tool.name,
    )
}

/// Tools of the target manifest whose authorization-bearing declaration
/// changes. Removed tools stop being published; what counts is every call that
/// can become newly or differently authorized.
pub fn changed_classified_tools(current: &UpstreamManifest, target: &UpstreamManifest) -> (r: Vec<
    String,
>)
    ensures
        r.deep_view() == changed_tool_names(current.deep_view(), target.deep_view()),
{
    let authority_changes = current.classification_mode != target.classification_mode
        || current.approval_mode != target.approval_mode;
    let ghost before = current.deep_view();
    let ghost after = target.deep_view();
    let ghost changes = |tool: Classification| declaration_changes(before, after, tool);
    let ghost name_of = |tool: Classification| tool.name;
    let mut out: Vec<String> = Vec::new();
    let mut i: usize = 0;
    proof {
        assert(after.tools.take(0).filter(changes) =~= Seq::<Classification>::empty()) by {
            reveal(Seq::filter);
        }
        assert(out.deep_view() =~= after.tools.take(0).filter(changes).map_values(name_of));
    }
    while i < target.tools.len()
        invariant
            i <= target.tools.len(),
            before == current.deep_view(),
            after == target.deep_view(),
            authority_changes == (before.classification_mode != after.classification_mode
                || before.approval_mode != after.approval_mode),
            changes == (|tool: Classification| declaration_changes(before, after, tool)),
            name_of == (|tool: Classification| tool.name),
            out.deep_view() == after.tools.take(i as int).filter(changes).map_values(name_of),
        decreases target.tools.len() - i,
    {
        let tool = &target.tools[i];
        let unchanged = match find_last_classification(&current.tools, &tool.name) {
            Some(k) => current.tools[k].same(tool),
            None => false,
        };
        let ghost listed = out.deep_view();
        proof {
            let next = after.tools.take(i + 1);
            assert(next.drop_last() =~= after.tools.take(i as int));
            assert(next.last() == tool.deep_view());
            reveal(Seq::filter);
        }
        if authority_changes || !unchanged {
            out.push(tool.name.clone());
            proof {
                assert(out.deep_view() =~= listed.push(tool.deep_view().name));
                assert(after.tools.take(i as int).filter(changes).push(
                    tool.deep_view(),
                ).map_values(name_of) =~= listed.push(tool.deep_view().name));
            }
        }
        i = i + 1;
    }
    proof {
        assert(after.tools.take(after.tools.len() as int) =~= after.tools);
    }
    out
}

/// The manifest pinned to the 2026-07-28 generation.
pub fn pinned_2026_manifest(manifest: &UpstreamManifest) -> (r: UpstreamManifest)
    ensures
        r.deep_view() == (Manifest {
            protocol: UpstreamProtocol::V20260728,
            ..manifest.deep_view()
        }),
{
    let mut pinned = manifest.dup();
    pinned.protocol = UpstreamProtocol::V20260728;
    pinned
}

/// A shape change that provably keeps the number of lanes keeps it under every
/// default of the pool.
pub proof fn stable_lanes_keep_their_number(before: Manifest, after: Manifest, pool_size: usize)
    requires
        lanes_stay(before, after),
    ensures
        spec_slot_count(before, pool_size) == spec_slot_count(after, pool_size),
{
}

/// Editing classifications, the approval mode or resource claims alone changes
/// nothing that a re-dial commits.
pub proof fn catalog_edits_keep_committed_fields(
    manifest: Manifest,
    tools: Seq<Classification>,
    classification_mode: ClassificationMode,
    approval_mode: ApprovalMode,
    resources: Seq<crate::manifest::Claim>,
)
    ensures
        (Manifest { tools, classification_mode, approval_mode, resources, ..manifest }).committed()
            == manifest.committed(),
{
}

/// On the network the isolation that the session block names is the one that
/// governs; a session per call is the default where none is named. A child
/// process keeps its one session whatever is named.
pub proof fn a_named_isolation_governs(manifest: Manifest, named: SessionIsolation)
    ensures
        manifest.transport == Transport::Stdio ==> spec_resolve_isolation(manifest)
            == SessionIsolation::Reuse,
        manifest.transport != Transport::Stdio && manifest.session is Some
            && manifest.session->0.isolation == Some(named) ==> spec_resolve_isolation(manifest)
            == named,
        manifest.transport != Transport::Stdio && (manifest.session is None
            || manifest.session->0.isolation is None) ==> spec_resolve_isolation(manifest)
            == SessionIsolation::PerCall,
{
}

/// On the network an upstream has as many lanes as its session block asks for,
/// and the default of the pool where it asks for no number; it has one where the
/// number is zero, and a child process has one in any case.
pub proof fn a_named_concurrency_sets_the_lanes(manifest: Manifest, pool_size: usize, asked: usize)
    ensures
        manifest.transport == Transport::Stdio ==> spec_slot_count(manifest, pool_size) == 1,
        manifest.transport != Transport::Stdio && manifest.session is Some
            && manifest.session->0.concurrency == Some(asked) && asked > 0 ==> spec_slot_count(
            manifest,
            pool_size,
        ) == asked,
        manifest.transport != Transport::Stdio && manifest.session is Some
            && manifest.session->0.concurrency == Some(0usize) ==> spec_slot_count(
            manifest,
            pool_size,
        ) == 1,
        manifest.transport != Transport::Stdio && (manifest.session is None
            || manifest.session->0.concurrency is None) ==> spec_slot_count(manifest, pool_size)
            == if pool_size > 0 {
            pool_size
        } else {
            1
        },
{
}

/// Two manifests ask for the same connections exactly where they agree on every
/// field that is used in dialing; a session block that names neither isolation
/// nor concurrency asks for no more than an absent one.
pub proof fn shape_is_every_dialed_field(a: Manifest, b: Manifest)
    ensures
        a.shape() == b.shape() <==> {
            &&& a.transport == b.transport
            &&& a.protocol == b.protocol
            &&& a.url == b.url
            &&& a.command == b.command
            &&& a.auth == b.auth
            &&& a.mtls == b.mtls
            &&& (if a.session is Some {
                a.session->0.isolation
            } else {
                None
            }) == (if b.session is Some {
                b.session->0.isolation
            } else {
                None
            })
            &&& (if a.session is Some {
                a.session->0.concurrency
            } else {
                None
            }) == (if b.session is Some {
                b.session->0.concurrency
            } else {
                None
            })
        },
{
}

/// Two manifests agree on what a re-dial commits exactly where they ask for the
/// same connections, retry a failed setup alike, and hold the same identity
/// posture.
pub proof fn committed_fields_are_shape_retry_and_posture(a: Manifest, b: Manifest)
    ensures
        a.committed() == b.committed() <==> {
            &&& a.shape() == b.shape()
            &&& (if a.session is Some {
                a.session->0.retry_on_setup_failure
            } else {
                None
            }) == (if b.session is Some {
                b.session->0.retry_on_setup_failure
            } else {
                None
            })
            &&& a.exchange == b.exchange
            &&& a.tier_a_required == b.tier_a_required
            &&& a.tier_c_peer == b.tier_c_peer
        },
        a.setup_retry() == b.setup_retry() <==> (if a.session is Some {
            a.session->0.retry_on_setup_failure
        } else {
            None
        }) == (if b.session is Some {
            b.session->0.retry_on_setup_failure
        } else {
            None
        }),
        a.session is Some ==> a.setup_retry() == a.session->0.retry_on_setup_failure,
        a.session is None ==> a.setup_retry() is None,
{
}

/// Native resource operations run exactly on the upstreams that ask for no
/// caller identity, no token exchange and no federated peer.
pub proof fn resources_need_no_identity(manifest: Manifest)
    ensures
        manifest.tier_a_required ==> !manifest.serves_resources(),
        manifest.exchange is Some ==> !manifest.serves_resources(),
        manifest.tier_c_peer is Some ==> !manifest.serves_resources(),
        !manifest.tier_a_required && manifest.exchange is None && manifest.tier_c_peer is None
            ==> manifest.serves_resources(),
{
}

/// Lanes stay where two child processes, or two networked upstreams of the same
/// named concurrency, follow each other, and nowhere else.
pub proof fn lanes_stay_under_one_concurrency(before: Manifest, after: Manifest)
    ensures
        before.transport == Transport::Stdio && after.transport == Transport::Stdio
            ==> lanes_stay(before, after),
        (before.transport == Transport::Stdio) != (after.transport == Transport::Stdio)
            ==> !lanes_stay(before, after),
        before.transport != Transport::Stdio && after.transport != Transport::Stdio ==> (lanes_stay(
            before,
            after,
        ) <==> (if before.session is Some {
            before.session->0.concurrency
        } else {
            None
        }) == (if after.session is Some {
            after.session->0.concurrency
        } else {
            None
        })),
{
}

/// A name is governed by the last declaration that carries it when declarations
/// of two manifests are compared.
pub proof fn the_last_declaration_of_a_name_counts(
    classifications: Seq<Classification>,
    name: Seq<char>,
    k: int,
)
    requires
        -1 <= k < classifications.len(),
        forall|j: int| k < j < classifications.len() ==> (#[trigger] classifications[j]).name != name,
        0 <= k ==> classifications[k].name == name,
    ensures
        0 <= k ==> last_classification(classifications, name) == Some(classifications[k]),
        k < 0 ==> last_classification(classifications, name) is None,
    decreases classifications.len(),
{
    if classifications.len() > 0 && k < classifications.len() - 1 {
        let front = classifications.drop_last();
        assert(classifications[classifications.len() - 1].name != name);
        assert forall|j: int| k < j < front.len() implies (#[trigger] front[j]).name != name by {
            assert(classifications[j].name != name);
        }
        the_last_declaration_of_a_name_counts(front, name, k);
    }
}

proof fn lemma_last_classification_is_declared(
    classifications: Seq<Classification>,
    name: Seq<char>,
)
    ensures
        last_classification(classifications, name) is Some ==> classifications.contains(
            last_classification(classifications, name)->0,
        ),
    decreases classifications.len(),
{
    if classifications.len() > 0 {
        let front = classifications.drop_last();
        if classifications.last().name == name {
            assert(classifications[classifications.len() - 1] == classifications.last());
        } else {
            lemma_last_classification_is_declared(front, name);
            if last_classification(front, name) is Some {
                let k = choose|k: int|
                    0 <= k < front.len() && front[k] == last_classification(front, name)->0;
                assert(classifications[k] == front[k]);
            }
        }
    }
}

/// Every tool of the target that the current manifest does not hold exactly as
/// it is has a changed declaration, and so has every tool of the target where
/// the authority or the approval mode changes.
pub proof fn new_declarations_are_changes(current: Manifest, target: Manifest, i: int)
    requires
        0 <= i < target.tools.len(),
        !current.tools.contains(target.tools[i]) || current.classification_mode
            != target.classification_mode || current.approval_mode != target.approval_mode,
    ensures
        changed_tool_names(current, target).contains(target.tools[i].name),
{
    let changes = |tool: Classification| declaration_changes(current, target, tool);
    let kept = target.tools.filter(changes);
    lemma_last_classification_is_declared(current.tools, target.tools[i].name);
    assert(changes(target.tools[i]));
    target.tools.lemma_filter_contains(changes, i);
    let at = choose|at: int| 0 <= at < kept.len() && kept[at] == target.tools[i];
    assert(changed_tool_names(current, target)[at] == target.tools[i].name);
}

/// Only tools of the target are changes, and a name that both manifests declare
/// once, alike and under the same modes is none.
pub proof fn kept_declarations_are_no_changes(current: Manifest, target: Manifest, name: Seq<char>)
    ensures
        changed_tool_names(current, target).contains(name) ==> exists|i: int|
            0 <= i < target.tools.len() && (#[trigger] target.tools[i]).name == name,
        current.classification_mode == target.classification_mode && current.approval_mode
            == target.approval_mode && (forall|i: int, j: int|
            0 <= i < target.tools.len() && 0 <= j < current.tools.len() && (
            #[trigger] target.tools[i]).name == name && (#[trigger] current.tools[j]).name == name
                ==> target.tools[i] == current.tools[j]) && (exists|j: int|
            0 <= j < current.tools.len() && (#[trigger] current.tools[j]).name == name)
            ==> !changed_tool_names(current, target).contains(name),
{
    let changes = |tool: Classification| declaration_changes(current, target, tool);
    let kept = target.tools.filter(changes);
    let names = changed_tool_names(current, target);
    if names.contains(name) {
        let at = choose|at: int| 0 <= at < names.len() && names[at] == name;
        assert(kept[at].name == name);
        target.tools.lemma_filter_pred(changes, at);
        target.tools.lemma_filter_contains_rev(changes, kept[at]);
        let i = choose|i: int| 0 <= i < target.tools.len() && target.tools[i] == kept[at];
        assert(target.tools[i].name == name);
        if exists|j: int| 0 <= j < current.tools.len() && (#[trigger] current.tools[j]).name == name {
            lemma_some_last_classification(current.tools, name);
            lemma_last_classification_is_declared(current.tools, name);
            let held = last_classification(current.tools, name)->0;
            let j = choose|j: int| 0 <= j < current.tools.len() && current.tools[j] == held;
            assert(current.tools[j].name == name);
            assert(changes(kept[at]));
        }
    }
}

proof fn lemma_some_last_classification(classifications: Seq<Classification>, name: Seq<char>)
    requires
        exists|j: int| 0 <= j < classifications.len() && (#[trigger] classifications[j]).name == name,
    ensures
        last_classification(classifications, name) is Some,
        last_classification(classifications, name)->0.name == name,
    decreases classifications.len(),
{
    let j = choose|j: int|
        0 <= j < classifications.len() && (#[trigger] classifications[j]).name == name;
    if classifications.last().name != name {
        let front = classifications.drop_last();
        assert(front[j].name == name);
        lemma_some_last_classification(front, name);
    }
}

/// An upstream is networked exactly where it is not a child process.
pub proof fn only_child_processes_are_local(manifest: Manifest)
    ensures
        manifest.transport == Transport::Stdio ==> !manifest.networked(),
        manifest.transport == Transport::Http ==> manifest.networked(),
        manifest.transport == Transport::Sse ==> manifest.networked(),
{
}

/// A manifest of which every tool is new, or that changes the authority or the
/// approval mode, has all of its tools changed, in its own order.
pub proof fn a_new_authority_changes_every_tool(current: Manifest, target: Manifest)
    requires
        current.classification_mode != target.classification_mode || current.approval_mode
            != target.approval_mode || forall|i: int|
            0 <= i < target.tools.len() ==> !current.tools.contains(#[trigger] target.tools[i]),
    ensures
        changed_tool_names(current, target).len() == target.tools.len(),
        forall|i: int|
            0 <= i < target.tools.len() ==> #[trigger] changed_tool_names(current, target)[i]
                == target.tools[i].name,
{
    let changes = |tool: Classification| declaration_changes(current, target, tool);
    assert forall|i: int| 0 <= i < target.tools.len() implies changes(#[trigger] target.tools[i]) by {
        lemma_last_classification_is_declared(current.tools, target.tools[i].name);
    }
    crate::names::lemma_filter_of_all(target.tools, changes);
}

} // verus!
