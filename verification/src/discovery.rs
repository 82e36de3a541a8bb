//! Resolving many tools of one upstream for a discovery.
//!
//! Discovery and invocation apply the same contract and review decisions. A
//! batch is answered only when nothing it rests on moved while it was read.

use vstd::prelude::*;

use crate::admission::{
    admitted_in_catalog, classification_of, find_classification, tool_is_admitted_in_catalog,
};
use crate::binding::{
    fallback_contract, governed_contract, inputs_for, resolve_snapshot_from, resolves_to,
    snapshot_inputs_for, verdict, CatalogLookup, CatalogPolicy, Contract, Inputs,
    InvocationContract, Published, PublishedToolContract, ResolvedInvocationTool, Verdict,
};
use crate::drift::QuarantineThreshold;
use crate::entry::UpstreamEntry;
use crate::error::{discovery_changed, says_catalog_changing, PoolError};
use crate::lane::{some_connected, Connection, LaneModel, Lanes};
use crate::manifest::{ClassificationMode, Manifest, ToolClassification, UpstreamManifest};
use crate::names::has_name;
use crate::tools::{Descriptor, Tool};
use crate::transitions::CatalogTransition;
use crate::value::Value;

verus! {

/// Whether a discovery lists a name at all: it is classified, some lane is
/// connected, in annotation mode every connected lane admits it, and the local
/// quarantine, where it decides, does not withhold it.
pub open spec fn discovery_admits(
    entry: UpstreamEntry,
    local_quarantine_authoritative: bool,
    name: Seq<char>,
) -> bool {
    let manifest = entry.manifest.deep_view();
    let lanes = entry.lanes.deep_view();
    &&& !entry.removed
    &&& classification_of(manifest.tools, name) is Some
    &&& some_connected(lanes)
    &&& manifest.classification_mode == ClassificationMode::McpAnnotations ==> forall|k: int|
        0 <= k < lanes.len() && (#[trigger] lanes[k]) is Some ==> admitted_in_catalog(
            manifest,
            lanes[k]->0.live_tools,
            name,
        )
    &&& local_quarantine_authoritative ==> !entry.quarantined.deep_view().contains(name)
}

pub fn name_is_discoverable(
    entry: &UpstreamEntry,
    local_quarantine_authoritative: bool,
    name: &str,
) -> (b: bool)
    ensures
        b == discovery_admits(*entry, local_quarantine_authoritative, name@),
{
    if entry.removed || find_classification(&entry.manifest.tools, name).is_none() {
        return false;
    }
    if local_quarantine_authoritative && has_name(&entry.quarantined, name) {
        return false;
    }
    let annotated = entry.manifest.classification_mode == ClassificationMode::McpAnnotations;
    let ghost all = entry.lanes.deep_view();
    let mut found = false;
    let mut k: usize = 0;
    while k < entry.lanes.len()
        invariant
            k <= entry.lanes.len(),
            all == entry.lanes.deep_view(),
            annotated == (entry.manifest.classification_mode
                == ClassificationMode::McpAnnotations),
            found <==> exists|j: int| 0 <= j < k && (#[trigger] all[j]) is Some,
            annotated ==> forall|j: int|
                0 <= j < k && (#[trigger] all[j]) is Some ==> admitted_in_catalog(
                    entry.manifest.deep_view(),
                    all[j]->0.live_tools,
                    name@,
                ),
        decreases entry.lanes.len() - k,
    {
        if let Some(conn) = &entry.lanes[k] {
            proof {
                assert(all[k as int] == Some(conn.deep_view()));
            }
            if annotated && !tool_is_admitted_in_catalog(&entry.manifest, &conn.live_tools, name) {
                return false;
            }
            found = true;
        }
        k = k + 1;
    }
    found
}

/// The first tool of a name.
pub open spec fn first_named(tools: Seq<Descriptor>, name: Seq<char>) -> Option<Descriptor>
    decreases tools.len(),
{
    if tools.len() == 0 {
        None
    } else if tools[0].name == name {
        Some(tools[0])
    } else {
        first_named(tools.drop_first(), name)
    }
}

fn find_first_named(tools: &Vec<Tool>, name: &String) -> (r: Option<usize>)
    ensures
        match r {
            Some(i) => i < tools.len() && first_named(tools.deep_view(), name@) == Some(
                tools.deep_view()[i as int],
            ),
            None => first_named(tools.deep_view(), name@) is None,
        },
{
    let mut i: usize = 0;
    proof {
        assert(tools.deep_view().skip(0) =~= tools.deep_view());
    }
    while i < tools.len()
        invariant
            i <= tools.len(),
            first_named(tools.deep_view(), name@) == first_named(
                tools.deep_view().skip(i as int),
                name@,
            ),
        decreases tools.len() - i,
    {
        proof {
            let here = tools.deep_view().skip(i as int);
            assert(here[0] == tools.deep_view()[i as int]);
            assert(here.drop_first() =~= tools.deep_view().skip(i + 1));
        }
        if tools[i].name == *name {
            return Some(i);
        }
        i = i + 1;
    }
    None
}

/// The contract of a published tool, with the behavior hash and the descriptor
/// that the same session listed.
pub open spec fn contract_of(tool: Descriptor, advertised: Option<Descriptor>) -> Published {
    Published {
        definition: Some(tool),
        advertised_definition: advertised,
        input_schema: Some(tool.input_schema),
        output_schema: tool.output_schema,
        tool_annotations: tool.annotations,
        action_metadata: tool.action_metadata,
        claims: tool.claims,
        behavior_hash: match advertised {
            Some(listed) => Some(listed.behavior_hash),
            None => None,
        },
    }
}

/// Nothing is published.
pub open spec fn nothing_published() -> Published {
    Published {
        definition: None,
        advertised_definition: None,
        input_schema: None,
        output_schema: None,
        tool_annotations: None,
        action_metadata: None,
        claims: None,
        behavior_hash: None,
    }
}

/// The contract published for a name: that of the first lane that publishes it.
pub open spec fn published_contract(lanes: Lanes, name: Seq<char>) -> Published
    decreases lanes.len(),
{
    if lanes.len() == 0 {
        nothing_published()
    } else {
        match lanes[0] {
            Some(conn) => match first_named(conn.tools, name) {
                Some(tool) => contract_of(tool, first_named(conn.live_tools, name)),
                None => published_contract(lanes.drop_first(), name),
            },
            None => published_contract(lanes.drop_first(), name),
        }
    }
}

fn lane_contract(conn: &Connection, name: &String) -> (r: Option<PublishedToolContract>)
    ensures
        match first_named(conn.deep_view().tools, name@) {
            Some(tool) => r is Some && r->0.deep_view() == contract_of(
                tool,
                first_named(conn.deep_view().live_tools, name@),
            ),
            None => r is None,
        },
{
    let tool = match find_first_named(&conn.tools, name) {
        Some(i) => &conn.tools[i],
        None => return None,
    };
    let (advertised_definition, behavior_hash) = match find_first_named(&conn.live_tools, name) {
        Some(i) => (
            Some(conn.live_tools[i].dup()),
            Some(conn.live_tools[i].behavior_hash.clone()),
        ),
        None => (None, None),
    };
    Some(
        PublishedToolContract {
            definition: Some(tool.dup()),
            advertised_definition,
            input_schema: Some(tool.input_schema.clone()),
            output_schema: tool.output_schema.dup(),
            tool_annotations: tool.annotations.dup(),
            action_metadata: tool.action_metadata.dup(),
            claims: tool.claims,
            behavior_hash,
        },
    )
}

/// Read the contract published for a name.
pub fn published_tool_contract(lanes: &Vec<Option<Connection>>, name: &String) -> (r:
    PublishedToolContract)
    ensures
        r.deep_view() == published_contract(lanes.deep_view(), name@),
{
    let ghost all = lanes.deep_view();
    let mut k: usize = 0;
    proof {
        assert(all.skip(0) =~= all);
    }
    while k < lanes.len()
        invariant
            k <= lanes.len(),
            all == lanes.deep_view(),
            published_contract(all, name@) == published_contract(all.skip(k as int), name@),
        decreases lanes.len() - k,
    {
        proof {
            let here = all.skip(k as int);
            assert(here[0] == all[k as int]);
            assert(here.drop_first() =~= all.skip(k + 1));
        }
        if let Some(conn) = &lanes[k] {
            if let Some(contract) = lane_contract(conn, name) {
                return contract;
            }
        }
        k = k + 1;
    }
    PublishedToolContract {
        definition: None,
        advertised_definition: None,
        input_schema: None,
        output_schema: None,
        tool_annotations: None,
        action_metadata: None,
        claims: None,
        behavior_hash: None,
    }
}

/// Whether drift of a classified tool would quarantine it.
pub fn protected_on_drift(
    threshold: QuarantineThreshold,
    classification: &ToolClassification,
    mode: ClassificationMode,
) -> (b: bool)
    ensures
        b == threshold.spec_covers(
            classification.risk,
            classification.side_effects || mode == ClassificationMode::McpAnnotations,
        ),
{
    threshold.covers(
        classification.risk,
        classification.side_effects || mode == ClassificationMode::McpAnnotations,
    )
}

/// What was read from storage about one tool.
#[derive(Debug, PartialEq, Eq)]
pub struct DiscoveryReads {
    pub review_allows: bool,
    pub lookup: CatalogLookup,
    /// Transition fence before the catalog was read.
    pub before: Option<CatalogTransition>,
    /// Transition fence afterwards.
    pub after: Option<CatalogTransition>,
    /// Version that the manifest's own declaration stands for.
    pub version_hash: Option<String>,
}

/// The contract that one session publishes for a name, by the descriptor that it
/// publishes.
pub open spec fn held_published(tools: Seq<Descriptor>, name: Seq<char>) -> Published {
    match first_named(tools, name) {
        Some(tool) => Published {
            advertised_definition: None,
            ..contract_of(tool, Some(tool))
        },
        None => nothing_published(),
    }
}

/// Read the contract that a held session publishes for a name.
pub fn held_tool_contract(conn: &Connection, name: &String) -> (r: PublishedToolContract)
    ensures
        r.deep_view() == held_published(conn.deep_view().tools, name@),
{
    match find_first_named(&conn.tools, name) {
        Some(i) => {
            let tool = &conn.tools[i];
            PublishedToolContract {
                definition: Some(tool.dup()),
                advertised_definition: None,
                input_schema: Some(tool.input_schema.clone()),
                output_schema: tool.output_schema.dup(),
                tool_annotations: tool.annotations.dup(),
                action_metadata: tool.action_metadata.dup(),
                claims: tool.claims,
                behavior_hash: Some(tool.behavior_hash.clone()),
            }
        },
        None => PublishedToolContract {
            definition: None,
            advertised_definition: None,
            input_schema: None,
            output_schema: None,
            tool_annotations: None,
            action_metadata: None,
            claims: None,
            behavior_hash: None,
        },
    }
}

/// What resolving a tool on a held session starts from: the manifest that is in
/// force for it and what the session itself publishes.
pub open spec fn held_inputs(
    server: Seq<char>,
    tool: Seq<char>,
    manifest: Manifest,
    conn: LaneModel,
    reads: DiscoveryReads,
) -> Inputs {
    inputs_for(
        Some(manifest),
        server,
        tool,
        reads.version_hash.deep_view(),
        held_published(conn.tools, tool),
    )
}

/// How resolving a tool on a held session ends.
pub open spec fn held_verdict(
    server: Seq<char>,
    tool: Seq<char>,
    manifest: Manifest,
    conn: LaneModel,
    reads: DiscoveryReads,
    policy: CatalogPolicy,
) -> Verdict {
    verdict(
        held_inputs(server, tool, manifest, conn, reads),
        reads.before,
        reads.after,
        reads.lookup,
        policy,
    )
}

/// The contract that a request on a held session would run under, if the tool
/// resolves there.
pub open spec fn held_contract(
    server: Seq<char>,
    tool: Seq<char>,
    manifest: Manifest,
    conn: LaneModel,
    reads: DiscoveryReads,
    policy: CatalogPolicy,
) -> Option<Contract> {
    let inputs = held_inputs(server, tool, manifest, conn, reads);
    match held_verdict(server, tool, manifest, conn, reads, policy) {
        Verdict::Fallback { approval_known } => Some(fallback_contract(inputs, approval_known)),
        Verdict::Governed => Some(governed_contract(inputs, reads.lookup->Live_0.deep_view())),
        _ => None,
    }
}

/// Resolve a tool on a held session.
pub fn resolve_held(
    server: &str,
    tool_name: &String,
    manifest: &UpstreamManifest,
    conn: &Connection,
    reads: &DiscoveryReads,
    policy: CatalogPolicy,
) -> (r: ResolvedInvocationTool)
    ensures
        resolves_to(
            r,
            server@,
            tool_name@,
            held_inputs(server@, tool_name@, manifest.deep_view(), conn.deep_view(), *reads),
            held_verdict(
                server@,
                tool_name@,
                manifest.deep_view(),
                conn.deep_view(),
                *reads,
                policy,
            ),
            reads.lookup,
        ),
{
    let inputs = snapshot_inputs_for(
        Some(manifest),
        server,
        tool_name.as_str(),
        reads.version_hash.dup(),
        held_tool_contract(conn, tool_name),
    );
    resolve_snapshot_from(
        server,
        tool_name.as_str(),
        &inputs,
        reads.before,
        reads.after,
        &reads.lookup,
        policy,
    )
}

/// Whether the contract that was admitted earlier is exactly the one that a
/// request on the held session would run under. A request for which it is not
/// has to be refused.
pub fn admitted_contract_is_current(
    server: &str,
    tool_name: &String,
    manifest: &UpstreamManifest,
    conn: &Connection,
    reads: &DiscoveryReads,
    policy: CatalogPolicy,
    admitted: &InvocationContract,
) -> (b: bool)
    ensures
        b == (held_contract(
            server@,
            tool_name@,
            manifest.deep_view(),
            conn.deep_view(),
            *reads,
            policy,
        ) == Some(admitted.deep_view())),
{
    let resolved = resolve_held(server, tool_name, manifest, conn, reads, policy);
    resolved.admits(admitted)
}

/// The result for one tool of a discovery.
pub open spec fn discovers(
    result: ResolvedInvocationTool,
    server: Seq<char>,
    name: Seq<char>,
    entry: UpstreamEntry,
    local_quarantine_authoritative: bool,
    reads: DiscoveryReads,
    policy: CatalogPolicy,
) -> bool {
    let inputs = inputs_for(
        Some(entry.manifest.deep_view()),
        server,
        name,
        reads.version_hash.deep_view(),
        published_contract(entry.lanes.deep_view(), name),
    );
    let ending = if discovery_admits(entry, local_quarantine_authoritative, name)
        && reads.review_allows {
        verdict(inputs, reads.before, reads.after, reads.lookup, policy)
    } else {
        Verdict::Quarantined
    };
    resolves_to(result, server, name, inputs, ending, reads.lookup)
}

/// Resolve one tool of a discovery.
pub fn resolve_discovered(
    server: &str,
    name: &String,
    entry: &UpstreamEntry,
    local_quarantine_authoritative: bool,
    reads: &DiscoveryReads,
    policy: CatalogPolicy,
) -> (r: ResolvedInvocationTool)
    ensures
        discovers(r, server@, name@, *entry, local_quarantine_authoritative, *reads, policy),
{
    if !name_is_discoverable(entry, local_quarantine_authoritative, name.as_str())
        || !reads.review_allows {
        return ResolvedInvocationTool::Quarantined {
            server: server.to_owned(),
            tool: name.clone(),
        };
    }
    let published = published_tool_contract(&entry.lanes, name);
    let inputs = snapshot_inputs_for(
        Some(&entry.manifest),
        server,
        name.as_str(),
        reads.version_hash.dup(),
        published,
    );
    resolve_snapshot_from(
        server,
        name.as_str(),
        &inputs,
        reads.before,
        reads.after,
        &reads.lookup,
        policy,
    )
}

/// Resolve a batch. A storage that answers for another number of tools than it
/// was asked about is not believed at all.
pub fn resolve_discovery_batch(
    server: &str,
    names: &Vec<String>,
    entry: &UpstreamEntry,
    local_quarantine_authoritative: bool,
    reads: &Vec<DiscoveryReads>,
    policy: CatalogPolicy,
) -> (r: Result<Vec<ResolvedInvocationTool>, PoolError>)
    ensures
        r is Ok <==> reads.len() == names.len(),
        r is Err ==> says_catalog_changing(r->Err_0),
        r is Ok ==> {
            &&& r->Ok_0.len() == names.len()
            &&& forall|i: int|
                0 <= i < names.len() ==> discovers(
                    #[trigger] r->Ok_0@[i],
                    server@,
                    names.deep_view()[i],
                    *entry,
                    local_quarantine_authoritative,
                    reads@[i],
                    policy,
                )
        },
{
    if reads.len() != names.len() {
        return Err(discovery_changed());
    }
    let mut out: Vec<ResolvedInvocationTool> = Vec::new();
    let mut i: usize = 0;
    while i < names.len()
        invariant
            i <= names.len(),
            reads.len() == names.len(),
            out.len() == i,
            forall|j: int|
                0 <= j < i ==> discovers(
                    #[trigger] out@[j],
                    server@,
                    names.deep_view()[j],
                    *entry,
                    local_quarantine_authoritative,
                    reads@[j],
                    policy,
                ),
        decreases names.len() - i,
    {
        let resolved = resolve_discovered(
            server,
            &names[i],
            entry,
            local_quarantine_authoritative,
            &reads[i],
            policy,
        );
        out.push(resolved);
        i = i + 1;
    }
    Ok(out)
}

/// A batch stands only if the entry stayed, no publication began or ended, and
/// the catalog is still of the generation it was when the batch began.
pub fn confirm_discovery(
    removed: bool,
    epoch_before: u64,
    epoch_after: Option<u64>,
    generation_before: Option<i64>,
    generation_after: Option<i64>,
) -> (r: Result<(), PoolError>)
    ensures
        r is Ok <==> !removed && epoch_after == Some(epoch_before) && generation_before
            == generation_after,
        r is Err ==> says_catalog_changing(r->Err_0),
{
    let epoch_stable = match epoch_after {
        Some(epoch) => epoch == epoch_before,
        None => false,
    };
    let generation_stable = match (generation_before, generation_after) {
        (Some(a), Some(b)) => a == b,
        (None, None) => true,
        _ => false,
    };
    if removed || !epoch_stable || !generation_stable {
        return Err(discovery_changed());
    }
    Ok(())
}

/// Discovery never shows a tool that a dispatch would refuse to admit.
pub proof fn discovered_tools_are_admitted(
    entry: UpstreamEntry,
    local_quarantine_authoritative: bool,
    name: Seq<char>,
)
    requires
        discovery_admits(entry, local_quarantine_authoritative, name),
    ensures
        crate::admission::entry_admits(
            entry.lanes.deep_view(),
            entry.manifest.deep_view(),
            name,
        ),
        !entry.removed,
{
}

/// Of several tools of one name the first counts.
pub proof fn the_first_tool_of_a_name_counts(tools: Seq<Descriptor>, name: Seq<char>, i: int)
    requires
        0 <= i <= tools.len(),
        forall|j: int| 0 <= j < i ==> (#[trigger] tools[j]).name != name,
        i < tools.len() ==> tools[i].name == name,
    ensures
        i < tools.len() ==> first_named(tools, name) == Some(tools[i]),
        i == tools.len() ==> first_named(tools, name) is None,
    decreases tools.len(),
{
    if tools.len() > 0 && i > 0 {
        let rest = tools.drop_first();
        assert(tools[0].name != name);
        assert forall|j: int| 0 <= j < i - 1 implies (#[trigger] rest[j]).name != name by {
            assert(tools[j + 1].name != name);
        }
        the_first_tool_of_a_name_counts(rest, name, i - 1);
    }
}

/// The contract of a name is the one of the first connected lane that publishes
/// it: the published tool as clients see it, with the behavior of the tool that
/// the same lane lists under the name.
pub proof fn the_first_publishing_lane_gives_the_contract(
    lanes: Lanes,
    name: Seq<char>,
    n: int,
    i: int,
)
    requires
        0 <= n < lanes.len(),
        lanes[n] is Some,
        0 <= i < lanes[n]->0.tools.len(),
        lanes[n]->0.tools[i].name == name,
        forall|j: int| 0 <= j < i ==> (#[trigger] lanes[n]->0.tools[j]).name != name,
        forall|m: int, j: int|
            0 <= m < n && lanes[m] is Some && 0 <= j < lanes[m]->0.tools.len() ==> (
            #[trigger] lanes[m]->0.tools[j]).name != name,
    ensures
        ({
            let tool = lanes[n]->0.tools[i];
            let listed = lanes[n]->0.live_tools;
            let published = published_contract(lanes, name);
            &&& published.definition == Some(tool)
            &&& published.input_schema == Some(tool.input_schema)
            &&& published.output_schema == tool.output_schema
            &&& published.tool_annotations == tool.annotations
            &&& published.action_metadata == tool.action_metadata
            &&& published.claims == tool.claims
            &&& published.advertised_definition == first_named(listed, name)
            &&& published.behavior_hash is Some <==> first_named(listed, name) is Some
            &&& published.behavior_hash is Some ==> published.behavior_hash->0 == first_named(
                listed,
                name,
            )->0.behavior_hash
        }),
    decreases lanes.len(),
{
    if n == 0 {
        the_first_tool_of_a_name_counts(lanes[0]->0.tools, name, i);
    } else {
        let rest = lanes.drop_first();
        assert(rest[n - 1] == lanes[n]);
        if lanes[0] is Some {
            let tools = lanes[0]->0.tools;
            assert forall|j: int| 0 <= j < tools.len() implies (#[trigger] tools[j]).name
                != name by {
                assert(lanes[0]->0.tools[j].name != name);
            }
            the_first_tool_of_a_name_counts(tools, name, tools.len() as int);
        }
        assert forall|m: int, j: int|
            0 <= m < n - 1 && rest[m] is Some && 0 <= j < rest[m]->0.tools.len() implies (
        #[trigger] rest[m]->0.tools[j]).name != name by {
            assert(lanes[m + 1]->0.tools[j].name != name);
        }
        the_first_publishing_lane_gives_the_contract(rest, name, n - 1, i);
    }
}

/// A name that no connected lane publishes has no contract in any part.
pub proof fn unpublished_names_have_no_contract(lanes: Lanes, name: Seq<char>)
    requires
        forall|m: int, j: int|
            0 <= m < lanes.len() && lanes[m] is Some && 0 <= j < lanes[m]->0.tools.len() ==> (
            #[trigger] lanes[m]->0.tools[j]).name != name,
    ensures
        ({
            let published = published_contract(lanes, name);
            &&& published.definition is None
            &&& published.advertised_definition is None
            &&& published.input_schema is None
            &&& published.output_schema is None
            &&& published.tool_annotations is None
            &&& published.action_metadata is None
            &&& published.claims is None
            &&& published.behavior_hash is None
        }),
    decreases lanes.len(),
{
    if lanes.len() > 0 {
        let rest = lanes.drop_first();
        if lanes[0] is Some {
            let tools = lanes[0]->0.tools;
            assert forall|j: int| 0 <= j < tools.len() implies (#[trigger] tools[j]).name
                != name by {
                assert(lanes[0]->0.tools[j].name != name);
            }
            the_first_tool_of_a_name_counts(tools, name, tools.len() as int);
        }
        assert forall|m: int, j: int|
            0 <= m < rest.len() && rest[m] is Some && 0 <= j < rest[m]->0.tools.len() implies (
        #[trigger] rest[m]->0.tools[j]).name != name by {
            assert(lanes[m + 1]->0.tools[j].name != name);
        }
        unpublished_names_have_no_contract(rest, name);
    }
}

/// On a held session the contract of a name is the first tool that the session
/// publishes under it, with that tool's own behavior.
pub proof fn a_held_session_gives_its_own_contract(tools: Seq<Descriptor>, name: Seq<char>, i: int)
    requires
        0 <= i <= tools.len(),
        forall|j: int| 0 <= j < i ==> (#[trigger] tools[j]).name != name,
        i < tools.len() ==> tools[i].name == name,
    ensures
        ({
            let published = held_published(tools, name);
            &&& i < tools.len() ==> {
                &&& published.definition == Some(tools[i])
                &&& published.input_schema == Some(tools[i].input_schema)
                &&& published.output_schema == tools[i].output_schema
                &&& published.tool_annotations == tools[i].annotations
                &&& published.action_metadata == tools[i].action_metadata
                &&& published.claims == tools[i].claims
                &&& published.behavior_hash == Some(tools[i].behavior_hash)
            }
            &&& i == tools.len() ==> {
                &&& published.definition is None
                &&& published.input_schema is None
                &&& published.output_schema is None
                &&& published.tool_annotations is None
                &&& published.action_metadata is None
                &&& published.claims is None
                &&& published.behavior_hash is None
            }
        }),
{
    the_first_tool_of_a_name_counts(tools, name, i);
}

/// A tool can be discovered exactly where its upstream is not being removed, its
/// name is declared, a lane is connected, no quarantine that counts names it and,
/// under the annotation authority, the catalog of every connected lane admits it.
pub proof fn declared_tools_of_connected_upstreams_are_discoverable(
    entry: UpstreamEntry,
    local_quarantine_authoritative: bool,
    name: Seq<char>,
)
    ensures
        ({
            let manifest = entry.manifest.deep_view();
            let lanes = entry.lanes.deep_view();
            discovery_admits(entry, local_quarantine_authoritative, name) <==> {
                &&& !entry.removed
                &&& exists|k: int|
                    0 <= k < manifest.tools.len() && (#[trigger] manifest.tools[k]).name == name
                &&& exists|n: int| 0 <= n < lanes.len() && (#[trigger] lanes[n]) is Some
                &&& !local_quarantine_authoritative || !entry.quarantined.deep_view().contains(name)
                &&& manifest.classification_mode == ClassificationMode::Manifest || forall|n: int|
                    0 <= n < lanes.len() && (#[trigger] lanes[n]) is Some ==> admitted_in_catalog(
                        manifest,
                        lanes[n]->0.live_tools,
                        name,
                    )
            }
        }),
{
    crate::admission::lemma_classification_of(entry.manifest.deep_view().tools, name);
}

/// A discovery refuses what may not be discovered and what no review allows, and
/// binds everything else to its declaration, its publication and the catalog.
pub proof fn discovery_binds_what_it_admits(
    result: ResolvedInvocationTool,
    server: Seq<char>,
    name: Seq<char>,
    entry: UpstreamEntry,
    local_quarantine_authoritative: bool,
    reads: DiscoveryReads,
    policy: CatalogPolicy,
)
    requires
        discovers(result, server, name, entry, local_quarantine_authoritative, reads, policy),
    ensures
        !discovery_admits(entry, local_quarantine_authoritative, name) || !reads.review_allows
            ==> result is Quarantined && result->Quarantined_server@ == server
            && result->Quarantined_tool@ == name,
        discovery_admits(entry, local_quarantine_authoritative, name) && reads.review_allows ==> ({
            let inputs = inputs_for(
                Some(entry.manifest.deep_view()),
                server,
                name,
                reads.version_hash.deep_view(),
                published_contract(entry.lanes.deep_view(), name),
            );
            resolves_to(
                result,
                server,
                name,
                inputs,
                verdict(inputs, reads.before, reads.after, reads.lookup, policy),
                reads.lookup,
            )
        }),
{
}

/// Under the manifest authority a discovery never shows a tool by a catalog row
/// of another version than the manifest declares.
pub proof fn stale_rows_are_never_discovered(
    result: ResolvedInvocationTool,
    server: Seq<char>,
    name: Seq<char>,
    entry: UpstreamEntry,
    local_quarantine_authoritative: bool,
    reads: DiscoveryReads,
    policy: CatalogPolicy,
    version: Seq<char>,
)
    requires
        discovers(result, server, name, entry, local_quarantine_authoritative, reads, policy),
        entry.manifest.classification_mode == ClassificationMode::Manifest,
        reads.version_hash.deep_view() == Some(version),
        reads.lookup is Live,
        reads.lookup->Live_0.schema_hash@ != version,
    ensures
        result is Quarantined,
{
    let manifest = entry.manifest.deep_view();
    crate::admission::lemma_classification_of(manifest.tools, name);
}

/// A request on a held session is bound by the rules of every other resolution,
/// to what that session publishes; it has a contract exactly where those rules
/// give it one.
pub proof fn a_held_session_is_bound_by_the_same_rules(
    server: Seq<char>,
    tool: Seq<char>,
    manifest: Manifest,
    conn: LaneModel,
    reads: DiscoveryReads,
    policy: CatalogPolicy,
)
    ensures
        ({
            let inputs = inputs_for(
                Some(manifest),
                server,
                tool,
                reads.version_hash.deep_view(),
                held_published(conn.tools, tool),
            );
            let ending = verdict(inputs, reads.before, reads.after, reads.lookup, policy);
            let contract = held_contract(server, tool, manifest, conn, reads, policy);
            &&& held_inputs(server, tool, manifest, conn, reads) == inputs
            &&& held_verdict(server, tool, manifest, conn, reads, policy) == ending
            &&& ending == Verdict::Quarantined || ending == Verdict::Unavailable ==> contract is None
            &&& ending == Verdict::Governed ==> contract == Some(
                governed_contract(inputs, reads.lookup->Live_0.deep_view()),
            )
            &&& ending is Fallback ==> contract == Some(
                fallback_contract(inputs, ending->approval_known),
            )
        }),
{
}

/// Under the manifest authority no request runs by a catalog row of another
/// version than the manifest declares, and one that runs by a row runs by its
/// version.
pub proof fn stale_rows_are_never_current(
    server: Seq<char>,
    tool: Seq<char>,
    manifest: Manifest,
    conn: LaneModel,
    reads: DiscoveryReads,
    policy: CatalogPolicy,
    version: Seq<char>,
    k: int,
)
    requires
        manifest.classification_mode == ClassificationMode::Manifest,
        0 <= k < manifest.tools.len(),
        manifest.tools[k].name == tool,
        reads.version_hash.deep_view() == Some(version),
        reads.lookup is Live,
    ensures
        reads.lookup->Live_0.schema_hash@ != version ==> held_contract(
            server,
            tool,
            manifest,
            conn,
            reads,
            policy,
        ) is None,
        held_contract(server, tool, manifest, conn, reads, policy) is Some ==> held_contract(
            server,
            tool,
            manifest,
            conn,
            reads,
            policy,
        )->0.version == Some(version),
{
    crate::admission::lemma_classification_of(manifest.tools, tool);
}

} // verus!
