//! Resolving tools against the pool's state and what storage said of them.

use vstd::prelude::*;

use crate::admission::{
    a_name_takes_its_first_classification, entry_admits, entry_tool_is_admitted,
    lemma_classification_of,
};
use crate::binding::{
    inputs_for, resolve_snapshot_from, resolves_to, snapshot_inputs_for, verdict, Inputs,
    InvocationContract, Published, PublishedToolContract, ResolvedInvocationTool, SnapshotInputs,
    Verdict,
};
use crate::discovery::{
    admitted_contract_is_current, confirm_discovery, discovers, held_contract, held_published,
    held_verdict, nothing_published, published_contract, published_tool_contract, resolve_discovery_batch,
    resolve_held, DiscoveryReads,
};
use crate::error::{
    discovery_changed, plain, says_catalog_changing, unknown_upstream, ErrorKind, PoolError,
};
use crate::facts::{refinements, tier_of};
use crate::lane::{Connection, LaneModel};
use crate::manifest::{ApprovalMode, ClassificationMode, UpstreamManifest};
use crate::names::has_name;
use crate::pool::UpstreamPool;
use crate::tools::{Descriptor, Tool};

verus! {

/// Number of results that no authority could be read for.
pub open spec fn unavailable_count(results: Seq<ResolvedInvocationTool>) -> nat
    decreases results.len(),
{
    if results.len() == 0 {
        0
    } else {
        unavailable_count(results.drop_last()) + if results.last() is Unavailable {
            1nat
        } else {
            0nat
        }
    }
}

fn count_unavailable(results: &Vec<ResolvedInvocationTool>) -> (n: u64)
    ensures
        n == unavailable_count(results@),
        n <= results.len(),
{
    let mut n: u64 = 0;
    let mut i: usize = 0;
    proof {
        assert(results@.take(0) =~= Seq::empty());
    }
    while i < results.len()
        invariant
            i <= results.len(),
            n <= i,
            n == unavailable_count(results@.take(i as int)),
        decreases results.len() - i,
    {
        proof {
            assert(results@.take(i + 1).drop_last() =~= results@.take(i as int));
            assert(results@.take(i + 1).last() == results@[i as int]);
        }
        if matches!(results[i], ResolvedInvocationTool::Unavailable { .. }) {
            n = n + 1;
        }
        i = i + 1;
    }
    proof {
        assert(results@.take(results.len() as int) =~= results@);
    }
    n
}

/// The local quarantine, where it decides, withholds the tool.
pub open spec fn held_back(pool: UpstreamPool, server: Seq<char>, tool: Seq<char>) -> bool {
    !pool.tool_reviews_attached && pool.entries@[server].quarantined.deep_view().contains(tool)
}

/// What resolving a tool starts from.
pub open spec fn resolution_inputs(
    pool: UpstreamPool,
    server: Seq<char>,
    tool: Seq<char>,
    version_hash: Option<Seq<char>>,
) -> Inputs {
    if pool.entries@.contains_key(server) {
        inputs_for(
            Some(pool.entries@[server].manifest.deep_view()),
            server,
            tool,
            version_hash,
            published_contract(pool.entries@[server].lanes.deep_view(), tool),
        )
    } else {
        inputs_for(None, server, tool, version_hash, nothing_published())
    }
}

/// What a resolution starts from, as it was at one moment.
#[derive(Debug, PartialEq, Eq)]
pub struct ResolutionSample {
    /// The upstream does not admit the tool, or its local quarantine, where that
    /// decides, withholds it.
    pub refused: bool,
    pub inputs: SnapshotInputs,
}

/// The sample is that of a tool in this pool.
pub open spec fn samples(
    pool: UpstreamPool,
    server: Seq<char>,
    tool: Seq<char>,
    version_hash: Option<Seq<char>>,
    sample: ResolutionSample,
) -> bool {
    &&& sample.refused == (pool.entries@.contains_key(server) && (held_back(pool, server, tool)
        || !entry_admits(
        pool.entries@[server].lanes.deep_view(),
        pool.entries@[server].manifest.deep_view(),
        tool,
    )))
    &&& sample.inputs.deep_view() == resolution_inputs(pool, server, tool, version_hash)
}

/// How resolving a tool ends. A known upstream has to admit the tool now, and
/// neither the local quarantine nor a durable review may hold it back.
pub open spec fn resolution_verdict(
    pool: UpstreamPool,
    server: Seq<char>,
    tool: Seq<char>,
    reads: DiscoveryReads,
) -> Verdict {
    if pool.entries@.contains_key(server) && (held_back(pool, server, tool) || !entry_admits(
        pool.entries@[server].lanes.deep_view(),
        pool.entries@[server].manifest.deep_view(),
        tool,
    )) {
        Verdict::Quarantined
    } else if pool.tool_reviews_attached && !reads.review_allows {
        Verdict::Quarantined
    } else {
        verdict(
            resolution_inputs(pool, server, tool, reads.version_hash.deep_view()),
            reads.before,
            reads.after,
            reads.lookup,
            pool.catalog_policy,
        )
    }
}

/// The result of resolving a tool.
pub open spec fn resolves(
    pool: UpstreamPool,
    server: Seq<char>,
    tool: Seq<char>,
    reads: DiscoveryReads,
    result: ResolvedInvocationTool,
) -> bool {
    resolves_to(
        result,
        server,
        tool,
        resolution_inputs(pool, server, tool, reads.version_hash.deep_view()),
        resolution_verdict(pool, server, tool, reads),
        reads.lookup,
    )
}

/// The tools of a listing that resolved.
pub open spec fn ready_tools(
    tools: Seq<Descriptor>,
    resolved: Seq<ResolvedInvocationTool>,
) -> Seq<Descriptor>
    decreases tools.len(),
{
    if tools.len() == 0 {
        Seq::empty()
    } else if resolved[tools.len() - 1] is Ready {
        ready_tools(tools.drop_last(), resolved).push(tools.last())
    } else {
        ready_tools(tools.drop_last(), resolved)
    }
}

/// Keep of a listing what resolved; the results stand in the listing's order.
pub fn resolvable_tools(tools: Vec<Tool>, resolved: &Vec<ResolvedInvocationTool>) -> (r: Vec<Tool>)
    requires
        tools.len() == resolved.len(),
    ensures
        r.deep_view() == ready_tools(tools.deep_view(), resolved@),
{
    let ghost all = tools@;
    let ghost listed = tools.deep_view();
    let mut out: Vec<Tool> = Vec::new();
    let mut i: usize = 0;
    proof {
        assert(out.deep_view() =~= Seq::empty());
        assert(listed.take(0) =~= Seq::empty());
    }
    for tool in it: tools.into_iter()
        invariant
            it.seq() == all,
            i == it.index(),
            all.len() == resolved.len(),
            listed.len() == all.len(),
            forall|j: int| 0 <= j < all.len() ==> #[trigger] listed[j] == all[j].deep_view(),
            out.deep_view() == ready_tools(listed.take(i as int), resolved@),
    {
        let ghost before = out.deep_view();
        proof {
            assert(listed.take(i + 1).drop_last() =~= listed.take(i as int));
            assert(listed.take(i + 1).last() == tool.deep_view());
        }
        if matches!(resolved[i], ResolvedInvocationTool::Ready(_)) {
            let ghost meaning = tool.deep_view();
            out.push(tool);
            proof {
                assert(out.deep_view() =~= before.push(meaning));
            }
        }
        i = i + 1;
    }
    proof {
        assert(listed.take(all.len() as int) =~= listed);
    }
    out
}

impl UpstreamPool {
    /// The pool after an authority was read: a read that failed is counted, and
    /// nothing else changes.
    pub open spec fn after_read(self, failed: bool) -> Self {
        UpstreamPool {
            catalog_read_error_generation: if failed {
                self.catalog_read_error_generation.wrapping_add(1)
            } else {
                self.catalog_read_error_generation
            },
            ..self
        }
    }

    /// Count a failed read of an authority, so that what was listed before is
    /// listed anew.
    pub fn note_catalog_read_error(&mut self)
        ensures
            *final(self) == old(self).after_read(true),
    {
        self.catalog_read_error_generation = self.catalog_read_error_generation.wrapping_add(1);
    }

    /// Number of failed reads of an authority so far.
    pub fn discovery_error_generation(&self) -> (n: u64)
        ensures
            n == self.catalog_read_error_generation,
    {
        self.catalog_read_error_generation
    }

    /// Look at what a resolution of a tool starts from, all of it at one moment.
    pub fn sample_resolution(
        &self,
        server: &str,
        tool_name: &String,
        version_hash: Option<String>,
    ) -> (r: ResolutionSample)
        ensures
            samples(*self, server@, tool_name@, version_hash.deep_view(), r),
    {
        match self.entries.get(server) {
            Some(entry) => {
                let held = !self.tool_reviews_attached && has_name(
                    &entry.quarantined,
                    tool_name.as_str(),
                );
                let admitted = entry_tool_is_admitted(
                    &entry.lanes,
                    &entry.manifest,
                    tool_name.as_str(),
                );
                let published = published_tool_contract(&entry.lanes, tool_name);
                ResolutionSample {
                    refused: held || !admitted,
                    inputs: snapshot_inputs_for(
                        Some(&entry.manifest),
                        server,
                        tool_name.as_str(),
                        version_hash,
                        published,
                    ),
                }
            },
            None => {
                let published = PublishedToolContract {
                    definition: None,
                    advertised_definition: None,
                    input_schema: None,
                    output_schema: None,
                    tool_annotations: None,
                    action_metadata: None,
                    claims: None,
                    behavior_hash: None,
                };
                ResolutionSample {
                    refused: false,
                    inputs: snapshot_inputs_for(
                        None,
                        server,
                        tool_name.as_str(),
                        version_hash,
                        published,
                    ),
                }
            },
        }
    }

    /// How resolving a tool from a sample ends.
    pub open spec fn sampled_verdict(self, sample: ResolutionSample, reads: DiscoveryReads) -> Verdict {
        if sample.refused || (self.tool_reviews_attached && !reads.review_allows) {
            Verdict::Quarantined
        } else {
            verdict(
                sample.inputs.deep_view(),
                reads.before,
                reads.after,
                reads.lookup,
                self.catalog_policy,
            )
        }
    }

    /// Resolve a tool from a sample and from what storage said after it was
    /// taken. An authority that cannot be read is counted.
    pub fn resolve_sampled(
        &mut self,
        server: &str,
        tool_name: &String,
        sample: &ResolutionSample,
        reads: &DiscoveryReads,
    ) -> (r: ResolvedInvocationTool)
        ensures
            resolves_to(
                r,
                server@,
                tool_name@,
                sample.inputs.deep_view(),
                old(self).sampled_verdict(*sample, *reads),
                reads.lookup,
            ),
            *final(self) == old(self).after_read(r is Unavailable),
    {
        if sample.refused || (self.tool_reviews_attached && !reads.review_allows) {
            return ResolvedInvocationTool::Quarantined {
                server: server.to_owned(),
                tool: tool_name.clone(),
            };
        }
        let resolved = resolve_snapshot_from(
            server,
            tool_name.as_str(),
            &sample.inputs,
            reads.before,
            reads.after,
            &reads.lookup,
            self.catalog_policy,
        );
        if matches!(resolved, ResolvedInvocationTool::Unavailable { .. }) {
            self.note_catalog_read_error();
        }
        resolved
    }

    /// Resolve a tool to the contract a call of it would run under. An authority
    /// that cannot be read is counted.
    pub fn resolve_invocation_tool(
        &mut self,
        server: &str,
        tool_name: &String,
        reads: &DiscoveryReads,
    ) -> (r: ResolvedInvocationTool)
        ensures
            resolves(*old(self), server@, tool_name@, *reads, r),
            *final(self) == old(self).after_read(r is Unavailable),
    {
        let version_hash = crate::value::Value::dup(&reads.version_hash);
        let sample = self.sample_resolution(server, tool_name, version_hash);
        self.resolve_sampled(server, tool_name, &sample, reads)
    }

    /// Whether the contract that was admitted earlier is exactly the one that a
    /// request on the held session would run under. An authority that cannot be
    /// read is counted.
    pub fn admitted_contract_is_current(
        &mut self,
        server: &str,
        tool_name: &String,
        manifest: &UpstreamManifest,
        conn: &Connection,
        reads: &DiscoveryReads,
        admitted: &InvocationContract,
    ) -> (b: bool)
        ensures
            b == (held_contract(
                server@,
                tool_name@,
                manifest.deep_view(),
                conn.deep_view(),
                *reads,
                old(self).catalog_policy,
            ) == Some(admitted.deep_view())),
            *final(self) == old(self).after_read(
                held_verdict(
                    server@,
                    tool_name@,
                    manifest.deep_view(),
                    conn.deep_view(),
                    *reads,
                    old(self).catalog_policy,
                ) is Unavailable,
            ),
    {
        let policy = self.catalog_policy;
        let current = admitted_contract_is_current(
            server,
            tool_name,
            manifest,
            conn,
            reads,
            policy,
            admitted,
        );
        if !current {
            let resolved = resolve_held(server, tool_name, manifest, conn, reads, policy);
            if matches!(resolved, ResolvedInvocationTool::Unavailable { .. }) {
                self.note_catalog_read_error();
            }
        }
        current
    }

    /// Contract of a tool, if it resolves.
    pub fn resolved_contract_identity(
        &mut self,
        server: &str,
        tool_name: &String,
        reads: &DiscoveryReads,
    ) -> (r: Option<InvocationContract>)
        ensures
            exists|resolved: ResolvedInvocationTool| #[trigger]
                resolves(*old(self), server@, tool_name@, *reads, resolved) && match resolved {
                    ResolvedInvocationTool::Ready(snapshot) => r.deep_view() == Some(
                        snapshot.contract.deep_view(),
                    ),
                    _ => r is None,
                } && *final(self) == old(self).after_read(resolved is Unavailable),
    {
        let resolved = self.resolve_invocation_tool(server, tool_name, reads);
        resolved.contract_identity()
    }

    /// Whether a tool has to be treated as side-effecting: it is, or it does not
    /// resolve.
    pub fn resolved_side_effects(
        &mut self,
        server: &str,
        tool_name: &String,
        reads: &DiscoveryReads,
    ) -> (b: bool)
        ensures
            exists|resolved: ResolvedInvocationTool| #[trigger]
                resolves(*old(self), server@, tool_name@, *reads, resolved) && b
                    == match resolved {
                    ResolvedInvocationTool::Ready(snapshot) => snapshot.contract.facts.side_effects,
                    _ => true,
                } && *final(self) == old(self).after_read(resolved is Unavailable),
    {
        let resolved = self.resolve_invocation_tool(server, tool_name, reads);
        resolved.side_effects()
    }

    /// Resolve a batch of names of one upstream for a discovery. No reads stand
    /// for a review store that could not be read.
    pub fn discover(
        &mut self,
        server: &str,
        names: &Vec<String>,
        reads: Option<&Vec<DiscoveryReads>>,
    ) -> (r: Result<Vec<ResolvedInvocationTool>, PoolError>)
        ensures
            ({
                let known = old(self).entries@.contains_key(server@);
                let answered = reads is Some && reads->0.len() == names.len();
                let counted = |n: u64|
                    UpstreamPool {
                        catalog_read_error_generation: old(
                            self,
                        ).catalog_read_error_generation.wrapping_add(n),
                        ..*old(self)
                    };
                match r {
                    Ok(results) => if names.len() == 0 {
                        results.len() == 0 && *final(self) == *old(self)
                    } else {
                        &&& known && answered
                        &&& results.len() == names.len()
                        &&& forall|i: int|
                            0 <= i < names.len() ==> discovers(
                                #[trigger] results@[i],
                                server@,
                                names.deep_view()[i],
                                old(self).entries@[server@],
                                !old(self).tool_reviews_attached,
                                reads->0@[i],
                                old(self).catalog_policy,
                            )
                        &&& *final(self) == counted(unavailable_count(results@) as u64)
                    },
                    Err(error) => if !known {
                        &&& names.len() > 0
                        &&& plain(error, ErrorKind::InvalidParams, "unknown upstream: "@ + server@)
                        &&& *final(self) == *old(self)
                    } else {
                        &&& names.len() > 0
                        &&& !answered
                        &&& says_catalog_changing(error)
                        &&& *final(self) == counted(1)
                    },
                }
            }),
    {
        if names.len() == 0 {
            return Ok(Vec::new());
        }
        let outcome = match self.entries.get(server) {
            Some(entry) => match reads {
                Some(reads) => resolve_discovery_batch(
                    server,
                    names,
                    entry,
                    !self.tool_reviews_attached,
                    reads,
                    self.catalog_policy,
                ),
                None => Err(discovery_changed()),
            },
            None => return Err(unknown_upstream(server)),
        };
        match &outcome {
            Ok(results) => {
                let failed: u64 = count_unavailable(results);
                self.catalog_read_error_generation =
                self.catalog_read_error_generation.wrapping_add(failed);
            },
            Err(_) => self.note_catalog_read_error(),
        }
        outcome
    }

    /// Let a batch stand only if nothing it rests on moved while it was resolved
    /// and its upstream is still there; one that does not stand is counted.
    pub fn settle_discovery(
        &mut self,
        server: &str,
        epoch_before: u64,
        epoch_after: Option<u64>,
        generation_before: Option<i64>,
        generation_after: Option<i64>,
    ) -> (r: Result<(), PoolError>)
        ensures
            r is Ok <==> old(self).entries@.contains_key(server@) && !old(
                self,
            ).entries@[server@].removed && epoch_after == Some(epoch_before) && generation_before
                == generation_after,
            r is Err ==> says_catalog_changing(r->Err_0),
            *final(self) == old(self).after_read(r is Err),
    {
        let gone = match self.entries.get(server) {
            Some(entry) => entry.removed,
            None => true,
        };
        let outcome = confirm_discovery(
            gone,
            epoch_before,
            epoch_after,
            generation_before,
            generation_after,
        );
        if outcome.is_err() {
            self.note_catalog_read_error();
        }
        outcome
    }
}

/// A tool that is held back by a quarantine or a review, or that its upstream no
/// longer admits, resolves to no contract, whatever the catalog says.
pub proof fn held_back_tools_never_resolve(
    pool: UpstreamPool,
    server: Seq<char>,
    tool: Seq<char>,
    reads: DiscoveryReads,
    result: ResolvedInvocationTool,
)
    requires
        resolves(pool, server, tool, reads, result),
        pool.entries@.contains_key(server),
        held_back(pool, server, tool) || (pool.tool_reviews_attached && !reads.review_allows)
            || !entry_admits(
            pool.entries@[server].lanes.deep_view(),
            pool.entries@[server].manifest.deep_view(),
            tool,
        ),
    ensures
        result is Quarantined,
{
}

/// The check before a dispatch and the resolution before it follow the same
/// rules: on the same reads and with the same contract published on the held
/// session, the check accepts the contract that was resolved and no other.
pub proof fn recheck_agrees_with_resolution(
    pool: UpstreamPool,
    server: Seq<char>,
    tool: Seq<char>,
    reads: DiscoveryReads,
    resolved: ResolvedInvocationTool,
    conn: LaneModel,
)
    requires
        pool.entries@.contains_key(server),
        resolves(pool, server, tool, reads, resolved),
        resolved is Ready,
        held_published(conn.tools, tool) == (Published {
            advertised_definition: None,
            ..published_contract(pool.entries@[server].lanes.deep_view(), tool)
        }),
    ensures
        held_contract(
            server,
            tool,
            pool.entries@[server].manifest.deep_view(),
            conn,
            reads,
            pool.catalog_policy,
        ) == Some(resolved->Ready_0.contract.deep_view()),
{
}

/// Whatever a discovery shows as ready, resolving the same name on the same
/// state and the same reads gives as ready too, under the same contract.
pub proof fn discovery_and_invocation_agree(
    pool: UpstreamPool,
    server: Seq<char>,
    tool: Seq<char>,
    reads: DiscoveryReads,
    shown: ResolvedInvocationTool,
    resolved: ResolvedInvocationTool,
)
    requires
        pool.entries@.contains_key(server),
        discovers(
            shown,
            server,
            tool,
            pool.entries@[server],
            !pool.tool_reviews_attached,
            reads,
            pool.catalog_policy,
        ),
        shown is Ready,
        resolves(pool, server, tool, reads, resolved),
    ensures
        resolved is Ready,
        resolved->Ready_0.contract.deep_view() == shown->Ready_0.contract.deep_view(),
{
}

/// A known tool that its upstream admits, that no quarantine in force names and
/// that the review allows is bound to its declaration, its publication and the
/// catalog; the review counts where one is attached, the local quarantine where
/// none is.
pub proof fn admitted_tools_are_bound(
    pool: UpstreamPool,
    server: Seq<char>,
    tool: Seq<char>,
    reads: DiscoveryReads,
    result: ResolvedInvocationTool,
)
    requires
        resolves(pool, server, tool, reads, result),
        pool.entries@.contains_key(server),
        entry_admits(
            pool.entries@[server].lanes.deep_view(),
            pool.entries@[server].manifest.deep_view(),
            tool,
        ),
        pool.tool_reviews_attached ==> reads.review_allows,
        !pool.tool_reviews_attached ==> !pool.entries@[server].quarantined.deep_view().contains(tool),
    ensures
        ({
            let entry = pool.entries@[server];
            let inputs = inputs_for(
                Some(entry.manifest.deep_view()),
                server,
                tool,
                reads.version_hash.deep_view(),
                published_contract(entry.lanes.deep_view(), tool),
            );
            resolves_to(
                result,
                server,
                tool,
                inputs,
                verdict(inputs, reads.before, reads.after, reads.lookup, pool.catalog_policy),
                reads.lookup,
            )
        }),
{
}

/// A tool of a known upstream is refused where the upstream does not admit it,
/// where an attached review does not allow it, or where the local quarantine
/// names it and no review is attached.
pub proof fn refused_tools_are_quarantined(
    pool: UpstreamPool,
    server: Seq<char>,
    tool: Seq<char>,
    reads: DiscoveryReads,
    result: ResolvedInvocationTool,
)
    requires
        resolves(pool, server, tool, reads, result),
        pool.entries@.contains_key(server),
        !entry_admits(
            pool.entries@[server].lanes.deep_view(),
            pool.entries@[server].manifest.deep_view(),
            tool,
        ) || (pool.tool_reviews_attached && !reads.review_allows) || (!pool.tool_reviews_attached
            && pool.entries@[server].quarantined.deep_view().contains(tool)),
    ensures
        result is Quarantined,
        result->Quarantined_server@ == server,
        result->Quarantined_tool@ == tool,
{
}

/// Under the manifest authority a call is never bound to a catalog row of
/// another version than the manifest declares, nor to one that another authority
/// classified.
pub proof fn stale_rows_never_resolve(
    pool: UpstreamPool,
    server: Seq<char>,
    tool: Seq<char>,
    reads: DiscoveryReads,
    result: ResolvedInvocationTool,
)
    requires
        resolves(pool, server, tool, reads, result),
        pool.entries@.contains_key(server),
        pool.entries@[server].manifest.classification_mode == ClassificationMode::Manifest,
        reads.lookup is Live,
    ensures
        reads.version_hash is Some && reads.lookup->Live_0.schema_hash@ != reads.version_hash->0@
            ==> result is Quarantined,
        reads.lookup->Live_0.classification_mode@ == "mcp_annotations"@ ==> result is Quarantined,
        reads.version_hash is Some && result is Ready
            ==> result->Ready_0.contract.deep_view().version == Some(reads.version_hash->0@)
            && result->Ready_0.contract.deep_view().tool_id == Some(
            reads.lookup->Live_0.tool_id@,
        ),
{
    let manifest = pool.entries@[server].manifest.deep_view();
    lemma_classification_of(manifest.tools, tool);
}

/// Under the annotation authority a call is never bound to a catalog row of
/// another behavior or another risk than the manifest approves, nor to one that
/// another authority classified.
pub proof fn unapproved_rows_never_resolve(
    pool: UpstreamPool,
    server: Seq<char>,
    tool: Seq<char>,
    reads: DiscoveryReads,
    result: ResolvedInvocationTool,
    k: int,
)
    requires
        resolves(pool, server, tool, reads, result),
        pool.entries@.contains_key(server),
        pool.entries@[server].manifest.classification_mode == ClassificationMode::McpAnnotations,
        ({
            let tools = pool.entries@[server].manifest.deep_view().tools;
            &&& 0 <= k < tools.len()
            &&& tools[k].name == tool
            &&& forall|j: int| 0 <= j < k ==> (#[trigger] tools[j]).name != tool
        }),
        reads.lookup is Live,
    ensures
        ({
            let declared = pool.entries@[server].manifest.deep_view().tools[k];
            let row = reads.lookup->Live_0.deep_view();
            &&& declared.approved_behavior_hash != Some(row.schema_hash) ==> result is Quarantined
            &&& declared.risk != tier_of(row.risk) ==> result is Quarantined
            &&& row.classification_mode != "mcp_annotations"@ ==> result is Quarantined
            &&& result is Ready ==> {
                let contract = result->Ready_0.contract.deep_view();
                &&& contract.version == declared.approved_behavior_hash
                &&& contract.tool_id == Some(row.tool_id)
                &&& contract.facts.risk == declared.risk
            }
        }),
{
    let manifest = pool.entries@[server].manifest.deep_view();
    a_name_takes_its_first_classification(manifest.tools, tool, k);
}

/// A declared tool that nothing holds back resolves to the catalog row of the
/// declared version where no fence stands or moves: the call gets the row's
/// identity, version, schemas, risk and flags.
pub proof fn declared_tools_resolve_to_their_row(
    pool: UpstreamPool,
    server: Seq<char>,
    tool: Seq<char>,
    reads: DiscoveryReads,
    result: ResolvedInvocationTool,
    k: int,
)
    requires
        resolves(pool, server, tool, reads, result),
        pool.entries@.contains_key(server),
        pool.entries@[server].manifest.classification_mode == ClassificationMode::Manifest,
        0 <= k < pool.entries@[server].manifest.deep_view().tools.len(),
        pool.entries@[server].manifest.deep_view().tools[k].name == tool,
        pool.tool_reviews_attached ==> reads.review_allows,
        !pool.tool_reviews_attached ==> !pool.entries@[server].quarantined.deep_view().contains(tool),
        reads.before is Some ==> !reads.before->0.pending,
        reads.after == reads.before,
        reads.lookup is Live,
        reads.lookup->Live_0.classification_mode@ != "mcp_annotations"@,
        reads.version_hash is Some ==> reads.version_hash->0@ == reads.lookup->Live_0.schema_hash@,
    ensures
        result is Ready,
        ({
            let row = reads.lookup->Live_0.deep_view();
            let contract = result->Ready_0.contract.deep_view();
            &&& contract.tool_id == Some(row.tool_id)
            &&& contract.version == Some(row.schema_hash)
            &&& contract.input_schema == row.input_schema
            &&& contract.output_schema == row.output_schema
            &&& contract.tool_annotations == row.tool_annotations
            &&& contract.action_metadata == row.action_metadata
            &&& contract.discriminator == row.discriminator
            &&& contract.operations == refinements(contract.facts, false, row.operations)
            &&& contract.facts.server == server
            &&& contract.facts.name == tool
            &&& contract.facts.risk == tier_of(row.risk)
            &&& contract.facts.side_effects == row.side_effects
            &&& contract.facts.pii == row.pii
            &&& contract.facts.requires_approval <==> row.requires_approval
                && pool.entries@[server].manifest.approval_mode == ApprovalMode::PerCall
        }),
{
    let manifest = pool.entries@[server].manifest.deep_view();
    lemma_classification_of(manifest.tools, tool);
}

/// Without a catalog a declared tool that nothing holds back resolves to its
/// declaration, unless a fence stands.
pub proof fn declared_tools_resolve_without_a_catalog(
    pool: UpstreamPool,
    server: Seq<char>,
    tool: Seq<char>,
    reads: DiscoveryReads,
    result: ResolvedInvocationTool,
    k: int,
)
    requires
        resolves(pool, server, tool, reads, result),
        pool.entries@.contains_key(server),
        pool.entries@[server].manifest.classification_mode == ClassificationMode::Manifest,
        ({
            let tools = pool.entries@[server].manifest.deep_view().tools;
            &&& 0 <= k < tools.len()
            &&& tools[k].name == tool
            &&& forall|j: int| 0 <= j < k ==> (#[trigger] tools[j]).name != tool
        }),
        pool.tool_reviews_attached ==> reads.review_allows,
        !pool.tool_reviews_attached ==> !pool.entries@[server].quarantined.deep_view().contains(tool),
        reads.before is Some ==> !reads.before->0.pending,
        reads.lookup is NotAttached,
    ensures
        result is Ready,
        ({
            let declared = pool.entries@[server].manifest.deep_view().tools[k];
            let contract = result->Ready_0.contract.deep_view();
            &&& contract.tool_id is None
            &&& contract.version is None
            &&& contract.discriminator == declared.discriminator
            &&& contract.facts.server == server
            &&& contract.facts.name == tool
            &&& contract.facts.risk == declared.risk
            &&& contract.facts.side_effects == declared.side_effects
            &&& contract.facts.pii == declared.pii
            &&& !contract.facts.requires_approval
            &&& contract.facts.requires_approval_known
        }),
{
    let manifest = pool.entries@[server].manifest.deep_view();
    a_name_takes_its_first_classification(manifest.tools, tool, k);
}

/// A tool that a standing fence covers does not resolve, on whatever upstream.
pub proof fn fenced_tools_are_quarantined(
    pool: UpstreamPool,
    server: Seq<char>,
    tool: Seq<char>,
    reads: DiscoveryReads,
    result: ResolvedInvocationTool,
)
    requires
        resolves(pool, server, tool, reads, result),
        (reads.before is Some && reads.before->0.pending) || (!(reads.lookup is NotAttached)
            && reads.after != reads.before),
    ensures
        result is Quarantined,
{
}

/// A tool of an unknown upstream is bound to nothing but what the catalog says
/// of it, and is refused only where a review, a fence or the catalog refuses it.
pub proof fn unknown_upstreams_are_bound_by_the_catalog(
    pool: UpstreamPool,
    server: Seq<char>,
    tool: Seq<char>,
    reads: DiscoveryReads,
    result: ResolvedInvocationTool,
)
    requires
        resolves(pool, server, tool, reads, result),
        !pool.entries@.contains_key(server),
    ensures
        pool.tool_reviews_attached && !reads.review_allows ==> result is Quarantined,
        !pool.tool_reviews_attached || reads.review_allows ==> ({
            let inputs = inputs_for(
                None,
                server,
                tool,
                reads.version_hash.deep_view(),
                published_contract(Seq::empty(), tool),
            );
            resolves_to(
                result,
                server,
                tool,
                inputs,
                verdict(inputs, reads.before, reads.after, reads.lookup, pool.catalog_policy),
                reads.lookup,
            )
        }),
        result is Ready ==> result->Ready_0.definition is None,
{
}

/// Resolving a tool from a sample taken at the start of the same step is
/// resolving the tool.
pub proof fn a_sample_resolves_as_the_pool_does(
    pool: UpstreamPool,
    server: Seq<char>,
    tool: Seq<char>,
    reads: DiscoveryReads,
    sample: ResolutionSample,
    result: ResolvedInvocationTool,
)
    requires
        samples(pool, server, tool, reads.version_hash.deep_view(), sample),
    ensures
        resolves(pool, server, tool, reads, result) <==> resolves_to(
            result,
            server,
            tool,
            sample.inputs.deep_view(),
            pool.sampled_verdict(sample, reads),
            reads.lookup,
        ),
{
}

/// A failed read of an authority moves the count on, one that succeeds leaves
/// it; neither touches anything else.
pub proof fn only_failed_reads_are_counted(pool: UpstreamPool)
    ensures
        pool.after_read(false) == pool,
        pool.after_read(true).catalog_read_error_generation
            == pool.catalog_read_error_generation.wrapping_add(1),
        pool.after_read(true).catalog_read_error_generation != pool.catalog_read_error_generation,
        (UpstreamPool {
            catalog_read_error_generation: pool.catalog_read_error_generation,
            ..pool.after_read(true)
        }) == pool,
{
}

/// The count of unread authorities grows by one with each result that none could
/// be read for, and with no other.
pub proof fn unavailable_results_are_counted(
    results: Seq<ResolvedInvocationTool>,
    next: ResolvedInvocationTool,
)
    ensures
        unavailable_count(Seq::empty()) == 0,
        next is Unavailable ==> unavailable_count(results.push(next)) == unavailable_count(results)
            + 1,
        !(next is Unavailable) ==> unavailable_count(results.push(next)) == unavailable_count(
            results,
        ),
{
    assert(results.push(next).drop_last() =~= results);
}

/// The tools that stay in a listing are those that resolved, in their order.
pub proof fn resolved_tools_stay_listed(
    tools: Seq<Descriptor>,
    resolved: Seq<ResolvedInvocationTool>,
    next: Descriptor,
)
    requires
        tools.len() < resolved.len(),
    ensures
        ready_tools(Seq::empty(), resolved).len() == 0,
        resolved[tools.len() as int] is Ready ==> ready_tools(tools.push(next), resolved)
            == ready_tools(tools, resolved).push(next),
        !(resolved[tools.len() as int] is Ready) ==> ready_tools(tools.push(next), resolved)
            == ready_tools(tools, resolved),
{
    assert(tools.push(next).drop_last() =~= tools);
}

} // verus!
