//! Binding a call to one exact contract.
//!
//! The manifest, the published inventory and the governed catalog advance in
//! separate steps. A resolution combines them only when all three stand for the
//! same reviewed generation, and refuses the call otherwise.

use vstd::prelude::*;

use crate::admission::{
    a_name_takes_its_first_classification, classification_of, find_classification,
};
use crate::facts::{
    manifest_facts, manifest_tool_facts, operation_classifications,
    operations_stay_within_the_tool, refinements, refinements_come_from_rows_within_the_tool,
    risk_to_tier, tier_names_are_faithful, tier_of, CatalogOperation, Facts, StoredOperation,
    ToolFacts,
};
use crate::manifest::{
    ApprovalMode, ClassificationMode, Manifest, Operation, OperationClassification,
    UpstreamManifest,
};
use crate::names::text_eq;
use crate::tools::{BehaviorClaims, Descriptor, Tool};
use crate::transitions::CatalogTransition;
use crate::value::Value;

verus! {

/// The contract a lane publishes for a tool; everything is absent where nothing is published.
#[derive(Debug, PartialEq, Eq)]
pub struct PublishedToolContract {
    /// The descriptor shown to clients.
    pub definition: Option<Tool>,
    /// The descriptor as the session listed it.
    pub advertised_definition: Option<Tool>,
    pub input_schema: Option<String>,
    pub output_schema: Option<String>,
    pub tool_annotations: Option<String>,
    pub action_metadata: Option<String>,
    pub claims: Option<BehaviorClaims>,
    /// Behavior hash of the descriptor as listed.
    pub behavior_hash: Option<String>,
}

/// What a [`PublishedToolContract`] says.
#[verifier::ext_equal]
pub struct Published {
    pub definition: Option<Descriptor>,
    pub advertised_definition: Option<Descriptor>,
    pub input_schema: Option<Seq<char>>,
    pub output_schema: Option<Seq<char>>,
    pub tool_annotations: Option<Seq<char>>,
    pub action_metadata: Option<Seq<char>>,
    pub claims: Option<BehaviorClaims>,
    pub behavior_hash: Option<Seq<char>>,
}

impl DeepView for PublishedToolContract {
    type V = Published;

    open spec fn deep_view(&self) -> Published {
        Published {
            definition: self.definition.deep_view(),
            advertised_definition: self.advertised_definition.deep_view(),
            input_schema: self.input_schema.deep_view(),
            output_schema: self.output_schema.deep_view(),
            tool_annotations: self.tool_annotations.deep_view(),
            action_metadata: self.action_metadata.deep_view(),
            claims: self.claims.deep_view(),
            behavior_hash: self.behavior_hash.deep_view(),
        }
    }
}

impl Value for PublishedToolContract {
    fn dup(&self) -> (r: Self) {
        PublishedToolContract {
            definition: self.definition.dup(),
            advertised_definition: self.advertised_definition.dup(),
            input_schema: self.input_schema.dup(),
            output_schema: self.output_schema.dup(),
            tool_annotations: self.tool_annotations.dup(),
            action_metadata: self.action_metadata.dup(),
            claims: self.claims.dup(),
            behavior_hash: self.behavior_hash.dup(),
        }
    }

    fn same(&self, other: &Self) -> (b: bool) {
        self.definition.same(&other.definition)
            && self.advertised_definition.same(&other.advertised_definition)
            && self.input_schema.same(&other.input_schema)
            && self.output_schema.same(&other.output_schema)
            && self.tool_annotations.same(&other.tool_annotations)
            && self.action_metadata.same(&other.action_metadata)
            && self.claims.same(&other.claims)
            && self.behavior_hash.same(&other.behavior_hash)
    }
}

/// A live row of the governed catalog.
#[derive(Debug, PartialEq, Eq)]
pub struct CatalogTool {
    pub tool_id: String,
    /// Version of the contract the row was made from.
    pub schema_hash: String,
    pub classification_mode: String,
    pub risk: String,
    pub side_effects: bool,
    pub pii: bool,
    pub requires_approval: bool,
    /// Input schema admitted beside the published one.
    pub input_schema: Option<String>,
    pub output_schema: Option<String>,
    pub tool_annotations: Option<String>,
    pub action_metadata: Option<String>,
    pub discriminator: Option<String>,
    pub operations: Vec<CatalogOperation>,
}

/// What a [`CatalogTool`] says.
#[verifier::ext_equal]
pub struct CatalogRow {
    pub tool_id: Seq<char>,
    pub schema_hash: Seq<char>,
    pub classification_mode: Seq<char>,
    pub risk: Seq<char>,
    pub side_effects: bool,
    pub pii: bool,
    pub requires_approval: bool,
    pub input_schema: Option<Seq<char>>,
    pub output_schema: Option<Seq<char>>,
    pub tool_annotations: Option<Seq<char>>,
    pub action_metadata: Option<Seq<char>>,
    pub discriminator: Option<Seq<char>>,
    pub operations: Seq<StoredOperation>,
}

impl DeepView for CatalogTool {
    type V = CatalogRow;

    open spec fn deep_view(&self) -> CatalogRow {
        CatalogRow {
            tool_id: self.tool_id.deep_view(),
            schema_hash: self.schema_hash.deep_view(),
            classification_mode: self.classification_mode.deep_view(),
            risk: self.risk.deep_view(),
            side_effects: self.side_effects.deep_view(),
            pii: self.pii.deep_view(),
            requires_approval: self.requires_approval.deep_view(),
            input_schema: self.input_schema.deep_view(),
            output_schema: self.output_schema.deep_view(),
            tool_annotations: self.tool_annotations.deep_view(),
            action_metadata: self.action_metadata.deep_view(),
            discriminator: self.discriminator.deep_view(),
            operations: self.operations.deep_view(),
        }
    }
}

impl Value for CatalogTool {
    fn dup(&self) -> (r: Self) {
        CatalogTool {
            tool_id: self.tool_id.dup(),
            schema_hash: self.schema_hash.dup(),
            classification_mode: self.classification_mode.dup(),
            risk: self.risk.dup(),
            side_effects: self.side_effects.dup(),
            pii: self.pii.dup(),
            requires_approval: self.requires_approval.dup(),
            input_schema: self.input_schema.dup(),
            output_schema: self.output_schema.dup(),
            tool_annotations: self.tool_annotations.dup(),
            action_metadata: self.action_metadata.dup(),
            discriminator: self.discriminator.dup(),
            operations: self.operations.dup(),
        }
    }

    fn same(&self, other: &Self) -> (b: bool) {
        self.tool_id.same(&other.tool_id)
            && self.schema_hash.same(&other.schema_hash)
            && self.classification_mode.same(&other.classification_mode)
            && self.risk.same(&other.risk)
            && self.side_effects.same(&other.side_effects)
            && self.pii.same(&other.pii)
            && self.requires_approval.same(&other.requires_approval)
            && self.input_schema.same(&other.input_schema)
            && self.output_schema.same(&other.output_schema)
            && self.tool_annotations.same(&other.tool_annotations)
            && self.action_metadata.same(&other.action_metadata)
            && self.discriminator.same(&other.discriminator)
            && self.operations.same(&other.operations)
    }
}

/// The exact contract a call is bound to.
#[derive(Debug, PartialEq, Eq)]
pub struct InvocationContract {
    pub facts: ToolFacts,
    /// Identity of the catalog row, if one governs.
    pub tool_id: Option<String>,
    /// Version of the contract, if one is pinned.
    pub version: Option<String>,
    /// A sensitive result was reviewed and is expected.
    pub anticipated_sensitive_output: bool,
    pub input_schema: Option<String>,
    pub output_schema: Option<String>,
    pub tool_annotations: Option<String>,
    pub action_metadata: Option<String>,
    pub discriminator: Option<String>,
    pub operations: Vec<OperationClassification>,
}

/// What an [`InvocationContract`] says.
#[verifier::ext_equal]
pub struct Contract {
    pub facts: Facts,
    pub tool_id: Option<Seq<char>>,
    pub version: Option<Seq<char>>,
    pub anticipated_sensitive_output: bool,
    pub input_schema: Option<Seq<char>>,
    pub output_schema: Option<Seq<char>>,
    pub tool_annotations: Option<Seq<char>>,
    pub action_metadata: Option<Seq<char>>,
    pub discriminator: Option<Seq<char>>,
    pub operations: Seq<Operation>,
}

impl DeepView for InvocationContract {
    type V = Contract;

    open spec fn deep_view(&self) -> Contract {
        Contract {
            facts: self.facts.deep_view(),
            tool_id: self.tool_id.deep_view(),
            version: self.version.deep_view(),
            anticipated_sensitive_output: self.anticipated_sensitive_output.deep_view(),
            input_schema: self.input_schema.deep_view(),
            output_schema: self.output_schema.deep_view(),
            tool_annotations: self.tool_annotations.deep_view(),
            action_metadata: self.action_metadata.deep_view(),
            discriminator: self.discriminator.deep_view(),
            operations: self.operations.deep_view(),
        }
    }
}

impl Value for InvocationContract {
    fn dup(&self) -> (r: Self) {
        InvocationContract {
            facts: self.facts.dup(),
            tool_id: self.tool_id.dup(),
            version: self.version.dup(),
            anticipated_sensitive_output: self.anticipated_sensitive_output.dup(),
            input_schema: self.input_schema.dup(),
            output_schema: self.output_schema.dup(),
            tool_annotations: self.tool_annotations.dup(),
            action_metadata: self.action_metadata.dup(),
            discriminator: self.discriminator.dup(),
            operations: self.operations.dup(),
        }
    }

    fn same(&self, other: &Self) -> (b: bool) {
        self.facts.same(&other.facts)
            && self.tool_id.same(&other.tool_id)
            && self.version.same(&other.version)
            && self.anticipated_sensitive_output.same(&other.anticipated_sensitive_output)
            && self.input_schema.same(&other.input_schema)
            && self.output_schema.same(&other.output_schema)
            && self.tool_annotations.same(&other.tool_annotations)
            && self.action_metadata.same(&other.action_metadata)
            && self.discriminator.same(&other.discriminator)
            && self.operations.same(&other.operations)
    }
}

/// What a resolution starts from, all of it from one manifest snapshot.
#[derive(Debug, PartialEq, Eq)]
pub struct SnapshotInputs {
    pub manifest_facts: ToolFacts,
    pub annotation_mode: bool,
    pub approval_mode: ApprovalMode,
    pub approved_behavior_hash: Option<String>,
    /// Version the manifest's own declaration stands for.
    pub manifest_version_hash: Option<String>,
    pub manifest_discriminator: Option<String>,
    pub manifest_operations: Vec<CatalogOperation>,
    pub published: PublishedToolContract,
}

/// What a [`SnapshotInputs`] says.
#[verifier::ext_equal]
pub struct Inputs {
    pub manifest_facts: Facts,
    pub annotation_mode: bool,
    pub approval_mode: ApprovalMode,
    pub approved_behavior_hash: Option<Seq<char>>,
    pub manifest_version_hash: Option<Seq<char>>,
    pub manifest_discriminator: Option<Seq<char>>,
    pub manifest_operations: Seq<StoredOperation>,
    pub published: Published,
}

impl DeepView for SnapshotInputs {
    type V = Inputs;

    open spec fn deep_view(&self) -> Inputs {
        Inputs {
            manifest_facts: self.manifest_facts.deep_view(),
            annotation_mode: self.annotation_mode.deep_view(),
            approval_mode: self.approval_mode.deep_view(),
            approved_behavior_hash: self.approved_behavior_hash.deep_view(),
            manifest_version_hash: self.manifest_version_hash.deep_view(),
            manifest_discriminator: self.manifest_discriminator.deep_view(),
            manifest_operations: self.manifest_operations.deep_view(),
            published: self.published.deep_view(),
        }
    }
}

impl Value for SnapshotInputs {
    fn dup(&self) -> (r: Self) {
        SnapshotInputs {
            manifest_facts: self.manifest_facts.dup(),
            annotation_mode: self.annotation_mode.dup(),
            approval_mode: self.approval_mode.dup(),
            approved_behavior_hash: self.approved_behavior_hash.dup(),
            manifest_version_hash: self.manifest_version_hash.dup(),
            manifest_discriminator: self.manifest_discriminator.dup(),
            manifest_operations: self.manifest_operations.dup(),
            published: self.published.dup(),
        }
    }

    fn same(&self, other: &Self) -> (b: bool) {
        self.manifest_facts.same(&other.manifest_facts)
            && self.annotation_mode.same(&other.annotation_mode)
            && self.approval_mode.same(&other.approval_mode)
            && self.approved_behavior_hash.same(&other.approved_behavior_hash)
            && self.manifest_version_hash.same(&other.manifest_version_hash)
            && self.manifest_discriminator.same(&other.manifest_discriminator)
            && self.manifest_operations.same(&other.manifest_operations)
            && self.published.same(&other.published)
    }
}

/// A contract with the descriptor to show for it.
#[derive(Debug, PartialEq, Eq)]
pub struct InvocationToolSnapshot {
    pub contract: InvocationContract,
    pub definition: Option<Tool>,
}

/// What resolving a tool gives.
#[derive(Debug, PartialEq, Eq)]
pub enum ResolvedInvocationTool {
    Ready(InvocationToolSnapshot),
    /// Refused: no single reviewed generation admits the tool.
    Quarantined { server: String, tool: String },
    /// Refused: the authority could not be read.
    Unavailable { server: String, tool: String },
}

/// What the governed catalog says about a tool.
#[derive(Debug, PartialEq, Eq)]
pub enum CatalogLookup {
    /// No catalog is attached.
    NotAttached,
    /// The catalog could not be read.
    Failed,
    Live(CatalogTool),
    Quarantined,
    /// The tool is known and no version of it is approved.
    PendingApproval,
    NotFound,
}

/// How firmly the pool rests on its catalog.
#[derive(Clone, Copy, Debug, PartialEq, Eq, Structural)]
pub struct CatalogPolicy {
    /// A tool without an approved version is refused.
    pub strict_pending_approval: bool,
    /// A tool the catalog lacks, or cannot give, is refused.
    pub authoritative: bool,
}

impl ApprovalMode {
    /// Whether claims and catalog rows may ask for an approval per call.
    pub fn uses_per_call_requirements(self) -> (b: bool)
        ensures
            b == (self == ApprovalMode::PerCall),
    {
        self == ApprovalMode::PerCall
    }
}

/// The approved behavior hash of a tool; only annotation mode has one.
pub open spec fn approved_hash(manifest: Manifest, tool: Seq<char>) -> Option<Seq<char>> {
    if manifest.classification_mode != ClassificationMode::McpAnnotations {
        None
    } else {
        match classification_of(manifest.tools, tool) {
            Some(c) => c.approved_behavior_hash,
            None => None,
        }
    }
}

pub fn approved_hash_for(manifest: &UpstreamManifest, tool_name: &str) -> (r: Option<String>)
    ensures
        r.deep_view() == approved_hash(manifest.deep_view(), tool_name@),
{
    if manifest.classification_mode != ClassificationMode::McpAnnotations {
        return None;
    }
    match find_classification(&manifest.tools, tool_name) {
        Some(k) => manifest.tools[k].approved_behavior_hash.dup(),
        None => None,
    }
}

/// The operations of a manifest tool in the form in which a catalog stores them.
pub open spec fn stored_form(operations: Seq<Operation>) -> Seq<StoredOperation> {
    operations.map_values(
        |o: Operation|
            StoredOperation {
                value: o.value,
                risk: o.risk.spec_as_str(),
                side_effects: o.side_effects,
                pii: o.pii,
            },
    )
}

fn store_operations(operations: &Vec<OperationClassification>) -> (r: Vec<CatalogOperation>)
    ensures
        r.deep_view() == stored_form(operations.deep_view()),
{
    let mut out: Vec<CatalogOperation> = Vec::new();
    let mut i: usize = 0;
    while i < operations.len()
        invariant
            i <= operations.len(),
            out.len() == i,
            forall|j: int|
                0 <= j < i ==> (#[trigger] out.deep_view()[j]) == stored_form(
                    operations.deep_view(),
                )[j],
        decreases operations.len() - i,
    {
        let row = CatalogOperation {
            value: operations[i].value.clone(),
            risk: operations[i].risk.as_str().to_owned(),
            side_effects: operations[i].side_effects,
            pii: operations[i].pii,
        };
        let ghost meaning = row.deep_view();
        let ghost before = out.deep_view();
        out.push(row);
        proof {
            assert(out.deep_view() =~= before.push(meaning));
        }
        i = i + 1;
    }
    proof {
        assert(out.deep_view() =~= stored_form(operations.deep_view()));
    }
    out
}

/// What a resolution starts from. `version_hash` is the version that the
/// manifest's own declaration of the tool stands for.
pub open spec fn inputs_for(
    manifest: Option<Manifest>,
    server: Seq<char>,
    tool: Seq<char>,
    version_hash: Option<Seq<char>>,
    published: Published,
) -> Inputs {
    let classification = match manifest {
        Some(m) => classification_of(m.tools, tool),
        None => None,
    };
    Inputs {
        manifest_facts: manifest_facts(manifest, server, tool),
        annotation_mode: manifest is Some && manifest->0.classification_mode
            == ClassificationMode::McpAnnotations,
        approval_mode: match manifest {
            Some(m) => m.approval_mode,
            None => ApprovalMode::PerCall,
        },
        approved_behavior_hash: match manifest {
            Some(m) => approved_hash(m, tool),
            None => None,
        },
        manifest_version_hash: if classification is Some && manifest->0.classification_mode
            == ClassificationMode::Manifest {
            version_hash
        } else {
            None
        },
        manifest_discriminator: match classification {
            Some(c) => c.discriminator,
            None => None,
        },
        manifest_operations: match classification {
            Some(c) => stored_form(c.operations),
            None => Seq::empty(),
        },
        published,
    }
}

/// Derive mode, approved hash, facts and operations of a tool from one manifest
/// snapshot, or from none for an unknown server.
pub fn snapshot_inputs_for(
    manifest: Option<&UpstreamManifest>,
    server: &str,
    tool_name: &str,
    version_hash: Option<String>,
    published: PublishedToolContract,
) -> (r: SnapshotInputs)
    ensures
        r.deep_view() == inputs_for(
            manifest.deep_view(),
            server@,
            tool_name@,
            version_hash.deep_view(),
            published.deep_view(),
        ),
{
    let facts = manifest_tool_facts(manifest, server, tool_name);
    let mut annotation_mode = false;
    let mut approval_mode = ApprovalMode::PerCall;
    let mut approved_behavior_hash: Option<String> = None;
    let mut manifest_version_hash: Option<String> = None;
    let mut manifest_discriminator: Option<String> = None;
    let mut manifest_operations: Vec<CatalogOperation> = Vec::new();
    proof {
        assert(manifest_operations.deep_view() =~= Seq::<StoredOperation>::empty());
    }
    if let Some(manifest) = manifest {
        annotation_mode = manifest.classification_mode == ClassificationMode::McpAnnotations;
        approval_mode = manifest.approval_mode;
        approved_behavior_hash = approved_hash_for(manifest, tool_name);
        if let Some(k) = find_classification(&manifest.tools, tool_name) {
            if manifest.classification_mode == ClassificationMode::Manifest {
                manifest_version_hash = version_hash;
            }
            manifest_discriminator = manifest.tools[k].discriminator.dup();
            manifest_operations = store_operations(&manifest.tools[k].operations);
        }
    }
    SnapshotInputs {
        manifest_facts: facts,
        annotation_mode,
        approval_mode,
        approved_behavior_hash,
        manifest_version_hash,
        manifest_discriminator,
        manifest_operations,
        published,
    }
}

impl Published {
    /// Annotations and action metadata are there and can be read.
    pub open spec fn readable_claims(self) -> Option<BehaviorClaims> {
        if self.tool_annotations is Some && self.action_metadata is Some {
            self.claims
        } else {
            None
        }
    }
}

/// Facts derived from reviewed claims: side effects and sensitivity as claimed,
/// and an approval where review is claimed and the manifest lets claims ask.
pub open spec fn claimed_facts(mode: ApprovalMode, facts: Facts, claims: BehaviorClaims) -> Facts {
    Facts {
        side_effects: claims.side_effects,
        pii: claims.protected_data,
        requires_approval: mode == ApprovalMode::PerCall && claims.requires_review,
        ..facts
    }
}

/// Derive facts and the reviewed output sensitivity from the published claims;
/// nothing where they are missing or cannot be read.
pub fn claims_facts(
    approval_mode: ApprovalMode,
    facts: &ToolFacts,
    published: &PublishedToolContract,
) -> (r: Option<(ToolFacts, bool)>)
    ensures
        match (published.deep_view().readable_claims(), r) {
            (Some(claims), Some((derived, sensitive))) => {
                &&& derived.deep_view() == claimed_facts(approval_mode, facts.deep_view(), claims)
                &&& sensitive == claims.output_sensitive
            },
            (None, None) => true,
            _ => false,
        },
{
    if published.tool_annotations.is_none() || published.action_metadata.is_none() {
        return None;
    }
    let claims = match published.claims {
        Some(claims) => claims,
        None => return None,
    };
    let mut derived = facts.dup();
    derived.side_effects = claims.side_effects;
    derived.pii = claims.protected_data;
    derived.requires_approval = approval_mode.uses_per_call_requirements()
        && claims.requires_review;
    Some((derived, claims.output_sensitive))
}

/// The facts and the reviewed output sensitivity a resolution works with.
pub open spec fn governing_facts(inputs: Inputs) -> (Facts, bool) {
    if inputs.annotation_mode {
        match inputs.published.readable_claims() {
            Some(claims) => (
                claimed_facts(inputs.approval_mode, inputs.manifest_facts, claims),
                claims.output_sensitive,
            ),
            None => (inputs.manifest_facts, false),
        }
    } else {
        (inputs.manifest_facts, false)
    }
}

/// In annotation mode the published contract is complete and is the approved
/// behavior generation, and its claims produce facts.
pub open spec fn publication_converged(inputs: Inputs) -> bool {
    inputs.annotation_mode ==> {
        &&& inputs.published.behavior_hash == inputs.approved_behavior_hash
        &&& inputs.published.input_schema is Some
        &&& inputs.published.readable_claims() is Some
    }
}

/// The catalog row stands for the same reviewed generation as the manifest: it
/// was classified by the same authority and carries the same version, and in
/// annotation mode also the same risk.
pub open spec fn same_generation(inputs: Inputs, row: CatalogRow) -> bool {
    &&& (row.classification_mode == "mcp_annotations"@) == inputs.annotation_mode
    &&& if inputs.annotation_mode {
        inputs.approved_behavior_hash == Some(row.schema_hash) && tier_of(row.risk)
            == inputs.manifest_facts.risk
    } else {
        inputs.manifest_version_hash is None || inputs.manifest_version_hash == Some(
            row.schema_hash,
        )
    }
}

/// How a resolution ends.
pub enum Verdict {
    Quarantined,
    Unavailable,
    /// The manifest's own classification governs.
    Fallback { approval_known: bool },
    /// The catalog row governs.
    Governed,
}

pub open spec fn fence_up(transition: Option<CatalogTransition>) -> bool {
    transition is Some && transition->0.pending
}

/// How a resolution ends, from the transition fence before and after the
/// catalog was read and from what it said.
pub open spec fn verdict(
    inputs: Inputs,
    before: Option<CatalogTransition>,
    after: Option<CatalogTransition>,
    lookup: CatalogLookup,
    policy: CatalogPolicy,
) -> Verdict {
    if fence_up(before) || !publication_converged(inputs) {
        Verdict::Quarantined
    } else if lookup is NotAttached {
        Verdict::Fallback { approval_known: true }
    } else if after != before || fence_up(after) {
        Verdict::Quarantined
    } else {
        match lookup {
            CatalogLookup::Live(row) => if same_generation(inputs, row.deep_view()) {
                Verdict::Governed
            } else {
                Verdict::Quarantined
            },
            CatalogLookup::Quarantined => Verdict::Quarantined,
            CatalogLookup::PendingApproval => if policy.strict_pending_approval {
                Verdict::Quarantined
            } else {
                Verdict::Fallback { approval_known: true }
            },
            CatalogLookup::NotFound => if policy.authoritative {
                Verdict::Quarantined
            } else {
                Verdict::Fallback { approval_known: true }
            },
            _ => if policy.authoritative {
                Verdict::Unavailable
            } else {
                Verdict::Fallback { approval_known: false }
            },
        }
    }
}

/// The contract where the manifest governs. Annotation mode carries the complete
/// published contract, which is the reviewed behavior; manifest mode carries the
/// input schema alone.
pub open spec fn fallback_contract(inputs: Inputs, approval_known: bool) -> Contract {
    let (facts, sensitive) = governing_facts(inputs);
    Contract {
        facts: Facts { requires_approval_known: approval_known, ..facts },
        tool_id: None,
        version: if inputs.annotation_mode {
            inputs.approved_behavior_hash
        } else {
            None
        },
        anticipated_sensitive_output: sensitive,
        input_schema: inputs.published.input_schema,
        output_schema: if inputs.annotation_mode {
            inputs.published.output_schema
        } else {
            None
        },
        tool_annotations: if inputs.annotation_mode {
            inputs.published.tool_annotations
        } else {
            None
        },
        action_metadata: if inputs.annotation_mode {
            inputs.published.action_metadata
        } else {
            None
        },
        discriminator: inputs.manifest_discriminator,
        operations: refinements(facts, inputs.annotation_mode, inputs.manifest_operations),
    }
}

/// The facts where a catalog row governs. The row decides the risk. It can add
/// an approval to claimed ones and never remove it; in manifest mode it decides
/// approval and flags alone. Policy-only approval suppresses both sources.
pub open spec fn governed_facts(inputs: Inputs, row: CatalogRow) -> Facts {
    let (facts, _) = governing_facts(inputs);
    let per_call = inputs.approval_mode == ApprovalMode::PerCall;
    Facts {
        risk: tier_of(row.risk),
        side_effects: if inputs.annotation_mode {
            facts.side_effects
        } else {
            row.side_effects
        },
        pii: if inputs.annotation_mode {
            facts.pii
        } else {
            row.pii
        },
        requires_approval: per_call && (row.requires_approval || (inputs.annotation_mode
            && facts.requires_approval)),
        requires_approval_known: true,
        ..facts
    }
}

/// The contract where a catalog row governs.
pub open spec fn governed_contract(inputs: Inputs, row: CatalogRow) -> Contract {
    let (_, sensitive) = governing_facts(inputs);
    let facts = governed_facts(inputs, row);
    Contract {
        facts,
        tool_id: Some(row.tool_id),
        version: Some(row.schema_hash),
        anticipated_sensitive_output: sensitive,
        input_schema: if inputs.annotation_mode {
            inputs.published.input_schema
        } else {
            row.input_schema
        },
        output_schema: if inputs.annotation_mode {
            inputs.published.output_schema
        } else {
            row.output_schema
        },
        tool_annotations: if inputs.annotation_mode {
            inputs.published.tool_annotations
        } else {
            row.tool_annotations
        },
        action_metadata: if inputs.annotation_mode {
            inputs.published.action_metadata
        } else {
            row.action_metadata
        },
        discriminator: row.discriminator,
        operations: refinements(facts, inputs.annotation_mode, row.operations),
    }
}

/// The result says what the verdict and the contracts say.
pub open spec fn resolves_to(
    result: ResolvedInvocationTool,
    server: Seq<char>,
    tool: Seq<char>,
    inputs: Inputs,
    ending: Verdict,
    lookup: CatalogLookup,
) -> bool {
    match (ending, result) {
        (Verdict::Quarantined, ResolvedInvocationTool::Quarantined { server: s, tool: t }) => s@
            == server && t@ == tool,
        (Verdict::Unavailable, ResolvedInvocationTool::Unavailable { server: s, tool: t }) => s@
            == server && t@ == tool,
        (Verdict::Fallback { approval_known }, ResolvedInvocationTool::Ready(snapshot)) => {
            &&& snapshot.contract.deep_view() == fallback_contract(inputs, approval_known)
            &&& snapshot.definition.deep_view() == inputs.published.definition
        },
        (Verdict::Governed, ResolvedInvocationTool::Ready(snapshot)) => {
            &&& lookup is Live
            &&& snapshot.contract.deep_view() == governed_contract(inputs, lookup->Live_0.deep_view())
            &&& snapshot.definition.deep_view() == inputs.published.definition
        },
        _ => false,
    }
}

fn quarantined(server: &str, tool_name: &str) -> (r: ResolvedInvocationTool)
    ensures
        match r {
            ResolvedInvocationTool::Quarantined { server: s, tool: t } => s@ == server@ && t@
                == tool_name@,
            _ => false,
        },
{
    ResolvedInvocationTool::Quarantined { server: server.to_owned(), tool: tool_name.to_owned() }
}

fn is_fenced(transition: Option<CatalogTransition>) -> (b: bool)
    ensures
        b == fence_up(transition),
{
    match transition {
        Some(row) => row.pending,
        None => false,
    }
}

/// Whether a resolution can go on to read the catalog: no fence is up, and the
/// published contract has converged with the manifest.
pub fn may_look_up(inputs: &SnapshotInputs, transition: Option<CatalogTransition>) -> (b: bool)
    ensures
        b == (!fence_up(transition) && publication_converged(inputs.deep_view())),
{
    if is_fenced(transition) {
        return false;
    }
    if !inputs.annotation_mode {
        return true;
    }
    inputs.published.behavior_hash.same(&inputs.approved_behavior_hash)
        && inputs.published.input_schema.is_some() && inputs.published.tool_annotations.is_some()
        && inputs.published.action_metadata.is_some() && inputs.published.claims.is_some()
}

fn fallback_snapshot(inputs: &SnapshotInputs, approval_known: bool) -> (r: InvocationToolSnapshot)
    requires
        publication_converged(inputs.deep_view()),
    ensures
        r.contract.deep_view() == fallback_contract(inputs.deep_view(), approval_known),
        r.definition.deep_view() == inputs.deep_view().published.definition,
{
    let (mut facts, sensitive) = resolved_facts(inputs);
    let operations = operation_classifications(
        &facts,
        inputs.annotation_mode,
        &inputs.manifest_operations,
    );
    facts.requires_approval_known = approval_known;
    let published = &inputs.published;
    let contract = if inputs.annotation_mode {
        InvocationContract {
            facts,
            tool_id: None,
            version: inputs.approved_behavior_hash.dup(),
            anticipated_sensitive_output: sensitive,
            input_schema: published.input_schema.dup(),
            output_schema: published.output_schema.dup(),
            tool_annotations: published.tool_annotations.dup(),
            action_metadata: published.action_metadata.dup(),
            discriminator: inputs.manifest_discriminator.dup(),
            operations,
        }
    } else {
        InvocationContract {
            facts,
            tool_id: None,
            version: None,
            anticipated_sensitive_output: sensitive,
            input_schema: published.input_schema.dup(),
            output_schema: None,
            tool_annotations: None,
            action_metadata: None,
            discriminator: inputs.manifest_discriminator.dup(),
            operations,
        }
    };
    InvocationToolSnapshot { contract, definition: published.definition.dup() }
}

fn resolved_facts(inputs: &SnapshotInputs) -> (r: (ToolFacts, bool))
    ensures
        (r.0.deep_view(), r.1) == governing_facts(inputs.deep_view()),
{
    if inputs.annotation_mode {
        match claims_facts(inputs.approval_mode, &inputs.manifest_facts, &inputs.published) {
            Some(derived) => derived,
            None => (inputs.manifest_facts.dup(), false),
        }
    } else {
        (inputs.manifest_facts.dup(), false)
    }
}

fn row_matches(inputs: &SnapshotInputs, row: &CatalogTool) -> (b: bool)
    ensures
        b == same_generation(inputs.deep_view(), row.deep_view()),
{
    let annotated = text_eq(row.classification_mode.as_str(), "mcp_annotations");
    if annotated != inputs.annotation_mode {
        return false;
    }
    if inputs.annotation_mode {
        let approved = match &inputs.approved_behavior_hash {
            Some(hash) => *hash == row.schema_hash,
            None => false,
        };
        approved && risk_to_tier(row.risk.as_str()) == inputs.manifest_facts.risk
    } else {
        match &inputs.manifest_version_hash {
            Some(hash) => *hash == row.schema_hash,
            None => true,
        }
    }
}

fn governed_snapshot(inputs: &SnapshotInputs, row: &CatalogTool) -> (r: InvocationToolSnapshot)
    ensures
        r.contract.deep_view() == governed_contract(inputs.deep_view(), row.deep_view()),
        r.definition.deep_view() == inputs.deep_view().published.definition,
{
    let (mut facts, sensitive) = resolved_facts(inputs);
    let per_call = inputs.approval_mode.uses_per_call_requirements();
    facts.risk = risk_to_tier(row.risk.as_str());
    if inputs.annotation_mode {
        facts.requires_approval = per_call && (facts.requires_approval || row.requires_approval);
    } else {
        facts.requires_approval = per_call && row.requires_approval;
        facts.side_effects = row.side_effects;
        facts.pii = row.pii;
    }
    facts.requires_approval_known = true;
    let operations = operation_classifications(&facts, inputs.annotation_mode, &row.operations);
    let published = &inputs.published;
    let contract = if inputs.annotation_mode {
        InvocationContract {
            facts,
            tool_id: Some(row.tool_id.clone()),
            version: Some(row.schema_hash.clone()),
            anticipated_sensitive_output: sensitive,
            input_schema: published.input_schema.dup(),
            output_schema: published.output_schema.dup(),
            tool_annotations: published.tool_annotations.dup(),
            action_metadata: published.action_metadata.dup(),
            discriminator: row.discriminator.dup(),
            operations,
        }
    } else {
        InvocationContract {
            facts,
            tool_id: Some(row.tool_id.clone()),
            version: Some(row.schema_hash.clone()),
            anticipated_sensitive_output: sensitive,
            input_schema: row.input_schema.dup(),
            output_schema: row.output_schema.dup(),
            tool_annotations: row.tool_annotations.dup(),
            action_metadata: row.action_metadata.dup(),
            discriminator: row.discriminator.dup(),
            operations,
        }
    };
    InvocationToolSnapshot { contract, definition: published.definition.dup() }
}

fn same_transition(a: Option<CatalogTransition>, b: Option<CatalogTransition>) -> (r: bool)
    ensures
        r == (a == b),
{
    match (a, b) {
        (Some(a), Some(b)) => a == b,
        (None, None) => true,
        _ => false,
    }
}

/// Resolve the governed snapshot of one tool from explicit inputs. The
/// admission read and the check right before dispatch both resolve through
/// here, so comparing their results is meaningful.
pub fn resolve_snapshot_from(
    server: &str,
    tool_name: &str,
    inputs: &SnapshotInputs,
    before: Option<CatalogTransition>,
    after: Option<CatalogTransition>,
    lookup: &CatalogLookup,
    policy: CatalogPolicy,
) -> (r: ResolvedInvocationTool)
    ensures
        resolves_to(
            r,
            server@,
            tool_name@,
            inputs.deep_view(),
            verdict(inputs.deep_view(), before, after, *lookup, policy),
            *lookup,
        ),
{
    if !may_look_up(inputs, before) {
        return quarantined(server, tool_name);
    }
    match lookup {
        CatalogLookup::NotAttached => {
            return ResolvedInvocationTool::Ready(fallback_snapshot(inputs, true));
        },
        _ => {},
    }
    if !same_transition(after, before) || is_fenced(after) {
        return quarantined(server, tool_name);
    }
    match lookup {
        CatalogLookup::Live(row) => {
            if row_matches(inputs, row) {
                ResolvedInvocationTool::Ready(governed_snapshot(inputs, row))
            } else {
                quarantined(server, tool_name)
            }
        },
        CatalogLookup::Quarantined => quarantined(server, tool_name),
        CatalogLookup::PendingApproval => {
            if policy.strict_pending_approval {
                quarantined(server, tool_name)
            } else {
                ResolvedInvocationTool::Ready(fallback_snapshot(inputs, true))
            }
        },
        CatalogLookup::NotFound => {
            if policy.authoritative {
                quarantined(server, tool_name)
            } else {
                ResolvedInvocationTool::Ready(fallback_snapshot(inputs, true))
            }
        },
        CatalogLookup::Failed | CatalogLookup::NotAttached => {
            if policy.authoritative {
                ResolvedInvocationTool::Unavailable {
                    server: server.to_owned(),
                    tool: tool_name.to_owned(),
                }
            } else {
                ResolvedInvocationTool::Ready(fallback_snapshot(inputs, false))
            }
        },
    }
}

impl ResolvedInvocationTool {
    /// The exact contract, if the tool resolved.
    pub fn contract_identity(&self) -> (r: Option<InvocationContract>)
        ensures
            match *self {
                ResolvedInvocationTool::Ready(snapshot) => r.deep_view() == Some(
                    snapshot.contract.deep_view(),
                ),
                _ => r is None,
            },
    {
        match self {
            ResolvedInvocationTool::Ready(snapshot) => Some(snapshot.contract.dup()),
            _ => None,
        }
    }

    /// Whether the tool has to be treated as side-effecting; one that does not
    /// resolve is.
    pub fn side_effects(&self) -> (b: bool)
        ensures
            b == match *self {
                ResolvedInvocationTool::Ready(snapshot) => snapshot.contract.facts.side_effects,
                _ => true,
            },
    {
        match self {
            ResolvedInvocationTool::Ready(snapshot) => snapshot.contract.facts.side_effects,
            _ => true,
        }
    }

    /// Whether this is still exactly the contract that was admitted earlier.
    pub fn admits(&self, admitted: &InvocationContract) -> (b: bool)
        ensures
            b == match *self {
                ResolvedInvocationTool::Ready(snapshot) => snapshot.contract.deep_view()
                    == admitted.deep_view(),
                _ => false,
            },
    {
        match self {
            ResolvedInvocationTool::Ready(snapshot) => snapshot.contract.same(admitted),
            _ => false,
        }
    }
}

/// While a fence is up, or came up or moved during the lookup, nothing resolves:
/// an authorization never combines a new declaration with an old catalog.
pub proof fn fenced_tools_never_resolve(
    inputs: Inputs,
    before: Option<CatalogTransition>,
    after: Option<CatalogTransition>,
    lookup: CatalogLookup,
    policy: CatalogPolicy,
)
    requires
        fence_up(before) || (!(lookup is NotAttached) && (after != before || fence_up(after))),
    ensures
        verdict(inputs, before, after, lookup, policy) == Verdict::Quarantined,
{
}

/// An authoritative catalog never falls through to the manifest: a tool it does
/// not hold, or cannot give, does not resolve.
pub proof fn authoritative_catalog_has_no_fallback(
    inputs: Inputs,
    before: Option<CatalogTransition>,
    after: Option<CatalogTransition>,
    lookup: CatalogLookup,
    policy: CatalogPolicy,
)
    requires
        policy.authoritative,
        lookup is NotFound || lookup is Failed || lookup is Quarantined,
    ensures
        verdict(inputs, before, after, lookup, policy) == Verdict::Quarantined || verdict(
            inputs,
            before,
            after,
            lookup,
            policy,
        ) == Verdict::Unavailable,
{
}

/// In annotation mode a tool resolves only with the approved behavior: the
/// version of its contract is the approved hash, whoever governs.
pub proof fn annotated_contracts_carry_the_approved_hash(
    inputs: Inputs,
    row: CatalogRow,
    approval_known: bool,
)
    requires
        inputs.annotation_mode,
        publication_converged(inputs),
    ensures
        fallback_contract(inputs, approval_known).version == inputs.published.behavior_hash,
        same_generation(inputs, row) ==> governed_contract(inputs, row).version
            == inputs.published.behavior_hash,
        same_generation(inputs, row) ==> governed_contract(inputs, row).facts.risk
            == inputs.manifest_facts.risk,
{
}

/// A catalog row can add an approval to reviewed claims and never remove one.
pub proof fn catalog_never_removes_an_approval(inputs: Inputs, row: CatalogRow)
    requires
        inputs.annotation_mode,
        publication_converged(inputs),
        fallback_contract(inputs, true).facts.requires_approval,
    ensures
        governed_contract(inputs, row).facts.requires_approval,
{
}

/// The inputs of a resolution are those of the tool's first declaration: the
/// approved behavior counts under the annotation authority alone, the version of
/// the declaration under the manifest authority alone, and the discriminator and
/// the operations under both.
pub proof fn inputs_come_from_the_declaration(
    manifest: Manifest,
    server: Seq<char>,
    tool: Seq<char>,
    version_hash: Option<Seq<char>>,
    published: Published,
    k: int,
)
    requires
        0 <= k < manifest.tools.len(),
        manifest.tools[k].name == tool,
        forall|j: int| 0 <= j < k ==> (#[trigger] manifest.tools[j]).name != tool,
    ensures
        ({
            let inputs = inputs_for(Some(manifest), server, tool, version_hash, published);
            let declared = manifest.tools[k];
            &&& inputs.published == published
            &&& inputs.approval_mode == manifest.approval_mode
            &&& inputs.manifest_facts == manifest_facts(Some(manifest), server, tool)
            &&& inputs.manifest_facts.risk == declared.risk
            &&& inputs.manifest_discriminator == declared.discriminator
            &&& inputs.manifest_operations.len() == declared.operations.len()
            &&& forall|i: int|
                0 <= i < declared.operations.len() ==> {
                    let stored = #[trigger] inputs.manifest_operations[i];
                    &&& stored.value == declared.operations[i].value
                    &&& tier_of(stored.risk) == declared.operations[i].risk
                    &&& stored.side_effects == declared.operations[i].side_effects
                    &&& stored.pii == declared.operations[i].pii
                }
            &&& manifest.classification_mode == ClassificationMode::Manifest ==> {
                &&& !inputs.annotation_mode
                &&& inputs.manifest_version_hash == version_hash
                &&& inputs.approved_behavior_hash is None
            }
            &&& manifest.classification_mode == ClassificationMode::McpAnnotations ==> {
                &&& inputs.annotation_mode
                &&& inputs.manifest_version_hash is None
                &&& inputs.approved_behavior_hash == declared.approved_behavior_hash
            }
        }),
{
    a_name_takes_its_first_classification(manifest.tools, tool, k);
    let inputs = inputs_for(Some(manifest), server, tool, version_hash, published);
    let declared = manifest.tools[k];
    assert forall|i: int| 0 <= i < declared.operations.len() implies {
        let stored = #[trigger] inputs.manifest_operations[i];
        &&& stored.value == declared.operations[i].value
        &&& tier_of(stored.risk) == declared.operations[i].risk
        &&& stored.side_effects == declared.operations[i].side_effects
        &&& stored.pii == declared.operations[i].pii
    } by {
        tier_names_are_faithful(declared.operations[i].risk, Seq::empty());
    }
}

/// A tool that nothing declares brings no version, no approved behavior, no
/// discriminator and no operations to its resolution; an upstream that nothing
/// configures asks for approvals per call.
pub proof fn undeclared_tools_bring_no_contract(
    manifest: Option<Manifest>,
    server: Seq<char>,
    tool: Seq<char>,
    version_hash: Option<Seq<char>>,
    published: Published,
)
    requires
        manifest is Some ==> forall|j: int|
            0 <= j < manifest->0.tools.len() ==> (#[trigger] manifest->0.tools[j]).name != tool,
    ensures
        ({
            let inputs = inputs_for(manifest, server, tool, version_hash, published);
            &&& inputs.published == published
            &&& inputs.manifest_facts == manifest_facts(manifest, server, tool)
            &&& inputs.approved_behavior_hash is None
            &&& inputs.manifest_version_hash is None
            &&& inputs.manifest_discriminator is None
            &&& inputs.manifest_operations.len() == 0
            &&& manifest is None ==> !inputs.annotation_mode && inputs.approval_mode
                == ApprovalMode::PerCall
            &&& manifest is Some ==> inputs.approval_mode == manifest->0.approval_mode
            &&& manifest is Some ==> (inputs.annotation_mode <==> manifest->0.classification_mode
                == ClassificationMode::McpAnnotations)
        }),
{
    if manifest is Some {
        let tools = manifest->0.tools;
        a_name_takes_its_first_classification(tools, tool, tools.len() as int);
    }
}

/// A catalog row governs a call only where it was classified by the authority
/// that the manifest names and stands for the generation the manifest declares:
/// its hash is the declared version, where one is known, or the approved
/// behavior, and under the annotation authority its risk is the declared one.
/// On every other row the call is refused.
pub proof fn stale_rows_never_govern(
    inputs: Inputs,
    before: Option<CatalogTransition>,
    after: Option<CatalogTransition>,
    lookup: CatalogLookup,
    policy: CatalogPolicy,
)
    requires
        lookup is Live,
    ensures
        ({
            let row = lookup->Live_0.deep_view();
            let ending = verdict(inputs, before, after, lookup, policy);
            &&& ending == Verdict::Governed || ending == Verdict::Quarantined
            &&& inputs.annotation_mode != (row.classification_mode == "mcp_annotations"@)
                ==> ending == Verdict::Quarantined
            &&& !inputs.annotation_mode && inputs.manifest_version_hash is Some
                && row.schema_hash != inputs.manifest_version_hash->0 ==> ending
                == Verdict::Quarantined
            &&& inputs.annotation_mode && inputs.approved_behavior_hash != Some(row.schema_hash)
                ==> ending == Verdict::Quarantined
            &&& inputs.annotation_mode && inputs.manifest_facts.risk != tier_of(row.risk)
                ==> ending == Verdict::Quarantined
        }),
{
}

/// Under the annotation authority nothing resolves, whatever the catalog says,
/// unless the published behavior is the approved one and its schema, its
/// annotations and its action metadata are all there to be read.
pub proof fn unread_publications_never_resolve(
    inputs: Inputs,
    before: Option<CatalogTransition>,
    after: Option<CatalogTransition>,
    lookup: CatalogLookup,
    policy: CatalogPolicy,
)
    requires
        inputs.annotation_mode,
        inputs.published.behavior_hash != inputs.approved_behavior_hash
            || inputs.published.input_schema is None || inputs.published.tool_annotations is None
            || inputs.published.action_metadata is None || inputs.published.claims is None,
    ensures
        verdict(inputs, before, after, lookup, policy) == Verdict::Quarantined,
{
}

/// Where no fence stands or moves and the publication is the approved one, a
/// row of the same generation governs.
pub proof fn current_rows_govern(
    inputs: Inputs,
    before: Option<CatalogTransition>,
    after: Option<CatalogTransition>,
    lookup: CatalogLookup,
    policy: CatalogPolicy,
)
    requires
        before is Some ==> !before->0.pending,
        after == before,
        lookup is Live,
        inputs.annotation_mode ==> {
            let row = lookup->Live_0.deep_view();
            &&& inputs.published.behavior_hash == inputs.approved_behavior_hash
            &&& inputs.published.input_schema is Some
            &&& inputs.published.tool_annotations is Some
            &&& inputs.published.action_metadata is Some
            &&& inputs.published.claims is Some
            &&& row.classification_mode == "mcp_annotations"@
            &&& inputs.approved_behavior_hash == Some(row.schema_hash)
            &&& inputs.manifest_facts.risk == tier_of(row.risk)
        },
        !inputs.annotation_mode ==> {
            let row = lookup->Live_0.deep_view();
            &&& row.classification_mode != "mcp_annotations"@
            &&& inputs.manifest_version_hash is Some ==> inputs.manifest_version_hash->0
                == row.schema_hash
        },
    ensures
        verdict(inputs, before, after, lookup, policy) == Verdict::Governed,
{
}

/// What a resolution without a live row ends in, where no fence stands or moves
/// and the publication is the approved one: the manifest governs where no catalog
/// is attached and, under a catalog that is no authority, where the tool is not
/// there; an unapproved tool is refused by a strict policy alone; an unreadable
/// catalog leaves the approval unknown, or makes an authority unavailable.
pub proof fn the_manifest_governs_where_the_catalog_does_not(
    inputs: Inputs,
    before: Option<CatalogTransition>,
    after: Option<CatalogTransition>,
    lookup: CatalogLookup,
    policy: CatalogPolicy,
)
    requires
        before is Some ==> !before->0.pending,
        after == before || lookup is NotAttached,
        inputs.annotation_mode ==> {
            &&& inputs.published.behavior_hash == inputs.approved_behavior_hash
            &&& inputs.published.input_schema is Some
            &&& inputs.published.tool_annotations is Some
            &&& inputs.published.action_metadata is Some
            &&& inputs.published.claims is Some
        },
    ensures
        ({
            let ending = verdict(inputs, before, after, lookup, policy);
            &&& lookup is NotAttached ==> ending == (Verdict::Fallback { approval_known: true })
            &&& lookup is Quarantined ==> ending == Verdict::Quarantined
            &&& lookup is PendingApproval && policy.strict_pending_approval ==> ending
                == Verdict::Quarantined
            &&& lookup is PendingApproval && !policy.strict_pending_approval ==> ending == (
            Verdict::Fallback { approval_known: true })
            &&& lookup is NotFound && policy.authoritative ==> ending == Verdict::Quarantined
            &&& lookup is NotFound && !policy.authoritative ==> ending == (Verdict::Fallback {
                approval_known: true,
            })
            &&& lookup is Failed && policy.authoritative ==> ending == Verdict::Unavailable
            &&& lookup is Failed && !policy.authoritative ==> ending == (Verdict::Fallback {
                approval_known: false,
            })
        }),
{
}

/// Under the manifest authority a governed contract is the catalog row: its
/// identity, version, schemas, metadata, risk and flags; an approval is asked
/// for exactly where the row asks for one and approvals are per call.
pub proof fn a_governed_contract_is_the_row(inputs: Inputs, row: CatalogRow)
    requires
        !inputs.annotation_mode,
    ensures
        ({
            let contract = governed_contract(inputs, row);
            &&& contract.tool_id == Some(row.tool_id)
            &&& contract.version == Some(row.schema_hash)
            &&& contract.input_schema == row.input_schema
            &&& contract.output_schema == row.output_schema
            &&& contract.tool_annotations == row.tool_annotations
            &&& contract.action_metadata == row.action_metadata
            &&& contract.discriminator == row.discriminator
            &&& contract.operations == refinements(contract.facts, false, row.operations)
            &&& !contract.anticipated_sensitive_output
            &&& contract.facts.server == inputs.manifest_facts.server
            &&& contract.facts.name == inputs.manifest_facts.name
            &&& contract.facts.risk == tier_of(row.risk)
            &&& contract.facts.side_effects == row.side_effects
            &&& contract.facts.pii == row.pii
            &&& contract.facts.requires_approval <==> row.requires_approval
                && inputs.approval_mode == ApprovalMode::PerCall
            &&& contract.facts.requires_approval_known
        }),
{
}

/// Under the annotation authority a governed contract has the identity and
/// version of the catalog row and everything else of the publication: its
/// schemas, its metadata, and the flags that the reviewed claims give; an
/// approval is asked for where the claims or the row ask for one and approvals
/// are per call.
pub proof fn a_governed_annotated_contract_is_the_publication(
    inputs: Inputs,
    row: CatalogRow,
    claims: BehaviorClaims,
)
    requires
        inputs.annotation_mode,
        inputs.published.tool_annotations is Some,
        inputs.published.action_metadata is Some,
        inputs.published.claims == Some(claims),
    ensures
        ({
            let contract = governed_contract(inputs, row);
            &&& contract.tool_id == Some(row.tool_id)
            &&& contract.version == Some(row.schema_hash)
            &&& contract.input_schema == inputs.published.input_schema
            &&& contract.output_schema == inputs.published.output_schema
            &&& contract.tool_annotations == inputs.published.tool_annotations
            &&& contract.action_metadata == inputs.published.action_metadata
            &&& contract.discriminator == row.discriminator
            &&& contract.operations == refinements(contract.facts, true, row.operations)
            &&& contract.anticipated_sensitive_output == claims.output_sensitive
            &&& contract.facts.server == inputs.manifest_facts.server
            &&& contract.facts.name == inputs.manifest_facts.name
            &&& contract.facts.risk == tier_of(row.risk)
            &&& contract.facts.side_effects == claims.side_effects
            &&& contract.facts.pii == claims.protected_data
            &&& contract.facts.requires_approval <==> (row.requires_approval
                || claims.requires_review) && inputs.approval_mode == ApprovalMode::PerCall
            &&& contract.facts.requires_approval_known
        }),
{
}

/// Where the manifest governs by itself the contract has no identity in the
/// catalog. It is the declaration and the published input schema; under the
/// annotation authority also the rest of the publication, with the approved
/// behavior for its version and the flags of the reviewed claims.
pub proof fn a_fallback_contract_is_the_declaration(inputs: Inputs, approval_known: bool)
    ensures
        ({
            let contract = fallback_contract(inputs, approval_known);
            let claims = inputs.published.claims->0;
            &&& contract.tool_id is None
            &&& contract.input_schema == inputs.published.input_schema
            &&& contract.discriminator == inputs.manifest_discriminator
            &&& contract.facts.server == inputs.manifest_facts.server
            &&& contract.facts.name == inputs.manifest_facts.name
            &&& contract.facts.risk == inputs.manifest_facts.risk
            &&& contract.facts.requires_approval_known == approval_known
            &&& !inputs.annotation_mode ==> {
                &&& contract.version is None
                &&& contract.output_schema is None
                &&& contract.tool_annotations is None
                &&& contract.action_metadata is None
                &&& !contract.anticipated_sensitive_output
                &&& contract.facts.side_effects == inputs.manifest_facts.side_effects
                &&& contract.facts.pii == inputs.manifest_facts.pii
                &&& contract.facts.requires_approval == inputs.manifest_facts.requires_approval
            }
            &&& inputs.annotation_mode ==> {
                &&& contract.version == inputs.approved_behavior_hash
                &&& contract.output_schema == inputs.published.output_schema
                &&& contract.tool_annotations == inputs.published.tool_annotations
                &&& contract.action_metadata == inputs.published.action_metadata
            }
            &&& inputs.annotation_mode && inputs.published.tool_annotations is Some
                && inputs.published.action_metadata is Some && inputs.published.claims is Some ==> {
                &&& contract.anticipated_sensitive_output == claims.output_sensitive
                &&& contract.facts.side_effects == claims.side_effects
                &&& contract.facts.pii == claims.protected_data
                &&& contract.facts.requires_approval <==> claims.requires_review
                    && inputs.approval_mode == ApprovalMode::PerCall
            }
        }),
        forall|i: int|
            0 <= i < fallback_contract(inputs, approval_known).operations.len() ==> {
                let operation = #[trigger] fallback_contract(inputs, approval_known).operations[i];
                &&& operation.risk.rank() <= inputs.manifest_facts.risk.rank()
                &&& exists|j: int|
                    0 <= j < inputs.manifest_operations.len() && (
                    #[trigger] inputs.manifest_operations[j]).value == operation.value
            },
        !inputs.annotation_mode ==> fallback_contract(inputs, approval_known).operations
            == refinements(inputs.manifest_facts, false, inputs.manifest_operations),
{
    let (facts, sensitive) = governing_facts(inputs);
    let operations = refinements(facts, inputs.annotation_mode, inputs.manifest_operations);
    assert forall|i: int| 0 <= i < operations.len() implies {
        let operation = #[trigger] operations[i];
        &&& operation.risk.rank() <= inputs.manifest_facts.risk.rank()
        &&& exists|j: int|
            0 <= j < inputs.manifest_operations.len() && (
            #[trigger] inputs.manifest_operations[j]).value == operation.value
    } by {
        operations_stay_within_the_tool(
            facts,
            inputs.annotation_mode,
            inputs.manifest_operations,
            i,
        );
        refinements_come_from_rows_within_the_tool(
            facts,
            inputs.annotation_mode,
            inputs.manifest_operations,
            i,
        );
    }
}

/// A result says what was decided: a refusal names the server and the tool it
/// refuses, and a tool is ready exactly where a contract governs it, with that
/// contract and the published definition.
pub proof fn results_say_what_was_decided(
    result: ResolvedInvocationTool,
    server: Seq<char>,
    tool: Seq<char>,
    inputs: Inputs,
    ending: Verdict,
    lookup: CatalogLookup,
)
    requires
        resolves_to(result, server, tool, inputs, ending, lookup),
    ensures
        ending == Verdict::Quarantined <==> result is Quarantined,
        ending == Verdict::Unavailable <==> result is Unavailable,
        (ending == Verdict::Governed || ending is Fallback) <==> result is Ready,
        result is Quarantined ==> result->Quarantined_server@ == server
            && result->Quarantined_tool@ == tool,
        result is Unavailable ==> result->Unavailable_server@ == server
            && result->Unavailable_tool@ == tool,
        result is Ready ==> result->Ready_0.definition.deep_view() == inputs.published.definition,
        ending == Verdict::Governed ==> lookup is Live
            && result->Ready_0.contract.deep_view() == governed_contract(
            inputs,
            lookup->Live_0.deep_view(),
        ),
        ending is Fallback ==> result->Ready_0.contract.deep_view() == fallback_contract(
            inputs,
            ending->approval_known,
        ),
{
}

/// The view of a published contract says every field of it as it is.
pub proof fn published_tool_contract_is_said_whole(value: PublishedToolContract)
    ensures
        value.deep_view().definition == value.definition.deep_view(),
        value.deep_view().advertised_definition == value.advertised_definition.deep_view(),
        value.deep_view().input_schema == value.input_schema.deep_view(),
        value.deep_view().output_schema == value.output_schema.deep_view(),
        value.deep_view().tool_annotations == value.tool_annotations.deep_view(),
        value.deep_view().action_metadata == value.action_metadata.deep_view(),
        value.deep_view().claims == value.claims.deep_view(),
        value.deep_view().behavior_hash == value.behavior_hash.deep_view(),
{
}

/// The view of a catalog row says every field of it as it is.
pub proof fn catalog_tool_is_said_whole(value: CatalogTool)
    ensures
        value.deep_view().tool_id == value.tool_id.deep_view(),
        value.deep_view().schema_hash == value.schema_hash.deep_view(),
        value.deep_view().classification_mode == value.classification_mode.deep_view(),
        value.deep_view().risk == value.risk.deep_view(),
        value.deep_view().side_effects == value.side_effects.deep_view(),
        value.deep_view().pii == value.pii.deep_view(),
        value.deep_view().requires_approval == value.requires_approval.deep_view(),
        value.deep_view().input_schema == value.input_schema.deep_view(),
        value.deep_view().output_schema == value.output_schema.deep_view(),
        value.deep_view().tool_annotations == value.tool_annotations.deep_view(),
        value.deep_view().action_metadata == value.action_metadata.deep_view(),
        value.deep_view().discriminator == value.discriminator.deep_view(),
        value.deep_view().operations == value.operations.deep_view(),
{
}

/// The view of an invocation contract says every field of it as it is.
pub proof fn invocation_contract_is_said_whole(value: InvocationContract)
    ensures
        value.deep_view().facts == value.facts.deep_view(),
        value.deep_view().tool_id == value.tool_id.deep_view(),
        value.deep_view().version == value.version.deep_view(),
        value.deep_view().anticipated_sensitive_output == value.anticipated_sensitive_output.deep_view(),
        value.deep_view().input_schema == value.input_schema.deep_view(),
        value.deep_view().output_schema == value.output_schema.deep_view(),
        value.deep_view().tool_annotations == value.tool_annotations.deep_view(),
        value.deep_view().action_metadata == value.action_metadata.deep_view(),
        value.deep_view().discriminator == value.discriminator.deep_view(),
        value.deep_view().operations == value.operations.deep_view(),
{
}

/// The view of the inputs of a resolution says every field of it as it is.
pub proof fn snapshot_inputs_is_said_whole(value: SnapshotInputs)
    ensures
        value.deep_view().manifest_facts == value.manifest_facts.deep_view(),
        value.deep_view().annotation_mode == value.annotation_mode.deep_view(),
        value.deep_view().approval_mode == value.approval_mode.deep_view(),
        value.deep_view().approved_behavior_hash == value.approved_behavior_hash.deep_view(),
        value.deep_view().manifest_version_hash == value.manifest_version_hash.deep_view(),
        value.deep_view().manifest_discriminator == value.manifest_discriminator.deep_view(),
        value.deep_view().manifest_operations == value.manifest_operations.deep_view(),
        value.deep_view().published == value.published.deep_view(),
{
}

} // verus!
