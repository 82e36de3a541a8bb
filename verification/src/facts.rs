//! Governance facts of a tool and of the operations it dispatches to.

use vstd::prelude::*;

use crate::admission::{
    a_name_takes_its_first_classification, classification_of, find_classification,
};
use crate::manifest::{
    ClassificationMode, Manifest, Operation, OperationClassification, RiskTier, UpstreamManifest,
};
use crate::names::text_eq;
use crate::value::Value;

verus! {

impl RiskTier {
    /// Position in the order of severity.
    pub open spec fn rank(self) -> int {
        match self {
            RiskTier::Low => 0,
            RiskTier::Medium => 1,
            RiskTier::High => 2,
        }
    }

    /// Whether this tier is at least as severe as another.
    pub fn covers(self, other: RiskTier) -> (b: bool)
        ensures
            b == (self.rank() >= other.rank()),
    {
        match (self, other) {
            (RiskTier::High, _) => true,
            (RiskTier::Medium, RiskTier::High) => false,
            (RiskTier::Medium, _) => true,
            (RiskTier::Low, RiskTier::Low) => true,
            (RiskTier::Low, _) => false,
        }
    }

    pub open spec fn spec_as_str(self) -> Seq<char> {
        match self {
            RiskTier::Low => "low"@,
            RiskTier::Medium => "medium"@,
            RiskTier::High => "high"@,
        }
    }

    pub fn as_str(self) -> (r: &'static str)
        ensures
            r@ == self.spec_as_str(),
    {
        match self {
            RiskTier::Low => "low",
            RiskTier::Medium => "medium",
            RiskTier::High => "high",
        }
    }
}

/// The tier of a risk as the catalog stores it. Whatever is not known counts as
/// the most severe.
pub open spec fn tier_of(risk: Seq<char>) -> RiskTier {
    if risk == "low"@ {
        RiskTier::Low
    } else if risk == "medium"@ {
        RiskTier::Medium
    } else {
        RiskTier::High
    }
}

pub fn risk_to_tier(risk: &str) -> (r: RiskTier)
    ensures
        r == tier_of(risk@),
{
    if text_eq(risk, "low") {
        RiskTier::Low
    } else if text_eq(risk, "medium") {
        RiskTier::Medium
    } else {
        RiskTier::High
    }
}

/// What authorization reads about a tool.
#[derive(Debug, PartialEq, Eq)]
pub struct ToolFacts {
    pub server: String,
    pub name: String,
    pub risk: RiskTier,
    pub side_effects: bool,
    pub pii: bool,
    pub requires_approval: bool,
    /// Whether `requires_approval` comes from an authority that could be read.
    pub requires_approval_known: bool,
}

/// What [`ToolFacts`] say.
#[verifier::ext_equal]
pub struct Facts {
    pub server: Seq<char>,
    pub name: Seq<char>,
    pub risk: RiskTier,
    pub side_effects: bool,
    pub pii: bool,
    pub requires_approval: bool,
    pub requires_approval_known: bool,
}

impl DeepView for ToolFacts {
    type V = Facts;

    open spec fn deep_view(&self) -> Facts {
        Facts {
            server: self.server@,
            name: self.name@,
            risk: self.risk,
            side_effects: self.side_effects,
            pii: self.pii,
            requires_approval: self.requires_approval,
            requires_approval_known: self.requires_approval_known,
        }
    }
}

impl Value for ToolFacts {
    fn dup(&self) -> (r: Self) {
        ToolFacts {
            server: self.server.dup(),
            name: self.name.dup(),
            risk: self.risk,
            side_effects: self.side_effects,
            pii: self.pii,
            requires_approval: self.requires_approval,
            requires_approval_known: self.requires_approval_known,
        }
    }

    fn same(&self, other: &Self) -> (b: bool) {
        self.server.same(&other.server) && self.name.same(&other.name) && self.risk == other.risk
            && self.side_effects == other.side_effects && self.pii == other.pii
            && self.requires_approval == other.requires_approval
            && self.requires_approval_known == other.requires_approval_known
    }
}

/// The facts a manifest gives about a tool. An unknown server or tool gets the
/// least severe ones; an annotation-governed tool counts as side-effecting and
/// sensitive until its reviewed claims say otherwise.
pub open spec fn manifest_facts(
    manifest: Option<Manifest>,
    server: Seq<char>,
    tool: Seq<char>,
) -> Facts {
    let classification = match manifest {
        Some(m) => classification_of(m.tools, tool),
        None => None,
    };
    let annotated = manifest is Some && manifest->0.classification_mode
        == ClassificationMode::McpAnnotations;
    match classification {
        Some(c) => Facts {
            server,
            name: tool,
            risk: c.risk,
            side_effects: annotated || c.side_effects,
            pii: annotated || c.pii,
            requires_approval: false,
            requires_approval_known: true,
        },
        None => Facts {
            server,
            name: tool,
            risk: RiskTier::Low,
            side_effects: false,
            pii: false,
            requires_approval: false,
            requires_approval_known: true,
        },
    }
}

/// Facts of one tool from one manifest snapshot.
pub fn manifest_tool_facts(manifest: Option<&UpstreamManifest>, server: &str, tool_name: &str) -> (r:
    ToolFacts)
    ensures
        r.deep_view() == manifest_facts(manifest.deep_view(), server@, tool_name@),
{
    let mut risk = RiskTier::Low;
    let mut side_effects = false;
    let mut pii = false;
    if let Some(manifest) = manifest {
        if let Some(k) = find_classification(&manifest.tools, tool_name) {
            let annotated = manifest.classification_mode == ClassificationMode::McpAnnotations;
            risk = manifest.tools[k].risk;
            side_effects = annotated || manifest.tools[k].side_effects;
            pii = annotated || manifest.tools[k].pii;
        }
    }
    ToolFacts {
        server: server.to_owned(),
        name: tool_name.to_owned(),
        risk,
        side_effects,
        pii,
        requires_approval: false,
        requires_approval_known: true,
    }
}

/// Classification of an operation as the catalog stores it.
#[derive(Debug, PartialEq, Eq)]
pub struct CatalogOperation {
    pub value: String,
    pub risk: String,
    pub side_effects: bool,
    pub pii: bool,
}

/// What a [`CatalogOperation`] says.
#[verifier::ext_equal]
pub struct StoredOperation {
    pub value: Seq<char>,
    pub risk: Seq<char>,
    pub side_effects: bool,
    pub pii: bool,
}

impl DeepView for CatalogOperation {
    type V = StoredOperation;

    open spec fn deep_view(&self) -> StoredOperation {
        StoredOperation {
            value: self.value@,
            risk: self.risk@,
            side_effects: self.side_effects,
            pii: self.pii,
        }
    }
}

impl Value for CatalogOperation {
    fn dup(&self) -> (r: Self) {
        CatalogOperation {
            value: self.value.dup(),
            risk: self.risk.dup(),
            side_effects: self.side_effects,
            pii: self.pii,
        }
    }

    fn same(&self, other: &Self) -> (b: bool) {
        self.value.same(&other.value) && self.risk.same(&other.risk) && self.side_effects
            == other.side_effects && self.pii == other.pii
    }
}

/// An operation is no more severe than the tool it refines, as it is stored.
pub open spec fn within_ceiling(facts: Facts, operation: StoredOperation) -> bool {
    &&& facts.risk.rank() >= tier_of(operation.risk).rank()
    &&& facts.side_effects || !operation.side_effects
    &&& facts.pii || !operation.pii
}

/// The classification of an operation within the ceiling. Annotation mode pins
/// the flags to the tool's; only the risk may narrow there.
pub open spec fn refined(facts: Facts, annotation_mode: bool, operation: StoredOperation) -> Operation {
    Operation {
        value: operation.value,
        risk: tier_of(operation.risk),
        side_effects: if annotation_mode {
            facts.side_effects
        } else {
            operation.side_effects
        },
        pii: if annotation_mode {
            facts.pii
        } else {
            operation.pii
        },
    }
}

/// The operations that refine a tool: those within its ceiling, in order. A row
/// above the ceiling is dropped, which leaves the tool's own classification in
/// force for it.
pub open spec fn refinements(
    facts: Facts,
    annotation_mode: bool,
    operations: Seq<StoredOperation>,
) -> Seq<Operation> {
    operations.filter(|o: StoredOperation| within_ceiling(facts, o)).map_values(
        |o: StoredOperation| refined(facts, annotation_mode, o),
    )
}

/// Map the stored operation rows of a tool, keeping them within the facts they
/// refine. The test is on the row as stored: pinning flags first would let a row
/// that exceeds them pass with its lower risk.
pub fn operation_classifications(
    facts: &ToolFacts,
    annotation_mode: bool,
    operations: &Vec<CatalogOperation>,
) -> (r: Vec<OperationClassification>)
    ensures
        r.deep_view() == refinements(facts.deep_view(), annotation_mode, operations.deep_view()),
{
    let ghost ceiling = facts.deep_view();
    let ghost all = operations.deep_view();
    let ghost keep = |o: StoredOperation| within_ceiling(ceiling, o);
    let ghost form = |o: StoredOperation| refined(ceiling, annotation_mode, o);
    let mut out: Vec<OperationClassification> = Vec::new();
    let mut i: usize = 0;
    proof {
        assert(all.take(0).filter(keep) =~= Seq::<StoredOperation>::empty()) by {
            reveal(Seq::filter);
        }
        assert(out.deep_view() =~= all.take(0).filter(keep).map_values(form));
    }
    while i < operations.len()
        invariant
            i <= operations.len(),
            ceiling == facts.deep_view(),
            all == operations.deep_view(),
            keep == (|o: StoredOperation| within_ceiling(ceiling, o)),
            form == (|o: StoredOperation| refined(ceiling, annotation_mode, o)),
            out.deep_view() == all.take(i as int).filter(keep).map_values(form),
        decreases operations.len() - i,
    {
        let operation = &operations[i];
        proof {
            let next = all.take(i + 1);
            assert(next.drop_last() =~= all.take(i as int));
            assert(next.last() == all[i as int]);
            reveal(Seq::filter);
        }
        let tier = risk_to_tier(operation.risk.as_str());
        let within = facts.risk.covers(tier) && (facts.side_effects || !operation.side_effects)
            && (facts.pii || !operation.pii);
        if within {
            let ghost kept = all.take(i as int).filter(keep);
            let ghost before = out.deep_view();
            let mapped = OperationClassification {
                value: operation.value.clone(),
                risk: tier,
                side_effects: if annotation_mode {
                    facts.side_effects
                } else {
                    operation.side_effects
                },
                pii: if annotation_mode {
                    facts.pii
                } else {
                    operation.pii
                },
            };
            let ghost meaning = mapped.deep_view();
            out.push(mapped);
            proof {
                assert(out.deep_view() =~= before.push(meaning));
                assert(kept.push(all[i as int]).map_values(form) =~= before.push(meaning));
            }
        }
        i = i + 1;
    }
    proof {
        assert(all.take(all.len() as int) =~= all);
    }
    out
}

/// No operation is classified more severely than the tool it refines, in any
/// respect and in either mode.
pub proof fn operations_stay_within_the_tool(
    facts: Facts,
    annotation_mode: bool,
    operations: Seq<StoredOperation>,
    i: int,
)
    requires
        0 <= i < refinements(facts, annotation_mode, operations).len(),
    ensures
        ({
            let operation = refinements(facts, annotation_mode, operations)[i];
            &&& operation.risk.rank() <= facts.risk.rank()
            &&& operation.side_effects ==> facts.side_effects
            &&& operation.pii ==> facts.pii
            &&& annotation_mode ==> operation.side_effects == facts.side_effects && operation.pii
                == facts.pii
        }),
{
    let keep = |o: StoredOperation| within_ceiling(facts, o);
    let kept = operations.filter(keep);
    operations.lemma_filter_pred(keep, i);
    assert(within_ceiling(facts, kept[i]));
}

/// A tier read back from its own name is the same tier, and a name nobody knows
/// is the most severe one.
pub proof fn tier_names_are_faithful(tier: RiskTier, name: Seq<char>)
    ensures
        tier_of(tier.spec_as_str()) == tier,
        (forall|known: RiskTier| #[trigger] known.spec_as_str() != name) ==> tier_of(name)
            == RiskTier::High,
{
    reveal_strlit("low");
    reveal_strlit("medium");
    reveal_strlit("high");
    assert("low"@.len() == 3 && "medium"@.len() == 6 && "high"@.len() == 4);
    assert(RiskTier::Low.spec_as_str() == "low"@);
    assert(RiskTier::Medium.spec_as_str() == "medium"@);
}

/// The facts of a declared tool are those of its first declaration; under the
/// annotation authority it counts as side-effecting and sensitive besides.
pub proof fn facts_come_from_the_declaration(
    manifest: Manifest,
    server: Seq<char>,
    tool: Seq<char>,
    k: int,
)
    requires
        0 <= k < manifest.tools.len(),
        manifest.tools[k].name == tool,
        forall|j: int| 0 <= j < k ==> (#[trigger] manifest.tools[j]).name != tool,
    ensures
        ({
            let facts = manifest_facts(Some(manifest), server, tool);
            let declared = manifest.tools[k];
            &&& facts.server == server
            &&& facts.name == tool
            &&& facts.risk == declared.risk
            &&& declared.side_effects ==> facts.side_effects
            &&& declared.pii ==> facts.pii
            &&& manifest.classification_mode == ClassificationMode::Manifest ==> facts.side_effects
                == declared.side_effects && facts.pii == declared.pii
            &&& manifest.classification_mode == ClassificationMode::McpAnnotations
                ==> facts.side_effects && facts.pii
            &&& !facts.requires_approval
            &&& facts.requires_approval_known
        }),
{
    a_name_takes_its_first_classification(manifest.tools, tool, k);
}

/// A tool that nothing declares has the mildest facts, on a known upstream and
/// on an unknown one.
pub proof fn undeclared_tools_have_mild_facts(
    manifest: Option<Manifest>,
    server: Seq<char>,
    tool: Seq<char>,
)
    requires
        manifest is Some ==> forall|j: int|
            0 <= j < manifest->0.tools.len() ==> (#[trigger] manifest->0.tools[j]).name != tool,
    ensures
        manifest_facts(manifest, server, tool) == (Facts {
            server,
            name: tool,
            risk: RiskTier::Low,
            side_effects: false,
            pii: false,
            requires_approval: false,
            requires_approval_known: true,
        }),
{
    if manifest is Some {
        let tools = manifest->0.tools;
        a_name_takes_its_first_classification(tools, tool, tools.len() as int);
    }
}

/// Severity is a strict order of the three tiers.
pub proof fn tiers_are_ordered()
    ensures
        RiskTier::Low.rank() < RiskTier::Medium.rank() < RiskTier::High.rank(),
{
}

/// A stored operation that is in no respect more severe than its tool refines it,
/// under its own value and with the tier it is stored with; outside annotation
/// mode with its own flags too.
pub proof fn operations_within_the_tool_refine_it(
    facts: Facts,
    annotation_mode: bool,
    operations: Seq<StoredOperation>,
    i: int,
)
    requires
        0 <= i < operations.len(),
        tier_of(operations[i].risk).rank() <= facts.risk.rank(),
        operations[i].side_effects ==> facts.side_effects,
        operations[i].pii ==> facts.pii,
    ensures
        exists|k: int|
            0 <= k < refinements(facts, annotation_mode, operations).len() && {
                let kept = #[trigger] refinements(facts, annotation_mode, operations)[k];
                &&& kept.value == operations[i].value
                &&& kept.risk == tier_of(operations[i].risk)
                &&& !annotation_mode ==> kept.side_effects == operations[i].side_effects && kept.pii
                    == operations[i].pii
                &&& annotation_mode ==> kept.side_effects == facts.side_effects && kept.pii
                    == facts.pii
            },
{
    let keep = |o: StoredOperation| within_ceiling(facts, o);
    let kept = operations.filter(keep);
    assert(keep(operations[i]));
    operations.lemma_filter_contains(keep, i);
    let k = choose|k: int| 0 <= k < kept.len() && kept[k] == operations[i];
    assert(refinements(facts, annotation_mode, operations)[k] == refined(
        facts,
        annotation_mode,
        operations[i],
    ));
}

/// Every refinement stands for one stored operation that is in no respect more
/// severe than the tool, so a row above the tool refines nothing.
pub proof fn refinements_come_from_rows_within_the_tool(
    facts: Facts,
    annotation_mode: bool,
    operations: Seq<StoredOperation>,
    k: int,
)
    requires
        0 <= k < refinements(facts, annotation_mode, operations).len(),
    ensures
        refinements(facts, annotation_mode, operations).len() <= operations.len(),
        exists|i: int|
            0 <= i < operations.len() && {
                let row = #[trigger] operations[i];
                let kept = refinements(facts, annotation_mode, operations)[k];
                &&& row.value == kept.value
                &&& tier_of(row.risk) == kept.risk
                &&& tier_of(row.risk).rank() <= facts.risk.rank()
                &&& row.side_effects ==> facts.side_effects
                &&& row.pii ==> facts.pii
            },
{
    let keep = |o: StoredOperation| within_ceiling(facts, o);
    let kept = operations.filter(keep);
    operations.lemma_filter_len(keep);
    operations.lemma_filter_pred(keep, k);
    operations.lemma_filter_contains_rev(keep, kept[k]);
    let i = choose|i: int| 0 <= i < operations.len() && operations[i] == kept[k];
    assert(operations[i].value == refinements(facts, annotation_mode, operations)[k].value);
}

/// Each tier has the word that the catalog stores it by.
pub proof fn words_tell_tiers_apart()
    ensures
        RiskTier::Low.spec_as_str() == "low"@,
        RiskTier::Medium.spec_as_str() == "medium"@,
        RiskTier::High.spec_as_str() == "high"@,
        tier_of("low"@) == RiskTier::Low,
        tier_of("medium"@) == RiskTier::Medium,
        tier_of("high"@) == RiskTier::High,
{
    tier_names_are_faithful(RiskTier::Low, Seq::empty());
    tier_names_are_faithful(RiskTier::Medium, Seq::empty());
    tier_names_are_faithful(RiskTier::High, Seq::empty());
}

/// The view of the facts of a tool says every field of it as it is.
pub proof fn tool_facts_is_said_whole(value: ToolFacts)
    ensures
        value.deep_view().server == value.server.deep_view(),
        value.deep_view().name == value.name.deep_view(),
        value.deep_view().risk == value.risk.deep_view(),
        value.deep_view().side_effects == value.side_effects.deep_view(),
        value.deep_view().pii == value.pii.deep_view(),
        value.deep_view().requires_approval == value.requires_approval.deep_view(),
        value.deep_view().requires_approval_known == value.requires_approval_known.deep_view(),
{
}

/// The view of a stored operation says every field of it as it is.
pub proof fn catalog_operation_is_said_whole(value: CatalogOperation)
    ensures
        value.deep_view().value == value.value.deep_view(),
        value.deep_view().risk == value.risk.deep_view(),
        value.deep_view().side_effects == value.side_effects.deep_view(),
        value.deep_view().pii == value.pii.deep_view(),
{
}

/// Where no stored operation is in any respect more severe than the tool, each
/// refines it, in the stored order.
pub proof fn operations_refine_in_their_order(
    facts: Facts,
    annotation_mode: bool,
    operations: Seq<StoredOperation>,
)
    requires
        forall|i: int|
            0 <= i < operations.len() ==> tier_of((#[trigger] operations[i]).risk).rank()
                <= facts.risk.rank() && (operations[i].side_effects ==> facts.side_effects) && (
            operations[i].pii ==> facts.pii),
    ensures
        refinements(facts, annotation_mode, operations).len() == operations.len(),
        forall|i: int|
            0 <= i < operations.len() ==> (#[trigger] refinements(
                facts,
                annotation_mode,
                operations,
            )[i]).value == operations[i].value,
{
    let keep = |o: StoredOperation| within_ceiling(facts, o);
    assert forall|i: int| 0 <= i < operations.len() implies keep(#[trigger] operations[i]) by {}
    crate::names::lemma_filter_of_all(operations, keep);
}

} // verus!
