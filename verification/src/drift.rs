//! Detecting that a tool is no longer what it was when last observed.

use vstd::prelude::*;

use crate::admission::{
    a_name_takes_its_first_classification, classification_of, find_classification,
};
use crate::assoc::Assoc;
use crate::manifest::{Classification, ClassificationMode, RiskTier, ToolClassification};
use crate::names::{insert_unique, strictly_sorted};
use crate::tools::{Descriptor, Tool};

verus! {

/// Risk threshold at which observed drift quarantines a tool by itself.
#[derive(Clone, Copy, Debug, PartialEq, Eq, Structural)]
pub enum QuarantineThreshold {
    /// Never. Drift is observed only.
    Off,
    /// When the tool is high-risk or has side effects.
    High,
    /// When the tool is medium- or high-risk or has side effects.
    Medium,
    /// On every observed drift.
    All,
}

impl QuarantineThreshold {
    pub open spec fn spec_covers(self, risk: RiskTier, side_effects: bool) -> bool {
        match self {
            QuarantineThreshold::Off => false,
            QuarantineThreshold::High => risk == RiskTier::High || side_effects,
            QuarantineThreshold::Medium => risk != RiskTier::Low || side_effects,
            QuarantineThreshold::All => true,
        }
    }

    /// Should a tool be quarantined on drift? Side effects count as much as the
    /// tier, so a destructive tool classified low stays covered.
    pub fn covers(self, risk: RiskTier, side_effects: bool) -> (b: bool)
        ensures
            b == self.spec_covers(risk, side_effects),
    {
        match self {
            QuarantineThreshold::Off => false,
            QuarantineThreshold::High => risk == RiskTier::High || side_effects,
            QuarantineThreshold::Medium => risk == RiskTier::Medium || risk == RiskTier::High
                || side_effects,
            QuarantineThreshold::All => true,
        }
    }
}

/// One detected change of a tool's behavior contract.
#[derive(Debug, PartialEq, Eq)]
pub struct DriftReport {
    pub tool: String,
    /// Risk tier of the tool, if it is classified.
    pub risk: Option<RiskTier>,
    pub side_effects: bool,
    /// Whether the change quarantined the tool.
    pub quarantined: bool,
}

/// What a [`DriftReport`] says.
#[verifier::ext_equal]
pub struct Drift {
    pub tool: Seq<char>,
    pub risk: Option<RiskTier>,
    pub side_effects: bool,
    pub quarantined: bool,
}

impl DeepView for DriftReport {
    type V = Drift;

    open spec fn deep_view(&self) -> Drift {
        Drift {
            tool: self.tool@,
            risk: self.risk,
            side_effects: self.side_effects,
            quarantined: self.quarantined,
        }
    }
}

/// The hash last observed of every tool.
pub open spec fn baseline_of(observed: Map<Seq<char>, String>) -> Map<Seq<char>, Seq<char>> {
    observed.map_values(|hash: String| hash@)
}

/// The baseline once a listing has been observed.
pub open spec fn baseline_after(
    baseline: Map<Seq<char>, Seq<char>>,
    tools: Seq<Descriptor>,
    mode: ClassificationMode,
) -> Map<Seq<char>, Seq<char>>
    decreases tools.len(),
{
    if tools.len() == 0 {
        baseline
    } else {
        baseline_after(baseline, tools.drop_last(), mode).insert(
            tools.last().name,
            tools.last().drift_hash(mode),
        )
    }
}

/// What is reported of a tool that drifted. An annotation-governed tool counts
/// as side-effecting, and an unclassified one is quarantined only where every
/// drift is.
pub open spec fn drift_report(
    classification: Option<Classification>,
    mode: ClassificationMode,
    threshold: QuarantineThreshold,
    tool: Seq<char>,
) -> Drift {
    match classification {
        Some(c) => {
            let side_effects = c.side_effects || mode == ClassificationMode::McpAnnotations;
            Drift {
                tool,
                risk: Some(c.risk),
                side_effects,
                quarantined: threshold.spec_covers(c.risk, side_effects),
            }
        },
        None => Drift {
            tool,
            risk: None,
            side_effects: false,
            quarantined: threshold == QuarantineThreshold::All,
        },
    }
}

/// The drift a listing shows against a baseline: one report for every tool that
/// was known with another hash. A first observation is silent.
pub open spec fn drift_in(
    baseline: Map<Seq<char>, Seq<char>>,
    tools: Seq<Descriptor>,
    classifications: Seq<Classification>,
    mode: ClassificationMode,
    threshold: QuarantineThreshold,
) -> Seq<Drift>
    decreases tools.len(),
{
    if tools.len() == 0 {
        Seq::empty()
    } else {
        let earlier = drift_in(baseline, tools.drop_last(), classifications, mode, threshold);
        let known = baseline_after(baseline, tools.drop_last(), mode);
        let tool = tools.last();
        if known.contains_key(tool.name) && known[tool.name] != tool.drift_hash(mode) {
            earlier.push(
                drift_report(
                    classification_of(classifications, tool.name),
                    mode,
                    threshold,
                    tool.name,
                ),
            )
        } else {
            earlier
        }
    }
}

/// Some report says that the tool was quarantined.
pub open spec fn quarantines(reports: Seq<Drift>, tool: Seq<char>) -> bool {
    exists|i: int| 0 <= i < reports.len() && (#[trigger] reports[i]).quarantined && reports[i].tool == tool
}

/// Record one observation of a live listing: report what drifted against the
/// baseline, quarantine what the threshold covers, and move the baseline on.
pub fn record_observed_schemas_against(
    observed: &mut Assoc<String>,
    quarantined: &mut Vec<String>,
    tools: &Vec<Tool>,
    threshold: QuarantineThreshold,
    classifications: &Vec<ToolClassification>,
    mode: ClassificationMode,
) -> (reports: Vec<DriftReport>)
    requires
        strictly_sorted(old(quarantined).deep_view()),
    ensures
        reports.deep_view() == drift_in(
            baseline_of(old(observed)@),
            tools.deep_view(),
            classifications.deep_view(),
            mode,
            threshold,
        ),
        baseline_of(final(observed)@) == baseline_after(
            baseline_of(old(observed)@),
            tools.deep_view(),
            mode,
        ),
        strictly_sorted(final(quarantined).deep_view()),
        forall|tool: Seq<char>| #[trigger]
            final(quarantined).deep_view().contains(tool) <==> old(
                quarantined,
            ).deep_view().contains(tool) || quarantines(reports.deep_view(), tool),
{
    let ghost start = baseline_of(observed@);
    let ghost rules = classifications.deep_view();
    let ghost all = tools.deep_view();
    let ghost barred = quarantined.deep_view();
    let mut reports: Vec<DriftReport> = Vec::new();
    let mut i: usize = 0;
    proof {
        assert(all.take(0) =~= Seq::empty());
        assert(reports.deep_view() =~= Seq::<Drift>::empty());
    }
    while i < tools.len()
        invariant
            i <= tools.len(),
            all == tools.deep_view(),
            rules == classifications.deep_view(),
            baseline_of(observed@) == baseline_after(start, all.take(i as int), mode),
            reports.deep_view() == drift_in(start, all.take(i as int), rules, mode, threshold),
            strictly_sorted(quarantined.deep_view()),
            forall|tool: Seq<char>| #[trigger]
                quarantined.deep_view().contains(tool) <==> barred.contains(tool) || quarantines(
                    reports.deep_view(),
                    tool,
                ),
        decreases tools.len() - i,
    {
        let tool = &tools[i];
        let hash = tool.drift_hash(mode);
        proof {
            let next = all.take(i + 1);
            assert(next.drop_last() =~= all.take(i as int));
            assert(next.last() == all[i as int]);
        }
        let ghost known = observed@;
        let drifted = match observed.get(tool.name.as_str()) {
            Some(previous) => *previous != *hash,
            None => false,
        };
        if drifted {
            let report = match find_classification(classifications, tool.name.as_str()) {
                Some(k) => {
                    let classification = &classifications[k];
                    let side_effects = classification.side_effects || mode
                        == ClassificationMode::McpAnnotations;
                    DriftReport {
                        tool: tool.name.clone(),
                        risk: Some(classification.risk),
                        side_effects,
                        quarantined: threshold.covers(classification.risk, side_effects),
                    }
                },
                None => DriftReport {
                    tool: tool.name.clone(),
                    risk: None,
                    side_effects: false,
                    quarantined: threshold == QuarantineThreshold::All,
                },
            };
            if report.quarantined {
                insert_unique(quarantined, &tool.name);
            }
            let ghost meaning = report.deep_view();
            let ghost before = reports.deep_view();
            reports.push(report);
            proof {
                let after = reports.deep_view();
                assert(after =~= before.push(meaning));
                assert forall|name: Seq<char>| #[trigger]
                    quarantines(after, name) <==> quarantines(before, name) || (
                meaning.quarantined && name == meaning.tool) by {
                    if quarantines(before, name) {
                        let k = choose|k: int|
                            0 <= k < before.len() && (#[trigger] before[k]).quarantined
                                && before[k].tool == name;
                        assert(after[k] == before[k]);
                    }
                    assert(after[before.len() as int] == meaning);
                    if quarantines(after, name) {
                        let k = choose|k: int|
                            0 <= k < after.len() && (#[trigger] after[k]).quarantined
                                && after[k].tool == name;
                        if k < before.len() {
                            assert(after[k] == before[k]);
                        }
                    }
                }
            }
        }
        observed.insert(tool.name.clone(), hash.clone());
        proof {
            assert(baseline_of(observed@) =~= baseline_of(known).insert(tool.name@, hash@));
        }
        i = i + 1;
    }
    proof {
        assert(all.take(all.len() as int) =~= all);
    }
    reports
}

/// A listing observed for the first time shows no drift.
pub proof fn first_observation_is_silent(
    tools: Seq<Descriptor>,
    classifications: Seq<Classification>,
    mode: ClassificationMode,
    threshold: QuarantineThreshold,
)
    requires
        crate::tools::names_distinct(tools),
    ensures
        drift_in(Map::empty(), tools, classifications, mode, threshold).len() == 0,
    decreases tools.len(),
{
    if tools.len() > 0 {
        let front = tools.drop_last();
        assert forall|i: int, j: int| 0 <= i < j < front.len() implies #[trigger] front[i].name
            != #[trigger] front[j].name by {
            assert(tools[i].name != tools[j].name);
        }
        first_observation_is_silent(front, classifications, mode, threshold);
        lemma_baseline_keys(Map::empty(), front, mode, tools.last().name);
        if baseline_after(Map::empty(), front, mode).contains_key(tools.last().name) {
            let i = choose|i: int|
                0 <= i < front.len() && (#[trigger] front[i]).name == tools.last().name;
            assert(tools[i].name != tools[tools.len() - 1].name);
        }
    }
}

proof fn lemma_baseline_keys(
    baseline: Map<Seq<char>, Seq<char>>,
    tools: Seq<Descriptor>,
    mode: ClassificationMode,
    name: Seq<char>,
)
    ensures
        baseline_after(baseline, tools, mode).contains_key(name) <==> baseline.contains_key(name)
            || crate::tools::carries(tools, name),
    decreases tools.len(),
{
    if tools.len() > 0 {
        let front = tools.drop_last();
        lemma_baseline_keys(baseline, front, mode, name);
        if crate::tools::carries(front, name) {
            let i = choose|i: int| 0 <= i < front.len() && (#[trigger] front[i]).name == name;
            assert(tools[i].name == name);
        }
        assert(tools[tools.len() - 1] == tools.last());
        if crate::tools::carries(tools, name) {
            let i = choose|i: int| 0 <= i < tools.len() && (#[trigger] tools[i]).name == name;
            if i < front.len() {
                assert(front[i].name == name);
            }
        }
    }
}

/// With the threshold off nothing is quarantined, each stricter threshold covers
/// whatever a laxer one does, and the strictest covers everything.
pub proof fn thresholds_are_ordered(risk: RiskTier, side_effects: bool)
    ensures
        !QuarantineThreshold::Off.spec_covers(risk, side_effects),
        QuarantineThreshold::High.spec_covers(risk, side_effects)
            ==> QuarantineThreshold::Medium.spec_covers(risk, side_effects),
        QuarantineThreshold::Medium.spec_covers(risk, side_effects)
            ==> QuarantineThreshold::All.spec_covers(risk, side_effects),
        QuarantineThreshold::All.spec_covers(risk, side_effects),
{
}

proof fn lemma_baseline_value(
    baseline: Map<Seq<char>, Seq<char>>,
    tools: Seq<Descriptor>,
    mode: ClassificationMode,
    name: Seq<char>,
)
    requires
        forall|j: int| 0 <= j < tools.len() ==> (#[trigger] tools[j]).name != name,
    ensures
        baseline_after(baseline, tools, mode).contains_key(name) <==> baseline.contains_key(name),
        baseline.contains_key(name) ==> baseline_after(baseline, tools, mode)[name]
            == baseline[name],
    decreases tools.len(),
{
    if tools.len() > 0 {
        let front = tools.drop_last();
        assert forall|j: int| 0 <= j < front.len() implies (#[trigger] front[j]).name != name by {
            assert(tools[j].name != name);
        }
        lemma_baseline_value(baseline, front, mode, name);
        assert(tools[tools.len() - 1].name != name);
    }
}

/// The baseline holds of every listed tool what it was last listed with, the
/// schema hash under the manifest authority and the behavior hash under the
/// annotation authority; what is not listed it keeps.
pub proof fn baseline_holds_the_last_listing(
    baseline: Map<Seq<char>, Seq<char>>,
    tools: Seq<Descriptor>,
    mode: ClassificationMode,
    name: Seq<char>,
    i: int,
)
    requires
        -1 <= i < tools.len(),
        0 <= i ==> tools[i].name == name,
        forall|j: int| i < j < tools.len() ==> (#[trigger] tools[j]).name != name,
    ensures
        0 <= i ==> baseline_after(baseline, tools, mode).contains_key(name),
        0 <= i && mode == ClassificationMode::Manifest ==> baseline_after(
            baseline,
            tools,
            mode,
        )[name] == tools[i].schema_hash,
        0 <= i && mode == ClassificationMode::McpAnnotations ==> baseline_after(
            baseline,
            tools,
            mode,
        )[name] == tools[i].behavior_hash,
        i < 0 ==> (baseline_after(baseline, tools, mode).contains_key(name)
            <==> baseline.contains_key(name)),
        i < 0 && baseline.contains_key(name) ==> baseline_after(baseline, tools, mode)[name]
            == baseline[name],
    decreases tools.len(),
{
    if tools.len() > 0 && i < tools.len() - 1 {
        let front = tools.drop_last();
        assert(tools[tools.len() - 1].name != name);
        assert forall|j: int| i < j < front.len() implies (#[trigger] front[j]).name != name by {
            assert(tools[j].name != name);
        }
        baseline_holds_the_last_listing(baseline, front, mode, name, i);
    }
}

/// Every report of a classified tool gives the risk its first classification
/// declares and the side effects it declares, which count as present under the
/// annotation authority; and it says that the tool was quarantined exactly where
/// the threshold asks for that risk or for side effects. A tool without a
/// classification is quarantined where every drift is.
pub proof fn reports_follow_the_classification(
    baseline: Map<Seq<char>, Seq<char>>,
    tools: Seq<Descriptor>,
    classifications: Seq<Classification>,
    mode: ClassificationMode,
    threshold: QuarantineThreshold,
    r: int,
    k: int,
)
    requires
        0 <= r < drift_in(baseline, tools, classifications, mode, threshold).len(),
        0 <= k <= classifications.len(),
        forall|j: int|
            0 <= j < k ==> (#[trigger] classifications[j]).name != drift_in(
                baseline,
                tools,
                classifications,
                mode,
                threshold,
            )[r].tool,
        k < classifications.len() ==> classifications[k].name == drift_in(
            baseline,
            tools,
            classifications,
            mode,
            threshold,
        )[r].tool,
    ensures
        ({
            let report = drift_in(baseline, tools, classifications, mode, threshold)[r];
            &&& k < classifications.len() ==> {
                &&& report.risk == Some(classifications[k].risk)
                &&& report.side_effects <==> classifications[k].side_effects || mode
                    == ClassificationMode::McpAnnotations
                &&& threshold == QuarantineThreshold::High || threshold
                    == QuarantineThreshold::Medium ==> (classifications[k].side_effects
                    ==> report.quarantined) && (mode == ClassificationMode::McpAnnotations
                    ==> report.quarantined) && (classifications[k].risk == RiskTier::High
                    ==> report.quarantined)
                &&& threshold == QuarantineThreshold::Medium && classifications[k].risk
                    == RiskTier::Medium ==> report.quarantined
                &&& report.quarantined && threshold != QuarantineThreshold::All
                    ==> report.side_effects || classifications[k].risk == RiskTier::High || (
                threshold == QuarantineThreshold::Medium && classifications[k].risk
                    == RiskTier::Medium)
            }
            &&& k == classifications.len() ==> {
                &&& report.risk is None
                &&& !report.side_effects
                &&& report.quarantined ==> threshold == QuarantineThreshold::All
            }
            &&& threshold == QuarantineThreshold::All ==> report.quarantined
            &&& threshold == QuarantineThreshold::Off ==> !report.quarantined
        }),
    decreases tools.len(),
{
    if tools.len() > 0 {
        let front = tools.drop_last();
        let earlier = drift_in(baseline, front, classifications, mode, threshold);
        let tool = tools.last();
        let report = drift_in(baseline, tools, classifications, mode, threshold)[r];
        if r < earlier.len() {
            assert(report == earlier[r]);
            reports_follow_the_classification(
                baseline,
                front,
                classifications,
                mode,
                threshold,
                r,
                k,
            );
        } else {
            a_name_takes_its_first_classification(classifications, report.tool, k);
        }
    }
}

/// A tool known with another hash, of its schemas under the manifest authority
/// and of its behavior under the annotation authority, is reported; one that is
/// new, or still has the hash it was known with, is not. Every report is about a
/// listed tool, and none is repeated.
pub proof fn drifted_tools_are_reported(
    baseline: Map<Seq<char>, Seq<char>>,
    tools: Seq<Descriptor>,
    classifications: Seq<Classification>,
    mode: ClassificationMode,
    threshold: QuarantineThreshold,
    name: Seq<char>,
)
    requires
        crate::tools::names_distinct(tools),
    ensures
        (exists|r: int|
            0 <= r < drift_in(baseline, tools, classifications, mode, threshold).len() && (
            #[trigger] drift_in(baseline, tools, classifications, mode, threshold)[r]).tool == name)
            <==> exists|i: int|
            0 <= i < tools.len() && (#[trigger] tools[i]).name == name && baseline.contains_key(
                name,
            ) && baseline[name] != (if mode == ClassificationMode::Manifest {
                tools[i].schema_hash
            } else {
                tools[i].behavior_hash
            }),
        forall|r: int, s: int|
            0 <= r < s < drift_in(baseline, tools, classifications, mode, threshold).len()
                ==> #[trigger] drift_in(baseline, tools, classifications, mode, threshold)[r].tool
                != #[trigger] drift_in(baseline, tools, classifications, mode, threshold)[s].tool,
    decreases tools.len(),
{
    let reports = drift_in(baseline, tools, classifications, mode, threshold);
    if tools.len() > 0 {
        let front = tools.drop_last();
        let tool = tools.last();
        assert forall|i: int, j: int| 0 <= i < j < front.len() implies #[trigger] front[i].name
            != #[trigger] front[j].name by {
            assert(tools[i].name != tools[j].name);
        }
        assert forall|j: int| 0 <= j < front.len() implies (#[trigger] front[j]).name
            != tool.name by {
            assert(tools[j].name != tools[tools.len() - 1].name);
        }
        drifted_tools_are_reported(baseline, front, classifications, mode, threshold, name);
        drifted_tools_are_reported(baseline, front, classifications, mode, threshold, tool.name);
        lemma_baseline_value(baseline, front, mode, tool.name);
        let earlier = drift_in(baseline, front, classifications, mode, threshold);
        assert(forall|r: int| 0 <= r < earlier.len() ==> #[trigger] reports[r] == earlier[r]);
        assert(forall|r: int| 0 <= r < earlier.len() ==> (#[trigger] earlier[r]).tool != tool.name);
        let hash = if mode == ClassificationMode::Manifest {
            tool.schema_hash
        } else {
            tool.behavior_hash
        };
        if name == tool.name {
            assert(tools[tools.len() - 1].name == name);
            if baseline.contains_key(name) && baseline[name] != hash {
                assert(reports[earlier.len() as int].tool == name);
            }
            assert(forall|i: int|
                0 <= i < tools.len() && (#[trigger] tools[i]).name == name ==> tools[i] == tool) by {
                assert forall|i: int| 0 <= i < tools.len() && (#[trigger] tools[i]).name
                    == name implies tools[i] == tool by {
                    if i < tools.len() - 1 {
                        assert(front[i].name != tool.name);
                    }
                }
            }
        } else {
            assert forall|i: int| 0 <= i < front.len() implies #[trigger] tools[i] == front[i] by {}
            if exists|r: int| 0 <= r < reports.len() && (#[trigger] reports[r]).tool == name {
                let r = choose|r: int| 0 <= r < reports.len() && (#[trigger] reports[r]).tool == name;
                assert(r < earlier.len());
                assert(earlier[r].tool == name);
            }
            if exists|r: int| 0 <= r < earlier.len() && (#[trigger] earlier[r]).tool == name {
                let r = choose|r: int| 0 <= r < earlier.len() && (#[trigger] earlier[r]).tool == name;
                assert(reports[r].tool == name);
            }
            if exists|i: int|
                0 <= i < tools.len() && (#[trigger] tools[i]).name == name && baseline.contains_key(
                    name,
                ) && baseline[name] != (if mode == ClassificationMode::Manifest {
                    tools[i].schema_hash
                } else {
                    tools[i].behavior_hash
                }) {
                let i = choose|i: int|
                    0 <= i < tools.len() && (#[trigger] tools[i]).name == name
                        && baseline.contains_key(name) && baseline[name] != (if mode
                        == ClassificationMode::Manifest {
                        tools[i].schema_hash
                    } else {
                        tools[i].behavior_hash
                    });
                assert(front[i].name == name);
            }
            if exists|i: int|
                0 <= i < front.len() && (#[trigger] front[i]).name == name && baseline.contains_key(
                    name,
                ) && baseline[name] != (if mode == ClassificationMode::Manifest {
                    front[i].schema_hash
                } else {
                    front[i].behavior_hash
                }) {
                let i = choose|i: int|
                    0 <= i < front.len() && (#[trigger] front[i]).name == name
                        && baseline.contains_key(name) && baseline[name] != (if mode
                        == ClassificationMode::Manifest {
                        front[i].schema_hash
                    } else {
                        front[i].behavior_hash
                    });
                assert(tools[i].name == name);
            }
        }
    }
}

/// A tool known with another hash is quarantined where the threshold covers its
/// declared side effects or its declared risk, and only there.
pub proof fn drift_quarantines_by_risk_or_side_effects(
    baseline: Map<Seq<char>, Seq<char>>,
    tools: Seq<Descriptor>,
    classifications: Seq<Classification>,
    mode: ClassificationMode,
    threshold: QuarantineThreshold,
    i: int,
    k: int,
)
    requires
        crate::tools::names_distinct(tools),
        0 <= i < tools.len(),
        0 <= k < classifications.len(),
        classifications[k].name == tools[i].name,
        forall|j: int| 0 <= j < k ==> (#[trigger] classifications[j]).name != tools[i].name,
        baseline.contains_key(tools[i].name),
        baseline[tools[i].name] != (if mode == ClassificationMode::Manifest {
            tools[i].schema_hash
        } else {
            tools[i].behavior_hash
        }),
    ensures
        quarantines(
            drift_in(baseline, tools, classifications, mode, threshold),
            tools[i].name,
        ) <==> threshold == QuarantineThreshold::All || (threshold != QuarantineThreshold::Off && (
        classifications[k].side_effects || mode == ClassificationMode::McpAnnotations
            || classifications[k].risk == RiskTier::High || (threshold
            == QuarantineThreshold::Medium && classifications[k].risk == RiskTier::Medium))),
{
    let name = tools[i].name;
    let reports = drift_in(baseline, tools, classifications, mode, threshold);
    drifted_tools_are_reported(baseline, tools, classifications, mode, threshold, name);
    let r = choose|r: int| 0 <= r < reports.len() && (#[trigger] reports[r]).tool == name;
    reports_follow_the_classification(
        baseline,
        tools,
        classifications,
        mode,
        threshold,
        r,
        k,
    );
    if quarantines(reports, name) {
        let s = choose|s: int|
            0 <= s < reports.len() && (#[trigger] reports[s]).quarantined && reports[s].tool
                == name;
        if s < r {
            assert(reports[s].tool != reports[r].tool);
        }
        if r < s {
            assert(reports[r].tool != reports[s].tool);
        }
    }
}

/// A tool that did not drift is not quarantined by the observation.
pub proof fn steady_tools_are_not_quarantined(
    baseline: Map<Seq<char>, Seq<char>>,
    tools: Seq<Descriptor>,
    classifications: Seq<Classification>,
    mode: ClassificationMode,
    threshold: QuarantineThreshold,
    name: Seq<char>,
)
    requires
        crate::tools::names_distinct(tools),
        forall|i: int|
            0 <= i < tools.len() && (#[trigger] tools[i]).name == name && baseline.contains_key(name)
                ==> baseline[name] == (if mode == ClassificationMode::Manifest {
                tools[i].schema_hash
            } else {
                tools[i].behavior_hash
            }),
    ensures
        !quarantines(drift_in(baseline, tools, classifications, mode, threshold), name),
{
    drifted_tools_are_reported(baseline, tools, classifications, mode, threshold, name);
}

/// Which drifts a threshold covers, tier by tier.
pub proof fn thresholds_cover_by_tier_or_side_effects(
    threshold: QuarantineThreshold,
    risk: RiskTier,
    side_effects: bool,
)
    ensures
        threshold != QuarantineThreshold::Off && side_effects ==> threshold.spec_covers(
            risk,
            side_effects,
        ),
        threshold != QuarantineThreshold::Off && risk == RiskTier::High ==> threshold.spec_covers(
            risk,
            side_effects,
        ),
        risk == RiskTier::Medium && !side_effects ==> (threshold.spec_covers(risk, side_effects)
            <==> threshold == QuarantineThreshold::Medium || threshold == QuarantineThreshold::All),
        risk == RiskTier::Low && !side_effects ==> (threshold.spec_covers(risk, side_effects)
            <==> threshold == QuarantineThreshold::All),
{
}

/// The view of a drift report says every field of it as it is.
pub proof fn drift_report_is_said_whole(value: DriftReport)
    ensures
        value.deep_view().tool == value.tool.deep_view(),
        value.deep_view().risk == value.risk.deep_view(),
        value.deep_view().side_effects == value.side_effects.deep_view(),
        value.deep_view().quarantined == value.quarantined.deep_view(),
{
}

/// Reports come in the order of the listing: one more tool adds its report behind
/// the others where it was last known with another hash, from the baseline or
/// from earlier in the listing, and changes nothing where it was not.
pub proof fn reports_come_in_listing_order(
    baseline: Map<Seq<char>, Seq<char>>,
    tools: Seq<Descriptor>,
    next: Descriptor,
    classifications: Seq<Classification>,
    mode: ClassificationMode,
    threshold: QuarantineThreshold,
)
    ensures
        drift_in(baseline, Seq::empty(), classifications, mode, threshold).len() == 0,
        ({
            let before = drift_in(baseline, tools, classifications, mode, threshold);
            let after = drift_in(baseline, tools.push(next), classifications, mode, threshold);
            let known = baseline_after(baseline, tools, mode);
            let hash = if mode == ClassificationMode::Manifest {
                next.schema_hash
            } else {
                next.behavior_hash
            };
            &&& !known.contains_key(next.name) || known[next.name] == hash ==> after == before
            &&& known.contains_key(next.name) && known[next.name] != hash ==> after.len()
                == before.len() + 1 && after.drop_last() == before && after.last().tool == next.name
        }),
{
    assert(tools.push(next).drop_last() =~= tools);
    let before = drift_in(baseline, tools, classifications, mode, threshold);
    let after = drift_in(baseline, tools.push(next), classifications, mode, threshold);
    if after.len() > before.len() {
        assert(after.drop_last() =~= before);
    }
}

} // verus!
