//! Which of the tools an upstream advertises may be published and called.

use vstd::prelude::*;

use crate::manifest::{
    Classification, ClassificationMode, Manifest, ToolClassification, UpstreamManifest,
};
use crate::lane::{some_connected, Connection, Lanes};
use crate::names::{
    has_name, insert_sorted, insert_unique, lemma_filter_of_all, lists_exactly, sorted,
    strictly_sorted, text_eq,
};
use crate::shape::redial_committed_fields_eq;
use crate::tools::{carries, catalog_carries, Descriptor, Tool};
use crate::value::Value;

verus! {

/// The first classification of a name.
pub open spec fn classification_of(
    classifications: Seq<Classification>,
    name: Seq<char>,
) -> Option<Classification>
    decreases classifications.len(),
{
    if classifications.len() == 0 {
        None
    } else if classifications[0].name == name {
        Some(classifications[0])
    } else {
        classification_of(classifications.drop_first(), name)
    }
}

pub proof fn lemma_classification_of(classifications: Seq<Classification>, name: Seq<char>)
    ensures
        classification_of(classifications, name) is Some <==> exists|i: int|
            0 <= i < classifications.len() && #[trigger] classifications[i].name == name,
        classification_of(classifications, name) is Some ==> classification_of(
            classifications,
            name,
        )->0.name == name,
    decreases classifications.len(),
{
    if classifications.len() > 0 {
        let rest = classifications.drop_first();
        lemma_classification_of(rest, name);
        if classifications[0].name != name {
            if exists|i: int| 0 <= i < rest.len() && #[trigger] rest[i].name == name {
                let i = choose|i: int| 0 <= i < rest.len() && #[trigger] rest[i].name == name;
                assert(classifications[i + 1].name == name);
            }
            if exists|i: int|
                0 <= i < classifications.len() && #[trigger] classifications[i].name == name {
                let i = choose|i: int|
                    0 <= i < classifications.len() && #[trigger] classifications[i].name == name;
                assert(rest[i - 1].name == name);
            }
        }
    }
}

/// Position of the first classification of a name.
pub fn find_classification(classifications: &Vec<ToolClassification>, name: &str) -> (r: Option<
    usize,
>)
    ensures
        match r {
            Some(i) => i < classifications.len() && classification_of(
                classifications.deep_view(),
                name@,
            ) == Some(classifications.deep_view()[i as int]),
            None => classification_of(classifications.deep_view(), name@) is None,
        },
{
    let mut i: usize = 0;
    proof {
        assert(classifications.deep_view().skip(0) =~= classifications.deep_view());
    }
    while i < classifications.len()
        invariant
            i <= classifications.len(),
            classification_of(classifications.deep_view(), name@) == classification_of(
                classifications.deep_view().skip(i as int),
                name@,
            ),
        decreases classifications.len() - i,
    {
        proof {
            let here = classifications.deep_view().skip(i as int);
            assert(here[0] == classifications.deep_view()[i as int]);
            assert(here.drop_first() =~= classifications.deep_view().skip(i + 1));
        }
        if text_eq(classifications[i].name.as_str(), name) {
            return Some(i);
        }
        i = i + 1;
    }
    None
}

/// Whether one advertised tool is admitted. The manifest authority asks for a
/// classification; the annotation authority asks besides that the security
/// metadata is sound and the behavior is the approved one.
pub open spec fn admitted(
    classification: Option<Classification>,
    mode: ClassificationMode,
    tool: Descriptor,
) -> bool {
    match (classification, mode) {
        (None, _) => false,
        (Some(_), ClassificationMode::Manifest) => true,
        (Some(c), ClassificationMode::McpAnnotations) => tool.metadata_error is None
            && c.approved_behavior_hash == Some(tool.behavior_hash),
    }
}

pub fn tool_is_admitted(
    classification: Option<&ToolClassification>,
    mode: ClassificationMode,
    tool: &Tool,
) -> (b: bool)
    ensures
        b == admitted(classification.deep_view(), mode, tool.deep_view()),
{
    let classification = match classification {
        Some(classification) => classification,
        None => return false,
    };
    match mode {
        ClassificationMode::Manifest => true,
        ClassificationMode::McpAnnotations => tool.metadata_error.is_none() && match &classification.approved_behavior_hash {
            Some(approved) => *approved == tool.behavior_hash,
            None => false,
        },
    }
}

/// Whether every advertised tool of a name is admitted. A call names a tool and
/// nothing else, so one unapproved duplicate makes the name ambiguous.
pub open spec fn name_unambiguous(
    classifications: Seq<Classification>,
    mode: ClassificationMode,
    live: Seq<Descriptor>,
    name: Seq<char>,
) -> bool {
    forall|i: int|
        0 <= i < live.len() && (#[trigger] live[i]).name == name ==> admitted(
            classification_of(classifications, name),
            mode,
            live[i],
        )
}

/// Whether a name is admitted against one manifest generation and one catalog.
pub open spec fn admitted_in_catalog(
    manifest: Manifest,
    live: Seq<Descriptor>,
    name: Seq<char>,
) -> bool {
    match manifest.classification_mode {
        ClassificationMode::Manifest => classification_of(manifest.tools, name) is Some,
        ClassificationMode::McpAnnotations => {
            &&& carries(live, name)
            &&& name_unambiguous(manifest.tools, manifest.classification_mode, live, name)
        },
    }
}

/// Validate one named tool against a manifest generation and a live catalog.
pub fn tool_is_admitted_in_catalog(
    manifest: &UpstreamManifest,
    live_tools: &Vec<Tool>,
    tool_name: &str,
) -> (b: bool)
    ensures
        b == admitted_in_catalog(manifest.deep_view(), live_tools.deep_view(), tool_name@),
{
    let found = find_classification(&manifest.tools, tool_name);
    if manifest.classification_mode == ClassificationMode::Manifest {
        return found.is_some();
    }
    let mode = manifest.classification_mode;
    let ghost live = live_tools.deep_view();
    let mut advertised = false;
    let mut i: usize = 0;
    while i < live_tools.len()
        invariant
            i <= live_tools.len(),
            live == live_tools.deep_view(),
            mode == manifest.classification_mode,
            mode == ClassificationMode::McpAnnotations,
            match found {
                Some(k) => k < manifest.tools.len() && classification_of(
                    manifest.tools.deep_view(),
                    tool_name@,
                ) == Some(manifest.tools.deep_view()[k as int]),
                None => classification_of(manifest.tools.deep_view(), tool_name@) is None,
            },
            advertised <==> exists|j: int|
                0 <= j < i && (#[trigger] live[j]).name == tool_name@,
            forall|j: int|
                0 <= j < i && (#[trigger] live[j]).name == tool_name@ ==> admitted(
                    classification_of(manifest.tools.deep_view(), tool_name@),
                    mode,
                    live[j],
                ),
        decreases live_tools.len() - i,
    {
        if text_eq(live_tools[i].name.as_str(), tool_name) {
            let classification = match found {
                Some(k) => Some(&manifest.tools[k]),
                None => None,
            };
            proof {
                assert(live[i as int].name == tool_name@);
            }
            if !tool_is_admitted(classification, mode, &live_tools[i]) {
                return false;
            }
            advertised = true;
        }
        i = i + 1;
    }
    advertised
}

/// Whether a live tool is published.
pub open spec fn publishes(
    classifications: Seq<Classification>,
    mode: ClassificationMode,
    live: Seq<Descriptor>,
    tool: Descriptor,
) -> bool {
    match mode {
        ClassificationMode::Manifest => classification_of(classifications, tool.name) is Some,
        ClassificationMode::McpAnnotations => name_unambiguous(
            classifications,
            mode,
            live,
            tool.name,
        ),
    }
}

/// The live tools that are published, in the order they are listed.
pub open spec fn published_subset(
    classifications: Seq<Classification>,
    mode: ClassificationMode,
    live: Seq<Descriptor>,
) -> Seq<Descriptor> {
    live.filter(|tool: Descriptor| publishes(classifications, mode, live, tool))
}

/// The names of a list of classifications that no live tool carries.
pub open spec fn ghost_names(
    classifications: Seq<Classification>,
    live: Seq<Descriptor>,
) -> Seq<Seq<char>> {
    classifications.map_values(|c: Classification| c.name).filter(
        |name: Seq<char>| !carries(live, name),
    )
}

fn tool_is_published(
    classifications: &Vec<ToolClassification>,
    mode: ClassificationMode,
    live: &Vec<Tool>,
    tool: &Tool,
) -> (b: bool)
    requires
        live.deep_view().contains(tool.deep_view()),
    ensures
        b == publishes(classifications.deep_view(), mode, live.deep_view(), tool.deep_view()),
{
    let found = find_classification(classifications, tool.name.as_str());
    if mode == ClassificationMode::Manifest {
        return found.is_some();
    }
    let mut i: usize = 0;
    while i < live.len()
        invariant
            i <= live.len(),
            mode == ClassificationMode::McpAnnotations,
            match found {
                Some(k) => k < classifications.len() && classification_of(
                    classifications.deep_view(),
                    tool.name@,
                ) == Some(classifications.deep_view()[k as int]),
                None => classification_of(classifications.deep_view(), tool.name@) is None,
            },
            forall|j: int|
                0 <= j < i && (#[trigger] live.deep_view()[j]).name == tool.name@ ==> admitted(
                    classification_of(classifications.deep_view(), tool.name@),
                    mode,
                    live.deep_view()[j],
                ),
        decreases live.len() - i,
    {
        if live[i].name == tool.name {
            let classification = match found {
                Some(k) => Some(&classifications[k]),
                None => None,
            };
            if !tool_is_admitted(classification, mode, &live[i]) {
                proof {
                    assert(live.deep_view()[i as int].name == tool.name@);
                }
                return false;
            }
        }
        i = i + 1;
    }
    true
}

/// Apply the same admission rules to every publication path: split a catalog
/// into the tools to publish, the names of the tools withheld (in order, each
/// once) and the classified names nobody advertises (in order).
pub fn partition_live_tools(
    classifications: &Vec<ToolClassification>,
    mode: ClassificationMode,
    live: &Vec<Tool>,
) -> (r: (Vec<Tool>, Vec<String>, Vec<String>))
    ensures
        r.0.deep_view() == published_subset(classifications.deep_view(), mode, live.deep_view()),
        lists_exactly(
            r.1.deep_view(),
            Set::new(
                |name: Seq<char>|
                    withheld(classifications.deep_view(), mode, live.deep_view(), name),
            ),
        ),
        sorted(r.2.deep_view()),
        r.2.deep_view().to_multiset() == ghost_names(
            classifications.deep_view(),
            live.deep_view(),
        ).to_multiset(),
{
    let ghost rules = classifications.deep_view();
    let ghost all = live.deep_view();
    let ghost keep = |tool: Descriptor| publishes(rules, mode, all, tool);
    let mut kept: Vec<Tool> = Vec::new();
    let mut unclassified: Vec<String> = Vec::new();
    let mut i: usize = 0;
    proof {
        assert(all.take(0).filter(keep) =~= Seq::<Descriptor>::empty()) by {
            reveal(Seq::filter);
        }
        assert(kept.deep_view() =~= Seq::<Descriptor>::empty());
    }
    while i < live.len()
        invariant
            i <= live.len(),
            rules == classifications.deep_view(),
            all == live.deep_view(),
            keep == (|tool: Descriptor| publishes(rules, mode, all, tool)),
            kept.deep_view() == all.take(i as int).filter(keep),
            strictly_sorted(unclassified.deep_view()),
            forall|name: Seq<char>| #[trigger]
                unclassified.deep_view().contains(name) <==> exists|j: int|
                    0 <= j < i && (#[trigger] all[j]).name == name && !publishes(
                        rules,
                        mode,
                        all,
                        all[j],
                    ),
        decreases live.len() - i,
    {
        proof {
            let next = all.take(i + 1);
            assert(next.drop_last() =~= all.take(i as int));
            assert(next.last() == all[i as int]);
            reveal(Seq::filter);
        }
        if tool_is_published(classifications, mode, live, &live[i]) {
            let ghost before = kept.deep_view();
            kept.push(live[i].dup());
            proof {
                assert(kept.deep_view() =~= before.push(all[i as int]));
            }
        } else {
            insert_unique(&mut unclassified, &live[i].name);
        }
        i = i + 1;
    }
    let mut ghosts: Vec<String> = Vec::new();
    let ghost names = rules.map_values(|c: Classification| c.name);
    let ghost absent = |name: Seq<char>| !carries(all, name);
    let mut k: usize = 0;
    proof {
        assert(all.take(all.len() as int) =~= all);
        assert(names.take(0).filter(absent) =~= Seq::<Seq<char>>::empty()) by {
            reveal(Seq::filter);
        }
        assert(ghosts.deep_view() =~= Seq::<Seq<char>>::empty());
    }
    while k < classifications.len()
        invariant
            k <= classifications.len(),
            rules == classifications.deep_view(),
            all == live.deep_view(),
            names == rules.map_values(|c: Classification| c.name),
            absent == (|name: Seq<char>| !carries(all, name)),
            sorted(ghosts.deep_view()),
            ghosts.deep_view().to_multiset() == names.take(k as int).filter(absent).to_multiset(),
        decreases classifications.len() - k,
    {
        proof {
            let next = names.take(k + 1);
            assert(next.drop_last() =~= names.take(k as int));
            assert(next.last() == classifications.deep_view()[k as int].name);
            reveal(Seq::filter);
            names.take(k as int).filter(absent).to_multiset_ensures();
        }
        if !catalog_carries(live, &classifications[k].name) {
            insert_sorted(&mut ghosts, classifications[k].name.clone());
        }
        k = k + 1;
    }
    proof {
        assert(names.take(names.len() as int) =~= names);
    }
    (kept, unclassified, ghosts)
}

/// A live tool of this name is not published.
pub open spec fn withheld(
    classifications: Seq<Classification>,
    mode: ClassificationMode,
    live: Seq<Descriptor>,
    name: Seq<char>,
) -> bool {
    exists|j: int|
        0 <= j < live.len() && (#[trigger] live[j]).name == name && !publishes(
            classifications,
            mode,
            live,
            live[j],
        )
}

/// Whether an entry admits a name right now. The annotation authority asks every
/// connected lane, on its complete catalog, and at least one has to be there: a
/// lane that lacks the name, or lists it in an unapproved form too, disagrees
/// with the contract that is published.
pub open spec fn entry_admits(lanes: Lanes, manifest: Manifest, name: Seq<char>) -> bool {
    match manifest.classification_mode {
        ClassificationMode::Manifest => classification_of(manifest.tools, name) is Some,
        ClassificationMode::McpAnnotations => {
            &&& some_connected(lanes)
            &&& forall|k: int|
                0 <= k < lanes.len() && (#[trigger] lanes[k]) is Some ==> admitted_in_catalog(
                    manifest,
                    lanes[k]->0.live_tools,
                    name,
                )
        },
    }
}

/// Re-check admission on the way to a dispatch, independently of publication.
pub fn entry_tool_is_admitted(
    lanes: &Vec<Option<Connection>>,
    manifest: &UpstreamManifest,
    tool_name: &str,
) -> (b: bool)
    ensures
        b == entry_admits(lanes.deep_view(), manifest.deep_view(), tool_name@),
{
    if manifest.classification_mode == ClassificationMode::Manifest {
        return find_classification(&manifest.tools, tool_name).is_some();
    }
    let ghost all = lanes.deep_view();
    let mut found = false;
    let mut k: usize = 0;
    while k < lanes.len()
        invariant
            k <= lanes.len(),
            all == lanes.deep_view(),
            manifest.classification_mode == ClassificationMode::McpAnnotations,
            found <==> exists|j: int| 0 <= j < k && (#[trigger] all[j]) is Some,
            forall|j: int|
                0 <= j < k && (#[trigger] all[j]) is Some ==> admitted_in_catalog(
                    manifest.deep_view(),
                    all[j]->0.live_tools,
                    tool_name@,
                ),
        decreases lanes.len() - k,
    {
        if let Some(conn) = &lanes[k] {
            proof {
                assert(all[k as int] == Some(conn.deep_view()));
            }
            if !tool_is_admitted_in_catalog(manifest, &conn.live_tools, tool_name) {
                return false;
            }
            found = true;
        }
        k = k + 1;
    }
    found
}

/// The contract under which a call was set up is still in force on the lane that
/// would run it.
pub open spec fn contract_current(
    initial: Manifest,
    current: Manifest,
    quarantined: Seq<Seq<char>>,
    live: Seq<Descriptor>,
    name: Seq<char>,
    local_quarantine_authoritative: bool,
) -> bool {
    &&& initial.committed() == current.committed()
    &&& local_quarantine_authoritative ==> !quarantined.contains(name)
    &&& admitted_in_catalog(current, live, name)
}

pub fn dispatch_contract_is_current(
    initial: &UpstreamManifest,
    current: &UpstreamManifest,
    quarantined: &Vec<String>,
    live_tools: &Vec<Tool>,
    tool_name: &str,
    local_quarantine_authoritative: bool,
) -> (b: bool)
    ensures
        b == contract_current(
            initial.deep_view(),
            current.deep_view(),
            quarantined.deep_view(),
            live_tools.deep_view(),
            tool_name@,
            local_quarantine_authoritative,
        ),
{
    redial_committed_fields_eq(initial, current) && (!local_quarantine_authoritative || !has_name(
        quarantined,
        tool_name,
    )) && tool_is_admitted_in_catalog(current, live_tools, tool_name)
}

/// Publish the admitted part of a catalog. The inventory is handed back only
/// when the publication succeeded, so nothing is served that the search index
/// refused.
pub fn publish_classified_tools<E, F: FnOnce(&Vec<Tool>) -> Result<(), E>>(
    classifications: &Vec<ToolClassification>,
    mode: ClassificationMode,
    live: &Vec<Tool>,
    publish: F,
) -> (r: Result<Vec<Tool>, E>)
    requires
        forall|tools: &Vec<Tool>|
            tools.deep_view() == published_subset(
                classifications.deep_view(),
                mode,
                live.deep_view(),
            ) ==> #[trigger] publish.requires((tools,)),
    ensures
        r is Ok ==> r->Ok_0.deep_view() == published_subset(
            classifications.deep_view(),
            mode,
            live.deep_view(),
        ),
        exists|tools: &Vec<Tool>, done: Result<(), E>|
            #![trigger publish.ensures((tools,), done)]
            {
                &&& publish.ensures((tools,), done)
                &&& tools.deep_view() == published_subset(
                    classifications.deep_view(),
                    mode,
                    live.deep_view(),
                )
                &&& r is Ok <==> done is Ok
                &&& r is Err ==> r->Err_0 == done->Err_0
            },
{
    let (kept, _, _) = partition_live_tools(classifications, mode, live);
    let ghost handed = &kept;
    let done = publish(&kept);
    proof {
        assert(publish.ensures((handed,), done));
    }
    match done {
        Ok(_) => Ok(kept),
        Err(error) => Err(error),
    }
}

/// In annotation mode a published tool is approved in every form in which the
/// catalog lists its name; in either mode nothing unclassified is published.
pub proof fn published_names_are_unambiguous(
    classifications: Seq<Classification>,
    mode: ClassificationMode,
    live: Seq<Descriptor>,
    tool: Descriptor,
    i: int,
)
    requires
        published_subset(classifications, mode, live).contains(tool),
        0 <= i < live.len(),
        live[i].name == tool.name,
    ensures
        admitted(classification_of(classifications, tool.name), mode, live[i]),
        classification_of(classifications, tool.name) is Some,
{
    let keep = |t: Descriptor| publishes(classifications, mode, live, t);
    let kept = live.filter(keep);
    let at = choose|at: int| 0 <= at < kept.len() && kept[at] == tool;
    live.lemma_filter_pred(keep, at);
    assert(publishes(classifications, mode, live, tool));
}

/// Every live tool is either published or named among the withheld ones, and
/// never both.
pub proof fn partition_is_complete(
    classifications: Seq<Classification>,
    mode: ClassificationMode,
    live: Seq<Descriptor>,
    i: int,
)
    requires
        0 <= i < live.len(),
    ensures
        published_subset(classifications, mode, live).contains(live[i]) || withheld(
            classifications,
            mode,
            live,
            live[i].name,
        ),
        publishes(classifications, mode, live, live[i]) ==> !withheld(
            classifications,
            mode,
            live,
            live[i].name,
        ),
{
    let keep = |t: Descriptor| publishes(classifications, mode, live, t);
    if publishes(classifications, mode, live, live[i]) {
        live.lemma_filter_contains(keep, i);
    } else {
        assert(live[i].name == live[i].name && !publishes(classifications, mode, live, live[i]));
    }
}

/// A name is classified by the first declaration that carries it, and by none
/// where no declaration does.
pub proof fn a_name_takes_its_first_classification(
    classifications: Seq<Classification>,
    name: Seq<char>,
    k: int,
)
    requires
        0 <= k <= classifications.len(),
        forall|j: int| 0 <= j < k ==> (#[trigger] classifications[j]).name != name,
        k < classifications.len() ==> classifications[k].name == name,
    ensures
        k < classifications.len() ==> classification_of(classifications, name) == Some(
            classifications[k],
        ),
        k == classifications.len() ==> classification_of(classifications, name) is None,
    decreases classifications.len(),
{
    if classifications.len() > 0 && k > 0 {
        let rest = classifications.drop_first();
        assert(classifications[0].name != name);
        assert forall|j: int| 0 <= j < k - 1 implies (#[trigger] rest[j]).name != name by {
            assert(classifications[j + 1].name != name);
        }
        a_name_takes_its_first_classification(rest, name, k - 1);
    }
}

/// A live tool is published, and its name is not withheld, where its name is
/// classified and, under the annotation authority, every live tool of its name
/// has sound metadata and the behavior that the classification approves.
pub proof fn approved_tools_are_published(
    classifications: Seq<Classification>,
    mode: ClassificationMode,
    live: Seq<Descriptor>,
    i: int,
    k: int,
)
    requires
        0 <= i < live.len(),
        0 <= k < classifications.len(),
        classifications[k].name == live[i].name,
        forall|j: int| 0 <= j < k ==> (#[trigger] classifications[j]).name != live[i].name,
        mode == ClassificationMode::McpAnnotations ==> forall|j: int|
            0 <= j < live.len() && (#[trigger] live[j]).name == live[i].name
                ==> live[j].metadata_error is None && classifications[k].approved_behavior_hash
                == Some(live[j].behavior_hash),
    ensures
        published_subset(classifications, mode, live).contains(live[i]),
        !withheld(classifications, mode, live, live[i].name),
{
    a_name_takes_its_first_classification(classifications, live[i].name, k);
    let keep = |t: Descriptor| publishes(classifications, mode, live, t);
    assert(publishes(classifications, mode, live, live[i]));
    live.lemma_filter_contains(keep, i);
    partition_is_complete(classifications, mode, live, i);
}

/// A live tool is withheld, and nothing of its name is published, where its name
/// has no classification or, under the annotation authority, some live tool of
/// its name has unsound metadata or another behavior than the approved one.
pub proof fn unapproved_tools_are_withheld(
    classifications: Seq<Classification>,
    mode: ClassificationMode,
    live: Seq<Descriptor>,
    i: int,
    k: int,
)
    requires
        0 <= i < live.len(),
        0 <= k <= classifications.len(),
        forall|j: int| 0 <= j < k ==> (#[trigger] classifications[j]).name != live[i].name,
        k < classifications.len() ==> classifications[k].name == live[i].name && mode
            == ClassificationMode::McpAnnotations && (live[i].metadata_error is Some
            || classifications[k].approved_behavior_hash != Some(live[i].behavior_hash)),
    ensures
        withheld(classifications, mode, live, live[i].name),
        forall|tool: Descriptor| #[trigger]
            published_subset(classifications, mode, live).contains(tool) ==> tool.name
                != live[i].name,
{
    a_name_takes_its_first_classification(classifications, live[i].name, k);
    assert(!admitted(classification_of(classifications, live[i].name), mode, live[i]));
    assert(!publishes(classifications, mode, live, live[i]));
    assert forall|tool: Descriptor| #[trigger]
        published_subset(classifications, mode, live).contains(tool) implies tool.name
        != live[i].name by {
        if tool.name == live[i].name {
            published_names_are_unambiguous(classifications, mode, live, tool, i);
        }
    }
}

/// Only live tools are published, and a catalog of which nothing is withheld is
/// published whole, in its own order.
pub proof fn publication_keeps_the_catalog(
    classifications: Seq<Classification>,
    mode: ClassificationMode,
    live: Seq<Descriptor>,
)
    ensures
        forall|tool: Descriptor| #[trigger]
            published_subset(classifications, mode, live).contains(tool) ==> live.contains(tool),
        (forall|i: int|
            0 <= i < live.len() ==> !withheld(
                classifications,
                mode,
                live,
                (#[trigger] live[i]).name,
            )) ==> published_subset(classifications, mode, live) == live,
{
    let keep = |t: Descriptor| publishes(classifications, mode, live, t);
    assert forall|tool: Descriptor| #[trigger]
        published_subset(classifications, mode, live).contains(tool) implies live.contains(
        tool,
    ) by {
        let kept = live.filter(keep);
        let at = choose|at: int| 0 <= at < kept.len() && kept[at] == tool;
        live.lemma_filter_contains_rev(keep, kept[at]);
    }
    if forall|i: int|
        0 <= i < live.len() ==> !withheld(classifications, mode, live, (#[trigger] live[i]).name) {
        assert forall|i: int| 0 <= i < live.len() implies keep(#[trigger] live[i]) by {
            assert(!withheld(classifications, mode, live, live[i].name));
        }
        lemma_filter_of_all(live, keep);
    }
}

/// A classified name is a ghost exactly where no live tool carries it, and no
/// other name is one.
pub proof fn ghosts_are_the_unadvertised_names(
    classifications: Seq<Classification>,
    live: Seq<Descriptor>,
    name: Seq<char>,
)
    ensures
        ghost_names(classifications, live).contains(name) <==> {
            &&& exists|k: int|
                0 <= k < classifications.len() && (#[trigger] classifications[k]).name == name
            &&& forall|i: int| 0 <= i < live.len() ==> (#[trigger] live[i]).name != name
        },
{
    let names = classifications.map_values(|c: Classification| c.name);
    let absent = |name: Seq<char>| !carries(live, name);
    let kept = names.filter(absent);
    if kept.contains(name) {
        let at = choose|at: int| 0 <= at < kept.len() && kept[at] == name;
        names.lemma_filter_pred(absent, at);
        names.lemma_filter_contains_rev(absent, kept[at]);
        let k = choose|k: int| 0 <= k < names.len() && names[k] == name;
        assert(classifications[k].name == name);
        assert(!carries(live, name));
    }
    if (exists|k: int|
        0 <= k < classifications.len() && (#[trigger] classifications[k]).name == name) && (forall|
        i: int,
    |
        0 <= i < live.len() ==> (#[trigger] live[i]).name != name) {
        let k = choose|k: int|
            0 <= k < classifications.len() && (#[trigger] classifications[k]).name == name;
        assert(names[k] == name);
        assert(absent(name));
        names.lemma_filter_contains(absent, k);
    }
}

/// The manifest authority admits exactly the names it declares, whatever the
/// lanes list.
pub proof fn declared_names_are_admitted(
    lanes: Lanes,
    manifest: Manifest,
    live: Seq<Descriptor>,
    name: Seq<char>,
)
    requires
        manifest.classification_mode == ClassificationMode::Manifest,
    ensures
        entry_admits(lanes, manifest, name) <==> exists|k: int|
            0 <= k < manifest.tools.len() && (#[trigger] manifest.tools[k]).name == name,
        admitted_in_catalog(manifest, live, name) <==> exists|k: int|
            0 <= k < manifest.tools.len() && (#[trigger] manifest.tools[k]).name == name,
{
    lemma_classification_of(manifest.tools, name);
}

/// The annotation authority admits a name in a catalog exactly where the name is
/// classified, the catalog lists it, and every listed form of it has sound
/// metadata and the approved behavior.
pub proof fn approved_names_are_admitted_in_a_catalog(
    manifest: Manifest,
    live: Seq<Descriptor>,
    name: Seq<char>,
    k: int,
)
    requires
        manifest.classification_mode == ClassificationMode::McpAnnotations,
        0 <= k <= manifest.tools.len(),
        forall|j: int| 0 <= j < k ==> (#[trigger] manifest.tools[j]).name != name,
        k < manifest.tools.len() ==> manifest.tools[k].name == name,
    ensures
        admitted_in_catalog(manifest, live, name) <==> {
            &&& k < manifest.tools.len()
            &&& exists|i: int| 0 <= i < live.len() && (#[trigger] live[i]).name == name
            &&& forall|i: int|
                0 <= i < live.len() && (#[trigger] live[i]).name == name
                    ==> live[i].metadata_error is None && manifest.tools[k].approved_behavior_hash
                    == Some(live[i].behavior_hash)
        },
{
    a_name_takes_its_first_classification(manifest.tools, name, k);
    let mode = manifest.classification_mode;
    if admitted_in_catalog(manifest, live, name) {
        let i = choose|i: int| 0 <= i < live.len() && (#[trigger] live[i]).name == name;
        assert(admitted(classification_of(manifest.tools, name), mode, live[i]));
        assert forall|i: int| 0 <= i < live.len() && (#[trigger] live[i]).name == name implies live[i].metadata_error
            is None && manifest.tools[k].approved_behavior_hash == Some(live[i].behavior_hash) by {
            assert(admitted(classification_of(manifest.tools, name), mode, live[i]));
        }
    }
}

/// The annotation authority admits a call exactly where some lane is connected,
/// and every connected lane lists the name, each time with sound metadata and
/// the approved behavior.
pub proof fn approved_names_are_admitted_on_every_lane(
    lanes: Lanes,
    manifest: Manifest,
    name: Seq<char>,
    k: int,
)
    requires
        manifest.classification_mode == ClassificationMode::McpAnnotations,
        0 <= k <= manifest.tools.len(),
        forall|j: int| 0 <= j < k ==> (#[trigger] manifest.tools[j]).name != name,
        k < manifest.tools.len() ==> manifest.tools[k].name == name,
    ensures
        entry_admits(lanes, manifest, name) <==> {
            &&& k < manifest.tools.len()
            &&& exists|n: int| 0 <= n < lanes.len() && (#[trigger] lanes[n]) is Some
            &&& forall|n: int|
                0 <= n < lanes.len() && (#[trigger] lanes[n]) is Some ==> exists|i: int|
                    0 <= i < lanes[n]->0.live_tools.len() && (
                    #[trigger] lanes[n]->0.live_tools[i]).name == name
            &&& forall|n: int, i: int|
                0 <= n < lanes.len() && lanes[n] is Some && 0 <= i < lanes[n]->0.live_tools.len()
                    && (#[trigger] lanes[n]->0.live_tools[i]).name == name
                    ==> lanes[n]->0.live_tools[i].metadata_error is None
                    && manifest.tools[k].approved_behavior_hash == Some(
                    lanes[n]->0.live_tools[i].behavior_hash,
                )
        },
{
    assert forall|n: int| 0 <= n < lanes.len() && (#[trigger] lanes[n]) is Some implies (
    admitted_in_catalog(manifest, lanes[n]->0.live_tools, name) <==> {
        &&& k < manifest.tools.len()
        &&& exists|i: int|
            0 <= i < lanes[n]->0.live_tools.len() && (#[trigger] lanes[n]->0.live_tools[i]).name
                == name
        &&& forall|i: int|
            0 <= i < lanes[n]->0.live_tools.len() && (#[trigger] lanes[n]->0.live_tools[i]).name
                == name ==> lanes[n]->0.live_tools[i].metadata_error is None
                && manifest.tools[k].approved_behavior_hash == Some(
                lanes[n]->0.live_tools[i].behavior_hash,
            )
    }) by {
        approved_names_are_admitted_in_a_catalog(manifest, lanes[n]->0.live_tools, name, k);
    }
}

/// A call set up under one manifest may still be dispatched under another exactly
/// where nothing that a re-dial commits has changed, no local quarantine that
/// counts names the tool, and the lane's catalog admits it as it stands.
pub proof fn dispatch_needs_an_unchanged_contract(
    initial: Manifest,
    current: Manifest,
    quarantined: Seq<Seq<char>>,
    live: Seq<Descriptor>,
    name: Seq<char>,
)
    ensures
        quarantined.contains(name) ==> !contract_current(
            initial,
            current,
            quarantined,
            live,
            name,
            true,
        ),
        forall|local: bool|
            !admitted_in_catalog(current, live, name) || initial.committed()
                != current.committed() ==> !#[trigger] contract_current(
                initial,
                current,
                quarantined,
                live,
                name,
                local,
            ),
        admitted_in_catalog(current, live, name) && initial.committed() == current.committed()
            ==> contract_current(initial, current, quarantined, live, name, false) && (
        !quarantined.contains(name) ==> contract_current(
            initial,
            current,
            quarantined,
            live,
            name,
            true,
        )),
{
}

/// Publishing a name depends on the tools of that name alone: one more tool of
/// another name changes nothing about it.
pub proof fn names_are_published_apart(
    classifications: Seq<Classification>,
    mode: ClassificationMode,
    live: Seq<Descriptor>,
    other: Descriptor,
    i: int,
)
    requires
        0 <= i < live.len(),
        other.name != live[i].name,
    ensures
        published_subset(classifications, mode, live).contains(live[i]) <==> published_subset(
            classifications,
            mode,
            live.push(other),
        ).contains(live[i]),
        withheld(classifications, mode, live, live[i].name) <==> withheld(
            classifications,
            mode,
            live.push(other),
            live[i].name,
        ),
{
    let more = live.push(other);
    let tool = live[i];
    assert(more[i] == tool);
    assert(more[live.len() as int] == other);
    assert(forall|j: int| 0 <= j < live.len() ==> #[trigger] more[j] == live[j]);
    partition_is_complete(classifications, mode, live, i);
    partition_is_complete(classifications, mode, more, i);
    if name_unambiguous(classifications, mode, live, tool.name) {
        assert forall|j: int| 0 <= j < more.len() && (#[trigger] more[j]).name
            == tool.name implies admitted(
            classification_of(classifications, tool.name),
            mode,
            more[j],
        ) by {
            assert(live[j] == more[j]);
        }
    }
    if name_unambiguous(classifications, mode, more, tool.name) {
        assert forall|j: int| 0 <= j < live.len() && (#[trigger] live[j]).name
            == tool.name implies admitted(
            classification_of(classifications, tool.name),
            mode,
            live[j],
        ) by {
            assert(more[j] == live[j]);
        }
    }
    assert(publishes(classifications, mode, live, tool) <==> publishes(
        classifications,
        mode,
        more,
        tool,
    ));
    if !publishes(classifications, mode, live, tool) {
        assert(withheld(classifications, mode, live, tool.name)) by {
            assert(live[i].name == tool.name);
        }
        assert(withheld(classifications, mode, more, tool.name)) by {
            assert(more[i].name == tool.name);
        }
        if published_subset(classifications, mode, live).contains(tool) {
            lemma_published(classifications, mode, live, tool);
        }
        if published_subset(classifications, mode, more).contains(tool) {
            lemma_published(classifications, mode, more, tool);
        }
    }
}

proof fn lemma_published(
    classifications: Seq<Classification>,
    mode: ClassificationMode,
    live: Seq<Descriptor>,
    tool: Descriptor,
)
    requires
        published_subset(classifications, mode, live).contains(tool),
    ensures
        publishes(classifications, mode, live, tool),
{
    let keep = |t: Descriptor| publishes(classifications, mode, live, t);
    let kept = live.filter(keep);
    let at = choose|at: int| 0 <= at < kept.len() && kept[at] == tool;
    live.lemma_filter_pred(keep, at);
}

} // verus!
