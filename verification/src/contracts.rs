//! The behavior contracts observed on an upstream's live sessions.

use vstd::prelude::*;

use crate::lane::{count_connected, lemma_connected_count, some_connected, Connection, Lanes};
use crate::manifest::UpstreamManifest;
use crate::names::{insert_unique, lists_exactly, strictly_sorted};
use crate::shape::redial_committed_fields_eq;
use crate::tools::{carries, catalog_carries, Descriptor, Tool};
use crate::value::Value;

verus! {

/// One live tool's observed behavior contract: the facts that admission by
/// annotations evaluates.
#[derive(Debug, PartialEq, Eq)]
pub struct ObservedToolContract {
    /// Tool name as the upstream advertises it.
    pub name: String,
    /// The behavior hash, when every connected lane advertises the name and
    /// every descriptor under it hashes the same; nothing when they disagree.
    pub behavior_hash: Option<String>,
    /// Why admission would refuse the tool even with a matching hash.
    pub metadata_error: Option<String>,
}

/// What an [`ObservedToolContract`] says.
#[verifier::ext_equal]
pub struct ObservedTool {
    pub name: Seq<char>,
    pub behavior_hash: Option<Seq<char>>,
    pub metadata_error: Option<Seq<char>>,
}

impl DeepView for ObservedToolContract {
    type V = ObservedTool;

    open spec fn deep_view(&self) -> ObservedTool {
        ObservedTool {
            name: self.name.deep_view(),
            behavior_hash: self.behavior_hash.deep_view(),
            metadata_error: self.metadata_error.deep_view(),
        }
    }
}

impl Value for ObservedToolContract {
    fn dup(&self) -> (r: Self) {
        ObservedToolContract {
            name: self.name.dup(),
            behavior_hash: self.behavior_hash.dup(),
            metadata_error: self.metadata_error.dup(),
        }
    }

    fn same(&self, other: &Self) -> (b: bool) {
        self.name.same(&other.name) && self.behavior_hash.same(&other.behavior_hash)
            && self.metadata_error.same(&other.metadata_error)
    }
}

/// The live behavior contracts observed on one upstream's connected lanes.
#[derive(Debug, PartialEq, Eq)]
pub struct ObservedContracts {
    /// Whether at least one lane holds a connection. Otherwise `tools` is empty
    /// because nothing can be observed.
    pub connected: bool,
    /// One contract per live tool name, ordered by name.
    pub tools: Vec<ObservedToolContract>,
}

/// Whether a candidate manifest can be judged against the connected sessions.
#[derive(Debug, PartialEq, Eq)]
pub enum CandidateObservation {
    /// The candidate changes the committed connection shape; the sessions that
    /// are connected predict nothing about it.
    ShapeChanged,
    /// The candidate keeps the shape; these are its live contracts.
    Observed(ObservedContracts),
}

/// The live tools of all connected lanes, lane by lane.
pub open spec fn all_live(lanes: Lanes) -> Seq<Descriptor>
    decreases lanes.len(),
{
    if lanes.len() == 0 {
        Seq::empty()
    } else {
        all_live(lanes.drop_last()) + match lanes.last() {
            Some(conn) => conn.live_tools,
            None => Seq::empty(),
        }
    }
}

/// Every connected lane advertises the name.
pub open spec fn carried_by_every_lane(lanes: Lanes, name: Seq<char>) -> bool {
    forall|k: int|
        0 <= k < lanes.len() && (#[trigger] lanes[k]) is Some ==> carries(
            lanes[k]->0.live_tools,
            name,
        )
}

/// Every tool of the name has this behavior hash.
pub open spec fn hashes_to(tools: Seq<Descriptor>, name: Seq<char>, hash: Seq<char>) -> bool {
    forall|i: int|
        0 <= i < tools.len() && (#[trigger] tools[i]).name == name ==> tools[i].behavior_hash
            == hash
}

/// The first metadata error among the tools of a name.
pub open spec fn first_metadata_error(tools: Seq<Descriptor>, name: Seq<char>) -> Option<Seq<char>>
    decreases tools.len(),
{
    if tools.len() == 0 {
        None
    } else {
        match first_metadata_error(tools.drop_last(), name) {
            Some(error) => Some(error),
            None => if tools.last().name == name {
                tools.last().metadata_error
            } else {
                None
            },
        }
    }
}

/// Whether a contract is the one observed on the lanes for its name.
pub open spec fn is_observed(lanes: Lanes, contract: ObservedTool) -> bool {
    let live = all_live(lanes);
    &&& match contract.behavior_hash {
        Some(hash) => carried_by_every_lane(lanes, contract.name) && hashes_to(
            live,
            contract.name,
            hash,
        ),
        None => !(carried_by_every_lane(lanes, contract.name) && exists|hash: Seq<char>| #[trigger]
            hashes_to(live, contract.name, hash)),
    }
    &&& contract.metadata_error == first_metadata_error(live, contract.name)
}

/// The contracts are those observed on the lanes: one for every live name, in
/// order.
pub open spec fn observes(lanes: Lanes, tools: Seq<ObservedTool>) -> bool {
    &&& lists_exactly(
        tools.map_values(|tool: ObservedTool| tool.name),
        Set::new(|name: Seq<char>| carries(all_live(lanes), name)),
    )
    &&& forall|i: int| 0 <= i < tools.len() ==> is_observed(lanes, #[trigger] tools[i])
}

fn collect_live(lanes: &Vec<Option<Connection>>) -> (r: Vec<Tool>)
    ensures
        r.deep_view() == all_live(lanes.deep_view()),
{
    let ghost all = lanes.deep_view();
    let mut out: Vec<Tool> = Vec::new();
    let mut k: usize = 0;
    proof {
        assert(all.take(0) =~= Seq::empty());
        assert(out.deep_view() =~= Seq::<Descriptor>::empty());
    }
    while k < lanes.len()
        invariant
            k <= lanes.len(),
            all == lanes.deep_view(),
            out.deep_view() == all_live(all.take(k as int)),
        decreases lanes.len() - k,
    {
        proof {
            let next = all.take(k + 1);
            assert(next.drop_last() =~= all.take(k as int));
            assert(next.last() == all[k as int]);
        }
        let ghost before = out.deep_view();
        if let Some(conn) = &lanes[k] {
            let mut copy = conn.live_tools.dup();
            let ghost added = copy@;
            let ghost start = out@;
            out.append(&mut copy);
            proof {
                assert(out@ =~= start + added);
                assert(out.deep_view() =~= before + conn.live_tools.deep_view());
            }
        } else {
            proof {
                assert(before + Seq::<Descriptor>::empty() =~= before);
            }
        }
        k = k + 1;
    }
    proof {
        assert(all.take(all.len() as int) =~= all);
    }
    out
}

fn every_lane_carries(lanes: &Vec<Option<Connection>>, name: &String) -> (b: bool)
    ensures
        b == carried_by_every_lane(lanes.deep_view(), name@),
{
    let ghost all = lanes.deep_view();
    let mut k: usize = 0;
    while k < lanes.len()
        invariant
            k <= lanes.len(),
            all == lanes.deep_view(),
            forall|j: int|
                0 <= j < k && (#[trigger] all[j]) is Some ==> carries(all[j]->0.live_tools, name@),
        decreases lanes.len() - k,
    {
        if let Some(conn) = &lanes[k] {
            if !catalog_carries(&conn.live_tools, name) {
                proof {
                    assert(all[k as int] == Some(conn.deep_view()));
                }
                return false;
            }
        }
        k = k + 1;
    }
    true
}

fn observe_name(lanes: &Vec<Option<Connection>>, live: &Vec<Tool>, name: &String) -> (r:
    ObservedToolContract)
    requires
        live.deep_view() == all_live(lanes.deep_view()),
        carries(live.deep_view(), name@),
    ensures
        r.name@ == name@,
        is_observed(lanes.deep_view(), r.deep_view()),
{
    let ghost all = live.deep_view();
    let mut first: Option<usize> = None;
    let mut agree = true;
    let mut metadata_error: Option<String> = None;
    let mut i: usize = 0;
    proof {
        assert(all.take(0) =~= Seq::empty());
    }
    while i < live.len()
        invariant
            i <= live.len(),
            all == live.deep_view(),
            match first {
                Some(f) => f < i && all[f as int].name == name@,
                None => agree && forall|j: int| 0 <= j < i ==> (#[trigger] all[j]).name != name@,
            },
            first is Some && agree ==> forall|j: int|
                0 <= j < i && (#[trigger] all[j]).name == name@ ==> all[j].behavior_hash
                    == all[first->0 as int].behavior_hash,
            !agree ==> exists|j: int|
                0 <= j < i && (#[trigger] all[j]).name == name@ && all[j].behavior_hash
                    != all[first->0 as int].behavior_hash,
            metadata_error.deep_view() == first_metadata_error(all.take(i as int), name@),
        decreases live.len() - i,
    {
        proof {
            let next = all.take(i + 1);
            assert(next.drop_last() =~= all.take(i as int));
            assert(next.last() == all[i as int]);
        }
        if live[i].name == *name {
            match first {
                Some(f) => {
                    if live[i].behavior_hash != live[f].behavior_hash {
                        proof {
                            assert(all[i as int].behavior_hash != all[f as int].behavior_hash);
                        }
                        agree = false;
                    }
                },
                None => {
                    first = Some(i);
                },
            }
            if metadata_error.is_none() {
                metadata_error = live[i].metadata_error.dup();
            }
        }
        i = i + 1;
    }
    proof {
        assert(all.take(all.len() as int) =~= all);
    }
    let everywhere = every_lane_carries(lanes, name);
    let behavior_hash = match first {
        Some(f) => if everywhere && agree {
            Some(live[f].behavior_hash.clone())
        } else {
            None
        },
        None => None,
    };
    proof {
        let f = first->0 as int;
        if agree {
            assert(hashes_to(all, name@, all[f].behavior_hash));
        } else {
            let j = choose|j: int|
                0 <= j < all.len() && (#[trigger] all[j]).name == name@ && all[j].behavior_hash
                    != all[f].behavior_hash;
            assert forall|hash: Seq<char>| !#[trigger] hashes_to(all, name@, hash) by {
                if hashes_to(all, name@, hash) {
                    assert(all[j].behavior_hash == hash);
                    assert(all[f].behavior_hash == hash);
                }
            }
        }
    }
    ObservedToolContract { name: name.clone(), behavior_hash, metadata_error }
}

/// Observe the live contracts of one entry on one view of its lanes.
pub fn observed_contracts(lanes: &Vec<Option<Connection>>) -> (r: ObservedContracts)
    ensures
        r.connected == some_connected(lanes.deep_view()),
        observes(lanes.deep_view(), r.tools.deep_view()),
{
    let live = collect_live(lanes);
    let ghost all = live.deep_view();
    let mut names: Vec<String> = Vec::new();
    let mut i: usize = 0;
    while i < live.len()
        invariant
            i <= live.len(),
            all == live.deep_view(),
            strictly_sorted(names.deep_view()),
            forall|name: Seq<char>| #[trigger]
                names.deep_view().contains(name) <==> exists|j: int|
                    0 <= j < i && (#[trigger] all[j]).name == name,
        decreases live.len() - i,
    {
        insert_unique(&mut names, &live[i].name);
        proof {
            assert(all[i as int].name == live@[i as int].name@);
        }
        i = i + 1;
    }
    let mut tools: Vec<ObservedToolContract> = Vec::new();
    let mut t: usize = 0;
    while t < names.len()
        invariant
            t <= names.len(),
            all == live.deep_view(),
            all == all_live(lanes.deep_view()),
            tools.len() == t,
            forall|name: Seq<char>| #[trigger]
                names.deep_view().contains(name) <==> carries(all, name),
            forall|j: int|
                0 <= j < t ==> (#[trigger] tools.deep_view()[j]).name == names.deep_view()[j],
            forall|j: int|
                0 <= j < t ==> is_observed(lanes.deep_view(), #[trigger] tools.deep_view()[j]),
        decreases names.len() - t,
    {
        proof {
            assert(names.deep_view()[t as int] == names@[t as int]@);
            assert(names.deep_view().contains(names@[t as int]@));
        }
        let contract = observe_name(lanes, &live, &names[t]);
        let ghost meaning = contract.deep_view();
        let ghost before = tools.deep_view();
        tools.push(contract);
        proof {
            assert(tools.deep_view() =~= before.push(meaning));
        }
        t = t + 1;
    }
    proof {
        assert(tools.deep_view().map_values(|tool: ObservedTool| tool.name) =~= names.deep_view());
        lemma_connected_count(lanes.deep_view());
    }
    ObservedContracts { connected: count_connected(lanes) > 0, tools }
}

/// Judge a candidate manifest against the sessions of one entry. A candidate
/// that changes the committed shape would dial another endpoint, about which
/// the sessions of this one say nothing.
pub fn observe_candidate(
    current: &UpstreamManifest,
    candidate: &UpstreamManifest,
    lanes: &Vec<Option<Connection>>,
) -> (r: CandidateObservation)
    ensures
        match r {
            CandidateObservation::ShapeChanged => current.deep_view().committed()
                != candidate.deep_view().committed(),
            CandidateObservation::Observed(observed) => {
                &&& current.deep_view().committed() == candidate.deep_view().committed()
                &&& observed.connected == some_connected(lanes.deep_view())
                &&& observes(lanes.deep_view(), observed.tools.deep_view())
            },
        },
{
    if !redial_committed_fields_eq(current, candidate) {
        return CandidateObservation::ShapeChanged;
    }
    CandidateObservation::Observed(observed_contracts(lanes))
}

/// A hash is reported only where every connected lane serves the name with
/// exactly that behavior, so approving it admits the name on every lane.
pub proof fn reported_hash_holds_on_every_lane(lanes: Lanes, contract: ObservedTool, k: int)
    requires
        is_observed(lanes, contract),
        contract.behavior_hash is Some,
        0 <= k < lanes.len(),
        lanes[k] is Some,
    ensures
        carries(lanes[k]->0.live_tools, contract.name),
        hashes_to(lanes[k]->0.live_tools, contract.name, contract.behavior_hash->0),
{
    let own = lanes[k]->0.live_tools;
    let live = all_live(lanes);
    assert forall|i: int|
        0 <= i < own.len() && (#[trigger] own[i]).name == contract.name implies own[i].behavior_hash
        == contract.behavior_hash->0 by {
        lemma_live_is_listed(lanes, k, i);
        let at = choose|at: int| 0 <= at < live.len() && live[at] == own[i];
        assert(live[at].name == contract.name);
    }
    assert(carries(own, contract.name));
}

proof fn lemma_live_is_listed(lanes: Lanes, k: int, i: int)
    requires
        0 <= k < lanes.len(),
        lanes[k] is Some,
        0 <= i < lanes[k]->0.live_tools.len(),
    ensures
        all_live(lanes).contains(lanes[k]->0.live_tools[i]),
    decreases lanes.len(),
{
    let front = lanes.drop_last();
    let before = all_live(front);
    if k == lanes.len() - 1 {
        let own = lanes.last()->0.live_tools;
        assert((before + own)[before.len() + i] == own[i]);
    } else {
        lemma_live_is_listed(front, k, i);
        let at = choose|at: int| 0 <= at < before.len() && before[at] == front[k]->0.live_tools[i];
        assert(all_live(lanes)[at] == before[at]);
    }
}

proof fn lemma_all_live(lanes: Lanes, tool: Descriptor)
    ensures
        all_live(lanes).contains(tool) <==> exists|k: int|
            0 <= k < lanes.len() && (#[trigger] lanes[k]) is Some
                && lanes[k]->0.live_tools.contains(tool),
    decreases lanes.len(),
{
    if lanes.len() > 0 {
        let front = lanes.drop_last();
        let rest = match lanes.last() {
            Some(conn) => conn.live_tools,
            None => Seq::empty(),
        };
        let whole = all_live(lanes);
        lemma_all_live(front, tool);
        assert(lanes[lanes.len() - 1] == lanes.last());
        if whole.contains(tool) {
            let i = choose|i: int| 0 <= i < whole.len() && whole[i] == tool;
            if i < all_live(front).len() {
                assert(all_live(front)[i] == tool);
                let k = choose|k: int|
                    0 <= k < front.len() && (#[trigger] front[k]) is Some
                        && front[k]->0.live_tools.contains(tool);
                assert(lanes[k] == front[k]);
            } else {
                assert(rest[i - all_live(front).len()] == tool);
                assert(lanes[lanes.len() - 1]->0.live_tools.contains(tool));
            }
        }
        if exists|k: int|
            0 <= k < lanes.len() && (#[trigger] lanes[k]) is Some
                && lanes[k]->0.live_tools.contains(tool) {
            let k = choose|k: int|
                0 <= k < lanes.len() && (#[trigger] lanes[k]) is Some
                    && lanes[k]->0.live_tools.contains(tool);
            if k < front.len() {
                assert(front[k] == lanes[k]);
                let i = choose|i: int| 0 <= i < all_live(front).len() && all_live(front)[i] == tool;
                assert(whole[i] == tool);
            } else {
                let i = choose|i: int| 0 <= i < rest.len() && rest[i] == tool;
                assert(whole[all_live(front).len() + i] == tool);
            }
        }
    }
}

/// The hash of a tool is reported where every connected lane lists it and every
/// listing of it has that one hash.
pub proof fn an_agreed_hash_is_reported(
    lanes: Lanes,
    contract: ObservedTool,
    hash: Seq<char>,
    lane: int,
)
    requires
        is_observed(lanes, contract),
        0 <= lane < lanes.len(),
        lanes[lane] is Some,
        forall|k: int|
            0 <= k < lanes.len() && (#[trigger] lanes[k]) is Some ==> exists|i: int|
                0 <= i < lanes[k]->0.live_tools.len() && (#[trigger] lanes[k]->0.live_tools[i]).name
                    == contract.name,
        forall|k: int, i: int|
            0 <= k < lanes.len() && lanes[k] is Some && 0 <= i < lanes[k]->0.live_tools.len() && (
            #[trigger] lanes[k]->0.live_tools[i]).name == contract.name
                ==> lanes[k]->0.live_tools[i].behavior_hash == hash,
    ensures
        contract.behavior_hash == Some(hash),
{
    let live = all_live(lanes);
    assert(hashes_to(live, contract.name, hash)) by {
        assert forall|i: int| 0 <= i < live.len() && (#[trigger] live[i]).name
            == contract.name implies live[i].behavior_hash == hash by {
            assert(live.contains(live[i]));
            lemma_all_live(lanes, live[i]);
            let k = choose|k: int|
                0 <= k < lanes.len() && (#[trigger] lanes[k]) is Some
                    && lanes[k]->0.live_tools.contains(live[i]);
            let j = choose|j: int|
                0 <= j < lanes[k]->0.live_tools.len() && lanes[k]->0.live_tools[j] == live[i];
            assert(lanes[k]->0.live_tools[j].name == contract.name);
        }
    }
    assert(carried_by_every_lane(lanes, contract.name));
    let i = choose|i: int|
        0 <= i < lanes[lane]->0.live_tools.len() && (#[trigger] lanes[lane]->0.live_tools[i]).name
            == contract.name;
    let listed = lanes[lane]->0.live_tools[i];
    assert(lanes[lane]->0.live_tools.contains(listed));
    lemma_all_live(lanes, listed);
    let at = choose|at: int| 0 <= at < live.len() && live[at] == listed;
    assert(live[at].behavior_hash == hash);
}

/// No hash is reported where a connected lane lacks the tool, or where two
/// listings of it differ.
pub proof fn a_disputed_hash_is_not_reported(
    lanes: Lanes,
    contract: ObservedTool,
    a: int,
    i: int,
    b: int,
    j: int,
)
    requires
        is_observed(lanes, contract),
        0 <= a < lanes.len(),
        0 <= b < lanes.len(),
        lanes[a] is Some,
        lanes[b] is Some,
        (forall|n: int|
            0 <= n < lanes[a]->0.live_tools.len() ==> (#[trigger] lanes[a]->0.live_tools[n]).name
                != contract.name) || (0 <= i < lanes[a]->0.live_tools.len() && 0 <= j
            < lanes[b]->0.live_tools.len() && lanes[a]->0.live_tools[i].name == contract.name
            && lanes[b]->0.live_tools[j].name == contract.name
            && lanes[a]->0.live_tools[i].behavior_hash != lanes[b]->0.live_tools[j].behavior_hash),
    ensures
        contract.behavior_hash is None,
{
    if contract.behavior_hash is Some {
        reported_hash_holds_on_every_lane(lanes, contract, a);
        reported_hash_holds_on_every_lane(lanes, contract, b);
    }
}

/// A tool that some listing has unsound metadata for is reported with an error
/// of one of its listings, and one without such a listing with none.
pub proof fn unsound_metadata_is_reported(lanes: Lanes, contract: ObservedTool)
    requires
        is_observed(lanes, contract),
    ensures
        contract.metadata_error is Some <==> exists|k: int, i: int|
            0 <= k < lanes.len() && lanes[k] is Some && 0 <= i < lanes[k]->0.live_tools.len() && (
            #[trigger] lanes[k]->0.live_tools[i]).name == contract.name
                && lanes[k]->0.live_tools[i].metadata_error is Some,
        contract.metadata_error is Some ==> exists|k: int, i: int|
            0 <= k < lanes.len() && lanes[k] is Some && 0 <= i < lanes[k]->0.live_tools.len() && (
            #[trigger] lanes[k]->0.live_tools[i]).name == contract.name
                && lanes[k]->0.live_tools[i].metadata_error == contract.metadata_error,
{
    let live = all_live(lanes);
    lemma_first_metadata_error(live, contract.name);
    if contract.metadata_error is Some {
        let at = choose|at: int|
            0 <= at < live.len() && (#[trigger] live[at]).name == contract.name
                && live[at].metadata_error == contract.metadata_error;
        assert(live.contains(live[at]));
        lemma_all_live(lanes, live[at]);
        let k = choose|k: int|
            0 <= k < lanes.len() && (#[trigger] lanes[k]) is Some
                && lanes[k]->0.live_tools.contains(live[at]);
        let i = choose|i: int|
            0 <= i < lanes[k]->0.live_tools.len() && lanes[k]->0.live_tools[i] == live[at];
        assert(lanes[k]->0.live_tools[i].name == contract.name);
    }
    if exists|k: int, i: int|
        0 <= k < lanes.len() && lanes[k] is Some && 0 <= i < lanes[k]->0.live_tools.len() && (
        #[trigger] lanes[k]->0.live_tools[i]).name == contract.name
            && lanes[k]->0.live_tools[i].metadata_error is Some {
        let (k, i) = choose|k: int, i: int|
            0 <= k < lanes.len() && lanes[k] is Some && 0 <= i < lanes[k]->0.live_tools.len() && (
            #[trigger] lanes[k]->0.live_tools[i]).name == contract.name
                && lanes[k]->0.live_tools[i].metadata_error is Some;
        let listed = lanes[k]->0.live_tools[i];
        assert(lanes[k]->0.live_tools.contains(listed));
        lemma_all_live(lanes, listed);
        let at = choose|at: int| 0 <= at < live.len() && live[at] == listed;
        assert(live[at].name == contract.name);
    }
}

proof fn lemma_first_metadata_error(tools: Seq<Descriptor>, name: Seq<char>)
    ensures
        first_metadata_error(tools, name) is Some <==> exists|i: int|
            0 <= i < tools.len() && (#[trigger] tools[i]).name == name && tools[i].metadata_error
                is Some,
        first_metadata_error(tools, name) is Some ==> exists|i: int|
            0 <= i < tools.len() && (#[trigger] tools[i]).name == name && tools[i].metadata_error
                == first_metadata_error(tools, name),
    decreases tools.len(),
{
    if tools.len() > 0 {
        let front = tools.drop_last();
        lemma_first_metadata_error(front, name);
        assert(tools[tools.len() - 1] == tools.last());
        if first_metadata_error(front, name) is Some {
            let i = choose|i: int|
                0 <= i < front.len() && (#[trigger] front[i]).name == name
                    && front[i].metadata_error == first_metadata_error(front, name);
            assert(tools[i] == front[i]);
        }
        if exists|i: int|
            0 <= i < tools.len() && (#[trigger] tools[i]).name == name && tools[i].metadata_error
                is Some {
            let i = choose|i: int|
                0 <= i < tools.len() && (#[trigger] tools[i]).name == name
                    && tools[i].metadata_error is Some;
            if i < front.len() {
                assert(front[i].name == name);
            }
        }
    }
}

/// Exactly the tools that some connected lane lists are observed, each once.
pub proof fn listed_tools_are_observed(lanes: Lanes, tools: Seq<ObservedTool>, name: Seq<char>)
    requires
        observes(lanes, tools),
    ensures
        (exists|t: int| 0 <= t < tools.len() && (#[trigger] tools[t]).name == name) <==> exists|
            k: int,
            i: int,
        |
            0 <= k < lanes.len() && lanes[k] is Some && 0 <= i < lanes[k]->0.live_tools.len() && (
            #[trigger] lanes[k]->0.live_tools[i]).name == name,
        forall|s: int, t: int|
            0 <= s < t < tools.len() ==> crate::names::name_lt(
                (#[trigger] tools[s]).name,
                (#[trigger] tools[t]).name,
            ),
{
    let names = tools.map_values(|tool: ObservedTool| tool.name);
    let live = all_live(lanes);
    assert(names.contains(name) <==> carries(live, name)) by {
        assert(Set::new(|name: Seq<char>| carries(all_live(lanes), name)).contains(name) <==> carries(
            live,
            name,
        ));
    }
    if exists|t: int| 0 <= t < tools.len() && (#[trigger] tools[t]).name == name {
        let t = choose|t: int| 0 <= t < tools.len() && (#[trigger] tools[t]).name == name;
        assert(names[t] == name);
        let at = choose|at: int| 0 <= at < live.len() && (#[trigger] live[at]).name == name;
        assert(live.contains(live[at]));
        lemma_all_live(lanes, live[at]);
        let k = choose|k: int|
            0 <= k < lanes.len() && (#[trigger] lanes[k]) is Some
                && lanes[k]->0.live_tools.contains(live[at]);
        let i = choose|i: int|
            0 <= i < lanes[k]->0.live_tools.len() && lanes[k]->0.live_tools[i] == live[at];
        assert(lanes[k]->0.live_tools[i].name == name);
    }
    if exists|k: int, i: int|
        0 <= k < lanes.len() && lanes[k] is Some && 0 <= i < lanes[k]->0.live_tools.len() && (
        #[trigger] lanes[k]->0.live_tools[i]).name == name {
        let (k, i) = choose|k: int, i: int|
            0 <= k < lanes.len() && lanes[k] is Some && 0 <= i < lanes[k]->0.live_tools.len() && (
            #[trigger] lanes[k]->0.live_tools[i]).name == name;
        let listed = lanes[k]->0.live_tools[i];
        assert(lanes[k]->0.live_tools.contains(listed));
        lemma_all_live(lanes, listed);
        let at = choose|at: int| 0 <= at < live.len() && live[at] == listed;
        assert(live[at].name == name);
        assert(names.contains(name));
        let t = choose|t: int| 0 <= t < names.len() && names[t] == name;
        assert(tools[t].name == name);
    }
    assert forall|s: int, t: int| 0 <= s < t < tools.len() implies crate::names::name_lt(
        (#[trigger] tools[s]).name,
        (#[trigger] tools[t]).name,
    ) by {
        assert(names[s] == tools[s].name && names[t] == tools[t].name);
    }
}

/// The error told of a tool is the one of its first listing that has one.
pub proof fn the_first_error_of_a_tool_is_told(tools: Seq<Descriptor>, name: Seq<char>, i: int)
    requires
        0 <= i < tools.len(),
        tools[i].name == name,
        tools[i].metadata_error is Some,
        forall|j: int|
            0 <= j < i && (#[trigger] tools[j]).name == name ==> tools[j].metadata_error is None,
    ensures
        first_metadata_error(tools, name) == tools[i].metadata_error,
    decreases tools.len(),
{
    let front = tools.drop_last();
    if i < front.len() {
        assert(front[i] == tools[i]);
        assert forall|j: int| 0 <= j < i && (#[trigger] front[j]).name
            == name implies front[j].metadata_error is None by {
            assert(tools[j].name == name);
        }
        the_first_error_of_a_tool_is_told(front, name, i);
    } else {
        lemma_first_metadata_error(front, name);
        if first_metadata_error(front, name) is Some {
            let j = choose|j: int|
                0 <= j < front.len() && (#[trigger] front[j]).name == name
                    && front[j].metadata_error is Some;
            assert(tools[j].name == name);
        }
    }
}

/// What is live is what the connected lanes list, lane after lane.
pub proof fn live_tools_come_in_lane_order(lanes: Lanes, conn: crate::lane::LaneModel)
    ensures
        all_live(Seq::empty()).len() == 0,
        all_live(lanes.push(Some(conn))) == all_live(lanes) + conn.live_tools,
        all_live(lanes.push(None)) == all_live(lanes),
{
    assert(lanes.push(Some(conn)).drop_last() =~= lanes);
    assert(lanes.push(None).drop_last() =~= lanes);
    assert(all_live(lanes) + Seq::<Descriptor>::empty() =~= all_live(lanes));
}

} // verus!
