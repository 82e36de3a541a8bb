//! Tool descriptors and the catalogs made of them.

use vstd::prelude::*;

use crate::manifest::ClassificationMode;
use crate::names::{insert_unique, lists_exactly, strictly_sorted};
use crate::value::Value;

verus! {

/// What a tool's annotations and action metadata claim about its behavior.
#[derive(Clone, Copy, Debug, PartialEq, Eq, Structural)]
pub struct BehaviorClaims {
    pub side_effects: bool,
    /// Input or output is sensitive.
    pub protected_data: bool,
    /// Output is sensitive.
    pub output_sensitive: bool,
    /// A human has to approve each call.
    pub requires_review: bool,
}

impl DeepView for BehaviorClaims {
    type V = BehaviorClaims;

    open spec fn deep_view(&self) -> BehaviorClaims {
        *self
    }
}

impl Value for BehaviorClaims {
    fn dup(&self) -> (r: Self) {
        *self
    }

    fn same(&self, other: &Self) -> (b: bool) {
        *self == *other
    }
}

/// A tool as one session of an upstream advertises it. Schemas and metadata are
/// canonical JSON text.
#[derive(Debug, PartialEq, Eq)]
pub struct Tool {
    pub name: String,
    /// Everything a client is shown beside the fields below: title,
    /// description, icons.
    pub presentation: String,
    pub input_schema: String,
    pub output_schema: Option<String>,
    pub annotations: Option<String>,
    pub action_metadata: Option<String>,
    /// What annotations and action metadata claim, where they can be read.
    pub claims: Option<BehaviorClaims>,
    /// Hash over the advertised schemas alone.
    pub schema_hash: String,
    /// Hash over the reviewed behavior, output schema and all.
    pub behavior_hash: String,
    /// The same hash with the output schema left out.
    pub behavior_hash_sans_output_schema: String,
    /// Why the security metadata is not acceptable, if it is not.
    pub metadata_error: Option<String>,
}

/// What a [`Tool`] says.
#[verifier::ext_equal]
pub struct Descriptor {
    pub name: Seq<char>,
    pub presentation: Seq<char>,
    pub input_schema: Seq<char>,
    pub output_schema: Option<Seq<char>>,
    pub annotations: Option<Seq<char>>,
    pub action_metadata: Option<Seq<char>>,
    pub claims: Option<BehaviorClaims>,
    pub schema_hash: Seq<char>,
    pub behavior_hash: Seq<char>,
    pub behavior_hash_sans_output_schema: Seq<char>,
    pub metadata_error: Option<Seq<char>>,
}

/// What clients are shown of a tool. Hashes, claims and errors are worked out
/// from the tool as it was advertised and are no part of it.
#[verifier::ext_equal]
pub struct Shown {
    pub name: Seq<char>,
    pub presentation: Seq<char>,
    pub input_schema: Seq<char>,
    pub output_schema: Option<Seq<char>>,
    pub annotations: Option<Seq<char>>,
    pub action_metadata: Option<Seq<char>>,
}

impl DeepView for Tool {
    type V = Descriptor;

    open spec fn deep_view(&self) -> Descriptor {
        Descriptor {
            name: self.name.deep_view(),
            presentation: self.presentation.deep_view(),
            input_schema: self.input_schema.deep_view(),
            output_schema: self.output_schema.deep_view(),
            annotations: self.annotations.deep_view(),
            action_metadata: self.action_metadata.deep_view(),
            claims: self.claims.deep_view(),
            schema_hash: self.schema_hash.deep_view(),
            behavior_hash: self.behavior_hash.deep_view(),
            behavior_hash_sans_output_schema: self.behavior_hash_sans_output_schema.deep_view(),
            metadata_error: self.metadata_error.deep_view(),
        }
    }
}

impl Value for Tool {
    fn dup(&self) -> (r: Self) {
        Tool {
            name: self.name.dup(),
            presentation: self.presentation.dup(),
            input_schema: self.input_schema.dup(),
            output_schema: self.output_schema.dup(),
            annotations: self.annotations.dup(),
            action_metadata: self.action_metadata.dup(),
            claims: self.claims.dup(),
            schema_hash: self.schema_hash.dup(),
            behavior_hash: self.behavior_hash.dup(),
            behavior_hash_sans_output_schema: self.behavior_hash_sans_output_schema.dup(),
            metadata_error: self.metadata_error.dup(),
        }
    }

    fn same(&self, other: &Self) -> (b: bool) {
        self.name.same(&other.name) && self.presentation.same(&other.presentation)
            && self.input_schema.same(&other.input_schema) && self.output_schema.same(
            &other.output_schema,
        ) && self.annotations.same(&other.annotations) && self.action_metadata.same(
            &other.action_metadata,
        ) && self.claims.same(&other.claims) && self.schema_hash.same(&other.schema_hash) && self.behavior_hash.same(&other.behavior_hash)
            && self.behavior_hash_sans_output_schema.same(&other.behavior_hash_sans_output_schema)
            && self.metadata_error.same(&other.metadata_error)
    }
}

impl Descriptor {
    /// What clients are shown of the tool.
    pub open spec fn shown(self) -> Shown {
        Shown {
            name: self.name,
            presentation: self.presentation,
            input_schema: self.input_schema,
            output_schema: self.output_schema,
            annotations: self.annotations,
            action_metadata: self.action_metadata,
        }
    }

    /// The descriptor with its output schema withheld.
    pub open spec fn without_output_schema(self) -> Self {
        Descriptor {
            output_schema: None,
            behavior_hash: self.behavior_hash_sans_output_schema,
            ..self
        }
    }

    /// The hash whose change counts as drift of the tool.
    pub open spec fn drift_hash(self, mode: ClassificationMode) -> Seq<char> {
        match mode {
            ClassificationMode::Manifest => self.schema_hash,
            ClassificationMode::McpAnnotations => self.behavior_hash,
        }
    }

    /// What two lanes have to agree on to serve the same tool. Under manifest
    /// governance a disputed output schema may be withheld instead.
    pub open spec fn lane_identity(self, mode: ClassificationMode) -> Seq<char> {
        match mode {
            ClassificationMode::Manifest => self.behavior_hash_sans_output_schema,
            ClassificationMode::McpAnnotations => self.behavior_hash,
        }
    }
}

impl Tool {
    /// Whether clients are shown the same of another tool.
    pub fn shows_same(&self, other: &Tool) -> (b: bool)
        ensures
            b == (self.deep_view().shown() == other.deep_view().shown()),
    {
        self.name.same(&other.name) && self.presentation.same(&other.presentation)
            && self.input_schema.same(&other.input_schema) && self.output_schema.same(
            &other.output_schema,
        ) && self.annotations.same(&other.annotations) && self.action_metadata.same(
            &other.action_metadata,
        )
    }

    /// A copy with the output schema withheld.
    pub fn without_output_schema(&self) -> (r: Tool)
        ensures
            r.deep_view() == self.deep_view().without_output_schema(),
    {
        Tool {
            name: self.name.dup(),
            presentation: self.presentation.dup(),
            input_schema: self.input_schema.dup(),
            output_schema: None,
            annotations: self.annotations.dup(),
            action_metadata: self.action_metadata.dup(),
            claims: self.claims.dup(),
            schema_hash: self.schema_hash.dup(),
            behavior_hash: self.behavior_hash_sans_output_schema.dup(),
            behavior_hash_sans_output_schema: self.behavior_hash_sans_output_schema.dup(),
            metadata_error: self.metadata_error.dup(),
        }
    }

    /// The hash whose change counts as drift of the tool.
    pub fn drift_hash(&self, mode: ClassificationMode) -> (r: &String)
        ensures
            r@ == self.deep_view().drift_hash(mode),
    {
        match mode {
            ClassificationMode::Manifest => &self.schema_hash,
            ClassificationMode::McpAnnotations => &self.behavior_hash,
        }
    }

    /// The hash by which lanes recognise the tool.
    pub fn lane_catalog_identity_hash(&self, mode: ClassificationMode) -> (r: &String)
        ensures
            r@ == self.deep_view().lane_identity(mode),
    {
        match mode {
            ClassificationMode::Manifest => &self.behavior_hash_sans_output_schema,
            ClassificationMode::McpAnnotations => &self.behavior_hash,
        }
    }
}

/// Some tool of the catalog carries the name.
pub open spec fn carries(tools: Seq<Descriptor>, name: Seq<char>) -> bool {
    exists|i: int| 0 <= i < tools.len() && (#[trigger] tools[i]).name == name
}

/// Whether some tool of the catalog carries the name.
pub fn catalog_carries(tools: &Vec<Tool>, name: &String) -> (b: bool)
    ensures
        b == carries(tools.deep_view(), name@),
{
    let mut i: usize = 0;
    while i < tools.len()
        invariant
            i <= tools.len(),
            forall|j: int| 0 <= j < i ==> (#[trigger] tools.deep_view()[j]).name != name@,
        decreases tools.len() - i,
    {
        if tools[i].name == *name {
            proof {
                assert(tools.deep_view()[i as int].name == name@);
            }
            return true;
        }
        i = i + 1;
    }
    false
}

/// A catalog as a map from name to what clients are shown, the last tool of a
/// name winning.
pub open spec fn descriptors_by_name(tools: Seq<Descriptor>) -> Map<Seq<char>, Shown>
    decreases tools.len(),
{
    if tools.len() == 0 {
        Map::empty()
    } else {
        descriptors_by_name(tools.drop_last()).insert(tools.last().name, tools.last().shown())
    }
}

proof fn lemma_by_name(tools: Seq<Descriptor>, name: Seq<char>)
    ensures
        descriptors_by_name(tools).contains_key(name) <==> exists|i: int|
            0 <= i < tools.len() && #[trigger] tools[i].name == name,
        descriptors_by_name(tools).contains_key(name) ==> descriptors_by_name(tools)[name].name
            == name,
    decreases tools.len(),
{
    if tools.len() > 0 {
        let front = tools.drop_last();
        lemma_by_name(front, name);
        if exists|i: int| 0 <= i < front.len() && #[trigger] front[i].name == name {
            let i = choose|i: int| 0 <= i < front.len() && #[trigger] front[i].name == name;
            assert(tools[i].name == name);
        }
        if tools.last().name == name {
            assert(tools[tools.len() - 1].name == name);
        }
        if exists|i: int| 0 <= i < tools.len() && #[trigger] tools[i].name == name {
            let i = choose|i: int| 0 <= i < tools.len() && #[trigger] tools[i].name == name;
            if i < front.len() {
                assert(front[i].name == name);
            }
        }
    }
}

/// The descriptor a catalog holds for a name.
pub fn find_tool(tools: &Vec<Tool>, name: &String) -> (r: Option<usize>)
    ensures
        r is Some <==> descriptors_by_name(tools.deep_view()).contains_key(name@),
        r is Some ==> r->0 < tools.len() && descriptors_by_name(tools.deep_view())[name@]
            == tools.deep_view()[r->0 as int].shown(),
{
    let mut i: usize = tools.len();
    proof {
        assert(tools.deep_view().take(tools.len() as int) =~= tools.deep_view());
    }
    while i > 0
        invariant
            i <= tools.len(),
            descriptors_by_name(tools.deep_view()).contains_key(name@) <==> descriptors_by_name(
                tools.deep_view().take(i as int),
            ).contains_key(name@),
            descriptors_by_name(tools.deep_view().take(i as int)).contains_key(name@)
                ==> descriptors_by_name(tools.deep_view())[name@] == descriptors_by_name(
                tools.deep_view().take(i as int),
            )[name@],
        decreases i,
    {
        proof {
            let here = tools.deep_view().take(i as int);
            assert(here.drop_last() =~= tools.deep_view().take(i - 1));
            assert(here.last() == tools.deep_view()[i - 1]);
        }
        i = i - 1;
        if tools[i].name == *name {
            return Some(i);
        }
    }
    None
}

/// Whether every name of one catalog stands in the other with the same descriptor.
fn catalog_covered(tools: &Vec<Tool>, other: &Vec<Tool>) -> (b: bool)
    ensures
        b <==> forall|name: Seq<char>| #[trigger]
            descriptors_by_name(tools.deep_view()).contains_key(name) ==> descriptors_by_name(
                other.deep_view(),
            ).contains_pair(name, descriptors_by_name(tools.deep_view())[name]),
{
    let ghost mine = descriptors_by_name(tools.deep_view());
    let ghost theirs = descriptors_by_name(other.deep_view());
    let mut i: usize = 0;
    while i < tools.len()
        invariant
            i <= tools.len(),
            mine == descriptors_by_name(tools.deep_view()),
            theirs == descriptors_by_name(other.deep_view()),
            forall|j: int|
                0 <= j < i ==> theirs.contains_pair(
                    #[trigger] tools.deep_view()[j].name,
                    mine[tools.deep_view()[j].name],
                ),
        decreases tools.len() - i,
    {
        let ghost name = tools.deep_view()[i as int].name;
        proof {
            lemma_by_name(tools.deep_view(), name);
            assert(mine.contains_key(name));
        }
        let agrees = match (find_tool(tools, &tools[i].name), find_tool(other, &tools[i].name)) {
            (Some(a), Some(b)) => tools[a].shows_same(&other[b]),
            _ => false,
        };
        if !agrees {
            proof {
                assert(!theirs.contains_pair(name, mine[name]));
            }
            return false;
        }
        i = i + 1;
    }
    proof {
        assert forall|name: Seq<char>| #[trigger] mine.contains_key(name) implies theirs.contains_pair(
            name,
            mine[name],
        ) by {
            lemma_by_name(tools.deep_view(), name);
            let j = choose|j: int|
                0 <= j < tools.len() && #[trigger] tools.deep_view()[j].name == name;
            assert(theirs.contains_pair(tools.deep_view()[j].name, mine[tools.deep_view()[j].name]));
        }
    }
    true
}

/// Compare catalogs as name-keyed descriptor sets. Tool order carries no
/// meaning, so the same descriptors in another order are the same catalog.
pub fn tool_catalogs_equal(before: &Vec<Tool>, after: &Vec<Tool>) -> (b: bool)
    ensures
        b == (descriptors_by_name(before.deep_view()) == descriptors_by_name(after.deep_view())),
{
    let forward = catalog_covered(before, after);
    let backward = catalog_covered(after, before);
    proof {
        let a = descriptors_by_name(before.deep_view());
        let b = descriptors_by_name(after.deep_view());
        if forward && backward {
            assert forall|name: Seq<char>| #[trigger] a.contains_key(name) <==> b.contains_key(name) by {
                if a.contains_key(name) {
                    assert(b.contains_pair(name, a[name]));
                }
                if b.contains_key(name) {
                    assert(a.contains_pair(name, b[name]));
                }
            }
            assert(a =~= b);
        }
    }
    forward && backward
}

/// Names of the catalog, ordered and each once, that pass a comparison with
/// another catalog: absent there, or there with another descriptor.
fn names_differing(tools: &Vec<Tool>, other: &Vec<Tool>, present: bool) -> (r: Vec<String>)
    ensures
        lists_exactly(
            r.deep_view(),
            Set::new(
                |name: Seq<char>|
                    differs(
                        descriptors_by_name(tools.deep_view()),
                        descriptors_by_name(other.deep_view()),
                        present,
                        name,
                    ),
            ),
        ),
{
    let ghost mine = descriptors_by_name(tools.deep_view());
    let ghost theirs = descriptors_by_name(other.deep_view());
    let mut out: Vec<String> = Vec::new();
    let mut i: usize = 0;
    while i < tools.len()
        invariant
            i <= tools.len(),
            mine == descriptors_by_name(tools.deep_view()),
            theirs == descriptors_by_name(other.deep_view()),
            strictly_sorted(out.deep_view()),
            forall|name: Seq<char>| #[trigger]
                out.deep_view().contains(name) <==> differs(mine, theirs, present, name) && (exists|
                    j: int,
                |
                    0 <= j < i && #[trigger] tools.deep_view()[j].name == name),
        decreases tools.len() - i,
    {
        let ghost here = tools.deep_view()[i as int].name;
        proof {
            lemma_by_name(tools.deep_view(), here);
            assert(mine.contains_key(here));
        }
        let listed = match (find_tool(tools, &tools[i].name), find_tool(other, &tools[i].name)) {
            (Some(a), Some(b)) => present && !tools[a].shows_same(&other[b]),
            _ => !present,
        };
        if listed {
            insert_unique(&mut out, &tools[i].name);
        }
        i = i + 1;
    }
    proof {
        assert forall|name: Seq<char>| differs(mine, theirs, present, name) implies exists|j: int|
            0 <= j < tools.len() && #[trigger] tools.deep_view()[j].name == name by {
            lemma_by_name(tools.deep_view(), name);
        }
    }
    out
}

/// Whether a name of the first catalog is missing in the second (`present` is
/// false) or stands there with another descriptor (`present` is true).
pub open spec fn differs(
    mine: Map<Seq<char>, Shown>,
    theirs: Map<Seq<char>, Shown>,
    present: bool,
    name: Seq<char>,
) -> bool {
    mine.contains_key(name) && if present {
        theirs.contains_key(name) && mine[name] != theirs[name]
    } else {
        !theirs.contains_key(name)
    }
}

/// What changed from one published inventory to the next: names added, names
/// removed, and names whose descriptor is another one, each list in order.
pub fn tool_inventory_diff(before: &Vec<Tool>, after: &Vec<Tool>) -> (r: (
    Vec<String>,
    Vec<String>,
    Vec<String>,
))
    ensures
        inventory_diff(before.deep_view(), after.deep_view(), r.0.deep_view(), r.1.deep_view(), r.2.deep_view()),
{
    let added = names_differing(after, before, false);
    let removed = names_differing(before, after, false);
    let changed = names_differing(after, before, true);
    (added, removed, changed)
}

/// The three lists a change of inventory comes down to.
pub open spec fn inventory_diff(
    before: Seq<Descriptor>,
    after: Seq<Descriptor>,
    added: Seq<Seq<char>>,
    removed: Seq<Seq<char>>,
    changed: Seq<Seq<char>>,
) -> bool {
    let old_tools = descriptors_by_name(before);
    let new_tools = descriptors_by_name(after);
    &&& lists_exactly(added, Set::new(|name: Seq<char>| differs(new_tools, old_tools, false, name)))
    &&& lists_exactly(
        removed,
        Set::new(|name: Seq<char>| differs(old_tools, new_tools, false, name)),
    )
    &&& lists_exactly(
        changed,
        Set::new(|name: Seq<char>| differs(new_tools, old_tools, true, name)),
    )
}

/// The output schema that a lane's catalog gives a tool, found by its identity;
/// the last such tool wins.
pub open spec fn peer_output(
    catalog: Seq<Descriptor>,
    identity: Seq<char>,
    mode: ClassificationMode,
) -> Option<Option<Seq<char>>>
    decreases catalog.len(),
{
    if catalog.len() == 0 {
        None
    } else if catalog.last().lane_identity(mode) == identity {
        Some(catalog.last().output_schema)
    } else {
        peer_output(catalog.drop_last(), identity, mode)
    }
}

/// Every one of the other lanes serves the tool.
pub open spec fn on_every_lane(
    later: Seq<Seq<Descriptor>>,
    tool: Descriptor,
    mode: ClassificationMode,
) -> bool {
    forall|k: int|
        0 <= k < later.len() ==> (#[trigger] peer_output(later[k], tool.lane_identity(mode), mode))
            is Some
}

/// Every one of the other lanes gives the tool the same output schema.
pub open spec fn outputs_agree(
    later: Seq<Seq<Descriptor>>,
    tool: Descriptor,
    mode: ClassificationMode,
) -> bool {
    forall|k: int|
        0 <= k < later.len() ==> #[trigger] peer_output(later[k], tool.lane_identity(mode), mode)
            == Some(tool.output_schema)
}

/// The form in which a tool of the first lane is shared by all lanes, if it is.
pub open spec fn shared_form(
    later: Seq<Seq<Descriptor>>,
    tool: Descriptor,
    mode: ClassificationMode,
) -> Option<Descriptor> {
    if !on_every_lane(later, tool, mode) {
        None
    } else if mode == ClassificationMode::Manifest && !outputs_agree(later, tool, mode) {
        Some(tool.without_output_schema())
    } else {
        Some(tool)
    }
}

/// The tools of the first lane that all lanes share, in their shared form.
pub open spec fn shared_tools(
    first: Seq<Descriptor>,
    later: Seq<Seq<Descriptor>>,
    mode: ClassificationMode,
) -> Seq<Descriptor>
    decreases first.len(),
{
    if first.len() == 0 {
        Seq::empty()
    } else {
        let earlier = shared_tools(first.drop_last(), later, mode);
        match shared_form(later, first.last(), mode) {
            Some(tool) => earlier.push(tool),
            None => earlier,
        }
    }
}

/// The catalog common to all lanes.
pub open spec fn common_catalog(
    catalogs: Seq<Seq<Descriptor>>,
    mode: ClassificationMode,
) -> Seq<Descriptor> {
    if catalogs.len() == 0 {
        Seq::empty()
    } else {
        shared_tools(catalogs[0], catalogs.skip(1), mode)
    }
}

fn find_peer(catalog: &Vec<Tool>, identity: &String, mode: ClassificationMode) -> (r: Option<usize>)
    ensures
        match r {
            Some(i) => i < catalog.len() && peer_output(catalog.deep_view(), identity@, mode)
                == Some(catalog.deep_view()[i as int].output_schema),
            None => peer_output(catalog.deep_view(), identity@, mode) is None,
        },
{
    let mut i: usize = catalog.len();
    proof {
        assert(catalog.deep_view().take(catalog.len() as int) =~= catalog.deep_view());
    }
    while i > 0
        invariant
            i <= catalog.len(),
            peer_output(catalog.deep_view(), identity@, mode) == peer_output(
                catalog.deep_view().take(i as int),
                identity@,
                mode,
            ),
        decreases i,
    {
        proof {
            let here = catalog.deep_view().take(i as int);
            assert(here.drop_last() =~= catalog.deep_view().take(i - 1));
            assert(here.last() == catalog.deep_view()[i - 1]);
        }
        i = i - 1;
        if *catalog[i].lane_catalog_identity_hash(mode) == *identity {
            return Some(i);
        }
    }
    None
}

fn shared_by_lanes(catalogs: &Vec<&Vec<Tool>>, tool: &Tool, mode: ClassificationMode) -> (r: Option<
    Tool,
>)
    requires
        catalogs.len() > 0,
    ensures
        r.deep_view() == shared_form(catalogs.deep_view().skip(1), tool.deep_view(), mode),
{
    let ghost later = catalogs.deep_view().skip(1);
    let identity = tool.lane_catalog_identity_hash(mode);
    let mut agree = true;
    let mut k: usize = 1;
    while k < catalogs.len()
        invariant
            1 <= k <= catalogs.len(),
            later == catalogs.deep_view().skip(1),
            identity@ == tool.deep_view().lane_identity(mode),
            forall|j: int|
                0 <= j < k - 1 ==> (#[trigger] peer_output(later[j], identity@, mode)) is Some,
            agree <==> forall|j: int|
                0 <= j < k - 1 ==> #[trigger] peer_output(later[j], identity@, mode) == Some(
                    tool.deep_view().output_schema,
                ),
        decreases catalogs.len() - k,
    {
        proof {
            assert(later[k - 1] == catalogs[k as int].deep_view());
        }
        match find_peer(catalogs[k], identity, mode) {
            Some(i) => {
                if !catalogs[k][i].output_schema.same(&tool.output_schema) {
                    agree = false;
                }
            },
            None => {
                proof {
                    assert(peer_output(later[k - 1], identity@, mode) is None);
                }
                return None;
            },
        }
        k = k + 1;
    }
    if mode == ClassificationMode::Manifest && !agree {
        Some(tool.without_output_schema())
    } else {
        Some(tool.dup())
    }
}

/// Tool descriptors advertised by every lane, in the order of the first.
/// Publishing this conservative intersection never promises a tool or a schema
/// that one of the serving sessions lacks.
///
/// Manifest governance withholds a disputed output schema and keeps the tool.
/// Annotation governance reviews the output schema with the rest, so there a
/// disagreement withholds the tool.
pub fn common_tool_catalog(catalogs: &Vec<&Vec<Tool>>, mode: ClassificationMode) -> (r: Vec<Tool>)
    ensures
        r.deep_view() == common_catalog(catalogs.deep_view(), mode),
{
    let mut out: Vec<Tool> = Vec::new();
    if catalogs.len() == 0 {
        proof {
            assert(out.deep_view() =~= Seq::<Descriptor>::empty());
        }
        return out;
    }
    let first = catalogs[0];
    let ghost later = catalogs.deep_view().skip(1);
    let mut i: usize = 0;
    proof {
        assert(first.deep_view().take(0) =~= Seq::<Descriptor>::empty());
        assert(out.deep_view() =~= Seq::<Descriptor>::empty());
    }
    while i < first.len()
        invariant
            i <= first.len(),
            catalogs.len() > 0,
            later == catalogs.deep_view().skip(1),
            out.deep_view() == shared_tools(first.deep_view().take(i as int), later, mode),
        decreases first.len() - i,
    {
        proof {
            let next = first.deep_view().take(i + 1);
            assert(next.drop_last() =~= first.deep_view().take(i as int));
            assert(next.last() == first.deep_view()[i as int]);
        }
        let ghost before = out.deep_view();
        match shared_by_lanes(catalogs, &first[i], mode) {
            Some(tool) => {
                let ghost form = tool.deep_view();
                out.push(tool);
                proof {
                    assert(out.deep_view() =~= before.push(form));
                }
            },
            None => {},
        }
        i = i + 1;
    }
    proof {
        assert(first.deep_view().take(first.len() as int) =~= first.deep_view());
    }
    out
}

/// Nothing is reported as added, removed or changed exactly when the two
/// inventories are the same catalog.
pub proof fn empty_diff_means_equal_catalogs(
    before: Seq<Descriptor>,
    after: Seq<Descriptor>,
    added: Seq<Seq<char>>,
    removed: Seq<Seq<char>>,
    changed: Seq<Seq<char>>,
)
    requires
        inventory_diff(before, after, added, removed, changed),
    ensures
        (added.len() == 0 && removed.len() == 0 && changed.len() == 0) <==> descriptors_by_name(
            before,
        ) == descriptors_by_name(after),
{
    let a = descriptors_by_name(before);
    let b = descriptors_by_name(after);
    if added.len() == 0 && removed.len() == 0 && changed.len() == 0 {
        assert forall|name: Seq<char>| #[trigger] a.contains_key(name) <==> b.contains_key(name) by {
            if a.contains_key(name) && !b.contains_key(name) {
                assert(differs(a, b, false, name));
                assert(removed.contains(name));
            }
            if b.contains_key(name) && !a.contains_key(name) {
                assert(differs(b, a, false, name));
                assert(added.contains(name));
            }
        }
        assert forall|name: Seq<char>| a.contains_key(name) && b.contains_key(name) implies a[name]
            == b[name] by {
            if a[name] != b[name] {
                assert(differs(b, a, true, name));
                assert(changed.contains(name));
            }
        }
        assert(a =~= b);
    }
    if a == b {
        if added.len() > 0 {
            assert(added.contains(added[0]));
        }
        if removed.len() > 0 {
            assert(removed.contains(removed[0]));
        }
        if changed.len() > 0 {
            assert(changed.contains(changed[0]));
        }
    }
}

/// A tool two inventories share in the same form is in none of the three lists,
/// and no name is in two of them.
pub proof fn diff_lists_are_disjoint(
    before: Seq<Descriptor>,
    after: Seq<Descriptor>,
    added: Seq<Seq<char>>,
    removed: Seq<Seq<char>>,
    changed: Seq<Seq<char>>,
    name: Seq<char>,
)
    requires
        inventory_diff(before, after, added, removed, changed),
    ensures
        !(added.contains(name) && removed.contains(name)),
        !(added.contains(name) && changed.contains(name)),
        !(removed.contains(name) && changed.contains(name)),
        added.contains(name) || removed.contains(name) || changed.contains(name)
            <==> (descriptors_by_name(before).contains_key(name) || descriptors_by_name(
            after,
        ).contains_key(name)) && !(descriptors_by_name(before).contains_key(name)
            && descriptors_by_name(after).contains_pair(name, descriptors_by_name(before)[name])),
{
}

/// No catalog repeats a name.
pub open spec fn names_distinct(tools: Seq<Descriptor>) -> bool {
    forall|i: int, j: int|
        0 <= i < j < tools.len() ==> #[trigger] tools[i].name != #[trigger] tools[j].name
}

proof fn lemma_distinct_lookup(tools: Seq<Descriptor>, tool: Descriptor)
    requires
        names_distinct(tools),
        tools.contains(tool),
    ensures
        descriptors_by_name(tools).contains_pair(tool.name, tool.shown()),
    decreases tools.len(),
{
    let front = tools.drop_last();
    let n = tools.len() - 1;
    assert forall|i: int, j: int| 0 <= i < j < front.len() implies #[trigger] front[i].name
        != #[trigger] front[j].name by {
        assert(tools[i].name != tools[j].name);
    }
    let k = choose|k: int| 0 <= k < tools.len() && tools[k] == tool;
    if k < n {
        assert(front[k] == tool);
        assert(tools[k].name != tools[n].name);
        lemma_distinct_lookup(front, tool);
    }
}

proof fn lemma_lookup_origin(tools: Seq<Descriptor>, name: Seq<char>)
    requires
        descriptors_by_name(tools).contains_key(name),
    ensures
        exists|tool: Descriptor| #[trigger]
            tools.contains(tool) && tool.name == name && tool.shown() == descriptors_by_name(
                tools,
            )[name],
    decreases tools.len(),
{
    if tools.len() > 0 {
        let front = tools.drop_last();
        let last = tools.last();
        assert(tools[tools.len() - 1] == last);
        assert(tools.contains(last));
        if last.name != name {
            lemma_lookup_origin(front, name);
            let tool = choose|tool: Descriptor| #[trigger]
                front.contains(tool) && tool.name == name && tool.shown() == descriptors_by_name(
                    front,
                )[name];
            let k = choose|k: int| 0 <= k < front.len() && front[k] == tool;
            assert(tools[k] == tool);
            assert(tools.contains(tool));
        }
    }
}

proof fn lemma_same_tools_same_entries(before: Seq<Descriptor>, after: Seq<Descriptor>)
    requires
        names_distinct(after),
        before.to_multiset() == after.to_multiset(),
    ensures
        forall|name: Seq<char>| #[trigger]
            descriptors_by_name(before).contains_key(name) ==> descriptors_by_name(
                after,
            ).contains_pair(name, descriptors_by_name(before)[name]),
{
    let a = descriptors_by_name(before);
    assert forall|name: Seq<char>| #[trigger] a.contains_key(name) implies descriptors_by_name(
        after,
    ).contains_pair(name, a[name]) by {
        lemma_lookup_origin(before, name);
        let tool = choose|tool: Descriptor| #[trigger]
            before.contains(tool) && tool.name == name && tool.shown() == a[name];
        vstd::seq_lib::to_multiset_contains(before, tool);
        vstd::seq_lib::to_multiset_contains(after, tool);
        lemma_distinct_lookup(after, tool);
    }
}

/// The order in which an upstream lists its tools carries no meaning: the same
/// tools in another order are the same catalog.
pub proof fn catalog_order_carries_no_meaning(before: Seq<Descriptor>, after: Seq<Descriptor>)
    requires
        names_distinct(before),
        names_distinct(after),
        before.to_multiset() == after.to_multiset(),
    ensures
        descriptors_by_name(before) == descriptors_by_name(after),
{
    let a = descriptors_by_name(before);
    let b = descriptors_by_name(after);
    lemma_same_tools_same_entries(before, after);
    lemma_same_tools_same_entries(after, before);
    assert forall|name: Seq<char>| #[trigger] a.contains_key(name) <==> b.contains_key(name) by {
        if a.contains_key(name) {
            assert(b.contains_pair(name, a[name]));
        }
        if b.contains_key(name) {
            assert(a.contains_pair(name, b[name]));
        }
    }
    assert(a =~= b);
}

/// A withheld output schema is no part of what is compared: however it changes,
/// clients are shown the same tool.
pub proof fn withheld_schemas_change_nothing(before: Descriptor, after: Descriptor)
    requires
        (Shown { output_schema: None, ..before.shown() }) == (Shown {
            output_schema: None,
            ..after.shown()
        }),
    ensures
        before.without_output_schema().shown() == after.without_output_schema().shown(),
        descriptors_by_name(seq![before.without_output_schema()]) == descriptors_by_name(
            seq![after.without_output_schema()],
        ),
{
    let a = seq![before.without_output_schema()];
    let b = seq![after.without_output_schema()];
    assert(a.drop_last() =~= Seq::<Descriptor>::empty());
    assert(b.drop_last() =~= Seq::<Descriptor>::empty());
    assert(descriptors_by_name(a) =~= descriptors_by_name(b));
}

proof fn lemma_peer_found(
    catalog: Seq<Descriptor>,
    identity: Seq<char>,
    mode: ClassificationMode,
)
    ensures
        peer_output(catalog, identity, mode) is Some ==> exists|i: int|
            0 <= i < catalog.len() && (#[trigger] catalog[i]).lane_identity(mode) == identity
                && peer_output(catalog, identity, mode) == Some(catalog[i].output_schema),
    decreases catalog.len(),
{
    if catalog.len() > 0 && peer_output(catalog, identity, mode) is Some {
        let n = catalog.len() - 1;
        if catalog.last().lane_identity(mode) == identity {
            assert(catalog[n].lane_identity(mode) == identity);
        } else {
            let front = catalog.drop_last();
            lemma_peer_found(front, identity, mode);
            let i = choose|i: int|
                0 <= i < front.len() && (#[trigger] front[i]).lane_identity(mode) == identity
                    && peer_output(front, identity, mode) == Some(front[i].output_schema);
            assert(catalog[i].lane_identity(mode) == identity);
        }
    }
}

/// What is published is served by every lane under the same identity, and the
/// output schema that is published, if any, is the one every lane advertises.
pub proof fn published_tools_are_served_by_every_lane(
    catalogs: Seq<Seq<Descriptor>>,
    mode: ClassificationMode,
    tool: Descriptor,
    lane: int,
)
    requires
        common_catalog(catalogs, mode).contains(tool),
        0 <= lane < catalogs.len(),
    ensures
        exists|i: int|
            0 <= i < catalogs[lane].len() && (#[trigger] catalogs[lane][i]).lane_identity(mode)
                == tool.lane_identity(mode) && (mode == ClassificationMode::Manifest
                && tool.output_schema is Some ==> catalogs[lane][i].output_schema
                == tool.output_schema),
{
    lemma_shared_origin(catalogs[0], catalogs.skip(1), mode, tool);
    let origin = choose|origin: Descriptor| #[trigger]
        catalogs[0].contains(origin) && shared_form(catalogs.skip(1), origin, mode) == Some(tool);
    assert(tool.lane_identity(mode) == origin.lane_identity(mode));
    if lane == 0 {
        let i = choose|i: int| 0 <= i < catalogs[0].len() && catalogs[0][i] == origin;
        assert(catalogs[0][i].lane_identity(mode) == tool.lane_identity(mode));
    } else {
        let later = catalogs.skip(1);
        assert(later[lane - 1] == catalogs[lane]);
        assert(peer_output(later[lane - 1], origin.lane_identity(mode), mode) is Some);
        lemma_peer_found(catalogs[lane], origin.lane_identity(mode), mode);
        let i = choose|i: int|
            0 <= i < catalogs[lane].len() && (#[trigger] catalogs[lane][i]).lane_identity(mode)
                == origin.lane_identity(mode) && peer_output(
                catalogs[lane],
                origin.lane_identity(mode),
                mode,
            ) == Some(catalogs[lane][i].output_schema);
        assert(catalogs[lane][i].lane_identity(mode) == tool.lane_identity(mode));
    }
}

proof fn lemma_shared_origin(
    first: Seq<Descriptor>,
    later: Seq<Seq<Descriptor>>,
    mode: ClassificationMode,
    tool: Descriptor,
)
    requires
        shared_tools(first, later, mode).contains(tool),
    ensures
        exists|origin: Descriptor| #[trigger]
            first.contains(origin) && shared_form(later, origin, mode) == Some(tool),
    decreases first.len(),
{
    if first.len() > 0 {
        let front = first.drop_last();
        let earlier = shared_tools(front, later, mode);
        let all = shared_tools(first, later, mode);
        let k = choose|k: int| 0 <= k < all.len() && all[k] == tool;
        assert(first.contains(first.last())) by {
            assert(first[first.len() - 1] == first.last());
        }
        if k < earlier.len() {
            assert(earlier[k] == tool);
            lemma_shared_origin(front, later, mode, tool);
            let origin = choose|origin: Descriptor| #[trigger]
                front.contains(origin) && shared_form(later, origin, mode) == Some(tool);
            let j = choose|j: int| 0 <= j < front.len() && front[j] == origin;
            assert(first[j] == origin);
            assert(first.contains(origin));
        } else {
            assert(shared_form(later, first.last(), mode) == Some(tool));
        }
    }
}

/// Clients are shown the same tool exactly where its name, its presentation, its
/// schemas, its annotations and its action metadata are all the same.
pub proof fn every_shown_field_counts(a: Descriptor, b: Descriptor)
    ensures
        a.shown() == b.shown() <==> {
            &&& a.name == b.name
            &&& a.presentation == b.presentation
            &&& a.input_schema == b.input_schema
            &&& a.output_schema == b.output_schema
            &&& a.annotations == b.annotations
            &&& a.action_metadata == b.action_metadata
        },
{
}

/// Withholding the output schema leaves everything else shown as it is, and the
/// behavior hash becomes the one without the schema.
pub proof fn only_the_output_schema_is_withheld(tool: Descriptor)
    ensures
        tool.without_output_schema().output_schema is None,
        tool.without_output_schema().behavior_hash == tool.behavior_hash_sans_output_schema,
        (Descriptor {
            output_schema: tool.output_schema,
            behavior_hash: tool.behavior_hash,
            ..tool.without_output_schema()
        }) == tool,
{
}

/// The manifest authority watches the schemas of a tool and tells lanes apart by
/// everything but the output schema; the annotation authority goes by the whole
/// behavior for both.
pub proof fn hashes_follow_the_authority(tool: Descriptor)
    ensures
        tool.drift_hash(ClassificationMode::Manifest) == tool.schema_hash,
        tool.drift_hash(ClassificationMode::McpAnnotations) == tool.behavior_hash,
        tool.lane_identity(ClassificationMode::Manifest) == tool.behavior_hash_sans_output_schema,
        tool.lane_identity(ClassificationMode::McpAnnotations) == tool.behavior_hash,
{
}

/// Of several tools of one name clients are shown the last.
pub proof fn the_last_tool_of_a_name_is_shown(tools: Seq<Descriptor>, name: Seq<char>, i: int)
    requires
        -1 <= i < tools.len(),
        0 <= i ==> tools[i].name == name,
        forall|j: int| i < j < tools.len() ==> (#[trigger] tools[j]).name != name,
    ensures
        0 <= i ==> descriptors_by_name(tools).contains_pair(name, tools[i].shown()),
        i < 0 ==> !descriptors_by_name(tools).contains_key(name),
    decreases tools.len(),
{
    if tools.len() > 0 && i < tools.len() - 1 {
        let front = tools.drop_last();
        assert(tools[tools.len() - 1].name != name);
        assert forall|j: int| i < j < front.len() implies (#[trigger] front[j]).name != name by {
            assert(tools[j].name != name);
        }
        the_last_tool_of_a_name_is_shown(front, name, i);
    }
}

/// A diff names as added what only the later catalog carries, as removed what
/// only the earlier one does, and as changed what both carry and show otherwise.
pub proof fn a_diff_names_what_differs(
    before: Seq<Descriptor>,
    after: Seq<Descriptor>,
    added: Seq<Seq<char>>,
    removed: Seq<Seq<char>>,
    changed: Seq<Seq<char>>,
    name: Seq<char>,
)
    requires
        inventory_diff(before, after, added, removed, changed),
        names_distinct(before),
        names_distinct(after),
    ensures
        added.contains(name) <==> (exists|j: int|
            0 <= j < after.len() && (#[trigger] after[j]).name == name) && (forall|i: int|
            0 <= i < before.len() ==> (#[trigger] before[i]).name != name),
        removed.contains(name) <==> (exists|i: int|
            0 <= i < before.len() && (#[trigger] before[i]).name == name) && (forall|j: int|
            0 <= j < after.len() ==> (#[trigger] after[j]).name != name),
        changed.contains(name) <==> exists|i: int, j: int|
            0 <= i < before.len() && 0 <= j < after.len() && (#[trigger] before[i]).name == name
                && (#[trigger] after[j]).name == name && before[i].shown() != after[j].shown(),
{
    let old_tools = descriptors_by_name(before);
    let new_tools = descriptors_by_name(after);
    lemma_shown_under_name(before, name);
    lemma_shown_under_name(after, name);
    assert(Set::new(|name: Seq<char>| differs(new_tools, old_tools, false, name)).contains(name)
        <==> differs(new_tools, old_tools, false, name));
    assert(Set::new(|name: Seq<char>| differs(old_tools, new_tools, false, name)).contains(name)
        <==> differs(old_tools, new_tools, false, name));
    assert(Set::new(|name: Seq<char>| differs(new_tools, old_tools, true, name)).contains(name)
        <==> differs(new_tools, old_tools, true, name));
    assert(old_tools.contains_key(name) <==> exists|i: int|
        0 <= i < before.len() && (#[trigger] before[i]).name == name);
    assert(new_tools.contains_key(name) <==> exists|j: int|
        0 <= j < after.len() && (#[trigger] after[j]).name == name);
    if changed.contains(name) {
        let i = choose|i: int| 0 <= i < before.len() && (#[trigger] before[i]).name == name;
        let j = choose|j: int| 0 <= j < after.len() && (#[trigger] after[j]).name == name;
        assert(before[i].shown() != after[j].shown());
    }
    if exists|i: int, j: int|
        0 <= i < before.len() && 0 <= j < after.len() && (#[trigger] before[i]).name == name && (
        #[trigger] after[j]).name == name && before[i].shown() != after[j].shown() {
        let (i, j) = choose|i: int, j: int|
            0 <= i < before.len() && 0 <= j < after.len() && (#[trigger] before[i]).name == name
                && (#[trigger] after[j]).name == name && before[i].shown() != after[j].shown();
        assert(old_tools[name] == before[i].shown());
        assert(new_tools[name] == after[j].shown());
    }
}

proof fn lemma_shown_under_name(tools: Seq<Descriptor>, name: Seq<char>)
    requires
        names_distinct(tools),
    ensures
        forall|i: int|
            0 <= i < tools.len() && (#[trigger] tools[i]).name == name ==> descriptors_by_name(
                tools,
            ).contains_pair(name, tools[i].shown()),
        descriptors_by_name(tools).contains_key(name) ==> exists|i: int|
            0 <= i < tools.len() && (#[trigger] tools[i]).name == name,
{
    assert forall|i: int|
        0 <= i < tools.len() && (#[trigger] tools[i]).name == name implies descriptors_by_name(
        tools,
    ).contains_pair(name, tools[i].shown()) by {
        assert forall|j: int| i < j < tools.len() implies (#[trigger] tools[j]).name != name by {
            assert(tools[i].name != tools[j].name);
        }
        the_last_tool_of_a_name_is_shown(tools, name, i);
    }
    if forall|i: int| 0 <= i < tools.len() ==> (#[trigger] tools[i]).name != name {
        the_last_tool_of_a_name_is_shown(tools, name, -1);
    }
}

proof fn lemma_peer_output(catalog: Seq<Descriptor>, identity: Seq<char>, mode: ClassificationMode)
    ensures
        peer_output(catalog, identity, mode) is Some <==> exists|i: int|
            0 <= i < catalog.len() && (#[trigger] catalog[i]).lane_identity(mode) == identity,
        peer_output(catalog, identity, mode) is Some ==> exists|i: int|
            0 <= i < catalog.len() && (#[trigger] catalog[i]).lane_identity(mode) == identity
                && peer_output(catalog, identity, mode) == Some(catalog[i].output_schema),
    decreases catalog.len(),
{
    if catalog.len() > 0 {
        let front = catalog.drop_last();
        assert(catalog[catalog.len() - 1] == catalog.last());
        lemma_peer_output(front, identity, mode);
        if peer_output(front, identity, mode) is Some {
            let i = choose|i: int|
                0 <= i < front.len() && (#[trigger] front[i]).lane_identity(mode) == identity
                    && peer_output(front, identity, mode) == Some(front[i].output_schema);
            assert(catalog[i] == front[i]);
        }
        if exists|i: int|
            0 <= i < catalog.len() && (#[trigger] catalog[i]).lane_identity(mode) == identity {
            let i = choose|i: int|
                0 <= i < catalog.len() && (#[trigger] catalog[i]).lane_identity(mode) == identity;
            if i < front.len() {
                assert(front[i].lane_identity(mode) == identity);
            }
        }
    }
}

proof fn lemma_shared_form_is_listed(
    first: Seq<Descriptor>,
    later: Seq<Seq<Descriptor>>,
    mode: ClassificationMode,
    i: int,
)
    requires
        0 <= i < first.len(),
        shared_form(later, first[i], mode) is Some,
    ensures
        shared_tools(first, later, mode).contains(shared_form(later, first[i], mode)->0),
    decreases first.len(),
{
    let front = first.drop_last();
    let all = shared_tools(first, later, mode);
    let earlier = shared_tools(front, later, mode);
    if i < first.len() - 1 {
        assert(front[i] == first[i]);
        lemma_shared_form_is_listed(front, later, mode, i);
        let form = shared_form(later, first[i], mode)->0;
        let k = choose|k: int| 0 <= k < earlier.len() && earlier[k] == form;
        assert(all[k] == earlier[k]);
    } else {
        assert(all[earlier.len() as int] == shared_form(later, first[i], mode)->0);
    }
}

/// A tool of the first lane that every other lane lists too, with the same
/// identity, is in the common catalog: as it stands under the annotation
/// authority, and under the manifest authority where the lanes show the same
/// output schema for it.
pub proof fn tools_of_every_lane_are_common(
    catalogs: Seq<Seq<Descriptor>>,
    mode: ClassificationMode,
    i: int,
)
    requires
        catalogs.len() > 0,
        0 <= i < catalogs[0].len(),
        forall|n: int|
            1 <= n < catalogs.len() ==> exists|j: int|
                0 <= j < (#[trigger] catalogs[n]).len() && (#[trigger] catalogs[n][j]).lane_identity(
                    mode,
                ) == catalogs[0][i].lane_identity(mode),
        mode == ClassificationMode::Manifest ==> forall|n: int, j: int|
            1 <= n < catalogs.len() && 0 <= j < catalogs[n].len() && (
            #[trigger] catalogs[n][j]).lane_identity(mode) == catalogs[0][i].lane_identity(mode)
                ==> catalogs[n][j].output_schema == catalogs[0][i].output_schema,
    ensures
        common_catalog(catalogs, mode).contains(catalogs[0][i]),
{
    let later = catalogs.skip(1);
    let tool = catalogs[0][i];
    let identity = tool.lane_identity(mode);
    assert forall|k: int| 0 <= k < later.len() implies (#[trigger] peer_output(
        later[k],
        identity,
        mode,
    )) is Some && (mode == ClassificationMode::Manifest ==> peer_output(later[k], identity, mode)
        == Some(tool.output_schema)) by {
        assert(later[k] == catalogs[k + 1]);
        lemma_peer_output(later[k], identity, mode);
        let j = choose|j: int|
            0 <= j < catalogs[k + 1].len() && (#[trigger] catalogs[k + 1][j]).lane_identity(mode)
                == identity;
        assert(later[k][j].lane_identity(mode) == identity);
        let m = choose|m: int|
            0 <= m < later[k].len() && (#[trigger] later[k][m]).lane_identity(mode) == identity
                && peer_output(later[k], identity, mode) == Some(later[k][m].output_schema);
        assert(catalogs[k + 1][m].lane_identity(mode) == identity);
    }
    assert(shared_form(later, tool, mode) == Some(tool));
    lemma_shared_form_is_listed(catalogs[0], later, mode, i);
}

/// Under the manifest authority a tool that every lane lists is in the common
/// catalog without its output schema where some lane shows another one.
pub proof fn disputed_output_schemas_are_withheld(
    catalogs: Seq<Seq<Descriptor>>,
    i: int,
    lane: int,
)
    requires
        1 <= lane < catalogs.len(),
        0 <= i < catalogs[0].len(),
        forall|n: int|
            1 <= n < catalogs.len() ==> exists|j: int|
                0 <= j < (#[trigger] catalogs[n]).len() && (
                #[trigger] catalogs[n][j]).behavior_hash_sans_output_schema
                    == catalogs[0][i].behavior_hash_sans_output_schema,
        forall|j: int|
            0 <= j < catalogs[lane].len() && (
            #[trigger] catalogs[lane][j]).behavior_hash_sans_output_schema
                == catalogs[0][i].behavior_hash_sans_output_schema
                ==> catalogs[lane][j].output_schema != catalogs[0][i].output_schema,
    ensures
        common_catalog(catalogs, ClassificationMode::Manifest).contains(
            catalogs[0][i].without_output_schema(),
        ),
{
    let mode = ClassificationMode::Manifest;
    let later = catalogs.skip(1);
    let tool = catalogs[0][i];
    let identity = tool.lane_identity(mode);
    assert forall|k: int| 0 <= k < later.len() implies (#[trigger] peer_output(
        later[k],
        identity,
        mode,
    )) is Some by {
        assert(later[k] == catalogs[k + 1]);
        lemma_peer_output(later[k], identity, mode);
        let j = choose|j: int|
            0 <= j < catalogs[k + 1].len() && (
            #[trigger] catalogs[k + 1][j]).behavior_hash_sans_output_schema == identity;
        assert(later[k][j].lane_identity(mode) == identity);
    }
    lemma_peer_output(later[lane - 1], identity, mode);
    assert(later[lane - 1] == catalogs[lane]);
    let m = choose|m: int|
        0 <= m < later[lane - 1].len() && (#[trigger] later[lane - 1][m]).lane_identity(mode)
            == identity && peer_output(later[lane - 1], identity, mode) == Some(
            later[lane - 1][m].output_schema,
        );
    assert(catalogs[lane][m].behavior_hash_sans_output_schema == identity);
    assert(peer_output(later[lane - 1], identity, mode) != Some(tool.output_schema));
    assert(!outputs_agree(later, tool, mode));
    assert(shared_form(later, tool, mode) == Some(tool.without_output_schema()));
    lemma_shared_form_is_listed(catalogs[0], later, mode, i);
}

/// A single lane's catalog is the common one as it stands, and without a lane
/// nothing is common.
pub proof fn one_lane_is_common_with_itself(catalog: Seq<Descriptor>, mode: ClassificationMode)
    ensures
        common_catalog(seq![catalog], mode) == catalog,
        common_catalog(Seq::empty(), mode).len() == 0,
    decreases catalog.len(),
{
    let later = seq![catalog].skip(1);
    assert(later =~= Seq::<Seq<Descriptor>>::empty());
    lemma_alone_is_shared(catalog, mode);
}

proof fn lemma_alone_is_shared(catalog: Seq<Descriptor>, mode: ClassificationMode)
    ensures
        shared_tools(catalog, Seq::empty(), mode) == catalog,
    decreases catalog.len(),
{
    if catalog.len() > 0 {
        lemma_alone_is_shared(catalog.drop_last(), mode);
        assert(catalog.drop_last().push(catalog.last()) =~= catalog);
    } else {
        assert(catalog =~= Seq::empty());
    }
}

/// A catalog carries a name exactly where one of its tools has it.
pub proof fn a_catalog_carries_the_names_of_its_tools(
    tools: Seq<Descriptor>,
    next: Descriptor,
    name: Seq<char>,
)
    ensures
        !carries(Seq::empty(), name),
        carries(tools.push(next), name) <==> carries(tools, name) || next.name == name,
{
    let all = tools.push(next);
    if carries(tools, name) {
        let i = choose|i: int| 0 <= i < tools.len() && (#[trigger] tools[i]).name == name;
        assert(all[i].name == name);
    }
    assert(all[tools.len() as int] == next);
    if carries(all, name) {
        let i = choose|i: int| 0 <= i < all.len() && (#[trigger] all[i]).name == name;
        if i < tools.len() {
            assert(tools[i].name == name);
        }
    }
}

/// The view of a tool says every field of it as it is.
pub proof fn tool_is_said_whole(value: Tool)
    ensures
        value.deep_view().name == value.name.deep_view(),
        value.deep_view().presentation == value.presentation.deep_view(),
        value.deep_view().input_schema == value.input_schema.deep_view(),
        value.deep_view().output_schema == value.output_schema.deep_view(),
        value.deep_view().annotations == value.annotations.deep_view(),
        value.deep_view().action_metadata == value.action_metadata.deep_view(),
        value.deep_view().claims == value.claims.deep_view(),
        value.deep_view().schema_hash == value.schema_hash.deep_view(),
        value.deep_view().behavior_hash == value.behavior_hash.deep_view(),
        value.deep_view().behavior_hash_sans_output_schema == value.behavior_hash_sans_output_schema.deep_view(),
        value.deep_view().metadata_error == value.metadata_error.deep_view(),
{
}

/// Of several tools of one identity on a lane the last one's output schema counts
/// when lanes are compared.
pub proof fn the_last_tool_of_an_identity_counts(
    catalog: Seq<Descriptor>,
    identity: Seq<char>,
    mode: ClassificationMode,
    i: int,
)
    requires
        -1 <= i < catalog.len(),
        0 <= i ==> catalog[i].lane_identity(mode) == identity,
        forall|j: int|
            i < j < catalog.len() ==> (#[trigger] catalog[j]).lane_identity(mode) != identity,
    ensures
        0 <= i ==> peer_output(catalog, identity, mode) == Some(catalog[i].output_schema),
        i < 0 ==> peer_output(catalog, identity, mode) is None,
    decreases catalog.len(),
{
    if catalog.len() > 0 && i < catalog.len() - 1 {
        let front = catalog.drop_last();
        assert(catalog[catalog.len() - 1].lane_identity(mode) != identity);
        assert forall|j: int| i < j < front.len() implies (#[trigger] front[j]).lane_identity(mode)
            != identity by {
            assert(catalog[j].lane_identity(mode) != identity);
        }
        the_last_tool_of_an_identity_counts(front, identity, mode, i);
    }
}

/// A tool takes the same form in the common catalog wherever it stands: none
/// where a later lane lacks it, without its output schema where the manifest
/// governs and a later lane shows another, and otherwise as it is; the catalog
/// keeps the order of the first lane.
pub proof fn the_common_catalog_keeps_the_first_order(
    first: Seq<Descriptor>,
    tool: Descriptor,
    later: Seq<Seq<Descriptor>>,
    mode: ClassificationMode,
)
    ensures
        ({
            let before = common_catalog(seq![first] + later, mode);
            let after = common_catalog(seq![first.push(tool)] + later, mode);
            let identity = tool.lane_identity(mode);
            let everywhere = forall|k: int|
                0 <= k < later.len() ==> (#[trigger] peer_output(later[k], identity, mode)) is Some;
            let alike = forall|k: int|
                0 <= k < later.len() ==> #[trigger] peer_output(later[k], identity, mode) == Some(
                    tool.output_schema,
                );
            &&& !everywhere ==> after == before
            &&& everywhere && (alike || mode == ClassificationMode::McpAnnotations) ==> after
                == before.push(tool)
            &&& everywhere && !alike && mode == ClassificationMode::Manifest ==> after
                == before.push(tool.without_output_schema())
        }),
{
    assert((seq![first] + later).skip(1) =~= later);
    assert((seq![first.push(tool)] + later).skip(1) =~= later);
    assert(first.push(tool).drop_last() =~= first);
}

} // verus!
