//! What the operator has already been told about upstreams serving tools with
//! a refused output schema.
//!
//! A refusal row is an event: the gateway is publishing a tool whose advertised
//! output schema cannot describe structured content. It is owed once per
//! refusal that starts being served, not once per publication.
//!
//! Transitions that change what is served run concurrently. Each one stamps its
//! sample with an observation number taken while it holds the lanes that make
//! the sample true, so the stamps order the samples the way the served set
//! actually changed, and the record keeps the highest stamp: per tool, and per
//! server for the tools an observation did not list at all.

use vstd::prelude::*;

use crate::assoc::Assoc;
use crate::value::Value;

verus! {

/// A published tool whose advertised output schema was refused, with the root
/// type the schema declared.
#[derive(Debug, PartialEq, Eq)]
pub struct RejectedOutputSchema {
    pub tool: String,
    pub observed_type: String,
}

/// What a [`RejectedOutputSchema`] says.
pub struct Refusal {
    pub tool: Seq<char>,
    pub observed_type: Seq<char>,
}

impl DeepView for RejectedOutputSchema {
    type V = Refusal;

    open spec fn deep_view(&self) -> Refusal {
        Refusal { tool: self.tool@, observed_type: self.observed_type@ }
    }
}

impl Value for RejectedOutputSchema {
    fn dup(&self) -> (r: Self) {
        RejectedOutputSchema {
            tool: self.tool.clone(),
            observed_type: self.observed_type.clone(),
        }
    }

    fn same(&self, other: &Self) -> (b: bool) {
        self.tool == other.tool && self.observed_type == other.observed_type
    }
}

impl RejectedOutputSchema {
    pub fn tool(&self) -> (name: &str)
        ensures
            name@ == self.tool@,
    {
        self.tool.as_str()
    }
}

/// A stamp identifying one observation of a server's served set. A larger stamp
/// is a later state of that server; zero is the stamp no observation carries.
#[derive(Clone, Copy, Debug, PartialEq, Eq, Structural)]
pub struct Observation {
    pub stamp: u64,
}

/// What one server has told the operator so far: the stamp of the observation
/// that last reported each tool now believed served, and the stamp of the newest
/// observation applied.
pub struct ServedModel {
    pub marks: Map<Seq<char>, u64>,
    pub newest: u64,
}

/// Whether a sample lists a tool.
pub open spec fn lists(served: Seq<Refusal>, tool: Seq<char>) -> bool {
    exists|i: int| 0 <= i < served.len() && #[trigger] served[i].tool == tool
}

impl ServedModel {
    pub open spec fn fresh() -> Self {
        ServedModel { marks: Map::empty(), newest: 0 }
    }

    /// No tool carries a stamp newer than the newest observation.
    pub open spec fn wf(self) -> bool {
        forall|tool: Seq<char>| #[trigger]
            self.marks.contains_key(tool) ==> self.marks[tool] <= self.newest
    }

    /// The rows a sample owes: the refusals of tools not believed served. A
    /// sample newer than everything applied reports a tool it lists twice once.
    pub open spec fn owed(self, at: u64, served: Seq<Refusal>) -> Seq<Refusal>
        decreases served.len(),
    {
        if served.len() == 0 {
            Seq::empty()
        } else {
            let earlier = served.drop_last();
            let row = served.last();
            if self.marks.contains_key(row.tool) || (at > self.newest && lists(earlier, row.tool)) {
                self.owed(at, earlier)
            } else {
                self.owed(at, earlier).push(row)
            }
        }
    }

    /// Whether a tool is believed served once a sample is applied. Only a sample
    /// newer than everything applied may start a serving, and only one that is
    /// not overtaken may end one.
    pub open spec fn believed_after(self, at: u64, served: Seq<Refusal>, tool: Seq<char>) -> bool {
        if at > self.newest {
            lists(served, tool)
        } else if at == self.newest {
            self.marks.contains_key(tool) && lists(served, tool)
        } else {
            self.marks.contains_key(tool)
        }
    }

    /// The stamp of a tool believed served once a sample is applied.
    pub open spec fn stamp_after(self, at: u64, served: Seq<Refusal>, tool: Seq<char>) -> u64 {
        if !self.marks.contains_key(tool) || (lists(served, tool) && at > self.marks[tool]) {
            at
        } else {
            self.marks[tool]
        }
    }

    pub open spec fn applied(self, at: u64, served: Seq<Refusal>) -> Self {
        ServedModel {
            marks: Map::new(
                |tool: Seq<char>| self.believed_after(at, served, tool),
                |tool: Seq<char>| self.stamp_after(at, served, tool),
            ),
            newest: if at > self.newest {
                at
            } else {
                self.newest
            },
        }
    }
}

struct Served {
    marks: Assoc<u64>,
    newest: u64,
}

impl View for Served {
    type V = ServedModel;

    closed spec fn view(&self) -> ServedModel {
        ServedModel { marks: self.marks@, newest: self.newest }
    }
}

fn sample_lists(served: &Vec<RejectedOutputSchema>, tool: &String) -> (b: bool)
    ensures
        b == lists(served.deep_view(), tool@),
{
    let mut i: usize = 0;
    while i < served.len()
        invariant
            i <= served.len(),
            forall|j: int| 0 <= j < i ==> #[trigger] served.deep_view()[j].tool != tool@,
        decreases served.len() - i,
    {
        if served[i].tool == *tool {
            proof {
                assert(served.deep_view()[i as int].tool == tool@);
            }
            return true;
        }
        i = i + 1;
    }
    false
}

impl Served {
    /// Mark what the sample lists and collect the rows it owes.
    fn mark(&mut self, at: u64, served: &Vec<RejectedOutputSchema>) -> (owed: Vec<
        RejectedOutputSchema,
    >)
        ensures
            owed.deep_view() == old(self)@.owed(at, served.deep_view()),
            final(self).newest == old(self).newest,
            forall|tool: Seq<char>| #[trigger]
                final(self).marks@.contains_key(tool) <==> old(self).marks@.contains_key(tool) || (at
                    > old(self).newest && lists(served.deep_view(), tool)),
            forall|tool: Seq<char>| #[trigger]
                final(self).marks@.contains_key(tool) ==> final(self).marks@[tool]
                    == old(self)@.stamp_after(at, served.deep_view(), tool),
    {
        let ghost start = self@;
        let mut owed: Vec<RejectedOutputSchema> = Vec::new();
        let mut i: usize = 0;
        proof {
            assert(served.deep_view().take(0) =~= Seq::<Refusal>::empty());
        }
        while i < served.len()
            invariant
                i <= served.len(),
                self.newest == start.newest,
                owed.deep_view() == start.owed(at, served.deep_view().take(i as int)),
                forall|tool: Seq<char>| #[trigger]
                    self.marks@.contains_key(tool) <==> start.marks.contains_key(tool) || (at
                        > start.newest && lists(served.deep_view().take(i as int), tool)),
                forall|tool: Seq<char>| #[trigger]
                    self.marks@.contains_key(tool) ==> self.marks@[tool] == start.stamp_after(
                        at,
                        served.deep_view().take(i as int),
                        tool,
                    ),
            decreases served.len() - i,
        {
            let ghost earlier = served.deep_view().take(i as int);
            let ghost next = served.deep_view().take(i + 1);
            let ghost row = served.deep_view()[i as int];
            let ghost marks = self.marks@;
            proof {
                assert(next.drop_last() =~= earlier);
                assert(next.last() == row);
                lemma_lists_push(earlier, next, row);
            }
            let rejected = &served[i];
            let known = match self.marks.get(rejected.tool.as_str()) {
                Some(marked_at) => Some(*marked_at),
                None => None,
            };
            match known {
                Some(marked_at) => {
                    if at > marked_at {
                        self.marks.insert(rejected.tool.clone(), at);
                    }
                },
                None => {
                    let ghost before = owed.deep_view();
                    owed.push(rejected.dup());
                    proof {
                        assert(owed.deep_view() =~= before.push(row));
                    }
                    if at > self.newest {
                        self.marks.insert(rejected.tool.clone(), at);
                    }
                },
            }
            i = i + 1;
        }
        proof {
            assert(served.deep_view().take(served.len() as int) =~= served.deep_view());
        }
        owed
    }

    /// Drop every mark of a tool the sample does not list.
    fn keep_listed(&mut self, served: &Vec<RejectedOutputSchema>)
        ensures
            final(self).newest == old(self).newest,
            forall|tool: Seq<char>| #[trigger]
                final(self).marks@.contains_key(tool) <==> old(self).marks@.contains_key(tool)
                    && lists(served.deep_view(), tool),
            forall|tool: Seq<char>| #[trigger]
                final(self).marks@.contains_key(tool) ==> final(self).marks@[tool] == old(
                    self,
                ).marks@[tool],
    {
        let ghost start = self.marks@;
        let tools = self.marks.keys();
        let mut i: usize = 0;
        while i < tools.len()
            invariant
                i <= tools.len(),
                self.newest == old(self).newest,
                tools.deep_view().no_duplicates(),
                forall|tool: Seq<char>| #[trigger]
                    self.marks@.contains_key(tool) <==> start.contains_key(tool) && (
                    tools.deep_view().take(i as int).contains(tool) ==> lists(
                        served.deep_view(),
                        tool,
                    )),
                forall|tool: Seq<char>| #[trigger]
                    self.marks@.contains_key(tool) ==> self.marks@[tool] == start[tool],
            decreases tools.len() - i,
        {
            let ghost here = tools.deep_view()[i as int];
            proof {
                let earlier = tools.deep_view().take(i as int);
                let next = tools.deep_view().take(i + 1);
                assert(next =~= earlier.push(here));
                assert forall|tool: Seq<char>| #[trigger]
                    next.contains(tool) <==> earlier.contains(tool) || tool == here by {
                    if earlier.contains(tool) {
                        let k = choose|k: int| 0 <= k < earlier.len() && earlier[k] == tool;
                        assert(next[k] == tool);
                    }
                    assert(next[i as int] == here);
                }
            }
            if !sample_lists(served, &tools[i]) {
                self.marks.remove(tools[i].as_str());
            }
            i = i + 1;
        }
        proof {
            assert(tools.deep_view().take(tools.len() as int) =~= tools.deep_view());
            assert forall|tool: Seq<char>| start.contains_key(tool) implies tools.deep_view().contains(
                tool,
            ) by {
                assert(tools.deep_view().to_set().contains(tool));
            }
        }
    }

    fn apply(&mut self, at: u64, served: &Vec<RejectedOutputSchema>) -> (owed: Vec<
        RejectedOutputSchema,
    >)
        ensures
            owed.deep_view() == old(self)@.owed(at, served.deep_view()),
            final(self)@ == old(self)@.applied(at, served.deep_view()),
    {
        let newest: u64 = self.newest;
        let owed = self.mark(at, served);
        if at >= newest {
            self.keep_listed(served);
        }
        if at > newest {
            self.newest = at;
        }
        proof {
            assert(self@.marks =~= old(self)@.applied(at, served.deep_view()).marks);
        }
        owed
    }
}

proof fn lemma_lists_push(earlier: Seq<Refusal>, next: Seq<Refusal>, row: Refusal)
    requires
        next.len() == earlier.len() + 1,
        next.drop_last() == earlier,
        next.last() == row,
    ensures
        forall|tool: Seq<char>| #[trigger]
            lists(next, tool) <==> lists(earlier, tool) || tool == row.tool,
{
    assert forall|tool: Seq<char>| #[trigger]
        lists(next, tool) <==> lists(earlier, tool) || tool == row.tool by {
        if lists(earlier, tool) {
            let k = choose|k: int| 0 <= k < earlier.len() && #[trigger] earlier[k].tool == tool;
            assert(next[k].tool == tool);
        }
        assert(next[next.len() - 1].tool == row.tool);
        if lists(next, tool) && tool != row.tool {
            let k = choose|k: int| 0 <= k < next.len() && #[trigger] next[k].tool == tool;
            assert(earlier[k].tool == tool);
        }
    }
}

/// What every server has told the operator so far, and the last stamp given.
pub struct RefusalRecord {
    servers: Assoc<Served>,
    observations: u64,
}

impl RefusalRecord {
    /// The record of one server, if it has one.
    pub closed spec fn record_of(self, server: Seq<char>) -> Option<ServedModel> {
        if self.servers@.contains_key(server) {
            Some(self.servers@[server]@)
        } else {
            None
        }
    }

    /// The last stamp given.
    pub closed spec fn stamped(self) -> u64 {
        self.observations
    }

    pub fn new() -> (r: Self)
        ensures
            forall|server: Seq<char>| (#[trigger] r.record_of(server)) is None,
            r.stamped() == 0,
    {
        RefusalRecord { servers: Assoc::new(), observations: 0 }
    }

    /// Stamp an observation. Call this while holding the lanes whose contents
    /// the sample describes; that is what makes the stamps an order over the
    /// served set. Stamps count from one.
    pub fn observe(&mut self) -> (at: Observation)
        ensures
            at.stamp == old(self).stamped().saturating_add(1),
            final(self).stamped() == old(self).stamped().wrapping_add(1),
            forall|server: Seq<char>| #[trigger]
                final(self).record_of(server) == old(self).record_of(server),
    {
        let previous: u64 = self.observations;
        self.observations = previous.wrapping_add(1);
        Observation { stamp: previous.saturating_add(1) }
    }

    /// Apply one complete observation of a server's served refusals and return
    /// those that owe a row.
    ///
    /// `served` is the whole set for that server at `at`: a tool the record
    /// believes served and this observation does not list has stopped being
    /// served. `may_open` governs only whether a server absent from the record
    /// may be added to it; it has to be read while this record is held. The
    /// rows are returned either way, because an event stays true after the
    /// entry that served it goes away.
    pub fn apply(
        &mut self,
        server: &str,
        at: Observation,
        served: &Vec<RejectedOutputSchema>,
        may_open: bool,
    ) -> (owed: Vec<RejectedOutputSchema>)
        ensures
            final(self).stamped() == old(self).stamped(),
            forall|other: Seq<char>|
                other != server@ ==> #[trigger] final(self).record_of(other) == old(
                    self,
                ).record_of(other),
            match old(self).record_of(server@) {
                Some(record) => {
                    &&& owed.deep_view() == record.owed(at.stamp, served.deep_view())
                    &&& final(self).record_of(server@) == Some(
                        record.applied(at.stamp, served.deep_view()),
                    )
                },
                None if may_open => {
                    &&& owed.deep_view() == ServedModel::fresh().owed(
                        at.stamp,
                        served.deep_view(),
                    )
                    &&& final(self).record_of(server@) == Some(
                        ServedModel::fresh().applied(at.stamp, served.deep_view()),
                    )
                },
                None => {
                    &&& owed.deep_view() == served.deep_view()
                    &&& final(self).record_of(server@) is None
                },
            },
    {
        if !self.servers.contains_key(server) && !may_open {
            return served.dup();
        }
        let mut record = match self.servers.remove(server) {
            Some(record) => record,
            None => Served { marks: Assoc::new(), newest: 0 },
        };
        let owed = record.apply(at.stamp, served);
        self.servers.insert(server.to_owned(), record);
        owed
    }

    /// Drop everything recorded for a server that leaves the registry. A name
    /// that comes back has told the operator nothing yet.
    pub fn forget(&mut self, server: &str)
        ensures
            final(self).record_of(server@) is None,
            forall|other: Seq<char>|
                other != server@ ==> #[trigger] final(self).record_of(other) == old(
                    self,
                ).record_of(other),
            final(self).stamped() == old(self).stamped(),
    {
        self.servers.remove(server);
    }
}

/// Applying an observation keeps every mark at or below the newest stamp.
pub proof fn marks_never_outrun_the_newest(record: ServedModel, at: u64, served: Seq<Refusal>)
    requires
        record.wf(),
    ensures
        record.applied(at, served).wf(),
        ServedModel::fresh().wf(),
{
}

proof fn lemma_owed_lists(record: ServedModel, at: u64, served: Seq<Refusal>, tool: Seq<char>)
    ensures
        lists(record.owed(at, served), tool) <==> lists(served, tool)
            && !record.marks.contains_key(tool),
    decreases served.len(),
{
    if served.len() > 0 {
        let earlier = served.drop_last();
        let row = served.last();
        lemma_owed_lists(record, at, earlier, tool);
        lemma_lists_push(earlier, served, row);
        assert(lists(served, tool) <==> lists(earlier, tool) || tool == row.tool);
        let before = record.owed(at, earlier);
        let after = record.owed(at, served);
        if record.marks.contains_key(row.tool) || (at > record.newest && lists(earlier, row.tool)) {
        } else {
            assert(after.drop_last() =~= before);
            lemma_lists_push(before, after, row);
            assert(lists(after, tool) <==> lists(before, tool) || tool == row.tool);
        }
    }
}

/// A row is owed for exactly the listed tools that the record does not believe
/// to be served, whatever the age of the observation.
pub proof fn row_is_owed_iff_not_believed_served(
    record: ServedModel,
    at: u64,
    served: Seq<Refusal>,
    tool: Seq<char>,
)
    ensures
        lists(record.owed(at, served), tool) <==> lists(served, tool)
            && !record.marks.contains_key(tool),
{
    lemma_owed_lists(record, at, served, tool);
}

/// A refusal once reported by the newest observation is not reported again
/// while it keeps being served, by whatever later or overtaken observation.
pub proof fn unbroken_serving_is_reported_once(
    record: ServedModel,
    at: u64,
    served: Seq<Refusal>,
    again: u64,
    resampled: Seq<Refusal>,
    tool: Seq<char>,
)
    requires
        at > record.newest,
        lists(served, tool),
    ensures
        !lists(record.applied(at, served).owed(again, resampled), tool),
{
    lemma_owed_lists(record.applied(at, served), again, resampled, tool);
}

/// A refusal that stops being served and resumes owes a second row.
pub proof fn resumed_serving_is_reported_again(
    record: ServedModel,
    withheld_at: u64,
    withheld: Seq<Refusal>,
    resumed_at: u64,
    resumed: Seq<Refusal>,
    tool: Seq<char>,
)
    requires
        withheld_at >= record.newest,
        !lists(withheld, tool),
        lists(resumed, tool),
    ensures
        lists(record.applied(withheld_at, withheld).owed(resumed_at, resumed), tool),
{
    lemma_owed_lists(record.applied(withheld_at, withheld), resumed_at, resumed, tool);
}

/// An overtaken observation changes nothing about which tools are believed
/// served: neither a stale absence clears a newer serving, nor does a stale
/// serving undo a newer absence.
pub proof fn overtaken_observation_changes_no_belief(
    record: ServedModel,
    at: u64,
    served: Seq<Refusal>,
)
    requires
        at < record.newest,
    ensures
        record.applied(at, served).marks.dom() == record.marks.dom(),
        record.applied(at, served).newest == record.newest,
{
    assert(record.applied(at, served).marks.dom() =~= record.marks.dom());
}

/// Two observations leave the same record whichever of them arrives first.
pub proof fn order_of_arrival_does_not_matter(
    record: ServedModel,
    older: u64,
    seen_older: Seq<Refusal>,
    newer: u64,
    seen_newer: Seq<Refusal>,
)
    requires
        record.wf(),
        record.newest < older < newer,
    ensures
        record.applied(older, seen_older).applied(newer, seen_newer) == record.applied(
            newer,
            seen_newer,
        ).applied(older, seen_older),
{
    let a = record.applied(older, seen_older).applied(newer, seen_newer);
    let b = record.applied(newer, seen_newer).applied(older, seen_older);
    assert(a.marks =~= b.marks);
}

/// A listing names a tool exactly where one of its rows does.
pub proof fn a_listing_names_the_tools_of_its_rows(
    served: Seq<Refusal>,
    row: Refusal,
    tool: Seq<char>,
)
    ensures
        !lists(Seq::empty(), tool),
        lists(served.push(row), tool) <==> lists(served, tool) || row.tool == tool,
{
    let all = served.push(row);
    if lists(served, tool) {
        let i = choose|i: int| 0 <= i < served.len() && #[trigger] served[i].tool == tool;
        assert(all[i].tool == tool);
    }
    assert(all[served.len() as int] == row);
    if lists(all, tool) {
        let i = choose|i: int| 0 <= i < all.len() && #[trigger] all[i].tool == tool;
        if i < served.len() {
            assert(served[i].tool == tool);
        }
    }
}

/// Rows are owed in the order they are served. One is owed where its tool is not
/// believed to be served already and, for an observation newer than all before
/// it, where no earlier row of the same observation names it.
pub proof fn owed_rows_keep_their_order(
    record: ServedModel,
    at: u64,
    served: Seq<Refusal>,
    row: Refusal,
)
    ensures
        record.owed(at, Seq::empty()).len() == 0,
        record.marks.contains_key(row.tool) ==> record.owed(at, served.push(row)) == record.owed(
            at,
            served,
        ),
        !record.marks.contains_key(row.tool) && at > record.newest && lists(served, row.tool)
            ==> record.owed(at, served.push(row)) == record.owed(at, served),
        !record.marks.contains_key(row.tool) && (at <= record.newest || !lists(served, row.tool))
            ==> record.owed(at, served.push(row)) == record.owed(at, served).push(row),
{
    assert(served.push(row).drop_last() =~= served);
}

/// After an observation newer than all before it a tool is believed served
/// exactly where the observation lists it; after one as new as the newest, where
/// it was believed so and is listed again; after an older one, as before. A
/// belief carries the stamp of the newest observation that listed the tool.
pub proof fn beliefs_follow_the_newest_observation(
    record: ServedModel,
    at: u64,
    served: Seq<Refusal>,
    tool: Seq<char>,
)
    ensures
        at > record.newest ==> (record.applied(at, served).marks.contains_key(tool) <==> lists(
            served,
            tool,
        )),
        at == record.newest ==> (record.applied(at, served).marks.contains_key(tool)
            <==> record.marks.contains_key(tool) && lists(served, tool)),
        at < record.newest ==> (record.applied(at, served).marks.contains_key(tool)
            <==> record.marks.contains_key(tool)),
        record.applied(at, served).newest == if at > record.newest {
            at
        } else {
            record.newest
        },
        record.applied(at, served).marks.contains_key(tool) && !record.marks.contains_key(tool)
            ==> record.applied(at, served).marks[tool] == at,
        record.applied(at, served).marks.contains_key(tool) && record.marks.contains_key(tool)
            && lists(served, tool) ==> record.applied(at, served).marks[tool] == if at
            > record.marks[tool] {
            at
        } else {
            record.marks[tool]
        },
        record.applied(at, served).marks.contains_key(tool) && record.marks.contains_key(tool)
            && !lists(served, tool) ==> record.applied(at, served).marks[tool]
            == record.marks[tool],
        ServedModel::fresh().newest == 0,
        !ServedModel::fresh().marks.contains_key(tool),
{
}

/// The view of a refused schema says every field of it as it is.
pub proof fn rejected_output_schema_is_said_whole(value: RejectedOutputSchema)
    ensures
        value.deep_view().tool == value.tool.deep_view(),
        value.deep_view().observed_type == value.observed_type.deep_view(),
{
}

} // verus!
