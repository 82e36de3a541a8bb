//! Health, quarantine and refusal views of an upstream.

use vstd::prelude::*;

use crate::clock::WallTime;
use crate::lane::{
    connected_count, count_connected, find_connected, first_connected, some_connected,
    BreakerState, Connection, LaneModel, Lanes,
};
use crate::names::{
    has_name, insert_unique, lemma_filter_of_all, lemma_strict_has_no_repeats,
    lemma_take_contains, lists_exactly, sort_unique, strictly_sorted,
};
use crate::refusal_record::{lists, Refusal, RejectedOutputSchema};
use crate::tools::{carries, catalog_carries, Descriptor, Tool};
use crate::value::Value;

verus! {

/// Availability of an upstream as an operator sees it. This is apart from the
/// catalog lifecycle: a server live in the catalog can be disconnected.
#[derive(Clone, Copy, Debug, PartialEq, Eq, Structural)]
pub enum UpstreamRuntimeState {
    /// Every configured lane is connected and the circuit breaker is closed.
    Connected,
    /// Some capacity remains, but lanes are missing or the breaker is not closed.
    Degraded,
    /// No lane holds a connection, or the open breaker keeps dispatch away.
    Disconnected,
}

impl UpstreamRuntimeState {
    pub open spec fn spec_as_str(self) -> Seq<char> {
        match self {
            UpstreamRuntimeState::Connected => "connected"@,
            UpstreamRuntimeState::Degraded => "degraded"@,
            UpstreamRuntimeState::Disconnected => "disconnected"@,
        }
    }

    pub fn as_str(self) -> (r: &'static str)
        ensures
            r@ == self.spec_as_str(),
    {
        match self {
            UpstreamRuntimeState::Connected => "connected",
            UpstreamRuntimeState::Degraded => "degraded",
            UpstreamRuntimeState::Disconnected => "disconnected",
        }
    }
}

/// Bounded classification of the most recent runtime failure. Operator surfaces
/// carry this closed vocabulary and never the raw error.
#[derive(Clone, Copy, Debug, PartialEq, Eq, Structural)]
pub enum UpstreamErrorClass {
    Authentication,
    Catalog,
    Configuration,
    Dns,
    Protocol,
    Timeout,
    Transport,
}

/// Ways in which dialing an upstream fails.
#[derive(Clone, Copy, Debug, PartialEq, Eq, Structural)]
pub enum DialError {
    ResolveNetwork,
    NoNetworkAddresses,
    HandshakeTimeout,
    MissingAuthEnv,
    AuthFileRead,
    AuthFileTooLarge,
    AuthFileNotRegular,
    AuthFileInvalidUtf8,
    AuthFileEmpty,
    EmptyAuth,
    MtlsReadFailed,
    MtlsFileNotRegular,
    MtlsFileTooLarge,
    MtlsInvalidPem,
    Init,
    ListTools,
    Connect,
    Spawn,
    MissingUrl,
    InvalidNetworkUrl,
    MissingCommand,
    UnsupportedAuthForTransport,
    CatalogProbeGroupsRequireIdentity,
    CatalogProbeGroupsRequirePerCall,
    MtlsMissingField,
    MtlsUnsupportedForTransport,
    MtlsClientBuild,
    HttpClientBuild,
    MtlsRequiresHttps,
}

impl UpstreamErrorClass {
    pub open spec fn spec_as_str(self) -> Seq<char> {
        match self {
            UpstreamErrorClass::Authentication => "authentication"@,
            UpstreamErrorClass::Catalog => "catalog"@,
            UpstreamErrorClass::Configuration => "configuration"@,
            UpstreamErrorClass::Dns => "dns"@,
            UpstreamErrorClass::Protocol => "protocol"@,
            UpstreamErrorClass::Timeout => "timeout"@,
            UpstreamErrorClass::Transport => "transport"@,
        }
    }

    pub fn as_str(self) -> (r: &'static str)
        ensures
            r@ == self.spec_as_str(),
    {
        match self {
            UpstreamErrorClass::Authentication => "authentication",
            UpstreamErrorClass::Catalog => "catalog",
            UpstreamErrorClass::Configuration => "configuration",
            UpstreamErrorClass::Dns => "dns",
            UpstreamErrorClass::Protocol => "protocol",
            UpstreamErrorClass::Timeout => "timeout",
            UpstreamErrorClass::Transport => "transport",
        }
    }

    /// The class of a dial error: name resolution, a timed-out handshake,
    /// unusable credentials, a refused protocol exchange, a broken transport,
    /// and otherwise a manifest that cannot be dialed as it stands.
    pub open spec fn spec_from_dial_error(error: DialError) -> Self {
        match error {
            DialError::ResolveNetwork | DialError::NoNetworkAddresses => UpstreamErrorClass::Dns,
            DialError::HandshakeTimeout => UpstreamErrorClass::Timeout,
            DialError::MissingAuthEnv | DialError::AuthFileRead | DialError::AuthFileTooLarge
            | DialError::AuthFileNotRegular | DialError::AuthFileInvalidUtf8
            | DialError::AuthFileEmpty | DialError::EmptyAuth | DialError::MtlsReadFailed
            | DialError::MtlsFileNotRegular | DialError::MtlsFileTooLarge
            | DialError::MtlsInvalidPem => UpstreamErrorClass::Authentication,
            DialError::Init | DialError::ListTools => UpstreamErrorClass::Protocol,
            DialError::Connect | DialError::Spawn => UpstreamErrorClass::Transport,
            _ => UpstreamErrorClass::Configuration,
        }
    }

    pub fn from_dial_error(error: DialError) -> (r: Self)
        ensures
            r == Self::spec_from_dial_error(error),
    {
        match error {
            DialError::ResolveNetwork | DialError::NoNetworkAddresses => UpstreamErrorClass::Dns,
            DialError::HandshakeTimeout => UpstreamErrorClass::Timeout,
            DialError::MissingAuthEnv | DialError::AuthFileRead | DialError::AuthFileTooLarge
            | DialError::AuthFileNotRegular | DialError::AuthFileInvalidUtf8
            | DialError::AuthFileEmpty | DialError::EmptyAuth | DialError::MtlsReadFailed
            | DialError::MtlsFileNotRegular | DialError::MtlsFileTooLarge
            | DialError::MtlsInvalidPem => UpstreamErrorClass::Authentication,
            DialError::Init | DialError::ListTools => UpstreamErrorClass::Protocol,
            DialError::Connect | DialError::Spawn => UpstreamErrorClass::Transport,
            DialError::MissingUrl | DialError::InvalidNetworkUrl | DialError::MissingCommand
            | DialError::UnsupportedAuthForTransport
            | DialError::CatalogProbeGroupsRequireIdentity
            | DialError::CatalogProbeGroupsRequirePerCall | DialError::MtlsMissingField
            | DialError::MtlsUnsupportedForTransport | DialError::MtlsClientBuild
            | DialError::HttpClientBuild
            | DialError::MtlsRequiresHttps => UpstreamErrorClass::Configuration,
        }
    }
}

/// When an upstream last worked and why it last did not.
#[derive(Clone, Copy, Debug, PartialEq, Eq, Structural)]
pub struct UpstreamRecovery {
    pub last_success_at: Option<WallTime>,
    pub last_error_class: Option<UpstreamErrorClass>,
}

impl UpstreamRecovery {
    /// Nothing known yet.
    pub fn unknown() -> (r: Self)
        ensures
            r == (UpstreamRecovery { last_success_at: None, last_error_class: None }),
    {
        UpstreamRecovery { last_success_at: None, last_error_class: None }
    }

    pub fn after_boot(
        connected_lanes: usize,
        total_lanes: usize,
        last_error_class: Option<UpstreamErrorClass>,
        wall: WallTime,
    ) -> (r: Self)
        ensures
            r.last_success_at == if connected_lanes > 0 {
                Some(wall)
            } else {
                None
            },
            r.last_error_class == if connected_lanes == total_lanes {
                None
            } else {
                last_error_class
            },
    {
        UpstreamRecovery {
            last_success_at: if connected_lanes > 0 {
                Some(wall)
            } else {
                None
            },
            last_error_class: if connected_lanes == total_lanes {
                None
            } else {
                last_error_class
            },
        }
    }

    pub open spec fn reconnected(
        self,
        connected_lanes: usize,
        total_lanes: usize,
        last_error_class: Option<UpstreamErrorClass>,
        wall: WallTime,
    ) -> Self {
        UpstreamRecovery {
            last_success_at: if connected_lanes > 0 {
                Some(wall)
            } else {
                self.last_success_at
            },
            last_error_class: if connected_lanes == total_lanes {
                None
            } else if last_error_class is Some {
                last_error_class
            } else {
                self.last_error_class
            },
        }
    }

    /// Note the outcome of a reconnect. Full capacity clears the error class;
    /// short of it the newest known class stands.
    pub fn record_reconnect(
        &mut self,
        connected_lanes: usize,
        total_lanes: usize,
        last_error_class: Option<UpstreamErrorClass>,
        wall: WallTime,
    )
        ensures
            *final(self) == old(self).reconnected(
                connected_lanes,
                total_lanes,
                last_error_class,
                wall,
            ),
    {
        if connected_lanes > 0 {
            self.last_success_at = Some(wall);
        }
        if connected_lanes == total_lanes {
            self.last_error_class = None;
        } else if last_error_class.is_some() {
            self.last_error_class = last_error_class;
        }
    }

    pub fn record_failure(&mut self, error_class: UpstreamErrorClass)
        ensures
            *final(self) == (UpstreamRecovery {
                last_error_class: Some(error_class),
                ..*old(self)
            }),
    {
        self.last_error_class = Some(error_class);
    }

    pub fn snapshot(&self) -> (r: (Option<WallTime>, Option<UpstreamErrorClass>))
        ensures
            r == (self.last_success_at, self.last_error_class),
    {
        (self.last_success_at, self.last_error_class)
    }
}

/// The state that lane counts and the breaker come down to.
pub open spec fn spec_runtime_state(
    connected_lanes: nat,
    total_lanes: nat,
    breaker: BreakerState,
) -> UpstreamRuntimeState {
    if connected_lanes == 0 || breaker == BreakerState::Open {
        UpstreamRuntimeState::Disconnected
    } else if connected_lanes >= total_lanes && breaker == BreakerState::Closed {
        UpstreamRuntimeState::Connected
    } else {
        UpstreamRuntimeState::Degraded
    }
}

pub fn runtime_state(
    connected_lanes: usize,
    total_lanes: usize,
    breaker: BreakerState,
) -> (r: UpstreamRuntimeState)
    ensures
        r == spec_runtime_state(connected_lanes as nat, total_lanes as nat, breaker),
{
    if connected_lanes == 0 || breaker == BreakerState::Open {
        UpstreamRuntimeState::Disconnected
    } else if connected_lanes < total_lanes || breaker != BreakerState::Closed {
        UpstreamRuntimeState::Degraded
    } else {
        UpstreamRuntimeState::Connected
    }
}

/// The tools clients are shown: those the first connected lane publishes,
/// without the quarantined ones where the local quarantine decides.
pub open spec fn visible_tools(
    lanes: Lanes,
    quarantined: Seq<Seq<char>>,
    local_quarantine_authoritative: bool,
) -> Seq<Descriptor> {
    match first_connected(lanes) {
        Some(conn) => conn.tools.filter(
            |tool: Descriptor|
                !local_quarantine_authoritative || !quarantined.contains(tool.name),
        ),
        None => Seq::empty(),
    }
}

/// The published view of an upstream.
pub fn published_tools(
    lanes: &Vec<Option<Connection>>,
    quarantined: &Vec<String>,
    local_quarantine_authoritative: bool,
) -> (r: Vec<Tool>)
    ensures
        r.deep_view() == visible_tools(
            lanes.deep_view(),
            quarantined.deep_view(),
            local_quarantine_authoritative,
        ),
{
    let mut out: Vec<Tool> = Vec::new();
    let ghost shown = |tool: Descriptor|
        !local_quarantine_authoritative || !quarantined.deep_view().contains(tool.name);
    let k = match find_connected(lanes) {
        Some(k) => k,
        None => {
            proof {
                assert(out.deep_view() =~= Seq::<Descriptor>::empty());
            }
            return out;
        },
    };
    if let Some(conn) = &lanes[k] {
        let ghost all = conn.tools.deep_view();
        let mut i: usize = 0;
        proof {
            assert(all.take(0).filter(shown) =~= Seq::<Descriptor>::empty()) by {
                reveal(Seq::filter);
            }
            assert(out.deep_view() =~= Seq::<Descriptor>::empty());
        }
        while i < conn.tools.len()
            invariant
                i <= conn.tools.len(),
                all == conn.tools.deep_view(),
                shown == (|tool: Descriptor|
                    !local_quarantine_authoritative || !quarantined.deep_view().contains(
                        tool.name,
                    )),
                out.deep_view() == all.take(i as int).filter(shown),
            decreases conn.tools.len() - i,
        {
            proof {
                let next = all.take(i + 1);
                assert(next.drop_last() =~= all.take(i as int));
                assert(next.last() == all[i as int]);
                reveal(Seq::filter);
            }
            if !local_quarantine_authoritative || !has_name(
                quarantined,
                conn.tools[i].name.as_str(),
            ) {
                let ghost before = out.deep_view();
                out.push(conn.tools[i].dup());
                proof {
                    assert(out.deep_view() =~= before.push(all[i as int]));
                }
            }
            i = i + 1;
        }
        proof {
            assert(all.take(all.len() as int) =~= all);
        }
    }
    out
}

/// The refusals that one lane serves: those of tools it publishes and that no
/// quarantine withholds.
pub open spec fn lane_refusals(lane: Option<LaneModel>, quarantined: Seq<Seq<char>>) -> Seq<
    Refusal,
> {
    match lane {
        Some(conn) => conn.rejected_output_schemas.filter(
            |row: Refusal| carries(conn.tools, row.tool) && !quarantined.contains(row.tool),
        ),
        None => Seq::empty(),
    }
}

/// The refusals that all lanes serve, lane by lane.
pub open spec fn all_refusals(lanes: Lanes, quarantined: Seq<Seq<char>>) -> Seq<Refusal>
    decreases lanes.len(),
{
    if lanes.len() == 0 {
        Seq::empty()
    } else {
        all_refusals(lanes.drop_last(), quarantined) + lane_refusals(lanes.last(), quarantined)
    }
}

/// The first refusal of a tool.
pub open spec fn first_refusal(rows: Seq<Refusal>, tool: Seq<char>) -> Option<Refusal>
    decreases rows.len(),
{
    if rows.len() == 0 {
        None
    } else if rows[0].tool == tool {
        Some(rows[0])
    } else {
        first_refusal(rows.drop_first(), tool)
    }
}

/// The list holds one row per tool of `rows`, the first one, ordered by tool.
pub open spec fn one_row_per_tool(served: Seq<Refusal>, rows: Seq<Refusal>) -> bool {
    &&& lists_exactly(
        served.map_values(|row: Refusal| row.tool),
        Set::new(|tool: Seq<char>| lists(rows, tool)),
    )
    &&& forall|i: int|
        0 <= i < served.len() ==> first_refusal(rows, (#[trigger] served[i]).tool) == Some(
            served[i],
        )
}

/// What an upstream publishes with a refused output schema, and whether any
/// lane was up to tell. With every lane down the silence is the transport being
/// gone, not a decision to withhold a tool.
#[derive(Debug, PartialEq, Eq)]
pub struct ServedRefusals {
    pub served: Vec<RejectedOutputSchema>,
    pub live: bool,
}

fn push_lane_refusals(
    conn: &Connection,
    quarantined: &Vec<String>,
    rows: &mut Vec<RejectedOutputSchema>,
)
    ensures
        final(rows).deep_view() == old(rows).deep_view() + lane_refusals(
            Some(conn.deep_view()),
            quarantined.deep_view(),
        ),
{
    let ghost start = rows.deep_view();
    let ghost tools = conn.tools.deep_view();
    let ghost all = conn.rejected_output_schemas.deep_view();
    let ghost keep = |row: Refusal|
        carries(tools, row.tool) && !quarantined.deep_view().contains(row.tool);
    let mut i: usize = 0;
    proof {
        assert(all.take(0).filter(keep) =~= Seq::<Refusal>::empty()) by {
            reveal(Seq::filter);
        }
        assert(rows.deep_view() =~= start + all.take(0).filter(keep));
    }
    while i < conn.rejected_output_schemas.len()
        invariant
            i <= conn.rejected_output_schemas.len(),
            tools == conn.tools.deep_view(),
            all == conn.rejected_output_schemas.deep_view(),
            keep == (|row: Refusal|
                carries(tools, row.tool) && !quarantined.deep_view().contains(row.tool)),
            rows.deep_view() == start + all.take(i as int).filter(keep),
        decreases conn.rejected_output_schemas.len() - i,
    {
        let row = &conn.rejected_output_schemas[i];
        proof {
            let next = all.take(i + 1);
            assert(next.drop_last() =~= all.take(i as int));
            assert(next.last() == all[i as int]);
            reveal(Seq::filter);
        }
        if catalog_carries(&conn.tools, &row.tool) && !has_name(quarantined, row.tool.as_str()) {
            let ghost before = rows.deep_view();
            let ghost kept = all.take(i as int).filter(keep);
            rows.push(row.dup());
            proof {
                assert(rows.deep_view() =~= before.push(all[i as int]));
                assert(before.push(all[i as int]) =~= start + kept.push(all[i as int]));
            }
        }
        i = i + 1;
    }
    proof {
        assert(all.take(all.len() as int) =~= all);
    }
}

fn find_first_refusal(rows: &Vec<RejectedOutputSchema>, tool: &String) -> (r: Option<usize>)
    ensures
        match r {
            Some(i) => i < rows.len() && first_refusal(rows.deep_view(), tool@) == Some(
                rows.deep_view()[i as int],
            ) && rows.deep_view()[i as int].tool == tool@,
            None => !lists(rows.deep_view(), tool@),
        },
{
    let mut i: usize = 0;
    proof {
        assert(rows.deep_view().skip(0) =~= rows.deep_view());
    }
    while i < rows.len()
        invariant
            i <= rows.len(),
            first_refusal(rows.deep_view(), tool@) == first_refusal(
                rows.deep_view().skip(i as int),
                tool@,
            ),
            forall|j: int| 0 <= j < i ==> (#[trigger] rows.deep_view()[j]).tool != tool@,
        decreases rows.len() - i,
    {
        proof {
            let here = rows.deep_view().skip(i as int);
            assert(here[0] == rows.deep_view()[i as int]);
            assert(here.drop_first() =~= rows.deep_view().skip(i + 1));
        }
        if rows[i].tool == *tool {
            return Some(i);
        }
        i = i + 1;
    }
    None
}

/// Every output-schema refusal served by any connected lane, one per tool and
/// ordered by tool. Lanes may diverge after a partial heal, so this is a union:
/// a refusal on any live lane is one the operator has to see. Where lanes
/// disagree about a tool, the first lane's observation stands.
pub fn rejected_union(lanes: &Vec<Option<Connection>>, quarantined: &Vec<String>) -> (r:
    ServedRefusals)
    ensures
        one_row_per_tool(
            r.served.deep_view(),
            all_refusals(lanes.deep_view(), quarantined.deep_view()),
        ),
        r.live == some_connected(lanes.deep_view()),
{
    let mut rows: Vec<RejectedOutputSchema> = Vec::new();
    let mut live = false;
    let mut k: usize = 0;
    proof {
        assert(lanes.deep_view().take(0) =~= Seq::empty());
        assert(rows.deep_view() =~= Seq::<Refusal>::empty());
    }
    while k < lanes.len()
        invariant
            k <= lanes.len(),
            rows.deep_view() == all_refusals(
                lanes.deep_view().take(k as int),
                quarantined.deep_view(),
            ),
            live <==> exists|j: int| 0 <= j < k && (#[trigger] lanes.deep_view()[j]) is Some,
        decreases lanes.len() - k,
    {
        let ghost before = rows.deep_view();
        proof {
            let next = lanes.deep_view().take(k + 1);
            assert(next.drop_last() =~= lanes.deep_view().take(k as int));
            assert(next.last() == lanes.deep_view()[k as int]);
        }
        if let Some(conn) = &lanes[k] {
            proof {
                assert(lanes.deep_view()[k as int] == Some(conn.deep_view()));
            }
            push_lane_refusals(conn, quarantined, &mut rows);
            live = true;
        } else {
            proof {
                assert(before + Seq::<Refusal>::empty() =~= before);
            }
        }
        k = k + 1;
    }
    proof {
        assert(lanes.deep_view().take(lanes.len() as int) =~= lanes.deep_view());
    }
    ServedRefusals { served: first_row_per_tool(&rows), live }
}

fn first_row_per_tool(rows: &Vec<RejectedOutputSchema>) -> (served: Vec<RejectedOutputSchema>)
    ensures
        one_row_per_tool(served.deep_view(), rows.deep_view()),
{
    let ghost all = rows.deep_view();
    let mut tools: Vec<String> = Vec::new();
    let mut i: usize = 0;
    while i < rows.len()
        invariant
            i <= rows.len(),
            all == rows.deep_view(),
            strictly_sorted(tools.deep_view()),
            forall|tool: Seq<char>| #[trigger]
                tools.deep_view().contains(tool) <==> exists|j: int|
                    0 <= j < i && (#[trigger] all[j]).tool == tool,
        decreases rows.len() - i,
    {
        insert_unique(&mut tools, &rows[i].tool);
        proof {
            assert(all[i as int].tool == rows@[i as int].tool@);
        }
        i = i + 1;
    }
    let mut served: Vec<RejectedOutputSchema> = Vec::new();
    let mut t: usize = 0;
    while t < tools.len()
        invariant
            t <= tools.len(),
            all == rows.deep_view(),
            served.len() == t,
            forall|tool: Seq<char>| #[trigger]
                tools.deep_view().contains(tool) <==> lists(all, tool),
            forall|j: int|
                0 <= j < t ==> (#[trigger] served.deep_view()[j]).tool == tools.deep_view()[j],
            forall|j: int|
                0 <= j < t ==> first_refusal(all, (#[trigger] served.deep_view()[j]).tool) == Some(
                    served.deep_view()[j],
                ),
        decreases tools.len() - t,
    {
        proof {
            assert(tools.deep_view()[t as int] == tools@[t as int]@);
            assert(tools.deep_view().contains(tools@[t as int]@));
        }
        if let Some(at) = find_first_refusal(rows, &tools[t]) {
            let ghost before = served.deep_view();
            served.push(rows[at].dup());
            proof {
                assert(served.deep_view() =~= before.push(all[at as int]));
            }
        }
        t = t + 1;
    }
    proof {
        assert(served.deep_view().map_values(|row: Refusal| row.tool) =~= tools.deep_view());
    }
    served
}

/// Whether some lane offers clients a tool whose input schema a strict client
/// cannot register: the lane publishes it and no quarantine withholds it.
pub open spec fn offers_unregisterable(
    lanes: Lanes,
    quarantined: Seq<Seq<char>>,
    tool: Seq<char>,
) -> bool {
    exists|k: int|
        0 <= k < lanes.len() && (#[trigger] lanes[k]) is Some
            && lanes[k]->0.unregisterable_input_schemas.contains(tool) && carries(
            lanes[k]->0.tools,
            tool,
        ) && !quarantined.contains(tool)
}

/// Names of the tools offered to clients that no strict client can register.
pub fn unregisterable_union(lanes: &Vec<Option<Connection>>, quarantined: &Vec<String>) -> (r: Vec<
    String,
>)
    ensures
        lists_exactly(
            r.deep_view(),
            Set::new(
                |tool: Seq<char>|
                    offers_unregisterable(lanes.deep_view(), quarantined.deep_view(), tool),
            ),
        ),
{
    let ghost all = lanes.deep_view();
    let ghost barred = quarantined.deep_view();
    let mut out: Vec<String> = Vec::new();
    let mut k: usize = 0;
    while k < lanes.len()
        invariant
            k <= lanes.len(),
            all == lanes.deep_view(),
            barred == quarantined.deep_view(),
            strictly_sorted(out.deep_view()),
            forall|tool: Seq<char>| #[trigger]
                out.deep_view().contains(tool) <==> offers_unregisterable(
                    all.take(k as int),
                    barred,
                    tool,
                ),
        decreases lanes.len() - k,
    {
        let ghost before = out.deep_view();
        if let Some(conn) = &lanes[k] {
            insert_unregisterable(conn, quarantined, &mut out);
        }
        proof {
            assert forall|tool: Seq<char>| #[trigger]
                out.deep_view().contains(tool) <==> offers_unregisterable(
                    all.take(k + 1),
                    barred,
                    tool,
                ) by {
                let here = all.take(k + 1);
                let earlier = all.take(k as int);
                assert(before.contains(tool) <==> offers_unregisterable(earlier, barred, tool));
                if offers_unregisterable(earlier, barred, tool) {
                    let j = choose|j: int|
                        0 <= j < earlier.len() && (#[trigger] earlier[j]) is Some
                            && earlier[j]->0.unregisterable_input_schemas.contains(tool) && carries(
                            earlier[j]->0.tools,
                            tool,
                        ) && !barred.contains(tool);
                    assert(here[j] == earlier[j]);
                }
                if offers_unregisterable(here, barred, tool) {
                    let j = choose|j: int|
                        0 <= j < here.len() && (#[trigger] here[j]) is Some
                            && here[j]->0.unregisterable_input_schemas.contains(tool) && carries(
                            here[j]->0.tools,
                            tool,
                        ) && !barred.contains(tool);
                    if j < k {
                        assert(here[j] == earlier[j]);
                    }
                }
                assert(here[k as int] == all[k as int]);
            }
        }
        k = k + 1;
    }
    proof {
        assert(all.take(all.len() as int) =~= all);
    }
    out
}

fn insert_unregisterable(conn: &Connection, quarantined: &Vec<String>, out: &mut Vec<String>)
    requires
        strictly_sorted(old(out).deep_view()),
    ensures
        strictly_sorted(final(out).deep_view()),
        forall|tool: Seq<char>| #[trigger]
            final(out).deep_view().contains(tool) <==> old(out).deep_view().contains(tool) || (
            conn.deep_view().unregisterable_input_schemas.contains(tool) && carries(
                conn.deep_view().tools,
                tool,
            ) && !quarantined.deep_view().contains(tool)),
{
    let ghost start = out.deep_view();
    let ghost names = conn.unregisterable_input_schemas.deep_view();
    let mut i: usize = 0;
    while i < conn.unregisterable_input_schemas.len()
        invariant
            i <= conn.unregisterable_input_schemas.len(),
            names == conn.unregisterable_input_schemas.deep_view(),
            strictly_sorted(out.deep_view()),
            forall|tool: Seq<char>| #[trigger]
                out.deep_view().contains(tool) <==> start.contains(tool) || (names.take(
                    i as int,
                ).contains(tool) && carries(conn.deep_view().tools, tool)
                    && !quarantined.deep_view().contains(tool)),
        decreases conn.unregisterable_input_schemas.len() - i,
    {
        let tool = &conn.unregisterable_input_schemas[i];
        proof {
            let earlier = names.take(i as int);
            let next = names.take(i + 1);
            assert(next =~= earlier.push(tool@));
            assert forall|other: Seq<char>| #[trigger]
                next.contains(other) <==> earlier.contains(other) || other == tool@ by {
                if earlier.contains(other) {
                    let j = choose|j: int| 0 <= j < earlier.len() && earlier[j] == other;
                    assert(next[j] == other);
                }
                assert(next[i as int] == tool@);
                if next.contains(other) && other != tool@ {
                    let j = choose|j: int| 0 <= j < next.len() && next[j] == other;
                    assert(earlier[j] == other);
                }
            }
        }
        if catalog_carries(&conn.tools, tool) && !has_name(quarantined, tool.as_str()) {
            insert_unique(out, tool);
        }
        i = i + 1;
    }
    proof {
        assert(names.take(names.len() as int) =~= names);
    }
}

/// First position of a label.
pub open spec fn label_position(labels: Seq<Seq<char>>, label: Seq<char>) -> Option<nat>
    decreases labels.len(),
{
    if labels.len() == 0 {
        None
    } else {
        match label_position(labels.drop_last(), label) {
            Some(i) => Some(i),
            None => if labels.last() == label {
                Some((labels.len() - 1) as nat)
            } else {
                None
            },
        }
    }
}

fn find_label(labels: &Vec<String>, label: &str) -> (r: Option<usize>)
    ensures
        match r {
            Some(i) => i < labels.len() && label_position(labels.deep_view(), label@) == Some(
                i as nat,
            ),
            None => label_position(labels.deep_view(), label@) is None,
        },
{
    let mut i: usize = 0;
    let ghost all = labels.deep_view();
    while i < labels.len()
        invariant
            i <= labels.len(),
            all == labels.deep_view(),
            label_position(all.take(i as int), label@) is None,
        decreases labels.len() - i,
    {
        proof {
            let next = all.take(i + 1);
            assert(next.drop_last() =~= all.take(i as int));
            assert(next.last() == all[i as int]);
        }
        if crate::names::text_eq(labels[i].as_str(), label) {
            proof {
                lemma_label_position_stable(all, i + 1, label@);
            }
            return Some(i);
        }
        i = i + 1;
    }
    proof {
        assert(all.take(all.len() as int) =~= all);
    }
    None
}

proof fn lemma_label_position_stable(labels: Seq<Seq<char>>, n: int, label: Seq<char>)
    requires
        0 <= n <= labels.len(),
        label_position(labels.take(n), label) is Some,
    ensures
        label_position(labels, label) == label_position(labels.take(n), label),
    decreases labels.len() - n,
{
    if n == labels.len() {
        assert(labels.take(n) =~= labels);
    } else {
        assert(labels.take(n + 1).drop_last() =~= labels.take(n));
        lemma_label_position_stable(labels, n + 1, label);
    }
}

/// The position at which a negotiated version is counted: its own label, or
/// the catch-all label for versions outside the known set.
pub open spec fn generation_slot(generations: Seq<Seq<char>>, version: Seq<char>) -> Option<nat> {
    match label_position(generations, version) {
        Some(i) => Some(i),
        None => label_position(generations, "other"@),
    }
}

/// The position at which a lane is counted.
pub open spec fn lane_generation(generations: Seq<Seq<char>>, lane: Option<LaneModel>) -> Option<
    nat,
> {
    match lane {
        Some(conn) => match conn.negotiated_protocol {
            Some(version) => generation_slot(generations, version),
            None => None,
        },
        None => None,
    }
}

/// Number of lanes counted at one position.
pub open spec fn lanes_at(lanes: Lanes, generations: Seq<Seq<char>>, at: nat) -> nat
    decreases lanes.len(),
{
    if lanes.len() == 0 {
        0
    } else {
        lanes_at(lanes.drop_last(), generations, at) + if lane_generation(
            generations,
            lanes.last(),
        ) == Some(at) {
            1nat
        } else {
            0nat
        }
    }
}

/// Count the connected lanes per protocol generation. Every label of the closed
/// set gets a count, so a migration zeroes the departed generation.
pub fn protocol_generation_counts(lanes: &Vec<Option<Connection>>, generations: &Vec<String>) -> (r:
    Vec<usize>)
    ensures
        r.len() == generations.len(),
        forall|i: int|
            0 <= i < r.len() ==> (#[trigger] r@[i]) == lanes_at(
                lanes.deep_view(),
                generations.deep_view(),
                i as nat,
            ),
{
    let mut counts: Vec<usize> = Vec::new();
    let mut i: usize = 0;
    while i < generations.len()
        invariant
            i <= generations.len(),
            counts.len() == i,
            forall|j: int| 0 <= j < i ==> (#[trigger] counts@[j]) == 0,
        decreases generations.len() - i,
    {
        counts.push(0);
        i = i + 1;
    }
    let ghost all = lanes.deep_view();
    let ghost labels = generations.deep_view();
    let mut k: usize = 0;
    proof {
        assert(all.take(0) =~= Seq::empty());
    }
    while k < lanes.len()
        invariant
            k <= lanes.len(),
            all == lanes.deep_view(),
            labels == generations.deep_view(),
            counts.len() == generations.len(),
            forall|j: int|
                0 <= j < counts.len() ==> (#[trigger] counts@[j]) == lanes_at(
                    all.take(k as int),
                    labels,
                    j as nat,
                ) && counts@[j] <= k,
        decreases lanes.len() - k,
    {
        proof {
            let next = all.take(k + 1);
            assert(next.drop_last() =~= all.take(k as int));
            assert(next.last() == all[k as int]);
        }
        let ghost before = counts@;
        if let Some(conn) = &lanes[k] {
            if let Some(version) = &conn.negotiated_protocol {
                let slot = match find_label(generations, version.as_str()) {
                    Some(at) => Some(at),
                    None => find_label(generations, "other"),
                };
                if let Some(at) = slot {
                    proof {
                        assert(before[at as int] <= k);
                    }
                    counts.set(at, counts[at] + 1);
                }
            }
        }
        proof {
            assert forall|j: int| 0 <= j < counts.len() implies (#[trigger] counts@[j]) == lanes_at(
                all.take(k + 1),
                labels,
                j as nat,
            ) && counts@[j] <= k + 1 by {
                assert(before[j] == lanes_at(all.take(k as int), labels, j as nat));
            }
        }
        k = k + 1;
    }
    proof {
        assert(all.take(all.len() as int) =~= all);
    }
    counts
}

/// The names that clearing a quarantine releases: those that no durable review
/// blocks.
pub open spec fn released_names(quarantined: Seq<Seq<char>>, durable: Seq<Seq<char>>) -> Set<
    Seq<char>,
> {
    quarantined.to_set().difference(durable.to_set())
}

fn count_released(quarantined: &Vec<String>, durable: &Vec<String>) -> (n: usize)
    ensures
        n == released_names(quarantined.deep_view(), durable.deep_view()).len(),
{
    let ghost all = quarantined.deep_view();
    let mut released: Vec<String> = Vec::new();
    let mut i: usize = 0;
    while i < quarantined.len()
        invariant
            i <= quarantined.len(),
            all == quarantined.deep_view(),
            strictly_sorted(released.deep_view()),
            forall|name: Seq<char>| #[trigger]
                released.deep_view().contains(name) <==> all.take(i as int).contains(name)
                    && !durable.deep_view().contains(name),
        decreases quarantined.len() - i,
    {
        proof {
            lemma_take_contains(all, i as int);
        }
        if !has_name(durable, quarantined[i].as_str()) {
            insert_unique(&mut released, &quarantined[i]);
        }
        i = i + 1;
    }
    proof {
        assert(all.take(all.len() as int) =~= all);
        lemma_strict_has_no_repeats(released.deep_view());
        released.deep_view().unique_seq_to_set();
        assert(released.deep_view().to_set() =~= released_names(all, durable.deep_view()));
        assert(released.deep_view().len() == released.len());
    }
    released.len()
}

/// Clear process-local quarantines. What durable reviews block stays blocked,
/// and nothing else does. Returns how many names were released.
pub fn clear_quarantine(quarantined: &mut Vec<String>, durable: &Vec<String>) -> (released: usize)
    ensures
        lists_exactly(final(quarantined).deep_view(), durable.deep_view().to_set()),
        released == released_names(old(quarantined).deep_view(), durable.deep_view()).len(),
{
    let released: usize = count_released(quarantined, durable);
    let mut remaining = sort_unique(durable);
    std::mem::swap(quarantined, &mut remaining);
    released
}

/// Health of one upstream at one moment.
#[derive(Debug, PartialEq, Eq)]
pub struct UpstreamHealth {
    pub name: String,
    /// The state to show, rather than one derived from lanes and breaker anew.
    pub runtime_state: UpstreamRuntimeState,
    /// Most recent successful handshake on any lane.
    pub last_success_at: Option<WallTime>,
    pub last_error_class: Option<UpstreamErrorClass>,
    /// Next reconnect deadline; absent while no recovery is scheduled.
    pub next_retry_at: Option<WallTime>,
    /// At least one lane is connected; this implies neither full capacity nor a
    /// closed breaker.
    pub connected: bool,
    pub breaker: BreakerState,
    pub connected_lanes: usize,
    pub total_lanes: usize,
    /// Tools shown to clients, quarantine applied.
    pub published_tool_count: usize,
    pub quarantined_tool_count: usize,
    /// Tools published without the output schema the upstream advertised.
    pub rejected_output_schema_count: usize,
    /// Protocol generations negotiated by connected lanes, in order, each once.
    pub protocol_versions: Vec<String>,
}

/// Some connected lane negotiated this protocol version.
pub open spec fn speaks(lanes: Lanes, version: Seq<char>) -> bool {
    exists|k: int|
        0 <= k < lanes.len() && (#[trigger] lanes[k]) is Some && lanes[k]->0.negotiated_protocol
            == Some(version)
}

fn negotiated_versions(lanes: &Vec<Option<Connection>>) -> (r: Vec<String>)
    ensures
        lists_exactly(
            r.deep_view(),
            Set::new(|version: Seq<char>| speaks(lanes.deep_view(), version)),
        ),
{
    let ghost all = lanes.deep_view();
    let mut out: Vec<String> = Vec::new();
    let mut k: usize = 0;
    while k < lanes.len()
        invariant
            k <= lanes.len(),
            all == lanes.deep_view(),
            strictly_sorted(out.deep_view()),
            forall|version: Seq<char>| #[trigger]
                out.deep_view().contains(version) <==> speaks(all.take(k as int), version),
        decreases lanes.len() - k,
    {
        let ghost before = out.deep_view();
        if let Some(conn) = &lanes[k] {
            if let Some(version) = &conn.negotiated_protocol {
                insert_unique(&mut out, version);
            }
        }
        proof {
            let earlier = all.take(k as int);
            let here = all.take(k + 1);
            assert(here[k as int] == all[k as int]);
            assert forall|version: Seq<char>| #[trigger]
                out.deep_view().contains(version) <==> speaks(here, version) by {
                assert(before.contains(version) <==> speaks(earlier, version));
                if speaks(earlier, version) {
                    let j = choose|j: int|
                        0 <= j < earlier.len() && (#[trigger] earlier[j]) is Some
                            && earlier[j]->0.negotiated_protocol == Some(version);
                    assert(here[j] == earlier[j]);
                }
                if speaks(here, version) {
                    let j = choose|j: int|
                        0 <= j < here.len() && (#[trigger] here[j]) is Some
                            && here[j]->0.negotiated_protocol == Some(version);
                    if j < k {
                        assert(here[j] == earlier[j]);
                    }
                }
            }
        }
        k = k + 1;
    }
    proof {
        assert(all.take(all.len() as int) =~= all);
    }
    out
}

/// The health is that of an upstream in this state.
pub open spec fn describes(
    health: UpstreamHealth,
    name: Seq<char>,
    lanes: Lanes,
    quarantined: Seq<Seq<char>>,
    breaker: BreakerState,
    recovery: UpstreamRecovery,
    next_retry_at: Option<WallTime>,
) -> bool {
    &&& health.name@ == name
    &&& health.runtime_state == spec_runtime_state(connected_count(lanes), lanes.len(), breaker)
    &&& health.last_success_at == recovery.last_success_at
    &&& health.last_error_class == recovery.last_error_class
    &&& health.next_retry_at == next_retry_at
    &&& health.connected == (connected_count(lanes) > 0)
    &&& health.breaker == breaker
    &&& health.connected_lanes == connected_count(lanes)
    &&& health.total_lanes == lanes.len()
    &&& health.published_tool_count == visible_tools(lanes, quarantined, true).len()
    &&& health.quarantined_tool_count == quarantined.len()
    &&& exists|served: Seq<Refusal>|
        health.rejected_output_schema_count == served.len() && #[trigger] one_row_per_tool(
            served,
            all_refusals(lanes, quarantined),
        )
    &&& lists_exactly(
        health.protocol_versions.deep_view(),
        Set::new(|version: Seq<char>| speaks(lanes, version)),
    )
}

/// Assemble the health of one upstream from one consistent view of it.
pub fn health_of(
    name: &String,
    lanes: &Vec<Option<Connection>>,
    quarantined: &Vec<String>,
    breaker: BreakerState,
    recovery: &UpstreamRecovery,
    next_retry_at: Option<WallTime>,
) -> (r: UpstreamHealth)
    ensures
        describes(
            r,
            name@,
            lanes.deep_view(),
            quarantined.deep_view(),
            breaker,
            *recovery,
            next_retry_at,
        ),
{
    let connected_lanes: usize = count_connected(lanes);
    let total_lanes: usize = lanes.len();
    let published = published_tools(lanes, quarantined, true);
    let refusals = rejected_union(lanes, quarantined);
    let (last_success_at, last_error_class) = recovery.snapshot();
    proof {
        assert(published.deep_view().len() == published.len());
        assert(lanes.deep_view().len() == lanes.len());
        assert(quarantined.deep_view().len() == quarantined.len());
        assert(refusals.served.deep_view().len() == refusals.served.len());
    }
    UpstreamHealth {
        name: name.clone(),
        runtime_state: runtime_state(connected_lanes, total_lanes, breaker),
        last_success_at,
        last_error_class,
        next_retry_at,
        connected: connected_lanes > 0,
        breaker,
        connected_lanes,
        total_lanes,
        published_tool_count: published.len(),
        quarantined_tool_count: quarantined.len(),
        rejected_output_schema_count: refusals.served.len(),
        protocol_versions: negotiated_versions(lanes),
    }
}

/// An upstream is down where no lane is connected or its breaker is open, whole
/// where every lane is connected and the breaker is closed, and degraded
/// otherwise.
pub proof fn states_follow_lanes_and_breaker(connected: nat, total: nat, breaker: BreakerState)
    requires
        connected <= total,
    ensures
        connected == 0 || breaker == BreakerState::Open ==> spec_runtime_state(
            connected,
            total,
            breaker,
        ) == UpstreamRuntimeState::Disconnected,
        0 < connected && connected < total && breaker != BreakerState::Open ==> spec_runtime_state(
            connected,
            total,
            breaker,
        ) == UpstreamRuntimeState::Degraded,
        0 < connected && breaker == BreakerState::HalfOpen ==> spec_runtime_state(
            connected,
            total,
            breaker,
        ) == UpstreamRuntimeState::Degraded,
        0 < connected && connected == total && breaker == BreakerState::Closed
            ==> spec_runtime_state(connected, total, breaker) == UpstreamRuntimeState::Connected,
{
}

/// A failed dial is classed by what failed: name resolution, the handshake's
/// time, credentials, the protocol, the transport, or the configuration.
pub proof fn dial_errors_are_classed_by_cause(error: DialError)
    ensures
        UpstreamErrorClass::spec_from_dial_error(error) == UpstreamErrorClass::Dns <==> error
            == DialError::ResolveNetwork || error == DialError::NoNetworkAddresses,
        UpstreamErrorClass::spec_from_dial_error(error) == UpstreamErrorClass::Timeout <==> error
            == DialError::HandshakeTimeout,
        UpstreamErrorClass::spec_from_dial_error(error) == UpstreamErrorClass::Protocol <==> error
            == DialError::Init || error == DialError::ListTools,
        UpstreamErrorClass::spec_from_dial_error(error) == UpstreamErrorClass::Transport <==> error
            == DialError::Connect || error == DialError::Spawn,
        UpstreamErrorClass::spec_from_dial_error(error) == UpstreamErrorClass::Configuration
            <==> error == DialError::MissingUrl || error == DialError::InvalidNetworkUrl || error
            == DialError::MissingCommand || error == DialError::UnsupportedAuthForTransport || error
            == DialError::CatalogProbeGroupsRequireIdentity || error
            == DialError::CatalogProbeGroupsRequirePerCall || error == DialError::MtlsMissingField
            || error == DialError::MtlsUnsupportedForTransport || error
            == DialError::MtlsClientBuild || error == DialError::HttpClientBuild || error
            == DialError::MtlsRequiresHttps,
        UpstreamErrorClass::spec_from_dial_error(error) != UpstreamErrorClass::Catalog,
{
}

/// A reconnect that brings up a lane is a success at that moment; it clears the
/// error where every lane is up, and otherwise keeps the newest error there is.
pub proof fn reconnects_are_recorded(
    recovery: UpstreamRecovery,
    connected: usize,
    total: usize,
    class: Option<UpstreamErrorClass>,
    wall: WallTime,
)
    ensures
        ({
            let after = recovery.reconnected(connected, total, class, wall);
            &&& connected > 0 ==> after.last_success_at == Some(wall)
            &&& connected == 0 ==> after.last_success_at == recovery.last_success_at
            &&& connected == total ==> after.last_error_class is None
            &&& connected != total && class is Some ==> after.last_error_class == class
            &&& connected != total && class is None ==> after.last_error_class
                == recovery.last_error_class
        }),
{
}

/// Clients see what the first connected lane publishes, less what a quarantine
/// that counts withholds, in the published order; without a connected lane they
/// see nothing.
pub proof fn clients_see_the_published_less_the_quarantined(
    lanes: Lanes,
    quarantined: Seq<Seq<char>>,
    local: bool,
    k: int,
    tool: Descriptor,
)
    requires
        0 <= k <= lanes.len(),
        forall|j: int| 0 <= j < k ==> (#[trigger] lanes[j]) is None,
        k < lanes.len() ==> lanes[k] is Some,
    ensures
        visible_tools(lanes, quarantined, local).contains(tool) <==> k < lanes.len()
            && lanes[k]->0.tools.contains(tool) && (!local || !quarantined.contains(tool.name)),
        k < lanes.len() && (!local || forall|i: int|
            0 <= i < lanes[k]->0.tools.len() ==> !quarantined.contains(
                (#[trigger] lanes[k]->0.tools[i]).name,
            )) ==> visible_tools(lanes, quarantined, local) == lanes[k]->0.tools,
{
    crate::lane::the_first_connected_lane_speaks(lanes, k);
    if k < lanes.len() {
        let tools = lanes[k]->0.tools;
        let keep = |tool: Descriptor| !local || !quarantined.contains(tool.name);
        let kept = tools.filter(keep);
        if kept.contains(tool) {
            let at = choose|at: int| 0 <= at < kept.len() && kept[at] == tool;
            tools.lemma_filter_pred(keep, at);
            tools.lemma_filter_contains_rev(keep, kept[at]);
        }
        if tools.contains(tool) && keep(tool) {
            let i = choose|i: int| 0 <= i < tools.len() && tools[i] == tool;
            tools.lemma_filter_contains(keep, i);
        }
        if !local || forall|i: int|
            0 <= i < tools.len() ==> !quarantined.contains((#[trigger] tools[i]).name) {
            lemma_filter_of_all(tools, keep);
        }
    }
}

proof fn lemma_lane_refusals(lane: Option<LaneModel>, quarantined: Seq<Seq<char>>, row: Refusal)
    ensures
        lane_refusals(lane, quarantined).contains(row) <==> lane is Some
            && lane->0.rejected_output_schemas.contains(row) && carries(lane->0.tools, row.tool)
            && !quarantined.contains(row.tool),
{
    if lane is Some {
        let conn = lane->0;
        let rows = conn.rejected_output_schemas;
        let keep = |row: Refusal| carries(conn.tools, row.tool) && !quarantined.contains(row.tool);
        let kept = rows.filter(keep);
        if kept.contains(row) {
            let at = choose|at: int| 0 <= at < kept.len() && kept[at] == row;
            rows.lemma_filter_pred(keep, at);
            rows.lemma_filter_contains_rev(keep, kept[at]);
        }
        if rows.contains(row) && keep(row) {
            let i = choose|i: int| 0 <= i < rows.len() && rows[i] == row;
            rows.lemma_filter_contains(keep, i);
        }
    }
}

/// A refused output schema counts exactly where a connected lane refused it, that
/// lane publishes the tool, and no quarantine names the tool.
pub proof fn refusals_of_served_tools_count(
    lanes: Lanes,
    quarantined: Seq<Seq<char>>,
    row: Refusal,
)
    ensures
        all_refusals(lanes, quarantined).contains(row) <==> exists|k: int|
            0 <= k < lanes.len() && (#[trigger] lanes[k]) is Some
                && lanes[k]->0.rejected_output_schemas.contains(row) && carries(
                lanes[k]->0.tools,
                row.tool,
            ) && !quarantined.contains(row.tool),
    decreases lanes.len(),
{
    if lanes.len() > 0 {
        let front = lanes.drop_last();
        let earlier = all_refusals(front, quarantined);
        let here = lane_refusals(lanes.last(), quarantined);
        let whole = all_refusals(lanes, quarantined);
        refusals_of_served_tools_count(front, quarantined, row);
        lemma_lane_refusals(lanes.last(), quarantined, row);
        assert(lanes[lanes.len() - 1] == lanes.last());
        if whole.contains(row) {
            let i = choose|i: int| 0 <= i < whole.len() && whole[i] == row;
            if i < earlier.len() {
                assert(earlier[i] == row);
                let k = choose|k: int|
                    0 <= k < front.len() && (#[trigger] front[k]) is Some
                        && front[k]->0.rejected_output_schemas.contains(row) && carries(
                        front[k]->0.tools,
                        row.tool,
                    ) && !quarantined.contains(row.tool);
                assert(lanes[k] == front[k]);
            } else {
                assert(here[i - earlier.len()] == row);
            }
        }
        if exists|k: int|
            0 <= k < lanes.len() && (#[trigger] lanes[k]) is Some
                && lanes[k]->0.rejected_output_schemas.contains(row) && carries(
                lanes[k]->0.tools,
                row.tool,
            ) && !quarantined.contains(row.tool) {
            let k = choose|k: int|
                0 <= k < lanes.len() && (#[trigger] lanes[k]) is Some
                    && lanes[k]->0.rejected_output_schemas.contains(row) && carries(
                    lanes[k]->0.tools,
                    row.tool,
                ) && !quarantined.contains(row.tool);
            if k < front.len() {
                assert(front[k] == lanes[k]);
                let i = choose|i: int| 0 <= i < earlier.len() && earlier[i] == row;
                assert(whole[i] == row);
            } else {
                let i = choose|i: int| 0 <= i < here.len() && here[i] == row;
                assert(whole[earlier.len() + i] == row);
            }
        }
    }
}

/// Refusals come in the order of the lanes, and of the rows within each.
pub proof fn refusals_come_in_lane_order(
    lanes: Lanes,
    quarantined: Seq<Seq<char>>,
    lane: Option<LaneModel>,
)
    ensures
        all_refusals(Seq::empty(), quarantined).len() == 0,
        all_refusals(lanes.push(lane), quarantined) == all_refusals(lanes, quarantined)
            + lane_refusals(lane, quarantined),
        lane is None ==> lane_refusals(lane, quarantined).len() == 0,
{
    assert(lanes.push(lane).drop_last() =~= lanes);
}

/// The first row of a tool speaks for it.
pub proof fn the_first_row_of_a_tool_counts(rows: Seq<Refusal>, tool: Seq<char>, i: int)
    requires
        0 <= i <= rows.len(),
        forall|j: int| 0 <= j < i ==> (#[trigger] rows[j]).tool != tool,
        i < rows.len() ==> rows[i].tool == tool,
    ensures
        i < rows.len() ==> first_refusal(rows, tool) == Some(rows[i]),
        i == rows.len() ==> first_refusal(rows, tool) is None,
    decreases rows.len(),
{
    if rows.len() > 0 && i > 0 {
        let rest = rows.drop_first();
        assert(rows[0].tool != tool);
        assert forall|j: int| 0 <= j < i - 1 implies (#[trigger] rest[j]).tool != tool by {
            assert(rows[j + 1].tool != tool);
        }
        the_first_row_of_a_tool_counts(rest, tool, i - 1);
    }
}

/// Every tool with a refused schema has one row, in the order of the names, and
/// no other tool has one.
pub proof fn every_refused_tool_has_one_row(
    served: Seq<Refusal>,
    rows: Seq<Refusal>,
    tool: Seq<char>,
)
    requires
        one_row_per_tool(served, rows),
    ensures
        (exists|s: int| 0 <= s < served.len() && (#[trigger] served[s]).tool == tool) <==> exists|
            i: int,
        |
            0 <= i < rows.len() && (#[trigger] rows[i]).tool == tool,
        forall|s: int, t: int|
            0 <= s < t < served.len() ==> crate::names::name_lt(
                (#[trigger] served[s]).tool,
                (#[trigger] served[t]).tool,
            ),
        forall|s: int|
            0 <= s < served.len() ==> first_refusal(rows, (#[trigger] served[s]).tool) == Some(
                served[s],
            ),
{
    let names = served.map_values(|row: Refusal| row.tool);
    assert(names.contains(tool) <==> lists(rows, tool)) by {
        assert(Set::new(|tool: Seq<char>| lists(rows, tool)).contains(tool) <==> lists(rows, tool));
    }
    if exists|s: int| 0 <= s < served.len() && (#[trigger] served[s]).tool == tool {
        let s = choose|s: int| 0 <= s < served.len() && (#[trigger] served[s]).tool == tool;
        assert(names[s] == tool);
        let i = choose|i: int| 0 <= i < rows.len() && #[trigger] rows[i].tool == tool;
        assert(rows[i].tool == tool);
    }
    if exists|i: int| 0 <= i < rows.len() && (#[trigger] rows[i]).tool == tool {
        let i = choose|i: int| 0 <= i < rows.len() && (#[trigger] rows[i]).tool == tool;
        assert(lists(rows, tool)) by {
            assert(rows[i].tool == tool);
        }
        let s = choose|s: int| 0 <= s < names.len() && names[s] == tool;
        assert(served[s].tool == tool);
    }
    assert forall|s: int, t: int| 0 <= s < t < served.len() implies crate::names::name_lt(
        (#[trigger] served[s]).tool,
        (#[trigger] served[t]).tool,
    ) by {
        assert(names[s] == served[s].tool && names[t] == served[t].tool);
    }
}

/// A tool whose input schema cannot be registered is offered exactly where a
/// connected lane that publishes it says so and no quarantine names it.
pub proof fn unregisterable_tools_are_the_published_ones(
    lanes: Lanes,
    quarantined: Seq<Seq<char>>,
    tool: Seq<char>,
    k: int,
)
    requires
        0 <= k < lanes.len(),
    ensures
        lanes[k] is Some && lanes[k]->0.unregisterable_input_schemas.contains(tool) && carries(
            lanes[k]->0.tools,
            tool,
        ) && !quarantined.contains(tool) ==> offers_unregisterable(lanes, quarantined, tool),
        quarantined.contains(tool) ==> !offers_unregisterable(lanes, quarantined, tool),
        (forall|j: int|
            0 <= j < lanes.len() && (#[trigger] lanes[j]) is Some
                ==> !lanes[j]->0.unregisterable_input_schemas.contains(tool) || !carries(
                lanes[j]->0.tools,
                tool,
            )) ==> !offers_unregisterable(lanes, quarantined, tool),
{
}

/// A label stands where it first occurs.
pub proof fn labels_stand_where_they_first_occur(
    labels: Seq<Seq<char>>,
    label: Seq<char>,
    i: int,
)
    requires
        0 <= i <= labels.len(),
        forall|j: int| 0 <= j < i ==> #[trigger] labels[j] != label,
        i < labels.len() ==> labels[i] == label,
    ensures
        i < labels.len() ==> label_position(labels, label) == Some(i as nat),
        i == labels.len() ==> label_position(labels, label) is None,
    decreases labels.len(),
{
    if labels.len() > 0 {
        let front = labels.drop_last();
        assert forall|j: int| 0 <= j < i && j < front.len() implies #[trigger] front[j]
            != label by {
            assert(labels[j] != label);
        }
        if i < front.len() {
            assert(front[i] == label);
            labels_stand_where_they_first_occur(front, label, i);
        } else {
            labels_stand_where_they_first_occur(front, label, front.len() as int);
            if i == labels.len() {
                assert(labels[labels.len() - 1] != label);
            }
        }
    }
}

/// A lane counts at the generation it negotiated, at the label for all others
/// where that one is not among the labels, and nowhere where it is down or
/// negotiated none.
pub proof fn lanes_count_at_their_generation(
    generations: Seq<Seq<char>>,
    lanes: Lanes,
    lane: Option<LaneModel>,
    at: nat,
)
    ensures
        lanes_at(Seq::empty(), generations, at) == 0,
        lane is None || lane->0.negotiated_protocol is None ==> lanes_at(
            lanes.push(lane),
            generations,
            at,
        ) == lanes_at(lanes, generations, at),
        lane is Some && lane->0.negotiated_protocol is Some ==> ({
            let version = lane->0.negotiated_protocol->0;
            let own = label_position(generations, version);
            let slot = if own is Some {
                own
            } else {
                label_position(generations, "other"@)
            };
            lanes_at(lanes.push(lane), generations, at) == lanes_at(lanes, generations, at) + if slot
                == Some(at) {
                1nat
            } else {
                0nat
            }
        }),
{
    assert(lanes.push(lane).drop_last() =~= lanes);
}

/// A clearing releases exactly the names that were quarantined and are not
/// quarantined durably.
pub proof fn clearing_releases_what_is_not_durable(
    quarantined: Seq<Seq<char>>,
    durable: Seq<Seq<char>>,
    name: Seq<char>,
)
    ensures
        released_names(quarantined, durable).contains(name) <==> quarantined.contains(name)
            && !durable.contains(name),
{
}

/// An upstream speaks a version exactly where a connected lane negotiated it.
pub proof fn upstreams_speak_what_their_lanes_negotiated(
    lanes: Lanes,
    lane: Option<LaneModel>,
    version: Seq<char>,
)
    ensures
        !speaks(Seq::empty(), version),
        speaks(lanes.push(lane), version) <==> speaks(lanes, version) || (lane is Some
            && lane->0.negotiated_protocol == Some(version)),
{
    let all = lanes.push(lane);
    if speaks(lanes, version) {
        let k = choose|k: int|
            0 <= k < lanes.len() && (#[trigger] lanes[k]) is Some
                && lanes[k]->0.negotiated_protocol == Some(version);
        assert(all[k] == lanes[k]);
    }
    assert(all[lanes.len() as int] == lane);
    if speaks(all, version) {
        let k = choose|k: int|
            0 <= k < all.len() && (#[trigger] all[k]) is Some && all[k]->0.negotiated_protocol
                == Some(version);
        if k < lanes.len() {
            assert(lanes[k] == all[k]);
        }
    }
}

/// A health view counts the lanes and the connected ones, the tools that clients
/// see with the quarantine applied and the quarantined ones, and carries the
/// breaker, the recovery and the next retry as they are.
pub proof fn health_counts_what_is_there(
    health: UpstreamHealth,
    name: Seq<char>,
    lanes: Lanes,
    quarantined: Seq<Seq<char>>,
    breaker: BreakerState,
    recovery: UpstreamRecovery,
    next_retry_at: Option<WallTime>,
    version: Seq<char>,
)
    requires
        describes(health, name, lanes, quarantined, breaker, recovery, next_retry_at),
    ensures
        health.name@ == name,
        health.total_lanes == lanes.len(),
        health.connected_lanes == connected_count(lanes),
        health.connected <==> exists|k: int| 0 <= k < lanes.len() && (#[trigger] lanes[k]) is Some,
        health.runtime_state == spec_runtime_state(
            health.connected_lanes as nat,
            health.total_lanes as nat,
            health.breaker,
        ),
        health.breaker == breaker,
        health.published_tool_count == visible_tools(lanes, quarantined, true).len(),
        health.quarantined_tool_count == quarantined.len(),
        health.last_success_at == recovery.last_success_at,
        health.last_error_class == recovery.last_error_class,
        health.next_retry_at == next_retry_at,
        health.protocol_versions.deep_view().contains(version) <==> speaks(lanes, version),
        exists|served: Seq<Refusal>| #[trigger]
            one_row_per_tool(served, all_refusals(lanes, quarantined))
                && health.rejected_output_schema_count == served.len(),
{
    crate::lane::lemma_connected_count(lanes);
    assert(Set::new(|version: Seq<char>| speaks(lanes, version)).contains(version) <==> speaks(
        lanes,
        version,
    ));
}

/// Each state and each error class has its own word.
pub proof fn words_tell_states_and_classes_apart()
    ensures
        UpstreamRuntimeState::Connected.spec_as_str() == "connected"@,
        UpstreamRuntimeState::Degraded.spec_as_str() == "degraded"@,
        UpstreamRuntimeState::Disconnected.spec_as_str() == "disconnected"@,
        UpstreamErrorClass::Authentication.spec_as_str() == "authentication"@,
        UpstreamErrorClass::Catalog.spec_as_str() == "catalog"@,
        UpstreamErrorClass::Configuration.spec_as_str() == "configuration"@,
        UpstreamErrorClass::Dns.spec_as_str() == "dns"@,
        UpstreamErrorClass::Protocol.spec_as_str() == "protocol"@,
        UpstreamErrorClass::Timeout.spec_as_str() == "timeout"@,
        UpstreamErrorClass::Transport.spec_as_str() == "transport"@,
{
}

} // verus!
