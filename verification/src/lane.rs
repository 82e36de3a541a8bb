//! One connection to an upstream, as far as decisions read it.

use vstd::prelude::*;

use crate::clock::Instant;
use crate::refusal_record::{Refusal, RejectedOutputSchema};
use crate::tools::{Descriptor, Tool};
use crate::value::Value;

verus! {

/// State of an upstream's circuit breaker.
#[derive(Clone, Copy, Debug, PartialEq, Eq, Structural)]
pub enum BreakerState {
    Closed,
    Open,
    HalfOpen,
}

impl BreakerState {
    pub open spec fn spec_as_str(self) -> Seq<char> {
        match self {
            BreakerState::Closed => "closed"@,
            BreakerState::Open => "open"@,
            BreakerState::HalfOpen => "half_open"@,
        }
    }

    pub fn as_str(self) -> (r: &'static str)
        ensures
            r@ == self.spec_as_str(),
    {
        match self {
            BreakerState::Closed => "closed",
            BreakerState::Open => "open",
            BreakerState::HalfOpen => "half_open",
        }
    }
}

/// The address set resolved and pinned when a network connection was made.
#[derive(Debug, PartialEq, Eq)]
pub struct PinnedNetworkDestination {
    pub host: String,
    pub addresses: Vec<String>,
}

/// What a [`PinnedNetworkDestination`] says.
#[verifier::ext_equal]
pub struct Destination {
    pub host: Seq<char>,
    pub addresses: Seq<Seq<char>>,
}

impl DeepView for PinnedNetworkDestination {
    type V = Destination;

    open spec fn deep_view(&self) -> Destination {
        Destination { host: self.host.deep_view(), addresses: self.addresses.deep_view() }
    }
}

impl Value for PinnedNetworkDestination {
    fn dup(&self) -> (r: Self) {
        PinnedNetworkDestination { host: self.host.dup(), addresses: self.addresses.dup() }
    }

    fn same(&self, other: &Self) -> (b: bool) {
        self.host.same(&other.host) && self.addresses.same(&other.addresses)
    }
}

/// A live session on one lane.
#[derive(Debug, PartialEq, Eq)]
pub struct Connection {
    /// Handle by which the program finds the session's client.
    pub session: u64,
    /// The published subset of `live_tools`.
    pub tools: Vec<Tool>,
    /// The complete listing read when the session was dialed.
    pub live_tools: Vec<Tool>,
    /// Protocol generation negotiated at the dial.
    pub negotiated_protocol: Option<String>,
    /// Whether the session advertised resources.
    pub resource_capability_advertised: bool,
    /// Whether every network leg of the session was seen in cleartext.
    pub cleartext_control_plane: bool,
    pub network_destination: Option<PinnedNetworkDestination>,
    /// Strictest freshness hint of the listing, in milliseconds.
    pub ttl_hint_ms: Option<u64>,
    /// When the listing began.
    pub dialed_at: Instant,
    pub rejected_output_schemas: Vec<RejectedOutputSchema>,
    /// Tools whose input schema no strict client can register.
    pub unregisterable_input_schemas: Vec<String>,
}

/// What a [`Connection`] says.
#[verifier::ext_equal]
pub struct LaneModel {
    pub session: u64,
    pub tools: Seq<Descriptor>,
    pub live_tools: Seq<Descriptor>,
    pub negotiated_protocol: Option<Seq<char>>,
    pub resource_capability_advertised: bool,
    pub cleartext_control_plane: bool,
    pub network_destination: Option<Destination>,
    pub ttl_hint_ms: Option<u64>,
    pub dialed_at: Instant,
    pub rejected_output_schemas: Seq<Refusal>,
    pub unregisterable_input_schemas: Seq<Seq<char>>,
}

impl DeepView for Connection {
    type V = LaneModel;

    open spec fn deep_view(&self) -> LaneModel {
        LaneModel {
            session: self.session,
            tools: self.tools.deep_view(),
            live_tools: self.live_tools.deep_view(),
            negotiated_protocol: self.negotiated_protocol.deep_view(),
            resource_capability_advertised: self.resource_capability_advertised,
            cleartext_control_plane: self.cleartext_control_plane,
            network_destination: self.network_destination.deep_view(),
            ttl_hint_ms: self.ttl_hint_ms,
            dialed_at: self.dialed_at,
            rejected_output_schemas: self.rejected_output_schemas.deep_view(),
            unregisterable_input_schemas: self.unregisterable_input_schemas.deep_view(),
        }
    }
}

/// The lanes of an upstream: a connection, or nothing where a lane is down.
pub type Lanes = Seq<Option<LaneModel>>;

/// Number of lanes that hold a connection.
pub open spec fn connected_count(lanes: Lanes) -> nat
    decreases lanes.len(),
{
    if lanes.len() == 0 {
        0
    } else {
        connected_count(lanes.drop_last()) + if lanes.last() is Some {
            1nat
        } else {
            0nat
        }
    }
}

/// Some lane holds a connection.
pub open spec fn some_connected(lanes: Lanes) -> bool {
    exists|k: int| 0 <= k < lanes.len() && (#[trigger] lanes[k]) is Some
}

/// The first lane that holds a connection.
pub open spec fn first_connected(lanes: Lanes) -> Option<LaneModel>
    decreases lanes.len(),
{
    if lanes.len() == 0 {
        None
    } else if lanes[0] is Some {
        lanes[0]
    } else {
        first_connected(lanes.drop_first())
    }
}

pub proof fn lemma_connected_count(lanes: Lanes)
    ensures
        connected_count(lanes) <= lanes.len(),
        connected_count(lanes) > 0 <==> some_connected(lanes),
        connected_count(lanes) == lanes.len() <==> forall|k: int|
            0 <= k < lanes.len() ==> (#[trigger] lanes[k]) is Some,
        first_connected(lanes) is Some <==> some_connected(lanes),
    decreases lanes.len(),
{
    if lanes.len() > 0 {
        let front = lanes.drop_last();
        let rest = lanes.drop_first();
        lemma_connected_count(front);
        lemma_first_connected(lanes);
        let n = lanes.len() - 1;
        assert(lanes[n] == lanes.last());
        if some_connected(front) {
            let k = choose|k: int| 0 <= k < front.len() && (#[trigger] front[k]) is Some;
            assert(lanes[k] is Some);
        }
        if some_connected(lanes) && lanes.last() is None {
            let k = choose|k: int| 0 <= k < lanes.len() && (#[trigger] lanes[k]) is Some;
            assert(front[k] is Some);
        }
        if forall|k: int| 0 <= k < front.len() ==> (#[trigger] front[k]) is Some {
            if lanes.last() is Some {
                assert forall|k: int| 0 <= k < lanes.len() implies (#[trigger] lanes[k]) is Some by {
                    if k < n {
                        assert(front[k] is Some);
                    }
                }
            }
        }
        if forall|k: int| 0 <= k < lanes.len() ==> (#[trigger] lanes[k]) is Some {
            assert forall|k: int| 0 <= k < front.len() implies (#[trigger] front[k]) is Some by {
                assert(lanes[k] is Some);
            }
        }
    }
}

pub proof fn lemma_first_connected(lanes: Lanes)
    ensures
        first_connected(lanes) is Some <==> some_connected(lanes),
    decreases lanes.len(),
{
    if lanes.len() > 0 {
        let rest = lanes.drop_first();
        lemma_first_connected(rest);
        if lanes[0] is None {
            if some_connected(rest) {
                let k = choose|k: int| 0 <= k < rest.len() && (#[trigger] rest[k]) is Some;
                assert(lanes[k + 1] is Some);
            }
            if some_connected(lanes) {
                let k = choose|k: int| 0 <= k < lanes.len() && (#[trigger] lanes[k]) is Some;
                assert(rest[k - 1] is Some);
            }
        }
    }
}

/// Count the lanes that hold a connection.
pub fn count_connected(lanes: &Vec<Option<Connection>>) -> (n: usize)
    ensures
        n == connected_count(lanes.deep_view()),
        n <= lanes.len(),
{
    let mut n: usize = 0;
    let mut k: usize = 0;
    proof {
        assert(lanes.deep_view().take(0) =~= Seq::empty());
    }
    while k < lanes.len()
        invariant
            k <= lanes.len(),
            n <= k,
            n == connected_count(lanes.deep_view().take(k as int)),
        decreases lanes.len() - k,
    {
        proof {
            let next = lanes.deep_view().take(k + 1);
            assert(next.drop_last() =~= lanes.deep_view().take(k as int));
            assert(next.last() == lanes.deep_view()[k as int]);
        }
        if lanes[k].is_some() {
            n = n + 1;
        }
        k = k + 1;
    }
    proof {
        assert(lanes.deep_view().take(lanes.len() as int) =~= lanes.deep_view());
    }
    n
}

/// Position of the first lane that holds a connection.
pub fn find_connected(lanes: &Vec<Option<Connection>>) -> (r: Option<usize>)
    ensures
        match r {
            Some(k) => k < lanes.len() && lanes@[k as int] is Some && first_connected(
                lanes.deep_view(),
            ) == lanes.deep_view()[k as int] && forall|j: int|
                0 <= j < k ==> (#[trigger] lanes@[j]) is None,
            None => first_connected(lanes.deep_view()) is None && forall|j: int|
                0 <= j < lanes.len() ==> (#[trigger] lanes@[j]) is None,
        },
{
    let mut k: usize = 0;
    proof {
        assert(lanes.deep_view().skip(0) =~= lanes.deep_view());
    }
    while k < lanes.len()
        invariant
            k <= lanes.len(),
            first_connected(lanes.deep_view()) == first_connected(
                lanes.deep_view().skip(k as int),
            ),
            forall|j: int| 0 <= j < k ==> (#[trigger] lanes@[j]) is None,
        decreases lanes.len() - k,
    {
        proof {
            let here = lanes.deep_view().skip(k as int);
            assert(here[0] == lanes.deep_view()[k as int]);
            assert(here.drop_first() =~= lanes.deep_view().skip(k + 1));
        }
        if lanes[k].is_some() {
            return Some(k);
        }
        k = k + 1;
    }
    None
}

/// The lane with another published catalog.
pub open spec fn with_published(lane: Option<LaneModel>, published: Seq<Descriptor>) -> Option<
    LaneModel,
> {
    match lane {
        Some(conn) => Some(LaneModel { tools: published, ..conn }),
        None => None,
    }
}

/// Every connected lane publishes the same catalog. Dispatch and discovery may
/// then read any one of them.
pub open spec fn lanes_agree(lanes: Lanes) -> bool {
    forall|i: int, j: int|
        0 <= i < lanes.len() && 0 <= j < lanes.len() && (#[trigger] lanes[i]) is Some && (
        #[trigger] lanes[j]) is Some ==> lanes[i]->0.tools == lanes[j]->0.tools
}

/// Put another value on one lane and hand out what it held.
pub fn swap_lane(lanes: &mut Vec<Option<Connection>>, k: usize, lane: Option<Connection>) -> (r: Option<
    Connection,
>)
    requires
        k < old(lanes).len(),
    ensures
        final(lanes).len() == old(lanes).len(),
        final(lanes)@ == old(lanes)@.update(k as int, lane),
        final(lanes).deep_view() == old(lanes).deep_view().update(k as int, lane.deep_view()),
        r == old(lanes)@[k as int],
        r.deep_view() == old(lanes).deep_view()[k as int],
{
    let mut slot = lane;
    std::mem::swap(&mut lanes[k], &mut slot);
    proof {
        assert(lanes@ =~= old(lanes)@.update(k as int, lane));
        assert(lanes.deep_view() =~= old(lanes).deep_view().update(k as int, lane.deep_view()));
    }
    slot
}

fn publish_on_lane(lanes: &mut Vec<Option<Connection>>, k: usize, published: &Vec<Tool>)
    requires
        k < old(lanes).len(),
    ensures
        final(lanes).len() == old(lanes).len(),
        final(lanes).deep_view() == old(lanes).deep_view().update(
            k as int,
            with_published(old(lanes).deep_view()[k as int], published.deep_view()),
        ),
{
    let lane = swap_lane(lanes, k, None);
    if let Some(mut conn) = lane {
        conn.tools = published.dup();
        swap_lane(lanes, k, Some(conn));
    }
    proof {
        assert(lanes.deep_view() =~= old(lanes).deep_view().update(
            k as int,
            with_published(old(lanes).deep_view()[k as int], published.deep_view()),
        ));
    }
}

/// Install one published catalog on every connected lane.
pub fn synchronize_published_catalogs(lanes: &mut Vec<Option<Connection>>, published: &Vec<Tool>)
    ensures
        final(lanes).len() == old(lanes).len(),
        forall|k: int|
            0 <= k < final(lanes).len() ==> (#[trigger] final(lanes).deep_view()[k])
                == with_published(old(lanes).deep_view()[k], published.deep_view()),
        lanes_agree(final(lanes).deep_view()),
{
    let mut k: usize = 0;
    let ghost start = lanes.deep_view();
    while k < lanes.len()
        invariant
            k <= lanes.len(),
            lanes.len() == old(lanes).len(),
            start == old(lanes).deep_view(),
            forall|j: int|
                0 <= j < k ==> (#[trigger] lanes.deep_view()[j]) == with_published(
                    start[j],
                    published.deep_view(),
                ),
            forall|j: int| k <= j < lanes.len() ==> (#[trigger] lanes.deep_view()[j]) == start[j],
        decreases lanes.len() - k,
    {
        publish_on_lane(lanes, k, published);
        k = k + 1;
    }
}

/// Install the published catalog on the lanes that serve after a reconnect: the
/// surviving ones, unless the open breaker presumes them dead, and the
/// replacements that will be installed.
pub fn synchronize_reconnect_catalogs(
    breaker_open: bool,
    existing: &mut Vec<Option<Connection>>,
    replacements: &mut Vec<Option<Connection>>,
    install: &Vec<bool>,
    published: &Vec<Tool>,
)
    requires
        install.len() == old(replacements).len(),
    ensures
        final(existing).len() == old(existing).len(),
        forall|k: int|
            0 <= k < final(existing).len() ==> (#[trigger] final(existing).deep_view()[k]) == if breaker_open {
                old(existing).deep_view()[k]
            } else {
                with_published(old(existing).deep_view()[k], published.deep_view())
            },
        final(replacements).len() == old(replacements).len(),
        forall|k: int|
            0 <= k < final(replacements).len() ==> (#[trigger] final(replacements).deep_view()[k])
                == if install@[k] {
                with_published(old(replacements).deep_view()[k], published.deep_view())
            } else {
                old(replacements).deep_view()[k]
            },
{
    if !breaker_open {
        synchronize_published_catalogs(existing, published);
    }
    let mut k: usize = 0;
    let ghost start = replacements.deep_view();
    while k < replacements.len()
        invariant
            k <= replacements.len(),
            replacements.len() == old(replacements).len(),
            install.len() == replacements.len(),
            start == old(replacements).deep_view(),
            forall|j: int|
                0 <= j < k ==> (#[trigger] replacements.deep_view()[j]) == if install@[j] {
                    with_published(start[j], published.deep_view())
                } else {
                    start[j]
                },
            forall|j: int|
                k <= j < replacements.len() ==> (#[trigger] replacements.deep_view()[j])
                    == start[j],
        decreases replacements.len() - k,
    {
        if install[k] {
            publish_on_lane(replacements, k, published);
        }
        k = k + 1;
    }
}

/// The first connected lane is the one before which none is connected.
pub proof fn the_first_connected_lane_speaks(lanes: Lanes, k: int)
    requires
        0 <= k <= lanes.len(),
        forall|j: int| 0 <= j < k ==> (#[trigger] lanes[j]) is None,
        k < lanes.len() ==> lanes[k] is Some,
    ensures
        k < lanes.len() ==> first_connected(lanes) == lanes[k],
        k == lanes.len() ==> first_connected(lanes) is None,
    decreases lanes.len(),
{
    if lanes.len() > 0 && k > 0 {
        let rest = lanes.drop_first();
        assert(lanes[0] is None);
        assert forall|j: int| 0 <= j < k - 1 implies (#[trigger] rest[j]) is None by {
            assert(lanes[j + 1] is None);
        }
        the_first_connected_lane_speaks(rest, k - 1);
    }
}

/// Each connected lane counts once.
pub proof fn connected_lanes_count_once(lanes: Lanes, conn: LaneModel)
    ensures
        connected_count(Seq::empty()) == 0,
        connected_count(lanes.push(Some(conn))) == connected_count(lanes) + 1,
        connected_count(lanes.push(None)) == connected_count(lanes),
{
    assert(lanes.push(Some(conn)).drop_last() =~= lanes);
    assert(lanes.push(None).drop_last() =~= lanes);
}

/// Publishing on a lane changes what it publishes and nothing else; it connects
/// no lane and disconnects none.
pub proof fn publishing_changes_nothing_else(lane: Option<LaneModel>, published: Seq<Descriptor>)
    ensures
        with_published(lane, published) is Some <==> lane is Some,
        lane is Some ==> with_published(lane, published)->0.tools == published,
        lane is Some ==> (LaneModel {
            tools: lane->0.tools,
            ..with_published(lane, published)->0
        }) == lane->0,
{
}

/// Lanes agree exactly where every connected one publishes what the first
/// connected one does.
pub proof fn agreement_is_with_the_first_lane(lanes: Lanes, k: int)
    requires
        0 <= k < lanes.len(),
        lanes[k] is Some,
    ensures
        lanes_agree(lanes) <==> forall|j: int|
            0 <= j < lanes.len() && (#[trigger] lanes[j]) is Some ==> lanes[j]->0.tools
                == lanes[k]->0.tools,
{
}

/// Each state of a breaker has its own word.
pub proof fn words_tell_breakers_apart()
    ensures
        BreakerState::Closed.spec_as_str() == "closed"@,
        BreakerState::Open.spec_as_str() == "open"@,
        BreakerState::HalfOpen.spec_as_str() == "half_open"@,
{
}

/// The view of a pinned destination says every field of it as it is.
pub proof fn pinned_network_destination_is_said_whole(value: PinnedNetworkDestination)
    ensures
        value.deep_view().host == value.host.deep_view(),
        value.deep_view().addresses == value.addresses.deep_view(),
{
}

/// The view of a connection says every field of it as it is.
pub proof fn connection_is_said_whole(value: Connection)
    ensures
        value.deep_view().session == value.session.deep_view(),
        value.deep_view().tools == value.tools.deep_view(),
        value.deep_view().live_tools == value.live_tools.deep_view(),
        value.deep_view().negotiated_protocol == value.negotiated_protocol.deep_view(),
        value.deep_view().resource_capability_advertised == value.resource_capability_advertised.deep_view(),
        value.deep_view().cleartext_control_plane == value.cleartext_control_plane.deep_view(),
        value.deep_view().network_destination == value.network_destination.deep_view(),
        value.deep_view().ttl_hint_ms == value.ttl_hint_ms.deep_view(),
        value.deep_view().dialed_at == value.dialed_at,
        value.deep_view().rejected_output_schemas == value.rejected_output_schemas.deep_view(),
        value.deep_view().unregisterable_input_schemas == value.unregisterable_input_schemas.deep_view(),
{
}

} // verus!
