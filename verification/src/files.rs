//! Authorizing file transfers with an upstream.

use vstd::prelude::*;

use crate::admission::{contract_current, dispatch_contract_is_current};
use crate::binding::InvocationContract;
use crate::call::{neutral, BreakerError, CallRefusal};
use crate::clock::{Duration, NANOS_PER_SEC};
use crate::discovery::{held_contract, held_verdict, DiscoveryReads};
use crate::dispatch::{LaneFault, PermitDisposition};
use crate::entry::UpstreamEntry;
use crate::error::{
    about, about_tool, contract_changed_error, unknown_upstream, ErrorData, ErrorKind,
    FileTransferReason, PoolError,
};
use crate::health::{DialError, UpstreamErrorClass};
use crate::lane::{Connection, Destination, PinnedNetworkDestination};
use crate::manifest::{Manifest, SessionIsolation, Transport, UpstreamManifest};
use crate::names::chars_of;
use crate::pool::UpstreamPool;
use crate::resources::{fault_on, lane_fault};
use crate::shape::{redial_committed_fields_eq, resolve_isolation, spec_resolve_isolation};
use crate::text::{decimal, decimal_digits, join3, join4, join5};
use crate::value::Value;

verus! {

/// The transports declared to an upstream for file transfers: cleartext ones
/// only where the whole control plane is in cleartext already.
pub fn file_transports(cleartext_control_plane: bool) -> (r: Vec<String>)
    ensures
        r.deep_view() == if cleartext_control_plane {
            seq!["https"@, "http"@]
        } else {
            seq!["https"@]
        },
{
    let mut out: Vec<String> = Vec::new();
    out.push("https".to_owned());
    if cleartext_control_plane {
        out.push("http".to_owned());
        proof {
            assert(out.deep_view() =~= seq!["https"@, "http"@]);
        }
    } else {
        proof {
            assert(out.deep_view() =~= seq!["https"@]);
        }
    }
    out
}

/// An answer of this reason with this message.
pub open spec fn transfer_failure(
    error: PoolError,
    reason: FileTransferReason,
    message: Seq<char>,
) -> bool {
    error.kind == ErrorKind::Internal && error.message@ == message && error.data
        == ErrorData::FileTransfer(reason)
}

fn fail_transfer(reason: FileTransferReason, message: String) -> (r: PoolError)
    ensures
        transfer_failure(r, reason, message@),
{
    PoolError { kind: ErrorKind::Internal, message, data: ErrorData::FileTransfer(reason) }
}

/// `rmcp::model::ErrorCode::METHOD_NOT_FOUND`, as a number.
#[verifier::external_body]
fn method_not_found() -> (r: i32)
    ensures
        r == -32601,
{
    rmcp::model::ErrorCode::METHOD_NOT_FOUND.0
}

/// The answer to an authorization that the upstream refused with a code. An
/// unknown method means that it knows no file transfer at all.
pub open spec fn says_authorization_refused(error: PoolError, server: Seq<char>, code: i32) -> bool {
    if code == -32601 {
        transfer_failure(
            error,
            FileTransferReason::NotEnabled,
            about(server, "` does not support native file transfer"@),
        )
    } else {
        transfer_failure(
            error,
            FileTransferReason::TransferFailed,
            about(server, "` file authorization failed"@),
        )
    }
}

/// The answer to an upstream's own refusal of an authorization. An unknown
/// method says that the upstream serves no files natively; any other code is a
/// failed attempt. Nothing of the upstream's message is passed on.
pub fn classify_refused_authorization(server: &str, code: i32) -> (r: PoolError)
    ensures
        says_authorization_refused(r, server@, code),
{
    if code == method_not_found() {
        fail_transfer(
            FileTransferReason::NotEnabled,
            join3("upstream `", server, "` does not support native file transfer"),
        )
    } else {
        fail_transfer(
            FileTransferReason::TransferFailed,
            join3("upstream `", server, "` file authorization failed"),
        )
    }
}

/// The host of a URL, where it has one and can be parsed.
pub uninterp spec fn url_host(url: Seq<char>) -> Option<Seq<char>>;

/// `url::Url::parse`, and `url::Url::host_str` on what it gives: the host in its
/// normalized form, or nothing where the text is no URL or has no host.
#[verifier::external_body]
fn parse_url_host(url: &str) -> (r: Option<String>)
    ensures
        r.deep_view() == url_host(url@),
{
    url::Url::parse(url).ok()?.host_str().map(|host| host.to_owned())
}

/// An ASCII letter in lower case, and any other character as it is.
pub open spec fn ascii_lower(c: char) -> char {
    if c == 'A' { 'a' } else if c == 'B' { 'b' } else if c == 'C' { 'c' } else if c == 'D' { 'd' }
    else if c == 'E' { 'e' } else if c == 'F' { 'f' } else if c == 'G' { 'g' } else if c == 'H' { 'h' }
    else if c == 'I' { 'i' } else if c == 'J' { 'j' } else if c == 'K' { 'k' } else if c == 'L' { 'l' }
    else if c == 'M' { 'm' } else if c == 'N' { 'n' } else if c == 'O' { 'o' } else if c == 'P' { 'p' }
    else if c == 'Q' { 'q' } else if c == 'R' { 'r' } else if c == 'S' { 's' } else if c == 'T' { 't' }
    else if c == 'U' { 'u' } else if c == 'V' { 'v' } else if c == 'W' { 'w' } else if c == 'X' { 'x' }
    else if c == 'Y' { 'y' } else if c == 'Z' { 'z' } else { c }
}

/// An ASCII letter in lower case, and any other character as it is.
pub fn to_ascii_lower(c: char) -> (r: char)
    ensures
        r == ascii_lower(c),
{
    match c {
        'A' => 'a', 'B' => 'b', 'C' => 'c', 'D' => 'd', 'E' => 'e', 'F' => 'f', 'G' => 'g',
        'H' => 'h', 'I' => 'i', 'J' => 'j', 'K' => 'k', 'L' => 'l', 'M' => 'm', 'N' => 'n',
        'O' => 'o', 'P' => 'p', 'Q' => 'q', 'R' => 'r', 'S' => 's', 'T' => 't', 'U' => 'u',
        'V' => 'v', 'W' => 'w', 'X' => 'x', 'Y' => 'y', 'Z' => 'z',
        other => other,
    }
}

/// Two texts are the same but for the case of ASCII letters.
pub open spec fn same_ignoring_case(a: Seq<char>, b: Seq<char>) -> bool {
    a.len() == b.len() && forall|i: int|
        0 <= i < a.len() ==> ascii_lower(#[trigger] a[i]) == ascii_lower(b[i])
}

/// Whether two texts are the same but for the case of ASCII letters.
pub fn text_eq_ignore_case(a: &str, b: &str) -> (r: bool)
    ensures
        r == same_ignoring_case(a@, b@),
{
    let left = chars_of(a);
    let right = chars_of(b);
    if left.len() != right.len() {
        return false;
    }
    let mut i: usize = 0;
    while i < left.len()
        invariant
            i <= left.len(),
            left.len() == right.len(),
            left@ == a@,
            right@ == b@,
            forall|j: int| 0 <= j < i ==> ascii_lower(#[trigger] a@[j]) == ascii_lower(b@[j]),
        decreases left.len() - i,
    {
        if to_ascii_lower(left[i]) != to_ascii_lower(right[i]) {
            proof {
                assert(ascii_lower(a@[i as int]) != ascii_lower(b@[i as int]));
            }
            return false;
        }
        i = i + 1;
    }
    true
}

/// The pinned addresses a transfer may use: those of the upstream's own
/// connection, where the transfer goes to the same host. A child process is
/// inside the gateway's network already and is not pinned.
pub open spec fn pinned_addresses(
    manifest: Manifest,
    host: Option<Seq<char>>,
    destination: Option<Destination>,
) -> Seq<Seq<char>> {
    if manifest.transport != Transport::Stdio && destination is Some && host is Some
        && same_ignoring_case(host->0, destination->0.host) {
        destination->0.addresses
    } else {
        Seq::empty()
    }
}

/// The pinned addresses a transfer to a host may use.
pub fn addresses_for_host(
    manifest: &UpstreamManifest,
    host: Option<&String>,
    destination: Option<&PinnedNetworkDestination>,
) -> (r: Vec<String>)
    ensures
        r.deep_view() == pinned_addresses(
            manifest.deep_view(),
            host.deep_view(),
            destination.deep_view(),
        ),
{
    let none: Vec<String> = Vec::new();
    proof {
        assert(none.deep_view() =~= Seq::<Seq<char>>::empty());
    }
    if manifest.transport == Transport::Stdio {
        return none;
    }
    match (host, destination) {
        (Some(host), Some(destination)) => {
            if text_eq_ignore_case(host.as_str(), destination.host.as_str()) {
                destination.addresses.dup()
            } else {
                none
            }
        },
        _ => none,
    }
}

/// The pinned addresses a transfer to a URL may use.
pub fn private_file_destination_addresses(
    manifest: &UpstreamManifest,
    transfer_url: &str,
    destination: Option<&PinnedNetworkDestination>,
) -> (r: Vec<String>)
    ensures
        r.deep_view() == pinned_addresses(
            manifest.deep_view(),
            url_host(transfer_url@),
            destination.deep_view(),
        ),
{
    let host = parse_url_host(transfer_url);
    addresses_for_host(manifest, host.as_ref(), destination)
}

/// Where a transfer may connect.
#[derive(Debug, PartialEq, Eq)]
pub enum FileTransferNetwork {
    /// Anywhere the upstream's own process could.
    Local,
    /// Public addresses only.
    Public,
    /// Exactly these addresses.
    Pinned { addresses: Vec<String>, cleartext_control_plane: bool },
}

/// Where a transfer with these pinned addresses may connect.
pub fn transfer_network(
    manifest: &UpstreamManifest,
    addresses: Vec<String>,
    cleartext_control_plane: bool,
) -> (r: FileTransferNetwork)
    ensures
        match r {
            FileTransferNetwork::Local => manifest.transport == Transport::Stdio,
            FileTransferNetwork::Public => manifest.transport != Transport::Stdio
                && addresses.len() == 0,
            FileTransferNetwork::Pinned { addresses: pinned, cleartext_control_plane: clear } => {
                &&& manifest.transport != Transport::Stdio
                &&& addresses.len() > 0
                &&& pinned == addresses
                &&& clear == cleartext_control_plane
            },
        },
{
    if manifest.transport == Transport::Stdio {
        FileTransferNetwork::Local
    } else if addresses.len() == 0 {
        FileTransferNetwork::Public
    } else {
        FileTransferNetwork::Pinned { addresses, cleartext_control_plane }
    }
}

/// Admit a transfer: the upstream is registered and stays. Both refusals may be
/// over after a reload.
pub fn admit_file_transfer(server: &str, entry: Option<&UpstreamEntry>) -> (r: Result<(), PoolError>)
    ensures
        match (entry, r) {
            (None, Err(error)) => error.kind == ErrorKind::InvalidParams && error.message@
                == "unknown upstream: "@ + server@ && error.data == ErrorData::FileTransfer(
                FileTransferReason::TemporarilyUnavailable,
            ),
            (Some(entry), Err(error)) => entry.removed && transfer_failure(
                error,
                FileTransferReason::TemporarilyUnavailable,
                about(server@, "` is being removed"@),
            ),
            (Some(entry), Ok(_)) => !entry.removed,
            (None, Ok(_)) => false,
        },
{
    let entry = match entry {
        Some(entry) => entry,
        None => {
            let mut error = unknown_upstream(server);
            error.data = ErrorData::FileTransfer(FileTransferReason::TemporarilyUnavailable);
            return Err(error);
        },
    };
    if entry.removed {
        return Err(
            fail_transfer(
                FileTransferReason::TemporarilyUnavailable,
                join3("upstream `", server, "` is being removed"),
            ),
        );
    }
    Ok(())
}

/// The breaker admits no transfer.
pub fn file_breaker_refusal(server: &str, error: BreakerError) -> (r: PoolError)
    ensures
        transfer_failure(
            r,
            FileTransferReason::TemporarilyUnavailable,
            about(
                server@,
                match error {
                    BreakerError::Open => "` circuit open"@,
                    BreakerError::ProbeInFlight => "` circuit probing recovery"@,
                },
            ),
        ),
{
    let rest = match error {
        BreakerError::Open => "` circuit open",
        BreakerError::ProbeInFlight => "` circuit probing recovery",
    };
    fail_transfer(
        FileTransferReason::TemporarilyUnavailable,
        join3("upstream `", server, rest),
    )
}

/// Look at the lane that was checked out, while it cannot be exchanged. The
/// transfer was set up under `snapshot`; the answer is how to run it.
pub fn file_lane_held(
    server: &str,
    entry: &UpstreamEntry,
    lane: usize,
    snapshot: &UpstreamManifest,
) -> (r: Result<SessionIsolation, CallRefusal>)
    requires
        lane < entry.lanes.len(),
    ensures
        match r {
            Ok(isolation) => {
                &&& entry.lanes@[lane as int] is Some
                &&& !entry.removed
                &&& snapshot.deep_view().committed() == entry.manifest.deep_view().committed()
                &&& isolation == spec_resolve_isolation(snapshot.deep_view())
            },
            Err(refusal) => if entry.lanes@[lane as int] is None {
                &&& refusal.permit == PermitDisposition::Failure
                &&& refusal.fault == LaneFault::Recorded(UpstreamErrorClass::Transport)
                &&& transfer_failure(
                    refusal.error,
                    FileTransferReason::TemporarilyUnavailable,
                    about(server@, "` is not connected"@),
                )
            } else if entry.removed {
                &&& neutral(refusal)
                &&& transfer_failure(
                    refusal.error,
                    FileTransferReason::TemporarilyUnavailable,
                    about(server@, "` is being removed"@),
                )
            } else {
                &&& snapshot.deep_view().committed() != entry.manifest.deep_view().committed()
                &&& neutral(refusal)
                &&& transfer_failure(
                    refusal.error,
                    FileTransferReason::TemporarilyUnavailable,
                    about(
                        server@,
                        "` connection shape or identity changed during file request setup — retry the request"@,
                    ),
                )
            },
        },
{
    if entry.lanes[lane].is_none() {
        return Err(
            CallRefusal {
                permit: PermitDisposition::Failure,
                fault: LaneFault::Recorded(UpstreamErrorClass::Transport),
                error: fail_transfer(
                    FileTransferReason::TemporarilyUnavailable,
                    join3("upstream `", server, "` is not connected"),
                ),
            },
        );
    }
    if entry.removed {
        return Err(
            CallRefusal {
                permit: PermitDisposition::Neutral,
                fault: LaneFault::Healthy,
                error: fail_transfer(
                    FileTransferReason::TemporarilyUnavailable,
                    join3("upstream `", server, "` is being removed"),
                ),
            },
        );
    }
    if !redial_committed_fields_eq(snapshot, &entry.manifest) {
        return Err(
            CallRefusal {
                permit: PermitDisposition::Neutral,
                fault: LaneFault::Healthy,
                error: fail_transfer(
                    FileTransferReason::TemporarilyUnavailable,
                    join3(
                        "upstream `",
                        server,
                        "` connection shape or identity changed during file request setup — retry the request",
                    ),
                ),
            },
        );
    }
    Ok(resolve_isolation(snapshot))
}

/// An upload belongs to an admitted tool call: the tool's setup has to be in
/// force still, and the contract that the held session would run it under has to
/// be the admitted one.
pub fn ensure_file_upload_contract_current(
    pool: &mut UpstreamPool,
    server: &str,
    tool_name: &String,
    snapshot: &UpstreamManifest,
    entry: &UpstreamEntry,
    conn: &Connection,
    reads: &DiscoveryReads,
    admitted: &InvocationContract,
) -> (r: Result<(), PoolError>)
    ensures
        ({
            let manifest = entry.manifest.deep_view();
            let policy = old(pool).catalog_policy;
            let set_up = contract_current(
                snapshot.deep_view(),
                manifest,
                entry.quarantined.deep_view(),
                conn.deep_view().live_tools,
                tool_name@,
                !old(pool).tool_reviews_attached,
            );
            &&& r is Ok <==> set_up && held_contract(
                server@,
                tool_name@,
                manifest,
                conn.deep_view(),
                *reads,
                policy,
            ) == Some(admitted.deep_view())
            &&& *final(pool) == old(pool).after_read(
                set_up && held_verdict(
                    server@,
                    tool_name@,
                    manifest,
                    conn.deep_view(),
                    *reads,
                    policy,
                ) is Unavailable,
            )
        }),
        r is Err ==> transfer_failure(
            r->Err_0,
            FileTransferReason::TemporarilyUnavailable,
            about_tool(
                server@,
                "` configuration or approved contract for `"@,
                tool_name@,
                "` changed during call setup — retry the call"@,
            ),
        ),
{
    if dispatch_contract_is_current(
        snapshot,
        &entry.manifest,
        &entry.quarantined,
        &conn.live_tools,
        tool_name.as_str(),
        !pool.tool_reviews_attached,
    ) && pool.admitted_contract_is_current(
        server,
        tool_name,
        &entry.manifest,
        conn,
        reads,
        admitted,
    ) {
        return Ok(());
    }
    let mut error = contract_changed_error(server, tool_name.as_str());
    error.data = ErrorData::FileTransfer(FileTransferReason::TemporarilyUnavailable);
    Err(error)
}

/// The per-call session for a transfer could not be dialed. The detail of the
/// dial stays in the log.
pub fn file_dial_failed(server: &str, error: DialError) -> (r: CallRefusal)
    ensures
        r.permit == PermitDisposition::Failure,
        r.fault == LaneFault::Recorded(UpstreamErrorClass::spec_from_dial_error(error)),
        transfer_failure(
            r.error,
            FileTransferReason::TransferFailed,
            about(server@, "` file session could not be established"@),
        ),
{
    CallRefusal {
        permit: PermitDisposition::Failure,
        fault: LaneFault::Recorded(UpstreamErrorClass::from_dial_error(error)),
        error: fail_transfer(
            FileTransferReason::TransferFailed,
            join3("upstream `", server, "` file session could not be established"),
        ),
    }
}

/// How an authorization request that was sent came out.
#[derive(Debug, PartialEq, Eq)]
pub enum AuthorizationResult {
    /// The upstream authorized a transfer to this URL.
    Authorized { url: String },
    /// The upstream answered with an error of its own.
    Refused { code: i32 },
    TimedOut { limit: Duration },
    Failed { detail: String },
}

/// How an authorization request is settled.
#[derive(Debug, PartialEq, Eq)]
pub struct AuthorizationSettlement {
    pub permit: PermitDisposition,
    pub fault: LaneFault,
    pub reply: Result<FileTransferNetwork, PoolError>,
}

/// The network says what the pinned addresses say.
pub open spec fn network_of(
    network: FileTransferNetwork,
    manifest: Manifest,
    pinned: Seq<Seq<char>>,
    cleartext_control_plane: bool,
) -> bool {
    match network {
        FileTransferNetwork::Local => manifest.transport == Transport::Stdio,
        FileTransferNetwork::Public => manifest.transport != Transport::Stdio && pinned.len() == 0,
        FileTransferNetwork::Pinned { addresses, cleartext_control_plane: clear } => {
            &&& manifest.transport != Transport::Stdio
            &&& pinned.len() > 0
            &&& addresses.deep_view() == pinned
            &&& clear == cleartext_control_plane
        },
    }
}

/// Settle an authorization request. `current` is the manifest now in force; a
/// transfer authorized over connections that have been exchanged since is not
/// handed out.
pub fn settle_authorization(
    server: &str,
    isolation: SessionIsolation,
    result: AuthorizationResult,
    snapshot: &UpstreamManifest,
    current: &UpstreamManifest,
    destination: Option<&PinnedNetworkDestination>,
    cleartext_control_plane: bool,
) -> (r: AuthorizationSettlement)
    ensures
        match result {
            AuthorizationResult::Authorized { url } => {
                &&& r.permit == PermitDisposition::Success
                &&& r.fault == LaneFault::Healthy
                &&& r.reply is Ok <==> snapshot.deep_view().committed()
                    == current.deep_view().committed()
                &&& r.reply is Ok ==> network_of(
                    r.reply->Ok_0,
                    current.deep_view(),
                    pinned_addresses(
                        current.deep_view(),
                        url_host(url@),
                        destination.deep_view(),
                    ),
                    cleartext_control_plane,
                )
                &&& r.reply is Err ==> transfer_failure(
                    r.reply->Err_0,
                    FileTransferReason::TemporarilyUnavailable,
                    about(
                        server@,
                        "` connection changed during file authorization — retry the request"@,
                    ),
                )
            },
            AuthorizationResult::Refused { code } => {
                &&& r.permit == PermitDisposition::Success
                &&& r.fault == LaneFault::Healthy
                &&& r.reply is Err
                &&& says_authorization_refused(r.reply->Err_0, server@, code)
            },
            AuthorizationResult::TimedOut { limit } => {
                &&& r.permit == PermitDisposition::Failure
                &&& r.fault == fault_on(isolation, UpstreamErrorClass::Timeout)
                &&& r.reply is Err
                &&& transfer_failure(
                    r.reply->Err_0,
                    FileTransferReason::TransferFailed,
                    "upstream `"@ + server@ + "` file authorization timed out after "@
                        + decimal_digits((limit.nanos / NANOS_PER_SEC) as nat) + "s"@,
                )
            },
            AuthorizationResult::Failed { detail } => {
                &&& r.permit == PermitDisposition::Failure
                &&& r.fault == fault_on(isolation, UpstreamErrorClass::Transport)
                &&& r.reply is Err
                &&& transfer_failure(
                    r.reply->Err_0,
                    FileTransferReason::TransferFailed,
                    about(server@, "` file authorization: "@) + detail@,
                )
            },
        },
{
    match result {
        AuthorizationResult::Authorized { url } => {
            let reply = if !redial_committed_fields_eq(snapshot, current) {
                Err(
                    fail_transfer(
                        FileTransferReason::TemporarilyUnavailable,
                        join3(
                            "upstream `",
                            server,
                            "` connection changed during file authorization — retry the request",
                        ),
                    ),
                )
            } else {
                let addresses = private_file_destination_addresses(
                    current,
                    url.as_str(),
                    destination,
                );
                proof {
                    assert(addresses.deep_view().len() == addresses.len());
                }
                Ok(transfer_network(current, addresses, cleartext_control_plane))
            };
            AuthorizationSettlement {
                permit: PermitDisposition::Success,
                fault: LaneFault::Healthy,
                reply,
            }
        },
        AuthorizationResult::Refused { code } => AuthorizationSettlement {
            permit: PermitDisposition::Success,
            fault: LaneFault::Healthy,
            reply: Err(classify_refused_authorization(server, code)),
        },
        AuthorizationResult::TimedOut { limit } => {
            let secs = decimal(limit.nanos / NANOS_PER_SEC);
            AuthorizationSettlement {
                permit: PermitDisposition::Failure,
                fault: lane_fault(isolation, UpstreamErrorClass::Timeout),
                reply: Err(
                    fail_transfer(
                        FileTransferReason::TransferFailed,
                        join5(
                            "upstream `",
                            server,
                            "` file authorization timed out after ",
                            secs.as_str(),
                            "s",
                        ),
                    ),
                ),
            }
        },
        AuthorizationResult::Failed { detail } => AuthorizationSettlement {
            permit: PermitDisposition::Failure,
            fault: lane_fault(isolation, UpstreamErrorClass::Transport),
            reply: Err(
                fail_transfer(
                    FileTransferReason::TransferFailed,
                    join4("upstream `", server, "` file authorization: ", detail.as_str()),
                ),
            ),
        },
    }
}

/// A transfer that goes to another host than the upstream's own never gets a
/// pinned address, and neither does one of a child process.
pub proof fn only_the_upstream_host_is_pinned(
    manifest: Manifest,
    host: Option<Seq<char>>,
    destination: Option<Destination>,
)
    requires
        pinned_addresses(manifest, host, destination).len() > 0,
    ensures
        manifest.transport != Transport::Stdio,
        host is Some,
        destination is Some,
        same_ignoring_case(host->0, destination->0.host),
        pinned_addresses(manifest, host, destination) == destination->0.addresses,
{
}

/// Lower-casing takes each of the twenty-six capital letters to its small one
/// and leaves every other character alone.
pub proof fn only_capitals_are_lowered(c: char)
    ensures
        !('A' <= c <= 'Z') ==> ascii_lower(c) == c,
        'A' <= c <= 'Z' ==> ascii_lower(c) as int == c as int + 32,
        ascii_lower(ascii_lower(c)) == ascii_lower(c),
{
}

/// Comparing without case is an equivalence that any text has with itself, and
/// texts of different lengths are never the same.
pub proof fn case_is_all_that_is_ignored(a: Seq<char>, b: Seq<char>, i: int)
    ensures
        same_ignoring_case(a, a),
        same_ignoring_case(a, b) ==> same_ignoring_case(b, a),
        a.len() != b.len() ==> !same_ignoring_case(a, b),
        0 <= i < a.len() && 0 <= i < b.len() && ascii_lower(a[i]) != ascii_lower(b[i])
            ==> !same_ignoring_case(a, b),
        a.len() == b.len() && (forall|k: int|
            0 <= k < a.len() ==> ascii_lower(#[trigger] a[k]) == ascii_lower(b[k]))
            ==> same_ignoring_case(a, b),
{
}

/// A transfer to the host that a networked upstream was dialed at is pinned to
/// the addresses of that dial; any other transfer is pinned to none.
pub proof fn the_dialed_host_is_pinned(
    manifest: Manifest,
    host: Seq<char>,
    destination: Destination,
)
    ensures
        manifest.transport != Transport::Stdio && same_ignoring_case(host, destination.host)
            ==> pinned_addresses(manifest, Some(host), Some(destination)) == destination.addresses,
        manifest.transport == Transport::Stdio ==> pinned_addresses(
            manifest,
            Some(host),
            Some(destination),
        ).len() == 0,
        !same_ignoring_case(host, destination.host) ==> pinned_addresses(
            manifest,
            Some(host),
            Some(destination),
        ).len() == 0,
        pinned_addresses(manifest, None, Some(destination)).len() == 0,
        pinned_addresses(manifest, Some(host), None).len() == 0,
{
}

/// A child process transfers locally; a networked upstream transfers to the
/// pinned addresses where there are some, with cleartext where its control plane
/// was seen in it, and to public addresses where there are none.
pub proof fn transfers_stay_where_they_are_pinned(
    network: FileTransferNetwork,
    manifest: Manifest,
    pinned: Seq<Seq<char>>,
    cleartext: bool,
)
    requires
        network_of(network, manifest, pinned, cleartext),
    ensures
        manifest.transport == Transport::Stdio <==> network is Local,
        manifest.transport != Transport::Stdio && pinned.len() == 0 <==> network is Public,
        manifest.transport != Transport::Stdio && pinned.len() > 0 <==> network is Pinned,
        network is Pinned ==> network->addresses.deep_view() == pinned
            && network->cleartext_control_plane == cleartext,
{
}

/// An upstream that does not know the method has the transfer not enabled; any
/// other refusal is a failed transfer.
pub proof fn unknown_methods_are_not_enabled(error: PoolError, server: Seq<char>, code: i32)
    requires
        says_authorization_refused(error, server, code),
    ensures
        error.kind == ErrorKind::Internal,
        code == -32601 <==> error.data == ErrorData::FileTransfer(FileTransferReason::NotEnabled),
        code != -32601 <==> error.data == ErrorData::FileTransfer(
            FileTransferReason::TransferFailed,
        ),
        code == -32601 ==> error.message@ == "upstream `"@ + server
            + "` does not support native file transfer"@,
        code != -32601 ==> error.message@ == "upstream `"@ + server
            + "` file authorization failed"@,
{
}

/// A failed transfer is an internal error that carries its reason and message.
pub proof fn failed_transfers_carry_their_reason(
    error: PoolError,
    reason: FileTransferReason,
    message: Seq<char>,
)
    requires
        transfer_failure(error, reason, message),
    ensures
        error.kind == ErrorKind::Internal,
        error.message@ == message,
        error.data == ErrorData::FileTransfer(reason),
        error.data.spec_code() == Some(reason.spec_as_str()),
{
}

} // verus!
