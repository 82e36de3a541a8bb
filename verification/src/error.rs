//! What a refused or failed request is answered.

use vstd::prelude::*;

use crate::manifest::Transport;
use crate::names::chars_of;
use crate::text::{join3, join5};

verus! {

/// Closed lifecycle phases for failures on the upstream leg. The phase is safe
/// to expose; the underlying error is not.
#[derive(Clone, Copy, Debug, PartialEq, Eq, Structural)]
pub enum ToolCallFailurePhase {
    Dial,
    Initialize,
    PreDispatch,
    DispatchedKnownRefusal,
    DispatchedUnknownOutcome,
}

impl ToolCallFailurePhase {
    pub open spec fn spec_as_str(self) -> Seq<char> {
        match self {
            ToolCallFailurePhase::Dial => "dial"@,
            ToolCallFailurePhase::Initialize => "initialize"@,
            ToolCallFailurePhase::PreDispatch => "pre_dispatch"@,
            ToolCallFailurePhase::DispatchedKnownRefusal => "dispatched_known_refusal"@,
            ToolCallFailurePhase::DispatchedUnknownOutcome => "dispatched_unknown_outcome"@,
        }
    }

    pub fn as_str(self) -> (r: &'static str)
        ensures
            r@ == self.spec_as_str(),
    {
        match self {
            ToolCallFailurePhase::Dial => "dial",
            ToolCallFailurePhase::Initialize => "initialize",
            ToolCallFailurePhase::PreDispatch => "pre_dispatch",
            ToolCallFailurePhase::DispatchedKnownRefusal => "dispatched_known_refusal",
            ToolCallFailurePhase::DispatchedUnknownOutcome => "dispatched_unknown_outcome",
        }
    }

    /// The request never entered the transport.
    pub open spec fn proves_absence(self) -> bool {
        self == ToolCallFailurePhase::Dial || self == ToolCallFailurePhase::Initialize || self
            == ToolCallFailurePhase::PreDispatch
    }

    /// Whether a failure in this phase proves that the request never entered
    /// the transport.
    pub fn dispatch_proven_absent(self) -> (b: bool)
        ensures
            b == self.proves_absence(),
    {
        match self {
            ToolCallFailurePhase::Dial | ToolCallFailurePhase::Initialize
            | ToolCallFailurePhase::PreDispatch => true,
            ToolCallFailurePhase::DispatchedKnownRefusal
            | ToolCallFailurePhase::DispatchedUnknownOutcome => false,
        }
    }
}

/// Why a file transfer was not authorized.
#[derive(Clone, Copy, Debug, PartialEq, Eq, Structural)]
pub enum FileTransferReason {
    /// The upstream does not serve files natively.
    NotEnabled,
    /// Trying again later may succeed.
    TemporarilyUnavailable,
    TransferFailed,
}

impl FileTransferReason {
    pub open spec fn spec_as_str(self) -> Seq<char> {
        match self {
            FileTransferReason::NotEnabled => "not_enabled"@,
            FileTransferReason::TemporarilyUnavailable => "temporarily_unavailable"@,
            FileTransferReason::TransferFailed => "transfer_failed"@,
        }
    }

    pub fn as_str(self) -> (r: &'static str)
        ensures
            r@ == self.spec_as_str(),
    {
        match self {
            FileTransferReason::NotEnabled => "not_enabled",
            FileTransferReason::TemporarilyUnavailable => "temporarily_unavailable",
            FileTransferReason::TransferFailed => "transfer_failed",
        }
    }
}

/// Which JSON-RPC error a refusal is.
#[derive(Clone, Copy, Debug, PartialEq, Eq, Structural)]
pub enum ErrorKind {
    InvalidParams,
    Internal,
}

/// The machine-readable part of an answer.
#[derive(Debug, PartialEq, Eq)]
pub enum ErrorData {
    /// Nothing beside the message.
    Bare,
    UpstreamCallFailed {
        phase: ToolCallFailurePhase,
        retryable: bool,
        attempts: usize,
        trace_id: String,
    },
    /// The catalog changed during a discovery; retrying is right.
    CatalogChanging,
    /// The catalog's generation could not be read; retrying is right.
    CatalogGenerationUnavailable,
    /// A bounded read was asked of a transport that cannot bound it.
    BoundedReadUnsupported { transport: Transport },
    /// A bounded read was asked of a call's own session, which cannot bound it.
    BoundedSessionReadUnsupported,
    /// The result exceeds what the caller can take. The code is the caller's.
    ResponseTooLarge { code: String },
    FileTransfer(FileTransferReason),
}

impl ErrorData {
    /// The stable code of an answer that carries one.
    pub open spec fn spec_code(self) -> Option<Seq<char>> {
        match self {
            ErrorData::Bare => None,
            ErrorData::UpstreamCallFailed { .. } => Some("upstream_call_failed"@),
            ErrorData::CatalogChanging => Some("catalog_changing"@),
            ErrorData::CatalogGenerationUnavailable => Some("catalog_generation_unavailable"@),
            ErrorData::BoundedReadUnsupported { .. } => Some("bounded_resource_read_unsupported"@),
            ErrorData::BoundedSessionReadUnsupported => Some("bounded_resource_read_unsupported"@),
            ErrorData::ResponseTooLarge { code } => Some(code@),
            ErrorData::FileTransfer(reason) => Some(reason.spec_as_str()),
        }
    }

    pub fn code(&self) -> (r: Option<&str>)
        ensures
            match r {
                Some(code) => self.spec_code() == Some(code@),
                None => self.spec_code() is None,
            },
    {
        match self {
            ErrorData::Bare => None,
            ErrorData::UpstreamCallFailed { .. } => Some("upstream_call_failed"),
            ErrorData::CatalogChanging => Some("catalog_changing"),
            ErrorData::CatalogGenerationUnavailable => Some("catalog_generation_unavailable"),
            ErrorData::BoundedReadUnsupported { .. } => Some("bounded_resource_read_unsupported"),
            ErrorData::BoundedSessionReadUnsupported => Some("bounded_resource_read_unsupported"),
            ErrorData::ResponseTooLarge { code } => Some(code.as_str()),
            ErrorData::FileTransfer(reason) => Some(reason.as_str()),
        }
    }

    /// Whether the answer says that retrying may help, where it says so at all.
    pub fn retryable(&self) -> (r: Option<bool>)
        ensures
            r == match *self {
                ErrorData::UpstreamCallFailed { retryable, .. } => Some(retryable),
                ErrorData::CatalogChanging => Some(true),
                ErrorData::CatalogGenerationUnavailable => Some(true),
                _ => None,
            },
    {
        match self {
            ErrorData::UpstreamCallFailed { retryable, .. } => Some(*retryable),
            ErrorData::CatalogChanging | ErrorData::CatalogGenerationUnavailable => Some(true),
            _ => None,
        }
    }
}

/// The answer to a refused or failed request.
#[derive(Debug, PartialEq, Eq)]
pub struct PoolError {
    pub kind: ErrorKind,
    pub message: String,
    pub data: ErrorData,
}

/// An answer of this kind with this message and nothing else.
pub open spec fn plain(error: PoolError, kind: ErrorKind, message: Seq<char>) -> bool {
    error.kind == kind && error.message@ == message && error.data == ErrorData::Bare
}

/// A message about an upstream.
pub open spec fn about(server: Seq<char>, rest: Seq<char>) -> Seq<char> {
    "upstream `"@ + server + rest
}

fn about_server(server: &str, rest: &str) -> (r: String)
    ensures
        r@ == about(server@, rest@),
{
    join3("upstream `", server, rest)
}

pub fn unknown_upstream(server: &str) -> (r: PoolError)
    ensures
        plain(r, ErrorKind::InvalidParams, "unknown upstream: "@ + server@),
{
    PoolError {
        kind: ErrorKind::InvalidParams,
        message: crate::text::join2("unknown upstream: ", server),
        data: ErrorData::Bare,
    }
}

pub fn being_removed(server: &str) -> (r: PoolError)
    ensures
        plain(r, ErrorKind::InvalidParams, about(server@, "` is being removed"@)),
{
    PoolError {
        kind: ErrorKind::InvalidParams,
        message: about_server(server, "` is being removed"),
        data: ErrorData::Bare,
    }
}

pub fn not_connected(server: &str) -> (r: PoolError)
    ensures
        plain(r, ErrorKind::Internal, about(server@, "` is not connected"@)),
{
    PoolError {
        kind: ErrorKind::Internal,
        message: about_server(server, "` is not connected"),
        data: ErrorData::Bare,
    }
}

pub fn circuit_open(server: &str) -> (r: PoolError)
    ensures
        plain(r, ErrorKind::Internal, about(server@, "` circuit open"@)),
{
    PoolError {
        kind: ErrorKind::Internal,
        message: about_server(server, "` circuit open"),
        data: ErrorData::Bare,
    }
}

pub fn circuit_probing(server: &str) -> (r: PoolError)
    ensures
        plain(r, ErrorKind::Internal, about(server@, "` circuit probing recovery"@)),
{
    PoolError {
        kind: ErrorKind::Internal,
        message: about_server(server, "` circuit probing recovery"),
        data: ErrorData::Bare,
    }
}

/// A message about a tool of an upstream.
pub open spec fn about_tool(
    server: Seq<char>,
    middle: Seq<char>,
    tool: Seq<char>,
    rest: Seq<char>,
) -> Seq<char> {
    "upstream `"@ + server + middle + tool + rest
}

pub fn no_admitted_tool(server: &str, tool_name: &str) -> (r: PoolError)
    ensures
        plain(
            r,
            ErrorKind::InvalidParams,
            about_tool(server@, "` has no admitted tool `"@, tool_name@, "`"@),
        ),
{
    PoolError {
        kind: ErrorKind::InvalidParams,
        message: join5("upstream `", server, "` has no admitted tool `", tool_name, "`"),
        data: ErrorData::Bare,
    }
}

/// The contract under which a call was set up is no longer in force; the caller
/// is to retry.
pub fn contract_changed_error(server: &str, tool_name: &str) -> (r: PoolError)
    ensures
        plain(
            r,
            ErrorKind::Internal,
            about_tool(
                server@,
                "` configuration or approved contract for `"@,
                tool_name@,
                "` changed during call setup — retry the call"@,
            ),
        ),
{
    PoolError {
        kind: ErrorKind::Internal,
        message: join5(
            "upstream `",
            server,
            "` configuration or approved contract for `",
            tool_name,
            "` changed during call setup — retry the call",
        ),
        data: ErrorData::Bare,
    }
}

/// The session that would execute a call advertises another contract than the
/// approved one.
pub fn session_contract_differs(server: &str, tool_name: &str) -> (r: PoolError)
    ensures
        plain(
            r,
            ErrorKind::Internal,
            about_tool(
                server@,
                "` session advertises a different contract for `"@,
                tool_name@,
                "` than the approved behavior"@,
            ),
        ),
{
    PoolError {
        kind: ErrorKind::Internal,
        message: join5(
            "upstream `",
            server,
            "` session advertises a different contract for `",
            tool_name,
            "` than the approved behavior",
        ),
        data: ErrorData::Bare,
    }
}

/// The per-call session advertises another contract than the approved one.
pub fn per_call_contract_differs(server: &str, tool_name: &str) -> (r: PoolError)
    ensures
        plain(
            r,
            ErrorKind::Internal,
            about_tool(
                server@,
                "` per-call session advertises a different contract for `"@,
                tool_name@,
                "` than the approved behavior"@,
            ),
        ),
{
    PoolError {
        kind: ErrorKind::Internal,
        message: join5(
            "upstream `",
            server,
            "` per-call session advertises a different contract for `",
            tool_name,
            "` than the approved behavior",
        ),
        data: ErrorData::Bare,
    }
}

/// A caller without the capability was answered with something other than a
/// final result.
pub fn non_final_response(server: &str, tool_name: &str) -> (r: PoolError)
    ensures
        plain(
            r,
            ErrorKind::Internal,
            about_tool(
                server@,
                "` returned a non-final response for `"@,
                tool_name@,
                "` although this dispatch declared no input capabilities"@,
            ),
        ),
{
    PoolError {
        kind: ErrorKind::Internal,
        message: join5(
            "upstream `",
            server,
            "` returned a non-final response for `",
            tool_name,
            "` although this dispatch declared no input capabilities",
        ),
        data: ErrorData::Bare,
    }
}

/// The bounded answer to a failed call: the phase, and nothing of the raw error.
pub fn bounded_upstream_error(
    server: &str,
    phase: ToolCallFailurePhase,
    retryable: bool,
    attempts: usize,
    trace_id: &str,
) -> (r: PoolError)
    ensures
        bounded(r, server@, phase, retryable, attempts, trace_id@),
{
    PoolError {
        kind: ErrorKind::Internal,
        message: join5(
            "upstream `",
            server,
            "` call failed during ",
            phase.as_str(),
            "; use trace_id to investigate",
        ),
        data: ErrorData::UpstreamCallFailed {
            phase,
            retryable,
            attempts,
            trace_id: trace_id.to_owned(),
        },
    }
}

pub open spec fn bounded(
    error: PoolError,
    server: Seq<char>,
    phase: ToolCallFailurePhase,
    retryable: bool,
    attempts: usize,
    trace_id: Seq<char>,
) -> bool {
    &&& error.kind == ErrorKind::Internal
    &&& error.message@ == about_tool(
        server,
        "` call failed during "@,
        phase.spec_as_str(),
        "; use trace_id to investigate"@,
    )
    &&& match error.data {
        ErrorData::UpstreamCallFailed { phase: p, retryable: r, attempts: a, trace_id: t } => p
            == phase && r == retryable && a == attempts && t@ == trace_id,
        _ => false,
    }
}

/// The answer says that the catalog changed during a discovery.
pub open spec fn says_catalog_changing(error: PoolError) -> bool {
    &&& error.kind == ErrorKind::Internal
    &&& error.message@
        == "the governed tool catalog changed or became unavailable during discovery; retry the request"@
    &&& error.data == ErrorData::CatalogChanging
}

/// The catalog changed while it was being read.
pub fn discovery_changed() -> (r: PoolError)
    ensures
        says_catalog_changing(r),
{
    PoolError {
        kind: ErrorKind::Internal,
        message: "the governed tool catalog changed or became unavailable during discovery; retry the request".to_owned(),
        data: ErrorData::CatalogChanging,
    }
}

/// The catalog's generation could not be read.
pub fn catalog_generation_unavailable() -> (r: PoolError)
    ensures
        r.kind == ErrorKind::Internal,
        r.message@ == "the governed tool catalog generation is unavailable; retry the request"@,
        r.data == ErrorData::CatalogGenerationUnavailable,
{
    PoolError {
        kind: ErrorKind::Internal,
        message: "the governed tool catalog generation is unavailable; retry the request".to_owned(),
        data: ErrorData::CatalogGenerationUnavailable,
    }
}

/// A text occurs in another at a position.
pub open spec fn occurs_at(text: Seq<char>, part: Seq<char>, at: int) -> bool {
    0 <= at && at + part.len() <= text.len() && text.subrange(at, at + part.len()) == part
}

/// A text occurs in another.
pub open spec fn occurs(text: Seq<char>, part: Seq<char>) -> bool {
    exists|at: int| #[trigger] occurs_at(text, part, at)
}

/// Whether a text occurs in another.
pub fn text_contains(text: &str, part: &str) -> (b: bool)
    ensures
        b == occurs(text@, part@),
{
    let hay = chars_of(text);
    let needle = chars_of(part);
    if needle.len() > hay.len() {
        return false;
    }
    let mut at: usize = 0;
    while at <= hay.len() - needle.len()
        invariant
            needle.len() <= hay.len(),
            at <= hay.len() - needle.len() + 1,
            hay@ == text@,
            needle@ == part@,
            forall|k: int| 0 <= k < at ==> !#[trigger] occurs_at(text@, part@, k),
        ensures
            forall|k: int|
                0 <= k <= hay.len() - needle.len() ==> !#[trigger] occurs_at(text@, part@, k),
        decreases hay.len() + 1 - at,
    {
        let mut i: usize = 0;
        while i < needle.len() && hay[at + i] == needle[i]
            invariant
                i <= needle.len(),
                needle.len() <= hay.len(),
                at <= hay.len() - needle.len(),
                forall|k: int| 0 <= k < i ==> hay@[at + k] == #[trigger] needle@[k],
            decreases needle.len() - i,
        {
            i = i + 1;
        }
        if i == needle.len() {
            proof {
                assert(text@.subrange(at as int, at + part@.len()) =~= part@);
                assert(occurs_at(text@, part@, at as int));
            }
            return true;
        }
        proof {
            if occurs_at(text@, part@, at as int) {
                assert(text@.subrange(at as int, at + part@.len())[i as int] == text@[at + i]);
            }
        }
        if at == hay.len() - needle.len() {
            break;
        }
        at = at + 1;
    }
    proof {
        assert forall|k: int| !#[trigger] occurs_at(text@, part@, k) by {}
    }
    false
}

/// How a call is counted.
#[derive(Clone, Copy, Debug, PartialEq, Eq, Structural)]
pub enum UpstreamOutcome {
    Served,
    Error,
    NotConnected,
}

impl UpstreamOutcome {
    pub open spec fn spec_as_str(self) -> Seq<char> {
        match self {
            UpstreamOutcome::Served => "ok"@,
            UpstreamOutcome::Error => "error"@,
            UpstreamOutcome::NotConnected => "not_connected"@,
        }
    }

    pub fn as_str(self) -> (r: &'static str)
        ensures
            r@ == self.spec_as_str(),
    {
        match self {
            UpstreamOutcome::Served => "ok",
            UpstreamOutcome::Error => "error",
            UpstreamOutcome::NotConnected => "not_connected",
        }
    }
}

/// How a call that was answered is counted: its result may have turned out to be
/// the upstream's failure only when it was processed.
pub fn answered_outcome(upstream_failure: bool) -> (r: UpstreamOutcome)
    ensures
        r == if upstream_failure {
            UpstreamOutcome::Error
        } else {
            UpstreamOutcome::Served
        },
{
    if upstream_failure {
        UpstreamOutcome::Error
    } else {
        UpstreamOutcome::Served
    }
}

/// How a failed call is counted, by its message.
pub fn failed_outcome(message: &str) -> (r: UpstreamOutcome)
    ensures
        r == if occurs(message@, "is not connected"@) {
            UpstreamOutcome::NotConnected
        } else {
            UpstreamOutcome::Error
        },
{
    if text_contains(message, "is not connected") {
        UpstreamOutcome::NotConnected
    } else {
        UpstreamOutcome::Error
    }
}

/// A failure proves that nothing was dispatched exactly in the phases before the
/// dispatch.
pub proof fn only_undispatched_failures_prove_absence(phase: ToolCallFailurePhase)
    ensures
        ToolCallFailurePhase::Dial.proves_absence(),
        ToolCallFailurePhase::Initialize.proves_absence(),
        ToolCallFailurePhase::PreDispatch.proves_absence(),
        !ToolCallFailurePhase::DispatchedKnownRefusal.proves_absence(),
        !ToolCallFailurePhase::DispatchedUnknownOutcome.proves_absence(),
{
}

/// A bounded answer tells the server, the phase, whether a retry is offered, the
/// attempts and the trace, and nothing of the upstream's own words.
pub proof fn bounded_answers_tell_their_phase(
    error: PoolError,
    server: Seq<char>,
    phase: ToolCallFailurePhase,
    retryable: bool,
    attempts: usize,
    trace_id: Seq<char>,
)
    requires
        bounded(error, server, phase, retryable, attempts, trace_id),
    ensures
        error.kind == ErrorKind::Internal,
        error.message@ == "upstream `"@ + server + "` call failed during "@ + phase.spec_as_str()
            + "; use trace_id to investigate"@,
        error.data is UpstreamCallFailed,
        error.data->phase == phase,
        error.data->UpstreamCallFailed_retryable == retryable,
        error.data->attempts == attempts,
        error.data->trace_id@ == trace_id,
        error.data.spec_code() == Some("upstream_call_failed"@),
{
}

/// A plain answer has a kind and a message and carries nothing beside them; what
/// is said about a server or a tool names it in its place.
pub proof fn plain_answers_are_their_message(
    error: PoolError,
    kind: ErrorKind,
    server: Seq<char>,
    middle: Seq<char>,
    tool: Seq<char>,
    rest: Seq<char>,
)
    ensures
        plain(error, kind, about(server, rest)) ==> error.kind == kind && error.message@
            == "upstream `"@ + server + rest && error.data.spec_code() is None,
        plain(error, kind, about_tool(server, middle, tool, rest)) ==> error.kind == kind
            && error.message@ == "upstream `"@ + server + middle + tool + rest
            && error.data.spec_code() is None,
        says_catalog_changing(error) ==> error.kind == ErrorKind::Internal
            && error.data.spec_code() == Some("catalog_changing"@),
{
}

/// A part occurs in a text exactly where something stands before and behind it
/// to make the text.
pub proof fn a_part_stands_between_the_rest(
    text: Seq<char>,
    before: Seq<char>,
    part: Seq<char>,
    behind: Seq<char>,
)
    ensures
        text == before + part + behind ==> occurs(text, part),
        occurs(text, part) ==> exists|a: Seq<char>, b: Seq<char>| text == #[trigger] ((a + part) + b),
{
    if text == before + part + behind {
        assert(text.subrange(before.len() as int, (before.len() + part.len()) as int) =~= part);
        assert(occurs_at(text, part, before.len() as int));
    }
    if occurs(text, part) {
        let at = choose|at: int| #[trigger] occurs_at(text, part, at);
        let a = text.take(at);
        let b = text.skip(at + part.len());
        assert(text =~= (a + part) + b);
    }
}

/// Each phase, each reason and each outcome has its own word.
pub proof fn words_tell_outcomes_apart()
    ensures
        ToolCallFailurePhase::Dial.spec_as_str() == "dial"@,
        ToolCallFailurePhase::Initialize.spec_as_str() == "initialize"@,
        ToolCallFailurePhase::PreDispatch.spec_as_str() == "pre_dispatch"@,
        ToolCallFailurePhase::DispatchedKnownRefusal.spec_as_str() == "dispatched_known_refusal"@,
        ToolCallFailurePhase::DispatchedUnknownOutcome.spec_as_str()
            == "dispatched_unknown_outcome"@,
        FileTransferReason::NotEnabled.spec_as_str() == "not_enabled"@,
        FileTransferReason::TemporarilyUnavailable.spec_as_str() == "temporarily_unavailable"@,
        FileTransferReason::TransferFailed.spec_as_str() == "transfer_failed"@,
        UpstreamOutcome::Served.spec_as_str() == "ok"@,
        UpstreamOutcome::Error.spec_as_str() == "error"@,
        UpstreamOutcome::NotConnected.spec_as_str() == "not_connected"@,
        ErrorData::CatalogChanging.spec_code() == Some("catalog_changing"@),
        ErrorData::CatalogGenerationUnavailable.spec_code() == Some(
            "catalog_generation_unavailable"@,
        ),
{
}

} // verus!
