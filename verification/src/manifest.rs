//! What an operator declares about an upstream.

use vstd::prelude::*;

use crate::value::Value;

verus! {

/// How an upstream is reached.
#[derive(Clone, Copy, Debug, PartialEq, Eq, Structural)]
pub enum Transport {
    /// Streamable HTTP.
    Http,
    /// Legacy two-endpoint server-sent events.
    Sse,
    /// A child process spoken to over its standard streams.
    Stdio,
}

impl DeepView for Transport {
    type V = Transport;

    open spec fn deep_view(&self) -> Transport {
        *self
    }
}

impl Value for Transport {
    fn dup(&self) -> (r: Self) {
        *self
    }

    fn same(&self, other: &Self) -> (b: bool) {
        *self == *other
    }
}

/// Which protocol generation a manifest permits.
#[derive(Clone, Copy, Debug, PartialEq, Eq, Structural)]
pub enum UpstreamProtocol {
    /// Negotiate the newest generation both sides speak.
    Auto,
    /// Only generations before 2026-07-28.
    Legacy,
    /// Only the 2026-07-28 generation, discovered before the call.
    V20260728,
}

impl DeepView for UpstreamProtocol {
    type V = UpstreamProtocol;

    open spec fn deep_view(&self) -> UpstreamProtocol {
        *self
    }
}

impl Value for UpstreamProtocol {
    fn dup(&self) -> (r: Self) {
        *self
    }

    fn same(&self, other: &Self) -> (b: bool) {
        *self == *other
    }
}

/// Which authority classifies an upstream's tools.
#[derive(Clone, Copy, Debug, PartialEq, Eq, Structural)]
pub enum ClassificationMode {
    /// The operator's manifest.
    Manifest,
    /// The reviewed annotations the upstream itself advertises.
    McpAnnotations,
}

impl DeepView for ClassificationMode {
    type V = ClassificationMode;

    open spec fn deep_view(&self) -> ClassificationMode {
        *self
    }
}

impl Value for ClassificationMode {
    fn dup(&self) -> (r: Self) {
        *self
    }

    fn same(&self, other: &Self) -> (b: bool) {
        *self == *other
    }
}

/// Where the need for a human approval comes from.
#[derive(Clone, Copy, Debug, PartialEq, Eq, Structural)]
pub enum ApprovalMode {
    /// Reviewed claims and the catalog may ask for one per call.
    PerCall,
    /// Only the authorization policy may ask for one.
    PolicyOnly,
}

impl DeepView for ApprovalMode {
    type V = ApprovalMode;

    open spec fn deep_view(&self) -> ApprovalMode {
        *self
    }
}

impl Value for ApprovalMode {
    fn dup(&self) -> (r: Self) {
        *self
    }

    fn same(&self, other: &Self) -> (b: bool) {
        *self == *other
    }
}

/// How dangerous a tool is.
#[derive(Clone, Copy, Debug, PartialEq, Eq, Structural)]
pub enum RiskTier {
    Low,
    Medium,
    High,
}

impl DeepView for RiskTier {
    type V = RiskTier;

    open spec fn deep_view(&self) -> RiskTier {
        *self
    }
}

impl Value for RiskTier {
    fn dup(&self) -> (r: Self) {
        *self
    }

    fn same(&self, other: &Self) -> (b: bool) {
        *self == *other
    }
}

/// Whether calls share an upstream session.
#[derive(Clone, Copy, Debug, PartialEq, Eq, Structural)]
pub enum SessionIsolation {
    /// Calls run on a long-lived session.
    Reuse,
    /// Every call dials a session of its own.
    PerCall,
}

impl DeepView for SessionIsolation {
    type V = SessionIsolation;

    open spec fn deep_view(&self) -> SessionIsolation {
        *self
    }
}

impl Value for SessionIsolation {
    fn dup(&self) -> (r: Self) {
        *self
    }

    fn same(&self, other: &Self) -> (b: bool) {
        *self == *other
    }
}

/// Refinement of a tool's classification for one value of its discriminator.
#[derive(Debug, PartialEq, Eq)]
pub struct OperationClassification {
    pub value: String,
    pub risk: RiskTier,
    pub side_effects: bool,
    pub pii: bool,
}

/// What a [`OperationClassification`] says.
#[verifier::ext_equal]
pub struct Operation {
    pub value: Seq<char>,
    pub risk: RiskTier,
    pub side_effects: bool,
    pub pii: bool,
}

impl DeepView for OperationClassification {
    type V = Operation;

    open spec fn deep_view(&self) -> Operation {
        Operation {
            value: self.value.deep_view(),
            risk: self.risk.deep_view(),
            side_effects: self.side_effects.deep_view(),
            pii: self.pii.deep_view(),
        }
    }
}

impl Value for OperationClassification {
    fn dup(&self) -> (r: Self) {
        OperationClassification {
            value: self.value.dup(),
            risk: self.risk.dup(),
            side_effects: self.side_effects.dup(),
            pii: self.pii.dup(),
        }
    }

    fn same(&self, other: &Self) -> (b: bool) {
        self.value.same(&other.value)
            && self.risk.same(&other.risk)
            && self.side_effects.same(&other.side_effects)
            && self.pii.same(&other.pii)
    }
}

/// The operator's classification of one tool.
#[derive(Debug, PartialEq, Eq)]
pub struct ToolClassification {
    pub name: String,
    pub risk: RiskTier,
    pub side_effects: bool,
    pub pii: bool,
    /// Approved behavior hash, in annotation mode.
    pub approved_behavior_hash: Option<String>,
    /// Argument by which the tool selects an operation.
    pub discriminator: Option<String>,
    pub operations: Vec<OperationClassification>,
}

/// What a [`ToolClassification`] says.
#[verifier::ext_equal]
pub struct Classification {
    pub name: Seq<char>,
    pub risk: RiskTier,
    pub side_effects: bool,
    pub pii: bool,
    pub approved_behavior_hash: Option<Seq<char>>,
    pub discriminator: Option<Seq<char>>,
    pub operations: Seq<Operation>,
}

impl DeepView for ToolClassification {
    type V = Classification;

    open spec fn deep_view(&self) -> Classification {
        Classification {
            name: self.name.deep_view(),
            risk: self.risk.deep_view(),
            side_effects: self.side_effects.deep_view(),
            pii: self.pii.deep_view(),
            approved_behavior_hash: self.approved_behavior_hash.deep_view(),
            discriminator: self.discriminator.deep_view(),
            operations: self.operations.deep_view(),
        }
    }
}

impl Value for ToolClassification {
    fn dup(&self) -> (r: Self) {
        ToolClassification {
            name: self.name.dup(),
            risk: self.risk.dup(),
            side_effects: self.side_effects.dup(),
            pii: self.pii.dup(),
            approved_behavior_hash: self.approved_behavior_hash.dup(),
            discriminator: self.discriminator.dup(),
            operations: self.operations.dup(),
        }
    }

    fn same(&self, other: &Self) -> (b: bool) {
        self.name.same(&other.name)
            && self.risk.same(&other.risk)
            && self.side_effects.same(&other.side_effects)
            && self.pii.same(&other.pii)
            && self.approved_behavior_hash.same(&other.approved_behavior_hash)
            && self.discriminator.same(&other.discriminator)
            && self.operations.same(&other.operations)
    }
}

/// A family of resource URIs an upstream owns.
#[derive(Debug, PartialEq, Eq)]
pub struct ResourceClaim {
    pub uri_prefix: String,
    pub risk: RiskTier,
}

/// What a [`ResourceClaim`] says.
#[verifier::ext_equal]
pub struct Claim {
    pub uri_prefix: Seq<char>,
    pub risk: RiskTier,
}

impl DeepView for ResourceClaim {
    type V = Claim;

    open spec fn deep_view(&self) -> Claim {
        Claim {
            uri_prefix: self.uri_prefix.deep_view(),
            risk: self.risk.deep_view(),
        }
    }
}

impl Value for ResourceClaim {
    fn dup(&self) -> (r: Self) {
        ResourceClaim {
            uri_prefix: self.uri_prefix.dup(),
            risk: self.risk.dup(),
        }
    }

    fn same(&self, other: &Self) -> (b: bool) {
        self.uri_prefix.same(&other.uri_prefix)
            && self.risk.same(&other.risk)
    }
}

/// Token exchange an upstream opts into.
#[derive(Debug, PartialEq, Eq)]
pub struct ExchangeConfig {
    pub audience: String,
    pub scope: Option<String>,
}

/// What a [`ExchangeConfig`] says.
#[verifier::ext_equal]
pub struct Exchange {
    pub audience: Seq<char>,
    pub scope: Option<Seq<char>>,
}

impl DeepView for ExchangeConfig {
    type V = Exchange;

    open spec fn deep_view(&self) -> Exchange {
        Exchange {
            audience: self.audience.deep_view(),
            scope: self.scope.deep_view(),
        }
    }
}

impl Value for ExchangeConfig {
    fn dup(&self) -> (r: Self) {
        ExchangeConfig {
            audience: self.audience.dup(),
            scope: self.scope.dup(),
        }
    }

    fn same(&self, other: &Self) -> (b: bool) {
        self.audience.same(&other.audience)
            && self.scope.same(&other.scope)
    }
}

/// Dial-time credentials of an upstream.
#[derive(Debug, PartialEq, Eq)]
pub struct UpstreamAuth {
    /// Environment variable that holds a static bearer token.
    pub bearer_env: Option<String>,
    /// Groups carried only while tools are listed.
    pub catalog_probe_groups: Vec<String>,
}

/// What a [`UpstreamAuth`] says.
#[verifier::ext_equal]
pub struct Auth {
    pub bearer_env: Option<Seq<char>>,
    pub catalog_probe_groups: Seq<Seq<char>>,
}

impl DeepView for UpstreamAuth {
    type V = Auth;

    open spec fn deep_view(&self) -> Auth {
        Auth {
            bearer_env: self.bearer_env.deep_view(),
            catalog_probe_groups: self.catalog_probe_groups.deep_view(),
        }
    }
}

impl Value for UpstreamAuth {
    fn dup(&self) -> (r: Self) {
        UpstreamAuth {
            bearer_env: self.bearer_env.dup(),
            catalog_probe_groups: self.catalog_probe_groups.dup(),
        }
    }

    fn same(&self, other: &Self) -> (b: bool) {
        self.bearer_env.same(&other.bearer_env)
            && self.catalog_probe_groups.same(&other.catalog_probe_groups)
    }
}

/// Client certificate files of an upstream.
#[derive(Debug, PartialEq, Eq)]
pub struct MtlsConfig {
    pub cert_file: Option<String>,
    pub key_file: Option<String>,
    pub ca_file: Option<String>,
}

/// What a [`MtlsConfig`] says.
#[verifier::ext_equal]
pub struct Mtls {
    pub cert_file: Option<Seq<char>>,
    pub key_file: Option<Seq<char>>,
    pub ca_file: Option<Seq<char>>,
}

impl DeepView for MtlsConfig {
    type V = Mtls;

    open spec fn deep_view(&self) -> Mtls {
        Mtls {
            cert_file: self.cert_file.deep_view(),
            key_file: self.key_file.deep_view(),
            ca_file: self.ca_file.deep_view(),
        }
    }
}

impl Value for MtlsConfig {
    fn dup(&self) -> (r: Self) {
        MtlsConfig {
            cert_file: self.cert_file.dup(),
            key_file: self.key_file.dup(),
            ca_file: self.ca_file.dup(),
        }
    }

    fn same(&self, other: &Self) -> (b: bool) {
        self.cert_file.same(&other.cert_file)
            && self.key_file.same(&other.key_file)
            && self.ca_file.same(&other.ca_file)
    }
}

/// Session options of an upstream.
#[derive(Debug, PartialEq, Eq)]
pub struct SessionConfig {
    pub isolation: Option<SessionIsolation>,
    pub concurrency: Option<usize>,
    /// Whether a safe call may set its session up a second time.
    pub retry_on_setup_failure: Option<bool>,
}

/// What a [`SessionConfig`] says.
#[verifier::ext_equal]
pub struct Session {
    pub isolation: Option<SessionIsolation>,
    pub concurrency: Option<usize>,
    pub retry_on_setup_failure: Option<bool>,
}

impl DeepView for SessionConfig {
    type V = Session;

    open spec fn deep_view(&self) -> Session {
        Session {
            isolation: self.isolation.deep_view(),
            concurrency: self.concurrency.deep_view(),
            retry_on_setup_failure: self.retry_on_setup_failure.deep_view(),
        }
    }
}

impl Value for SessionConfig {
    fn dup(&self) -> (r: Self) {
        SessionConfig {
            isolation: self.isolation.dup(),
            concurrency: self.concurrency.dup(),
            retry_on_setup_failure: self.retry_on_setup_failure.dup(),
        }
    }

    fn same(&self, other: &Self) -> (b: bool) {
        self.isolation.same(&other.isolation)
            && self.concurrency.same(&other.concurrency)
            && self.retry_on_setup_failure.same(&other.retry_on_setup_failure)
    }
}

/// One configured upstream.
#[derive(Debug, PartialEq, Eq)]
pub struct UpstreamManifest {
    pub name: String,
    pub classification_mode: ClassificationMode,
    pub approval_mode: ApprovalMode,
    pub transport: Transport,
    pub protocol: UpstreamProtocol,
    pub url: Option<String>,
    pub command: Option<Vec<String>>,
    pub tools: Vec<ToolClassification>,
    pub resources: Vec<ResourceClaim>,
    pub exchange: Option<ExchangeConfig>,
    pub auth: Option<UpstreamAuth>,
    pub mtls: Option<MtlsConfig>,
    /// Whether a durable upstream session of the caller is mandatory.
    pub tier_a_required: bool,
    /// Federated peer whose issuer is the audience of minted identities.
    pub tier_c_peer: Option<u128>,
    pub session: Option<SessionConfig>,
}

/// What a [`UpstreamManifest`] says.
#[verifier::ext_equal]
pub struct Manifest {
    pub name: Seq<char>,
    pub classification_mode: ClassificationMode,
    pub approval_mode: ApprovalMode,
    pub transport: Transport,
    pub protocol: UpstreamProtocol,
    pub url: Option<Seq<char>>,
    pub command: Option<Seq<Seq<char>>>,
    pub tools: Seq<Classification>,
    pub resources: Seq<Claim>,
    pub exchange: Option<Exchange>,
    pub auth: Option<Auth>,
    pub mtls: Option<Mtls>,
    pub tier_a_required: bool,
    pub tier_c_peer: Option<u128>,
    pub session: Option<Session>,
}

impl DeepView for UpstreamManifest {
    type V = Manifest;

    open spec fn deep_view(&self) -> Manifest {
        Manifest {
            name: self.name.deep_view(),
            classification_mode: self.classification_mode.deep_view(),
            approval_mode: self.approval_mode.deep_view(),
            transport: self.transport.deep_view(),
            protocol: self.protocol.deep_view(),
            url: self.url.deep_view(),
            command: self.command.deep_view(),
            tools: self.tools.deep_view(),
            resources: self.resources.deep_view(),
            exchange: self.exchange.deep_view(),
            auth: self.auth.deep_view(),
            mtls: self.mtls.deep_view(),
            tier_a_required: self.tier_a_required.deep_view(),
            tier_c_peer: self.tier_c_peer.deep_view(),
            session: self.session.deep_view(),
        }
    }
}

impl Value for UpstreamManifest {
    fn dup(&self) -> (r: Self) {
        UpstreamManifest {
            name: self.name.dup(),
            classification_mode: self.classification_mode.dup(),
            approval_mode: self.approval_mode.dup(),
            transport: self.transport.dup(),
            protocol: self.protocol.dup(),
            url: self.url.dup(),
            command: self.command.dup(),
            tools: self.tools.dup(),
            resources: self.resources.dup(),
            exchange: self.exchange.dup(),
            auth: self.auth.dup(),
            mtls: self.mtls.dup(),
            tier_a_required: self.tier_a_required.dup(),
            tier_c_peer: self.tier_c_peer.dup(),
            session: self.session.dup(),
        }
    }

    fn same(&self, other: &Self) -> (b: bool) {
        self.name.same(&other.name)
            && self.classification_mode.same(&other.classification_mode)
            && self.approval_mode.same(&other.approval_mode)
            && self.transport.same(&other.transport)
            && self.protocol.same(&other.protocol)
            && self.url.same(&other.url)
            && self.command.same(&other.command)
            && self.tools.same(&other.tools)
            && self.resources.same(&other.resources)
            && self.exchange.same(&other.exchange)
            && self.auth.same(&other.auth)
            && self.mtls.same(&other.mtls)
            && self.tier_a_required.same(&other.tier_a_required)
            && self.tier_c_peer.same(&other.tier_c_peer)
            && self.session.same(&other.session)
    }
}

/// The view of an operation says every field of it as it is.
pub proof fn operation_classification_is_said_whole(value: OperationClassification)
    ensures
        value.deep_view().value == value.value.deep_view(),
        value.deep_view().risk == value.risk.deep_view(),
        value.deep_view().side_effects == value.side_effects.deep_view(),
        value.deep_view().pii == value.pii.deep_view(),
{
}

/// The view of a tool classification says every field of it as it is.
pub proof fn tool_classification_is_said_whole(value: ToolClassification)
    ensures
        value.deep_view().name == value.name.deep_view(),
        value.deep_view().risk == value.risk.deep_view(),
        value.deep_view().side_effects == value.side_effects.deep_view(),
        value.deep_view().pii == value.pii.deep_view(),
        value.deep_view().approved_behavior_hash == value.approved_behavior_hash.deep_view(),
        value.deep_view().discriminator == value.discriminator.deep_view(),
        value.deep_view().operations == value.operations.deep_view(),
{
}

/// The view of a resource claim says every field of it as it is.
pub proof fn resource_claim_is_said_whole(value: ResourceClaim)
    ensures
        value.deep_view().uri_prefix == value.uri_prefix.deep_view(),
        value.deep_view().risk == value.risk.deep_view(),
{
}

/// The view of a token exchange says every field of it as it is.
pub proof fn exchange_config_is_said_whole(value: ExchangeConfig)
    ensures
        value.deep_view().audience == value.audience.deep_view(),
        value.deep_view().scope == value.scope.deep_view(),
{
}

/// The view of a credential block says every field of it as it is.
pub proof fn upstream_auth_is_said_whole(value: UpstreamAuth)
    ensures
        value.deep_view().bearer_env == value.bearer_env.deep_view(),
        value.deep_view().catalog_probe_groups == value.catalog_probe_groups.deep_view(),
{
}

/// The view of a certificate block says every field of it as it is.
pub proof fn mtls_config_is_said_whole(value: MtlsConfig)
    ensures
        value.deep_view().cert_file == value.cert_file.deep_view(),
        value.deep_view().key_file == value.key_file.deep_view(),
        value.deep_view().ca_file == value.ca_file.deep_view(),
{
}

/// The view of a session block says every field of it as it is.
pub proof fn session_config_is_said_whole(value: SessionConfig)
    ensures
        value.deep_view().isolation == value.isolation.deep_view(),
        value.deep_view().concurrency == value.concurrency.deep_view(),
        value.deep_view().retry_on_setup_failure == value.retry_on_setup_failure.deep_view(),
{
}

/// The view of a manifest says every field of it as it is.
pub proof fn upstream_manifest_is_said_whole(value: UpstreamManifest)
    ensures
        value.deep_view().name == value.name.deep_view(),
        value.deep_view().classification_mode == value.classification_mode.deep_view(),
        value.deep_view().approval_mode == value.approval_mode.deep_view(),
        value.deep_view().transport == value.transport.deep_view(),
        value.deep_view().protocol == value.protocol.deep_view(),
        value.deep_view().url == value.url.deep_view(),
        value.deep_view().command == value.command.deep_view(),
        value.deep_view().tools == value.tools.deep_view(),
        value.deep_view().resources == value.resources.deep_view(),
        value.deep_view().exchange == value.exchange.deep_view(),
        value.deep_view().auth == value.auth.deep_view(),
        value.deep_view().mtls == value.mtls.deep_view(),
        value.deep_view().tier_a_required == value.tier_a_required.deep_view(),
        value.deep_view().tier_c_peer == value.tier_c_peer.deep_view(),
        value.deep_view().session == value.session.deep_view(),
{
}

} // verus!
