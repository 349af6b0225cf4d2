//! The relay before and after it serves clients: readiness, restore activation and its exit.

use bytes::BytesMut;
use vstd::prelude::*;
use vstd::string::*;

use crate::buffer::buffer_bytes;
use crate::buffer::buffered;
use crate::buffer::new_buffer;
use crate::frames::frame_is;
use crate::frames::front_frame;
use crate::frames::try_extract_frame;
use crate::frames::FrameError;
use crate::frames::FrontFrame;
use crate::lane::AckProbe;
use crate::text::hex_encode;
use crate::text::hex_text;
use crate::text::joined;
use crate::text::numbered;
use crate::text::prefixed;
use crate::wire::RawFrame;
use crate::wire::WireProfile;

verus! {

pub const READY_TIMEOUT_MS: u64 = 180_000;

/// How long one wait lasts at most while a second lane must be polled too.
pub const BULK_POLL_MS: u64 = 10;

/// Correlation of the private exchange with a restored agent.
pub const RESTORE_CONTROL_ID: u32 = 0xffff_ffff;

/// How long a restored VM may take for each acknowledgement of its activation.
pub const RESTORE_ACTIVATION_TIMEOUT_MS: u64 = 10_000;

/// Why the relay cannot begin to serve.
pub enum ReadyError {
    ReadyBeforeInit,
    Undecodable { reason: String },
    ReadyPayload { reason: String },
    InitPayload { reason: String },
    EarlyBulkData,
    Binding { reason: String },
    LeaseRequired,
    BoundPortMissing,
    UnboundPort,
    TimedOut,
    MissingBulkLane,
    NotReady,
    NotPublished,
}

impl ReadyError {
    pub open spec fn text(self) -> Seq<char> {
        match self {
            ReadyError::ReadyBeforeInit =>
                "agent relay: received core.ready before init context resolution"@,
            ReadyError::Undecodable { reason } => "decode frame: "@ + reason@,
            ReadyError::ReadyPayload { reason } => "decode core.ready payload: "@ + reason@,
            ReadyError::InitPayload { reason } => "decode init context payload: "@ + reason@,
            ReadyError::EarlyBulkData =>
                "agent relay: bulk port sent data before binding acknowledgement"@,
            ReadyError::Binding { reason } => "agent relay: "@ + reason@,
            ReadyError::LeaseRequired => "agent relay: dual-port-v1 requires range-lease-v1"@,
            ReadyError::BoundPortMissing => "agent relay: bound bulk port missing from core.ready"@,
            ReadyError::UnboundPort => "agent relay: core.ready advertised an unbound bulk port"@,
            ReadyError::TimedOut => "agent relay: timed out waiting for core.ready from agentd"@,
            ReadyError::MissingBulkLane =>
                "restored agent requires its captured bulk console lane"@,
            ReadyError::NotReady => "agent relay: run() called before wait_ready()"@,
            ReadyError::NotPublished => "agent relay: endpoint not published"@,
        }
    }

    pub fn message(&self) -> (text: String)
        ensures
            text@ == self.text(),
    {
        match self {
            ReadyError::ReadyBeforeInit => String::from_str(
                "agent relay: received core.ready before init context resolution",
            ),
            ReadyError::Undecodable { reason } => prefixed("decode frame: ", reason.as_str()),
            ReadyError::ReadyPayload { reason } => prefixed(
                "decode core.ready payload: ",
                reason.as_str(),
            ),
            ReadyError::InitPayload { reason } => prefixed(
                "decode init context payload: ",
                reason.as_str(),
            ),
            ReadyError::EarlyBulkData => String::from_str(
                "agent relay: bulk port sent data before binding acknowledgement",
            ),
            ReadyError::Binding { reason } => prefixed("agent relay: ", reason.as_str()),
            ReadyError::LeaseRequired => String::from_str(
                "agent relay: dual-port-v1 requires range-lease-v1",
            ),
            ReadyError::BoundPortMissing => String::from_str(
                "agent relay: bound bulk port missing from core.ready",
            ),
            ReadyError::UnboundPort => String::from_str(
                "agent relay: core.ready advertised an unbound bulk port",
            ),
            ReadyError::TimedOut => String::from_str(
                "agent relay: timed out waiting for core.ready from agentd",
            ),
            ReadyError::MissingBulkLane => String::from_str(
                "restored agent requires its captured bulk console lane",
            ),
            ReadyError::NotReady => String::from_str(
                "agent relay: run() called before wait_ready()",
            ),
            ReadyError::NotPublished => String::from_str("agent relay: endpoint not published"),
        }
    }
}

/// The identity map of bind mounts, which the guest's default user completes.
#[derive(Clone, Copy, Debug, PartialEq, Eq, Structural)]
pub enum IdentityMap {
    /// No mount needs one.
    Absent,
    /// It waits for the guest's default user.
    Pending,
    /// An explicit mount owner, or the guest's default user, set it.
    Installed,
}

/// What the guest's readiness says of its transports.
pub struct ReadyTransport {
    /// The range lease format of this relay is supported.
    pub range_lease: bool,
    /// Where a bulk transport is advertised: whether it is the one that was bound, and the
    /// reason where it is not.
    pub bulk: Option<Result<(), String>>,
}

/// A message of the guest agent before it is ready.
pub enum BootMessage {
    Undecodable { reason: String },
    Ready(Result<ReadyTransport, String>),
    /// The guest's default user and group.
    InitResolved(Result<(u32, u32), String>),
    Other,
}

/// What the relay does with a message before the agent is ready.
pub enum BootStep {
    Fail(ReadyError),
    /// Pass it over.
    Discard,
    /// Acknowledge the init context, after installing the identity map of this user and group
    /// where one is named.
    AcknowledgeInit { install: Option<(u32, u32)> },
    /// The agent is ready. In combined mode an unused bulk lane is closed.
    Ready { dual_port: bool, close_bulk: bool },
}

/// The relay's own state.
pub struct AgentRelay {
    bulk_lane: bool,
    binding: Vec<u8>,
    bulk_connection_id: Option<[u8; 16]>,
    dual_port_active: bool,
    range_lease_active: bool,
    published: bool,
    ready_frame: Option<Vec<u8>>,
    kernel_clock_synchronized: bool,
    logging: bool,
    identity_map: IdentityMap,
    mount_count: usize,
    init_resolved: bool,
}

/// The relay's own state.
#[verifier::ext_equal]
pub ghost struct RelayState {
    pub bulk_lane: bool,
    pub binding: Seq<u8>,
    pub bulk_connection_id: Option<[u8; 16]>,
    pub dual_port_active: bool,
    pub range_lease_active: bool,
    pub published: bool,
    pub ready_frame: Option<Seq<u8>>,
    pub kernel_clock_synchronized: bool,
    pub logging: bool,
    pub identity_map: IdentityMap,
    pub mount_count: usize,
    pub init_resolved: bool,
}

impl View for AgentRelay {
    type V = RelayState;

    closed spec fn view(&self) -> RelayState {
        RelayState {
            bulk_lane: self.bulk_lane,
            binding: self.binding@,
            bulk_connection_id: self.bulk_connection_id,
            dual_port_active: self.dual_port_active,
            range_lease_active: self.range_lease_active,
            published: self.published,
            ready_frame: match self.ready_frame {
                Some(frame) => Some(frame@),
                None => None,
            },
            kernel_clock_synchronized: self.kernel_clock_synchronized,
            logging: self.logging,
            identity_map: self.identity_map,
            mount_count: self.mount_count,
            init_resolved: self.init_resolved,
        }
    }
}

/// A relay that has heard nothing of its guest.
pub open spec fn fresh_relay(bulk_lane: bool, published: bool) -> RelayState {
    RelayState {
        bulk_lane,
        binding: Seq::empty(),
        bulk_connection_id: None,
        dual_port_active: false,
        range_lease_active: false,
        published,
        ready_frame: None,
        kernel_clock_synchronized: false,
        logging: false,
        identity_map: IdentityMap::Absent,
        mount_count: 0,
        init_resolved: false,
    }
}

/// The transport that readiness selects: the failure, or whether both ports are used. A bound port
/// and an advertised one must be the same, and two ports need leased ranges.
pub open spec fn transport_of(
    bound: Option<[u8; 16]>,
    ready: ReadyTransport,
) -> Result<bool, ReadyError> {
    match (bound, ready.bulk) {
        (Some(_), Some(Err(reason))) => Err(ReadyError::Binding { reason }),
        (Some(_), Some(Ok(_))) => if ready.range_lease {
            Ok(true)
        } else {
            Err(ReadyError::LeaseRequired)
        },
        (None, None) => Ok(false),
        (Some(_), None) => Err(ReadyError::BoundPortMissing),
        (None, Some(_)) => Err(ReadyError::UnboundPort),
    }
}

impl RelayState {
    /// The state after readiness was matched to the physical binding.
    pub open spec fn after_selection(self, ready: ReadyTransport) -> RelayState {
        RelayState {
            range_lease_active: ready.range_lease,
            dual_port_active: match transport_of(self.bulk_connection_id, ready) {
                Ok(dual_port) => dual_port,
                Err(_) => self.dual_port_active,
            },
            ..self
        }
    }

    /// What the relay does with a message before the agent is ready, and the state after it.
    pub open spec fn boot(self, message: BootMessage) -> (BootStep, RelayState) {
        match message {
            BootMessage::Undecodable { reason } => (
                BootStep::Fail(ReadyError::Undecodable { reason }),
                self,
            ),
            BootMessage::Ready(payload) => if self.identity_map != IdentityMap::Absent
                && !self.init_resolved {
                (BootStep::Fail(ReadyError::ReadyBeforeInit), self)
            } else {
                match payload {
                    Err(reason) => (BootStep::Fail(ReadyError::ReadyPayload { reason }), self),
                    Ok(ready) => (
                        match transport_of(self.bulk_connection_id, ready) {
                            Err(error) => BootStep::Fail(error),
                            Ok(dual_port) => BootStep::Ready {
                                dual_port,
                                close_bulk: !dual_port && self.bulk_lane,
                            },
                        },
                        self.after_selection(ready),
                    ),
                }
            },
            BootMessage::InitResolved(Err(reason)) => (
                BootStep::Fail(ReadyError::InitPayload { reason }),
                self,
            ),
            BootMessage::InitResolved(Ok(user)) => (
                BootStep::AcknowledgeInit {
                    install: if self.identity_map == IdentityMap::Pending {
                        Some(user)
                    } else {
                        None
                    },
                },
                RelayState {
                    init_resolved: true,
                    identity_map: if self.identity_map == IdentityMap::Pending {
                        IdentityMap::Installed
                    } else {
                        self.identity_map
                    },
                    ..self
                },
            ),
            BootMessage::Other => (BootStep::Discard, self),
        }
    }
}

impl AgentRelay {
    /// A relay over one console lane, whose endpoint is published.
    pub fn new() -> (relay: AgentRelay)
        ensures
            relay@ == fresh_relay(false, true),
    {
        AgentRelay::new_with_bulk(false)
    }

    /// A relay with an optional bulk console lane, whose endpoint is published.
    pub fn new_with_bulk(bulk_lane: bool) -> (relay: AgentRelay)
        ensures
            relay@ == fresh_relay(bulk_lane, true),
    {
        let mut relay = AgentRelay::new_deferred(bulk_lane);
        relay.published = true;
        relay
    }

    /// A relay whose endpoint is not published before its restored VM is active.
    pub fn new_deferred(bulk_lane: bool) -> (relay: AgentRelay)
        ensures
            relay@ == fresh_relay(bulk_lane, false),
    {
        AgentRelay {
            bulk_lane,
            binding: Vec::new(),
            bulk_connection_id: None,
            dual_port_active: false,
            range_lease_active: false,
            published: false,
            ready_frame: None,
            kernel_clock_synchronized: false,
            logging: false,
            identity_map: IdentityMap::Absent,
            mount_count: 0,
            init_resolved: false,
        }
    }

    /// Whether the endpoint must be bound now; it is published from here on.
    pub fn bind_public_endpoint(&mut self) -> (bind: bool)
        ensures
            bind == !old(self)@.published,
            final(self)@ == (RelayState { published: true, ..old(self)@ }),
    {
        let bind = !self.published;
        self.published = true;
        bind
    }

    /// Capture output into the execution log.
    pub fn with_log_writer(self) -> (relay: AgentRelay)
        ensures
            relay@ == (RelayState { logging: true, ..self@ }),
    {
        let mut relay = self;
        relay.logging = true;
        relay
    }

    /// Expect an identity map for this many bind mounts.
    pub fn with_bind_identity_map(self, identity_map: IdentityMap, mount_count: usize) -> (relay:
        AgentRelay)
        ensures
            relay@ == (RelayState { identity_map, mount_count, ..self@ }),
    {
        let mut relay = self;
        relay.identity_map = identity_map;
        relay.mount_count = mount_count;
        relay
    }

    /// Collect the fixed binding of the bulk port. It is complete once, and nothing may follow it
    /// before it is acknowledged.
    pub fn try_bind_bulk_port(&mut self, chunk: &[u8], binding_size: usize) -> (binding: Result<
        Option<Vec<u8>>,
        ReadyError,
    >)
        requires
            old(self)@.binding.len() + chunk@.len() <= usize::MAX,
        ensures
            if old(self)@.bulk_connection_id is Some || !old(self)@.bulk_lane {
                &&& binding matches Ok(None)
                &&& final(self)@ == old(self)@
            } else {
                let collected = old(self)@.binding + chunk@;
                &&& final(self)@ == (RelayState { binding: collected, ..old(self)@ })
                &&& match binding {
                    Err(error) => error is EarlyBulkData && collected.len() > binding_size,
                    Ok(None) => collected.len() < binding_size,
                    Ok(Some(bytes)) => collected.len() == binding_size && bytes@ == collected,
                }
            },
    {
        if self.bulk_connection_id.is_some() || !self.bulk_lane {
            return Ok(None);
        }
        self.binding.extend_from_slice(chunk);
        assert(self.binding@ =~= old(self)@.binding + chunk@);
        if self.binding.len() > binding_size {
            return Err(ReadyError::EarlyBulkData);
        }
        if self.binding.len() != binding_size {
            return Ok(None);
        }
        let mut bytes: Vec<u8> = Vec::new();
        bytes.extend_from_slice(self.binding.as_slice());
        assert(bytes@ =~= self.binding@);
        Ok(Some(bytes))
    }

    /// The binding was acknowledged.
    pub fn bound(&mut self, connection_id: [u8; 16])
        ensures
            final(self)@ == (RelayState { bulk_connection_id: Some(connection_id), ..old(self)@ }),
    {
        self.bulk_connection_id = Some(connection_id);
    }

    /// Match the readiness to the physical binding, or retain the combined transport.
    pub fn select_ready_transport(&mut self, ready: ReadyTransport) -> (dual_port: Result<
        bool,
        ReadyError,
    >)
        ensures
            dual_port == transport_of(old(self)@.bulk_connection_id, ready),
            final(self)@ == old(self)@.after_selection(ready),
    {
        self.range_lease_active = ready.range_lease;
        match (self.bulk_connection_id, ready.bulk) {
            (Some(_), Some(Err(reason))) => Err(ReadyError::Binding { reason }),
            (Some(_), Some(Ok(()))) => {
                if !ready.range_lease {
                    return Err(ReadyError::LeaseRequired);
                }
                self.dual_port_active = true;
                Ok(true)
            },
            (None, None) => {
                self.dual_port_active = false;
                Ok(false)
            },
            (Some(_), None) => Err(ReadyError::BoundPortMissing),
            (None, Some(_)) => Err(ReadyError::UnboundPort),
        }
    }

    /// Decide on a message of the guest agent before it is ready. A pending identity map must be
    /// resolved before readiness.
    pub fn wait_ready(&mut self, message: BootMessage) -> (step: BootStep)
        ensures
            (step, final(self)@) == old(self)@.boot(message),
    {
        match message {
            BootMessage::Undecodable { reason } => BootStep::Fail(
                ReadyError::Undecodable { reason },
            ),
            BootMessage::Ready(payload) => {
                if self.identity_map != IdentityMap::Absent && !self.init_resolved {
                    return BootStep::Fail(ReadyError::ReadyBeforeInit);
                }
                match payload {
                    Err(reason) => BootStep::Fail(ReadyError::ReadyPayload { reason }),
                    Ok(ready) => match self.select_ready_transport(ready) {
                        Err(error) => BootStep::Fail(error),
                        Ok(dual_port) => BootStep::Ready {
                            dual_port,
                            close_bulk: !dual_port && self.bulk_lane,
                        },
                    },
                }
            },
            BootMessage::InitResolved(Err(reason)) => BootStep::Fail(
                ReadyError::InitPayload { reason },
            ),
            BootMessage::InitResolved(Ok(user)) => {
                self.init_resolved = true;
                if self.identity_map == IdentityMap::Pending {
                    self.identity_map = IdentityMap::Installed;
                    BootStep::AcknowledgeInit { install: Some(user) }
                } else {
                    BootStep::AcknowledgeInit { install: None }
                }
            },
            BootMessage::Other => BootStep::Discard,
        }
    }

    /// How long to wait for the guest before looking again.
    pub fn ready_wait(&self, elapsed_ms: u64) -> (wait_ms: Result<u64, ReadyError>)
        ensures
            if elapsed_ms >= READY_TIMEOUT_MS {
                wait_ms == Err::<u64, ReadyError>(ReadyError::TimedOut)
            } else {
                let remaining = (READY_TIMEOUT_MS - elapsed_ms) as u64;
                wait_ms == Ok::<u64, ReadyError>(
                    if self@.bulk_lane && remaining > BULK_POLL_MS {
                        BULK_POLL_MS
                    } else {
                        remaining
                    },
                )
            },
            wait_ms is Err <==> elapsed_ms >= 180_000,
            wait_ms matches Ok(wait) ==> {
                &&& self@.bulk_lane ==> 0 < wait <= 10
                &&& !self@.bulk_lane ==> elapsed_ms + wait == 180_000
                &&& elapsed_ms + wait <= 180_000
            },
    {
        if elapsed_ms >= READY_TIMEOUT_MS {
            return Err(ReadyError::TimedOut);
        }
        let remaining: u64 = READY_TIMEOUT_MS - elapsed_ms;
        if self.bulk_lane && remaining > BULK_POLL_MS {
            Ok(BULK_POLL_MS)
        } else {
            Ok(remaining)
        }
    }

    /// Cache the ready frame for client handshakes.
    pub fn install_ready_frame(&mut self, frame: Vec<u8>)
        ensures
            final(self)@ == (RelayState { ready_frame: Some(frame@), ..old(self)@ }),
    {
        self.ready_frame = Some(frame);
    }

    /// Take over the transports of a captured agent. Guest memory already holds the completed
    /// binding: no new hello is sent.
    pub fn install_restored_ready(&mut self, ready: ReadyTransport, connection_id: Option<[u8; 16]>) -> (dual_port:
        Result<bool, ReadyError>)
        requires
            connection_id is Some <==> ready.bulk is Some,
        ensures
            if ready.bulk is Some && !old(self)@.bulk_lane {
                &&& dual_port == Err::<bool, ReadyError>(ReadyError::MissingBulkLane)
                &&& final(self)@ == old(self)@
            } else {
                &&& dual_port == transport_of(connection_id, ready)
                &&& final(self)@ == (RelayState {
                    bulk_connection_id: connection_id,
                    ..old(self)@
                }).after_selection(ready)
            },
    {
        if ready.bulk.is_some() && !self.bulk_lane {
            return Err(ReadyError::MissingBulkLane);
        }
        self.bulk_connection_id = connection_id;
        self.select_ready_transport(ready)
    }

    /// The kernel processed its new identity and clock.
    pub fn clock_synchronized(&mut self)
        ensures
            final(self)@ == (RelayState { kernel_clock_synchronized: true, ..old(self)@ }),
    {
        self.kernel_clock_synchronized = true;
    }

    /// Begin to serve clients: the cached ready frame, for a relay that is ready and published.
    pub fn run(&mut self) -> (ready_frame: Result<Vec<u8>, ReadyError>)
        ensures
            match old(self)@.ready_frame {
                None => ready_frame == Err::<Vec<u8>, ReadyError>(ReadyError::NotReady)
                    && final(self)@ == old(self)@,
                Some(frame) => final(self)@ == (RelayState { ready_frame: None, ..old(self)@ })
                    && if old(self)@.published {
                    ready_frame matches Ok(bytes) && bytes@ == frame
                } else {
                    ready_frame == Err::<Vec<u8>, ReadyError>(ReadyError::NotPublished)
                },
            },
    {
        let frame = match self.ready_frame.take() {
            Some(frame) => frame,
            None => {
                return Err(ReadyError::NotReady);
            },
        };
        if !self.published {
            return Err(ReadyError::NotPublished);
        }
        Ok(frame)
    }

    pub fn is_dual_port(&self) -> (dual_port: bool)
        ensures
            dual_port == self@.dual_port_active,
    {
        self.dual_port_active
    }

    pub fn leases_ranges(&self) -> (leased: bool)
        ensures
            leased == self@.range_lease_active,
    {
        self.range_lease_active
    }

    pub fn is_clock_synchronized(&self) -> (synchronized: bool)
        ensures
            synchronized == self@.kernel_clock_synchronized,
    {
        self.kernel_clock_synchronized
    }

    pub fn is_logging(&self) -> (logging: bool)
        ensures
            logging == self@.logging,
    {
        self.logging
    }
}

/// Two ports are used only where the bulk port was bound, advertised and matched, and ranges are
/// leased.
pub proof fn dual_port_needs_a_leased_binding(state: RelayState, ready: ReadyTransport)
    requires
        transport_of(state.bulk_connection_id, ready) == Ok::<bool, ReadyError>(true),
    ensures
        state.bulk_connection_id is Some,
        ready.bulk is Some && ready.bulk->0 is Ok,
        state.after_selection(ready).range_lease_active,
{
}

/// A relay with a pending identity map is never ready before the guest's user resolved it.
pub proof fn readiness_waits_for_the_identity_map(state: RelayState, ready: ReadyTransport)
    requires
        state.identity_map == IdentityMap::Pending,
        !state.init_resolved,
    ensures
        state.boot(BootMessage::Ready(Ok(ready))).0 == BootStep::Fail(ReadyError::ReadyBeforeInit),
{
}

/// Where the activation of a restored VM stands.
#[derive(Clone, Copy, Debug, PartialEq, Eq, Structural)]
pub enum ActivationStage {
    WaitPaused,
    PublishWarnings,
    PersistPrepared,
    InstallGeneration,
    Resume,
    AwaitGeneration,
    InstallReady,
    Thaw,
    PersistActivated,
    Activated,
}

/// How waiting for the kernel's acknowledgement ended.
#[derive(Clone, Copy, Debug, PartialEq, Eq, Structural)]
pub enum GenerationWait {
    Processed,
    Failed,
    Superseded,
    TimedOut,
    /// The transport of the request disappeared.
    Gone,
}

/// How the work of a stage ended.
pub enum StageOutcome {
    Done,
    Failed { reason: String },
    /// The VM runs, though it should have been constructed paused.
    NotPaused,
    /// The kernel cannot take an identity and a clock.
    Unsupported,
    Generation(GenerationWait),
}

/// Why a restored VM was not activated.
pub enum ActivationError {
    WaitPaused { reason: String },
    NotPaused,
    Unsupported,
    Resume { reason: String },
    Generation(GenerationWait),
    /// The failure of a stage, in its own words.
    Stage { reason: String },
}

impl ActivationError {
    pub open spec fn text(self) -> Seq<char> {
        match self {
            ActivationError::WaitPaused { reason } => "wait for restored VM pause: "@ + reason@,
            ActivationError::NotPaused => "restored VM did not reach its construction pause"@,
            ActivationError::Unsupported =>
                "restored kernel lacks identity-and-clock activation; recreate this development full snapshot with the updated kernel or use disk-only restore"@,
            ActivationError::Resume { reason } => "resume restored VM for activation: "@ + reason@,
            ActivationError::Generation(GenerationWait::Failed) =>
                "restored kernel rejected identity-and-clock activation; workloads remain frozen"@,
            ActivationError::Generation(GenerationWait::Superseded) =>
                "restored VM Generation ID request was superseded"@,
            ActivationError::Generation(GenerationWait::TimedOut) =>
                "restored VM Generation ID acknowledgement timed out"@,
            ActivationError::Generation(_) => "restored VM Generation ID transport disappeared"@,
            ActivationError::Stage { reason } => reason@,
        }
    }

    pub fn message(&self) -> (text: String)
        ensures
            text@ == self.text(),
    {
        match self {
            ActivationError::WaitPaused { reason } => prefixed(
                "wait for restored VM pause: ",
                reason.as_str(),
            ),
            ActivationError::NotPaused => String::from_str(
                "restored VM did not reach its construction pause",
            ),
            ActivationError::Unsupported => String::from_str(
                "restored kernel lacks identity-and-clock activation; recreate this development full snapshot with the updated kernel or use disk-only restore",
            ),
            ActivationError::Resume { reason } => prefixed(
                "resume restored VM for activation: ",
                reason.as_str(),
            ),
            ActivationError::Generation(GenerationWait::Failed) => String::from_str(
                "restored kernel rejected identity-and-clock activation; workloads remain frozen",
            ),
            ActivationError::Generation(GenerationWait::Superseded) => String::from_str(
                "restored VM Generation ID request was superseded",
            ),
            ActivationError::Generation(GenerationWait::TimedOut) => String::from_str(
                "restored VM Generation ID acknowledgement timed out",
            ),
            ActivationError::Generation(_) => String::from_str(
                "restored VM Generation ID transport disappeared",
            ),
            ActivationError::Stage { reason } => reason.clone(),
        }
    }
}

/// The stage that follows.
pub open spec fn stage_after(stage: ActivationStage) -> ActivationStage {
    match stage {
        ActivationStage::WaitPaused => ActivationStage::PublishWarnings,
        ActivationStage::PublishWarnings => ActivationStage::PersistPrepared,
        ActivationStage::PersistPrepared => ActivationStage::InstallGeneration,
        ActivationStage::InstallGeneration => ActivationStage::Resume,
        ActivationStage::Resume => ActivationStage::AwaitGeneration,
        ActivationStage::AwaitGeneration => ActivationStage::InstallReady,
        ActivationStage::InstallReady => ActivationStage::Thaw,
        ActivationStage::Thaw => ActivationStage::PersistActivated,
        ActivationStage::PersistActivated => ActivationStage::Activated,
        ActivationStage::Activated => ActivationStage::Activated,
    }
}

/// Which outcomes a stage can have.
pub open spec fn fits_stage(stage: ActivationStage, outcome: StageOutcome) -> bool {
    match outcome {
        StageOutcome::Done => stage != ActivationStage::AwaitGeneration,
        StageOutcome::Failed { .. } => stage != ActivationStage::AwaitGeneration && stage
            != ActivationStage::InstallGeneration && stage != ActivationStage::Activated,
        StageOutcome::NotPaused => stage == ActivationStage::WaitPaused,
        StageOutcome::Unsupported => stage == ActivationStage::InstallGeneration,
        StageOutcome::Generation(_) => stage == ActivationStage::AwaitGeneration,
    }
}

/// The stage after an outcome, or why the activation fails.
pub open spec fn activation_next(stage: ActivationStage, outcome: StageOutcome) -> Result<
    ActivationStage,
    ActivationError,
> {
    match outcome {
        StageOutcome::Done | StageOutcome::Generation(GenerationWait::Processed) => Ok(
            stage_after(stage),
        ),
        StageOutcome::NotPaused => Err(ActivationError::NotPaused),
        StageOutcome::Unsupported => Err(ActivationError::Unsupported),
        StageOutcome::Generation(wait) => Err(ActivationError::Generation(wait)),
        StageOutcome::Failed { reason } => Err(
            match stage {
                ActivationStage::WaitPaused => ActivationError::WaitPaused { reason },
                ActivationStage::Resume => ActivationError::Resume { reason },
                _ => ActivationError::Stage { reason },
            },
        ),
    }
}

/// Go on with the activation of a restored VM. The restored agent does not reboot: only the kernel
/// and the agent are resumed until the new identity is acknowledged, then the captured workload is
/// released.
pub fn activate_restored(stage: ActivationStage, outcome: StageOutcome) -> (next: Result<
    ActivationStage,
    ActivationError,
>)
    requires
        fits_stage(stage, outcome),
    ensures
        next == activation_next(stage, outcome),
{
    match outcome {
        StageOutcome::NotPaused => Err(ActivationError::NotPaused),
        StageOutcome::Unsupported => Err(ActivationError::Unsupported),
        StageOutcome::Failed { reason } => Err(
            match stage {
                ActivationStage::WaitPaused => ActivationError::WaitPaused { reason },
                ActivationStage::Resume => ActivationError::Resume { reason },
                _ => ActivationError::Stage { reason },
            },
        ),
        StageOutcome::Generation(wait) => match wait {
            GenerationWait::Processed => Ok(following(stage)),
            wait => Err(ActivationError::Generation(wait)),
        },
        StageOutcome::Done => Ok(following(stage)),
    }
}

fn following(stage: ActivationStage) -> (next: ActivationStage)
    ensures
        next == stage_after(stage),
{
    match stage {
        ActivationStage::WaitPaused => ActivationStage::PublishWarnings,
        ActivationStage::PublishWarnings => ActivationStage::PersistPrepared,
        ActivationStage::PersistPrepared => ActivationStage::InstallGeneration,
        ActivationStage::InstallGeneration => ActivationStage::Resume,
        ActivationStage::Resume => ActivationStage::AwaitGeneration,
        ActivationStage::AwaitGeneration => ActivationStage::InstallReady,
        ActivationStage::InstallReady => ActivationStage::Thaw,
        ActivationStage::Thaw => ActivationStage::PersistActivated,
        ActivationStage::PersistActivated => ActivationStage::Activated,
        ActivationStage::Activated => ActivationStage::Activated,
    }
}

/// How far a stage is from the beginning.
pub open spec fn stage_rank(stage: ActivationStage) -> nat {
    match stage {
        ActivationStage::WaitPaused => 0,
        ActivationStage::PublishWarnings => 1,
        ActivationStage::PersistPrepared => 2,
        ActivationStage::InstallGeneration => 3,
        ActivationStage::Resume => 4,
        ActivationStage::AwaitGeneration => 5,
        ActivationStage::InstallReady => 6,
        ActivationStage::Thaw => 7,
        ActivationStage::PersistActivated => 8,
        ActivationStage::Activated => 9,
    }
}

/// No stage is skipped, and clients and workload come only behind the kernel's acknowledgement of
/// its new identity: the step into readiness is taken on that acknowledgement alone.
pub proof fn workload_waits_for_the_new_identity(stage: ActivationStage, outcome: StageOutcome)
    requires
        fits_stage(stage, outcome),
        stage != ActivationStage::Activated,
    ensures
        activation_next(stage, outcome) matches Ok(next) ==> stage_rank(next) == stage_rank(stage)
            + 1,
        activation_next(stage, outcome) == Ok::<ActivationStage, ActivationError>(
            ActivationStage::InstallReady,
        ) ==> outcome == StageOutcome::Generation(GenerationWait::Processed),
{
}

/// The diagnostic record of an activation.
pub struct RestoreActivationRecord {
    pub attempt_id: String,
    pub vm_generation_id: String,
    pub state: String,
}

/// The record of an activation that is prepared or done.
pub fn restore_activation_record(attempt_id: &str, generation_id: &[u8; 16], activated: bool) -> (record:
    RestoreActivationRecord)
    ensures
        record.attempt_id@ == attempt_id@,
        record.vm_generation_id@ == hex_text(generation_id@),
        record.state@ == if activated {
            "activated"@
        } else {
            "prepared"@
        },
{
    RestoreActivationRecord {
        attempt_id: String::from_str(attempt_id),
        vm_generation_id: hex_encode(generation_id.as_slice()),
        state: if activated {
            String::from_str("activated")
        } else {
            String::from_str("prepared")
        },
    }
}

/// The name of the file that replaces the record.
pub fn restore_temporary_name(nonce: u64) -> (name: String)
    ensures
        name@ == ".restore-activation."@ + crate::text::decimal(nonce as nat) + ".tmp"@,
{
    numbered(".restore-activation.", nonce, ".tmp")
}

/// How a frozen workload goes on.
#[derive(Clone, Copy, Debug, PartialEq, Eq, Structural)]
pub enum ThawMode {
    /// In the VM that was captured.
    Continue,
    /// In a VM that was restored from the capture.
    Restore,
}

/// The request that releases the workload of a restored VM.
pub struct ThawRequest {
    /// The generation of the protocol that the captured agent speaks.
    pub version: u8,
    pub id: u32,
    pub attempt_id: String,
    pub mode: ThawMode,
}

/// Ask the restored agent to release the workload of this attempt, in the generation that was
/// captured with it.
pub fn restored_thaw_request(attempt_id: &str, captured_generation: u8) -> (request: ThawRequest)
    ensures
        request.version == captured_generation,
        request.id == RESTORE_CONTROL_ID,
        request.id == 0xffff_ffff,
        request.attempt_id@ == attempt_id@,
        request.mode == ThawMode::Restore,
{
    ThawRequest {
        version: captured_generation,
        id: RESTORE_CONTROL_ID,
        attempt_id: String::from_str(attempt_id),
        mode: ThawMode::Restore,
    }
}

/// The encoded thaw request, until the ring has taken it.
pub struct PendingThaw {
    frame: Option<Vec<u8>>,
}

impl View for PendingThaw {
    type V = Option<Seq<u8>>;

    /// What is still to be sent.
    closed spec fn view(&self) -> Option<Seq<u8>> {
        match self.frame {
            Some(frame) => Some(frame@),
            None => None,
        }
    }
}

impl PendingThaw {
    pub fn new(frame: Vec<u8>) -> (pending: PendingThaw)
        ensures
            pending@ == Some(frame@),
    {
        PendingThaw { frame: Some(frame) }
    }

    /// The frame to offer to the ring, if the ring has not taken it.
    pub fn offer(&self) -> (frame: Option<&Vec<u8>>)
        ensures
            match frame {
                Some(frame) => self@ == Some(frame@),
                None => self@ is None,
            },
    {
        self.frame.as_ref()
    }

    /// The ring was offered the frame. One that it took is never offered again.
    pub fn offered(&mut self, taken: bool)
        ensures
            final(self)@ == if taken {
                None
            } else {
                old(self)@
            },
    {
        if taken {
            self.frame = None;
        }
    }

    /// Whether to look again soon: for bulk records, which arrive without a notice, or for room for
    /// the request.
    pub fn polls(&self, has_bulk_lane: bool) -> (polls: bool)
        ensures
            polls == (has_bulk_lane || self@ is Some),
    {
        has_bulk_lane || self.frame.is_some()
    }
}

/// What is still to be sent after so many offers.
pub open spec fn after_offers(pending: Option<Seq<u8>>, taken: Seq<bool>) -> Option<Seq<u8>>
    decreases taken.len(),
{
    if taken.len() == 0 {
        pending
    } else {
        let before = after_offers(pending, taken.drop_last());
        if taken.last() {
            None
        } else {
            before
        }
    }
}

/// The thaw request is sent once: it is offered, unchanged, until the ring takes it, and not after
/// that.
pub proof fn thaw_request_is_sent_once(frame: Seq<u8>, taken: Seq<bool>)
    ensures
        after_offers(Some(frame), taken) == if taken.contains(true) {
            None
        } else {
            Some(frame)
        },
    decreases taken.len(),
{
    if taken.len() > 0 {
        let before = taken.drop_last();
        thaw_request_is_sent_once(frame, before);
        assert(taken.contains(true) <==> before.contains(true) || taken.last()) by {
            if before.contains(true) {
                let i = choose|i: int| 0 <= i < before.len() && before[i] == true;
                assert(taken[i] == true);
            }
            if taken.last() {
                assert(taken[taken.len() - 1] == true);
            }
            if taken.contains(true) && !taken.last() {
                let i = choose|i: int| 0 <= i < taken.len() && taken[i] == true;
                assert(before[i] == true);
            }
        }
    } else {
        assert(!taken.contains(true));
    }
}

/// The body of a message that answers a thaw.
pub enum ThawBody {
    /// The agent refused: its reason, or why the reply does not decode.
    CoreError(Result<String, String>),
    /// Returned transport credit.
    TransportCredit,
    /// The attempt that was thawed, or why the reply does not decode.
    Thawed(Result<String, String>),
    /// Another message, by its name.
    Other { name: String },
}

/// A control message of the restored agent.
pub struct ThawMessage {
    pub id: u32,
    pub body: ThawBody,
}

/// Why a restored workload was not released.
pub enum ThawError {
    PartialInput,
    Acknowledgement { reason: String },
    Frame(FrameError),
    Undecodable { reason: String },
    RejectionPayload { reason: String },
    Rejected { reason: String },
    Unexpected { name: String },
    ThawedPayload { reason: String },
    ForeignAttempt,
    TimedOut,
}

impl ThawError {
    pub open spec fn text(self) -> Seq<char> {
        match self {
            ThawError::PartialInput =>
                "restored transport did not start at a complete-frame boundary"@,
            ThawError::Acknowledgement { reason } => "restore disconnect acknowledgement: "@
                + reason@,
            ThawError::Frame(error) => error.text(),
            ThawError::Undecodable { reason } => "decode frame: "@ + reason@,
            ThawError::RejectionPayload { reason } => "decode restored workload thaw error: "@
                + reason@,
            ThawError::Rejected { reason } => "restored workload thaw rejected: "@ + reason@,
            ThawError::Unexpected { name } => "unexpected restored workload reply "@ + name@,
            ThawError::ThawedPayload { reason } => "decode restored workload thaw: "@ + reason@,
            ThawError::ForeignAttempt =>
                "restored workload thaw belongs to another checkpoint attempt"@,
            ThawError::TimedOut => "restored workload thaw timed out"@,
        }
    }

    pub fn message(&self) -> (text: String)
        ensures
            text@ == self.text(),
    {
        match self {
            ThawError::PartialInput => String::from_str(
                "restored transport did not start at a complete-frame boundary",
            ),
            ThawError::Acknowledgement { reason } => prefixed(
                "restore disconnect acknowledgement: ",
                reason.as_str(),
            ),
            ThawError::Frame(error) => error.message(),
            ThawError::Undecodable { reason } => prefixed("decode frame: ", reason.as_str()),
            ThawError::RejectionPayload { reason } => prefixed(
                "decode restored workload thaw error: ",
                reason.as_str(),
            ),
            ThawError::Rejected { reason } => prefixed(
                "restored workload thaw rejected: ",
                reason.as_str(),
            ),
            ThawError::Unexpected { name } => prefixed(
                "unexpected restored workload reply ",
                name.as_str(),
            ),
            ThawError::ThawedPayload { reason } => prefixed(
                "decode restored workload thaw: ",
                reason.as_str(),
            ),
            ThawError::ForeignAttempt => String::from_str(
                "restored workload thaw belongs to another checkpoint attempt",
            ),
            ThawError::TimedOut => String::from_str("restored workload thaw timed out"),
        }
    }
}

/// What the control lane of a restored agent brings next.
pub enum RestoredStep {
    /// An acknowledgement of a disconnect from before the activation: pass it over.
    Acknowledged,
    /// The buffer holds no complete frame.
    NeedMore,
    Frame(RawFrame),
    Fail(ThawError),
}

/// What the control lane of a restored agent brings next, for the bytes that it holds before and
/// after. Acknowledgements go before frames.
pub open spec fn is_restored_step(
    profile: WireProfile,
    probe: AckProbe,
    before: Seq<u8>,
    after: Seq<u8>,
    step: RestoredStep,
) -> bool {
    match probe {
        AckProbe::Taken(_) => step is Acknowledged && after == before,
        AckProbe::Invalid { reason } => step == RestoredStep::Fail(
            ThawError::Acknowledgement { reason },
        ) && after == before,
        AckProbe::Absent => match front_frame(profile.max_frame_size, before) {
            FrontFrame::Partial => step is NeedMore && after == before,
            FrontFrame::Invalid(error) => step == RestoredStep::Fail(ThawError::Frame(error))
                && after == before,
            FrontFrame::Complete(len) => {
                &&& after == before.subrange(len as int, before.len() as int)
                &&& step matches RestoredStep::Frame(frame)
                &&& frame_is(frame, before.subrange(0, len as int))
            },
        },
    }
}

/// Take what the control lane of a restored agent brings next off its buffer. `probe` says what
/// looking for an acknowledgement at its front showed.
pub fn next_restored_step(profile: &WireProfile, probe: AckProbe, input: &mut BytesMut) -> (step:
    RestoredStep)
    ensures
        is_restored_step(*profile, probe, buffered(*old(input)), buffered(*final(input)), step),
{
    match probe {
        AckProbe::Taken(_) => {
            return RestoredStep::Acknowledged;
        },
        AckProbe::Invalid { reason } => {
            return RestoredStep::Fail(ThawError::Acknowledgement { reason });
        },
        AckProbe::Absent => {},
    }
    match try_extract_frame(profile, input) {
        Ok(Some(frame)) => RestoredStep::Frame(frame),
        Ok(None) => RestoredStep::NeedMore,
        Err(error) => RestoredStep::Fail(ThawError::Frame(error)),
    }
}

/// What the relay does with a frame of the restored agent before its workload is released.
pub enum ThawStep {
    /// Pass the frame over.
    Discard,
    /// Hand the returned credit on.
    Credit,
    /// The workload is released.
    Released,
    Fail(ThawError),
}

/// What the relay does with a frame of the restored agent. Stale bulk records of a combined
/// transport are opaque, and other correlations are from before the activation.
pub open spec fn thaw_step_of(
    is_bulk: bool,
    decoded: Result<ThawMessage, String>,
    restore_id: u32,
    attempt_id: Seq<char>,
) -> ThawStep {
    if is_bulk {
        ThawStep::Discard
    } else {
        match decoded {
            Err(reason) => ThawStep::Fail(ThawError::Undecodable { reason }),
            Ok(message) => if message.id != restore_id {
                ThawStep::Discard
            } else {
                match message.body {
                    ThawBody::CoreError(Err(reason)) => ThawStep::Fail(
                        ThawError::RejectionPayload { reason },
                    ),
                    ThawBody::CoreError(Ok(reason)) => ThawStep::Fail(
                        ThawError::Rejected { reason },
                    ),
                    ThawBody::TransportCredit => ThawStep::Credit,
                    ThawBody::Thawed(Err(reason)) => ThawStep::Fail(
                        ThawError::ThawedPayload { reason },
                    ),
                    ThawBody::Thawed(Ok(attempt)) => if attempt@ == attempt_id {
                        ThawStep::Released
                    } else {
                        ThawStep::Fail(ThawError::ForeignAttempt)
                    },
                    ThawBody::Other { name } => ThawStep::Fail(ThawError::Unexpected { name }),
                }
            },
        }
    }
}

/// Decide on a frame of the restored agent before its workload is released.
pub fn thaw_restored_workload(
    profile: &WireProfile,
    frame: &RawFrame,
    decoded: Result<ThawMessage, String>,
    attempt_id: &String,
) -> (step: ThawStep)
    ensures
        step == thaw_step_of(
            frame.flags == profile.flag_bulk,
            decoded,
            RESTORE_CONTROL_ID,
            attempt_id@,
        ),
{
    if frame.flags == profile.flag_bulk {
        return ThawStep::Discard;
    }
    let message = match decoded {
        Ok(message) => message,
        Err(reason) => {
            return ThawStep::Fail(ThawError::Undecodable { reason });
        },
    };
    if message.id != RESTORE_CONTROL_ID {
        return ThawStep::Discard;
    }
    match message.body {
        ThawBody::CoreError(Err(reason)) => ThawStep::Fail(ThawError::RejectionPayload { reason }),
        ThawBody::CoreError(Ok(reason)) => ThawStep::Fail(ThawError::Rejected { reason }),
        ThawBody::TransportCredit => ThawStep::Credit,
        ThawBody::Thawed(Err(reason)) => ThawStep::Fail(ThawError::ThawedPayload { reason }),
        ThawBody::Thawed(Ok(attempt)) => if attempt == *attempt_id {
            ThawStep::Released
        } else {
            ThawStep::Fail(ThawError::ForeignAttempt)
        },
        ThawBody::Other { name } => ThawStep::Fail(ThawError::Unexpected { name }),
    }
}

/// A workload is released by the acknowledgement of its own attempt alone.
pub proof fn release_needs_its_own_attempt(
    is_bulk: bool,
    decoded: Result<ThawMessage, String>,
    restore_id: u32,
    attempt_id: Seq<char>,
)
    requires
        thaw_step_of(is_bulk, decoded, restore_id, attempt_id) is Released,
    ensures
        !is_bulk,
        decoded is Ok,
        decoded->Ok_0.id == restore_id,
        decoded->Ok_0.body matches ThawBody::Thawed(Ok(attempt)) && attempt@ == attempt_id,
{
}

/// What was read of the restored guest before its workload was released, by lane.
pub struct RestoredInput {
    pub control: BytesMut,
    pub bulk: BytesMut,
}

impl RestoredInput {
    pub fn new() -> (input: RestoredInput)
        ensures
            buffered(input.control).len() == 0,
            buffered(input.bulk).len() == 0,
    {
        RestoredInput { control: new_buffer(), bulk: new_buffer() }
    }

    /// A thaw must begin at a frame boundary on both lanes.
    pub fn check_boundary(&self) -> (result: Result<(), ThawError>)
        ensures
            match result {
                Ok(()) => buffered(self.control).len() == 0 && buffered(self.bulk).len() == 0,
                Err(error) => error is PartialInput && (buffered(self.control).len() > 0
                    || buffered(self.bulk).len() > 0),
            },
    {
        if buffer_bytes(&self.control).len() != 0 || buffer_bytes(&self.bulk).len() != 0 {
            return Err(ThawError::PartialInput);
        }
        Ok(())
    }
}

/// How long to wait for the restored guest before looking again.
pub fn thaw_wait(elapsed_ms: u64, timeout_ms: u64, polls: bool) -> (wait_ms: Result<u64, ThawError>)
    ensures
        if elapsed_ms >= timeout_ms {
            wait_ms == Err::<u64, ThawError>(ThawError::TimedOut)
        } else {
            let remaining = (timeout_ms - elapsed_ms) as u64;
            wait_ms == Ok::<u64, ThawError>(
                if polls && remaining > BULK_POLL_MS {
                    BULK_POLL_MS
                } else {
                    remaining
                },
            )
        },
        wait_ms matches Ok(wait) ==> {
            &&& polls ==> 0 < wait <= 10
            &&& !polls ==> elapsed_ms + wait == timeout_ms
            &&& elapsed_ms + wait <= timeout_ms
        },
{
    if elapsed_ms >= timeout_ms {
        return Err(ThawError::TimedOut);
    }
    let remaining: u64 = timeout_ms - elapsed_ms;
    if polls && remaining > BULK_POLL_MS {
        Ok(BULK_POLL_MS)
    } else {
        Ok(remaining)
    }
}

/// What ended the relay's work.
pub enum RelayEvent {
    /// The task that reads the guest's output ended: its result, or why it could not be joined.
    Reader(Result<Result<(), String>, String>),
    /// The task that writes the control lane ended.
    Writer(Result<Result<(), String>, String>),
    /// A writer of the bulk lane ended.
    Bulk(Result<(), String>),
    /// The shutdown signal changed, and is set now, or its sender is gone.
    Shutdown { signalled: bool, sender_gone: bool },
}

/// How the relay ends.
pub struct RelayExit {
    pub failure: Option<String>,
    /// The control lane can still be written.
    pub control_writer_usable: bool,
    /// The guest's terminals can still be observed.
    pub can_observe_failure_terminals: bool,
}

/// How the relay ends, as text.
pub ghost struct ExitView {
    pub failure: Option<Seq<char>>,
    pub control_writer_usable: bool,
    pub can_observe_failure_terminals: bool,
}

impl View for RelayExit {
    type V = ExitView;

    open spec fn view(&self) -> ExitView {
        ExitView {
            failure: match self.failure {
                Some(failure) => Some(failure@),
                None => None,
            },
            control_writer_usable: self.control_writer_usable,
            can_observe_failure_terminals: self.can_observe_failure_terminals,
        }
    }
}

/// The failure of a task that ended. A clean end is no failure once shutdown was requested.
pub open spec fn task_failure(
    name: Seq<char>,
    result: Result<Result<(), String>, String>,
    shutdown_requested: bool,
) -> Option<Seq<char>> {
    match result {
        Ok(Ok(_)) => if shutdown_requested {
            None
        } else {
            Some("agent relay: "@ + name + " stopped unexpectedly"@)
        },
        Ok(Err(error)) => Some(error@),
        Err(error) => Some("agent relay: "@ + name + " task failed: "@ + error@),
    }
}

/// How the relay ends on an event; `None` where it goes on.
pub open spec fn exit_of(event: RelayEvent, shutdown_requested: bool) -> Option<ExitView> {
    match event {
        RelayEvent::Reader(result) => Some(
            ExitView {
                failure: task_failure("console reader"@, result, shutdown_requested),
                control_writer_usable: true,
                can_observe_failure_terminals: false,
            },
        ),
        RelayEvent::Writer(result) => Some(
            ExitView {
                failure: task_failure("control console writer"@, result, shutdown_requested),
                control_writer_usable: false,
                can_observe_failure_terminals: false,
            },
        ),
        RelayEvent::Bulk(result) => Some(
            ExitView {
                failure: task_failure("bulk console writer"@, Ok(result), shutdown_requested),
                control_writer_usable: true,
                can_observe_failure_terminals: true,
            },
        ),
        RelayEvent::Shutdown { signalled, sender_gone } => if signalled || sender_gone {
            Some(
                ExitView {
                    failure: None,
                    control_writer_usable: false,
                    can_observe_failure_terminals: false,
                },
            )
        } else {
            None
        },
    }
}

/// A signalled or dropped shutdown sender permits a clean end of a task.
pub fn relay_shutdown_requested(signalled: bool, sender_gone: bool) -> (requested: bool)
    ensures
        requested == (signalled || sender_gone),
{
    signalled || sender_gone
}

fn failure_of_task(
    name: &str,
    result: Result<Result<(), String>, String>,
    shutdown_requested: bool,
) -> (failure: Option<String>)
    ensures
        match failure {
            Some(failure) => task_failure(name@, result, shutdown_requested) == Some(failure@),
            None => task_failure(name@, result, shutdown_requested) is None,
        },
{
    match result {
        Ok(Ok(())) => if shutdown_requested {
            None
        } else {
            Some(joined("agent relay: ", name, " stopped unexpectedly"))
        },
        Ok(Err(error)) => Some(error),
        Err(error) => {
            let mut text = joined("agent relay: ", name, " task failed: ");
            text.append(error.as_str());
            Some(text)
        },
    }
}

/// Decide how the relay ends. Ended tasks come before a simultaneous shutdown, so that genuine
/// failures are retained.
pub fn wait_relay_exit(event: RelayEvent, shutdown_requested: bool) -> (exit: Option<RelayExit>)
    ensures
        match exit {
            Some(exit) => exit_of(event, shutdown_requested) == Some(exit@),
            None => exit_of(event, shutdown_requested) is None,
        },
{
    match event {
        RelayEvent::Reader(result) => Some(
            RelayExit {
                failure: failure_of_task("console reader", result, shutdown_requested),
                control_writer_usable: true,
                can_observe_failure_terminals: false,
            },
        ),
        RelayEvent::Writer(result) => Some(
            RelayExit {
                failure: failure_of_task("control console writer", result, shutdown_requested),
                control_writer_usable: false,
                can_observe_failure_terminals: false,
            },
        ),
        RelayEvent::Bulk(result) => Some(
            RelayExit {
                failure: failure_of_task("bulk console writer", Ok(result), shutdown_requested),
                control_writer_usable: true,
                can_observe_failure_terminals: true,
            },
        ),
        RelayEvent::Shutdown { signalled, sender_gone } => {
            if relay_shutdown_requested(signalled, sender_gone) {
                Some(
                    RelayExit {
                        failure: None,
                        control_writer_usable: false,
                        can_observe_failure_terminals: false,
                    },
                )
            } else {
                None
            }
        },
    }
}

/// A task's own error is kept even where shutdown was requested at the same time.
pub proof fn genuine_failures_survive_shutdown(error: String, shutdown_requested: bool)
    ensures
        exit_of(RelayEvent::Reader(Ok(Err(error))), shutdown_requested)->0.failure == Some(error@),
        exit_of(RelayEvent::Writer(Ok(Err(error))), shutdown_requested)->0.failure == Some(error@),
        exit_of(RelayEvent::Bulk(Err(error)), shutdown_requested)->0.failure == Some(error@),
{
}

/// Readiness is taken in exactly two ways: two ports where a bound port is advertised as the bound
/// one under leased ranges, and one port where none is bound and none is advertised. Every other
/// combination fails with the reason of its own.
pub proof fn transports_must_agree(
    bound: Option<[u8; 16]>,
    ready: ReadyTransport,
    state: RelayState,
)
    ensures
        transport_of(bound, ready) == Ok::<bool, ReadyError>(true) <==> bound is Some
            && ready.bulk is Some && ready.bulk->0 is Ok && ready.range_lease,
        transport_of(bound, ready) == Ok::<bool, ReadyError>(false) <==> bound is None
            && ready.bulk is None,
        bound is Some && ready.bulk is None ==> transport_of(bound, ready) == Err::<bool, ReadyError>(
            ReadyError::BoundPortMissing,
        ),
        bound is None && ready.bulk is Some ==> transport_of(bound, ready) == Err::<bool, ReadyError>(
            ReadyError::UnboundPort,
        ),
        bound is Some && ready.bulk is Some && ready.bulk->0 is Ok && !ready.range_lease
            ==> transport_of(bound, ready) == Err::<bool, ReadyError>(ReadyError::LeaseRequired),
        bound is Some && ready.bulk is Some && ready.bulk->0 is Err ==> transport_of(bound, ready)
            == Err::<bool, ReadyError>(ReadyError::Binding { reason: (ready.bulk->0)->Err_0 }),
        ({
            let after = state.after_selection(ready);
            let chosen = transport_of(state.bulk_connection_id, ready);
            &&& after.range_lease_active == ready.range_lease
            &&& chosen matches Ok(dual_port) ==> after.dual_port_active == dual_port
            &&& chosen is Err ==> after.dual_port_active == state.dual_port_active
            &&& after.bulk_connection_id == state.bulk_connection_id
            &&& after.published == state.published
            &&& after.ready_frame == state.ready_frame
            &&& after.identity_map == state.identity_map
            &&& after.init_resolved == state.init_resolved
            &&& after.bulk_lane == state.bulk_lane
        }),
{
}

/// The guest's user is installed once, and only where a map waits for it; readiness is refused only
/// while such a map is unresolved, or for its own failure; a combined transport closes a bulk lane
/// that it does not use; and every other message is passed over.
pub proof fn boot_follows_the_guest(
    state: RelayState,
    ready: ReadyTransport,
    user: (u32, u32),
    again: (u32, u32),
)
    ensures
        ({
            let (step, after) = state.boot(BootMessage::InitResolved(Ok(user)));
            let (second, _) = after.boot(BootMessage::InitResolved(Ok(again)));
            &&& step == (BootStep::AcknowledgeInit {
                install: if state.identity_map == IdentityMap::Pending {
                    Some(user)
                } else {
                    None
                },
            })
            &&& second == (BootStep::AcknowledgeInit { install: None })
            &&& after.init_resolved
            &&& after.identity_map == if state.identity_map == IdentityMap::Pending {
                IdentityMap::Installed
            } else {
                state.identity_map
            }
            &&& after.published == state.published && after.ready_frame == state.ready_frame
                && after.bulk_connection_id == state.bulk_connection_id && after.dual_port_active
                == state.dual_port_active
        }),
        state.identity_map != IdentityMap::Absent && !state.init_resolved ==> {
            let (step, after) = state.boot(BootMessage::Ready(Ok(ready)));
            step == BootStep::Fail(ReadyError::ReadyBeforeInit) && after == state
        },
        state.identity_map == IdentityMap::Absent || state.init_resolved ==> {
            let (step, after) = state.boot(BootMessage::Ready(Ok(ready)));
            &&& after == state.after_selection(ready)
            &&& match transport_of(state.bulk_connection_id, ready) {
                Ok(true) => step == (BootStep::Ready { dual_port: true, close_bulk: false }),
                Ok(false) => step == (BootStep::Ready {
                    dual_port: false,
                    close_bulk: state.bulk_lane,
                }),
                Err(error) => step == BootStep::Fail(error),
            }
        },
        state.boot(BootMessage::Other) == (BootStep::Discard, state),
{
}

/// A message that cannot be read fails the boot with its reason, and changes nothing.
pub proof fn unreadable_boot_messages_fail(state: RelayState, reason: String)
    ensures
        state.boot(BootMessage::Undecodable { reason }) == (
            BootStep::Fail(ReadyError::Undecodable { reason }),
            state,
        ),
        state.boot(BootMessage::InitResolved(Err(reason))) == (
            BootStep::Fail(ReadyError::InitPayload { reason }),
            state,
        ),
        state.identity_map == IdentityMap::Absent || state.init_resolved ==> state.boot(
            BootMessage::Ready(Err(reason)),
        ) == (BootStep::Fail(ReadyError::ReadyPayload { reason }), state),
{
}

/// A relay begins with nothing: no binding, no transport, no frame, no map.
pub proof fn relays_begin_with_nothing(bulk_lane: bool, published: bool)
    ensures
        ({
            let state = fresh_relay(bulk_lane, published);
            &&& state.bulk_lane == bulk_lane && state.published == published
            &&& state.binding.len() == 0 && state.bulk_connection_id is None
            &&& !state.dual_port_active && !state.range_lease_active
            &&& state.ready_frame is None && !state.kernel_clock_synchronized && !state.logging
            &&& state.identity_map == IdentityMap::Absent && state.mount_count == 0
                && !state.init_resolved
        }),
{
}

/// An activation pauses, warns and writes down what it prepares before it installs the new identity;
/// only then is the VM resumed, and only behind the acknowledgement does it become ready, release its
/// workload and write down that it did.
pub proof fn activation_takes_every_step()
    ensures
        stage_after(ActivationStage::WaitPaused) == ActivationStage::PublishWarnings,
        stage_after(ActivationStage::PublishWarnings) == ActivationStage::PersistPrepared,
        stage_after(ActivationStage::PersistPrepared) == ActivationStage::InstallGeneration,
        stage_after(ActivationStage::InstallGeneration) == ActivationStage::Resume,
        stage_after(ActivationStage::Resume) == ActivationStage::AwaitGeneration,
        stage_after(ActivationStage::AwaitGeneration) == ActivationStage::InstallReady,
        stage_after(ActivationStage::InstallReady) == ActivationStage::Thaw,
        stage_after(ActivationStage::Thaw) == ActivationStage::PersistActivated,
        stage_after(ActivationStage::PersistActivated) == ActivationStage::Activated,
        stage_after(ActivationStage::Activated) == ActivationStage::Activated,
{
}

/// An activation goes on exactly where its stage was done or the kernel processed its identity;
/// otherwise it fails, and says what failed.
pub proof fn activation_fails_with_its_reason(stage: ActivationStage, outcome: StageOutcome)
    requires
        fits_stage(stage, outcome),
    ensures
        activation_next(stage, outcome) is Ok <==> outcome is Done || outcome
            == StageOutcome::Generation(GenerationWait::Processed),
        outcome matches StageOutcome::Failed { reason } ==> match activation_next(stage, outcome) {
            Err(ActivationError::WaitPaused { reason: told }) => stage
                == ActivationStage::WaitPaused && told == reason,
            Err(ActivationError::Resume { reason: told }) => stage == ActivationStage::Resume && told
                == reason,
            Err(ActivationError::Stage { reason: told }) => stage != ActivationStage::WaitPaused
                && stage != ActivationStage::Resume && told == reason,
            _ => false,
        },
        outcome is NotPaused ==> activation_next(stage, outcome) == Err::<
            ActivationStage,
            ActivationError,
        >(ActivationError::NotPaused),
        outcome is Unsupported ==> activation_next(stage, outcome) == Err::<
            ActivationStage,
            ActivationError,
        >(ActivationError::Unsupported),
        outcome matches StageOutcome::Generation(wait) ==> (wait != GenerationWait::Processed
            ==> activation_next(stage, outcome) == Err::<ActivationStage, ActivationError>(
            ActivationError::Generation(wait),
        )),
{
}

/// What the restored agent sends before its workload is released: raw records and other
/// correlations are passed over, credit is handed on, the acknowledgement of the own attempt releases,
/// and everything else under the private correlation fails with its reason.
pub proof fn thaw_replies_are_told_apart(
    decoded: ThawMessage,
    restore_id: u32,
    attempt_id: Seq<char>,
    reason: String,
)
    ensures
        thaw_step_of(true, Ok(decoded), restore_id, attempt_id) is Discard,
        thaw_step_of(true, Err(reason), restore_id, attempt_id) is Discard,
        thaw_step_of(false, Err(reason), restore_id, attempt_id) == ThawStep::Fail(
            ThawError::Undecodable { reason },
        ),
        decoded.id != restore_id ==> thaw_step_of(false, Ok(decoded), restore_id, attempt_id)
            is Discard,
        decoded.id == restore_id ==> match (
            decoded.body,
            thaw_step_of(false, Ok(decoded), restore_id, attempt_id),
        ) {
            (ThawBody::TransportCredit, ThawStep::Credit) => true,
            (ThawBody::Thawed(Ok(attempt)), ThawStep::Released) => attempt@ == attempt_id,
            (ThawBody::Thawed(Ok(attempt)), ThawStep::Fail(ThawError::ForeignAttempt)) => attempt@
                != attempt_id,
            (ThawBody::Thawed(Err(a)), ThawStep::Fail(ThawError::ThawedPayload { reason: b })) => a
                == b,
            (
                ThawBody::CoreError(Err(a)),
                ThawStep::Fail(ThawError::RejectionPayload { reason: b }),
            ) => a == b,
            (ThawBody::CoreError(Ok(a)), ThawStep::Fail(ThawError::Rejected { reason: b })) => a == b,
            (ThawBody::Other { name: a }, ThawStep::Fail(ThawError::Unexpected { name: b })) => a
                == b,
            _ => false,
        },
{
}

/// The relay ends with every task that ends, and on a requested shutdown. A task that ends on its own
/// is a failure unless shutdown was requested; the control lane stays usable where its writer still
/// runs, and terminals can be observed only where the reader and the writer both do.
pub proof fn relay_ends_with_its_tasks(
    result: Result<Result<(), String>, String>,
    bulk: Result<(), String>,
    signalled: bool,
    sender_gone: bool,
    requested: bool,
)
    ensures
        exit_of(RelayEvent::Reader(result), requested) matches Some(exit)
            && exit.control_writer_usable && !exit.can_observe_failure_terminals && (
        exit.failure is None <==> requested && (result matches Ok(Ok(_)))),
        exit_of(RelayEvent::Writer(result), requested) matches Some(exit)
            && !exit.control_writer_usable && !exit.can_observe_failure_terminals && (
        exit.failure is None <==> requested && (result matches Ok(Ok(_)))),
        exit_of(RelayEvent::Bulk(bulk), requested) matches Some(exit) && exit.control_writer_usable
            && exit.can_observe_failure_terminals && (exit.failure is None <==> requested
            && bulk is Ok),
        exit_of(RelayEvent::Shutdown { signalled, sender_gone }, requested) is Some <==> signalled
            || sender_gone,
        exit_of(RelayEvent::Shutdown { signalled, sender_gone }, requested) matches Some(exit)
            ==> exit.failure is None && !exit.control_writer_usable
            && !exit.can_observe_failure_terminals,
{
}

/// The control lane of a restored agent loses no byte: acknowledgements and failures leave it as it
/// was, and a frame that is taken is the whole front of it.
pub proof fn restored_lane_keeps_its_bytes(
    profile: WireProfile,
    probe: AckProbe,
    before: Seq<u8>,
    after: Seq<u8>,
    step: RestoredStep,
)
    requires
        is_restored_step(profile, probe, before, after, step),
    ensures
        match step {
            RestoredStep::Frame(frame) => probe is Absent && before == frame.data@ + after
                && frame.data@.len() >= 9,
            RestoredStep::Acknowledged => probe is Taken && after == before,
            RestoredStep::NeedMore => probe is Absent && after == before && front_frame(
                profile.max_frame_size,
                before,
            ) is Partial,
            RestoredStep::Fail(_) => !(probe is Taken) && after == before,
        },
{
    if let RestoredStep::Frame(frame) = step {
        assert(before =~= frame.data@ + after);
    }
}

} // verus!
