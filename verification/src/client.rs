//! What the relay does with a frame from one client.

use vstd::prelude::*;

use crate::active_bulk::lists_operations;
use crate::active_bulk::ActiveBulk;
use crate::active_bulk::BulkOpenAdmission;
use crate::bulk::write_frame;
use crate::bulk::BulkWrite;
use crate::bulk::BulkWriteData;
use crate::bulk::BULK_WRITE_MAX_FLOWS_PER_CLIENT;
use crate::envelope::accepted_name_is_outside_control;
use crate::envelope::control_prefix;
use crate::envelope::inspect;
use crate::envelope::starts_with;
use crate::envelope::verdict;
use crate::envelope::Rejection;
use crate::flow_map::FlowKey;
use crate::frames::bulk_metadata;
use crate::frames::bulk_wire_metadata;
use crate::frames::encode_bulk_header;
use crate::frames::encoded_record_reads_back;
use crate::frames::frame_is;
use crate::frames::is_bulk_header;
use crate::frames::BulkWireError;
use crate::merge_flow::FlowState;
use crate::merge_flow::LaneFrame;
use crate::merger::frame_of;
use crate::merger::push_outcome;
use crate::merger::GuestBody;
use crate::merger::MergeOutcome;
use crate::merger::MergerState;
use crate::order::classified_order;
use crate::order::ordinary_order;
use crate::order::ControlOrder;
use crate::order::ControlWrite;
use crate::order::TcpMeta;
use crate::retire::local_index;
use crate::wire::be_value;
use crate::wire::client_frame_allowed;
use crate::wire::has_valid_frame_flags;
use crate::wire::is_client_frame_allowed;
use crate::wire::valid_frame_flags;
use crate::wire::BulkFlow;
use crate::wire::BulkKind;
use crate::wire::ClientIncarnation;
use crate::wire::RawFrame;
use crate::wire::WireProfile;
use crate::wire::BULK_PREFIX_SIZE;
use crate::wire::CLIENT_INCARNATION_SIZE;
use crate::wire::LEN_PREFIX_SIZE;

verus! {

/// Length prefix and frame header.
pub const OUTER_HEADER_SIZE: usize = 9;

/// What a decoded client message asks for, as far as the relay depends on it.
pub enum ClientRequest {
    ExecRequest { tty: bool },
    /// `bulk` where the request opens a bulk operation.
    FsRequest { bulk: bool },
    TcpConnect { bulk: bool },
    BulkCancel,
    Meta(TcpMeta),
    Other,
}

/// A decoded client message.
pub struct ClientMessage {
    pub version: u8,
    pub request: ClientRequest,
    /// Whether the message type uses the guest's data credit.
    pub data_credit: bool,
}

/// A bulk record whose payload came through shared memory.
pub struct SharedRecord {
    pub kind: BulkKind,
    pub flow: BulkFlow,
    pub offset: u64,
    pub payload: Vec<u8>,
}

/// A frame from a client: in-band bytes with their decoded message if they have one, or the
/// reference to a shared record.
pub struct ClientFrame {
    pub frame: RawFrame,
    pub message: Option<ClientMessage>,
    pub shared: Option<SharedRecord>,
}

impl ClientFrame {
    /// The header fields are those of the bytes; bulk records carry no message, and a shared
    /// record comes without bytes.
    pub open spec fn wf(&self, profile: WireProfile) -> bool {
        &&& self.frame.flags == profile.flag_bulk ==> self.message is None
        &&& match self.shared {
            Some(_) => self.frame.flags == profile.flag_bulk,
            None => self.frame.data@.len() >= OUTER_HEADER_SIZE && frame_is(
                self.frame,
                self.frame.data@,
            ),
        }
    }
}

/// Why the relay hangs up on a client.
#[derive(Clone, Copy, Debug, PartialEq, Eq, Structural)]
pub enum HangUp {
    InvalidFlags,
    OutOfRange,
    Envelope(Rejection),
    UndecodableWhilePaused,
    DuplicateBulk,
    MalformedRecord(BulkWireError),
    GuestToHostRecord,
    NoMatchingOperation,
    NotEncodable,
    BudgetOverflow,
}

/// What happens to a frame.
pub enum FrameVerdict {
    HangUp(HangUp),
    /// A suspended guest cannot reject new work itself.
    RejectPaused,
    /// The client has its maximum of open bulk operations.
    RejectBulkOpen(BulkKind),
    Pass,
}

/// The client's lease and its open bulk operations.
pub struct SessionState {
    pub id_start: u32,
    pub id_end: u32,
    pub incarnation: Option<ClientIncarnation>,
    pub dual_port: bool,
    pub active: Map<u32, BulkKind>,
}

/// The bulk operation that a message opens.
pub open spec fn opened_kind(message: Option<ClientMessage>) -> Option<BulkKind> {
    match message {
        Some(ClientMessage { request: ClientRequest::FsRequest { bulk: true }, .. }) => Some(
            BulkKind::Filesystem,
        ),
        Some(ClientMessage { request: ClientRequest::TcpConnect { bulk: true }, .. }) => Some(
            BulkKind::Tcp,
        ),
        _ => None,
    }
}

/// The message begins an operation that the merger must know first.
pub open spec fn begins_operation(message: Option<ClientMessage>) -> bool {
    message matches Some(m) && (m.request is ExecRequest || m.request is FsRequest
        || m.request is TcpConnect)
}

/// The message cancels a bulk operation.
pub open spec fn cancels(message: Option<ClientMessage>) -> bool {
    message matches Some(m) && m.request is BulkCancel
}

/// The frame's body must be an envelope outside the host's namespace. Raw records have their own
/// codec, and a shutdown may come without a body.
pub open spec fn has_envelope(profile: WireProfile, frame: RawFrame) -> bool {
    &&& frame.flags != profile.flag_bulk
    &&& frame.flags & profile.flag_shutdown == 0 || frame.data@.len() > OUTER_HEADER_SIZE
}

/// The bytes behind the outer header.
pub open spec fn frame_body(frame: RawFrame) -> Seq<u8> {
    frame.data@.subrange(OUTER_HEADER_SIZE as int, frame.data@.len() as int)
}

/// A shared record can be written as a frame within the protocol's limits.
pub open spec fn encodable(profile: WireProfile, record: SharedRecord) -> bool {
    &&& 0 < record.payload@.len() <= profile.max_bulk_payload
    &&& BULK_PREFIX_SIZE - LEN_PREFIX_SIZE + record.payload@.len() <= profile.max_frame_size
    &&& record.offset + record.payload@.len() <= u64::MAX
}

/// Kind, flow, offset and payload length of a bulk record from the client.
pub open spec fn record_metadata(profile: WireProfile, frame: ClientFrame) -> Result<
    (BulkKind, BulkFlow, u64, usize),
    BulkWireError,
> {
    match frame.shared {
        Some(record) => Ok(
            (record.kind, record.flow, record.offset, record.payload@.len() as usize),
        ),
        None => bulk_metadata(profile, frame.frame.data@),
    }
}

/// Bytes of the frame that a bulk record is written as.
pub open spec fn record_wire_len(frame: ClientFrame) -> int {
    match frame.shared {
        Some(record) => BULK_PREFIX_SIZE + record.payload@.len(),
        None => frame.frame.data@.len() as int,
    }
}

/// What happens to a bulk record.
pub open spec fn record_verdict(
    profile: WireProfile,
    state: SessionState,
    frame: ClientFrame,
) -> FrameVerdict {
    match record_metadata(profile, frame) {
        Err(error) => FrameVerdict::HangUp(HangUp::MalformedRecord(error)),
        Ok((kind, flow, _, _)) => if flow != BulkFlow::HostToGuest {
            FrameVerdict::HangUp(HangUp::GuestToHostRecord)
        } else if !(state.active.contains_key(frame.frame.id) && state.active[frame.frame.id]
            == kind) {
            FrameVerdict::HangUp(HangUp::NoMatchingOperation)
        } else if frame.shared matches Some(record) && !encodable(profile, record) {
            FrameVerdict::HangUp(HangUp::NotEncodable)
        } else if state.dual_port && record_wire_len(frame) + CLIENT_INCARNATION_SIZE > u32::MAX {
            FrameVerdict::HangUp(HangUp::BudgetOverflow)
        } else {
            FrameVerdict::Pass
        },
    }
}

/// What happens to a frame.
pub open spec fn frame_verdict(
    profile: WireProfile,
    state: SessionState,
    frame: ClientFrame,
    paused: bool,
) -> FrameVerdict {
    let flags = frame.frame.flags;
    let id = frame.frame.id;
    if !valid_frame_flags(profile, flags) {
        FrameVerdict::HangUp(HangUp::InvalidFlags)
    } else if !client_frame_allowed(profile, id, flags, state.id_start, state.id_end) {
        FrameVerdict::HangUp(HangUp::OutOfRange)
    } else if has_envelope(profile, frame.frame) && verdict(frame_body(frame.frame)) is Err {
        FrameVerdict::HangUp(HangUp::Envelope(verdict(frame_body(frame.frame))->Err_0))
    } else if flags & profile.flag_session_start != 0 && paused {
        if frame.message is None {
            FrameVerdict::HangUp(HangUp::UndecodableWhilePaused)
        } else {
            FrameVerdict::RejectPaused
        }
    } else if flags == profile.flag_bulk {
        record_verdict(profile, state, frame)
    } else {
        match opened_kind(frame.message) {
            Some(kind) => if state.active.contains_key(id) {
                FrameVerdict::HangUp(HangUp::DuplicateBulk)
            } else if state.active.dom().len() >= BULK_WRITE_MAX_FLOWS_PER_CLIENT {
                FrameVerdict::RejectBulkOpen(kind)
            } else {
                FrameVerdict::Pass
            },
            None => FrameVerdict::Pass,
        }
    }
}

/// Where a frame that passes goes.
pub enum ClientRoute {
    /// The fairly scheduled bulk lane, at this charge.
    Bulk { write: BulkWrite<()>, charged: u32 },
    /// The ordered control lane.
    Control(ControlWrite<()>),
}

/// The work for one frame that passes, in the order of its fields.
pub struct Forward {
    /// A bulk operation that the frame opened.
    pub opened: Option<BulkKind>,
    /// Register the operation with the merger and wait for its acknowledgement: the merger must
    /// know an operation before agentd can produce output for it.
    pub register: bool,
    /// Purge the operation from the bulk scheduler, then from the merger: a cancellation is a cut
    /// across both lanes.
    pub purge: bool,
    /// Register an exec session with its terminal mode.
    pub start_session: Option<bool>,
    /// The client ended the session of this ID.
    pub end_session: bool,
    pub route: ClientRoute,
    /// Notify the caller that a shutdown was requested, once the frame is on its way.
    pub shutdown: bool,
}

/// How far the work for a frame that passes is.
#[derive(Clone, Copy, Debug, PartialEq, Eq, Structural)]
pub enum ForwardStage {
    /// Register the operation with the merger.
    Register,
    /// Purge the operation from the bulk scheduler.
    PurgeScheduler,
    /// Purge the operation from the merger.
    PurgeMerger,
    /// Note the session that starts or ends.
    TrackSession,
    /// Queue the frame for the guest.
    Route,
    /// Notify the caller of the shutdown.
    NotifyShutdown,
    /// The next frame of the client can be read.
    Forwarded,
    /// The client is disconnected.
    HungUp,
}

/// The first stage of the work for a frame.
pub open spec fn forward_first(register: bool, purge: bool) -> ForwardStage {
    if register {
        ForwardStage::Register
    } else if purge {
        ForwardStage::PurgeScheduler
    } else {
        ForwardStage::TrackSession
    }
}

/// The stage behind one that ended. Whatever fails ends the connection; a shutdown is announced
/// only behind its frame.
pub open spec fn forward_next(
    stage: ForwardStage,
    purge: bool,
    shutdown: bool,
    succeeded: bool,
) -> ForwardStage {
    if !succeeded {
        ForwardStage::HungUp
    } else {
        match stage {
            ForwardStage::Register => if purge {
                ForwardStage::PurgeScheduler
            } else {
                ForwardStage::TrackSession
            },
            ForwardStage::PurgeScheduler => ForwardStage::PurgeMerger,
            ForwardStage::PurgeMerger => ForwardStage::TrackSession,
            ForwardStage::TrackSession => ForwardStage::Route,
            ForwardStage::Route => if shutdown {
                ForwardStage::NotifyShutdown
            } else {
                ForwardStage::Forwarded
            },
            ForwardStage::NotifyShutdown => ForwardStage::Forwarded,
            ForwardStage::Forwarded => ForwardStage::Forwarded,
            ForwardStage::HungUp => ForwardStage::HungUp,
        }
    }
}

impl Forward {
    /// The first stage of the work for the frame.
    pub fn first_stage(&self) -> (stage: ForwardStage)
        ensures
            stage == forward_first(self.register, self.purge),
    {
        if self.register {
            ForwardStage::Register
        } else if self.purge {
            ForwardStage::PurgeScheduler
        } else {
            ForwardStage::TrackSession
        }
    }
}

/// Go on with the work for a frame.
pub fn forward_step(stage: ForwardStage, purge: bool, shutdown: bool, succeeded: bool) -> (next:
    ForwardStage)
    ensures
        next == forward_next(stage, purge, shutdown, succeeded),
{
    if !succeeded {
        return ForwardStage::HungUp;
    }
    match stage {
        ForwardStage::Register => if purge {
            ForwardStage::PurgeScheduler
        } else {
            ForwardStage::TrackSession
        },
        ForwardStage::PurgeScheduler => ForwardStage::PurgeMerger,
        ForwardStage::PurgeMerger => ForwardStage::TrackSession,
        ForwardStage::TrackSession => ForwardStage::Route,
        ForwardStage::Route => if shutdown {
            ForwardStage::NotifyShutdown
        } else {
            ForwardStage::Forwarded
        },
        ForwardStage::NotifyShutdown => ForwardStage::Forwarded,
        ForwardStage::Forwarded => ForwardStage::Forwarded,
        ForwardStage::HungUp => ForwardStage::HungUp,
    }
}

/// The stage of a frame after so many, while its work succeeds.
pub open spec fn stage_at(register: bool, purge: bool, shutdown: bool, n: nat) -> ForwardStage
    decreases n,
{
    if n == 0 {
        forward_first(register, purge)
    } else {
        forward_next(stage_at(register, purge, shutdown, (n - 1) as nat), purge, shutdown, true)
    }
}

/// A forwarded frame comes to its end, by way of the announcement where it asks for a shutdown.
proof fn lemma_forwarded_stages(register: bool, purge: bool, shutdown: bool)
    ensures
        stage_at(register, purge, shutdown, 6) == ForwardStage::Forwarded,
        shutdown ==> exists|n: nat| #[trigger]
            stage_at(register, purge, shutdown, n) == ForwardStage::NotifyShutdown,
{
    let first = stage_at(register, purge, shutdown, 0);
    let second = stage_at(register, purge, shutdown, 1);
    let third = stage_at(register, purge, shutdown, 2);
    let fourth = stage_at(register, purge, shutdown, 3);
    let fifth = stage_at(register, purge, shutdown, 4);
    let sixth = stage_at(register, purge, shutdown, 5);
    assert(second == forward_next(first, purge, shutdown, true));
    assert(third == forward_next(second, purge, shutdown, true));
    assert(fourth == forward_next(third, purge, shutdown, true));
    assert(fifth == forward_next(fourth, purge, shutdown, true));
    assert(sixth == forward_next(fifth, purge, shutdown, true));
    assert(stage_at(register, purge, shutdown, 6) == forward_next(sixth, purge, shutdown, true));
    if shutdown {
        if register && purge {
            assert(sixth == ForwardStage::NotifyShutdown);
        } else if purge {
            assert(fifth == ForwardStage::NotifyShutdown);
        } else if register {
            assert(fourth == ForwardStage::NotifyShutdown);
        } else {
            assert(third == ForwardStage::NotifyShutdown);
        }
    }
}

/// The caller is told of a shutdown directly behind the frame that asks for it, and never where
/// the frame was not queued for the guest; and every shutdown that is forwarded is told.
pub proof fn shutdown_is_announced_behind_its_frame(
    stage: ForwardStage,
    register: bool,
    purge: bool,
    shutdown: bool,
    succeeded: bool,
    n: nat,
)
    ensures
        forward_next(stage, purge, shutdown, succeeded) == ForwardStage::NotifyShutdown <==> stage
            == ForwardStage::Route && succeeded && shutdown,
        stage_at(register, purge, shutdown, n) == ForwardStage::NotifyShutdown ==> n > 0
            && stage_at(register, purge, shutdown, (n - 1) as nat) == ForwardStage::Route
            && shutdown,
        shutdown ==> exists|m: nat| #[trigger]
            stage_at(register, purge, shutdown, m) == ForwardStage::NotifyShutdown,
        stage_at(register, purge, shutdown, 6) == ForwardStage::Forwarded,
{
    lemma_forwarded_stages(register, purge, shutdown);
}

/// The decision on one frame.
pub enum FramePlan {
    HangUp(HangUp),
    /// Tell the client that the sandbox is paused, at the request's version.
    RejectPaused { id: u32, version: u8 },
    /// Answer the opening request with its typed terminal failure, at the request's version.
    RejectBulkOpen { id: u32, kind: BulkKind, version: u8 },
    Forward(Forward),
}

/// The route of a frame that passes.
pub open spec fn route_is(
    profile: WireProfile,
    state: SessionState,
    frame: ClientFrame,
    route: ClientRoute,
) -> bool {
    let id = frame.frame.id;
    let bulk = frame.frame.flags == profile.flag_bulk;
    match route {
        ClientRoute::Bulk { write, charged } => {
            &&& bulk
            &&& state.dual_port
            &&& write.id == id
            &&& Some(write.incarnation) == state.incarnation
            &&& write.flow == BulkFlow::HostToGuest
            &&& write.payload_len == record_metadata(profile, frame)->Ok_0.3
            &&& carries(profile, frame, write_frame(write))
            &&& charged == record_wire_len(frame) + CLIENT_INCARNATION_SIZE
        },
        ClientRoute::Control(write) => {
            &&& !(bulk && state.dual_port)
            &&& carries(profile, frame, write.data@)
            &&& write.uses_data_credit == (bulk || (frame.message matches Some(m) && m.data_credit))
            &&& write.order == classified_order(
                profile,
                ordinary_order(profile, write.data@, id),
                id,
                if bulk {
                    Some(record_metadata(profile, frame)->Ok_0)
                } else {
                    None
                },
                message_meta(frame.message),
            )
        },
    }
}

/// The bytes are the client's frame, or the frame of its shared record.
pub open spec fn carries(profile: WireProfile, frame: ClientFrame, wire: Seq<u8>) -> bool {
    match frame.shared {
        None => wire == frame.frame.data@,
        Some(record) => {
            &&& wire.len() == BULK_PREFIX_SIZE + record.payload@.len()
            &&& is_bulk_header(
                profile,
                wire.subrange(0, BULK_PREFIX_SIZE as int),
                frame.frame.id,
                record.kind,
                record.flow,
                record.offset,
                record.payload@.len() as int,
            )
            &&& wire.subrange(BULK_PREFIX_SIZE as int, wire.len() as int) == record.payload@
        },
    }
}

/// What the message says about an independent TCP flow.
pub open spec fn message_meta(message: Option<ClientMessage>) -> Option<TcpMeta> {
    match message {
        Some(ClientMessage { request: ClientRequest::Meta(meta), .. }) => Some(meta),
        _ => None,
    }
}

/// The decision on one frame is what the rules say.
pub open spec fn plan_is(
    profile: WireProfile,
    state: SessionState,
    frame: ClientFrame,
    paused: bool,
    plan: FramePlan,
) -> bool {
    match frame_verdict(profile, state, frame, paused) {
        FrameVerdict::HangUp(reason) => plan == FramePlan::HangUp(reason),
        FrameVerdict::RejectPaused => plan == (FramePlan::RejectPaused {
            id: frame.frame.id,
            version: frame.message.unwrap().version,
        }),
        FrameVerdict::RejectBulkOpen(kind) => plan == (FramePlan::RejectBulkOpen {
            id: frame.frame.id,
            kind,
            version: frame.message.unwrap().version,
        }),
        FrameVerdict::Pass => {
            &&& plan matches FramePlan::Forward(forward)
            &&& forward.opened == opened_kind(frame.message)
            &&& forward.register == (state.dual_port && begins_operation(frame.message))
            &&& forward.purge == (state.dual_port && cancels(frame.message))
            &&& forward.shutdown == (frame.frame.flags & profile.flag_shutdown != 0)
            &&& forward.start_session == session_start(profile, frame)
            &&& forward.end_session == (frame.frame.flags & profile.flag_terminal != 0)
            &&& route_is(profile, state, frame, forward.route)
        },
    }
}

/// The terminal mode of the exec session that a frame starts. The session-start flag stands on
/// other requests too, so the message decides.
pub open spec fn session_start(profile: WireProfile, frame: ClientFrame) -> Option<bool> {
    match frame.message {
        Some(ClientMessage { request: ClientRequest::ExecRequest { tty }, .. }) => if frame.frame.flags
            & profile.flag_session_start != 0 {
            Some(tty)
        } else {
            None
        },
        _ => None,
    }
}

/// One client's lease, open bulk operations and local transport.
pub struct ClientSession {
    profile: WireProfile,
    id_start: u32,
    id_end: u32,
    incarnation: Option<ClientIncarnation>,
    dual_port: bool,
    active: ActiveBulk,
    ordinary_frame_seen: bool,
    local_ready: bool,
}

impl View for ClientSession {
    type V = SessionState;

    closed spec fn view(&self) -> SessionState {
        SessionState {
            id_start: self.id_start,
            id_end: self.id_end,
            incarnation: self.incarnation,
            dual_port: self.dual_port,
            active: self.active@,
        }
    }
}

/// A local-transport message.
#[derive(Clone, Copy, Debug, PartialEq, Eq, Structural)]
pub enum LocalMessage {
    Malformed,
    UpgradeRequest,
    BulkRelease,
    BulkRef,
}

/// Whether a frame belongs to the local transport: it has neither an owner nor a flag.
pub fn is_local_frame(frame: &RawFrame) -> (local: bool)
    ensures
        local == (frame.id == 0 && frame.flags == 0),
{
    frame.id == 0 && frame.flags == 0
}

/// What a local-transport message leads to.
#[derive(Clone, Copy, Debug, PartialEq, Eq, Structural)]
pub enum LocalStep {
    /// Malformed, late, repeated, or before the upgrade.
    HangUp,
    /// Create the arenas and hand them to the client.
    Upgrade,
    /// Release the slot in the arena.
    Release,
    /// Receive the record from the arena; it then counts as a bulk frame of its ID.
    Receive,
}

impl ClientSession {
    pub closed spec fn profile(&self) -> WireProfile {
        self.profile
    }

    /// Whether any frame but a local upgrade was seen.
    pub closed spec fn ordinary_frame_seen(&self) -> bool {
        self.ordinary_frame_seen
    }

    /// Whether the client uses the local arenas.
    pub closed spec fn local_ready(&self) -> bool {
        self.local_ready
    }

    pub closed spec fn wf(&self) -> bool {
        &&& self.profile.wf()
        &&& self.active.wf()
        &&& self.dual_port ==> self.incarnation is Some
    }

    pub fn new(
        profile: WireProfile,
        id_start: u32,
        id_end: u32,
        incarnation: Option<ClientIncarnation>,
        dual_port: bool,
    ) -> (session: ClientSession)
        requires
            profile.wf(),
            dual_port ==> incarnation is Some,
        ensures
            session.wf(),
            session.profile() == profile,
            session@ == (SessionState {
                id_start,
                id_end,
                incarnation,
                dual_port,
                active: Map::empty(),
            }),
            !session.ordinary_frame_seen(),
            !session.local_ready(),
    {
        ClientSession {
            profile,
            id_start,
            id_end,
            incarnation,
            dual_port,
            active: ActiveBulk::new(),
            ordinary_frame_seen: false,
            local_ready: false,
        }
    }

    /// How many bulk operations are open.
    pub fn open_bulk(&self) -> (count: usize)
        requires
            self.wf(),
        ensures
            self@.active.dom().finite(),
            count == self@.active.dom().len(),
            count <= BULK_WRITE_MAX_FLOWS_PER_CLIENT,
    {
        self.active.len()
    }

    /// The guest ended an operation.
    pub fn close_bulk(&mut self, id: u32)
        requires
            old(self).wf(),
        ensures
            final(self).wf(),
            final(self).profile() == old(self).profile(),
            final(self)@ == (SessionState { active: old(self)@.active.remove(id), ..old(self)@ }),
            final(self).ordinary_frame_seen() == old(self).ordinary_frame_seen(),
            final(self).local_ready() == old(self).local_ready(),
    {
        self.active.remove(id);
    }

    /// The open bulk operations, in any order.
    pub fn bulk_operations(&self) -> (operations: Vec<(u32, BulkKind)>)
        ensures
            lists_operations(operations@, self@.active),
    {
        self.active.list()
    }

    /// The merger refused to register an operation: it is not open after all.
    pub fn registration_failed(&mut self, id: u32, opened: Option<BulkKind>)
        requires
            old(self).wf(),
        ensures
            final(self).wf(),
            final(self).profile() == old(self).profile(),
            final(self)@ == if opened is Some {
                SessionState { active: old(self)@.active.remove(id), ..old(self)@ }
            } else {
                old(self)@
            },
            final(self).ordinary_frame_seen() == old(self).ordinary_frame_seen(),
            final(self).local_ready() == old(self).local_ready(),
    {
        if opened.is_some() {
            self.active.remove(id);
        }
    }

    /// Decide on a local-transport message. An upgrade is only possible before anything else.
    pub fn local_frame(&mut self, message: LocalMessage) -> (step: LocalStep)
        requires
            old(self).wf(),
        ensures
            final(self).wf(),
            final(self).profile() == old(self).profile(),
            final(self)@ == old(self)@,
            final(self).local_ready() == old(self).local_ready(),
            final(self).ordinary_frame_seen() == (old(self).ordinary_frame_seen() || message
                == LocalMessage::BulkRef),
            step == match message {
                LocalMessage::Malformed => LocalStep::HangUp,
                LocalMessage::UpgradeRequest => if old(self).ordinary_frame_seen()
                    || old(self).local_ready() {
                    LocalStep::HangUp
                } else {
                    LocalStep::Upgrade
                },
                LocalMessage::BulkRelease => if old(self).local_ready() {
                    LocalStep::Release
                } else {
                    LocalStep::HangUp
                },
                LocalMessage::BulkRef => if old(self).local_ready() {
                    LocalStep::Receive
                } else {
                    LocalStep::HangUp
                },
            },
    {
        match message {
            LocalMessage::Malformed => LocalStep::HangUp,
            LocalMessage::UpgradeRequest => if self.ordinary_frame_seen || self.local_ready {
                LocalStep::HangUp
            } else {
                LocalStep::Upgrade
            },
            LocalMessage::BulkRelease => if self.local_ready {
                LocalStep::Release
            } else {
                LocalStep::HangUp
            },
            LocalMessage::BulkRef => {
                self.ordinary_frame_seen = true;
                if self.local_ready {
                    LocalStep::Receive
                } else {
                    LocalStep::HangUp
                }
            },
        }
    }

    /// The client acknowledged the arenas.
    pub fn local_upgraded(&mut self)
        requires
            old(self).wf(),
        ensures
            final(self).wf(),
            final(self).profile() == old(self).profile(),
            final(self)@ == old(self)@,
            final(self).local_ready(),
            final(self).ordinary_frame_seen() == old(self).ordinary_frame_seen(),
    {
        self.local_ready = true;
    }

    /// Decide on one frame. Only a frame that passes and opens a bulk operation changes the
    /// session.
    pub fn plan_frame(&mut self, frame: ClientFrame, paused: bool) -> (plan: FramePlan)
        requires
            old(self).wf(),
            frame.wf(old(self).profile()),
        ensures
            final(self).wf(),
            final(self).profile() == old(self).profile(),
            final(self).local_ready() == old(self).local_ready(),
            final(self).ordinary_frame_seen(),
            plan_is(old(self).profile(), old(self)@, frame, paused, plan),
            final(self)@ == match frame_verdict(old(self).profile(), old(self)@, frame, paused) {
                FrameVerdict::Pass => match opened_kind(frame.message) {
                    Some(kind) => SessionState {
                        active: old(self)@.active.insert(frame.frame.id, kind),
                        ..old(self)@
                    },
                    None => old(self)@,
                },
                _ => old(self)@,
            },
            final(self)@.active == match plan {
                FramePlan::Forward(Forward { opened: Some(kind), .. }) => old(self)@.active.insert(
                    frame.frame.id,
                    kind,
                ),
                _ => old(self)@.active,
            },
            final(self)@.id_start == old(self)@.id_start,
            final(self)@.id_end == old(self)@.id_end,
            final(self)@.incarnation == old(self)@.incarnation,
            final(self)@.dual_port == old(self)@.dual_port,
            plan matches FramePlan::Forward(forward) ==> (old(self)@.dual_port && forward.opened
                is Some ==> forward.register),
    {
        let ghost state = self@;
        let profile: WireProfile = self.profile;
        self.ordinary_frame_seen = true;
        let flags: u8 = frame.frame.flags;
        let id: u32 = frame.frame.id;
        if !has_valid_frame_flags(&profile, flags) {
            return FramePlan::HangUp(HangUp::InvalidFlags);
        }
        if !is_client_frame_allowed(&profile, id, flags, self.id_start, self.id_end) {
            return FramePlan::HangUp(HangUp::OutOfRange);
        }
        if flags != profile.flag_bulk && (flags & profile.flag_shutdown == 0
            || frame.frame.data.len() > OUTER_HEADER_SIZE) {
            let data = frame.frame.data.as_slice();
            let body = vstd::slice::slice_subrange(data, OUTER_HEADER_SIZE, data.len());
            match inspect(body) {
                Ok(()) => {},
                Err(rejection) => {
                    return FramePlan::HangUp(HangUp::Envelope(rejection));
                },
            }
        }
        if flags & profile.flag_session_start != 0 && paused {
            return match &frame.message {
                Some(message) => FramePlan::RejectPaused { id, version: message.version },
                None => FramePlan::HangUp(HangUp::UndecodableWhilePaused),
            };
        }
        if flags == profile.flag_bulk {
            proof {
                let bulk = profile.flag_bulk;
                let shutdown = profile.flag_shutdown;
                let terminal = profile.flag_terminal;
                assert(bulk & shutdown == shutdown & bulk) by (bit_vector);
                assert(bulk & terminal == terminal & bulk) by (bit_vector);
            }
            return self.plan_record(frame);
        }
        let mut opened: Option<BulkKind> = None;
        let mut register = false;
        let mut purge = false;
        let mut start_session: Option<bool> = None;
        let mut data_credit = false;
        let mut meta: Option<TcpMeta> = None;
        if let Some(message) = &frame.message {
            data_credit = message.data_credit;
            match &message.request {
                ClientRequest::ExecRequest { tty } => {
                    register = self.dual_port;
                    if flags & profile.flag_session_start != 0 {
                        start_session = Some(*tty);
                    }
                },
                ClientRequest::FsRequest { bulk } => {
                    register = self.dual_port;
                    if *bulk {
                        opened = Some(BulkKind::Filesystem);
                    }
                },
                ClientRequest::TcpConnect { bulk } => {
                    register = self.dual_port;
                    if *bulk {
                        opened = Some(BulkKind::Tcp);
                    }
                },
                ClientRequest::BulkCancel => {
                    purge = self.dual_port;
                },
                ClientRequest::Meta(m) => {
                    meta = Some(*m);
                },
                ClientRequest::Other => {},
            }
            if let Some(kind) = opened {
                match self.active.admit_bulk_open(id, kind) {
                    BulkOpenAdmission::Accepted => {},
                    BulkOpenAdmission::Duplicate => {
                        return FramePlan::HangUp(HangUp::DuplicateBulk);
                    },
                    BulkOpenAdmission::LimitReached => {
                        return FramePlan::RejectBulkOpen { id, kind, version: message.version };
                    },
                }
            }
        }
        let mut write = ControlWrite::ordinary(&profile, frame.frame.data, id, data_credit, ());
        write.classify_tcp_order(&profile, id, None, meta);
        FramePlan::Forward(
            Forward {
                opened,
                register,
                purge,
                start_session,
                end_session: flags & profile.flag_terminal != 0,
                route: ClientRoute::Control(write),
                shutdown: flags & profile.flag_shutdown != 0,
            },
        )
    }

    /// Decide on a bulk record. It is meaningful only after the same client opened a matching
    /// operation; otherwise arbitrary IDs could create scheduler state or consume its budget.
    fn plan_record(&mut self, frame: ClientFrame) -> (plan: FramePlan)
        requires
            old(self).wf(),
            frame.wf(old(self).profile()),
            frame.frame.flags == old(self).profile().flag_bulk,
        ensures
            *final(self) == *old(self),
            match record_verdict(old(self).profile(), old(self)@, frame) {
                FrameVerdict::HangUp(reason) => plan == FramePlan::HangUp(reason),
                FrameVerdict::Pass => {
                    &&& plan matches FramePlan::Forward(forward)
                    &&& forward.opened is None
                    &&& !forward.register
                    &&& !forward.purge
                    &&& !forward.shutdown
                    &&& forward.start_session is None
                    &&& !forward.end_session
                    &&& route_is(old(self).profile(), old(self)@, frame, forward.route)
                },
                _ => false,
            },
    {
        let profile: WireProfile = self.profile;
        let id: u32 = frame.frame.id;
        let ghost given = frame;
        let metadata = match &frame.shared {
            Some(record) => (record.kind, record.flow, record.offset, record.payload.len()),
            None => match bulk_wire_metadata(&profile, frame.frame.data.as_slice()) {
                Ok(metadata) => metadata,
                Err(error) => {
                    return FramePlan::HangUp(HangUp::MalformedRecord(error));
                },
            },
        };
        let (kind, flow, offset, payload_len) = metadata;
        if flow != BulkFlow::HostToGuest {
            return FramePlan::HangUp(HangUp::GuestToHostRecord);
        }
        match self.active.get(id) {
            Some(open) => {
                if open != kind {
                    return FramePlan::HangUp(HangUp::NoMatchingOperation);
                }
            },
            None => {
                return FramePlan::HangUp(HangUp::NoMatchingOperation);
            },
        }
        if frame.shared.is_some() {
            if payload_len == 0 || payload_len as u64 > profile.max_bulk_payload as u64
                || payload_len as u64 + (BULK_PREFIX_SIZE - LEN_PREFIX_SIZE) as u64
                > profile.max_frame_size as u64 || offset.checked_add(
                payload_len as u64,
            ).is_none() {
                return FramePlan::HangUp(HangUp::NotEncodable);
            }
        }
        let wire_len: u64 = match &frame.shared {
            Some(_) => BULK_PREFIX_SIZE as u64 + payload_len as u64,
            None => frame.frame.data.len() as u64,
        };
        if self.dual_port && wire_len > (u32::MAX - CLIENT_INCARNATION_SIZE as u32) as u64 {
            return FramePlan::HangUp(HangUp::BudgetOverflow);
        }
        let data = match frame.shared {
            Some(record) => {
                assert(payload_len + 17 <= u32::MAX);
                let header = encode_bulk_header(&profile, id, kind, flow, offset, payload_len);
                BulkWriteData::Shared { header, payload: record.payload }
            },
            None => BulkWriteData::Inline(frame.frame.data),
        };
        proof {
            if let BulkWriteData::Shared { header, payload } = &data {
                assert((header@ + payload@).subrange(0, 21) =~= header@);
                assert((header@ + payload@).subrange(21, (header@ + payload@).len() as int)
                    =~= payload@);
            }
        }
        let route = match self.incarnation {
            Some(incarnation) if self.dual_port => ClientRoute::Bulk {
                write: BulkWrite { id, incarnation, data, flow, payload_len, permit: () },
                charged: (wire_len + CLIENT_INCARNATION_SIZE as u64) as u32,
            },
            _ => {
                let bytes = match data {
                    BulkWriteData::Inline(bytes) => bytes,
                    BulkWriteData::Shared { header, payload } => {
                        let mut bytes = header;
                        let mut payload = payload;
                        bytes.append(&mut payload);
                        bytes
                    },
                };
                let mut write = ControlWrite::ordinary(&profile, bytes, id, true, ());
                write.classify_tcp_order(&profile, id, Some(metadata), None);
                ClientRoute::Control(write)
            },
        };
        FramePlan::Forward(
            Forward {
                opened: None,
                register: false,
                purge: false,
                start_session: None,
                end_session: false,
                route,
                shutdown: false,
            },
        )
    }
}

/// A frame that passes belongs to its client, and no host control message passes: its ID lies in
/// the client's range or it is the shutdown request, and its envelope is outside the control
/// namespace.
pub proof fn passing_frames_stay_in_their_namespace(
    profile: WireProfile,
    state: SessionState,
    frame: ClientFrame,
    paused: bool,
)
    requires
        frame_verdict(profile, state, frame, paused) is Pass,
    ensures
        state.id_start <= frame.frame.id < state.id_end || (frame.frame.id == 0
            && frame.frame.flags & profile.flag_shutdown != 0),
        has_envelope(profile, frame.frame) ==> (verdict(frame_body(frame.frame)) matches Ok(name)
            && !starts_with(name, control_prefix())),
{
    accepted_name_is_outside_control(frame_body(frame.frame));
}

/// While the sandbox is paused no new work starts: a session start is answered or ends the
/// connection, and no bulk operation is opened by it.
pub proof fn paused_sandbox_starts_no_work(
    profile: WireProfile,
    state: SessionState,
    frame: ClientFrame,
)
    requires
        frame.frame.flags & profile.flag_session_start != 0,
    ensures
        !(frame_verdict(profile, state, frame, true) is Pass),
        !(frame_verdict(profile, state, frame, true) is RejectBulkOpen),
{
}

/// A raw record passes only for an operation of its own kind that the client has open.
pub proof fn raw_records_need_an_open_operation(
    profile: WireProfile,
    state: SessionState,
    frame: ClientFrame,
    paused: bool,
)
    requires
        frame.frame.flags == profile.flag_bulk,
        frame_verdict(profile, state, frame, paused) is Pass,
    ensures
        record_metadata(profile, frame) matches Ok((kind, flow, _, _)) && flow
            == BulkFlow::HostToGuest && state.active.contains_key(frame.frame.id)
            && state.active[frame.frame.id] == kind,
{
}

/// What the relay does for a frame that passes is what its message and its flags ask for.
///
/// On the dual-port transport every request that begins an operation (an exec, a filesystem request
/// or a TCP connection) is registered with the merger, and so is every frame that opens a bulk
/// operation; a cancellation is cut out of both lanes. A bulk operation is opened by a request that
/// asks for one, of the kind of that request, and by nothing else. A session is followed for an exec
/// that starts one, and a frame with the terminal flag ends its own.
pub proof fn forwarded_frames_follow_their_message(
    profile: WireProfile,
    state: SessionState,
    frame: ClientFrame,
    paused: bool,
    plan: FramePlan,
)
    requires
        plan_is(profile, state, frame, paused, plan),
        plan is Forward,
    ensures
        ({
            let forward = plan->Forward_0;
            let flags = frame.frame.flags;
            &&& state.dual_port && forward.opened is Some ==> forward.register
            &&& !state.dual_port ==> !forward.register && !forward.purge
            &&& match frame.message {
                None => forward.opened is None && !forward.register && !forward.purge
                    && forward.start_session is None,
                Some(message) => match message.request {
                    ClientRequest::ExecRequest { tty } => {
                        &&& forward.register == state.dual_port
                        &&& forward.opened is None && !forward.purge
                        &&& forward.start_session is Some <==> flags & profile.flag_session_start
                            != 0
                        &&& forward.start_session matches Some(mode) ==> mode == tty
                    },
                    ClientRequest::FsRequest { bulk } => {
                        &&& forward.register == state.dual_port
                        &&& forward.opened == if bulk {
                            Some(BulkKind::Filesystem)
                        } else {
                            None
                        }
                        &&& !forward.purge && forward.start_session is None
                    },
                    ClientRequest::TcpConnect { bulk } => {
                        &&& forward.register == state.dual_port
                        &&& forward.opened == if bulk {
                            Some(BulkKind::Tcp)
                        } else {
                            None
                        }
                        &&& !forward.purge && forward.start_session is None
                    },
                    ClientRequest::BulkCancel => {
                        &&& forward.purge == state.dual_port
                        &&& forward.opened is None && !forward.register
                            && forward.start_session is None
                    },
                    _ => forward.opened is None && !forward.register && !forward.purge
                        && forward.start_session is None,
                },
            }
            &&& forward.end_session <==> flags & profile.flag_terminal != 0
            &&& forward.shutdown <==> flags & profile.flag_shutdown != 0
        }),
{
}

/// A frame goes to the lane of its kind, whole and unchanged: a raw record of the dual-port
/// transport to the bulk lane, under its own ID and its client's identity, and everything else to the
/// control lane.
pub proof fn forwarded_frames_are_unchanged(
    profile: WireProfile,
    state: SessionState,
    frame: ClientFrame,
    paused: bool,
    plan: FramePlan,
)
    requires
        plan_is(profile, state, frame, paused, plan),
        plan is Forward,
        frame.shared is None,
    ensures
        ({
            let bulk = frame.frame.flags == profile.flag_bulk;
            match plan->Forward_0.route {
                ClientRoute::Bulk { write, charged } => {
                    &&& bulk && state.dual_port
                    &&& write_frame(write) == frame.frame.data@
                    &&& write.id == frame.frame.id
                    &&& state.incarnation == Some(write.incarnation)
                    &&& charged == frame.frame.data@.len() + 16
                },
                ClientRoute::Control(write) => {
                    &&& !bulk || !state.dual_port
                    &&& write.data@ == frame.frame.data@
                    &&& write.uses_data_credit <==> bulk || (frame.message matches Some(message)
                        && message.data_credit)
                },
            }
        }),
{
}

/// No frame is turned away without a reason.
///
/// A client hangs on only for a frame outside its own range or of invalid flags, for an envelope
/// that may not reach the guest, for work of a paused sandbox that cannot be decoded, for opening an
/// operation twice, or for a record that does not fit an open operation. A request is answered by the
/// relay itself only for a paused sandbox, or at the limit of open operations.
pub proof fn fitting_frames_pass(
    profile: WireProfile,
    state: SessionState,
    frame: ClientFrame,
    paused: bool,
    plan: FramePlan,
)
    requires
        plan_is(profile, state, frame, paused, plan),
        valid_frame_flags(profile, frame.frame.flags),
        client_frame_allowed(
            profile,
            frame.frame.id,
            frame.frame.flags,
            state.id_start,
            state.id_end,
        ),
        frame.frame.flags == profile.flag_bulk || (frame.frame.flags & profile.flag_shutdown != 0
            && frame.frame.data@.len() <= 9) || verdict(
            frame.frame.data@.subrange(9, frame.frame.data@.len() as int),
        ) is Ok,
    ensures
        ({
            let starts = frame.frame.flags & profile.flag_session_start != 0;
            let opens = frame.message matches Some(message) && (
            message.request == (ClientRequest::FsRequest { bulk: true }) || message.request
                == (ClientRequest::TcpConnect { bulk: true }));
            let known = state.active.contains_key(frame.frame.id);
            &&& starts && paused ==> match frame.message {
                Some(message) => plan == (FramePlan::RejectPaused {
                    id: frame.frame.id,
                    version: message.version,
                }),
                None => plan is HangUp,
            }
            &&& !(starts && paused) && frame.frame.flags != profile.flag_bulk ==> {
                &&& !opens ==> plan is Forward
                &&& opens && known ==> plan is HangUp
                &&& opens && !known && state.active.dom().len() < 64 ==> plan is Forward
                &&& opens && !known && state.active.dom().len() >= 64 ==> {
                    &&& plan matches FramePlan::RejectBulkOpen { id, version, .. }
                    &&& id == frame.frame.id
                    &&& version == frame.message->0.version
                }
            }
        }),
{
}

/// A raw record of an open operation passes: one from the host to the guest, of the operation's kind
/// and within the protocol's limits.
pub proof fn fitting_records_pass(
    profile: WireProfile,
    state: SessionState,
    frame: ClientFrame,
    plan: FramePlan,
    kind: BulkKind,
    offset: u64,
    payload_len: usize,
)
    requires
        plan_is(profile, state, frame, false, plan),
        frame.frame.flags == profile.flag_bulk,
        frame.shared is None,
        valid_frame_flags(profile, frame.frame.flags),
        client_frame_allowed(
            profile,
            frame.frame.id,
            frame.frame.flags,
            state.id_start,
            state.id_end,
        ),
        bulk_metadata(profile, frame.frame.data@) == Ok::<
            (BulkKind, BulkFlow, u64, usize),
            BulkWireError,
        >((kind, BulkFlow::HostToGuest, offset, payload_len)),
        state.active.contains_key(frame.frame.id),
        state.active[frame.frame.id] == kind,
        frame.frame.data@.len() + 16 <= u32::MAX,
    ensures
        plan is Forward,
{
}

/// No event of an operation that was registered meets an unknown key: whatever the guest sends for
/// it, it is not refused as unregistered.
pub proof fn registered_operations_are_known<P>(
    profile: WireProfile,
    merger: MergerState<P>,
    frame: LaneFrame<P>,
    body: GuestBody,
    key: FlowKey,
)
    requires
        merger.flows.contains_key(key),
        frame_of(frame, key),
    ensures
        push_outcome(profile, merger, frame, body) matches MergeOutcome::Fail { error, .. }
            ==> !(error is UnregisteredAcceptance) && !(error is UnregisteredRecord)
            && !(error is UnregisteredCancellation) && !(error is FinishBeforeAcceptance),
{
}

/// A client is hung up on with the reason of its own: the first of these that holds.
pub proof fn hang_ups_name_their_reason(
    profile: WireProfile,
    state: SessionState,
    frame: ClientFrame,
    paused: bool,
    reason: HangUp,
)
    requires
        plan_is(profile, state, frame, paused, FramePlan::HangUp(reason)),
    ensures
        match reason {
            HangUp::InvalidFlags => !valid_frame_flags(profile, frame.frame.flags),
            HangUp::OutOfRange => !client_frame_allowed(
                profile,
                frame.frame.id,
                frame.frame.flags,
                state.id_start,
                state.id_end,
            ),
            HangUp::Envelope(rejection) => frame.frame.flags != profile.flag_bulk && verdict(
                frame.frame.data@.subrange(9, frame.frame.data@.len() as int),
            ) == Err::<Seq<u8>, Rejection>(rejection),
            HangUp::UndecodableWhilePaused => paused && frame.message is None && frame.frame.flags
                & profile.flag_session_start != 0,
            HangUp::DuplicateBulk => state.active.contains_key(frame.frame.id)
                && frame.frame.flags != profile.flag_bulk,
            HangUp::MalformedRecord(error) => frame.frame.flags == profile.flag_bulk
                && frame.shared is None && bulk_metadata(profile, frame.frame.data@) == Err::<
                (BulkKind, BulkFlow, u64, usize),
                BulkWireError,
            >(error),
            HangUp::GuestToHostRecord => frame.frame.flags == profile.flag_bulk && (match frame.shared {
                Some(record) => record.flow == BulkFlow::GuestToHost,
                None => bulk_metadata(profile, frame.frame.data@) matches Ok((_, flow, _, _)) && flow
                    == BulkFlow::GuestToHost,
            }),
            HangUp::NoMatchingOperation => frame.frame.flags == profile.flag_bulk && (
            !state.active.contains_key(frame.frame.id) || (match frame.shared {
                Some(record) => record.kind != state.active[frame.frame.id],
                None => bulk_metadata(profile, frame.frame.data@) matches Ok((kind, _, _, _)) && kind
                    != state.active[frame.frame.id],
            })),
            HangUp::NotEncodable => frame.shared matches Some(record) && (record.payload@.len() == 0
                || record.payload@.len() > profile.max_bulk_payload || record.payload@.len() + 17
                > profile.max_frame_size || record.offset + record.payload@.len() > u64::MAX),
            HangUp::BudgetOverflow => state.dual_port && frame.frame.flags == profile.flag_bulk,
        },
{
}

/// A shared record that passes is written as a frame that reads back as the record: its ID, kind,
/// direction, offset and payload.
pub proof fn shared_records_are_written_out(
    profile: WireProfile,
    state: SessionState,
    frame: ClientFrame,
    plan: FramePlan,
    record: SharedRecord,
)
    requires
        profile.wf(),
        plan_is(profile, state, frame, false, plan),
        plan is Forward,
        frame.frame.flags == profile.flag_bulk,
        frame.shared == Some(record),
    ensures
        ({
            let wire = match plan->Forward_0.route {
                ClientRoute::Bulk { write, .. } => write_frame(write),
                ClientRoute::Control(write) => write.data@,
            };
            &&& bulk_metadata(profile, wire) == Ok::<
                (BulkKind, BulkFlow, u64, usize),
                BulkWireError,
            >((record.kind, BulkFlow::HostToGuest, record.offset, record.payload@.len() as usize))
            &&& be_value(wire.subrange(4, 8)) == frame.frame.id
            &&& wire.subrange(21, wire.len() as int) == record.payload@
        }),
{
    let wire = match plan->Forward_0.route {
        ClientRoute::Bulk { write, .. } => write_frame(write),
        ClientRoute::Control(write) => write.data@,
    };
    let header = wire.subrange(0, 21);
    assert(header + record.payload@ =~= wire);
    assert(record.payload@.len() <= usize::MAX);
    encoded_record_reads_back(
        profile,
        header,
        record.payload@,
        frame.frame.id,
        record.kind,
        record.flow,
        record.offset,
    );
}

/// A control frame keeps its place by what its message says: input's end and return credit of a TCP
/// flow as such, and everything else by its correlation; a shutdown fences everything.
pub proof fn forwarded_control_keeps_its_place(
    profile: WireProfile,
    state: SessionState,
    frame: ClientFrame,
    plan: FramePlan,
    message: ClientMessage,
    write: ControlWrite<()>,
)
    requires
        plan_is(profile, state, frame, false, plan),
        plan is Forward,
        plan->Forward_0.route == ClientRoute::Control(write),
        frame.frame.flags != profile.flag_bulk,
        frame.shared is None,
        frame.frame.data@.len() >= 9,
        frame.frame.data@[8] == frame.frame.flags,
        frame.message == Some(message),
    ensures
        ({
            let id = frame.frame.id;
            let fence = id == 0 || frame.frame.flags & profile.flag_shutdown != 0;
            &&& fence ==> write.order == ControlOrder::GlobalFence
            &&& !fence ==> match message.request {
                ClientRequest::Meta(TcpMeta::BulkFinish(Some((kind, flow)))) => write.order == if kind
                    == BulkKind::Tcp && flow == BulkFlow::HostToGuest {
                    ControlOrder::TcpInputFinish(id)
                } else {
                    ControlOrder::Correlation(id)
                },
                ClientRequest::Meta(TcpMeta::BulkCredit(Some(claim))) => write.order == if claim.kind
                    == BulkKind::Tcp && claim.flow == BulkFlow::GuestToHost && claim.consumed_offset
                    <= claim.credit_limit <= claim.consumed_offset + profile.max_bulk_window {
                    ControlOrder::TcpOutputCredit(id)
                } else {
                    ControlOrder::Correlation(id)
                },
                _ => write.order == ControlOrder::Correlation(id),
            }
        }),
{
}

/// A raw record on the combined lane counts as TCP input where it is one, and uses data credit.
pub proof fn combined_records_are_input(
    profile: WireProfile,
    state: SessionState,
    frame: ClientFrame,
    plan: FramePlan,
)
    requires
        plan_is(profile, state, frame, false, plan),
        plan is Forward,
        frame.frame.flags == profile.flag_bulk,
        frame.shared is None,
        !state.dual_port,
        frame.message is None,
        frame.frame.id != 0,
        frame.frame.data@[8] & profile.flag_shutdown == 0,
    ensures
        ({
            let (kind, flow, _, _) = bulk_metadata(profile, frame.frame.data@)->Ok_0;
            &&& plan->Forward_0.route matches ClientRoute::Control(write)
            &&& write.uses_data_credit
            &&& flow == BulkFlow::HostToGuest
            &&& write.order == if kind == BulkKind::Tcp {
                ControlOrder::TcpInputData(frame.frame.id)
            } else {
                ControlOrder::Correlation(frame.frame.id)
            }
        }),
{
}

/// The merger knows an operation, and both lanes are cut, before the frame is queued; the session is
/// noted in between; and nothing is queued for a client whose work failed.
pub proof fn frames_are_queued_behind_their_preparation(
    purge: bool,
    shutdown: bool,
    stage: ForwardStage,
)
    ensures
        forward_first(true, purge) == ForwardStage::Register,
        forward_first(false, true) == ForwardStage::PurgeScheduler,
        forward_first(false, false) == ForwardStage::TrackSession,
        forward_next(ForwardStage::Register, true, shutdown, true) == ForwardStage::PurgeScheduler,
        forward_next(ForwardStage::Register, false, shutdown, true) == ForwardStage::TrackSession,
        forward_next(ForwardStage::PurgeScheduler, purge, shutdown, true)
            == ForwardStage::PurgeMerger,
        forward_next(ForwardStage::PurgeMerger, purge, shutdown, true)
            == ForwardStage::TrackSession,
        forward_next(ForwardStage::TrackSession, purge, shutdown, true) == ForwardStage::Route,
        forward_next(ForwardStage::Route, purge, false, true) == ForwardStage::Forwarded,
        forward_next(stage, purge, shutdown, false) == ForwardStage::HungUp,
        forward_next(stage, purge, shutdown, true) == ForwardStage::HungUp <==> stage
            == ForwardStage::HungUp,
{
}

/// An operation that passed the boundary of a dual-port client is known to the merger before the
/// guest can answer it: once the work for its frame is done, nothing that the guest sends for it is
/// refused as unregistered.
pub proof fn passed_operations_are_known<P>(
    profile: WireProfile,
    state: SessionState,
    frame: ClientFrame,
    paused: bool,
    plan: FramePlan,
    merger: MergerState<P>,
    reply: LaneFrame<P>,
    body: GuestBody,
)
    requires
        plan_is(profile, state, frame, paused, plan),
        plan is Forward,
        state.dual_port,
        frame.message is Some,
        frame.message->0.request is ExecRequest || frame.message->0.request is FsRequest
            || frame.message->0.request is TcpConnect,
        state.incarnation is Some,
        frame_of(reply, FlowKey { incarnation: state.incarnation->0, id: frame.frame.id }),
    ensures
        ({
            let key = FlowKey { incarnation: state.incarnation->0, id: frame.frame.id };
            let ready = if plan->Forward_0.register {
                MergerState { flows: merger.flows.insert(key, FlowState::fresh()), ..merger }
            } else {
                merger
            };
            push_outcome(profile, ready, reply, body) matches MergeOutcome::Fail { error, .. }
                ==> !(error is UnregisteredAcceptance) && !(error is UnregisteredRecord)
                && !(error is UnregisteredCancellation) && !(error is FinishBeforeAcceptance)
        }),
{
    let key = FlowKey { incarnation: state.incarnation->0, id: frame.frame.id };
    registered_operations_are_known(
        profile,
        MergerState { flows: merger.flows.insert(key, FlowState::fresh()), ..merger },
        reply,
        body,
        key,
    );
}

/// A known operation stays known: whatever the guest sends, for it or for another, the merger holds
/// it or remembers that it ended, and then no record, acceptance or cancellation for it is refused as
/// unregistered.
pub proof fn known_operations_stay_known<P>(
    profile: WireProfile,
    merger: MergerState<P>,
    frame: LaneFrame<P>,
    body: GuestBody,
    key: FlowKey,
    later: LaneFrame<P>,
    said: GuestBody,
)
    requires
        merger.flows.contains_key(key) || merger.is_retired(profile, key.incarnation, key.id),
        local_index(profile, key.id) is Some,
        frame_of(later, key),
    ensures
        ({
            let after = push_outcome(profile, merger, frame, body).state();
            &&& after.flows.contains_key(key) || after.is_retired(profile, key.incarnation, key.id)
            &&& push_outcome(profile, after, later, said) matches MergeOutcome::Fail { error, .. }
                ==> !(error is UnregisteredAcceptance) && !(error is UnregisteredRecord)
                && !(error is UnregisteredCancellation)
        }),
{
}

} // verus!
