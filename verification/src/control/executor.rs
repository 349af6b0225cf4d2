//! Runtime-owned serialization and fencing of host control mutations.
//!
//! The executor decides; the VM, the checkpoint coordinator and the secret store do the work
//! between a request and its completion.

use vstd::prelude::*;
use vstd::string::*;

use crate::text::decimal;
use crate::text::hex_encode;
use crate::text::hex_text;
use crate::text::joined;
use crate::text::numbered_pair;
use crate::text::push_decimal;
use super::model::bare_response;
use super::model::control_error;
use super::model::copy_text;
use super::model::error_response;
use super::model::option_view;
use super::model::text_of;
use super::model::texts_of;
use super::model::CheckpointCaptureIntent;
use super::model::CheckpointControlState;
use super::model::CheckpointResult;
use super::model::CheckpointView;
use super::model::ControlCapabilities;
use super::model::ControlEnvelope;
use super::model::ControlEnvelopeResponse;
use super::model::ControlRequest;
use super::model::ControlResponse;
use super::model::CpuControlState;
use super::model::DiskCheckpointControlState;
use super::model::EnvelopeView;
use super::model::GuestFlush;
use super::model::MemoryCaptureMode;
use super::model::MemoryControlState;
use super::model::PauseControlState;
use super::model::PauseView;
use super::model::ResponseState;
use super::model::RootDiskControlState;
use super::model::RuntimeControlState;
use super::model::RuntimeLifecycle;
use super::model::RuntimeView;
use super::model::SecretLiveChange;
use super::model::SecretsResult;
use super::model::SecretsState;

verus! {

pub const MAX_DEDUP_RESPONSES: usize = 256;

pub const MAX_CONTROL_ID_BYTES: usize = 128;

/// The authority of a user's pause. `P` is what resuming takes.
pub struct UserPause<P> {
    pub capture_unavailable: Option<String>,
    pub token: P,
}

/// A remembered answer.
pub struct DedupEntry {
    pub request_id: String,
    pub fingerprint: [u8; 32],
    pub response: ControlEnvelopeResponse,
}

/// A remembered answer, as text.
pub ghost struct DedupView {
    pub request_id: Seq<char>,
    pub fingerprint: Seq<u8>,
    pub response: EnvelopeView,
}

impl View for DedupEntry {
    type V = DedupView;

    open spec fn view(&self) -> DedupView {
        DedupView {
            request_id: self.request_id@,
            fingerprint: self.fingerprint@,
            response: self.response@,
        }
    }
}

/// What the executor owns under its lock. Remembered answers stand in the order of their requests.
pub struct ExecutorState<P> {
    runtime_boot_id: String,
    revision: u64,
    lifecycle: RuntimeLifecycle,
    dedup: Vec<DedupEntry>,
    user_pause: Option<UserPause<P>>,
}

/// What the executor owns under its lock.
#[verifier::ext_equal]
pub ghost struct ExecState<P> {
    pub runtime_boot_id: Seq<char>,
    pub revision: u64,
    pub lifecycle: RuntimeLifecycle,
    pub dedup: Seq<DedupView>,
    pub pause: Option<UserPause<P>>,
}

impl<P> View for ExecutorState<P> {
    type V = ExecState<P>;

    closed spec fn view(&self) -> ExecState<P> {
        ExecState {
            runtime_boot_id: self.runtime_boot_id@,
            revision: self.revision,
            lifecycle: self.lifecycle,
            dedup: Seq::new(self.dedup@.len(), |i: int| self.dedup@[i]@),
            pause: self.user_pause,
        }
    }
}

/// No request is remembered twice.
pub open spec fn distinct_requests(dedup: Seq<DedupView>) -> bool {
    forall|i: int, j: int|
        0 <= i < j < dedup.len() ==> (#[trigger] dedup[i]).request_id != (
        #[trigger] dedup[j]).request_id
}

impl<P> ExecState<P> {
    pub open spec fn wf(self) -> bool {
        &&& self.dedup.len() <= MAX_DEDUP_RESPONSES
        &&& distinct_requests(self.dedup)
    }

    /// The position of the remembered answer to a request.
    pub open spec fn remembered(self, request_id: Seq<char>) -> bool {
        exists|i: int|
            0 <= i < self.dedup.len() && (#[trigger] self.dedup[i]).request_id == request_id
    }

    /// The remembered answer to a request.
    pub open spec fn memory(self, request_id: Seq<char>) -> DedupView {
        self.dedup[choose|i: int|
            0 <= i < self.dedup.len() && (#[trigger] self.dedup[i]).request_id == request_id]
    }

    /// The lifecycle in which the VM rests: suspended exactly while a user holds it paused.
    pub open spec fn resting(self) -> RuntimeLifecycle {
        if self.pause is Some {
            RuntimeLifecycle::Quiesced
        } else {
            RuntimeLifecycle::Running
        }
    }

    /// The state after a capture failed. A recovery-owned suspension is never the user's to
    /// release.
    pub open spec fn after_capture_failure(self, keep_paused: bool) -> ExecState<P> {
        let pause = if keep_paused {
            None
        } else {
            self.pause
        };
        ExecState {
            pause,
            lifecycle: if keep_paused || pause is Some {
                RuntimeLifecycle::Quiesced
            } else {
                RuntimeLifecycle::Running
            },
            ..self
        }
    }

    /// The state after a failure that may leave the VM suspended.
    pub open spec fn suspended_if(self, keep_paused: bool) -> ExecState<P> {
        if keep_paused {
            ExecState { lifecycle: RuntimeLifecycle::Quiesced, ..self }
        } else {
            self
        }
    }

    pub open spec fn runtime(self) -> RuntimeView {
        RuntimeView {
            runtime_boot_id: self.runtime_boot_id,
            revision: self.revision,
            lifecycle: self.lifecycle,
        }
    }

    /// What a pause observation says.
    pub open spec fn pause_answer(self) -> ResponseState {
        ResponseState {
            pause: Some(
                PauseView {
                    paused: self.pause is Some,
                    recovery_required: self.lifecycle == RuntimeLifecycle::Quiesced
                        && self.pause is None,
                    capture_unavailable: match self.pause {
                        Some(pause) => text_of(pause.capture_unavailable),
                        None => None,
                    },
                },
            ),
            ..bare_response(true)
        }
    }
}

/// What the host offers to control requests.
#[derive(Clone, Copy, Debug, PartialEq, Eq, Structural)]
pub struct HostSupport {
    /// The guest kernel can resume with a clock callback.
    pub clock_sync: bool,
    /// The platform hands memory descriptors over.
    pub memory_descriptors: bool,
    pub branches: bool,
    pub cpu_resize: bool,
    pub memory_resize: bool,
    /// The runtime was built with network support.
    pub network: bool,
    /// A secret store is attached.
    pub secrets: bool,
}

/// Work of the host between a request and its completion.
pub enum HostWork<M, P> {
    CaptureDisk { checkpoint_id: String, guest_flush: Option<GuestFlush> },
    /// Check that the held pause satisfies the policy.
    CheckPausedFlush { guest_flush: GuestFlush },
    Pause { attempt: String, guest_flush: Option<GuestFlush> },
    Resume { paused: UserPause<P> },
    GrowRoot { size_bytes: u64 },
    Compact { target: String, layers: Option<usize>, dry_run: bool },
    Branch {
        branch_id: String,
        child_name: String,
        memory_cache_dir: String,
        backing: Option<M>,
        record_integrity: bool,
        guest_flush: Option<GuestFlush>,
    },
    Capture {
        checkpoint_id: String,
        intent: CheckpointCaptureIntent,
        record_integrity: bool,
        guest_flush: Option<GuestFlush>,
    },
    SetMemoryTarget { total_mib: u64 },
    ReadMemory,
    SetCpuTarget { online: u32 },
    ReadCpu,
    UpdateSecrets { changes: Vec<SecretLiveChange> },
}

/// A failure of the host, and whether the VM must stay suspended for recovery.
pub struct HostFailure {
    pub keep_paused: bool,
    pub message: String,
}

/// A failure of a capture, which may have published a checkpoint all the same.
pub struct CaptureFailure {
    pub keep_paused: bool,
    pub message: String,
    pub published: Option<CheckpointResult>,
}

/// How the host's work ended.
pub enum HostOutcome<P> {
    DiskCaptured(Result<DiskCheckpointControlState, HostFailure>),
    PausedFlushChecked(Result<(), String>),
    Paused(Result<UserPause<P>, HostFailure>),
    Resumed(Result<(), String>),
    RootGrown(Result<RootDiskControlState, HostFailure>),
    Compacted { dry_run: bool, result: Result<String, HostFailure> },
    Branched(Result<String, HostFailure>),
    Captured(Result<CheckpointResult, CaptureFailure>),
    /// Whether the target was accepted, and the state that was read back.
    MemoryTargetSet { accepted: bool, state: Option<MemoryControlState> },
    MemoryRead(Option<MemoryControlState>),
    CpuTargetSet { accepted: bool, state: Option<CpuControlState> },
    CpuRead(Option<CpuControlState>),
    /// What the secret batch answered.
    SecretsUpdated { ok: bool, error: Option<String>, result: Option<SecretsResult> },
}

/// What kind of work the host was asked for.
#[derive(Clone, Copy, Debug, PartialEq, Eq, Structural)]
pub enum WorkKind {
    DiskCapture,
    FlushCheck,
    Pause,
    Resume,
    RootGrowth,
    Compaction { dry_run: bool },
    Branch,
    Capture,
    MemoryTarget,
    MemoryRead,
    CpuTarget,
    CpuRead,
    Secrets,
}

pub open spec fn work_kind<M, P>(work: HostWork<M, P>) -> WorkKind {
    match work {
        HostWork::CaptureDisk { .. } => WorkKind::DiskCapture,
        HostWork::CheckPausedFlush { .. } => WorkKind::FlushCheck,
        HostWork::Pause { .. } => WorkKind::Pause,
        HostWork::Resume { .. } => WorkKind::Resume,
        HostWork::GrowRoot { .. } => WorkKind::RootGrowth,
        HostWork::Compact { dry_run, .. } => WorkKind::Compaction { dry_run },
        HostWork::Branch { .. } => WorkKind::Branch,
        HostWork::Capture { .. } => WorkKind::Capture,
        HostWork::SetMemoryTarget { .. } => WorkKind::MemoryTarget,
        HostWork::ReadMemory => WorkKind::MemoryRead,
        HostWork::SetCpuTarget { .. } => WorkKind::CpuTarget,
        HostWork::ReadCpu => WorkKind::CpuRead,
        HostWork::UpdateSecrets { .. } => WorkKind::Secrets,
    }
}

/// The kind of work that an outcome ends.
pub open spec fn outcome_kind<P>(outcome: HostOutcome<P>) -> WorkKind {
    match outcome {
        HostOutcome::DiskCaptured(_) => WorkKind::DiskCapture,
        HostOutcome::PausedFlushChecked(_) => WorkKind::FlushCheck,
        HostOutcome::Paused(_) => WorkKind::Pause,
        HostOutcome::Resumed(_) => WorkKind::Resume,
        HostOutcome::RootGrown(_) => WorkKind::RootGrowth,
        HostOutcome::Compacted { dry_run, .. } => WorkKind::Compaction { dry_run },
        HostOutcome::Branched(_) => WorkKind::Branch,
        HostOutcome::Captured(_) => WorkKind::Capture,
        HostOutcome::MemoryTargetSet { .. } => WorkKind::MemoryTarget,
        HostOutcome::MemoryRead(_) => WorkKind::MemoryRead,
        HostOutcome::CpuTargetSet { .. } => WorkKind::CpuTarget,
        HostOutcome::CpuRead(_) => WorkKind::CpuRead,
        HostOutcome::SecretsUpdated { .. } => WorkKind::Secrets,
    }
}

fn kind_of_work<M, P>(work: &HostWork<M, P>) -> (kind: WorkKind)
    ensures
        kind == work_kind(*work),
{
    match work {
        HostWork::CaptureDisk { .. } => WorkKind::DiskCapture,
        HostWork::CheckPausedFlush { .. } => WorkKind::FlushCheck,
        HostWork::Pause { .. } => WorkKind::Pause,
        HostWork::Resume { .. } => WorkKind::Resume,
        HostWork::GrowRoot { .. } => WorkKind::RootGrowth,
        HostWork::Compact { dry_run, .. } => WorkKind::Compaction { dry_run: *dry_run },
        HostWork::Branch { .. } => WorkKind::Branch,
        HostWork::Capture { .. } => WorkKind::Capture,
        HostWork::SetMemoryTarget { .. } => WorkKind::MemoryTarget,
        HostWork::ReadMemory => WorkKind::MemoryRead,
        HostWork::SetCpuTarget { .. } => WorkKind::CpuTarget,
        HostWork::ReadCpu => WorkKind::CpuRead,
        HostWork::UpdateSecrets { .. } => WorkKind::Secrets,
    }
}

fn kind_of_outcome<P>(outcome: &HostOutcome<P>) -> (kind: WorkKind)
    ensures
        kind == outcome_kind(*outcome),
{
    match outcome {
        HostOutcome::DiskCaptured(_) => WorkKind::DiskCapture,
        HostOutcome::PausedFlushChecked(_) => WorkKind::FlushCheck,
        HostOutcome::Paused(_) => WorkKind::Pause,
        HostOutcome::Resumed(_) => WorkKind::Resume,
        HostOutcome::RootGrown(_) => WorkKind::RootGrowth,
        HostOutcome::Compacted { dry_run, .. } => WorkKind::Compaction { dry_run: *dry_run },
        HostOutcome::Branched(_) => WorkKind::Branch,
        HostOutcome::Captured(_) => WorkKind::Capture,
        HostOutcome::MemoryTargetSet { .. } => WorkKind::MemoryTarget,
        HostOutcome::MemoryRead(_) => WorkKind::MemoryRead,
        HostOutcome::CpuTargetSet { .. } => WorkKind::CpuTarget,
        HostOutcome::CpuRead(_) => WorkKind::CpuRead,
        HostOutcome::SecretsUpdated { .. } => WorkKind::Secrets,
    }
}

/// Where a request stands.
pub enum Progress<M, P> {
    Answered(ControlResponse),
    Work(HostWork<M, P>),
}

/// Whether a request changes runtime state.
pub open spec fn is_mutation<M>(request: ControlRequest<M>) -> bool {
    match request {
        ControlRequest::Capabilities
        | ControlRequest::MemoryState
        | ControlRequest::CpuState
        | ControlRequest::PauseState => false,
        ControlRequest::DiskCompact { dry_run, .. } => !dry_run,
        _ => true,
    }
}

/// Whether a request enters or leaves a resident pause.
pub open spec fn is_lifecycle_request<M>(request: ControlRequest<M>) -> bool {
    request is Pause || request is PauseWithGuestFlush || request is Resume
}

/// Whether a request is possible while a user holds the VM paused.
pub open spec fn works_while_paused<M>(request: ControlRequest<M>) -> bool {
    ||| is_lifecycle_request(request)
    ||| request is CheckpointCreate
    ||| request is DiskCheckpointCreate
    ||| request is BranchCreate
    ||| request is BranchCreateMemfd
}

/// Why a request is refused before anything changes, if it is: code and message.
pub open spec fn refusal<M, P>(
    state: ExecState<P>,
    request: ControlRequest<M>,
    support: HostSupport,
) -> Option<(Seq<char>, Seq<char>)> {
    if request is BranchCreateMemfd && (request->BranchCreateMemfd_backing is None
        || !support.memory_descriptors) {
        Some(("missing_memory_handoff"@, "branch requires a Linux memory descriptor"@))
    } else if is_lifecycle_request(request) && !support.clock_sync {
        Some(
            (
                "pause_resume_unavailable"@,
                "resident pause/resume requires a runtime and guest kernel with clock-only resume support"@,
            ),
        )
    } else if is_mutation(request) && state.lifecycle != RuntimeLifecycle::Running && !(
    state.pause is Some && works_while_paused(request)) {
        Some(("runtime_busy"@, "runtime lifecycle does not currently admit mutations"@))
    } else {
        None
    }
}

/// The name of a pause attempt.
pub open spec fn pause_attempt<P>(state: ExecState<P>) -> Seq<char> {
    "pause-"@ + state.runtime_boot_id + "-"@ + decimal(state.revision as nat)
}

/// What an accepted request asks of the host, if anything.
pub open spec fn asks<M, P>(state: ExecState<P>, request: ControlRequest<M>, support: HostSupport) -> bool {
    match request {
        ControlRequest::Capabilities | ControlRequest::PauseState => false,
        ControlRequest::Pause => state.pause is None,
        ControlRequest::Resume => state.pause is Some,
        ControlRequest::SecretsUpdate { .. } => support.network,
        _ => true,
    }
}

/// The work for an accepted request.
pub open spec fn is_work<M, P>(
    state: ExecState<P>,
    request: ControlRequest<M>,
    work: HostWork<M, P>,
) -> bool {
    match request {
        ControlRequest::DiskCheckpointCreate { guest_flush, checkpoint_id } => work
            == (HostWork::<M, P>::CaptureDisk { checkpoint_id, guest_flush }),
        ControlRequest::Pause => {
            &&& work matches HostWork::Pause { attempt, guest_flush }
            &&& attempt@ == pause_attempt(state)
            &&& guest_flush is None
        },
        ControlRequest::PauseWithGuestFlush { guest_flush: policy } => if state.pause is Some {
            work == (HostWork::<M, P>::CheckPausedFlush { guest_flush: policy })
        } else {
            &&& work matches HostWork::Pause { attempt, guest_flush }
            &&& attempt@ == pause_attempt(state)
            &&& guest_flush == Some(policy)
        },
        ControlRequest::Resume => state.pause is Some && work == (HostWork::<M, P>::Resume {
            paused: state.pause->0,
        }),
        ControlRequest::RootDiskGrow { size_bytes } => work == (HostWork::<M, P>::GrowRoot {
            size_bytes,
        }),
        ControlRequest::DiskCompact { target, layers, dry_run } => work
            == (HostWork::<M, P>::Compact { target, layers, dry_run }),
        ControlRequest::BranchCreate {
            guest_flush,
            record_integrity,
            branch_id,
            child_name,
            memory_cache_dir,
        } => work == (HostWork::<M, P>::Branch {
            branch_id,
            child_name,
            memory_cache_dir,
            backing: None,
            record_integrity,
            guest_flush,
        }),
        ControlRequest::BranchCreateMemfd {
            guest_flush,
            record_integrity,
            branch_id,
            child_name,
            memory_cache_dir,
            backing,
        } => work == (HostWork::<M, P>::Branch {
            branch_id,
            child_name,
            memory_cache_dir,
            backing,
            record_integrity,
            guest_flush,
        }),
        ControlRequest::CheckpointCreate {
            guest_flush,
            record_integrity,
            checkpoint_id,
            intent,
        } => work == (HostWork::<M, P>::Capture {
            checkpoint_id,
            intent,
            record_integrity,
            guest_flush,
        }),
        ControlRequest::MemoryTarget { total_mib } => work == (HostWork::<M, P>::SetMemoryTarget {
            total_mib,
        }),
        ControlRequest::MemoryState => work == HostWork::<M, P>::ReadMemory,
        ControlRequest::CpuTarget { online } => work == (HostWork::<M, P>::SetCpuTarget { online }),
        ControlRequest::CpuState => work == HostWork::<M, P>::ReadCpu,
        ControlRequest::SecretsUpdate { changes } => work == (HostWork::<M, P>::UpdateSecrets {
            changes,
        }),
        ControlRequest::Capabilities | ControlRequest::PauseState => false,
    }
}

/// The kind of work that an accepted request asks of the host, if it asks for any.
pub open spec fn requested_kind<M, P>(state: ExecState<P>, request: ControlRequest<M>) -> Option<
    WorkKind,
> {
    match request {
        ControlRequest::DiskCheckpointCreate { .. } => Some(WorkKind::DiskCapture),
        ControlRequest::Pause => Some(WorkKind::Pause),
        ControlRequest::PauseWithGuestFlush { .. } => if state.pause is Some {
            Some(WorkKind::FlushCheck)
        } else {
            Some(WorkKind::Pause)
        },
        ControlRequest::Resume => Some(WorkKind::Resume),
        ControlRequest::RootDiskGrow { .. } => Some(WorkKind::RootGrowth),
        ControlRequest::DiskCompact { dry_run, .. } => Some(WorkKind::Compaction { dry_run }),
        ControlRequest::BranchCreate { .. } => Some(WorkKind::Branch),
        ControlRequest::BranchCreateMemfd { .. } => Some(WorkKind::Branch),
        ControlRequest::CheckpointCreate { .. } => Some(WorkKind::Capture),
        ControlRequest::MemoryTarget { .. } => Some(WorkKind::MemoryTarget),
        ControlRequest::MemoryState => Some(WorkKind::MemoryRead),
        ControlRequest::CpuTarget { .. } => Some(WorkKind::CpuTarget),
        ControlRequest::CpuState => Some(WorkKind::CpuRead),
        ControlRequest::SecretsUpdate { .. } => Some(WorkKind::Secrets),
        ControlRequest::Capabilities | ControlRequest::PauseState => None,
    }
}

/// Everything the executor holds: its state, the last completed pause observation, whether client
/// work is refused because the VM is, or is about to be, suspended, and what the host works on.
#[verifier::ext_equal]
pub ghost struct ControlState<P> {
    pub state: ExecState<P>,
    pub observation: ResponseState,
    pub resident_paused: bool,
    pub protocol_version: u32,
    pub pending: Option<WorkKind>,
}

impl<P> ControlState<P> {
    /// No command is under way. The VM is on its way nowhere; client work is refused exactly while
    /// it is not running; and a user who holds it paused holds it suspended.
    pub open spec fn steady(self) -> bool {
        let lifecycle = self.state.lifecycle;
        &&& lifecycle != RuntimeLifecycle::Quiescing
        &&& lifecycle != RuntimeLifecycle::Retiring ==> {
            &&& self.resident_paused == (lifecycle != RuntimeLifecycle::Running)
            &&& self.state.pause is Some ==> lifecycle == RuntimeLifecycle::Quiesced
        }
        &&& self.state.pause is Some ==> self.resident_paused
    }

    /// What every command that is over leaves of the VM: it retires, or it is not on its way into a
    /// suspension, client work is refused exactly while it does not run, and a user's hold means
    /// that it is suspended.
    pub open spec fn at_rest(self) -> bool {
        let lifecycle = self.state.lifecycle;
        lifecycle == RuntimeLifecycle::Retiring || {
            &&& lifecycle != RuntimeLifecycle::Quiescing
            &&& self.resident_paused == (lifecycle != RuntimeLifecycle::Running)
            &&& self.state.pause is Some ==> lifecycle == RuntimeLifecycle::Quiesced
        }
    }

    /// The host works on a request of this kind.
    pub open spec fn underway(self, kind: WorkKind) -> bool {
        match kind {
            WorkKind::DiskCapture | WorkKind::Branch | WorkKind::Capture => self.state.lifecycle
                == RuntimeLifecycle::Quiescing,
            WorkKind::Pause => {
                &&& self.state.lifecycle == RuntimeLifecycle::Quiescing
                &&& self.state.pause is None
                &&& self.resident_paused
            },
            WorkKind::Resume => self.state.pause is None && self.resident_paused,
            _ => self.steady(),
        }
    }

    pub open spec fn wf(self) -> bool {
        &&& self.state.wf()
        &&& match self.pending {
            None => self.steady(),
            Some(kind) => self.underway(kind),
        }
    }

    pub open spec fn with(self, state: ExecState<P>) -> ControlState<P> {
        ControlState { state, ..self }
    }

    /// The transition is complete: the observation describes it.
    pub open spec fn observed(self) -> ControlState<P> {
        ControlState { observation: self.state.pause_answer(), ..self }
    }

    /// The state while the host works on an accepted request.
    pub open spec fn working<M>(self, request: ControlRequest<M>) -> ControlState<P> {
        ControlState {
            pending: requested_kind(self.state, request),
            ..self.prepared(request)
        }
    }

    /// What an accepted request changes before the host works on it.
    pub open spec fn prepared<M>(self, request: ControlRequest<M>) -> ControlState<P> {
        let quiescing = ExecState { lifecycle: RuntimeLifecycle::Quiescing, ..self.state };
        match request {
            ControlRequest::DiskCheckpointCreate { .. }
            | ControlRequest::BranchCreate { .. }
            | ControlRequest::BranchCreateMemfd { .. }
            | ControlRequest::CheckpointCreate { .. } => self.with(quiescing),
            ControlRequest::Pause
            | ControlRequest::PauseWithGuestFlush { .. } => if self.state.pause is Some {
                self
            } else {
                ControlState { resident_paused: true, ..self.with(quiescing) }
            },
            ControlRequest::Resume => self.with(ExecState { pause: None, ..self.state }),
            _ => self,
        }
    }

    /// A command ran to its end: count an applied mutation.
    pub open spec fn settled(self, mutation: bool, response: ResponseState) -> (
        ControlState<P>,
        ResponseState,
    ) {
        let settled = ControlState {
            resident_paused: self.state.lifecycle != RuntimeLifecycle::Running,
            ..self
        };
        if mutation && (response.ok || partially_applied(response)) {
            if self.state.revision < u64::MAX {
                (
                    settled.with(
                        ExecState {
                            revision: (self.state.revision + 1) as u64,
                            ..self.state
                        },
                    ),
                    response,
                )
            } else {
                (
                    settled.with(
                        ExecState { lifecycle: RuntimeLifecycle::Retiring, ..self.state },
                    ),
                    error_response(
                        "revision_exhausted"@,
                        "runtime mutation revision is exhausted"@,
                    ),
                )
            }
        } else {
            (settled, response)
        }
    }
}

/// A partially applied secret batch changes authoritative state too.
pub open spec fn partially_applied(response: ResponseState) -> bool {
    response.secret_result matches Some(SecretsState::Failed { applied_count, .. })
        && applied_count >= 1
}

pub open spec fn capability_answer(support: HostSupport) -> ResponseState {
    ResponseState {
        control_protocols: Some(seq!["json"@, "cbor"@]),
        capabilities: Some(
            ControlCapabilities {
                cpu_resize: support.cpu_resize,
                memory_resize: support.memory_resize,
                secrets_update: support.network && support.secrets,
                checkpoint_create: true,
                disk_checkpoint_create: true,
                branch_create: support.branches,
                optional_disk_integrity: true,
                guest_flush_policy: true,
                branch_memfd: support.memory_descriptors,
                disk_compact: true,
                disk_compact_owned: true,
                root_disk_grow: true,
                pause_resume: support.clock_sync,
            },
        ),
        ..bare_response(true)
    }
}

/// The answer to an accepted request that needs no work of the host.
pub open spec fn direct_answer<M, P>(
    state: ExecState<P>,
    request: ControlRequest<M>,
    support: HostSupport,
) -> ResponseState {
    match request {
        ControlRequest::Capabilities => capability_answer(support),
        ControlRequest::SecretsUpdate { .. } => error_response(
            "network_support_unavailable"@,
            "this runtime was built without network support"@,
        ),
        _ => state.pause_answer(),
    }
}

pub open spec fn memory_answer(state: Option<MemoryControlState>) -> ResponseState {
    match state {
        Some(state) => ResponseState { memory: Some(state), ..bare_response(true) },
        None => error_response(
            "memory_resize_unavailable"@,
            "this VM booted without memory hotplug capacity"@,
        ),
    }
}

pub open spec fn cpu_answer(state: Option<CpuControlState>) -> ResponseState {
    match state {
        Some(state) => ResponseState { cpu: Some(state), ..bare_response(true) },
        None => error_response(
            "cpu_resize_unavailable"@,
            "this VM booted without CPU capacity"@,
        ),
    }
}

pub open spec fn memory_mode_text(mode: MemoryCaptureMode) -> Seq<char> {
    match mode {
        MemoryCaptureMode::Full => "full"@,
        MemoryCaptureMode::Incremental => "incremental"@,
    }
}

pub open spec fn checkpoint_view(result: Option<CheckpointResult>) -> Option<CheckpointView> {
    match result {
        Some(result) => Some(
            CheckpointView {
                checkpoint_id: result.checkpoint_id@,
                checkpoint_root: result.checkpoint_root@,
                path: result.path@,
                memory_mode: memory_mode_text(result.memory_mode),
                memory_logical_bytes: result.memory_logical_bytes,
                memory_emitted_bytes: result.memory_emitted_bytes,
            },
        ),
        None => None,
    }
}

/// The state and the answer after the host's work, before the observation is renewed.
pub open spec fn completion<P>(
    control: ControlState<P>,
    outcome: HostOutcome<P>,
    support: HostSupport,
) -> (ControlState<P>, ResponseState) {
    let control = ControlState { pending: None, ..control };
    let state = control.state;
    let rested = control.with(ExecState { lifecycle: state.resting(), ..state });
    match outcome {
        HostOutcome::DiskCaptured(Ok(result)) => rested.settled(
            true,
            ResponseState { disk_checkpoint: Some(result@), ..bare_response(true) },
        ),
        HostOutcome::DiskCaptured(Err(failure)) => control.with(
            state.after_capture_failure(failure.keep_paused),
        ).settled(true, error_response("disk_checkpoint_failed"@, failure.message@)),
        HostOutcome::Branched(Ok(path)) => rested.settled(
            true,
            ResponseState { branch: Some(path@), ..bare_response(true) },
        ),
        HostOutcome::Branched(Err(failure)) => control.with(
            state.after_capture_failure(failure.keep_paused),
        ).settled(true, error_response("branch_failed"@, failure.message@)),
        HostOutcome::Captured(Ok(result)) => rested.settled(
            true,
            ResponseState { checkpoint: checkpoint_view(Some(result)), ..bare_response(true) },
        ),
        HostOutcome::Captured(Err(failure)) => control.with(
            state.after_capture_failure(failure.keep_paused),
        ).settled(
            true,
            ResponseState {
                checkpoint: checkpoint_view(failure.published),
                ..error_response("checkpoint_failed"@, failure.message@)
            },
        ),
        HostOutcome::PausedFlushChecked(Ok(_)) => control.settled(true, state.pause_answer()),
        HostOutcome::PausedFlushChecked(Err(message)) => (
            control,
            error_response("guest_flush_required"@, message@),
        ),
        HostOutcome::Paused(Ok(paused)) => {
            let next = ExecState {
                pause: Some(paused),
                lifecycle: RuntimeLifecycle::Quiesced,
                ..state
            };
            control.with(next).settled(true, next.pause_answer())
        },
        HostOutcome::Paused(Err(failure)) => (
            ControlState {
                resident_paused: failure.keep_paused,
                ..control.with(
                    ExecState {
                        lifecycle: if failure.keep_paused {
                            RuntimeLifecycle::Quiesced
                        } else {
                            RuntimeLifecycle::Running
                        },
                        ..state
                    },
                )
            },
            error_response("pause_failed"@, failure.message@),
        ),
        HostOutcome::Resumed(Ok(_)) => {
            let next = ExecState { lifecycle: RuntimeLifecycle::Running, ..state };
            control.with(next).settled(true, next.pause_answer())
        },
        HostOutcome::Resumed(Err(message)) => (
            control.with(ExecState { lifecycle: RuntimeLifecycle::Quiesced, ..state }),
            error_response("resume_recovery_required"@, message@),
        ),
        HostOutcome::RootGrown(Ok(root_disk)) => control.settled(
            true,
            ResponseState { root_disk: Some(root_disk), ..bare_response(true) },
        ),
        HostOutcome::RootGrown(Err(failure)) => control.with(
            state.suspended_if(failure.keep_paused),
        ).settled(true, error_response("root_disk_growth_incomplete"@, failure.message@)),
        HostOutcome::Compacted { dry_run, result: Ok(result) } => control.settled(
            !dry_run,
            ResponseState { compaction: Some(result@), ..bare_response(true) },
        ),
        HostOutcome::Compacted { dry_run, result: Err(failure) } => control.with(
            state.suspended_if(failure.keep_paused),
        ).settled(
            !dry_run,
            error_response(
                if failure.keep_paused {
                    "compaction_recovery_required"@
                } else {
                    "compaction_failed"@
                },
                failure.message@,
            ),
        ),
        HostOutcome::MemoryTargetSet { accepted, state: read } => control.settled(
            true,
            memory_answer(
                if accepted {
                    read
                } else {
                    None
                },
            ),
        ),
        HostOutcome::MemoryRead(read) => control.settled(false, memory_answer(read)),
        HostOutcome::CpuTargetSet { accepted, state: read } => control.settled(
            true,
            cpu_answer(
                if accepted {
                    read
                } else {
                    None
                },
            ),
        ),
        HostOutcome::CpuRead(read) => control.settled(false, cpu_answer(read)),
        HostOutcome::SecretsUpdated { ok, error, result } => control.settled(
            true,
            ResponseState {
                error: text_of(error),
                error_code: if ok {
                    None
                } else if support.secrets {
                    Some("secrets_update_failed"@)
                } else {
                    Some("secrets_update_unavailable"@)
                },
                secret_result: option_view(result),
                ..bare_response(ok)
            },
        ),
    }
}

/// `rand::Rng::fill_bytes` on the thread's generator: any sixteen bytes.
#[verifier::external_body]
fn random_identity() -> [u8; 16] {
    let mut bytes = [0u8; 16];
    rand::RngCore::fill_bytes(&mut rand::rng(), &mut bytes);
    bytes
}

/// SHA-256 of a byte string.
pub uninterp spec fn sha256(bytes: Seq<u8>) -> Seq<u8>;

/// `sha2::Sha256::digest`: the SHA-256 of the bytes, which depends on them alone.
#[verifier::external_body]
fn sha256_digest(bytes: &[u8]) -> (digest: [u8; 32])
    ensures
        digest@ == sha256(bytes@),
{
    <sha2::Sha256 as sha2::Digest>::digest(bytes).into()
}

/// The fingerprint of an envelope, from its serialized bytes.
pub fn fingerprint(envelope_bytes: &[u8]) -> (digest: [u8; 32])
    ensures
        digest@ == sha256(envelope_bytes@),
{
    sha256_digest(envelope_bytes)
}

/// The boot identity that sixteen bytes give.
pub fn runtime_boot_identity(bytes: &[u8; 16]) -> (id: String)
    ensures
        id@ == "boot_"@ + hex_text(bytes@),
{
    let digits = hex_encode(bytes.as_slice());
    let mut id = String::from_str("boot_");
    id.append(digits.as_str());
    id
}

/// Draw a fresh boot identity.
pub fn new_runtime_boot_id() -> (id: String)
    ensures
        exists|bytes: Seq<u8>| bytes.len() == 16 && id@ == "boot_"@ + #[trigger] hex_text(bytes),
{
    let bytes = random_identity();
    let id = runtime_boot_identity(&bytes);
    assert(bytes@.len() == 16);
    id
}

/// The name of a temporary file that replaces the file `stem`.
pub fn unique_temporary_name(stem: &str, process: u32, nonce: u64) -> (name: String)
    ensures
        name@ == "."@ + stem@ + "."@ + decimal(process as nat) + "."@ + decimal(nonce as nat)
            + ".tmp"@,
{
    let mut name = joined(".", stem, ".");
    push_decimal(&mut name, process as u64);
    name.append(".");
    push_decimal(&mut name, nonce);
    name.append(".tmp");
    name
}

/// A printable ASCII character other than a space.
pub open spec fn is_graphic(c: char) -> bool {
    '!' <= c <= '~'
}

/// Whether an identifier is printable, not empty and bounded.
pub open spec fn is_control_id(id: Seq<char>) -> bool {
    &&& 1 <= id.len() <= MAX_CONTROL_ID_BYTES
    &&& forall|i: int| 0 <= i < id.len() ==> is_graphic(#[trigger] id[i])
}

/// A name that can identify a request: one to 128 characters, all of them printable ASCII other than
/// a space.
pub open spec fn names_identity(id: Seq<char>) -> bool {
    &&& id.len() >= 1
    &&& id.len() <= 128
    &&& forall|i: int| 0 <= i < id.len() ==> 0x21 <= (#[trigger] id[i]) as int <= 0x7e
}

/// Control identifiers must be non-empty printable ASCII and bounded.
pub fn valid_control_id(id: &str) -> (valid: bool)
    ensures
        valid == is_control_id(id@),
{
    let len: usize = id.unicode_len();
    if len == 0 || len > MAX_CONTROL_ID_BYTES {
        return false;
    }
    let mut i: usize = 0;
    while i < len
        invariant
            i <= len,
            len == id@.len(),
            forall|k: int| 0 <= k < i ==> is_graphic(#[trigger] id@[k]),
        decreases len - i,
    {
        let c = id.get_char(i);
        if c < '!' || c > '~' {
            assert(!is_graphic(id@[i as int]));
            return false;
        }
        i = i + 1;
    }
    true
}

/// Refuse a resident pause or resume that this VM cannot perform.
pub fn unsupported_lifecycle_request<M>(request: &ControlRequest<M>, clock_sync: bool) -> (refused:
    Option<ControlResponse>)
    ensures
        match refused {
            Some(response) => !clock_sync && is_lifecycle_request(*request) && response@
                == error_response(
                "pause_resume_unavailable"@,
                "resident pause/resume requires a runtime and guest kernel with clock-only resume support"@,
            ),
            None => clock_sync || !is_lifecycle_request(*request),
        },
{
    let lifecycle = matches!(
        request,
        ControlRequest::Pause | ControlRequest::PauseWithGuestFlush { .. } | ControlRequest::Resume
    );
    if !clock_sync && lifecycle {
        Some(
            control_error(
                "pause_resume_unavailable",
                String::from_str(
                    "resident pause/resume requires a runtime and guest kernel with clock-only resume support",
                ),
            ),
        )
    } else {
        None
    }
}

/// What a pause observation says.
pub fn pause_response<P>(state: &ExecutorState<P>) -> (response: ControlResponse)
    ensures
        response@ == state@.pause_answer(),
{
    let capture_unavailable = match &state.user_pause {
        Some(pause) => copy_text(&pause.capture_unavailable),
        None => None,
    };
    let mut response = ControlResponse::bare(true);
    response.pause = Some(
        PauseControlState {
            paused: state.user_pause.is_some(),
            recovery_required: state.lifecycle == RuntimeLifecycle::Quiesced
                && state.user_pause.is_none(),
            capture_unavailable,
        },
    );
    response
}

/// The boot identity and mutation revision of the moment.
pub fn snapshot_state<P>(state: &ExecutorState<P>) -> (runtime: RuntimeControlState)
    ensures
        runtime@ == state@.runtime(),
{
    RuntimeControlState {
        runtime_boot_id: state.runtime_boot_id.clone(),
        revision: state.revision,
        lifecycle: state.lifecycle,
    }
}

/// Refuse a fenced request.
pub fn envelope_error<P>(
    state: &ExecutorState<P>,
    request_id: String,
    code: &str,
    message: String,
) -> (response: ControlEnvelopeResponse)
    ensures
        response@ == (EnvelopeView {
            request_id: request_id@,
            runtime: state@.runtime(),
            response: error_response(code@, message@),
        }),
{
    ControlEnvelopeResponse {
        request_id,
        runtime: snapshot_state(state),
        response: control_error(code, message),
    }
}

/// The remembered answers once another joins them: the oldest leave.
pub open spec fn remembering(dedup: Seq<DedupView>, entry: DedupView) -> Seq<DedupView> {
    if dedup.len() >= MAX_DEDUP_RESPONSES {
        dedup.subrange(dedup.len() - MAX_DEDUP_RESPONSES + 1, dedup.len() as int).push(entry)
    } else {
        dedup.push(entry)
    }
}

/// Remember the answer to a request that was not answered before.
pub fn remember_response<P>(
    state: &mut ExecutorState<P>,
    request_id: String,
    fingerprint: [u8; 32],
    response: ControlEnvelopeResponse,
)
    requires
        old(state)@.wf(),
        !old(state)@.remembered(request_id@),
    ensures
        final(state)@ == (ExecState {
            dedup: remembering(
                old(state)@.dedup,
                DedupView { request_id: request_id@, fingerprint: fingerprint@, response: response@ },
            ),
            ..old(state)@
        }),
        final(state)@.wf(),
{
    let ghost before = state@.dedup;
    while state.dedup.len() >= MAX_DEDUP_RESPONSES
        invariant
            before == old(state)@.dedup,
            before.len() <= MAX_DEDUP_RESPONSES,
            state@.dedup == before || (before.len() == MAX_DEDUP_RESPONSES && state@.dedup
                == before.subrange(1, before.len() as int)),
            state@ == (ExecState { dedup: state@.dedup, ..old(state)@ }),
            state@.dedup.len() == state.dedup@.len(),
        decreases state.dedup@.len(),
    {
        state.dedup.remove(0);
        assert(state@.dedup =~= before.subrange(1, before.len() as int));
    }
    let ghost kept = state@.dedup;
    let ghost entry = DedupView {
        request_id: request_id@,
        fingerprint: fingerprint@,
        response: response@,
    };
    state.dedup.push(DedupEntry { request_id, fingerprint, response });
    proof {
        assert(state@.dedup =~= kept.push(entry));
        assert(state@.dedup =~= remembering(before, entry));
        assert forall|i: int, j: int| 0 <= i < j < state@.dedup.len() implies (
        #[trigger] state@.dedup[i]).request_id != (#[trigger] state@.dedup[j]).request_id by {
            let shift: int = if before.len() == MAX_DEDUP_RESPONSES {
                1
            } else {
                0
            };
            assert(state@.dedup[i] == before[i + shift]);
            if j < kept.len() {
                assert(state@.dedup[j] == before[j + shift]);
            }
        }
    }
}

fn same_digest(a: &[u8; 32], b: &[u8; 32]) -> (same: bool)
    ensures
        same == (a@ == b@),
{
    let mut i: usize = 0;
    while i < 32
        invariant
            i <= 32,
            forall|k: int| 0 <= k < i ==> #[trigger] a@[k] == b@[k],
        decreases 32 - i,
    {
        if a[i] != b[i] {
            assert(a@[i as int] != b@[i as int]);
            return false;
        }
        i = i + 1;
    }
    assert(a@ =~= b@);
    true
}

/// Report a published checkpoint.
pub fn checkpoint_response(
    result: Option<CheckpointResult>,
    ok: bool,
    error_code: Option<String>,
    error: Option<String>,
) -> (response: ControlResponse)
    ensures
        response@ == (ResponseState {
            error: text_of(error),
            error_code: text_of(error_code),
            checkpoint: checkpoint_view(result),
            ..bare_response(ok)
        }),
{
    let mut response = ControlResponse::bare(ok);
    response.error = error;
    response.error_code = error_code;
    response.checkpoint =
    match result {
        Some(result) => {
            let memory_mode = match result.memory_mode {
                MemoryCaptureMode::Full => String::from_str("full"),
                MemoryCaptureMode::Incremental => String::from_str("incremental"),
            };
            Some(
                CheckpointControlState {
                    checkpoint_id: result.checkpoint_id,
                    checkpoint_root: result.checkpoint_root,
                    path: result.path,
                    memory_mode,
                    memory_logical_bytes: result.memory_logical_bytes,
                    memory_emitted_bytes: result.memory_emitted_bytes,
                },
            )
        },
        None => None,
    };
    response
}

/// One in-process authority for all host-owned runtime mutations. Its owner serializes access: a
/// request that asks for work of the host holds it until that work is completed. Observation of the
/// pause needs no such hold.
pub struct RuntimeControlExecutor<P> {
    state: ExecutorState<P>,
    pause_observation: ControlResponse,
    resident_paused: bool,
    protocol_version: u32,
    pending: Option<WorkKind>,
}

impl<P> View for RuntimeControlExecutor<P> {
    type V = ControlState<P>;

    closed spec fn view(&self) -> ControlState<P> {
        ControlState {
            state: self.state@,
            observation: self.pause_observation@,
            resident_paused: self.resident_paused,
            protocol_version: self.protocol_version,
            pending: self.pending,
        }
    }
}

/// Where a fenced request stands.
pub enum EnvelopeProgress<M, P> {
    Answered(ControlEnvelopeResponse),
    Work { request_id: String, fingerprint: [u8; 32], work: HostWork<M, P> },
}

/// The answer to a fenced request that reaches no command, if it does not.
pub open spec fn envelope_refusal<M, P>(
    control: ControlState<P>,
    envelope: ControlEnvelope<M>,
    digest: Seq<u8>,
) -> Option<EnvelopeView> {
    let refused = |code: Seq<char>, message: Seq<char>|
        Some(
            EnvelopeView {
                request_id: envelope.request_id@,
                runtime: control.state.runtime(),
                response: error_response(code, message),
            },
        );
    if control.state.remembered(envelope.request_id@) {
        let memory = control.state.memory(envelope.request_id@);
        if memory.fingerprint == digest {
            Some(memory.response)
        } else {
            refused(
                "request_id_conflict"@,
                "request id was already used for different command bytes"@,
            )
        }
    } else if envelope.protocol_version != control.protocol_version {
        refused(
            "unsupported_protocol"@,
            "unsupported control protocol "@ + decimal(envelope.protocol_version as nat)
                + " (expected "@ + decimal(control.protocol_version as nat) + ")"@,
        )
    } else if !is_control_id(envelope.request_id@) || (envelope.operation_id is Some
        && !is_control_id(envelope.operation_id->0@)) {
        refused(
            "invalid_identifier"@,
            "control identifiers must be non-empty printable ASCII and at most 128 bytes"@,
        )
    } else if envelope.runtime_boot_id@ != control.state.runtime_boot_id {
        refused("stale_runtime_boot"@, "request targets a different runtime boot"@)
    } else if envelope.expected_revision is Some && envelope.expected_revision->0
        != control.state.revision {
        refused(
            "revision_conflict"@,
            "runtime revision changed before the request was applied"@,
        )
    } else {
        None
    }
}

proof fn lemma_fences<M, P>(control: ControlState<P>, envelope: ControlEnvelope<M>, digest: Seq<u8>)
    requires
        control.wf(),
    ensures
        forall|id: Seq<char>| #[trigger] names_identity(id) == is_control_id(id),
        forall|i: int|
            0 <= i < control.state.dedup.len() && (#[trigger] control.state.dedup[i]).request_id
                == envelope.request_id@ ==> control.state.memory(envelope.request_id@)
                == control.state.dedup[i],
{
    assert forall|id: Seq<char>| #[trigger] names_identity(id) == is_control_id(id) by {
        if names_identity(id) {
            assert forall|i: int| 0 <= i < id.len() implies is_graphic(#[trigger] id[i]) by {
                assert(0x21 <= id[i] as int <= 0x7e);
            }
        }
        if is_control_id(id) {
            assert forall|i: int| 0 <= i < id.len() implies 0x21 <= (#[trigger] id[i]) as int
                <= 0x7e by {
                assert(is_graphic(id[i]));
            }
        }
    }
}

/// The state and the answer once a fenced command was answered and its answer is remembered.
pub open spec fn recorded<P>(
    control: ControlState<P>,
    request_id: Seq<char>,
    fingerprint: Seq<u8>,
    response: ResponseState,
) -> (ControlState<P>, EnvelopeView) {
    let answer = EnvelopeView { request_id, runtime: control.state.runtime(), response };
    (
        control.with(
            ExecState {
                dedup: remembering(
                    control.state.dedup,
                    DedupView { request_id, fingerprint, response: answer },
                ),
                ..control.state
            },
        ),
        answer,
    )
}

/// The state and the answer of a command that needs no work of the host; `None` where it does.
pub open spec fn immediate<M, P>(
    control: ControlState<P>,
    request: ControlRequest<M>,
    support: HostSupport,
) -> Option<(ControlState<P>, ResponseState)> {
    match refusal(control.state, request, support) {
        Some((code, message)) => Some((control.observed(), error_response(code, message))),
        None => if asks(control.state, request, support) {
            None
        } else {
            let (settled, answer) = control.settled(
                is_mutation(request),
                direct_answer(control.state, request, support),
            );
            Some((settled.observed(), answer))
        },
    }
}

impl<P> RuntimeControlExecutor<P> {
    /// A running VM with a fresh boot identity.
    pub fn new(protocol_version: u32) -> (executor: RuntimeControlExecutor<P>)
        ensures
            executor@.wf(),
            executor@.state.revision == 0,
            executor@.state.lifecycle == RuntimeLifecycle::Running,
            executor@.state.dedup.len() == 0,
            executor@.state.pause is None,
            executor@.observation == executor@.state.pause_answer(),
            !executor@.resident_paused,
            executor@.protocol_version == protocol_version,
            executor@.pending is None,
            exists|bytes: Seq<u8>|
                bytes.len() == 16 && executor@.state.runtime_boot_id == "boot_"@
                    + #[trigger] hex_text(bytes),
    {
        let state = ExecutorState {
            runtime_boot_id: new_runtime_boot_id(),
            revision: 0,
            lifecycle: RuntimeLifecycle::Running,
            dedup: Vec::new(),
            user_pause: None,
        };
        let pause_observation = pause_response(&state);
        RuntimeControlExecutor {
            state,
            pause_observation,
            resident_paused: false,
            protocol_version,
            pending: None,
        }
    }

    /// The current immutable boot identity and mutation revision.
    pub fn state(&self) -> (runtime: RuntimeControlState)
        ensures
            runtime@ == self@.state.runtime(),
    {
        snapshot_state(&self.state)
    }

    /// Whether new client work is refused because the VM is suspended.
    pub fn is_resident_paused(&self) -> (paused: bool)
        ensures
            paused == self@.resident_paused,
    {
        self.resident_paused
    }

    /// The pause that a capture in progress must respect.
    pub fn user_pause(&self) -> (pause: &Option<UserPause<P>>)
        ensures
            *pause == self@.state.pause,
    {
        &self.state.user_pause
    }

    fn settle(&mut self, mutation: bool, response: ControlResponse) -> (answer: ControlResponse)
        ensures
            (final(self)@, answer@) == old(self)@.settled(mutation, response@),
    {
        self.resident_paused = self.state.lifecycle != RuntimeLifecycle::Running;
        let partial = match &response.secret_result {
            Some(SecretsResult::Failed { applied_count, .. }) => *applied_count >= 1,
            _ => false,
        };
        if mutation && (response.ok || partial) {
            if self.state.revision < u64::MAX {
                self.state.revision = self.state.revision + 1;
            } else {
                self.state.lifecycle = RuntimeLifecycle::Retiring;
                return control_error(
                    "revision_exhausted",
                    String::from_str("runtime mutation revision is exhausted"),
                );
            }
        }
        response
    }

    fn observe(&mut self)
        ensures
            final(self)@ == old(self)@.observed(),
    {
        self.pause_observation = pause_response(&self.state);
    }
}

impl<P> RuntimeControlExecutor<P> {
    /// Begin a command under the executor's lock. One that is answered at once leaves the VM at rest.
    pub fn execute_locked<M>(&mut self, request: ControlRequest<M>, support: HostSupport) -> (progress:
        Progress<M, P>)
        requires
            old(self)@.wf(),
            old(self)@.pending is None,
        ensures
            final(self)@.wf(),
            progress is Answered ==> final(self)@.pending is None && final(self)@.at_rest(),
            match progress {
                Progress::Answered(response) => immediate(old(self)@, request, support) == Some(
                    (final(self)@, response@),
                ),
                Progress::Work(work) => {
                    &&& immediate(old(self)@, request, support) is None
                    &&& is_work(old(self)@.state, request, work)
                    &&& final(self)@ == old(self)@.working(request)
                },
            },
    {
        let ghost before = self@;
        proof {
            lemma_command_keeps_wf(before, request, support);
        }
        match self.prepare(request, support) {
            Progress::Answered(response) => Progress::Answered(response),
            Progress::Work(work) => {
                self.pending = Some(kind_of_work(&work));
                assert(self@ == before.working(request));
                Progress::Work(work)
            },
        }
    }

    /// Check a command and change what it changes before the host works on it.
    fn prepare<M>(&mut self, request: ControlRequest<M>, support: HostSupport) -> (progress:
        Progress<M, P>)
        requires
            old(self)@.state.wf(),
        ensures
            match progress {
                Progress::Answered(response) => immediate(old(self)@, request, support) == Some(
                    (final(self)@, response@),
                ),
                Progress::Work(work) => {
                    &&& immediate(old(self)@, request, support) is None
                    &&& is_work(old(self)@.state, request, work)
                    &&& final(self)@ == old(self)@.prepared(request)
                },
            },
    {
        let missing = match &request {
            ControlRequest::BranchCreateMemfd { backing, .. } => backing.is_none()
                || !support.memory_descriptors,
            _ => false,
        };
        if missing {
            self.observe();
            return Progress::Answered(
                control_error(
                    "missing_memory_handoff",
                    String::from_str("branch requires a Linux memory descriptor"),
                ),
            );
        }
        if let Some(response) = unsupported_lifecycle_request(&request, support.clock_sync) {
            self.observe();
            return Progress::Answered(response);
        }
        let mutation = match &request {
            ControlRequest::Capabilities
            | ControlRequest::MemoryState
            | ControlRequest::CpuState
            | ControlRequest::PauseState => false,
            ControlRequest::DiskCompact { dry_run, .. } => !*dry_run,
            _ => true,
        };
        let resident_operation = self.state.user_pause.is_some() && matches!(
            request,
            ControlRequest::Pause
                | ControlRequest::PauseWithGuestFlush { .. }
                | ControlRequest::Resume
                | ControlRequest::CheckpointCreate { .. }
                | ControlRequest::DiskCheckpointCreate { .. }
                | ControlRequest::BranchCreate { .. }
                | ControlRequest::BranchCreateMemfd { .. }
        );
        if mutation && self.state.lifecycle != RuntimeLifecycle::Running && !resident_operation {
            self.observe();
            return Progress::Answered(
                control_error(
                    "runtime_busy",
                    String::from_str("runtime lifecycle does not currently admit mutations"),
                ),
            );
        }
        assert(refusal(old(self)@.state, request, support) is None);
        match request {
            ControlRequest::DiskCheckpointCreate { checkpoint_id, guest_flush } => {
                self.state.lifecycle = RuntimeLifecycle::Quiescing;
                Progress::Work(HostWork::CaptureDisk { checkpoint_id, guest_flush })
            },
            ControlRequest::Pause => {
                if self.state.user_pause.is_some() {
                    let response = pause_response(&self.state);
                    let answer = self.settle(true, response);
                    self.observe();
                    return Progress::Answered(answer);
                }
                Progress::Work(self.begin_pause(None))
            },
            ControlRequest::PauseWithGuestFlush { guest_flush } => {
                if self.state.user_pause.is_some() {
                    return Progress::Work(HostWork::CheckPausedFlush { guest_flush });
                }
                Progress::Work(self.begin_pause(Some(guest_flush)))
            },
            ControlRequest::Resume => {
                match self.state.user_pause.take() {
                    Some(paused) => Progress::Work(HostWork::Resume { paused }),
                    None => {
                        let response = pause_response(&self.state);
                        let answer = self.settle(true, response);
                        self.observe();
                        Progress::Answered(answer)
                    },
                }
            },
            ControlRequest::PauseState => {
                let response = pause_response(&self.state);
                let answer = self.settle(false, response);
                self.observe();
                Progress::Answered(answer)
            },
            ControlRequest::RootDiskGrow { size_bytes } => Progress::Work(
                HostWork::GrowRoot { size_bytes },
            ),
            ControlRequest::DiskCompact { target, layers, dry_run } => Progress::Work(
                HostWork::Compact { target, layers, dry_run },
            ),
            ControlRequest::BranchCreate {
                guest_flush,
                record_integrity,
                branch_id,
                child_name,
                memory_cache_dir,
            } => {
                self.state.lifecycle = RuntimeLifecycle::Quiescing;
                Progress::Work(
                    HostWork::Branch {
                        branch_id,
                        child_name,
                        memory_cache_dir,
                        backing: None,
                        record_integrity,
                        guest_flush,
                    },
                )
            },
            ControlRequest::BranchCreateMemfd {
                guest_flush,
                record_integrity,
                branch_id,
                child_name,
                memory_cache_dir,
                backing,
            } => {
                self.state.lifecycle = RuntimeLifecycle::Quiescing;
                Progress::Work(
                    HostWork::Branch {
                        branch_id,
                        child_name,
                        memory_cache_dir,
                        backing,
                        record_integrity,
                        guest_flush,
                    },
                )
            },
            ControlRequest::CheckpointCreate {
                guest_flush,
                record_integrity,
                checkpoint_id,
                intent,
            } => {
                self.state.lifecycle = RuntimeLifecycle::Quiescing;
                Progress::Work(
                    HostWork::Capture { checkpoint_id, intent, record_integrity, guest_flush },
                )
            },
            ControlRequest::Capabilities => {
                let answer = self.settle(false, capabilities_response(support));
                self.observe();
                Progress::Answered(answer)
            },
            ControlRequest::MemoryTarget { total_mib } => Progress::Work(
                HostWork::SetMemoryTarget { total_mib },
            ),
            ControlRequest::MemoryState => Progress::Work(HostWork::ReadMemory),
            ControlRequest::CpuTarget { online } => Progress::Work(
                HostWork::SetCpuTarget { online },
            ),
            ControlRequest::CpuState => Progress::Work(HostWork::ReadCpu),
            ControlRequest::SecretsUpdate { changes } => {
                if !support.network {
                    let answer = self.settle(
                        true,
                        control_error(
                            "network_support_unavailable",
                            String::from_str("this runtime was built without network support"),
                        ),
                    );
                    self.observe();
                    return Progress::Answered(answer);
                }
                Progress::Work(HostWork::UpdateSecrets { changes })
            },
        }
    }

    /// Claim the suspension before the host attempts it.
    fn begin_pause<M>(&mut self, guest_flush: Option<GuestFlush>) -> (work: HostWork<M, P>)
        ensures
            work matches HostWork::Pause { attempt, guest_flush: policy } && attempt@
                == pause_attempt(old(self)@.state) && policy == guest_flush,
            final(self)@ == (ControlState {
                resident_paused: true,
                ..old(self)@.with(
                    ExecState { lifecycle: RuntimeLifecycle::Quiescing, ..old(self)@.state },
                )
            }),
    {
        self.resident_paused = true;
        let mut attempt = joined("pause-", self.state.runtime_boot_id.as_str(), "-");
        push_decimal(&mut attempt, self.state.revision);
        self.state.lifecycle = RuntimeLifecycle::Quiescing;
        HostWork::Pause { attempt, guest_flush }
    }

    /// Begin a command of the legacy transport. Observation remains available during a long
    /// capture: it describes the last completed lifecycle transition.
    pub fn execute_legacy<M>(&mut self, command: ControlRequest<M>, support: HostSupport) -> (progress:
        Progress<M, P>)
        requires
            old(self)@.wf(),
            old(self)@.pending is None || command is PauseState,
        ensures
            final(self)@.wf(),
            if command is PauseState {
                &&& progress matches Progress::Answered(response)
                &&& response@ == old(self)@.observation
                &&& final(self)@ == old(self)@
            } else {
                match progress {
                    Progress::Answered(response) => immediate(old(self)@, command, support) == Some(
                        (final(self)@, response@),
                    ),
                    Progress::Work(work) => {
                        &&& immediate(old(self)@, command, support) is None
                        &&& is_work(old(self)@.state, command, work)
                        &&& final(self)@ == old(self)@.working(command)
                    },
                }
            },
    {
        if matches!(command, ControlRequest::PauseState) {
            return Progress::Answered(self.pause_observation.copy());
        }
        self.execute_locked(command, support)
    }
}

/// The names of the transports of this endpoint.
fn control_protocols() -> (names: Vec<String>)
    ensures
        texts_of(names@) == seq!["json"@, "cbor"@],
{
    let mut names: Vec<String> = Vec::new();
    names.push(String::from_str("json"));
    names.push(String::from_str("cbor"));
    names
}

/// What this runtime can do, and over which transports.
pub fn capabilities_response(support: HostSupport) -> (response: ControlResponse)
    ensures
        response@ == capability_answer(support),
{
    let mut response = ControlResponse::bare(true);
    response.control_protocols = Some(control_protocols());
    response.capabilities = Some(
        ControlCapabilities {
            cpu_resize: support.cpu_resize,
            memory_resize: support.memory_resize,
            secrets_update: support.network && support.secrets,
            checkpoint_create: true,
            disk_checkpoint_create: true,
            branch_create: support.branches,
            optional_disk_integrity: true,
            guest_flush_policy: true,
            branch_memfd: support.memory_descriptors,
            disk_compact: true,
            disk_compact_owned: true,
            root_disk_grow: true,
            pause_resume: support.clock_sync,
        },
    );
    response
}

impl<P> RuntimeControlExecutor<P> {
    /// Settle the lifecycle after a capture failed.
    fn fail_capture(&mut self, keep_paused: bool)
        ensures
            final(self)@ == old(self)@.with(old(self)@.state.after_capture_failure(keep_paused)),
    {
        if keep_paused {
            self.state.user_pause = None;
        }
        self.state.lifecycle =
        if keep_paused || self.state.user_pause.is_some() {
            RuntimeLifecycle::Quiesced
        } else {
            RuntimeLifecycle::Running
        };
    }

    /// Settle the lifecycle after a capture succeeded.
    fn rest(&mut self)
        ensures
            final(self)@ == old(self)@.with(
                ExecState { lifecycle: old(self)@.state.resting(), ..old(self)@.state },
            ),
    {
        self.state.lifecycle =
        if self.state.user_pause.is_some() {
            RuntimeLifecycle::Quiesced
        } else {
            RuntimeLifecycle::Running
        };
    }

    /// Settle a command by how the host's work ended. However it ended, the VM is left at rest.
    pub fn complete_locked(&mut self, outcome: HostOutcome<P>, support: HostSupport) -> (answer:
        ControlResponse)
        requires
            old(self)@.wf(),
            old(self)@.pending == Some(outcome_kind(outcome)),
        ensures
            (final(self)@, answer@) == completion(old(self)@, outcome, support),
            final(self)@.wf(),
            final(self)@.pending is None,
            final(self)@.at_rest(),
    {
        proof {
            lemma_completion_keeps_wf(self@, outcome, support);
        }
        self.pending = None;
        match outcome {
            HostOutcome::DiskCaptured(_) | HostOutcome::Branched(_) | HostOutcome::Captured(
                _,
            ) => self.complete_capture(outcome, support),
            HostOutcome::PausedFlushChecked(_) | HostOutcome::Paused(_) | HostOutcome::Resumed(
                _,
            ) => self.complete_pause(outcome, support),
            _ => self.complete_resource(outcome, support),
        }
    }

    /// Answer a capture or a branch.
    fn complete_capture(&mut self, outcome: HostOutcome<P>, support: HostSupport) -> (answer:
        ControlResponse)
        requires
            old(self)@.state.wf(),
            old(self)@.pending is None,
            outcome is DiskCaptured || outcome is Branched || outcome is Captured,
        ensures
            (final(self)@, answer@) == completion(old(self)@, outcome, support),
    {
        match outcome {
            HostOutcome::DiskCaptured(Ok(result)) => {
                self.rest();
                let mut response = ControlResponse::bare(true);
                response.disk_checkpoint = Some(result);
                self.settle(true, response)
            },
            HostOutcome::DiskCaptured(Err(failure)) => {
                self.fail_capture(failure.keep_paused);
                self.settle(true, control_error("disk_checkpoint_failed", failure.message))
            },
            HostOutcome::Branched(Ok(path)) => {
                self.rest();
                let mut response = ControlResponse::bare(true);
                response.branch = Some(path);
                self.settle(true, response)
            },
            HostOutcome::Branched(Err(failure)) => {
                self.fail_capture(failure.keep_paused);
                self.settle(true, control_error("branch_failed", failure.message))
            },
            HostOutcome::Captured(Ok(result)) => {
                self.rest();
                self.settle(true, checkpoint_response(Some(result), true, None, None))
            },
            HostOutcome::Captured(Err(failure)) => {
                self.fail_capture(failure.keep_paused);
                self.settle(
                    true,
                    checkpoint_response(
                        failure.published,
                        false,
                        Some(String::from_str("checkpoint_failed")),
                        Some(failure.message),
                    ),
                )
            },
            _ => {
                assert(false);
                ControlResponse::bare(false)
            },
        }
    }

    /// Answer a transition of the resident pause.
    fn complete_pause(&mut self, outcome: HostOutcome<P>, support: HostSupport) -> (answer:
        ControlResponse)
        requires
            old(self)@.state.wf(),
            old(self)@.pending is None,
            outcome is PausedFlushChecked || outcome is Paused || outcome is Resumed,
        ensures
            (final(self)@, answer@) == completion(old(self)@, outcome, support),
    {
        match outcome {
            HostOutcome::PausedFlushChecked(Ok(())) => {
                let response = pause_response(&self.state);
                self.settle(true, response)
            },
            HostOutcome::PausedFlushChecked(Err(message)) => control_error(
                "guest_flush_required",
                message,
            ),
            HostOutcome::Paused(Ok(paused)) => {
                self.state.user_pause = Some(paused);
                self.state.lifecycle = RuntimeLifecycle::Quiesced;
                let response = pause_response(&self.state);
                self.settle(true, response)
            },
            HostOutcome::Paused(Err(failure)) => {
                self.state.lifecycle =
                if failure.keep_paused {
                    RuntimeLifecycle::Quiesced
                } else {
                    RuntimeLifecycle::Running
                };
                self.resident_paused = failure.keep_paused;
                control_error("pause_failed", failure.message)
            },
            HostOutcome::Resumed(Ok(())) => {
                self.state.lifecycle = RuntimeLifecycle::Running;
                let response = pause_response(&self.state);
                self.settle(true, response)
            },
            HostOutcome::Resumed(Err(message)) => {
                self.state.lifecycle = RuntimeLifecycle::Quiesced;
                control_error("resume_recovery_required", message)
            },
            _ => {
                assert(false);
                ControlResponse::bare(false)
            },
        }
    }

    /// Answer a resize, a disk operation or a batch of secret changes.
    fn complete_resource(&mut self, outcome: HostOutcome<P>, support: HostSupport) -> (answer:
        ControlResponse)
        requires
            old(self)@.state.wf(),
            old(self)@.pending is None,
            !(outcome is DiskCaptured || outcome is Branched || outcome is Captured
                || outcome is PausedFlushChecked || outcome is Paused || outcome is Resumed),
        ensures
            (final(self)@, answer@) == completion(old(self)@, outcome, support),
    {
        match outcome {
            HostOutcome::RootGrown(Ok(root_disk)) => {
                let mut response = ControlResponse::bare(true);
                response.root_disk = Some(root_disk);
                self.settle(true, response)
            },
            HostOutcome::RootGrown(Err(failure)) => {
                if failure.keep_paused {
                    self.state.lifecycle = RuntimeLifecycle::Quiesced;
                }
                self.settle(true, control_error("root_disk_growth_incomplete", failure.message))
            },
            HostOutcome::Compacted { dry_run, result: Ok(result) } => {
                let mut response = ControlResponse::bare(true);
                response.compaction = Some(result);
                self.settle(!dry_run, response)
            },
            HostOutcome::Compacted { dry_run, result: Err(failure) } => {
                if failure.keep_paused {
                    self.state.lifecycle = RuntimeLifecycle::Quiesced;
                }
                let code = if failure.keep_paused {
                    "compaction_recovery_required"
                } else {
                    "compaction_failed"
                };
                self.settle(!dry_run, control_error(code, failure.message))
            },
            HostOutcome::MemoryTargetSet { accepted, state } => {
                let read = if accepted {
                    state
                } else {
                    None
                };
                self.settle(true, memory_response(read))
            },
            HostOutcome::MemoryRead(read) => self.settle(false, memory_response(read)),
            HostOutcome::CpuTargetSet { accepted, state } => {
                let read = if accepted {
                    state
                } else {
                    None
                };
                self.settle(true, cpu_response(read))
            },
            HostOutcome::CpuRead(read) => self.settle(false, cpu_response(read)),
            HostOutcome::SecretsUpdated { ok, error, result } => {
                let mut response = ControlResponse::bare(ok);
                response.error = error;
                if !ok {
                    response.error_code =
                    if support.secrets {
                        Some(String::from_str("secrets_update_failed"))
                    } else {
                        Some(String::from_str("secrets_update_unavailable"))
                    };
                }
                response.secret_result = result;
                self.settle(true, response)
            },
            _ => {
                assert(false);
                ControlResponse::bare(false)
            },
        }
    }

    /// Whether the host owes work that this outcome ends.
    pub fn awaits(&self, outcome: &HostOutcome<P>) -> (awaited: bool)
        ensures
            awaited == (self@.pending == Some(outcome_kind(*outcome))),
    {
        match self.pending {
            Some(kind) => kind == kind_of_outcome(outcome),
            None => false,
        }
    }

    /// Answer a command of the legacy transport whose work ended.
    pub fn complete_legacy(&mut self, outcome: HostOutcome<P>, support: HostSupport) -> (answer:
        ControlResponse)
        requires
            old(self)@.wf(),
            old(self)@.pending == Some(outcome_kind(outcome)),
        ensures
            ({
                let (completed, response) = completion(old(self)@, outcome, support);
                final(self)@ == completed.observed() && answer@ == response
            }),
            final(self)@.wf(),
    {
        let answer = self.complete_locked(outcome, support);
        self.observe();
        answer
    }

    /// The position of the remembered answer to a request.
    fn find(&self, request_id: &String) -> (found: Option<usize>)
        requires
            self@.wf(),
        ensures
            match found {
                Some(i) => {
                    &&& self@.state.remembered(request_id@)
                    &&& i < self.state.dedup@.len()
                    &&& self.state.dedup@[i as int]@ == self@.state.memory(request_id@)
                },
                None => !self@.state.remembered(request_id@),
            },
    {
        let mut i: usize = 0;
        while i < self.state.dedup.len()
            invariant
                i <= self.state.dedup@.len(),
                self@.wf(),
                self@.state.dedup == Seq::new(
                    self.state.dedup@.len(),
                    |k: int| self.state.dedup@[k]@,
                ),
                forall|k: int|
                    0 <= k < i ==> (#[trigger] self@.state.dedup[k]).request_id != request_id@,
            decreases self.state.dedup@.len() - i,
        {
            if self.state.dedup[i].request_id == *request_id {
                proof {
                    assert(self@.state.dedup[i as int].request_id == request_id@);
                    let chosen = choose|k: int|
                        0 <= k < self@.state.dedup.len() && (
                        #[trigger] self@.state.dedup[k]).request_id == request_id@;
                    assert(chosen == i);
                }
                return Some(i);
            }
            assert(self@.state.dedup[i as int] == self.state.dedup@[i as int]@);
            i = i + 1;
        }
        None
    }

    /// Begin a fenced, idempotent request. `envelope_bytes` is its serialized form.
    pub fn execute<M>(
        &mut self,
        envelope: ControlEnvelope<M>,
        envelope_bytes: &[u8],
        support: HostSupport,
    ) -> (progress: EnvelopeProgress<M, P>)
        requires
            old(self)@.wf(),
            old(self)@.pending is None,
        ensures
            final(self)@.wf(),
            match envelope_refusal(old(self)@, envelope, sha256(envelope_bytes@)) {
                Some(answer) => {
                    &&& progress matches EnvelopeProgress::Answered(response)
                    &&& response@ == answer
                    &&& final(self)@ == old(self)@
                },
                None => match immediate(old(self)@, envelope.command, support) {
                    Some((answered, answer)) => {
                        &&& progress matches EnvelopeProgress::Answered(response)
                        &&& (final(self)@, response@) == recorded(
                            answered,
                            envelope.request_id@,
                            sha256(envelope_bytes@),
                            answer,
                        )
                    },
                    None => {
                        &&& progress matches EnvelopeProgress::Work {
                            request_id,
                            fingerprint,
                            work,
                        }
                        &&& request_id == envelope.request_id
                        &&& fingerprint@ == sha256(envelope_bytes@)
                        &&& is_work(old(self)@.state, envelope.command, work)
                        &&& final(self)@ == old(self)@.working(envelope.command)
                        &&& !final(self)@.state.remembered(request_id@)
                    },
                },
            },
            // A request that is remembered is never executed again.
            forall|i: int|
                0 <= i < old(self)@.state.dedup.len() && (
                #[trigger] old(self)@.state.dedup[i]).request_id == envelope.request_id@ ==> {
                    &&& progress matches EnvelopeProgress::Answered(answer)
                    &&& final(self)@ == old(self)@
                    &&& if old(self)@.state.dedup[i].fingerprint == sha256(envelope_bytes@) {
                        answer@ == old(self)@.state.dedup[i].response
                    } else {
                        text_of(answer.response.error_code) == Some("request_id_conflict"@)
                    }
                },
            // The host works only for a request that every fence lets through.
            progress is Work ==> {
                &&& envelope.protocol_version == old(self)@.protocol_version
                &&& names_identity(envelope.request_id@)
                &&& envelope.operation_id matches Some(id) ==> names_identity(id@)
                &&& envelope.runtime_boot_id@ == old(self)@.state.runtime_boot_id
                &&& envelope.expected_revision matches Some(expected) ==> expected == old(
                    self,
                )@.state.revision
                &&& forall|i: int|
                    0 <= i < old(self)@.state.dedup.len() ==> (
                    #[trigger] old(self)@.state.dedup[i]).request_id != envelope.request_id@
            },
            // A fence that does not let a request through answers it, and nothing changes.
            !old(self)@.state.remembered(envelope.request_id@) ==> {
                let fence = if envelope.protocol_version != old(self)@.protocol_version {
                    Some("unsupported_protocol"@)
                } else if !names_identity(envelope.request_id@) || (envelope.operation_id matches Some(
                    id,
                ) && !names_identity(id@)) {
                    Some("invalid_identifier"@)
                } else if envelope.runtime_boot_id@ != old(self)@.state.runtime_boot_id {
                    Some("stale_runtime_boot"@)
                } else if envelope.expected_revision matches Some(expected) && (expected < old(
                    self,
                )@.state.revision || expected > old(self)@.state.revision) {
                    Some("revision_conflict"@)
                } else {
                    None
                };
                fence is Some ==> {
                    &&& progress matches EnvelopeProgress::Answered(answer)
                    &&& final(self)@ == old(self)@
                    &&& answer.request_id@ == envelope.request_id@
                    &&& answer.runtime@ == old(self)@.state.runtime()
                    &&& !answer.response.ok
                    &&& text_of(answer.response.error_code) == fence
                }
            },
    {
        proof {
            lemma_fences(self@, envelope, sha256(envelope_bytes@));
        }
        let fingerprint = fingerprint(envelope_bytes);
        if let Some(i) = self.find(&envelope.request_id) {
            if same_digest(&self.state.dedup[i].fingerprint, &fingerprint) {
                return EnvelopeProgress::Answered(self.state.dedup[i].response.copy());
            }
            return EnvelopeProgress::Answered(
                envelope_error(
                    &self.state,
                    envelope.request_id,
                    "request_id_conflict",
                    String::from_str("request id was already used for different command bytes"),
                ),
            );
        }
        if envelope.protocol_version != self.protocol_version {
            return EnvelopeProgress::Answered(
                envelope_error(
                    &self.state,
                    envelope.request_id,
                    "unsupported_protocol",
                    numbered_pair(
                        "unsupported control protocol ",
                        envelope.protocol_version as u64,
                        " (expected ",
                        self.protocol_version as u64,
                        ")",
                    ),
                ),
            );
        }
        let operation_valid = match &envelope.operation_id {
            Some(id) => valid_control_id(id.as_str()),
            None => true,
        };
        if !valid_control_id(envelope.request_id.as_str()) || !operation_valid {
            return EnvelopeProgress::Answered(
                envelope_error(
                    &self.state,
                    envelope.request_id,
                    "invalid_identifier",
                    String::from_str(
                        "control identifiers must be non-empty printable ASCII and at most 128 bytes",
                    ),
                ),
            );
        }
        let same_boot = envelope.runtime_boot_id == self.state.runtime_boot_id;
        if !same_boot {
            return EnvelopeProgress::Answered(
                envelope_error(
                    &self.state,
                    envelope.request_id,
                    "stale_runtime_boot",
                    String::from_str("request targets a different runtime boot"),
                ),
            );
        }
        let stale = match envelope.expected_revision {
            Some(expected) => expected != self.state.revision,
            None => false,
        };
        if stale {
            return EnvelopeProgress::Answered(
                envelope_error(
                    &self.state,
                    envelope.request_id,
                    "revision_conflict",
                    String::from_str("runtime revision changed before the request was applied"),
                ),
            );
        }
        let request_id = envelope.request_id;
        match self.execute_locked(envelope.command, support) {
            Progress::Work(work) => EnvelopeProgress::Work { request_id, fingerprint, work },
            Progress::Answered(response) => EnvelopeProgress::Answered(
                self.record(request_id, fingerprint, response),
            ),
        }
    }

    fn record(
        &mut self,
        request_id: String,
        fingerprint: [u8; 32],
        response: ControlResponse,
    ) -> (answer: ControlEnvelopeResponse)
        requires
            old(self)@.wf(),
            !old(self)@.state.remembered(request_id@),
        ensures
            (final(self)@, answer@) == recorded(
                old(self)@,
                request_id@,
                fingerprint@,
                response@,
            ),
            final(self)@.wf(),
    {
        let answer = ControlEnvelopeResponse {
            request_id: request_id.clone(),
            runtime: snapshot_state(&self.state),
            response,
        };
        let copy = answer.copy();
        remember_response(&mut self.state, request_id, fingerprint, copy);
        answer
    }

    /// Answer a fenced request whose work ended, and remember the answer.
    pub fn complete(
        &mut self,
        request_id: String,
        fingerprint: [u8; 32],
        outcome: HostOutcome<P>,
        support: HostSupport,
    ) -> (answer: ControlEnvelopeResponse)
        requires
            old(self)@.wf(),
            old(self)@.pending == Some(outcome_kind(outcome)),
            !old(self)@.state.remembered(request_id@),
        ensures
            ({
                let (completed, response) = completion(old(self)@, outcome, support);
                (final(self)@, answer@) == recorded(
                    completed.observed(),
                    request_id@,
                    fingerprint@,
                    response,
                )
            }),
            final(self)@.wf(),
    {
        let response = self.complete_locked(outcome, support);
        self.observe();
        self.record(request_id, fingerprint, response)
    }
}

/// Report the VM's memory.
pub fn memory_response(state: Option<MemoryControlState>) -> (response: ControlResponse)
    ensures
        response@ == memory_answer(state),
{
    match state {
        Some(state) => {
            let mut response = ControlResponse::bare(true);
            response.memory = Some(state);
            response
        },
        None => control_error(
            "memory_resize_unavailable",
            String::from_str("this VM booted without memory hotplug capacity"),
        ),
    }
}

/// Report the VM's processors.
pub fn cpu_response(state: Option<CpuControlState>) -> (response: ControlResponse)
    ensures
        response@ == cpu_answer(state),
{
    match state {
        Some(state) => {
            let mut response = ControlResponse::bare(true);
            response.cpu = Some(state);
            response
        },
        None => control_error(
            "cpu_resize_unavailable",
            String::from_str("this VM booted without CPU capacity"),
        ),
    }
}

/// An answered request is answered the same way again, whatever happened since, as long as it is
/// remembered; with other bytes it is refused.
pub proof fn repeated_request_is_not_executed_again<M, P>(
    control: ControlState<P>,
    envelope: ControlEnvelope<M>,
    digest: Seq<u8>,
    i: int,
)
    requires
        control.wf(),
        0 <= i < control.state.dedup.len(),
        control.state.dedup[i].request_id == envelope.request_id@,
    ensures
        envelope_refusal(control, envelope, digest) is Some,
        control.state.dedup[i].fingerprint == digest ==> envelope_refusal(control, envelope, digest)
            == Some(control.state.dedup[i].response),
        control.state.dedup[i].fingerprint != digest ==> envelope_refusal(
            control,
            envelope,
            digest,
        )->0.response == error_response(
            "request_id_conflict"@,
            "request id was already used for different command bytes"@,
        ),
{
    let chosen = choose|k: int|
        0 <= k < control.state.dedup.len() && (#[trigger] control.state.dedup[k]).request_id
            == envelope.request_id@;
    assert(chosen == i);
}

/// The answer just given is remembered, and the bound drops only the oldest.
pub proof fn newest_answer_is_remembered<P>(
    control: ControlState<P>,
    request_id: Seq<char>,
    fingerprint: Seq<u8>,
    response: ResponseState,
)
    requires
        control.wf(),
    ensures
        ({
            let (next, answer) = recorded(control, request_id, fingerprint, response);
            let kept = control.state.dedup.len();
            &&& next.state.dedup.last() == (DedupView { request_id, fingerprint, response: answer })
            &&& next.state.dedup.len() == if kept < MAX_DEDUP_RESPONSES {
                kept + 1
            } else {
                kept
            }
            &&& forall|i: int|
                0 < i < kept ==> next.state.dedup.contains(#[trigger] control.state.dedup[i])
        }),
{
    let (next, answer) = recorded(control, request_id, fingerprint, response);
    let kept = control.state.dedup;
    assert forall|i: int| 0 < i < kept.len() implies next.state.dedup.contains(
        #[trigger] kept[i],
    ) by {
        if kept.len() >= MAX_DEDUP_RESPONSES {
            assert(next.state.dedup[i - 1] == kept[i]);
        } else {
            assert(next.state.dedup[i] == kept[i]);
        }
    }
}

/// A suspension that recovery owns is never released by a user's request: every mutation is
/// refused, resuming among them.
pub proof fn recovery_owned_suspension_refuses_mutations<M, P>(
    state: ExecState<P>,
    request: ControlRequest<M>,
    support: HostSupport,
)
    requires
        state.lifecycle == RuntimeLifecycle::Quiesced,
        state.pause is None,
        is_mutation(request),
    ensures
        refusal(state, request, support) is Some,
{
}

/// A refused command changes neither the revision, the lifecycle, the pause nor any memory.
pub proof fn refused_command_changes_nothing<M, P>(
    control: ControlState<P>,
    request: ControlRequest<M>,
    support: HostSupport,
)
    requires
        refusal(control.state, request, support) is Some,
    ensures
        ({
            &&& immediate(control, request, support) matches Some((next, answer))
            &&& next.state == control.state
            &&& next.resident_paused == control.resident_paused
            &&& !answer.ok
        }),
{
}

/// The revision grows by one exactly where a mutation succeeded or was applied in part, and never
/// otherwise.
pub proof fn revision_counts_applied_mutations<P>(
    control: ControlState<P>,
    mutation: bool,
    response: ResponseState,
)
    ensures
        ({
            let (next, answer) = control.settled(mutation, response);
            let applied = mutation && (response.ok || partially_applied(response));
            &&& next.state.revision == if applied && control.state.revision < u64::MAX {
                (control.state.revision + 1) as u64
            } else {
                control.state.revision
            }
            &&& applied && control.state.revision == u64::MAX ==> !answer.ok
                && next.state.lifecycle == RuntimeLifecycle::Retiring
            &&& !(applied && control.state.revision == u64::MAX) ==> answer == response
        }),
{
}

/// While the host works, the observation stays what the last completed transition left, and the
/// revision does not move.
pub proof fn observation_stays_until_completion<M, P>(
    control: ControlState<P>,
    request: ControlRequest<M>,
)
    ensures
        control.working(request).observation == control.observation,
        control.working(request).state.revision == control.state.revision,
        control.working(request).state.dedup == control.state.dedup,
{
}

proof fn lemma_command_keeps_wf<M, P>(
    control: ControlState<P>,
    request: ControlRequest<M>,
    support: HostSupport,
)
    requires
        control.wf(),
        control.pending is None,
    ensures
        immediate(control, request, support) matches Some((next, _)) ==> next.wf()
            && next.pending is None,
        immediate(control, request, support) is None ==> control.working(request).wf(),
        immediate(control, request, support) is None ==> control.working(request).pending
            == requested_kind(control.state, request),
{
}

proof fn lemma_completion_keeps_wf<P>(
    control: ControlState<P>,
    outcome: HostOutcome<P>,
    support: HostSupport,
)
    requires
        control.wf(),
        control.pending == Some(outcome_kind(outcome)),
    ensures
        completion(control, outcome, support).0.wf(),
        completion(control, outcome, support).0.pending is None,
{
}

/// Whatever is requested and however the host's work ends, a command that is over leaves the VM at
/// rest: it is not on its way into a suspension, client work is refused exactly while it does not
/// run, and a user's hold means that it is suspended. Only a runtime whose revisions are used up
/// retires instead.
pub proof fn commands_leave_the_vm_at_rest<M, P>(
    control: ControlState<P>,
    request: ControlRequest<M>,
    outcome: HostOutcome<P>,
    support: HostSupport,
)
    requires
        control.wf(),
        control.pending is None,
        requested_kind(control.state, request) is Some ==> requested_kind(control.state, request)
            == Some(outcome_kind(outcome)),
    ensures
        ({
            let next = match immediate(control, request, support) {
                Some((next, _)) => next,
                None => completion(control.working(request), outcome, support).0.observed(),
            };
            &&& next.wf()
            &&& next.pending is None
            &&& next.at_rest()
        }),
{
    lemma_command_keeps_wf(control, request, support);
    if immediate(control, request, support) is None {
        lemma_completion_keeps_wf(control.working(request), outcome, support);
    }
}

/// A user who pauses and resumes gets the VM back running, with both transitions counted.
pub proof fn resume_undoes_pause<P>(
    control: ControlState<P>,
    paused: UserPause<P>,
    support: HostSupport,
)
    requires
        control.state.lifecycle == RuntimeLifecycle::Running,
        control.state.pause is None,
        control.state.revision < u64::MAX - 1,
    ensures
        ({
            let held = completion(
                control.working(ControlRequest::<()>::Pause),
                HostOutcome::Paused(Ok(paused)),
                support,
            ).0;
            let released = completion(
                held.working(ControlRequest::<()>::Resume),
                HostOutcome::Resumed(Ok(())),
                support,
            ).0;
            &&& held.state.lifecycle == RuntimeLifecycle::Quiesced
            &&& held.resident_paused
            &&& refusal(held.state, ControlRequest::<()>::Resume, (HostSupport {
                clock_sync: true,
                ..support
            })) is None
            &&& released.state == (ExecState {
                revision: (control.state.revision + 2) as u64,
                ..control.state
            })
            &&& !released.resident_paused
        }),
{
}

} // verus!
