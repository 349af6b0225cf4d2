//! Framed operations over the executor, and batches of secret changes.

use vstd::prelude::*;
use vstd::string::*;

use super::executor::completion;
use super::executor::immediate;
use super::executor::is_work;
use super::executor::outcome_kind;
use super::executor::HostOutcome;
use super::executor::HostSupport;
use super::executor::HostWork;
use super::executor::Progress;
use super::executor::RuntimeControlExecutor;
use super::model::text_of;
use super::model::CheckpointCaptureIntent;
use super::model::CheckpointControlState;
use super::model::CheckpointView;
use super::model::ControlCapabilities;
use super::model::ControlError;
use super::model::ControlRequest;
use super::model::ControlResponse;
use super::model::CpuControlState;
use super::model::DiskCheckpointControlState;
use super::model::DiskCheckpointView;
use super::model::ErrorEffect;
use super::model::ErrorState;
use super::model::GuestFlush;
use super::model::MemoryControlState;
use super::model::PauseControlState;
use super::model::PauseView;
use super::model::ResponseState;
use super::model::RootDiskControlState;
use super::model::SecretLiveChange;
use super::model::SecretsResult;
use super::model::SecretsState;

verus! {

/// The requests of the first framed generation.
pub enum GenerationOneRequest {
    Capabilities,
    MemoryTarget { total_mib: u64 },
    MemoryState,
    CpuTarget { online: u32 },
    CpuState,
    SecretsUpdate { changes: Vec<SecretLiveChange> },
}

/// One framed operation.
pub enum ControlOperation {
    GenerationOne(GenerationOneRequest),
    CheckpointCreate {
        guest_flush: Option<GuestFlush>,
        record_integrity: bool,
        checkpoint_id: String,
        intent: CheckpointCaptureIntent,
    },
    DiskCheckpointCreate { guest_flush: Option<GuestFlush>, checkpoint_id: String },
    BranchCreate {
        guest_flush: Option<GuestFlush>,
        record_integrity: bool,
        branch_id: String,
        child_name: String,
        memory_cache_dir: String,
    },
    Pause { guest_flush: Option<GuestFlush> },
    Resume,
    PauseState,
    RootDiskGrow { size_bytes: u64 },
    DiskCompact { target: String, layers: Option<u64>, dry_run: bool },
}

/// Whether an operation may leave an effect behind when it fails.
pub open spec fn may_have_effect(operation: ControlOperation) -> bool {
    match operation {
        ControlOperation::GenerationOne(GenerationOneRequest::Capabilities)
        | ControlOperation::GenerationOne(GenerationOneRequest::MemoryState)
        | ControlOperation::GenerationOne(GenerationOneRequest::CpuState)
        | ControlOperation::PauseState => false,
        _ => true,
    }
}

/// Whether an operation can be expressed on this host.
pub open spec fn fits_host(operation: ControlOperation) -> bool {
    operation matches ControlOperation::DiskCompact { layers: Some(layers), .. } ==> layers
        <= usize::MAX
}

/// The executor's command for an operation.
pub open spec fn command_of<M>(operation: ControlOperation) -> ControlRequest<M> {
    match operation {
        ControlOperation::GenerationOne(request) => match request {
            GenerationOneRequest::Capabilities => ControlRequest::Capabilities,
            GenerationOneRequest::MemoryTarget { total_mib } => ControlRequest::MemoryTarget {
                total_mib,
            },
            GenerationOneRequest::MemoryState => ControlRequest::MemoryState,
            GenerationOneRequest::CpuTarget { online } => ControlRequest::CpuTarget { online },
            GenerationOneRequest::CpuState => ControlRequest::CpuState,
            GenerationOneRequest::SecretsUpdate { changes } => ControlRequest::SecretsUpdate {
                changes,
            },
        },
        ControlOperation::CheckpointCreate {
            guest_flush,
            record_integrity,
            checkpoint_id,
            intent,
        } => ControlRequest::CheckpointCreate {
            guest_flush,
            record_integrity,
            checkpoint_id,
            intent,
        },
        ControlOperation::DiskCheckpointCreate { guest_flush, checkpoint_id } =>
            ControlRequest::DiskCheckpointCreate { guest_flush, checkpoint_id },
        ControlOperation::BranchCreate {
            guest_flush,
            record_integrity,
            branch_id,
            child_name,
            memory_cache_dir,
        } => ControlRequest::BranchCreate {
            guest_flush,
            record_integrity,
            branch_id,
            child_name,
            memory_cache_dir,
        },
        ControlOperation::Pause { guest_flush: Some(guest_flush) } =>
            ControlRequest::PauseWithGuestFlush { guest_flush },
        ControlOperation::Pause { guest_flush: None } => ControlRequest::Pause,
        ControlOperation::Resume => ControlRequest::Resume,
        ControlOperation::PauseState => ControlRequest::PauseState,
        ControlOperation::RootDiskGrow { size_bytes } => ControlRequest::RootDiskGrow {
            size_bytes,
        },
        ControlOperation::DiskCompact { target, layers, dry_run } => ControlRequest::DiskCompact {
            target,
            layers: match layers {
                Some(layers) => Some(layers as usize),
                None => None,
            },
            dry_run,
        },
    }
}

/// Why an operation cannot be expressed on this host.
pub open spec fn layer_range_error() -> ErrorState {
    ErrorState {
        code: "invalid_request"@,
        message: "layer count exceeds the host range"@,
        effect: ErrorEffect::Untouched,
    }
}

/// The executor's command for an operation.
pub fn operation_to_legacy<M>(operation: ControlOperation) -> (command: Result<
    ControlRequest<M>,
    ControlError,
>)
    ensures
        match command {
            Ok(command) => fits_host(operation) && command == command_of::<M>(operation),
            Err(error) => !fits_host(operation) && error@ == layer_range_error(),
        },
{
    Ok(
        match operation {
            ControlOperation::GenerationOne(request) => match request {
                GenerationOneRequest::Capabilities => ControlRequest::Capabilities,
                GenerationOneRequest::MemoryTarget { total_mib } => ControlRequest::MemoryTarget {
                    total_mib,
                },
                GenerationOneRequest::MemoryState => ControlRequest::MemoryState,
                GenerationOneRequest::CpuTarget { online } => ControlRequest::CpuTarget { online },
                GenerationOneRequest::CpuState => ControlRequest::CpuState,
                GenerationOneRequest::SecretsUpdate { changes } => ControlRequest::SecretsUpdate {
                    changes,
                },
            },
            ControlOperation::CheckpointCreate {
                guest_flush,
                record_integrity,
                checkpoint_id,
                intent,
            } => ControlRequest::CheckpointCreate {
                guest_flush,
                record_integrity,
                checkpoint_id,
                intent,
            },
            ControlOperation::DiskCheckpointCreate { guest_flush, checkpoint_id } =>
                ControlRequest::DiskCheckpointCreate { guest_flush, checkpoint_id },
            ControlOperation::BranchCreate {
                guest_flush,
                record_integrity,
                branch_id,
                child_name,
                memory_cache_dir,
            } => ControlRequest::BranchCreate {
                guest_flush,
                record_integrity,
                branch_id,
                child_name,
                memory_cache_dir,
            },
            ControlOperation::Pause { guest_flush } => match guest_flush {
                Some(guest_flush) => ControlRequest::PauseWithGuestFlush { guest_flush },
                None => ControlRequest::Pause,
            },
            ControlOperation::Resume => ControlRequest::Resume,
            ControlOperation::PauseState => ControlRequest::PauseState,
            ControlOperation::RootDiskGrow { size_bytes } => ControlRequest::RootDiskGrow {
                size_bytes,
            },
            ControlOperation::DiskCompact { target, layers, dry_run } => {
                let layers: Option<usize> = match layers {
                    Some(layers) => {
                        if layers > usize::MAX as u64 {
                            return Err(
                                ControlError::rejected(
                                    "invalid_request",
                                    "layer count exceeds the host range",
                                ),
                            );
                        }
                        Some(layers as usize)
                    },
                    None => None,
                };
                ControlRequest::DiskCompact { target, layers, dry_run }
            },
        },
    )
}

/// The capabilities that the first framed generation can express.
#[derive(Clone, Copy, Debug, PartialEq, Eq, Structural)]
pub struct Capabilities {
    pub root_disk_grow: bool,
    pub cpu_resize: bool,
    pub memory_resize: bool,
    pub secrets_update: bool,
}

/// A framed reply.
pub enum Reply {
    Capabilities(Capabilities),
    RuntimeCapabilities(ControlCapabilities),
    Memory(MemoryControlState),
    Cpu(CpuControlState),
    Secrets(SecretsResult),
    Checkpoint { checkpoint: CheckpointControlState, recovery_error: Option<String> },
    DiskCheckpoint(DiskCheckpointControlState),
    Branch(String),
    Pause(PauseControlState),
    RootDisk(RootDiskControlState),
    DiskCompact(String),
    Error(ControlError),
}

/// A framed reply, as text.
pub ghost enum ReplyView {
    Capabilities(Capabilities),
    RuntimeCapabilities(ControlCapabilities),
    Memory(MemoryControlState),
    Cpu(CpuControlState),
    Secrets(SecretsState),
    Checkpoint { checkpoint: CheckpointView, recovery_error: Option<Seq<char>> },
    DiskCheckpoint(DiskCheckpointView),
    Branch(Seq<char>),
    Pause(PauseView),
    RootDisk(RootDiskControlState),
    DiskCompact(Seq<char>),
    Error(ErrorState),
}

impl View for Reply {
    type V = ReplyView;

    open spec fn view(&self) -> ReplyView {
        match *self {
            Reply::Capabilities(value) => ReplyView::Capabilities(value),
            Reply::RuntimeCapabilities(value) => ReplyView::RuntimeCapabilities(value),
            Reply::Memory(value) => ReplyView::Memory(value),
            Reply::Cpu(value) => ReplyView::Cpu(value),
            Reply::Secrets(value) => ReplyView::Secrets(value@),
            Reply::Checkpoint { checkpoint, recovery_error } => ReplyView::Checkpoint {
                checkpoint: checkpoint@,
                recovery_error: text_of(recovery_error),
            },
            Reply::DiskCheckpoint(value) => ReplyView::DiskCheckpoint(value@),
            Reply::Branch(value) => ReplyView::Branch(value@),
            Reply::Pause(value) => ReplyView::Pause(value@),
            Reply::RootDisk(value) => ReplyView::RootDisk(value),
            Reply::DiskCompact(value) => ReplyView::DiskCompact(value@),
            Reply::Error(value) => ReplyView::Error(value@),
        }
    }
}

impl ReplyView {
    /// The message type under which a reply travels.
    pub open spec fn message_type(self) -> Seq<char> {
        match self {
            ReplyView::Capabilities(_)
            | ReplyView::RuntimeCapabilities(_) => "control.capabilities.result"@,
            ReplyView::Memory(_) => "control.memory.state"@,
            ReplyView::Cpu(_) => "control.cpu.state"@,
            ReplyView::Secrets(_) => "control.secrets.result"@,
            ReplyView::Checkpoint { .. } => "control.checkpoint.result"@,
            ReplyView::DiskCheckpoint(_) => "control.disk.checkpoint.result"@,
            ReplyView::Branch(_) => "control.branch.result"@,
            ReplyView::Pause(_) => "control.pause.state"@,
            ReplyView::RootDisk(_) => "control.root-disk.state"@,
            ReplyView::DiskCompact(_) => "control.disk.compact.result"@,
            ReplyView::Error(_) => "control.error"@,
        }
    }
}

impl Reply {
    /// The message type under which a reply travels.
    pub fn message_type(&self) -> (name: &'static str)
        ensures
            name@ == self@.message_type(),
            match *self {
                Reply::Capabilities(_) => name@ == "control.capabilities.result"@,
                Reply::RuntimeCapabilities(_) => name@ == "control.capabilities.result"@,
                Reply::Memory(_) => name@ == "control.memory.state"@,
                Reply::Cpu(_) => name@ == "control.cpu.state"@,
                Reply::Secrets(_) => name@ == "control.secrets.result"@,
                Reply::Checkpoint { .. } => name@ == "control.checkpoint.result"@,
                Reply::DiskCheckpoint(_) => name@ == "control.disk.checkpoint.result"@,
                Reply::Branch(_) => name@ == "control.branch.result"@,
                Reply::Pause(_) => name@ == "control.pause.state"@,
                Reply::RootDisk(_) => name@ == "control.root-disk.state"@,
                Reply::DiskCompact(_) => name@ == "control.disk.compact.result"@,
                Reply::Error(_) => name@ == "control.error"@,
            },
    {
        match self {
            Reply::Capabilities(_) => "control.capabilities.result",
            Reply::RuntimeCapabilities(_) => "control.capabilities.result",
            Reply::Memory(_) => "control.memory.state",
            Reply::Cpu(_) => "control.cpu.state",
            Reply::Secrets(_) => "control.secrets.result",
            Reply::Checkpoint { .. } => "control.checkpoint.result",
            Reply::DiskCheckpoint(_) => "control.disk.checkpoint.result",
            Reply::Branch(_) => "control.branch.result",
            Reply::Pause(_) => "control.pause.state",
            Reply::RootDisk(_) => "control.root-disk.state",
            Reply::DiskCompact(_) => "control.disk.compact.result",
            Reply::Error(_) => "control.error",
        }
    }
}

/// The structured failure of a command that carries no other result.
pub open spec fn failure_of(result: ResponseState, mutation: bool) -> ErrorState {
    ErrorState {
        code: match result.error_code {
            Some(code) => code,
            None => "operation_failed"@,
        },
        message: match result.error {
            Some(message) => message,
            None => "control operation failed"@,
        },
        effect: if mutation {
            ErrorEffect::Unknown
        } else {
            ErrorEffect::Untouched
        },
    }
}

/// The framed reply to a command's answer. Progress of a secret batch and a published checkpoint
/// are reported even where the command failed.
pub open spec fn reply_of(result: ResponseState, mutation: bool, generation: u8) -> ReplyView {
    if result.secret_result is Some {
        ReplyView::Secrets(result.secret_result->0)
    } else if result.checkpoint is Some {
        ReplyView::Checkpoint {
            checkpoint: result.checkpoint->0,
            recovery_error: if result.ok {
                None
            } else {
                result.error
            },
        }
    } else if !result.ok {
        ReplyView::Error(failure_of(result, mutation))
    } else if result.capabilities is Some {
        let caps = result.capabilities->0;
        if generation >= 2 {
            ReplyView::RuntimeCapabilities(caps)
        } else {
            ReplyView::Capabilities(
                Capabilities {
                    root_disk_grow: caps.root_disk_grow,
                    cpu_resize: caps.cpu_resize,
                    memory_resize: caps.memory_resize,
                    secrets_update: caps.secrets_update,
                },
            )
        }
    } else if result.memory is Some {
        ReplyView::Memory(result.memory->0)
    } else if result.cpu is Some {
        ReplyView::Cpu(result.cpu->0)
    } else if result.disk_checkpoint is Some {
        ReplyView::DiskCheckpoint(result.disk_checkpoint->0)
    } else if result.branch is Some {
        ReplyView::Branch(result.branch->0)
    } else if result.pause is Some {
        ReplyView::Pause(result.pause->0)
    } else if result.root_disk is Some {
        ReplyView::RootDisk(result.root_disk->0)
    } else if result.compaction is Some {
        ReplyView::DiskCompact(result.compaction->0)
    } else {
        ReplyView::Error(
            ErrorState {
                code: "invalid_response"@,
                message: "runtime omitted control result"@,
                effect: ErrorEffect::Untouched,
            },
        )
    }
}

/// The framed reply to a command's answer.
pub fn reply_for(result: ControlResponse, mutation: bool, generation: u8) -> (reply: Reply)
    ensures
        reply@ == reply_of(result@, mutation, generation),
{
    if let Some(secrets) = result.secret_result {
        return Reply::Secrets(secrets);
    }
    if let Some(checkpoint) = result.checkpoint {
        let recovery_error = if result.ok {
            None
        } else {
            result.error
        };
        return Reply::Checkpoint { checkpoint, recovery_error };
    }
    if !result.ok {
        let code = match result.error_code {
            Some(code) => code,
            None => String::from_str("operation_failed"),
        };
        let message = match result.error {
            Some(message) => message,
            None => String::from_str("control operation failed"),
        };
        let effect = if mutation {
            ErrorEffect::Unknown
        } else {
            ErrorEffect::Untouched
        };
        return Reply::Error(ControlError { code, message, effect });
    }
    if let Some(caps) = result.capabilities {
        if generation >= 2 {
            return Reply::RuntimeCapabilities(caps);
        }
        return Reply::Capabilities(
            Capabilities {
                root_disk_grow: caps.root_disk_grow,
                cpu_resize: caps.cpu_resize,
                memory_resize: caps.memory_resize,
                secrets_update: caps.secrets_update,
            },
        );
    }
    if let Some(state) = result.memory {
        return Reply::Memory(state);
    }
    if let Some(state) = result.cpu {
        return Reply::Cpu(state);
    }
    if let Some(state) = result.disk_checkpoint {
        return Reply::DiskCheckpoint(state);
    }
    if let Some(path) = result.branch {
        return Reply::Branch(path);
    }
    if let Some(state) = result.pause {
        return Reply::Pause(state);
    }
    if let Some(state) = result.root_disk {
        return Reply::RootDisk(state);
    }
    if let Some(report) = result.compaction {
        return Reply::DiskCompact(report);
    }
    Reply::Error(ControlError::rejected("invalid_response", "runtime omitted control result"))
}

/// An answer for both transports.
pub struct Response {
    pub json_ok: bool,
    pub json_error: Option<String>,
    pub framed: Reply,
}

impl Response {
    /// A failure, with its text for the legacy transport.
    pub fn error(error: ControlError, legacy: &str) -> (response: Response)
        ensures
            !response.json_ok,
            text_of(response.json_error) == Some(legacy@),
            response.framed@ == ReplyView::Error(error@),
    {
        Response {
            json_ok: false,
            json_error: Some(String::from_str(legacy)),
            framed: Reply::Error(error),
        }
    }
}

/// Where a framed operation stands.
pub enum OperationProgress<M, P> {
    Answered(Response),
    /// The host's work for the operation, and whether its failure may leave an effect.
    Work { mutation: bool, work: HostWork<M, P> },
}

/// Host-only control state; never exposed to the guest agent.
pub struct ControlContext<P> {
    /// Shared authority for lifecycle, revision fencing and host mutations.
    pub executor: RuntimeControlExecutor<P>,
}

impl<P> ControlContext<P> {
    /// Begin a framed operation. It enters the same executor as the legacy transport, and cannot
    /// bypass a checkpoint, a resident pause or the ownership of the revision.
    pub fn handle<M>(
        &mut self,
        request: ControlOperation,
        generation: u8,
        support: HostSupport,
    ) -> (progress: OperationProgress<M, P>)
        requires
            old(self).executor@.wf(),
            old(self).executor@.pending is None || request is PauseState,
        ensures
            final(self).executor@.wf(),
            if !fits_host(request) {
                &&& progress matches OperationProgress::Answered(response)
                &&& response.framed@ == ReplyView::Error(layer_range_error())
                &&& !response.json_ok
                &&& text_of(response.json_error) == Some("invalid control request payload"@)
                &&& final(self).executor@ == old(self).executor@
            } else if request is PauseState {
                &&& progress matches OperationProgress::Answered(response)
                &&& response.framed@ == reply_of(old(self).executor@.observation, false, generation)
                &&& !response.json_ok && response.json_error is None
                &&& final(self).executor@ == old(self).executor@
            } else {
                match immediate(old(self).executor@, command_of::<M>(request), support) {
                    Some((next, answer)) => {
                        &&& progress matches OperationProgress::Answered(response)
                        &&& response.framed@ == reply_of(
                            answer,
                            may_have_effect(request),
                            generation,
                        )
                        &&& !response.json_ok && response.json_error is None
                        &&& final(self).executor@ == next
                    },
                    None => {
                        &&& progress matches OperationProgress::Work { mutation, work }
                        &&& mutation == may_have_effect(request)
                        &&& is_work(old(self).executor@.state, command_of::<M>(request), work)
                        &&& final(self).executor@ == old(self).executor@.working(
                            command_of::<M>(request),
                        )
                    },
                }
            },
    {
        let mutation = match &request {
            ControlOperation::GenerationOne(GenerationOneRequest::Capabilities) => false,
            ControlOperation::GenerationOne(GenerationOneRequest::MemoryState) => false,
            ControlOperation::GenerationOne(GenerationOneRequest::CpuState) => false,
            ControlOperation::PauseState => false,
            _ => true,
        };
        let command = match operation_to_legacy::<M>(request) {
            Ok(command) => command,
            Err(error) => {
                return OperationProgress::Answered(
                    Response::error(error, "invalid control request payload"),
                );
            },
        };
        match self.executor.execute_legacy(command, support) {
            Progress::Answered(result) => OperationProgress::Answered(
                Response {
                    json_ok: false,
                    json_error: None,
                    framed: reply_for(result, mutation, generation),
                },
            ),
            Progress::Work(work) => OperationProgress::Work { mutation, work },
        }
    }

    /// Answer a framed operation whose work ended.
    pub fn complete(
        &mut self,
        mutation: bool,
        outcome: HostOutcome<P>,
        generation: u8,
        support: HostSupport,
    ) -> (reply: Reply)
        requires
            old(self).executor@.wf(),
            old(self).executor@.pending == Some(outcome_kind(outcome)),
        ensures
            final(self).executor@.wf(),
            ({
                let (completed, answer) = completion(old(self).executor@, outcome, support);
                &&& final(self).executor@ == completed.observed()
                &&& reply@ == reply_of(answer, mutation, generation)
            }),
    {
        let result = self.executor.complete_legacy(outcome, support);
        reply_for(result, mutation, generation)
    }
}

/// Why the secret store refused a change.
#[derive(Clone, Copy, Debug, PartialEq, Eq, Structural)]
pub enum SecretsUpdateError {
    UnknownSecret,
    MissingAllowedHosts,
}

impl SecretsUpdateError {
    pub open spec fn structured(self) -> ErrorState {
        match self {
            SecretsUpdateError::UnknownSecret => ErrorState {
                code: "unknown_secret"@,
                message: "the secret does not exist"@,
                effect: ErrorEffect::Untouched,
            },
            SecretsUpdateError::MissingAllowedHosts => ErrorState {
                code: "invalid_secret_hosts"@,
                message: "at least one allowed host is required"@,
                effect: ErrorEffect::Untouched,
            },
        }
    }
}

/// Secret changes that are applied in order. The first failure ends the batch; what was applied
/// before it stays applied.
pub struct SecretBatch {
    changes: Vec<SecretLiveChange>,
    applied_count: u32,
}

/// The changes that are left, and how many were applied.
pub ghost struct BatchState {
    pub remaining: Seq<SecretLiveChange>,
    pub applied: u32,
}

impl View for SecretBatch {
    type V = BatchState;

    closed spec fn view(&self) -> BatchState {
        BatchState { remaining: self.changes@, applied: self.applied_count }
    }
}

/// How a batch begins.
pub enum BatchStart {
    Refused(Response),
    Running(SecretBatch),
}

/// Begin a batch of secret changes, where a secret store is attached.
pub fn apply_secret_changes(available: bool, changes: Vec<SecretLiveChange>) -> (start: BatchStart)
    ensures
        if available {
            start matches BatchStart::Running(batch) && batch@ == (BatchState {
                remaining: changes@,
                applied: 0,
            })
        } else {
            &&& start matches BatchStart::Refused(response)
            &&& !response.json_ok
            &&& text_of(response.json_error) == Some(
                "live secret reconfiguration is not available for this sandbox"@,
            )
            &&& response.framed@ == ReplyView::Error(
                ErrorState {
                    code: "unsupported_operation"@,
                    message: "secret updates are unavailable"@,
                    effect: ErrorEffect::Untouched,
                },
            )
        },
{
    if !available {
        return BatchStart::Refused(
            Response::error(
                ControlError::rejected("unsupported_operation", "secret updates are unavailable"),
                "live secret reconfiguration is not available for this sandbox",
            ),
        );
    }
    BatchStart::Running(SecretBatch { changes, applied_count: 0 })
}

impl SecretBatch {
    /// The next change to apply.
    pub fn next(&mut self) -> (change: Option<SecretLiveChange>)
        ensures
            match change {
                Some(change) => {
                    &&& old(self)@.remaining.len() > 0
                    &&& change == old(self)@.remaining[0]
                    &&& final(self)@ == (BatchState {
                        remaining: old(self)@.remaining.skip(1),
                        applied: old(self)@.applied,
                    })
                },
                None => old(self)@.remaining.len() == 0 && final(self)@ == old(self)@,
            },
    {
        if self.changes.len() == 0 {
            return None;
        }
        let change = self.changes.remove(0);
        assert(self.changes@ =~= old(self)@.remaining.skip(1));
        Some(change)
    }

    /// The change that was handed out is applied.
    pub fn applied(&mut self)
        ensures
            final(self)@.remaining == old(self)@.remaining,
            final(self)@.applied == if old(self)@.applied < u32::MAX {
                (old(self)@.applied + 1) as u32
            } else {
                u32::MAX
            },
    {
        self.applied_count = self.applied_count.saturating_add(1);
    }

    /// The store refused the change that was handed out, before it changed anything of it.
    pub fn failed(&self, error: SecretsUpdateError, message: String) -> (response: Response)
        ensures
            !response.json_ok,
            text_of(response.json_error) == Some(message@),
            response.framed@ == ReplyView::Secrets(
                SecretsState::Failed {
                    applied_count: self@.applied,
                    failed_index: self@.applied,
                    error: error.structured(),
                },
            ),
    {
        let structured = match error {
            SecretsUpdateError::UnknownSecret => ControlError::rejected(
                "unknown_secret",
                "the secret does not exist",
            ),
            SecretsUpdateError::MissingAllowedHosts => ControlError::rejected(
                "invalid_secret_hosts",
                "at least one allowed host is required",
            ),
        };
        Response {
            json_ok: false,
            json_error: Some(message),
            framed: Reply::Secrets(
                SecretsResult::Failed {
                    applied_count: self.applied_count,
                    failed_index: self.applied_count,
                    error: structured,
                },
            ),
        }
    }

    /// Every change was applied.
    pub fn complete(&self) -> (response: Response)
        requires
            self@.remaining.len() == 0,
        ensures
            response.json_ok,
            response.json_error is None,
            response.framed@ == ReplyView::Secrets(
                SecretsState::Complete { applied_count: self@.applied },
            ),
    {
        Response {
            json_ok: true,
            json_error: None,
            framed: Reply::Secrets(SecretsResult::Complete { applied_count: self.applied_count }),
        }
    }
}

/// What the executor learns of a batch.
pub fn secrets_outcome<P>(response: Response) -> (outcome: HostOutcome<P>)
    ensures
        outcome matches HostOutcome::SecretsUpdated { ok, error, result } && ok == response.json_ok
            && error == response.json_error && (match response.framed@ {
            ReplyView::Secrets(secrets) => result is Some && result->0@ == secrets,
            _ => result is None,
        }),
{
    let result = match response.framed {
        Reply::Secrets(result) => Some(result),
        _ => None,
    };
    HostOutcome::SecretsUpdated { ok: response.json_ok, error: response.json_error, result }
}

/// The batch after its first `count` changes were applied.
pub open spec fn after_applying(changes: Seq<SecretLiveChange>, count: nat) -> BatchState
    decreases count,
{
    if count == 0 {
        BatchState { remaining: changes, applied: 0 }
    } else {
        let before = after_applying(changes, (count - 1) as nat);
        BatchState {
            remaining: before.remaining.skip(1),
            applied: if before.applied < u32::MAX {
                (before.applied + 1) as u32
            } else {
                u32::MAX
            },
        }
    }
}

/// A failure after `count` changes reports exactly those as applied and the change after them as
/// failed; what follows it was never handed out.
pub proof fn failure_reports_the_applied_prefix(changes: Seq<SecretLiveChange>, count: nat)
    requires
        count <= changes.len(),
        count <= u32::MAX,
    ensures
        after_applying(changes, count).remaining == changes.skip(count as int),
        after_applying(changes, count).applied == count,
        count < changes.len() ==> after_applying(changes, count).remaining[0] == changes[count
            as int],
    decreases count,
{
    if count > 0 {
        failure_reports_the_applied_prefix(changes, (count - 1) as nat);
        assert(changes.skip(count - 1).skip(1) =~= changes.skip(count as int));
    } else {
        assert(changes.skip(0) =~= changes);
    }
}

/// A failed mutation is never reported as free of effect, and an observation always is.
pub proof fn failed_mutation_has_unknown_effect(result: ResponseState, generation: u8)
    requires
        !result.ok,
        result.secret_result is None,
        result.checkpoint is None,
    ensures
        reply_of(result, true, generation) matches ReplyView::Error(error) && error.effect
            == ErrorEffect::Unknown,
        reply_of(result, false, generation) matches ReplyView::Error(error) && error.effect
            == ErrorEffect::Untouched,
{
}

/// A framed operation becomes the command of its own name, with every one of its values.
pub proof fn operations_keep_their_values<M>(operation: ControlOperation)
    requires
        fits_host(operation),
    ensures
        match operation {
            ControlOperation::GenerationOne(GenerationOneRequest::Capabilities) => command_of::<M>(
                operation,
            ) is Capabilities,
            ControlOperation::GenerationOne(GenerationOneRequest::MemoryTarget { total_mib }) => {
                &&& command_of::<M>(operation) matches ControlRequest::MemoryTarget { total_mib: m }
                &&& m == total_mib
            },
            ControlOperation::GenerationOne(GenerationOneRequest::MemoryState) => command_of::<M>(
                operation,
            ) is MemoryState,
            ControlOperation::GenerationOne(GenerationOneRequest::CpuTarget { online }) => {
                &&& command_of::<M>(operation) matches ControlRequest::CpuTarget { online: n }
                &&& n == online
            },
            ControlOperation::GenerationOne(GenerationOneRequest::CpuState) => command_of::<M>(
                operation,
            ) is CpuState,
            ControlOperation::GenerationOne(GenerationOneRequest::SecretsUpdate { changes }) => {
                &&& command_of::<M>(operation) matches ControlRequest::SecretsUpdate { changes: c }
                &&& c == changes
            },
            ControlOperation::CheckpointCreate {
                guest_flush,
                record_integrity,
                checkpoint_id,
                intent,
            } => {
                &&& command_of::<M>(operation) matches ControlRequest::CheckpointCreate {
                    guest_flush: f,
                    record_integrity: r,
                    checkpoint_id: c,
                    intent: i,
                }
                &&& f == guest_flush && r == record_integrity && c == checkpoint_id && i == intent
            },
            ControlOperation::DiskCheckpointCreate { guest_flush, checkpoint_id } => {
                &&& command_of::<M>(operation) matches ControlRequest::DiskCheckpointCreate {
                    guest_flush: f,
                    checkpoint_id: c,
                }
                &&& f == guest_flush && c == checkpoint_id
            },
            ControlOperation::BranchCreate {
                guest_flush,
                record_integrity,
                branch_id,
                child_name,
                memory_cache_dir,
            } => {
                &&& command_of::<M>(operation) matches ControlRequest::BranchCreate {
                    guest_flush: f,
                    record_integrity: r,
                    branch_id: b,
                    child_name: c,
                    memory_cache_dir: d,
                }
                &&& f == guest_flush && r == record_integrity && b == branch_id && c == child_name
                    && d == memory_cache_dir
            },
            ControlOperation::Pause { guest_flush: None } => command_of::<M>(operation) is Pause,
            ControlOperation::Pause { guest_flush: Some(guest_flush) } => {
                &&& command_of::<M>(operation) matches ControlRequest::PauseWithGuestFlush {
                    guest_flush: f,
                }
                &&& f == guest_flush
            },
            ControlOperation::Resume => command_of::<M>(operation) is Resume,
            ControlOperation::PauseState => command_of::<M>(operation) is PauseState,
            ControlOperation::RootDiskGrow { size_bytes } => {
                &&& command_of::<M>(operation) matches ControlRequest::RootDiskGrow { size_bytes: s }
                &&& s == size_bytes
            },
            ControlOperation::DiskCompact { target, layers, dry_run } => {
                &&& command_of::<M>(operation) matches ControlRequest::DiskCompact {
                    target: t,
                    layers: l,
                    dry_run: d,
                }
                &&& t == target && d == dry_run && (l is Some <==> layers is Some)
                &&& layers matches Some(layers) ==> l->0 == layers
            },
        },
{
}

/// Only the four observations are free of effect.
pub proof fn only_observations_are_free_of_effect(operation: ControlOperation)
    ensures
        !may_have_effect(operation) <==> operation is PauseState || (
        operation matches ControlOperation::GenerationOne(request) && (request is Capabilities
            || request is MemoryState || request is CpuState)),
{
}

/// A reply carries what the command answered: the result of a batch of secrets and a published
/// checkpoint in any case, the failure with its own code and message where it failed, and otherwise
/// the one result that is there, unchanged. A command that answers nothing is an invalid one.
pub proof fn replies_carry_the_answer(result: ResponseState, mutation: bool, generation: u8)
    ensures
        ({
            let reply = reply_of(result, mutation, generation);
            let partial = result.secret_result is Some || result.checkpoint is Some;
            &&& result.secret_result matches Some(secrets) ==> reply == ReplyView::Secrets(secrets)
            &&& result.secret_result is None && result.checkpoint is Some ==> {
                &&& reply matches ReplyView::Checkpoint { checkpoint, recovery_error }
                &&& checkpoint == result.checkpoint->0
                &&& result.ok ==> recovery_error is None
                &&& !result.ok ==> recovery_error == result.error
            }
            &&& !partial && !result.ok ==> {
                &&& reply matches ReplyView::Error(error)
                &&& result.error_code matches Some(code) ==> error.code == code
                &&& result.error_code is None ==> error.code == "operation_failed"@
                &&& result.error matches Some(message) ==> error.message == message
                &&& error.effect == ErrorEffect::Unknown <==> mutation
            }
            &&& !partial && result.ok ==> match reply {
                ReplyView::Capabilities(caps) => generation < 2 && result.capabilities is Some
                    && caps.root_disk_grow == result.capabilities->0.root_disk_grow
                    && caps.cpu_resize == result.capabilities->0.cpu_resize && caps.memory_resize
                    == result.capabilities->0.memory_resize && caps.secrets_update
                    == result.capabilities->0.secrets_update,
                ReplyView::RuntimeCapabilities(caps) => generation >= 2 && result.capabilities
                    == Some(caps),
                ReplyView::Memory(state) => result.memory == Some(state),
                ReplyView::Cpu(state) => result.cpu == Some(state),
                ReplyView::DiskCheckpoint(state) => result.disk_checkpoint == Some(state),
                ReplyView::Branch(path) => result.branch == Some(path),
                ReplyView::Pause(state) => result.pause == Some(state),
                ReplyView::RootDisk(state) => result.root_disk == Some(state),
                ReplyView::DiskCompact(report) => result.compaction == Some(report),
                ReplyView::Error(error) => error.code == "invalid_response"@
                    && result.capabilities is None && result.memory is None && result.cpu is None
                    && result.disk_checkpoint is None && result.branch is None && result.pause
                    is None && result.root_disk is None && result.compaction is None,
                _ => false,
            }
        }),
{
}

} // verus!
