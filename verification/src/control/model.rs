//! Requests and responses of the control endpoint.

use vstd::prelude::*;
use vstd::string::*;

verus! {

/// What the guest's own filesystems do before a capture or a pause.
#[derive(Clone, Copy, Debug, PartialEq, Eq, Structural)]
pub enum GuestFlush {
    Auto,
    Required,
    Skip,
}

/// What a full checkpoint is captured for.
#[derive(Clone, Copy, Debug, PartialEq, Eq, Structural)]
pub enum CheckpointCaptureIntent {
    FullSnapshot,
    Park,
    TransparentTransfer,
}

/// Secret material. Its text never appears in a description.
pub struct SecretValue(pub String);

/// One change of a live secret.
pub enum SecretLiveChange {
    Rotate { name: String, value: SecretValue },
    Remove { name: String },
    SetAllowedHosts { name: String, hosts: Vec<String> },
}

/// One control command. `M` is a memory descriptor that the transport handed over.
pub enum ControlRequest<M> {
    Capabilities,
    MemoryTarget { total_mib: u64 },
    MemoryState,
    CpuTarget { online: u32 },
    CpuState,
    SecretsUpdate { changes: Vec<SecretLiveChange> },
    CheckpointCreate {
        guest_flush: Option<GuestFlush>,
        record_integrity: bool,
        checkpoint_id: String,
        intent: CheckpointCaptureIntent,
    },
    DiskCheckpointCreate { guest_flush: Option<GuestFlush>, checkpoint_id: String },
    BranchCreate {
        guest_flush: Option<GuestFlush>,
        record_integrity: bool,
        branch_id: String,
        child_name: String,
        memory_cache_dir: String,
    },
    BranchCreateMemfd {
        guest_flush: Option<GuestFlush>,
        record_integrity: bool,
        branch_id: String,
        child_name: String,
        memory_cache_dir: String,
        backing: Option<M>,
    },
    DiskCompact { target: String, layers: Option<usize>, dry_run: bool },
    RootDiskGrow { size_bytes: u64 },
    Pause,
    PauseWithGuestFlush { guest_flush: GuestFlush },
    Resume,
    PauseState,
}

/// Where the runtime stands.
#[derive(Clone, Copy, Debug, PartialEq, Eq, Structural)]
pub enum RuntimeLifecycle {
    Running,
    Quiescing,
    Quiesced,
    Retiring,
}

/// Whether a failed request changed anything.
#[derive(Clone, Copy, Debug, PartialEq, Eq, Structural)]
pub enum ErrorEffect {
    Untouched,
    Unknown,
}

/// A structured failure.
pub struct ControlError {
    pub code: String,
    pub message: String,
    pub effect: ErrorEffect,
}

/// A structured failure, as text.
pub ghost struct ErrorState {
    pub code: Seq<char>,
    pub message: Seq<char>,
    pub effect: ErrorEffect,
}

impl View for ControlError {
    type V = ErrorState;

    open spec fn view(&self) -> ErrorState {
        ErrorState { code: self.code@, message: self.message@, effect: self.effect }
    }
}

impl ControlError {
    /// A request that was refused before it had any effect.
    pub fn rejected(code: &str, message: &str) -> (error: ControlError)
        ensures
            error@ == (ErrorState { code: code@, message: message@, effect: ErrorEffect::Untouched }),
    {
        ControlError {
            code: String::from_str(code),
            message: String::from_str(message),
            effect: ErrorEffect::Untouched,
        }
    }

    pub fn copy(&self) -> (other: ControlError)
        ensures
            other@ == self@,
    {
        ControlError {
            code: self.code.clone(),
            message: self.message.clone(),
            effect: self.effect,
        }
    }
}

/// How far a batch of secret changes came.
pub enum SecretsResult {
    Complete { applied_count: u32 },
    Failed { applied_count: u32, failed_index: u32, error: ControlError },
}

/// How far a batch of secret changes came.
pub ghost enum SecretsState {
    Complete { applied_count: u32 },
    Failed { applied_count: u32, failed_index: u32, error: ErrorState },
}

impl View for SecretsResult {
    type V = SecretsState;

    open spec fn view(&self) -> SecretsState {
        match *self {
            SecretsResult::Complete { applied_count } => SecretsState::Complete { applied_count },
            SecretsResult::Failed { applied_count, failed_index, error } => SecretsState::Failed {
                applied_count,
                failed_index,
                error: error@,
            },
        }
    }
}

impl SecretsResult {
    pub fn copy(&self) -> (other: SecretsResult)
        ensures
            other@ == self@,
    {
        match self {
            SecretsResult::Complete { applied_count } => SecretsResult::Complete {
                applied_count: *applied_count,
            },
            SecretsResult::Failed { applied_count, failed_index, error } => SecretsResult::Failed {
                applied_count: *applied_count,
                failed_index: *failed_index,
                error: error.copy(),
            },
        }
    }
}

/// What this runtime can do.
#[derive(Clone, Copy, Debug, PartialEq, Eq, Structural)]
pub struct ControlCapabilities {
    pub cpu_resize: bool,
    pub memory_resize: bool,
    pub secrets_update: bool,
    pub checkpoint_create: bool,
    pub disk_checkpoint_create: bool,
    pub branch_create: bool,
    pub optional_disk_integrity: bool,
    pub guest_flush_policy: bool,
    pub branch_memfd: bool,
    pub disk_compact: bool,
    pub disk_compact_owned: bool,
    pub root_disk_grow: bool,
    pub pause_resume: bool,
}

#[derive(Clone, Copy, Debug, PartialEq, Eq, Structural)]
pub struct MemoryControlState {
    pub boot_mib: u64,
    pub target_mib: u64,
    pub current_mib: u64,
    pub max_mib: u64,
}

#[derive(Clone, Copy, Debug, PartialEq, Eq, Structural)]
pub struct CpuControlState {
    pub possible: u32,
    pub requested_online: u32,
    pub actual_online: u32,
    pub enforced: u32,
}

#[derive(Clone, Copy, Debug, PartialEq, Eq, Structural)]
pub struct RootDiskControlState {
    pub filesystem_bytes: u64,
    pub device_bytes: u64,
    pub total_us: u64,
    pub pause_us: u64,
    pub guest_us: u64,
}

/// How much of the guest's memory a checkpoint holds itself.
#[derive(Clone, Copy, Debug, PartialEq, Eq, Structural)]
pub enum MemoryCaptureMode {
    Full,
    Incremental,
}

/// A published checkpoint.
pub struct CheckpointResult {
    pub checkpoint_id: String,
    pub checkpoint_root: String,
    pub path: String,
    pub memory_mode: MemoryCaptureMode,
    pub memory_logical_bytes: u64,
    pub memory_emitted_bytes: u64,
}

/// A published checkpoint, as the response reports it.
pub struct CheckpointControlState {
    pub checkpoint_id: String,
    pub checkpoint_root: String,
    pub path: String,
    pub memory_mode: String,
    pub memory_logical_bytes: u64,
    pub memory_emitted_bytes: u64,
}

/// A published checkpoint, as text.
pub ghost struct CheckpointView {
    pub checkpoint_id: Seq<char>,
    pub checkpoint_root: Seq<char>,
    pub path: Seq<char>,
    pub memory_mode: Seq<char>,
    pub memory_logical_bytes: u64,
    pub memory_emitted_bytes: u64,
}

impl View for CheckpointControlState {
    type V = CheckpointView;

    open spec fn view(&self) -> CheckpointView {
        CheckpointView {
            checkpoint_id: self.checkpoint_id@,
            checkpoint_root: self.checkpoint_root@,
            path: self.path@,
            memory_mode: self.memory_mode@,
            memory_logical_bytes: self.memory_logical_bytes,
            memory_emitted_bytes: self.memory_emitted_bytes,
        }
    }
}

impl CheckpointControlState {
    pub fn copy(&self) -> (other: CheckpointControlState)
        ensures
            other@ == self@,
    {
        CheckpointControlState {
            checkpoint_id: self.checkpoint_id.clone(),
            checkpoint_root: self.checkpoint_root.clone(),
            path: self.path.clone(),
            memory_mode: self.memory_mode.clone(),
            memory_logical_bytes: self.memory_logical_bytes,
            memory_emitted_bytes: self.memory_emitted_bytes,
        }
    }
}

/// A published checkpoint of the disks alone. `disk` and `volumes` describe what was captured.
pub struct DiskCheckpointControlState {
    pub checkpoint_id: String,
    pub path: String,
    pub disk: String,
    pub owned_volumes: String,
}

/// A published checkpoint of the disks alone, as text.
pub ghost struct DiskCheckpointView {
    pub checkpoint_id: Seq<char>,
    pub path: Seq<char>,
    pub disk: Seq<char>,
    pub owned_volumes: Seq<char>,
}

impl View for DiskCheckpointControlState {
    type V = DiskCheckpointView;

    open spec fn view(&self) -> DiskCheckpointView {
        DiskCheckpointView {
            checkpoint_id: self.checkpoint_id@,
            path: self.path@,
            disk: self.disk@,
            owned_volumes: self.owned_volumes@,
        }
    }
}

impl DiskCheckpointControlState {
    pub fn copy(&self) -> (other: DiskCheckpointControlState)
        ensures
            other@ == self@,
    {
        DiskCheckpointControlState {
            checkpoint_id: self.checkpoint_id.clone(),
            path: self.path.clone(),
            disk: self.disk.clone(),
            owned_volumes: self.owned_volumes.clone(),
        }
    }
}

/// Whether the VM is paused, and by whose authority.
pub struct PauseControlState {
    pub paused: bool,
    pub recovery_required: bool,
    pub capture_unavailable: Option<String>,
}

/// Whether the VM is paused, as text.
pub ghost struct PauseView {
    pub paused: bool,
    pub recovery_required: bool,
    pub capture_unavailable: Option<Seq<char>>,
}

/// The text of an optional string.
pub open spec fn text_of(value: Option<String>) -> Option<Seq<char>> {
    match value {
        Some(text) => Some(text@),
        None => None,
    }
}

/// Several texts.
pub open spec fn texts_of(values: Seq<String>) -> Seq<Seq<char>> {
    values.map_values(|value: String| value@)
}

fn copy_texts(values: &Vec<String>) -> (other: Vec<String>)
    ensures
        texts_of(other@) == texts_of(values@),
{
    let mut other: Vec<String> = Vec::new();
    let mut i: usize = 0;
    while i < values.len()
        invariant
            i <= values@.len(),
            other@.len() == i,
            forall|k: int| 0 <= k < i ==> (#[trigger] other@[k])@ == values@[k]@,
        decreases values@.len() - i,
    {
        other.push(values[i].clone());
        i = i + 1;
    }
    assert(texts_of(other@) =~= texts_of(values@));
    other
}

pub fn copy_text(value: &Option<String>) -> (other: Option<String>)
    ensures
        text_of(other) == text_of(*value),
{
    match value {
        Some(text) => Some(text.clone()),
        None => None,
    }
}

impl View for PauseControlState {
    type V = PauseView;

    open spec fn view(&self) -> PauseView {
        PauseView {
            paused: self.paused,
            recovery_required: self.recovery_required,
            capture_unavailable: text_of(self.capture_unavailable),
        }
    }
}

impl PauseControlState {
    pub fn copy(&self) -> (other: PauseControlState)
        ensures
            other@ == self@,
    {
        PauseControlState {
            paused: self.paused,
            recovery_required: self.recovery_required,
            capture_unavailable: copy_text(&self.capture_unavailable),
        }
    }
}

/// The answer to one command.
pub struct ControlResponse {
    pub ok: bool,
    pub error: Option<String>,
    pub error_code: Option<String>,
    /// The transports of this endpoint.
    pub control_protocols: Option<Vec<String>>,
    pub capabilities: Option<ControlCapabilities>,
    pub memory: Option<MemoryControlState>,
    pub cpu: Option<CpuControlState>,
    pub secret_result: Option<SecretsResult>,
    pub checkpoint: Option<CheckpointControlState>,
    pub disk_checkpoint: Option<DiskCheckpointControlState>,
    pub branch: Option<String>,
    pub pause: Option<PauseControlState>,
    pub root_disk: Option<RootDiskControlState>,
    pub compaction: Option<String>,
}

/// The answer to one command, as text.
#[verifier::ext_equal]
pub ghost struct ResponseState {
    pub ok: bool,
    pub error: Option<Seq<char>>,
    pub error_code: Option<Seq<char>>,
    pub control_protocols: Option<Seq<Seq<char>>>,
    pub capabilities: Option<ControlCapabilities>,
    pub memory: Option<MemoryControlState>,
    pub cpu: Option<CpuControlState>,
    pub secret_result: Option<SecretsState>,
    pub checkpoint: Option<CheckpointView>,
    pub disk_checkpoint: Option<DiskCheckpointView>,
    pub branch: Option<Seq<char>>,
    pub pause: Option<PauseView>,
    pub root_disk: Option<RootDiskControlState>,
    pub compaction: Option<Seq<char>>,
}

/// The view of an optional value.
pub open spec fn option_view<T: View>(value: Option<T>) -> Option<T::V> {
    match value {
        Some(inner) => Some(inner@),
        None => None,
    }
}

impl View for ControlResponse {
    type V = ResponseState;

    open spec fn view(&self) -> ResponseState {
        ResponseState {
            ok: self.ok,
            error: text_of(self.error),
            error_code: text_of(self.error_code),
            control_protocols: match self.control_protocols {
                Some(names) => Some(texts_of(names@)),
                None => None,
            },
            capabilities: self.capabilities,
            memory: self.memory,
            cpu: self.cpu,
            secret_result: option_view(self.secret_result),
            checkpoint: option_view(self.checkpoint),
            disk_checkpoint: option_view(self.disk_checkpoint),
            branch: text_of(self.branch),
            pause: option_view(self.pause),
            root_disk: self.root_disk,
            compaction: text_of(self.compaction),
        }
    }
}

/// An answer that says nothing but whether the command succeeded.
pub open spec fn bare_response(ok: bool) -> ResponseState {
    ResponseState {
        ok,
        error: None,
        error_code: None,
        control_protocols: None,
        capabilities: None,
        memory: None,
        cpu: None,
        secret_result: None,
        checkpoint: None,
        disk_checkpoint: None,
        branch: None,
        pause: None,
        root_disk: None,
        compaction: None,
    }
}

/// A refusal with its code and message.
pub open spec fn error_response(code: Seq<char>, message: Seq<char>) -> ResponseState {
    ResponseState { error_code: Some(code), error: Some(message), ..bare_response(false) }
}

impl ControlResponse {
    /// An answer that says nothing but whether the command succeeded.
    pub fn bare(ok: bool) -> (response: ControlResponse)
        ensures
            response@ == bare_response(ok),
    {
        ControlResponse {
            ok,
            error: None,
            error_code: None,
            control_protocols: None,
            capabilities: None,
            memory: None,
            cpu: None,
            secret_result: None,
            checkpoint: None,
            disk_checkpoint: None,
            branch: None,
            pause: None,
            root_disk: None,
            compaction: None,
        }
    }

    pub fn copy(&self) -> (other: ControlResponse)
        ensures
            other@ == self@,
    {
        let control_protocols = match &self.control_protocols {
            Some(names) => Some(copy_texts(names)),
            None => None,
        };
        let secret_result = match &self.secret_result {
            Some(result) => Some(result.copy()),
            None => None,
        };
        let checkpoint = match &self.checkpoint {
            Some(state) => Some(state.copy()),
            None => None,
        };
        let disk_checkpoint = match &self.disk_checkpoint {
            Some(state) => Some(state.copy()),
            None => None,
        };
        let pause = match &self.pause {
            Some(state) => Some(state.copy()),
            None => None,
        };
        ControlResponse {
            ok: self.ok,
            error: copy_text(&self.error),
            error_code: copy_text(&self.error_code),
            control_protocols,
            capabilities: self.capabilities,
            memory: self.memory,
            cpu: self.cpu,
            secret_result,
            checkpoint,
            disk_checkpoint,
            branch: copy_text(&self.branch),
            pause,
            root_disk: self.root_disk,
            compaction: copy_text(&self.compaction),
        }
    }
}

/// Refuse a command.
pub fn control_error(code: &str, message: String) -> (response: ControlResponse)
    ensures
        response@ == error_response(code@, message@),
{
    let mut response = ControlResponse::bare(false);
    response.error_code = Some(String::from_str(code));
    response.error = Some(message);
    response
}

/// The boot identity and the mutation revision of the runtime.
pub struct RuntimeControlState {
    pub runtime_boot_id: String,
    pub revision: u64,
    pub lifecycle: RuntimeLifecycle,
}

/// The boot identity and the mutation revision, as text.
pub ghost struct RuntimeView {
    pub runtime_boot_id: Seq<char>,
    pub revision: u64,
    pub lifecycle: RuntimeLifecycle,
}

impl View for RuntimeControlState {
    type V = RuntimeView;

    open spec fn view(&self) -> RuntimeView {
        RuntimeView {
            runtime_boot_id: self.runtime_boot_id@,
            revision: self.revision,
            lifecycle: self.lifecycle,
        }
    }
}

/// A fenced, idempotent request.
pub struct ControlEnvelope<M> {
    pub protocol_version: u32,
    pub request_id: String,
    pub operation_id: Option<String>,
    pub runtime_boot_id: String,
    pub expected_revision: Option<u64>,
    pub command: ControlRequest<M>,
}

/// The answer to a fenced request.
pub struct ControlEnvelopeResponse {
    pub request_id: String,
    pub runtime: RuntimeControlState,
    pub response: ControlResponse,
}

/// The answer to a fenced request, as text.
pub ghost struct EnvelopeView {
    pub request_id: Seq<char>,
    pub runtime: RuntimeView,
    pub response: ResponseState,
}

impl View for ControlEnvelopeResponse {
    type V = EnvelopeView;

    open spec fn view(&self) -> EnvelopeView {
        EnvelopeView {
            request_id: self.request_id@,
            runtime: self.runtime@,
            response: self.response@,
        }
    }
}

impl ControlEnvelopeResponse {
    pub fn copy(&self) -> (other: ControlEnvelopeResponse)
        ensures
            other@ == self@,
    {
        ControlEnvelopeResponse {
            request_id: self.request_id.clone(),
            runtime: RuntimeControlState {
                runtime_boot_id: self.runtime.runtime_boot_id.clone(),
                revision: self.runtime.revision,
                lifecycle: self.runtime.lifecycle,
            },
            response: self.response.copy(),
        }
    }
}

} // verus!
