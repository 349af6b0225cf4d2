//! What control commands guarantee, whatever path they take through the executor.

use vstd::prelude::*;
use vstd::string::*;

use crate::text::decimal;
use crate::text::decimal_reads_back;
use crate::text::decimal_value;
use super::executor::asks;
use super::executor::capability_answer;
use super::executor::completion;
use super::executor::immediate;
use super::executor::is_work;
use super::executor::outcome_kind;
use super::executor::pause_attempt;
use super::executor::recorded;
use super::executor::refusal;
use super::executor::requested_kind;
use super::executor::work_kind;
use super::executor::ControlState;
use super::executor::ExecState;
use super::executor::HostOutcome;
use super::executor::HostSupport;
use super::executor::HostWork;
use super::executor::UserPause;
use super::executor::MAX_DEDUP_RESPONSES;
use super::model::text_of;
use super::model::CheckpointResult;
use super::model::ControlRequest;
use super::model::MemoryCaptureMode;
use super::model::ResponseState;
use super::model::RuntimeLifecycle;
use super::model::SecretsState;

verus! {

/// Looking at the runtime is never refused, whatever state it is in.
pub proof fn observations_are_never_refused<M, P>(
    state: ExecState<P>,
    request: ControlRequest<M>,
    support: HostSupport,
)
    requires
        request is Capabilities || request is MemoryState || request is CpuState
            || request is PauseState || (request is DiskCompact && request->dry_run),
    ensures
        refusal(state, request, support) is None,
{
}

/// What the runtime refuses.
///
/// Resizing, growing, compacting and secret changes need a running VM. Captures, branches and the
/// pause itself are possible in a VM that a user holds paused, too. Pausing and resuming need clock
/// support, and a branch into memory needs its descriptor. Nothing else is refused, and whatever the
/// lifecycle refuses is refused as busy.
pub proof fn commands_are_refused_by_lifecycle<M, P>(
    state: ExecState<P>,
    request: ControlRequest<M>,
    support: HostSupport,
)
    ensures
        ({
            let running = state.lifecycle == RuntimeLifecycle::Running;
            let held = state.pause is Some;
            let refused = refusal(state, request, support);
            &&& request is MemoryTarget || request is CpuTarget || request is SecretsUpdate
                || request is RootDiskGrow || (request is DiskCompact && !request->dry_run) ==> (
            refused is Some <==> !running)
            &&& request is CheckpointCreate || request is DiskCheckpointCreate
                || request is BranchCreate ==> (refused is Some <==> !running && !held)
            &&& request is Pause || request is PauseWithGuestFlush || request is Resume ==> (
            refused is Some <==> !support.clock_sync || (!running && !held))
            &&& request is BranchCreateMemfd ==> (refused is Some
                <==> request->BranchCreateMemfd_backing is None || !support.memory_descriptors || (
            !running && !held))
            &&& refused matches Some((code, _)) ==> {
                ||| code == "runtime_busy"@ && !running
                ||| code == "pause_resume_unavailable"@ && !support.clock_sync
                ||| code == "missing_memory_handoff"@ && request is BranchCreateMemfd
            }
        }),
{
}

/// Every accepted request asks the host for work, except where there is nothing to do: a look at
/// the capabilities or the pause, a pause of a paused VM, a resume of a running one, and secret
/// changes without a network.
pub proof fn only_idle_requests_are_answered_at_once<M, P>(
    control: ControlState<P>,
    request: ControlRequest<M>,
    support: HostSupport,
)
    requires
        refusal(control.state, request, support) is None,
    ensures
        immediate(control, request, support) is Some <==> {
            ||| request is Capabilities
            ||| request is PauseState
            ||| request is Pause && control.state.pause is Some
            ||| request is Resume && control.state.pause is None
            ||| request is SecretsUpdate && !support.network
        },
        immediate(control, request, support) matches Some((next, answer)) ==> (
        control.state.revision < u64::MAX ==> {
            &&& request is SecretsUpdate ==> !answer.ok && answer.error_code == Some(
                "network_support_unavailable"@,
            )
            &&& request is Pause || request is Resume || request is PauseState ==> answer.ok
                && answer.pause is Some && answer.pause->0.paused == (control.state.pause is Some)
            &&& request is Capabilities ==> answer.ok && answer.capabilities is Some
            &&& next.state.pause == control.state.pause
            &&& next.state.lifecycle == control.state.lifecycle
            &&& next.state.runtime_boot_id == control.state.runtime_boot_id
            &&& next.state.dedup == control.state.dedup
        }),
{
}

/// The host is asked for exactly what the request says.
pub proof fn work_carries_the_request<M, P>(
    state: ExecState<P>,
    request: ControlRequest<M>,
    work: HostWork<M, P>,
)
    requires
        is_work(state, request, work),
    ensures
        request matches ControlRequest::MemoryTarget { total_mib: asked }
            ==> (work matches HostWork::SetMemoryTarget { total_mib } && total_mib == asked),
        request is MemoryState ==> work is ReadMemory,
        request matches ControlRequest::CpuTarget { online: asked }
            ==> (work matches HostWork::SetCpuTarget { online } && online == asked),
        request is CpuState ==> work is ReadCpu,
        request matches ControlRequest::SecretsUpdate { changes: asked }
            ==> (work matches HostWork::UpdateSecrets { changes } && changes == asked),
        request matches ControlRequest::RootDiskGrow { size_bytes: asked }
            ==> (work matches HostWork::GrowRoot { size_bytes } && size_bytes == asked),
        request is DiskCompact ==> {
            &&& work matches HostWork::Compact { target, layers, dry_run }
            &&& target == request->target
            &&& layers == request->layers
            &&& dry_run == request->dry_run
        },
        request is DiskCheckpointCreate ==> {
            &&& work matches HostWork::CaptureDisk { checkpoint_id, guest_flush }
            &&& checkpoint_id == request->DiskCheckpointCreate_checkpoint_id
            &&& guest_flush == request->DiskCheckpointCreate_guest_flush
        },
        request is CheckpointCreate ==> {
            &&& work matches HostWork::Capture {
                checkpoint_id,
                intent,
                record_integrity,
                guest_flush,
            }
            &&& checkpoint_id == request->CheckpointCreate_checkpoint_id
            &&& intent == request->CheckpointCreate_intent
            &&& record_integrity == request->CheckpointCreate_record_integrity
            &&& guest_flush == request->CheckpointCreate_guest_flush
        },
        request is BranchCreate ==> {
            &&& work matches HostWork::Branch {
                branch_id,
                child_name,
                memory_cache_dir,
                backing,
                record_integrity,
                guest_flush,
            }
            &&& branch_id == request->BranchCreate_branch_id
            &&& child_name == request->BranchCreate_child_name
            &&& memory_cache_dir == request->BranchCreate_memory_cache_dir
            &&& backing is None
            &&& record_integrity == request->BranchCreate_record_integrity
            &&& guest_flush == request->BranchCreate_guest_flush
        },
        request is BranchCreateMemfd ==> {
            &&& work matches HostWork::Branch {
                branch_id,
                child_name,
                memory_cache_dir,
                backing,
                record_integrity,
                guest_flush,
            }
            &&& branch_id == request->BranchCreateMemfd_branch_id
            &&& child_name == request->BranchCreateMemfd_child_name
            &&& memory_cache_dir == request->BranchCreateMemfd_memory_cache_dir
            &&& backing == request->BranchCreateMemfd_backing
            &&& record_integrity == request->BranchCreateMemfd_record_integrity
            &&& guest_flush == request->BranchCreateMemfd_guest_flush
        },
        request is Pause ==> {
            &&& work matches HostWork::Pause { guest_flush, .. }
            &&& guest_flush is None
        },
        request is PauseWithGuestFlush && state.pause is None ==> {
            &&& work matches HostWork::Pause { guest_flush, .. }
            &&& guest_flush == Some(request->PauseWithGuestFlush_guest_flush)
        },
        request is PauseWithGuestFlush && state.pause is Some ==> {
            &&& work matches HostWork::CheckPausedFlush { guest_flush }
            &&& guest_flush == request->PauseWithGuestFlush_guest_flush
        },
        request is Resume ==> {
            &&& work matches HostWork::Resume { paused }
            &&& state.pause == Some(paused)
        },
{
}

/// A capture, a branch or a pause begins by leaving the running state, and a pause closes the door
/// to client work at once; every other request leaves the VM as it is while the host works. Resuming
/// gives the user's hold to the host.
pub proof fn work_begins_with_its_own_transition<M, P>(
    control: ControlState<P>,
    request: ControlRequest<M>,
    support: HostSupport,
)
    requires
        refusal(control.state, request, support) is None,
        asks(control.state, request, support),
    ensures
        ({
            let begun = control.working(request);
            let suspends = request is CheckpointCreate || request is DiskCheckpointCreate
                || request is BranchCreate || request is BranchCreateMemfd || ((request is Pause
                || request is PauseWithGuestFlush) && control.state.pause is None);
            &&& begun.state.lifecycle == if suspends {
                RuntimeLifecycle::Quiescing
            } else {
                control.state.lifecycle
            }
            &&& begun.resident_paused == ((request is Pause || request is PauseWithGuestFlush)
                && control.state.pause is None || control.resident_paused)
            &&& begun.state.pause == if request is Resume {
                None
            } else {
                control.state.pause
            }
            &&& begun.state.revision == control.state.revision
            &&& begun.state.runtime_boot_id == control.state.runtime_boot_id
            &&& begun.pending is Some
        }),
{
}

/// Whether an outcome is a success of the host.
pub open spec fn succeeded<P>(outcome: HostOutcome<P>) -> bool {
    match outcome {
        HostOutcome::DiskCaptured(result) => result is Ok,
        HostOutcome::PausedFlushChecked(result) => result is Ok,
        HostOutcome::Paused(result) => result is Ok,
        HostOutcome::Resumed(result) => result is Ok,
        HostOutcome::RootGrown(result) => result is Ok,
        HostOutcome::Compacted { result, .. } => result is Ok,
        HostOutcome::Branched(result) => result is Ok,
        HostOutcome::Captured(result) => result is Ok,
        HostOutcome::MemoryTargetSet { accepted, state } => accepted && state is Some,
        HostOutcome::MemoryRead(state) => state is Some,
        HostOutcome::CpuTargetSet { accepted, state } => accepted && state is Some,
        HostOutcome::CpuRead(state) => state is Some,
        HostOutcome::SecretsUpdated { ok, .. } => ok,
    }
}

/// The failure of an outcome that may leave the VM suspended for recovery: whether it does, and why.
pub open spec fn suspension<P>(outcome: HostOutcome<P>) -> Option<(bool, Seq<char>)> {
    match outcome {
        HostOutcome::DiskCaptured(Err(failure)) => Some((failure.keep_paused, failure.message@)),
        HostOutcome::Paused(Err(failure)) => Some((failure.keep_paused, failure.message@)),
        HostOutcome::RootGrown(Err(failure)) => Some((failure.keep_paused, failure.message@)),
        HostOutcome::Compacted { result: Err(failure), .. } => Some(
            (failure.keep_paused, failure.message@),
        ),
        HostOutcome::Branched(Err(failure)) => Some((failure.keep_paused, failure.message@)),
        HostOutcome::Captured(Err(failure)) => Some((failure.keep_paused, failure.message@)),
        _ => None,
    }
}

/// The answer says what the host reported: it is a success exactly where the host succeeded, and it
/// carries what the host returned or why it failed.
pub proof fn answers_report_the_outcome<P>(
    control: ControlState<P>,
    outcome: HostOutcome<P>,
    support: HostSupport,
)
    requires
        control.state.revision < u64::MAX,
    ensures
        ({
            let answer = completion(control, outcome, support).1;
            &&& answer.ok == succeeded(outcome)
            &&& !(outcome is SecretsUpdated) ==> (answer.ok <==> answer.error_code is None)
            &&& suspension(outcome) matches Some((_, reason)) ==> answer.error == Some(reason)
            &&& outcome matches HostOutcome::DiskCaptured(Ok(result)) ==> answer.disk_checkpoint
                == Some(result@)
            &&& outcome matches HostOutcome::Branched(Ok(path)) ==> answer.branch == Some(path@)
            &&& outcome matches HostOutcome::Captured(Ok(result)) ==> reports_checkpoint(
                answer,
                result,
            )
            &&& outcome matches HostOutcome::Captured(Err(failure)) ==> match failure.published {
                Some(result) => reports_checkpoint(answer, result),
                None => answer.checkpoint is None,
            }
            &&& outcome matches HostOutcome::RootGrown(Ok(root)) ==> answer.root_disk == Some(root)
            &&& outcome matches HostOutcome::Compacted { result: Ok(report), .. }
                ==> answer.compaction == Some(report@)
            &&& outcome matches HostOutcome::MemoryTargetSet { accepted, state } ==> (accepted
                ==> answer.memory == state)
            &&& outcome matches HostOutcome::MemoryRead(state) ==> answer.memory == state
            &&& outcome matches HostOutcome::CpuTargetSet { accepted, state } ==> (accepted
                ==> answer.cpu == state)
            &&& outcome matches HostOutcome::CpuRead(state) ==> answer.cpu == state
            &&& outcome matches HostOutcome::SecretsUpdated { error, result, .. } ==> answer.error
                == text_of(error) && (result is Some <==> answer.secret_result is Some) && (
            result is Some ==> answer.secret_result == Some(result->0@))
            &&& outcome matches HostOutcome::Paused(Ok(paused)) ==> answer.pause is Some
                && answer.pause->0.paused && !answer.pause->0.recovery_required
                && answer.pause->0.capture_unavailable == text_of(paused.capture_unavailable)
            &&& outcome matches HostOutcome::Resumed(Ok(_)) ==> answer.pause is Some
                && answer.pause->0.paused == (control.state.pause is Some)
                && !answer.pause->0.recovery_required
        }),
{
}

/// The answer describes this checkpoint.
pub open spec fn reports_checkpoint(answer: ResponseState, result: CheckpointResult) -> bool {
    &&& answer.checkpoint matches Some(view)
    &&& view.checkpoint_id == result.checkpoint_id@
    &&& view.checkpoint_root == result.checkpoint_root@
    &&& view.path == result.path@
    &&& result.memory_mode == MemoryCaptureMode::Full ==> view.memory_mode == "full"@
    &&& result.memory_mode == MemoryCaptureMode::Incremental ==> view.memory_mode == "incremental"@
    &&& view.memory_logical_bytes == result.memory_logical_bytes
    &&& view.memory_emitted_bytes == result.memory_emitted_bytes
}

/// What the host's work leaves of the VM.
///
/// A failure that keeps the VM suspended for recovery leaves it suspended, and a capture that fails
/// so takes the user's hold with it. Any other end of a capture gives the VM back as the user holds
/// it. A pause leaves it suspended in the user's hold, a resume leaves it running, and a resume that
/// fails leaves it suspended for recovery. Nothing else moves it.
pub proof fn work_ends_in_its_own_state<P>(
    control: ControlState<P>,
    outcome: HostOutcome<P>,
    support: HostSupport,
)
    requires
        control.state.revision < u64::MAX,
    ensures
        ({
            let after = completion(control, outcome, support).0.state;
            let capture = outcome is DiskCaptured || outcome is Branched || outcome is Captured;
            let held = if control.state.pause is Some {
                RuntimeLifecycle::Quiesced
            } else {
                RuntimeLifecycle::Running
            };
            let keeps = suspension(outcome) matches Some((keep_paused, _)) && keep_paused;
            &&& keeps ==> after.lifecycle == RuntimeLifecycle::Quiesced
            &&& keeps && capture ==> after.pause is None
            &&& capture && !keeps ==> after.lifecycle == held && after.pause == control.state.pause
            &&& outcome matches HostOutcome::Paused(Ok(paused)) ==> after.pause == Some(paused)
                && after.lifecycle == RuntimeLifecycle::Quiesced
            &&& outcome is Paused && suspension(outcome) is Some && !keeps ==> after.lifecycle
                == RuntimeLifecycle::Running
            &&& outcome matches HostOutcome::Resumed(Ok(_)) ==> after.lifecycle
                == RuntimeLifecycle::Running
            &&& outcome matches HostOutcome::Resumed(Err(_)) ==> after.lifecycle
                == RuntimeLifecycle::Quiesced
            &&& !capture && !(outcome is Paused) ==> after.pause == control.state.pause
            &&& !capture && !(outcome is Paused) && !(outcome is Resumed) && !keeps
                ==> after.lifecycle == control.state.lifecycle
            &&& after.runtime_boot_id == control.state.runtime_boot_id
            &&& after.dedup == control.state.dedup
        }),
{
}

/// The revision grows by one exactly for a mutation that was applied, in whole or in part: reads
/// and plans never count, and neither does a failure that applied nothing.
pub proof fn revision_follows_applied_work<P>(
    control: ControlState<P>,
    outcome: HostOutcome<P>,
    support: HostSupport,
)
    requires
        control.state.revision < u64::MAX,
    ensures
        ({
            let after = completion(control, outcome, support).0.state;
            let reads = outcome is MemoryRead || outcome is CpuRead || (outcome is Compacted
                && outcome->dry_run);
            let partly = outcome matches HostOutcome::SecretsUpdated { result: Some(result), .. } && (
            result@ matches SecretsState::Failed { applied_count, .. } && applied_count > 0);
            after.revision == control.state.revision + if !reads && (succeeded(outcome) || partly) {
                1int
            } else {
                0int
            }
        }),
{
}

/// What the runtime offers follows from what the host supports, and nothing is offered that the
/// host lacks.
pub proof fn capabilities_follow_support(support: HostSupport)
    ensures
        ({
            let answer = capability_answer(support);
            &&& answer.ok
            &&& answer.control_protocols == Some(seq!["json"@, "cbor"@])
            &&& answer.capabilities matches Some(offered)
            &&& offered.cpu_resize == support.cpu_resize
            &&& offered.memory_resize == support.memory_resize
            &&& offered.secrets_update == (support.network && support.secrets)
            &&& offered.branch_create == support.branches
            &&& offered.branch_memfd == support.memory_descriptors
            &&& offered.pause_resume == support.clock_sync
            &&& offered.checkpoint_create && offered.disk_checkpoint_create
            &&& offered.optional_disk_integrity && offered.guest_flush_policy
            &&& offered.disk_compact && offered.disk_compact_owned && offered.root_disk_grow
        }),
{
}

/// A pause observation says whether a user holds the VM, why it cannot be captured, and whether it
/// is suspended without anyone's hold.
pub proof fn pause_observation_tells_who_holds_the_vm<P>(state: ExecState<P>)
    ensures
        ({
            let answer = state.pause_answer();
            &&& answer.ok
            &&& answer.pause matches Some(view)
            &&& view.paused <==> state.pause is Some
            &&& view.recovery_required <==> state.pause is None && state.lifecycle
                == RuntimeLifecycle::Quiesced
            &&& state.pause matches Some(UserPause { capture_unavailable, .. })
                ==> view.capture_unavailable == text_of(capture_unavailable)
            &&& state.pause is None ==> view.capture_unavailable is None
        }),
{
}

/// An answered request is remembered under its name and its bytes, behind all others; only the
/// oldest is forgotten, and only when more than 256 would be kept.
pub proof fn answers_are_remembered_in_order<P>(
    control: ControlState<P>,
    request_id: Seq<char>,
    fingerprint: Seq<u8>,
    response: ResponseState,
)
    requires
        control.state.dedup.len() <= MAX_DEDUP_RESPONSES,
    ensures
        ({
            let (next, answer) = recorded(control, request_id, fingerprint, response);
            let before = control.state.dedup;
            let after = next.state.dedup;
            &&& answer.request_id == request_id
            &&& answer.response == response
            &&& answer.runtime.revision == control.state.revision
            &&& answer.runtime.runtime_boot_id == control.state.runtime_boot_id
            &&& answer.runtime.lifecycle == control.state.lifecycle
            &&& after.len() == if before.len() < 256 {
                before.len() + 1
            } else {
                256
            }
            &&& after.last().request_id == request_id
            &&& after.last().fingerprint == fingerprint
            &&& after.last().response == answer
            &&& after.drop_last() == if before.len() < 256 {
                before
            } else {
                before.skip(1)
            }
        }),
{
    let (next, answer) = recorded(control, request_id, fingerprint, response);
    let before = control.state.dedup;
    if before.len() < 256 {
        assert(next.state.dedup.drop_last() =~= before);
    } else {
        assert(next.state.dedup.drop_last() =~= before.skip(1));
    }
}

/// A failure is answered under the code of what failed, with the host's own message where there is
/// one.
pub proof fn failures_carry_their_code<P>(
    control: ControlState<P>,
    outcome: HostOutcome<P>,
    support: HostSupport,
)
    requires
        control.state.revision < u64::MAX,
        !succeeded(outcome),
    ensures
        ({
            let answer = completion(control, outcome, support).1;
            let keeps = suspension(outcome) matches Some((keep_paused, _)) && keep_paused;
            &&& !answer.ok
            &&& outcome is DiskCaptured ==> answer.error_code == Some("disk_checkpoint_failed"@)
            &&& outcome is Branched ==> answer.error_code == Some("branch_failed"@)
            &&& outcome is Captured ==> answer.error_code == Some("checkpoint_failed"@)
            &&& outcome is PausedFlushChecked ==> answer.error_code == Some(
                "guest_flush_required"@,
            )
            &&& outcome is Paused ==> answer.error_code == Some("pause_failed"@)
            &&& outcome is Resumed ==> answer.error_code == Some("resume_recovery_required"@)
            &&& outcome is RootGrown ==> answer.error_code == Some("root_disk_growth_incomplete"@)
            &&& outcome is Compacted && keeps ==> answer.error_code == Some(
                "compaction_recovery_required"@,
            )
            &&& outcome is Compacted && !keeps ==> answer.error_code == Some("compaction_failed"@)
            &&& outcome is MemoryTargetSet || outcome is MemoryRead ==> answer.error_code == Some(
                "memory_resize_unavailable"@,
            )
            &&& outcome is CpuTargetSet || outcome is CpuRead ==> answer.error_code == Some(
                "cpu_resize_unavailable"@,
            )
            &&& outcome is SecretsUpdated && support.secrets ==> answer.error_code == Some(
                "secrets_update_failed"@,
            )
            &&& outcome is SecretsUpdated && !support.secrets ==> answer.error_code == Some(
                "secrets_update_unavailable"@,
            )
            &&& outcome matches HostOutcome::PausedFlushChecked(Err(message)) ==> answer.error
                == Some(message@)
            &&& outcome matches HostOutcome::Resumed(Err(message)) ==> answer.error == Some(
                message@,
            )
        }),
{
}

/// A pause of a paused VM and a resume of a running one count as applied; no look does, and neither
/// does what was refused.
pub proof fn idle_mutations_count<M, P>(
    control: ControlState<P>,
    request: ControlRequest<M>,
    support: HostSupport,
)
    requires
        control.state.revision < u64::MAX,
        immediate(control, request, support) is Some,
    ensures
        ({
            let (next, answer) = immediate(control, request, support)->0;
            let refused = refusal(control.state, request, support);
            &&& next.state.revision == control.state.revision + if refused is None && (
            request is Pause || request is Resume) {
                1int
            } else {
                0int
            }
            &&& refused matches Some((code, message)) ==> !answer.ok && answer.error_code == Some(
                code,
            ) && answer.error == Some(message) && next.state == control.state
            &&& next.observation == next.state.pause_answer()
        }),
{
}

/// A mutation that can no longer be counted retires the runtime, and says so; what is no mutation,
/// or applied nothing, is answered as ever.
pub proof fn exhausted_revision_retires<P>(
    control: ControlState<P>,
    outcome: HostOutcome<P>,
    support: HostSupport,
)
    requires
        control.state.revision == u64::MAX,
    ensures
        ({
            let (after, answer) = completion(control, outcome, support);
            let reads = outcome is MemoryRead || outcome is CpuRead || (outcome is Compacted
                && outcome->dry_run);
            let partly = outcome matches HostOutcome::SecretsUpdated { result: Some(result), .. } && (
            result@ matches SecretsState::Failed { applied_count, .. } && applied_count > 0);
            &&& after.state.revision == u64::MAX
            &&& !reads && (succeeded(outcome) || partly) ==> {
                &&& after.state.lifecycle == RuntimeLifecycle::Retiring
                &&& !answer.ok
                &&& answer.error_code == Some("revision_exhausted"@)
            }
            &&& reads || !(succeeded(outcome) || partly) ==> answer.ok == succeeded(outcome)
        }),
{
}

/// The host's work is awaited under its own kind: what the executor waits for after a request is
/// what the work for the request ends in, so that no outcome is taken for another.
pub proof fn work_is_awaited_under_its_kind<M, P>(
    state: ExecState<P>,
    request: ControlRequest<M>,
    work: HostWork<M, P>,
    outcome: HostOutcome<P>,
)
    requires
        is_work(state, request, work),
    ensures
        requested_kind(state, request) == Some(work_kind(work)),
        outcome_kind(outcome) == work_kind(work) <==> match (work, outcome) {
            (HostWork::CaptureDisk { .. }, HostOutcome::DiskCaptured(_)) => true,
            (HostWork::CheckPausedFlush { .. }, HostOutcome::PausedFlushChecked(_)) => true,
            (HostWork::Pause { .. }, HostOutcome::Paused(_)) => true,
            (HostWork::Resume { .. }, HostOutcome::Resumed(_)) => true,
            (HostWork::GrowRoot { .. }, HostOutcome::RootGrown(_)) => true,
            (HostWork::Compact { dry_run, .. }, HostOutcome::Compacted { dry_run: planned, .. }) =>
                dry_run == planned,
            (HostWork::Branch { .. }, HostOutcome::Branched(_)) => true,
            (HostWork::Capture { .. }, HostOutcome::Captured(_)) => true,
            (HostWork::SetMemoryTarget { .. }, HostOutcome::MemoryTargetSet { .. }) => true,
            (HostWork::ReadMemory, HostOutcome::MemoryRead(_)) => true,
            (HostWork::SetCpuTarget { .. }, HostOutcome::CpuTargetSet { .. }) => true,
            (HostWork::ReadCpu, HostOutcome::CpuRead(_)) => true,
            (HostWork::UpdateSecrets { .. }, HostOutcome::SecretsUpdated { .. }) => true,
            _ => false,
        },
{
}

/// A pause attempt is named after its boot and its revision.
pub proof fn pause_attempts_are_named_after_their_revision<P>(state: ExecState<P>)
    ensures
        pause_attempt(state) == "pause-"@ + state.runtime_boot_id + "-"@ + decimal(
            state.revision as nat,
        ),
        decimal_value(
            pause_attempt(state).skip(
                ("pause-"@ + state.runtime_boot_id + "-"@).len() as int,
            ),
        ) == state.revision,
{
    decimal_reads_back(state.revision as nat);
    let front = "pause-"@ + state.runtime_boot_id + "-"@;
    assert(pause_attempt(state).skip(front.len() as int) =~= decimal(state.revision as nat));
}

} // verus!
