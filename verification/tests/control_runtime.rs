//! The runtime executor behind both control transports.

use sandbox_runner::control::executor::capabilities_response;
use sandbox_runner::control::executor::checkpoint_response;
use sandbox_runner::control::executor::cpu_response;
use sandbox_runner::control::executor::fingerprint;
use sandbox_runner::control::executor::memory_response;
use sandbox_runner::control::executor::new_runtime_boot_id;
use sandbox_runner::control::executor::runtime_boot_identity;
use sandbox_runner::control::executor::unique_temporary_name;
use sandbox_runner::control::executor::CaptureFailure;
use sandbox_runner::control::executor::EnvelopeProgress;
use sandbox_runner::control::executor::HostFailure;
use sandbox_runner::control::executor::HostOutcome;
use sandbox_runner::control::executor::HostSupport;
use sandbox_runner::control::executor::HostWork;
use sandbox_runner::control::executor::Progress;
use sandbox_runner::control::executor::RuntimeControlExecutor;
use sandbox_runner::control::executor::UserPause;
use sandbox_runner::control::executor::MAX_DEDUP_RESPONSES;
use sandbox_runner::control::handler::apply_secret_changes;
use sandbox_runner::control::handler::operation_to_legacy;
use sandbox_runner::control::handler::reply_for;
use sandbox_runner::control::handler::secrets_outcome;
use sandbox_runner::control::handler::BatchStart;
use sandbox_runner::control::handler::ControlContext;
use sandbox_runner::control::handler::ControlOperation;
use sandbox_runner::control::handler::GenerationOneRequest;
use sandbox_runner::control::handler::OperationProgress;
use sandbox_runner::control::handler::Reply;
use sandbox_runner::control::handler::Response;
use sandbox_runner::control::handler::SecretsUpdateError;
use sandbox_runner::control::model::CheckpointCaptureIntent;
use sandbox_runner::control::model::CheckpointResult;
use sandbox_runner::control::model::ControlEnvelope;
use sandbox_runner::control::model::ControlRequest;
use sandbox_runner::control::model::ControlResponse;
use sandbox_runner::control::model::CpuControlState;
use sandbox_runner::control::model::DiskCheckpointControlState;
use sandbox_runner::control::model::ErrorEffect;
use sandbox_runner::control::model::GuestFlush;
use sandbox_runner::control::model::MemoryCaptureMode;
use sandbox_runner::control::model::MemoryControlState;
use sandbox_runner::control::model::RootDiskControlState;
use sandbox_runner::control::model::RuntimeLifecycle;
use sandbox_runner::control::model::SecretLiveChange;
use sandbox_runner::control::model::SecretValue;
use sandbox_runner::control::model::SecretsResult;

type Request = ControlRequest<u8>;
type Executor = RuntimeControlExecutor<&'static str>;

fn support() -> HostSupport {
    HostSupport {
        clock_sync: true,
        memory_descriptors: true,
        branches: true,
        cpu_resize: true,
        memory_resize: true,
        network: true,
        secrets: true,
    }
}

fn memory() -> MemoryControlState {
    MemoryControlState {
        boot_mib: 512,
        target_mib: 2048,
        current_mib: 1024,
        max_mib: 4096,
    }
}

fn cpu(online: u32) -> CpuControlState {
    CpuControlState {
        possible: 8,
        requested_online: online,
        actual_online: online,
        enforced: online,
    }
}

fn executor() -> Executor {
    RuntimeControlExecutor::new(1)
}

fn answered(progress: Progress<u8, &'static str>) -> ControlResponse {
    match progress {
        Progress::Answered(response) => response,
        Progress::Work(_) => panic!("expected an answer"),
    }
}

fn work(progress: Progress<u8, &'static str>) -> HostWork<u8, &'static str> {
    match progress {
        Progress::Work(work) => work,
        Progress::Answered(_) => panic!("expected work"),
    }
}

fn code(response: &ControlResponse) -> &str {
    response.error_code.as_deref().unwrap()
}

fn pause(executor: &mut Executor) -> ControlResponse {
    let begun = work(executor.execute_legacy(Request::Pause, support()));
    assert!(matches!(begun, HostWork::Pause { guest_flush: None, .. }));
    executor.complete_legacy(
        HostOutcome::Paused(Ok(UserPause {
            capture_unavailable: Some("external mounts".into()),
            token: "held",
        })),
        support(),
    )
}

fn resume(executor: &mut Executor) -> ControlResponse {
    match work(executor.execute_legacy(Request::Resume, support())) {
        HostWork::Resume { paused } => assert_eq!(paused.token, "held"),
        _ => panic!("expected to resume"),
    }
    executor.complete_legacy(HostOutcome::Resumed(Ok(())), support())
}

#[test]
fn resume_gives_the_runtime_back() {
    let mut executor = executor();
    let state = answered(executor.execute_legacy(Request::PauseState, support()));
    assert!(!state.pause.unwrap().paused);
    let paused = pause(&mut executor).pause.unwrap();
    assert!(paused.paused && !paused.recovery_required);
    assert_eq!(paused.capture_unavailable.as_deref(), Some("external mounts"));
    assert!(executor.is_resident_paused());
    assert!(executor.user_pause().is_some());
    assert_eq!(executor.state().revision, 1);
    assert_eq!(executor.state().lifecycle, RuntimeLifecycle::Quiesced);
    // Pausing again is an observation.
    assert!(answered(executor.execute_legacy(Request::Pause, support())).ok);
    let resumed = resume(&mut executor);
    assert!(!resumed.pause.unwrap().paused);
    assert!(!executor.is_resident_paused());
    assert_eq!(executor.state().lifecycle, RuntimeLifecycle::Running);
}

#[test]
fn a_paused_runtime_admits_captures_and_no_other_mutation() {
    let mut executor = executor();
    pause(&mut executor);
    let refused = answered(executor.execute_legacy(
        Request::CpuTarget { online: 2 },
        support(),
    ));
    assert_eq!(code(&refused), "runtime_busy");
    let disk = work(executor.execute_legacy(
        Request::DiskCheckpointCreate {
            guest_flush: Some(GuestFlush::Skip),
            checkpoint_id: "disk".into(),
        },
        support(),
    ));
    assert!(matches!(disk, HostWork::CaptureDisk { .. }));
    assert_eq!(executor.state().lifecycle, RuntimeLifecycle::Quiescing);
    let captured = executor.complete_legacy(
        HostOutcome::DiskCaptured(Ok(DiskCheckpointControlState {
            checkpoint_id: "disk".into(),
            path: "/p".into(),
            disk: "d".into(),
            owned_volumes: "v".into(),
        })),
        support(),
    );
    assert_eq!(captured.disk_checkpoint.unwrap().path, "/p");
    // The user still holds the pause.
    assert_eq!(executor.state().lifecycle, RuntimeLifecycle::Quiesced);
    assert!(executor.user_pause().is_some());
    let flush = work(executor.execute_legacy(
        Request::PauseWithGuestFlush {
            guest_flush: GuestFlush::Required,
        },
        support(),
    ));
    assert!(matches!(flush, HostWork::CheckPausedFlush { .. }));
    let refused = executor.complete_legacy(
        HostOutcome::PausedFlushChecked(Err("not flushed".into())),
        support(),
    );
    assert_eq!(code(&refused), "guest_flush_required");
}

#[test]
fn a_suspension_for_recovery_belongs_to_nobody() {
    let mut executor = executor();
    let failed = |keep_paused| {
        HostOutcome::Branched(Err(HostFailure {
            keep_paused,
            message: "no room".into(),
        }))
    };
    let branch = || Request::BranchCreate {
        guest_flush: None,
        record_integrity: false,
        branch_id: "b".into(),
        child_name: "c".into(),
        memory_cache_dir: "/m".into(),
    };
    work(executor.execute_legacy(branch(), support()));
    let response = executor.complete_legacy(failed(false), support());
    assert_eq!(code(&response), "branch_failed");
    assert_eq!(response.error.as_deref(), Some("no room"));
    assert_eq!(executor.state().lifecycle, RuntimeLifecycle::Running);
    assert_eq!(executor.state().revision, 0);
    work(executor.execute_legacy(branch(), support()));
    executor.complete_legacy(failed(true), support());
    assert_eq!(executor.state().lifecycle, RuntimeLifecycle::Quiesced);
    let observed = answered(executor.execute_legacy(Request::PauseState, support()));
    assert!(observed.pause.unwrap().recovery_required);
    for request in [branch(), Request::Resume, Request::Pause, Request::MemoryTarget { total_mib: 1 }] {
        let refused = answered(executor.execute_legacy(request, support()));
        assert_eq!(code(&refused), "runtime_busy");
    }
    assert!(matches!(
        work(executor.execute_legacy(Request::CpuState, support())),
        HostWork::ReadCpu
    ));
}

fn growth() -> Request {
    Request::RootDiskGrow { size_bytes: 1 << 30 }
}

fn compaction(dry_run: bool) -> Request {
    Request::DiskCompact {
        target: "root".into(),
        layers: None,
        dry_run,
    }
}

fn secrets() -> Request {
    Request::SecretsUpdate { changes: vec![] }
}

/// The answer of a request whose work ended like this.
fn run(executor: &mut Executor, request: Request, outcome: HostOutcome<&'static str>) -> ControlResponse {
    assert!(!executor.awaits(&outcome));
    work(executor.execute_legacy(request, support()));
    assert!(executor.awaits(&outcome));
    let response = executor.complete_legacy(outcome, support());
    assert!(!executor.awaits(&HostOutcome::CpuRead(None)));
    response
}

#[test]
fn every_command_leaves_the_vm_at_rest() {
    let at_rest = |executor: &Executor| {
        let running = executor.state().lifecycle == RuntimeLifecycle::Running;
        executor.state().lifecycle != RuntimeLifecycle::Quiescing
            && executor.is_resident_paused() != running
            && (executor.user_pause().is_none()
                || executor.state().lifecycle == RuntimeLifecycle::Quiesced)
    };
    let mut executor = executor();
    assert!(at_rest(&executor));
    assert!(answered(executor.execute_locked(Request::Capabilities, support())).ok);
    assert!(at_rest(&executor));
    work(executor.execute_locked(Request::Pause, support()));
    assert!(!at_rest(&executor));
    let failed = HostOutcome::Paused(Err(HostFailure {
        keep_paused: false,
        message: "x".into(),
    }));
    assert!(!executor.complete_locked(failed, support()).ok);
    assert!(at_rest(&executor));
    pause(&mut executor);
    assert!(at_rest(&executor) && executor.user_pause().is_some());
    resume(&mut executor);
    assert!(at_rest(&executor) && executor.user_pause().is_none());
}

#[test]
fn an_outcome_answers_only_its_own_work() {
    let mut executor = executor();
    let read = HostOutcome::MemoryRead(None);
    let plan = HostOutcome::Compacted {
        dry_run: true,
        result: Ok("{}".into()),
    };
    assert!(!executor.awaits(&read) && !executor.awaits(&plan));
    work(executor.execute_legacy(compaction(false), support()));
    assert!(!executor.awaits(&read));
    // The plan of a compaction is not the compaction.
    assert!(!executor.awaits(&plan));
    // A pause observation is answered meanwhile.
    assert!(answered(executor.execute_legacy(Request::PauseState, support())).ok);
    let done = HostOutcome::Compacted {
        dry_run: false,
        result: Ok("{}".into()),
    };
    assert!(executor.awaits(&done));
    assert!(executor.complete_legacy(done, support()).ok);
    assert_eq!(executor.state().lifecycle, RuntimeLifecycle::Running);
}

#[test]
fn each_operation_reports_its_own_failure() {
    let fail = || HostFailure {
        keep_paused: false,
        message: "x".into(),
    };
    let capture = || CaptureFailure {
        keep_paused: false,
        message: "x".into(),
        published: None,
    };
    let disk = Request::DiskCheckpointCreate {
        guest_flush: None,
        checkpoint_id: "d".into(),
    };
    let checkpoint = Request::CheckpointCreate {
        guest_flush: None,
        record_integrity: false,
        checkpoint_id: "c".into(),
        intent: CheckpointCaptureIntent::Park,
    };
    for (request, outcome, expected) in [
        (disk, HostOutcome::DiskCaptured(Err(fail())), "disk_checkpoint_failed"),
        (checkpoint, HostOutcome::Captured(Err(capture())), "checkpoint_failed"),
        (Request::Pause, HostOutcome::Paused(Err(fail())), "pause_failed"),
        (growth(), HostOutcome::RootGrown(Err(fail())), "root_disk_growth_incomplete"),
        (
            compaction(false),
            HostOutcome::Compacted {
                dry_run: false,
                result: Err(fail()),
            },
            "compaction_failed",
        ),
        (
            compaction(false),
            HostOutcome::Compacted {
                dry_run: false,
                result: Err(HostFailure {
                    keep_paused: true,
                    message: "x".into(),
                }),
            },
            "compaction_recovery_required",
        ),
        (
            Request::MemoryTarget { total_mib: 2048 },
            HostOutcome::MemoryTargetSet {
                accepted: false,
                state: Some(memory()),
            },
            "memory_resize_unavailable",
        ),
        (Request::CpuState, HostOutcome::CpuRead(None), "cpu_resize_unavailable"),
        (
            secrets(),
            HostOutcome::SecretsUpdated {
                ok: false,
                error: None,
                result: None,
            },
            "secrets_update_failed",
        ),
    ] {
        let response = run(&mut executor(), request, outcome);
        assert!(!response.ok);
        assert_eq!(code(&response), expected);
    }
    let mut held = executor();
    pause(&mut held);
    let stuck = run(&mut held, Request::Resume, HostOutcome::Resumed(Err("x".into())));
    assert!(!stuck.ok);
    assert_eq!(code(&stuck), "resume_recovery_required");
    let refused = |request, support| answered(executor().execute_legacy(request, support));
    assert_eq!(
        code(&refused(
            Request::SecretsUpdate { changes: vec![] },
            HostSupport {
                network: false,
                ..support()
            }
        )),
        "network_support_unavailable"
    );
    assert_eq!(
        code(&refused(
            Request::BranchCreateMemfd {
                guest_flush: None,
                record_integrity: false,
                branch_id: "b".into(),
                child_name: "c".into(),
                memory_cache_dir: "/m".into(),
                backing: None,
            },
            support()
        )),
        "missing_memory_handoff"
    );
}

#[test]
fn applied_mutations_are_counted() {
    let mut executor = executor();
    let set = run(
        &mut executor,
        Request::MemoryTarget { total_mib: 2048 },
        HostOutcome::MemoryTargetSet {
            accepted: true,
            state: Some(memory()),
        },
    );
    assert_eq!(set.memory, Some(memory()));
    assert_eq!(executor.state().revision, 1);
    let read = HostOutcome::MemoryRead(Some(memory()));
    run(&mut executor, Request::MemoryState, read);
    assert_eq!(executor.state().revision, 1);
    let grown = run(
        &mut executor,
        growth(),
        HostOutcome::RootGrown(Ok(RootDiskControlState {
            filesystem_bytes: 1,
            device_bytes: 2,
            total_us: 3,
            pause_us: 4,
            guest_us: 5,
        })),
    );
    assert_eq!(grown.root_disk.unwrap().device_bytes, 2);
    assert_eq!(executor.state().revision, 2);
    run(
        &mut executor,
        compaction(true),
        HostOutcome::Compacted {
            dry_run: true,
            result: Ok("{}".into()),
        },
    );
    assert_eq!(executor.state().revision, 2);
    // A partially applied batch changed authoritative state.
    let partial = |applied_count| HostOutcome::SecretsUpdated {
        ok: false,
        error: None,
        result: Some(SecretsResult::Failed {
            applied_count,
            failed_index: applied_count,
            error: sandbox_runner::control::model::ControlError::rejected("c", "m"),
        }),
    };
    run(&mut executor, secrets(), partial(0));
    assert_eq!(executor.state().revision, 2);
    run(&mut executor, secrets(), partial(1));
    assert_eq!(executor.state().revision, 3);
    assert_eq!(executor.state().lifecycle, RuntimeLifecycle::Running);
}

fn envelope(executor: &Executor, request_id: &str, command: Request) -> ControlEnvelope<u8> {
    ControlEnvelope {
        protocol_version: 1,
        request_id: request_id.into(),
        operation_id: None,
        runtime_boot_id: executor.state().runtime_boot_id,
        expected_revision: None,
        command,
    }
}

fn refusal(executor: &mut Executor, envelope: ControlEnvelope<u8>, bytes: &[u8]) -> String {
    match executor.execute(envelope, bytes, support()) {
        EnvelopeProgress::Answered(answer) => code(&answer.response).to_string(),
        EnvelopeProgress::Work { .. } => panic!("expected a refusal"),
    }
}

#[test]
fn a_repeated_request_is_answered_from_memory() {
    let mut executor = executor();
    let request = envelope(&executor, "one", Request::CpuTarget { online: 4 });
    let EnvelopeProgress::Work {
        request_id,
        fingerprint,
        work,
    } = executor.execute(request, b"bytes", support())
    else {
        panic!("expected work");
    };
    assert!(matches!(work, HostWork::SetCpuTarget { online: 4 }));
    let outcome = HostOutcome::CpuTargetSet {
        accepted: true,
        state: Some(cpu(4)),
    };
    let answer = executor.complete(request_id, fingerprint, outcome, support());
    assert_eq!(answer.request_id, "one");
    assert_eq!(answer.runtime.revision, 1);
    let again = envelope(&executor, "one", Request::CpuTarget { online: 4 });
    match executor.execute(again, b"bytes", support()) {
        EnvelopeProgress::Answered(repeated) => {
            assert_eq!(repeated.response.cpu, Some(cpu(4)));
            assert_eq!(repeated.runtime.revision, 1);
        }
        EnvelopeProgress::Work { .. } => panic!("executed twice"),
    }
    assert_eq!(executor.state().revision, 1);
    let other = envelope(&executor, "one", Request::CpuTarget { online: 5 });
    assert_eq!(refusal(&mut executor, other, b"other bytes"), "request_id_conflict");
}

#[test]
fn envelopes_are_fenced() {
    let mut executor = executor();
    let request = |executor: &Executor| envelope(executor, "id", Request::CpuTarget { online: 4 });
    let mut wrong = request(&executor);
    wrong.protocol_version = 9;
    let version = refusal(&mut executor, wrong, b"");
    let mut wrong = request(&executor);
    wrong.request_id = "with space".into();
    let id = refusal(&mut executor, wrong, b"");
    let mut wrong = request(&executor);
    wrong.runtime_boot_id = "boot_other".into();
    let boot = refusal(&mut executor, wrong, b"");
    let mut wrong = request(&executor);
    wrong.expected_revision = Some(8);
    let revision = refusal(&mut executor, wrong, b"");
    assert_eq!(version, "unsupported_protocol");
    assert_eq!(id, "invalid_identifier");
    assert_eq!(boot, "stale_runtime_boot");
    assert_eq!(revision, "revision_conflict");
    assert_eq!(executor.state().revision, 0);
}

#[test]
fn the_oldest_answers_are_forgotten() {
    let mut executor = executor();
    for i in 0..=MAX_DEDUP_RESPONSES {
        let id = format!("r{i}");
        let request = envelope(&executor, &id, Request::MemoryState);
        let EnvelopeProgress::Work {
            request_id,
            fingerprint,
            ..
        } = executor.execute(request, id.as_bytes(), support())
        else {
            panic!("expected work");
        };
        executor.complete(
            request_id,
            fingerprint,
            HostOutcome::MemoryRead(Some(memory())),
            support(),
        );
    }
    let newest = envelope(&executor, "r256", Request::MemoryState);
    assert!(matches!(
        executor.execute(newest, b"r256", support()),
        EnvelopeProgress::Answered(_)
    ));
    let oldest = envelope(&executor, "r0", Request::MemoryState);
    assert!(matches!(
        executor.execute(oldest, b"r0", support()),
        EnvelopeProgress::Work { .. }
    ));
}

#[test]
fn identities_and_digests_come_from_outside() {
    assert_eq!(
        fingerprint(b"abc")[..8],
        [0xba, 0x78, 0x16, 0xbf, 0x8f, 0x01, 0xcf, 0xea]
    );
    assert_eq!(
        runtime_boot_identity(&[0x0f; 16]),
        "boot_0f0f0f0f0f0f0f0f0f0f0f0f0f0f0f0f"
    );
    let (first, second) = (new_runtime_boot_id(), new_runtime_boot_id());
    assert_eq!(first.len(), 37);
    assert_ne!(first, second);
    assert_eq!(
        unique_temporary_name("runtime-boot-id", 12, 345),
        ".runtime-boot-id.12.345.tmp"
    );
}

#[test]
fn answers_carry_what_was_read() {
    let caps = capabilities_response(HostSupport {
        secrets: false,
        cpu_resize: false,
        ..support()
    });
    assert!(caps.ok);
    assert_eq!(caps.control_protocols.as_deref().unwrap(), ["json", "cbor"]);
    let caps = caps.capabilities.unwrap();
    assert!(!caps.secrets_update && !caps.cpu_resize && caps.memory_resize && caps.pause_resume);
    assert_eq!(memory_response(Some(memory())).memory, Some(memory()));
    assert_eq!(
        memory_response(None).error.as_deref(),
        Some("this VM booted without memory hotplug capacity")
    );
    assert_eq!(cpu_response(Some(cpu(2))).cpu, Some(cpu(2)));
    assert_eq!(
        cpu_response(None).error.as_deref(),
        Some("this VM booted without CPU capacity")
    );
    let result = CheckpointResult {
        checkpoint_id: "c".into(),
        checkpoint_root: "/r".into(),
        path: "/p".into(),
        memory_mode: MemoryCaptureMode::Incremental,
        memory_logical_bytes: 10,
        memory_emitted_bytes: 4,
    };
    let response = checkpoint_response(Some(result), true, None, None);
    let checkpoint = response.checkpoint.unwrap();
    assert_eq!(checkpoint.memory_mode, "incremental");
    assert_eq!(checkpoint.memory_emitted_bytes, 4);
}

#[test]
fn framed_operations_become_commands() {
    let command = operation_to_legacy::<u8>(ControlOperation::Pause {
        guest_flush: Some(GuestFlush::Auto),
    });
    assert!(matches!(
        command,
        Ok(ControlRequest::PauseWithGuestFlush {
            guest_flush: GuestFlush::Auto
        })
    ));
    let command = operation_to_legacy::<u8>(ControlOperation::DiskCompact {
        target: "root".into(),
        layers: Some(3),
        dry_run: true,
    });
    assert!(matches!(
        command,
        Ok(ControlRequest::DiskCompact {
            layers: Some(3),
            dry_run: true,
            ..
        })
    ));
    let command = operation_to_legacy::<u8>(ControlOperation::CheckpointCreate {
        guest_flush: None,
        record_integrity: true,
        checkpoint_id: "c".into(),
        intent: CheckpointCaptureIntent::Park,
    });
    assert!(matches!(
        command,
        Ok(ControlRequest::CheckpointCreate {
            record_integrity: true,
            intent: CheckpointCaptureIntent::Park,
            ..
        })
    ));
}

fn framed(response: Response) -> Reply {
    response.framed
}

#[test]
fn framed_requests_share_the_executor() {
    let mut context = ControlContext {
        executor: executor(),
    };
    let handle = |context: &mut ControlContext<&'static str>, request, generation| {
        context.handle::<u8>(request, generation, support())
    };
    let capabilities = || ControlOperation::GenerationOne(GenerationOneRequest::Capabilities);
    match handle(&mut context, capabilities(), 1) {
        OperationProgress::Answered(response) => {
            assert!(matches!(framed(response), Reply::Capabilities(caps) if caps.memory_resize))
        }
        _ => panic!("expected an answer"),
    }
    match handle(&mut context, capabilities(), 2) {
        OperationProgress::Answered(response) => {
            assert!(matches!(framed(response), Reply::RuntimeCapabilities(_)))
        }
        _ => panic!("expected an answer"),
    }
    match handle(&mut context, ControlOperation::PauseState, 2) {
        OperationProgress::Answered(response) => {
            assert!(matches!(framed(response), Reply::Pause(state) if !state.paused))
        }
        _ => panic!("expected an answer"),
    }
    let target = GenerationOneRequest::CpuTarget { online: 3 };
    let OperationProgress::Work { mutation, work } =
        handle(&mut context, ControlOperation::GenerationOne(target), 1)
    else {
        panic!("expected work");
    };
    assert!(mutation);
    assert!(matches!(work, HostWork::SetCpuTarget { online: 3 }));
    let reply = context.complete(
        true,
        HostOutcome::CpuTargetSet {
            accepted: true,
            state: Some(cpu(3)),
        },
        1,
        support(),
    );
    assert!(matches!(reply, Reply::Cpu(state) if state.enforced == 3));
    assert_eq!(context.executor.state().revision, 1);
    let again = GenerationOneRequest::CpuTarget { online: 3 };
    assert!(matches!(
        handle(&mut context, ControlOperation::GenerationOne(again), 1),
        OperationProgress::Work { mutation: true, .. }
    ));
    let failed = context.complete(
        true,
        HostOutcome::CpuTargetSet {
            accepted: false,
            state: None,
        },
        1,
        support(),
    );
    match failed {
        Reply::Error(error) => assert_eq!(error.effect, ErrorEffect::Unknown),
        _ => panic!("expected an error"),
    }
}

#[test]
fn replies_travel_under_their_types() {
    for (reply, name) in [
        (Reply::Memory(memory()), "control.memory.state"),
        (Reply::Cpu(cpu(1)), "control.cpu.state"),
        (
            Reply::Secrets(SecretsResult::Complete { applied_count: 1 }),
            "control.secrets.result",
        ),
        (Reply::Branch("/b".into()), "control.branch.result"),
        (Reply::DiskCompact("{}".into()), "control.disk.compact.result"),
    ] {
        assert_eq!(reply.message_type(), name);
    }
    let empty = reply_for(ControlResponse::bare(true), false, 1);
    assert_eq!(empty.message_type(), "control.error");
    match empty {
        Reply::Error(error) => {
            assert_eq!(error.code, "invalid_response");
            assert_eq!(error.message, "runtime omitted control result");
        }
        _ => panic!("expected an error"),
    }
    match reply_for(ControlResponse::bare(false), false, 1) {
        Reply::Error(error) => {
            assert_eq!(error.code, "operation_failed");
            assert_eq!(error.effect, ErrorEffect::Untouched);
        }
        _ => panic!("expected an error"),
    }
}

/// One stored secret, and the rules of its store.
struct Store {
    secrets: Vec<(String, String, Vec<String>)>,
}

impl Store {
    fn apply(&mut self, change: SecretLiveChange) -> Result<(), (SecretsUpdateError, String)> {
        match change {
            SecretLiveChange::Rotate { name, value } => {
                match self.secrets.iter_mut().find(|secret| secret.0 == name) {
                    Some(secret) => {
                        secret.1 = value.0;
                        Ok(())
                    }
                    None => Err((
                        SecretsUpdateError::UnknownSecret,
                        format!("no secret named {name} is configured"),
                    )),
                }
            }
            SecretLiveChange::Remove { name } => {
                self.secrets.retain(|secret| secret.0 != name);
                Ok(())
            }
            SecretLiveChange::SetAllowedHosts { name, hosts } => {
                if hosts.is_empty() {
                    return Err((
                        SecretsUpdateError::MissingAllowedHosts,
                        format!("secret {name}: at least one allowed host is required"),
                    ));
                }
                if let Some(secret) = self.secrets.iter_mut().find(|secret| secret.0 == name) {
                    secret.2 = hosts;
                }
                Ok(())
            }
        }
    }
}

fn update(store: Option<&mut Store>, changes: Vec<SecretLiveChange>) -> Response {
    match apply_secret_changes(store.is_some(), changes) {
        BatchStart::Refused(response) => response,
        BatchStart::Running(mut batch) => {
            let store = store.unwrap();
            while let Some(change) = batch.next() {
                match store.apply(change) {
                    Ok(()) => batch.applied(),
                    Err((error, message)) => return batch.failed(error, message),
                }
            }
            batch.complete()
        }
    }
}

#[test]
fn actual_secret_store_preserves_ordered_partial_progress_and_legacy_errors() {
    let mut secrets = Store {
        secrets: vec![(
            "TOKEN".into(),
            "before".into(),
            vec!["api.example.test".into()],
        )],
    };
    let response = update(
        Some(&mut secrets),
        vec![
            SecretLiveChange::Remove {
                name: "already_absent".into(),
            },
            SecretLiveChange::Rotate {
                name: "TOKEN".into(),
                value: SecretValue("after".into()),
            },
            SecretLiveChange::SetAllowedHosts {
                name: "TOKEN".into(),
                hosts: vec![],
            },
            SecretLiveChange::Rotate {
                name: "TOKEN".into(),
                value: SecretValue("must_not_run".into()),
            },
        ],
    );
    assert!(!response.json_ok);
    assert_eq!(
        response.json_error.as_deref(),
        Some("secret TOKEN: at least one allowed host is required")
    );
    match response.framed {
        Reply::Secrets(SecretsResult::Failed {
            applied_count,
            failed_index,
            error,
        }) => {
            assert_eq!((applied_count, failed_index), (2, 2));
            assert_eq!(error.code, "invalid_secret_hosts");
            assert_eq!(error.effect, ErrorEffect::Untouched);
        }
        _ => panic!("expected partial progress"),
    }
    assert_eq!(secrets.secrets[0].1, "after");
    assert_eq!(secrets.secrets[0].2, ["api.example.test"]);
    let response = update(
        Some(&mut secrets),
        vec![
            SecretLiveChange::Rotate {
                name: "absent".into(),
                value: SecretValue("fixture".into()),
            },
            SecretLiveChange::Remove {
                name: "TOKEN".into(),
            },
        ],
    );
    assert_eq!(
        response.json_error.as_deref(),
        Some("no secret named absent is configured")
    );
    assert!(matches!(
        response.framed,
        Reply::Secrets(SecretsResult::Failed {
            applied_count: 0,
            failed_index: 0,
            ..
        })
    ));
    assert_eq!(secrets.secrets.len(), 1);
    let empty = update(Some(&mut secrets), vec![]);
    assert!(empty.json_ok);
    assert!(matches!(
        empty.framed,
        Reply::Secrets(SecretsResult::Complete { applied_count: 0 })
    ));
    let unsupported = update(None, vec![]);
    assert!(!unsupported.json_ok);
    match &unsupported.framed {
        Reply::Error(error) => assert_eq!(error.effect, ErrorEffect::Untouched),
        _ => panic!("expected an error"),
    }
    match secrets_outcome::<()>(unsupported) {
        HostOutcome::SecretsUpdated { ok, result, .. } => assert!(!ok && result.is_none()),
        _ => panic!("expected the batch's outcome"),
    }
}
