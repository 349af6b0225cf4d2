//! Readiness, restore activation, the exit of the relay, and start-up.

use bytes::BytesMut;
use sandbox_runner::disconnect::DisconnectAck;
use sandbox_runner::frames::raw_frame_from;
use sandbox_runner::lane::AckProbe;
use sandbox_runner::progress::publish_failure;
use sandbox_runner::progress::telemetry_step;
use sandbox_runner::progress::ProgressThrottle;
use sandbox_runner::progress::StartupFailureChannel;
use sandbox_runner::progress::StartupPhase;
use sandbox_runner::progress::StartupProgress;
use sandbox_runner::progress::TelemetryStep;
use sandbox_runner::relay::activate_restored;
use sandbox_runner::relay::next_restored_step;
use sandbox_runner::relay::relay_shutdown_requested;
use sandbox_runner::relay::restore_activation_record;
use sandbox_runner::relay::restore_temporary_name;
use sandbox_runner::relay::restored_thaw_request;
use sandbox_runner::relay::thaw_restored_workload;
use sandbox_runner::relay::thaw_wait;
use sandbox_runner::relay::wait_relay_exit;
use sandbox_runner::relay::ActivationStage;
use sandbox_runner::relay::AgentRelay;
use sandbox_runner::relay::BootMessage;
use sandbox_runner::relay::BootStep;
use sandbox_runner::relay::GenerationWait;
use sandbox_runner::relay::IdentityMap;
use sandbox_runner::relay::ReadyError;
use sandbox_runner::relay::PendingThaw;
use sandbox_runner::relay::ReadyTransport;
use sandbox_runner::relay::RelayEvent;
use sandbox_runner::relay::RestoredInput;
use sandbox_runner::relay::RestoredStep;
use sandbox_runner::relay::StageOutcome;
use sandbox_runner::relay::ThawBody;
use sandbox_runner::relay::ThawMessage;
use sandbox_runner::relay::ThawMode;
use sandbox_runner::relay::ThawStep;
use sandbox_runner::relay::RESTORE_CONTROL_ID;
use sandbox_runner::startup::run_startup_command;
use sandbox_runner::startup::startup_request;
use sandbox_runner::startup::StartupCommand;
use sandbox_runner::startup::StartupCommandExit;
use sandbox_runner::startup::StartupEvent;
use sandbox_runner::wire::RawFrame;
use sandbox_runner::wire::WireProfile;

fn profile() -> WireProfile {
    WireProfile {
        max_frame_size: 4 * 1024 * 1024,
        max_bulk_payload: 1024 * 1024,
        max_bulk_window: 16 * 1024 * 1024,
        id_range_step: 1 << 24,
        max_clients: 16,
        flag_terminal: 1,
        flag_session_start: 2,
        flag_shutdown: 4,
        flag_bulk: 8,
        kind_filesystem: 1,
        kind_tcp: 2,
        flow_host_to_guest: 1,
        flow_guest_to_host: 2,
        flow_mask_guest_to_host: 2,
    }
}

fn ready(range_lease: bool, bulk: Option<Result<(), String>>) -> ReadyTransport {
    ReadyTransport { range_lease, bulk }
}

fn ready_message(range_lease: bool, bulk: Option<Result<(), String>>) -> BootMessage {
    BootMessage::Ready(Ok(ready(range_lease, bulk)))
}

fn failure(step: BootStep) -> String {
    match step {
        BootStep::Fail(error) => error.message(),
        _ => panic!("expected a failure"),
    }
}

#[test]
fn readiness_before_the_init_context_is_refused() {
    let mut relay = AgentRelay::new().with_bind_identity_map(IdentityMap::Pending, 1);
    assert!(failure(relay.wait_ready(ready_message(false, None)))
        .contains("received core.ready before init context resolution"));
}

#[test]
fn the_init_context_installs_the_identity_map() {
    let mut relay = AgentRelay::new().with_bind_identity_map(IdentityMap::Pending, 1);
    assert!(matches!(relay.wait_ready(BootMessage::Other), BootStep::Discard));
    assert!(matches!(
        relay.wait_ready(BootMessage::InitResolved(Ok((1000, 1001)))),
        BootStep::AcknowledgeInit {
            install: Some((1000, 1001))
        }
    ));
    // The map is installed once.
    assert!(matches!(
        relay.wait_ready(BootMessage::InitResolved(Ok((1, 2)))),
        BootStep::AcknowledgeInit { install: None }
    ));
    assert!(matches!(
        relay.wait_ready(ready_message(false, None)),
        BootStep::Ready {
            dual_port: false,
            close_bulk: false
        }
    ));
}

#[test]
fn no_identity_map_needs_no_init_context() {
    let mut relay = AgentRelay::new();
    assert!(matches!(
        relay.wait_ready(ready_message(true, None)),
        BootStep::Ready { .. }
    ));
    assert!(relay.leases_ranges() && !relay.is_dual_port());
    relay.install_ready_frame(b"ready".to_vec());
    assert_eq!(relay.run().ok().unwrap(), b"ready");
    assert!(relay.run().err().unwrap().message().contains("run() called before wait_ready()"));
}

#[test]
fn a_fragmented_binding_selects_both_ports() {
    let mut relay = AgentRelay::new_with_bulk(true).with_log_writer();
    assert!(relay.is_logging());
    assert!(relay.try_bind_bulk_port(b"bin", 7).ok().unwrap().is_none());
    assert_eq!(relay.try_bind_bulk_port(b"ding", 7).ok().unwrap().unwrap(), b"binding");
    relay.bound([0xa7; 16]);
    assert!(relay.try_bind_bulk_port(b"more", 7).ok().unwrap().is_none());
    assert!(matches!(
        relay.wait_ready(ready_message(true, Some(Ok(())))),
        BootStep::Ready {
            dual_port: true,
            close_bulk: false
        }
    ));
    assert!(relay.is_dual_port());
    let mut early = AgentRelay::new_with_bulk(true);
    assert!(early
        .try_bind_bulk_port(b"binding!", 7)
        .err()
        .unwrap()
        .message()
        .contains("before binding acknowledgement"));
}

#[test]
fn an_unbound_bulk_port_falls_back() {
    let mut relay = AgentRelay::new_with_bulk(true);
    assert!(matches!(
        relay.wait_ready(ready_message(true, None)),
        BootStep::Ready {
            dual_port: false,
            close_bulk: true
        }
    ));
    assert_eq!(relay.ready_wait(0).ok(), Some(10));
    assert_eq!(AgentRelay::new().ready_wait(1000).ok(), Some(179_000));
    assert_eq!(
        relay.ready_wait(180_000).err().unwrap().message(),
        "agent relay: timed out waiting for core.ready from agentd"
    );
}

#[test]
fn advertised_and_bound_ports_must_agree() {
    let bound = || {
        let mut relay = AgentRelay::new_with_bulk(true);
        relay.bound([0xa7; 16]);
        relay
    };
    assert_eq!(
        failure(bound().wait_ready(ready_message(true, None))),
        "agent relay: bound bulk port missing from core.ready"
    );
    assert_eq!(
        failure(bound().wait_ready(ready_message(false, Some(Ok(()))))),
        "agent relay: dual-port-v1 requires range-lease-v1"
    );
    assert_eq!(
        failure(bound().wait_ready(ready_message(true, Some(Err("other nonce".into()))))),
        "agent relay: other nonce"
    );
    assert_eq!(
        failure(AgentRelay::new().wait_ready(ready_message(true, Some(Ok(()))))),
        "agent relay: core.ready advertised an unbound bulk port"
    );
    assert_eq!(
        failure(bound().wait_ready(BootMessage::Undecodable { reason: "x".into() })),
        "decode frame: x"
    );
    assert_eq!(
        failure(bound().wait_ready(BootMessage::Ready(Err("x".into())))),
        "decode core.ready payload: x"
    );
    assert_eq!(
        failure(bound().wait_ready(BootMessage::InitResolved(Err("x".into())))),
        "decode init context payload: x"
    );
}

#[test]
fn a_restored_relay_is_published_late() {
    let mut relay = AgentRelay::new_deferred(false);
    relay.install_ready_frame(vec![1]);
    assert_eq!(
        relay.run().err().unwrap().message(),
        "agent relay: endpoint not published"
    );
    assert!(relay.bind_public_endpoint());
    assert!(!relay.bind_public_endpoint());
    relay.install_ready_frame(vec![1]);
    assert!(relay.run().is_ok());
    assert!(matches!(
        relay.install_restored_ready(ready(true, Some(Ok(()))), Some([0xa7; 16])),
        Err(ReadyError::MissingBulkLane)
    ));
    assert_eq!(
        ReadyError::MissingBulkLane.message(),
        "restored agent requires its captured bulk console lane"
    );
    let mut dual = AgentRelay::new_deferred(true);
    assert!(dual
        .install_restored_ready(ready(true, Some(Ok(()))), Some([0xa7; 16]))
        .ok()
        .unwrap());
    dual.clock_synchronized();
}

#[test]
fn activation_takes_every_stage_in_order() {
    let mut stage = ActivationStage::WaitPaused;
    let mut steps = 0;
    while stage != ActivationStage::Activated {
        let outcome = if stage == ActivationStage::AwaitGeneration {
            StageOutcome::Generation(GenerationWait::Processed)
        } else {
            StageOutcome::Done
        };
        stage = activate_restored(stage, outcome).ok().unwrap();
        steps += 1;
    }
    assert_eq!(steps, 9);
    let text = |stage, outcome| activate_restored(stage, outcome).err().unwrap().message();
    let failed = || StageOutcome::Failed { reason: "x".into() };
    assert_eq!(
        text(ActivationStage::WaitPaused, failed()),
        "wait for restored VM pause: x"
    );
    assert_eq!(
        text(ActivationStage::WaitPaused, StageOutcome::NotPaused),
        "restored VM did not reach its construction pause"
    );
    assert_eq!(
        text(ActivationStage::Resume, failed()),
        "resume restored VM for activation: x"
    );
    assert_eq!(text(ActivationStage::Thaw, failed()), "x");
    assert!(text(ActivationStage::InstallGeneration, StageOutcome::Unsupported)
        .contains("restored kernel lacks identity-and-clock activation"));
    for (wait, expected) in [
        (
            GenerationWait::Failed,
            "restored kernel rejected identity-and-clock activation; workloads remain frozen",
        ),
        (
            GenerationWait::Superseded,
            "restored VM Generation ID request was superseded",
        ),
        (
            GenerationWait::TimedOut,
            "restored VM Generation ID acknowledgement timed out",
        ),
        (
            GenerationWait::Gone,
            "restored VM Generation ID transport disappeared",
        ),
    ] {
        assert_eq!(
            text(ActivationStage::AwaitGeneration, StageOutcome::Generation(wait)),
            expected
        );
    }
}

#[test]
fn the_activation_record_names_its_attempt() {
    let record = restore_activation_record("attempt-7", &[0xab; 16], false);
    assert_eq!(record.attempt_id, "attempt-7");
    assert_eq!(record.vm_generation_id, "abababababababababababababababab");
    assert_eq!(record.state, "prepared");
    let mut id = [0; 16];
    id[15] = 0x1f;
    let record = restore_activation_record("attempt-7", &id, true);
    assert_eq!(record.vm_generation_id, "0000000000000000000000000000001f");
    assert_eq!(record.state, "activated");
    assert_eq!(restore_temporary_name(42), ".restore-activation.42.tmp");
}

fn control_frame(flags: u8) -> RawFrame {
    raw_frame_from(vec![0, 0, 0, 5, 0, 0, 0, 9, flags])
}

fn thaw(flags: u8, id: u32, body: ThawBody) -> ThawStep {
    thaw_restored_workload(
        &profile(),
        &control_frame(flags),
        Ok(ThawMessage { id, body }),
        &"attempt".to_string(),
    )
}

#[test]
fn a_workload_is_released_by_its_own_attempt() {
    assert!(matches!(
        thaw(0, RESTORE_CONTROL_ID, ThawBody::Thawed(Ok("attempt".into()))),
        ThawStep::Released
    ));
    assert!(matches!(
        thaw(0, 8, ThawBody::Thawed(Ok("attempt".into()))),
        ThawStep::Discard
    ));
    assert!(matches!(
        thaw(8, RESTORE_CONTROL_ID, ThawBody::Thawed(Ok("attempt".into()))),
        ThawStep::Discard
    ));
    assert!(matches!(thaw(0, RESTORE_CONTROL_ID, ThawBody::TransportCredit), ThawStep::Credit));
    for (body, expected) in [
        (
            ThawBody::Thawed(Ok("other".into())),
            "restored workload thaw belongs to another checkpoint attempt",
        ),
        (
            ThawBody::Thawed(Err("x".into())),
            "decode restored workload thaw: x",
        ),
        (
            ThawBody::CoreError(Ok("x".into())),
            "restored workload thaw rejected: x",
        ),
        (
            ThawBody::CoreError(Err("x".into())),
            "decode restored workload thaw error: x",
        ),
        (
            ThawBody::Other { name: "x".into() },
            "unexpected restored workload reply x",
        ),
    ] {
        match thaw(0, RESTORE_CONTROL_ID, body) {
            ThawStep::Fail(error) => assert_eq!(error.message(), expected),
            _ => panic!("expected a failure"),
        }
    }
    match thaw_restored_workload(
        &profile(),
        &control_frame(0),
        Err("x".into()),
        &"attempt".to_string(),
    ) {
        ThawStep::Fail(error) => assert_eq!(error.message(), "decode frame: x"),
        _ => panic!("expected a failure"),
    }
}

#[test]
fn the_thaw_request_is_sent_once() {
    let request = restored_thaw_request("attempt", 5);
    assert_eq!(request.version, 5);
    assert_eq!(request.id, u32::MAX);
    assert_eq!(request.attempt_id, "attempt");
    assert_eq!(request.mode, ThawMode::Restore);
    let mut pending = PendingThaw::new(vec![1, 2]);
    assert_eq!(pending.offer(), Some(&vec![1, 2]));
    // A full ring is offered the frame again.
    pending.offered(false);
    assert_eq!(pending.offer(), Some(&vec![1, 2]));
    assert!(pending.polls(false));
    pending.offered(true);
    assert_eq!(pending.offer(), None);
    assert!(!pending.polls(false));
    assert!(pending.polls(true));
    pending.offered(false);
    assert_eq!(pending.offer(), None);
}

#[test]
fn acknowledgements_go_before_restored_frames() {
    let wire: Vec<u8> = vec![0, 0, 0, 6, 0xff, 0xff, 0xff, 0xff, 0, 0xa0];
    let mut input = BytesMut::new();
    input.extend_from_slice(&wire);
    input.extend_from_slice(&wire[..3]);
    let ack = DisconnectAck {
        id_start: 1,
        id_end: 2,
        incarnation: 7,
    };
    let step = next_restored_step(&profile(), AckProbe::Taken(ack), &mut input);
    assert!(matches!(step, RestoredStep::Acknowledged));
    assert_eq!(input.len(), 13);
    let invalid = AckProbe::Invalid { reason: "x".into() };
    match next_restored_step(&profile(), invalid, &mut input) {
        RestoredStep::Fail(error) => {
            assert_eq!(error.message(), "restore disconnect acknowledgement: x");
        }
        _ => panic!("expected a failure"),
    }
    match next_restored_step(&profile(), AckProbe::Absent, &mut input) {
        RestoredStep::Frame(frame) => {
            assert_eq!(frame.data, wire);
            assert_eq!(frame.id, RESTORE_CONTROL_ID);
            assert_eq!(frame.flags, 0);
        }
        _ => panic!("expected a frame"),
    }
    let step = next_restored_step(&profile(), AckProbe::Absent, &mut input);
    assert!(matches!(step, RestoredStep::NeedMore));
    assert_eq!(&input[..], &wire[..3]);
    let mut short = BytesMut::new();
    short.extend_from_slice(&[0, 0, 0, 1, 0]);
    match next_restored_step(&profile(), AckProbe::Absent, &mut short) {
        RestoredStep::Fail(error) => {
            assert_eq!(error.message(), "agent relay: frame too short: 1 bytes");
        }
        _ => panic!("expected a failure"),
    }
}

#[test]
fn a_thaw_begins_at_a_frame_boundary() {
    let mut input = RestoredInput::new();
    assert!(input.control.is_empty() && input.bulk.is_empty());
    assert!(input.check_boundary().is_ok());
    input.bulk = BytesMut::from(&b"x"[..]);
    assert_eq!(
        input.check_boundary().err().unwrap().message(),
        "restored transport did not start at a complete-frame boundary"
    );
    assert_eq!(thaw_wait(5, 100, true).ok(), Some(10));
    assert_eq!(thaw_wait(95, 100, true).ok(), Some(5));
    assert_eq!(thaw_wait(5, 100, false).ok(), Some(95));
    assert_eq!(
        thaw_wait(100, 100, false).err().unwrap().message(),
        "restored workload thaw timed out"
    );
}

#[test]
fn completion_paths_preserve_errors_during_shutdown() {
    for shutdown in [false, true] {
        let exit = wait_relay_exit(RelayEvent::Reader(Ok(Err("error".into()))), shutdown).unwrap();
        assert_eq!(exit.failure.as_deref(), Some("error"));
        assert!(exit.control_writer_usable && !exit.can_observe_failure_terminals);
        let exit = wait_relay_exit(RelayEvent::Writer(Err("panic".into())), shutdown).unwrap();
        assert_eq!(
            exit.failure.as_deref(),
            Some("agent relay: control console writer task failed: panic")
        );
        assert!(!exit.control_writer_usable);
        let exit = wait_relay_exit(RelayEvent::Bulk(Err("error".into())), shutdown).unwrap();
        assert_eq!(exit.failure.as_deref(), Some("error"));
        assert!(exit.can_observe_failure_terminals);
    }
    let clean = |shutdown| wait_relay_exit(RelayEvent::Reader(Ok(Ok(()))), shutdown).unwrap();
    assert_eq!(
        clean(false).failure.as_deref(),
        Some("agent relay: console reader stopped unexpectedly")
    );
    assert_eq!(clean(true).failure, None);
    let shutdown = |signalled, sender_gone| {
        wait_relay_exit(RelayEvent::Shutdown { signalled, sender_gone }, false)
    };
    assert!(shutdown(false, false).is_none());
    assert!(shutdown(true, false).unwrap().failure.is_none());
    assert!(shutdown(false, true).is_some());
    assert!(relay_shutdown_requested(false, true));
    assert!(!relay_shutdown_requested(false, false));
}

#[test]
fn asynchronous_activation_failure_keeps_its_actual_cause() {
    let error =
        "restored kernel rejected identity-and-clock activation; workloads remain frozen".to_string();
    let saved = publish_failure(&error);
    assert_eq!(saved.message, error);
}

#[test]
fn the_stream_ends_behind_the_diagnostic() {
    let mut channel = StartupFailureChannel::new();
    assert!(channel.retained().is_none());
    channel.retain("writer");
    assert_eq!(channel.retained(), Some(&"writer"));
    assert_eq!(channel.release(), Some("writer"));
    assert_eq!(channel.release(), None);
    assert_eq!(
        telemetry_step(StartupPhase::Activating, true, true),
        TelemetryStep::ReleaseAndStop
    );
    assert_eq!(
        telemetry_step(StartupPhase::Activating, true, false),
        TelemetryStep::Stop
    );
    assert_eq!(
        telemetry_step(StartupPhase::PreparingSnapshot, false, true),
        TelemetryStep::Stop
    );
    assert_eq!(
        telemetry_step(StartupPhase::Other(1), true, true),
        TelemetryStep::Wait
    );
}

#[test]
fn reports_are_throttled_within_a_phase() {
    let mut throttle = ProgressThrottle::new(0, StartupPhase::PreparingSnapshot);
    let at = |phase, completed_bytes| StartupProgress {
        phase,
        completed_bytes,
        total_bytes: Some(10),
    };
    assert!(!throttle.report(99, at(StartupPhase::PreparingSnapshot, 1)));
    assert!(throttle.report(99, at(StartupPhase::PreparingSnapshot, 10)));
    assert!(throttle.report(99, StartupProgress::phase(StartupPhase::Other(3))));
    assert!(!throttle.report(198, StartupProgress::phase(StartupPhase::Other(3))));
    assert!(throttle.report(199, StartupProgress::phase(StartupPhase::Other(3))));
}

#[test]
fn the_startup_command_runs_without_a_terminal() {
    let request = startup_request(StartupCommand {
        cmd: "sh".into(),
        args: vec!["-c".into()],
        env: vec!["A=1".into()],
        cwd: Some("/".into()),
        user: None,
    });
    assert_eq!(request.cmd, "sh");
    assert_eq!(request.args, ["-c"]);
    assert_eq!(request.env, ["A=1"]);
    assert_eq!((request.tty, request.rows, request.cols, request.rlimits), (false, 24, 80, 0));
    let outcome = |event: StartupEvent<u8>| run_startup_command(event);
    assert!(outcome(StartupEvent::Other).is_none());
    assert!(matches!(
        outcome(StartupEvent::Exited(Ok(3))),
        Some(Ok(StartupCommandExit::Exited(3)))
    ));
    assert!(matches!(
        outcome(StartupEvent::Failed(Ok(7))),
        Some(Ok(StartupCommandExit::Failed(7)))
    ));
    for (event, text) in [
        (StartupEvent::ConnectFailed("x".into()), "startup command connect: x"),
        (StartupEvent::DispatchFailed("x".into()), "startup command dispatch: x"),
        (StartupEvent::Exited(Err("x".into())), "startup command exit: x"),
        (StartupEvent::Failed(Err("x".into())), "startup command failure: x"),
        (
            StartupEvent::Ended,
            "startup command stream ended before terminal event",
        ),
    ] {
        assert_eq!(outcome(event).unwrap().err().unwrap(), text);
    }
}
