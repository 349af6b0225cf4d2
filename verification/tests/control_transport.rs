//! The control transports: JSON lines, framed sessions and the dispatcher.

use std::sync::Arc;

use sandbox_runner::control::dispatch::framed;
use sandbox_runner::control::dispatch::framed_reply;
use sandbox_runner::control::dispatch::Budget;
use sandbox_runner::control::dispatch::Dispatcher;
use sandbox_runner::control::dispatch::FramedDecision;
use sandbox_runner::control::dispatch::InFlight;
use sandbox_runner::control::dispatch::InvalidExchange;
use sandbox_runner::control::dispatch::Lease;
use sandbox_runner::control::dispatch::RequestHead;
use sandbox_runner::control::dispatch::MAX_QUEUED;
use sandbox_runner::control::dispatch::RUNTIME_BYTES;
use sandbox_runner::control::handler::Reply;
use sandbox_runner::control::legacy::accept_command;
use sandbox_runner::control::legacy::accept_envelope;
use sandbox_runner::control::legacy::attach_branch_memory;
use sandbox_runner::control::legacy::busy_response;
use sandbox_runner::control::legacy::line_text;
use sandbox_runner::control::legacy::request_line;
use sandbox_runner::control::legacy::response_line;
use sandbox_runner::control::legacy::route_line;
use sandbox_runner::control::legacy::LineRoute;
use sandbox_runner::control::legacy::ReceivedMemory;
use sandbox_runner::control::model::ControlCapabilities;
use sandbox_runner::control::model::ControlEnvelope;
use sandbox_runner::control::model::ControlRequest;
use sandbox_runner::control::model::ErrorEffect;
use sandbox_runner::control::server::check_hello;
use sandbox_runner::control::server::control_frame;
use sandbox_runner::control::server::frame_charge;
use sandbox_runner::control::server::frame_length;
use sandbox_runner::control::server::select_parser;
use sandbox_runner::control::server::submit_request;
use sandbox_runner::control::server::FramedSession;
use sandbox_runner::control::server::Opening;
use sandbox_runner::control::server::Submission;
use tokio::sync::Semaphore;

type Request = ControlRequest<&'static str>;

fn branch_request() -> Request {
    Request::BranchCreateMemfd {
        guest_flush: None,
        record_integrity: false,
        branch_id: "branch_test".into(),
        child_name: "child".into(),
        memory_cache_dir: "/cache".into(),
        backing: None,
    }
}

/// What a runtime without memory descriptors offers.
fn old_capabilities() -> ControlCapabilities {
    ControlCapabilities {
        cpu_resize: false,
        memory_resize: false,
        secrets_update: false,
        checkpoint_create: false,
        disk_checkpoint_create: false,
        branch_create: true,
        optional_disk_integrity: false,
        guest_flush_policy: false,
        branch_memfd: false,
        disk_compact: false,
        disk_compact_owned: false,
        root_disk_grow: false,
        pause_resume: false,
    }
}

#[test]
fn descriptor_operation_rejects_missing_transport_ownership() {
    assert!(attach_branch_memory(branch_request(), None, true).is_err());
    let old = old_capabilities();
    assert!(!old.branch_memfd);
}

#[test]
fn descriptor_operation_requires_transport_ownership() {
    assert!(attach_branch_memory(branch_request(), None, true).is_err());
    let old = old_capabilities();
    assert!(!old.branch_memfd);
}

fn fresh_memory() -> Option<ReceivedMemory<&'static str>> {
    Some(ReceivedMemory {
        memory: "memory",
        check: Ok(()),
    })
}

#[test]
fn only_branch_requests_accept_fresh_memory() {
    let branch = attach_branch_memory(branch_request(), fresh_memory(), true)
        .ok()
        .unwrap();
    assert!(matches!(
        branch,
        Request::BranchCreateMemfd {
            backing: Some(_),
            ..
        }
    ));
    let other = Request::Capabilities;
    assert!(attach_branch_memory(other, fresh_memory(), true).is_err());
}

#[test]
fn refused_lines_say_why() {
    let text = |result: Result<Request, _>| -> (Option<String>, Option<String>) {
        let response: sandbox_runner::control::model::ControlResponse = result.err().unwrap();
        (response.error_code, response.error)
    };
    assert_eq!(
        text(accept_command(Ok(branch_request()), None, true)),
        (None, Some("missing branch memory descriptor".into()))
    );
    assert_eq!(
        text(accept_command(Ok(branch_request()), fresh_memory(), false)),
        (None, Some("memory descriptors require Linux".into()))
    );
    assert_eq!(
        text(accept_command(Ok(Request::Resume), fresh_memory(), true)),
        (None, Some("unexpected control descriptor".into()))
    );
    let used = Some(ReceivedMemory {
        memory: "memory",
        check: Err("not empty".into()),
    });
    assert_eq!(
        text(accept_command(Ok(branch_request()), used, true)),
        (None, Some("not empty".into()))
    );
    assert_eq!(
        text(accept_command(Err("x".into()), None, true)),
        (
            Some("invalid_request".into()),
            Some("invalid control request: x".into())
        )
    );
    let envelope = |command| ControlEnvelope::<&'static str> {
        protocol_version: 1,
        request_id: "r".into(),
        operation_id: None,
        runtime_boot_id: "b".into(),
        expected_revision: None,
        command,
    };
    assert!(accept_envelope(Ok(envelope(Request::Pause)), false).is_ok());
    for refused in [
        accept_envelope(Ok(envelope(Request::Pause)), true),
        accept_envelope(Ok(envelope(branch_request())), false),
    ] {
        assert_eq!(
            refused.err().unwrap().error.as_deref(),
            Some("descriptor handoff requires a one-shot branch request")
        );
    }
    assert_eq!(
        busy_response().error.as_deref(),
        Some("control runtime is busy")
    );
    let malformed = accept_envelope::<()>(Err("x".into()), false).err().unwrap();
    assert_eq!(malformed.error_code.as_deref(), Some("invalid_envelope"));
    assert_eq!(malformed.error.as_deref(), Some("invalid control envelope: x"));
}

#[test]
fn lines_are_trimmed_and_routed() {
    let line = request_line(b' ', &" \t\u{2003}{\"op\":\"capabilities\"} \r\n".as_bytes().to_vec());
    let text = line_text(&line).unwrap();
    assert_eq!(text, "{\"op\":\"capabilities\"}");
    assert!(matches!(route_line(&text), LineRoute::Command));
    assert!(matches!(
        route_line("{\"protocol_version\":1}"),
        LineRoute::Envelope
    ));
    assert!(matches!(route_line("[1]"), LineRoute::Command));
    match route_line("{") {
        LineRoute::Refused(response) => {
            assert_eq!(response.error_code.as_deref(), Some("invalid_json"));
            assert!(response
                .error
                .unwrap()
                .starts_with("invalid control request: EOF while parsing"));
        }
        _ => panic!("expected a refusal"),
    }
    assert_eq!(request_line(b'\n', &b"{}".to_vec()), b"\n");
    assert_eq!(line_text(b"\xff"), None);
    assert_eq!(response_line(b"{}".to_vec()), b"{}\n");
}

#[test]
fn the_first_byte_pins_the_parser() {
    assert_eq!(select_parser(None, false), Opening::Probe);
    assert_eq!(select_parser(Some(b'{'), true), Opening::Json);
    assert_eq!(select_parser(Some(0), false), Opening::Framed);
    assert_eq!(select_parser(Some(0), true), Opening::Refused);
    let max = 4 * 1024 * 1024;
    assert_eq!(frame_length(&[0, 0, 0, 5], max), Ok(5));
    assert_eq!(frame_length(&[0, 0, 0, 4], max), Err(InvalidExchange));
    assert_eq!(
        frame_length(&(max + 1).to_be_bytes(), max),
        Err(InvalidExchange)
    );
    // A JSON object is no frame prefix.
    assert_eq!(frame_length(b"{\"op", max), Err(InvalidExchange));
    assert_eq!(frame_charge(5), 9);
    let frame = control_frame(&vec![0, 0, 1, 2, 3, 9, 8]);
    assert_eq!((frame.id, frame.flags), (258, 3));
    assert_eq!(frame.body, [9, 8]);
}

fn head(t: &str) -> RequestHead {
    RequestHead { v: 1, t: t.into() }
}

#[test]
fn nothing_precedes_the_welcome() {
    assert!(check_hello(0, 0, &head("control.hello"), true).is_none());
    for refused in [
        check_hello(17, 0, &head("control.hello"), true),
        check_hello(0, 1, &head("control.hello"), true),
        check_hello(0, 0, &head("control.cpu.target"), true),
        check_hello(0, 0, &RequestHead { v: 2, t: "control.hello".into() }, true),
    ] {
        let error = refused.unwrap();
        assert_eq!(error.code, "invalid_handshake");
        assert_eq!(error.message, "expected control hello");
    }
    assert_eq!(
        check_hello(0, 0, &head("control.hello"), false).unwrap().message,
        "invalid control hello"
    );
}

#[test]
fn bad_operations_are_answered_before_dispatch() {
    for (flags, name, known, valid, expected) in [
        (2, "control.cpu.target", true, true, "invalid_request"),
        (0, "future.control", false, true, "unsupported_operation"),
        (0, "control.memory.target", true, false, "invalid_request"),
    ] {
        match framed(Some(head(name)), flags, 1, known, valid) {
            FramedDecision::Answer(Reply::Error(error)) => {
                assert_eq!(error.code, expected);
                assert_eq!(error.effect, ErrorEffect::Untouched);
            }
            _ => panic!("expected an error"),
        }
    }
    assert!(matches!(framed(None, 0, 1, true, true), FramedDecision::Close));
    assert!(matches!(
        framed(Some(head("control.hello")), 0, 1, true, true),
        FramedDecision::Close
    ));
    assert!(matches!(
        framed(Some(head("control.capabilities")), 0, 1, true, true),
        FramedDecision::Dispatch
    ));
    let frame = framed_reply(&b"body".to_vec(), 7, 100).unwrap();
    assert_eq!(frame, b"\0\0\0\x09\0\0\0\x07\x01body");
    assert!(framed_reply(&vec![0; 100], 7, 100).is_err());
}

#[test]
fn dispatch_is_fifo_and_round_robin() {
    let mut dispatcher = Dispatcher::new();
    for value in 0..6 {
        dispatcher.submit(1, value).unwrap();
    }
    for value in 100..103 {
        dispatcher.submit(2, value).unwrap();
    }
    let mut calls = Vec::new();
    while let Some(job) = dispatcher.next() {
        calls.push(job);
    }
    assert_eq!(calls, [0, 100, 1, 101, 2, 102, 3, 4, 5]);
}

#[test]
fn a_full_queue_is_busy() {
    let mut dispatcher = Dispatcher::new();
    for value in 0..MAX_QUEUED {
        dispatcher.submit(u64::MAX, value).unwrap();
    }
    assert_eq!(dispatcher.submit(3, 8), Err(8));
    match submit_request(&mut dispatcher, 3, 8) {
        Submission::Busy { job, reply } => {
            assert_eq!(job, 8);
            assert!(matches!(reply, Reply::Error(error) if error.code == "busy"));
        }
        Submission::Queued => panic!("expected a full queue"),
    }
    dispatcher.cancel(u64::MAX);
    assert!(dispatcher.next().is_none());
    assert!(matches!(
        submit_request(&mut dispatcher, 3, 8),
        Submission::Queued
    ));
}

#[test]
fn a_completed_id_can_be_reused() {
    let capacity = Arc::new(Semaphore::new(1));
    let bytes = Arc::new(Semaphore::new(1 << 20));
    let runtime = Arc::new(Semaphore::new(RUNTIME_BYTES));
    let mut session = FramedSession::new(capacity.clone(), bytes.clone(), 1024);
    for _ in 0..100 {
        let mut admission = session.take_in(7, &runtime).ok().unwrap();
        assert_eq!(capacity.available_permits(), 0);
        assert_eq!(runtime.available_permits(), RUNTIME_BYTES - 1024);
        // Neither a duplicate ID nor an excessive request gets in.
        assert!(session.take_in(7, &runtime).is_err());
        assert!(session.take_in(8, &runtime).is_err());
        session.terminal_admitted(&mut admission.lease);
    }
    assert!(session.take_in(0, &runtime).is_err());
    assert_eq!(capacity.available_permits(), 1);
    assert_eq!(bytes.available_permits(), 1 << 20);
    assert_eq!(runtime.available_permits(), RUNTIME_BYTES);
}

#[test]
fn reply_capacity_is_reserved_first() {
    let connection = Arc::new(Semaphore::new(100));
    let runtime = Arc::new(Semaphore::new(99));
    assert!(Budget::reserve_reply(&connection, &runtime, 100).is_err());
    assert_eq!(connection.available_permits(), 100);
    assert_eq!(runtime.available_permits(), 99);
    let held = Budget::reserve_reply(&connection, &runtime, 99).ok().unwrap();
    assert_eq!(connection.available_permits(), 1);
    assert_eq!(runtime.available_permits(), 0);
    drop(held);
    assert_eq!(runtime.available_permits(), 99);
    assert!(Budget::from_parts(None, None).is_err());
    let mut session = FramedSession::new(Arc::new(Semaphore::new(4)), connection, 100);
    assert!(session.take_in(1, &runtime).is_err());
    // The ID of the refused request is free again.
    let wide = Arc::new(Semaphore::new(1000));
    let admission = session.take_in(1, &wide).ok().unwrap();
    // A lease whose reply has no capacity gives its ID back.
    assert!(session.grant(admission.lease, Err(InvalidExchange)).is_err());
    drop(admission.output_budget);
    let admission = session.take_in(1, &wide).ok().unwrap();
    assert_eq!(wide.available_permits(), 900);
    let admission = session
        .grant(admission.lease, Ok(admission.output_budget))
        .ok()
        .unwrap();
    assert_eq!(wide.available_permits(), 900);
    drop(admission);
    assert_eq!(wide.available_permits(), 1000);
    assert_eq!(
        InvalidExchange.message(),
        "invalid or unavailable control exchange"
    );
}

#[test]
fn a_lease_needs_a_permit_and_a_free_id() {
    let capacity = Arc::new(Semaphore::new(2));
    let mut ids = InFlight::new();
    let mut lease = Lease::acquire(1, &mut ids, &capacity).ok().unwrap();
    assert!(Lease::acquire(1, &mut ids, &capacity).is_err());
    assert!(Lease::with_permit(2, &mut ids, None).is_err());
    lease.terminal_admitted(&mut ids);
    assert!(Lease::acquire(1, &mut ids, &capacity).is_ok());
}
