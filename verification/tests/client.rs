//! The client boundary: envelopes, leases, frames and the end of a client.

use sandbox_runner::admission::accept_client;
use sandbox_runner::admission::admission_step;
use sandbox_runner::admission::client_handshake;
use sandbox_runner::admission::is_unused_incarnation;
use sandbox_runner::admission::random_unused_client_incarnation;
use sandbox_runner::admission::Accepted;
use sandbox_runner::admission::AdmissionStage;
use sandbox_runner::admission::SlotTable;
use sandbox_runner::client::forward_step;
use sandbox_runner::client::is_local_frame;
use sandbox_runner::client::ClientFrame;
use sandbox_runner::client::ClientMessage;
use sandbox_runner::client::ClientRequest;
use sandbox_runner::client::ClientRoute;
use sandbox_runner::client::ClientSession;
use sandbox_runner::client::ForwardStage;
use sandbox_runner::client::FramePlan;
use sandbox_runner::client::HangUp;
use sandbox_runner::client::LocalMessage;
use sandbox_runner::client::LocalStep;
use sandbox_runner::client::SharedRecord;
use sandbox_runner::disconnect::awaits_terminals;
use sandbox_runner::disconnect::begin_disconnect;
use sandbox_runner::disconnect::disconnect_step;
use sandbox_runner::disconnect::failure_step;
use sandbox_runner::disconnect::operations_to_fail;
use sandbox_runner::disconnect::DisconnectAck;
use sandbox_runner::disconnect::DisconnectError;
use sandbox_runner::disconnect::DisconnectStage;
use sandbox_runner::disconnect::FailedOperation;
use sandbox_runner::disconnect::FailureStep;
use sandbox_runner::disconnect::OpenOperations;
use sandbox_runner::disconnect::PendingDisconnects;
use sandbox_runner::envelope::inspect;
use sandbox_runner::envelope::Rejection;
use sandbox_runner::envelope::MAX_DEPTH;
use sandbox_runner::frames::encode_bulk_header;
use sandbox_runner::frames::raw_frame_from;
use sandbox_runner::order::ControlOrder;
use sandbox_runner::wire::BulkFlow;
use sandbox_runner::wire::BulkKind;
use sandbox_runner::wire::RawFrame;
use sandbox_runner::wire::WireProfile;

fn profile() -> WireProfile {
    WireProfile {
        max_frame_size: 4 * 1024 * 1024,
        max_bulk_payload: 1024 * 1024,
        max_bulk_window: 16 * 1024 * 1024,
        id_range_step: 1 << 24,
        max_clients: 16,
        flag_terminal: 1,
        flag_session_start: 2,
        flag_shutdown: 4,
        flag_bulk: 8,
        kind_filesystem: 1,
        kind_tcp: 2,
        flow_host_to_guest: 1,
        flow_guest_to_host: 2,
        flow_mask_guest_to_host: 2,
    }
}

/// An envelope: the map of a version, a name and a payload of bytes.
fn envelope(name: &str, payload: &[u8]) -> Vec<u8> {
    let mut bytes = b"\xa3\x61v\x01\x61t\x78".to_vec();
    bytes.push(name.len() as u8);
    bytes.extend_from_slice(name.as_bytes());
    bytes.extend_from_slice(b"\x61p\x5a");
    bytes.extend_from_slice(&(payload.len() as u32).to_be_bytes());
    bytes.extend_from_slice(payload);
    bytes
}

#[test]
fn permits_unknown_names_and_opaque_payloads() {
    // The inner payload need not be valid CBOR for a transparent relay.
    let mut bytes = envelope("core.future.operation", &[0xff; 1024 * 1024]);
    assert_eq!(inspect(&bytes), Ok(()));
    // Append an unknown, nested field to the outer map.
    assert_eq!(bytes[0], 0xa3);
    bytes[0] = 0xa4;
    bytes.extend_from_slice(b"\x61x\xbf\x61a\x9f\x01\x02\xff\xff");
    assert_eq!(inspect(&bytes), Ok(()));
}

#[test]
fn checks_chunked_keys_and_names_without_prefix_false_positives() {
    for bytes in [
        b"\xa1\x61t\x7f\x63con\x65trol.\xff".as_slice(),
        b"\xbf\x7f\x60\x61t\x60\xff\x68control.\xff",
        b"\xd9\xd9\xf7\xa1\x61t\x68control.",
    ] {
        assert_eq!(inspect(bytes), Err(Rejection::ControlNamespace));
    }
    for name in ["control", "controls.x", "Control.x", "core.control.x", ""] {
        assert_eq!(inspect(&envelope(name, b"\xf6")), Ok(()));
    }
    assert_eq!(inspect(b"\xa1\x61t\x7f\x63con\x64trol\xff"), Ok(()));
}

#[test]
fn rejects_ambiguous_truncated_and_excessively_nested_envelopes() {
    for bytes in [
        b"\xa2\x61t\x64core\x61t\x64core".as_slice(),
        b"\xa1\x61t\x01",
        b"\xa0",
        b"\xa1\x61t\x61\xff",
        b"\xa1\x61t\x7f\x41t\xff",
        b"\xbf\x61t\x64core",
        b"\xa2\x61t\x64core\x61x\xbf\x01\xff",
    ] {
        assert_eq!(inspect(bytes), Err(Rejection::InvalidEnvelope));
    }
    let valid = envelope("core.exec.stdin", b"\xf6");
    for end in 0..valid.len() {
        assert_eq!(inspect(&valid[..end]), Err(Rejection::InvalidEnvelope));
    }
    let mut trailing = valid.clone();
    trailing.push(0);
    assert_eq!(inspect(&trailing), Err(Rejection::InvalidEnvelope));
    let mut deep = b"\xa2\x61t\x64core\x61x".to_vec();
    deep.extend(std::iter::repeat_n(0x81, MAX_DEPTH + 1));
    deep.push(0);
    assert_eq!(inspect(&deep), Err(Rejection::InvalidEnvelope));
}

#[test]
fn nesting_within_the_bound_is_skipped() {
    let mut nested = b"\xa2\x61t\x64core\x61x".to_vec();
    nested.extend(std::iter::repeat_n(0x81, 200));
    nested.push(0);
    assert_eq!(inspect(&nested), Ok(()));
    // A tag stands before a key, and a float has a head of nine bytes.
    assert_eq!(
        inspect(b"\xa2\xc1\x61t\x64core\x61x\xfb\x40\x09\x21\xfb\x54\x44\x2d\x18"),
        Ok(())
    );
    assert_eq!(inspect(b"\x80"), Err(Rejection::InvalidEnvelope));
    assert_eq!(inspect(b""), Err(Rejection::InvalidEnvelope));
}

fn frame(id: u32, flags: u8, body: &[u8]) -> RawFrame {
    let mut wire = (5 + body.len() as u32).to_be_bytes().to_vec();
    wire.extend_from_slice(&id.to_be_bytes());
    wire.push(flags);
    wire.extend_from_slice(body);
    raw_frame_from(wire)
}

fn message(request: ClientRequest) -> Option<ClientMessage> {
    Some(ClientMessage {
        version: 3,
        request,
        data_credit: false,
    })
}

fn request(id: u32, flags: u8, name: &str, request: ClientRequest) -> ClientFrame {
    ClientFrame {
        frame: frame(id, flags, &envelope(name, b"\xf6")),
        message: message(request),
        shared: None,
    }
}

fn record(id: u32, kind: BulkKind, flow: BulkFlow, payload: &[u8]) -> ClientFrame {
    let mut wire = encode_bulk_header(&profile(), id, kind, flow, 0, payload.len());
    wire.extend_from_slice(payload);
    ClientFrame {
        frame: raw_frame_from(wire),
        message: None,
        shared: None,
    }
}

fn session(dual_port: bool) -> ClientSession {
    ClientSession::new(profile(), 100, 200, Some(77), dual_port)
}

fn hang_up(plan: FramePlan) -> HangUp {
    match plan {
        FramePlan::HangUp(reason) => reason,
        _ => panic!("expected to hang up"),
    }
}

#[test]
fn control_names_never_reach_the_guest() {
    for name in [
        "control.capabilities",
        "control.memory.state",
        "control.memory.target",
        "control.cpu.state",
        "control.cpu.target",
        "control.secrets.update",
        "control.future",
    ] {
        for flags in [0, 2, 4, 1] {
            let plan = session(true).plan_frame(request(101, flags, name, ClientRequest::Other), false);
            assert_eq!(hang_up(plan), HangUp::Envelope(Rejection::ControlNamespace));
        }
    }
    let truncated = ClientFrame {
        frame: frame(101, 0, b"\xa1"),
        message: None,
        shared: None,
    };
    assert_eq!(
        hang_up(session(true).plan_frame(truncated, false)),
        HangUp::Envelope(Rejection::InvalidEnvelope)
    );
}

#[test]
fn frames_outside_the_lease_end_the_connection() {
    let plan = session(true).plan_frame(request(200, 0, "core.x", ClientRequest::Other), false);
    assert_eq!(hang_up(plan), HangUp::OutOfRange);
    let plan = session(true).plan_frame(request(101, 9, "core.x", ClientRequest::Other), false);
    assert_eq!(hang_up(plan), HangUp::InvalidFlags);
    // A shutdown comes without an owner, and without a body.
    let shutdown = ClientFrame {
        frame: frame(0, 4, b""),
        message: None,
        shared: None,
    };
    match session(true).plan_frame(shutdown, false) {
        FramePlan::Forward(forward) => {
            assert!(forward.shutdown);
            match forward.route {
                ClientRoute::Control(write) => assert_eq!(write.order, ControlOrder::GlobalFence),
                _ => panic!("a shutdown is control traffic"),
            }
        }
        _ => panic!("a shutdown passes"),
    }
}

/// The stages of a forwarded frame, where `failing` does not succeed.
fn stages(plan: FramePlan, failing: Option<ForwardStage>) -> Vec<ForwardStage> {
    let FramePlan::Forward(forward) = plan else {
        panic!("expected to pass");
    };
    let mut stages = vec![forward.first_stage()];
    loop {
        let stage = stages[stages.len() - 1];
        if matches!(stage, ForwardStage::Forwarded | ForwardStage::HungUp) {
            return stages;
        }
        let succeeded = failing != Some(stage);
        stages.push(forward_step(stage, forward.purge, forward.shutdown, succeeded));
    }
}

#[test]
fn a_shutdown_is_announced_behind_its_frame() {
    let shutdown = || ClientFrame {
        frame: frame(0, 4, b""),
        message: None,
        shared: None,
    };
    assert_eq!(
        stages(session(true).plan_frame(shutdown(), false), None),
        [
            ForwardStage::TrackSession,
            ForwardStage::Route,
            ForwardStage::NotifyShutdown,
            ForwardStage::Forwarded,
        ]
    );
    // A frame that could not be queued announces nothing.
    assert_eq!(
        stages(
            session(true).plan_frame(shutdown(), false),
            Some(ForwardStage::Route)
        ),
        [
            ForwardStage::TrackSession,
            ForwardStage::Route,
            ForwardStage::HungUp,
        ]
    );
    let exec = request(101, 2, "core.exec", ClientRequest::ExecRequest { tty: true });
    assert_eq!(
        stages(session(true).plan_frame(exec, false), None),
        [
            ForwardStage::Register,
            ForwardStage::TrackSession,
            ForwardStage::Route,
            ForwardStage::Forwarded,
        ]
    );
    assert_eq!(
        forward_step(ForwardStage::Register, true, false, true),
        ForwardStage::PurgeScheduler
    );
    assert_eq!(
        forward_step(ForwardStage::PurgeScheduler, true, false, true),
        ForwardStage::PurgeMerger
    );
    assert_eq!(
        forward_step(ForwardStage::PurgeMerger, true, false, false),
        ForwardStage::HungUp
    );
}

#[test]
fn every_prefix_and_extension_of_an_envelope_is_refused() {
    for valid in [
        envelope("core.exec.stdin", b"\xf6"),
        b"\xbf\x61t\x7f\x64core\xff\x61x\x9f\x01\xff\xff".to_vec(),
        b"\xd9\xd9\xf7\xa2\x61x\xa1\x01\x82\x02\x03\x61t\x64core".to_vec(),
    ] {
        assert_eq!(inspect(&valid), Ok(()));
        for end in 0..valid.len() {
            assert_eq!(inspect(&valid[..end]), Err(Rejection::InvalidEnvelope));
        }
        for tail in [&b"\x00"[..], b"\xff", b"\xa1\x61t\x64core"] {
            let longer = [&valid[..], tail].concat();
            assert_eq!(inspect(&longer), Err(Rejection::InvalidEnvelope));
        }
    }
}

#[test]
fn a_paused_sandbox_answers_new_work() {
    let exec = || request(101, 2, "core.exec", ClientRequest::ExecRequest { tty: true });
    match session(true).plan_frame(exec(), true) {
        FramePlan::RejectPaused { id, version } => assert_eq!((id, version), (101, 3)),
        _ => panic!("expected a rejection"),
    }
    let mut unknown = exec();
    unknown.message = None;
    assert_eq!(
        hang_up(session(true).plan_frame(unknown, true)),
        HangUp::UndecodableWhilePaused
    );
    match session(true).plan_frame(exec(), false) {
        FramePlan::Forward(forward) => {
            assert!(forward.register && !forward.purge);
            assert_eq!(forward.start_session, Some(true));
        }
        _ => panic!("expected to pass"),
    }
    match session(false).plan_frame(exec(), false) {
        FramePlan::Forward(forward) => assert!(!forward.register),
        _ => panic!("expected to pass"),
    }
}

#[test]
fn raw_records_follow_their_operation() {
    let fs = BulkKind::Filesystem;
    let mut session = session(true);
    let open = || request(101, 2, "core.fs", ClientRequest::FsRequest { bulk: true });
    let down = BulkFlow::HostToGuest;
    assert_eq!(
        hang_up(session.plan_frame(record(101, fs, down, b"abc"), false)),
        HangUp::NoMatchingOperation
    );
    match session.plan_frame(open(), false) {
        FramePlan::Forward(forward) => assert_eq!(forward.opened, Some(fs)),
        _ => panic!("expected to pass"),
    }
    assert_eq!(session.open_bulk(), 1);
    assert_eq!(session.bulk_operations(), [(101, fs)]);
    assert_eq!(
        hang_up(session.plan_frame(open(), false)),
        HangUp::DuplicateBulk
    );
    match session.plan_frame(record(101, fs, down, b"abc"), false) {
        FramePlan::Forward(forward) => match forward.route {
            ClientRoute::Bulk { write, charged } => {
                assert_eq!((write.id, write.incarnation, write.payload_len), (101, 77, 3));
                assert_eq!(charged, 21 + 3 + 16);
            }
            _ => panic!("a record takes the bulk lane"),
        },
        _ => panic!("expected to pass"),
    }
    assert_eq!(
        hang_up(session.plan_frame(record(101, BulkKind::Tcp, down, b"abc"), false)),
        HangUp::NoMatchingOperation
    );
    assert_eq!(
        hang_up(session.plan_frame(record(101, fs, BulkFlow::GuestToHost, b"abc"), false)),
        HangUp::GuestToHostRecord
    );
    let malformed = ClientFrame {
        frame: frame(101, 8, b"\x09"),
        message: None,
        shared: None,
    };
    assert!(matches!(
        hang_up(session.plan_frame(malformed, false)),
        HangUp::MalformedRecord(_)
    ));
    match session.plan_frame(request(101, 0, "core.bulk.cancel", ClientRequest::BulkCancel), false) {
        FramePlan::Forward(forward) => assert!(forward.purge),
        _ => panic!("expected to pass"),
    }
    session.close_bulk(101);
    assert_eq!(session.open_bulk(), 0);
    session.plan_frame(open(), false);
    session.registration_failed(101, Some(fs));
    assert_eq!(session.open_bulk(), 0);
}

#[test]
fn the_excess_operation_is_answered() {
    let mut session = session(true);
    for id in 100..164 {
        session.plan_frame(
            request(id, 2, "core.tcp", ClientRequest::TcpConnect { bulk: true }),
            false,
        );
    }
    match session.plan_frame(
        request(170, 2, "core.tcp", ClientRequest::TcpConnect { bulk: true }),
        false,
    ) {
        FramePlan::RejectBulkOpen { id, kind, version } => {
            assert_eq!((id, kind, version), (170, BulkKind::Tcp, 3))
        }
        _ => panic!("expected a rejection"),
    }
}

fn shared(id: u32, payload: Vec<u8>) -> ClientFrame {
    ClientFrame {
        frame: RawFrame {
            id,
            flags: 8,
            data: vec![],
        },
        message: None,
        shared: Some(SharedRecord {
            kind: BulkKind::Tcp,
            flow: BulkFlow::HostToGuest,
            offset: 9,
            payload,
        }),
    }
}

#[test]
fn shared_records_become_ordinary_frames() {
    let mut session = session(false);
    session.plan_frame(
        request(101, 2, "core.tcp", ClientRequest::TcpConnect { bulk: true }),
        false,
    );
    match session.plan_frame(shared(101, b"payload".to_vec()), false) {
        FramePlan::Forward(forward) => match forward.route {
            ClientRoute::Control(write) => {
                let mut wire = encode_bulk_header(
                    &profile(),
                    101,
                    BulkKind::Tcp,
                    BulkFlow::HostToGuest,
                    9,
                    7,
                );
                wire.extend_from_slice(b"payload");
                assert_eq!(write.data, wire);
                assert!(write.uses_data_credit);
                assert_eq!(write.order, ControlOrder::TcpInputData(101));
            }
            _ => panic!("the combined transport has one lane"),
        },
        _ => panic!("expected to pass"),
    }
    assert_eq!(
        hang_up(session.plan_frame(shared(101, vec![]), false)),
        HangUp::NotEncodable
    );
    assert_eq!(
        hang_up(session.plan_frame(shared(101, vec![0; 1024 * 1024 + 1]), false)),
        HangUp::NotEncodable
    );
}

#[test]
fn a_local_upgrade_comes_first_or_not_at_all() {
    assert!(is_local_frame(&frame(0, 0, b"")));
    assert!(!is_local_frame(&frame(0, 4, b"")) && !is_local_frame(&frame(5, 0, b"")));
    let mut fresh = session(true);
    assert_eq!(fresh.local_frame(LocalMessage::BulkRelease), LocalStep::HangUp);
    assert_eq!(fresh.local_frame(LocalMessage::UpgradeRequest), LocalStep::Upgrade);
    fresh.local_upgraded();
    assert_eq!(fresh.local_frame(LocalMessage::UpgradeRequest), LocalStep::HangUp);
    assert_eq!(fresh.local_frame(LocalMessage::BulkRelease), LocalStep::Release);
    assert_eq!(fresh.local_frame(LocalMessage::BulkRef), LocalStep::Receive);
    assert_eq!(fresh.local_frame(LocalMessage::Malformed), LocalStep::HangUp);
    let mut late = session(true);
    assert_eq!(late.local_frame(LocalMessage::BulkRef), LocalStep::HangUp);
    assert_eq!(late.local_frame(LocalMessage::UpgradeRequest), LocalStep::HangUp);
}

#[test]
fn slots_are_handed_out_in_order() {
    let profile = profile();
    let mut slots = SlotTable::new(&profile);
    assert_eq!(
        accept_client(&profile, &mut slots, true, None),
        Accepted::Stalled
    );
    assert_eq!(
        accept_client(&profile, &mut slots, false, Some(true)),
        Accepted::Stalled
    );
    for expected in 0..16 {
        match accept_client(&profile, &mut slots, false, Some(false)) {
            Accepted::Slot { slot, id_start, id_end } => {
                assert_eq!(slot, expected);
                assert!(id_start < id_end && id_start >> 24 == slot);
            }
            other => panic!("expected a slot: {other:?}"),
        }
    }
    assert_eq!(
        accept_client(&profile, &mut slots, false, None),
        Accepted::Full
    );
    slots.release(5);
    assert_eq!(slots.allocate(), Some(5));
    assert_eq!(slots.allocate(), None);
}

#[test]
fn admission_frees_only_what_the_guest_never_saw() {
    for (stage, leased, succeeded, next) in [
        (AdmissionStage::DuplicateSocket, true, true, AdmissionStage::EstablishLease),
        (AdmissionStage::DuplicateSocket, false, true, AdmissionStage::WriteHandshake),
        (AdmissionStage::DuplicateSocket, true, false, AdmissionStage::ReleaseSlot),
        (AdmissionStage::EstablishLease, true, true, AdmissionStage::WriteHandshake),
        (AdmissionStage::EstablishLease, true, false, AdmissionStage::ReleaseSlot),
        (AdmissionStage::WriteHandshake, true, true, AdmissionStage::Registered),
        (AdmissionStage::WriteHandshake, true, false, AdmissionStage::Disconnect),
        (AdmissionStage::Registered, true, false, AdmissionStage::Registered),
    ] {
        assert_eq!(admission_step(stage, leased, succeeded), next);
    }
    assert_eq!(
        client_handshake(0x0102_0304, 0x0506_0708, &b"ready".to_vec()),
        b"\x01\x02\x03\x04\x05\x06\x07\x08ready"
    );
}

#[test]
fn incarnations_are_drawn_afresh() {
    let none = PendingDisconnects::<()>::new();
    assert!(!is_unused_incarnation(0, &vec![], &vec![], &none));
    assert!(!is_unused_incarnation(5, &vec![4, 5], &vec![], &none));
    assert!(!is_unused_incarnation(5, &vec![], &vec![5], &none));
    assert!(is_unused_incarnation(5, &vec![4], &vec![6], &none));
    let mut pending = PendingDisconnects::new();
    pending.begin_relay_client_disconnect(5, 100, 200, ()).unwrap();
    assert_eq!(pending.len(), 1);
    assert!(!is_unused_incarnation(5, &vec![4], &vec![6], &pending));
    let first = random_unused_client_incarnation(&vec![], &vec![], &pending);
    let second = random_unused_client_incarnation(&vec![], &vec![], &pending);
    assert_ne!(first, 0);
    assert_ne!(second, 0);
    assert_ne!(first, second);
    let third = random_unused_client_incarnation(&vec![first], &vec![second], &pending);
    assert!(third != 0 && third != first && third != second && third != 5);
}

#[test]
fn a_leased_range_is_released_behind_its_acknowledgement() {
    let mut stage = begin_disconnect(true, 2);
    let mut seen = vec![stage];
    while !matches!(stage, DisconnectStage::Released | DisconnectStage::Quarantined) {
        stage = disconnect_step(stage, true, 2, true);
        seen.push(stage);
    }
    assert_eq!(
        seen,
        [
            DisconnectStage::PurgeBulk,
            DisconnectStage::PurgeMerger,
            DisconnectStage::Kill { session: 0 },
            DisconnectStage::Kill { session: 1 },
            DisconnectStage::SendDisconnect,
            DisconnectStage::AwaitAck,
            DisconnectStage::Released,
        ]
    );
    // The combined transport has no scheduler and no merger to wait for.
    assert_eq!(begin_disconnect(false, 0), DisconnectStage::SendDisconnect);
    assert_eq!(
        disconnect_step(DisconnectStage::SendDisconnect, false, 0, true),
        DisconnectStage::Released
    );
    // A session that cannot be killed does not hold the disconnect back.
    assert_eq!(
        disconnect_step(DisconnectStage::Kill { session: 0 }, true, 2, false),
        DisconnectStage::SendDisconnect
    );
    for stage in [
        DisconnectStage::PurgeBulk,
        DisconnectStage::PurgeMerger,
        DisconnectStage::SendDisconnect,
        DisconnectStage::AwaitAck,
    ] {
        assert_eq!(disconnect_step(stage, true, 0, false), DisconnectStage::Quarantined);
    }
    assert_eq!(
        disconnect_step(DisconnectStage::Quarantined, true, 0, true),
        DisconnectStage::Quarantined
    );
}

#[test]
fn only_the_matching_acknowledgement_completes() {
    let mut pending = PendingDisconnects::new();
    pending.begin_relay_client_disconnect(7, 100, 200, "first").unwrap();
    assert_eq!(
        pending.begin_relay_client_disconnect(7, 100, 200, "again"),
        Err(DisconnectError::DuplicatePending)
    );
    let ack = |incarnation, id_end| DisconnectAck {
        id_start: 100,
        id_end,
        incarnation,
    };
    assert_eq!(
        pending.complete_relay_client_disconnect(ack(8, 200)),
        Err(DisconnectError::UnexpectedAck)
    );
    assert!(pending.contains(7));
    assert_eq!(pending.complete_relay_client_disconnect(ack(7, 200)), Ok("first"));
    assert!(!pending.contains(7));
    pending.begin_relay_client_disconnect(7, 100, 200, "late").unwrap();
    let mismatch = pending.complete_relay_client_disconnect(ack(7, 300)).unwrap_err();
    assert_eq!(
        mismatch.message(),
        "agent relay: disconnect acknowledgement range [100, 300) does not match pending [100, 200)"
    );
    assert_eq!(
        DisconnectError::UnexpectedAck.message(),
        "agent relay: unexpected client disconnect acknowledgement"
    );
    assert_eq!(
        DisconnectError::DuplicatePending.message(),
        "duplicate pending client incarnation"
    );
    pending.begin_relay_client_disconnect(9, 1, 2, "unsent").unwrap();
    pending.abandon(9);
    assert!(!pending.contains(9));
}

#[test]
fn a_failed_transport_fails_every_operation_in_order() {
    let clients = vec![
        OpenOperations {
            incarnation: Some(1),
            operations: vec![(30, BulkKind::Tcp), (10, BulkKind::Filesystem)],
        },
        OpenOperations {
            incarnation: None,
            operations: vec![(20, BulkKind::Tcp)],
        },
    ];
    assert!(awaits_terminals(&clients, true));
    assert!(!awaits_terminals(&clients, false));
    let idle = OpenOperations {
        incarnation: Some(1),
        operations: vec![],
    };
    assert!(!awaits_terminals(&vec![idle], true));
    let operations = operations_to_fail(&clients);
    let ids: Vec<u32> = operations.iter().map(|operation| operation.id).collect();
    assert_eq!(ids, [10, 20, 30]);
    let first = FailedOperation {
        incarnation: Some(1),
        id: 10,
        kind: BulkKind::Filesystem,
    };
    assert_eq!(operations[0], first);
    assert_eq!(
        failure_step(first, true),
        FailureStep::Cancel {
            purge: Some(1),
            id: 10,
            kind: BulkKind::Filesystem
        }
    );
    assert_eq!(
        failure_step(first, false),
        FailureStep::Cancel {
            purge: None,
            id: 10,
            kind: BulkKind::Filesystem
        }
    );
    assert_eq!(
        failure_step(operations[1], true),
        FailureStep::MissingIncarnation
    );
}
