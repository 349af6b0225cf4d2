//! Ordering, admission and delivery of host-to-guest control traffic.

use std::collections::VecDeque;

use sandbox_runner::frames::bulk_wire_metadata;
use sandbox_runner::frames::encode_bulk_header;
use sandbox_runner::guest_send::direct_send_step;
use sandbox_runner::guest_send::ordered_send_step;
use sandbox_runner::guest_send::push_guest_frame_blocking;
use sandbox_runner::guest_send::push_guest_frame_until;
use sandbox_runner::guest_send::Enqueue;
use sandbox_runner::guest_send::GuestRoute;
use sandbox_runner::guest_send::OrdinaryWriter;
use sandbox_runner::guest_send::Receipt;
use sandbox_runner::guest_send::SendError;
use sandbox_runner::guest_send::SendStep;
use sandbox_runner::order::admit_control_write;
use sandbox_runner::order::select_control_write;
use sandbox_runner::order::ClockAttempt;
use sandbox_runner::order::ControlOrder;
use sandbox_runner::order::ControlWrite;
use sandbox_runner::order::CreditClaim;
use sandbox_runner::order::CreditGate;
use sandbox_runner::order::TcpMeta;
use sandbox_runner::order::AGENT_WRITE_CLASS_FRAMES;
use sandbox_runner::order::AGENT_WRITE_CONTROL_BYTES;
use sandbox_runner::order::AGENT_WRITE_DATA_BYTES;
use sandbox_runner::ring_writer::ControlBudget;
use sandbox_runner::ring_writer::RingWriter;
use sandbox_runner::ring_writer::WriterAction;
use sandbox_runner::ring_writer::WriterTick;
use sandbox_runner::stall::delivery_step;
use sandbox_runner::stall::input_is_stalled;
use sandbox_runner::stall::DeliveryStep;
use sandbox_runner::stall::InputStall;
use sandbox_runner::stall::INPUT_STALL_TIMEOUT_MS;
use sandbox_runner::wire::BulkFlow;
use sandbox_runner::wire::BulkKind;
use sandbox_runner::wire::WireProfile;

const DEFAULT_BULK_WINDOW: u64 = 4 * 1024 * 1024;

fn profile() -> WireProfile {
    WireProfile {
        max_frame_size: 4 * 1024 * 1024,
        max_bulk_payload: 1024 * 1024,
        max_bulk_window: 16 * 1024 * 1024,
        id_range_step: 1 << 24,
        max_clients: 16,
        flag_terminal: 1,
        flag_session_start: 2,
        flag_shutdown: 4,
        flag_bulk: 8,
        kind_filesystem: 1,
        kind_tcp: 2,
        flow_host_to_guest: 1,
        flow_guest_to_host: 2,
        flow_mask_guest_to_host: 2,
    }
}

type Write = ControlWrite<()>;

fn no_clock() -> ClockAttempt {
    ClockAttempt {
        frame: Ok(vec![]),
        fits: None,
    }
}

/// Control credit, and no data credit.
fn control_credit() -> CreditGate {
    CreditGate {
        gated: false,
        failure: None,
        control_bytes: 4096,
        control_frames: 16,
        data_bytes: 0,
        data_frames: 0,
    }
}

fn open_credit() -> CreditGate {
    CreditGate {
        data_bytes: 4096,
        data_frames: 16,
        ..control_credit()
    }
}

fn next_control_write(
    pending: &mut VecDeque<Write>,
    gate: &mut CreditGate,
) -> Result<Option<Write>, String> {
    select_control_write(pending, gate, &no_clock()).map(|(write, _)| write)
}

fn ordinary(data: &[u8], id: u32, uses_data_credit: bool) -> Write {
    ControlWrite::ordinary(&profile(), data.to_vec(), id, uses_data_credit, ())
}

#[test]
fn workload_metadata_scheduler_preserves_client_and_global_fences() {
    let mut gate = control_credit();
    let frame = b"fence";
    let mut pending = VecDeque::from([
        ordinary(frame, 101, true),
        ControlWrite::client_fence(&profile(), frame.to_vec(), 100, 200, ()),
        ordinary(frame, 102, false),
        ordinary(frame, 201, false),
        ControlWrite::fence(&profile(), frame.to_vec(), ()),
        ordinary(frame, 301, false),
    ]);
    assert!(matches!(
        next_control_write(&mut pending, &mut gate)
            .unwrap()
            .unwrap()
            .order,
        ControlOrder::Correlation(201)
    ));
    assert!(next_control_write(&mut pending, &mut gate)
        .unwrap()
        .is_none());
    assert_eq!(pending.len(), 5);
}

fn ordered_tcp_metadata(name: &str, meta: TcpMeta) -> Write {
    let mut wire = (5 + name.len() as u32).to_be_bytes().to_vec();
    wire.extend_from_slice(&17u32.to_be_bytes());
    wire.push(0);
    wire.extend_from_slice(name.as_bytes());
    let mut write = ordinary(&wire, 17, false);
    write.classify_tcp_order(&profile(), 17, None, Some(meta));
    write
}

fn ordered_tcp_input() -> Write {
    let payload = b"request tail";
    let mut encoded = encode_bulk_header(
        &profile(),
        17,
        BulkKind::Tcp,
        BulkFlow::HostToGuest,
        0,
        payload.len(),
    );
    encoded.extend_from_slice(payload);
    let mut write = ordinary(&encoded, 17, true);
    let metadata = bulk_wire_metadata(&profile(), &write.data).unwrap();
    write.classify_tcp_order(&profile(), 17, Some(metadata), None);
    write
}

fn tcp_input_finish() -> Write {
    ordered_tcp_metadata(
        "BulkFinish",
        TcpMeta::BulkFinish(Some((BulkKind::Tcp, BulkFlow::HostToGuest))),
    )
}

fn valid_credit() -> CreditClaim {
    CreditClaim {
        kind: BulkKind::Tcp,
        flow: BulkFlow::GuestToHost,
        consumed_offset: 0,
        credit_limit: DEFAULT_BULK_WINDOW,
    }
}

fn tcp_output_credit() -> Write {
    ordered_tcp_metadata("BulkCredit", TcpMeta::BulkCredit(Some(valid_credit())))
}

#[test]
fn workload_combined_tcp_credit_passes_blocked_input_and_finish_only() {
    let mut credit = control_credit();
    let input = ordered_tcp_input();
    let input_bytes = input.data.clone();
    let finish = tcp_input_finish();
    let finish_bytes = finish.data.clone();
    let mut pending = VecDeque::from([input, finish, tcp_output_credit()]);
    credit.gated = true;
    assert!(next_control_write(&mut pending, &mut credit)
        .unwrap()
        .is_none());
    credit.gated = false;
    let returned = next_control_write(&mut pending, &mut credit)
        .unwrap()
        .unwrap();
    assert!(matches!(returned.order, ControlOrder::TcpOutputCredit(17)));
    assert_eq!(pending.len(), 2);
    assert!(next_control_write(&mut pending, &mut credit)
        .unwrap()
        .is_none());
    credit.data_bytes = input_bytes.len() as u64;
    credit.data_frames = 1;
    assert_eq!(
        next_control_write(&mut pending, &mut credit)
            .unwrap()
            .unwrap()
            .data,
        input_bytes
    );
    assert_eq!(
        next_control_write(&mut pending, &mut credit)
            .unwrap()
            .unwrap()
            .data,
        finish_bytes
    );
    assert!(pending.is_empty());

    // With input capacity available, the exception does not turn credit into priority.
    let mut open = open_credit();
    let mut pending =
        VecDeque::from([ordered_tcp_input(), tcp_input_finish(), tcp_output_credit()]);
    for expected in [
        ControlOrder::TcpInputData(17),
        ControlOrder::TcpInputFinish(17),
        ControlOrder::TcpOutputCredit(17),
    ] {
        let actual = next_control_write(&mut pending, &mut open)
            .unwrap()
            .unwrap()
            .order;
        assert_eq!(
            std::mem::discriminant(&actual),
            std::mem::discriminant(&expected)
        );
    }
}

#[test]
fn workload_combined_tcp_credit_never_crosses_control_or_owner_fences() {
    let mut control = control_credit();
    for fence in [
        ordered_tcp_metadata("BulkCancel", TcpMeta::Other),
        ordered_tcp_metadata("TcpConnect", TcpMeta::Other),
        ordered_tcp_metadata("Ping", TcpMeta::Other),
        ControlWrite::client_fence(&profile(), vec![], 1, 100, ()),
        ControlWrite::fence(&profile(), vec![], ()),
    ] {
        let mut pending = VecDeque::from([ordered_tcp_input(), fence, tcp_output_credit()]);
        assert!(next_control_write(&mut pending, &mut control)
            .unwrap()
            .is_none());
        assert_eq!(pending.len(), 3);
    }
    let valid = valid_credit();
    for payload in [
        CreditClaim {
            kind: BulkKind::Filesystem,
            ..valid
        },
        CreditClaim {
            flow: BulkFlow::HostToGuest,
            ..valid
        },
        CreditClaim {
            consumed_offset: 2,
            credit_limit: 1,
            ..valid
        },
        CreditClaim {
            credit_limit: profile().max_bulk_window + 1,
            ..valid
        },
    ] {
        let mut pending = VecDeque::from([
            ordered_tcp_input(),
            ordered_tcp_metadata("BulkCredit", TcpMeta::BulkCredit(Some(payload))),
        ]);
        assert!(next_control_write(&mut pending, &mut control)
            .unwrap()
            .is_none());
    }
    let mut pending = VecDeque::from([
        ordered_tcp_input(),
        ordered_tcp_metadata("BulkCredit", TcpMeta::BulkCredit(None)),
    ]);
    assert!(next_control_write(&mut pending, &mut control)
        .unwrap()
        .is_none());
    // The exclusive raw flag is not sufficient: only previously validated TCP input gets the
    // exception. Filesystem or reverse-direction raw metadata retains strict ordering.
    for (kind, flow) in [
        (BulkKind::Filesystem, BulkFlow::HostToGuest),
        (BulkKind::Tcp, BulkFlow::GuestToHost),
    ] {
        let mut input = ordinary(&ordered_tcp_input().data, 17, true);
        input.classify_tcp_order(&profile(), 17, Some((kind, flow, 0, 12)), None);
        let mut pending = VecDeque::from([input, tcp_output_credit()]);
        assert!(next_control_write(&mut pending, &mut control)
            .unwrap()
            .is_none());
    }
    // Only the correctly directed TCP finish commutes; unknown metadata remains a fence.
    for finish in [
        Some((BulkKind::Tcp, BulkFlow::GuestToHost)),
        Some((BulkKind::Filesystem, BulkFlow::HostToGuest)),
        None,
    ] {
        let mut pending = VecDeque::from([
            ordered_tcp_input(),
            ordered_tcp_metadata("BulkFinish", TcpMeta::BulkFinish(finish)),
            tcp_output_credit(),
        ]);
        assert!(next_control_write(&mut pending, &mut control)
            .unwrap()
            .is_none());
        assert_eq!(pending.len(), 3);
    }
}

#[test]
fn workload_ready_without_writer_never_falls_back_to_direct_input() {
    let stopped = OrdinaryWriter::Stopped {
        reason: "agent control writer is not running".into(),
    };
    assert!(push_guest_frame_until(stopped, vec![0; 9], 0, 0)
        .err()
        .unwrap()
        .message()
        .contains("not running"));
    let send = push_guest_frame_until(OrdinaryWriter::PreReady, vec![1, 2, 3], 0, 0)
        .ok()
        .unwrap();
    assert_eq!(send.route, GuestRoute::Direct);
    assert_eq!(send.frame, [1, 2, 3]);
    assert!(matches!(
        direct_send_step(send.deadline, true, true, 0),
        SendStep::Done
    ));
}

#[test]
fn orders_conflict_as_documented() {
    let fence = ControlOrder::GlobalFence;
    let client = ControlOrder::ClientFence {
        start: 100,
        end: 200,
    };
    let correlation = ControlOrder::Correlation;
    assert!(fence.conflicts(correlation(1)) && correlation(1).conflicts(fence));
    assert!(client.conflicts(correlation(100)));
    assert!(!client.conflicts(correlation(200)));
    assert!(correlation(7).conflicts(correlation(7)));
    assert!(!correlation(7).conflicts(correlation(8)));
    assert!(!ControlOrder::TcpInputData(7).conflicts(ControlOrder::TcpOutputCredit(7)));
    assert!(ControlOrder::TcpOutputCredit(7).conflicts(ControlOrder::TcpInputData(7)));
    assert!(!ControlOrder::MaintenanceClock.conflicts(correlation(7)));
    assert!(ControlOrder::MaintenanceClock.conflicts(fence));
    assert_eq!(correlation(7).id(), 7);
}

#[test]
fn a_frame_of_nobody_or_a_shutdown_fences_everything() {
    assert_eq!(ordinary(b"x", 0, false).order, ControlOrder::GlobalFence);
    let shutdown = [0, 0, 0, 5, 0, 0, 0, 9, 4];
    assert_eq!(ordinary(&shutdown, 9, false).order, ControlOrder::GlobalFence);
    let raw = [0, 0, 0, 5, 0, 0, 0, 9, 8];
    assert!(ControlWrite::fence(&profile(), raw.to_vec(), ()).uses_data_credit);
}

#[test]
fn a_clock_is_refreshed_before_it_is_charged() {
    let mut write = ControlWrite::clock_sync(&profile(), vec![0; 64], ());
    assert_eq!(write.order, ControlOrder::MaintenanceClock);
    let fresh = ClockAttempt {
        frame: Ok(vec![1; 40]),
        fits: Some(false),
    };
    let mut gate = CreditGate {
        control_bytes: 40,
        control_frames: 1,
        ..control_credit()
    };
    // A full ring stops the attempt before it costs credit.
    assert_eq!(
        admit_control_write(&mut write, &mut gate, &fresh),
        Ok((false, true))
    );
    assert_eq!(gate.control_bytes, 40);
    let fresh = ClockAttempt {
        fits: Some(true),
        ..fresh
    };
    assert_eq!(
        admit_control_write(&mut write, &mut gate, &fresh),
        Ok((true, false))
    );
    assert_eq!(write.data, [1; 40]);
    assert_eq!((gate.control_bytes, gate.control_frames), (0, 0));
    let broken = ClockAttempt {
        frame: Err("no clock".into()),
        fits: None,
    };
    assert_eq!(
        admit_control_write(&mut write, &mut gate, &broken),
        Err("no clock".into())
    );
    gate.failure = Some("guest gone".into());
    assert_eq!(gate.try_charge(false, 1), Err("guest gone".into()));
}

#[test]
fn admission_classes_are_independent() {
    let mut budget = ControlBudget::new();
    let mut data = Vec::new();
    for _ in 0..AGENT_WRITE_CLASS_FRAMES {
        data.push(budget.reserve(true, 10).unwrap());
    }
    assert!(budget.reserve(true, 10).is_none());
    let control = budget.reserve(false, AGENT_WRITE_CONTROL_BYTES).unwrap();
    assert!(budget.reserve(false, 1).is_none());
    assert_eq!(
        budget.available(),
        (
            AGENT_WRITE_DATA_BYTES - 80,
            0,
            0,
            AGENT_WRITE_CLASS_FRAMES - 1
        )
    );
    budget.release(control);
    for reservation in data {
        budget.release(reservation);
    }
    assert_eq!(
        budget.available(),
        ControlBudget::new().available()
    );
    assert!(budget.reserve(true, AGENT_WRITE_DATA_BYTES + 1).is_none());
}

fn tick(now: u64) -> WriterTick {
    WriterTick {
        closed: false,
        private: None,
        clock: no_clock(),
        now,
    }
}

#[test]
fn private_frames_go_first_and_through_a_closed_gate() {
    let mut writer = RingWriter::new();
    writer.accept(ordinary(b"ordinary", 5, false));
    let mut gate = CreditGate {
        gated: true,
        ..open_credit()
    };
    let private = WriterTick {
        private: Some(b"freeze".to_vec()),
        ..tick(0)
    };
    match writer.decide(&mut gate, private).unwrap() {
        WriterAction::Deliver { data, ticket } => {
            assert_eq!(data, b"freeze");
            assert!(ticket.is_none());
        }
        _ => panic!("a private frame passes"),
    }
    assert!(matches!(
        writer.decide(&mut gate, tick(0)).unwrap(),
        WriterAction::Wait {
            takes_more: true,
            for_capacity: false
        }
    ));
    gate.gated = false;
    assert!(matches!(
        writer.decide(&mut gate, tick(0)).unwrap(),
        WriterAction::Deliver { ticket: Some(()), .. }
    ));
    assert!(writer.takes_more());
    writer.close_ordinary();
    assert!(!writer.takes_more());
    assert!(matches!(
        writer.decide(&mut gate, tick(0)).unwrap(),
        WriterAction::Exit
    ));
    let closed = WriterTick {
        closed: true,
        ..tick(0)
    };
    assert!(matches!(
        RingWriter::<()>::new().decide(&mut gate, closed).unwrap(),
        WriterAction::Exit
    ));
}

#[test]
fn a_waiting_clock_keeps_its_countdown_through_a_pause() {
    let mut writer = RingWriter::new();
    writer.accept(ControlWrite::clock_sync(&profile(), vec![0; 8], ()));
    let mut gate = open_credit();
    let full = |now| WriterTick {
        clock: ClockAttempt {
            frame: Ok(vec![1; 8]),
            fits: Some(false),
        },
        ..tick(now)
    };
    assert!(matches!(
        writer.decide(&mut gate, full(1000)).unwrap(),
        WriterAction::Wait {
            for_capacity: true,
            ..
        }
    ));
    let deadline = 1000 + INPUT_STALL_TIMEOUT_MS;
    assert_eq!(writer.current_stall().unwrap().wakes_at(), Some(deadline));
    gate.gated = true;
    writer.decide(&mut gate, full(2000)).unwrap();
    assert_eq!(writer.current_stall().unwrap().wakes_at(), None);
    gate.gated = false;
    writer.decide(&mut gate, full(502_000)).unwrap();
    assert_eq!(
        writer.current_stall().unwrap().wakes_at(),
        Some(deadline + 500_000)
    );
    writer.set_stall(None);
    assert!(writer.current_stall().is_none());
}

#[test]
fn parked_time_does_not_count_as_a_stall() {
    let mut stall = InputStall::new(0, 100);
    stall.set_paused(true, 90);
    assert!(!stall.watch(10_000));
    stall.set_paused(false, 10_000);
    assert_eq!(stall.wakes_at(), Some(10_010));
    assert!(!stall.watch(10_009));
    assert!(stall.watch(10_010));
    // A pause does not hide a stall that was already seen.
    stall.set_paused(true, 10_020);
    assert!(stall.watch(10_020));
    assert!(input_is_stalled(true, None));
    assert!(input_is_stalled(false, Some(true)));
    assert!(!input_is_stalled(false, Some(false)));
    assert!(!input_is_stalled(false, None));
}

#[test]
fn delivery_carries_the_wait_until_the_fragment_is_taken() {
    let mut stall = None;
    assert_eq!(
        delivery_step(&mut stall, false, false, false, 5, 100),
        DeliveryStep::Wait
    );
    assert_eq!(stall.unwrap().wakes_at(), Some(105));
    assert_eq!(
        delivery_step(&mut stall, false, false, true, 50, 100),
        DeliveryStep::Retry
    );
    assert_eq!(stall.unwrap().wakes_at(), Some(105));
    assert_eq!(
        delivery_step(&mut stall, false, true, false, 60, 100),
        DeliveryStep::Closed
    );
    assert_eq!(
        delivery_step(&mut stall, true, false, false, 70, 100),
        DeliveryStep::Delivered
    );
    assert!(stall.is_none());
}

#[test]
fn ordered_sends_share_one_deadline() {
    let send = push_guest_frame_blocking(OrdinaryWriter::Running, vec![9], 1000)
        .ok()
        .unwrap();
    assert_eq!(send.route, GuestRoute::Ordered);
    assert_eq!(send.deadline, 61_000);
    let step = |enqueue, receipt, closed, now| {
        ordered_send_step(send.deadline, enqueue, receipt, closed, now)
    };
    assert!(matches!(
        step(Enqueue::Full, Receipt::Pending, false, 1000),
        SendStep::Wait { at_most: 10 }
    ));
    assert!(matches!(
        step(Enqueue::Accepted, Receipt::Pending, false, 60_997),
        SendStep::Wait { at_most: 3 }
    ));
    assert!(matches!(
        step(Enqueue::Accepted, Receipt::Delivered, false, 99_000),
        SendStep::Done
    ));
    let failures = [
        (
            step(Enqueue::Closed, Receipt::Pending, false, 1000),
            "agent control writer stopped",
        ),
        (
            step(Enqueue::Accepted, Receipt::Dropped, false, 1000),
            "agent control writer dropped admission receipt",
        ),
        (
            step(Enqueue::Accepted, Receipt::Pending, false, 61_000),
            "timed out sending ordered frame to agentd",
        ),
        (
            step(Enqueue::Full, Receipt::Pending, true, 1000),
            "timed out sending ordered frame to agentd",
        ),
        (
            direct_send_step(10, false, false, 10),
            "timed out sending frame to agentd",
        ),
    ];
    for (step, text) in failures {
        match step {
            SendStep::Fail(error) => assert_eq!(error.message(), text),
            other => panic!("expected a failure: {other:?}"),
        }
    }
    assert!(matches!(
        direct_send_step(10, false, true, 9),
        SendStep::Retry
    ));
    assert!(matches!(
        direct_send_step(10, false, false, 4),
        SendStep::Wait { at_most: 6 }
    ));
    assert_eq!(
        SendError::NotRunning {
            reason: "gone".into()
        }
        .message(),
        "gone"
    );
}
