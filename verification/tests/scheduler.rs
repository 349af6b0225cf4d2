//! Bulk scheduling, admission of bulk operations, rejections and client output.

use std::collections::VecDeque;
use std::sync::Arc;

use sandbox_runner::active_bulk::ActiveBulk;
use sandbox_runner::active_bulk::BulkOpenAdmission;
use sandbox_runner::bulk::bulk_write_fragments;
use sandbox_runner::bulk::writer_tick;
use sandbox_runner::bulk::BulkError;
use sandbox_runner::bulk::BulkScheduler;
use sandbox_runner::bulk::BulkWrite;
use sandbox_runner::bulk::BulkWriteData;
use sandbox_runner::bulk::BulkWriterCommand;
use sandbox_runner::bulk::TurnStep;
use sandbox_runner::bulk::WriterTick;
use sandbox_runner::bulk::BULK_WRITE_MAX_FLOWS_PER_CLIENT;
use sandbox_runner::frames::encode_bulk_header;
use sandbox_runner::output::advance_batch;
use sandbox_runner::output::client_capacity;
use sandbox_runner::output::control_lane_capacity;
use sandbox_runner::output::output_charge;
use sandbox_runner::output::take_batch;
use sandbox_runner::output::writer_turn;
use sandbox_runner::output::ClientWrite;
use sandbox_runner::output::LocalQueue;
use sandbox_runner::output::OutputBatch;
use sandbox_runner::output::OutputTurn;
use sandbox_runner::output::PendingFrame;
use sandbox_runner::output::CLIENT_OUTPUT_BYTE_CAPACITY;
use sandbox_runner::permits::output_reservation;
use sandbox_runner::permits::reserve_client_output;
use sandbox_runner::rejection::bulk_open_rejection;
use sandbox_runner::rejection::paused_rejection;
use sandbox_runner::rejection::queue_client_rejection;
use sandbox_runner::rejection::rejection_write;
use sandbox_runner::rejection::RejectionBody;
use sandbox_runner::rejection::RejectionError;
use sandbox_runner::retire::RetiredIds;
use sandbox_runner::roster::RouteError;
use sandbox_runner::wire::BulkFlow;
use sandbox_runner::wire::BulkKind;
use sandbox_runner::wire::WireProfile;
use sandbox_runner::wire::CLIENT_INCARNATION_SIZE;
use tokio::sync::OwnedSemaphorePermit;
use tokio::sync::Semaphore;

const FLAG_TERMINAL: u8 = 1;
const TEST_INCARNATION: u128 = u128::from_be_bytes([0x5a; CLIENT_INCARNATION_SIZE]);

fn profile() -> WireProfile {
    WireProfile {
        max_frame_size: 4 * 1024 * 1024,
        max_bulk_payload: 1024 * 1024,
        max_bulk_window: 16 * 1024 * 1024,
        id_range_step: 1 << 24,
        max_clients: 16,
        flag_terminal: FLAG_TERMINAL,
        flag_session_start: 2,
        flag_shutdown: 4,
        flag_bulk: 8,
        kind_filesystem: 1,
        kind_tcp: 2,
        flow_host_to_guest: 1,
        flow_guest_to_host: 2,
        flow_mask_guest_to_host: 2,
    }
}

fn encoded_host_raw(id: u32, offset: u64, payload: &[u8]) -> Vec<u8> {
    let mut frame = encode_bulk_header(
        &profile(),
        id,
        BulkKind::Filesystem,
        BulkFlow::HostToGuest,
        offset,
        payload.len(),
    );
    frame.extend_from_slice(payload);
    frame
}

fn write<P>(id: u32, payload: &[u8], permit: P) -> BulkWrite<P> {
    BulkWrite {
        id,
        incarnation: TEST_INCARNATION,
        data: BulkWriteData::Inline(encoded_host_raw(id, 0, payload)),
        flow: BulkFlow::HostToGuest,
        payload_len: payload.len(),
        permit,
    }
}

fn held(budget: &Arc<Semaphore>, len: usize) -> OwnedSemaphorePermit {
    budget.clone().try_acquire_many_owned(len as u32).unwrap()
}

#[test]
fn bulk_scheduler_drop_flow_releases_queued_capacity() {
    let budget = Arc::new(Semaphore::new(64 * 1024));
    let full_budget = budget.available_permits();
    let data_len = encoded_host_raw(1, 0, b"queued").len();
    let mut scheduler = BulkScheduler::new(profile());
    scheduler
        .apply_bulk_writer_command(BulkWriterCommand::Write(write(
            1,
            b"queued",
            held(&budget, data_len),
        )))
        .unwrap();
    assert!(budget.available_permits() < full_budget);

    scheduler
        .apply_bulk_writer_command(BulkWriterCommand::DropFlow {
            incarnation: TEST_INCARNATION,
            id: 1,
        })
        .unwrap();

    assert_eq!(budget.available_permits(), full_budget);
    assert!(scheduler.is_empty());
    assert!(scheduler.is_retired(TEST_INCARNATION, 1));

    let late_len = encoded_host_raw(1, 0, b"late").len();
    scheduler
        .apply_bulk_writer_command(BulkWriterCommand::Write(write(
            1,
            b"late",
            held(&budget, late_len),
        )))
        .unwrap();
    assert_eq!(budget.available_permits(), full_budget);
    assert!(scheduler.is_empty());
}

#[test]
fn bulk_open_admission_rejects_only_the_excess_operation() {
    let mut active = ActiveBulk::new();
    for id in 1..=BULK_WRITE_MAX_FLOWS_PER_CLIENT as u32 {
        assert_eq!(
            active.admit_bulk_open(id, BulkKind::Filesystem),
            BulkOpenAdmission::Accepted
        );
    }

    assert_eq!(
        active.admit_bulk_open(1, BulkKind::Filesystem),
        BulkOpenAdmission::Duplicate
    );
    assert_eq!(
        active.admit_bulk_open(1000, BulkKind::Tcp),
        BulkOpenAdmission::LimitReached
    );
    assert_eq!(active.len(), BULK_WRITE_MAX_FLOWS_PER_CLIENT);
    active.remove(1);
    assert_eq!(active.get(1), None);
    assert_eq!(active.get(2), Some(BulkKind::Filesystem));
    let mut open = active.list();
    open.sort_by_key(|entry| entry.0);
    let expected: Vec<_> = (2..=BULK_WRITE_MAX_FLOWS_PER_CLIENT as u32)
        .map(|id| (id, BulkKind::Filesystem))
        .collect();
    assert_eq!(open, expected);
}

#[test]
fn bulk_open_rejection_is_typed_terminal_at_the_request_version() {
    let budget = Arc::new(Semaphore::new(64 * 1024));
    let version = 7;

    for (id, kind) in [(7, BulkKind::Filesystem), (8, BulkKind::Tcp)] {
        let rejection = bulk_open_rejection(&profile(), version, id, kind);
        assert_eq!(rejection.version, version);
        assert_eq!(rejection.id, id);
        assert_eq!(rejection.flags, FLAG_TERMINAL);
        let error = match (kind, rejection.body) {
            (BulkKind::Filesystem, RejectionBody::FsResponse { error }) => error,
            (BulkKind::Tcp, RejectionBody::TcpFailed { error }) => error,
            _ => panic!("the rejection must have the type of its operation"),
        };
        assert_eq!(
            error,
            "client already has the maximum of 64 active bulk operations"
        );
        let queued = queue_client_rejection::<()>(error.clone().into_bytes(), &budget)
            .ok()
            .unwrap();
        assert_eq!(budget.available_permits(), 64 * 1024 - 4096);
        let ClientWrite::Inline { data, .. } = &queued else {
            panic!("a rejection travels in band");
        };
        assert_eq!(data, error.as_bytes());
        drop(queued);
        assert_eq!(budget.available_permits(), 64 * 1024);
    }
    let paused = paused_rejection(version, 9);
    assert_eq!((paused.version, paused.id), (version, 9));
    assert!(paused.message.contains("sandbox is paused"));
}

#[test]
fn rejections_and_output_respect_the_client_budget() {
    let budget = Arc::new(Semaphore::new(4096));
    assert_eq!(
        queue_client_rejection::<()>(vec![0; 4097], &budget).err(),
        Some(RejectionError::Full)
    );
    assert_eq!(
        RejectionError::Full.message(),
        "client output full while rejecting a bulk operation"
    );
    assert_eq!(
        RejectionError::Overflow.message(),
        "bulk admission rejection budget overflow"
    );
    assert_eq!(
        rejection_write::<()>(vec![7], None).err(),
        Some(RejectionError::Full)
    );
    assert_eq!(
        output_reservation(3, None).err(),
        Some(RouteError::BudgetInvariant { slot: 3 })
    );
    let permit = reserve_client_output(3, 1, &budget).ok().unwrap();
    assert_eq!(budget.available_permits(), 0);
    let permit = output_reservation(3, Some(permit)).ok().unwrap();
    match rejection_write::<()>(vec![7], Some(permit)) {
        Ok(ClientWrite::Inline { data, permit }) => {
            assert_eq!(data, [7]);
            drop(permit);
        }
        _ => panic!("a rejection travels in band"),
    }
    assert_eq!(budget.available_permits(), 4096);
    let permit = reserve_client_output(3, 1, &budget).ok().unwrap();
    assert_eq!(
        reserve_client_output(3, 1, &budget).err(),
        Some(RouteError::BudgetInvariant { slot: 3 })
    );
    drop(permit);
    assert_eq!(budget.available_permits(), 4096);
    assert_eq!(
        reserve_client_output(3, usize::MAX, &budget).err(),
        Some(RouteError::ChargeOverflow)
    );
}

/// Serve one pass, and hand out the records in their order.
fn pass(scheduler: &mut BulkScheduler<()>) -> (Vec<(u32, usize)>, bool) {
    let mut sent = Vec::new();
    let mut round = scheduler.begin_round();
    while let Some(mut turn) = scheduler.next_flow(&mut round) {
        while let TurnStep::Send { .. } = scheduler.next_record(&mut round, &turn) {
            let write = scheduler.take_record(&mut round, &mut turn);
            sent.push((write.id, write.payload_len));
        }
        scheduler.end_turn(turn);
    }
    (sent, round.continues())
}

#[test]
fn another_flow_is_served_before_a_large_flow_is_drained() {
    let mut scheduler = BulkScheduler::new(profile());
    for _ in 0..4 {
        scheduler
            .apply_bulk_writer_command(BulkWriterCommand::Write(write(1, &[0; 256 * 1024], ())))
            .unwrap();
    }
    scheduler
        .apply_bulk_writer_command(BulkWriterCommand::Write(write(2, b"small", ())))
        .unwrap();
    let mut order = Vec::new();
    for _ in 0..16 {
        let (sent, _) = pass(&mut scheduler);
        order.extend(sent);
        if scheduler.is_empty() {
            break;
        }
    }
    assert_eq!(order.iter().filter(|(id, _)| *id == 1).count(), 4);
    let small = order.iter().position(|(id, _)| *id == 2).unwrap();
    let last_large = order.iter().rposition(|(id, _)| *id == 1).unwrap();
    assert!(small < last_large);
}

#[test]
fn a_lone_flow_sends_a_maximum_record_at_once() {
    let mut scheduler = BulkScheduler::new(profile());
    scheduler
        .apply_bulk_writer_command(BulkWriterCommand::Write(write(1, &[0; 1024 * 1024], ())))
        .unwrap();
    assert_eq!(pass(&mut scheduler), (vec![(1, 1024 * 1024)], true));
    assert!(scheduler.is_empty());
    assert_eq!(pass(&mut scheduler), (vec![], false));
}

#[test]
fn scheduler_refuses_what_it_cannot_own() {
    let mut scheduler = BulkScheduler::new(profile());
    let mut reverse = write(1, b"x", ());
    reverse.flow = BulkFlow::GuestToHost;
    assert_eq!(
        scheduler.apply_bulk_writer_command(BulkWriterCommand::Write(reverse)),
        Err(BulkError::GuestToHost)
    );
    assert_eq!(
        scheduler.apply_bulk_writer_command(BulkWriterCommand::Write(write(0, b"x", ()))),
        Err(BulkError::ZeroId)
    );
    for id in 1..=64 {
        scheduler
            .apply_bulk_writer_command(BulkWriterCommand::Write(write(id, b"x", ())))
            .unwrap();
    }
    assert_eq!(
        scheduler.apply_bulk_writer_command(BulkWriterCommand::Write(write(65, b"x", ()))),
        Err(BulkError::FlowLimit { id: 65 })
    );
    for _ in 0..7 {
        scheduler
            .apply_bulk_writer_command(BulkWriterCommand::Write(write(1, &[0; 1024 * 1024], ())))
            .unwrap();
    }
    assert_eq!(
        scheduler.apply_bulk_writer_command(BulkWriterCommand::Write(write(
            1,
            &[0; 1024 * 1024],
            ()
        ))),
        Err(BulkError::ByteBudget { id: 1 })
    );
    scheduler
        .apply_bulk_writer_command(BulkWriterCommand::DropIncarnation {
            incarnation: TEST_INCARNATION,
        })
        .unwrap();
    assert!(scheduler.is_empty());
}

#[test]
fn written_records_carry_their_owner() {
    let (fragments, ()) = bulk_write_fragments(write(3, b"payload", ()));
    let wire: Vec<u8> = fragments.concat();
    assert_eq!(&wire[..16], &[0x5a; 16]);
    assert_eq!(&wire[16..], encoded_host_raw(3, 0, b"payload"));
    let header = encoded_host_raw(3, 0, b"payload")[..21].to_vec();
    let (fragments, ()) = bulk_write_fragments(BulkWrite {
        data: BulkWriteData::Shared {
            header,
            payload: b"payload".to_vec(),
        },
        ..write(3, b"payload", ())
    });
    assert_eq!(fragments.concat(), wire);
}

#[test]
fn the_bulk_writer_parks_between_records() {
    assert_eq!(writer_tick(true, true), WriterTick::Exit);
    assert_eq!(writer_tick(false, true), WriterTick::Park);
    assert_eq!(writer_tick(false, false), WriterTick::Serve);
}

#[test]
fn retired_ids_read_back() {
    let mut retired = RetiredIds::new();
    let profile = profile();
    assert!(!retired.relay_correlation_is_retired(&profile, 1, 70));
    retired.retire_relay_correlation(&profile, 1, 70).unwrap();
    assert!(retired.relay_correlation_is_retired(&profile, 1, 70));
    assert!(!retired.relay_correlation_is_retired(&profile, 1, 71));
    assert!(!retired.relay_correlation_is_retired(&profile, 2, 70));
    assert_eq!(
        retired
            .retire_relay_correlation(&profile, 1, 0)
            .unwrap_err()
            .message(),
        "cannot retire unassigned correlation 0"
    );
    retired.forget(1);
    assert!(!retired.relay_correlation_is_retired(&profile, 1, 70));
}

#[test]
fn output_charges_are_whole_granules() {
    assert_eq!(output_charge(0), Some(0));
    assert_eq!(output_charge(1), Some(4096));
    assert_eq!(output_charge(4096), Some(4096));
    assert_eq!(output_charge(4097), Some(8192));
    assert_eq!(output_charge(u32::MAX as usize), None);
    assert_eq!(control_lane_capacity(4097), 16384);
    assert_eq!(
        client_capacity(4097),
        CLIENT_OUTPUT_BYTE_CAPACITY as u64 + 16384
    );
}

#[test]
fn batches_stop_at_limits_and_local_descriptors() {
    let inline = |len: usize| ClientWrite::<u8, ()>::Inline {
        data: vec![1; len],
        permit: (),
    };
    let mut queue: VecDeque<_> = (0..70).map(|_| inline(10)).collect();
    let OutputBatch::Frames(batch) = take_batch(&mut queue) else {
        panic!("expected frames");
    };
    assert_eq!(batch.len(), 64);
    assert_eq!(queue.len(), 6);

    let mut queue: VecDeque<_> = VecDeque::from([
        inline(200 * 1024),
        inline(100 * 1024),
        ClientWrite::LocalBulk {
            prepared: 9,
            permit: (),
        },
        inline(1),
    ]);
    let OutputBatch::Frames(batch) = take_batch(&mut queue) else {
        panic!("expected frames");
    };
    assert_eq!(batch.len(), 1);
    let OutputBatch::Frames(mut batch) = take_batch(&mut queue) else {
        panic!("expected frames");
    };
    assert_eq!(batch.len(), 1);
    assert!(matches!(
        take_batch(&mut queue),
        OutputBatch::Local { prepared: 9, .. }
    ));
    assert_eq!(queue.len(), 1);
    // A short write leaves the tail of the frame.
    advance_batch(&mut batch, 1000);
    assert_eq!(batch.len(), 1);
    advance_batch(&mut batch, 99 * 1024 + 24);
    assert!(batch.is_empty());
    take_batch(&mut queue);
    assert!(matches!(take_batch(&mut queue), OutputBatch::Empty));
}

#[test]
fn client_batch_handles_short_vectored_writes_and_releases_budget() {
    let lane_budget = Arc::new(Semaphore::new(8));
    let client_budget = Arc::new(Semaphore::new(8));
    let hold = |budget: &Arc<Semaphore>, bytes| {
        Arc::clone(budget).try_acquire_many_owned(bytes).unwrap()
    };
    let pending = |data: &[u8], bytes| PendingFrame {
        data: data.to_vec(),
        sent: 0,
        permit: (hold(&lane_budget, bytes), hold(&client_budget, bytes)),
    };
    let mut batch = VecDeque::from([pending(b"abc", 3), pending(b"defgh", 5)]);
    assert_eq!(lane_budget.available_permits(), 0);
    assert_eq!(client_budget.available_permits(), 0);
    let max_write = 2;
    let mut bytes = Vec::new();
    while let Some(first) = batch.front() {
        // What a vectored write of at most `max_write` bytes takes.
        let mut chunk = first.data[first.sent..].to_vec();
        for later in batch.iter().skip(1) {
            chunk.extend_from_slice(&later.data[later.sent..]);
        }
        chunk.truncate(max_write);
        bytes.extend_from_slice(&chunk);
        advance_batch(&mut batch, chunk.len());
        // A written frame gives back its part of both budgets.
        let unwritten = if bytes.len() >= 8 {
            0
        } else if bytes.len() >= 3 {
            5
        } else {
            8
        };
        assert_eq!(lane_budget.available_permits(), 8 - unwritten);
        assert_eq!(client_budget.available_permits(), 8 - unwritten);
    }
    assert_eq!(bytes, b"abcdefgh");
    assert!(batch.is_empty());
    assert_eq!(lane_budget.available_permits(), 8);
    assert_eq!(client_budget.available_permits(), 8);
}

#[test]
fn local_commands_come_before_output() {
    let mut open = true;
    assert_eq!(
        writer_turn(&mut open, LocalQueue::Command, 3, true),
        OutputTurn::RunLocal
    );
    assert_eq!(
        writer_turn(&mut open, LocalQueue::Empty, 0, false),
        OutputTurn::Wait { for_local: true }
    );
    assert_eq!(
        writer_turn(&mut open, LocalQueue::Closed, 3, true),
        OutputTurn::TakeBatch
    );
    assert!(!open);
    assert_eq!(
        writer_turn(&mut open, LocalQueue::Empty, 0, false),
        OutputTurn::Wait { for_local: false }
    );
    assert_eq!(
        writer_turn(&mut open, LocalQueue::Empty, 0, true),
        OutputTurn::Exit
    );
}
