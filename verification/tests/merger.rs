//! Cross-lane merging and routing of guest output.

use std::sync::Arc;

use sandbox_runner::frames::encode_bulk_header;
use sandbox_runner::frames::raw_bulk_offsets;
use sandbox_runner::frames::raw_frame_from;
use sandbox_runner::merge_flow::LaneFrame;
use sandbox_runner::merger::GuestBody;
use sandbox_runner::merger::GuestFrameMerger;
use sandbox_runner::reader::enter_frame;
use sandbox_runner::reader::merge_and_route;
use sandbox_runner::reader::route_frames;
use sandbox_runner::reader::Entry;
use sandbox_runner::reader::OutputError;
use sandbox_runner::roster::Claim;
use sandbox_runner::roster::Roster;
use sandbox_runner::roster::RouteError;
use sandbox_runner::session_log::LogSource;
use sandbox_runner::session_log::LoggedMessage;
use sandbox_runner::session_log::SessionRegistry;
use sandbox_runner::wire::BulkFlow;
use sandbox_runner::wire::BulkKind;
use sandbox_runner::wire::WireProfile;
use sandbox_runner::wire::CLIENT_INCARNATION_SIZE;
use tokio::sync::OwnedSemaphorePermit;
use tokio::sync::Semaphore;

const FLAG_TERMINAL: u8 = 1;
const FLAG_BULK: u8 = 8;
const TEST_INCARNATION: u128 = u128::from_be_bytes([0x5a; CLIENT_INCARNATION_SIZE]);

fn profile() -> WireProfile {
    WireProfile {
        max_frame_size: 4 * 1024 * 1024,
        max_bulk_payload: 1024 * 1024,
        max_bulk_window: 16 * 1024 * 1024,
        id_range_step: 1 << 24,
        max_clients: 16,
        flag_terminal: FLAG_TERMINAL,
        flag_session_start: 2,
        flag_shutdown: 4,
        flag_bulk: FLAG_BULK,
        kind_filesystem: 1,
        kind_tcp: 2,
        flow_host_to_guest: 1,
        flow_guest_to_host: 2,
        flow_mask_guest_to_host: 2,
    }
}

fn encoded_raw(id: u32, offset: u64, payload: &[u8]) -> Vec<u8> {
    let mut frame = encode_bulk_header(
        &profile(),
        id,
        BulkKind::Filesystem,
        BulkFlow::GuestToHost,
        offset,
        payload.len(),
    );
    frame.extend_from_slice(payload);
    frame
}

fn encoded_message_id(name: &str, flags: u8, id: u32) -> Vec<u8> {
    let mut wire = (5 + name.len() as u32).to_be_bytes().to_vec();
    wire.extend_from_slice(&id.to_be_bytes());
    wire.push(flags);
    wire.extend_from_slice(name.as_bytes());
    wire
}

fn name_of(frame: &LaneFrame<OwnedSemaphorePermit>) -> &str {
    std::str::from_utf8(&frame.frame.data[9..]).unwrap()
}

type Lane = LaneFrame<OwnedSemaphorePermit>;

fn lane_frame(bytes: Vec<u8>, budget: &Arc<Semaphore>) -> Lane {
    lane_frame_with_incarnation(bytes, budget, TEST_INCARNATION)
}

fn lane_frame_with_incarnation(bytes: Vec<u8>, budget: &Arc<Semaphore>, incarnation: u128) -> Lane {
    let permit = Arc::clone(budget)
        .try_acquire_many_owned(bytes.len() as u32)
        .unwrap();
    LaneFrame {
        frame: raw_frame_from(bytes),
        incarnation: Some(incarnation),
        permit,
    }
}

fn accepted(id: u32) -> (Vec<u8>, GuestBody) {
    (
        encoded_message_id("BulkAccepted", 0, id),
        GuestBody::BulkAccepted(Ok(2)),
    )
}

fn response(id: u32) -> Vec<u8> {
    encoded_message_id("FsResponse", FLAG_TERMINAL, id)
}

#[test]
fn guest_merger_restores_cross_lane_stream_order() {
    let id = 17;
    let budget = Arc::new(Semaphore::new(64 * 1024));
    let mut merger = GuestFrameMerger::new(profile());
    merger.register(TEST_INCARNATION, id).unwrap();

    let (wire, body) = accepted(id);
    let forwarded = merger.push(lane_frame(wire, &budget), body).ok().unwrap();
    assert_eq!(forwarded.len(), 1);

    assert!(merger
        .push(
            lane_frame(encoded_raw(id, 3, b"def"), &budget),
            GuestBody::Other
        )
        .ok()
        .unwrap()
        .is_empty());
    assert!(merger
        .push(
            lane_frame(encoded_message_id("BulkFinish", 0, id), &budget),
            GuestBody::BulkFinish(Ok((BulkFlow::GuestToHost, 6))),
        )
        .ok()
        .unwrap()
        .is_empty());
    assert!(merger
        .push(lane_frame(response(id), &budget), GuestBody::Other)
        .ok()
        .unwrap()
        .is_empty());

    let ready = merger
        .push(
            lane_frame(encoded_raw(id, 0, b"abc"), &budget),
            GuestBody::Other,
        )
        .ok()
        .unwrap();
    assert_eq!(ready.len(), 4);
    assert_eq!(
        raw_bulk_offsets(&profile(), &ready[0].frame).unwrap().0,
        0
    );
    assert_eq!(
        raw_bulk_offsets(&profile(), &ready[1].frame).unwrap().0,
        3
    );
    assert_eq!(name_of(&ready[2]), "BulkFinish");
    assert_eq!(name_of(&ready[3]), "FsResponse");
    assert!(!merger.has_flow(TEST_INCARNATION, id));
}

/// What the merger returns for an operation in the worst order of its events, among those of
/// another owner of the same ID.
#[test]
fn a_whole_run_returns_one_stream() {
    let id = 41;
    let other = TEST_INCARNATION + 1;
    let budget = Arc::new(Semaphore::new(64 * 1024));
    let mut merger = GuestFrameMerger::new(profile());
    merger.register(TEST_INCARNATION, id).unwrap();
    merger.register(other, id).unwrap();
    let events = |incarnation| {
        let event = |bytes, body| (lane_frame_with_incarnation(bytes, &budget, incarnation), body);
        let (wire, body) = accepted(id);
        vec![
            event(encoded_raw(id, 6, b"ghi"), GuestBody::Other),
            event(encoded_raw(id, 0, b"abc"), GuestBody::Other),
            event(wire, body),
            event(encoded_message_id("Credit", 0, id), GuestBody::Other),
            event(
                encoded_message_id("BulkFinish", 0, id),
                GuestBody::BulkFinish(Ok((BulkFlow::GuestToHost, 9))),
            ),
            event(response(id), GuestBody::Other),
            event(encoded_raw(id, 3, b"def"), GuestBody::Other),
            event(encoded_raw(id, 9, b"late"), GuestBody::Other),
            event(response(id), GuestBody::Other),
        ]
    };
    let mut sent = Vec::new();
    for ((own, body), (theirs, their_body)) in events(TEST_INCARNATION).into_iter().zip(events(other)) {
        sent.extend(merger.push(own, body).ok().unwrap());
        sent.extend(merger.push(theirs, their_body).ok().unwrap());
    }
    for incarnation in [TEST_INCARNATION, other] {
        let stream: Vec<String> = sent
            .iter()
            .filter(|frame| frame.incarnation == Some(incarnation))
            .map(|frame| match raw_bulk_offsets(&profile(), &frame.frame) {
                Ok((offset, end, _)) => format!("{offset}..{end}"),
                Err(_) => name_of(frame).to_string(),
            })
            .collect();
        assert_eq!(
            stream,
            ["BulkAccepted", "0..3", "Credit", "3..6", "6..9", "BulkFinish", "FsResponse"]
        );
        assert!(!merger.has_flow(incarnation, id));
    }
    drop(sent);
    assert_eq!(budget.available_permits(), 64 * 1024);
}

#[test]
fn guest_merger_holds_raw_until_acceptance() {
    let id = 29;
    let budget = Arc::new(Semaphore::new(64 * 1024));
    let mut merger = GuestFrameMerger::new(profile());
    merger.register(TEST_INCARNATION, id).unwrap();

    assert!(merger
        .push(
            lane_frame(encoded_raw(id, 0, b"payload"), &budget),
            GuestBody::Other
        )
        .ok()
        .unwrap()
        .is_empty());
    let (wire, body) = accepted(id);
    let ready = merger.push(lane_frame(wire, &budget), body).ok().unwrap();

    assert_eq!(ready.len(), 2);
    assert_eq!(name_of(&ready[0]), "BulkAccepted");
    assert_eq!(
        raw_bulk_offsets(&profile(), &ready[1].frame).unwrap().0,
        0
    );
}

#[test]
fn guest_merger_disconnect_releases_held_lane_budget() {
    let id = 41;
    let budget = Arc::new(Semaphore::new(64 * 1024));
    let full_budget = budget.available_permits();
    let mut merger = GuestFrameMerger::new(profile());
    merger.register(TEST_INCARNATION, id).unwrap();

    merger
        .push(
            lane_frame(encoded_raw(id, 16, b"held"), &budget),
            GuestBody::Other,
        )
        .ok()
        .unwrap();
    assert!(budget.available_permits() < full_budget);

    merger.drop_incarnation(TEST_INCARNATION);

    assert_eq!(budget.available_permits(), full_budget);
}

#[test]
fn guest_merger_never_mixes_recycled_range_incarnations() {
    let id = 47;
    let old = u128::from_be_bytes([0x11; CLIENT_INCARNATION_SIZE]);
    let new = u128::from_be_bytes([0x22; CLIENT_INCARNATION_SIZE]);
    let budget = Arc::new(Semaphore::new(64 * 1024));
    let mut merger = GuestFrameMerger::new(profile());
    merger.register(old, id).unwrap();
    merger.register(new, id).unwrap();

    assert!(merger
        .push(
            lane_frame_with_incarnation(encoded_raw(id, 0, b"old"), &budget, old),
            GuestBody::Other,
        )
        .ok()
        .unwrap()
        .is_empty());
    let (wire, body) = accepted(id);
    let forwarded = merger
        .push(lane_frame_with_incarnation(wire, &budget, new), body)
        .ok()
        .unwrap();
    assert_eq!(forwarded.len(), 1);

    merger.drop_incarnation(old);
    assert!(!merger.has_flow(old, id));
    assert!(merger.has_flow(new, id));

    let ready = merger
        .push(
            lane_frame_with_incarnation(encoded_raw(id, 0, b"new"), &budget, new),
            GuestBody::Other,
        )
        .ok()
        .unwrap();
    assert_eq!(ready.len(), 1);
    assert_eq!(ready[0].incarnation, Some(new));
}

#[test]
fn guest_merger_enforces_per_flow_reorder_budget() {
    const PAYLOAD: &[u8] = &[0x2d; 1024 * 1024];

    let id = 53;
    let budget = Arc::new(Semaphore::new(16 * 1024 * 1024));
    let mut merger = GuestFrameMerger::new(profile());
    merger.register(TEST_INCARNATION, id).unwrap();
    for record in 0..8 {
        let offset = 1 + record * PAYLOAD.len() as u64;
        assert!(merger
            .push(
                lane_frame(encoded_raw(id, offset, PAYLOAD), &budget),
                GuestBody::Other
            )
            .ok()
            .unwrap()
            .is_empty());
    }

    let error = merger
        .push(
            lane_frame(
                encoded_raw(id, 1 + 8 * PAYLOAD.len() as u64, PAYLOAD),
                &budget,
            ),
            GuestBody::Other,
        )
        .err()
        .expect("ninth mebibyte must exceed the per-flow merge budget");

    assert!(error.message().contains("exceeded merge byte budget"));
}

#[test]
fn guest_merger_rejects_overlapping_raw_intervals() {
    let id = 59;
    let budget = Arc::new(Semaphore::new(64 * 1024));
    let mut merger = GuestFrameMerger::new(profile());
    merger.register(TEST_INCARNATION, id).unwrap();

    merger
        .push(
            lane_frame(encoded_raw(id, 10, b"0123456789"), &budget),
            GuestBody::Other,
        )
        .ok()
        .unwrap();
    let error = merger
        .push(
            lane_frame(encoded_raw(id, 5, b"overlap"), &budget),
            GuestBody::Other,
        )
        .err()
        .expect("overlap must be rejected");

    assert!(error.message().contains("overlapping raw record"));
}

#[test]
fn guest_merger_cancel_releases_data_and_discards_late_raw() {
    let id = 61;
    let budget = Arc::new(Semaphore::new(64 * 1024));
    let full_budget = budget.available_permits();
    let mut merger = GuestFrameMerger::new(profile());
    merger.register(TEST_INCARNATION, id).unwrap();
    let (wire, body) = accepted(id);
    merger.push(lane_frame(wire, &budget), body).ok().unwrap();
    merger
        .push(
            lane_frame(encoded_raw(id, 10, b"held"), &budget),
            GuestBody::Other,
        )
        .ok()
        .unwrap();
    merger
        .push(lane_frame(response(id), &budget), GuestBody::Other)
        .ok()
        .unwrap();

    merger.drop_flow(TEST_INCARNATION, id);
    assert_eq!(budget.available_permits(), full_budget);
    let ready = merger
        .push(lane_frame(response(id), &budget), GuestBody::Other)
        .ok()
        .unwrap();
    assert_eq!(ready.len(), 1);
    drop(ready);
    assert_eq!(budget.available_permits(), full_budget);
    assert!(merger
        .push(
            lane_frame(encoded_raw(id, 0, b"late"), &budget),
            GuestBody::Other
        )
        .ok()
        .unwrap()
        .is_empty());
}

#[test]
fn guest_merger_keeps_guest_cancel_route_until_terminal() {
    let id = 67;
    let budget = Arc::new(Semaphore::new(64 * 1024));
    let full_budget = budget.available_permits();
    let mut merger = GuestFrameMerger::new(profile());
    merger.register(TEST_INCARNATION, id).unwrap();
    let (wire, body) = accepted(id);
    merger.push(lane_frame(wire, &budget), body).ok().unwrap();
    merger
        .push(
            lane_frame(encoded_raw(id, 10, b"held"), &budget),
            GuestBody::Other,
        )
        .ok()
        .unwrap();

    let cancel = merger
        .push(
            lane_frame(encoded_message_id("BulkCancel", 0, id), &budget),
            GuestBody::BulkCancel,
        )
        .ok()
        .unwrap();
    assert_eq!(cancel.len(), 1);
    assert!(merger.has_flow(TEST_INCARNATION, id));
    drop(cancel);
    assert_eq!(budget.available_permits(), full_budget);
    assert!(merger
        .push(
            lane_frame(encoded_raw(id, 0, b"late"), &budget),
            GuestBody::Other
        )
        .ok()
        .unwrap()
        .is_empty());

    let terminal = merger
        .push(lane_frame(response(id), &budget), GuestBody::Other)
        .ok()
        .unwrap();
    assert_eq!(terminal.len(), 1);
    assert!(!merger.has_flow(TEST_INCARNATION, id));
    assert!(merger.register(TEST_INCARNATION, id).is_err());
}

fn push_error(
    merger: &mut GuestFrameMerger<OwnedSemaphorePermit>,
    frame: Lane,
    body: GuestBody,
) -> String {
    merger.push(frame, body).err().unwrap().message()
}

#[test]
fn merge_failures_name_their_correlation() {
    let budget = Arc::new(Semaphore::new(1024 * 1024));
    let mut merger = GuestFrameMerger::new(profile());
    let message = |name: &str, id: u32| lane_frame(encoded_message_id(name, 0, id), &budget);

    let mut unowned = message("Other", 5);
    unowned.incarnation = None;
    assert!(push_error(&mut merger, unowned, GuestBody::Other).contains("incarnation"));
    assert_eq!(
        push_error(
            &mut merger,
            message("BulkAccepted", 5),
            GuestBody::BulkAccepted(Err("short".into()))
        ),
        "decode bulk acceptance: short"
    );
    assert!(push_error(
        &mut merger,
        message("BulkAccepted", 5),
        GuestBody::BulkAccepted(Ok(2))
    )
    .contains('5'));
    merger.register(TEST_INCARNATION, 5).unwrap();
    assert!(merger.register(TEST_INCARNATION, 5).is_err());
    merger
        .push(
            message("BulkAccepted", 5),
            GuestBody::BulkAccepted(Ok(2)),
        )
        .ok()
        .unwrap();
    assert!(push_error(
        &mut merger,
        message("BulkAccepted", 5),
        GuestBody::BulkAccepted(Ok(2))
    )
    .contains('5'));
    assert!(push_error(
        &mut merger,
        message("BulkCancel", 6),
        GuestBody::BulkCancel
    )
    .contains('6'));
    let host = {
        let mut wire = encode_bulk_header(
            &profile(),
            5,
            BulkKind::Filesystem,
            BulkFlow::HostToGuest,
            0,
            1,
        );
        wire.push(0);
        lane_frame(wire, &budget)
    };
    assert!(push_error(&mut merger, host, GuestBody::Other).contains('5'));
    assert!(push_error(
        &mut merger,
        lane_frame(encoded_raw(9, 0, b"x"), &budget),
        GuestBody::Other
    )
    .contains('9'));
}

fn roster_with(slot: u32, incarnation: u128) -> Roster {
    let mut roster = Roster::new(&profile());
    roster.connect(slot, Some(incarnation));
    roster
}

#[test]
fn claims_follow_the_current_owner() {
    let mut roster = roster_with(0, 1);
    roster.connect(1, Some(2));
    let profile = profile();
    assert_eq!(roster.claim(&profile, 7, None), Claim::Owner(1));
    assert_eq!(roster.claim(&profile, 7, Some(1)), Claim::Owner(1));
    assert_eq!(
        roster.claim(&profile, 7, Some(2)),
        Claim::Fail(RouteError::OutsideRange { id: 7 })
    );
    assert_eq!(roster.claim(&profile, 7, Some(3)), Claim::Stale);
    assert_eq!(roster.claim(&profile, 5 << 24, Some(3)), Claim::Unowned);
    assert_eq!(
        roster.claim(&profile, 0, None),
        Claim::Fail(RouteError::Unassigned { id: 0 })
    );
    assert!(roster.is_live(2));
    roster.disconnect(1);
    assert!(!roster.is_live(2));
    assert_eq!(roster.claim(&profile, 7, Some(2)), Claim::Stale);
}

#[test]
fn terminal_output_ends_its_session() {
    let profile = profile();
    let mut roster = roster_with(0, 1);
    roster.start_session(0, 7);
    roster.start_session(0, 8);
    roster.start_session(0, 8);
    let route = roster.route(&profile, 7, 0, Some(1), true).unwrap();
    assert!(route.deliver && route.log && !route.terminal);
    let route = roster
        .route(&profile, 7, FLAG_TERMINAL, Some(1), true)
        .unwrap();
    assert!(route.deliver && route.terminal);
    // Output of another owner reaches neither the client nor the log.
    let route = roster.route(&profile, 8, 0, Some(9), true).unwrap();
    assert!(!route.deliver && !route.log);
    // The combined transport logs what no client takes any more.
    let route = roster.route(&profile, 3 << 24, 0, None, false).unwrap();
    assert!(!route.deliver && route.log);
    let route = roster.route(&profile, 8, FLAG_BULK, Some(1), true).unwrap();
    assert!(route.deliver && !route.log);
    assert_eq!(roster.disconnect(0), Some(vec![8]));
    assert_eq!(roster.disconnect(0), None);
    roster.connect(0, Some(4));
    roster.start_session(0, 9);
    roster.finish_session(0, 9);
    assert_eq!(roster.disconnect(0), Some(vec![]));
}

#[test]
fn route_errors_have_their_texts() {
    for (error, text) in [
        (
            RouteError::InvalidFlags { id: 4, flags: 9 },
            "agent relay: guest frame id=4 has invalid flags 9",
        ),
        (
            RouteError::Unassigned { id: 0 },
            "agent relay: guest frame uses unassigned correlation ID 0",
        ),
        (
            RouteError::OutsideRange { id: 4 },
            "agent relay: dedicated bulk correlation 4 lies outside its client incarnation range",
        ),
        (
            RouteError::ChargeOverflow,
            "agent relay: client frame budget overflow",
        ),
        (
            RouteError::BudgetInvariant { slot: 3 },
            "agent relay: per-client output budget invariant failed for slot 3",
        ),
    ] {
        assert_eq!(error.message(), text);
    }
    let mut roster = Roster::new(&profile());
    assert_eq!(
        roster.route(&profile(), 4, 9, None, false),
        Err(RouteError::InvalidFlags { id: 4, flags: 9 })
    );
    assert_eq!(
        roster.route(&profile(), 0, 0, None, false),
        Err(RouteError::Unassigned { id: 0 })
    );
}

#[test]
fn guest_cancellation_cuts_the_scheduler_first() {
    let budget = Arc::new(Semaphore::new(64 * 1024));
    let roster = roster_with(0, 1);
    let frame = |incarnation| {
        let mut frame = lane_frame(encoded_message_id("BulkCancel", 0, 7), &budget);
        frame.incarnation = incarnation;
        frame
    };
    match enter_frame(&profile(), &roster, frame(None), 0, &GuestBody::BulkCancel) {
        Entry::Go { frame, cut } => {
            assert_eq!(frame.incarnation, Some(1));
            assert_eq!(cut, Some((1, 7)));
        }
        _ => panic!("expected an owner"),
    }
    match enter_frame(&profile(), &roster, frame(None), 0, &GuestBody::Other) {
        Entry::Go { cut, .. } => assert_eq!(cut, None),
        _ => panic!("expected an owner"),
    }
    assert!(matches!(
        enter_frame(&profile(), &roster, frame(Some(5)), 0, &GuestBody::Other),
        Entry::Drop
    ));
    let empty = Roster::new(&profile());
    assert!(matches!(
        enter_frame(&profile(), &empty, frame(None), 0, &GuestBody::Other),
        Entry::Drop
    ));
}

#[test]
fn merged_frames_are_routed_in_order() {
    let id = 17;
    let budget = Arc::new(Semaphore::new(64 * 1024));
    let profile = profile();
    let mut roster = roster_with(0, TEST_INCARNATION);
    roster.start_session(0, id);
    let mut merger = GuestFrameMerger::new(profile);
    merger.register(TEST_INCARNATION, id).unwrap();
    let raw = lane_frame(encoded_raw(id, 0, b"abc"), &budget);
    let held = merge_and_route(&profile, &mut merger, &mut roster, raw, GuestBody::Other);
    assert!(held.routed.is_empty() && held.error.is_none());
    let (wire, body) = accepted(id);
    let delivery = merge_and_route(
        &profile,
        &mut merger,
        &mut roster,
        lane_frame(wire, &budget),
        body,
    );
    assert!(delivery.error.is_none());
    assert_eq!(delivery.routed.len(), 2);
    assert_eq!(name_of(&delivery.routed[0].frame), "BulkAccepted");
    assert_eq!(delivery.routed[1].frame.frame.flags, FLAG_BULK);
    assert!(delivery.routed.iter().all(|routed| routed.route.deliver));

    let refused = merge_and_route(
        &profile,
        &mut merger,
        &mut roster,
        lane_frame(encoded_raw(id, 1, b"again"), &budget),
        GuestBody::Other,
    );
    assert!(refused.routed.is_empty());
    assert!(matches!(refused.error, Some(OutputError::Merge(_))));

    let frames = vec![
        lane_frame(encoded_message_id("A", 0, id), &budget),
        lane_frame(encoded_message_id("B", 0x30, id), &budget),
        lane_frame(encoded_message_id("C", 0, id), &budget),
    ];
    let partial = route_frames(&profile, &mut roster, frames, true);
    assert_eq!(partial.routed.len(), 1);
    assert!(matches!(
        partial.error,
        Some(OutputError::Route(RouteError::InvalidFlags { id: 17, flags: 0x30 }))
    ));
}

#[test]
fn log_keeps_observed_sessions_apart() {
    let mut registry = SessionRegistry::new();
    assert_eq!(registry.register(7, false), 1);
    assert_eq!(registry.register(8, true), 2);
    let out = |id, data: &[u8]| LoggedMessage::Stdout {
        id,
        data: Some(data.to_vec()),
    };
    let chunk = registry.tap(out(7, b"a"), false).unwrap();
    assert_eq!(chunk.source, LogSource::Stdout);
    assert_eq!(chunk.session_id, 1);
    assert_eq!(chunk.data, b"a");
    let chunk = registry.tap(out(8, b"b"), false).unwrap();
    assert_eq!((chunk.source, chunk.session_id), (LogSource::Output, 2));
    let chunk = registry
        .tap(
            LoggedMessage::Stderr {
                id: 7,
                data: Some(vec![1]),
            },
            false,
        )
        .unwrap();
    assert_eq!((chunk.source, chunk.session_id), (LogSource::Stderr, 1));
    // Unknown sessions and undecodable payloads are passed over.
    assert!(registry.tap(out(9, b"c"), true).is_none());
    assert!(registry
        .tap(LoggedMessage::Stdout { id: 7, data: None }, false)
        .is_none());
    assert!(registry.tap(LoggedMessage::Undecodable, true).is_none());
    // A terminal frame forgets its session.
    assert!(registry.tap(LoggedMessage::Other { id: 7 }, true).is_none());
    assert!(registry.tap(out(7, b"d"), false).is_none());
    assert_eq!(registry.register(7, false), 3);
}
