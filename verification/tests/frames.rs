//! Framing of the console lanes.

use bytes::BytesMut;
use sandbox_runner::frames::bulk_wire_metadata;
use sandbox_runner::frames::client_frame_len;
use sandbox_runner::frames::drain_restored_bulk;
use sandbox_runner::frames::encode_bulk_header;
use sandbox_runner::frames::raw_bulk_offsets;
use sandbox_runner::frames::raw_frame_from;
use sandbox_runner::frames::try_decode_incarnated_bulk;
use sandbox_runner::frames::try_extract_frame;
use sandbox_runner::frames::BulkWireError;
use sandbox_runner::frames::FrameError;
use sandbox_runner::frames::LaneFramingError;
use sandbox_runner::frames::RawBulkError;
use sandbox_runner::lane::next_lane_step;
use sandbox_runner::lane::violates_frozen_boundary;
use sandbox_runner::lane::AckProbe;
use sandbox_runner::lane::GuestLane;
use sandbox_runner::lane::LaneError;
use sandbox_runner::lane::LaneStep;
use sandbox_runner::lane::ReaderFailure;
use sandbox_runner::disconnect::DisconnectAck;
use sandbox_runner::wire::has_valid_frame_flags;
use sandbox_runner::wire::is_client_frame_allowed;
use sandbox_runner::wire::relay_client_id_range;
use sandbox_runner::wire::relay_client_slot;
use sandbox_runner::wire::BulkFlow;
use sandbox_runner::wire::BulkKind;
use sandbox_runner::wire::WireProfile;
use sandbox_runner::wire::CLIENT_INCARNATION_SIZE;

const FLAG_TERMINAL: u8 = 1;
const FLAG_SESSION_START: u8 = 2;
const FLAG_SHUTDOWN: u8 = 4;
const FLAG_BULK: u8 = 8;
const WORKLOAD_ID: u32 = u32::MAX;

fn profile() -> WireProfile {
    WireProfile {
        max_frame_size: 4 * 1024 * 1024,
        max_bulk_payload: 1024 * 1024,
        max_bulk_window: 16 * 1024 * 1024,
        id_range_step: 1 << 24,
        max_clients: 16,
        flag_terminal: FLAG_TERMINAL,
        flag_session_start: FLAG_SESSION_START,
        flag_shutdown: FLAG_SHUTDOWN,
        flag_bulk: FLAG_BULK,
        kind_filesystem: 1,
        kind_tcp: 2,
        flow_host_to_guest: 1,
        flow_guest_to_host: 2,
        flow_mask_guest_to_host: 2,
    }
}

fn encoded_raw_flow(id: u32, flow: BulkFlow, offset: u64, payload: &[u8]) -> Vec<u8> {
    let mut frame = encode_bulk_header(
        &profile(),
        id,
        BulkKind::Filesystem,
        flow,
        offset,
        payload.len(),
    );
    frame.extend_from_slice(payload);
    frame
}

fn encoded_host_raw(id: u32, offset: u64, payload: &[u8]) -> Vec<u8> {
    encoded_raw_flow(id, BulkFlow::HostToGuest, offset, payload)
}

fn encoded_message(id: u32, flags: u8, body: &[u8]) -> Vec<u8> {
    let mut wire = (5 + body.len() as u32).to_be_bytes().to_vec();
    wire.extend_from_slice(&id.to_be_bytes());
    wire.push(flags);
    wire.extend_from_slice(body);
    wire
}

#[test]
fn client_frame_validation_allows_ids_in_assigned_range() {
    assert!(is_client_frame_allowed(&profile(), 10, 0, 10, 20));
    assert!(is_client_frame_allowed(&profile(), 19, FLAG_SESSION_START, 10, 20));
}

#[test]
fn client_frame_validation_rejects_non_shutdown_ids_outside_range() {
    assert!(!is_client_frame_allowed(&profile(), 0, 0, 10, 20));
    assert!(!is_client_frame_allowed(&profile(), 9, FLAG_SESSION_START, 10, 20));
    assert!(!is_client_frame_allowed(&profile(), 20, FLAG_TERMINAL, 10, 20));
}

#[test]
fn client_frame_validation_allows_shutdown_control_id_zero() {
    assert!(is_client_frame_allowed(&profile(), 0, FLAG_SHUTDOWN, 10, 20));
}

#[test]
fn raw_bulk_flag_is_exclusive() {
    assert!(has_valid_frame_flags(&profile(), FLAG_BULK));
    assert!(!has_valid_frame_flags(&profile(), FLAG_BULK | FLAG_TERMINAL));
    assert!(!has_valid_frame_flags(&profile(), 0x80));
}

#[test]
fn bulk_wire_metadata_validates_the_complete_fixed_header() {
    let valid = encoded_host_raw(7, 11, b"payload");
    assert_eq!(
        bulk_wire_metadata(&profile(), &valid).unwrap(),
        (BulkKind::Filesystem, BulkFlow::HostToGuest, 11, 7)
    );

    let mut reserved = valid.to_vec();
    reserved[11] = 1;
    assert!(bulk_wire_metadata(&profile(), &reserved).is_err());

    let mut mismatched_length = valid.to_vec();
    mismatched_length[3] -= 1;
    assert!(bulk_wire_metadata(&profile(), &mismatched_length).is_err());
}

#[test]
fn restore_bulk_drain_preserves_every_fragmented_tail() {
    let mut wire = vec![0x51; CLIENT_INCARNATION_SIZE];
    wire.extend_from_slice(&encoded_raw_flow(
        1,
        BulkFlow::GuestToHost,
        0,
        b"captured bulk",
    ));
    for split in 0..wire.len() {
        let mut input = BytesMut::new();
        if split != 0 {
            drain_restored_bulk(&profile(), &mut input, &wire[..split]).unwrap();
        }
        assert_eq!(input.as_ref(), &wire[..split]);
        let drained = drain_restored_bulk(&profile(), &mut input, &wire[split..]).unwrap();
        assert_eq!(drained, wire.len());
        assert!(input.is_empty());
    }
}

#[test]
fn restored_bulk_suffix_requires_the_source_decoder_prefix() {
    let mut wire = vec![0x51; CLIENT_INCARNATION_SIZE];
    wire.extend_from_slice(&encoded_raw_flow(
        1,
        BulkFlow::GuestToHost,
        0,
        &[0x61; 128],
    ));
    let split = wire.len() - 64;
    let mut source_input = BytesMut::new();
    drain_restored_bulk(&profile(), &mut source_input, &wire[..split]).unwrap();
    assert_eq!(source_input.as_ref(), &wire[..split]);

    // A fresh destination starts in the middle of the record.
    let error = drain_restored_bulk(&profile(), &mut BytesMut::new(), &wire[split..]).err().unwrap();
    assert!(error.message().contains("restored bulk framing"));

    // Keeping the exact prefix makes the same suffix decode normally.
    drain_restored_bulk(&profile(), &mut source_input, &wire[split..]).unwrap();
    assert!(source_input.is_empty());
}

#[test]
fn a_record_that_cannot_be_framed_stays_where_it_stands() {
    let mut good = vec![0x51; CLIENT_INCARNATION_SIZE];
    good.extend_from_slice(&encoded_raw_flow(
        1,
        BulkFlow::GuestToHost,
        0,
        &[0x61; 16],
    ));
    let bad = [0xff; CLIENT_INCARNATION_SIZE + 64];
    let mut input = BytesMut::new();
    let wire = [&good[..], &bad[..]].concat();
    assert!(drain_restored_bulk(&profile(), &mut input, &wire).is_err());
    // The record before it is gone.
    assert_eq!(input.as_ref(), &bad[..]);
}

#[test]
fn restored_control_suffix_requires_the_source_decoder_prefix() {
    let wire = encoded_message(1, 0, &[0x61; 128]);
    let split = wire.len() - 64;
    let mut source_input = BytesMut::from(&wire[..split]);
    assert!(try_extract_frame(&profile(), &mut source_input)
        .unwrap()
        .is_none());

    let suffix = &wire[split..];
    assert!(try_extract_frame(&profile(), &mut BytesMut::from(suffix)).is_err());
    source_input.extend_from_slice(suffix);
    assert!(try_extract_frame(&profile(), &mut source_input)
        .unwrap()
        .is_some());
    assert!(source_input.is_empty());
}

#[test]
fn frames_leave_what_follows_in_the_buffer() {
    let mut wire = encoded_message(7, FLAG_TERMINAL, b"body");
    let len = wire.len();
    wire.extend_from_slice(&[0, 0]);
    let mut buffer = BytesMut::from(wire.as_slice());
    let frame = try_extract_frame(&profile(), &mut buffer).unwrap().unwrap();
    assert_eq!(frame.data, &wire[..len]);
    assert_eq!(frame.id, 7);
    assert_eq!(frame.flags, FLAG_TERMINAL);
    assert_eq!(buffer.as_ref(), &[0, 0]);
    assert!(try_extract_frame(&profile(), &mut buffer)
        .unwrap()
        .is_none());
}

#[test]
fn frame_lengths_are_bounded_on_both_sides() {
    let max = 4 * 1024 * 1024u32;
    let large = (max + 1).to_be_bytes();
    assert_eq!(
        try_extract_frame(&profile(), &mut BytesMut::from(large.as_slice())).err().unwrap(),
        FrameError::TooLarge {
            announced: max + 1,
            max
        }
    );
    assert_eq!(
        client_frame_len(&profile(), &large).err().unwrap().message(),
        "agent relay: frame too large: 4194305 bytes (max 4194304)"
    );
    let short = [0, 0, 0, 4, 1, 2, 3, 4];
    assert_eq!(
        try_extract_frame(&profile(), &mut BytesMut::from(short.as_slice())).err().unwrap(),
        FrameError::TooShort { announced: 4 }
    );
    assert_eq!(
        client_frame_len(&profile(), &short[..4]).err().unwrap().message(),
        "agent relay: frame too short: 4 bytes"
    );
    assert_eq!(client_frame_len(&profile(), &[0, 0, 0, 9]).unwrap(), 9);
}

#[test]
fn every_bulk_header_defect_has_its_error() {
    let profile = profile();
    let valid = encoded_host_raw(7, 11, b"payload");
    assert_eq!(
        bulk_wire_metadata(&profile, &valid[..21]).err().unwrap(),
        BulkWireError::MissingPayload
    );
    let mut other = valid.clone();
    other[3] += 1;
    assert_eq!(
        bulk_wire_metadata(&profile, &other).err().unwrap(),
        BulkWireError::LengthMismatch
    );
    let mut other = valid.clone();
    other[8] = FLAG_BULK | FLAG_TERMINAL;
    assert_eq!(
        bulk_wire_metadata(&profile, &other).err().unwrap(),
        BulkWireError::NotExclusive
    );
    let mut other = valid.clone();
    other[9] = 9;
    assert_eq!(
        bulk_wire_metadata(&profile, &other).err().unwrap(),
        BulkWireError::UnknownKind(9)
    );
    let mut other = valid.clone();
    other[10] = 9;
    assert_eq!(
        bulk_wire_metadata(&profile, &other).err().unwrap(),
        BulkWireError::UnknownFlow(9)
    );
    let mut other = valid.clone();
    other[12] = 1;
    assert_eq!(
        bulk_wire_metadata(&profile, &other).err().unwrap(),
        BulkWireError::ReservedNotZero
    );
    let mut other = valid.clone();
    for byte in &mut other[13..21] {
        *byte = 0xff;
    }
    assert_eq!(
        bulk_wire_metadata(&profile, &other).err().unwrap(),
        BulkWireError::OffsetOverflow
    );
    let small = WireProfile {
        max_bulk_payload: 6,
        ..profile
    };
    assert_eq!(
        bulk_wire_metadata(&small, &valid).err().unwrap(),
        BulkWireError::PayloadTooLarge { len: 7, max: 6 }
    );
}

#[test]
fn raw_offsets_cover_the_payload() {
    let profile = profile();
    let frame = raw_frame_from(encoded_raw_flow(7, BulkFlow::GuestToHost, 11, b"payload"));
    assert_eq!(
        raw_bulk_offsets(&profile, &frame).unwrap(),
        (11, 18, BulkFlow::GuestToHost)
    );
    let control = raw_frame_from(encoded_message(7, 0, &[0; 32]));
    assert_eq!(
        raw_bulk_offsets(&profile, &control).err().unwrap(),
        RawBulkError::Malformed
    );
    let mut wire = encoded_host_raw(7, 11, b"payload");
    wire[11] = 1;
    assert_eq!(
        raw_bulk_offsets(&profile, &raw_frame_from(wire)).err().unwrap(),
        RawBulkError::ReservedNotZero
    );
    let mut wire = encoded_host_raw(7, 11, b"payload");
    wire[10] = 5;
    let error = raw_bulk_offsets(&profile, &raw_frame_from(wire)).err().unwrap();
    assert_eq!(error, RawBulkError::UnknownFlow(5));
    assert_eq!(error.message(), "agent relay: unknown raw bulk flow 5");
    let mut wire = encoded_host_raw(7, 11, b"payload");
    for byte in &mut wire[13..21] {
        *byte = 0xff;
    }
    assert_eq!(
        raw_bulk_offsets(&profile, &raw_frame_from(wire)).err().unwrap(),
        RawBulkError::OffsetOverflow
    );
}

#[test]
fn encoded_records_read_back() {
    let mut wire = 0x0102_0304_0506_0708_090a_0b0c_0d0e_0f10u128
        .to_be_bytes()
        .to_vec();
    let frame = encoded_raw_flow(9, BulkFlow::GuestToHost, 3, b"xyz");
    wire.extend_from_slice(&frame);
    wire.push(0x7f);
    let mut buffer = BytesMut::from(wire.as_slice());
    let (incarnation, decoded) = try_decode_incarnated_bulk(&profile(), &mut buffer)
        .unwrap()
        .unwrap();
    assert_eq!(incarnation, 0x0102_0304_0506_0708_090a_0b0c_0d0e_0f10);
    assert_eq!(decoded.data, frame);
    assert_eq!(buffer.as_ref(), &[0x7f]);
}

#[test]
fn slots_own_their_ranges() {
    let profile = profile();
    assert_eq!(relay_client_slot(&profile, 0), None);
    assert_eq!(relay_client_slot(&profile, 1), Some(0));
    assert_eq!(relay_client_slot(&profile, (1 << 24) + 5), Some(1));
    assert_eq!(relay_client_slot(&profile, 16 << 24), None);
    assert_eq!(relay_client_id_range(&profile, 0), Some((1, 1 << 24)));
    assert_eq!(
        relay_client_id_range(&profile, 1),
        Some((1 << 24, 2 << 24))
    );
    assert_eq!(relay_client_id_range(&profile, 16), None);
}

fn step(lane: GuestLane, dual_port: bool, probe: AckProbe, buffer: &mut BytesMut) -> LaneStep {
    next_lane_step(&profile(), WORKLOAD_ID, lane, dual_port, probe, buffer)
}

#[test]
fn lanes_hand_out_their_own_frames() {
    let wire = encoded_message(7, 0, &[1; 5000]);
    let mut buffer = BytesMut::from(wire.as_slice());
    match step(GuestLane::Control, true, AckProbe::Absent, &mut buffer) {
        LaneStep::Frame {
            frame,
            incarnation,
            charge,
            remaining,
        } => {
            assert_eq!(frame.data, wire);
            assert_eq!(incarnation, None);
            assert_eq!(charge, 8192);
            assert_eq!(remaining, 0);
        }
        _ => panic!("expected a frame"),
    }
    assert!(matches!(
        step(GuestLane::Control, true, AckProbe::Absent, &mut buffer),
        LaneStep::NeedMore
    ));

    let raw = encoded_raw_flow(7, BulkFlow::GuestToHost, 0, b"raw");
    let mut buffer = BytesMut::from(raw.as_slice());
    let LaneStep::Fail(error) = step(GuestLane::Control, true, AckProbe::Absent, &mut buffer)
    else {
        panic!("bulk records must not pass the control lane");
    };
    assert!(error.closes_lane());
    assert_eq!(
        error.message(),
        "frame id=7 flags=8 arrived on the wrong physical lane"
    );
    // The combined transport carries both.
    let mut buffer = BytesMut::from(raw.as_slice());
    assert!(matches!(
        step(GuestLane::Control, false, AckProbe::Absent, &mut buffer),
        LaneStep::Frame { .. }
    ));

    let mut record = vec![0x51; CLIENT_INCARNATION_SIZE];
    record.extend_from_slice(&raw);
    let mut buffer = BytesMut::from(record.as_slice());
    match step(GuestLane::Bulk, true, AckProbe::Absent, &mut buffer) {
        LaneStep::Frame {
            frame, incarnation, ..
        } => {
            assert_eq!(frame.data, raw);
            assert_eq!(
                incarnation,
                Some(u128::from_be_bytes([0x51; CLIENT_INCARNATION_SIZE]))
            );
        }
        _ => panic!("expected a record"),
    }
    let mut control = vec![0x51; CLIENT_INCARNATION_SIZE];
    control.extend_from_slice(&encoded_message(7, 0, &[0; 40]));
    let LaneStep::Fail(error) = step(
        GuestLane::Bulk,
        true,
        AckProbe::Absent,
        &mut BytesMut::from(control.as_slice()),
    ) else {
        panic!("control frames must not pass the bulk lane");
    };
    assert!(matches!(
        error,
        LaneError::Record(LaneFramingError::NotBulk { flags: 0 })
    ));
    assert!(error.closes_lane());
}

#[test]
fn private_replies_and_acknowledgements_bypass_clients() {
    let mut wire = encoded_message(WORKLOAD_ID, 0, b"frozen");
    wire.push(9);
    let mut buffer = BytesMut::from(wire.as_slice());
    match step(GuestLane::Control, true, AckProbe::Absent, &mut buffer) {
        LaneStep::Workload { frame, remaining } => {
            assert_eq!(frame.id, WORKLOAD_ID);
            assert_eq!(remaining, 1);
            assert!(violates_frozen_boundary(remaining, true));
            assert!(!violates_frozen_boundary(remaining, false));
            assert!(!violates_frozen_boundary(0, true));
        }
        _ => panic!("expected a private reply"),
    }
    let ack = DisconnectAck {
        id_start: 1,
        id_end: 2,
        incarnation: 3,
    };
    assert!(matches!(
        step(GuestLane::Control, true, AckProbe::Taken(ack), &mut buffer),
        LaneStep::Acknowledged(taken) if taken == ack
    ));
    let LaneStep::Fail(error) = step(
        GuestLane::Control,
        true,
        AckProbe::Invalid {
            reason: "truncated".into(),
        },
        &mut buffer,
    ) else {
        panic!("expected a failure");
    };
    assert_eq!(
        error.message(),
        "decode relay client disconnect acknowledgement: truncated"
    );
    assert!(error.closes_lane());
    let LaneStep::Fail(error) = step(
        GuestLane::Control,
        true,
        AckProbe::Absent,
        &mut BytesMut::from([0xff; 4].as_slice()),
    ) else {
        panic!("expected a failure");
    };
    assert!(!error.closes_lane());
}

#[test]
fn reader_failures_name_their_cause() {
    for (failure, text) in [
        (
            ReaderFailure::ControlStopped,
            "agent relay: control console lane reader stopped",
        ),
        (
            ReaderFailure::BulkStopped,
            "agent relay: bulk console lane reader stopped",
        ),
        (
            ReaderFailure::MonitorStopped,
            "agent relay: console lane failure monitor stopped",
        ),
        (
            ReaderFailure::Lane {
                lane: GuestLane::Bulk,
                detail: None,
            },
            "agent relay: Bulk lane failed: stopped unexpectedly",
        ),
        (
            ReaderFailure::Lane {
                lane: GuestLane::Control,
                detail: Some("gone".into()),
            },
            "agent relay: Control lane failed: gone",
        ),
        (
            ReaderFailure::Merge {
                reason: "overlap".into(),
            },
            "agent relay: cross-lane merge failed: overlap",
        ),
        (
            ReaderFailure::SchedulerStopped,
            "bulk scheduler stopped during cancel",
        ),
        (
            ReaderFailure::SchedulerDropped,
            "bulk scheduler dropped cancellation completion",
        ),
        (
            ReaderFailure::TrailingFrame,
            "frozen primary transport has a trailing frame or partial prefix",
        ),
    ] {
        assert_eq!(failure.message(), text);
    }
}
