//! One physical guest console lane: framing without interpreting control payloads.

use bytes::BytesMut;
use vstd::prelude::*;
use vstd::string::*;

use crate::buffer::buffer_bytes;
use crate::buffer::buffered;
use crate::disconnect::DisconnectAck;
use crate::frames::frame_is;
use crate::frames::front_frame;
use crate::frames::front_record;
use crate::frames::try_decode_incarnated_bulk;
use crate::frames::try_extract_frame;
use crate::frames::FrameError;
use crate::frames::FrontFrame;
use crate::frames::FrontRecord;
use crate::frames::LaneFramingError;
use crate::output::granules;
use crate::output::output_charge;
use crate::text::decimal;
use crate::text::joined;
use crate::text::numbered_pair;
use crate::text::prefixed;
use crate::wire::be_value;
use crate::wire::ClientIncarnation;
use crate::wire::RawFrame;
use crate::wire::WireProfile;
use crate::wire::CLIENT_INCARNATION_SIZE;

verus! {

/// A physical guest console lane. In combined mode the control lane carries everything.
#[derive(Clone, Copy, Debug, PartialEq, Eq, Structural)]
pub enum GuestLane {
    Control,
    Bulk,
}

impl GuestLane {
    pub open spec fn text(self) -> Seq<char> {
        match self {
            GuestLane::Control => "Control"@,
            GuestLane::Bulk => "Bulk"@,
        }
    }

    pub fn name(&self) -> (name: &'static str)
        ensures
            name@ == self.text(),
    {
        match self {
            GuestLane::Control => "Control",
            GuestLane::Bulk => "Bulk",
        }
    }
}

/// Why a lane cannot be read further.
pub enum LaneError {
    Acknowledgement { reason: String },
    Frame(FrameError),
    Record(LaneFramingError),
    WrongLane { id: u32, flags: u8 },
    BudgetOverflow,
}

impl LaneError {
    pub open spec fn text(self) -> Seq<char> {
        match self {
            LaneError::Acknowledgement { reason } =>
                "decode relay client disconnect acknowledgement: "@ + reason@,
            LaneError::Frame(error) => error.text(),
            LaneError::Record(error) => "decode incarnation-bearing bulk frame: "@ + error.text(),
            LaneError::WrongLane { id, flags } => "frame id="@ + decimal(id as nat) + " flags="@
                + decimal(flags as nat) + " arrived on the wrong physical lane"@,
            LaneError::BudgetOverflow => "agent relay: lane frame budget overflow"@,
        }
    }

    pub fn message(&self) -> (text: String)
        ensures
            text@ == self.text(),
    {
        match self {
            LaneError::Acknowledgement { reason } => prefixed(
                "decode relay client disconnect acknowledgement: ",
                reason.as_str(),
            ),
            LaneError::Frame(error) => error.message(),
            LaneError::Record(error) => {
                let detail = error.message();
                prefixed("decode incarnation-bearing bulk frame: ", detail.as_str())
            },
            LaneError::WrongLane { id, flags } => numbered_pair(
                "frame id=",
                *id as u64,
                " flags=",
                *flags as u64,
                " arrived on the wrong physical lane",
            ),
            LaneError::BudgetOverflow => String::from_str(
                "agent relay: lane frame budget overflow",
            ),
        }
    }

    /// Whether the lane is closed at once, so that the guest cannot write more to it.
    pub open spec fn closes(self) -> bool {
        self is Acknowledgement || self is Record || self is WrongLane
    }

    pub fn closes_lane(&self) -> (closes: bool)
        ensures
            closes == self.closes(),
            closes <==> !(self is Frame) && !(self is BudgetOverflow),
    {
        match self {
            LaneError::Acknowledgement { .. } => true,
            LaneError::Record(_) => true,
            LaneError::WrongLane { .. } => true,
            _ => false,
        }
    }
}

/// What looking for a disconnect acknowledgement at the front of the control lane showed, where
/// ranges are leased.
pub enum AckProbe {
    /// None is there, or ranges are not leased.
    Absent,
    /// One was there, and was taken off the lane.
    Taken(DisconnectAck),
    Invalid { reason: String },
}

/// What a lane brings next.
pub enum LaneStep {
    Fail(LaneError),
    Acknowledged(DisconnectAck),
    /// The buffer holds no complete frame.
    NeedMore,
    /// A private lifecycle reply, and how many bytes stand behind it.
    Workload { frame: RawFrame, remaining: usize },
    /// A frame, its claimed owner, its charge, and how many bytes stand behind it.
    Frame {
        frame: RawFrame,
        incarnation: Option<ClientIncarnation>,
        charge: u32,
        remaining: usize,
    },
}

/// The step for a complete frame at the front of a lane, with `after` left behind it.
pub open spec fn is_frame_step(
    profile: WireProfile,
    workload_id: u32,
    lane: GuestLane,
    dual_port: bool,
    wire: Seq<u8>,
    claimed: Option<ClientIncarnation>,
    after: Seq<u8>,
    step: LaneStep,
) -> bool {
    let id = be_value(wire.subrange(4, 8));
    let flags = wire[8];
    if lane == GuestLane::Control && dual_port && flags == profile.flag_bulk {
        step matches LaneStep::Fail(LaneError::WrongLane { id: at, flags: with }) && at == id && with
            == flags
    } else if lane == GuestLane::Control && id == workload_id {
        step matches LaneStep::Workload { frame, remaining } && frame_is(frame, wire) && remaining
            == after.len()
    } else if granules(wire.len()) > u32::MAX {
        step matches LaneStep::Fail(LaneError::BudgetOverflow)
    } else {
        &&& step matches LaneStep::Frame { frame, incarnation, charge, remaining }
        &&& frame_is(frame, wire)
        &&& incarnation == claimed
        &&& charge == granules(wire.len())
        &&& remaining == after.len()
    }
}

/// What a lane brings next, for the bytes that it holds before and after.
pub open spec fn is_lane_step(
    profile: WireProfile,
    workload_id: u32,
    lane: GuestLane,
    dual_port: bool,
    probe: AckProbe,
    before: Seq<u8>,
    after: Seq<u8>,
    step: LaneStep,
) -> bool {
    match (lane, probe) {
        (GuestLane::Control, AckProbe::Taken(ack)) => step == LaneStep::Acknowledged(ack) && after
            == before,
        (GuestLane::Control, AckProbe::Invalid { reason }) => step == LaneStep::Fail(
            LaneError::Acknowledgement { reason },
        ) && after == before,
        (GuestLane::Control, AckProbe::Absent) => match front_frame(
            profile.max_frame_size,
            before,
        ) {
            FrontFrame::Partial => step is NeedMore && after == before,
            FrontFrame::Invalid(error) => step == LaneStep::Fail(LaneError::Frame(error)) && after
                == before,
            FrontFrame::Complete(len) => after == before.subrange(len as int, before.len() as int)
                && is_frame_step(
                profile,
                workload_id,
                lane,
                dual_port,
                before.subrange(0, len as int),
                None,
                after,
                step,
            ),
        },
        (GuestLane::Bulk, _) => match front_record(profile, before) {
            FrontRecord::Partial => step is NeedMore && after == before,
            FrontRecord::Invalid(error) => step == LaneStep::Fail(LaneError::Record(error))
                && after == before,
            FrontRecord::Complete(len) => after == before.subrange(len as int, before.len() as int)
                && is_frame_step(
                profile,
                workload_id,
                lane,
                dual_port,
                before.subrange(CLIENT_INCARNATION_SIZE as int, len as int),
                Some(
                    be_value(
                        before.subrange(0, CLIENT_INCARNATION_SIZE as int),
                    ) as ClientIncarnation,
                ),
                after,
                step,
            ),
        },
    }
}

/// Take what a lane brings next off its buffer.
pub fn next_lane_step(
    profile: &WireProfile,
    workload_id: u32,
    lane: GuestLane,
    dual_port: bool,
    probe: AckProbe,
    buf: &mut BytesMut,
) -> (step: LaneStep)
    requires
        profile.wf(),
    ensures
        is_lane_step(
            *profile,
            workload_id,
            lane,
            dual_port,
            probe,
            buffered(*old(buf)),
            buffered(*final(buf)),
            step,
        ),
{
    match lane {
        GuestLane::Control => {
            match probe {
                AckProbe::Taken(ack) => {
                    return LaneStep::Acknowledged(ack);
                },
                AckProbe::Invalid { reason } => {
                    return LaneStep::Fail(LaneError::Acknowledgement { reason });
                },
                AckProbe::Absent => {},
            }
            let ghost before = buffered(*buf);
            let frame = match try_extract_frame(profile, buf) {
                Ok(Some(frame)) => frame,
                Ok(None) => {
                    return LaneStep::NeedMore;
                },
                Err(error) => {
                    return LaneStep::Fail(LaneError::Frame(error));
                },
            };
            let remaining: usize = buffer_bytes(buf).len();
            if dual_port && frame.flags == profile.flag_bulk {
                return LaneStep::Fail(LaneError::WrongLane { id: frame.id, flags: frame.flags });
            }
            if frame.id == workload_id {
                return LaneStep::Workload { frame, remaining };
            }
            charged_step(frame, None, remaining)
        },
        GuestLane::Bulk => {
            let (incarnation, frame) = match try_decode_incarnated_bulk(profile, buf) {
                Ok(Some(decoded)) => decoded,
                Ok(None) => {
                    return LaneStep::NeedMore;
                },
                Err(error) => {
                    return LaneStep::Fail(LaneError::Record(error));
                },
            };
            let remaining: usize = buffer_bytes(buf).len();
            charged_step(frame, Some(incarnation), remaining)
        },
    }
}

fn charged_step(
    frame: RawFrame,
    incarnation: Option<ClientIncarnation>,
    remaining: usize,
) -> (step: LaneStep)
    ensures
        step == if granules(frame.data@.len()) > u32::MAX {
            LaneStep::Fail(LaneError::BudgetOverflow)
        } else {
            LaneStep::Frame {
                frame,
                incarnation,
                charge: granules(frame.data@.len()) as u32,
                remaining,
            }
        },
{
    match output_charge(frame.data.len()) {
        Some(charge) => LaneStep::Frame { frame, incarnation, charge, remaining },
        None => LaneStep::Fail(LaneError::BudgetOverflow),
    }
}

/// Whether a private lifecycle reply that requires a frozen boundary is refused because something
/// stands behind it.
pub fn violates_frozen_boundary(remaining: usize, requires_boundary: bool) -> (refused: bool)
    ensures
        refused == (remaining != 0 && requires_boundary),
{
    remaining != 0 && requires_boundary
}

/// Why the guest's output cannot be read further.
pub enum ReaderFailure {
    ControlStopped,
    BulkStopped,
    MonitorStopped,
    Lane { lane: GuestLane, detail: Option<String> },
    Merge { reason: String },
    SchedulerStopped,
    SchedulerDropped,
    TrailingFrame,
}

impl ReaderFailure {
    pub open spec fn text(self) -> Seq<char> {
        match self {
            ReaderFailure::ControlStopped => "agent relay: control console lane reader stopped"@,
            ReaderFailure::BulkStopped => "agent relay: bulk console lane reader stopped"@,
            ReaderFailure::MonitorStopped => "agent relay: console lane failure monitor stopped"@,
            ReaderFailure::Lane { lane, detail } => "agent relay: "@ + lane.text()
                + " lane failed: "@ + match detail {
                Some(detail) => detail@,
                None => "stopped unexpectedly"@,
            },
            ReaderFailure::Merge { reason } => "agent relay: cross-lane merge failed: "@ + reason@,
            ReaderFailure::SchedulerStopped => "bulk scheduler stopped during cancel"@,
            ReaderFailure::SchedulerDropped => "bulk scheduler dropped cancellation completion"@,
            ReaderFailure::TrailingFrame =>
                "frozen primary transport has a trailing frame or partial prefix"@,
        }
    }

    pub fn message(&self) -> (text: String)
        ensures
            text@ == self.text(),
    {
        match self {
            ReaderFailure::ControlStopped => String::from_str(
                "agent relay: control console lane reader stopped",
            ),
            ReaderFailure::BulkStopped => String::from_str(
                "agent relay: bulk console lane reader stopped",
            ),
            ReaderFailure::MonitorStopped => String::from_str(
                "agent relay: console lane failure monitor stopped",
            ),
            ReaderFailure::Lane { lane, detail } => {
                let mut text = joined("agent relay: ", lane.name(), " lane failed: ");
                match detail {
                    Some(detail) => text.append(detail.as_str()),
                    None => text.append("stopped unexpectedly"),
                }
                text
            },
            ReaderFailure::Merge { reason } => prefixed(
                "agent relay: cross-lane merge failed: ",
                reason.as_str(),
            ),
            ReaderFailure::SchedulerStopped => String::from_str(
                "bulk scheduler stopped during cancel",
            ),
            ReaderFailure::SchedulerDropped => String::from_str(
                "bulk scheduler dropped cancellation completion",
            ),
            ReaderFailure::TrailingFrame => String::from_str(
                "frozen primary transport has a trailing frame or partial prefix",
            ),
        }
    }
}

/// Bulk records never pass the control lane of a dual-port relay, and nothing else passes the bulk
/// lane.
pub proof fn lanes_carry_their_own_frames(
    profile: WireProfile,
    workload_id: u32,
    lane: GuestLane,
    probe: AckProbe,
    before: Seq<u8>,
    after: Seq<u8>,
    step: LaneStep,
)
    requires
        is_lane_step(profile, workload_id, lane, true, probe, before, after, step),
        step is Frame,
    ensures
        step->Frame_frame.flags == profile.flag_bulk <==> lane == GuestLane::Bulk,
        step->Frame_incarnation is Some <==> lane == GuestLane::Bulk,
{
    if lane == GuestLane::Bulk {
        match front_record(profile, before) {
            FrontRecord::Complete(len) => {
                let wire = before.subrange(CLIENT_INCARNATION_SIZE as int, len as int);
                assert(wire[8] == before[CLIENT_INCARNATION_SIZE + 8]);
            },
            _ => {},
        }
    }
}

/// A lane loses no byte and adds none: what it hands out and what it keeps are, in this order, what it
/// held; and it says how much it keeps. A record of the bulk lane comes with the owner that stands in
/// front of it, and is never taken for a lifecycle reply.
pub proof fn lanes_keep_their_bytes(
    profile: WireProfile,
    workload_id: u32,
    lane: GuestLane,
    dual_port: bool,
    probe: AckProbe,
    before: Seq<u8>,
    after: Seq<u8>,
    step: LaneStep,
)
    requires
        is_lane_step(profile, workload_id, lane, dual_port, probe, before, after, step),
    ensures
        match step {
            LaneStep::Frame { frame, incarnation, charge, remaining } => {
                &&& remaining == after.len()
                &&& frame.data@.len() <= charge
                &&& charge < frame.data@.len() + 4096
                &&& charge % 4096 == 0
                &&& frame.flags == frame.data@[8]
                &&& frame.id == be_value(frame.data@.subrange(4, 8))
                &&& match lane {
                    GuestLane::Control => incarnation is None && before == frame.data@ + after
                        && frame.id != workload_id && probe is Absent,
                    GuestLane::Bulk => before.len() >= 16 && before == before.subrange(0, 16)
                        + frame.data@ + after && incarnation == Some(
                        be_value(before.subrange(0, 16)) as ClientIncarnation,
                    ),
                }
            },
            LaneStep::Workload { frame, remaining } => {
                &&& lane == GuestLane::Control
                &&& frame.id == workload_id
                &&& before == frame.data@ + after
                &&& remaining == after.len()
            },
            LaneStep::Acknowledged(ack) => lane == GuestLane::Control && probe == AckProbe::Taken(
                ack,
            ) && after == before,
            LaneStep::NeedMore => after == before,
            LaneStep::Fail(error) => error is Acknowledgement || error is Frame || error is Record
                ==> after == before,
        },
{
    match step {
        LaneStep::Frame { frame, .. } => {
            if lane == GuestLane::Control {
                assert(before =~= frame.data@ + after);
            } else {
                assert(before =~= before.subrange(0, 16) + frame.data@ + after);
            }
        },
        LaneStep::Workload { frame, .. } => {
            assert(before =~= frame.data@ + after);
        },
        _ => {},
    }
}

/// A lane hands on what is complete: on the control lane every frame, as a lifecycle reply where it
/// has that ID, and only raw records of a dual-port relay are on the wrong lane; on the bulk lane
/// every record. It waits exactly for what is not complete, and fails exactly for what is no frame.
pub proof fn lanes_hand_on_complete_frames(
    profile: WireProfile,
    workload_id: u32,
    lane: GuestLane,
    dual_port: bool,
    probe: AckProbe,
    before: Seq<u8>,
    after: Seq<u8>,
    step: LaneStep,
)
    requires
        is_lane_step(profile, workload_id, lane, dual_port, probe, before, after, step),
    ensures
        lane == GuestLane::Control && probe is Taken ==> step is Acknowledged,
        lane == GuestLane::Control && probe is Invalid ==> (step matches LaneStep::Fail(error)
            && error is Acknowledgement),
        lane == GuestLane::Control && probe is Absent ==> match front_frame(
            profile.max_frame_size,
            before,
        ) {
            FrontFrame::Partial => step is NeedMore,
            FrontFrame::Invalid(error) => step == LaneStep::Fail(LaneError::Frame(error)),
            FrontFrame::Complete(len) => {
                let id = be_value(before.subrange(4, 8));
                let raw = before[8] == profile.flag_bulk;
                &&& after.len() + len == before.len()
                &&& raw && dual_port ==> (step matches LaneStep::Fail(error) && error is WrongLane)
                &&& !(raw && dual_port) && id == workload_id ==> step is Workload
                &&& !(raw && dual_port) && id != workload_id && len + 4095 <= u32::MAX ==> step
                    is Frame
            },
        },
        lane == GuestLane::Bulk ==> match front_record(profile, before) {
            FrontRecord::Partial => step is NeedMore,
            FrontRecord::Invalid(error) => step == LaneStep::Fail(LaneError::Record(error)),
            FrontRecord::Complete(len) => {
                &&& after.len() + len == before.len()
                &&& len + 4095 <= u32::MAX ==> step is Frame
            },
        },
{
    if lane == GuestLane::Control {
        if let FrontFrame::Complete(len) = front_frame(profile.max_frame_size, before) {
            let wire = before.subrange(0, len as int);
            assert(wire.subrange(4, 8) =~= before.subrange(4, 8));
            assert(wire[8] == before[8]);
        }
    }
}

} // verus!
