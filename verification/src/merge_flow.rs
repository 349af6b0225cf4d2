//! Guest-to-host ordering of one bulk operation whose control frames and raw records arrive on
//! different lanes.

use std::collections::VecDeque;

use vstd::prelude::*;
use vstd::string::*;

use crate::frames::RawBulkError;
use crate::retire::UnassignedCorrelation;
use crate::text::decimal;
use crate::text::labelled;
use crate::text::labelled_pair;
use crate::text::numbered;
use crate::text::prefixed;
use crate::wire::ClientIncarnation;
use crate::wire::RawFrame;
use crate::wire::WireProfile;

verus! {

/// Maximum out-of-order records retained for one guest-to-host bulk flow.
pub const BULK_MERGE_MAX_PENDING_RECORDS: usize = 1024;

/// Maximum bytes queued for one bulk correlation.
pub const BULK_WRITE_FLOW_CAPACITY: usize = 8 * 1024 * 1024;

/// Parsed frame whose admission permit follows it through cross-lane reordering.
pub struct LaneFrame<P> {
    pub frame: RawFrame,
    /// Range owner carried by or inferred for this event.
    pub incarnation: Option<ClientIncarnation>,
    /// Lane capacity, released when the frame is dropped.
    pub permit: P,
}

/// Why a guest frame cannot be merged.
#[derive(Debug)]
pub enum MergeError {
    Reused { id: u32 },
    MissingIncarnation,
    Undecodable { reason: String },
    MalformedAcceptance { reason: String },
    MalformedFinish { reason: String },
    UnregisteredAcceptance { id: u32 },
    DuplicateAcceptance { id: u32 },
    DisabledFlow { id: u32 },
    FinishBeforeAcceptance { id: u32 },
    FinishOnInactiveFlow { id: u32 },
    FinishRegressed { final_offset: u64, forwarded: u64 },
    DuplicateFinish { id: u32 },
    UnregisteredCancellation { id: u32 },
    DuplicateTerminal { id: u32 },
    Unassigned(UnassignedCorrelation),
    Raw(RawBulkError),
    HostToGuestRecord { id: u32 },
    UnregisteredRecord { id: u32 },
    RecordAfterFinish { id: u32 },
    RecordExceedsFinish { end: u64, id: u32 },
    DuplicateOffset { offset: u64, id: u32 },
    OverlapAt { offset: u64, id: u32 },
    OverlapEnding { end: u64, id: u32 },
    RecordBudget { id: u32 },
    ByteOverflow,
    ByteBudget { id: u32 },
    RecordsExceedFinalOffset { id: u32 },
}

impl MergeError {
    pub open spec fn text(self) -> Seq<char> {
        match self {
            MergeError::Reused { id } => "correlation "@ + decimal(id as nat)
                + " was reused within one client incarnation"@,
            MergeError::MissingIncarnation => "dual-port merge event is missing client incarnation"@,
            MergeError::Undecodable { reason } => "decode frame: "@ + reason@,
            MergeError::MalformedAcceptance { reason } => "decode bulk acceptance: "@ + reason@,
            MergeError::MalformedFinish { reason } => "decode bulk finish: "@ + reason@,
            MergeError::UnregisteredAcceptance { id } => "bulk acceptance for unregistered correlation "@
                + decimal(id as nat),
            MergeError::DuplicateAcceptance { id } => "duplicate bulk acceptance for correlation "@
                + decimal(id as nat),
            MergeError::DisabledFlow { id } => "guest sent raw records for disabled flow "@
                + decimal(id as nat),
            MergeError::FinishBeforeAcceptance { id } => "bulk finish arrived before acceptance for correlation "@
                + decimal(id as nat),
            MergeError::FinishOnInactiveFlow { id } => "bulk finish arrived for inactive guest-to-host flow "@
                + decimal(id as nat),
            MergeError::FinishRegressed { final_offset, forwarded } => "bulk finish "@ + decimal(
                final_offset as nat,
            ) + " regressed behind forwarded offset "@ + decimal(forwarded as nat),
            MergeError::DuplicateFinish { id } => "duplicate bulk finish for correlation "@
                + decimal(id as nat),
            MergeError::UnregisteredCancellation { id } => "bulk cancellation for unregistered correlation "@
                + decimal(id as nat),
            MergeError::DuplicateTerminal { id } => "duplicate terminal frame for bulk correlation "@
                + decimal(id as nat),
            MergeError::Unassigned(error) => error.text(),
            MergeError::Raw(error) => error.text(),
            MergeError::HostToGuestRecord { id } => "guest sent host-to-guest raw record for correlation "@
                + decimal(id as nat),
            MergeError::UnregisteredRecord { id } => "raw record for unregistered correlation "@
                + decimal(id as nat),
            MergeError::RecordAfterFinish { id } => "raw record arrived after bulk finish for correlation "@
                + decimal(id as nat),
            MergeError::RecordExceedsFinish { end, id } => "raw record end "@ + decimal(end as nat)
                + " exceeds pending finish for correlation "@ + decimal(id as nat),
            MergeError::DuplicateOffset { offset, id } => "duplicate or regressed raw offset "@
                + decimal(offset as nat) + " for correlation "@ + decimal(id as nat),
            MergeError::OverlapAt { offset, id } => "overlapping raw record at offset "@ + decimal(
                offset as nat,
            ) + " for correlation "@ + decimal(id as nat),
            MergeError::OverlapEnding { end, id } => "overlapping raw record ending at "@ + decimal(
                end as nat,
            ) + " for correlation "@ + decimal(id as nat),
            MergeError::RecordBudget { id } => "guest bulk flow "@ + decimal(id as nat)
                + " exceeded merge record budget"@,
            MergeError::ByteOverflow => "bulk merge byte budget overflow"@,
            MergeError::ByteBudget { id } => "guest bulk flow "@ + decimal(id as nat)
                + " exceeded merge byte budget"@,
            MergeError::RecordsExceedFinalOffset { id } => "bulk records exceed final offset for correlation "@
                + decimal(id as nat),
        }
    }

    pub fn message(&self) -> (text: String)
        ensures
            text@ == self.text(),
    {
        match self {
            MergeError::Reused { id } => numbered(
                "correlation ",
                *id as u64,
                " was reused within one client incarnation",
            ),
            MergeError::MissingIncarnation => String::from_str(
                "dual-port merge event is missing client incarnation",
            ),
            MergeError::Undecodable { reason } => prefixed("decode frame: ", reason.as_str()),
            MergeError::MalformedAcceptance { reason } => prefixed(
                "decode bulk acceptance: ",
                reason.as_str(),
            ),
            MergeError::MalformedFinish { reason } => prefixed(
                "decode bulk finish: ",
                reason.as_str(),
            ),
            MergeError::UnregisteredAcceptance { id } => labelled(
                "bulk acceptance for unregistered correlation ",
                *id as u64,
            ),
            MergeError::DuplicateAcceptance { id } => labelled(
                "duplicate bulk acceptance for correlation ",
                *id as u64,
            ),
            MergeError::DisabledFlow { id } => labelled(
                "guest sent raw records for disabled flow ",
                *id as u64,
            ),
            MergeError::FinishBeforeAcceptance { id } => labelled(
                "bulk finish arrived before acceptance for correlation ",
                *id as u64,
            ),
            MergeError::FinishOnInactiveFlow { id } => labelled(
                "bulk finish arrived for inactive guest-to-host flow ",
                *id as u64,
            ),
            MergeError::FinishRegressed { final_offset, forwarded } => labelled_pair(
                "bulk finish ",
                *final_offset,
                " regressed behind forwarded offset ",
                *forwarded,
            ),
            MergeError::DuplicateFinish { id } => labelled(
                "duplicate bulk finish for correlation ",
                *id as u64,
            ),
            MergeError::UnregisteredCancellation { id } => labelled(
                "bulk cancellation for unregistered correlation ",
                *id as u64,
            ),
            MergeError::DuplicateTerminal { id } => labelled(
                "duplicate terminal frame for bulk correlation ",
                *id as u64,
            ),
            MergeError::Unassigned(error) => error.message(),
            MergeError::Raw(error) => error.message(),
            MergeError::HostToGuestRecord { id } => labelled(
                "guest sent host-to-guest raw record for correlation ",
                *id as u64,
            ),
            MergeError::UnregisteredRecord { id } => labelled(
                "raw record for unregistered correlation ",
                *id as u64,
            ),
            MergeError::RecordAfterFinish { id } => labelled(
                "raw record arrived after bulk finish for correlation ",
                *id as u64,
            ),
            MergeError::RecordExceedsFinish { end, id } => labelled_pair(
                "raw record end ",
                *end,
                " exceeds pending finish for correlation ",
                *id as u64,
            ),
            MergeError::DuplicateOffset { offset, id } => labelled_pair(
                "duplicate or regressed raw offset ",
                *offset,
                " for correlation ",
                *id as u64,
            ),
            MergeError::OverlapAt { offset, id } => labelled_pair(
                "overlapping raw record at offset ",
                *offset,
                " for correlation ",
                *id as u64,
            ),
            MergeError::OverlapEnding { end, id } => labelled_pair(
                "overlapping raw record ending at ",
                *end,
                " for correlation ",
                *id as u64,
            ),
            MergeError::RecordBudget { id } => numbered(
                "guest bulk flow ",
                *id as u64,
                " exceeded merge record budget",
            ),
            MergeError::ByteOverflow => String::from_str("bulk merge byte budget overflow"),
            MergeError::ByteBudget { id } => numbered(
                "guest bulk flow ",
                *id as u64,
                " exceeded merge byte budget",
            ),
            MergeError::RecordsExceedFinalOffset { id } => labelled(
                "bulk records exceed final offset for correlation ",
                *id as u64,
            ),
        }
    }
}

/// A raw record that waits for earlier bytes: its interval and its frame.
pub struct HeldRaw<P> {
    pub offset: u64,
    pub end: u64,
    pub frame: LaneFrame<P>,
}

/// Guest-to-host ordering state for one bulk correlation.
pub struct GuestMergeFlow<P> {
    cancelling: bool,
    accepted_forwarded: bool,
    guest_to_host: bool,
    next_raw_offset: u64,
    /// Ordered by offset.
    pending_raw: VecDeque<HeldRaw<P>>,
    pending_raw_bytes: usize,
    pending_finish: Option<(u64, LaneFrame<P>)>,
    finish_forwarded: bool,
    pending_terminal: Option<LaneFrame<P>>,
}

/// What a flow has forwarded and what it holds back.
pub struct FlowState<P> {
    pub cancelling: bool,
    pub accepted: bool,
    pub guest_to_host: bool,
    /// End of the raw bytes forwarded so far.
    pub next: u64,
    /// Held records in the order of their offsets.
    pub held: Seq<HeldRaw<P>>,
    pub finish: Option<(u64, LaneFrame<P>)>,
    pub finish_forwarded: bool,
    pub terminal: Option<LaneFrame<P>>,
}

impl<P> View for GuestMergeFlow<P> {
    type V = FlowState<P>;

    closed spec fn view(&self) -> FlowState<P> {
        FlowState {
            cancelling: self.cancelling,
            accepted: self.accepted_forwarded,
            guest_to_host: self.guest_to_host,
            next: self.next_raw_offset,
            held: self.pending_raw@,
            finish: self.pending_finish,
            finish_forwarded: self.finish_forwarded,
            terminal: self.pending_terminal,
        }
    }
}

/// Payload bytes of held records.
pub open spec fn held_bytes<P>(held: Seq<HeldRaw<P>>) -> nat
    decreases held.len(),
{
    if held.len() == 0 {
        0
    } else {
        held_bytes(held.drop_last()) + (held.last().end - held.last().offset) as nat
    }
}

/// The records are ordered and disjoint, none is empty, and none starts before `next`.
pub open spec fn held_in_order<P>(held: Seq<HeldRaw<P>>, next: u64) -> bool {
    &&& forall|i: int| 0 <= i < held.len() ==> next <= (#[trigger] held[i]).offset < held[i].end
    &&& forall|i: int, j: int|
        0 <= i < j < held.len() ==> (#[trigger] held[i]).end <= (#[trigger] held[j]).offset
}

impl<P> FlowState<P> {
    /// State of an operation that was just registered.
    pub open spec fn fresh() -> FlowState<P> {
        FlowState {
            cancelling: false,
            accepted: false,
            guest_to_host: false,
            next: 0,
            held: Seq::empty(),
            finish: None,
            finish_forwarded: false,
            terminal: None,
        }
    }

    /// The budgets hold, what is held is disjoint and not yet forwarded, and a cancelled flow
    /// holds no data.
    pub open spec fn wf(self) -> bool {
        &&& held_in_order(self.held, self.next)
        &&& self.held.len() <= BULK_MERGE_MAX_PENDING_RECORDS
        &&& held_bytes(self.held) <= BULK_WRITE_FLOW_CAPACITY
        &&& self.cancelling ==> self.held.len() == 0
        &&& self.finish_forwarded ==> self.held.len() == 0
        &&& !self.accepted ==> !self.guest_to_host
        &&& !self.guest_to_host ==> self.next == 0 && self.finish is None && !self.finish_forwarded
            && self.terminal is None
    }
}

/// Outcome of one event on one flow.
pub enum FlowStep<P> {
    /// The flow goes on; these frames are forwarded in this order.
    Keep { flow: FlowState<P>, ready: Seq<LaneFrame<P>> },
    /// The terminal frame is among the forwarded ones: the operation is over.
    Done { ready: Seq<LaneFrame<P>> },
    /// The stream cannot be continued.
    Fail { flow: FlowState<P>, error: MergeError },
}

/// How many held records follow `next` without a gap.
pub open spec fn run_len<P>(held: Seq<HeldRaw<P>>, next: u64) -> nat
    decreases held.len(),
{
    if held.len() > 0 && held[0].offset == next {
        1 + run_len(held.subrange(1, held.len() as int), held[0].end)
    } else {
        0
    }
}

/// End of the forwarded bytes once the first `n` held records went out.
pub open spec fn end_after<P>(held: Seq<HeldRaw<P>>, next: u64, n: nat) -> u64 {
    if n == 0 {
        next
    } else {
        held[n - 1].end
    }
}

/// The frames of held records.
pub open spec fn frames_of<P>(held: Seq<HeldRaw<P>>) -> Seq<LaneFrame<P>> {
    Seq::new(held.len(), |i: int| held[i].frame)
}

/// Forward what is no longer blocked: the gapless run of held records, then the finish that they
/// complete, then the terminal frame that waited for it.
pub open spec fn drain<P>(flow: FlowState<P>, ready: Seq<LaneFrame<P>>, id: u32) -> FlowStep<P> {
    if flow.cancelling || !flow.accepted || !flow.guest_to_host {
        FlowStep::Keep { flow, ready }
    } else {
        let n = run_len(flow.held, flow.next);
        let next = end_after(flow.held, flow.next, n);
        let rest = flow.held.subrange(n as int, flow.held.len() as int);
        let sent = ready + frames_of(flow.held.subrange(0, n as int));
        match flow.finish {
            Some((final_offset, finish)) if final_offset == next => if rest.len() > 0 {
                FlowStep::Fail {
                    flow: FlowState { next, held: rest, ..flow },
                    error: MergeError::RecordsExceedFinalOffset { id },
                }
            } else {
                match flow.terminal {
                    Some(terminal) => FlowStep::Done { ready: sent.push(finish).push(terminal) },
                    None => FlowStep::Keep {
                        flow: FlowState {
                            next,
                            held: rest,
                            finish: None,
                            finish_forwarded: true,
                            ..flow
                        },
                        ready: sent.push(finish),
                    },
                }
            },
            _ => FlowStep::Keep { flow: FlowState { next, held: rest, ..flow }, ready: sent },
        }
    }
}

/// The peer accepts the operation with these flow directions.
pub open spec fn accept_step<P>(
    profile: WireProfile,
    flow: FlowState<P>,
    id: u32,
    directions: u8,
    frame: LaneFrame<P>,
) -> FlowStep<P> {
    let guest_to_host = directions & profile.flow_mask_guest_to_host != 0;
    if flow.accepted {
        FlowStep::Fail { flow, error: MergeError::DuplicateAcceptance { id } }
    } else if !guest_to_host && flow.held.len() > 0 {
        FlowStep::Fail {
            flow: FlowState { accepted: true, guest_to_host, ..flow },
            error: MergeError::DisabledFlow { id },
        }
    } else {
        drain(FlowState { accepted: true, guest_to_host, ..flow }, seq![frame], id)
    }
}

/// The guest ends its stream at `final_offset`.
pub open spec fn finish_step<P>(
    flow: FlowState<P>,
    id: u32,
    final_offset: u64,
    frame: LaneFrame<P>,
) -> FlowStep<P> {
    if !flow.accepted || !flow.guest_to_host {
        FlowStep::Fail { flow, error: MergeError::FinishOnInactiveFlow { id } }
    } else if final_offset < flow.next {
        FlowStep::Fail {
            flow,
            error: MergeError::FinishRegressed { final_offset, forwarded: flow.next },
        }
    } else if flow.finish is Some {
        FlowStep::Fail { flow, error: MergeError::DuplicateFinish { id } }
    } else {
        drain(FlowState { finish: Some((final_offset, frame)), ..flow }, Seq::empty(), id)
    }
}

/// A terminal frame: forwarded at once unless guest data must precede it.
pub open spec fn terminal_step<P>(flow: FlowState<P>, id: u32, frame: LaneFrame<P>) -> FlowStep<P> {
    if flow.cancelling || !flow.guest_to_host || flow.finish_forwarded {
        FlowStep::Done { ready: seq![frame] }
    } else if flow.terminal is Some {
        FlowStep::Fail {
            flow: FlowState { terminal: Some(frame), ..flow },
            error: MergeError::DuplicateTerminal { id },
        }
    } else {
        FlowStep::Keep { flow: FlowState { terminal: Some(frame), ..flow }, ready: Seq::empty() }
    }
}

/// The operation is being cancelled: held data can no longer be delivered.
pub open spec fn cancelled<P>(flow: FlowState<P>) -> FlowState<P> {
    FlowState { cancelling: true, held: Seq::empty(), finish: None, ..flow }
}

/// Where a record with this offset belongs among the held ones.
pub open spec fn slot_for<P>(held: Seq<HeldRaw<P>>, offset: u64) -> nat
    decreases held.len(),
{
    if held.len() == 0 || held[0].offset >= offset {
        0
    } else {
        1 + slot_for(held.subrange(1, held.len() as int), offset)
    }
}

/// A raw guest-to-host record for `[offset, end)`.
pub open spec fn raw_step<P>(
    flow: FlowState<P>,
    id: u32,
    offset: u64,
    end: u64,
    frame: LaneFrame<P>,
) -> FlowStep<P> {
    if flow.cancelling {
        FlowStep::Keep { flow, ready: Seq::empty() }
    } else if flow.finish_forwarded {
        FlowStep::Fail { flow, error: MergeError::RecordAfterFinish { id } }
    } else if flow.finish matches Some((final_offset, _)) && end > final_offset {
        FlowStep::Fail { flow, error: MergeError::RecordExceedsFinish { end, id } }
    } else if offset < flow.next || exists|i: int|
        0 <= i < flow.held.len() && (#[trigger] flow.held[i]).offset == offset {
        FlowStep::Fail { flow, error: MergeError::DuplicateOffset { offset, id } }
    } else if exists|i: int|
        0 <= i < flow.held.len() && (#[trigger] flow.held[i]).offset < offset < flow.held[i].end {
        FlowStep::Fail { flow, error: MergeError::OverlapAt { offset, id } }
    } else if exists|i: int|
        0 <= i < flow.held.len() && offset < (#[trigger] flow.held[i]).offset < end {
        FlowStep::Fail { flow, error: MergeError::OverlapEnding { end, id } }
    } else if flow.accepted && flow.guest_to_host && offset == flow.next && flow.held.len() == 0 {
        drain(FlowState { next: end, ..flow }, seq![frame], id)
    } else if flow.held.len() >= BULK_MERGE_MAX_PENDING_RECORDS {
        FlowStep::Fail { flow, error: MergeError::RecordBudget { id } }
    } else if held_bytes(flow.held) + (end - offset) > usize::MAX {
        FlowStep::Fail { flow, error: MergeError::ByteOverflow }
    } else if held_bytes(flow.held) + (end - offset) > BULK_WRITE_FLOW_CAPACITY {
        FlowStep::Fail { flow, error: MergeError::ByteBudget { id } }
    } else {
        drain(
            FlowState {
                held: flow.held.insert(
                    slot_for(flow.held, offset) as int,
                    HeldRaw { offset, end, frame },
                ),
                ..flow
            },
            Seq::empty(),
            id,
        )
    }
}

/// What an executed step left behind is what the model says.
pub open spec fn step_is<P>(
    step: FlowStep<P>,
    after: FlowState<P>,
    result: Result<(Vec<LaneFrame<P>>, bool), MergeError>,
) -> bool {
    match step {
        FlowStep::Keep { flow, ready } => result matches Ok((frames, done)) && frames@ == ready
            && !done && after == flow,
        FlowStep::Done { ready } => result matches Ok((frames, done)) && frames@ == ready && done,
        FlowStep::Fail { flow, error } => result matches Err(e) && e == error && after == flow,
    }
}

pub proof fn lemma_run_len_bound<P>(held: Seq<HeldRaw<P>>, next: u64)
    ensures
        run_len(held, next) <= held.len(),
    decreases held.len(),
{
    if held.len() > 0 && held[0].offset == next {
        lemma_run_len_bound(held.subrange(1, held.len() as int), held[0].end);
    }
}

proof fn lemma_held_bytes_first<P>(held: Seq<HeldRaw<P>>)
    requires
        held.len() > 0,
    ensures
        held_bytes(held) == held_bytes(held.subrange(1, held.len() as int)) + (held[0].end
            - held[0].offset) as nat,
    decreases held.len(),
{
    if held.len() == 1 {
        assert(held.drop_last() =~= Seq::empty());
        assert(held.subrange(1, 1) =~= Seq::empty());
    } else {
        lemma_held_bytes_first(held.drop_last());
        assert(held.drop_last().subrange(1, held.len() - 1) =~= held.subrange(
            1,
            held.len() as int,
        ).drop_last());
    }
}

proof fn lemma_held_bytes_insert<P>(held: Seq<HeldRaw<P>>, at: int, item: HeldRaw<P>)
    requires
        0 <= at <= held.len(),
    ensures
        held_bytes(held.insert(at, item)) == held_bytes(held) + (item.end - item.offset) as nat,
    decreases held.len(),
{
    if at == held.len() {
        assert(held.insert(at, item).drop_last() =~= held);
    } else {
        lemma_held_bytes_insert(held.drop_last(), at, item);
        assert(held.insert(at, item).drop_last() =~= held.drop_last().insert(at, item));
    }
}

proof fn lemma_slot_for<P>(held: Seq<HeldRaw<P>>, offset: u64, at: nat)
    requires
        at <= held.len(),
        forall|i: int| 0 <= i < at ==> (#[trigger] held[i]).offset < offset,
        at < held.len() ==> held[at as int].offset >= offset,
    ensures
        slot_for(held, offset) == at,
    decreases held.len(),
{
    if at > 0 {
        let tail = held.subrange(1, held.len() as int);
        assert forall|i: int| 0 <= i < at - 1 implies (#[trigger] tail[i]).offset < offset by {
            assert(held[i + 1].offset < offset);
        }
        assert(held[0].offset < offset);
        lemma_slot_for(tail, offset, (at - 1) as nat);
    }
}

/// Among ordered records only the two neighbours of a position can touch a new interval.
proof fn lemma_neighbours<P>(held: Seq<HeldRaw<P>>, next: u64, offset: u64, end: u64, at: int)
    requires
        held_in_order(held, next),
        offset < end,
        0 <= at <= held.len(),
        forall|i: int| 0 <= i < at ==> (#[trigger] held[i]).offset < offset,
        at < held.len() ==> held[at].offset >= offset,
    ensures
        (exists|i: int| 0 <= i < held.len() && (#[trigger] held[i]).offset == offset) <==> (at
            < held.len() && held[at].offset == offset),
        (exists|i: int|
            0 <= i < held.len() && (#[trigger] held[i]).offset < offset < held[i].end) <==> (at > 0
            && held[at - 1].end > offset),
        at < held.len() && held[at].offset == offset || ((exists|i: int|
            0 <= i < held.len() && offset < (#[trigger] held[i]).offset < end) <==> (at
            < held.len() && held[at].offset < end)),
{
    assert forall|i: int| at < i < held.len() implies held[at].offset < (
    #[trigger] held[i]).offset by {
        assert(held[at].end <= held[i].offset);
    }
    assert forall|i: int| 0 <= i < at - 1 implies (#[trigger] held[i]).end <= held[at
        - 1].offset by {}
}

proof fn lemma_insert_in_order<P>(held: Seq<HeldRaw<P>>, next: u64, at: int, item: HeldRaw<P>)
    requires
        held_in_order(held, next),
        next <= item.offset < item.end,
        0 <= at <= held.len(),
        at > 0 ==> held[at - 1].end <= item.offset,
        at < held.len() ==> item.end <= held[at].offset,
    ensures
        held_in_order(held.insert(at, item), next),
{
    let grown = held.insert(at, item);
    assert forall|i: int, j: int| 0 <= i < j < grown.len() implies (#[trigger] grown[i]).end <= (
    #[trigger] grown[j]).offset by {
        if j == at {
            if i < at - 1 {
                assert(held[i].end <= held[at - 1].offset);
            }
        } else if i == at {
            assert(grown[j] == held[j - 1]);
            if j - 1 > at {
                assert(held[at].end <= held[j - 1].offset);
            }
        }
    }
}

pub proof fn lemma_slot_bound<P>(held: Seq<HeldRaw<P>>, offset: u64)
    ensures
        slot_for(held, offset) <= held.len(),
        forall|i: int| 0 <= i < slot_for(held, offset) ==> (#[trigger] held[i]).offset < offset,
        slot_for(held, offset) < held.len() ==> held[slot_for(held, offset) as int].offset >= offset,
    decreases held.len(),
{
    if held.len() > 0 && held[0].offset < offset {
        let tail = held.subrange(1, held.len() as int);
        lemma_slot_bound(tail, offset);
        assert forall|i: int| 0 <= i < slot_for(held, offset) implies (#[trigger] held[i]).offset
            < offset by {
            if i > 0 {
                assert(tail[i - 1].offset < offset);
            }
        }
    }
}

proof fn lemma_held_suffix<P>(held: Seq<HeldRaw<P>>, n: int)
    requires
        0 <= n <= held.len(),
    ensures
        held_bytes(held.subrange(n, held.len() as int)) <= held_bytes(held),
    decreases n,
{
    if n == 0 {
        assert(held.subrange(0, held.len() as int) =~= held);
    } else {
        lemma_held_bytes_first(held);
        lemma_held_suffix(held.subrange(1, held.len() as int), n - 1);
        assert(held.subrange(1, held.len() as int).subrange(n - 1, held.len() - 1)
            =~= held.subrange(n, held.len() as int));
    }
}

/// Draining keeps a flow valid.
pub proof fn lemma_drain_wf<P>(flow: FlowState<P>, ready: Seq<LaneFrame<P>>, id: u32)
    requires
        flow.wf(),
    ensures
        match drain(flow, ready, id) {
            FlowStep::Keep { flow: after, .. } => after.wf(),
            FlowStep::Done { .. } => true,
            FlowStep::Fail { flow: after, .. } => after.wf(),
        },
{
    let n = run_len(flow.held, flow.next);
    lemma_run_len_bound(flow.held, flow.next);
    lemma_held_suffix(flow.held, n as int);
    let rest = flow.held.subrange(n as int, flow.held.len() as int);
    let next = end_after(flow.held, flow.next, n);
    assert forall|i: int| 0 <= i < rest.len() implies next <= (#[trigger] rest[i]).offset
        < rest[i].end by {
        assert(rest[i] == flow.held[n + i]);
        if n > 0 {
            assert(flow.held[n - 1].end <= flow.held[n + i].offset);
        }
    }
    assert forall|i: int, j: int| 0 <= i < j < rest.len() implies (#[trigger] rest[i]).end <= (
    #[trigger] rest[j]).offset by {
        assert(flow.held[n + i].end <= flow.held[n + j].offset);
    }
}

/// The records of a gapless run: each starts where the bytes before it end.
pub proof fn lemma_run_is_gapless<P>(held: Seq<HeldRaw<P>>, next: u64, i: int)
    requires
        0 <= i < run_len(held, next),
    ensures
        i < held.len(),
        held[i].offset == end_after(held, next, i as nat),
    decreases held.len(),
{
    let tail = held.subrange(1, held.len() as int);
    if i > 0 {
        lemma_run_is_gapless(tail, held[0].end, i - 1);
        assert(tail[i - 1] == held[i]);
        if i > 1 {
            assert(tail[i - 2] == held[i - 1]);
        }
    }
}

/// A record that fits between the held ones can be held.
pub proof fn lemma_held_with_record_wf<P>(
    flow: FlowState<P>,
    offset: u64,
    end: u64,
    frame: LaneFrame<P>,
)
    requires
        flow.wf(),
        offset < end,
        flow.next <= offset,
        !flow.cancelling,
        !flow.finish_forwarded,
        flow.held.len() < BULK_MERGE_MAX_PENDING_RECORDS,
        held_bytes(flow.held) + (end - offset) <= BULK_WRITE_FLOW_CAPACITY,
        forall|i: int|
            0 <= i < flow.held.len() ==> {
                &&& (#[trigger] flow.held[i]).offset != offset
                &&& !(flow.held[i].offset < offset < flow.held[i].end)
                &&& !(offset < flow.held[i].offset < end)
            },
    ensures
        (FlowState {
            held: flow.held.insert(
                slot_for(flow.held, offset) as int,
                HeldRaw { offset, end, frame },
            ),
            ..flow
        }).wf(),
{
    lemma_slot_bound(flow.held, offset);
    let at = slot_for(flow.held, offset) as int;
    let item = HeldRaw { offset, end, frame };
    lemma_neighbours(flow.held, flow.next, offset, end, at);
    lemma_insert_in_order(flow.held, flow.next, at, item);
    lemma_held_bytes_insert(flow.held, at, item);
}

/// A raw record keeps a flow valid.
pub proof fn lemma_raw_wf<P>(flow: FlowState<P>, id: u32, offset: u64, end: u64, frame: LaneFrame<P>)
    requires
        flow.wf(),
        offset < end,
    ensures
        match raw_step(flow, id, offset, end, frame) {
            FlowStep::Keep { flow: after, .. } => after.wf(),
            FlowStep::Done { .. } => true,
            FlowStep::Fail { flow: after, .. } => after.wf(),
        },
{
    let at = slot_for(flow.held, offset) as int;
    let item = HeldRaw { offset, end, frame };
    let blocked = flow.cancelling || flow.finish_forwarded || offset < flow.next || exists|i: int|
        0 <= i < flow.held.len() && (#[trigger] flow.held[i]).offset == offset;
    let overlaps = exists|i: int|
        0 <= i < flow.held.len() && ((#[trigger] flow.held[i]).offset < offset < flow.held[i].end
            || offset < flow.held[i].offset < end);
    if !blocked && flow.held.len() == 0 && flow.accepted && flow.guest_to_host && offset
        == flow.next {
        lemma_drain_wf(FlowState { next: end, ..flow }, seq![frame], id);
    }
    if !blocked && !overlaps && flow.held.len() < BULK_MERGE_MAX_PENDING_RECORDS && held_bytes(
        flow.held,
    ) + (end - offset) <= BULK_WRITE_FLOW_CAPACITY {
        lemma_held_with_record_wf(flow, offset, end, frame);
        lemma_drain_wf(FlowState { held: flow.held.insert(at, item), ..flow }, Seq::empty(), id);
    }
}

impl<P> GuestMergeFlow<P> {
    /// The model's invariant, and the byte counter counts what is held.
    pub closed spec fn wf(&self) -> bool {
        &&& self@.wf()
        &&& self.pending_raw_bytes == held_bytes(self.pending_raw@)
    }

    pub fn new() -> (flow: GuestMergeFlow<P>)
        ensures
            flow.wf(),
            flow@ == FlowState::<P>::fresh(),
    {
        GuestMergeFlow {
            cancelling: false,
            accepted_forwarded: false,
            guest_to_host: false,
            next_raw_offset: 0,
            pending_raw: VecDeque::new(),
            pending_raw_bytes: 0,
            pending_finish: None,
            finish_forwarded: false,
            pending_terminal: None,
        }
    }

    /// Release every held record after a cancellation. A held terminal frame goes too where the
    /// client cancelled: it covered bytes that are now discarded, and the peer owes a fresh one.
    pub fn cancel(&mut self, drop_terminal: bool)
        requires
            old(self).wf(),
        ensures
            final(self).wf(),
            final(self)@ == (FlowState {
                terminal: if drop_terminal {
                    None
                } else {
                    old(self)@.terminal
                },
                ..cancelled(old(self)@)
            }),
    {
        self.cancelling = true;
        self.pending_raw.clear();
        self.pending_raw_bytes = 0;
        self.pending_finish = None;
        if drop_terminal {
            self.pending_terminal = None;
        }
        assert(self@.held =~= Seq::empty());
    }

    pub fn accept(
        &mut self,
        profile: &WireProfile,
        id: u32,
        directions: u8,
        frame: LaneFrame<P>,
    ) -> (result: Result<(Vec<LaneFrame<P>>, bool), MergeError>)
        requires
            old(self).wf(),
        ensures
            final(self).wf(),
            step_is(
                accept_step(*profile, old(self)@, id, directions, frame),
                final(self)@,
                result,
            ),
    {
        if self.accepted_forwarded {
            return Err(MergeError::DuplicateAcceptance { id });
        }
        self.accepted_forwarded = true;
        self.guest_to_host = directions & profile.flow_mask_guest_to_host != 0;
        if !self.guest_to_host && self.pending_raw.len() > 0 {
            return Err(MergeError::DisabledFlow { id });
        }
        let mut ready: Vec<LaneFrame<P>> = Vec::new();
        ready.push(frame);
        assert(ready@ =~= seq![frame]);
        self.drain_flow(id, ready)
    }

    pub fn finish(&mut self, id: u32, final_offset: u64, frame: LaneFrame<P>) -> (result: Result<
        (Vec<LaneFrame<P>>, bool),
        MergeError,
    >)
        requires
            old(self).wf(),
        ensures
            final(self).wf(),
            step_is(finish_step(old(self)@, id, final_offset, frame), final(self)@, result),
    {
        if !self.accepted_forwarded || !self.guest_to_host {
            return Err(MergeError::FinishOnInactiveFlow { id });
        }
        if final_offset < self.next_raw_offset {
            return Err(MergeError::FinishRegressed { final_offset, forwarded: self.next_raw_offset });
        }
        if self.pending_finish.is_some() {
            return Err(MergeError::DuplicateFinish { id });
        }
        self.pending_finish = Some((final_offset, frame));
        let ready: Vec<LaneFrame<P>> = Vec::new();
        self.drain_flow(id, ready)
    }

    pub fn terminal(&mut self, id: u32, frame: LaneFrame<P>) -> (result: Result<
        (Vec<LaneFrame<P>>, bool),
        MergeError,
    >)
        requires
            old(self).wf(),
        ensures
            final(self).wf(),
            step_is(terminal_step(old(self)@, id, frame), final(self)@, result),
    {
        if self.cancelling || !self.guest_to_host || self.finish_forwarded {
            let mut ready: Vec<LaneFrame<P>> = Vec::new();
            ready.push(frame);
            assert(ready@ =~= seq![frame]);
            return Ok((ready, true));
        }
        let duplicate = self.pending_terminal.is_some();
        self.pending_terminal = Some(frame);
        if duplicate {
            return Err(MergeError::DuplicateTerminal { id });
        }
        let ready: Vec<LaneFrame<P>> = Vec::new();
        Ok((ready, false))
    }

    pub fn raw(&mut self, id: u32, offset: u64, end: u64, frame: LaneFrame<P>) -> (result: Result<
        (Vec<LaneFrame<P>>, bool),
        MergeError,
    >)
        requires
            old(self).wf(),
            offset < end,
            end - offset <= usize::MAX,
        ensures
            final(self).wf(),
            step_is(raw_step(old(self)@, id, offset, end, frame), final(self)@, result),
    {
        let ghost flow = self@;
        if self.cancelling {
            let ready: Vec<LaneFrame<P>> = Vec::new();
            return Ok((ready, false));
        }
        if self.finish_forwarded {
            return Err(MergeError::RecordAfterFinish { id });
        }
        if let Some((final_offset, _)) = &self.pending_finish {
            if end > *final_offset {
                return Err(MergeError::RecordExceedsFinish { end, id });
            }
        }
        if offset < self.next_raw_offset {
            return Err(MergeError::DuplicateOffset { offset, id });
        }
        // The first held record that does not start before this one.
        let mut at: usize = 0;
        while at < self.pending_raw.len() && self.pending_raw[at].offset < offset
            invariant
                at <= self.pending_raw@.len(),
                self@ == flow,
                forall|i: int| 0 <= i < at ==> (#[trigger] flow.held[i]).offset < offset,
            ensures
                at < flow.held.len() ==> flow.held[at as int].offset >= offset,
            decreases self.pending_raw@.len() - at,
        {
            at = at + 1;
        }
        let held: usize = self.pending_raw.len();
        proof {
            lemma_neighbours(flow.held, flow.next, offset, end, at as int);
        }
        if at < held && self.pending_raw[at].offset == offset {
            return Err(MergeError::DuplicateOffset { offset, id });
        }
        if at > 0 && self.pending_raw[at - 1].end > offset {
            return Err(MergeError::OverlapAt { offset, id });
        }
        if at < held && self.pending_raw[at].offset < end {
            return Err(MergeError::OverlapEnding { end, id });
        }
        if self.accepted_forwarded && self.guest_to_host && offset == self.next_raw_offset && held
            == 0 {
            self.next_raw_offset = end;
            let mut ready: Vec<LaneFrame<P>> = Vec::new();
            ready.push(frame);
            assert(ready@ =~= seq![frame]);
            return self.drain_flow(id, ready);
        }
        if held >= BULK_MERGE_MAX_PENDING_RECORDS {
            return Err(MergeError::RecordBudget { id });
        }
        let payload_len: usize = (end - offset) as usize;
        let pending_raw_bytes: usize = match self.pending_raw_bytes.checked_add(payload_len) {
            Some(total) => total,
            None => {
                return Err(MergeError::ByteOverflow);
            },
        };
        if pending_raw_bytes > BULK_WRITE_FLOW_CAPACITY {
            return Err(MergeError::ByteBudget { id });
        }
        self.pending_raw_bytes = pending_raw_bytes;
        let item = HeldRaw { offset, end, frame };
        proof {
            lemma_held_bytes_insert(flow.held, at as int, item);
            lemma_slot_for(flow.held, offset, at as nat);
            lemma_insert_in_order(flow.held, flow.next, at as int, item);
        }
        self.pending_raw.insert(at, item);
        let ready: Vec<LaneFrame<P>> = Vec::new();
        self.drain_flow(id, ready)
    }

    fn drain_flow(&mut self, id: u32, ready: Vec<LaneFrame<P>>) -> (result: Result<
        (Vec<LaneFrame<P>>, bool),
        MergeError,
    >)
        requires
            old(self).wf(),
        ensures
            final(self).wf(),
            step_is(drain(old(self)@, ready@, id), final(self)@, result),
    {
        if self.cancelling || !self.accepted_forwarded || !self.guest_to_host {
            return Ok((ready, false));
        }
        let ghost start = self@;
        let ghost total = run_len(start.held, start.next);
        let mut ready = ready;
        let ghost given = ready@;
        let ghost mut sent: nat = 0;
        proof {
            lemma_run_len_bound(start.held, start.next);
            assert(start.held.subrange(0, start.held.len() as int) =~= start.held);
            assert(given + frames_of(start.held.subrange(0, 0)) =~= given);
        }
        loop
            invariant
                sent <= total <= start.held.len(),
                start.wf(),
                start.guest_to_host && start.accepted && !start.cancelling,
                self.wf(),
                self.pending_raw@ == start.held.subrange(sent as int, start.held.len() as int),
                self.next_raw_offset == end_after(start.held, start.next, sent),
                run_len(self.pending_raw@, self.next_raw_offset) + sent == total,
                ready@ == given + frames_of(start.held.subrange(0, sent as int)),
                self@ == (FlowState {
                    held: self.pending_raw@,
                    next: self.next_raw_offset,
                    ..start
                }),
            ensures
                sent == total,
            decreases self.pending_raw@.len(),
        {
            if self.pending_raw.len() == 0 || self.pending_raw[0].offset != self.next_raw_offset {
                break;
            }
            let ghost before = self.pending_raw@;
            proof {
                lemma_held_bytes_first(before);
                assert(before[0] == start.held[sent as int]);
            }
            if let Some(record) = self.pending_raw.pop_front() {
                proof {
                    assert(self.pending_raw@ =~= before.subrange(1, before.len() as int));
                    assert(before.subrange(1, before.len() as int) =~= start.held.subrange(
                        sent as int + 1,
                        start.held.len() as int,
                    ));
                    assert forall|i: int| 0 <= i < self.pending_raw@.len() implies record.end <= (
                    #[trigger] self.pending_raw@[i]).offset < self.pending_raw@[i].end by {
                        assert(self.pending_raw@[i] == before[i + 1]);
                        assert(before[0].end <= before[i + 1].offset);
                    }
                }
                self.pending_raw_bytes = self.pending_raw_bytes - (record.end - record.offset) as usize;
                self.next_raw_offset = record.end;
                let ghost already = ready@;
                ready.push(record.frame);
                proof {
                    assert(ready@ =~= given + frames_of(start.held.subrange(0, sent as int + 1)));
                    sent = sent + 1;
                }
            }
        }
        let mut finished = false;
        if let Some((final_offset, _)) = &self.pending_finish {
            finished = *final_offset == self.next_raw_offset;
        }
        if !finished {
            return Ok((ready, false));
        }
        if self.pending_raw.len() > 0 {
            return Err(MergeError::RecordsExceedFinalOffset { id });
        }
        if let Some((_, finish)) = self.pending_finish.take() {
            ready.push(finish);
        }
        self.finish_forwarded = true;
        if let Some(terminal) = self.pending_terminal.take() {
            ready.push(terminal);
            return Ok((ready, true));
        }
        Ok((ready, false))
    }
}

} // verus!
