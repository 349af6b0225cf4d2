//! The outward stream of one operation over a whole run of lane events.

use vstd::multiset::Multiset;
use vstd::prelude::*;

use crate::flow_map::FlowKey;
use crate::frames::raw_offsets;
use crate::frames::RawBulkError;
use crate::merge_flow::cancelled;
use crate::merge_flow::drain;
use crate::merge_flow::end_after;
use crate::merge_flow::frames_of;
use crate::merge_flow::held_bytes;
use crate::merge_flow::lemma_run_is_gapless;
use crate::merge_flow::lemma_run_len_bound;
use crate::merge_flow::lemma_slot_bound;
use crate::merge_flow::raw_step;
use crate::merge_flow::run_len;
use crate::merge_flow::slot_for;
use crate::merge_flow::FlowState;
use crate::merge_flow::FlowStep;
use crate::merge_flow::HeldRaw;
use crate::merge_flow::LaneFrame;
use crate::merge_flow::BULK_MERGE_MAX_PENDING_RECORDS;
use crate::merge_flow::BULK_WRITE_FLOW_CAPACITY;
use crate::merger::frame_of;
use crate::merger::owns;
use crate::merger::push_continues_one_stream;
use crate::merger::push_outcome;
use crate::merger::record_of;
use crate::merger::GuestBody;
use crate::merger::MergeOutcome;
use crate::merger::MergerState;
use crate::retire::local_index;
use crate::wire::BulkFlow;
use crate::wire::WireProfile;

verus! {

/// How far the outward stream of an operation is.
pub enum Outward {
    /// Nothing but control traffic went out.
    Opened,
    /// The acceptance went out, and the raw bytes before `reached`.
    Accepted { reached: u64 },
    /// The acceptance went out, and the guest sends no raw bytes.
    Closed,
    /// The finish went out behind the last of its bytes.
    Finished { reached: u64 },
    /// A cancellation went out.
    Cancelled { accepted: bool },
    /// The terminal frame went out.
    Ended,
}

impl Outward {
    /// Whether an acceptance went out of a stream that has not ended.
    pub open spec fn accepted(self) -> bool {
        match self {
            Outward::Opened => false,
            Outward::Cancelled { accepted } => accepted,
            _ => true,
        }
    }
}

/// The stream with one frame more, if the frame may follow.
///
/// A raw record starts where the one before it ended. The guest's finish names the offset that the
/// records reached. The terminal frame waits for that finish where raw bytes are awaited. Control
/// traffic of another kind may stand anywhere.
pub open spec fn outward_step<P>(
    profile: WireProfile,
    decode: spec_fn(LaneFrame<P>) -> GuestBody,
    phase: Outward,
    frame: LaneFrame<P>,
) -> Option<Outward> {
    if frame.frame.flags == profile.flag_bulk {
        match (phase, raw_offsets(profile, frame.frame.flags, frame.frame.data@)) {
            (Outward::Accepted { reached }, Ok((offset, end, BulkFlow::GuestToHost))) => if offset
                == reached {
                Some(Outward::Accepted { reached: end })
            } else {
                None
            },
            _ => None,
        }
    } else {
        match decode(frame) {
            GuestBody::BulkAccepted(Ok(directions)) => match phase {
                Outward::Opened => if directions & profile.flow_mask_guest_to_host != 0 {
                    Some(Outward::Accepted { reached: 0 })
                } else {
                    Some(Outward::Closed)
                },
                Outward::Cancelled { accepted: false } => Some(
                    Outward::Cancelled { accepted: true },
                ),
                _ => None,
            },
            GuestBody::BulkFinish(Ok((BulkFlow::GuestToHost, final_offset))) => match phase {
                Outward::Accepted { reached } if reached == final_offset => Some(
                    Outward::Finished { reached },
                ),
                Outward::Finished { reached } if reached == final_offset => Some(phase),
                _ => None,
            },
            GuestBody::BulkCancel => if phase is Ended {
                None
            } else {
                Some(Outward::Cancelled { accepted: phase.accepted() })
            },
            GuestBody::Other => if frame.frame.flags & profile.flag_terminal == 0 {
                Some(phase)
            } else if phase is Accepted || phase is Ended {
                None
            } else {
                Some(Outward::Ended)
            },
            _ => Some(phase),
        }
    }
}

/// How far the stream is behind these frames, if they may follow in this order.
pub open spec fn outward_from<P>(
    profile: WireProfile,
    decode: spec_fn(LaneFrame<P>) -> GuestBody,
    phase: Outward,
    frames: Seq<LaneFrame<P>>,
) -> Option<Outward>
    decreases frames.len(),
{
    if frames.len() == 0 {
        Some(phase)
    } else {
        match outward_from(profile, decode, phase, frames.drop_last()) {
            None => None,
            Some(reached) => outward_step(profile, decode, reached, frames.last()),
        }
    }
}

/// A run of lane events that all succeed: the state behind it, and everything that went out.
pub open spec fn run<P>(
    profile: WireProfile,
    decode: spec_fn(LaneFrame<P>) -> GuestBody,
    start: MergerState<P>,
    frames: Seq<LaneFrame<P>>,
) -> Option<(MergerState<P>, Seq<LaneFrame<P>>)>
    decreases frames.len(),
{
    if frames.len() == 0 {
        Some((start, Seq::empty()))
    } else {
        match run(profile, decode, start, frames.drop_last()) {
            None => None,
            Some((state, out)) => match push_outcome(
                profile,
                state,
                frames.last(),
                decode(frames.last()),
            ) {
                MergeOutcome::Forward { state: after, ready } => Some((after, out + ready)),
                MergeOutcome::Fail { .. } => None,
            },
        }
    }
}

/// The frames of one operation.
pub open spec fn own<P>(key: FlowKey) -> spec_fn(LaneFrame<P>) -> bool {
    |frame: LaneFrame<P>| frame_of(frame, key)
}

/// A terminal frame.
spec fn is_terminal<P>(
    profile: WireProfile,
    decode: spec_fn(LaneFrame<P>) -> GuestBody,
    frame: LaneFrame<P>,
) -> bool {
    &&& frame.frame.flags != profile.flag_bulk
    &&& decode(frame) is Other
    &&& frame.frame.flags & profile.flag_terminal != 0
}

/// How far the stream of a flow is.
spec fn phase_of<P>(flow: FlowState<P>) -> Outward {
    if flow.cancelling {
        Outward::Cancelled { accepted: flow.accepted }
    } else if !flow.accepted {
        Outward::Opened
    } else if !flow.guest_to_host {
        Outward::Closed
    } else if flow.finish_forwarded {
        Outward::Finished { reached: flow.next }
    } else {
        Outward::Accepted { reached: flow.next }
    }
}

/// A flow holds back the finish and the terminal frame that its fields say.
spec fn is_streaming<P>(
    profile: WireProfile,
    decode: spec_fn(LaneFrame<P>) -> GuestBody,
    flow: FlowState<P>,
) -> bool {
    &&& flow.finish matches Some((final_offset, frame)) ==> frame.frame.flags != profile.flag_bulk
        && decode(frame) == GuestBody::BulkFinish(Ok((BulkFlow::GuestToHost, final_offset)))
    &&& flow.terminal matches Some(frame) ==> is_terminal(profile, decode, frame)
    &&& flow.terminal is Some ==> !flow.finish_forwarded || flow.cancelling
}

/// Nothing waits in an open flow that could go out: the first held record starts behind a gap, the
/// finish waits for bytes, and the terminal frame waits for the finish.
pub open spec fn is_drained<P>(flow: FlowState<P>) -> bool {
    !flow.cancelling && flow.accepted && flow.guest_to_host ==> {
        &&& flow.held.len() > 0 ==> flow.held[0].offset != flow.next
        &&& flow.finish matches Some((final_offset, _)) ==> final_offset != flow.next
        &&& flow.terminal is Some ==> !flow.finish_forwarded
    }
}

/// One frame, if it is there.
pub open spec fn optional<P>(frame: Option<LaneFrame<P>>) -> Multiset<LaneFrame<P>> {
    match frame {
        Some(frame) => Multiset::singleton(frame),
        None => Multiset::empty(),
    }
}

/// Everything that a flow holds back.
pub open spec fn held_frames<P>(flow: FlowState<P>) -> Multiset<LaneFrame<P>> {
    frames_of(flow.held).to_multiset().add(
        optional(
            match flow.finish {
                Some((_, frame)) => Some(frame),
                None => None,
            },
        ),
    ).add(optional(flow.terminal))
}

/// A step continues the stream, keeps the flow's meaning, and makes no frame out of nothing.
spec fn step_streams<P>(
    profile: WireProfile,
    decode: spec_fn(LaneFrame<P>) -> GuestBody,
    phase: Outward,
    mass: Multiset<LaneFrame<P>>,
    step: FlowStep<P>,
) -> bool {
    match step {
        FlowStep::Keep { flow, ready } => {
            &&& is_streaming(profile, decode, flow)
            &&& is_drained(flow)
            &&& outward_from(profile, decode, phase, ready) == Some(phase_of(flow))
            &&& ready.to_multiset().add(held_frames(flow)).subset_of(mass)
            &&& !flow.cancelling ==> ready.to_multiset().add(held_frames(flow)) == mass
        },
        FlowStep::Done { ready } => {
            &&& outward_from(profile, decode, phase, ready) == Some(Outward::Ended)
            &&& ready.to_multiset().subset_of(mass)
        },
        FlowStep::Fail { .. } => true,
    }
}

proof fn lemma_outward_append<P>(
    profile: WireProfile,
    decode: spec_fn(LaneFrame<P>) -> GuestBody,
    phase: Outward,
    first: Seq<LaneFrame<P>>,
    second: Seq<LaneFrame<P>>,
)
    ensures
        outward_from(profile, decode, phase, first + second) == match outward_from(
            profile,
            decode,
            phase,
            first,
        ) {
            None => None,
            Some(reached) => outward_from(profile, decode, reached, second),
        },
    decreases second.len(),
{
    if second.len() == 0 {
        assert(first + second =~= first);
    } else {
        lemma_outward_append(profile, decode, phase, first, second.drop_last());
        assert((first + second).drop_last() =~= first + second.drop_last());
        assert((first + second).last() == second.last());
    }
}

proof fn lemma_outward_push<P>(
    profile: WireProfile,
    decode: spec_fn(LaneFrame<P>) -> GuestBody,
    phase: Outward,
    frames: Seq<LaneFrame<P>>,
    frame: LaneFrame<P>,
)
    ensures
        outward_from(profile, decode, phase, frames.push(frame)) == match outward_from(
            profile,
            decode,
            phase,
            frames,
        ) {
            None => None,
            Some(reached) => outward_step(profile, decode, reached, frame),
        },
{
    assert(frames.push(frame).drop_last() =~= frames);
}

/// A gapless run of records continues the stream.
proof fn lemma_outward_run<P>(
    profile: WireProfile,
    decode: spec_fn(LaneFrame<P>) -> GuestBody,
    key: FlowKey,
    held: Seq<HeldRaw<P>>,
    next: u64,
    n: nat,
)
    requires
        forall|i: int| 0 <= i < held.len() ==> record_of(profile, #[trigger] held[i], key),
        n <= run_len(held, next),
    ensures
        n <= held.len(),
        outward_from(
            profile,
            decode,
            Outward::Accepted { reached: next },
            frames_of(held.subrange(0, n as int)),
        ) == Some(Outward::Accepted { reached: end_after(held, next, n) }),
    decreases n,
{
    lemma_run_len_bound(held, next);
    let sent = frames_of(held.subrange(0, n as int));
    if n > 0 {
        lemma_outward_run(profile, decode, key, held, next, (n - 1) as nat);
        assert(sent.drop_last() =~= frames_of(held.subrange(0, n - 1)));
        lemma_run_is_gapless(held, next, n - 1);
        assert(record_of(profile, held[n - 1], key));
    }
}

/// The record behind a gapless run does not continue it.
proof fn lemma_run_is_maximal<P>(held: Seq<HeldRaw<P>>, next: u64)
    ensures
        ({
            let n = run_len(held, next);
            n < held.len() ==> held[n as int].offset != end_after(held, next, n)
        }),
    decreases held.len(),
{
    if held.len() > 0 && held[0].offset == next {
        let tail = held.subrange(1, held.len() as int);
        lemma_run_is_maximal(tail, held[0].end);
        lemma_run_len_bound(tail, held[0].end);
        let n = run_len(tail, held[0].end);
        if n > 0 {
            assert(tail[n - 1] == held[n as int]);
        }
        if n < tail.len() {
            assert(tail[n as int] == held[n as int + 1]);
        }
    }
}

proof fn lemma_drain_streams<P>(
    profile: WireProfile,
    decode: spec_fn(LaneFrame<P>) -> GuestBody,
    key: FlowKey,
    phase: Outward,
    flow: FlowState<P>,
    ready: Seq<LaneFrame<P>>,
    id: u32,
    mass: Multiset<LaneFrame<P>>,
)
    requires
        is_streaming(profile, decode, flow),
        flow.finish_forwarded ==> flow.held.len() == 0,
        forall|i: int| 0 <= i < flow.held.len() ==> record_of(profile, #[trigger] flow.held[i], key),
        outward_from(profile, decode, phase, ready) == Some(phase_of(flow)),
        ready.to_multiset().add(held_frames(flow)) == mass,
    ensures
        step_streams(profile, decode, phase, mass, drain(flow, ready, id)),
{
    if !flow.cancelling && flow.accepted && flow.guest_to_host {
        let n = run_len(flow.held, flow.next);
        lemma_run_len_bound(flow.held, flow.next);
        lemma_run_is_maximal(flow.held, flow.next);
        let front = flow.held.subrange(0, n as int);
        let rest = flow.held.subrange(n as int, flow.held.len() as int);
        let sent = ready + frames_of(front);
        let next = end_after(flow.held, flow.next, n);
        lemma_outward_append(profile, decode, phase, ready, frames_of(front));
        if flow.finish_forwarded {
            assert(frames_of(front) =~= Seq::empty());
        } else {
            lemma_outward_run(profile, decode, key, flow.held, flow.next, n);
        }
        assert(frames_of(flow.held) =~= frames_of(front) + frames_of(rest));
        vstd::seq_lib::lemma_multiset_commutative(frames_of(front), frames_of(rest));
        vstd::seq_lib::lemma_multiset_commutative(ready, frames_of(front));
        broadcast use vstd::seq_lib::group_to_multiset_ensures;

        if let Some((final_offset, finish)) = flow.finish {
            lemma_outward_push(profile, decode, phase, sent, finish);
            if let Some(terminal) = flow.terminal {
                lemma_outward_push(profile, decode, phase, sent.push(finish), terminal);
            }
        }
        match drain(flow, ready, id) {
            FlowStep::Keep { flow: after, ready: out } => {
                assert(out.to_multiset().add(held_frames(after)) =~= ready.to_multiset().add(
                    held_frames(flow),
                ));
            },
            FlowStep::Done { ready: out } => {
                assert(rest =~= Seq::empty());
                assert(frames_of(rest) =~= Seq::empty());
                assert(out.to_multiset() =~= ready.to_multiset().add(held_frames(flow)));
            },
            FlowStep::Fail { .. } => {},
        }
    }
}

/// One frame alone, as the stream and as the frames that went out.
proof fn lemma_one_frame<P>(
    profile: WireProfile,
    decode: spec_fn(LaneFrame<P>) -> GuestBody,
    phase: Outward,
    frame: LaneFrame<P>,
)
    ensures
        outward_from(profile, decode, phase, seq![frame]) == outward_step(
            profile,
            decode,
            phase,
            frame,
        ),
        seq![frame].to_multiset() == Multiset::singleton(frame),
        Seq::<LaneFrame<P>>::empty().to_multiset() == Multiset::<LaneFrame<P>>::empty(),
{
    broadcast use vstd::seq_lib::group_to_multiset_ensures;

    let none = Seq::<LaneFrame<P>>::empty();
    lemma_outward_push(profile, decode, phase, none, frame);
    assert(none.push(frame) =~= seq![frame]);
    assert(none.to_multiset() =~= Multiset::<LaneFrame<P>>::empty());
    assert(none.push(frame).to_multiset() =~= Multiset::singleton(frame));
}

proof fn lemma_raw_streams<P>(
    profile: WireProfile,
    decode: spec_fn(LaneFrame<P>) -> GuestBody,
    key: FlowKey,
    flow: FlowState<P>,
    offset: u64,
    end: u64,
    frame: LaneFrame<P>,
)
    requires
        flow.wf(),
        owns(profile, flow, key),
        is_streaming(profile, decode, flow),
        record_of(profile, HeldRaw { offset, end, frame }, key),
    ensures
        step_streams(
            profile,
            decode,
            phase_of(flow),
            held_frames(flow).insert(frame),
            raw_step(flow, key.id, offset, end, frame),
        ),
{
    let id = key.id;
    let phase = phase_of(flow);
    let mass = held_frames(flow).insert(frame);
    lemma_one_frame(profile, decode, phase, frame);
    if !flow.cancelling && !flow.finish_forwarded && flow.accepted && flow.guest_to_host && offset
        == flow.next && flow.held.len() == 0 {
        let moved = FlowState { next: end, ..flow };
        assert(seq![frame].to_multiset().add(held_frames(moved)) =~= mass);
        lemma_drain_streams(profile, decode, key, phase, moved, seq![frame], id, mass);
    }
    let at = slot_for(flow.held, offset) as int;
    let item = HeldRaw { offset, end, frame };
    let grown = flow.held.insert(at, item);
    lemma_slot_bound(flow.held, offset);
    assert forall|i: int| 0 <= i < grown.len() implies record_of(profile, #[trigger] grown[i], key) by {
        if i < at {
            assert(grown[i] == flow.held[i]);
        } else if i > at {
            assert(grown[i] == flow.held[i - 1]);
        }
    }
    if flow.cancelling {
        assert(Seq::<LaneFrame<P>>::empty().to_multiset().add(held_frames(flow)).subset_of(mass));
    } else if !flow.finish_forwarded {
        let held = FlowState { held: grown, ..flow };
        assert(frames_of(grown) =~= frames_of(flow.held).insert(at, frame));
        vstd::seq_lib::to_multiset_insert(frames_of(flow.held), at, frame);
        let none = Seq::<LaneFrame<P>>::empty();
        assert(none.to_multiset().add(held_frames(held)) =~= mass);
        lemma_drain_streams(profile, decode, key, phase, held, none, id, mass);
    }
}

/// One event of an operation continues its stream.
proof fn lemma_push_streams<P>(
    profile: WireProfile,
    decode: spec_fn(LaneFrame<P>) -> GuestBody,
    key: FlowKey,
    state: MergerState<P>,
    frame: LaneFrame<P>,
)
    requires
        profile.wf(),
        state.wf(profile),
        state.flows.contains_key(key),
        is_streaming(profile, decode, state.flows[key]),
        is_drained(state.flows[key]),
        frame_of(frame, key),
        push_outcome(profile, state, frame, decode(frame)) is Forward,
    ensures
        ({
            let flow = state.flows[key];
            let mass = held_frames(flow).insert(frame);
            let outcome = push_outcome(profile, state, frame, decode(frame));
            let after = outcome.state();
            let ready = outcome->ready;
            let reached = outward_from(profile, decode, phase_of(flow), ready);
            if after.flows.contains_key(key) {
                &&& is_streaming(profile, decode, after.flows[key])
                &&& is_drained(after.flows[key])
                &&& reached == Some(phase_of(after.flows[key]))
                &&& ready.to_multiset().add(held_frames(after.flows[key])).subset_of(mass)
                &&& !after.flows[key].cancelling ==> !flow.cancelling && ready.to_multiset().add(
                    held_frames(after.flows[key]),
                ) == mass
            } else {
                &&& after.is_retired(profile, key.incarnation, key.id)
                &&& reached == Some(Outward::Ended)
                &&& ready.to_multiset().subset_of(mass)
            }
        }),
{
    let flow = state.flows[key];
    let phase = phase_of(flow);
    let mass = held_frames(flow).insert(frame);
    let id = key.id;
    let none = Seq::<LaneFrame<P>>::empty();
    lemma_one_frame(profile, decode, phase, frame);
    if frame.frame.flags == profile.flag_bulk {
        if let Ok((offset, end, direction)) = raw_offsets(
            profile,
            frame.frame.flags,
            frame.frame.data@,
        ) {
            if direction == BulkFlow::GuestToHost {
                lemma_raw_streams(profile, decode, key, flow, offset, end, frame);
            }
        }
    } else {
        match decode(frame) {
            GuestBody::BulkAccepted(Ok(directions)) => {
                if !flow.accepted {
                    let guest_to_host = directions & profile.flow_mask_guest_to_host != 0;
                    let opened = FlowState { accepted: true, guest_to_host, ..flow };
                    assert(seq![frame].to_multiset().add(held_frames(opened)) =~= mass);
                    lemma_drain_streams(
                        profile,
                        decode,
                        key,
                        phase,
                        opened,
                        seq![frame],
                        id,
                        mass,
                    );
                }
            },
            GuestBody::BulkFinish(Ok((direction, final_offset))) => {
                if direction == BulkFlow::GuestToHost {
                    if flow.accepted && flow.guest_to_host && flow.finish is None {
                        let ended = FlowState { finish: Some((final_offset, frame)), ..flow };
                        assert(none.to_multiset().add(held_frames(ended)) =~= mass);
                        lemma_drain_streams(profile, decode, key, phase, ended, none, id, mass);
                    }
                } else {
                    assert(seq![frame].to_multiset().add(held_frames(flow)) =~= mass);
                }
            },
            GuestBody::BulkCancel => {
                let released = cancelled(flow);
                assert(frames_of(released.held) =~= none);
                assert(seq![frame].to_multiset().add(held_frames(released)).subset_of(mass));
            },
            GuestBody::Other => {
                if frame.frame.flags & profile.flag_terminal == 0 {
                    assert(seq![frame].to_multiset().add(held_frames(flow)) =~= mass);
                } else if !flow.finish_forwarded && flow.terminal is None {
                    let waiting = FlowState { terminal: Some(frame), ..flow };
                    assert(none.to_multiset().add(held_frames(waiting)) =~= mass);
                }
            },
            _ => {},
        }
    }
}

/// What still arrives for an operation that ended is dropped, or is control traffic that may stand
/// anywhere.
proof fn lemma_push_after_end<P>(
    profile: WireProfile,
    decode: spec_fn(LaneFrame<P>) -> GuestBody,
    key: FlowKey,
    state: MergerState<P>,
    frame: LaneFrame<P>,
)
    requires
        !state.flows.contains_key(key),
        state.is_retired(profile, key.incarnation, key.id),
        frame_of(frame, key),
        push_outcome(profile, state, frame, decode(frame)) is Forward,
    ensures
        ({
            let outcome = push_outcome(profile, state, frame, decode(frame));
            let ready = outcome->ready;
            &&& outcome.state() == state
            &&& outward_from(profile, decode, Outward::Ended, ready) == Some(Outward::Ended)
            &&& ready.to_multiset().subset_of(Multiset::singleton(frame))
        }),
{
    lemma_one_frame(profile, decode, Outward::Ended, frame);
}

proof fn lemma_filter_all<A>(items: Seq<A>, keep: spec_fn(A) -> bool)
    requires
        forall|i: int| 0 <= i < items.len() ==> keep(#[trigger] items[i]),
    ensures
        items.filter(keep) == items,
    decreases items.len(),
{
    reveal(Seq::filter);
    if items.len() > 0 {
        lemma_filter_all(items.drop_last(), keep);
        assert(items.drop_last().push(items.last()) =~= items);
    }
}

proof fn lemma_filter_none<A>(items: Seq<A>, keep: spec_fn(A) -> bool)
    requires
        forall|i: int| 0 <= i < items.len() ==> !keep(#[trigger] items[i]),
    ensures
        items.filter(keep) == Seq::<A>::empty(),
    decreases items.len(),
{
    reveal(Seq::filter);
    if items.len() > 0 {
        lemma_filter_none(items.drop_last(), keep);
    }
}

/// What holds of an operation behind a run.
spec fn run_streams<P>(
    profile: WireProfile,
    decode: spec_fn(LaneFrame<P>) -> GuestBody,
    key: FlowKey,
    frames: Seq<LaneFrame<P>>,
    state: MergerState<P>,
    out: Seq<LaneFrame<P>>,
) -> bool {
    let sent = out.filter(own(key));
    let arrived = frames.filter(own(key)).to_multiset();
    let reached = outward_from(profile, decode, Outward::Opened, sent);
    if state.flows.contains_key(key) {
        let flow = state.flows[key];
        &&& is_streaming(profile, decode, flow)
        &&& is_drained(flow)
        &&& reached == Some(phase_of(flow))
        &&& sent.to_multiset().add(held_frames(flow)).subset_of(arrived)
        &&& !flow.cancelling ==> sent.to_multiset().add(held_frames(flow)) == arrived
    } else {
        &&& state.is_retired(profile, key.incarnation, key.id)
        &&& reached == Some(Outward::Ended)
        &&& sent.to_multiset().subset_of(arrived)
    }
}

proof fn lemma_filter_push<A>(items: Seq<A>, item: A, keep: spec_fn(A) -> bool)
    ensures
        items.push(item).filter(keep) == if keep(item) {
            items.filter(keep).push(item)
        } else {
            items.filter(keep)
        },
{
    reveal(Seq::filter);
    assert(items.push(item).drop_last() =~= items);
}

/// An event of another operation leaves the stream as it is.
proof fn lemma_other_event<P>(
    profile: WireProfile,
    decode: spec_fn(LaneFrame<P>) -> GuestBody,
    key: FlowKey,
    before: Seq<LaneFrame<P>>,
    state: MergerState<P>,
    out: Seq<LaneFrame<P>>,
    frame: LaneFrame<P>,
)
    requires
        profile.wf(),
        state.wf(profile),
        run_streams(profile, decode, key, before, state, out),
        !frame_of(frame, key),
        push_outcome(profile, state, frame, decode(frame)) is Forward,
    ensures
        ({
            let outcome = push_outcome(profile, state, frame, decode(frame));
            run_streams(
                profile,
                decode,
                key,
                before.push(frame),
                outcome.state(),
                out + outcome->ready,
            )
        }),
{
    let keep = own::<P>(key);
    let outcome = push_outcome(profile, state, frame, decode(frame));
    let ready = outcome->ready;
    push_continues_one_stream(profile, state, frame, decode(frame));
    assert forall|i: int| 0 <= i < ready.len() implies !keep(#[trigger] ready[i]) by {
        assert(ready[i].incarnation == frame.incarnation);
    }
    lemma_filter_none(ready, keep);
    Seq::filter_distributes_over_add(out, ready, keep);
    assert((out + ready).filter(keep) =~= out.filter(keep));
    lemma_filter_push(before, frame, keep);
    let after = outcome.state();
    assert(after.flows.contains_key(key) == state.flows.contains_key(key));
}

/// Frames that went out or are held stay among those that arrived.
proof fn lemma_count_bound<A>(
    sent: Multiset<A>,
    held: Multiset<A>,
    arrived: Multiset<A>,
    ready: Multiset<A>,
    kept: Multiset<A>,
    item: A,
)
    requires
        sent.add(held).subset_of(arrived),
        ready.add(kept).subset_of(held.insert(item)),
    ensures
        sent.add(ready).add(kept).subset_of(arrived.insert(item)),
        sent.add(ready).subset_of(arrived.insert(item)),
        sent.add(held) == arrived && ready.add(kept) == held.insert(item) ==> sent.add(ready).add(
            kept,
        ) == arrived.insert(item),
{
    if sent.add(held) == arrived && ready.add(kept) == held.insert(item) {
        assert forall|v: A| sent.add(ready).add(kept).count(v) == arrived.insert(item).count(v) by {
            assert(sent.add(held).count(v) == arrived.count(v));
            assert(ready.add(kept).count(v) == held.insert(item).count(v));
        }
        assert(sent.add(ready).add(kept) =~= arrived.insert(item));
    }
    assert forall|v: A|
        sent.add(ready).add(kept).count(v) <= arrived.insert(item).count(v)
            && sent.add(ready).count(v) <= arrived.insert(item).count(v) by {
        assert(sent.add(held).count(v) <= arrived.count(v));
        assert(ready.add(kept).count(v) <= held.insert(item).count(v));
    }
}

/// An event of the operation continues the stream.
proof fn lemma_own_event<P>(
    profile: WireProfile,
    decode: spec_fn(LaneFrame<P>) -> GuestBody,
    key: FlowKey,
    before: Seq<LaneFrame<P>>,
    state: MergerState<P>,
    out: Seq<LaneFrame<P>>,
    frame: LaneFrame<P>,
)
    requires
        profile.wf(),
        state.wf(profile),
        run_streams(profile, decode, key, before, state, out),
        frame_of(frame, key),
        push_outcome(profile, state, frame, decode(frame)) is Forward,
    ensures
        ({
            let outcome = push_outcome(profile, state, frame, decode(frame));
            run_streams(
                profile,
                decode,
                key,
                before.push(frame),
                outcome.state(),
                out + outcome->ready,
            )
        }),
{
    let keep = own::<P>(key);
    let outcome = push_outcome(profile, state, frame, decode(frame));
    let ready = outcome->ready;
    let sent = out.filter(keep);
    push_continues_one_stream(profile, state, frame, decode(frame));
    lemma_filter_all(ready, keep);
    Seq::filter_distributes_over_add(out, ready, keep);
    lemma_filter_push(before, frame, keep);
    lemma_outward_append(profile, decode, Outward::Opened, sent, ready);
    vstd::seq_lib::lemma_multiset_commutative(sent, ready);
    vstd::seq_lib::to_multiset_build(before.filter(keep), frame);
    let arrived = before.filter(keep).to_multiset();
    let after = outcome.state();
    if state.flows.contains_key(key) {
        lemma_push_streams(profile, decode, key, state, frame);
        let held = held_frames(state.flows[key]);
        if after.flows.contains_key(key) {
            lemma_count_bound(
                sent.to_multiset(),
                held,
                arrived,
                ready.to_multiset(),
                held_frames(after.flows[key]),
                frame,
            );
        } else {
            lemma_count_bound(
                sent.to_multiset(),
                held,
                arrived,
                ready.to_multiset(),
                Multiset::empty(),
                frame,
            );
        }
    } else {
        lemma_push_after_end(profile, decode, key, state, frame);
        lemma_count_bound(
            sent.to_multiset(),
            Multiset::empty(),
            arrived,
            ready.to_multiset(),
            Multiset::empty(),
            frame,
        );
    }
}

proof fn lemma_run_streams<P>(
    profile: WireProfile,
    decode: spec_fn(LaneFrame<P>) -> GuestBody,
    start: MergerState<P>,
    key: FlowKey,
    frames: Seq<LaneFrame<P>>,
)
    requires
        profile.wf(),
        start.wf(profile),
        start.flows.contains_key(key),
        start.flows[key] == FlowState::<P>::fresh(),
        run(profile, decode, start, frames) is Some,
    ensures
        run(profile, decode, start, frames) matches Some((state, out)) && state.wf(profile)
            && run_streams(profile, decode, key, frames, state, out),
    decreases frames.len(),
{
    if frames.len() == 0 {
        broadcast use vstd::seq_lib::group_to_multiset_ensures;

        let none = Seq::<LaneFrame<P>>::empty();
        lemma_filter_none(none, own(key));
        lemma_filter_none(frames, own(key));
        assert(frames_of(start.flows[key].held) =~= none);
        assert(none.to_multiset() =~= Multiset::empty());
        assert(held_frames(start.flows[key]) =~= Multiset::empty());
        assert(none.to_multiset().add(held_frames(start.flows[key])) =~= none.to_multiset());
    } else {
        let before = frames.drop_last();
        let frame = frames.last();
        lemma_run_streams(profile, decode, start, key, before);
        let (state, out) = run(profile, decode, start, before).unwrap();
        push_continues_one_stream(profile, state, frame, decode(frame));
        assert(before.push(frame) =~= frames);
        if frame_of(frame, key) {
            lemma_own_event(profile, decode, key, before, state, out, frame);
        } else {
            lemma_other_event(profile, decode, key, before, state, out, frame);
        }
    }
}

/// The merger's guarantee for the whole life of an operation.
///
/// Over any run of lane events, of this operation and of others in any order, what goes out of the
/// operation is one stream. Its raw records stand behind its acceptance, without a gap, an overlap
/// or a reordering from the first byte on. The finish stands behind them and names the offset that
/// they reach. The terminal frame comes last of these, and behind the finish unless the operation
/// was refused, cancelled or never open to raw bytes. No frame goes out that did not arrive, and
/// none goes out twice. The operation ends exactly when its terminal frame goes out.
pub proof fn whole_run_is_one_stream<P>(
    profile: WireProfile,
    decode: spec_fn(LaneFrame<P>) -> GuestBody,
    start: MergerState<P>,
    key: FlowKey,
    frames: Seq<LaneFrame<P>>,
)
    requires
        profile.wf(),
        start.wf(profile),
        start.flows.contains_key(key),
        start.flows[key] == FlowState::<P>::fresh(),
        run(profile, decode, start, frames) is Some,
    ensures
        ({
            let (state, out) = run(profile, decode, start, frames).unwrap();
            let sent = out.filter(own(key));
            let reached = outward_from(profile, decode, Outward::Opened, sent);
            &&& reached is Some
            &&& sent.to_multiset().subset_of(frames.filter(own(key)).to_multiset())
            &&& !state.flows.contains_key(key) <==> reached == Some(Outward::Ended)
        }),
{
    lemma_run_streams(profile, decode, start, key, frames);
}

/// Nothing that arrives for an operation is lost, and nothing is kept back without need.
///
/// As long as an operation is open and not cancelled, what went out together with what is held back
/// is exactly what arrived, each frame as often as it arrived. Control frames of no special kind are
/// never held back. Raw records are held back only while the operation is not accepted or bytes
/// before them are missing, the finish only while bytes before its offset are missing, and the
/// terminal frame only while the finish has not gone out.
pub proof fn nothing_is_lost_or_kept_back<P>(
    profile: WireProfile,
    decode: spec_fn(LaneFrame<P>) -> GuestBody,
    start: MergerState<P>,
    key: FlowKey,
    frames: Seq<LaneFrame<P>>,
)
    requires
        profile.wf(),
        start.wf(profile),
        start.flows.contains_key(key),
        start.flows[key] == FlowState::<P>::fresh(),
        run(profile, decode, start, frames) is Some,
    ensures
        ({
            let (state, out) = run(profile, decode, start, frames).unwrap();
            let sent = out.filter(own(key)).to_multiset();
            let arrived = frames.filter(own(key)).to_multiset();
            let flow = state.flows[key];
            state.flows.contains_key(key) && !flow.cancelling ==> {
                &&& sent.add(held_frames(flow)) == arrived
                &&& flow.accepted && flow.guest_to_host && flow.held.len() > 0
                    ==> flow.held[0].offset > flow.next
                &&& flow.finish matches Some((final_offset, _)) ==> final_offset != flow.next
                &&& flow.terminal is Some ==> flow.accepted && flow.guest_to_host
                    && !flow.finish_forwarded
            }
        }),
{
    lemma_run_streams(profile, decode, start, key, frames);
}

/// A terminal frame ends its operation at once, and is itself what goes out, where no raw bytes of
/// the guest are awaited: before any acceptance, after one that leaves the guest's direction
/// closed, after the finish went out, or after a cancellation.
pub proof fn terminal_ends_an_operation_without_open_stream<P>(
    profile: WireProfile,
    state: MergerState<P>,
    key: FlowKey,
    frame: LaneFrame<P>,
)
    requires
        state.wf(profile),
        state.flows.contains_key(key),
        frame_of(frame, key),
        frame.frame.flags != profile.flag_bulk,
        frame.frame.flags & profile.flag_terminal != 0,
        local_index(profile, key.id) is Some,
        ({
            let flow = state.flows[key];
            !flow.accepted || !flow.guest_to_host || flow.finish_forwarded || flow.cancelling
        }),
    ensures
        ({
            let outcome = push_outcome(profile, state, frame, GuestBody::Other);
            &&& outcome is Forward
            &&& outcome->ready == seq![frame]
            &&& outcome.state().flows == state.flows.remove(key)
            &&& outcome.state().retired == state.retired.insert(
                (key.incarnation, local_index(profile, key.id)->0),
            )
        }),
{
}

/// Control traffic that ends nothing passes at once and unchanged, whether its operation is known
/// or not.
pub proof fn ordinary_control_passes<P>(
    profile: WireProfile,
    state: MergerState<P>,
    key: FlowKey,
    frame: LaneFrame<P>,
)
    requires
        frame_of(frame, key),
        frame.frame.flags != profile.flag_bulk,
        frame.frame.flags & profile.flag_terminal == 0,
    ensures
        ({
            let outcome = push_outcome(profile, state, frame, GuestBody::Other);
            outcome is Forward && outcome->ready == seq![frame] && outcome.state() == state
        }),
{
}

/// The push that ends an open stream sends everything that was held back and the frame that
/// brought it, unless a second finish was waiting.
pub proof fn ending_push_sends_everything<P>(
    profile: WireProfile,
    decode: spec_fn(LaneFrame<P>) -> GuestBody,
    state: MergerState<P>,
    key: FlowKey,
    frame: LaneFrame<P>,
)
    requires
        profile.wf(),
        state.wf(profile),
        state.flows.contains_key(key),
        state.flows[key].accepted,
        state.flows[key].guest_to_host,
        !state.flows[key].cancelling,
        !(state.flows[key].finish_forwarded && state.flows[key].finish is Some),
        !(state.flows[key].finish_forwarded && state.flows[key].terminal is Some),
        frame_of(frame, key),
        push_outcome(profile, state, frame, decode(frame)) is Forward,
        !push_outcome(profile, state, frame, decode(frame)).state().flows.contains_key(key),
    ensures
        push_outcome(profile, state, frame, decode(frame))->ready.to_multiset() == held_frames(
            state.flows[key],
        ).insert(frame),
{
    let flow = state.flows[key];
    let id = key.id;
    let none = Seq::<LaneFrame<P>>::empty();
    lemma_one_frame(profile, decode, Outward::Opened, frame);
    if frame.frame.flags == profile.flag_bulk {
        if let Ok((offset, end, direction)) = raw_offsets(
            profile,
            frame.frame.flags,
            frame.frame.data@,
        ) {
            if !flow.finish_forwarded {
                let moved = FlowState { next: end, ..flow };
                lemma_done_sends_all(moved, seq![frame], id);
                if flow.held.len() == 0 {
                    assert(seq![frame].to_multiset().add(held_frames(moved)) =~= held_frames(
                        flow,
                    ).insert(frame));
                }
                let at = slot_for(flow.held, offset) as int;
                let item = HeldRaw { offset, end, frame };
                lemma_slot_bound(flow.held, offset);
                let held = FlowState { held: flow.held.insert(at, item), ..flow };
                assert(frames_of(held.held) =~= frames_of(flow.held).insert(at, frame));
                vstd::seq_lib::to_multiset_insert(frames_of(flow.held), at, frame);
                lemma_done_sends_all(held, none, id);
                assert(none.to_multiset().add(held_frames(held)) =~= held_frames(flow).insert(
                    frame,
                ));
            }
        }
    } else {
        match decode(frame) {
            GuestBody::BulkFinish(Ok((_, final_offset))) => {
                let ended = FlowState { finish: Some((final_offset, frame)), ..flow };
                lemma_done_sends_all(ended, none, id);
                if flow.finish is None {
                    assert(none.to_multiset().add(held_frames(ended)) =~= held_frames(
                        flow,
                    ).insert(frame));
                }
            },
            GuestBody::Other => {
                assert(frames_of(flow.held).len() == 0 ==> frames_of(flow.held) =~= none);
                if flow.finish_forwarded {
                    assert(seq![frame].to_multiset() =~= held_frames(flow).insert(frame));
                }
            },
            _ => {},
        }
    }
}

proof fn lemma_done_sends_all<P>(flow: FlowState<P>, ready: Seq<LaneFrame<P>>, id: u32)
    ensures
        drain(flow, ready, id) matches FlowStep::Done { ready: out } ==> out.to_multiset()
            == ready.to_multiset().add(held_frames(flow)),
{
    broadcast use vstd::seq_lib::group_to_multiset_ensures;

    if drain(flow, ready, id) is Done {
        let n = run_len(flow.held, flow.next);
        lemma_run_len_bound(flow.held, flow.next);
        let front = flow.held.subrange(0, n as int);
        let rest = flow.held.subrange(n as int, flow.held.len() as int);
        assert(rest.len() == 0);
        assert(front =~= flow.held);
        vstd::seq_lib::lemma_multiset_commutative(ready, frames_of(front));
        let out = drain(flow, ready, id)->Done_ready;
        assert(out.to_multiset() =~= ready.to_multiset().add(held_frames(flow)));
    }
}

/// A record of the guest that touches no byte twice, stays within the finish and the budgets, and
/// comes before the finish went out, is never refused, and is never thrown away.
pub proof fn fitting_record_is_taken<P>(
    profile: WireProfile,
    state: MergerState<P>,
    key: FlowKey,
    frame: LaneFrame<P>,
    body: GuestBody,
    offset: u64,
    end: u64,
)
    requires
        profile.wf(),
        state.wf(profile),
        state.flows.contains_key(key),
        frame_of(frame, key),
        frame.frame.flags == profile.flag_bulk,
        raw_offsets(profile, frame.frame.flags, frame.frame.data@) == Ok::<
            (u64, u64, BulkFlow),
            RawBulkError,
        >((offset, end, BulkFlow::GuestToHost)),
        !state.flows[key].cancelling,
        !state.flows[key].finish_forwarded,
        state.flows[key].finish is None,
        offset >= state.flows[key].next,
        forall|i: int|
            0 <= i < state.flows[key].held.len() ==> end <= (
            #[trigger] state.flows[key].held[i]).offset || state.flows[key].held[i].end <= offset,
        state.flows[key].held.len() < BULK_MERGE_MAX_PENDING_RECORDS,
        held_bytes(state.flows[key].held) + (end - offset) <= BULK_WRITE_FLOW_CAPACITY,
    ensures
        ({
            let outcome = push_outcome(profile, state, frame, body);
            &&& outcome is Forward
            &&& outcome.state().flows.contains_key(key)
            &&& outcome->ready.to_multiset().add(held_frames(outcome.state().flows[key]))
                == held_frames(state.flows[key]).insert(frame)
            &&& state.flows[key].accepted && state.flows[key].guest_to_host && offset
                == state.flows[key].next ==> outcome->ready.len() > 0 && outcome->ready[0] == frame
        }),
{
    let flow = state.flows[key];
    let at = slot_for(flow.held, offset) as int;
    lemma_slot_bound(flow.held, offset);
    lemma_slot_is_first_fit(flow.held, offset);
    let item = HeldRaw { offset, end, frame };
    let held = FlowState { held: flow.held.insert(at, item), ..flow };
    let moved = FlowState { next: end, ..flow };
    let none = Seq::<LaneFrame<P>>::empty();
    lemma_one_frame(profile, |f: LaneFrame<P>| body, Outward::Opened, frame);
    assert(frames_of(held.held) =~= frames_of(flow.held).insert(at, frame));
    vstd::seq_lib::to_multiset_insert(frames_of(flow.held), at, frame);
    lemma_kept_mass(moved, seq![frame], key.id);
    lemma_kept_mass(held, none, key.id);
    assert(none.to_multiset().add(held_frames(held)) =~= held_frames(flow).insert(frame));
    if flow.held.len() == 0 {
        assert(seq![frame].to_multiset().add(held_frames(moved)) =~= held_frames(flow).insert(
            frame,
        ));
    }
    if flow.accepted && flow.guest_to_host && offset == flow.next && flow.held.len() > 0 {
        assert(at == 0);
        assert(held.held[0] == item);
        assert(run_len(held.held, flow.next) > 0);
        lemma_run_len_bound(held.held, flow.next);
    }
}

proof fn lemma_slot_is_first_fit<P>(held: Seq<HeldRaw<P>>, offset: u64)
    ensures
        held.len() > 0 && held[0].offset >= offset ==> slot_for(held, offset) == 0,
{
}

proof fn lemma_kept_mass<P>(flow: FlowState<P>, ready: Seq<LaneFrame<P>>, id: u32)
    ensures
        drain(flow, ready, id) matches FlowStep::Keep { flow: after, ready: out }
            ==> out.to_multiset().add(held_frames(after)) == ready.to_multiset().add(
            held_frames(flow),
        ),
{
    broadcast use vstd::seq_lib::group_to_multiset_ensures;

    if drain(flow, ready, id) is Keep {
        let n = run_len(flow.held, flow.next);
        lemma_run_len_bound(flow.held, flow.next);
        let front = flow.held.subrange(0, n as int);
        let rest = flow.held.subrange(n as int, flow.held.len() as int);
        assert(frames_of(flow.held) =~= frames_of(front) + frames_of(rest));
        vstd::seq_lib::lemma_multiset_commutative(frames_of(front), frames_of(rest));
        vstd::seq_lib::lemma_multiset_commutative(ready, frames_of(front));
        let (after, out) = (drain(flow, ready, id)->Keep_flow, drain(flow, ready, id)->Keep_ready);
        assert(out.to_multiset().add(held_frames(after)) =~= ready.to_multiset().add(
            held_frames(flow),
        ));
    }
}

} // verus!
