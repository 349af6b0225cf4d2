//! What the merger takes and what it refuses, event by event.

use vstd::prelude::*;

use crate::flow_map::FlowKey;
use crate::frames::raw_offsets;
use crate::frames::RawBulkError;
use crate::merge_flow::cancelled;
use crate::merge_flow::held_bytes;
use crate::merge_flow::lemma_run_len_bound;
use crate::merge_flow::LaneFrame;
use crate::merge_flow::MergeError;
use crate::merger::frame_of;
use crate::merger::push_outcome;
use crate::merger::GuestBody;
use crate::merger::MergeOutcome;
use crate::merger::MergerState;
use crate::retire::local_index;
use crate::wire::BulkFlow;
use crate::wire::WireProfile;

verus! {

/// An operation is accepted once, and its acceptance goes out ahead of everything that waited for
/// it. It opens the guest's direction exactly where the mask says so; where records already came for
/// a direction that stays closed, the guest broke its word.
pub proof fn acceptance_goes_out_first<P>(
    profile: WireProfile,
    state: MergerState<P>,
    key: FlowKey,
    frame: LaneFrame<P>,
    directions: u8,
)
    requires
        state.wf(profile),
        state.flows.contains_key(key),
        frame_of(frame, key),
        frame.frame.flags != profile.flag_bulk,
    ensures
        ({
            let flow = state.flows[key];
            let open = directions & profile.flow_mask_guest_to_host != 0;
            let outcome = push_outcome(
                profile,
                state,
                frame,
                GuestBody::BulkAccepted(Ok::<u8, String>(directions)),
            );
            &&& flow.accepted ==> outcome == (MergeOutcome::Fail {
                state,
                error: MergeError::DuplicateAcceptance { id: key.id },
            })
            &&& !flow.accepted && !open && flow.held.len() > 0 ==> outcome is Fail
                && outcome->error == (MergeError::DisabledFlow { id: key.id })
            &&& !flow.accepted && (open || flow.held.len() == 0) ==> {
                &&& outcome is Forward
                &&& outcome->ready.len() > 0
                &&& outcome->ready[0] == frame
                &&& outcome.state().flows.contains_key(key)
                &&& outcome.state().flows[key].accepted
                &&& outcome.state().flows[key].guest_to_host == open
                &&& !open ==> outcome->ready.len() == 1
            }
        }),
{
    assert(state.flows.insert(key, state.flows[key]) =~= state.flows);
    lemma_run_len_bound(state.flows[key].held, state.flows[key].next);
}

/// A finish of the guest is taken once, for an open direction, and not below what went out. It goes
/// out at once where every byte before it did.
pub proof fn finish_is_taken_once<P>(
    profile: WireProfile,
    state: MergerState<P>,
    key: FlowKey,
    frame: LaneFrame<P>,
    final_offset: u64,
)
    requires
        state.wf(profile),
        state.flows.contains_key(key),
        frame_of(frame, key),
        frame.frame.flags != profile.flag_bulk,
    ensures
        ({
            let flow = state.flows[key];
            let outcome = push_outcome(
                profile,
                state,
                frame,
                GuestBody::BulkFinish(
                    Ok::<(BulkFlow, u64), String>((BulkFlow::GuestToHost, final_offset)),
                ),
            );
            let open = flow.accepted && flow.guest_to_host;
            &&& !open ==> outcome == (MergeOutcome::Fail {
                state,
                error: MergeError::FinishOnInactiveFlow { id: key.id },
            })
            &&& open && final_offset < flow.next ==> outcome == (MergeOutcome::Fail {
                state,
                error: MergeError::FinishRegressed { final_offset, forwarded: flow.next },
            })
            &&& open && final_offset >= flow.next && flow.finish is Some ==> outcome == (
            MergeOutcome::Fail { state, error: MergeError::DuplicateFinish { id: key.id } })
            &&& open && final_offset >= flow.next && flow.finish is None && flow.held.len() == 0
                && !flow.cancelling ==> {
                &&& final_offset > flow.next || flow.terminal is None ==> outcome is Forward
                &&& final_offset > flow.next ==> outcome->ready.len() == 0
                    && outcome.state().flows[key].finish == Some((final_offset, frame))
                &&& final_offset == flow.next && flow.terminal is None ==> outcome->ready == seq![
                    frame,
                ] && outcome.state().flows[key].finish_forwarded
                &&& final_offset == flow.next && flow.terminal is Some && local_index(
                    profile,
                    key.id,
                ) is Some ==> outcome is Forward && outcome->ready == seq![frame, flow.terminal->0]
                    && !outcome.state().flows.contains_key(key)
            }
        }),
        push_outcome(
            profile,
            state,
            frame,
            GuestBody::BulkFinish(
                Ok::<(BulkFlow, u64), String>((BulkFlow::HostToGuest, final_offset)),
            ),
        ) == (MergeOutcome::Forward { state, ready: seq![frame] }),
{
    let flow = state.flows[key];
    assert(state.flows.insert(key, flow) =~= state.flows);
    if flow.held.len() == 0 {
        assert(flow.held.subrange(0, 0) =~= flow.held);
        assert(Seq::<LaneFrame<P>>::empty() + crate::merge_flow::frames_of(
            flow.held.subrange(0, 0),
        ) =~= Seq::<LaneFrame<P>>::empty());
        assert(Seq::<LaneFrame<P>>::empty().push(frame) =~= seq![frame]);
        if flow.terminal is Some {
            assert(Seq::<LaneFrame<P>>::empty().push(frame).push(flow.terminal->0) =~= seq![
                frame,
                flow.terminal->0,
            ]);
        }
    }
}

/// A cancellation passes and throws away the data that waited; from then on no record of the
/// operation goes out, and none of them is an error.
pub proof fn cancelled_operation_delivers_no_data<P>(
    profile: WireProfile,
    state: MergerState<P>,
    key: FlowKey,
    cancel: LaneFrame<P>,
    record: LaneFrame<P>,
    body: GuestBody,
)
    requires
        state.flows.contains_key(key),
        frame_of(cancel, key),
        frame_of(record, key),
        cancel.frame.flags != profile.flag_bulk,
        record.frame.flags == profile.flag_bulk,
    ensures
        ({
            let outcome = push_outcome(profile, state, cancel, GuestBody::BulkCancel);
            let after = outcome.state();
            &&& outcome is Forward
            &&& outcome->ready == seq![cancel]
            &&& after.retired == state.retired
            &&& after.flows.dom() == state.flows.dom()
            &&& after.flows[key].cancelling
            &&& after.flows[key].held.len() == 0
            &&& after.flows[key].finish is None
            &&& after.flows[key].terminal == state.flows[key].terminal
            &&& after.flows[key].accepted == state.flows[key].accepted
            &&& after.flows[key].next == state.flows[key].next
            &&& (raw_offsets(profile, record.frame.flags, record.frame.data@) matches Ok(
                (_, _, flow),
            ) && flow == BulkFlow::GuestToHost) ==> {
                let late = push_outcome(profile, after, record, body);
                late is Forward && late->ready.len() == 0 && late.state() == after
            }
        }),
        cancelled(state.flows[key]).cancelling,
        cancelled(state.flows[key]).held.len() == 0,
        cancelled(state.flows[key]).finish is None,
{
    let after = push_outcome(profile, state, cancel, GuestBody::BulkCancel).state();
    assert(after.flows.dom() =~= state.flows.dom());
    assert(after.flows.insert(key, after.flows[key]) =~= after.flows);
}

/// A record that the stream cannot hold is refused, and changes nothing: one that goes the wrong
/// way, that comes after the finish or reaches beyond it, that touches a byte twice, or that would
/// have to wait beyond the budgets of 1024 records and 8 MiB.
pub proof fn broken_records_are_refused<P>(
    profile: WireProfile,
    state: MergerState<P>,
    key: FlowKey,
    frame: LaneFrame<P>,
    body: GuestBody,
    offset: u64,
    end: u64,
    direction: BulkFlow,
)
    requires
        profile.wf(),
        state.wf(profile),
        state.flows.contains_key(key),
        frame_of(frame, key),
        frame.frame.flags == profile.flag_bulk,
        raw_offsets(profile, frame.frame.flags, frame.frame.data@) == Ok::<
            (u64, u64, BulkFlow),
            RawBulkError,
        >((offset, end, direction)),
    ensures
        ({
            let flow = state.flows[key];
            let outcome = push_outcome(profile, state, frame, body);
            let live = direction == BulkFlow::GuestToHost && !flow.cancelling;
            let twice = offset < flow.next || exists|i: int|
                0 <= i < flow.held.len() && offset < (#[trigger] flow.held[i]).end
                    && flow.held[i].offset < end;
            let waits = !flow.accepted || !flow.guest_to_host || offset != flow.next
                || flow.held.len() > 0;
            &&& direction == BulkFlow::HostToGuest ==> outcome == (MergeOutcome::Fail {
                state,
                error: MergeError::HostToGuestRecord { id: key.id },
            })
            &&& live && flow.finish_forwarded ==> outcome is Fail && outcome->error == (
            MergeError::RecordAfterFinish { id: key.id })
            &&& live && !flow.finish_forwarded && (flow.finish matches Some((final_offset, _)) && end
                > final_offset) ==> outcome is Fail && outcome->error == (
            MergeError::RecordExceedsFinish { end, id: key.id })
            &&& live && twice ==> outcome is Fail
            &&& live && waits && (flow.held.len() >= 1024 || held_bytes(flow.held) + (end - offset)
                > 8388608) ==> outcome is Fail
            &&& outcome is Fail && live && !flow.finish_forwarded && (flow.finish is Some ==> end
                <= (flow.finish->0).0) && !twice ==> (waits && (flow.held.len() >= 1024 || held_bytes(
                flow.held,
            ) + (end - offset) > 8388608)) || outcome->error == (
            MergeError::RecordsExceedFinalOffset { id: key.id }) || outcome->error is Unassigned
        }),
{
    let flow = state.flows[key];
    assert(offset < end);
}

/// What comes for an operation that is not there: dropped where it was ended, and an error where it
/// never was. Only a terminal frame passes for an operation that was never registered, and only a
/// finish is an error for one that ended.
pub proof fn strays_are_dropped_or_refused<P>(
    profile: WireProfile,
    state: MergerState<P>,
    key: FlowKey,
    frame: LaneFrame<P>,
    directions: u8,
    final_offset: u64,
)
    requires
        !state.flows.contains_key(key),
        frame_of(frame, key),
    ensures
        ({
            let ended = state.is_retired(profile, key.incarnation, key.id);
            let nothing = MergeOutcome::Forward { state, ready: Seq::<LaneFrame<P>>::empty() };
            let control = frame.frame.flags != profile.flag_bulk;
            let accepted = push_outcome(
                profile,
                state,
                frame,
                GuestBody::BulkAccepted(Ok::<u8, String>(directions)),
            );
            let cancel = push_outcome(profile, state, frame, GuestBody::BulkCancel);
            let other = push_outcome(profile, state, frame, GuestBody::Other);
            let finish = push_outcome(
                profile,
                state,
                frame,
                GuestBody::BulkFinish(
                    Ok::<(BulkFlow, u64), String>((BulkFlow::GuestToHost, final_offset)),
                ),
            );
            &&& control ==> accepted == if ended {
                nothing
            } else {
                MergeOutcome::Fail {
                    state,
                    error: MergeError::UnregisteredAcceptance { id: key.id },
                }
            }
            &&& control ==> cancel == if ended {
                nothing
            } else {
                MergeOutcome::Fail {
                    state,
                    error: MergeError::UnregisteredCancellation { id: key.id },
                }
            }
            &&& control ==> finish == (MergeOutcome::Fail {
                state,
                error: MergeError::FinishBeforeAcceptance { id: key.id },
            })
            &&& control && frame.frame.flags & profile.flag_terminal != 0 ==> other == if ended {
                nothing
            } else {
                MergeOutcome::Forward { state, ready: seq![frame] }
            }
            &&& !control && (raw_offsets(profile, frame.frame.flags, frame.frame.data@) matches Ok(
                (_, _, flow),
            ) && flow == BulkFlow::GuestToHost) ==> other == if ended {
                nothing
            } else {
                MergeOutcome::Fail { state, error: MergeError::UnregisteredRecord { id: key.id } }
            }
        }),
{
}

/// A frame without an owner, or with a body that cannot be read, is refused with its own reason, and
/// changes nothing.
pub proof fn unreadable_frames_are_refused<P>(
    profile: WireProfile,
    state: MergerState<P>,
    frame: LaneFrame<P>,
    body: GuestBody,
    reason: String,
)
    ensures
        frame.incarnation is None ==> push_outcome(profile, state, frame, body) == (
        MergeOutcome::Fail { state, error: MergeError::MissingIncarnation }),
        frame.incarnation is Some && frame.frame.flags != profile.flag_bulk ==> {
            &&& push_outcome(profile, state, frame, GuestBody::Undecodable { reason }) == (
            MergeOutcome::Fail { state, error: MergeError::Undecodable { reason } })
            &&& push_outcome(profile, state, frame, GuestBody::BulkAccepted(Err(reason))) == (
            MergeOutcome::Fail { state, error: MergeError::MalformedAcceptance { reason } })
            &&& push_outcome(profile, state, frame, GuestBody::BulkFinish(Err(reason))) == (
            MergeOutcome::Fail { state, error: MergeError::MalformedFinish { reason } })
        },
        frame.incarnation is Some && frame.frame.flags == profile.flag_bulk ==> (raw_offsets(
            profile,
            frame.frame.flags,
            frame.frame.data@,
        ) matches Err(error) ==> push_outcome(profile, state, frame, body) == (MergeOutcome::Fail {
            state,
            error: MergeError::Raw(error),
        })),
{
}

/// A second terminal frame for a stream that is still open is an error.
pub proof fn second_terminal_is_refused<P>(
    profile: WireProfile,
    state: MergerState<P>,
    key: FlowKey,
    frame: LaneFrame<P>,
)
    requires
        state.flows.contains_key(key),
        frame_of(frame, key),
        frame.frame.flags != profile.flag_bulk,
        frame.frame.flags & profile.flag_terminal != 0,
        state.flows[key].guest_to_host,
        !state.flows[key].cancelling,
        !state.flows[key].finish_forwarded,
        state.flows[key].terminal is Some,
    ensures
        push_outcome(profile, state, frame, GuestBody::Other) is Fail,
        push_outcome(profile, state, frame, GuestBody::Other)->error == (
        MergeError::DuplicateTerminal { id: key.id }),
{
}

} // verus!
