//! Cross-lane merger: reconstructs one valid outward stream per operation from control frames and
//! raw records that arrive on two physical lanes.

use vstd::prelude::*;

use crate::flow_map::owner_keys;
use crate::flow_map::FlowKey;
use crate::flow_map::FlowMap;
use crate::frames::raw_bulk_offsets;
use crate::frames::raw_offsets;
use crate::frames::RawBulkError;
use crate::merge_flow::accept_step;
use crate::merge_flow::cancelled;
use crate::merge_flow::drain;
use crate::merge_flow::end_after;
use crate::merge_flow::finish_step;
use crate::merge_flow::frames_of;
use crate::merge_flow::held_bytes;
use crate::merge_flow::lemma_drain_wf;
use crate::merge_flow::lemma_held_with_record_wf;
use crate::merge_flow::lemma_raw_wf;
use crate::merge_flow::lemma_run_is_gapless;
use crate::merge_flow::lemma_run_len_bound;
use crate::merge_flow::lemma_slot_bound;
use crate::merge_flow::raw_step;
use crate::merge_flow::run_len;
use crate::merge_flow::slot_for;
use crate::merge_flow::step_is;
use crate::merge_flow::terminal_step;
use crate::merge_flow::FlowState;
use crate::merge_flow::FlowStep;
use crate::merge_flow::GuestMergeFlow;
use crate::merge_flow::HeldRaw;
use crate::merge_flow::LaneFrame;
use crate::merge_flow::MergeError;
use crate::merge_flow::BULK_MERGE_MAX_PENDING_RECORDS;
use crate::merge_flow::BULK_WRITE_FLOW_CAPACITY;
use crate::retire::local_index;
use crate::retire::RetiredIds;
use crate::retire::UnassignedCorrelation;
use crate::wire::BulkFlow;
use crate::wire::ClientIncarnation;
use crate::wire::WireProfile;

verus! {

/// What a guest control frame says, as far as merging depends on it.
pub enum GuestBody {
    /// The body is no message.
    Undecodable { reason: String },
    /// An acceptance with its flow mask, or why its payload cannot be read.
    BulkAccepted(Result<u8, String>),
    /// The end of one direction, or why its payload cannot be read.
    BulkFinish(Result<(BulkFlow, u64), String>),
    BulkCancel,
    Other,
}

/// The merger's operations and the IDs that are used up.
pub struct MergerState<P> {
    pub flows: Map<FlowKey, FlowState<P>>,
    pub retired: Set<(ClientIncarnation, nat)>,
}

/// Outcome of one lane event.
pub enum MergeOutcome<P> {
    Forward { state: MergerState<P>, ready: Seq<LaneFrame<P>> },
    Fail { state: MergerState<P>, error: MergeError },
}

impl<P> MergeOutcome<P> {
    pub open spec fn state(self) -> MergerState<P> {
        match self {
            MergeOutcome::Forward { state, .. } => state,
            MergeOutcome::Fail { state, .. } => state,
        }
    }
}

impl<P> MergerState<P> {
    /// Whether `id` is used up for `incarnation`.
    pub open spec fn is_retired(self, profile: WireProfile, incarnation: ClientIncarnation, id: u32) -> bool {
        match local_index(profile, id) {
            None => false,
            Some(n) => self.retired.contains((incarnation, n)),
        }
    }

    /// Every flow is valid and holds nothing but its own frames.
    pub open spec fn wf(self, profile: WireProfile) -> bool {
        forall|key: FlowKey| #[trigger]
            self.flows.contains_key(key) ==> self.flows[key].wf() && owns(
                profile,
                self.flows[key],
                key,
            )
    }
}

/// The frame belongs to the operation `key`.
pub open spec fn frame_of<P>(frame: LaneFrame<P>, key: FlowKey) -> bool {
    &&& frame.incarnation == Some(key.incarnation)
    &&& frame.frame.id == key.id
}

/// A held record belongs to the operation, and its interval is the one in its header.
pub open spec fn record_of<P>(profile: WireProfile, record: HeldRaw<P>, key: FlowKey) -> bool {
    &&& frame_of(record.frame, key)
    &&& record.frame.frame.flags == profile.flag_bulk
    &&& raw_offsets(profile, record.frame.frame.flags, record.frame.frame.data@) == Ok::<
        (u64, u64, BulkFlow),
        RawBulkError,
    >((record.offset, record.end, BulkFlow::GuestToHost))
}

/// A control frame of the operation.
pub open spec fn control_of<P>(profile: WireProfile, frame: LaneFrame<P>, key: FlowKey) -> bool {
    frame_of(frame, key) && frame.frame.flags != profile.flag_bulk
}

/// Everything that a flow holds back belongs to its own operation.
pub open spec fn owns<P>(profile: WireProfile, flow: FlowState<P>, key: FlowKey) -> bool {
    &&& forall|i: int| 0 <= i < flow.held.len() ==> record_of(profile, #[trigger] flow.held[i], key)
    &&& flow.finish matches Some((_, frame)) ==> control_of(profile, frame, key)
    &&& flow.terminal matches Some(frame) ==> control_of(profile, frame, key)
}

/// The offset that the raw records among `frames` reach when they follow `from` without a gap,
/// overlap or reordering; nothing where they do not.
pub open spec fn raw_cover<P>(profile: WireProfile, frames: Seq<LaneFrame<P>>, from: u64) -> Option<u64>
    decreases frames.len(),
{
    if frames.len() == 0 {
        Some(from)
    } else {
        match raw_cover(profile, frames.drop_last(), from) {
            None => None,
            Some(reached) => if frames.last().frame.flags != profile.flag_bulk {
                Some(reached)
            } else {
                match raw_offsets(profile, frames.last().frame.flags, frames.last().frame.data@) {
                    Ok((offset, end, _)) if offset == reached => Some(end),
                    _ => None,
                }
            },
        }
    }
}

/// The state after one flow's step, and what goes out.
pub open spec fn settle<P>(
    profile: WireProfile,
    state: MergerState<P>,
    key: FlowKey,
    step: FlowStep<P>,
) -> MergeOutcome<P> {
    match step {
        FlowStep::Keep { flow, ready } => MergeOutcome::Forward {
            state: MergerState { flows: state.flows.insert(key, flow), ..state },
            ready,
        },
        FlowStep::Fail { flow, error } => MergeOutcome::Fail {
            state: MergerState { flows: state.flows.insert(key, flow), ..state },
            error,
        },
        FlowStep::Done { ready } => match local_index(profile, key.id) {
            Some(n) => MergeOutcome::Forward {
                state: MergerState {
                    flows: state.flows.remove(key),
                    retired: state.retired.insert((key.incarnation, n)),
                },
                ready,
            },
            None => MergeOutcome::Fail {
                state: MergerState { flows: state.flows.remove(key), ..state },
                error: MergeError::Unassigned(UnassignedCorrelation { id: key.id }),
            },
        },
    }
}

/// A frame for an operation that is gone: dropped where its ID is used up.
pub open spec fn stray<P>(
    profile: WireProfile,
    state: MergerState<P>,
    key: FlowKey,
    error: MergeError,
) -> MergeOutcome<P> {
    if state.is_retired(profile, key.incarnation, key.id) {
        MergeOutcome::Forward { state, ready: Seq::empty() }
    } else {
        MergeOutcome::Fail { state, error }
    }
}

/// The outcome of a raw record.
pub open spec fn push_raw_outcome<P>(
    profile: WireProfile,
    state: MergerState<P>,
    key: FlowKey,
    frame: LaneFrame<P>,
) -> MergeOutcome<P> {
    match raw_offsets(profile, frame.frame.flags, frame.frame.data@) {
        Err(error) => MergeOutcome::Fail { state, error: MergeError::Raw(error) },
        Ok((offset, end, direction)) => if direction != BulkFlow::GuestToHost {
            MergeOutcome::Fail { state, error: MergeError::HostToGuestRecord { id: key.id } }
        } else if !state.flows.contains_key(key) {
            stray(profile, state, key, MergeError::UnregisteredRecord { id: key.id })
        } else {
            settle(
                profile,
                state,
                key,
                raw_step(state.flows[key], key.id, offset, end, frame),
            )
        },
    }
}

/// The outcome of any lane event.
pub open spec fn push_outcome<P>(
    profile: WireProfile,
    state: MergerState<P>,
    frame: LaneFrame<P>,
    body: GuestBody,
) -> MergeOutcome<P> {
    match frame.incarnation {
        None => MergeOutcome::Fail { state, error: MergeError::MissingIncarnation },
        Some(incarnation) => {
            let id = frame.frame.id;
            let key = FlowKey { incarnation, id };
            if frame.frame.flags == profile.flag_bulk {
                push_raw_outcome(profile, state, key, frame)
            } else {
                match body {
                    GuestBody::Undecodable { reason } => MergeOutcome::Fail {
                        state,
                        error: MergeError::Undecodable { reason },
                    },
                    GuestBody::BulkAccepted(Err(reason)) => MergeOutcome::Fail {
                        state,
                        error: MergeError::MalformedAcceptance { reason },
                    },
                    GuestBody::BulkAccepted(Ok(directions)) => if state.flows.contains_key(key) {
                        settle(
                            profile,
                            state,
                            key,
                            accept_step(profile, state.flows[key], id, directions, frame),
                        )
                    } else {
                        stray(profile, state, key, MergeError::UnregisteredAcceptance { id })
                    },
                    GuestBody::BulkFinish(Err(reason)) => MergeOutcome::Fail {
                        state,
                        error: MergeError::MalformedFinish { reason },
                    },
                    GuestBody::BulkFinish(Ok((direction, final_offset))) => if direction
                        != BulkFlow::GuestToHost {
                        MergeOutcome::Forward { state, ready: seq![frame] }
                    } else if state.flows.contains_key(key) {
                        settle(
                            profile,
                            state,
                            key,
                            finish_step(state.flows[key], id, final_offset, frame),
                        )
                    } else {
                        MergeOutcome::Fail {
                            state,
                            error: MergeError::FinishBeforeAcceptance { id },
                        }
                    },
                    GuestBody::BulkCancel => if state.flows.contains_key(key) {
                        MergeOutcome::Forward {
                            state: MergerState {
                                flows: state.flows.insert(key, cancelled(state.flows[key])),
                                ..state
                            },
                            ready: seq![frame],
                        }
                    } else {
                        stray(profile, state, key, MergeError::UnregisteredCancellation { id })
                    },
                    GuestBody::Other => if frame.frame.flags & profile.flag_terminal == 0 {
                        MergeOutcome::Forward { state, ready: seq![frame] }
                    } else if state.flows.contains_key(key) {
                        settle(
                            profile,
                            state,
                            key,
                            terminal_step(state.flows[key], id, frame),
                        )
                    } else if state.is_retired(profile, incarnation, id) {
                        MergeOutcome::Forward { state, ready: Seq::empty() }
                    } else {
                        MergeOutcome::Forward { state, ready: seq![frame] }
                    },
                }
            }
        },
    }
}

/// Cross-lane merger that reconstructs one valid outward SDK stream.
pub struct GuestFrameMerger<P> {
    profile: WireProfile,
    flows: FlowMap<GuestMergeFlow<P>>,
    /// Owner-local bitmaps remember retired IDs without one allocation per operation.
    retired: RetiredIds,
}

impl<P> View for GuestFrameMerger<P> {
    type V = MergerState<P>;

    closed spec fn view(&self) -> MergerState<P> {
        MergerState {
            flows: Map::new(
                |key: FlowKey| self.flows@.contains_key(key),
                |key: FlowKey| self.flows@[key]@,
            ),
            retired: self.retired@,
        }
    }
}

/// The outcome of `push`, as the function returns it.
pub open spec fn outcome_is<P>(
    outcome: MergeOutcome<P>,
    after: MergerState<P>,
    result: Result<Vec<LaneFrame<P>>, MergeError>,
) -> bool {
    match outcome {
        MergeOutcome::Forward { state, ready } => result matches Ok(frames) && frames@ == ready
            && after == state,
        MergeOutcome::Fail { state, error } => result matches Err(e) && e == error && after
            == state,
    }
}

impl<P> GuestFrameMerger<P> {
    pub closed spec fn profile(&self) -> WireProfile {
        self.profile
    }

    pub closed spec fn wf(&self) -> bool {
        &&& self.profile.wf()
        &&& self.flows.wf()
        &&& self@.wf(self.profile)
        &&& forall|key: FlowKey| #[trigger] self.flows@.contains_key(key) ==> self.flows@[key].wf()
    }

    pub fn new(profile: WireProfile) -> (merger: GuestFrameMerger<P>)
        requires
            profile.wf(),
        ensures
            merger.wf(),
            merger.profile() == profile,
            merger@ == (MergerState::<P> { flows: Map::empty(), retired: Set::empty() }),
    {
        let merger = GuestFrameMerger { profile, flows: FlowMap::new(), retired: RetiredIds::new() };
        assert(merger@.flows =~= Map::empty());
        merger
    }

    /// Whether the operation is registered and not over.
    pub fn has_flow(&self, incarnation: ClientIncarnation, id: u32) -> (found: bool)
        ensures
            found == self@.flows.contains_key(FlowKey { incarnation, id }),
    {
        self.flows.contains(FlowKey { incarnation, id })
    }

    /// Register an opening operation before its request can reach agentd.
    pub fn register(&mut self, incarnation: ClientIncarnation, id: u32) -> (result: Result<
        (),
        MergeError,
    >)
        requires
            old(self).wf(),
        ensures
            final(self).wf(),
            final(self).profile() == old(self).profile(),
            ({
                let key = FlowKey { incarnation, id };
                if old(self)@.is_retired(old(self).profile(), incarnation, id)
                    || old(self)@.flows.contains_key(key) {
                    &&& result matches Err(e)
                    &&& e == (MergeError::Reused { id })
                    &&& final(self)@ == old(self)@
                } else {
                    &&& result is Ok
                    &&& final(self)@ == (MergerState {
                        flows: old(self)@.flows.insert(key, FlowState::fresh()),
                        retired: old(self)@.retired,
                    })
                }
            }),
    {
        let key = FlowKey { incarnation, id };
        if self.is_retired(incarnation, id) || self.flows.contains(key) {
            return Err(MergeError::Reused { id });
        }
        let flow: GuestMergeFlow<P> = GuestMergeFlow::new();
        self.flows.insert(key, flow);
        assert(self@.flows =~= old(self)@.flows.insert(key, FlowState::fresh()));
        Ok(())
    }

    /// Mark one operation cancelling and release all held data records.
    pub fn drop_flow(&mut self, incarnation: ClientIncarnation, id: u32)
        requires
            old(self).wf(),
        ensures
            final(self).wf(),
            final(self).profile() == old(self).profile(),
            ({
                let key = FlowKey { incarnation, id };
                final(self)@ == if old(self)@.flows.contains_key(key) {
                    MergerState {
                        flows: old(self)@.flows.insert(
                            key,
                            (FlowState {
                                terminal: None,
                                ..cancelled(old(self)@.flows[key])
                            }),
                        ),
                        retired: old(self)@.retired,
                    }
                } else {
                    old(self)@
                }
            }),
    {
        let key = FlowKey { incarnation, id };
        match self.flows.remove(key) {
            Some(flow) => {
                let mut flow = flow;
                let ghost before = flow@;
                flow.cancel(true);
                self.flows.insert(key, flow);
                assert(self@.flows =~= old(self)@.flows.insert(
                    key,
                    (FlowState { terminal: None, ..cancelled(before) }),
                ));
            },
            None => {
                assert(self@.flows =~= old(self)@.flows);
            },
        }
    }

    /// Drop all held frames owned by one disconnected client incarnation.
    pub fn drop_incarnation(&mut self, incarnation: ClientIncarnation)
        requires
            old(self).wf(),
        ensures
            final(self).wf(),
            final(self).profile() == old(self).profile(),
            final(self)@.flows == old(self)@.flows.remove_keys(
                owner_keys(old(self)@.flows, incarnation),
            ),
            final(self)@.retired == old(self)@.retired.filter(
                |entry: (ClientIncarnation, nat)| entry.0 != incarnation,
            ),
    {
        self.flows.drop_owner(incarnation);
        self.retired.forget(incarnation);
        assert(self@.flows =~= old(self)@.flows.remove_keys(
            owner_keys(old(self)@.flows, incarnation),
        ));
    }

    pub fn is_retired(&self, incarnation: ClientIncarnation, id: u32) -> (retired: bool)
        requires
            self.wf(),
        ensures
            retired == self@.is_retired(self.profile(), incarnation, id),
            retired <==> exists|n: nat|
                local_index(self.profile(), id) == Some(n) && #[trigger] self@.retired.contains(
                    (incarnation, n),
                ),
    {
        self.retired.relay_correlation_is_retired(&self.profile, incarnation, id)
    }

    /// Put a flow back after its step, or retire its ID.
    fn settle(
        &mut self,
        key: FlowKey,
        flow: GuestMergeFlow<P>,
        stepped: Result<(Vec<LaneFrame<P>>, bool), MergeError>,
        Ghost(step): Ghost<FlowStep<P>>,
        Ghost(start): Ghost<MergerState<P>>,
    ) -> (result: Result<Vec<LaneFrame<P>>, MergeError>)
        requires
            old(self).profile.wf(),
            old(self).flows.wf(),
            forall|k: FlowKey| #[trigger]
                old(self).flows@.contains_key(k) ==> old(self).flows@[k].wf(),
            flow.wf(),
            old(self)@.flows == start.flows.remove(key),
            old(self)@.retired == start.retired,
            step_is(step, flow@, stepped),
            settle(old(self).profile, start, key, step).state().wf(old(self).profile),
        ensures
            final(self).wf(),
            final(self).profile() == old(self).profile(),
            outcome_is(settle(old(self).profile, start, key, step), final(self)@, result),
    {
        match stepped {
            Ok((ready, done)) => if done {
                match self.retired.retire_relay_correlation(&self.profile, key.incarnation, key.id) {
                    Ok(()) => {
                        assert(self@.flows =~= start.flows.remove(key));
                        Ok(ready)
                    },
                    Err(error) => {
                        assert(self@.flows =~= start.flows.remove(key));
                        Err(MergeError::Unassigned(error))
                    },
                }
            } else {
                self.flows.insert(key, flow);
                proof {
                    assert(self@.flows =~= old(self)@.flows.insert(key, flow@));
                    lemma_reinsert(start.flows, old(self)@.flows, self@.flows, key, flow@);
                }
                Ok(ready)
            },
            Err(error) => {
                self.flows.insert(key, flow);
                proof {
                    assert(self@.flows =~= old(self)@.flows.insert(key, flow@));
                    lemma_reinsert(start.flows, old(self)@.flows, self@.flows, key, flow@);
                }
                Err(error)
            },
        }
    }

    /// Admit one lane event and return the outward frames whose dependencies are satisfied.
    pub fn push(&mut self, lane_frame: LaneFrame<P>, body: GuestBody) -> (result: Result<
        Vec<LaneFrame<P>>,
        MergeError,
    >)
        requires
            old(self).wf(),
        ensures
            final(self).wf(),
            final(self).profile() == old(self).profile(),
            outcome_is(
                push_outcome(old(self).profile(), old(self)@, lane_frame, body),
                final(self)@,
                result,
            ),
            final(self)@ == push_outcome(
                old(self).profile(),
                old(self)@,
                lane_frame,
                body,
            ).state(),
            match push_outcome(old(self).profile(), old(self)@, lane_frame, body) {
                MergeOutcome::Forward { ready, .. } => result is Ok && result->Ok_0@ == ready,
                MergeOutcome::Fail { error, .. } => result is Err && result->Err_0 == error,
            },
    {
        let ghost start = self@;
        proof {
            push_continues_one_stream(self.profile, start, lane_frame, body);
        }
        let incarnation: ClientIncarnation = match lane_frame.incarnation {
            Some(incarnation) => incarnation,
            None => {
                return Err(MergeError::MissingIncarnation);
            },
        };
        let id: u32 = lane_frame.frame.id;
        let key = FlowKey { incarnation, id };
        if lane_frame.frame.flags == self.profile.flag_bulk {
            return self.push_raw(key, lane_frame);
        }
        match body {
            GuestBody::Undecodable { reason } => Err(MergeError::Undecodable { reason }),
            GuestBody::BulkAccepted(Err(reason)) => Err(MergeError::MalformedAcceptance { reason }),
            GuestBody::BulkAccepted(Ok(directions)) => match self.flows.remove(key) {
                Some(flow) => {
                    let mut flow = flow;
                    let ghost step = accept_step(self.profile, flow@, id, directions, lane_frame);
                    let stepped = flow.accept(&self.profile, id, directions, lane_frame);
                    assert(self@.flows =~= start.flows.remove(key));
                    self.settle(key, flow, stepped, Ghost(step), Ghost(start))
                },
                None => {
                    assert(self@.flows =~= start.flows);
                    if self.is_retired(incarnation, id) {
                        Ok(Vec::new())
                    } else {
                        Err(MergeError::UnregisteredAcceptance { id })
                    }
                },
            },
            GuestBody::BulkFinish(Err(reason)) => Err(MergeError::MalformedFinish { reason }),
            GuestBody::BulkFinish(Ok((direction, final_offset))) => {
                if direction != BulkFlow::GuestToHost {
                    return Ok(single(lane_frame));
                }
                match self.flows.remove(key) {
                    Some(flow) => {
                        let mut flow = flow;
                        let ghost step = finish_step(flow@, id, final_offset, lane_frame);
                        let stepped = flow.finish(id, final_offset, lane_frame);
                        assert(self@.flows =~= start.flows.remove(key));
                        self.settle(key, flow, stepped, Ghost(step), Ghost(start))
                    },
                    None => {
                        assert(self@.flows =~= start.flows);
                        Err(MergeError::FinishBeforeAcceptance { id })
                    },
                }
            },
            GuestBody::BulkCancel => match self.flows.remove(key) {
                Some(flow) => {
                    let mut flow = flow;
                    let ghost before = flow@;
                    flow.cancel(false);
                    self.flows.insert(key, flow);
                    assert(self@.flows =~= start.flows.insert(key, cancelled(before)));
                    Ok(single(lane_frame))
                },
                None => {
                    assert(self@.flows =~= start.flows);
                    if self.is_retired(incarnation, id) {
                        Ok(Vec::new())
                    } else {
                        Err(MergeError::UnregisteredCancellation { id })
                    }
                },
            },
            GuestBody::Other => {
                if lane_frame.frame.flags & self.profile.flag_terminal == 0 {
                    return Ok(single(lane_frame));
                }
                match self.flows.remove(key) {
                    Some(flow) => {
                        let mut flow = flow;
                        let ghost step = terminal_step(flow@, id, lane_frame);
                        let stepped = flow.terminal(id, lane_frame);
                        assert(self@.flows =~= start.flows.remove(key));
                        self.settle(key, flow, stepped, Ghost(step), Ghost(start))
                    },
                    None => {
                        assert(self@.flows =~= start.flows);
                        if self.is_retired(incarnation, id) {
                            Ok(Vec::new())
                        } else {
                            Ok(single(lane_frame))
                        }
                    },
                }
            },
        }
    }

    fn push_raw(&mut self, key: FlowKey, lane_frame: LaneFrame<P>) -> (result: Result<
        Vec<LaneFrame<P>>,
        MergeError,
    >)
        requires
            old(self).wf(),
            frame_of(lane_frame, key),
            push_raw_outcome(old(self).profile(), old(self)@, key, lane_frame).state().wf(
                old(self).profile(),
            ),
        ensures
            final(self).wf(),
            final(self).profile() == old(self).profile(),
            outcome_is(
                push_raw_outcome(old(self).profile(), old(self)@, key, lane_frame),
                final(self)@,
                result,
            ),
    {
        let ghost start = self@;
        let (offset, end, direction) = match raw_bulk_offsets(&self.profile, &lane_frame.frame) {
            Ok(header) => header,
            Err(error) => {
                return Err(MergeError::Raw(error));
            },
        };
        if direction != BulkFlow::GuestToHost {
            return Err(MergeError::HostToGuestRecord { id: key.id });
        }
        assert(lane_frame.frame.data.len() == lane_frame.frame.data@.len());
        match self.flows.remove(key) {
            Some(flow) => {
                let mut flow = flow;
                let ghost step = raw_step(flow@, key.id, offset, end, lane_frame);
                let stepped = flow.raw(key.id, offset, end, lane_frame);
                assert(self@.flows =~= start.flows.remove(key));
                self.settle(key, flow, stepped, Ghost(step), Ghost(start))
            },
            None => {
                assert(self@.flows =~= start.flows);
                if self.is_retired(key.incarnation, key.id) {
                    Ok(Vec::new())
                } else {
                    Err(MergeError::UnregisteredRecord { id: key.id })
                }
            },
        }
    }
}

proof fn lemma_reinsert<P>(
    start: Map<FlowKey, FlowState<P>>,
    without: Map<FlowKey, FlowState<P>>,
    after: Map<FlowKey, FlowState<P>>,
    key: FlowKey,
    flow: FlowState<P>,
)
    requires
        without == start.remove(key),
        after == without.insert(key, flow),
    ensures
        after == start.insert(key, flow),
{
    assert(after =~= start.insert(key, flow));
}

/// One frame alone.
fn single<P>(frame: LaneFrame<P>) -> (frames: Vec<LaneFrame<P>>)
    ensures
        frames@ == seq![frame],
{
    let mut frames: Vec<LaneFrame<P>> = Vec::new();
    frames.push(frame);
    assert(frames@ =~= seq![frame]);
    frames
}

proof fn lemma_cover_append<P>(
    profile: WireProfile,
    first: Seq<LaneFrame<P>>,
    second: Seq<LaneFrame<P>>,
    from: u64,
)
    ensures
        raw_cover(profile, first + second, from) == match raw_cover(profile, first, from) {
            None => None,
            Some(reached) => raw_cover(profile, second, reached),
        },
    decreases second.len(),
{
    if second.len() == 0 {
        assert(first + second =~= first);
    } else {
        lemma_cover_append(profile, first, second.drop_last(), from);
        assert((first + second).drop_last() =~= first + second.drop_last());
        assert((first + second).last() == second.last());
    }
}

proof fn lemma_cover_run<P>(profile: WireProfile, held: Seq<HeldRaw<P>>, next: u64, n: nat, key: FlowKey)
    requires
        forall|i: int| 0 <= i < held.len() ==> record_of(profile, #[trigger] held[i], key),
        n <= run_len(held, next),
    ensures
        n <= held.len(),
        raw_cover(profile, frames_of(held.subrange(0, n as int)), next) == Some(
            end_after(held, next, n),
        ),
    decreases n,
{
    lemma_run_len_bound(held, next);
    let run = frames_of(held.subrange(0, n as int));
    if n > 0 {
        lemma_cover_run(profile, held, next, (n - 1) as nat, key);
        assert(run.drop_last() =~= frames_of(held.subrange(0, n - 1)));
        lemma_run_is_gapless(held, next, n - 1);
        assert(record_of(profile, held[n - 1], key));
    }
}

/// A step's flow is valid, its frames belong to the operation, and the raw records among them
/// continue the forwarded stream.
pub open spec fn step_is_sound<P>(profile: WireProfile, from: u64, step: FlowStep<P>, key: FlowKey) -> bool {
    match step {
        FlowStep::Keep { flow, ready } => {
            &&& flow.wf()
            &&& owns(profile, flow, key)
            &&& forall|i: int| 0 <= i < ready.len() ==> frame_of(#[trigger] ready[i], key)
            &&& raw_cover(profile, ready, from) == Some(flow.next)
        },
        FlowStep::Done { ready } => {
            &&& forall|i: int| 0 <= i < ready.len() ==> frame_of(#[trigger] ready[i], key)
            &&& raw_cover(profile, ready, from) is Some
        },
        FlowStep::Fail { flow, .. } => flow.wf() && owns(profile, flow, key),
    }
}

proof fn lemma_drain_is_sound<P>(
    profile: WireProfile,
    from: u64,
    flow: FlowState<P>,
    ready: Seq<LaneFrame<P>>,
    id: u32,
    key: FlowKey,
)
    requires
        flow.wf(),
        owns(profile, flow, key),
        forall|i: int| 0 <= i < ready.len() ==> frame_of(#[trigger] ready[i], key),
        raw_cover(profile, ready, from) == Some(flow.next),
    ensures
        step_is_sound(profile, from, drain(flow, ready, id), key),
{
    lemma_drain_wf(flow, ready, id);
    lemma_run_len_bound(flow.held, flow.next);
    let n = run_len(flow.held, flow.next);
    let run = frames_of(flow.held.subrange(0, n as int));
    lemma_cover_run(profile, flow.held, flow.next, n, key);
    lemma_cover_append(profile, ready, run, from);
    let sent = ready + run;
    if let Some((_, finish)) = flow.finish {
        assert(sent.push(finish).drop_last() =~= sent);
        assert(raw_cover(profile, sent.push(finish), from) == raw_cover(profile, sent, from));
        if let Some(terminal) = flow.terminal {
            assert(sent.push(finish).push(terminal).drop_last() =~= sent.push(finish));
            assert(raw_cover(profile, sent.push(finish).push(terminal), from) == raw_cover(
                profile,
                sent,
                from,
            ));
        }
    }
    let rest = flow.held.subrange(n as int, flow.held.len() as int);
    assert forall|i: int| 0 <= i < rest.len() implies record_of(
        profile,
        #[trigger] rest[i],
        key,
    ) by {
        assert(rest[i] == flow.held[n + i]);
    }
    assert forall|i: int| 0 <= i < sent.len() implies frame_of(#[trigger] sent[i], key) by {
        if i >= ready.len() {
            assert(record_of(profile, flow.held[i - ready.len()], key));
        }
    }
}

proof fn lemma_one_control<P>(profile: WireProfile, frame: LaneFrame<P>, from: u64)
    requires
        frame.frame.flags != profile.flag_bulk,
    ensures
        raw_cover(profile, seq![frame], from) == Some(from),
{
    reveal_with_fuel(raw_cover, 2);
    assert(seq![frame].drop_last() =~= Seq::<LaneFrame<P>>::empty());
}

proof fn lemma_raw_is_sound<P>(
    profile: WireProfile,
    flow: FlowState<P>,
    id: u32,
    offset: u64,
    end: u64,
    frame: LaneFrame<P>,
    key: FlowKey,
)
    requires
        flow.wf(),
        owns(profile, flow, key),
        offset < end,
        record_of(profile, HeldRaw { offset, end, frame }, key),
    ensures
        step_is_sound(profile, flow.next, raw_step(flow, id, offset, end, frame), key),
{
    lemma_raw_wf(flow, id, offset, end, frame);
    let item = HeldRaw { offset, end, frame };
    if offset == flow.next && flow.held.len() == 0 && flow.guest_to_host {
        reveal_with_fuel(raw_cover, 2);
        assert(seq![frame].drop_last() =~= Seq::<LaneFrame<P>>::empty());
        lemma_drain_is_sound(
            profile,
            flow.next,
            FlowState { next: end, ..flow },
            seq![frame],
            id,
            key,
        );
    }
    let at = slot_for(flow.held, offset) as int;
    let grown = flow.held.insert(at, item);
    lemma_slot_bound(flow.held, offset);
    assert forall|i: int| 0 <= i < grown.len() implies record_of(profile, #[trigger] grown[i], key) by {
        if i < at {
            assert(grown[i] == flow.held[i]);
        } else if i > at {
            assert(grown[i] == flow.held[i - 1]);
        }
    }
    let blocked = flow.cancelling || flow.finish_forwarded || offset < flow.next || exists|i: int|
        0 <= i < flow.held.len() && (#[trigger] flow.held[i]).offset == offset;
    let overlaps = exists|i: int|
        0 <= i < flow.held.len() && ((#[trigger] flow.held[i]).offset < offset < flow.held[i].end
            || offset < flow.held[i].offset < end);
    if !blocked && !overlaps && flow.held.len() < BULK_MERGE_MAX_PENDING_RECORDS && held_bytes(
        flow.held,
    ) + (end - offset) <= BULK_WRITE_FLOW_CAPACITY {
        lemma_held_with_record_wf(flow, offset, end, frame);
        lemma_drain_is_sound(
            profile,
            flow.next,
            FlowState { held: grown, ..flow },
            Seq::empty(),
            id,
            key,
        );
    }
}

/// The merger's guarantee for every lane event.
///
/// Operations never mix: an event changes no operation but its own, and whatever it forwards
/// belongs to that operation. The raw records that it forwards continue the operation's stream
/// exactly where the last forwarded record ended.
pub proof fn push_continues_one_stream<P>(
    profile: WireProfile,
    state: MergerState<P>,
    frame: LaneFrame<P>,
    body: GuestBody,
)
    requires
        profile.wf(),
        state.wf(profile),
    ensures
        push_outcome(profile, state, frame, body).state().wf(profile),
        forall|other: FlowKey|
            !frame_of(frame, other) ==> {
                &&& #[trigger] push_outcome(profile, state, frame, body).state().flows.contains_key(
                    other,
                ) == state.flows.contains_key(other)
                &&& push_outcome(profile, state, frame, body).state().flows[other]
                    == state.flows[other]
            },
        push_outcome(profile, state, frame, body) matches MergeOutcome::Forward {
            state: after,
            ready,
        } ==> {
            let key = FlowKey { incarnation: frame.incarnation.unwrap(), id: frame.frame.id };
            &&& frame.incarnation is Some
            &&& forall|i: int| 0 <= i < ready.len() ==> frame_of(#[trigger] ready[i], key)
            &&& state.flows.contains_key(key) ==> raw_cover(
                profile,
                ready,
                state.flows[key].next,
            ) is Some
            &&& state.flows.contains_key(key) && after.flows.contains_key(key) ==> raw_cover(
                profile,
                ready,
                state.flows[key].next,
            ) == Some(after.flows[key].next)
        },
{
    if frame.incarnation is Some {
        let id = frame.frame.id;
        let key = FlowKey { incarnation: frame.incarnation.unwrap(), id };
        if state.flows.contains_key(key) {
            let flow = state.flows[key];
            if frame.frame.flags == profile.flag_bulk {
                match raw_offsets(profile, frame.frame.flags, frame.frame.data@) {
                    Ok((offset, end, direction)) => {
                        if direction == BulkFlow::GuestToHost {
                            lemma_raw_is_sound(profile, flow, id, offset, end, frame, key);
                        }
                    },
                    Err(_) => {},
                }
            } else {
                lemma_one_control(profile, frame, flow.next);
                match body {
                    GuestBody::BulkAccepted(Ok(directions)) => {
                        let guest_to_host = directions & profile.flow_mask_guest_to_host != 0;
                        if !flow.accepted {
                            lemma_drain_is_sound(
                                profile,
                                flow.next,
                                FlowState { accepted: true, guest_to_host, ..flow },
                                seq![frame],
                                id,
                                key,
                            );
                        }
                    },
                    GuestBody::BulkFinish(Ok((_, final_offset))) => {
                        if flow.accepted && flow.guest_to_host {
                            lemma_drain_is_sound(
                                profile,
                                flow.next,
                                FlowState { finish: Some((final_offset, frame)), ..flow },
                                Seq::empty(),
                                id,
                                key,
                            );
                        }
                    },
                    _ => {},
                }
            }
        }
    }
}

/// Raw records are held back until the acceptance went out.
pub proof fn raw_waits_for_acceptance<P>(
    flow: FlowState<P>,
    id: u32,
    offset: u64,
    end: u64,
    frame: LaneFrame<P>,
)
    requires
        flow.wf(),
        !flow.accepted,
    ensures
        match raw_step(flow, id, offset, end, frame) {
            FlowStep::Keep { ready, .. } => ready.len() == 0,
            FlowStep::Done { .. } => false,
            FlowStep::Fail { .. } => true,
        },
{
}

/// The finish goes out only behind the last byte it announces, with nothing held back; the
/// terminal frame that waited for it goes out last.
pub proof fn finish_follows_all_data<P>(flow: FlowState<P>, ready: Seq<LaneFrame<P>>, id: u32)
    requires
        flow.wf(),
        flow.accepted,
        flow.guest_to_host,
        !flow.cancelling,
        !flow.finish_forwarded,
        flow.finish is Some,
    ensures
        match drain(flow, ready, id) {
            FlowStep::Keep { flow: after, ready: sent } => after.finish_forwarded ==> {
                &&& after.next == flow.finish.unwrap().0
                &&& after.held.len() == 0
                &&& sent.last() == flow.finish.unwrap().1
                &&& flow.terminal is None
            },
            FlowStep::Done { ready: sent } => {
                &&& end_after(flow.held, flow.next, run_len(flow.held, flow.next))
                    == flow.finish.unwrap().0
                &&& run_len(flow.held, flow.next) == flow.held.len()
                &&& flow.terminal is Some
                &&& sent.last() == flow.terminal.unwrap()
                &&& sent[sent.len() - 2] == flow.finish.unwrap().1
            },
            FlowStep::Fail { .. } => true,
        },
{
    lemma_run_len_bound(flow.held, flow.next);
}

/// A terminal frame overtakes no guest data: with the stream still open it waits.
pub proof fn terminal_waits_for_open_stream<P>(flow: FlowState<P>, id: u32, frame: LaneFrame<P>)
    requires
        flow.wf(),
        flow.guest_to_host,
        !flow.cancelling,
        !flow.finish_forwarded,
        flow.terminal is None,
    ensures
        terminal_step(flow, id, frame) == (FlowStep::Keep {
            flow: FlowState { terminal: Some(frame), ..flow },
            ready: Seq::<LaneFrame<P>>::empty(),
        }),
{
}

/// An operation that ended cannot be registered again by the same owner, and what still arrives
/// for it is dropped without an error.
pub proof fn ended_operation_stays_ended<P>(
    profile: WireProfile,
    state: MergerState<P>,
    frame: LaneFrame<P>,
    body: GuestBody,
    late: LaneFrame<P>,
)
    requires
        profile.wf(),
        state.wf(profile),
        frame.incarnation is Some,
        late.incarnation == frame.incarnation,
        late.frame.id == frame.frame.id,
        ({
            let key = FlowKey { incarnation: frame.incarnation.unwrap(), id: frame.frame.id };
            &&& state.flows.contains_key(key)
            &&& push_outcome(profile, state, frame, body) is Forward
            &&& !push_outcome(profile, state, frame, body).state().flows.contains_key(key)
        }),
    ensures
        ({
            let key = FlowKey { incarnation: frame.incarnation.unwrap(), id: frame.frame.id };
            let after = push_outcome(profile, state, frame, body).state();
            &&& after.is_retired(profile, key.incarnation, key.id)
            &&& late.frame.flags == profile.flag_bulk && (raw_offsets(
                profile,
                late.frame.flags,
                late.frame.data@,
            ) matches Ok((_, _, direction)) && direction == BulkFlow::GuestToHost) ==> push_outcome(profile, after, late, GuestBody::Other) == (MergeOutcome::Forward {
                state: after,
                ready: Seq::<LaneFrame<P>>::empty(),
            })
        }),
{
}

} // verus!
