//! Deficit round robin over the host-to-guest bulk operations.

use std::collections::VecDeque;

use vstd::prelude::*;
use vstd::string::*;

use crate::flow_map::owner_keys;
use crate::flow_map::FlowKey;
use crate::flow_map::FlowMap;
use crate::frames::bulk_metadata;
use crate::frames::is_wire_record;
use crate::merge_flow::BULK_WRITE_FLOW_CAPACITY;
use crate::retire::local_index;
use crate::retire::RetiredIds;
use crate::retire::UnassignedCorrelation;
use crate::text::decimal;
use crate::text::labelled;
use crate::text::numbered;
use crate::wire::be_value;
use crate::wire::incarnation_bytes;
use crate::wire::BulkFlow;
use crate::wire::ClientIncarnation;
use crate::wire::WireProfile;
use crate::wire::BULK_PREFIX_SIZE;
use crate::wire::CLIENT_INCARNATION_SIZE;

verus! {

/// Per-correlation deficit increment for the bulk lane.
pub const BULK_WRITE_QUANTUM: usize = 256 * 1024;

/// Maximum concurrently queued flows from one relay client.
pub const BULK_WRITE_MAX_FLOWS_PER_CLIENT: usize = 64;

/// One in-band frame or shared payload split into its unchanged wire header and body.
pub enum BulkWriteData {
    Inline(Vec<u8>),
    Shared { header: Vec<u8>, payload: Vec<u8> },
}

/// Client-originated raw frame retained until the bulk console ring accepts it.
pub struct BulkWrite<P> {
    pub id: u32,
    pub incarnation: ClientIncarnation,
    pub data: BulkWriteData,
    /// Validated direction carried from the client boundary.
    pub flow: BulkFlow,
    /// Validated payload length carried through scheduling to avoid reparsing the wire header.
    pub payload_len: usize,
    /// Lane capacity, released when the write is dropped.
    pub permit: P,
}

/// The frame that a write puts on the wire.
pub open spec fn write_frame<P>(write: BulkWrite<P>) -> Seq<u8> {
    match write.data {
        BulkWriteData::Inline(data) => data@,
        BulkWriteData::Shared { header, payload } => header@ + payload@,
    }
}

/// All fragments in a row.
pub open spec fn concatenated(fragments: Seq<Vec<u8>>) -> Seq<u8>
    decreases fragments.len(),
{
    if fragments.len() == 0 {
        Seq::empty()
    } else {
        concatenated(fragments.drop_last()) + fragments.last()@
    }
}

/// The console fragments of one write, in order. The incarnation stands outside the unchanged
/// frame, so that the payload need not be copied to put sixteen bytes in front of it.
pub fn bulk_write_fragments<P>(write: BulkWrite<P>) -> (result: (Vec<Vec<u8>>, P))
    ensures
        result.1 == write.permit,
        concatenated(result.0@).len() == CLIENT_INCARNATION_SIZE + write_frame(write).len(),
        be_value(concatenated(result.0@).subrange(0, CLIENT_INCARNATION_SIZE as int))
            == write.incarnation,
        concatenated(result.0@).subrange(
            CLIENT_INCARNATION_SIZE as int,
            concatenated(result.0@).len() as int,
        ) == write_frame(write),
{
    let prefix = incarnation_bytes(write.incarnation);
    let ghost owner = prefix@;
    let ghost frame = write_frame(write);
    let mut fragments: Vec<Vec<u8>> = Vec::new();
    fragments.push(prefix);
    let ghost first = fragments@;
    proof {
        reveal_with_fuel(concatenated, 4);
        assert(first.drop_last() =~= Seq::empty());
        assert(concatenated(first) =~= owner);
    }
    match write.data {
        BulkWriteData::Inline(data) => {
            fragments.push(data);
            assert(fragments@.drop_last() =~= first);
        },
        BulkWriteData::Shared { header, payload } => {
            fragments.push(header);
            let ghost second = fragments@;
            assert(second.drop_last() =~= first);
            fragments.push(payload);
            assert(fragments@.drop_last() =~= second);
        },
    }
    proof {
        assert(concatenated(fragments@) =~= owner + frame);
        assert((owner + frame).subrange(0, 16) =~= owner);
        assert((owner + frame).subrange(16, (owner + frame).len() as int) =~= frame);
    }
    (fragments, write.permit)
}

/// What the host writes for a valid bulk frame is exactly one record of the lane.
pub proof fn written_record_is_framed(profile: WireProfile, owner: Seq<u8>, frame: Seq<u8>)
    requires
        owner.len() == CLIENT_INCARNATION_SIZE,
        bulk_metadata(profile, frame) is Ok,
    ensures
        is_wire_record(profile, owner + frame),
{
    assert((owner + frame).subrange(16, (owner + frame).len() as int) =~= frame);
    assert(frame.subrange(0, frame.len() as int) =~= frame);
}

/// Commands processed in-order by the host-to-guest bulk scheduler.
pub enum BulkWriterCommand<P> {
    Write(BulkWrite<P>),
    DropFlow { incarnation: ClientIncarnation, id: u32 },
    DropIncarnation { incarnation: ClientIncarnation },
}

/// Why the scheduler refuses a command.
#[derive(Clone, Copy, Debug, PartialEq, Eq, Structural)]
pub enum BulkError {
    GuestToHost,
    ZeroId,
    FlowLimit { id: u32 },
    ByteOverflow,
    ByteBudget { id: u32 },
    Unassigned(UnassignedCorrelation),
}

impl BulkError {
    pub open spec fn text(self) -> Seq<char> {
        match self {
            BulkError::GuestToHost => "host bulk scheduler received a guest-to-host record"@,
            BulkError::ZeroId => "bulk record cannot use correlation ID zero"@,
            BulkError::FlowLimit { id } => "relay client exceeded active bulk-flow limit for correlation "@
                + decimal(id as nat),
            BulkError::ByteOverflow => "bulk flow byte budget overflow"@,
            BulkError::ByteBudget { id } => "bulk flow "@ + decimal(id as nat)
                + " exceeded queued byte budget"@,
            BulkError::Unassigned(error) => error.text(),
        }
    }

    pub fn message(&self) -> (text: String)
        ensures
            text@ == self.text(),
    {
        match self {
            BulkError::GuestToHost => String::from_str(
                "host bulk scheduler received a guest-to-host record",
            ),
            BulkError::ZeroId => String::from_str("bulk record cannot use correlation ID zero"),
            BulkError::FlowLimit { id } => labelled(
                "relay client exceeded active bulk-flow limit for correlation ",
                *id as u64,
            ),
            BulkError::ByteOverflow => String::from_str("bulk flow byte budget overflow"),
            BulkError::ByteBudget { id } => numbered(
                "bulk flow ",
                *id as u64,
                " exceeded queued byte budget",
            ),
            BulkError::Unassigned(error) => error.message(),
        }
    }
}

/// One host-to-guest correlation in the scheduler.
pub struct BulkWriteFlow<P> {
    queue: VecDeque<BulkWrite<P>>,
    queued_bytes: usize,
    deficit: usize,
}

/// The records that a flow queues and the bytes it may send.
pub struct QueueState<P> {
    pub queue: Seq<BulkWrite<P>>,
    pub deficit: usize,
}

/// Payload bytes of queued records.
pub open spec fn queue_bytes<P>(queue: Seq<BulkWrite<P>>) -> nat
    decreases queue.len(),
{
    if queue.len() == 0 {
        0
    } else {
        queue_bytes(queue.drop_last()) + queue.last().payload_len as nat
    }
}

proof fn lemma_queue_bytes_first<P>(queue: Seq<BulkWrite<P>>)
    requires
        queue.len() > 0,
    ensures
        queue_bytes(queue) == queue_bytes(queue.subrange(1, queue.len() as int))
            + queue[0].payload_len,
    decreases queue.len(),
{
    if queue.len() == 1 {
        assert(queue.drop_last() =~= Seq::empty());
        assert(queue.subrange(1, 1) =~= Seq::empty());
    } else {
        lemma_queue_bytes_first(queue.drop_last());
        assert(queue.drop_last().subrange(1, queue.len() - 1) =~= queue.subrange(
            1,
            queue.len() as int,
        ).drop_last());
    }
}

impl<P> QueueState<P> {
    pub open spec fn wf(self, max_burst: usize) -> bool {
        &&& queue_bytes(self.queue) <= BULK_WRITE_FLOW_CAPACITY
        &&& self.deficit <= max_burst
    }
}

impl<P> View for BulkWriteFlow<P> {
    type V = QueueState<P>;

    closed spec fn view(&self) -> QueueState<P> {
        QueueState { queue: self.queue@, deficit: self.deficit }
    }
}

impl<P> BulkWriteFlow<P> {
    /// The byte counter counts what is queued.
    pub closed spec fn counted(&self) -> bool {
        self.queued_bytes == queue_bytes(self.queue@)
    }

    fn new() -> (flow: BulkWriteFlow<P>)
        ensures
            flow.counted(),
            flow@ == (QueueState::<P> { queue: Seq::empty(), deficit: 0 }),
    {
        BulkWriteFlow { queue: VecDeque::new(), queued_bytes: 0, deficit: 0 }
    }
}

/// Every operation but one.
pub open spec fn other_than(key: FlowKey) -> spec_fn(FlowKey) -> bool {
    |k: FlowKey| k != key
}

/// Every operation of the other owners.
pub open spec fn not_owned_by(incarnation: ClientIncarnation) -> spec_fn(FlowKey) -> bool {
    |k: FlowKey| k.incarnation != incarnation
}

/// The scheduler's queues, the order of its runnable flows and the IDs that are used up.
pub struct BulkState<P> {
    pub flows: Map<FlowKey, QueueState<P>>,
    pub active: Seq<FlowKey>,
    pub retired: Set<(ClientIncarnation, nat)>,
}

impl<P> BulkState<P> {
    /// The budgets hold, and exactly the queued flows are runnable, each once. `turn` is the flow
    /// whose turn it is, if any: it has left the runnable order for the time being.
    pub open spec fn wf(self, profile: WireProfile, turn: Option<FlowKey>) -> bool {
        &&& self.active.no_duplicates()
        &&& forall|key: FlowKey| #[trigger]
            self.active.contains(key) ==> self.flows.contains_key(key)
        &&& forall|key: FlowKey| #[trigger]
            self.flows.contains_key(key) ==> self.active.contains(key) || turn == Some(key)
        &&& turn matches Some(key) ==> !self.active.contains(key) && self.flows.contains_key(key)
        &&& forall|key: FlowKey| #[trigger]
            self.flows.contains_key(key) ==> self.flows[key].wf(profile.max_bulk_payload as usize)
        &&& forall|owner: ClientIncarnation|
            (#[trigger] owner_keys(self.flows, owner)).finite() && owner_keys(
                self.flows,
                owner,
            ).len() <= BULK_WRITE_MAX_FLOWS_PER_CLIENT
    }

    pub open spec fn is_retired(self, profile: WireProfile, key: FlowKey) -> bool {
        match local_index(profile, key.id) {
            None => false,
            Some(n) => self.retired.contains((key.incarnation, n)),
        }
    }

    /// The state with a flow for `key`, runnable last if it is new.
    pub open spec fn with_flow(self, key: FlowKey) -> BulkState<P> {
        if self.flows.contains_key(key) {
            self
        } else {
            BulkState {
                flows: self.flows.insert(key, QueueState { queue: Seq::empty(), deficit: 0 }),
                active: self.active.push(key),
                ..self
            }
        }
    }

    /// The state with `write` at the end of its flow's queue.
    pub open spec fn with_write(self, key: FlowKey, write: BulkWrite<P>) -> BulkState<P> {
        BulkState {
            flows: self.flows.insert(
                key,
                QueueState { queue: self.flows[key].queue.push(write), ..self.flows[key] },
            ),
            ..self
        }
    }

    /// The state without one operation.
    pub open spec fn without_flow(self, key: FlowKey) -> BulkState<P> {
        BulkState {
            flows: self.flows.remove(key),
            active: self.active.filter(other_than(key)),
            ..self
        }
    }
}

/// Outcome of queueing one record: the state after it, and the refusal if there is one.
pub open spec fn enqueue_outcome<P>(
    profile: WireProfile,
    state: BulkState<P>,
    write: BulkWrite<P>,
) -> (BulkState<P>, Result<(), BulkError>) {
    let key = FlowKey { incarnation: write.incarnation, id: write.id };
    if write.flow != BulkFlow::HostToGuest {
        (state, Err(BulkError::GuestToHost))
    } else if write.id == 0 {
        (state, Err(BulkError::ZeroId))
    } else if state.is_retired(profile, key) {
        (state, Ok(()))
    } else if !state.flows.contains_key(key) && owner_keys(state.flows, key.incarnation).len()
        >= BULK_WRITE_MAX_FLOWS_PER_CLIENT {
        (state, Err(BulkError::FlowLimit { id: key.id }))
    } else {
        let opened = state.with_flow(key);
        let total = queue_bytes(opened.flows[key].queue) + write.payload_len;
        if total > usize::MAX {
            (opened, Err(BulkError::ByteOverflow))
        } else if total > BULK_WRITE_FLOW_CAPACITY {
            (opened, Err(BulkError::ByteBudget { id: key.id }))
        } else {
            (opened.with_write(key, write), Ok(()))
        }
    }
}

/// Outcome of any scheduler command.
pub open spec fn command_outcome<P>(
    profile: WireProfile,
    state: BulkState<P>,
    command: BulkWriterCommand<P>,
) -> (BulkState<P>, Result<(), BulkError>) {
    match command {
        BulkWriterCommand::Write(write) => enqueue_outcome(profile, state, write),
        BulkWriterCommand::DropFlow { incarnation, id } => {
            let dropped = state.without_flow(FlowKey { incarnation, id });
            match local_index(profile, id) {
                None => (dropped, Err(BulkError::Unassigned(UnassignedCorrelation { id }))),
                Some(n) => (
                    BulkState { retired: dropped.retired.insert((incarnation, n)), ..dropped },
                    Ok(()),
                ),
            }
        },
        BulkWriterCommand::DropIncarnation { incarnation } => (
            BulkState {
                flows: state.flows.remove_keys(owner_keys(state.flows, incarnation)),
                active: state.active.filter(not_owned_by(incarnation)),
                retired: state.retired.filter(
                    |entry: (ClientIncarnation, nat)| entry.0 != incarnation,
                ),
            },
            Ok(()),
        ),
    }
}

/// What the bulk writer does before a pass.
#[derive(Clone, Copy, Debug, PartialEq, Eq, Structural)]
pub enum WriterTick {
    /// The lane is closed.
    Exit,
    /// The workload is held: tell that the writer is parked, and wait for a change.
    Park,
    /// Take in the waiting commands, then serve a pass.
    Serve,
}

/// Decide what the bulk writer does before a pass. A held workload stops it between records only.
pub fn writer_tick(lane_closed: bool, gated: bool) -> (tick: WriterTick)
    ensures
        tick == if lane_closed {
            WriterTick::Exit
        } else if gated {
            WriterTick::Park
        } else {
            WriterTick::Serve
        },
{
    if lane_closed {
        WriterTick::Exit
    } else if gated {
        WriterTick::Park
    } else {
        WriterTick::Serve
    }
}

/// What the flow whose turn it is may do next.
#[derive(Clone, Copy, Debug, PartialEq, Eq, Structural)]
pub enum TurnStep {
    /// Send the first queued record; it takes this many bytes on the wire.
    Send { wire_len: usize },
    /// The first record needs a larger deficit.
    NeedsDeficit,
    /// Nothing is queued, or the burst is used up.
    Stop,
}

/// The step of a flow with this queue that has already sent `burst` bytes in its turn.
pub open spec fn turn_step<P>(flow: QueueState<P>, burst: usize, max_burst: usize) -> TurnStep {
    if flow.queue.len() == 0 {
        TurnStep::Stop
    } else {
        let next_len = flow.queue[0].payload_len;
        if next_len != 0 && next_len <= flow.deficit && burst + next_len <= max_burst {
            TurnStep::Send {
                wire_len: (CLIENT_INCARNATION_SIZE + BULK_PREFIX_SIZE + next_len) as usize,
            }
        } else if next_len > flow.deficit {
            TurnStep::NeedsDeficit
        } else {
            TurnStep::Stop
        }
    }
}

/// One pass over the flows that were runnable when it began.
#[derive(Debug)]
pub struct Round {
    left: usize,
    quantum: usize,
    progressed: bool,
    needs_deficit_round: bool,
}

impl Round {
    /// Turns that are still owed in this pass.
    pub closed spec fn left(&self) -> nat {
        self.left as nat
    }

    pub closed spec fn quantum(&self) -> usize {
        self.quantum
    }

    /// Whether the scheduler may go on at once instead of waiting for a command or credit.
    pub closed spec fn runs_on(&self) -> bool {
        self.progressed || self.needs_deficit_round
    }

    /// Whether to start another pass at once: a record went out, or one only needs a larger
    /// deficit.
    pub fn continues(&self) -> (result: bool)
        ensures
            result == self.runs_on(),
    {
        self.progressed || self.needs_deficit_round
    }
}

/// The turn of one flow.
#[derive(Debug)]
pub struct Turn {
    key: FlowKey,
    burst: usize,
}

impl Turn {
    pub closed spec fn key(&self) -> FlowKey {
        self.key
    }

    /// Payload bytes sent in this turn.
    pub closed spec fn burst(&self) -> usize {
        self.burst
    }
}

/// A flow's deficit at the start of its turn.
pub open spec fn raised_deficit(deficit: usize, quantum: usize, max_burst: usize) -> usize {
    if deficit + quantum > max_burst {
        max_burst
    } else {
        (deficit + quantum) as usize
    }
}

/// The runnable order after a turn.
pub open spec fn after_turn(active: Seq<FlowKey>, key: FlowKey, keep: bool) -> Seq<FlowKey> {
    if keep {
        active.push(key)
    } else {
        active
    }
}

/// Deficit round robin state of the host-to-guest bulk lane.
pub struct BulkScheduler<P> {
    profile: WireProfile,
    flows: FlowMap<BulkWriteFlow<P>>,
    active: VecDeque<FlowKey>,
    retired: RetiredIds,
}

impl<P> View for BulkScheduler<P> {
    type V = BulkState<P>;

    closed spec fn view(&self) -> BulkState<P> {
        BulkState {
            flows: Map::new(
                |key: FlowKey| self.flows@.contains_key(key),
                |key: FlowKey| self.flows@[key]@,
            ),
            active: self.active@,
            retired: self.retired@,
        }
    }
}

proof fn lemma_filter<A>(s: Seq<A>, pred: spec_fn(A) -> bool)
    ensures
        forall|a: A| #[trigger] s.filter(pred).contains(a) <==> s.contains(a) && pred(a),
        s.no_duplicates() ==> s.filter(pred).no_duplicates(),
    decreases s.len(),
{
    reveal(Seq::filter);
    if s.len() > 0 {
        let front = s.drop_last();
        lemma_filter(front, pred);
        let kept = s.filter(pred);
        assert forall|a: A| #[trigger] kept.contains(a) <==> s.contains(a) && pred(a) by {
            if kept.contains(a) {
                let i = choose|i: int| 0 <= i < kept.len() && kept[i] == a;
                if i < front.filter(pred).len() {
                    assert(front.filter(pred)[i] == a);
                    assert(front.filter(pred).contains(a));
                    let j = choose|j: int| 0 <= j < front.len() && front[j] == a;
                    assert(s[j] == a);
                }
            }
            if s.contains(a) && pred(a) {
                let j = choose|j: int| 0 <= j < s.len() && s[j] == a;
                if j < front.len() {
                    assert(front[j] == a);
                    assert(front.contains(a));
                    assert(front.filter(pred).contains(a));
                    let i = choose|i: int|
                        0 <= i < front.filter(pred).len() && front.filter(pred)[i] == a;
                    assert(kept[i] == a);
                } else {
                    assert(kept.last() == a);
                }
            }
        }
        if s.no_duplicates() {
            assert(front.no_duplicates());
            assert forall|i: int, j: int| 0 <= i < kept.len() && 0 <= j < kept.len() && i
                != j implies kept[i] != kept[j] by {
                if pred(s.last()) {
                    let n = front.filter(pred).len();
                    if i == n || j == n {
                        let k = if i == n { j } else { i };
                        assert(front.filter(pred)[k] == kept[k]);
                        assert(front.filter(pred).contains(kept[k]));
                        assert(front.contains(kept[k]));
                        let m = choose|m: int| 0 <= m < front.len() && front[m] == kept[k];
                        assert(s[m] == kept[k]);
                        assert(s[m] != s[s.len() - 1]);
                    }
                }
            }
        }
    }
}

/// Removing operations keeps every owner within its limit.
proof fn lemma_owner_subset<V>(bigger: Map<FlowKey, V>, smaller: Map<FlowKey, V>, owner: ClientIncarnation)
    requires
        forall|key: FlowKey| #[trigger] smaller.contains_key(key) ==> bigger.contains_key(key),
        owner_keys(bigger, owner).finite(),
    ensures
        owner_keys(smaller, owner).finite(),
        owner_keys(smaller, owner).len() <= owner_keys(bigger, owner).len(),
{
    assert(owner_keys(smaller, owner).subset_of(owner_keys(bigger, owner)));
    vstd::set_lib::lemma_len_subset(owner_keys(smaller, owner), owner_keys(bigger, owner));
}

proof fn lemma_owner_insert<V>(map: Map<FlowKey, V>, key: FlowKey, value: V, owner: ClientIncarnation)
    requires
        owner_keys(map, owner).finite(),
    ensures
        owner_keys(map.insert(key, value), owner) == if owner == key.incarnation {
            owner_keys(map, owner).insert(key)
        } else {
            owner_keys(map, owner)
        },
{
    assert(owner_keys(map.insert(key, value), owner) =~= if owner == key.incarnation {
        owner_keys(map, owner).insert(key)
    } else {
        owner_keys(map, owner)
    });
}

/// Opening a flow keeps the scheduler valid.
proof fn lemma_with_flow_wf<P>(profile: WireProfile, state: BulkState<P>, key: FlowKey)
    requires
        state.wf(profile, None),
        state.flows.contains_key(key) || owner_keys(state.flows, key.incarnation).len()
            < BULK_WRITE_MAX_FLOWS_PER_CLIENT,
    ensures
        state.with_flow(key).wf(profile, None),
{
    if !state.flows.contains_key(key) {
        let after = state.with_flow(key);
        assert(!state.active.contains(key));
        assert forall|k: FlowKey| #[trigger] after.active.contains(k) implies after.flows.contains_key(
            k,
        ) by {
            let i = choose|i: int| 0 <= i < after.active.len() && after.active[i] == k;
            if i < state.active.len() {
                assert(state.active.contains(k));
            }
        }
        assert forall|k: FlowKey| #[trigger] after.flows.contains_key(k) implies after.active.contains(
            k,
        ) by {
            if k == key {
                assert(after.active.last() == key);
            } else {
                let i = choose|i: int| 0 <= i < state.active.len() && state.active[i] == k;
                assert(after.active[i] == k);
            }
        }
        assert(after.active.no_duplicates()) by {
            assert forall|i: int, j: int| 0 <= i < after.active.len() && 0 <= j < after.active.len()
                && i != j implies after.active[i] != after.active[j] by {
                if i == state.active.len() {
                    assert(state.active.contains(after.active[j]));
                } else if j == state.active.len() {
                    assert(state.active.contains(after.active[i]));
                }
            }
        }
        assert forall|owner: ClientIncarnation|
            (#[trigger] owner_keys(after.flows, owner)).finite() && owner_keys(
                after.flows,
                owner,
            ).len() <= BULK_WRITE_MAX_FLOWS_PER_CLIENT by {
            assert(owner_keys(state.flows, owner).finite());
            lemma_owner_insert(
                state.flows,
                key,
                QueueState { queue: Seq::empty(), deficit: 0 },
                owner,
            );
        }
    }
}

/// Changing what one flow holds keeps the scheduler valid.
proof fn lemma_update_flow_wf<P>(
    profile: WireProfile,
    state: BulkState<P>,
    turn: Option<FlowKey>,
    key: FlowKey,
    flow: QueueState<P>,
)
    requires
        state.wf(profile, turn),
        state.flows.contains_key(key),
        flow.wf(profile.max_bulk_payload as usize),
    ensures
        (BulkState { flows: state.flows.insert(key, flow), ..state }).wf(profile, turn),
{
    let after = BulkState { flows: state.flows.insert(key, flow), ..state };
    assert forall|owner: ClientIncarnation|
        (#[trigger] owner_keys(after.flows, owner)).finite() && owner_keys(
            after.flows,
            owner,
        ).len() <= BULK_WRITE_MAX_FLOWS_PER_CLIENT by {
        assert(owner_keys(state.flows, owner).finite());
        assert(owner_keys(after.flows, owner) =~= owner_keys(state.flows, owner));
    }
}

/// Dropping flows keeps the scheduler valid.
proof fn lemma_without_wf<P>(
    profile: WireProfile,
    state: BulkState<P>,
    after: BulkState<P>,
    pred: spec_fn(FlowKey) -> bool,
)
    requires
        state.wf(profile, None),
        after.active == state.active.filter(pred),
        forall|key: FlowKey| #[trigger]
            after.flows.contains_key(key) <==> state.flows.contains_key(key) && pred(key),
        forall|key: FlowKey| #[trigger]
            after.flows.contains_key(key) ==> after.flows[key] == state.flows[key],
    ensures
        after.wf(profile, None),
{
    lemma_filter(state.active, pred);
    assert forall|owner: ClientIncarnation|
        (#[trigger] owner_keys(after.flows, owner)).finite() && owner_keys(
            after.flows,
            owner,
        ).len() <= BULK_WRITE_MAX_FLOWS_PER_CLIENT by {
        assert(owner_keys(state.flows, owner).finite());
        lemma_owner_subset(state.flows, after.flows, owner);
    }
}

/// Every command keeps the budgets, and exactly the queued flows stay runnable.
pub proof fn command_keeps_budgets<P>(
    profile: WireProfile,
    state: BulkState<P>,
    command: BulkWriterCommand<P>,
)
    requires
        state.wf(profile, None),
    ensures
        command_outcome(profile, state, command).0.wf(profile, None),
{
    let after = command_outcome(profile, state, command).0;
    match command {
        BulkWriterCommand::Write(write) => {
            let key = FlowKey { incarnation: write.incarnation, id: write.id };
            let limited = !state.flows.contains_key(key) && owner_keys(
                state.flows,
                key.incarnation,
            ).len() >= BULK_WRITE_MAX_FLOWS_PER_CLIENT;
            if !limited {
                lemma_with_flow_wf(profile, state, key);
                let opened = state.with_flow(key);
                let grown = opened.flows[key].queue.push(write);
                assert(grown.drop_last() =~= opened.flows[key].queue);
                if queue_bytes(grown) <= BULK_WRITE_FLOW_CAPACITY {
                    lemma_update_flow_wf(
                        profile,
                        opened,
                        None,
                        key,
                        QueueState { queue: grown, ..opened.flows[key] },
                    );
                }
            }
        },
        BulkWriterCommand::DropFlow { incarnation, id } => {
            let key = FlowKey { incarnation, id };
            lemma_without_wf(profile, state, after, other_than(key));
        },
        BulkWriterCommand::DropIncarnation { incarnation } => {
            lemma_without_wf(profile, state, after, not_owned_by(incarnation));
        },
    }
}

impl<P> BulkScheduler<P> {
    pub closed spec fn profile(&self) -> WireProfile {
        self.profile
    }

    /// Valid, with the given flow's turn in progress.
    pub closed spec fn wf(&self, turn: Option<FlowKey>) -> bool {
        &&& self.profile.wf()
        &&& self.flows.wf()
        &&& self@.wf(self.profile, turn)
        &&& forall|key: FlowKey| #[trigger]
            self.flows@.contains_key(key) ==> self.flows@[key].counted()
    }

    pub fn new(profile: WireProfile) -> (scheduler: BulkScheduler<P>)
        requires
            profile.wf(),
        ensures
            scheduler.wf(None),
            scheduler.profile() == profile,
            scheduler@ == (BulkState::<P> {
                flows: Map::empty(),
                active: Seq::empty(),
                retired: Set::empty(),
            }),
    {
        let scheduler = BulkScheduler {
            profile,
            flows: FlowMap::new(),
            active: VecDeque::new(),
            retired: RetiredIds::new(),
        };
        assert(scheduler@.flows =~= Map::empty());
        assert forall|owner: ClientIncarnation|
            (#[trigger] owner_keys(scheduler@.flows, owner)).finite() && owner_keys(
                scheduler@.flows,
                owner,
            ).len() <= BULK_WRITE_MAX_FLOWS_PER_CLIENT by {
            assert(owner_keys(scheduler@.flows, owner) =~= Set::empty());
        }
        scheduler
    }

    /// Whether nothing is queued.
    pub fn is_empty(&self) -> (empty: bool)
        requires
            self.wf(None),
        ensures
            empty == (self@.flows == Map::<FlowKey, QueueState<P>>::empty()),
            empty ==> self@.active.len() == 0,
    {
        let empty = self.flows.is_empty();
        proof {
            if empty {
                assert(self@.flows =~= Map::<FlowKey, QueueState<P>>::empty());
                if self@.active.len() > 0 {
                    assert(self@.active.contains(self@.active[0]));
                }
            } else if self@.flows == Map::<FlowKey, QueueState<P>>::empty() {
                assert forall|key: FlowKey| !(#[trigger] self.flows@.contains_key(key)) by {
                    assert(self@.flows.contains_key(key) == self.flows@.contains_key(key));
                }
                assert(self.flows@ =~= Map::empty());
            }
        }
        empty
    }

    /// Whether `id` is used up for `incarnation`.
    pub fn is_retired(&self, incarnation: ClientIncarnation, id: u32) -> (retired: bool)
        requires
            self.wf(None),
        ensures
            retired == self@.is_retired(self.profile(), FlowKey { incarnation, id }),
            retired <==> exists|n: nat|
                local_index(self.profile(), id) == Some(n) && #[trigger] self@.retired.contains(
                    (incarnation, n),
                ),
    {
        self.retired.relay_correlation_is_retired(&self.profile, incarnation, id)
    }

    /// Apply one command in the order in which it was sent.
    pub fn apply_bulk_writer_command(&mut self, command: BulkWriterCommand<P>) -> (result: Result<
        (),
        BulkError,
    >)
        requires
            old(self).wf(None),
        ensures
            final(self).wf(None),
            final(self).profile() == old(self).profile(),
            (final(self)@, result) == command_outcome(old(self).profile(), old(self)@, command),
            command matches BulkWriterCommand::Write(write) ==> {
                let key = FlowKey { incarnation: write.incarnation, id: write.id };
                &&& queued_for(final(self)@, key) == if result is Ok && !old(self)@.is_retired(
                    old(self).profile(),
                    key,
                ) {
                    queued_for(old(self)@, key).push(write)
                } else {
                    queued_for(old(self)@, key)
                }
                &&& forall|other: FlowKey|
                    other != key ==> #[trigger] queued_for(final(self)@, other) == queued_for(
                        old(self)@,
                        other,
                    )
            },
    {
        let ghost start = self@;
        proof {
            command_keeps_budgets(self.profile, start, command);
            if command is Write {
                write_is_queued_or_refused(self.profile, start, command->Write_0);
            }
        }
        match command {
            BulkWriterCommand::Write(write) => self.enqueue_bulk_write(write),
            BulkWriterCommand::DropFlow { incarnation, id } => {
                let key = FlowKey { incarnation, id };
                self.flows.remove(key);
                self.retain_active(key, true);
                assert(self@.flows =~= start.flows.remove(key));
                match self.retired.retire_relay_correlation(&self.profile, incarnation, id) {
                    Ok(()) => Ok(()),
                    Err(error) => Err(BulkError::Unassigned(error)),
                }
            },
            BulkWriterCommand::DropIncarnation { incarnation } => {
                self.flows.drop_owner(incarnation);
                self.retain_active(FlowKey { incarnation, id: 0 }, false);
                self.retired.forget(incarnation);
                assert(self@.flows =~= start.flows.remove_keys(
                    owner_keys(start.flows, incarnation),
                ));
                Ok(())
            },
        }
    }

    /// Take one flow, or all flows of its owner, out of the runnable order.
    fn retain_active(&mut self, key: FlowKey, one: bool)
        ensures
            final(self).active@ == if one {
                old(self).active@.filter(other_than(key))
            } else {
                old(self).active@.filter(not_owned_by(key.incarnation))
            },
            final(self).flows == old(self).flows,
            final(self).retired == old(self).retired,
            final(self).profile == old(self).profile,
    {
        let ghost all = self.active@;
        let ghost pred = if one {
            other_than(key)
        } else {
            not_owned_by(key.incarnation)
        };
        let mut kept: VecDeque<FlowKey> = VecDeque::new();
        let mut i: usize = 0;
        let len: usize = self.active.len();
        proof {
            reveal(Seq::filter);
            assert(all.subrange(0, 0).filter(pred) =~= Seq::empty());
        }
        while i < len
            invariant
                i <= len == all.len(),
                self.active@ == all,
                pred == if one {
                    other_than(key)
                } else {
                    not_owned_by(key.incarnation)
                },
                kept@ == all.subrange(0, i as int).filter(pred),
                self.flows == old(self).flows,
                self.retired == old(self).retired,
                self.profile == old(self).profile,
            decreases len - i,
        {
            let current: FlowKey = self.active[i];
            let keep = if one {
                current != key
            } else {
                current.incarnation != key.incarnation
            };
            proof {
                reveal(Seq::filter);
                assert(all.subrange(0, i + 1).drop_last() =~= all.subrange(0, i as int));
                assert(all.subrange(0, i + 1).last() == current);
            }
            if keep {
                kept.push_back(current);
            }
            i = i + 1;
        }
        assert(all.subrange(0, len as int) =~= all);
        self.active = kept;
    }

    fn enqueue_bulk_write(&mut self, write: BulkWrite<P>) -> (result: Result<(), BulkError>)
        requires
            old(self).wf(None),
            enqueue_outcome(old(self).profile(), old(self)@, write).0.wf(old(self).profile(), None),
        ensures
            final(self).wf(None),
            final(self).profile() == old(self).profile(),
            (final(self)@, result) == enqueue_outcome(old(self).profile(), old(self)@, write),
    {
        let ghost start = self@;
        let payload_len: usize = write.payload_len;
        if write.flow != BulkFlow::HostToGuest {
            return Err(BulkError::GuestToHost);
        }
        if write.id == 0 {
            return Err(BulkError::ZeroId);
        }
        let key = FlowKey { incarnation: write.incarnation, id: write.id };
        if self.retired.relay_correlation_is_retired(&self.profile, key.incarnation, key.id) {
            // Cross-sender cancellation may overtake a write already in flight to this actor. The
            // tombstone consumes that bounded late record without recreating scheduler state.
            return Ok(());
        }
        if !self.flows.contains(key) {
            let client_flows: usize = self.flows.count_owner(key.incarnation);
            assert(owner_keys(self.flows@, key.incarnation) =~= owner_keys(
                start.flows,
                key.incarnation,
            ));
            if client_flows >= BULK_WRITE_MAX_FLOWS_PER_CLIENT {
                return Err(BulkError::FlowLimit { id: key.id });
            }
            let flow: BulkWriteFlow<P> = BulkWriteFlow::new();
            self.flows.insert(key, flow);
            self.active.push_back(key);
            proof {
                lemma_with_flow_wf(self.profile, start, key);
            }
        }
        let ghost opened = start.with_flow(key);
        assert(self@.flows =~= opened.flows);
        assert(self@ == opened);
        match self.flows.remove(key) {
            Some(flow) => {
                let mut flow = flow;
                let ghost queue = flow.queue@;
                let result = match flow.queued_bytes.checked_add(payload_len) {
                    None => Err(BulkError::ByteOverflow),
                    Some(queued_bytes) => if queued_bytes > BULK_WRITE_FLOW_CAPACITY {
                        Err(BulkError::ByteBudget { id: key.id })
                    } else {
                        flow.queued_bytes = queued_bytes;
                        flow.queue.push_back(write);
                        assert(flow.queue@.drop_last() =~= queue);
                        Ok(())
                    },
                };
                self.flows.insert(key, flow);
                proof {
                    if result is Ok {
                        assert(self@.flows =~= opened.with_write(key, write).flows);
                    } else {
                        assert(self@.flows =~= opened.flows);
                    }
                }
                result
            },
            None => {
                assert(false);
                Ok(())
            },
        }
    }

    /// Begin a pass over the runnable flows. Fairness is irrelevant when only one flow is
    /// runnable: it then gets the full bounded burst.
    pub fn begin_round(&self) -> (round: Round)
        ensures
            round.left() == self@.active.len(),
            round.quantum() == if self@.active.len() == 1 {
                self.profile().max_bulk_payload as usize
            } else {
                BULK_WRITE_QUANTUM
            },
            self@.active.len() != 1 ==> round.quantum() == 262_144,
            !round.runs_on(),
    {
        let left: usize = self.active.len();
        Round {
            left,
            quantum: if left == 1 {
                self.profile.max_bulk_payload as usize
            } else {
                BULK_WRITE_QUANTUM
            },
            progressed: false,
            needs_deficit_round: false,
        }
    }

    /// Give the next runnable flow its turn and raise its deficit.
    pub fn next_flow(&mut self, round: &mut Round) -> (turn: Option<Turn>)
        requires
            old(self).wf(None),
            old(round).left() <= old(self)@.active.len(),
        ensures
            final(self).profile() == old(self).profile(),
            final(round).quantum() == old(round).quantum(),
            final(round).runs_on() == old(round).runs_on(),
            if old(round).left() == 0 {
                &&& turn is None
                &&& final(self)@ == old(self)@
                &&& final(self).wf(None)
                &&& final(round).left() == 0
            } else {
                &&& turn matches Some(t)
                &&& t.key() == old(self)@.active[0]
                &&& t.burst() == 0
                &&& final(self).wf(Some(t.key()))
                &&& final(round).left() == old(round).left() - 1
                &&& final(self)@ == (BulkState {
                    flows: old(self)@.flows.insert(
                        t.key(),
                        QueueState {
                            deficit: raised_deficit(
                                old(self)@.flows[t.key()].deficit,
                                old(round).quantum(),
                                old(self).profile().max_bulk_payload as usize,
                            ),
                            ..old(self)@.flows[t.key()]
                        },
                    ),
                    active: old(self)@.active.subrange(1, old(self)@.active.len() as int),
                    ..old(self)@
                })
            },
    {
        if round.left == 0 {
            return None;
        }
        let ghost start = self@;
        let max_burst: usize = self.profile.max_bulk_payload as usize;
        match self.active.pop_front() {
            None => None,
            Some(key) => {
                round.left = round.left - 1;
                assert(start.active.contains(start.active[0]));
                assert(start.flows.contains_key(key));
                match self.flows.remove(key) {
                    None => {
                        assert(false);
                    },
                    Some(flow) => {
                        let mut flow = flow;
                        let raised: usize = flow.deficit.saturating_add(round.quantum);
                        flow.deficit = if raised > max_burst {
                            max_burst
                        } else {
                            raised
                        };
                        let ghost state = flow@;
                        self.flows.insert(key, flow);
                        proof {
                            let after = BulkState { flows: start.flows.insert(key, state), ..start };
                            lemma_update_flow_wf(self.profile, start, None, key, state);
                            assert(self@.flows =~= after.flows);
                            assert(self@.active =~= start.active.subrange(
                                1,
                                start.active.len() as int,
                            ));
                            lemma_pop_wf(self.profile, after, self@);
                        }
                    },
                }
                Some(Turn { key, burst: 0 })
            },
        }
    }

    /// What the flow whose turn it is may do next. A record that only needs a larger deficit keeps
    /// the scheduler running.
    pub fn next_record(&self, round: &mut Round, turn: &Turn) -> (step: TurnStep)
        requires
            self.wf(Some(turn.key())),
            turn.burst() <= self.profile().max_bulk_payload,
        ensures
            step == turn_step(
                self@.flows[turn.key()],
                turn.burst(),
                self.profile().max_bulk_payload as usize,
            ),
            final(round).left() == old(round).left(),
            final(round).quantum() == old(round).quantum(),
            final(round).runs_on() == (old(round).runs_on() || step is NeedsDeficit),
    {
        let max_burst: usize = self.profile.max_bulk_payload as usize;
        match self.flows.get(turn.key) {
            None => {
                assert(self@.flows.contains_key(turn.key));
                TurnStep::Stop
            },
            Some(flow) => {
                assert(self@.flows[turn.key] == flow@);
                if flow.queue.len() == 0 {
                    return TurnStep::Stop;
                }
                let next_len: usize = flow.queue[0].payload_len;
                proof {
                    lemma_queue_bytes_first(flow.queue@);
                    assert(self@.flows.contains_key(turn.key));
                }
                if next_len != 0 && next_len <= flow.deficit && turn.burst as u64 + next_len as u64
                    <= max_burst as u64 {
                    TurnStep::Send { wire_len: CLIENT_INCARNATION_SIZE + BULK_PREFIX_SIZE + next_len }
                } else if next_len > flow.deficit {
                    round.needs_deficit_round = true;
                    TurnStep::NeedsDeficit
                } else {
                    TurnStep::Stop
                }
            },
        }
    }

    /// Take the record that the flow may send, once the guest's credit covers it.
    pub fn take_record(&mut self, round: &mut Round, turn: &mut Turn) -> (write: BulkWrite<P>)
        requires
            old(self).wf(Some(old(turn).key())),
            turn_step(
                old(self)@.flows[old(turn).key()],
                old(turn).burst(),
                old(self).profile().max_bulk_payload as usize,
            ) is Send,
        ensures
            final(self).wf(Some(final(turn).key())),
            final(self).profile() == old(self).profile(),
            final(turn).key() == old(turn).key(),
            write == old(self)@.flows[old(turn).key()].queue[0],
            final(turn).burst() == old(turn).burst() + write.payload_len,
            final(turn).burst() <= old(self).profile().max_bulk_payload,
            final(round).left() == old(round).left(),
            final(round).quantum() == old(round).quantum(),
            final(round).runs_on(),
            final(self)@ == (BulkState {
                flows: old(self)@.flows.insert(
                    old(turn).key(),
                    QueueState {
                        queue: old(self)@.flows[old(turn).key()].queue.subrange(
                            1,
                            old(self)@.flows[old(turn).key()].queue.len() as int,
                        ),
                        deficit: (old(self)@.flows[old(turn).key()].deficit
                            - write.payload_len) as usize,
                    },
                ),
                ..old(self)@
            }),
    {
        let ghost start = self@;
        let key: FlowKey = turn.key;
        assert(start.flows.contains_key(key));
        let flow = self.flows.remove(key);
        let mut flow = flow.unwrap();
        let ghost queue = flow.queue@;
        proof {
            lemma_queue_bytes_first(queue);
        }
        let write = flow.queue.pop_front();
        let write = write.unwrap();
        assert(flow.queue@ =~= queue.subrange(1, queue.len() as int));
        let next_len: usize = write.payload_len;
        flow.queued_bytes = flow.queued_bytes - next_len;
        flow.deficit = flow.deficit - next_len;
        let ghost state = flow@;
        self.flows.insert(key, flow);
        turn.burst = turn.burst + next_len;
        round.progressed = true;
        proof {
            lemma_update_flow_wf(self.profile, start, Some(key), key, state);
            assert(self@.flows =~= start.flows.insert(key, state));
        }
        write
    }

    /// End a flow's turn: it goes to the back of the runnable order, or leaves when it has nothing
    /// queued.
    pub fn end_turn(&mut self, turn: Turn)
        requires
            old(self).wf(Some(turn.key())),
        ensures
            final(self).wf(None),
            final(self).profile() == old(self).profile(),
            final(self)@.retired == old(self)@.retired,
            ({
                let keep = old(self)@.flows[turn.key()].queue.len() > 0;
                &&& final(self)@.active == after_turn(old(self)@.active, turn.key(), keep)
                &&& final(self)@.flows == if keep {
                    old(self)@.flows
                } else {
                    old(self)@.flows.remove(turn.key())
                }
            }),
    {
        let ghost start = self@;
        let key: FlowKey = turn.key;
        assert(start.flows.contains_key(key));
        let idle = match self.flows.get(key) {
            Some(flow) => flow.queue.len() == 0,
            None => true,
        };
        if idle {
            self.flows.remove(key);
            assert(self@.flows =~= start.flows.remove(key));
            assert forall|owner: ClientIncarnation|
                (#[trigger] owner_keys(self@.flows, owner)).finite() && owner_keys(
                    self@.flows,
                    owner,
                ).len() <= BULK_WRITE_MAX_FLOWS_PER_CLIENT by {
                assert(owner_keys(start.flows, owner).finite());
                lemma_owner_subset(start.flows, self@.flows, owner);
            }
        } else {
            self.active.push_back(key);
            proof {
                lemma_requeue_wf(self.profile, start, self@, key);
            }
        }
    }
}

proof fn lemma_pop_wf<P>(profile: WireProfile, state: BulkState<P>, after: BulkState<P>)
    requires
        state.wf(profile, None),
        state.active.len() > 0,
        after == (BulkState {
            active: state.active.subrange(1, state.active.len() as int),
            ..state
        }),
    ensures
        after.wf(profile, Some(state.active[0])),
{
    let key = state.active[0];
    assert forall|k: FlowKey| #[trigger] after.active.contains(k) implies state.active.contains(k)
        && k != key by {
        let i = choose|i: int| 0 <= i < after.active.len() && after.active[i] == k;
        assert(state.active[i + 1] == k);
    }
    assert forall|k: FlowKey| #[trigger] after.flows.contains_key(k) implies after.active.contains(k)
        || k == key by {
        if k != key {
            let i = choose|i: int| 0 <= i < state.active.len() && state.active[i] == k;
            assert(after.active[i - 1] == k);
        }
    }
    assert(state.active.contains(key));
}

proof fn lemma_requeue_wf<P>(
    profile: WireProfile,
    state: BulkState<P>,
    after: BulkState<P>,
    key: FlowKey,
)
    requires
        state.wf(profile, Some(key)),
        after == (BulkState { active: state.active.push(key), ..state }),
    ensures
        after.wf(profile, None),
{
    assert forall|k: FlowKey| #[trigger] after.active.contains(k) <==> state.active.contains(k) || k
        == key by {
        if state.active.contains(k) {
            let i = choose|i: int| 0 <= i < state.active.len() && state.active[i] == k;
            assert(after.active[i] == k);
        }
        if k == key {
            assert(after.active.last() == key);
        }
        if after.active.contains(k) {
            let i = choose|i: int| 0 <= i < after.active.len() && after.active[i] == k;
            if i < state.active.len() {
                assert(state.active[i] == k);
            }
        }
    }
    assert forall|i: int, j: int| 0 <= i < after.active.len() && 0 <= j < after.active.len() && i
        != j implies after.active[i] != after.active[j] by {
        if i == state.active.len() {
            assert(state.active.contains(after.active[j]));
        } else if j == state.active.len() {
            assert(state.active.contains(after.active[i]));
        }
    }
}

/// The runnable order after the first `kept.len()` turns of a pass, where `kept[i]` says whether
/// the flow of turn `i` still has records.
pub open spec fn order_after(active: Seq<FlowKey>, kept: Seq<bool>) -> Seq<FlowKey>
    decreases kept.len(),
{
    if kept.len() == 0 {
        active
    } else {
        let before = order_after(active, kept.drop_last());
        after_turn(before.subrange(1, before.len() as int), before[0], kept.last())
    }
}

/// A pass serves every runnable flow exactly once, in the order in which they became runnable: the
/// flow of turn `i` is the one at position `i` when the pass began, whatever the others did.
pub proof fn pass_serves_flows_in_order(active: Seq<FlowKey>, kept: Seq<bool>)
    requires
        kept.len() < active.len(),
    ensures
        order_after(active, kept).len() >= active.len() - kept.len(),
        order_after(active, kept)[0] == active[kept.len() as int],
{
    lemma_order_prefix(active, kept);
}

proof fn lemma_order_prefix(active: Seq<FlowKey>, kept: Seq<bool>)
    requires
        kept.len() <= active.len(),
    ensures
        order_after(active, kept).len() >= active.len() - kept.len(),
        forall|i: int|
            0 <= i < active.len() - kept.len() ==> #[trigger] order_after(active, kept)[i]
                == active[kept.len() + i],
    decreases kept.len(),
{
    if kept.len() > 0 {
        lemma_order_prefix(active, kept.drop_last());
        let before = order_after(active, kept.drop_last());
        assert forall|i: int| 0 <= i < active.len() - kept.len() implies #[trigger] order_after(
            active,
            kept,
        )[i] == active[kept.len() + i] by {
            assert(before[i + 1] == active[kept.len() - 1 + i + 1]);
        }
    }
}

/// The records that wait for an operation, oldest first.
pub open spec fn queued_for<P>(state: BulkState<P>, key: FlowKey) -> Seq<BulkWrite<P>> {
    if state.flows.contains_key(key) {
        state.flows[key].queue
    } else {
        Seq::empty()
    }
}

/// What becomes of a record: it joins the end of its operation's queue, or it changes no queue.
///
/// A host-to-guest record of a real correlation is taken exactly where its operation is used up,
/// in which case it is dropped, or where the operation is known or its client may have another one,
/// and the operation's bytes stay within their budget.
pub proof fn write_is_queued_or_refused<P>(
    profile: WireProfile,
    state: BulkState<P>,
    write: BulkWrite<P>,
)
    ensures
        ({
            let key = FlowKey { incarnation: write.incarnation, id: write.id };
            let (after, result) = command_outcome(profile, state, BulkWriterCommand::Write(write));
            let retired = state.is_retired(profile, key);
            &&& result is Ok <==> {
                &&& write.flow == BulkFlow::HostToGuest
                &&& write.id != 0
                &&& retired || {
                    &&& state.flows.contains_key(key) || owner_keys(state.flows, key.incarnation).len()
                        < 64
                    &&& queue_bytes(queued_for(state, key)) + write.payload_len
                        <= BULK_WRITE_FLOW_CAPACITY
                }
            }
            &&& queued_for(after, key) == if result is Ok && !retired {
                queued_for(state, key).push(write)
            } else {
                queued_for(state, key)
            }
            &&& forall|other: FlowKey|
                other != key ==> #[trigger] queued_for(after, other) == queued_for(state, other)
            &&& result is Ok && !retired ==> after.flows.contains_key(key)
            &&& after.retired == state.retired
            &&& state.flows.contains_key(key) ==> after.active == state.active
                && after.flows[key].deficit == state.flows[key].deficit
        }),
{
    let key = FlowKey { incarnation: write.incarnation, id: write.id };
    let opened = state.with_flow(key);
    assert(queue_bytes(Seq::<BulkWrite<P>>::empty()) == 0);
    let (after, result) = command_outcome(profile, state, BulkWriterCommand::Write(write));
    assert forall|other: FlowKey| other != key implies #[trigger] queued_for(after, other)
        == queued_for(state, other) by {
        assert(after.flows.contains_key(other) == state.flows.contains_key(other));
    }
}

/// Dropping an operation takes its records and nothing else, and its correlation is used up;
/// dropping an owner takes all records of the owner and nothing else.
pub proof fn drop_takes_exactly_its_records<P>(
    profile: WireProfile,
    state: BulkState<P>,
    key: FlowKey,
    other: FlowKey,
)
    ensures
        ({
            let dropped = command_outcome(
                profile,
                state,
                BulkWriterCommand::DropFlow { incarnation: key.incarnation, id: key.id },
            ).0;
            &&& !dropped.flows.contains_key(key)
            &&& local_index(profile, key.id) is Some ==> dropped.is_retired(profile, key)
            &&& other != key ==> dropped.flows.contains_key(other) == state.flows.contains_key(other)
            &&& other != key && state.flows.contains_key(other) ==> dropped.flows[other]
                == state.flows[other]
            &&& state.is_retired(profile, other) ==> dropped.is_retired(profile, other)
        }),
        ({
            let gone = command_outcome(
                profile,
                state,
                BulkWriterCommand::DropIncarnation { incarnation: key.incarnation },
            ).0;
            &&& other.incarnation == key.incarnation ==> !gone.flows.contains_key(other)
                && !gone.is_retired(profile, other)
            &&& other.incarnation != key.incarnation ==> {
                &&& gone.flows.contains_key(other) == state.flows.contains_key(other)
                &&& state.flows.contains_key(other) ==> gone.flows[other] == state.flows[other]
                &&& gone.is_retired(profile, other) == state.is_retired(profile, other)
            }
        }),
{
}

/// One step of the bulk lane, as far as its queues are concerned.
pub enum QueueEvent<P> {
    /// A command and its answer.
    Command { command: BulkWriterCommand<P>, result: Result<(), BulkError> },
    /// A record was taken for the wire.
    Taken { key: FlowKey, write: BulkWrite<P> },
    /// A turn began or ended.
    Turned,
}

/// Whether an event leads from one state to the next: a command as it is applied, a record from
/// the front of its queue, and a turn that leaves every queue as it is.
pub open spec fn event_leads<P>(
    profile: WireProfile,
    before: BulkState<P>,
    event: QueueEvent<P>,
    after: BulkState<P>,
) -> bool {
    match event {
        QueueEvent::Command { command, result } => command_outcome(profile, before, command) == (
            after,
            result,
        ),
        QueueEvent::Taken { key, write } => {
            &&& queued_for(before, key).len() > 0
            &&& write == queued_for(before, key)[0]
            &&& queued_for(after, key) == queued_for(before, key).skip(1)
            &&& forall|other: FlowKey|
                other != key ==> #[trigger] queued_for(after, other) == queued_for(before, other)
        },
        QueueEvent::Turned => forall|key: FlowKey| #[trigger]
            queued_for(after, key) == queued_for(before, key),
    }
}

/// The records of an operation that were taken for the wire, in this order.
pub open spec fn taken_for<P>(events: Seq<QueueEvent<P>>, key: FlowKey) -> Seq<BulkWrite<P>>
    decreases events.len(),
{
    if events.len() == 0 {
        Seq::empty()
    } else {
        let before = taken_for(events.drop_last(), key);
        match events.last() {
            QueueEvent::Taken { key: served, write } if served == key => before.push(write),
            _ => before,
        }
    }
}

/// The records of an operation that its client sent and that were accepted, in this order.
pub open spec fn accepted_for<P>(
    profile: WireProfile,
    states: Seq<BulkState<P>>,
    events: Seq<QueueEvent<P>>,
    key: FlowKey,
) -> Seq<BulkWrite<P>>
    decreases events.len(),
{
    if events.len() == 0 {
        Seq::empty()
    } else {
        let before = accepted_for(profile, states, events.drop_last(), key);
        match events.last() {
            QueueEvent::Command { command: BulkWriterCommand::Write(write), result: Ok(()) }
                if write.incarnation == key.incarnation && write.id == key.id
                    && !states[events.len() - 1].is_retired(profile, key) => before.push(write),
            _ => before,
        }
    }
}

/// The records of one operation leave in the order in which its client sent them.
///
/// Over any commands and passes that do not drop the operation, the records that were taken for the
/// wire followed by those that still wait are the records that waited at first followed by those
/// that were accepted since, in the order of their commands: none is lost, doubled or overtaken.
pub proof fn records_leave_in_the_order_sent<P>(
    profile: WireProfile,
    states: Seq<BulkState<P>>,
    events: Seq<QueueEvent<P>>,
    key: FlowKey,
)
    requires
        states.len() == events.len() + 1,
        forall|i: int|
            0 <= i < events.len() ==> event_leads(
                profile,
                states[i],
                #[trigger] events[i],
                states[i + 1],
            ),
        forall|i: int|
            0 <= i < events.len() ==> !((#[trigger] events[i]) matches QueueEvent::Command {
                command: BulkWriterCommand::DropFlow { incarnation, id },
                ..
            } && incarnation == key.incarnation && id == key.id),
        forall|i: int|
            0 <= i < events.len() ==> !((#[trigger] events[i]) matches QueueEvent::Command {
                command: BulkWriterCommand::DropIncarnation { incarnation },
                ..
            } && incarnation == key.incarnation),
    ensures
        taken_for(events, key) + queued_for(states.last(), key) == queued_for(states[0], key)
            + accepted_for(profile, states, events, key),
    decreases events.len(),
{
    let n = events.len() as int;
    if n == 0 {
        assert(taken_for(events, key) + queued_for(states.last(), key) =~= queued_for(
            states[0],
            key,
        ) + accepted_for(profile, states, events, key));
    } else {
        let front = events.drop_last();
        let reached = states.drop_last();
        assert forall|i: int| 0 <= i < front.len() implies event_leads(
            profile,
            reached[i],
            #[trigger] front[i],
            reached[i + 1],
        ) by {
            assert(front[i] == events[i]);
        }
        assert forall|i: int| 0 <= i < front.len() implies #[trigger] front[i] == events[i] by {}
        records_leave_in_the_order_sent(profile, reached, front, key);
        lemma_accepted_prefix(profile, states, front, key);
        let before = states[n - 1];
        let after = states[n];
        let event = events[n - 1];
        assert(event_leads(profile, before, event, after));
        assert(reached.last() == before && states.last() == after && events.last() == event);
        let taken = taken_for(front, key);
        let waiting = queued_for(before, key);
        let first = queued_for(states[0], key);
        let accepted = accepted_for(profile, states, front, key);
        assert(reached[0] == states[0]);
        assert(taken + waiting == first + accepted);
        match event {
            QueueEvent::Command { command, result } => {
                match command {
                    BulkWriterCommand::Write(write) => {
                        write_is_queued_or_refused(profile, before, write);
                        assert(taken + waiting.push(write) =~= (taken + waiting).push(write));
                        assert(first + accepted.push(write) =~= (first + accepted).push(write));
                    },
                    BulkWriterCommand::DropFlow { incarnation, id } => {
                        drop_takes_exactly_its_records(
                            profile,
                            before,
                            FlowKey { incarnation, id },
                            key,
                        );
                    },
                    BulkWriterCommand::DropIncarnation { incarnation } => {
                        drop_takes_exactly_its_records(
                            profile,
                            before,
                            FlowKey { incarnation, id: 0 },
                            key,
                        );
                    },
                }
            },
            QueueEvent::Taken { key: served, write } => {
                if served == key {
                    assert(taken.push(write) + waiting.skip(1) =~= taken + waiting);
                }
            },
            QueueEvent::Turned => {
                assert(queued_for(after, key) == queued_for(before, key));
            },
        }
    }
}

proof fn lemma_accepted_prefix<P>(
    profile: WireProfile,
    states: Seq<BulkState<P>>,
    events: Seq<QueueEvent<P>>,
    key: FlowKey,
)
    requires
        events.len() < states.len(),
    ensures
        accepted_for(profile, states, events, key) == accepted_for(
            profile,
            states.drop_last(),
            events,
            key,
        ),
    decreases events.len(),
{
    if events.len() > 0 {
        lemma_accepted_prefix(profile, states, events.drop_last(), key);
        assert(states.drop_last()[events.len() - 1] == states[events.len() - 1]);
    }
}

/// A flow's deficit after so many turns in which it sent nothing.
pub open spec fn deficit_after(deficit: usize, quantum: usize, max_burst: usize, turns: nat) -> usize
    decreases turns,
{
    if turns == 0 {
        deficit
    } else {
        raised_deficit(
            deficit_after(deficit, quantum, max_burst, (turns - 1) as nat),
            quantum,
            max_burst,
        )
    }
}

/// No record waits forever for its turn: once a flow had as many turns as its first record has
/// quanta, it may send that record, whatever its deficit was; and no flow ever sends more than its
/// deficit in a turn, nor more than one burst.
pub proof fn waiting_record_is_sent_in_bounded_turns<P>(
    flow: QueueState<P>,
    quantum: usize,
    max_burst: usize,
    turns: nat,
    burst: usize,
)
    requires
        flow.queue.len() > 0,
        0 < flow.queue[0].payload_len <= max_burst,
        flow.deficit <= max_burst,
        turns * quantum >= flow.queue[0].payload_len,
    ensures
        turn_step(
            QueueState {
                deficit: deficit_after(flow.deficit, quantum, max_burst, turns),
                ..flow
            },
            0,
            max_burst,
        ) is Send,
        turn_step(flow, burst, max_burst) is Send ==> flow.queue[0].payload_len <= flow.deficit
            && burst + flow.queue[0].payload_len <= max_burst,
        turn_step(flow, burst, max_burst) is NeedsDeficit <==> flow.queue[0].payload_len
            > flow.deficit,
        turn_step(flow, burst, max_burst) matches TurnStep::Send { wire_len } ==> (wire_len
            == CLIENT_INCARNATION_SIZE + BULK_PREFIX_SIZE + flow.queue[0].payload_len
            || CLIENT_INCARNATION_SIZE + BULK_PREFIX_SIZE + flow.queue[0].payload_len > usize::MAX),
{
    lemma_deficit_grows(flow.deficit, quantum, max_burst, turns);
}

proof fn lemma_deficit_grows(deficit: usize, quantum: usize, max_burst: usize, turns: nat)
    requires
        deficit <= max_burst,
    ensures
        deficit_after(deficit, quantum, max_burst, turns) <= max_burst,
        deficit_after(deficit, quantum, max_burst, turns) >= turns * quantum || deficit_after(
            deficit,
            quantum,
            max_burst,
            turns,
        ) == max_burst,
    decreases turns,
{
    if turns > 0 {
        lemma_deficit_grows(deficit, quantum, max_burst, (turns - 1) as nat);
        assert(turns * quantum == (turns - 1) * quantum + quantum) by (nonlinear_arith)
            requires
                turns > 0,
        ;
    } else {
        assert(turns * quantum == 0) by (nonlinear_arith)
            requires
                turns == 0,
        ;
    }
}

/// A record is refused with the reason of its own: the wrong direction, no correlation, a 65th
/// operation of its client, or more than 8 MiB waiting for its operation. The first reason in this
/// order is the one that is told.
pub proof fn refusals_name_their_reason<P>(
    profile: WireProfile,
    state: BulkState<P>,
    write: BulkWrite<P>,
)
    ensures
        ({
            let key = FlowKey { incarnation: write.incarnation, id: write.id };
            let result = command_outcome(profile, state, BulkWriterCommand::Write(write)).1;
            let inward = write.flow == BulkFlow::HostToGuest;
            let open = inward && write.id != 0 && !state.is_retired(profile, key);
            let room = state.flows.contains_key(key) || owner_keys(
                state.flows,
                key.incarnation,
            ).len() < 64;
            let total = queue_bytes(queued_for(state, key)) + write.payload_len;
            &&& !inward ==> result == Err::<(), BulkError>(BulkError::GuestToHost)
            &&& inward && write.id == 0 ==> result == Err::<(), BulkError>(BulkError::ZeroId)
            &&& open && !room ==> result == Err::<(), BulkError>(
                BulkError::FlowLimit { id: write.id },
            )
            &&& open && room && total > usize::MAX ==> result == Err::<(), BulkError>(
                BulkError::ByteOverflow,
            )
            &&& open && room && 8388608 < total <= usize::MAX ==> result == Err::<(), BulkError>(
                BulkError::ByteBudget { id: write.id },
            )
            &&& open && room && total <= 8388608 ==> result is Ok
        }),
{
    assert(queue_bytes(Seq::<BulkWrite<P>>::empty()) == 0);
}

/// A new operation becomes runnable behind all others, without a deficit; a dropped one leaves the
/// runnable order and every other keeps its place in it.
pub proof fn runnable_order_is_kept<P>(
    profile: WireProfile,
    state: BulkState<P>,
    write: BulkWrite<P>,
    key: FlowKey,
)
    ensures
        ({
            let own = FlowKey { incarnation: write.incarnation, id: write.id };
            let (after, result) = command_outcome(profile, state, BulkWriterCommand::Write(write));
            &&& !state.flows.contains_key(own) && result is Ok && !state.is_retired(profile, own)
                ==> after.active == state.active.push(own) && after.flows[own].deficit == 0
            &&& state.flows.contains_key(own) ==> after.active == state.active
        }),
        command_outcome(
            profile,
            state,
            BulkWriterCommand::DropFlow { incarnation: key.incarnation, id: key.id },
        ).0.active == state.active.filter(|other: FlowKey| other != key),
        command_outcome(
            profile,
            state,
            BulkWriterCommand::DropIncarnation { incarnation: key.incarnation },
        ).0.active == state.active.filter(
            |other: FlowKey| other.incarnation != key.incarnation,
        ),
        local_index(profile, key.id) is None ==> command_outcome(
            profile,
            state,
            BulkWriterCommand::DropFlow { incarnation: key.incarnation, id: key.id },
        ).1 == Err::<(), BulkError>(BulkError::Unassigned(UnassignedCorrelation { id: key.id })),
{
    assert(other_than(key) =~= (|other: FlowKey| other != key));
    assert(not_owned_by(key.incarnation) =~= (|other: FlowKey|
        other.incarnation != key.incarnation));
}

/// A turn raises a flow's deficit by the quantum, up to one burst and no further; and a flow that
/// still has records goes to the back of the order, one that has none leaves it.
pub proof fn turns_raise_the_deficit(
    deficit: usize,
    quantum: usize,
    max_burst: usize,
    active: Seq<FlowKey>,
    key: FlowKey,
)
    ensures
        raised_deficit(deficit, quantum, max_burst) <= max_burst,
        deficit + quantum <= max_burst ==> raised_deficit(deficit, quantum, max_burst) == deficit
            + quantum,
        deficit + quantum >= max_burst ==> raised_deficit(deficit, quantum, max_burst) == max_burst,
        after_turn(active, key, true).last() == key,
        after_turn(active, key, true).drop_last() == active,
        after_turn(active, key, false) == active,
{
    assert(active.push(key).drop_last() =~= active);
}

/// A record goes out exactly where it has bytes, its flow's deficit covers them and the burst has
/// room for them.
pub proof fn records_go_out_within_deficit_and_burst<P>(
    flow: QueueState<P>,
    burst: usize,
    max_burst: usize,
)
    ensures
        turn_step(flow, burst, max_burst) is Send <==> flow.queue.len() > 0
            && flow.queue[0].payload_len > 0 && flow.queue[0].payload_len <= flow.deficit && burst
            + flow.queue[0].payload_len <= max_burst,
        turn_step(flow, burst, max_burst) is NeedsDeficit <==> flow.queue.len() > 0
            && flow.queue[0].payload_len > flow.deficit,
        flow.queue.len() > 0 && flow.queue[0].payload_len + 37 <= usize::MAX ==> (turn_step(
            flow,
            burst,
            max_burst,
        ) matches TurnStep::Send { wire_len } ==> wire_len == flow.queue[0].payload_len + 37),
{
}

} // verus!
