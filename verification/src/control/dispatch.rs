//! Fair serialized host dispatch with reply capacity that is reserved before the work.

use std::collections::HashMap;
use std::collections::HashSet;
use std::collections::VecDeque;
use std::sync::Arc;

use tokio::sync::Semaphore;
use vstd::prelude::*;
use vstd::std_specs::hash::*;
use vstd::string::*;

use crate::permits::try_hold;
use crate::permits::HeldPermits;
use crate::wire::be_bytes;
use crate::wire::be_value;
use super::handler::Reply;
use super::handler::ReplyView;
use super::model::ControlError;
use super::model::ErrorEffect;
use super::model::ErrorState;

verus! {

pub const CONNECTION_BYTES: usize = 8 * 1024 * 1024;

pub const RUNTIME_BYTES: usize = 64 * 1024 * 1024;

pub const MAX_QUEUED: usize = 256;

/// Jobs that wait for the host, fairly: in order within a connection, in turn between connections.
pub struct Dispatcher<J> {
    by_connection: HashMap<u64, VecDeque<J>>,
    /// The connections with jobs, in the order in which they are served.
    ready: VecDeque<u64>,
    count: usize,
}

/// The jobs of each waiting connection, in the order of service.
pub open spec fn queued<J>(lines: Seq<(u64, Seq<J>)>) -> nat
    decreases lines.len(),
{
    if lines.len() == 0 {
        0
    } else {
        queued(lines.drop_last()) + lines.last().1.len()
    }
}

impl<J> View for Dispatcher<J> {
    type V = Seq<(u64, Seq<J>)>;

    closed spec fn view(&self) -> Seq<(u64, Seq<J>)> {
        Seq::new(
            self.ready@.len(),
            |i: int| (self.ready@[i], self.by_connection@[self.ready@[i]]@),
        )
    }
}

/// Each connection waits in one place, with a job.
pub open spec fn lines_wf<J>(lines: Seq<(u64, Seq<J>)>) -> bool {
    &&& forall|i: int, j: int|
        0 <= i < j < lines.len() ==> (#[trigger] lines[i]).0 != (#[trigger] lines[j]).0
    &&& forall|i: int| 0 <= i < lines.len() ==> (#[trigger] lines[i]).1.len() > 0
}

/// Where a connection waits.
pub open spec fn line_of<J>(lines: Seq<(u64, Seq<J>)>, connection: u64) -> Option<int> {
    if exists|i: int| 0 <= i < lines.len() && (#[trigger] lines[i]).0 == connection {
        Some(choose|i: int| 0 <= i < lines.len() && (#[trigger] lines[i]).0 == connection)
    } else {
        None
    }
}

/// The queue after a job joined it.
pub open spec fn submitted<J>(lines: Seq<(u64, Seq<J>)>, connection: u64, job: J) -> Seq<
    (u64, Seq<J>),
> {
    match line_of(lines, connection) {
        Some(i) => lines.update(i, (connection, lines[i].1.push(job))),
        None => lines.push((connection, seq![job])),
    }
}

/// The queue after a connection left it.
pub open spec fn cancelled<J>(lines: Seq<(u64, Seq<J>)>, connection: u64) -> Seq<(u64, Seq<J>)> {
    match line_of(lines, connection) {
        Some(i) => lines.remove(i),
        None => lines,
    }
}

/// The queue after its next job left it: the connection goes to the end, if it has more.
pub open spec fn served<J>(lines: Seq<(u64, Seq<J>)>) -> Seq<(u64, Seq<J>)>
    recommends
        lines.len() > 0,
{
    let (connection, jobs) = lines[0];
    if jobs.len() == 1 {
        lines.skip(1)
    } else {
        lines.skip(1).push((connection, jobs.skip(1)))
    }
}

proof fn lemma_queued_update<J>(lines: Seq<(u64, Seq<J>)>, i: int, line: (u64, Seq<J>))
    requires
        0 <= i < lines.len(),
    ensures
        queued(lines.update(i, line)) == queued(lines) - lines[i].1.len() + line.1.len(),
    decreases lines.len(),
{
    if i == lines.len() - 1 {
        assert(lines.update(i, line).drop_last() =~= lines.drop_last());
    } else {
        lemma_queued_update(lines.drop_last(), i, line);
        assert(lines.update(i, line).drop_last() =~= lines.drop_last().update(i, line));
    }
}

proof fn lemma_queued_remove<J>(lines: Seq<(u64, Seq<J>)>, i: int)
    requires
        0 <= i < lines.len(),
    ensures
        queued(lines.remove(i)) == queued(lines) - lines[i].1.len(),
        queued(lines) >= lines[i].1.len(),
    decreases lines.len(),
{
    if i == lines.len() - 1 {
        assert(lines.remove(i) =~= lines.drop_last());
    } else {
        lemma_queued_remove(lines.drop_last(), i);
        assert(lines.remove(i).drop_last() =~= lines.drop_last().remove(i));
        assert(lines.remove(i).last() == lines.last());
    }
}

proof fn lemma_queued_push<J>(lines: Seq<(u64, Seq<J>)>, line: (u64, Seq<J>))
    ensures
        queued(lines.push(line)) == queued(lines) + line.1.len(),
{
    assert(lines.push(line).drop_last() =~= lines);
}

impl<J> Dispatcher<J> {
    /// The jobs are counted, and the connections that are ready are those with jobs.
    pub closed spec fn consistent(self) -> bool {
        &&& self.count == queued(self@)
        &&& forall|connection: u64| #[trigger]
            self.by_connection@.contains_key(connection) <==> self.ready@.contains(connection)
    }

    pub open spec fn wf(self) -> bool {
        &&& self.consistent()
        &&& lines_wf(self@)
        &&& queued(self@) <= MAX_QUEUED
    }

    pub fn new() -> (dispatcher: Dispatcher<J>)
        ensures
            dispatcher.wf(),
            dispatcher@.len() == 0,
    {
        broadcast use group_hash_axioms;

        Dispatcher { by_connection: HashMap::new(), ready: VecDeque::new(), count: 0 }
    }

    /// A connection waits where it stands among the ready ones.
    proof fn lemma_place(&self, connection: u64)
        requires
            self.wf(),
        ensures
            match line_of(self@, connection) {
                Some(i) => 0 <= i < self@.len() && self.ready@[i] == connection
                    && self.by_connection@.contains_key(connection),
                None => !self.by_connection@.contains_key(connection) && !self.ready@.contains(
                    connection,
                ),
            },
            forall|i: int| 0 <= i < self.ready@.len() ==> (#[trigger] self@[i]).0 == self.ready@[i],
            self.ready@.no_duplicates(),
    {
        match line_of(self@, connection) {
            Some(i) => {
                assert(self@[i].0 == connection);
                assert(self.ready@.contains(connection));
            },
            None => {
                if self.ready@.contains(connection) {
                    let i = choose|i: int| 0 <= i < self.ready@.len() && self.ready@[i] == connection;
                    assert(self@[i].0 == connection);
                }
            },
        }
        assert forall|i: int, j: int|
            0 <= i < self.ready@.len() && 0 <= j < self.ready@.len() && i != j implies self.ready@[i]
            != self.ready@[j] by {
            if i < j {
                assert(self@[i].0 != self@[j].0);
            } else {
                assert(self@[j].0 != self@[i].0);
            }
        }
    }

    /// Queue a job, unless the runtime's queue is full.
    pub fn submit(&mut self, connection: u64, job: J) -> (result: Result<(), J>)
        requires
            old(self).wf(),
        ensures
            final(self).wf(),
            if queued(old(self)@) >= MAX_QUEUED {
                result == Err::<(), J>(job) && final(self)@ == old(self)@
            } else {
                result is Ok && final(self)@ == submitted(old(self)@, connection, job)
            },
            result is Err <==> queued(old(self)@) >= 256,
    {
        broadcast use group_hash_axioms;

        if self.count >= MAX_QUEUED {
            return Err(job);
        }
        let ghost before = self@;
        let ghost ready = self.ready@;
        let ghost places = line_of(before, connection);
        proof {
            self.lemma_place(connection);
        }
        match self.by_connection.remove(&connection) {
            Some(mut jobs) => {
                jobs.push_back(job);
                self.by_connection.insert(connection, jobs);
                proof {
                    let i = places->0;
                    assert(self@ =~= submitted(before, connection, job));
                    lemma_queued_update(before, i, (connection, before[i].1.push(job)));
                }
            },
            None => {
                let mut jobs: VecDeque<J> = VecDeque::new();
                jobs.push_back(job);
                self.by_connection.insert(connection, jobs);
                self.ready.push_back(connection);
                proof {
                    assert(jobs@ =~= seq![job]);
                    assert(self@ =~= before.push((connection, seq![job])));
                    lemma_queued_push(before, (connection, seq![job]));
                    assert forall|i: int, j: int| 0 <= i < j < self@.len() implies (
                    #[trigger] self@[i]).0 != (#[trigger] self@[j]).0 by {
                        if j == before.len() {
                            assert(before[i].0 != connection);
                        }
                    }
                    assert forall|c: u64| #[trigger]
                        self.by_connection@.contains_key(c) <==> self.ready@.contains(c) by {
                        if ready.contains(c) {
                            let i = choose|i: int| 0 <= i < ready.len() && ready[i] == c;
                            assert(self.ready@[i] == c);
                        }
                        if c == connection {
                            assert(self.ready@[ready.len() as int] == c);
                        }
                        if self.ready@.contains(c) && c != connection {
                            let i = choose|i: int| 0 <= i < self.ready@.len() && self.ready@[i] == c;
                            assert(ready[i] == c);
                        }
                    }
                }
            },
        }
        self.count = self.count + 1;
        Ok(())
    }

    /// Drop every job of a connection.
    pub fn cancel(&mut self, connection: u64)
        requires
            old(self).wf(),
        ensures
            final(self).wf(),
            final(self)@ == cancelled(old(self)@, connection),
    {
        broadcast use group_hash_axioms;

        let ghost before = self@;
        let ghost ready = self.ready@;
        let ghost at = line_of(before, connection);
        proof {
            self.lemma_place(connection);
        }
        if let Some(jobs) = self.by_connection.remove(&connection) {
            let mut i: usize = 0;
            while i < self.ready.len() && self.ready[i] != connection
                invariant
                    self.ready@ == ready,
                    ready.no_duplicates(),
                    at is Some,
                    0 <= at->0 < ready.len(),
                    ready[at->0] == connection,
                    i <= at->0,
                decreases at->0 - i,
            {
                i = i + 1;
            }
            self.ready.remove(i);
            proof {
                assert(self@ =~= before.remove(i as int));
                lemma_queued_remove(before, i as int);
                assert(before[i as int].1 == jobs@);
                lemma_removed_is_gone(ready, i as int);
                assert forall|a: int, b: int| 0 <= a < b < self@.len() implies (
                #[trigger] self@[a]).0 != (#[trigger] self@[b]).0 by {
                    let from = if a < i { a } else { a + 1 };
                    let to = if b < i { b } else { b + 1 };
                    assert(self@[a] == before[from] && self@[b] == before[to]);
                }
            }
            let dropped: usize = jobs.len();
            self.count = self.count - dropped;
        } else {
            assert(self@ =~= before);
        }
    }

    /// Take the next job.
    pub fn next(&mut self) -> (job: Option<J>)
        requires
            old(self).wf(),
        ensures
            final(self).wf(),
            match job {
                Some(job) => {
                    &&& old(self)@.len() > 0
                    &&& job == old(self)@[0].1[0]
                    &&& final(self)@ == served(old(self)@)
                },
                None => old(self)@.len() == 0 && final(self)@ == old(self)@,
            },
    {
        broadcast use group_hash_axioms;

        let ghost before = self@;
        let ghost ready = self.ready@;
        let connection: u64 = match self.ready.pop_front() {
            Some(connection) => connection,
            None => {
                return None;
            },
        };
        proof {
            old(self).lemma_place(connection);
            assert(before[0].0 == connection);
            assert(old(self).ready@.contains(connection));
        }
        let mut jobs: VecDeque<J> = match self.by_connection.remove(&connection) {
            Some(jobs) => jobs,
            None => {
                assert(false);
                return None;
            },
        };
        assert(before[0] == (connection, jobs@));
        let job = match jobs.pop_front() {
            Some(job) => job,
            None => {
                assert(false);
                return None;
            },
        };
        proof {
            lemma_removed_is_gone(ready, 0);
            assert(self.ready@ =~= ready.remove(0));
            assert(self@ =~= before.remove(0));
            assert(before.remove(0) =~= before.skip(1));
            lemma_queued_remove(before, 0);
            assert(jobs@ =~= before[0].1.skip(1));
        }
        let ghost rest = self.ready@;
        if jobs.len() > 0 {
            self.by_connection.insert(connection, jobs);
            self.ready.push_back(connection);
            proof {
                assert(self@ =~= before.skip(1).push((connection, before[0].1.skip(1))));
                lemma_queued_push(before.skip(1), (connection, before[0].1.skip(1)));
                assert forall|i: int, j: int| 0 <= i < j < self@.len() implies (
                #[trigger] self@[i]).0 != (#[trigger] self@[j]).0 by {
                    assert(self@[i] == before[i + 1]);
                    if j < before.len() - 1 {
                        assert(self@[j] == before[j + 1]);
                    } else {
                        assert(before[0].0 == connection);
                    }
                }
                assert forall|i: int| 0 <= i < self@.len() implies (#[trigger] self@[i]).1.len()
                    > 0 by {
                    if i < before.len() - 1 {
                        assert(self@[i] == before[i + 1]);
                    }
                }
                assert forall|c: u64| #[trigger]
                    self.by_connection@.contains_key(c) <==> self.ready@.contains(c) by {
                    if rest.contains(c) {
                        let i = choose|i: int| 0 <= i < rest.len() && rest[i] == c;
                        assert(self.ready@[i] == c);
                    }
                    if c == connection {
                        assert(self.ready@[rest.len() as int] == c);
                    }
                    if self.ready@.contains(c) && c != connection {
                        let i = choose|i: int| 0 <= i < self.ready@.len() && self.ready@[i] == c;
                        assert(rest[i] == c);
                    }
                }
            }
        } else {
            assert forall|i: int, j: int| 0 <= i < j < self@.len() implies (
            #[trigger] self@[i]).0 != (#[trigger] self@[j]).0 by {
                assert(self@[i] == before[i + 1] && self@[j] == before[j + 1]);
            }
            assert forall|i: int| 0 <= i < self@.len() implies (#[trigger] self@[i]).1.len()
                > 0 by {
                assert(self@[i] == before[i + 1]);
            }
        }
        self.count = self.count - 1;
        Some(job)
    }
}

/// Of values that occur once, removing one leaves the others.
proof fn lemma_removed_is_gone(values: Seq<u64>, at: int)
    requires
        values.no_duplicates(),
        0 <= at < values.len(),
    ensures
        forall|value: u64| #[trigger]
            values.remove(at).contains(value) <==> values.contains(value) && value != values[at],
{
    let left = values.remove(at);
    assert forall|value: u64| #[trigger]
        left.contains(value) <==> values.contains(value) && value != values[at] by {
        if left.contains(value) {
            let i = choose|i: int| 0 <= i < left.len() && left[i] == value;
            let from = if i < at { i } else { i + 1 };
            assert(values[from] == value);
        }
        if values.contains(value) && value != values[at] {
            let i = choose|i: int| 0 <= i < values.len() && values[i] == value;
            let to = if i < at { i } else { i - 1 };
            assert(left[to] == value);
        }
    }
}

/// The queue after `turns` jobs left it.
pub open spec fn after_turns<J>(lines: Seq<(u64, Seq<J>)>, turns: nat) -> Seq<(u64, Seq<J>)>
    decreases turns,
{
    if turns == 0 {
        lines
    } else {
        served(after_turns(lines, (turns - 1) as nat))
    }
}

/// Round robin: in as many turns as connections wait, each of them is served once, in their order.
pub proof fn each_connection_is_served_in_turn<J>(lines: Seq<(u64, Seq<J>)>, turn: nat)
    requires
        turn < lines.len(),
    ensures
        after_turns(lines, turn).len() > 0,
        after_turns(lines, turn)[0] == lines[turn as int],
{
    lemma_turns(lines, turn);
}

proof fn lemma_turns<J>(lines: Seq<(u64, Seq<J>)>, turn: nat)
    requires
        turn < lines.len(),
    ensures
        after_turns(lines, turn).len() >= lines.len() - turn,
        forall|i: int|
            0 <= i < lines.len() - turn ==> #[trigger] after_turns(lines, turn)[i] == lines[i
                + turn],
    decreases turn,
{
    if turn > 0 {
        lemma_turns(lines, (turn - 1) as nat);
        let before = after_turns(lines, (turn - 1) as nat);
        assert forall|i: int| 0 <= i < lines.len() - turn implies #[trigger] after_turns(
            lines,
            turn,
        )[i] == lines[i + turn] by {
            assert(served(before)[i] == before[i + 1]);
        }
    }
}

/// A cancelled connection is never served again.
pub proof fn cancelled_connection_is_gone<J>(lines: Seq<(u64, Seq<J>)>, connection: u64)
    requires
        lines_wf(lines),
    ensures
        line_of(cancelled(lines, connection), connection) is None,
{
    match line_of(lines, connection) {
        Some(at) => {
            let left = cancelled(lines, connection);
            assert forall|i: int| 0 <= i < left.len() implies (#[trigger] left[i]).0
                != connection by {
                if i < at {
                    assert(left[i] == lines[i]);
                } else {
                    assert(left[i] == lines[i + 1]);
                }
            }
        },
        None => {},
    }
}

/// Jobs of a connection leave in the order in which they were submitted.
pub proof fn connection_is_served_in_order<J>(lines: Seq<(u64, Seq<J>)>, connection: u64, job: J)
    requires
        lines_wf(lines),
    ensures
        ({
            let after = submitted(lines, connection, job);
            let at = match line_of(lines, connection) {
                Some(i) => i,
                None => lines.len() as int,
            };
            &&& after[at].0 == connection
            &&& after[at].1.last() == job
            &&& line_of(lines, connection) is Some ==> after[at].1.drop_last() == lines[at].1
        }),
{
    if let Some(i) = line_of(lines, connection) {
        assert(submitted(lines, connection, job)[i].1.drop_last() =~= lines[i].1);
    }
}

/// An exchange that cannot go on: "invalid or unavailable control exchange".
#[derive(Clone, Copy, Debug, PartialEq, Eq, Structural)]
pub struct InvalidExchange;

impl InvalidExchange {
    pub open spec fn text(self) -> Seq<char> {
        "invalid or unavailable control exchange"@
    }

    pub fn message(&self) -> (text: String)
        ensures
            text@ == self.text(),
    {
        String::from_str("invalid or unavailable control exchange")
    }
}

/// Bytes that are reserved of the connection and of the runtime, until this is dropped.
pub struct Budget {
    pub connection: HeldPermits,
    pub runtime: HeldPermits,
}

impl Budget {
    /// Both reservations, or neither.
    pub fn from_parts(connection: Option<HeldPermits>, runtime: Option<HeldPermits>) -> (budget:
        Result<Budget, InvalidExchange>)
        ensures
            match budget {
                Ok(budget) => connection == Some(budget.connection) && runtime == Some(
                    budget.runtime,
                ),
                Err(_) => connection is None || runtime is None,
            },
    {
        match (connection, runtime) {
            (Some(connection), Some(runtime)) => Ok(Budget { connection, runtime }),
            _ => Err(InvalidExchange),
        }
    }

    /// Reserve the capacity of one reply, before even a mutation is dispatched. Whether it is
    /// there depends on what else is in flight.
    pub fn reserve_reply(
        connection: &Arc<Semaphore>,
        runtime: &Arc<Semaphore>,
        reply_bytes: u32,
    ) -> (budget: Result<Budget, InvalidExchange>)
        requires
            reply_bytes <= usize::MAX / 8,
        ensures
            budget matches Ok(budget) ==> {
                &&& budget.connection.permits() == reply_bytes
                &&& budget.connection.semaphore() == **connection
                &&& budget.runtime.permits() == reply_bytes
                &&& budget.runtime.semaphore() == **runtime
            },
    {
        let local = try_hold(connection, reply_bytes);
        if local.is_none() {
            return Err(InvalidExchange);
        }
        let global = try_hold(runtime, reply_bytes);
        Budget::from_parts(local, global)
    }
}

/// The correlation IDs in flight on one connection.
pub struct InFlight {
    ids: HashSet<u32>,
}

impl View for InFlight {
    type V = Set<u32>;

    closed spec fn view(&self) -> Set<u32> {
        self.ids@
    }
}

impl InFlight {
    pub fn new() -> (ids: InFlight)
        ensures
            ids@ == Set::<u32>::empty(),
    {
        broadcast use group_hash_axioms;

        InFlight { ids: HashSet::new() }
    }
}

/// The right of one request to be in flight.
pub struct Lease {
    id: Option<u32>,
    permit: Option<HeldPermits>,
}

/// The correlation ID that a lease holds, if it still holds it.
pub ghost struct LeaseState {
    pub id: Option<u32>,
    pub permit: Option<HeldPermits>,
}

impl View for Lease {
    type V = LeaseState;

    closed spec fn view(&self) -> LeaseState {
        LeaseState { id: self.id, permit: self.permit }
    }
}

impl Lease {
    /// A lease for `id`, given the permit that the connection's capacity had for it.
    pub fn with_permit(id: u32, ids: &mut InFlight, permit: Option<HeldPermits>) -> (lease: Result<
        Lease,
        InvalidExchange,
    >)
        ensures
            if id == 0 || permit is None || old(ids)@.contains(id) {
                lease is Err && final(ids)@ == old(ids)@
            } else {
                &&& lease matches Ok(lease)
                &&& lease@ == (LeaseState { id: Some(id), permit })
                &&& final(ids)@ == old(ids)@.insert(id)
            },
    {
        broadcast use group_hash_axioms;

        if id == 0 || permit.is_none() {
            return Err(InvalidExchange);
        }
        if ids.ids.contains(&id) {
            return Err(InvalidExchange);
        }
        ids.ids.insert(id);
        Ok(Lease { id: Some(id), permit })
    }

    /// Take the right to be in flight for `id`. Whether the capacity has a permit depends on what
    /// else is in flight.
    pub fn acquire(id: u32, ids: &mut InFlight, capacity: &Arc<Semaphore>) -> (lease: Result<
        Lease,
        InvalidExchange,
    >)
        ensures
            id == 0 || old(ids)@.contains(id) ==> lease is Err,
            match lease {
                Ok(lease) => {
                    &&& lease@.id == Some(id)
                    &&& lease@.permit matches Some(permit)
                    &&& permit.permits() == 1
                    &&& permit.semaphore() == **capacity
                    &&& final(ids)@ == old(ids)@.insert(id)
                },
                Err(_) => final(ids)@ == old(ids)@,
            },
    {
        if id == 0 {
            return Err(InvalidExchange);
        }
        let permit = try_hold(capacity, 1);
        Lease::with_permit(id, ids, permit)
    }

    /// The terminal is about to be written: the peer may receive it at any time, and its next use
    /// of the ID is valid.
    pub fn terminal_admitted(&mut self, ids: &mut InFlight)
        ensures
            final(self)@ == (LeaseState { id: None, permit: None }),
            final(ids)@ == match old(self)@.id {
                Some(id) => old(ids)@.remove(id),
                None => old(ids)@,
            },
    {
        broadcast use group_hash_axioms;

        if let Some(id) = self.id.take() {
            ids.ids.remove(&id);
        }
        self.permit = None;
    }
}

/// What becomes of a framed request before it reaches the host.
pub enum FramedDecision {
    /// The exchange cannot go on.
    Close,
    /// Answer without dispatching.
    Answer(Reply),
    /// Hand the request to the host.
    Dispatch,
}

/// What a framed request says of itself: its generation and its message type.
pub struct RequestHead {
    pub v: u8,
    pub t: String,
}

/// What becomes of a framed request, given its head, whether its message type is a request, and
/// whether its payload decodes.
pub open spec fn framed_decision(
    head: Option<RequestHead>,
    flags: u8,
    generation: u8,
    is_request: bool,
    payload_valid: bool,
    decision: FramedDecision,
) -> bool {
    let rejected = |code: Seq<char>, message: Seq<char>|
        decision matches FramedDecision::Answer(reply) && reply@ == ReplyView::Error(
            ErrorState { code, message, effect: ErrorEffect::Untouched },
        );
    if head is None {
        decision is Close
    } else if head->0.v != generation || flags != 0 {
        rejected("invalid_request"@, "invalid control generation or flags"@)
    } else if head->0.t@ == "control.hello"@ || head->0.t@ == "control.welcome"@ {
        decision is Close
    } else if !is_request {
        rejected("unsupported_operation"@, "unknown control operation"@)
    } else if !payload_valid {
        rejected("invalid_request"@, "invalid control request payload"@)
    } else {
        decision is Dispatch
    }
}

/// Decide on a framed request. Repeated setup cannot reset the parser, the IDs or the negotiated
/// limits.
pub fn framed(
    head: Option<RequestHead>,
    flags: u8,
    generation: u8,
    is_request: bool,
    payload_valid: bool,
) -> (decision: FramedDecision)
    ensures
        framed_decision(head, flags, generation, is_request, payload_valid, decision),
{
    let head = match head {
        Some(head) => head,
        None => {
            return FramedDecision::Close;
        },
    };
    if head.v != generation || flags != 0 {
        return FramedDecision::Answer(
            Reply::Error(
                ControlError::rejected("invalid_request", "invalid control generation or flags"),
            ),
        );
    }
    if head.t == String::from_str("control.hello") || head.t == String::from_str(
        "control.welcome",
    ) {
        return FramedDecision::Close;
    }
    if !is_request {
        return FramedDecision::Answer(
            Reply::Error(
                ControlError::rejected("unsupported_operation", "unknown control operation"),
            ),
        );
    }
    if !payload_valid {
        return FramedDecision::Answer(
            Reply::Error(
                ControlError::rejected("invalid_request", "invalid control request payload"),
            ),
        );
    }
    FramedDecision::Dispatch
}

/// The terminal frame of a reply: length, correlation ID, the terminal flag and the envelope.
pub open spec fn is_reply_frame(frame: Seq<u8>, id: u32, body: Seq<u8>) -> bool {
    &&& frame.len() == 9 + body.len()
    &&& be_value(frame.subrange(0, 4)) == 5 + body.len()
    &&& be_value(frame.subrange(4, 8)) == id
    &&& frame[8] == 1
    &&& frame.subrange(9, frame.len() as int) == body
}

/// Frame the encoded envelope of a reply, within the capacity that was reserved for it.
pub fn framed_reply(body: &Vec<u8>, id: u32, reply_bytes: u32) -> (frame: Result<
    Vec<u8>,
    InvalidExchange,
>)
    ensures
        match frame {
            Ok(frame) => 9 + body@.len() <= reply_bytes && is_reply_frame(frame@, id, body@),
            Err(_) => 9 + body@.len() > reply_bytes,
        },
{
    if reply_bytes < 9 || body.len() > (reply_bytes - 9) as usize {
        return Err(InvalidExchange);
    }
    proof {
        reveal_with_fuel(vstd::arithmetic::power::pow, 5);
        assert(vstd::arithmetic::power::pow(256, 4) == 0x1_0000_0000);
    }
    let length: u32 = 5 + body.len() as u32;
    let mut frame = be_bytes(length as u128, 4);
    let ghost prefix = frame@;
    let mut id_bytes = be_bytes(id as u128, 4);
    let ghost tag = id_bytes@;
    frame.append(&mut id_bytes);
    frame.push(1);
    frame.extend_from_slice(body.as_slice());
    proof {
        assert(frame@.subrange(0, 4) =~= prefix);
        assert(frame@.subrange(4, 8) =~= tag);
        assert(frame@.subrange(9, frame@.len() as int) =~= body@);
    }
    Ok(frame)
}

/// A completed ID can be used again at once.
pub proof fn completed_id_is_reusable(ids: Set<u32>, id: u32)
    ensures
        !ids.insert(id).remove(id).contains(id),
{
}

/// A turn takes the oldest job of the first connection, and nothing else: the rest of its jobs keep
/// their order behind every other connection, and no other connection changes or moves past another.
pub proof fn turn_takes_the_oldest_job<J>(lines: Seq<(u64, Seq<J>)>)
    requires
        lines_wf(lines),
        lines.len() > 0,
    ensures
        ({
            let after = served(lines);
            let (connection, jobs) = lines[0];
            let more = jobs.len() > 1;
            &&& after.len() == lines.len() - if more {
                0int
            } else {
                1int
            }
            &&& forall|i: int| 1 <= i < lines.len() ==> after[i - 1] == #[trigger] lines[i]
            &&& more ==> after.last().0 == connection && seq![jobs[0]] + after.last().1 == jobs
            &&& !more ==> line_of(after, connection) is None
            &&& queued(after) + 1 == queued(lines)
        }),
{
    let after = served(lines);
    let (connection, jobs) = lines[0];
    let rest = lines.skip(1);
    assert(rest =~= lines.remove(0));
    lemma_queued_remove(lines, 0);
    assert forall|i: int| 1 <= i < lines.len() implies after[i - 1] == #[trigger] lines[i] by {
        assert(rest[i - 1] == lines[i]);
    }
    if jobs.len() > 1 {
        lemma_queued_push(rest, (connection, jobs.skip(1)));
        assert(seq![jobs[0]] + jobs.skip(1) =~= jobs);
    } else {
        assert(jobs.len() == 1);
        assert forall|i: int| 0 <= i < after.len() implies (#[trigger] after[i]).0 != connection by {
            assert(after[i] == lines[i + 1]);
            assert(lines[0].0 != lines[i + 1].0);
        }
    }
}

/// A job joins the jobs of its own connection, behind them all, and a connection that waits for
/// nothing yet comes in behind every other; nobody else is moved.
pub proof fn jobs_join_their_own_connection<J>(
    lines: Seq<(u64, Seq<J>)>,
    connection: u64,
    job: J,
    at: int,
)
    requires
        lines_wf(lines),
        0 <= at < lines.len(),
    ensures
        ({
            let after = submitted(lines, connection, job);
            let known = exists|i: int| 0 <= i < lines.len() && (#[trigger] lines[i]).0 == connection;
            &&& lines[at].0 != connection ==> after[at] == lines[at]
            &&& lines[at].0 == connection ==> after[at] == (connection, lines[at].1.push(job))
            &&& known ==> after.len() == lines.len()
            &&& !known ==> after == lines.push((connection, seq![job]))
            &&& queued(after) == queued(lines) + 1
        }),
{
    match line_of(lines, connection) {
        Some(i) => {
            assert(lines[i].0 == connection);
            lemma_queued_update(lines, i, (connection, lines[i].1.push(job)));
            if lines[at].0 == connection && at != i {
                if at < i {
                    assert(lines[at].0 != lines[i].0);
                } else {
                    assert(lines[i].0 != lines[at].0);
                }
            }
        },
        None => {
            lemma_queued_push(lines, (connection, seq![job]));
        },
    }
}

/// Cancelling a connection takes its jobs and leaves every other connection with all of its own, in
/// the same order.
pub proof fn cancelling_leaves_the_others<J>(lines: Seq<(u64, Seq<J>)>, connection: u64, at: int)
    requires
        lines_wf(lines),
        0 <= at < lines.len(),
    ensures
        ({
            let left = cancelled(lines, connection);
            let known = exists|i: int| 0 <= i < lines.len() && (#[trigger] lines[i]).0 == connection;
            &&& !known ==> left == lines
            &&& lines[at].0 == connection ==> left == lines.remove(at) && queued(left)
                + lines[at].1.len() == queued(lines)
        }),
{
    match line_of(lines, connection) {
        Some(i) => {
            assert(lines[i].0 == connection);
            lemma_queued_remove(lines, i);
            if lines[at].0 == connection && at != i {
                if at < i {
                    assert(lines[at].0 != lines[i].0);
                } else {
                    assert(lines[i].0 != lines[at].0);
                }
            }
        },
        None => {},
    }
}

/// A framed request reaches the host exactly where its envelope can be read, it is of the negotiated
/// generation without flags, it is no repeated setup, its operation is known and its payload is
/// valid. It ends the exchange only where it cannot be read or repeats the setup; everything else is
/// answered, and touched nothing.
pub proof fn only_valid_requests_reach_the_host(
    head: Option<RequestHead>,
    flags: u8,
    generation: u8,
    is_request: bool,
    payload_valid: bool,
    decision: FramedDecision,
)
    requires
        framed_decision(head, flags, generation, is_request, payload_valid, decision),
    ensures
        ({
            let current = head is Some && head->0.v == generation && flags == 0;
            let setup = head is Some && (head->0.t@ == "control.hello"@ || head->0.t@
                == "control.welcome"@);
            &&& decision is Dispatch <==> current && !setup && is_request && payload_valid
            &&& decision is Close <==> head is None || (current && setup)
            &&& decision matches FramedDecision::Answer(reply) ==> {
                &&& reply@ matches ReplyView::Error(error)
                &&& error.effect == ErrorEffect::Untouched
                &&& error.code == "unsupported_operation"@ <==> current && !is_request
                &&& error.code == "invalid_request"@ <==> !current || is_request
            }
        }),
{
    reveal_strlit("unsupported_operation");
    reveal_strlit("invalid_request");
    assert("unsupported_operation"@.len() != "invalid_request"@.len());
}

/// A reply is framed whole: its length, its correlation, the terminal flag, and the envelope as it
/// is.
pub proof fn reply_frames_end_their_request(frame: Seq<u8>, id: u32, body: Seq<u8>)
    requires
        is_reply_frame(frame, id, body),
    ensures
        be_value(frame.subrange(0, 4)) == frame.len() - 4,
        be_value(frame.subrange(4, 8)) == id,
        frame[8] == 1,
        frame.subrange(0, 9) + body == frame,
{
    assert(frame.subrange(0, 9) + body =~= frame);
}

} // verus!
