//! The end of a client: cleanup, the acknowledged disconnect, and typed failure of its operations.

use std::collections::HashMap;

use vstd::prelude::*;
use vstd::std_specs::hash::*;
use vstd::string::*;

use crate::text::decimal;
use crate::text::numbered_pair;
use crate::text::push_decimal;
use crate::wire::BulkKind;
use crate::wire::ClientIncarnation;

verus! {

/// Where a disconnect stands.
#[derive(Clone, Copy, Debug, PartialEq, Eq, Structural)]
pub enum DisconnectStage {
    /// Clear the bulk scheduler of the owner and wait for its acknowledgement.
    PurgeBulk,
    /// Clear the merger of the owner and wait for its acknowledgement.
    PurgeMerger,
    /// Kill the session at this position of the owner's sessions.
    Kill { session: usize },
    /// Register the pending acknowledgement and send the disconnect.
    SendDisconnect,
    /// Wait for the reverse control stream to drain.
    AwaitAck,
    /// The range may be reused.
    Released,
    /// Reusing the slot could relabel untagged control output: it stays in use.
    Quarantined,
}

/// The first stage once the owner is gone from routing. Only dual-port mode owns a bulk scheduler
/// and a merger.
pub open spec fn disconnect_begin(dual_port: bool, sessions: nat) -> DisconnectStage {
    if dual_port {
        DisconnectStage::PurgeBulk
    } else {
        kill_from(0, sessions)
    }
}

/// Kill the remaining sessions, then send the disconnect.
pub open spec fn kill_from(session: nat, sessions: nat) -> DisconnectStage {
    if session < sessions {
        DisconnectStage::Kill { session: session as usize }
    } else {
        DisconnectStage::SendDisconnect
    }
}

/// The next stage after an attempt.
pub open spec fn disconnect_next(
    stage: DisconnectStage,
    leased: bool,
    sessions: nat,
    succeeded: bool,
) -> DisconnectStage {
    match stage {
        DisconnectStage::PurgeBulk => if succeeded {
            DisconnectStage::PurgeMerger
        } else {
            DisconnectStage::Quarantined
        },
        DisconnectStage::PurgeMerger => if succeeded {
            kill_from(0, sessions)
        } else {
            DisconnectStage::Quarantined
        },
        DisconnectStage::Kill { session } => if succeeded {
            kill_from((session + 1) as nat, sessions)
        } else {
            DisconnectStage::SendDisconnect
        },
        DisconnectStage::SendDisconnect => if !succeeded {
            DisconnectStage::Quarantined
        } else if leased {
            DisconnectStage::AwaitAck
        } else {
            DisconnectStage::Released
        },
        DisconnectStage::AwaitAck => if succeeded {
            DisconnectStage::Released
        } else {
            DisconnectStage::Quarantined
        },
        other => other,
    }
}

/// Begin to disconnect a client with this many sessions.
pub fn begin_disconnect(dual_port: bool, sessions: usize) -> (stage: DisconnectStage)
    ensures
        stage == disconnect_begin(dual_port, sessions as nat),
{
    if dual_port {
        DisconnectStage::PurgeBulk
    } else if sessions > 0 {
        DisconnectStage::Kill { session: 0 }
    } else {
        DisconnectStage::SendDisconnect
    }
}

/// Go on with a disconnect.
pub fn disconnect_step(
    stage: DisconnectStage,
    leased: bool,
    sessions: usize,
    succeeded: bool,
) -> (next: DisconnectStage)
    requires
        stage matches DisconnectStage::Kill { session } ==> session < sessions,
    ensures
        next == disconnect_next(stage, leased, sessions as nat, succeeded),
        next matches DisconnectStage::Kill { session } ==> session < sessions,
{
    match stage {
        DisconnectStage::PurgeBulk => if succeeded {
            DisconnectStage::PurgeMerger
        } else {
            DisconnectStage::Quarantined
        },
        DisconnectStage::PurgeMerger => if !succeeded {
            DisconnectStage::Quarantined
        } else if sessions > 0 {
            DisconnectStage::Kill { session: 0 }
        } else {
            DisconnectStage::SendDisconnect
        },
        DisconnectStage::Kill { session } => if succeeded && session + 1 < sessions {
            DisconnectStage::Kill { session: session + 1 }
        } else {
            DisconnectStage::SendDisconnect
        },
        DisconnectStage::SendDisconnect => if !succeeded {
            DisconnectStage::Quarantined
        } else if leased {
            DisconnectStage::AwaitAck
        } else {
            DisconnectStage::Released
        },
        DisconnectStage::AwaitAck => if succeeded {
            DisconnectStage::Released
        } else {
            DisconnectStage::Quarantined
        },
        other => other,
    }
}

/// A leased range is reused only behind its acknowledgement, an unleased one only behind its
/// disconnect; a quarantined slot stays quarantined.
pub proof fn slot_is_released_last(stage: DisconnectStage, leased: bool, sessions: nat, succeeded: bool)
    ensures
        stage != DisconnectStage::Released && disconnect_next(stage, leased, sessions, succeeded)
            == DisconnectStage::Released ==> succeeded && (if leased {
            stage == DisconnectStage::AwaitAck
        } else {
            stage == DisconnectStage::AwaitAck || stage == DisconnectStage::SendDisconnect
        }),
        disconnect_next(DisconnectStage::Quarantined, leased, sessions, succeeded)
            == DisconnectStage::Quarantined,
{
}

/// A disconnected leased owner whose untagged control output is still being drained. `C` is what
/// waits for the acknowledgement.
pub struct PendingDisconnect<C> {
    pub id_start: u32,
    pub id_end: u32,
    pub completion: C,
}

/// The guest's acknowledgement of a disconnect.
#[derive(Clone, Copy, Debug, PartialEq, Eq, Structural)]
pub struct DisconnectAck {
    pub id_start: u32,
    pub id_end: u32,
    pub incarnation: ClientIncarnation,
}

/// Why a disconnect or its acknowledgement is refused.
#[derive(Clone, Copy, Debug, PartialEq, Eq, Structural)]
pub enum DisconnectError {
    DuplicatePending,
    UnexpectedAck,
    RangeMismatch { ack_start: u32, ack_end: u32, start: u32, end: u32 },
}

impl DisconnectError {
    pub open spec fn text(self) -> Seq<char> {
        match self {
            DisconnectError::DuplicatePending => "duplicate pending client incarnation"@,
            DisconnectError::UnexpectedAck => "agent relay: unexpected client disconnect acknowledgement"@,
            DisconnectError::RangeMismatch { ack_start, ack_end, start, end } =>
                "agent relay: disconnect acknowledgement range ["@ + decimal(ack_start as nat)
                + ", "@ + decimal(ack_end as nat) + ") does not match pending ["@ + decimal(
                start as nat,
            ) + ", "@ + decimal(end as nat) + ")"@,
        }
    }

    pub fn message(&self) -> (text: String)
        ensures
            text@ == self.text(),
    {
        match self {
            DisconnectError::DuplicatePending => String::from_str(
                "duplicate pending client incarnation",
            ),
            DisconnectError::UnexpectedAck => String::from_str(
                "agent relay: unexpected client disconnect acknowledgement",
            ),
            DisconnectError::RangeMismatch { ack_start, ack_end, start, end } => {
                let mut text = numbered_pair(
                    "agent relay: disconnect acknowledgement range [",
                    *ack_start as u64,
                    ", ",
                    *ack_end as u64,
                    ") does not match pending [",
                );
                push_decimal(&mut text, *start as u64);
                text.append(", ");
                push_decimal(&mut text, *end as u64);
                text.append(")");
                text
            },
        }
    }
}

/// The owners whose disconnect is not acknowledged yet.
pub struct PendingDisconnects<C> {
    entries: HashMap<ClientIncarnation, PendingDisconnect<C>>,
}

impl<C> View for PendingDisconnects<C> {
    type V = Map<ClientIncarnation, PendingDisconnect<C>>;

    closed spec fn view(&self) -> Map<ClientIncarnation, PendingDisconnect<C>> {
        self.entries@
    }
}

impl<C> PendingDisconnects<C> {
    pub fn new() -> (pending: PendingDisconnects<C>)
        ensures
            pending@ == Map::<ClientIncarnation, PendingDisconnect<C>>::empty(),
    {
        broadcast use group_hash_axioms;

        PendingDisconnects { entries: HashMap::new() }
    }

    /// How many disconnects are under way.
    pub fn len(&self) -> (len: usize)
        ensures
            self@.dom().finite(),
            len == self@.dom().len(),
    {
        broadcast use group_hash_axioms;

        self.entries.len()
    }

    pub fn contains(&self, incarnation: ClientIncarnation) -> (found: bool)
        ensures
            found == self@.contains_key(incarnation),
    {
        broadcast use group_hash_axioms;

        self.entries.contains_key(&incarnation)
    }

    /// Register the acknowledgement of an owner before its disconnect is sent.
    pub fn begin_relay_client_disconnect(
        &mut self,
        incarnation: ClientIncarnation,
        id_start: u32,
        id_end: u32,
        completion: C,
    ) -> (result: Result<(), DisconnectError>)
        ensures
            if old(self)@.contains_key(incarnation) {
                &&& result == Err::<(), DisconnectError>(DisconnectError::DuplicatePending)
                &&& final(self)@ == old(self)@
            } else {
                &&& result is Ok
                &&& final(self)@ == old(self)@.insert(
                    incarnation,
                    PendingDisconnect { id_start, id_end, completion },
                )
            },
    {
        broadcast use group_hash_axioms;

        if self.entries.contains_key(&incarnation) {
            return Err(DisconnectError::DuplicatePending);
        }
        self.entries.insert(incarnation, PendingDisconnect { id_start, id_end, completion });
        Ok(())
    }

    /// The disconnect could not be sent: nothing will be acknowledged.
    pub fn abandon(&mut self, incarnation: ClientIncarnation)
        ensures
            final(self)@ == old(self)@.remove(incarnation),
    {
        broadcast use group_hash_axioms;

        self.entries.remove(&incarnation);
    }

    /// Complete exactly one quarantined ownership period after its reverse control-lane cut.
    pub fn complete_relay_client_disconnect(&mut self, ack: DisconnectAck) -> (result: Result<
        C,
        DisconnectError,
    >)
        ensures
            final(self)@ == old(self)@.remove(ack.incarnation),
            if !old(self)@.contains_key(ack.incarnation) {
                result == Err::<C, DisconnectError>(DisconnectError::UnexpectedAck)
            } else {
                let pending = old(self)@[ack.incarnation];
                if pending.id_start != ack.id_start || pending.id_end != ack.id_end {
                    result == Err::<C, DisconnectError>(
                        DisconnectError::RangeMismatch {
                            ack_start: ack.id_start,
                            ack_end: ack.id_end,
                            start: pending.id_start,
                            end: pending.id_end,
                        },
                    )
                } else {
                    result == Ok::<C, DisconnectError>(pending.completion)
                }
            },
    {
        broadcast use group_hash_axioms;

        match self.entries.remove(&ack.incarnation) {
            None => {
                assert(self@ =~= old(self)@.remove(ack.incarnation));
                Err(DisconnectError::UnexpectedAck)
            },
            Some(pending) => {
                if pending.id_start != ack.id_start || pending.id_end != ack.id_end {
                    return Err(
                        DisconnectError::RangeMismatch {
                            ack_start: ack.id_start,
                            ack_end: ack.id_end,
                            start: pending.id_start,
                            end: pending.id_end,
                        },
                    );
                }
                Ok(pending.completion)
            },
        }
    }
}

/// A client's open bulk operations when the transport fails.
pub struct OpenOperations {
    pub incarnation: Option<ClientIncarnation>,
    pub operations: Vec<(u32, BulkKind)>,
}

/// One operation that must be failed.
#[derive(Clone, Copy, Debug, PartialEq, Eq, Structural)]
pub struct FailedOperation {
    pub incarnation: Option<ClientIncarnation>,
    pub id: u32,
    pub kind: BulkKind,
}

/// The operations of all clients in a row.
pub open spec fn all_operations(clients: Seq<OpenOperations>) -> Seq<FailedOperation>
    decreases clients.len(),
{
    if clients.len() == 0 {
        Seq::empty()
    } else {
        all_operations(clients.drop_last()) + Seq::new(
            clients.last().operations@.len(),
            |i: int|
                FailedOperation {
                    incarnation: clients.last().incarnation,
                    id: clients.last().operations@[i].0,
                    kind: clients.last().operations@[i].1,
                },
        )
    }
}

/// Ordered by correlation ID.
pub open spec fn ordered_by_id(operations: Seq<FailedOperation>) -> bool {
    forall|i: int, j: int|
        0 <= i < j < operations.len() ==> (#[trigger] operations[i]).id <= (
        #[trigger] operations[j]).id
}

fn insert_ordered(operations: &mut Vec<FailedOperation>, operation: FailedOperation)
    requires
        ordered_by_id(old(operations)@),
    ensures
        ordered_by_id(final(operations)@),
        final(operations)@.to_multiset() == old(operations)@.to_multiset().insert(operation),
{
    broadcast use vstd::seq_lib::group_to_multiset_ensures;

    let ghost before = operations@;
    let mut at: usize = operations.len();
    while at > 0 && operations[at - 1].id > operation.id
        invariant
            at <= operations@.len(),
            operations@ == before,
            forall|i: int| at <= i < before.len() ==> (#[trigger] before[i]).id > operation.id,
        decreases at,
    {
        at = at - 1;
    }
    operations.insert(at, operation);
    proof {
        let after = operations@;
        assert forall|i: int, j: int| 0 <= i < j < after.len() implies (#[trigger] after[i]).id <= (
        #[trigger] after[j]).id by {
            if at > 0 && i < at {
                assert(before[i].id <= before[at - 1].id);
            }
            if j < at {
                assert(after[i] == before[i] && after[j] == before[j]);
            } else if j > at && i > at {
                assert(after[i] == before[i - 1] && after[j] == before[j - 1]);
            } else if j > at && i < at {
                assert(after[i] == before[i] && after[j] == before[j - 1]);
            } else if j > at {
                assert(after[j] == before[j - 1]);
            }
        }
        vstd::seq_lib::to_multiset_insert(before, at as int, operation);
    }
}

/// Whether to wait on for the terminals of failed operations: as long as they can still be observed
/// and any client has an operation open.
pub fn awaits_terminals(clients: &Vec<OpenOperations>, can_observe: bool) -> (waits: bool)
    ensures
        waits == (can_observe && exists|c: int|
            0 <= c < clients@.len() && (#[trigger] clients@[c]).operations@.len() > 0),
{
    if !can_observe {
        return false;
    }
    let mut c: usize = 0;
    while c < clients.len()
        invariant
            can_observe,
            c <= clients@.len(),
            forall|k: int| 0 <= k < c ==> (#[trigger] clients@[k]).operations@.len() == 0,
        decreases clients@.len() - c,
    {
        if clients[c].operations.len() > 0 {
            assert(clients@[c as int].operations@.len() > 0);
            return true;
        }
        c = c + 1;
    }
    false
}

/// Every active bulk operation, ordered by correlation ID, for its typed cancellation.
pub fn operations_to_fail(clients: &Vec<OpenOperations>) -> (operations: Vec<FailedOperation>)
    ensures
        ordered_by_id(operations@),
        forall|i: int, j: int|
            0 <= i < j < operations@.len() ==> (#[trigger] operations@[i]).id <= (
            #[trigger] operations@[j]).id,
        operations@.to_multiset() == all_operations(clients@).to_multiset(),
{
    broadcast use vstd::seq_lib::group_to_multiset_ensures;

    let mut operations: Vec<FailedOperation> = Vec::new();
    let mut c: usize = 0;
    assert(all_operations(clients@.subrange(0, 0)) =~= Seq::empty());
    while c < clients.len()
        invariant
            c <= clients@.len(),
            ordered_by_id(operations@),
            operations@.to_multiset() == all_operations(
                clients@.subrange(0, c as int),
            ).to_multiset(),
        decreases clients@.len() - c,
    {
        let ghost front = all_operations(clients@.subrange(0, c as int));
        let client = &clients[c];
        let ghost all = Seq::new(
            client.operations@.len(),
            |i: int|
                FailedOperation {
                    incarnation: client.incarnation,
                    id: client.operations@[i].0,
                    kind: client.operations@[i].1,
                },
        );
        let mut i: usize = 0;
        assert(front + all.subrange(0, 0) =~= front);
        while i < client.operations.len()
            invariant
                i <= client.operations@.len(),
                all == Seq::new(
                    client.operations@.len(),
                    |k: int|
                        FailedOperation {
                            incarnation: client.incarnation,
                            id: client.operations@[k].0,
                            kind: client.operations@[k].1,
                        },
                ),
                ordered_by_id(operations@),
                operations@.to_multiset() == (front + all.subrange(0, i as int)).to_multiset(),
            decreases client.operations@.len() - i,
        {
            let operation = FailedOperation {
                incarnation: client.incarnation,
                id: client.operations[i].0,
                kind: client.operations[i].1,
            };
            proof {
                broadcast use vstd::seq_lib::group_to_multiset_ensures;

                assert(front + all.subrange(0, i + 1) =~= (front + all.subrange(
                    0,
                    i as int,
                )).push(operation));
            }
            insert_ordered(&mut operations, operation);
            i = i + 1;
        }
        proof {
            assert(all.subrange(0, i as int) =~= all);
            assert(clients@.subrange(0, c + 1).drop_last() =~= clients@.subrange(0, c as int));
            assert(clients@.subrange(0, c + 1).last() == clients@[c as int]);
            assert(all_operations(clients@.subrange(0, c + 1)) =~= front + all);
        }
        c = c + 1;
    }
    assert(clients@.subrange(0, c as int) =~= clients@);
    operations
}

/// How one operation is failed.
#[derive(Clone, Copy, Debug, PartialEq, Eq, Structural)]
pub enum FailureStep {
    /// Purge the merger of this owner's operation first, where one is named; then publish the
    /// typed cancellation and wait for its physical admission.
    Cancel { purge: Option<ClientIncarnation>, id: u32, kind: BulkKind },
    /// A dual-port operation without an owner: give up.
    MissingIncarnation,
}

/// The step for one operation. Its purge keeps old bytes from surviving the cancellation, and is
/// only possible while the lanes can still be observed.
pub fn failure_step(operation: FailedOperation, wait_for_terminals: bool) -> (step: FailureStep)
    ensures
        step == if !wait_for_terminals {
            FailureStep::Cancel { purge: None, id: operation.id, kind: operation.kind }
        } else if operation.incarnation is None {
            FailureStep::MissingIncarnation
        } else {
            FailureStep::Cancel {
                purge: operation.incarnation,
                id: operation.id,
                kind: operation.kind,
            }
        },
{
    if !wait_for_terminals {
        return FailureStep::Cancel { purge: None, id: operation.id, kind: operation.kind };
    }
    match operation.incarnation {
        None => FailureStep::MissingIncarnation,
        Some(incarnation) => FailureStep::Cancel {
            purge: Some(incarnation),
            id: operation.id,
            kind: operation.kind,
        },
    }
}

/// A disconnect clears the scheduler, then the merger, kills every session in turn, then sends the
/// disconnect and waits for what acknowledges it. Without lanes of its own it begins with the
/// sessions. A session that cannot be killed ends the killing, not the disconnect; what cannot be
/// cleared, sent or acknowledged leaves the slot in use.
pub proof fn disconnect_takes_every_step(leased: bool, sessions: nat, session: nat)
    requires
        sessions <= usize::MAX,
        session < sessions,
    ensures
        disconnect_begin(true, sessions) == DisconnectStage::PurgeBulk,
        disconnect_begin(false, sessions) == (DisconnectStage::Kill { session: 0 }),
        disconnect_begin(false, 0) == DisconnectStage::SendDisconnect,
        disconnect_next(DisconnectStage::PurgeBulk, leased, sessions, true)
            == DisconnectStage::PurgeMerger,
        disconnect_next(DisconnectStage::PurgeMerger, leased, sessions, true) == (
        DisconnectStage::Kill { session: 0 }),
        disconnect_next(DisconnectStage::PurgeMerger, leased, 0, true)
            == DisconnectStage::SendDisconnect,
        session + 1 < sessions ==> disconnect_next(
            DisconnectStage::Kill { session: session as usize },
            leased,
            sessions,
            true,
        ) == (DisconnectStage::Kill { session: (session + 1) as usize }),
        session + 1 == sessions ==> disconnect_next(
            DisconnectStage::Kill { session: session as usize },
            leased,
            sessions,
            true,
        ) == DisconnectStage::SendDisconnect,
        disconnect_next(
            DisconnectStage::Kill { session: session as usize },
            leased,
            sessions,
            false,
        ) == DisconnectStage::SendDisconnect,
        disconnect_next(DisconnectStage::SendDisconnect, true, sessions, true)
            == DisconnectStage::AwaitAck,
        disconnect_next(DisconnectStage::SendDisconnect, false, sessions, true)
            == DisconnectStage::Released,
        disconnect_next(DisconnectStage::AwaitAck, leased, sessions, true)
            == DisconnectStage::Released,
        disconnect_next(DisconnectStage::Released, leased, sessions, true)
            == DisconnectStage::Released,
        disconnect_next(DisconnectStage::Released, leased, sessions, false)
            == DisconnectStage::Released,
        forall|stage: DisconnectStage|
            stage == DisconnectStage::PurgeBulk || stage == DisconnectStage::PurgeMerger || stage
                == DisconnectStage::SendDisconnect || stage == DisconnectStage::AwaitAck
                ==> #[trigger] disconnect_next(stage, leased, sessions, false)
                == DisconnectStage::Quarantined,
        forall|stage: DisconnectStage|
            #[trigger] disconnect_next(stage, leased, sessions, true)
                == DisconnectStage::Quarantined ==> stage == DisconnectStage::Quarantined,
{
}

/// Every open operation of every client is failed, under its own ID, kind and owner, and nothing
/// else is.
pub proof fn open_operations_are_all_failed(
    clients: Seq<OpenOperations>,
    operation: FailedOperation,
)
    ensures
        all_operations(clients).contains(operation) <==> exists|c: int, i: int|
            #![trigger clients[c].operations@[i]]
            0 <= c < clients.len() && 0 <= i < clients[c].operations@.len()
                && clients[c].operations@[i] == (operation.id, operation.kind)
                && clients[c].incarnation == operation.incarnation,
    decreases clients.len(),
{
    if clients.len() > 0 {
        let front = clients.drop_last();
        let last = clients.last();
        let own = Seq::new(
            last.operations@.len(),
            |i: int|
                FailedOperation {
                    incarnation: last.incarnation,
                    id: last.operations@[i].0,
                    kind: last.operations@[i].1,
                },
        );
        open_operations_are_all_failed(front, operation);
        let all = all_operations(clients);
        assert(all == all_operations(front) + own);
        if all.contains(operation) {
            let k = choose|k: int| 0 <= k < all.len() && all[k] == operation;
            if k < all_operations(front).len() {
                assert(all_operations(front)[k] == operation);
                let (c, i) = choose|c: int, i: int|
                    #![trigger front[c].operations@[i]]
                    0 <= c < front.len() && 0 <= i < front[c].operations@.len()
                        && front[c].operations@[i] == (operation.id, operation.kind)
                        && front[c].incarnation == operation.incarnation;
                assert(clients[c].operations@[i] == (operation.id, operation.kind));
            } else {
                let i = k - all_operations(front).len();
                assert(own[i] == operation);
                assert(clients[clients.len() - 1].operations@[i] == (operation.id, operation.kind));
            }
        }
        if exists|c: int, i: int|
            #![trigger clients[c].operations@[i]]
            0 <= c < clients.len() && 0 <= i < clients[c].operations@.len()
                && clients[c].operations@[i] == (operation.id, operation.kind)
                && clients[c].incarnation == operation.incarnation {
            let (c, i) = choose|c: int, i: int|
                #![trigger clients[c].operations@[i]]
                0 <= c < clients.len() && 0 <= i < clients[c].operations@.len()
                    && clients[c].operations@[i] == (operation.id, operation.kind)
                    && clients[c].incarnation == operation.incarnation;
            if c < front.len() {
                assert(front[c].operations@[i] == (operation.id, operation.kind));
                let k = choose|k: int|
                    0 <= k < all_operations(front).len() && all_operations(front)[k] == operation;
                assert(all[k] == operation);
            } else {
                assert(own[i] == operation);
                assert(all[all_operations(front).len() + i] == operation);
            }
        }
    }
}

} // verus!
