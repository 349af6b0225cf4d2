//! Ordering of host-to-guest control writes: which write may overtake which, and which one goes
//! next.

use std::collections::VecDeque;

use vstd::prelude::*;
use vstd::string::*;

use crate::wire::BulkFlow;
use crate::wire::BulkKind;
use crate::wire::WireProfile;

verus! {

/// Separate admission reserves share one FIFO. Reservations survive dequeue and physical writes,
/// so credit-starved payload cannot consume the space needed by another client's metadata.
pub const AGENT_WRITE_CLASS_FRAMES: usize = 8;

/// Frames of both classes together.
pub const AGENT_WRITE_CHANNEL_CAPACITY: usize = 16;

pub const AGENT_WRITE_DATA_BYTES: usize = 32 * 1024 * 1024;

pub const AGENT_WRITE_CONTROL_BYTES: usize = 8 * 1024 * 1024;

/// A client lease transition fences its range; shutdown and unattributed internal traffic fence
/// the whole FIFO. Ordinary correlations may bypass only unrelated blocked payload.
#[derive(Clone, Copy, Debug, PartialEq, Eq, Structural)]
pub enum ControlOrder {
    Correlation(u32),
    MaintenanceClock,
    TcpInputData(u32),
    TcpInputFinish(u32),
    TcpOutputCredit(u32),
    ClientFence { start: u32, end: u32 },
    GlobalFence,
}

impl ControlOrder {
    /// The order belongs to one correlation.
    pub open spec fn has_id(self) -> bool {
        !(self is MaintenanceClock || self is ClientFence || self is GlobalFence)
    }

    pub open spec fn id_spec(self) -> u32 {
        match self {
            ControlOrder::Correlation(id) => id,
            ControlOrder::TcpInputData(id) => id,
            ControlOrder::TcpInputFinish(id) => id,
            ControlOrder::TcpOutputCredit(id) => id,
            _ => 0,
        }
    }

    /// Whether a write of order `other` must stay behind an earlier write of this order.
    pub open spec fn blocks(self, other: ControlOrder) -> bool {
        if self is GlobalFence || other is GlobalFence {
            true
        } else if self is MaintenanceClock || other is MaintenanceClock {
            self is MaintenanceClock && other is MaintenanceClock
        } else {
            match (self, other) {
                (
                    ControlOrder::ClientFence { start: a, end: b },
                    ControlOrder::ClientFence { start: c, end: d },
                ) => a < d && c < b,
                (ControlOrder::ClientFence { start, end }, _) => start <= other.id_spec() < end,
                (_, ControlOrder::ClientFence { start, end }) => start <= self.id_spec() < end,
                _ => self.id_spec() == other.id_spec() && !((self is TcpInputData
                    || self is TcpInputFinish) && other is TcpOutputCredit),
            }
        }
    }

    pub fn id(self) -> (id: u32)
        requires
            self.has_id(),
        ensures
            id == self.id_spec(),
    {
        match self {
            ControlOrder::Correlation(id) => id,
            ControlOrder::TcpInputData(id) => id,
            ControlOrder::TcpInputFinish(id) => id,
            ControlOrder::TcpOutputCredit(id) => id,
            _ => 0,
        }
    }

    /// Whether a write of order `other` must stay behind an earlier write of this order.
    ///
    /// Credit advances the opposite (guest-to-host) producer, not these input bytes or their end
    /// marker. Reordering only the credit breaks a full-duplex credit cycle; input data and input
    /// finish still conflict with each other in their own order.
    pub fn conflicts(self, other: ControlOrder) -> (conflict: bool)
        ensures
            conflict == self.blocks(other),
    {
        match (self, other) {
            (ControlOrder::GlobalFence, _) => true,
            (_, ControlOrder::GlobalFence) => true,
            (ControlOrder::MaintenanceClock, ControlOrder::MaintenanceClock) => true,
            (ControlOrder::MaintenanceClock, _) => false,
            (_, ControlOrder::MaintenanceClock) => false,
            (
                ControlOrder::ClientFence { start: a, end: b },
                ControlOrder::ClientFence { start: c, end: d },
            ) => a < d && c < b,
            (ControlOrder::ClientFence { start, end }, correlation) => {
                let id: u32 = correlation.id();
                start <= id && id < end
            },
            (correlation, ControlOrder::ClientFence { start, end }) => {
                let id: u32 = correlation.id();
                start <= id && id < end
            },
            (ControlOrder::TcpInputData(_), ControlOrder::TcpOutputCredit(_)) => false,
            (ControlOrder::TcpInputFinish(_), ControlOrder::TcpOutputCredit(_)) => false,
            (a, b) => a.id() == b.id(),
        }
    }
}

/// Two writes keep their order in both directions, with one exception: a return credit may pass
/// input data and the input's end of the same connection, never the other way round.
pub proof fn only_return_credit_overtakes(a: ControlOrder, b: ControlOrder)
    ensures
        a.blocks(b) == b.blocks(a) || ((a is TcpOutputCredit && (b is TcpInputData
            || b is TcpInputFinish)) || (b is TcpOutputCredit && (a is TcpInputData
            || a is TcpInputFinish))) && a.id_spec() == b.id_spec(),
        a.has_id() && b.has_id() && a.id_spec() == b.id_spec() && !(b is TcpOutputCredit)
            ==> a.blocks(b),
{
}

/// A global fence keeps its place against every write, a client fence against every write of its
/// range.
pub proof fn fences_keep_their_place(fence: ControlOrder, other: ControlOrder)
    ensures
        fence is GlobalFence ==> fence.blocks(other) && other.blocks(fence),
        fence matches ControlOrder::ClientFence { start, end } ==> (other.has_id() && start
            <= other.id_spec() < end ==> fence.blocks(other) && other.blocks(fence)),
{
}

/// What a decoded control message says about an independent TCP flow. `None` where the payload
/// cannot be read.
#[derive(Clone, Copy, Debug)]
pub enum TcpMeta {
    BulkFinish(Option<(BulkKind, BulkFlow)>),
    BulkCredit(Option<CreditClaim>),
    Other,
}

/// A credit message's claim.
#[derive(Clone, Copy, Debug, PartialEq, Eq, Structural)]
pub struct CreditClaim {
    pub kind: BulkKind,
    pub flow: BulkFlow,
    pub consumed_offset: u64,
    pub credit_limit: u64,
}

/// The claim returns guest-to-host TCP credit within the protocol's window.
pub open spec fn is_return_credit(profile: WireProfile, claim: CreditClaim) -> bool {
    &&& claim.kind == BulkKind::Tcp
    &&& claim.flow == BulkFlow::GuestToHost
    &&& claim.credit_limit >= claim.consumed_offset
    &&& claim.credit_limit - claim.consumed_offset <= profile.max_bulk_window
}

/// One primary-lane write. `ticket` is what the sender gets back: its admission reservation and,
/// where it asked for one, a receipt for physical admission.
pub struct ControlWrite<T> {
    pub data: Vec<u8>,
    pub uses_data_credit: bool,
    pub order: ControlOrder,
    pub ticket: T,
}

/// The order of a write for `id` with these bytes.
pub open spec fn ordinary_order(profile: WireProfile, data: Seq<u8>, id: u32) -> ControlOrder {
    if id == 0 || (data.len() > 8 && data[8] & profile.flag_shutdown != 0) {
        ControlOrder::GlobalFence
    } else {
        ControlOrder::Correlation(id)
    }
}

/// The order of a write once its content is known.
pub open spec fn classified_order(
    profile: WireProfile,
    order: ControlOrder,
    id: u32,
    raw: Option<(BulkKind, BulkFlow, u64, usize)>,
    message: Option<TcpMeta>,
) -> ControlOrder {
    if order is GlobalFence {
        order
    } else if raw matches Some((kind, flow, _, _)) && kind == BulkKind::Tcp && flow
        == BulkFlow::HostToGuest {
        ControlOrder::TcpInputData(id)
    } else {
        match message {
            Some(TcpMeta::BulkFinish(Some((BulkKind::Tcp, BulkFlow::HostToGuest)))) => {
                ControlOrder::TcpInputFinish(id)
            },
            Some(TcpMeta::BulkCredit(Some(claim))) => if is_return_credit(profile, claim) {
                ControlOrder::TcpOutputCredit(id)
            } else {
                order
            },
            _ => order,
        }
    }
}

/// Whether unattributed bytes are a raw record, which uses the guest's data credit.
pub open spec fn is_raw_record(profile: WireProfile, data: Seq<u8>) -> bool {
    data.len() > 8 && data[8] == profile.flag_bulk
}

impl<T> ControlWrite<T> {
    /// Unattributed internal traffic: a fence for everything behind it.
    pub fn fence(profile: &WireProfile, data: Vec<u8>, ticket: T) -> (write: ControlWrite<T>)
        ensures
            write.data == data,
            write.uses_data_credit == is_raw_record(*profile, data@),
            write.uses_data_credit <==> data@.len() >= 9 && data@[8] == profile.flag_bulk,
            write.order == ControlOrder::GlobalFence,
            write.ticket == ticket,
    {
        let uses_data_credit = data.len() > 8 && data[8] == profile.flag_bulk;
        ControlWrite { data, uses_data_credit, order: ControlOrder::GlobalFence, ticket }
    }

    /// A clock update. `reserved` is the frame with the largest timestamp: it reserves the bytes,
    /// and the scheduler replaces it before charging transport bytes, so queued time is never
    /// replayed after a long pause.
    pub fn clock_sync(profile: &WireProfile, reserved: Vec<u8>, ticket: T) -> (write: ControlWrite<T>)
        ensures
            write.data == reserved,
            write.uses_data_credit == is_raw_record(*profile, reserved@),
            write.uses_data_credit <==> reserved@.len() >= 9 && reserved@[8] == profile.flag_bulk,
            write.order == ControlOrder::MaintenanceClock,
            write.ticket == ticket,
    {
        let mut write = ControlWrite::fence(profile, reserved, ticket);
        write.order = ControlOrder::MaintenanceClock;
        write
    }

    /// A frame of one correlation; a frame with ID 0 or the shutdown flag fences everything.
    pub fn ordinary(
        profile: &WireProfile,
        data: Vec<u8>,
        id: u32,
        uses_data_credit: bool,
        ticket: T,
    ) -> (write: ControlWrite<T>)
        ensures
            write.data == data,
            write.uses_data_credit == uses_data_credit,
            write.order == ordinary_order(*profile, data@, id),
            write.ticket == ticket,
    {
        let order = if id == 0 || (data.len() > 8 && data[8] & profile.flag_shutdown != 0) {
            ControlOrder::GlobalFence
        } else {
            ControlOrder::Correlation(id)
        };
        ControlWrite { data, uses_data_credit, order, ticket }
    }

    /// A lease transition of the range `[start, end)`.
    pub fn client_fence(
        profile: &WireProfile,
        data: Vec<u8>,
        start: u32,
        end: u32,
        ticket: T,
    ) -> (write: ControlWrite<T>)
        ensures
            write.data == data,
            write.uses_data_credit == is_raw_record(*profile, data@),
            write.uses_data_credit <==> data@.len() >= 9 && data@[8] == profile.flag_bulk,
            write.order == (ControlOrder::ClientFence { start, end }),
            write.ticket == ticket,
    {
        let mut write = ControlWrite::fence(profile, data, ticket);
        write.order = ControlOrder::ClientFence { start, end };
        write
    }

    /// Only the independent TCP return-credit flow may cross ordered input. Raw metadata was
    /// already validated at the client boundary.
    pub fn classify_tcp_order(
        &mut self,
        profile: &WireProfile,
        id: u32,
        raw: Option<(BulkKind, BulkFlow, u64, usize)>,
        message: Option<TcpMeta>,
    )
        ensures
            *final(self) == (ControlWrite {
                order: classified_order(*profile, old(self).order, id, raw, message),
                ..*old(self)
            }),
    {
        if self.order == ControlOrder::GlobalFence {
            return ;
        }
        if let Some((BulkKind::Tcp, BulkFlow::HostToGuest, _, _)) = raw {
            self.order = ControlOrder::TcpInputData(id);
            return ;
        }
        match message {
            Some(TcpMeta::BulkFinish(Some((BulkKind::Tcp, BulkFlow::HostToGuest)))) => {
                self.order = ControlOrder::TcpInputFinish(id);
            },
            Some(TcpMeta::BulkCredit(Some(claim))) => {
                if claim.kind == BulkKind::Tcp && claim.flow == BulkFlow::GuestToHost
                    && claim.credit_limit >= claim.consumed_offset && claim.credit_limit
                    - claim.consumed_offset <= profile.max_bulk_window {
                    self.order = ControlOrder::TcpOutputCredit(id);
                }
            },
            _ => {},
        }
    }
}

/// The guest's transport credit, as the control lane sees it.
pub struct CreditGate {
    /// Set while a lifecycle change holds back ordinary input.
    pub gated: bool,
    /// Why no input can be admitted any more.
    pub failure: Option<String>,
    pub control_bytes: u64,
    pub control_frames: u64,
    pub data_bytes: u64,
    pub data_frames: u64,
}

/// Outcome of one admission attempt.
pub enum Attempt {
    Granted,
    Refused,
    Failed(String),
}

impl CreditGate {
    /// Whether credit lets a frame of this class and length now.
    pub open spec fn decide(self, uses_data_credit: bool, len: nat) -> Attempt {
        match self.failure {
            Some(reason) => Attempt::Failed(reason),
            None => if !self.gated && (if uses_data_credit {
                self.data_frames >= 1 && self.data_bytes >= len
            } else {
                self.control_frames >= 1 && self.control_bytes >= len
            }) {
                Attempt::Granted
            } else {
                Attempt::Refused
            },
        }
    }

    /// The credit that is left after a frame of this class and length went through.
    pub open spec fn charged(self, uses_data_credit: bool, len: nat) -> CreditGate {
        if uses_data_credit {
            CreditGate {
                data_frames: (self.data_frames - 1) as u64,
                data_bytes: (self.data_bytes - len) as u64,
                ..self
            }
        } else {
            CreditGate {
                control_frames: (self.control_frames - 1) as u64,
                control_bytes: (self.control_bytes - len) as u64,
                ..self
            }
        }
    }

    /// Charge one whole frame, or leave the credit as it is.
    pub fn try_charge(&mut self, uses_data_credit: bool, len: usize) -> (result: Result<bool, String>)
        ensures
            match old(self).decide(uses_data_credit, len as nat) {
                Attempt::Granted => result == Ok::<bool, String>(true) && *final(self)
                    == old(self).charged(uses_data_credit, len as nat),
                Attempt::Refused => result == Ok::<bool, String>(false) && *final(self)
                    == *old(self),
                Attempt::Failed(reason) => result == Err::<bool, String>(reason) && *final(self)
                    == *old(self),
            },
    {
        if let Some(reason) = &self.failure {
            return Err(reason.clone());
        }
        if self.gated {
            return Ok(false);
        }
        if uses_data_credit {
            if self.data_frames < 1 || self.data_bytes < len as u64 {
                return Ok(false);
            }
            self.data_frames = self.data_frames - 1;
            self.data_bytes = self.data_bytes - len as u64;
        } else {
            if self.control_frames < 1 || self.control_bytes < len as u64 {
                return Ok(false);
            }
            self.control_frames = self.control_frames - 1;
            self.control_bytes = self.control_bytes - len as u64;
        }
        Ok(true)
    }
}

/// A fresh clock frame for this scheduling attempt.
pub struct ClockAttempt {
    /// The frame with the current time, or why it cannot be encoded.
    pub frame: Result<Vec<u8>, String>,
    /// Whether the console ring can take the frame now; `None` where there is no ring to ask.
    pub fits: Option<bool>,
}

/// The write with its clock frame refreshed.
pub open spec fn refreshed<T>(write: ControlWrite<T>, clock: ClockAttempt) -> ControlWrite<T> {
    match (write.order, clock.frame) {
        (ControlOrder::MaintenanceClock, Ok(frame)) => ControlWrite { data: frame, ..write },
        _ => write,
    }
}

/// The attempt is stopped by a full ring before any credit is asked for.
pub open spec fn ring_full<T>(write: ControlWrite<T>, clock: ClockAttempt) -> bool {
    write.order is MaintenanceClock && clock.frame is Ok && clock.fits == Some(false)
}

/// Outcome of trying to let `write` through now.
pub open spec fn attempt<T>(
    write: ControlWrite<T>,
    gate: CreditGate,
    clock: ClockAttempt,
) -> Attempt {
    if write.order is MaintenanceClock && clock.frame is Err {
        Attempt::Failed(clock.frame->Err_0)
    } else if ring_full(write, clock) {
        Attempt::Refused
    } else {
        gate.decide(write.uses_data_credit, refreshed(write, clock).data@.len())
    }
}

/// Try one write. A clock is refreshed before each attempt, including retries after a pause, and
/// the actual length is charged rather than the reserved maximum. The result says whether the
/// write is admitted and whether it waits for ring capacity.
pub fn admit_control_write<T>(
    write: &mut ControlWrite<T>,
    gate: &mut CreditGate,
    clock: &ClockAttempt,
) -> (result: Result<(bool, bool), String>)
    ensures
        final(write).data@ == refreshed(*old(write), *clock).data@,
        final(write).uses_data_credit == old(write).uses_data_credit,
        final(write).order == old(write).order,
        final(write).ticket == old(write).ticket,
        match attempt(*old(write), *old(gate), *clock) {
            Attempt::Granted => result == Ok::<(bool, bool), String>((true, false)) && *final(gate)
                == old(gate).charged(
                old(write).uses_data_credit,
                refreshed(*old(write), *clock).data@.len(),
            ),
            Attempt::Refused => result == Ok::<(bool, bool), String>(
                (false, ring_full(*old(write), *clock) && !old(gate).gated),
            ) && *final(gate) == *old(gate),
            Attempt::Failed(reason) => result == Err::<(bool, bool), String>(reason)
                && *final(gate) == *old(gate),
        },
{
    if write.order == ControlOrder::MaintenanceClock {
        match &clock.frame {
            Err(reason) => {
                return Err(reason.clone());
            },
            Ok(frame) => {
                write.data = frame.clone();
                assert(write.data@ =~= frame@);
            },
        }
        if let Some(fits) = clock.fits {
            if !fits {
                return Ok((false, !gate.gated));
            }
        }
    }
    match gate.try_charge(write.uses_data_credit, write.data.len()) {
        Ok(admitted) => Ok((admitted, false)),
        Err(reason) => Err(reason),
    }
}

/// A queued write, apart from the placeholder bytes of a clock, which are replaced anyway.
pub struct Queued<T> {
    pub data: Seq<u8>,
    pub uses_data_credit: bool,
    pub order: ControlOrder,
    pub ticket: T,
}

/// The write as it will be sent with this clock.
pub open spec fn queued<T>(write: ControlWrite<T>, clock: ClockAttempt) -> Queued<T> {
    Queued {
        data: refreshed(write, clock).data@,
        uses_data_credit: write.uses_data_credit,
        order: write.order,
        ticket: write.ticket,
    }
}

/// All queued writes as they will be sent with this clock.
pub open spec fn queue_view<T>(pending: Seq<ControlWrite<T>>, clock: ClockAttempt) -> Seq<Queued<T>> {
    Seq::new(pending.len(), |i: int| queued(pending[i], clock))
}

/// Outcome of trying a queued write.
pub open spec fn attempt_queued<T>(
    write: Queued<T>,
    gate: CreditGate,
    clock: ClockAttempt,
) -> Attempt {
    if write.order is MaintenanceClock && clock.frame is Err {
        Attempt::Failed(clock.frame->Err_0)
    } else if write.order is MaintenanceClock && clock.fits == Some(false) {
        Attempt::Refused
    } else {
        gate.decide(write.uses_data_credit, write.data.len())
    }
}

/// A write behind the head may go first only if it is metadata and no earlier write blocks it.
pub open spec fn may_overtake<T>(pending: Seq<Queued<T>>, i: int) -> bool {
    &&& !pending[i].uses_data_credit
    &&& forall|j: int| 0 <= j < i ==> !(#[trigger] pending[j]).order.blocks(pending[i].order)
}

/// Which write goes next.
pub enum Choice {
    Take(int),
    Nothing,
    Fail(String),
}

/// The first write from position `from` on that may overtake and is let through.
pub open spec fn overtaker<T>(
    pending: Seq<Queued<T>>,
    gate: CreditGate,
    clock: ClockAttempt,
    from: int,
) -> Choice
    decreases pending.len() - from,
{
    if from < 0 || from >= pending.len() {
        Choice::Nothing
    } else if !may_overtake(pending, from) {
        overtaker(pending, gate, clock, from + 1)
    } else {
        match attempt_queued(pending[from], gate, clock) {
            Attempt::Granted => Choice::Take(from),
            Attempt::Refused => overtaker(pending, gate, clock, from + 1),
            Attempt::Failed(reason) => Choice::Fail(reason),
        }
    }
}

/// The write that goes next: the head, or, where the guest's data credit blocks the head, the
/// first unrelated metadata.
pub open spec fn choose_write<T>(
    pending: Seq<Queued<T>>,
    gate: CreditGate,
    clock: ClockAttempt,
) -> Choice {
    if pending.len() == 0 {
        Choice::Nothing
    } else {
        match attempt_queued(pending[0], gate, clock) {
            Attempt::Granted => Choice::Take(0),
            Attempt::Failed(reason) => Choice::Fail(reason),
            Attempt::Refused => if !pending[0].uses_data_credit || gate.gated {
                Choice::Nothing
            } else {
                overtaker(pending, gate, clock, 1)
            },
        }
    }
}

/// A clock that was tried could not be sent because the ring is full.
pub open spec fn clock_waits<T>(
    pending: Seq<Queued<T>>,
    gate: CreditGate,
    clock: ClockAttempt,
    stop: int,
) -> bool {
    &&& !gate.gated
    &&& clock.frame is Ok
    &&& clock.fits == Some(false)
    &&& exists|i: int|
        0 <= i < stop && i < pending.len() && (#[trigger] pending[i]).order is MaintenanceClock && (
        i == 0 || (pending[0].uses_data_credit && may_overtake(pending, i)))
}

/// Keep the common FIFO path constant-time. Only a credit-blocked payload head enables a bounded
/// scan for unrelated metadata or independent TCP return credit. Input/finish order and all
/// cancellation, opening, lease and global fences remain intact.
///
/// The flag beside the selected write says that a clock waits for ring capacity.
pub fn select_control_write<T>(
    pending: &mut VecDeque<ControlWrite<T>>,
    gate: &mut CreditGate,
    clock: &ClockAttempt,
) -> (result: Result<(Option<ControlWrite<T>>, bool), String>)
    ensures
        ({
            let before = queue_view(old(pending)@, *clock);
            let after = queue_view(final(pending)@, *clock);
            let choice = choose_write(before, *old(gate), *clock);
            match choice {
                Choice::Take(i) => {
                    &&& 0 <= i < before.len()
                    &&& result matches Ok((Some(write), waits))
                    &&& queued(write, *clock) == before[i]
                    &&& write.data@ == before[i].data
                    &&& waits == clock_waits(before, *old(gate), *clock, i)
                    &&& after == before.remove(i)
                    &&& *final(gate) == old(gate).charged(
                        before[i].uses_data_credit,
                        before[i].data.len(),
                    )
                },
                Choice::Nothing => {
                    &&& result matches Ok((None, waits))
                    &&& waits == clock_waits(before, *old(gate), *clock, before.len() as int)
                    &&& after == before
                    &&& *final(gate) == *old(gate)
                },
                Choice::Fail(reason) => {
                    &&& result matches Err(e)
                    &&& e == reason
                    &&& after == before
                    &&& *final(gate) == *old(gate)
                },
            }
        }),
{
    let ghost before = queue_view(pending@, *clock);
    let ghost start_gate = *gate;
    let head = match pending.pop_front() {
        Some(head) => head,
        None => {
            assert(queue_view(pending@, *clock) =~= before);
            return Ok((None, false));
        },
    };
    let mut head = head;
    let ghost head_view = queued(head, *clock);
    assert(before[0] == head_view);
    let tried = admit_control_write(&mut head, gate, clock);
    assert(queued(head, *clock) == head_view);
    let mut waits = false;
    match tried {
        Err(reason) => {
            pending.push_front(head);
            assert(queue_view(pending@, *clock) =~= before);
            return Err(reason);
        },
        Ok((true, _)) => {
            assert(queue_view(pending@, *clock) =~= before.remove(0));
            return Ok((Some(head), false));
        },
        Ok((false, full)) => {
            waits = full;
        },
    }
    let data_head = head.uses_data_credit;
    pending.push_front(head);
    assert(queue_view(pending@, *clock) =~= before);
    if !data_head || gate.gated {
        proof {
            assert(waits == clock_waits(before, start_gate, *clock, before.len() as int)) by {
                if waits {
                    assert(before[0].order is MaintenanceClock);
                }
                if clock_waits(before, start_gate, *clock, before.len() as int) {
                    let i = choose|i: int|
                        0 <= i < before.len() && (#[trigger] before[i]).order is MaintenanceClock
                            && (i == 0 || (before[0].uses_data_credit && may_overtake(before, i)));
                    assert(i == 0);
                }
            }
        }
        return Ok((None, waits));
    }
    let len: usize = pending.len();
    let mut index: usize = 1;
    proof {
        assert(waits == clock_waits(before, start_gate, *clock, 1)) by {
            if waits {
                assert(before[0].order is MaintenanceClock);
            }
        }
    }
    while index < len
        invariant
            1 <= index <= len,
            len == pending@.len() == before.len(),
            queue_view(pending@, *clock) == before,
            *gate == start_gate,
            start_gate == *old(gate),
            before == queue_view(old(pending)@, *clock),
            !start_gate.gated,
            before[0].uses_data_credit,
            attempt_queued(before[0], start_gate, *clock) is Refused,
            waits == clock_waits(before, start_gate, *clock, index as int),
            overtaker(before, start_gate, *clock, 1) == overtaker(
                before,
                start_gate,
                *clock,
                index as int,
            ),
        decreases len - index,
    {
        let overtakes = overtakes_earlier(pending, index, Ghost(*clock));
        if overtakes {
            let ghost all = pending@;
            let candidate = pending.remove(index);
            let mut candidate = candidate.unwrap();
            assert(queued(candidate, *clock) == before[index as int]);
            assert(queue_view(pending@, *clock) =~= before.remove(index as int));
            let tried = admit_control_write(&mut candidate, gate, clock);
            assert(queued(candidate, *clock) == before[index as int]);
            match tried {
                Err(reason) => {
                    pending.insert(index, candidate);
                    assert(queue_view(pending@, *clock) =~= before);
                    return Err(reason);
                },
                Ok((true, _)) => {
                    return Ok((Some(candidate), waits));
                },
                Ok((false, full)) => {
                    pending.insert(index, candidate);
                    assert(queue_view(pending@, *clock) =~= before);
                    if full {
                        waits = true;
                    }
                    proof {
                        lemma_clock_waits_step(before, start_gate, *clock, index as int);
                    }
                },
            }
        } else {
            proof {
                lemma_clock_waits_step(before, start_gate, *clock, index as int);
            }
        }
        index = index + 1;
    }
    Ok((None, waits))
}

proof fn lemma_clock_waits_step<T>(
    pending: Seq<Queued<T>>,
    gate: CreditGate,
    clock: ClockAttempt,
    i: int,
)
    requires
        1 <= i < pending.len(),
        pending[0].uses_data_credit,
    ensures
        clock_waits(pending, gate, clock, i + 1) == (clock_waits(pending, gate, clock, i) || (
        may_overtake(pending, i) && pending[i].order is MaintenanceClock && clock.frame is Ok
            && clock.fits == Some(false) && !gate.gated)),
{
    if may_overtake(pending, i) && pending[i].order is MaintenanceClock && clock.frame is Ok
        && clock.fits == Some(false) && !gate.gated {
        assert(pending[i].order is MaintenanceClock);
        assert(clock_waits(pending, gate, clock, i + 1));
    }
    if clock_waits(pending, gate, clock, i + 1) {
        let k = choose|k: int|
            0 <= k < i + 1 && k < pending.len() && (#[trigger] pending[k]).order is MaintenanceClock
                && (k == 0 || (pending[0].uses_data_credit && may_overtake(pending, k)));
        if k < i {
            assert(pending[k].order is MaintenanceClock);
        }
    }
    if clock_waits(pending, gate, clock, i) {
        let k = choose|k: int|
            0 <= k < i && k < pending.len() && (#[trigger] pending[k]).order is MaintenanceClock && (
            k == 0 || (pending[0].uses_data_credit && may_overtake(pending, k)));
        assert(pending[k].order is MaintenanceClock);
    }
}

/// Whether the write at `index` is metadata that no earlier write blocks.
fn overtakes_earlier<T>(
    pending: &VecDeque<ControlWrite<T>>,
    index: usize,
    Ghost(clock): Ghost<ClockAttempt>,
) -> (overtakes: bool)
    requires
        index < pending@.len(),
    ensures
        overtakes == may_overtake(queue_view(pending@, clock), index as int),
{
    let ghost view = queue_view(pending@, clock);
    if pending[index].uses_data_credit {
        return false;
    }
    let order: ControlOrder = pending[index].order;
    let mut j: usize = 0;
    while j < index
        invariant
            j <= index < pending@.len(),
            view == queue_view(pending@, clock),
            order == pending@[index as int].order,
            !pending@[index as int].uses_data_credit,
            forall|k: int| 0 <= k < j ==> !(#[trigger] view[k]).order.blocks(order),
        decreases index - j,
    {
        if pending[j].order.conflicts(order) {
            assert(view[j as int].order.blocks(view[index as int].order));
            return false;
        }
        j = j + 1;
    }
    true
}

proof fn lemma_overtaker<T>(
    pending: Seq<Queued<T>>,
    gate: CreditGate,
    clock: ClockAttempt,
    from: int,
)
    requires
        0 <= from,
    ensures
        overtaker(pending, gate, clock, from) matches Choice::Take(i) ==> {
            &&& from <= i < pending.len()
            &&& may_overtake(pending, i)
            &&& attempt_queued(pending[i], gate, clock) is Granted
        },
    decreases pending.len() - from,
{
    if from < pending.len() {
        lemma_overtaker(pending, gate, clock, from + 1);
    }
}

/// No selection ever reorders writes that conflict: a write that overtakes the head is metadata,
/// every write that it overtakes leaves it free to go, and the head waits for data credit.
pub proof fn selection_respects_order<T>(
    pending: Seq<Queued<T>>,
    gate: CreditGate,
    clock: ClockAttempt,
)
    ensures
        choose_write(pending, gate, clock) matches Choice::Take(i) ==> {
            &&& 0 <= i < pending.len()
            &&& attempt_queued(pending[i], gate, clock) is Granted
            &&& forall|j: int| 0 <= j < i ==> !(#[trigger] pending[j]).order.blocks(pending[i].order)
            &&& i > 0 ==> {
                &&& !pending[i].uses_data_credit
                &&& pending[0].uses_data_credit
                &&& attempt_queued(pending[0], gate, clock) is Refused
                &&& !gate.gated
            }
        },
{
    if pending.len() > 0 {
        lemma_overtaker(pending, gate, clock, 1);
    }
}

/// A closed gate lets nothing through.
pub proof fn closed_gate_selects_nothing<T>(
    pending: Seq<Queued<T>>,
    gate: CreditGate,
    clock: ClockAttempt,
)
    requires
        gate.gated,
    ensures
        !(choose_write(pending, gate, clock) is Take),
{
}

/// Two writes have to do with each other only where they share a correlation, or where one of them
/// fences the other: everything else may pass.
pub proof fn unrelated_writes_do_not_wait(a: ControlOrder, b: ControlOrder)
    ensures
        a.has_id() && b.has_id() && a.id_spec() != b.id_spec() ==> !a.blocks(b),
        a.has_id() && b.has_id() && a.id_spec() == b.id_spec() ==> (a.blocks(b) <==> !(
        b is TcpOutputCredit && (a is TcpInputData || a is TcpInputFinish))),
        a matches ControlOrder::ClientFence { start, end } ==> (b.has_id() ==> (a.blocks(b) <==> start
            <= b.id_spec() < end)),
        b matches ControlOrder::ClientFence { start, end } ==> (a.has_id() ==> (a.blocks(b) <==> start
            <= a.id_spec() < end)),
        a is ClientFence && b is ClientFence && a->start < a->end && b->start < b->end ==> (a.blocks(
            b,
        ) <==> exists|order: ControlOrder|
            order.has_id() && a->start <= #[trigger] order.id_spec() < a->end && b->start
                <= order.id_spec() < b->end),
        a is MaintenanceClock && !(b is GlobalFence) ==> (a.blocks(b) <==> b is MaintenanceClock),
        b is MaintenanceClock && !(a is GlobalFence) ==> (a.blocks(b) <==> a is MaintenanceClock),
{
    if a is ClientFence && b is ClientFence && a->start < a->end && b->start < b->end && a.blocks(
        b,
    ) {
        let id = if a->start < b->start {
            b->start
        } else {
            a->start
        };
        assert(a->start <= ControlOrder::Correlation(id).id_spec() < a->end);
    }
}

/// A write is ordered by what it carries: a frame without a correlation or with the shutdown flag
/// fences everything, and no later look at it changes that; host-to-guest TCP bytes and their end are
/// input; a claim for guest-to-host TCP credit within the window is return credit; everything else is
/// ordered by its correlation alone.
pub proof fn writes_are_ordered_by_their_content(
    profile: WireProfile,
    data: Seq<u8>,
    id: u32,
    raw: Option<(BulkKind, BulkFlow, u64, usize)>,
    message: Option<TcpMeta>,
)
    ensures
        ({
            let ordinary = ordinary_order(profile, data, id);
            let order = classified_order(profile, ordinary, id, raw, message);
            let fence = id == 0 || (data.len() >= 9 && data[8] & profile.flag_shutdown != 0);
            let input = raw is Some && (raw->0).0 == BulkKind::Tcp && (raw->0).1
                == BulkFlow::HostToGuest;
            let ends = message matches Some(TcpMeta::BulkFinish(Some((kind, flow)))) && kind
                == BulkKind::Tcp && flow == BulkFlow::HostToGuest;
            let credit = message matches Some(TcpMeta::BulkCredit(Some(claim))) && claim.kind
                == BulkKind::Tcp && claim.flow == BulkFlow::GuestToHost && claim.consumed_offset
                <= claim.credit_limit && claim.credit_limit <= claim.consumed_offset
                + profile.max_bulk_window;
            &&& ordinary == if fence {
                ControlOrder::GlobalFence
            } else {
                ControlOrder::Correlation(id)
            }
            &&& fence ==> order == ControlOrder::GlobalFence
            &&& !fence ==> {
                &&& order.has_id() && order.id_spec() == id
                &&& order is TcpInputData <==> input
                &&& order is TcpInputFinish <==> !input && ends
                &&& order is TcpOutputCredit <==> !input && credit
                &&& order is Correlation <==> !input && !ends && !credit
            }
        }),
{
}

/// A frame is let through exactly where nothing failed, no lifecycle change holds input back, and
/// its own class has a frame and as many bytes left; it is then charged to that class alone.
pub proof fn credit_is_charged_to_its_class(gate: CreditGate, uses_data_credit: bool, len: nat)
    ensures
        ({
            let (frames, bytes) = if uses_data_credit {
                (gate.data_frames, gate.data_bytes)
            } else {
                (gate.control_frames, gate.control_bytes)
            };
            let granted = gate.decide(uses_data_credit, len) is Granted;
            let left = gate.charged(uses_data_credit, len);
            &&& granted <==> gate.failure is None && !gate.gated && frames > 0 && len <= bytes
            &&& gate.decide(uses_data_credit, len) is Failed <==> gate.failure is Some
            &&& gate.failure matches Some(reason) ==> gate.decide(uses_data_credit, len)
                == Attempt::Failed(reason)
            &&& granted ==> {
                &&& left.gated == gate.gated
                &&& left.failure == gate.failure
                &&& uses_data_credit ==> {
                    &&& left.data_frames + 1 == gate.data_frames
                    &&& left.data_bytes + len == gate.data_bytes
                    &&& left.control_frames == gate.control_frames
                    &&& left.control_bytes == gate.control_bytes
                }
                &&& !uses_data_credit ==> {
                    &&& left.control_frames + 1 == gate.control_frames
                    &&& left.control_bytes + len == gate.control_bytes
                    &&& left.data_frames == gate.data_frames
                    &&& left.data_bytes == gate.data_bytes
                }
            }
        }),
{
}

/// A clock update is sent with the time of the attempt that sends it, and only where the ring has
/// room; every other write is sent with its own bytes.
pub proof fn clock_is_sent_with_the_current_time<T>(
    write: ControlWrite<T>,
    gate: CreditGate,
    clock: ClockAttempt,
)
    ensures
        !(write.order is MaintenanceClock) ==> {
            &&& refreshed(write, clock) == write
            &&& attempt(write, gate, clock) == gate.decide(write.uses_data_credit, write.data@.len())
        },
        write.order is MaintenanceClock ==> match clock.frame {
            Ok(frame) => {
                &&& refreshed(write, clock).data == frame
                &&& clock.fits == Some(false) ==> attempt(write, gate, clock) is Refused
                &&& clock.fits != Some(false) ==> attempt(write, gate, clock) == gate.decide(
                    write.uses_data_credit,
                    frame@.len(),
                )
            },
            Err(reason) => attempt(write, gate, clock) == Attempt::Failed(reason),
        },
        attempt_queued(queued(write, clock), gate, clock) == attempt(write, gate, clock),
{
}

/// The head goes first wherever it can go, and what cannot be sent at all is reported.
pub proof fn ready_head_goes_first<T>(
    pending: Seq<Queued<T>>,
    gate: CreditGate,
    clock: ClockAttempt,
)
    requires
        pending.len() > 0,
    ensures
        attempt_queued(pending[0], gate, clock) is Granted ==> choose_write(pending, gate, clock)
            == Choice::Take(0),
        attempt_queued(pending[0], gate, clock) matches Attempt::Failed(reason) ==> choose_write(
            pending,
            gate,
            clock,
        ) == Choice::Fail(reason),
        attempt_queued(pending[0], gate, clock) is Refused && !pending[0].uses_data_credit
            ==> choose_write(pending, gate, clock) is Nothing,
{
}

/// Metadata that nothing in front of it blocks is not held up by payload that waits for data
/// credit: where there is such a write, the first one of them that can go is taken.
pub proof fn blocked_payload_does_not_hold_up_metadata<T>(
    pending: Seq<Queued<T>>,
    gate: CreditGate,
    clock: ClockAttempt,
    i: int,
)
    requires
        0 < i < pending.len(),
        !gate.gated,
        pending[0].uses_data_credit,
        attempt_queued(pending[0], gate, clock) is Refused,
        !pending[i].uses_data_credit,
        attempt_queued(pending[i], gate, clock) is Granted,
        forall|j: int| 0 <= j < i ==> !(#[trigger] pending[j]).order.blocks(pending[i].order),
        forall|j: int|
            0 < j < i ==> (#[trigger] pending[j]).uses_data_credit || attempt_queued(
                pending[j],
                gate,
                clock,
            ) is Refused || (exists|k: int|
                0 <= k < j && (#[trigger] pending[k]).order.blocks(pending[j].order)),
    ensures
        choose_write(pending, gate, clock) == Choice::Take(i),
{
    lemma_first_overtaker(pending, gate, clock, i, 1);
}

proof fn lemma_first_overtaker<T>(
    pending: Seq<Queued<T>>,
    gate: CreditGate,
    clock: ClockAttempt,
    i: int,
    from: int,
)
    requires
        0 < from <= i < pending.len(),
        may_overtake(pending, i),
        attempt_queued(pending[i], gate, clock) is Granted,
        forall|j: int|
            0 < j < i ==> (#[trigger] pending[j]).uses_data_credit || attempt_queued(
                pending[j],
                gate,
                clock,
            ) is Refused || (exists|k: int|
                0 <= k < j && (#[trigger] pending[k]).order.blocks(pending[j].order)),
    ensures
        overtaker(pending, gate, clock, from) == Choice::Take(i),
    decreases i - from,
{
    if from < i {
        let skipped = pending[from];
        assert(!may_overtake(pending, from) || attempt_queued(pending[from], gate, clock) is Refused);
        lemma_first_overtaker(pending, gate, clock, i, from + 1);
    }
}

/// Where nothing is taken, no write could have gone: neither the head nor, past a payload head, any
/// metadata that nothing blocks.
pub proof fn nothing_is_held_without_reason<T>(
    pending: Seq<Queued<T>>,
    gate: CreditGate,
    clock: ClockAttempt,
    i: int,
)
    requires
        choose_write(pending, gate, clock) is Nothing,
        0 <= i < pending.len(),
        i == 0 || (pending[0].uses_data_credit && !gate.gated && !pending[i].uses_data_credit && (
        forall|j: int| 0 <= j < i ==> !(#[trigger] pending[j]).order.blocks(pending[i].order))),
    ensures
        attempt_queued(pending[i], gate, clock) is Refused,
{
    if i > 0 {
        lemma_no_overtaker(pending, gate, clock, i, 1);
    }
}

proof fn lemma_no_overtaker<T>(
    pending: Seq<Queued<T>>,
    gate: CreditGate,
    clock: ClockAttempt,
    i: int,
    from: int,
)
    requires
        0 < from <= i < pending.len(),
        overtaker(pending, gate, clock, from) is Nothing,
        may_overtake(pending, i),
    ensures
        attempt_queued(pending[i], gate, clock) is Refused,
    decreases i - from,
{
    if from < i {
        lemma_no_overtaker(pending, gate, clock, i, from + 1);
    }
}

/// A clock waits for the ring exactly where input is open, the ring has no room for the clock's
/// frame, and a clock was tried: one at the head, or one that could have passed a payload head.
pub proof fn clock_waits_only_for_the_ring<T>(
    pending: Seq<Queued<T>>,
    gate: CreditGate,
    clock: ClockAttempt,
    stop: int,
)
    ensures
        gate.gated || clock.frame is Err || clock.fits != Some(false) ==> !clock_waits(
            pending,
            gate,
            clock,
            stop,
        ),
        !gate.gated && clock.frame is Ok && clock.fits == Some(false) && stop > 0 && pending.len() > 0
            && pending[0].order is MaintenanceClock ==> clock_waits(pending, gate, clock, stop),
        clock_waits(pending, gate, clock, stop) ==> exists|i: int|
            0 <= i < stop && i < pending.len() && (#[trigger] pending[i]).order is MaintenanceClock && (
            i == 0 || (pending[0].uses_data_credit && !pending[i].uses_data_credit && forall|j: int|
                0 <= j < i ==> !(#[trigger] pending[j]).order.blocks(pending[i].order))),
{
    if clock_waits(pending, gate, clock, stop) {
        let i = choose|i: int|
            0 <= i < stop && i < pending.len() && (#[trigger] pending[i]).order is MaintenanceClock && (
            i == 0 || (pending[0].uses_data_credit && may_overtake(pending, i)));
        assert(pending[i].order is MaintenanceClock);
    }
    if !gate.gated && clock.frame is Ok && clock.fits == Some(false) && stop > 0 && pending.len() > 0
        && pending[0].order is MaintenanceClock {
        assert(pending[0].order is MaintenanceClock);
    }
}

} // verus!
