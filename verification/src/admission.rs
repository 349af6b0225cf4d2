//! Admission of client connections: slots, leases and the handshake.

use vstd::prelude::*;

use crate::disconnect::PendingDisconnect;
use crate::disconnect::PendingDisconnects;
use crate::stall::input_is_stalled;
use crate::wire::be_bytes;
use crate::wire::be_value;
use crate::wire::client_range_spec;
use crate::wire::relay_client_id_range;
use crate::wire::ClientIncarnation;
use crate::wire::WireProfile;

verus! {

/// Which client slots are in use. A slot stays in use until its range may be reused.
pub struct SlotTable {
    used: Vec<bool>,
}

impl View for SlotTable {
    type V = Seq<bool>;

    /// For each slot, whether it is in use.
    closed spec fn view(&self) -> Seq<bool> {
        self.used@
    }
}

/// `slot` is the lowest free one.
pub open spec fn is_lowest_free(used: Seq<bool>, slot: int) -> bool {
    &&& 0 <= slot < used.len()
    &&& !used[slot]
    &&& forall|i: int| 0 <= i < slot ==> #[trigger] used[i]
}

impl SlotTable {
    pub fn new(profile: &WireProfile) -> (table: SlotTable)
        ensures
            table@.len() == profile.max_clients,
            forall|i: int| 0 <= i < table@.len() ==> !(#[trigger] table@[i]),
    {
        let mut used: Vec<bool> = Vec::new();
        let mut i: u32 = 0;
        while i < profile.max_clients
            invariant
                i <= profile.max_clients,
                used@.len() == i,
                forall|k: int| 0 <= k < used@.len() ==> !(#[trigger] used@[k]),
            decreases profile.max_clients - i,
        {
            used.push(false);
            i = i + 1;
        }
        SlotTable { used }
    }

    /// Take the lowest free slot.
    pub fn allocate(&mut self) -> (slot: Option<u32>)
        requires
            old(self)@.len() <= u32::MAX,
        ensures
            match slot {
                Some(s) => is_lowest_free(old(self)@, s as int) && final(self)@ == old(
                    self,
                )@.update(s as int, true),
                None => final(self)@ == old(self)@ && forall|i: int|
                    0 <= i < old(self)@.len() ==> #[trigger] old(self)@[i],
            },
    {
        let mut i: usize = 0;
        while i < self.used.len()
            invariant
                i <= self.used@.len(),
                self.used@ == old(self)@,
                old(self)@.len() <= u32::MAX,
                forall|k: int| 0 <= k < i ==> #[trigger] self.used@[k],
            decreases self.used@.len() - i,
        {
            if !self.used[i] {
                self.used[i] = true;
                return Some(i as u32);
            }
            i = i + 1;
        }
        None
    }

    /// Make a slot free again.
    pub fn release(&mut self, slot: u32)
        requires
            slot < old(self)@.len(),
        ensures
            final(self)@ == old(self)@.update(slot as int, false),
    {
        self.used[slot as usize] = false;
    }
}

/// A slot is never handed out twice: what was allocated is not free until it is released.
pub proof fn allocated_slot_is_not_free(used: Seq<bool>, first: int, second: int)
    requires
        is_lowest_free(used, first),
        is_lowest_free(used.update(first, true), second),
    ensures
        first != second,
{
}

/// What becomes of a connection that was just accepted.
#[derive(Clone, Copy, Debug, PartialEq, Eq, Structural)]
pub enum Accepted {
    /// The guest's input is saturated: refuse without disturbing existing clients.
    Stalled,
    /// All slots are in use or quarantined.
    Full,
    /// The client gets this slot and the half-open range of correlation IDs.
    Slot { slot: u32, id_start: u32, id_end: u32 },
}

/// Decide on an accepted connection.
pub fn accept_client(
    profile: &WireProfile,
    slots: &mut SlotTable,
    control_stalled: bool,
    bulk_stalled: Option<bool>,
) -> (accepted: Accepted)
    requires
        profile.wf(),
        old(slots)@.len() == profile.max_clients,
    ensures
        final(slots)@.len() == profile.max_clients,
        if control_stalled || bulk_stalled == Some(true) {
            accepted == Accepted::Stalled && final(slots)@ == old(slots)@
        } else if forall|i: int| 0 <= i < old(slots)@.len() ==> #[trigger] old(slots)@[i] {
            accepted == Accepted::Full && final(slots)@ == old(slots)@
        } else {
            &&& accepted matches Accepted::Slot { slot, id_start, id_end }
            &&& is_lowest_free(old(slots)@, slot as int)
            &&& client_range_spec(*profile, slot) == Some((id_start as int, id_end as int))
            &&& final(slots)@ == old(slots)@.update(slot as int, true)
        },
{
    if input_is_stalled(control_stalled, bulk_stalled) {
        return Accepted::Stalled;
    }
    match slots.allocate() {
        None => Accepted::Full,
        Some(slot) => match relay_client_id_range(profile, slot) {
            Some((id_start, id_end)) => Accepted::Slot { slot, id_start, id_end },
            None => Accepted::Full,
        },
    }
}

/// Where an admission stands.
#[derive(Clone, Copy, Debug, PartialEq, Eq, Structural)]
pub enum AdmissionStage {
    /// Duplicate the socket before the guest learns the incarnation.
    DuplicateSocket,
    /// Establish the range owner on the ordered control lane, before the client can submit work.
    EstablishLease,
    WriteHandshake,
    /// The client is connected.
    Registered,
    /// Nothing reached the guest: release the slot and drop the connection.
    ReleaseSlot,
    /// The guest may know the owner: only the acknowledged disconnect may free the slot.
    Disconnect,
}

/// The next stage after an attempt.
pub open spec fn admission_next(stage: AdmissionStage, leased: bool, succeeded: bool) -> AdmissionStage {
    match stage {
        AdmissionStage::DuplicateSocket => if !succeeded {
            AdmissionStage::ReleaseSlot
        } else if leased {
            AdmissionStage::EstablishLease
        } else {
            AdmissionStage::WriteHandshake
        },
        AdmissionStage::EstablishLease => if succeeded {
            AdmissionStage::WriteHandshake
        } else {
            AdmissionStage::ReleaseSlot
        },
        AdmissionStage::WriteHandshake => if succeeded {
            AdmissionStage::Registered
        } else {
            AdmissionStage::Disconnect
        },
        other => other,
    }
}

/// Go on with an admission.
pub fn admission_step(stage: AdmissionStage, leased: bool, succeeded: bool) -> (next: AdmissionStage)
    ensures
        next == admission_next(stage, leased, succeeded),
{
    match stage {
        AdmissionStage::DuplicateSocket => if !succeeded {
            AdmissionStage::ReleaseSlot
        } else if leased {
            AdmissionStage::EstablishLease
        } else {
            AdmissionStage::WriteHandshake
        },
        AdmissionStage::EstablishLease => if succeeded {
            AdmissionStage::WriteHandshake
        } else {
            AdmissionStage::ReleaseSlot
        },
        AdmissionStage::WriteHandshake => if succeeded {
            AdmissionStage::Registered
        } else {
            AdmissionStage::Disconnect
        },
        other => other,
    }
}

/// Once a lease was established the slot is never freed directly.
pub proof fn leased_slot_is_not_freed_directly(stage: AdmissionStage, succeeded: bool)
    requires
        stage == AdmissionStage::WriteHandshake || stage == AdmissionStage::Registered || stage
            == AdmissionStage::Disconnect,
    ensures
        admission_next(stage, true, succeeded) != AdmissionStage::ReleaseSlot,
{
}

/// The bytes that a client receives first: its range, then the agent's ready frame.
pub fn client_handshake(id_start: u32, id_end: u32, ready_frame: &Vec<u8>) -> (handshake: Vec<u8>)
    ensures
        handshake@.len() == 8 + ready_frame@.len(),
        be_value(handshake@.subrange(0, 4)) == id_start,
        be_value(handshake@.subrange(4, 8)) == id_end,
        handshake@.subrange(8, handshake@.len() as int) == ready_frame@,
{
    proof {
        reveal_with_fuel(vstd::arithmetic::power::pow, 5);
        assert(vstd::arithmetic::power::pow(256, 4) == 0x1_0000_0000);
    }
    let mut handshake = be_bytes(id_start as u128, 4);
    let ghost start = handshake@;
    let mut end_bytes = be_bytes(id_end as u128, 4);
    let ghost end = end_bytes@;
    handshake.append(&mut end_bytes);
    handshake.extend_from_slice(ready_frame.as_slice());
    proof {
        assert(handshake@.subrange(0, 4) =~= start);
        assert(handshake@.subrange(4, 8) =~= end);
        assert(handshake@.subrange(8, handshake@.len() as int) =~= ready_frame@);
    }
    handshake
}

/// `rand::random`: any 128-bit number.
#[verifier::external_body]
pub(crate) fn random_u128() -> u128 {
    rand::random::<u128>()
}

/// Whether a drawn number can identify a new owner: zero identifies nobody, and neither a live nor
/// a quarantined ownership period may be named twice, nor one whose disconnect is under way.
pub fn is_unused_incarnation<C>(
    candidate: ClientIncarnation,
    live: &Vec<ClientIncarnation>,
    quarantined: &Vec<ClientIncarnation>,
    pending: &PendingDisconnects<C>,
) -> (unused: bool)
    ensures
        unused == (candidate != 0 && !live@.contains(candidate) && !quarantined@.contains(candidate)
            && !pending@.contains_key(candidate)),
{
    candidate != 0 && !holds(live, candidate) && !holds(quarantined, candidate)
        && !pending.contains(candidate)
}

fn holds(values: &Vec<ClientIncarnation>, value: ClientIncarnation) -> (found: bool)
    ensures
        found == values@.contains(value),
{
    let mut i: usize = 0;
    while i < values.len()
        invariant
            i <= values@.len(),
            forall|k: int| 0 <= k < i ==> #[trigger] values@[k] != value,
        decreases values@.len() - i,
    {
        if values[i] == value {
            return true;
        }
        i = i + 1;
    }
    false
}

/// So many numbers from one on are only taken where there is room for them.
proof fn lemma_taken_numbers_need_room(taken: Set<ClientIncarnation>, count: nat)
    requires
        taken.finite(),
        count <= u128::MAX,
        forall|n: ClientIncarnation| 1 <= n <= count ==> #[trigger] taken.contains(n),
    ensures
        count <= taken.len(),
{
    let run = Seq::new(count, |i: int| (i + 1) as ClientIncarnation);
    assert(run.no_duplicates());
    run.unique_seq_to_set();
    assert forall|n: ClientIncarnation| run.to_set().contains(n) implies taken.contains(n) by {
        let i = choose|i: int| 0 <= i < run.len() && run[i] == n;
    }
    vstd::set_lib::lemma_len_subset(run.to_set(), taken);
}

/// Everything that identifies an ownership period already.
spec fn taken_numbers<C>(
    live: Seq<ClientIncarnation>,
    quarantined: Seq<ClientIncarnation>,
    pending: Map<ClientIncarnation, PendingDisconnect<C>>,
) -> Set<ClientIncarnation> {
    live.to_set().union(quarantined.to_set()).union(pending.dom())
}

proof fn lemma_taken_bound<C>(
    live: Seq<ClientIncarnation>,
    quarantined: Seq<ClientIncarnation>,
    pending: Map<ClientIncarnation, PendingDisconnect<C>>,
)
    requires
        pending.dom().finite(),
    ensures
        taken_numbers(live, quarantined, pending).finite(),
        taken_numbers(live, quarantined, pending).len() <= live.len() + quarantined.len()
            + pending.dom().len(),
{
    vstd::seq_lib::seq_to_set_is_finite(live);
    vstd::seq_lib::seq_to_set_is_finite(quarantined);
    live.lemma_cardinality_of_set();
    quarantined.lemma_cardinality_of_set();
    vstd::set_lib::lemma_len_union(live.to_set(), quarantined.to_set());
    vstd::set_lib::lemma_len_union(live.to_set().union(quarantined.to_set()), pending.dom());
}

/// The lowest number that identifies nobody yet.
fn lowest_unused_incarnation<C>(
    live: &Vec<ClientIncarnation>,
    quarantined: &Vec<ClientIncarnation>,
    pending: &PendingDisconnects<C>,
) -> (lowest: ClientIncarnation)
    ensures
        lowest != 0,
        !live@.contains(lowest),
        !quarantined@.contains(lowest),
        !pending@.contains_key(lowest),
{
    let count: usize = pending.len();
    let ghost taken = taken_numbers(live@, quarantined@, pending@);
    proof {
        lemma_taken_bound(live@, quarantined@, pending@);
        assert(live@.len() == live.len() && quarantined@.len() == quarantined.len());
        assert(pending@.dom().len() == count);
    }
    let mut candidate: ClientIncarnation = 1;
    while !is_unused_incarnation(candidate, live, quarantined, pending)
        invariant
            taken == taken_numbers(live@, quarantined@, pending@),
            taken.finite(),
            taken.len() <= 3 * usize::MAX,
            1 <= candidate <= taken.len() + 1,
            forall|n: ClientIncarnation| 1 <= n < candidate ==> #[trigger] taken.contains(n),
        decreases taken.len() + 1 - candidate,
    {
        proof {
            assert(taken.contains(candidate));
            lemma_taken_numbers_need_room(taken, candidate as nat);
        }
        candidate = candidate + 1;
    }
    candidate
}

/// Draw an identity for one ownership period of a slot: draw until the number is unused. Only after
/// as many draws as no machine makes is the lowest unused number taken instead.
pub fn random_unused_client_incarnation<C>(
    live: &Vec<ClientIncarnation>,
    quarantined: &Vec<ClientIncarnation>,
    pending: &PendingDisconnects<C>,
) -> (incarnation: ClientIncarnation)
    ensures
        incarnation != 0,
        !live@.contains(incarnation),
        !quarantined@.contains(incarnation),
        !pending@.contains_key(incarnation),
{
    let mut draws: u64 = u64::MAX;
    while draws > 0
        decreases draws,
    {
        let candidate: ClientIncarnation = random_u128();
        if is_unused_incarnation(candidate, live, quarantined, pending) {
            return candidate;
        }
        draws = draws - 1;
    }
    lowest_unused_incarnation(live, quarantined, pending)
}

/// A client is registered only behind its socket, its lease where it takes one, and its handshake,
/// in this order. A failure before the handshake frees the slot; a failed handshake goes through the
/// disconnect; and the end of an admission stays its end.
pub proof fn admission_takes_every_step(leased: bool)
    ensures
        admission_next(AdmissionStage::DuplicateSocket, true, true)
            == AdmissionStage::EstablishLease,
        admission_next(AdmissionStage::DuplicateSocket, false, true)
            == AdmissionStage::WriteHandshake,
        admission_next(AdmissionStage::EstablishLease, leased, true)
            == AdmissionStage::WriteHandshake,
        admission_next(AdmissionStage::WriteHandshake, leased, true) == AdmissionStage::Registered,
        admission_next(AdmissionStage::DuplicateSocket, leased, false)
            == AdmissionStage::ReleaseSlot,
        admission_next(AdmissionStage::EstablishLease, leased, false)
            == AdmissionStage::ReleaseSlot,
        admission_next(AdmissionStage::WriteHandshake, leased, false)
            == AdmissionStage::Disconnect,
        forall|stage: AdmissionStage, succeeded: bool|
            stage == AdmissionStage::Registered || stage == AdmissionStage::ReleaseSlot || stage
                == AdmissionStage::Disconnect ==> #[trigger] admission_next(
                stage,
                leased,
                succeeded,
            ) == stage,
        forall|stage: AdmissionStage, succeeded: bool|
            #[trigger] admission_next(stage, leased, succeeded) == AdmissionStage::Registered && stage
                != AdmissionStage::Registered ==> stage == AdmissionStage::WriteHandshake
                && succeeded,
{
}

/// A slot is handed out wherever one is free, and it is the first free one.
pub proof fn free_slot_is_found(used: Seq<bool>, free: int)
    requires
        0 <= free < used.len(),
        !used[free],
    ensures
        exists|slot: int| #[trigger] is_lowest_free(used, slot) && slot <= free,
        forall|slot: int| #[trigger] is_lowest_free(used, slot) ==> slot <= free && !used[slot],
    decreases free,
{
    if exists|i: int| 0 <= i < free && !(#[trigger] used[i]) {
        let lower = choose|i: int| 0 <= i < free && !(#[trigger] used[i]);
        free_slot_is_found(used, lower);
        let slot = choose|slot: int| #[trigger] is_lowest_free(used, slot) && slot <= lower;
        assert(is_lowest_free(used, slot) && slot <= free);
    } else {
        assert(is_lowest_free(used, free));
    }
    assert forall|slot: int| #[trigger] is_lowest_free(used, slot) implies slot <= free by {
        if slot > free {
            assert(used[free]);
        }
    }
}

} // verus!
