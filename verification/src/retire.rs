//! Correlation IDs that an owner has used up: compact bitmaps, one per client incarnation.

use std::collections::HashMap;

use vstd::prelude::*;
use vstd::std_specs::hash::*;
use vstd::string::*;

use crate::text::decimal;
use crate::text::labelled;
use crate::wire::client_range_spec;
use crate::wire::client_slot_spec;
use crate::wire::relay_client_id_range;
use crate::wire::relay_client_slot;
use crate::wire::slot_owns_exactly_its_range;
use crate::wire::ClientIncarnation;
use crate::wire::WireProfile;

verus! {

/// No client can own this correlation ID.
#[derive(Clone, Copy, Debug, PartialEq, Eq, Structural)]
pub struct UnassignedCorrelation {
    pub id: u32,
}

impl UnassignedCorrelation {
    pub open spec fn text(self) -> Seq<char> {
        "cannot retire unassigned correlation "@ + decimal(self.id as nat)
    }

    pub fn message(&self) -> (text: String)
        ensures
            text@ == self.text(),
    {
        labelled("cannot retire unassigned correlation ", self.id as u64)
    }
}

/// Position of an assigned ID within its owner's range.
pub open spec fn local_index(profile: WireProfile, id: u32) -> Option<nat> {
    match client_slot_spec(profile, id) {
        None => None,
        Some(slot) => Some((id - client_range_spec(profile, slot).unwrap().0) as nat),
    }
}

/// Whether bit `n` of a bitmap is set.
pub open spec fn bit_is_set(bitmap: Seq<u64>, n: nat) -> bool {
    &&& n / 64 < bitmap.len()
    &&& bitmap[(n / 64) as int] & (1u64 << ((n % 64) as u64)) != 0
}

/// Locate one correlation in an owner-local retirement bitmap.
fn relay_retired_bit(profile: &WireProfile, id: u32) -> (bit: Option<(usize, u64)>)
    requires
        profile.wf(),
    ensures
        match local_index(*profile, id) {
            None => bit is None,
            Some(n) => bit matches Some((word, mask)) && word == n / 64 && mask == 1u64 << ((n
                % 64) as u64) && n <= u32::MAX,
        },
{
    let slot: u32 = match relay_client_slot(profile, id) {
        Some(slot) => slot,
        None => {
            return None;
        },
    };
    let range = relay_client_id_range(profile, slot);
    proof {
        slot_owns_exactly_its_range(*profile, slot, id);
    }
    match range {
        Some((start, _)) => {
            let local: u32 = id - start;
            Some(((local / 64) as usize, 1u64 << ((local % 64) as u64)))
        },
        None => None,
    }
}

proof fn lemma_set_bit(bits: u64, a: u64, b: u64)
    requires
        a < 64,
        b < 64,
    ensures
        (bits | (1u64 << a)) & (1u64 << b) != 0 <==> (bits & (1u64 << b) != 0 || a == b),
{
    assert((bits | (1u64 << a)) & (1u64 << b) != 0 <==> (bits & (1u64 << b) != 0 || a == b))
        by (bit_vector)
        requires
            a < 64,
            b < 64,
    ;
}

/// The IDs that each incarnation has retired.
pub struct RetiredIds {
    bitmaps: HashMap<ClientIncarnation, Vec<u64>>,
}

impl View for RetiredIds {
    type V = Set<(ClientIncarnation, nat)>;

    /// Owner and owner-local index of every retired ID.
    closed spec fn view(&self) -> Set<(ClientIncarnation, nat)> {
        Set::new(
            |entry: (ClientIncarnation, nat)|
                self.bitmaps@.contains_key(entry.0) && bit_is_set(
                    self.bitmaps@[entry.0]@,
                    entry.1,
                ),
        )
    }
}

impl RetiredIds {
    /// Whether `id` is retired for `incarnation`.
    pub open spec fn holds(&self, profile: WireProfile, incarnation: ClientIncarnation, id: u32) -> bool {
        match local_index(profile, id) {
            None => false,
            Some(n) => self@.contains((incarnation, n)),
        }
    }

    pub fn new() -> (retired: RetiredIds)
        ensures
            retired@ == Set::<(ClientIncarnation, nat)>::empty(),
    {
        broadcast use group_hash_axioms;

        let retired = RetiredIds { bitmaps: HashMap::new() };
        assert(retired@ =~= Set::<(ClientIncarnation, nat)>::empty());
        retired
    }

    /// Test an owner-local retirement bitmap without allocating on a read.
    pub fn relay_correlation_is_retired(
        &self,
        profile: &WireProfile,
        incarnation: ClientIncarnation,
        id: u32,
    ) -> (retired: bool)
        requires
            profile.wf(),
        ensures
            retired == self.holds(*profile, incarnation, id),
    {
        broadcast use group_hash_axioms;

        match relay_retired_bit(profile, id) {
            None => false,
            Some((word, mask)) => match self.bitmaps.get(&incarnation) {
                None => false,
                Some(bitmap) => word < bitmap.len() && bitmap[word] & mask != 0,
            },
        }
    }

    /// Retire one ID in a compact bitmap bounded by the canonical per-client range size.
    pub fn retire_relay_correlation(
        &mut self,
        profile: &WireProfile,
        incarnation: ClientIncarnation,
        id: u32,
    ) -> (result: Result<(), UnassignedCorrelation>)
        requires
            profile.wf(),
        ensures
            match local_index(*profile, id) {
                None => result == Err::<(), UnassignedCorrelation>(UnassignedCorrelation { id })
                    && final(self)@ == old(self)@,
                Some(n) => result is Ok && final(self)@ == old(self)@.insert((incarnation, n)),
            },
    {
        broadcast use group_hash_axioms;

        let (word, mask) = match relay_retired_bit(profile, id) {
            Some(bit) => bit,
            None => {
                return Err(UnassignedCorrelation { id });
            },
        };
        let ghost n = local_index(*profile, id).unwrap();
        let ghost before = self.bitmaps@;
        let mut bitmap: Vec<u64> = match self.bitmaps.remove(&incarnation) {
            Some(bitmap) => bitmap,
            None => Vec::new(),
        };
        let ghost held = bitmap@;
        if bitmap.len() <= word {
            bitmap.resize(word + 1, 0);
        }
        let ghost grown = bitmap@;
        proof {
            assert forall|k: nat| #[trigger] bit_is_set(grown, k) == bit_is_set(held, k) by {
                let shift = (k % 64) as u64;
                assert(0u64 & (1u64 << shift) == 0) by (bit_vector);
            }
        }
        bitmap[word] = bitmap[word] | mask;
        proof {
            assert forall|k: nat| #[trigger] bit_is_set(bitmap@, k) == (bit_is_set(grown, k) || k
                == n) by {
                if k / 64 == word {
                    lemma_set_bit(grown[word as int], (n % 64) as u64, (k % 64) as u64);
                }
            }
        }
        let ghost set = bitmap@;
        self.bitmaps.insert(incarnation, bitmap);
        proof {
            assert forall|entry: (ClientIncarnation, nat)| #[trigger]
                self@.contains(entry) == old(self)@.insert((incarnation, n)).contains(entry) by {
                if entry.0 == incarnation {
                    assert(bit_is_set(set, entry.1) == (bit_is_set(grown, entry.1) || entry.1 == n));
                    assert(bit_is_set(grown, entry.1) == bit_is_set(held, entry.1));
                }
            }
            assert(self@ =~= old(self)@.insert((incarnation, n)));
        }
        Ok(())
    }

    /// Forget everything that a disconnected incarnation retired.
    pub fn forget(&mut self, incarnation: ClientIncarnation)
        ensures
            final(self)@ == old(self)@.filter(
                |entry: (ClientIncarnation, nat)| entry.0 != incarnation,
            ),
    {
        broadcast use group_hash_axioms;

        self.bitmaps.remove(&incarnation);
        assert(self@ =~= old(self)@.filter(
            |entry: (ClientIncarnation, nat)| entry.0 != incarnation,
        ));
    }
}

/// A retired ID reads back as retired, other IDs of the range keep their state.
pub proof fn retirement_reads_back(
    before: RetiredIds,
    after: RetiredIds,
    profile: WireProfile,
    owner: ClientIncarnation,
    id: u32,
    other_owner: ClientIncarnation,
    other: u32,
)
    requires
        profile.wf(),
        client_slot_spec(profile, id) is Some,
        after@ == before@.insert((owner, local_index(profile, id).unwrap())),
    ensures
        after.holds(profile, owner, id),
        before.holds(profile, other_owner, other) ==> after.holds(profile, other_owner, other),
        other_owner != owner || (client_slot_spec(profile, other) == client_slot_spec(profile, id)
            && other != id) ==> after.holds(profile, other_owner, other) == before.holds(
            profile,
            other_owner,
            other,
        ),
{
    let slot = client_slot_spec(profile, id).unwrap();
    slot_owns_exactly_its_range(profile, slot, id);
    slot_owns_exactly_its_range(profile, slot, other);
}

} // verus!
