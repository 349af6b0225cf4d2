//! Bulk operations that one client has open.

use std::collections::HashMap;

use vstd::prelude::*;
use vstd::std_specs::hash::group_hash_axioms;
use vstd::std_specs::iter::IteratorSpec;

use crate::bulk::BULK_WRITE_MAX_FLOWS_PER_CLIENT;
use crate::wire::BulkKind;

verus! {

/// Whether a client may open another bulk operation.
#[derive(Clone, Copy, Debug, PartialEq, Eq, Structural)]
pub enum BulkOpenAdmission {
    Accepted,
    Duplicate,
    LimitReached,
}

/// The open bulk operations of one client, by correlation ID.
pub struct ActiveBulk {
    entries: HashMap<u32, BulkKind>,
}

/// The entries hold every operation once, in any order.
pub open spec fn lists_operations(
    entries: Seq<(u32, BulkKind)>,
    operations: Map<u32, BulkKind>,
) -> bool {
    &&& entries.len() == operations.dom().len()
    &&& forall|i: int|
        0 <= i < entries.len() ==> operations.contains_key((#[trigger] entries[i]).0)
            && operations[entries[i].0] == entries[i].1
    &&& forall|i: int, j: int|
        0 <= i < j < entries.len() ==> (#[trigger] entries[i]).0 != (#[trigger] entries[j]).0
    &&& forall|id: u32| #[trigger]
        operations.contains_key(id) ==> entries.contains((id, operations[id]))
}

impl View for ActiveBulk {
    type V = Map<u32, BulkKind>;

    closed spec fn view(&self) -> Map<u32, BulkKind> {
        self.entries@
    }
}

impl ActiveBulk {
    /// No client has more operations than it may.
    pub closed spec fn wf(&self) -> bool {
        self@.dom().len() <= BULK_WRITE_MAX_FLOWS_PER_CLIENT
    }

    pub fn new() -> (active: ActiveBulk)
        ensures
            active.wf(),
            active@ == Map::<u32, BulkKind>::empty(),
    {
        broadcast use group_hash_axioms;

        ActiveBulk { entries: HashMap::new() }
    }

    /// The kind of an open operation.
    pub fn get(&self, id: u32) -> (kind: Option<BulkKind>)
        ensures
            match kind {
                Some(k) => self@.contains_key(id) && self@[id] == k,
                None => !self@.contains_key(id),
            },
    {
        broadcast use group_hash_axioms;

        match self.entries.get(&id) {
            Some(kind) => Some(*kind),
            None => None,
        }
    }

    /// How many operations are open.
    pub fn len(&self) -> (len: usize)
        requires
            self.wf(),
        ensures
            self@.dom().finite(),
            len == self@.dom().len(),
            len <= BULK_WRITE_MAX_FLOWS_PER_CLIENT,
    {
        broadcast use group_hash_axioms;

        self.entries.len()
    }

    /// Open one operation, unless its ID is open already or the client has reached its limit.
    pub fn admit_bulk_open(&mut self, id: u32, kind: BulkKind) -> (admission: BulkOpenAdmission)
        requires
            old(self).wf(),
        ensures
            final(self).wf(),
            old(self)@.dom().finite(),
            admission == if old(self)@.contains_key(id) {
                BulkOpenAdmission::Duplicate
            } else if old(self)@.dom().len() >= BULK_WRITE_MAX_FLOWS_PER_CLIENT {
                BulkOpenAdmission::LimitReached
            } else {
                BulkOpenAdmission::Accepted
            },
            admission == BulkOpenAdmission::LimitReached <==> !old(self)@.contains_key(id) && old(
                self,
            )@.dom().len() >= 64,
            final(self)@ == if admission == BulkOpenAdmission::Accepted {
                old(self)@.insert(id, kind)
            } else {
                old(self)@
            },
    {
        broadcast use group_hash_axioms;

        if self.entries.contains_key(&id) {
            return BulkOpenAdmission::Duplicate;
        }
        if self.entries.len() >= BULK_WRITE_MAX_FLOWS_PER_CLIENT {
            return BulkOpenAdmission::LimitReached;
        }
        self.entries.insert(id, kind);
        assert(self@.dom() =~= old(self)@.dom().insert(id));
        BulkOpenAdmission::Accepted
    }

    /// Close an operation.
    pub fn remove(&mut self, id: u32)
        requires
            old(self).wf(),
        ensures
            final(self).wf(),
            final(self)@ == old(self)@.remove(id),
    {
        broadcast use group_hash_axioms;

        self.entries.remove(&id);
        assert(self@.dom() =~= old(self)@.dom().remove(id));
        assert(self@ =~= old(self)@.remove(id));
    }

    /// All open operations.
    pub fn list(&self) -> (entries: Vec<(u32, BulkKind)>)
        ensures
            lists_operations(entries@, self@),
    {
        broadcast use group_hash_axioms;

        let mut entries: Vec<(u32, BulkKind)> = Vec::new();
        let iter = self.entries.iter();
        let ghost all = iter.remaining();
        for entry in it: iter
            invariant
                it.seq() == all,
                entries@.len() == it.index(),
                forall|i: int|
                    0 <= i < entries@.len() ==> #[trigger] entries@[i] == (*all[i].0, *all[i].1),
        {
            entries.push((*entry.0, *entry.1));
        }
        proof {
            assert forall|i: int| 0 <= i < entries@.len() implies self@.contains_key(
                (#[trigger] entries@[i]).0,
            ) && self@[entries@[i].0] == entries@[i].1 by {
                assert(self.entries@.contains_key(*all[i].0));
            }
            assert forall|i: int, j: int| 0 <= i < j < entries@.len() implies (
            #[trigger] entries@[i]).0 != (#[trigger] entries@[j]).0 by {
                if entries@[i].0 == entries@[j].0 {
                    assert(all[i] == all[j]);
                }
            }
            assert forall|id: u32| #[trigger] self@.contains_key(id) implies entries@.contains(
                (id, self@[id]),
            ) by {
                let i = choose|i: int| 0 <= i < all.len() && all[i] == (&id, &self@[id]);
                assert(entries@[i] == (id, self@[id]));
            }
        }
        entries
    }
}

} // verus!
