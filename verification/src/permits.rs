//! Permits of `tokio` semaphores that bound the memory of the relay and of the control endpoint.

use std::sync::Arc;

use tokio::sync::OwnedSemaphorePermit;
use tokio::sync::Semaphore;
use vstd::prelude::*;

use crate::output::granules;
use crate::output::output_charge;
use crate::roster::RouteError;

verus! {

/// The semaphore of `tokio`.
#[verifier::external_type_specification]
#[verifier::external_body]
pub struct ExSemaphore(tokio::sync::Semaphore);

/// What `tokio`'s semaphore hands out.
#[verifier::external_type_specification]
#[verifier::external_body]
pub struct ExOwnedSemaphorePermit(tokio::sync::OwnedSemaphorePermit);

/// Permits of a semaphore, and how many; they return to it when this is dropped.
pub struct HeldPermits {
    permit: OwnedSemaphorePermit,
    semaphore: Arc<Semaphore>,
    count: u32,
}

impl HeldPermits {
    pub closed spec fn permits(self) -> u32 {
        self.count
    }

    /// The semaphore that they are of.
    pub closed spec fn semaphore(self) -> Semaphore {
        *self.semaphore
    }
}

/// `tokio::sync::Semaphore::try_acquire_many_owned`: that many permits of this semaphore, if it is
/// open and has them at the moment. When it has them is not stated: other holders decide that. It panics
/// on more permits than any semaphore can have, which `requires` excludes.
#[verifier::external_body]
pub(crate) fn try_hold(semaphore: &Arc<Semaphore>, count: u32) -> (held: Option<HeldPermits>)
    requires
        count <= usize::MAX / 8,
    ensures
        held matches Some(held) ==> held.permits() == count && held.semaphore() == **semaphore,
{
    match Arc::clone(semaphore).try_acquire_many_owned(count) {
        Ok(permit) => Some(HeldPermits { permit, semaphore: Arc::clone(semaphore), count }),
        Err(_) => None,
    }
}

/// A client's output reservation, for what its budget had to give.
pub fn output_reservation(slot: u32, held: Option<HeldPermits>) -> (permit: Result<
    HeldPermits,
    RouteError,
>)
    ensures
        permit == match held {
            Some(permit) => Ok(permit),
            None => Err(RouteError::BudgetInvariant { slot }),
        },
{
    match held {
        Some(permit) => Ok(permit),
        None => Err(RouteError::BudgetInvariant { slot }),
    }
}

/// Reserve a client's output capacity for a frame of this length. The lanes' own budgets are never
/// larger than a client's, so that a lack of permits means that the accounting is broken.
pub fn reserve_client_output(slot: u32, len: usize, budget: &Arc<Semaphore>) -> (permit: Result<
    HeldPermits,
    RouteError,
>)
    ensures
        match permit {
            Ok(permit) => permit.permits() == granules(len as nat) && permit.semaphore() == **budget,
            Err(error) => error == if granules(len as nat) > u32::MAX {
                RouteError::ChargeOverflow
            } else {
                RouteError::BudgetInvariant { slot }
            },
        },
{
    let charge: u32 = match output_charge(len) {
        Some(charge) => charge,
        None => {
            return Err(RouteError::ChargeOverflow);
        },
    };
    if charge as u64 > (usize::MAX / 8) as u64 {
        return Err(RouteError::BudgetInvariant { slot });
    }
    output_reservation(slot, try_hold(budget, charge))
}

} // verus!
