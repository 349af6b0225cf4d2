//! Requests that the host answers itself, with a typed failure at the request's version.

use std::sync::Arc;

use tokio::sync::Semaphore;
use vstd::prelude::*;
use vstd::string::*;

use crate::bulk::BULK_WRITE_MAX_FLOWS_PER_CLIENT;
use crate::output::granules;
use crate::output::output_charge;
use crate::output::ClientWrite;
use crate::permits::try_hold;
use crate::permits::HeldPermits;
use crate::text::decimal;
use crate::text::numbered;
use crate::wire::BulkKind;
use crate::wire::WireProfile;

verus! {

/// The body of a rejection.
pub enum RejectionBody {
    /// A failed filesystem response without data.
    FsResponse { error: String },
    /// A failed connection.
    TcpFailed { error: String },
}

/// The terminal message that refuses a bulk operation.
pub struct Rejection {
    pub version: u8,
    pub id: u32,
    pub flags: u8,
    pub body: RejectionBody,
}

/// The text of a refused bulk operation.
pub open spec fn bulk_limit_text() -> Seq<char> {
    "client already has the maximum of "@ + decimal(BULK_WRITE_MAX_FLOWS_PER_CLIENT as nat)
        + " active bulk operations"@
}

/// Refuse the excess bulk operation alone, with the terminal that its kind knows.
pub fn bulk_open_rejection(profile: &WireProfile, version: u8, id: u32, kind: BulkKind) -> (rejection:
    Rejection)
    ensures
        rejection.version == version,
        rejection.id == id,
        rejection.flags == profile.flag_terminal,
        match kind {
            BulkKind::Filesystem => rejection.body matches RejectionBody::FsResponse { error }
                && error@ == bulk_limit_text(),
            BulkKind::Tcp => rejection.body matches RejectionBody::TcpFailed { error } && error@
                == bulk_limit_text(),
        },
{
    let error = numbered(
        "client already has the maximum of ",
        BULK_WRITE_MAX_FLOWS_PER_CLIENT as u64,
        " active bulk operations",
    );
    let body = match kind {
        BulkKind::Filesystem => RejectionBody::FsResponse { error },
        BulkKind::Tcp => RejectionBody::TcpFailed { error },
    };
    Rejection { version, id, flags: profile.flag_terminal, body }
}

/// The core error, of an invalid session, that refuses new work.
pub struct PausedRejection {
    pub version: u8,
    pub id: u32,
    pub message: String,
}

/// Refuse new work of a paused sandbox, whose guest cannot refuse it itself.
pub fn paused_rejection(version: u8, id: u32) -> (rejection: PausedRejection)
    ensures
        rejection.version == version,
        rejection.id == id,
        rejection.message@ == "sandbox is paused; resume it before starting guest work"@,
{
    PausedRejection {
        version,
        id,
        message: String::from_str("sandbox is paused; resume it before starting guest work"),
    }
}

/// Why a rejection cannot be delivered.
#[derive(Clone, Copy, Debug, PartialEq, Eq, Structural)]
pub enum RejectionError {
    Overflow,
    Full,
}

impl RejectionError {
    pub open spec fn text(self) -> Seq<char> {
        match self {
            RejectionError::Overflow => "bulk admission rejection budget overflow"@,
            RejectionError::Full => "client output full while rejecting a bulk operation"@,
        }
    }

    pub fn message(&self) -> (text: String)
        ensures
            text@ == self.text(),
    {
        match self {
            RejectionError::Overflow => String::from_str(
                "bulk admission rejection budget overflow",
            ),
            RejectionError::Full => String::from_str(
                "client output full while rejecting a bulk operation",
            ),
        }
    }
}

/// The item that delivers an encoded rejection, for what the mailbox's budget had to give.
pub fn rejection_write<L>(wire: Vec<u8>, held: Option<HeldPermits>) -> (write: Result<
    ClientWrite<L, HeldPermits>,
    RejectionError,
>)
    ensures
        match held {
            Some(permit) => write matches Ok(write) && write == (ClientWrite::<L, HeldPermits>::Inline {
                data: wire,
                permit,
            }),
            None => write matches Err(error) && error == RejectionError::Full,
        },
{
    match held {
        Some(permit) => Ok(ClientWrite::Inline { data: wire, permit }),
        None => Err(RejectionError::Full),
    }
}

/// Queue an encoded rejection in the same bounded mailbox as guest output. Whether the mailbox has
/// room depends on what the client has not read yet.
pub fn queue_client_rejection<L>(wire: Vec<u8>, budget: &Arc<Semaphore>) -> (write: Result<
    ClientWrite<L, HeldPermits>,
    RejectionError,
>)
    ensures
        match write {
            Ok(write) => {
                &&& write matches ClientWrite::Inline { data, permit }
                &&& data == wire
                &&& permit.permits() == granules(wire@.len())
                &&& permit.semaphore() == **budget
            },
            Err(error) => error == if granules(wire@.len()) > u32::MAX {
                RejectionError::Overflow
            } else {
                RejectionError::Full
            },
        },
{
    let charge: u32 = match output_charge(wire.len()) {
        Some(charge) => charge,
        None => {
            return Err(RejectionError::Overflow);
        },
    };
    if charge as u64 > (usize::MAX / 8) as u64 {
        return Err(RejectionError::Full);
    }
    rejection_write(wire, try_hold(budget, charge))
}

} // verus!
