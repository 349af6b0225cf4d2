//! One endpoint: the parser is selected once, and framed sessions are bounded.

use std::sync::Arc;

use tokio::sync::Semaphore;
use vstd::prelude::*;
use vstd::string::*;

use crate::wire::be_u32;
use crate::wire::be_value;
use super::dispatch::queued;
use super::dispatch::submitted;
use super::dispatch::Budget;
use super::dispatch::Dispatcher;
use super::dispatch::InFlight;
use super::dispatch::InvalidExchange;
use super::dispatch::Lease;
use super::dispatch::RequestHead;
use super::dispatch::MAX_QUEUED;
use super::handler::Reply;
use super::handler::ReplyView;
use super::model::ControlError;
use super::model::ErrorEffect;
use super::model::ErrorState;

verus! {

pub const MAX_CONNECTIONS: usize = 128;

/// How a connection is served.
#[derive(Clone, Copy, Debug, PartialEq, Eq, Structural)]
pub enum Opening {
    /// The peer only looked whether the endpoint exists.
    Probe,
    /// One JSON line.
    Json,
    /// Framed requests, after a handshake.
    Framed,
    /// A descriptor never travels with a framed handshake.
    Refused,
}

/// How a connection is served, by its first byte. A frame's length prefix begins with zero, since
/// frames are small; no JSON line does.
pub open spec fn opening_of(first: Option<u8>, carries_memory: bool) -> Opening {
    match first {
        None => Opening::Probe,
        Some(byte) => if byte != 0 {
            Opening::Json
        } else if carries_memory {
            Opening::Refused
        } else {
            Opening::Framed
        },
    }
}

/// Select the parser of a connection.
pub fn select_parser(first: Option<u8>, carries_memory: bool) -> (opening: Opening)
    ensures
        opening == opening_of(first, carries_memory),
{
    match first {
        None => Opening::Probe,
        Some(byte) => if byte != 0 {
            Opening::Json
        } else if carries_memory {
            Opening::Refused
        } else {
            Opening::Framed
        },
    }
}

/// The announced length of a frame, within its bounds.
pub fn frame_length(prefix: &[u8], max: u32) -> (length: Result<u32, InvalidExchange>)
    requires
        prefix@.len() == 4,
    ensures
        match length {
            Ok(length) => length == be_value(prefix@) && 5 <= length <= max,
            Err(_) => be_value(prefix@) < 5 || be_value(prefix@) > max,
        },
{
    let length: u32 = be_u32(prefix, 0);
    assert(prefix@.subrange(0, 4) =~= prefix@);
    if length < 5 || length > max {
        return Err(InvalidExchange);
    }
    Ok(length)
}

/// The bytes that a frame of this length is charged for: its length prefix counts too.
pub fn frame_charge(length: u32) -> (charge: u32)
    requires
        length <= u32::MAX - 4,
    ensures
        charge == length + 4,
{
    length + 4
}

/// A framed control message.
pub struct ControlFrame {
    pub id: u32,
    pub flags: u8,
    pub body: Vec<u8>,
}

/// Take a frame apart, behind its length prefix.
pub fn control_frame(bytes: &Vec<u8>) -> (frame: ControlFrame)
    requires
        bytes@.len() >= 5,
    ensures
        frame.id == be_value(bytes@.subrange(0, 4)),
        frame.flags == bytes@[4],
        frame.body@ == bytes@.subrange(5, bytes@.len() as int),
{
    let id: u32 = be_u32(bytes.as_slice(), 0);
    let rest = vstd::slice::slice_subrange(bytes.as_slice(), 5, bytes.len());
    let mut body: Vec<u8> = Vec::new();
    body.extend_from_slice(rest);
    assert(body@ =~= bytes@.subrange(5, bytes@.len() as int));
    ControlFrame { id, flags: bytes[4], body }
}

/// Why a handshake is refused before anything is negotiated, if it is.
pub open spec fn handshake_refusal(
    id: u32,
    flags: u8,
    head: RequestHead,
    hello_valid: bool,
) -> Option<ErrorState> {
    let refused = |message: Seq<char>|
        Some(
            ErrorState {
                code: "invalid_handshake"@,
                message,
                effect: ErrorEffect::Untouched,
            },
        );
    if id != 0 || flags != 0 || head.v != 1 || head.t@ != "control.hello"@ {
        refused("expected control hello"@)
    } else if !hello_valid {
        refused("invalid control hello"@)
    } else {
        None
    }
}

/// Check the first frame of a framed session. Nothing is dispatched before the welcome.
pub fn check_hello(id: u32, flags: u8, head: &RequestHead, hello_valid: bool) -> (refused: Option<
    ControlError,
>)
    ensures
        match refused {
            Some(error) => handshake_refusal(id, flags, *head, hello_valid) == Some(error@),
            None => handshake_refusal(id, flags, *head, hello_valid) is None,
        },
{
    let is_hello = head.t == String::from_str("control.hello");
    if id != 0 || flags != 0 || head.v != 1 || !is_hello {
        return Some(ControlError::rejected("invalid_handshake", "expected control hello"));
    }
    if !hello_valid {
        return Some(ControlError::rejected("invalid_handshake", "invalid control hello"));
    }
    None
}

/// A framed session: what it has in flight, and the capacities it draws on.
pub struct FramedSession {
    ids: InFlight,
    capacity: Arc<Semaphore>,
    bytes: Arc<Semaphore>,
    reply_bytes: u32,
}

/// What a framed session has in flight, the capacities it draws on, and that of one reply.
pub ghost struct SessionState {
    pub in_flight: Set<u32>,
    pub capacity: Semaphore,
    pub bytes: Semaphore,
    pub reply_bytes: u32,
}

impl View for FramedSession {
    type V = SessionState;

    closed spec fn view(&self) -> SessionState {
        SessionState {
            in_flight: self.ids@,
            capacity: *self.capacity,
            bytes: *self.bytes,
            reply_bytes: self.reply_bytes,
        }
    }
}

/// The right of a request to run, and the capacity for its reply.
pub struct Admission {
    pub lease: Lease,
    pub output_budget: Budget,
}

impl FramedSession {
    /// A session with nothing in flight. `capacity` bounds the requests in flight, `bytes` the
    /// memory of the connection.
    pub fn new(capacity: Arc<Semaphore>, bytes: Arc<Semaphore>, reply_bytes: u32) -> (session:
        FramedSession)
        ensures
            session@ == (SessionState {
                in_flight: Set::<u32>::empty(),
                capacity: *capacity,
                bytes: *bytes,
                reply_bytes,
            }),
    {
        FramedSession { ids: InFlight::new(), capacity, bytes, reply_bytes }
    }

    /// Take in a request: its ID must be free, and its reply must have its capacity reserved. Where
    /// either fails the session ends, and nothing was dispatched. Whether there is capacity depends
    /// on what else is in flight.
    pub fn take_in(&mut self, id: u32, runtime: &Arc<Semaphore>) -> (admission: Result<
        Admission,
        InvalidExchange,
    >)
        requires
            old(self)@.reply_bytes <= usize::MAX / 8,
        ensures
            id == 0 || old(self)@.in_flight.contains(id) ==> admission is Err,
            match admission {
                Ok(admission) => {
                    &&& final(self)@ == (SessionState {
                        in_flight: old(self)@.in_flight.insert(id),
                        ..old(self)@
                    })
                    &&& admission.lease@.id == Some(id)
                    &&& admission.lease@.permit matches Some(permit)
                    &&& permit.permits() == 1
                    &&& permit.semaphore() == old(self)@.capacity
                    &&& admission.output_budget.connection.permits() == old(self)@.reply_bytes
                    &&& admission.output_budget.connection.semaphore() == old(self)@.bytes
                    &&& admission.output_budget.runtime.permits() == old(self)@.reply_bytes
                    &&& admission.output_budget.runtime.semaphore() == **runtime
                },
                Err(_) => final(self)@ == old(self)@,
            },
    {
        let lease = match Lease::acquire(id, &mut self.ids, &self.capacity) {
            Ok(lease) => lease,
            Err(error) => {
                return Err(error);
            },
        };
        let budget = Budget::reserve_reply(&self.bytes, runtime, self.reply_bytes);
        let admission = self.grant(lease, budget);
        assert(admission is Err ==> self@.in_flight =~= old(self)@.in_flight);
        admission
    }

    /// Let a request run that has its lease, given what came of reserving its reply. Where that
    /// failed, its ID is free again.
    pub fn grant(&mut self, lease: Lease, budget: Result<Budget, InvalidExchange>) -> (admission:
        Result<Admission, InvalidExchange>)
        ensures
            match budget {
                Ok(budget) => {
                    &&& admission matches Ok(admission)
                    &&& admission.lease == lease
                    &&& admission.output_budget == budget
                    &&& final(self)@ == old(self)@
                },
                Err(_) => {
                    &&& admission is Err
                    &&& final(self)@ == (SessionState {
                        in_flight: match lease@.id {
                            Some(id) => old(self)@.in_flight.remove(id),
                            None => old(self)@.in_flight,
                        },
                        ..old(self)@
                    })
                },
            },
    {
        match budget {
            Ok(output_budget) => Ok(Admission { lease, output_budget }),
            Err(error) => {
                let mut lease = lease;
                lease.terminal_admitted(&mut self.ids);
                Err(error)
            },
        }
    }

    /// A terminal reply is about to be written.
    pub fn terminal_admitted(&mut self, lease: &mut Lease)
        ensures
            final(lease)@.id is None,
            final(lease)@.permit is None,
            final(self)@ == (SessionState {
                in_flight: match old(lease)@.id {
                    Some(id) => old(self)@.in_flight.remove(id),
                    None => old(self)@.in_flight,
                },
                ..old(self)@
            }),
    {
        lease.terminal_admitted(&mut self.ids);
    }
}

/// What becomes of a request that was taken in.
pub enum Submission<J> {
    Queued,
    /// The runtime's queue is full: answer without executing.
    Busy { job: J, reply: Reply },
}

/// Queue a request for the host.
pub fn submit_request<J>(dispatcher: &mut Dispatcher<J>, connection: u64, job: J) -> (submission:
    Submission<J>)
    requires
        old(dispatcher).wf(),
    ensures
        final(dispatcher).wf(),
        if queued(old(dispatcher)@) >= MAX_QUEUED {
            &&& submission matches Submission::Busy { job: returned, reply }
            &&& returned == job
            &&& reply@ == ReplyView::Error(
                ErrorState {
                    code: "busy"@,
                    message: "control runtime is busy"@,
                    effect: ErrorEffect::Untouched,
                },
            )
            &&& final(dispatcher)@ == old(dispatcher)@
        } else {
            &&& submission is Queued
            &&& final(dispatcher)@ == submitted(old(dispatcher)@, connection, job)
        },
{
    match dispatcher.submit(connection, job) {
        Ok(()) => Submission::Queued,
        Err(job) => Submission::Busy {
            job,
            reply: Reply::Error(ControlError::rejected("busy", "control runtime is busy")),
        },
    }
}

/// A session that was opened framed never falls back to JSON, and a descriptor is never taken with
/// a framed handshake.
pub proof fn parser_selection_is_by_first_byte(byte: u8, carries_memory: bool)
    ensures
        opening_of(Some(byte), carries_memory) == Opening::Json <==> byte != 0,
        opening_of(Some(byte), carries_memory) == Opening::Framed <==> byte == 0 && !carries_memory,
        opening_of(None, carries_memory) == Opening::Probe,
{
}

/// A framed session begins with one frame only: a valid hello of the first generation, without a
/// correlation and without flags. Everything else is refused before anything is negotiated.
pub proof fn sessions_begin_with_a_hello(id: u32, flags: u8, head: RequestHead, hello_valid: bool)
    ensures
        ({
            let refused = handshake_refusal(id, flags, head, hello_valid);
            let hello = id == 0 && flags == 0 && head.v == 1 && head.t@ == "control.hello"@;
            &&& refused is None <==> hello && hello_valid
            &&& refused matches Some(error) ==> {
                &&& error.code == "invalid_handshake"@
                &&& error.effect == ErrorEffect::Untouched
                &&& !hello ==> error.message == "expected control hello"@
                &&& hello ==> error.message == "invalid control hello"@
            }
        }),
        opening_of(Some(0), true) == Opening::Refused,
{
}

} // verus!
