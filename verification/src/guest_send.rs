//! Sending one host-originated frame to the guest with a deadline.
//!
//! Before the agent is ready the frame goes straight into the console ring. Afterwards it joins
//! the ordinary control queue, so that it cannot bypass a frozen or credit-starved head.

use vstd::prelude::*;
use vstd::string::*;

verus! {

/// Deadline of a send whose caller gives none.
pub const GUEST_FRAME_TIMEOUT_MS: u64 = 60_000;

/// How often a synchronous sender polls for its receipt.
pub const RECEIPT_POLL_MS: u64 = 10;

/// The ordinary control writer, as a sender finds it.
pub enum OrdinaryWriter {
    /// The agent is not ready: there is no writer yet.
    PreReady,
    Running,
    /// The agent is ready, but its writer does not run.
    Stopped { reason: String },
}

/// Why a frame was not delivered.
#[derive(Debug)]
pub enum SendError {
    NotRunning { reason: String },
    TimedOut,
    OrderedTimedOut,
    WriterStopped,
    ReceiptDropped,
}

impl SendError {
    pub open spec fn text(self) -> Seq<char> {
        match self {
            SendError::NotRunning { reason } => reason@,
            SendError::TimedOut => "timed out sending frame to agentd"@,
            SendError::OrderedTimedOut => "timed out sending ordered frame to agentd"@,
            SendError::WriterStopped => "agent control writer stopped"@,
            SendError::ReceiptDropped => "agent control writer dropped admission receipt"@,
        }
    }

    pub fn message(&self) -> (text: String)
        ensures
            text@ == self.text(),
    {
        match self {
            SendError::NotRunning { reason } => reason.clone(),
            SendError::TimedOut => String::from_str("timed out sending frame to agentd"),
            SendError::OrderedTimedOut => String::from_str(
                "timed out sending ordered frame to agentd",
            ),
            SendError::WriterStopped => String::from_str("agent control writer stopped"),
            SendError::ReceiptDropped => String::from_str(
                "agent control writer dropped admission receipt",
            ),
        }
    }
}

/// Which way a frame takes.
#[derive(Clone, Copy, Debug, PartialEq, Eq, Structural)]
pub enum GuestRoute {
    /// Straight into the console ring.
    Direct,
    /// Through the ordinary queue and its admission receipt.
    Ordered,
}

/// A frame on its way to the guest.
pub struct GuestSend {
    pub frame: Vec<u8>,
    pub route: GuestRoute,
    pub deadline: u64,
}

/// What a sender does next.
#[derive(Debug)]
pub enum SendStep {
    Done,
    Fail(SendError),
    /// Capacity came back: push again.
    Retry,
    /// Wait at most this long for a capacity notification.
    Wait { at_most: u64 },
}

/// Begin to send a frame that must be delivered within `timeout`.
pub fn push_guest_frame_until(
    writer: OrdinaryWriter,
    frame: Vec<u8>,
    now: u64,
    timeout: u64,
) -> (result: Result<GuestSend, SendError>)
    requires
        now + timeout <= u64::MAX,
    ensures
        match writer {
            OrdinaryWriter::Stopped { reason } => result matches Err(e) && e
                == (SendError::NotRunning { reason }),
            OrdinaryWriter::Running => result matches Ok(send) && send == (GuestSend {
                frame,
                route: GuestRoute::Ordered,
                deadline: (now + timeout) as u64,
            }),
            OrdinaryWriter::PreReady => result matches Ok(send) && send == (GuestSend {
                frame,
                route: GuestRoute::Direct,
                deadline: (now + timeout) as u64,
            }),
        },
{
    match writer {
        OrdinaryWriter::Stopped { reason } => Err(SendError::NotRunning { reason }),
        OrdinaryWriter::Running => Ok(
            GuestSend { frame, route: GuestRoute::Ordered, deadline: now + timeout },
        ),
        OrdinaryWriter::PreReady => Ok(
            GuestSend { frame, route: GuestRoute::Direct, deadline: now + timeout },
        ),
    }
}

/// Begin to send a frame with the default deadline.
pub fn push_guest_frame_blocking(writer: OrdinaryWriter, frame: Vec<u8>, now: u64) -> (result: Result<
    GuestSend,
    SendError,
>)
    requires
        now + GUEST_FRAME_TIMEOUT_MS <= u64::MAX,
    ensures
        match writer {
            OrdinaryWriter::Stopped { reason } => result matches Err(e) && e
                == (SendError::NotRunning { reason }),
            OrdinaryWriter::Running => result matches Ok(send) && send == (GuestSend {
                frame,
                route: GuestRoute::Ordered,
                deadline: (now + GUEST_FRAME_TIMEOUT_MS) as u64,
            }),
            OrdinaryWriter::PreReady => result matches Ok(send) && send == (GuestSend {
                frame,
                route: GuestRoute::Direct,
                deadline: (now + GUEST_FRAME_TIMEOUT_MS) as u64,
            }),
        },
        result matches Ok(send) ==> send.deadline == now + 60_000,
{
    push_guest_frame_until(writer, frame, now, GUEST_FRAME_TIMEOUT_MS)
}

/// The ring took the frame, or did not; `fits` is read after the failed push.
pub fn direct_send_step(deadline: u64, pushed: bool, fits: bool, now: u64) -> (step: SendStep)
    ensures
        step == if pushed {
            SendStep::Done
        } else if now >= deadline {
            SendStep::Fail(SendError::TimedOut)
        } else if fits {
            SendStep::Retry
        } else {
            SendStep::Wait { at_most: (deadline - now) as u64 }
        },
{
    if pushed {
        return SendStep::Done;
    }
    if now >= deadline {
        return SendStep::Fail(SendError::TimedOut);
    }
    if fits {
        return SendStep::Retry;
    }
    SendStep::Wait { at_most: deadline - now }
}

/// What the ordinary queue said to an attempt to enter it.
#[derive(Clone, Copy, Debug, PartialEq, Eq, Structural)]
pub enum Enqueue {
    /// The frame is in the queue, now or since an earlier attempt.
    Accepted,
    Full,
    Closed,
}

/// State of the receipt for physical admission.
#[derive(Clone, Copy, Debug, PartialEq, Eq, Structural)]
pub enum Receipt {
    Pending,
    Delivered,
    Dropped,
}

/// One round of an ordered send: its queue attempt, its receipt, and the clock. Timing out after
/// the queue accepted the frame does not retract it.
pub fn ordered_send_step(
    deadline: u64,
    enqueue: Enqueue,
    receipt: Receipt,
    closed: bool,
    now: u64,
) -> (step: SendStep)
    ensures
        step == if enqueue == Enqueue::Closed {
            SendStep::Fail(SendError::WriterStopped)
        } else if receipt == Receipt::Delivered {
            SendStep::Done
        } else if receipt == Receipt::Dropped {
            SendStep::Fail(SendError::ReceiptDropped)
        } else if now >= deadline || closed {
            SendStep::Fail(SendError::OrderedTimedOut)
        } else if deadline - now < RECEIPT_POLL_MS {
            SendStep::Wait { at_most: (deadline - now) as u64 }
        } else {
            SendStep::Wait { at_most: RECEIPT_POLL_MS }
        },
        step matches SendStep::Wait { at_most } ==> 0 < at_most <= 10 && now + at_most <= deadline,
{
    if enqueue == Enqueue::Closed {
        return SendStep::Fail(SendError::WriterStopped);
    }
    match receipt {
        Receipt::Delivered => {
            return SendStep::Done;
        },
        Receipt::Dropped => {
            return SendStep::Fail(SendError::ReceiptDropped);
        },
        Receipt::Pending => {},
    }
    if now >= deadline || closed {
        return SendStep::Fail(SendError::OrderedTimedOut);
    }
    let remaining: u64 = deadline - now;
    SendStep::Wait {
        at_most: if remaining < RECEIPT_POLL_MS {
            remaining
        } else {
            RECEIPT_POLL_MS
        },
    }
}

} // verus!
