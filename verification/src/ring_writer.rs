//! The host-to-guest control writer: bounded admission per class, and one scheduling decision at
//! a time.

use std::collections::VecDeque;

use vstd::prelude::*;

use crate::order::choose_write;
use crate::order::clock_waits;
use crate::order::queue_view;
use crate::order::select_control_write;
use crate::order::Choice;
use crate::order::ClockAttempt;
use crate::order::ControlWrite;
use crate::order::CreditGate;
use crate::order::AGENT_WRITE_CHANNEL_CAPACITY;
use crate::order::AGENT_WRITE_CLASS_FRAMES;
use crate::order::AGENT_WRITE_CONTROL_BYTES;
use crate::order::AGENT_WRITE_DATA_BYTES;
use crate::stall::InputStall;
use crate::stall::INPUT_STALL_TIMEOUT_MS;

verus! {

/// What is free in the two admission classes.
#[derive(Clone, Copy, Debug, PartialEq, Eq, Structural)]
pub struct ControlBudget {
    data_bytes: usize,
    data_frames: usize,
    control_bytes: usize,
    control_frames: usize,
}

/// One frame's share of a class. It lasts until the frame is physically written.
#[derive(Debug)]
pub struct Reservation {
    uses_data_credit: bool,
    bytes: usize,
}

impl Reservation {
    pub closed spec fn uses_data_credit(&self) -> bool {
        self.uses_data_credit
    }

    pub closed spec fn bytes(&self) -> nat {
        self.bytes as nat
    }
}

/// Free bytes and frames of both classes.
#[derive(Clone, Copy)]
pub struct FreeShares {
    pub data_bytes: nat,
    pub data_frames: nat,
    pub control_bytes: nat,
    pub control_frames: nat,
}

impl View for ControlBudget {
    type V = FreeShares;

    closed spec fn view(&self) -> FreeShares {
        FreeShares {
            data_bytes: self.data_bytes as nat,
            data_frames: self.data_frames as nat,
            control_bytes: self.control_bytes as nat,
            control_frames: self.control_frames as nat,
        }
    }
}

impl FreeShares {
    /// A class has room for one frame of `len` bytes.
    pub open spec fn has_room(self, uses_data_credit: bool, len: nat) -> bool {
        &&& len <= u32::MAX
        &&& if uses_data_credit {
            self.data_frames >= 1 && self.data_bytes >= len
        } else {
            self.control_frames >= 1 && self.control_bytes >= len
        }
    }

    /// The shares with one frame of `len` bytes taken.
    pub open spec fn without(self, uses_data_credit: bool, len: nat) -> FreeShares {
        if uses_data_credit {
            FreeShares {
                data_bytes: (self.data_bytes - len) as nat,
                data_frames: (self.data_frames - 1) as nat,
                ..self
            }
        } else {
            FreeShares {
                control_bytes: (self.control_bytes - len) as nat,
                control_frames: (self.control_frames - 1) as nat,
                ..self
            }
        }
    }

    /// The shares with one frame of `len` bytes given back.
    pub open spec fn with(self, uses_data_credit: bool, len: nat) -> FreeShares {
        if uses_data_credit {
            FreeShares {
                data_bytes: self.data_bytes + len,
                data_frames: self.data_frames + 1,
                ..self
            }
        } else {
            FreeShares {
                control_bytes: self.control_bytes + len,
                control_frames: self.control_frames + 1,
                ..self
            }
        }
    }

    /// No class has more than its reserve.
    pub open spec fn wf(self) -> bool {
        &&& self.data_bytes <= AGENT_WRITE_DATA_BYTES
        &&& self.data_frames <= AGENT_WRITE_CLASS_FRAMES
        &&& self.control_bytes <= AGENT_WRITE_CONTROL_BYTES
        &&& self.control_frames <= AGENT_WRITE_CLASS_FRAMES
    }
}

impl ControlBudget {
    pub fn new() -> (budget: ControlBudget)
        ensures
            budget@.wf(),
            budget@ == (FreeShares {
                data_bytes: AGENT_WRITE_DATA_BYTES as nat,
                data_frames: AGENT_WRITE_CLASS_FRAMES as nat,
                control_bytes: AGENT_WRITE_CONTROL_BYTES as nat,
                control_frames: AGENT_WRITE_CLASS_FRAMES as nat,
            }),
    {
        ControlBudget {
            data_bytes: AGENT_WRITE_DATA_BYTES,
            data_frames: AGENT_WRITE_CLASS_FRAMES,
            control_bytes: AGENT_WRITE_CONTROL_BYTES,
            control_frames: AGENT_WRITE_CLASS_FRAMES,
        }
    }

    /// Reserve one frame of `len` bytes in its class, or leave the classes as they are.
    pub fn reserve(&mut self, uses_data_credit: bool, len: usize) -> (reservation: Option<Reservation>)
        requires
            old(self)@.wf(),
        ensures
            final(self)@.wf(),
            if old(self)@.has_room(uses_data_credit, len as nat) {
                &&& reservation matches Some(r)
                &&& r.uses_data_credit() == uses_data_credit
                &&& r.bytes() == len
                &&& final(self)@ == old(self)@.without(uses_data_credit, len as nat)
            } else {
                reservation is None && final(self)@ == old(self)@
            },
    {
        if len as u64 > u32::MAX as u64 {
            return None;
        }
        if uses_data_credit {
            if self.data_frames < 1 || self.data_bytes < len {
                return None;
            }
            self.data_frames = self.data_frames - 1;
            self.data_bytes = self.data_bytes - len;
        } else {
            if self.control_frames < 1 || self.control_bytes < len {
                return None;
            }
            self.control_frames = self.control_frames - 1;
            self.control_bytes = self.control_bytes - len;
        }
        Some(Reservation { uses_data_credit, bytes: len })
    }

    /// Give a reservation back.
    pub fn release(&mut self, reservation: Reservation)
        requires
            old(self)@.with(reservation.uses_data_credit(), reservation.bytes()).wf(),
        ensures
            final(self)@ == old(self)@.with(reservation.uses_data_credit(), reservation.bytes()),
    {
        if reservation.uses_data_credit {
            self.data_frames = self.data_frames + 1;
            self.data_bytes = self.data_bytes + reservation.bytes;
        } else {
            self.control_frames = self.control_frames + 1;
            self.control_bytes = self.control_bytes + reservation.bytes;
        }
    }

    /// Free data bytes and frames, free control bytes and frames.
    pub fn available(&self) -> (free: (usize, usize, usize, usize))
        ensures
            free.0 == self@.data_bytes,
            free.1 == self@.data_frames,
            free.2 == self@.control_bytes,
            free.3 == self@.control_frames,
    {
        (self.data_bytes, self.data_frames, self.control_bytes, self.control_frames)
    }
}

/// A reservation that is given back leaves no trace, and one class never takes from the other.
pub proof fn release_undoes_reserve(free: FreeShares, uses_data_credit: bool, len: nat)
    requires
        free.has_room(uses_data_credit, len),
    ensures
        free.without(uses_data_credit, len).with(uses_data_credit, len) == free,
        uses_data_credit ==> free.without(uses_data_credit, len).control_bytes == free.control_bytes
            && free.without(uses_data_credit, len).control_frames == free.control_frames,
        !uses_data_credit ==> free.without(uses_data_credit, len).data_bytes == free.data_bytes
            && free.without(uses_data_credit, len).data_frames == free.data_frames,
{
}

/// The control writer between two decisions.
pub struct RingWriter<T> {
    pending: VecDeque<ControlWrite<T>>,
    ordinary_closed: bool,
    stall: Option<InputStall>,
}

/// What the writer finds when it decides.
pub struct WriterTick {
    /// The console is closed.
    pub closed: bool,
    /// The next private lifecycle frame, which passes a closed gate.
    pub private: Option<Vec<u8>>,
    pub clock: ClockAttempt,
    pub now: u64,
}

/// What the writer does next.
pub enum WriterAction<T> {
    /// The writer ends cleanly.
    Exit,
    /// Deliver these bytes, then confirm and release the ticket.
    Deliver { data: Vec<u8>, ticket: Option<T> },
    /// Wait for a private frame, a change of credit, the stall deadline, an ordinary frame if
    /// `takes_more`, and ring capacity if `for_capacity`.
    Wait { takes_more: bool, for_capacity: bool },
}

/// The stall that belongs to the next decision.
pub open spec fn next_stall(
    stall: Option<InputStall>,
    waits: bool,
    writes: bool,
    gated: bool,
    after: Option<InputStall>,
    now: u64,
) -> bool {
    if !waits && !writes && !gated {
        after is None
    } else {
        match stall {
            Some(before) => {
                &&& after matches Some(wait)
                &&& wait.stalled() == before.stalled()
                &&& wait.remaining(now) == before.remaining(now)
                &&& (wait.paused_at() is Some) == (!writes && gated)
            },
            None => if waits {
                &&& after matches Some(wait)
                &&& !wait.stalled()
                &&& wait.deadline() == now + INPUT_STALL_TIMEOUT_MS
                &&& (wait.paused_at() is Some) == (!writes && gated)
            } else {
                after is None
            },
        }
    }
}

impl<T> RingWriter<T> {
    pub closed spec fn pending(&self) -> Seq<ControlWrite<T>> {
        self.pending@
    }

    pub closed spec fn ordinary_closed(&self) -> bool {
        self.ordinary_closed
    }

    pub closed spec fn stall(&self) -> Option<InputStall> {
        self.stall
    }

    pub open spec fn wf(&self) -> bool {
        self.pending().len() <= AGENT_WRITE_CHANNEL_CAPACITY
    }

    pub fn new() -> (writer: RingWriter<T>)
        ensures
            writer.wf(),
            writer.pending() == Seq::<ControlWrite<T>>::empty(),
            !writer.ordinary_closed(),
            writer.stall() is None,
    {
        RingWriter { pending: VecDeque::new(), ordinary_closed: false, stall: None }
    }

    /// Whether the bounded scheduler takes another frame from the ordinary queue.
    pub fn takes_more(&self) -> (takes: bool)
        ensures
            takes == (self.pending().len() < AGENT_WRITE_CHANNEL_CAPACITY
                && !self.ordinary_closed()),
            takes <==> self.pending().len() < 16 && !self.ordinary_closed(),
    {
        self.pending.len() < AGENT_WRITE_CHANNEL_CAPACITY && !self.ordinary_closed
    }

    /// Move one frame into the scheduler. That does not release its class admission, so a full
    /// data class cannot hide another client's metadata in the queue.
    pub fn accept(&mut self, write: ControlWrite<T>)
        requires
            old(self).pending().len() < AGENT_WRITE_CHANNEL_CAPACITY,
        ensures
            final(self).wf(),
            final(self).pending() == old(self).pending().push(write),
            final(self).ordinary_closed() == old(self).ordinary_closed(),
            final(self).stall() == old(self).stall(),
    {
        self.pending.push_back(write);
    }

    /// The ordinary queue has no more senders.
    pub fn close_ordinary(&mut self)
        ensures
            final(self).ordinary_closed(),
            final(self).pending() == old(self).pending(),
            final(self).stall() == old(self).stall(),
    {
        self.ordinary_closed = true;
    }

    /// The capacity wait, for the delivery of a selected write.
    pub fn set_stall(&mut self, stall: Option<InputStall>)
        ensures
            final(self).stall() == stall,
            final(self).pending() == old(self).pending(),
            final(self).ordinary_closed() == old(self).ordinary_closed(),
    {
        self.stall = stall;
    }

    pub fn current_stall(&self) -> (stall: Option<InputStall>)
        ensures
            stall == self.stall(),
    {
        self.stall
    }

    /// Decide what to write. A private frame goes first; otherwise the ordering rules select an
    /// ordinary one.
    pub fn decide(&mut self, gate: &mut CreditGate, tick: WriterTick) -> (result: Result<
        WriterAction<T>,
        String,
    >)
        requires
            old(self).wf(),
            tick.now + INPUT_STALL_TIMEOUT_MS <= u64::MAX,
            old(self).stall() matches Some(wait) ==> wait.can_resume(tick.now),
        ensures
            final(self).wf(),
            final(self).ordinary_closed() == old(self).ordinary_closed(),
            ({
                let before = queue_view(old(self).pending(), tick.clock);
                let after = queue_view(final(self).pending(), tick.clock);
                let gated = old(gate).gated;
                if tick.closed {
                    &&& result matches Ok(action)
                    &&& action is Exit
                    &&& after == before
                    &&& *final(gate) == *old(gate)
                    &&& final(self).stall() == old(self).stall()
                } else if tick.private is Some {
                    &&& result matches Ok(action)
                    &&& action == (WriterAction::<T>::Deliver {
                        data: tick.private.unwrap(),
                        ticket: None,
                    })
                    &&& after == before
                    &&& *final(gate) == *old(gate)
                    &&& next_stall(
                        old(self).stall(),
                        false,
                        true,
                        gated,
                        final(self).stall(),
                        tick.now,
                    )
                } else {
                    match choose_write(before, *old(gate), tick.clock) {
                        Choice::Fail(reason) => {
                            &&& result matches Err(e)
                            &&& e == reason
                            &&& after == before
                            &&& *final(gate) == *old(gate)
                            &&& final(self).stall() == old(self).stall()
                        },
                        Choice::Take(i) => {
                            &&& result matches Ok(action)
                            &&& action matches WriterAction::Deliver { data, ticket }
                            &&& data@ == before[i].data
                            &&& ticket == Some(before[i].ticket)
                            &&& after == before.remove(i)
                            &&& *final(gate) == old(gate).charged(
                                before[i].uses_data_credit,
                                before[i].data.len(),
                            )
                            &&& next_stall(
                                old(self).stall(),
                                clock_waits(before, *old(gate), tick.clock, i),
                                true,
                                gated,
                                final(self).stall(),
                                tick.now,
                            )
                        },
                        Choice::Nothing => {
                            let waits = clock_waits(
                                before,
                                *old(gate),
                                tick.clock,
                                before.len() as int,
                            );
                            &&& result matches Ok(action)
                            &&& after == before
                            &&& *final(gate) == *old(gate)
                            &&& next_stall(
                                old(self).stall(),
                                waits,
                                false,
                                gated,
                                final(self).stall(),
                                tick.now,
                            )
                            &&& if old(self).ordinary_closed() && before.len() == 0 {
                                action is Exit
                            } else {
                                action == (WriterAction::<T>::Wait {
                                    takes_more: before.len() < AGENT_WRITE_CHANNEL_CAPACITY
                                        && !old(self).ordinary_closed(),
                                    for_capacity: waits,
                                })
                            }
                        },
                    }
                }
            }),
    {
        if tick.closed {
            return Ok(WriterAction::Exit);
        }
        let gated = gate.gated;
        if let Some(data) = tick.private {
            self.update_stall(false, true, gated, tick.now);
            return Ok(WriterAction::Deliver { data, ticket: None });
        }
        let ghost before = queue_view(self.pending@, tick.clock);
        match select_control_write(&mut self.pending, gate, &tick.clock) {
            Err(reason) => {
                assert(queue_view(self.pending@, tick.clock).len() == before.len());
                Err(reason)
            },
            Ok((Some(write), waits)) => {
                assert(queue_view(self.pending@, tick.clock).len() < before.len());
                self.update_stall(waits, true, gated, tick.now);
                Ok(WriterAction::Deliver { data: write.data, ticket: Some(write.ticket) })
            },
            Ok((None, waits)) => {
                assert(queue_view(self.pending@, tick.clock).len() == before.len());
                self.update_stall(waits, false, gated, tick.now);
                if self.ordinary_closed && self.pending.len() == 0 {
                    return Ok(WriterAction::Exit);
                }
                Ok(
                    WriterAction::Wait {
                        takes_more: self.pending.len() < AGENT_WRITE_CHANNEL_CAPACITY
                            && !self.ordinary_closed,
                        for_capacity: waits,
                    },
                )
            },
        }
    }

    fn update_stall(&mut self, waits: bool, writes: bool, gated: bool, now: u64)
        requires
            now + INPUT_STALL_TIMEOUT_MS <= u64::MAX,
            old(self).stall() matches Some(wait) ==> wait.can_resume(now),
        ensures
            final(self).pending == old(self).pending,
            final(self).ordinary_closed == old(self).ordinary_closed,
            next_stall(old(self).stall(), waits, writes, gated, final(self).stall(), now),
    {
        if !waits && !writes && !gated {
            self.stall = None;
        } else if waits && self.stall.is_none() {
            self.stall = Some(InputStall::new(now, INPUT_STALL_TIMEOUT_MS));
        }
        if let Some(wait) = self.stall {
            let mut wait = wait;
            wait.set_paused(!writes && gated, now);
            self.stall = Some(wait);
        }
    }
}

/// A class has room for a frame exactly where it has a frame and the frame's bytes left, and a
/// reservation takes exactly these from its own class.
pub proof fn reservations_take_their_own_share(free: FreeShares, uses_data_credit: bool, len: nat)
    ensures
        free.has_room(true, len) <==> len <= u32::MAX && free.data_frames > 0 && len
            <= free.data_bytes,
        free.has_room(false, len) <==> len <= u32::MAX && free.control_frames > 0 && len
            <= free.control_bytes,
        free.has_room(true, len) ==> ({
            let left = free.without(true, len);
            left.data_frames + 1 == free.data_frames && left.data_bytes + len == free.data_bytes
        }),
        free.has_room(false, len) ==> ({
            let left = free.without(false, len);
            left.control_frames + 1 == free.control_frames && left.control_bytes + len
                == free.control_bytes
        }),
        free.wf() <==> free.data_frames <= 8 && free.control_frames <= 8 && free.data_bytes <= 33554432
            && free.control_bytes <= 8388608,
{
}

/// A capacity wait begins when a clock first waits for the ring and goes on, with what is left of
/// it, until the writer has neither a wait nor a write nor a lifecycle change to go on with. It is
/// paused exactly while a lifecycle change holds input back and nothing is written.
pub proof fn capacity_wait_is_carried_on(
    before: Option<InputStall>,
    waits: bool,
    writes: bool,
    gated: bool,
    after: Option<InputStall>,
    now: u64,
)
    requires
        next_stall(before, waits, writes, gated, after, now),
    ensures
        after is Some <==> (before is Some && (waits || writes || gated)) || (before is None
            && waits),
        after matches Some(wait) ==> {
            &&& wait.paused_at() is Some <==> gated && !writes
            &&& before matches Some(wait_before) ==> wait.stalled() == wait_before.stalled()
                && wait.remaining(now) == wait_before.remaining(now)
            &&& before is None ==> !wait.stalled() && wait.deadline() == now + 60000
        },
{
}

} // verus!
