//! Guest output on its way to a client's socket: admission charges, batches and short writes.

use std::collections::VecDeque;

use vstd::prelude::*;

verus! {

/// Aggregate guest-to-client bytes retained by the relay.
pub const CLIENT_OUTPUT_BYTE_CAPACITY: usize = 32 * 1024 * 1024;

/// Allocation granularity used for relay output admission.
pub const OUTPUT_BUDGET_GRANULE: usize = 4096;

/// Maximum bytes opportunistically coalesced in one client socket batch.
pub const CLIENT_WRITE_BATCH_BYTES: usize = 256 * 1024;

/// Maximum frame slices opportunistically coalesced in one client socket batch.
pub const CLIENT_WRITE_BATCH_FRAMES: usize = 64;

/// `len` rounded up to the admission granule.
pub open spec fn granules(len: nat) -> nat {
    ((len + (OUTPUT_BUDGET_GRANULE - 1)) / OUTPUT_BUDGET_GRANULE as int * OUTPUT_BUDGET_GRANULE) as nat
}

/// The admission charge of a frame, or nothing where a budget cannot represent it.
pub fn output_charge(len: usize) -> (charge: Option<u32>)
    ensures
        charge == if granules(len as nat) <= u32::MAX {
            Some(granules(len as nat) as u32)
        } else {
            None
        },
{
    let rounded: u128 = (len as u128 + 4095) / 4096 * 4096;
    if rounded <= u32::MAX as u128 {
        Some(rounded as u32)
    } else {
        None
    }
}

/// Separate dual-port reserve for latency-sensitive guest control frames, for this largest wire
/// frame.
pub fn control_lane_capacity(max_wire_frame: u32) -> (capacity: u64)
    ensures
        capacity == 2 * granules(max_wire_frame as nat),
{
    2 * ((max_wire_frame as u64 + 4095) / 4096 * 4096)
}

/// Maximum guest output retained for one client across both physical lanes. Matching the sum of
/// the lane budgets guarantees that scheduling a healthy writer cannot itself exhaust this bound.
pub fn client_capacity(max_wire_frame: u32) -> (capacity: u64)
    ensures
        capacity == CLIENT_OUTPUT_BYTE_CAPACITY + 2 * granules(max_wire_frame as nat),
{
    CLIENT_OUTPUT_BYTE_CAPACITY as u64 + control_lane_capacity(max_wire_frame)
}

/// One item in the canonical guest-to-client output order.
///
/// Shared-arena descriptors live in the same mailbox as in-band frames: on a channel of their own
/// a later descriptor could overtake an earlier terminal frame, or the other way round.
pub enum ClientWrite<L, P> {
    /// In-band bytes with their admission.
    Inline { data: Vec<u8>, permit: P },
    /// A prepared arena slot with its admission.
    LocalBulk { prepared: L, permit: P },
}

/// What the socket writer takes next.
pub enum OutputBatch<L, P> {
    Empty,
    /// Publish one descriptor at its exact position.
    Local { prepared: L, permit: P },
    /// Write these frames together.
    Frames(VecDeque<PendingFrame<P>>),
}

/// A frame of which the first `sent` bytes are written.
pub struct PendingFrame<P> {
    pub data: Vec<u8>,
    pub sent: usize,
    pub permit: P,
}

/// What a client's priority queue of local commands said.
#[derive(Clone, Copy, Debug, PartialEq, Eq, Structural)]
pub enum LocalQueue {
    Command,
    Empty,
    /// The reader of the client is gone.
    Closed,
}

/// What a client's writer does next.
#[derive(Clone, Copy, Debug, PartialEq, Eq, Structural)]
pub enum OutputTurn {
    /// Carry out the local command.
    RunLocal,
    /// Take a batch from the ordinary queue.
    TakeBatch,
    /// Wait for an ordinary frame, and for a local command where those are still possible.
    Wait { for_local: bool },
    Exit,
}

/// Local commands come before ordinary output. A closed priority queue is not asked again, so that
/// the ordinary queue can drain; the writer ends with that one.
pub fn writer_turn(
    local_open: &mut bool,
    local: LocalQueue,
    queued: usize,
    ordinary_closed: bool,
) -> (turn: OutputTurn)
    ensures
        *final(local_open) == (*old(local_open) && local != LocalQueue::Closed),
        turn == if *old(local_open) && local == LocalQueue::Command {
            OutputTurn::RunLocal
        } else if queued > 0 {
            OutputTurn::TakeBatch
        } else if ordinary_closed {
            OutputTurn::Exit
        } else {
            OutputTurn::Wait { for_local: *final(local_open) }
        },
{
    if *local_open {
        match local {
            LocalQueue::Command => {
                return OutputTurn::RunLocal;
            },
            LocalQueue::Empty => {},
            LocalQueue::Closed => {
                *local_open = false;
            },
        }
    }
    if queued > 0 {
        OutputTurn::TakeBatch
    } else if ordinary_closed {
        OutputTurn::Exit
    } else {
        OutputTurn::Wait { for_local: *local_open }
    }
}

/// Bytes of a queued write.
pub open spec fn write_len<L, P>(write: ClientWrite<L, P>) -> nat {
    match write {
        ClientWrite::Inline { data, .. } => data@.len(),
        ClientWrite::LocalBulk { .. } => 0,
    }
}

/// Bytes of the first `n` queued writes.
pub open spec fn prefix_bytes<L, P>(queue: Seq<ClientWrite<L, P>>, n: nat) -> nat
    decreases n,
{
    if n == 0 {
        0
    } else {
        prefix_bytes(queue, (n - 1) as nat) + write_len(queue[n - 1])
    }
}

/// The batch grows by the write behind its first `n`: it has room, and the write is in-band.
pub open spec fn batch_grows<L, P>(queue: Seq<ClientWrite<L, P>>, n: nat) -> bool {
    &&& n < queue.len()
    &&& n < CLIENT_WRITE_BATCH_FRAMES
    &&& prefix_bytes(queue, n) < CLIENT_WRITE_BATCH_BYTES
    &&& queue[n as int] is Inline
    &&& prefix_bytes(queue, n + 1) <= CLIENT_WRITE_BATCH_BYTES
}

/// How many in-band writes one batch takes, given that it has `n` already.
pub open spec fn batch_len<L, P>(queue: Seq<ClientWrite<L, P>>, n: nat) -> nat
    decreases queue.len() - n,
{
    if batch_grows(queue, n) {
        batch_len(queue, n + 1)
    } else {
        n
    }
}

/// The frames of a batch are the first writes of the queue, nothing of them sent yet.
pub open spec fn is_batch_of<L, P>(
    frames: Seq<PendingFrame<P>>,
    queue: Seq<ClientWrite<L, P>>,
) -> bool {
    &&& frames.len() <= queue.len()
    &&& forall|i: int|
        0 <= i < frames.len() ==> queue[i] == (ClientWrite::<L, P>::Inline {
            data: (#[trigger] frames[i]).data,
            permit: frames[i].permit,
        }) && frames[i].sent == 0
}

/// Take the next batch off the mailbox. A local descriptor is an ordering barrier: every preceding
/// in-band frame is flushed before its arena slot is published.
pub fn take_batch<L, P>(queue: &mut VecDeque<ClientWrite<L, P>>) -> (batch: OutputBatch<L, P>)
    ensures
        ({
            let before = old(queue)@;
            let after = final(queue)@;
            if before.len() == 0 {
                batch is Empty && after == before
            } else {
                match before[0] {
                    ClientWrite::LocalBulk { prepared, permit } => {
                        &&& batch == (OutputBatch::<L, P>::Local { prepared, permit })
                        &&& after == before.subrange(1, before.len() as int)
                    },
                    ClientWrite::Inline { .. } => {
                        &&& batch matches OutputBatch::Frames(frames)
                        &&& frames@.len() == batch_len(before, 1)
                        &&& is_batch_of(frames@, before)
                        &&& forall|i: int|
                            0 <= i < frames@.len() ==> (#[trigger] frames@[i]).sent == 0
                                && before[i] is Inline && before[i]->data == frames@[i].data
                                && before[i]->Inline_permit == frames@[i].permit
                        &&& after == before.subrange(frames@.len() as int, before.len() as int)
                    },
                }
            }
        }),
{
    let ghost all = queue@;
    let mut frames: VecDeque<PendingFrame<P>> = VecDeque::new();
    let first = match queue.pop_front() {
        None => {
            return OutputBatch::Empty;
        },
        Some(first) => first,
    };
    let mut bytes: usize;
    match first {
        ClientWrite::LocalBulk { prepared, permit } => {
            return OutputBatch::Local { prepared, permit };
        },
        ClientWrite::Inline { data, permit } => {
            bytes = data.len();
            frames.push_back(PendingFrame { data, sent: 0, permit });
        },
    }
    proof {
        reveal_with_fuel(prefix_bytes, 2);
        assert(queue@ =~= all.subrange(1, all.len() as int));
    }
    loop
        invariant
            1 <= frames@.len() <= all.len(),
            is_batch_of(frames@, all),
            queue@ == all.subrange(frames@.len() as int, all.len() as int),
            bytes == prefix_bytes(all, frames@.len()),
            batch_len(all, 1) == batch_len(all, frames@.len()),
        ensures
            !batch_grows(all, frames@.len()),
        decreases queue@.len(),
    {
        let n: usize = frames.len();
        if n >= CLIENT_WRITE_BATCH_FRAMES || bytes >= CLIENT_WRITE_BATCH_BYTES || queue.len() == 0 {
            break;
        }
        let ghost next = all[n as int];
        assert(queue@[0] == next);
        let fits = match &queue[0] {
            ClientWrite::LocalBulk { .. } => false,
            ClientWrite::Inline { data, .. } => data.len() <= CLIENT_WRITE_BATCH_BYTES - bytes,
        };
        assert(prefix_bytes(all, (n + 1) as nat) == prefix_bytes(all, n as nat) + write_len(next));
        if !fits {
            break;
        }
        if let Some(ClientWrite::Inline { data, permit }) = queue.pop_front() {
            bytes = bytes + data.len();
            let ghost before = frames@;
            frames.push_back(PendingFrame { data, sent: 0, permit });
            proof {
                assert(queue@ =~= all.subrange(n + 1, all.len() as int));
                assert forall|i: int| 0 <= i < frames@.len() implies all[i] == (ClientWrite::<
                    L,
                    P,
                >::Inline { data: (#[trigger] frames@[i]).data, permit: frames@[i].permit })
                    && frames@[i].sent == 0 by {
                    if i < before.len() {
                        assert(frames@[i] == before[i]);
                    }
                }
            }
        }
    }
    OutputBatch::Frames(frames)
}

/// The bytes that a frame still owes the socket.
pub open spec fn unsent<P>(frame: PendingFrame<P>) -> Seq<u8> {
    frame.data@.subrange(frame.sent as int, frame.data@.len() as int)
}

/// All bytes that a batch still owes the socket.
pub open spec fn unsent_bytes<P>(batch: Seq<PendingFrame<P>>) -> Seq<u8>
    decreases batch.len(),
{
    if batch.len() == 0 {
        Seq::empty()
    } else {
        unsent(batch[0]) + unsent_bytes(batch.subrange(1, batch.len() as int))
    }
}

/// No cursor is beyond its frame.
pub open spec fn batch_wf<P>(batch: Seq<PendingFrame<P>>) -> bool {
    forall|i: int| 0 <= i < batch.len() ==> (#[trigger] batch[i]).sent <= batch[i].data@.len()
}

/// Move the cursors past what the socket took, so that short writes never compact frame tails.
/// Frames that are written completely leave the batch and release their admission.
pub fn advance_batch<P>(batch: &mut VecDeque<PendingFrame<P>>, written: usize)
    requires
        batch_wf(old(batch)@),
        written <= unsent_bytes(old(batch)@).len(),
    ensures
        batch_wf(final(batch)@),
        unsent_bytes(final(batch)@) == unsent_bytes(old(batch)@).subrange(
            written as int,
            unsent_bytes(old(batch)@).len() as int,
        ),
        final(batch)@.len() <= old(batch)@.len(),
        forall|i: int|
            0 <= i < final(batch)@.len() ==> (#[trigger] final(batch)@[i]).data == old(batch)@[i
                + old(batch)@.len() - final(batch)@.len()].data && final(batch)@[i].permit == old(
                batch,
            )@[i + old(batch)@.len() - final(batch)@.len()].permit,
        written > 0 && final(batch)@.len() == old(batch)@.len() ==> final(batch)@[0].sent == old(
            batch,
        )@[0].sent + written,
        // The frames behind the front are untouched, and a front that was reached owes something.
        forall|i: int|
            1 <= i < final(batch)@.len() ==> #[trigger] final(batch)@[i] == old(batch)@[i + old(
                batch,
            )@.len() - final(batch)@.len()],
        final(batch)@.len() > 0 ==> (unsent(final(batch)@[0]).len() > 0 || final(batch)@[0] == old(
            batch,
        )@[old(batch)@.len() - final(batch)@.len()]),
{
    let ghost start = batch@;
    let ghost stream = unsent_bytes(batch@);
    let mut remaining: usize = written;
    let ghost mut gone: int = 0;
    while remaining != 0
        invariant
            batch_wf(batch@),
            0 <= gone <= start.len(),
            batch@.len() == start.len() - gone,
            start == old(batch)@,
            stream == unsent_bytes(start),
            remaining <= written <= stream.len(),
            remaining <= unsent_bytes(batch@).len(),
            unsent_bytes(batch@) == stream.subrange(written - remaining, stream.len() as int),
            forall|i: int|
                0 <= i < batch@.len() ==> (#[trigger] batch@[i]).data == start[i + gone].data
                    && batch@[i].permit == start[i + gone].permit,
            gone == 0 && remaining < written ==> batch@.len() > 0 && batch@[0].sent
                == start[0].sent + (written - remaining),
            remaining > 0 ==> forall|i: int|
                0 <= i < batch@.len() ==> #[trigger] batch@[i] == start[i + gone],
            forall|i: int| 1 <= i < batch@.len() ==> #[trigger] batch@[i] == start[i + gone],
            batch@.len() > 0 ==> (unsent(batch@[0]).len() > 0 || batch@[0] == start[gone]),
        decreases remaining, batch@.len(),
    {
        let ghost before = batch@;
        let front = match batch.pop_front() {
            Some(front) => front,
            None => {
                assert(false);
                return ;
            },
        };
        assert(before[0] == front);
        assert(batch@ =~= before.subrange(1, before.len() as int));
        let left: usize = front.data.len() - front.sent;
        let ghost rest = unsent_bytes(batch@);
        assert(unsent_bytes(before) == unsent(front) + rest);
        if remaining < left {
            let moved = PendingFrame {
                data: front.data,
                sent: front.sent + remaining,
                permit: front.permit,
            };
            let ghost done = remaining as int;
            batch.push_front(moved);
            proof {
                assert(batch@.subrange(1, batch@.len() as int) =~= before.subrange(
                    1,
                    before.len() as int,
                ));
                assert(unsent_bytes(batch@) == unsent(moved) + rest);
                assert(unsent(moved) + rest =~= (unsent(front) + rest).subrange(
                    done,
                    (unsent(front) + rest).len() as int,
                ));
                assert(unsent_bytes(batch@) =~= stream.subrange(written as int, stream.len() as int));
                assert forall|i: int| 0 <= i < batch@.len() implies (#[trigger] batch@[i]).data
                    == start[i + gone].data && batch@[i].permit == start[i + gone].permit by {
                    if i > 0 {
                        assert(batch@[i] == before[i]);
                    }
                }
            }
            remaining = 0;
        } else {
            proof {
                assert(rest =~= (unsent(front) + rest).subrange(
                    left as int,
                    (unsent(front) + rest).len() as int,
                ));
                assert(rest =~= stream.subrange(written - remaining + left, stream.len() as int));
                assert forall|i: int| 0 <= i < batch@.len() implies #[trigger] batch@[i] == start[i
                    + gone + 1] by {
                    assert(batch@[i] == before[i + 1]);
                }
                gone = gone + 1;
            }
            remaining = remaining - left;
        }
    }
    assert(gone == start.len() - batch@.len());
}

/// A batch is a front part of the mailbox within its limits; only a single frame may be larger
/// than the byte limit.
pub proof fn batches_keep_order_and_limits<L, P>(queue: Seq<ClientWrite<L, P>>)
    requires
        queue.len() > 0,
        queue[0] is Inline,
    ensures
        1 <= batch_len(queue, 1) <= queue.len(),
        batch_len(queue, 1) <= CLIENT_WRITE_BATCH_FRAMES,
        batch_len(queue, 1) == 1 || prefix_bytes(queue, batch_len(queue, 1))
            <= CLIENT_WRITE_BATCH_BYTES,
        forall|i: int| 0 <= i < batch_len(queue, 1) ==> #[trigger] queue[i] is Inline,
{
    lemma_batch_len(queue, 1);
}

proof fn lemma_batch_len<L, P>(queue: Seq<ClientWrite<L, P>>, n: nat)
    requires
        1 <= n <= queue.len(),
        n <= CLIENT_WRITE_BATCH_FRAMES,
        n == 1 || prefix_bytes(queue, n) <= CLIENT_WRITE_BATCH_BYTES,
        forall|i: int| 0 <= i < n ==> #[trigger] queue[i] is Inline,
    ensures
        n <= batch_len(queue, n) <= queue.len(),
        batch_len(queue, n) <= CLIENT_WRITE_BATCH_FRAMES,
        batch_len(queue, n) == 1 || prefix_bytes(queue, batch_len(queue, n))
            <= CLIENT_WRITE_BATCH_BYTES,
        forall|i: int| 0 <= i < batch_len(queue, n) ==> #[trigger] queue[i] is Inline,
    decreases queue.len() - n,
{
    if batch_grows(queue, n) {
        lemma_batch_len(queue, n + 1);
    }
}

/// A charge is the length of its frame, rounded up to whole pages of 4096 bytes.
pub proof fn charges_are_whole_pages(len: nat)
    ensures
        granules(len) % 4096 == 0,
        len <= granules(len) < len + 4096,
{
}

/// A batch takes all that it may: it stops at 64 frames, at the end of the mailbox, in front of a
/// local descriptor, or where the next frame would carry it over its byte limit; and nowhere else.
pub proof fn batches_stop_only_at_their_limits<L, P>(queue: Seq<ClientWrite<L, P>>)
    requires
        queue.len() > 0,
        queue[0] is Inline,
    ensures
        ({
            let n = batch_len(queue, 1);
            ||| n >= 64
            ||| n == queue.len()
            ||| queue[n as int] is LocalBulk
            ||| prefix_bytes(queue, n) + write_len(queue[n as int]) > 262_144
            ||| prefix_bytes(queue, n) >= 262_144
        }),
{
    lemma_batch_stops(queue, 1);
    lemma_batch_len(queue, 1);
}

proof fn lemma_batch_stops<L, P>(queue: Seq<ClientWrite<L, P>>, n: nat)
    ensures
        !batch_grows(queue, batch_len(queue, n)),
    decreases queue.len() - n,
{
    if batch_grows(queue, n) {
        lemma_batch_stops(queue, n + 1);
    }
}

/// What a batch owes the socket is the rest of each of its frames, in their order.
pub proof fn batch_owes_the_rest_of_its_frames<P>(
    first: PendingFrame<P>,
    rest: Seq<PendingFrame<P>>,
)
    requires
        first.sent <= first.data@.len(),
    ensures
        unsent_bytes(Seq::<PendingFrame<P>>::empty()).len() == 0,
        unsent_bytes(seq![first] + rest) == first.data@.skip(first.sent as int) + unsent_bytes(rest),
        first.data@.take(first.sent as int) + unsent(first) == first.data@,
{
    let all = seq![first] + rest;
    assert(all.subrange(1, all.len() as int) =~= rest);
    assert(unsent(first) =~= first.data@.skip(first.sent as int));
    assert(first.data@.take(first.sent as int) + unsent(first) =~= first.data@);
}

} // verus!
