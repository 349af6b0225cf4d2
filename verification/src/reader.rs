//! Guest output on its way to the clients: ownership, the cut of a cancelled flow, merging and
//! routing.

use vstd::prelude::*;

use crate::merge_flow::LaneFrame;
use crate::merge_flow::MergeError;
use crate::merger::push_outcome;
use crate::merger::GuestBody;
use crate::merger::GuestFrameMerger;
use crate::merger::MergeOutcome;
use crate::roster::claim_of;
use crate::roster::route_of;
use crate::roster::routes_follow_the_range;
use crate::roster::Claim;
use crate::roster::ClientView;
use crate::roster::Roster;
use crate::roster::Route;
use crate::roster::RouteError;
use crate::wire::client_slot_spec;
use crate::wire::valid_frame_flags;
use crate::wire::ClientIncarnation;
use crate::wire::WireProfile;

verus! {

/// A frame that came off a lane, and what becomes of it first.
pub enum Entry<P> {
    /// Nobody owns it now.
    Drop,
    Fail(RouteError),
    /// It goes on under its owner. Where a flow is named, the host-to-guest scheduler is cleared of
    /// it first: bytes that it retains must not arrive once the guest has torn the operation down.
    Go { frame: LaneFrame<P>, cut: Option<(ClientIncarnation, u32)> },
}

/// What becomes first of a frame of a dual-port relay.
pub open spec fn is_entry<P>(
    claim: Claim,
    frame: LaneFrame<P>,
    cancel_flags: u8,
    body: GuestBody,
    entry: Entry<P>,
) -> bool {
    match claim {
        Claim::Fail(error) => entry == Entry::<P>::Fail(error),
        Claim::Unowned | Claim::Stale => entry is Drop,
        Claim::Owner(owner) => entry == (Entry::<P>::Go {
            frame: LaneFrame { incarnation: Some(owner), ..frame },
            cut: if frame.frame.flags == cancel_flags && body is BulkCancel {
                Some((owner, frame.frame.id))
            } else {
                None
            },
        }),
    }
}

/// Give a frame of a dual-port relay its owner. Control frames inherit the current owner of their
/// range, so that held state can never cross a reuse of the slot.
pub fn enter_frame<P>(
    profile: &WireProfile,
    roster: &Roster,
    frame: LaneFrame<P>,
    cancel_flags: u8,
    body: &GuestBody,
) -> (entry: Entry<P>)
    requires
        profile.wf(),
    ensures
        is_entry(
            claim_of(*profile, roster@, frame.frame.id, frame.incarnation),
            frame,
            cancel_flags,
            *body,
            entry,
        ),
{
    let id: u32 = frame.frame.id;
    match roster.claim(profile, id, frame.incarnation) {
        Claim::Fail(error) => Entry::Fail(error),
        Claim::Unowned => Entry::Drop,
        Claim::Stale => Entry::Drop,
        Claim::Owner(owner) => {
            let cancels = match body {
                GuestBody::BulkCancel => true,
                _ => false,
            };
            let cut = if frame.frame.flags == cancel_flags && cancels {
                Some((owner, id))
            } else {
                None
            };
            Entry::Go {
                frame: LaneFrame {
                    frame: frame.frame,
                    incarnation: Some(owner),
                    permit: frame.permit,
                },
                cut,
            }
        },
    }
}

/// A frame with the route that it takes.
pub struct Routed<P> {
    pub frame: LaneFrame<P>,
    pub route: Route,
}

/// Why guest output is not read further.
pub enum OutputError {
    Merge(MergeError),
    Route(RouteError),
}

/// The clients after the first `n` frames were routed.
pub open spec fn clients_after<P>(
    profile: WireProfile,
    clients: Seq<Option<ClientView>>,
    frames: Seq<LaneFrame<P>>,
    dual_port: bool,
    n: nat,
) -> Seq<Option<ClientView>>
    decreases n,
{
    if n == 0 {
        clients
    } else {
        let frame = frames[n - 1];
        route_of(
            profile,
            clients_after(profile, clients, frames, dual_port, (n - 1) as nat),
            frame.frame.id,
            frame.frame.flags,
            frame.incarnation,
            dual_port,
        ).1
    }
}

/// The route of the frame at position `i`, once those before it were routed.
pub open spec fn route_at<P>(
    profile: WireProfile,
    clients: Seq<Option<ClientView>>,
    frames: Seq<LaneFrame<P>>,
    dual_port: bool,
    i: int,
) -> Result<Route, RouteError> {
    route_of(
        profile,
        clients_after(profile, clients, frames, dual_port, i as nat),
        frames[i].frame.id,
        frames[i].frame.flags,
        frames[i].incarnation,
        dual_port,
    ).0
}

/// The frames that were routed in their order, up to the first that cannot be.
pub open spec fn is_routing<P>(
    profile: WireProfile,
    clients: Seq<Option<ClientView>>,
    frames: Seq<LaneFrame<P>>,
    dual_port: bool,
    routed: Seq<Routed<P>>,
    error: Option<RouteError>,
    after: Seq<Option<ClientView>>,
) -> bool {
    &&& routed.len() <= frames.len()
    &&& forall|i: int|
        #![trigger routed[i]]
        0 <= i < routed.len() ==> routed[i].frame == frames[i] && route_at(
            profile,
            clients,
            frames,
            dual_port,
            i,
        ) == Ok::<Route, RouteError>(routed[i].route)
    &&& match error {
        None => routed.len() == frames.len() && after == clients_after(
            profile,
            clients,
            frames,
            dual_port,
            frames.len(),
        ),
        Some(error) => {
            &&& routed.len() < frames.len()
            &&& route_at(profile, clients, frames, dual_port, routed.len() as int) == Err::<
                Route,
                RouteError,
            >(error)
            &&& after == clients_after(profile, clients, frames, dual_port, routed.len())
        },
    }
}

/// What a lane event gave: frames to deliver, in order, and a failure behind them.
pub struct Delivery<P> {
    pub routed: Vec<Routed<P>>,
    pub error: Option<OutputError>,
}

/// The routing failure of a delivery, if that is what it failed with.
pub open spec fn routing_error(error: Option<OutputError>) -> Option<RouteError> {
    match error {
        Some(OutputError::Route(error)) => Some(error),
        _ => None,
    }
}

/// Route frames in their order, up to the first that cannot be routed.
pub fn route_frames<P>(
    profile: &WireProfile,
    roster: &mut Roster,
    frames: Vec<LaneFrame<P>>,
    dual_port: bool,
) -> (delivery: Delivery<P>)
    requires
        profile.wf(),
        old(roster).wf(),
    ensures
        final(roster).wf(),
        !(delivery.error matches Some(OutputError::Merge(_))),
        is_routing(
            *profile,
            old(roster)@,
            frames@,
            dual_port,
            delivery.routed@,
            routing_error(delivery.error),
            final(roster)@,
        ),
{
    let ghost all = frames@;
    let ghost before = roster@;
    let mut queue = frames;
    let mut routed: Vec<Routed<P>> = Vec::new();
    assert(all.skip(0) =~= all);
    while queue.len() > 0
        invariant
            profile.wf(),
            roster.wf(),
            all == frames@,
            before == old(roster)@,
            routed@.len() <= all.len(),
            queue@ == all.skip(routed@.len() as int),
            roster@ == clients_after(*profile, before, all, dual_port, routed@.len()),
            forall|i: int|
                #![trigger routed@[i]]
                0 <= i < routed@.len() ==> routed@[i].frame == all[i] && route_at(
                    *profile,
                    before,
                    all,
                    dual_port,
                    i,
                ) == Ok::<Route, RouteError>(routed@[i].route),
        decreases queue@.len(),
    {
        let ghost n = routed@.len();
        let frame = queue.remove(0);
        assert(frame == all[n as int]);
        assert(queue@ =~= all.skip(n as int + 1));
        match roster.route(
            profile,
            frame.frame.id,
            frame.frame.flags,
            frame.incarnation,
            dual_port,
        ) {
            Ok(route) => {
                routed.push(Routed { frame, route });
            },
            Err(error) => {
                return Delivery { routed, error: Some(OutputError::Route(error)) };
            },
        }
    }
    Delivery { routed, error: None }
}

/// Merge a frame that has its owner, and route what became ready. A failed merge routes nothing.
pub fn merge_and_route<P>(
    profile: &WireProfile,
    merger: &mut GuestFrameMerger<P>,
    roster: &mut Roster,
    frame: LaneFrame<P>,
    body: GuestBody,
) -> (delivery: Delivery<P>)
    requires
        old(merger).wf(),
        old(merger).profile() == *profile,
        profile.wf(),
        old(roster).wf(),
    ensures
        final(merger).wf(),
        final(merger).profile() == *profile,
        final(roster).wf(),
        match push_outcome(*profile, old(merger)@, frame, body) {
            MergeOutcome::Fail { state, error } => {
                &&& delivery.error == Some(OutputError::Merge(error))
                &&& delivery.routed@.len() == 0
                &&& final(merger)@ == state
                &&& final(roster)@ == old(roster)@
            },
            MergeOutcome::Forward { state, ready } => {
                &&& final(merger)@ == state
                &&& !(delivery.error matches Some(OutputError::Merge(_)))
                &&& is_routing(
                    *profile,
                    old(roster)@,
                    ready,
                    true,
                    delivery.routed@,
                    routing_error(delivery.error),
                    final(roster)@,
                )
            },
        },
{
    match merger.push(frame, body) {
        Err(error) => Delivery { routed: Vec::new(), error: Some(OutputError::Merge(error)) },
        Ok(frames) => route_frames(profile, roster, frames, true),
    }
}

/// Frames are delivered in the order in which they were merged: none is skipped, and none comes
/// before an earlier one.
pub proof fn delivery_keeps_the_merged_order<P>(
    profile: WireProfile,
    clients: Seq<Option<ClientView>>,
    frames: Seq<LaneFrame<P>>,
    dual_port: bool,
    routed: Seq<Routed<P>>,
    error: Option<RouteError>,
    after: Seq<Option<ClientView>>,
)
    requires
        is_routing(profile, clients, frames, dual_port, routed, error, after),
    ensures
        routed.map_values(|r: Routed<P>| r.frame) == frames.take(routed.len() as int),
{
    assert(routed.map_values(|r: Routed<P>| r.frame) =~= frames.take(routed.len() as int));
}

/// A frame enters the merger under the owner of its range, and otherwise as it came; only a
/// cancellation asks for its operation to be cut out of the other direction, under its own ID.
pub proof fn frames_enter_under_their_owner<P>(
    claim: Claim,
    frame: LaneFrame<P>,
    cancel_flags: u8,
    body: GuestBody,
    entry: Entry<P>,
)
    requires
        is_entry(claim, frame, cancel_flags, body, entry),
    ensures
        entry is Go <==> claim is Owner,
        entry is Drop <==> claim is Unowned || claim is Stale,
        entry is Fail <==> claim is Fail,
        entry matches Entry::Go { frame: entered, cut } ==> {
            &&& claim == Claim::Owner(entered.incarnation->0)
            &&& entered.incarnation is Some
            &&& entered.frame == frame.frame
            &&& entered.permit == frame.permit
            &&& cut is Some <==> frame.frame.flags == cancel_flags && body is BulkCancel
            &&& cut matches Some((owner, id)) ==> Some(owner) == entered.incarnation && id
                == frame.frame.id
        },
{
}

/// Routing goes on to the end unless a frame has invalid flags or an ID that nobody can own, and
/// stops at the first such frame; each frame goes to the slot of its range, and ends its session
/// exactly where it carries the terminal flag.
pub proof fn routable_frames_are_all_routed<P>(
    profile: WireProfile,
    clients: Seq<Option<ClientView>>,
    frames: Seq<LaneFrame<P>>,
    dual_port: bool,
    routed: Seq<Routed<P>>,
    error: Option<RouteError>,
    after: Seq<Option<ClientView>>,
    i: int,
)
    requires
        is_routing(profile, clients, frames, dual_port, routed, error, after),
    ensures
        error is None ==> routed.len() == frames.len(),
        after == clients_after(profile, clients, frames, dual_port, routed.len()),
        error matches Some(error) ==> routed.len() < frames.len() && ({
            let stopped = frames[routed.len() as int].frame;
            if !valid_frame_flags(profile, stopped.flags) {
                error == (RouteError::InvalidFlags { id: stopped.id, flags: stopped.flags })
            } else {
                client_slot_spec(profile, stopped.id) is None && error == (
                RouteError::Unassigned { id: stopped.id })
            }
        }),
        0 <= i < routed.len() ==> ({
            let frame = frames[i].frame;
            &&& routed[i].frame == frames[i]
            &&& valid_frame_flags(profile, frame.flags)
            &&& client_slot_spec(profile, frame.id) == Some(routed[i].route.slot)
            &&& routed[i].route.terminal <==> frame.flags & profile.flag_terminal != 0
            &&& frame.flags == profile.flag_bulk ==> !routed[i].route.log
        }),
{
}

/// Who gets a frame does not depend on the frames before it: routing changes no client and no
/// identity, only the sessions that end.
pub proof fn routing_keeps_the_clients<P>(
    profile: WireProfile,
    clients: Seq<Option<ClientView>>,
    frames: Seq<LaneFrame<P>>,
    dual_port: bool,
    n: nat,
    slot: int,
)
    requires
        n <= frames.len(),
        0 <= slot < clients.len(),
    ensures
        ({
            let later = clients_after(profile, clients, frames, dual_port, n);
            &&& later.len() == clients.len()
            &&& later[slot] is Some <==> clients[slot] is Some
            &&& clients[slot] is Some ==> later[slot]->0.incarnation == clients[slot]->0.incarnation
        }),
    decreases n,
{
    if n > 0 {
        routing_keeps_the_clients(profile, clients, frames, dual_port, (n - 1) as nat, slot);
    }
}

/// A session that a delivered terminal frame ended is gone once the frames are routed, and stays
/// gone; a session that none of them ended is still there.
pub proof fn ended_sessions_are_gone<P>(
    profile: WireProfile,
    clients: Seq<Option<ClientView>>,
    frames: Seq<LaneFrame<P>>,
    dual_port: bool,
    n: nat,
    slot: u32,
    id: u32,
)
    requires
        n <= frames.len(),
        slot < clients.len(),
        clients[slot as int] is Some,
        client_slot_spec(profile, id) == Some(slot),
    ensures
        ({
            let later = clients_after(profile, clients, frames, dual_port, n);
            let ended = exists|i: int|
                0 <= i < n && (#[trigger] frames[i]).frame.id == id && valid_frame_flags(
                    profile,
                    frames[i].frame.flags,
                ) && frames[i].frame.flags & profile.flag_terminal != 0 && (!dual_port
                    || clients[slot as int]->0.incarnation == frames[i].incarnation);
            &&& later[slot as int] is Some
            &&& later[slot as int]->0.sessions.contains(id) <==> !ended
                && clients[slot as int]->0.sessions.contains(id)
        }),
    decreases n,
{
    if n > 0 {
        let m = (n - 1) as nat;
        let before = clients_after(profile, clients, frames, dual_port, m);
        let frame = frames[n - 1];
        ended_sessions_are_gone(profile, clients, frames, dual_port, m, slot, id);
        routing_keeps_the_clients(profile, clients, frames, dual_port, m, slot as int);
        if valid_frame_flags(profile, frame.frame.flags) && client_slot_spec(
            profile,
            frame.frame.id,
        ) is Some {
            let own = client_slot_spec(profile, frame.frame.id)->0;
            if own < before.len() {
                routes_follow_the_range(
                    profile,
                    before,
                    frame.frame.id,
                    own,
                    frame.frame.flags,
                    frame.incarnation,
                    dual_port,
                );
            }
        }
        let hit = frame.frame.id == id && valid_frame_flags(profile, frame.frame.flags)
            && frame.frame.flags & profile.flag_terminal != 0 && (!dual_port
            || clients[slot as int]->0.incarnation == frame.incarnation);
        let earlier = exists|i: int|
            0 <= i < m && (#[trigger] frames[i]).frame.id == id && valid_frame_flags(
                profile,
                frames[i].frame.flags,
            ) && frames[i].frame.flags & profile.flag_terminal != 0 && (!dual_port
                || clients[slot as int]->0.incarnation == frames[i].incarnation);
        let ended = exists|i: int|
            0 <= i < n && (#[trigger] frames[i]).frame.id == id && valid_frame_flags(
                profile,
                frames[i].frame.flags,
            ) && frames[i].frame.flags & profile.flag_terminal != 0 && (!dual_port
                || clients[slot as int]->0.incarnation == frames[i].incarnation);
        assert(ended == (earlier || hit)) by {
            if hit {
                assert(frames[n - 1].frame.id == id);
            }
            if earlier {
                let w = choose|i: int|
                    0 <= i < m && (#[trigger] frames[i]).frame.id == id && valid_frame_flags(
                        profile,
                        frames[i].frame.flags,
                    ) && frames[i].frame.flags & profile.flag_terminal != 0 && (!dual_port
                        || clients[slot as int]->0.incarnation == frames[i].incarnation);
                assert(frames[w].frame.id == id);
            }
            if ended && !hit {
                let w = choose|i: int|
                    0 <= i < n && (#[trigger] frames[i]).frame.id == id && valid_frame_flags(
                        profile,
                        frames[i].frame.flags,
                    ) && frames[i].frame.flags & profile.flag_terminal != 0 && (!dual_port
                        || clients[slot as int]->0.incarnation == frames[i].incarnation);
                assert(w < m);
                assert(frames[w].frame.id == id);
            }
        }
    }
}

} // verus!
