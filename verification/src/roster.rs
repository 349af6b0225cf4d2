//! The connected clients: who owns a correlation range, and where guest output goes.

use vstd::prelude::*;
use vstd::string::*;

use crate::text::decimal;
use crate::text::labelled;
use crate::text::labelled_pair;
use crate::text::numbered;
use crate::wire::client_slot_spec;
use crate::wire::has_valid_frame_flags;
use crate::wire::relay_client_slot;
use crate::wire::valid_frame_flags;
use crate::wire::ClientIncarnation;
use crate::wire::WireProfile;

verus! {

/// One connected client: the identity of its ownership period, where ranges are leased, and its
/// active sessions.
pub struct ClientEntry {
    incarnation: Option<ClientIncarnation>,
    sessions: Vec<u32>,
}

/// One connected client.
pub ghost struct ClientView {
    pub incarnation: Option<ClientIncarnation>,
    pub sessions: Seq<u32>,
}

impl View for ClientEntry {
    type V = ClientView;

    closed spec fn view(&self) -> ClientView {
        ClientView { incarnation: self.incarnation, sessions: self.sessions@ }
    }
}

/// The connected clients by slot.
pub struct Roster {
    clients: Vec<Option<ClientEntry>>,
}

impl View for Roster {
    type V = Seq<Option<ClientView>>;

    /// The client of each slot.
    closed spec fn view(&self) -> Seq<Option<ClientView>> {
        Seq::new(
            self.clients@.len(),
            |i: int|
                match self.clients@[i] {
                    Some(client) => Some(client@),
                    None => None,
                },
        )
    }
}

/// A session is listed once.
pub open spec fn roster_wf(clients: Seq<Option<ClientView>>) -> bool {
    forall|i: int|
        0 <= i < clients.len() ==> match #[trigger] clients[i] {
            Some(client) => client.sessions.no_duplicates(),
            None => true,
        }
}

/// Whether a client with this identity is connected.
pub open spec fn is_live(clients: Seq<Option<ClientView>>, incarnation: ClientIncarnation) -> bool {
    exists|i: int|
        0 <= i < clients.len() && (#[trigger] clients[i]) is Some && clients[i]->0.incarnation
            == Some(incarnation)
}

/// Why guest output cannot be routed.
#[derive(Clone, Copy, Debug, PartialEq, Eq, Structural)]
pub enum RouteError {
    InvalidFlags { id: u32, flags: u8 },
    Unassigned { id: u32 },
    OutsideRange { id: u32 },
    ChargeOverflow,
    BudgetInvariant { slot: u32 },
}

impl RouteError {
    pub open spec fn text(self) -> Seq<char> {
        match self {
            RouteError::InvalidFlags { id, flags } => "agent relay: guest frame id="@ + decimal(
                id as nat,
            ) + " has invalid flags "@ + decimal(flags as nat),
            RouteError::Unassigned { id } =>
                "agent relay: guest frame uses unassigned correlation ID "@ + decimal(id as nat),
            RouteError::OutsideRange { id } => "agent relay: dedicated bulk correlation "@
                + decimal(id as nat) + " lies outside its client incarnation range"@,
            RouteError::ChargeOverflow => "agent relay: client frame budget overflow"@,
            RouteError::BudgetInvariant { slot } =>
                "agent relay: per-client output budget invariant failed for slot "@ + decimal(
                slot as nat,
            ),
        }
    }

    pub fn message(&self) -> (text: String)
        ensures
            text@ == self.text(),
    {
        match self {
            RouteError::InvalidFlags { id, flags } => labelled_pair(
                "agent relay: guest frame id=",
                *id as u64,
                " has invalid flags ",
                *flags as u64,
            ),
            RouteError::Unassigned { id } => labelled(
                "agent relay: guest frame uses unassigned correlation ID ",
                *id as u64,
            ),
            RouteError::OutsideRange { id } => numbered(
                "agent relay: dedicated bulk correlation ",
                *id as u64,
                " lies outside its client incarnation range",
            ),
            RouteError::ChargeOverflow => String::from_str(
                "agent relay: client frame budget overflow",
            ),
            RouteError::BudgetInvariant { slot } => labelled(
                "agent relay: per-client output budget invariant failed for slot ",
                *slot as u64,
            ),
        }
    }
}

/// To whom an incoming frame belongs.
#[derive(Clone, Copy, Debug, PartialEq, Eq, Structural)]
pub enum Claim {
    /// The current owner of the frame's range.
    Owner(ClientIncarnation),
    /// Nobody owns the range: the frame is dropped.
    Unowned,
    /// The frame names an owner that is gone: it is dropped.
    Stale,
    Fail(RouteError),
}

/// To whom an incoming frame belongs. A dedicated-lane prefix is authoritative only where it
/// matches the client that currently owns the range.
pub open spec fn claim_of(
    profile: WireProfile,
    clients: Seq<Option<ClientView>>,
    id: u32,
    claimed: Option<ClientIncarnation>,
) -> Claim {
    match client_slot_spec(profile, id) {
        None => Claim::Fail(RouteError::Unassigned { id }),
        Some(slot) => {
            let current = if slot < clients.len() && clients[slot as int] is Some {
                clients[slot as int]->0.incarnation
            } else {
                None
            };
            match current {
                None => Claim::Unowned,
                Some(current) => match claimed {
                    Some(claimed) if claimed != current => if is_live(clients, claimed) {
                        Claim::Fail(RouteError::OutsideRange { id })
                    } else {
                        Claim::Stale
                    },
                    _ => Claim::Owner(current),
                },
            }
        },
    }
}

/// What becomes of a frame that was merged.
#[derive(Clone, Copy, Debug, PartialEq, Eq, Structural)]
pub struct Route {
    pub slot: u32,
    /// Whether the client of the slot gets the frame.
    pub deliver: bool,
    /// Whether the frame ends its session.
    pub terminal: bool,
    /// Whether the frame may reach the log. Output that carries an owner must not reach it once
    /// that owner has changed.
    pub log: bool,
}

/// The sessions without one of them.
pub open spec fn without(sessions: Seq<u32>, id: u32) -> Seq<u32> {
    sessions.filter(|session: u32| session != id)
}

/// Whether the client of a slot gets a frame.
pub open spec fn delivers(
    clients: Seq<Option<ClientView>>,
    slot: u32,
    incarnation: Option<ClientIncarnation>,
    dual_port: bool,
) -> bool {
    &&& slot < clients.len()
    &&& clients[slot as int] is Some
    &&& !dual_port || clients[slot as int]->0.incarnation == incarnation
}

/// Route a frame, and what that leaves of the sessions.
pub open spec fn route_of(
    profile: WireProfile,
    clients: Seq<Option<ClientView>>,
    id: u32,
    flags: u8,
    incarnation: Option<ClientIncarnation>,
    dual_port: bool,
) -> (Result<Route, RouteError>, Seq<Option<ClientView>>) {
    if !valid_frame_flags(profile, flags) {
        (Err(RouteError::InvalidFlags { id, flags }), clients)
    } else {
        match client_slot_spec(profile, id) {
            None => (Err(RouteError::Unassigned { id }), clients),
            Some(slot) => {
                let deliver = delivers(clients, slot, incarnation, dual_port);
                let terminal = flags & profile.flag_terminal != 0;
                (
                    Ok(
                        Route {
                            slot,
                            deliver,
                            terminal,
                            log: (!dual_port || deliver) && flags != profile.flag_bulk,
                        },
                    ),
                    if deliver && terminal {
                        clients.update(
                            slot as int,
                            Some(
                                ClientView {
                                    incarnation: clients[slot as int]->0.incarnation,
                                    sessions: without(clients[slot as int]->0.sessions, id),
                                },
                            ),
                        )
                    } else {
                        clients
                    },
                )
            },
        }
    }
}

impl Roster {
    pub open spec fn wf(self) -> bool {
        roster_wf(self@)
    }

    pub fn new(profile: &WireProfile) -> (roster: Roster)
        ensures
            roster.wf(),
            roster@.len() == profile.max_clients,
            forall|i: int| 0 <= i < roster@.len() ==> (#[trigger] roster@[i]) is None,
    {
        let mut clients: Vec<Option<ClientEntry>> = Vec::new();
        let mut i: u32 = 0;
        while i < profile.max_clients
            invariant
                i <= profile.max_clients,
                clients@.len() == i,
                forall|k: int| 0 <= k < clients@.len() ==> (#[trigger] clients@[k]) is None,
            decreases profile.max_clients - i,
        {
            clients.push(None);
            i = i + 1;
        }
        Roster { clients }
    }

    /// Connect a client to a slot.
    pub fn connect(&mut self, slot: u32, incarnation: Option<ClientIncarnation>)
        requires
            old(self).wf(),
            slot < old(self)@.len(),
        ensures
            final(self).wf(),
            final(self)@ == old(self)@.update(
                slot as int,
                Some(ClientView { incarnation, sessions: Seq::empty() }),
            ),
    {
        let entry = ClientEntry { incarnation, sessions: Vec::new() };
        self.clients.set(slot as usize, Some(entry));
        assert(self@ =~= old(self)@.update(
            slot as int,
            Some(ClientView { incarnation, sessions: Seq::empty() }),
        ));
    }

    /// Take the client of a slot out of routing, with its sessions.
    pub fn disconnect(&mut self, slot: u32) -> (sessions: Option<Vec<u32>>)
        requires
            old(self).wf(),
            slot < old(self)@.len(),
        ensures
            final(self).wf(),
            final(self)@ == old(self)@.update(slot as int, None),
            match sessions {
                Some(sessions) => old(self)@[slot as int] is Some && sessions@
                    == old(self)@[slot as int]->0.sessions,
                None => old(self)@[slot as int] is None,
            },
    {
        let entry = self.clients.remove(slot as usize);
        self.clients.insert(slot as usize, None);
        assert(self@ =~= old(self)@.update(slot as int, None));
        match entry {
            Some(client) => Some(client.sessions),
            None => None,
        }
    }

    /// A client starts a session.
    pub fn start_session(&mut self, slot: u32, id: u32)
        requires
            old(self).wf(),
            slot < old(self)@.len(),
        ensures
            final(self).wf(),
            final(self)@ == match old(self)@[slot as int] {
                Some(client) => old(self)@.update(
                    slot as int,
                    Some(
                        ClientView {
                            incarnation: client.incarnation,
                            sessions: if client.sessions.contains(id) {
                                client.sessions
                            } else {
                                client.sessions.push(id)
                            },
                        },
                    ),
                ),
                None => old(self)@,
            },
    {
        let ghost before = self@;
        let entry = self.clients.remove(slot as usize);
        match entry {
            Some(mut client) => {
                let ghost sessions = client.sessions@;
                assert(before[slot as int]->0.sessions == sessions);
                if !listed(&client.sessions, id) {
                    client.sessions.push(id);
                }
                self.clients.insert(slot as usize, Some(client));
                proof {
                    if !sessions.contains(id) {
                        assert(sessions.push(id).no_duplicates());
                    }
                    assert(self@ =~= before.update(
                        slot as int,
                        Some(
                            ClientView {
                                incarnation: before[slot as int]->0.incarnation,
                                sessions: if sessions.contains(id) {
                                    sessions
                                } else {
                                    sessions.push(id)
                                },
                            },
                        ),
                    ));
                }
            },
            None => {
                self.clients.insert(slot as usize, None);
                assert(self@ =~= before);
            },
        }
    }

    /// Whether a client with this identity is connected.
    pub fn is_live(&self, incarnation: ClientIncarnation) -> (live: bool)
        ensures
            live == is_live(self@, incarnation),
    {
        let mut i: usize = 0;
        while i < self.clients.len()
            invariant
                i <= self.clients@.len(),
                self@.len() == self.clients@.len(),
                forall|k: int|
                    0 <= k < i ==> !((#[trigger] self@[k]) is Some && self@[k]->0.incarnation
                        == Some(incarnation)),
            decreases self.clients@.len() - i,
        {
            let matches = match &self.clients[i] {
                Some(client) => client.incarnation == Some(incarnation),
                None => false,
            };
            assert(matches == (self@[i as int] is Some && self@[i as int]->0.incarnation == Some(
                incarnation,
            )));
            if matches {
                return true;
            }
            i = i + 1;
        }
        false
    }

    /// Find the owner of an incoming frame of a dual-port relay.
    pub fn claim(&self, profile: &WireProfile, id: u32, claimed: Option<ClientIncarnation>) -> (claim:
        Claim)
        requires
            profile.wf(),
        ensures
            claim == claim_of(*profile, self@, id, claimed),
    {
        let slot: u32 = match relay_client_slot(profile, id) {
            Some(slot) => slot,
            None => {
                return Claim::Fail(RouteError::Unassigned { id });
            },
        };
        let current = if (slot as usize) < self.clients.len() {
            match &self.clients[slot as usize] {
                Some(client) => client.incarnation,
                None => None,
            }
        } else {
            None
        };
        match current {
            None => Claim::Unowned,
            Some(current) => match claimed {
                Some(claimed) => if claimed == current {
                    Claim::Owner(current)
                } else if self.is_live(claimed) {
                    Claim::Fail(RouteError::OutsideRange { id })
                } else {
                    Claim::Stale
                },
                None => Claim::Owner(current),
            },
        }
    }

    /// Route a frame to the client of its range. A terminal frame ends its session.
    pub fn route(
        &mut self,
        profile: &WireProfile,
        id: u32,
        flags: u8,
        incarnation: Option<ClientIncarnation>,
        dual_port: bool,
    ) -> (route: Result<Route, RouteError>)
        requires
            old(self).wf(),
            profile.wf(),
        ensures
            final(self).wf(),
            (route, final(self)@) == route_of(
                *profile,
                old(self)@,
                id,
                flags,
                incarnation,
                dual_port,
            ),
    {
        if !has_valid_frame_flags(profile, flags) {
            return Err(RouteError::InvalidFlags { id, flags });
        }
        let slot: u32 = match relay_client_slot(profile, id) {
            Some(slot) => slot,
            None => {
                return Err(RouteError::Unassigned { id });
            },
        };
        let terminal = flags & profile.flag_terminal != 0;
        let deliver = if (slot as usize) < self.clients.len() {
            match &self.clients[slot as usize] {
                Some(client) => !dual_port || client.incarnation == incarnation,
                None => false,
            }
        } else {
            false
        };
        assert(deliver == delivers(old(self)@, slot, incarnation, dual_port));
        if deliver && terminal {
            self.end_session(slot, id);
        }
        Ok(
            Route {
                slot,
                deliver,
                terminal,
                log: (!dual_port || deliver) && flags != profile.flag_bulk,
            },
        )
    }

    /// A client ends a session.
    pub fn finish_session(&mut self, slot: u32, id: u32)
        requires
            old(self).wf(),
            slot < old(self)@.len(),
        ensures
            final(self).wf(),
            final(self)@ == match old(self)@[slot as int] {
                Some(client) => old(self)@.update(
                    slot as int,
                    Some(
                        ClientView {
                            incarnation: client.incarnation,
                            sessions: without(client.sessions, id),
                        },
                    ),
                ),
                None => old(self)@,
            },
    {
        let connected = self.clients[slot as usize].is_some();
        assert(connected == (self@[slot as int] is Some));
        if connected {
            self.end_session(slot, id);
        }
    }

    fn end_session(&mut self, slot: u32, id: u32)
        requires
            old(self).wf(),
            slot < old(self)@.len(),
            old(self)@[slot as int] is Some,
        ensures
            final(self).wf(),
            final(self)@ == old(self)@.update(
                slot as int,
                Some(
                    ClientView {
                        incarnation: old(self)@[slot as int]->0.incarnation,
                        sessions: without(old(self)@[slot as int]->0.sessions, id),
                    },
                ),
            ),
    {
        let ghost before = self@;
        let entry = self.clients.remove(slot as usize);
        if let Some(mut client) = entry {
            let ghost sessions = client.sessions@;
            let sessions_left = sessions_without(&client.sessions, id);
            client.sessions = sessions_left;
            self.clients.insert(slot as usize, Some(client));
            proof {
                lemma_without_unique(sessions, id);
                assert(self@ =~= before.update(
                    slot as int,
                    Some(
                        ClientView {
                            incarnation: before[slot as int]->0.incarnation,
                            sessions: without(sessions, id),
                        },
                    ),
                ));
            }
        }
    }
}

fn listed(sessions: &Vec<u32>, id: u32) -> (found: bool)
    ensures
        found == sessions@.contains(id),
{
    let mut i: usize = 0;
    while i < sessions.len()
        invariant
            i <= sessions@.len(),
            forall|k: int| 0 <= k < i ==> #[trigger] sessions@[k] != id,
        decreases sessions@.len() - i,
    {
        if sessions[i] == id {
            return true;
        }
        i = i + 1;
    }
    false
}

fn sessions_without(sessions: &Vec<u32>, id: u32) -> (left: Vec<u32>)
    ensures
        left@ == without(sessions@, id),
{
    let mut left: Vec<u32> = Vec::new();
    let mut i: usize = 0;
    proof {
        reveal(Seq::filter);
        assert(sessions@.subrange(0, 0) =~= Seq::empty());
    }
    while i < sessions.len()
        invariant
            i <= sessions@.len(),
            left@ == without(sessions@.subrange(0, i as int), id),
        decreases sessions@.len() - i,
    {
        proof {
            reveal(Seq::filter);
            assert(sessions@.subrange(0, i + 1).drop_last() =~= sessions@.subrange(0, i as int));
        }
        if sessions[i] != id {
            left.push(sessions[i]);
        }
        i = i + 1;
    }
    assert(sessions@.subrange(0, i as int) =~= sessions@);
    left
}

proof fn lemma_without_unique(sessions: Seq<u32>, id: u32)
    requires
        sessions.no_duplicates(),
    ensures
        without(sessions, id).no_duplicates(),
        forall|session: u32| #[trigger]
            without(sessions, id).contains(session) ==> sessions.contains(session),
    decreases sessions.len(),
{
    reveal(Seq::filter);
    if sessions.len() > 0 {
        let front = sessions.drop_last();
        lemma_without_unique(front, id);
        assert forall|session: u32| #[trigger] without(sessions, id).contains(session) implies
            sessions.contains(session) by {
            if sessions.last() != id && session == sessions.last() {
                assert(sessions[sessions.len() - 1] == session);
            } else {
                let left = without(sessions, id);
                let at = choose|at: int| 0 <= at < left.len() && left[at] == session;
                if sessions.last() != id {
                    assert(left == without(front, id).push(sessions.last()));
                    assert(without(front, id)[at] == session);
                }
                assert(without(front, id).contains(session));
                let at = choose|at: int| 0 <= at < front.len() && front[at] == session;
                assert(sessions[at] == session);
            }
        }
        if sessions.last() != id {
            assert(!front.contains(sessions.last()));
            assert(without(sessions, id) == without(front, id).push(sessions.last()));
            let left = without(front, id);
            assert(!left.contains(sessions.last()));
            assert forall|i: int, j: int|
                0 <= i < left.len() + 1 && 0 <= j < left.len() + 1 && i != j implies left.push(
                sessions.last(),
            )[i] != left.push(sessions.last())[j] by {
                if i < left.len() {
                    assert(left.contains(left[i]));
                }
                if j < left.len() {
                    assert(left.contains(left[j]));
                }
            }
        }
    }
}

/// A frame never crosses into another ownership period of its range: what the merger is handed
/// carries the current owner, and delivery needs the same owner.
pub proof fn output_reaches_only_its_owner(
    profile: WireProfile,
    clients: Seq<Option<ClientView>>,
    id: u32,
    flags: u8,
    claimed: Option<ClientIncarnation>,
    later: Seq<Option<ClientView>>,
)
    ensures
        ({
            let claim = claim_of(profile, clients, id, claimed);
            claim matches Claim::Owner(owner) ==> {
                &&& claimed is Some ==> claimed == Some(owner)
                &&& route_of(profile, later, id, flags, Some(owner), true).0 matches Ok(route)
                    ==> route.deliver ==> later[route.slot as int] is Some
                    && later[route.slot as int]->0.incarnation == Some(owner)
            }
        }),
{
}

/// Output whose owner has changed reaches neither a client nor the log.
pub proof fn stale_output_is_not_logged(
    profile: WireProfile,
    clients: Seq<Option<ClientView>>,
    id: u32,
    flags: u8,
    incarnation: Option<ClientIncarnation>,
)
    ensures
        route_of(profile, clients, id, flags, incarnation, true).0 matches Ok(route) ==> (route.log
            ==> route.deliver),
{
}

/// A frame belongs to the client that owns its range now. A frame that names another owner is
/// dropped where that owner is gone, and is a breach where that owner is connected elsewhere.
pub proof fn claims_follow_the_current_owner(
    profile: WireProfile,
    clients: Seq<Option<ClientView>>,
    id: u32,
    slot: u32,
    claimed: Option<ClientIncarnation>,
)
    requires
        client_slot_spec(profile, id) == Some(slot),
        slot < clients.len(),
    ensures
        ({
            let owner = match clients[slot as int] {
                Some(client) => client.incarnation,
                None => None,
            };
            let claim = claim_of(profile, clients, id, claimed);
            let elsewhere = exists|i: int|
                0 <= i < clients.len() && (#[trigger] clients[i]) is Some
                    && clients[i]->0.incarnation == claimed;
            &&& owner is None ==> claim == Claim::Unowned
            &&& owner is Some && (claimed is None || claimed == owner) ==> claim == Claim::Owner(
                owner->0,
            )
            &&& owner is Some && claimed is Some && claimed != owner && elsewhere ==> claim
                == Claim::Fail(RouteError::OutsideRange { id })
            &&& owner is Some && claimed is Some && claimed != owner && !elsewhere ==> claim
                == Claim::Stale
        }),
{
}

/// No client can own an ID outside the ranges, and no frame with other flags is routed.
pub proof fn unroutable_frames_are_refused(
    profile: WireProfile,
    clients: Seq<Option<ClientView>>,
    id: u32,
    flags: u8,
    incarnation: Option<ClientIncarnation>,
    dual_port: bool,
)
    ensures
        !valid_frame_flags(profile, flags) ==> route_of(
            profile,
            clients,
            id,
            flags,
            incarnation,
            dual_port,
        ) == (Err::<Route, RouteError>(RouteError::InvalidFlags { id, flags }), clients),
        valid_frame_flags(profile, flags) && client_slot_spec(profile, id) is None ==> route_of(
            profile,
            clients,
            id,
            flags,
            incarnation,
            dual_port,
        ) == (Err::<Route, RouteError>(RouteError::Unassigned { id }), clients),
        client_slot_spec(profile, id) is None ==> claim_of(profile, clients, id, incarnation)
            == Claim::Fail(RouteError::Unassigned { id }),
{
}

/// A frame goes to the client of its range, under two ports only where that client is still the
/// owner that the frame carries. A delivered terminal frame ends its own session, and every other
/// session, of this client and of the others, stays.
pub proof fn routes_follow_the_range(
    profile: WireProfile,
    clients: Seq<Option<ClientView>>,
    id: u32,
    slot: u32,
    flags: u8,
    incarnation: Option<ClientIncarnation>,
    dual_port: bool,
)
    requires
        valid_frame_flags(profile, flags),
        client_slot_spec(profile, id) == Some(slot),
        slot < clients.len(),
    ensures
        ({
            let (result, after) = route_of(profile, clients, id, flags, incarnation, dual_port);
            let present = clients[slot as int] is Some;
            let same = clients[slot as int]->0.incarnation == incarnation;
            let ends = flags & profile.flag_terminal != 0;
            &&& result matches Ok(route)
            &&& route.slot == slot
            &&& route.deliver <==> present && (same || !dual_port)
            &&& route.terminal <==> ends
            &&& flags == profile.flag_bulk ==> !route.log
            &&& flags != profile.flag_bulk && !dual_port ==> route.log
            &&& flags != profile.flag_bulk && dual_port ==> route.log == route.deliver
            &&& after.len() == clients.len()
            &&& forall|i: int|
                0 <= i < clients.len() && i != slot ==> #[trigger] after[i] == clients[i]
            &&& !(route.deliver && ends) ==> after == clients
            &&& route.deliver && ends ==> {
                &&& after[slot as int] is Some
                &&& after[slot as int]->0.incarnation == clients[slot as int]->0.incarnation
                &&& !after[slot as int]->0.sessions.contains(id)
                &&& forall|other: u32|
                    other != id ==> (#[trigger] after[slot as int]->0.sessions.contains(other)
                        <==> clients[slot as int]->0.sessions.contains(other))
            }
        }),
{
    if clients[slot as int] is Some {
        let sessions = clients[slot as int]->0.sessions;
        assert forall|other: u32| #[trigger] without(sessions, id).contains(other) <==> other != id
            && sessions.contains(other) by {
            lemma_without_contains(sessions, id, other);
        }
    }
}

proof fn lemma_without_contains(sessions: Seq<u32>, id: u32, other: u32)
    ensures
        without(sessions, id).contains(other) <==> other != id && sessions.contains(other),
    decreases sessions.len(),
{
    reveal(Seq::filter);
    let keep = |session: u32| session != id;
    if sessions.len() > 0 {
        let front = sessions.drop_last();
        lemma_without_contains(front, id, other);
        assert(sessions =~= front.push(sessions.last()));
        assert(sessions.contains(other) <==> front.contains(other) || sessions.last() == other) by {
            if front.contains(other) {
                let k = choose|k: int| 0 <= k < front.len() && front[k] == other;
                assert(sessions[k] == other);
            }
            if sessions.contains(other) {
                let k = choose|k: int| 0 <= k < sessions.len() && sessions[k] == other;
                if k < front.len() {
                    assert(front[k] == other);
                }
            }
            if sessions.last() == other {
                assert(sessions[sessions.len() - 1] == other);
            }
        }
        if sessions.last() != id {
            let kept = front.filter(keep);
            let all = kept.push(sessions.last());
            assert(sessions.filter(keep) == all);
            assert(all.contains(other) <==> kept.contains(other) || sessions.last() == other) by {
                if kept.contains(other) {
                    let k = choose|k: int| 0 <= k < kept.len() && kept[k] == other;
                    assert(all[k] == other);
                }
                if all.contains(other) {
                    let k = choose|k: int| 0 <= k < all.len() && all[k] == other;
                    if k < kept.len() {
                        assert(kept[k] == other);
                    }
                }
                if sessions.last() == other {
                    assert(all[kept.len() as int] == other);
                }
            }
        }
    }
}

} // verus!
