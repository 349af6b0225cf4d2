//! Length-prefixed frames, correlation ranges and the fixed bulk header.
//!
//! A frame on the wire is a big-endian `u32` length, a big-endian `u32` correlation ID, one flag
//! byte and a body. A bulk frame's body starts with the bulk header: kind, flow, two reserved zero
//! bytes and a big-endian `u64` stream offset; the rest is raw payload.

use vstd::prelude::*;

verus! {

/// Size of the length prefix in the wire format.
pub const LEN_PREFIX_SIZE: usize = 4;

/// Correlation ID and flag byte.
pub const FRAME_HEADER_SIZE: usize = 5;

/// Kind, flow, two reserved bytes and the offset.
pub const BULK_HEADER_SIZE: usize = 12;

/// Bytes of a client incarnation in front of a record on the dedicated bulk lane.
pub const CLIENT_INCARNATION_SIZE: usize = 16;

/// Everything in front of a bulk frame's payload.
pub const BULK_PREFIX_SIZE: usize = LEN_PREFIX_SIZE + FRAME_HEADER_SIZE + BULK_HEADER_SIZE;

/// Transport identity of one leased ownership of a client slot, read big-endian from its bytes.
pub type ClientIncarnation = u128;

/// The agent protocol's numbers: codes and limits of the generation in use.
#[derive(Clone, Copy, Debug, PartialEq, Eq, Structural)]
pub struct WireProfile {
    /// Largest value a frame's length prefix may announce.
    pub max_frame_size: u32,
    /// Largest raw payload of one bulk record.
    pub max_bulk_payload: u32,
    /// Largest credit window of one bulk flow.
    pub max_bulk_window: u64,
    /// Width of one client's correlation range.
    pub id_range_step: u32,
    /// Number of client slots.
    pub max_clients: u32,
    pub flag_terminal: u8,
    pub flag_session_start: u8,
    pub flag_shutdown: u8,
    pub flag_bulk: u8,
    pub kind_filesystem: u8,
    pub kind_tcp: u8,
    pub flow_host_to_guest: u8,
    pub flow_guest_to_host: u8,
    /// Bit of an acceptance's flow mask that enables guest-to-host records.
    pub flow_mask_guest_to_host: u8,
}

impl WireProfile {
    /// The flags are distinct bits, the codes differ, and every slot's range fits in a `u32`.
    pub open spec fn wf(&self) -> bool {
        &&& self.max_clients >= 1
        &&& self.id_range_step >= 2
        &&& self.max_clients * self.id_range_step <= u32::MAX
        &&& self.flag_terminal != 0
        &&& self.flag_session_start != 0
        &&& self.flag_shutdown != 0
        &&& self.flag_bulk != 0
        &&& self.flag_terminal & self.flag_session_start == 0
        &&& self.flag_terminal & self.flag_shutdown == 0
        &&& self.flag_terminal & self.flag_bulk == 0
        &&& self.flag_session_start & self.flag_shutdown == 0
        &&& self.flag_session_start & self.flag_bulk == 0
        &&& self.flag_shutdown & self.flag_bulk == 0
        &&& self.kind_filesystem != self.kind_tcp
        &&& self.flow_host_to_guest != self.flow_guest_to_host
    }

    /// Whether the numbers can be used: the rest of the library depends on it.
    pub fn is_valid(&self) -> (valid: bool)
        ensures
            valid == self.wf(),
    {
        let clients: u64 = self.max_clients as u64;
        let step: u64 = self.id_range_step as u64;
        assert(clients * step <= 0xffff_ffff * 0xffff_ffff) by (nonlinear_arith)
            requires
                clients <= 0xffff_ffff,
                step <= 0xffff_ffff,
        ;
        self.max_clients >= 1 && self.id_range_step >= 2 && clients * step <= u32::MAX as u64
            && self.flag_terminal != 0 && self.flag_session_start != 0 && self.flag_shutdown != 0
            && self.flag_bulk != 0 && self.flag_terminal & self.flag_session_start == 0
            && self.flag_terminal & self.flag_shutdown == 0 && self.flag_terminal & self.flag_bulk
            == 0 && self.flag_session_start & self.flag_shutdown == 0 && self.flag_session_start
            & self.flag_bulk == 0 && self.flag_shutdown & self.flag_bulk == 0
            && self.kind_filesystem != self.kind_tcp && self.flow_host_to_guest
            != self.flow_guest_to_host
    }
}

/// What a bulk operation transports.
#[derive(Clone, Copy, Debug, PartialEq, Eq, Structural)]
pub enum BulkKind {
    Filesystem,
    Tcp,
}

/// Direction of one bulk stream.
#[derive(Clone, Copy, Debug, PartialEq, Eq, Structural)]
pub enum BulkFlow {
    HostToGuest,
    GuestToHost,
}

/// The kind with wire code `code`.
pub open spec fn kind_from_wire_spec(profile: WireProfile, code: u8) -> Option<BulkKind> {
    if code == profile.kind_filesystem {
        Some(BulkKind::Filesystem)
    } else if code == profile.kind_tcp {
        Some(BulkKind::Tcp)
    } else {
        None
    }
}

/// The flow with wire code `code`.
pub open spec fn flow_from_wire_spec(profile: WireProfile, code: u8) -> Option<BulkFlow> {
    if code == profile.flow_host_to_guest {
        Some(BulkFlow::HostToGuest)
    } else if code == profile.flow_guest_to_host {
        Some(BulkFlow::GuestToHost)
    } else {
        None
    }
}

impl BulkKind {
    pub open spec fn wire_code(self, profile: WireProfile) -> u8 {
        match self {
            BulkKind::Filesystem => profile.kind_filesystem,
            BulkKind::Tcp => profile.kind_tcp,
        }
    }

    pub fn to_wire(self, profile: &WireProfile) -> (code: u8)
        ensures
            code == self.wire_code(*profile),
    {
        match self {
            BulkKind::Filesystem => profile.kind_filesystem,
            BulkKind::Tcp => profile.kind_tcp,
        }
    }

    pub fn from_wire(profile: &WireProfile, code: u8) -> (kind: Option<BulkKind>)
        ensures
            kind == kind_from_wire_spec(*profile, code),
    {
        if code == profile.kind_filesystem {
            Some(BulkKind::Filesystem)
        } else if code == profile.kind_tcp {
            Some(BulkKind::Tcp)
        } else {
            None
        }
    }
}

impl BulkFlow {
    pub open spec fn wire_code(self, profile: WireProfile) -> u8 {
        match self {
            BulkFlow::HostToGuest => profile.flow_host_to_guest,
            BulkFlow::GuestToHost => profile.flow_guest_to_host,
        }
    }

    pub fn to_wire(self, profile: &WireProfile) -> (code: u8)
        ensures
            code == self.wire_code(*profile),
    {
        match self {
            BulkFlow::HostToGuest => profile.flow_host_to_guest,
            BulkFlow::GuestToHost => profile.flow_guest_to_host,
        }
    }

    pub fn from_wire(profile: &WireProfile, code: u8) -> (flow: Option<BulkFlow>)
        ensures
            flow == flow_from_wire_spec(*profile, code),
    {
        if code == profile.flow_host_to_guest {
            Some(BulkFlow::HostToGuest)
        } else if code == profile.flow_guest_to_host {
            Some(BulkFlow::GuestToHost)
        } else {
            None
        }
    }
}

/// One complete frame, with the header fields that routing reads.
pub struct RawFrame {
    pub data: Vec<u8>,
    pub id: u32,
    pub flags: u8,
}

/// Big-endian value of the bytes of `s`.
pub open spec fn be_value(s: Seq<u8>) -> nat
    decreases s.len(),
{
    if s.len() == 0 {
        0
    } else {
        be_value(s.drop_last()) * 256 + s.last() as nat
    }
}

/// A value of at most `k` bytes is below `256^k`.
pub proof fn lemma_be_value_bounds(s: Seq<u8>)
    ensures
        s.len() == 4 ==> be_value(s) <= u32::MAX,
        s.len() == 8 ==> be_value(s) <= u64::MAX,
        s.len() == 16 ==> be_value(s) <= u128::MAX,
{
    lemma_be_value_step_bounds(s);
}

proof fn lemma_be_value_step_bounds(s: Seq<u8>)
    ensures
        be_value(s) < vstd::arithmetic::power::pow(256, s.len()),
        s.len() == 4 ==> be_value(s) <= u32::MAX,
        s.len() == 8 ==> be_value(s) <= u64::MAX,
        s.len() == 16 ==> be_value(s) <= u128::MAX,
    decreases s.len(),
{
    reveal(vstd::arithmetic::power::pow);
    if s.len() > 0 {
        lemma_be_value_step_bounds(s.drop_last());
    }
    vstd::arithmetic::power::lemma_pow0(256);
    assert(vstd::arithmetic::power::pow(256, 4) == 0x1_0000_0000) by {
        reveal_with_fuel(vstd::arithmetic::power::pow, 5);
    }
    assert(vstd::arithmetic::power::pow(256, 8) == 0x1_0000_0000_0000_0000) by {
        reveal_with_fuel(vstd::arithmetic::power::pow, 9);
    }
    assert(vstd::arithmetic::power::pow(256, 16) == 0x1_0000_0000_0000_0000_0000_0000_0000_0000) by {
        reveal_with_fuel(vstd::arithmetic::power::pow, 17);
    }
}

proof fn lemma_be_value_push(s: Seq<u8>, b: u8)
    ensures
        be_value(s.push(b)) == be_value(s) * 256 + b,
{
    assert(s.push(b).drop_last() =~= s);
}

/// The big-endian `u32` at `start`.
pub fn be_u32(data: &[u8], start: usize) -> (value: u32)
    requires
        start + 4 <= data@.len(),
    ensures
        value == be_value(data@.subrange(start as int, start + 4)),
{
    let len: usize = data.len();
    let mut value: u32 = 0;
    let mut i: usize = 0;
    while i < 4
        invariant
            i <= 4,
            len == data@.len(),
            start + 4 <= len,
            value == be_value(data@.subrange(start as int, start + i)),
            i == 0 ==> value == 0,
            i == 1 ==> value < 0x100,
            i == 2 ==> value < 0x1_0000,
            i == 3 ==> value < 0x100_0000,
        decreases 4 - i,
    {
        proof {
            lemma_be_value_push(data@.subrange(start as int, start + i), data@[start + i]);
            assert(data@.subrange(start as int, start + i).push(data@[start + i])
                =~= data@.subrange(start as int, start + i + 1));
        }
        value = value * 256 + data[start + i] as u32;
        i = i + 1;
    }
    value
}

/// The big-endian `u64` at `start`.
pub fn be_u64(data: &[u8], start: usize) -> (value: u64)
    requires
        start + 8 <= data@.len(),
    ensures
        value == be_value(data@.subrange(start as int, start + 8)),
{
    let len: usize = data.len();
    let high = be_u32(data, start);
    let mut value: u64 = high as u64;
    let mut i: usize = 4;
    while i < 8
        invariant
            4 <= i <= 8,
            len == data@.len(),
            start + 8 <= len,
            value == be_value(data@.subrange(start as int, start + i)),
            i == 4 ==> value < 0x1_0000_0000,
            i == 5 ==> value < 0x100_0000_0000,
            i == 6 ==> value < 0x1_0000_0000_0000,
            i == 7 ==> value < 0x100_0000_0000_0000,
        decreases 8 - i,
    {
        proof {
            lemma_be_value_push(data@.subrange(start as int, start + i), data@[start + i]);
            assert(data@.subrange(start as int, start + i).push(data@[start + i])
                =~= data@.subrange(start as int, start + i + 1));
        }
        value = value * 256 + data[start + i] as u64;
        i = i + 1;
    }
    value
}

/// The client incarnation at `start`.
pub fn be_u128(data: &[u8], start: usize) -> (value: u128)
    requires
        start + 16 <= data@.len(),
    ensures
        value == be_value(data@.subrange(start as int, start + 16)),
{
    let len: usize = data.len();
    let mut value: u128 = 0;
    let mut i: usize = 0;
    while i < 16
        invariant
            i <= 16,
            len == data@.len(),
            start + 16 <= len,
            value == be_value(data@.subrange(start as int, start + i)),
        decreases 16 - i,
    {
        proof {
            lemma_be_value_push(data@.subrange(start as int, start + i), data@[start + i]);
            assert(data@.subrange(start as int, start + i).push(data@[start + i])
                =~= data@.subrange(start as int, start + i + 1));
            lemma_be_value_prefix_fits(data@.subrange(start as int, start + 16), i as int + 1);
            assert(data@.subrange(start as int, start + 16).subrange(0, i + 1)
                =~= data@.subrange(start as int, start + i + 1));
        }
        value = value * 256 + data[start + i] as u128;
        i = i + 1;
    }
    value
}

proof fn lemma_be_value_prefix_fits(s: Seq<u8>, n: int)
    requires
        s.len() == 16,
        0 <= n <= 16,
    ensures
        be_value(s.subrange(0, n)) <= u128::MAX,
    decreases 16 - n,
{
    if n == 16 {
        lemma_be_value_bounds(s.subrange(0, n));
    } else {
        lemma_be_value_prefix_fits(s, n + 1);
        assert(s.subrange(0, n + 1).drop_last() =~= s.subrange(0, n));
        assert(be_value(s.subrange(0, n + 1)) >= be_value(s.subrange(0, n))) by (nonlinear_arith)
            requires
                be_value(s.subrange(0, n + 1)) == be_value(s.subrange(0, n)) * 256 + s.subrange(
                    0,
                    n + 1,
                ).last(),
        ;
    }
}

/// The `n` big-endian bytes of `value`.
pub(crate) fn be_bytes(value: u128, n: u32) -> (bytes: Vec<u8>)
    requires
        n <= 16,
        value < vstd::arithmetic::power::pow(256, n as nat),
    ensures
        bytes@.len() == n,
        be_value(bytes@) == value,
    decreases n,
{
    proof {
        reveal(vstd::arithmetic::power::pow);
    }
    if n == 0 {
        return Vec::new();
    }
    proof {
        assert(vstd::arithmetic::power::pow(256, n as nat) == 256 * vstd::arithmetic::power::pow(
            256,
            (n - 1) as nat,
        ));
    }
    let mut bytes = be_bytes(value / 256, n - 1);
    let ghost high = bytes@;
    bytes.push((value % 256) as u8);
    proof {
        lemma_be_value_push(high, (value % 256) as u8);
    }
    bytes
}

/// The bytes of a client incarnation, as they stand in front of its bulk records.
pub fn incarnation_bytes(incarnation: ClientIncarnation) -> (bytes: Vec<u8>)
    ensures
        bytes@.len() == CLIENT_INCARNATION_SIZE,
        be_value(bytes@) == incarnation,
{
    proof {
        reveal_with_fuel(vstd::arithmetic::power::pow, 17);
        assert(vstd::arithmetic::power::pow(256, 16)
            == 0x1_0000_0000_0000_0000_0000_0000_0000_0000);
    }
    be_bytes(incarnation, 16)
}

/// The slot that owns a correlation ID.
pub open spec fn client_slot_spec(profile: WireProfile, id: u32) -> Option<u32> {
    if id == 0 || id / profile.id_range_step >= profile.max_clients {
        None
    } else {
        Some(id / profile.id_range_step)
    }
}

/// First ID and end of a slot's correlation range. ID 0 belongs to no client.
pub open spec fn client_range_spec(profile: WireProfile, slot: u32) -> Option<(int, int)> {
    if slot >= profile.max_clients {
        None
    } else {
        Some(
            (
                if slot == 0 {
                    1
                } else {
                    slot * profile.id_range_step
                },
                (slot + 1) * profile.id_range_step,
            ),
        )
    }
}

/// The slot whose range holds `id`, if any client can own it.
pub fn relay_client_slot(profile: &WireProfile, id: u32) -> (slot: Option<u32>)
    requires
        profile.wf(),
    ensures
        slot == client_slot_spec(*profile, id),
{
    let slot: u32 = id / profile.id_range_step;
    if id == 0 || slot >= profile.max_clients {
        None
    } else {
        Some(slot)
    }
}

/// The half-open correlation range of `slot`.
pub fn relay_client_id_range(profile: &WireProfile, slot: u32) -> (range: Option<(u32, u32)>)
    requires
        profile.wf(),
    ensures
        match client_range_spec(*profile, slot) {
            None => range is None,
            Some((start, end)) => range matches Some((s, e)) && s == start && e == end,
        },
{
    if slot >= profile.max_clients {
        return None;
    }
    proof {
        lemma_range_fits(*profile, slot);
    }
    let end: u32 = (slot + 1) * profile.id_range_step;
    let start: u32 = if slot == 0 {
        1
    } else {
        slot * profile.id_range_step
    };
    Some((start, end))
}

proof fn lemma_range_fits(profile: WireProfile, slot: u32)
    requires
        profile.wf(),
        slot < profile.max_clients,
    ensures
        0 <= slot * profile.id_range_step <= u32::MAX,
        (slot + 1) * profile.id_range_step <= u32::MAX,
        (slot + 1) * profile.id_range_step == slot * profile.id_range_step + profile.id_range_step,
{
    assert((slot + 1) * profile.id_range_step <= profile.max_clients * profile.id_range_step)
        by (nonlinear_arith)
        requires
            slot + 1 <= profile.max_clients,
    ;
    assert((slot + 1) * profile.id_range_step == slot * profile.id_range_step
        + profile.id_range_step) by (nonlinear_arith);
    assert(0 <= slot * profile.id_range_step) by (nonlinear_arith);
}

/// Slots and ranges agree: an ID belongs to exactly the slot whose range holds it.
pub proof fn slot_owns_exactly_its_range(profile: WireProfile, slot: u32, id: u32)
    requires
        profile.wf(),
        slot < profile.max_clients,
    ensures
        client_slot_spec(profile, id) == Some(slot) <==> {
            let range = client_range_spec(profile, slot).unwrap();
            range.0 <= id < range.1
        },
{
    lemma_range_fits(profile, slot);
    let step = profile.id_range_step as int;
    let q = id as int / step;
    vstd::arithmetic::div_mod::lemma_fundamental_div_mod(id as int, step);
    assert(step * q <= id < step * q + step) by {
        vstd::arithmetic::div_mod::lemma_mod_bound(id as int, step);
    }
    if q == slot {
        assert(slot * step == step * q) by (nonlinear_arith)
            requires
                q == slot,
        ;
    } else if q < slot {
        assert(step * q + step <= slot * step) by (nonlinear_arith)
            requires
                q + 1 <= slot,
                step >= 0,
        ;
    } else {
        assert(slot * step + step <= step * q) by (nonlinear_arith)
            requires
                slot + 1 <= q,
                step >= 0,
        ;
    }
}

/// Two clients never share a correlation ID.
pub proof fn client_ranges_are_disjoint(profile: WireProfile, a: u32, b: u32, id: u32)
    requires
        profile.wf(),
        a < profile.max_clients,
        b < profile.max_clients,
        a != b,
    ensures
        !({
            let first = client_range_spec(profile, a).unwrap();
            let second = client_range_spec(profile, b).unwrap();
            first.0 <= id < first.1 && second.0 <= id < second.1
        }),
{
    slot_owns_exactly_its_range(profile, a, id);
    slot_owns_exactly_its_range(profile, b, id);
}

/// Whether a frame of this ID and these flags may pass from a client with this range.
pub open spec fn client_frame_allowed(
    profile: WireProfile,
    id: u32,
    flags: u8,
    id_start: u32,
    id_end_exclusive: u32,
) -> bool {
    ||| id == 0 && flags & profile.flag_shutdown != 0
    ||| id_start <= id < id_end_exclusive
}

/// Return whether a client-originated frame may be forwarded to agentd.
///
/// Most client frames must use a correlation ID from the relay-assigned range so responses route
/// back to the owning client. The shutdown request is a process-level control frame, not a
/// correlated request, and is sent with ID 0.
pub fn is_client_frame_allowed(
    profile: &WireProfile,
    id: u32,
    flags: u8,
    id_start: u32,
    id_end_exclusive: u32,
) -> (allowed: bool)
    ensures
        allowed == client_frame_allowed(*profile, id, flags, id_start, id_end_exclusive),
{
    let is_shutdown_control = (flags & profile.flag_shutdown) != 0 && id == 0;
    is_shutdown_control || (id >= id_start && id < id_end_exclusive)
}

/// No flag, or exactly one of the four.
pub open spec fn valid_frame_flags(profile: WireProfile, flags: u8) -> bool {
    ||| flags == 0
    ||| flags == profile.flag_terminal
    ||| flags == profile.flag_session_start
    ||| flags == profile.flag_shutdown
    ||| flags == profile.flag_bulk
}

/// Validate the complete flag byte without interpreting an opaque frame body.
pub fn has_valid_frame_flags(profile: &WireProfile, flags: u8) -> (valid: bool)
    ensures
        valid == valid_frame_flags(*profile, flags),
{
    flags == 0 || flags == profile.flag_terminal || flags == profile.flag_session_start || flags
        == profile.flag_shutdown || flags == profile.flag_bulk
}

/// A valid flag byte with the bulk bit is the bulk flag alone.
pub proof fn bulk_flag_is_exclusive(profile: WireProfile, flags: u8)
    requires
        profile.wf(),
        valid_frame_flags(profile, flags),
        flags & profile.flag_bulk != 0,
    ensures
        flags == profile.flag_bulk,
{
    let bulk = profile.flag_bulk;
    assert(0u8 & bulk == 0) by (bit_vector);
}

/// Every kind and every flow is read back from the code that it is written as, and a code that
/// neither of the two has is none.
pub proof fn codes_read_back(profile: WireProfile, code: u8)
    requires
        profile.wf(),
    ensures
        kind_from_wire_spec(profile, profile.kind_filesystem) == Some(BulkKind::Filesystem),
        kind_from_wire_spec(profile, profile.kind_tcp) == Some(BulkKind::Tcp),
        flow_from_wire_spec(profile, profile.flow_host_to_guest) == Some(BulkFlow::HostToGuest),
        flow_from_wire_spec(profile, profile.flow_guest_to_host) == Some(BulkFlow::GuestToHost),
        forall|kind: BulkKind|
            kind_from_wire_spec(profile, #[trigger] kind.wire_code(profile)) == Some(kind),
        forall|flow: BulkFlow|
            flow_from_wire_spec(profile, #[trigger] flow.wire_code(profile)) == Some(flow),
        kind_from_wire_spec(profile, code) is None <==> code != profile.kind_filesystem && code
            != profile.kind_tcp,
        flow_from_wire_spec(profile, code) is None <==> code != profile.flow_host_to_guest && code
            != profile.flow_guest_to_host,
{
}

/// The first byte weighs most.
pub proof fn first_byte_weighs_most(first: u8, rest: Seq<u8>)
    ensures
        be_value(seq![first] + rest) == first * vstd::arithmetic::power::pow(256, rest.len())
            + be_value(rest),
    decreases rest.len(),
{
    reveal(vstd::arithmetic::power::pow);
    let all = seq![first] + rest;
    if rest.len() == 0 {
        assert(all.drop_last() =~= Seq::<u8>::empty());
        assert(all.last() == first);
        assert(be_value(all.drop_last()) == 0);
    } else {
        first_byte_weighs_most(first, rest.drop_last());
        assert(all.drop_last() =~= seq![first] + rest.drop_last());
        assert(all.last() == rest.last());
        let below = vstd::arithmetic::power::pow(256, (rest.len() - 1) as nat);
        assert((first * below) * 256 == first * (256 * below)) by (nonlinear_arith);
    }
}

/// The slots share the correlation IDs out without a gap: the first range begins at 1, each begins
/// where the one before it ends, and every ID below the last end has its slot.
pub proof fn client_ranges_leave_no_gap(profile: WireProfile, slot: u32, id: u32)
    requires
        profile.wf(),
        slot < profile.max_clients,
    ensures
        client_range_spec(profile, 0) matches Some(first) && first.0 == 1 && first.1
            == profile.id_range_step,
        slot > 0 ==> client_range_spec(profile, slot).unwrap().0 == client_range_spec(
            profile,
            (slot - 1) as u32,
        ).unwrap().1,
        client_range_spec(profile, slot).unwrap().1 == (slot + 1) * profile.id_range_step,
        client_slot_spec(profile, id) is Some <==> 1 <= id < profile.max_clients
            * profile.id_range_step,
        client_slot_spec(profile, id) matches Some(owner) ==> owner < profile.max_clients,
{
    lemma_range_fits(profile, slot);
    let step = profile.id_range_step as int;
    let clients = profile.max_clients as int;
    let q = id as int / step;
    vstd::arithmetic::div_mod::lemma_fundamental_div_mod(id as int, step);
    vstd::arithmetic::div_mod::lemma_mod_bound(id as int, step);
    if q < clients {
        assert(step * q + step <= clients * step) by (nonlinear_arith)
            requires
                q + 1 <= clients,
                step >= 0,
        ;
    } else {
        assert(clients * step <= step * q) by (nonlinear_arith)
            requires
                clients <= q,
                step >= 0,
        ;
    }
}

/// A client's frame passes with an ID of its own range, and with ID 0 only as a shutdown request.
pub proof fn client_frames_carry_their_own_ids(
    profile: WireProfile,
    slot: u32,
    id: u32,
    flags: u8,
    start: u32,
    end: u32,
)
    requires
        profile.wf(),
        slot < profile.max_clients,
        client_range_spec(profile, slot) == Some((start as int, end as int)),
    ensures
        id != 0 ==> (client_frame_allowed(profile, id, flags, start, end) <==> client_slot_spec(
            profile,
            id,
        ) == Some(slot)),
        client_frame_allowed(profile, 0, flags, start, end) <==> flags & profile.flag_shutdown != 0,
{
    slot_owns_exactly_its_range(profile, slot, id);
    lemma_range_fits(profile, slot);
    if slot > 0 {
        assert(slot * profile.id_range_step >= 2) by (nonlinear_arith)
            requires
                slot >= 1,
                profile.id_range_step >= 2,
        ;
    }
}

/// A frame carries at most one of the four flags.
pub proof fn frames_carry_one_flag(profile: WireProfile, flags: u8)
    requires
        profile.wf(),
        valid_frame_flags(profile, flags),
    ensures
        flags & profile.flag_terminal != 0 ==> flags == profile.flag_terminal,
        flags & profile.flag_session_start != 0 ==> flags == profile.flag_session_start,
        flags & profile.flag_shutdown != 0 ==> flags == profile.flag_shutdown,
        flags & profile.flag_bulk != 0 ==> flags == profile.flag_bulk,
        valid_frame_flags(profile, 0),
        valid_frame_flags(profile, profile.flag_terminal),
        valid_frame_flags(profile, profile.flag_session_start),
        valid_frame_flags(profile, profile.flag_shutdown),
        valid_frame_flags(profile, profile.flag_bulk),
{
    let t = profile.flag_terminal;
    let s = profile.flag_session_start;
    let d = profile.flag_shutdown;
    let b = profile.flag_bulk;
    assert(0u8 & t == 0 && 0u8 & s == 0 && 0u8 & d == 0 && 0u8 & b == 0 && s & t == t & s && d & t
        == t & d && b & t == t & b && d & s == s & d && b & s == s & b && b & d == d & b)
        by (bit_vector);
}

} // verus!
