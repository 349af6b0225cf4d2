//! Cooperative CPU allocation: catalog occupancy, process-held leases and placement reports.

use std::collections::BTreeMap;

use vstd::prelude::*;
use vstd::std_specs::btree::*;
use vstd::string::*;

use crate::admission::random_u128;
use crate::text::decimal;
use crate::text::hex_encode;
use crate::text::hex_text;
use crate::text::joined;
use crate::text::prefixed;
use crate::text::push_decimal;
use crate::wire::incarnation_bytes;

verus! {

pub const PLANNER_LOCK_TIMEOUT_MS: u64 = 250;

/// A hexadecimal digit.
pub open spec fn is_hex_digit(c: char) -> bool {
    '0' <= c <= '9' || 'a' <= c <= 'f' || 'A' <= c <= 'F'
}

/// A canonical allocation ID: 32 hexadecimal digits.
pub open spec fn is_allocation_id(id: Seq<char>) -> bool {
    &&& id.len() == 32
    &&& forall|i: int| 0 <= i < id.len() ==> is_hex_digit(#[trigger] id[i])
}

/// The lease name that belongs to an allocation.
pub open spec fn lease_name_of(id: Seq<char>) -> Seq<char> {
    id + ".lock"@
}

/// Whether a catalog row names the lease of its own allocation. Catalog contents are not trusted as
/// file paths.
pub fn is_valid_lease_name(allocation_id: &str, lease_name: &str) -> (valid: bool)
    ensures
        valid == (is_allocation_id(allocation_id@) && lease_name@ == lease_name_of(allocation_id@)),
{
    let len: usize = allocation_id.unicode_len();
    if len != 32 {
        return false;
    }
    let mut i: usize = 0;
    while i < len
        invariant
            i <= len,
            len == allocation_id@.len(),
            forall|k: int| 0 <= k < i ==> is_hex_digit(#[trigger] allocation_id@[k]),
        decreases len - i,
    {
        let c = allocation_id.get_char(i);
        let digit = ('0' <= c && c <= '9') || ('a' <= c && c <= 'f') || ('A' <= c && c <= 'F');
        if !digit {
            assert(!is_hex_digit(allocation_id@[i as int]));
            return false;
        }
        i = i + 1;
    }
    let expected = prefixed(allocation_id, ".lock");
    expected == String::from_str(lease_name)
}

/// A new allocation's ID and lease name.
pub struct AllocationName {
    pub id: String,
    pub lease_name: String,
}

/// The names that a number gives: its 32 hexadecimal digits, and those with the lease's ending.
pub fn allocation_name(number: u128) -> (name: AllocationName)
    ensures
        exists|bytes: Seq<u8>|
            bytes.len() == 16 && crate::wire::be_value(bytes) == number && name.id@
                == #[trigger] hex_text(bytes),
        is_allocation_id(name.id@),
        name.lease_name@ == lease_name_of(name.id@),
{
    let bytes = incarnation_bytes(number);
    let id = hex_encode(bytes.as_slice());
    let lease_name = prefixed(id.as_str(), ".lock");
    proof {
        assert forall|i: int| 0 <= i < id@.len() implies is_hex_digit(#[trigger] id@[i]) by {
            let byte = bytes@[i / 2];
            assert(byte / 16 < 16);
            assert(byte % 16 < 16);
        }
    }
    AllocationName { id, lease_name }
}

/// Name a new allocation by a random number.
pub fn new_allocation_name() -> (name: AllocationName)
    ensures
        is_allocation_id(name.id@),
        name.lease_name@ == lease_name_of(name.id@),
{
    allocation_name(random_u128())
}

/// What looking at a lease file showed.
#[derive(Clone, Copy, Debug, PartialEq, Eq, Structural)]
pub enum LeaseProbe {
    /// The file is missing, or its lock could not be examined.
    Unverifiable,
    /// Another process holds the lock.
    Held,
    /// The lock was free, and is now held by the prober.
    Free,
}

/// Whether an allocation's owner is gone. Only the private lease of a well-named row may be probed,
/// and what cannot be verified stays occupied.
pub fn is_stale(allocation_id: &str, lease_name: &str, probe: LeaseProbe) -> (stale: bool)
    ensures
        stale == (is_allocation_id(allocation_id@) && lease_name@ == lease_name_of(allocation_id@)
            && probe == LeaseProbe::Free),
{
    is_valid_lease_name(allocation_id, lease_name) && probe == LeaseProbe::Free
}

/// A host processor.
#[derive(Clone, Copy, Debug, PartialEq, Eq, Structural)]
pub struct LogicalCpu {
    pub group: u16,
    pub index: u16,
}

impl LogicalCpu {
    /// The number under which the catalog knows a processor.
    pub open spec fn key(self) -> int {
        self.group * 0x1_0000 + self.index
    }

    pub fn catalog_key(&self) -> (key: u32)
        ensures
            key == self.key(),
    {
        self.group as u32 * 0x1_0000 + self.index as u32
    }
}

/// Two processors have different keys.
pub proof fn catalog_keys_are_distinct(a: LogicalCpu, b: LogicalCpu)
    ensures
        a.key() == b.key() ==> a == b,
{
}

/// A processor that an allocation occupies.
pub struct CpuRow {
    pub allocation_id: String,
    /// The key as the catalog holds it.
    pub logical_cpu: i64,
    /// The processor that the key names, or why it names none.
    pub cpu: Result<LogicalCpu, String>,
}

/// Memory that an allocation occupies.
pub struct MemoryRow {
    pub allocation_id: String,
    pub host_numa_node: i32,
    pub max_mib: i64,
}

/// Whether an allocation is among the stale ones.
pub open spec fn is_listed(stale: Seq<String>, id: Seq<char>) -> bool {
    exists|i: int| 0 <= i < stale.len() && (#[trigger] stale[i])@ == id
}

fn listed(stale: &Vec<String>, id: &String) -> (found: bool)
    ensures
        found == is_listed(stale@, id@),
{
    let mut i: usize = 0;
    while i < stale.len()
        invariant
            i <= stale@.len(),
            forall|k: int| 0 <= k < i ==> (#[trigger] stale@[k])@ != id@,
        decreases stale@.len() - i,
    {
        if stale[i] == *id {
            return true;
        }
        i = i + 1;
    }
    false
}

/// How many of the first `n` rows occupy a processor for a live allocation.
pub open spec fn load_of(rows: Seq<CpuRow>, stale: Seq<String>, key: int, n: nat) -> nat
    decreases n,
{
    if n == 0 {
        0
    } else {
        let row = rows[n - 1];
        load_of(rows, stale, key, (n - 1) as nat) + if !is_listed(stale, row.allocation_id@)
            && row.cpu is Ok && row.cpu->Ok_0.key() == key {
            1nat
        } else {
            0nat
        }
    }
}

/// How much memory the first `n` rows reserve on a node for live allocations.
pub open spec fn reserved_of(rows: Seq<MemoryRow>, stale: Seq<String>, node: int, n: nat) -> nat
    decreases n,
{
    if n == 0 {
        0
    } else {
        let row = rows[n - 1];
        reserved_of(rows, stale, node, (n - 1) as nat) + if !is_listed(stale, row.allocation_id@)
            && row.host_numa_node == node && row.max_mib >= 0 {
            row.max_mib as nat
        } else {
            0nat
        }
    }
}

/// A live row of the first `n` names a node.
pub open spec fn node_named(rows: Seq<MemoryRow>, stale: Seq<String>, node: int, n: nat) -> bool {
    exists|i: int|
        0 <= i < n && i < rows.len() && !is_listed(stale, (#[trigger] rows[i]).allocation_id@)
            && rows[i].host_numa_node == node
}

proof fn lemma_load_bound(rows: Seq<CpuRow>, stale: Seq<String>, key: int, n: nat)
    ensures
        load_of(rows, stale, key, n) <= n,
    decreases n,
{
    if n > 0 {
        lemma_load_bound(rows, stale, key, (n - 1) as nat);
    }
}

fn looked_up<V: Copy>(map: &BTreeMap<u32, V>, key: u32) -> (value: Option<V>)
    ensures
        match value {
            Some(value) => map@.contains_key(key) && map@[key] == value,
            None => !map@.contains_key(key),
        },
{
    broadcast use {group_btree_axioms, vstd::laws_cmp::group_laws_cmp};

    match map.get(&key) {
        Some(value) => Some(*value),
        None => None,
    }
}

fn store<V>(map: &mut BTreeMap<u32, V>, key: u32, value: V)
    ensures
        final(map)@ == old(map)@.insert(key, value),
{
    broadcast use {group_btree_axioms, vstd::laws_cmp::group_laws_cmp};

    map.insert(key, value);
}

/// What live allocations occupy: processors by their keys, memory by host node.
pub struct Occupancy {
    pub loads: BTreeMap<u32, usize>,
    pub reserved_memory_mib: BTreeMap<u32, u64>,
}

/// Why the catalog cannot be planned on.
pub enum SnapshotError {
    InvalidCpu { allocation_id: String, logical_cpu: i64, reason: String },
    InvalidNode { allocation_id: String, host_numa_node: i32 },
    InvalidMemory { allocation_id: String, max_mib: i64 },
}

/// A number with its sign.
pub open spec fn signed_decimal(n: int) -> Seq<char> {
    if n < 0 {
        "-"@ + decimal((-n) as nat)
    } else {
        decimal(n as nat)
    }
}

/// Appends a number with its sign.
pub fn push_signed(out: &mut String, n: i64)
    ensures
        final(out)@ == old(out)@ + signed_decimal(n as int),
{
    if n < 0 {
        out.append("-");
        let magnitude: u64 = if n == i64::MIN {
            0x8000_0000_0000_0000
        } else {
            (-n) as u64
        };
        push_decimal(out, magnitude);
        assert(out@ =~= old(out)@ + signed_decimal(n as int));
    } else {
        push_decimal(out, n as u64);
    }
}

impl SnapshotError {
    pub open spec fn text(self) -> Seq<char> {
        match self {
            SnapshotError::InvalidCpu { allocation_id, logical_cpu, reason } => "CPU allocation "@
                + allocation_id@ + " contains invalid logical CPU "@ + signed_decimal(
                logical_cpu as int,
            ) + ": "@ + reason@,
            SnapshotError::InvalidNode { allocation_id, host_numa_node } => "memory allocation "@
                + allocation_id@ + " contains invalid host NUMA node "@ + signed_decimal(
                host_numa_node as int,
            ),
            SnapshotError::InvalidMemory { allocation_id, max_mib } => "memory allocation "@
                + allocation_id@ + " contains invalid maximum memory "@ + signed_decimal(
                max_mib as int,
            ),
        }
    }

    pub fn message(&self) -> (text: String)
        ensures
            text@ == self.text(),
    {
        match self {
            SnapshotError::InvalidCpu { allocation_id, logical_cpu, reason } => {
                let mut text = joined(
                    "CPU allocation ",
                    allocation_id.as_str(),
                    " contains invalid logical CPU ",
                );
                push_signed(&mut text, *logical_cpu);
                text.append(": ");
                text.append(reason.as_str());
                text
            },
            SnapshotError::InvalidNode { allocation_id, host_numa_node } => {
                let mut text = joined(
                    "memory allocation ",
                    allocation_id.as_str(),
                    " contains invalid host NUMA node ",
                );
                push_signed(&mut text, *host_numa_node as i64);
                text
            },
            SnapshotError::InvalidMemory { allocation_id, max_mib } => {
                let mut text = joined(
                    "memory allocation ",
                    allocation_id.as_str(),
                    " contains invalid maximum memory ",
                );
                push_signed(&mut text, *max_mib);
                text
            },
        }
    }

    /// Whether the lease file of the allocation attempt is removed on this failure.
    pub fn removes_lease(&self) -> (removes: bool)
        ensures
            removes == (self is InvalidCpu),
    {
        match self {
            SnapshotError::InvalidCpu { .. } => true,
            _ => false,
        }
    }
}

/// A processor row that cannot be planned on.
pub open spec fn bad_cpu(row: CpuRow, stale: Seq<String>) -> bool {
    !is_listed(stale, row.allocation_id@) && row.cpu is Err
}

/// A memory row that cannot be planned on.
pub open spec fn bad_memory(row: MemoryRow, stale: Seq<String>) -> bool {
    !is_listed(stale, row.allocation_id@) && (row.host_numa_node < 0 || row.max_mib < 0)
}

/// What live rows reserve on a node fits its counter, up to the first row that cannot be planned
/// on.
pub open spec fn sums_fit(rows: Seq<MemoryRow>, stale: Seq<String>) -> bool {
    forall|node: int, n: nat|
        n <= rows.len() && (forall|k: int| 0 <= k < n ==> !bad_memory(#[trigger] rows[k], stale))
            ==> #[trigger] reserved_of(rows, stale, node, n) <= u64::MAX
}

/// The first row that cannot be planned on gives the failure; processors come before memory.
pub open spec fn is_snapshot_error(
    cpu_rows: Seq<CpuRow>,
    memory_rows: Seq<MemoryRow>,
    stale: Seq<String>,
    error: SnapshotError,
) -> bool {
    match error {
        SnapshotError::InvalidCpu { allocation_id, logical_cpu, reason } => exists|i: int|
            {
                &&& 0 <= i < cpu_rows.len()
                &&& bad_cpu(#[trigger] cpu_rows[i], stale)
                &&& forall|k: int| 0 <= k < i ==> !bad_cpu(#[trigger] cpu_rows[k], stale)
                &&& allocation_id@ == cpu_rows[i].allocation_id@
                &&& logical_cpu == cpu_rows[i].logical_cpu
                &&& reason@ == cpu_rows[i].cpu->Err_0@
            },
        SnapshotError::InvalidNode { allocation_id, host_numa_node } => {
            &&& forall|k: int|
                0 <= k < cpu_rows.len() ==> !bad_cpu(#[trigger] cpu_rows[k], stale)
            &&& exists|i: int|
                {
                    &&& 0 <= i < memory_rows.len()
                    &&& bad_memory(#[trigger] memory_rows[i], stale)
                    &&& forall|k: int|
                        0 <= k < i ==> !bad_memory(#[trigger] memory_rows[k], stale)
                    &&& memory_rows[i].host_numa_node < 0
                    &&& allocation_id@ == memory_rows[i].allocation_id@
                    &&& host_numa_node == memory_rows[i].host_numa_node
                }
        },
        SnapshotError::InvalidMemory { allocation_id, max_mib } => {
            &&& forall|k: int|
                0 <= k < cpu_rows.len() ==> !bad_cpu(#[trigger] cpu_rows[k], stale)
            &&& exists|i: int|
                {
                    &&& 0 <= i < memory_rows.len()
                    &&& bad_memory(#[trigger] memory_rows[i], stale)
                    &&& forall|k: int|
                        0 <= k < i ==> !bad_memory(#[trigger] memory_rows[k], stale)
                    &&& memory_rows[i].host_numa_node >= 0
                    &&& allocation_id@ == memory_rows[i].allocation_id@
                    &&& max_mib == memory_rows[i].max_mib
                }
        },
    }
}

/// The loads hold exactly the occupied processors, with how many live rows occupy each.
pub open spec fn loads_match(
    loads: Map<u32, usize>,
    rows: Seq<CpuRow>,
    stale: Seq<String>,
    n: nat,
) -> bool {
    forall|key: u32|
        #![trigger loads.contains_key(key)]
        (loads.contains_key(key) <==> load_of(rows, stale, key as int, n) > 0) && (
        loads.contains_key(key) ==> loads[key] == load_of(rows, stale, key as int, n))
}

/// The reservations hold exactly the nodes that live rows name, with what they reserve there.
pub open spec fn memory_matches(
    reserved: Map<u32, u64>,
    rows: Seq<MemoryRow>,
    stale: Seq<String>,
    n: nat,
) -> bool {
    forall|node: u32|
        #![trigger reserved.contains_key(node)]
        (reserved.contains_key(node) <==> node_named(rows, stale, node as int, n)) && (
        reserved.contains_key(node) ==> reserved[node] == reserved_of(rows, stale, node as int, n))
}

/// Count what live allocations occupy.
pub fn occupancy(cpu_rows: &Vec<CpuRow>, memory_rows: &Vec<MemoryRow>, stale: &Vec<String>) -> (result:
    Result<Occupancy, SnapshotError>)
    requires
        sums_fit(memory_rows@, stale@),
    ensures
        match result {
            Ok(occupancy) => {
                &&& forall|i: int|
                    0 <= i < cpu_rows@.len() ==> !bad_cpu(#[trigger] cpu_rows@[i], stale@)
                &&& forall|i: int|
                    0 <= i < memory_rows@.len() ==> !bad_memory(#[trigger] memory_rows@[i], stale@)
                &&& loads_match(occupancy.loads@, cpu_rows@, stale@, cpu_rows@.len())
                &&& memory_matches(
                    occupancy.reserved_memory_mib@,
                    memory_rows@,
                    stale@,
                    memory_rows@.len(),
                )
            },
            Err(error) => is_snapshot_error(cpu_rows@, memory_rows@, stale@, error),
        },
{
    let loads = match count_loads(cpu_rows, stale) {
        Ok(loads) => loads,
        Err(error) => {
            assert(is_snapshot_error(cpu_rows@, memory_rows@, stale@, error));
            return Err(error);
        },
    };
    match sum_memory(memory_rows, stale) {
        Ok(reserved_memory_mib) => Ok(Occupancy { loads, reserved_memory_mib }),
        Err(error) => {
            assert(is_snapshot_error(cpu_rows@, memory_rows@, stale@, error));
            Err(error)
        },
    }
}

fn count_loads(rows: &Vec<CpuRow>, stale: &Vec<String>) -> (result: Result<
    BTreeMap<u32, usize>,
    SnapshotError,
>)
    ensures
        match result {
            Ok(loads) => {
                &&& forall|i: int| 0 <= i < rows@.len() ==> !bad_cpu(#[trigger] rows@[i], stale@)
                &&& loads_match(loads@, rows@, stale@, rows@.len())
            },
            Err(error) => error is InvalidCpu && is_snapshot_error(
                rows@,
                Seq::empty(),
                stale@,
                error,
            ),
        },
{
    let mut loads: BTreeMap<u32, usize> = BTreeMap::new();
    let mut i: usize = 0;
    while i < rows.len()
        invariant
            i <= rows@.len(),
            forall|k: int| 0 <= k < i ==> !bad_cpu(#[trigger] rows@[k], stale@),
            loads_match(loads@, rows@, stale@, i as nat),
        decreases rows@.len() - i,
    {
        let row = &rows[i];
        let ghost before = loads@;
        if !listed(stale, &row.allocation_id) {
            match &row.cpu {
                Err(reason) => {
                    assert(bad_cpu(rows@[i as int], stale@));
                    return Err(
                        SnapshotError::InvalidCpu {
                            allocation_id: row.allocation_id.clone(),
                            logical_cpu: row.logical_cpu,
                            reason: reason.clone(),
                        },
                    );
                },
                Ok(cpu) => {
                    let key: u32 = cpu.catalog_key();
                    let held: usize = match looked_up(&loads, key) {
                        Some(held) => held,
                        None => 0,
                    };
                    proof {
                        lemma_load_bound(rows@, stale@, key as int, i as nat);
                        assert(before.contains_key(key) || !before.contains_key(key));
                        assert(held == load_of(rows@, stale@, key as int, i as nat));
                    }
                    store(&mut loads, key, held + 1);
                    assert(loads@ == before.insert(key, (held + 1) as usize));
                },
            }
        }
        assert(loads_match(loads@, rows@, stale@, (i + 1) as nat)) by {
            assert forall|key: u32| #![trigger loads@.contains_key(key)]
                (loads@.contains_key(key) <==> load_of(
                    rows@,
                    stale@,
                    key as int,
                    (i + 1) as nat,
                ) > 0) && (loads@.contains_key(key) ==> loads@[key] == load_of(
                    rows@,
                    stale@,
                    key as int,
                    (i + 1) as nat,
                )) by {
                assert(before.contains_key(key) || !before.contains_key(key));
            }
        }
        i = i + 1;
    }
    Ok(loads)
}

fn sum_memory(rows: &Vec<MemoryRow>, stale: &Vec<String>) -> (result: Result<
    BTreeMap<u32, u64>,
    SnapshotError,
>)
    requires
        sums_fit(rows@, stale@),
    ensures
        match result {
            Ok(reserved) => {
                &&& forall|i: int|
                    0 <= i < rows@.len() ==> !bad_memory(#[trigger] rows@[i], stale@)
                &&& memory_matches(reserved@, rows@, stale@, rows@.len())
            },
            Err(error) => !(error is InvalidCpu) && is_snapshot_error(
                Seq::empty(),
                rows@,
                stale@,
                error,
            ),
        },
{
    let mut reserved: BTreeMap<u32, u64> = BTreeMap::new();
    let mut i: usize = 0;
    while i < rows.len()
        invariant
            i <= rows@.len(),
            sums_fit(rows@, stale@),
            forall|k: int| 0 <= k < i ==> !bad_memory(#[trigger] rows@[k], stale@),
            memory_matches(reserved@, rows@, stale@, i as nat),
        decreases rows@.len() - i,
    {
        let row = &rows[i];
        let ghost before = reserved@;
        if !listed(stale, &row.allocation_id) {
            if row.host_numa_node < 0 {
                assert(bad_memory(rows@[i as int], stale@));
                return Err(
                    SnapshotError::InvalidNode {
                        allocation_id: row.allocation_id.clone(),
                        host_numa_node: row.host_numa_node,
                    },
                );
            }
            if row.max_mib < 0 {
                assert(bad_memory(rows@[i as int], stale@));
                return Err(
                    SnapshotError::InvalidMemory {
                        allocation_id: row.allocation_id.clone(),
                        max_mib: row.max_mib,
                    },
                );
            }
            let node: u32 = row.host_numa_node as u32;
            let held: u64 = match looked_up(&reserved, node) {
                Some(held) => held,
                None => 0,
            };
            proof {
                assert(reserved_of(rows@, stale@, node as int, (i + 1) as nat) <= u64::MAX);
                assert(before.contains_key(node) || !before.contains_key(node));
                if !before.contains_key(node) {
                    lemma_unnamed_reserves_nothing(rows@, stale@, node as int, i as nat);
                }
                assert(held == reserved_of(rows@, stale@, node as int, i as nat));
            }
            store(&mut reserved, node, held + row.max_mib as u64);
            assert(reserved@ == before.insert(node, (held + row.max_mib) as u64));
            assert(node_named(rows@, stale@, node as int, (i + 1) as nat)) by {
                assert(!is_listed(stale@, rows@[i as int].allocation_id@));
            }
        }
        assert(memory_matches(reserved@, rows@, stale@, (i + 1) as nat)) by {
            assert forall|node: u32| #![trigger reserved@.contains_key(node)]
                (reserved@.contains_key(node) <==> node_named(
                    rows@,
                    stale@,
                    node as int,
                    (i + 1) as nat,
                )) && (reserved@.contains_key(node) ==> reserved@[node] == reserved_of(
                    rows@,
                    stale@,
                    node as int,
                    (i + 1) as nat,
                )) by {
                assert(before.contains_key(node) || !before.contains_key(node));
                if node_named(rows@, stale@, node as int, i as nat) {
                    let w = choose|w: int|
                        0 <= w < i && w < rows@.len() && !is_listed(
                            stale@,
                            (#[trigger] rows@[w]).allocation_id@,
                        ) && rows@[w].host_numa_node == node;
                    assert(!is_listed(stale@, rows@[w].allocation_id@));
                }
                if node_named(rows@, stale@, node as int, (i + 1) as nat) && !node_named(
                    rows@,
                    stale@,
                    node as int,
                    i as nat,
                ) {
                    let w = choose|w: int|
                        0 <= w < i + 1 && w < rows@.len() && !is_listed(
                            stale@,
                            (#[trigger] rows@[w]).allocation_id@,
                        ) && rows@[w].host_numa_node == node;
                    assert(w == i);
                }
            }
        }
        i = i + 1;
    }
    Ok(reserved)
}

proof fn lemma_unnamed_reserves_nothing(
    rows: Seq<MemoryRow>,
    stale: Seq<String>,
    node: int,
    n: nat,
)
    requires
        n <= rows.len(),
        !node_named(rows, stale, node, n),
    ensures
        reserved_of(rows, stale, node, n) == 0,
    decreases n,
{
    if n > 0 {
        assert(!node_named(rows, stale, node, (n - 1) as nat)) by {
            if node_named(rows, stale, node, (n - 1) as nat) {
                let w = choose|w: int|
                    0 <= w < n - 1 && w < rows.len() && !is_listed(
                        stale,
                        (#[trigger] rows[w]).allocation_id@,
                    ) && rows[w].host_numa_node == node;
                assert(!is_listed(stale, rows[w].allocation_id@));
            }
        }
        lemma_unnamed_reserves_nothing(rows, stale, node, (n - 1) as nat);
        assert(!(!is_listed(stale, rows[n - 1].allocation_id@) && rows[n - 1].host_numa_node
            == node));
    }
}

/// Stale allocations occupy nothing: where every row of a processor is stale, it is free.
pub proof fn stale_allocations_occupy_nothing(
    rows: Seq<CpuRow>,
    stale: Seq<String>,
    key: int,
    n: nat,
)
    requires
        n <= rows.len(),
        forall|i: int|
            0 <= i < n && (#[trigger] rows[i]).cpu is Ok && rows[i].cpu->Ok_0.key() == key
                ==> is_listed(stale, rows[i].allocation_id@),
    ensures
        load_of(rows, stale, key, n) == 0,
    decreases n,
{
    if n > 0 {
        stale_allocations_occupy_nothing(rows, stale, key, (n - 1) as nat);
        assert(rows[n - 1].cpu is Ok && rows[n - 1].cpu->Ok_0.key() == key ==> is_listed(
            stale,
            rows[n - 1].allocation_id@,
        ));
    }
}

/// A processor is loaded by as many rows as name it, those of stale allocations left out.
pub proof fn load_counts_the_live_rows(rows: Seq<CpuRow>, stale: Seq<String>, cpu: LogicalCpu)
    ensures
        load_of(rows, stale, cpu.group * 65536 + cpu.index, rows.len()) == rows.filter(
            |row: CpuRow|
                row.cpu == Ok::<LogicalCpu, String>(cpu) && !(exists|i: int|
                    0 <= i < stale.len() && (#[trigger] stale[i])@ == row.allocation_id@),
        ).len(),
    decreases rows.len(),
{
    reveal(Seq::filter);
    let key = cpu.group * 65536 + cpu.index;
    if rows.len() > 0 {
        load_counts_the_live_rows(rows.drop_last(), stale, cpu);
        lemma_load_of_prefix(rows, rows.drop_last(), stale, key, (rows.len() - 1) as nat);
    }
}

proof fn lemma_load_of_prefix(
    a: Seq<CpuRow>,
    b: Seq<CpuRow>,
    stale: Seq<String>,
    key: int,
    n: nat,
)
    requires
        n <= a.len(),
        n <= b.len(),
        forall|i: int| 0 <= i < n ==> #[trigger] a[i] == b[i],
    ensures
        load_of(a, stale, key, n) == load_of(b, stale, key, n),
    decreases n,
{
    if n > 0 {
        lemma_load_of_prefix(a, b, stale, key, (n - 1) as nat);
        assert(a[n - 1] == b[n - 1]);
    }
}

/// Each live row adds what it reserves to its own node, and to no other; a stale row adds nothing.
pub proof fn reservation_adds_to_its_node(
    rows: Seq<MemoryRow>,
    stale: Seq<String>,
    row: MemoryRow,
    node: int,
)
    requires
        row.max_mib >= 0,
    ensures
        reserved_of(Seq::<MemoryRow>::empty(), stale, node, 0) == 0,
        reserved_of(rows.push(row), stale, node, rows.len() + 1) - reserved_of(
            rows,
            stale,
            node,
            rows.len(),
        ) == if row.host_numa_node != node || (exists|i: int|
            0 <= i < stale.len() && (#[trigger] stale[i])@ == row.allocation_id@) {
            0
        } else {
            row.max_mib as int
        },
{
    lemma_reserved_of_prefix(rows.push(row), rows, stale, node, rows.len());
}

proof fn lemma_reserved_of_prefix(
    a: Seq<MemoryRow>,
    b: Seq<MemoryRow>,
    stale: Seq<String>,
    node: int,
    n: nat,
)
    requires
        n <= a.len(),
        n <= b.len(),
        forall|i: int| 0 <= i < n ==> #[trigger] a[i] == b[i],
    ensures
        reserved_of(a, stale, node, n) == reserved_of(b, stale, node, n),
    decreases n,
{
    if n > 0 {
        lemma_reserved_of_prefix(a, b, stale, node, (n - 1) as nat);
        assert(a[n - 1] == b[n - 1]);
    }
}

/// The catalog of a live allocation is planned on only where each of its processors is known, each
/// of its nodes is one and its memory is not negative; stale rows are never a reason to fail.
pub proof fn only_live_rows_are_checked(cpu: CpuRow, memory: MemoryRow, stale: Seq<String>)
    ensures
        bad_cpu(cpu, stale) <==> cpu.cpu is Err && !(exists|i: int|
            0 <= i < stale.len() && (#[trigger] stale[i])@ == cpu.allocation_id@),
        bad_memory(memory, stale) <==> (memory.host_numa_node < 0 || memory.max_mib < 0) && !(
        exists|i: int| 0 <= i < stale.len() && (#[trigger] stale[i])@ == memory.allocation_id@),
{
}

/// A lease is named after its allocation and ends in its own suffix; an allocation ID is 32
/// hexadecimal digits.
pub proof fn lease_names_follow_their_allocation(id: Seq<char>)
    ensures
        lease_name_of(id).len() == id.len() + 5,
        lease_name_of(id).subrange(0, id.len() as int) == id,
        lease_name_of(id).subrange(id.len() as int, id.len() as int + 5) == seq![
            '.',
            'l',
            'o',
            'c',
            'k',
        ],
        is_allocation_id(id) <==> id.len() == 32 && (forall|i: int|
            0 <= i < 32 ==> {
                let c = (#[trigger] id[i]) as int;
                0x30 <= c <= 0x39 || 0x41 <= c <= 0x46 || 0x61 <= c <= 0x66
            }),
{
    reveal_strlit(".lock");
    assert(lease_name_of(id).subrange(0, id.len() as int) =~= id);
    assert(lease_name_of(id).subrange(id.len() as int, id.len() as int + 5) =~= ".lock"@);
    assert(".lock"@ =~= seq!['.', 'l', 'o', 'c', 'k']);
}

/// The occupancy lists exactly the processors that live rows name, each with how many of them do,
/// and exactly the nodes that live rows name.
pub proof fn occupancy_lists_what_is_occupied(
    loads: Map<u32, usize>,
    reserved: Map<u32, u64>,
    cpu_rows: Seq<CpuRow>,
    memory_rows: Seq<MemoryRow>,
    stale: Seq<String>,
    cpu: LogicalCpu,
    node: u32,
)
    requires
        loads_match(loads, cpu_rows, stale, cpu_rows.len()),
        memory_matches(reserved, memory_rows, stale, memory_rows.len()),
    ensures
        ({
            let key = (cpu.group * 65536 + cpu.index) as u32;
            let live = cpu_rows.filter(
                |row: CpuRow|
                    row.cpu == Ok::<LogicalCpu, String>(cpu) && !(exists|i: int|
                        0 <= i < stale.len() && (#[trigger] stale[i])@ == row.allocation_id@),
            ).len();
            &&& loads.contains_key(key) <==> live > 0
            &&& loads.contains_key(key) ==> loads[key] == live
        }),
        reserved.contains_key(node) <==> exists|k: int|
            0 <= k < memory_rows.len() && (#[trigger] memory_rows[k]).host_numa_node == node && !(
            exists|i: int|
                0 <= i < stale.len() && (#[trigger] stale[i])@ == memory_rows[k].allocation_id@),
{
    load_counts_the_live_rows(cpu_rows, stale, cpu);
    let key = (cpu.group * 65536 + cpu.index) as u32;
    assert(key == cpu.group * 65536 + cpu.index);
    assert(loads.contains_key(key) || !loads.contains_key(key));
    assert(reserved.contains_key(node) || !reserved.contains_key(node));
    if node_named(memory_rows, stale, node as int, memory_rows.len()) {
        let w = choose|w: int|
            0 <= w < memory_rows.len() && w < memory_rows.len() && !is_listed(
                stale,
                (#[trigger] memory_rows[w]).allocation_id@,
            ) && memory_rows[w].host_numa_node == node;
        assert(memory_rows[w].host_numa_node == node);
    }
}

/// A catalog that cannot be planned on fails for its first unusable row, processors before memory.
pub proof fn first_unusable_row_is_reported(
    cpu_rows: Seq<CpuRow>,
    memory_rows: Seq<MemoryRow>,
    stale: Seq<String>,
    error: SnapshotError,
)
    requires
        is_snapshot_error(cpu_rows, memory_rows, stale, error),
    ensures
        error is InvalidCpu <==> exists|k: int|
            0 <= k < cpu_rows.len() && bad_cpu(#[trigger] cpu_rows[k], stale),
        error matches SnapshotError::InvalidNode { host_numa_node, .. } ==> host_numa_node < 0,
        error matches SnapshotError::InvalidMemory { max_mib, .. } ==> max_mib < 0,
{
}

} // verus!
