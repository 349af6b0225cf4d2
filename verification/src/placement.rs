//! What a CPU allocation writes to the catalog: its reservations, and what the VM reported of them.

use vstd::prelude::*;
use vstd::string::*;

use crate::cpu::push_signed;
use crate::cpu::signed_decimal;
use crate::cpu::AllocationName;
use crate::cpu::LogicalCpu;
use crate::cpu::PLANNER_LOCK_TIMEOUT_MS;
use crate::text::decimal;
use crate::text::numbered;
use crate::text::push_decimal;

verus! {

/// How one guest processor was placed.
#[derive(Clone, Copy, Debug, PartialEq, Eq, Structural)]
pub enum VcpuPlacement {
    /// Its thread runs on this host processor alone.
    Pinned { vcpu_index: u16, host_cpu: LogicalCpu },
    /// Its thread kept the affinity of the process.
    Inherited { vcpu_index: u16, requested_host_cpu: Option<LogicalCpu> },
}

impl VcpuPlacement {
    pub open spec fn vcpu(self) -> u16 {
        match self {
            VcpuPlacement::Pinned { vcpu_index, .. } => vcpu_index,
            VcpuPlacement::Inherited { vcpu_index, .. } => vcpu_index,
        }
    }

    /// The host processor that the report names, if it names one.
    pub open spec fn reported(self) -> Option<LogicalCpu> {
        match self {
            VcpuPlacement::Pinned { host_cpu, .. } => Some(host_cpu),
            VcpuPlacement::Inherited { requested_host_cpu, .. } => requested_host_cpu,
        }
    }
}

/// One planned row of an allocation.
#[derive(Clone, Copy, Debug, PartialEq, Eq, Structural)]
pub struct PlannedRow {
    pub vcpu_index: i32,
    pub logical_cpu: i64,
}

/// What becomes of the row of one guest processor.
#[derive(Clone, Copy, Debug, PartialEq, Eq, Structural)]
pub enum RowUpdate {
    Assign { vcpu_index: i32 },
    Delete { vcpu_index: i32 },
}

impl RowUpdate {
    pub open spec fn role_text(self) -> Option<Seq<char>> {
        match self {
            RowUpdate::Assign { .. } => Some("assigned"@),
            RowUpdate::Delete { .. } => None,
        }
    }

    /// The role that the row takes; a deleted row takes none.
    pub fn role(&self) -> (role: Option<&'static str>)
        ensures
            match role {
                Some(role) => self.role_text() == Some(role@),
                None => self.role_text() is None,
            },
            self is Assign ==> role is Some && role->0@ == "assigned"@,
            self is Delete ==> role is None,
    {
        match self {
            RowUpdate::Assign { .. } => Some("assigned"),
            RowUpdate::Delete { .. } => None,
        }
    }
}

/// Where an allocation stands in the catalog.
#[derive(Clone, Copy, Debug, PartialEq, Eq, Structural)]
pub enum AllocationState {
    /// It is planned; the VM has not reported yet.
    Pending,
    /// The catalog shows what the VM reported.
    Active,
}

impl AllocationState {
    pub open spec fn text(self) -> Seq<char> {
        match self {
            AllocationState::Pending => "pending"@,
            AllocationState::Active => "active"@,
        }
    }

    /// The name under which the catalog knows it.
    pub fn name(&self) -> (name: &'static str)
        ensures
            name@ == self.text(),
            *self == AllocationState::Pending ==> name@ == "pending"@,
            *self == AllocationState::Active ==> name@ == "active"@,
    {
        match self {
            AllocationState::Pending => "pending",
            AllocationState::Active => "active",
        }
    }
}

/// How firmly an allocation holds its processors.
#[derive(Clone, Copy, Debug, PartialEq, Eq, Structural)]
pub enum Enforcement {
    /// The VM has not reported yet.
    Pending,
    Inherited,
    Exclusive,
    Shared,
    Partial,
    PartialShared,
}

impl Enforcement {
    pub open spec fn text(self) -> Seq<char> {
        match self {
            Enforcement::Pending => "pending"@,
            Enforcement::Inherited => "inherited"@,
            Enforcement::Exclusive => "thread-affinity-exclusive"@,
            Enforcement::Shared => "thread-affinity-shared"@,
            Enforcement::Partial => "thread-affinity-partial"@,
            Enforcement::PartialShared => "thread-affinity-partial-shared"@,
        }
    }

    /// The name under which the catalog knows it.
    pub fn name(&self) -> (name: &'static str)
        ensures
            name@ == self.text(),
            match *self {
                Enforcement::Pending => name@ == "pending"@,
                Enforcement::Inherited => name@ == "inherited"@,
                Enforcement::Exclusive => name@ == "thread-affinity-exclusive"@,
                Enforcement::Shared => name@ == "thread-affinity-shared"@,
                Enforcement::Partial => name@ == "thread-affinity-partial"@,
                Enforcement::PartialShared => name@ == "thread-affinity-partial-shared"@,
            },
    {
        match self {
            Enforcement::Pending => "pending",
            Enforcement::Inherited => "inherited",
            Enforcement::Exclusive => "thread-affinity-exclusive",
            Enforcement::Shared => "thread-affinity-shared",
            Enforcement::Partial => "thread-affinity-partial",
            Enforcement::PartialShared => "thread-affinity-partial-shared",
        }
    }
}

/// The enforcement that a number of pinned processors gives.
pub open spec fn enforcement_of(pinned: nat, total: nat, shared: bool) -> Enforcement {
    if pinned == 0 {
        Enforcement::Inherited
    } else if pinned == total {
        if shared {
            Enforcement::Shared
        } else {
            Enforcement::Exclusive
        }
    } else if shared {
        Enforcement::PartialShared
    } else {
        Enforcement::Partial
    }
}

/// What a placement report changes in the catalog.
pub struct Reconciliation {
    pub updates: Vec<RowUpdate>,
    /// Whether the memory reservations of the allocation are given up.
    pub drop_memory: bool,
    pub enforcement: Enforcement,
    pub state: AllocationState,
}

/// Why a placement report does not fit its allocation.
pub enum ReconcileError {
    RowCount { reported: usize, allocation_id: String, planned: usize },
    Unplanned { vcpu_index: u16 },
    WrongCpu { vcpu_index: u16, reported: u32, planned: i64 },
}

impl ReconcileError {
    pub open spec fn text(self) -> Seq<char> {
        match self {
            ReconcileError::RowCount { reported, allocation_id, planned } =>
                "placement report has "@ + decimal(reported as nat) + " vCPUs but allocation "@
                + allocation_id@ + " has "@ + decimal(planned as nat) + " planned rows"@,
            ReconcileError::Unplanned { vcpu_index } =>
                "placement report references unplanned vCPU "@ + decimal(vcpu_index as nat),
            ReconcileError::WrongCpu { vcpu_index, reported, planned } =>
                "placement report maps vCPU "@ + decimal(vcpu_index as nat) + " to host CPU "@
                + decimal(reported as nat) + ", expected "@ + signed_decimal(planned as int),
        }
    }

    pub fn message(&self) -> (text: String)
        ensures
            text@ == self.text(),
    {
        match self {
            ReconcileError::RowCount { reported, allocation_id, planned } => {
                let mut text = numbered(
                    "placement report has ",
                    *reported as u64,
                    " vCPUs but allocation ",
                );
                text.append(allocation_id.as_str());
                text.append(" has ");
                push_decimal(&mut text, *planned as u64);
                text.append(" planned rows");
                text
            },
            ReconcileError::Unplanned { vcpu_index } => {
                let mut text = String::from_str("placement report references unplanned vCPU ");
                push_decimal(&mut text, *vcpu_index as u64);
                text
            },
            ReconcileError::WrongCpu { vcpu_index, reported, planned } => {
                let mut text = numbered(
                    "placement report maps vCPU ",
                    *vcpu_index as u64,
                    " to host CPU ",
                );
                push_decimal(&mut text, *reported as u64);
                text.append(", expected ");
                push_signed(&mut text, *planned);
                text
            },
        }
    }
}

/// The first row that was planned for a guest processor.
pub open spec fn planned_row(rows: Seq<PlannedRow>, vcpu: u16) -> Option<PlannedRow>
    decreases rows.len(),
{
    if rows.len() == 0 {
        None
    } else if rows[0].vcpu_index == vcpu {
        Some(rows[0])
    } else {
        planned_row(rows.skip(1), vcpu)
    }
}

/// Whether the report of one guest processor fits the plan.
pub open spec fn fits_plan(rows: Seq<PlannedRow>, result: VcpuPlacement) -> bool {
    match planned_row(rows, result.vcpu()) {
        None => false,
        Some(row) => result.reported() is Some ==> row.logical_cpu == result.reported()->0.key(),
    }
}

/// The update that the report of one guest processor gives.
pub open spec fn update_of(result: VcpuPlacement) -> RowUpdate {
    match result {
        VcpuPlacement::Pinned { vcpu_index, .. } => RowUpdate::Assign {
            vcpu_index: vcpu_index as i32,
        },
        VcpuPlacement::Inherited { vcpu_index, .. } => RowUpdate::Delete {
            vcpu_index: vcpu_index as i32,
        },
    }
}

/// How many of the first `n` reports are pinned.
pub open spec fn pinned_count(report: Seq<VcpuPlacement>, n: nat) -> nat
    decreases n,
{
    if n == 0 {
        0
    } else {
        pinned_count(report, (n - 1) as nat) + if report[n - 1] is Pinned {
            1nat
        } else {
            0nat
        }
    }
}

proof fn lemma_pinned_bound(report: Seq<VcpuPlacement>, n: nat)
    ensures
        pinned_count(report, n) <= n,
    decreases n,
{
    if n > 0 {
        lemma_pinned_bound(report, (n - 1) as nat);
    }
}

/// Whether a report fits its plan.
pub open spec fn is_reconciled(rows: Seq<PlannedRow>, report: Seq<VcpuPlacement>) -> bool {
    &&& rows.len() == report.len()
    &&& forall|i: int| 0 <= i < report.len() ==> fits_plan(rows, #[trigger] report[i])
}

/// The failure of a report: the number of rows first, then the first report that does not fit.
pub open spec fn is_reconcile_error(
    rows: Seq<PlannedRow>,
    report: Seq<VcpuPlacement>,
    allocation_id: Seq<char>,
    error: ReconcileError,
) -> bool {
    if rows.len() != report.len() {
        error matches ReconcileError::RowCount { reported, allocation_id: id, planned } && reported
            == report.len() && planned == rows.len() && id@ == allocation_id
    } else {
        exists|i: int|
            {
                &&& 0 <= i < report.len()
                &&& !fits_plan(rows, #[trigger] report[i])
                &&& forall|k: int| 0 <= k < i ==> fits_plan(rows, #[trigger] report[k])
                &&& match planned_row(rows, report[i].vcpu()) {
                    None => error == (ReconcileError::Unplanned { vcpu_index: report[i].vcpu() }),
                    Some(row) => {
                        &&& error matches ReconcileError::WrongCpu { vcpu_index, reported, planned }
                        &&& vcpu_index == report[i].vcpu()
                        &&& reported == report[i].reported()->0.key()
                        &&& planned == row.logical_cpu
                    },
                }
            }
    }
}

fn find_row(rows: &Vec<PlannedRow>, vcpu: u16) -> (found: Option<PlannedRow>)
    ensures
        found == planned_row(rows@, vcpu),
{
    let mut i: usize = 0;
    assert(rows@.skip(0) =~= rows@);
    while i < rows.len()
        invariant
            i <= rows@.len(),
            planned_row(rows@, vcpu) == planned_row(rows@.skip(i as int), vcpu),
        decreases rows@.len() - i,
    {
        assert(rows@.skip(i as int)[0] == rows@[i as int]);
        assert(rows@.skip(i as int).skip(1) =~= rows@.skip(i + 1));
        if rows[i].vcpu_index == vcpu as i32 {
            return Some(rows[i]);
        }
        i = i + 1;
    }
    None
}

/// Hold a placement report against the plan, and say what it changes in the catalog. Pinned rows
/// are assigned; a row whose thread kept the process affinity gives its processor up.
pub fn reconcile(
    allocation_id: &String,
    rows: &Vec<PlannedRow>,
    report: &Vec<VcpuPlacement>,
    memory_applied: bool,
    shared: bool,
) -> (result: Result<Reconciliation, ReconcileError>)
    ensures
        match result {
            Ok(plan) => {
                &&& is_reconciled(rows@, report@)
                &&& plan.updates@ == report@.map_values(|result: VcpuPlacement| update_of(result))
                &&& plan.drop_memory == !memory_applied
                &&& plan.enforcement == enforcement_of(
                    pinned_count(report@, report@.len()),
                    report@.len(),
                    shared,
                )
                &&& plan.state == AllocationState::Active
            },
            Err(error) => is_reconcile_error(rows@, report@, allocation_id@, error),
        },
        result matches Ok(plan) ==> {
            &&& plan.updates@.len() == report@.len() == rows@.len()
            &&& forall|i: int|
                #![trigger report@[i]]
                #![trigger plan.updates@[i]]
                0 <= i < report@.len() ==> match report@[i] {
                    VcpuPlacement::Pinned { vcpu_index, .. } => {
                        &&& plan.updates@[i] matches RowUpdate::Assign { vcpu_index: row }
                        &&& row == vcpu_index
                    },
                    VcpuPlacement::Inherited { vcpu_index, .. } => {
                        &&& plan.updates@[i] matches RowUpdate::Delete { vcpu_index: row }
                        &&& row == vcpu_index
                    },
                }
        },
{
    if rows.len() != report.len() {
        return Err(
            ReconcileError::RowCount {
                reported: report.len(),
                allocation_id: allocation_id.clone(),
                planned: rows.len(),
            },
        );
    }
    let mut updates: Vec<RowUpdate> = Vec::new();
    let mut pinned: usize = 0;
    let mut i: usize = 0;
    while i < report.len()
        invariant
            i <= report@.len(),
            rows@.len() == report@.len(),
            forall|k: int| 0 <= k < i ==> fits_plan(rows@, #[trigger] report@[k]),
            updates@ =~= report@.subrange(0, i as int).map_values(
                |result: VcpuPlacement| update_of(result),
            ),
            pinned == pinned_count(report@, i as nat),
            pinned <= i,
        decreases report@.len() - i,
    {
        let result = report[i];
        let (vcpu_index, reported) = match result {
            VcpuPlacement::Pinned { vcpu_index, host_cpu } => (vcpu_index, Some(host_cpu)),
            VcpuPlacement::Inherited { vcpu_index, requested_host_cpu } => (
                vcpu_index,
                requested_host_cpu,
            ),
        };
        let row = match find_row(rows, vcpu_index) {
            Some(row) => row,
            None => {
                assert(!fits_plan(rows@, report@[i as int]));
                return Err(ReconcileError::Unplanned { vcpu_index });
            },
        };
        if let Some(host_cpu) = reported {
            let key: u32 = host_cpu.catalog_key();
            if row.logical_cpu != key as i64 {
                assert(!fits_plan(rows@, report@[i as int]));
                return Err(
                    ReconcileError::WrongCpu {
                        vcpu_index,
                        reported: key,
                        planned: row.logical_cpu,
                    },
                );
            }
        }
        assert(fits_plan(rows@, report@[i as int]));
        match result {
            VcpuPlacement::Pinned { vcpu_index, .. } => {
                pinned = pinned + 1;
                updates.push(RowUpdate::Assign { vcpu_index: vcpu_index as i32 });
            },
            VcpuPlacement::Inherited { vcpu_index, .. } => {
                updates.push(RowUpdate::Delete { vcpu_index: vcpu_index as i32 });
            },
        }
        i = i + 1;
    }
    assert(report@.subrange(0, i as int) =~= report@);
    let enforcement = if pinned == 0 {
        Enforcement::Inherited
    } else if pinned == report.len() {
        if shared {
            Enforcement::Shared
        } else {
            Enforcement::Exclusive
        }
    } else if shared {
        Enforcement::PartialShared
    } else {
        Enforcement::Partial
    };
    Ok(
        Reconciliation {
            updates,
            drop_memory: !memory_applied,
            enforcement,
            state: AllocationState::Active,
        },
    )
}

/// An allocation that this process holds, until it gives it back.
pub struct AllocationLease {
    allocation_id: String,
    shared: bool,
    released: bool,
}

/// An allocation that this process holds.
pub ghost struct LeaseView {
    pub allocation_id: Seq<char>,
    pub shared: bool,
    pub released: bool,
}

impl View for AllocationLease {
    type V = LeaseView;

    closed spec fn view(&self) -> LeaseView {
        LeaseView {
            allocation_id: self.allocation_id@,
            shared: self.shared,
            released: self.released,
        }
    }
}

impl AllocationLease {
    pub fn new(allocation_id: String, shared: bool) -> (lease: AllocationLease)
        ensures
            lease@ == (LeaseView { allocation_id: allocation_id@, shared, released: false }),
    {
        AllocationLease { allocation_id, shared, released: false }
    }

    /// What a placement report changes in the catalog; nothing once the allocation is given back.
    pub fn reconcile(
        &self,
        rows: &Vec<PlannedRow>,
        report: &Vec<VcpuPlacement>,
        memory_applied: bool,
    ) -> (result: Option<Result<Reconciliation, ReconcileError>>)
        ensures
            self@.released <==> result is None,
            result matches Some(Ok(plan)) ==> {
                &&& is_reconciled(rows@, report@)
                &&& plan.updates@ == report@.map_values(|result: VcpuPlacement| update_of(result))
                &&& plan.drop_memory == !memory_applied
                &&& plan.enforcement == enforcement_of(
                    pinned_count(report@, report@.len()),
                    report@.len(),
                    self@.shared,
                )
                &&& plan.state == AllocationState::Active
            },
            result matches Some(Err(error)) ==> is_reconcile_error(
                rows@,
                report@,
                self@.allocation_id,
                error,
            ),
    {
        if self.released {
            return None;
        }
        Some(reconcile(&self.allocation_id, rows, report, memory_applied, self.shared))
    }

    /// The allocation whose rows must be deleted to give it back, if it still stands.
    pub fn to_release(&self) -> (id: Option<&String>)
        ensures
            match id {
                Some(id) => !self@.released && id@ == self@.allocation_id,
                None => self@.released,
            },
    {
        if self.released {
            None
        } else {
            Some(&self.allocation_id)
        }
    }

    /// The rows are deleted and the lock is free.
    pub fn mark_released(&mut self)
        ensures
            final(self)@ == (LeaseView { released: true, ..old(self)@ }),
    {
        self.released = true;
    }
}

/// Exclusive affinity is claimed only where every guest processor is pinned and none is shared.
pub proof fn exclusive_means_all_pinned(report: Seq<VcpuPlacement>, shared: bool)
    requires
        enforcement_of(pinned_count(report, report.len()), report.len(), shared)
            == Enforcement::Exclusive,
    ensures
        !shared,
        report.len() > 0,
        forall|i: int| 0 <= i < report.len() ==> #[trigger] report[i] is Pinned,
{
    lemma_all_pinned(report, report.len());
}

proof fn lemma_all_pinned(report: Seq<VcpuPlacement>, n: nat)
    requires
        n <= report.len(),
        pinned_count(report, n) == n,
    ensures
        forall|i: int| 0 <= i < n ==> #[trigger] report[i] is Pinned,
    decreases n,
{
    if n > 0 {
        lemma_pinned_bound(report, (n - 1) as nat);
        lemma_all_pinned(report, (n - 1) as nat);
    }
}

/// A processor row as the catalog holds it.
pub ghost struct CatalogCpu {
    pub vcpu_index: i32,
    pub logical_cpu: i64,
    pub role: Seq<char>,
}

/// What is left of a row after the updates, if it is left.
pub open spec fn row_after(row: CatalogCpu, updates: Seq<RowUpdate>) -> Option<CatalogCpu>
    decreases updates.len(),
{
    if updates.len() == 0 {
        Some(row)
    } else {
        match row_after(row, updates.drop_last()) {
            None => None,
            Some(row) => match updates.last() {
                RowUpdate::Assign { vcpu_index } => if vcpu_index == row.vcpu_index {
                    Some(CatalogCpu { role: updates.last().role_text()->0, ..row })
                } else {
                    Some(row)
                },
                RowUpdate::Delete { vcpu_index } => if vcpu_index == row.vcpu_index {
                    None
                } else {
                    Some(row)
                },
            },
        }
    }
}

/// A report that names every guest processor once keeps exactly the rows of pinned processors, in
/// the role of assigned ones, and gives up the processor of every other row that it names.
pub proof fn pinned_rows_stay_assigned(report: Seq<VcpuPlacement>, row: CatalogCpu, i: int)
    requires
        forall|a: int, b: int|
            0 <= a < b < report.len() ==> (#[trigger] report[a]).vcpu() != (
            #[trigger] report[b]).vcpu(),
        0 <= i < report.len(),
        report[i].vcpu() == row.vcpu_index,
    ensures
        row_after(row, report.map_values(|result: VcpuPlacement| update_of(result))) == if report[i] is Pinned {
            Some(CatalogCpu { role: "assigned"@, ..row })
        } else {
            None
        },
{
    lemma_row_after(report, row, i, report.len());
    assert(report.subrange(0, report.len() as int) =~= report);
}

proof fn lemma_row_after(report: Seq<VcpuPlacement>, row: CatalogCpu, i: int, n: nat)
    requires
        forall|a: int, b: int|
            0 <= a < b < report.len() ==> (#[trigger] report[a]).vcpu() != (
            #[trigger] report[b]).vcpu(),
        0 <= i < report.len(),
        report[i].vcpu() == row.vcpu_index,
        n <= report.len(),
    ensures
        row_after(
            row,
            report.subrange(0, n as int).map_values(|result: VcpuPlacement| update_of(result)),
        ) == if n <= i {
            Some(row)
        } else if report[i] is Pinned {
            Some(CatalogCpu { role: "assigned"@, ..row })
        } else {
            None
        },
    decreases n,
{
    let updates = report.subrange(0, n as int).map_values(
        |result: VcpuPlacement| update_of(result),
    );
    if n > 0 {
        lemma_row_after(report, row, i, (n - 1) as nat);
        assert(updates.drop_last() =~= report.subrange(0, n - 1).map_values(
            |result: VcpuPlacement| update_of(result),
        ));
        assert(updates.last() == update_of(report[n - 1]));
        if n - 1 != i {
            let other = report[n - 1];
            assert(other.vcpu() != report[i].vcpu());
        }
    }
}

/// A processor that the planner reserved.
pub struct Reservation {
    pub vcpu_index: Option<u16>,
    pub logical_cpu: LogicalCpu,
    pub role: String,
}

/// A memory node that the planner chose.
#[derive(Clone, Copy, Debug, PartialEq, Eq, Structural)]
pub struct NodeChoice {
    pub guest_node_id: u16,
    pub host_node_id: u32,
    pub boot_memory_mib: u32,
    pub max_memory_mib: u32,
}

/// The row of a new allocation itself. The catalog adds when it was made.
pub struct AllocationInsert {
    pub id: String,
    pub run_id: i32,
    pub requested_policy: String,
    pub resolved_policy: String,
    pub enforcement: Enforcement,
    pub topology_fingerprint: String,
    pub lease_name: String,
    pub state: AllocationState,
}

/// The row that a new allocation of a run begins with, under its names, the policy that was asked
/// for, the policy that the plan came to, and the topology that it was planned on.
pub fn allocation_row(
    name: &AllocationName,
    run_id: i32,
    requested_policy: &str,
    resolved_policy: &str,
    topology_fingerprint: &str,
) -> (row: AllocationInsert)
    ensures
        row.id@ == name.id@,
        row.run_id == run_id,
        row.requested_policy@ == requested_policy@,
        row.resolved_policy@ == resolved_policy@,
        row.enforcement == Enforcement::Pending,
        row.topology_fingerprint@ == topology_fingerprint@,
        row.lease_name@ == name.lease_name@,
        row.state == AllocationState::Pending,
{
    AllocationInsert {
        id: name.id.clone(),
        run_id,
        requested_policy: String::from_str(requested_policy),
        resolved_policy: String::from_str(resolved_policy),
        enforcement: Enforcement::Pending,
        topology_fingerprint: String::from_str(topology_fingerprint),
        lease_name: name.lease_name.clone(),
        state: AllocationState::Pending,
    }
}

/// A processor row to insert.
pub struct CpuInsert {
    pub vcpu_index: i32,
    pub logical_cpu: i64,
    pub role: String,
}

/// A memory row to insert.
#[derive(Clone, Copy, Debug, PartialEq, Eq, Structural)]
pub struct MemoryInsert {
    pub guest_numa_node: i32,
    pub host_numa_node: i32,
    pub boot_mib: i64,
    pub max_mib: i64,
}

/// The processor and memory rows of a new allocation.
pub struct CatalogRows {
    pub cpus: Vec<CpuInsert>,
    pub nodes: Vec<MemoryInsert>,
}

/// Why a plan cannot be written to the catalog.
#[derive(Clone, Copy, Debug, PartialEq, Eq, Structural)]
pub enum CatalogError {
    MissingVcpu,
    NodeOutOfRange { host_node_id: u32 },
}

impl CatalogError {
    pub open spec fn text(self) -> Seq<char> {
        match self {
            CatalogError::MissingVcpu => "CPU assignment is missing its guest vCPU index"@,
            CatalogError::NodeOutOfRange { host_node_id } => "host NUMA node "@ + decimal(
                host_node_id as nat,
            ) + " exceeds the catalog range"@,
        }
    }

    pub fn message(&self) -> (text: String)
        ensures
            text@ == self.text(),
    {
        match self {
            CatalogError::MissingVcpu => String::from_str(
                "CPU assignment is missing its guest vCPU index",
            ),
            CatalogError::NodeOutOfRange { host_node_id } => numbered(
                "host NUMA node ",
                *host_node_id as u64,
                " exceeds the catalog range",
            ),
        }
    }
}

/// Whether a row is that of a reservation.
pub open spec fn is_insert(reservation: Reservation, row: CpuInsert) -> bool {
    &&& reservation.vcpu_index is Some
    &&& row.vcpu_index == reservation.vcpu_index->0
    &&& row.logical_cpu == reservation.logical_cpu.key()
    &&& row.role@ == reservation.role@
}

/// The row of a memory node.
pub open spec fn node_insert(node: NodeChoice) -> MemoryInsert {
    MemoryInsert {
        guest_numa_node: node.guest_node_id as i32,
        host_numa_node: node.host_node_id as i32,
        boot_mib: node.boot_memory_mib as i64,
        max_mib: node.max_memory_mib as i64,
    }
}

/// The failure of a plan: a reservation without a guest processor first, then the first node that
/// the catalog cannot hold.
pub open spec fn is_catalog_error(
    reservations: Seq<Reservation>,
    nodes: Seq<NodeChoice>,
    error: CatalogError,
) -> bool {
    if exists|i: int| 0 <= i < reservations.len() && (#[trigger] reservations[i]).vcpu_index is None {
        error == CatalogError::MissingVcpu
    } else {
        exists|i: int|
            {
                &&& 0 <= i < nodes.len()
                &&& (#[trigger] nodes[i]).host_node_id > i32::MAX
                &&& forall|k: int| 0 <= k < i ==> (#[trigger] nodes[k]).host_node_id <= i32::MAX
                &&& error == (CatalogError::NodeOutOfRange { host_node_id: nodes[i].host_node_id })
            }
    }
}

/// The rows that a plan writes to the catalog.
pub fn catalog_rows(reservations: &Vec<Reservation>, nodes: &Vec<NodeChoice>) -> (result: Result<
    CatalogRows,
    CatalogError,
>)
    ensures
        match result {
            Ok(rows) => {
                &&& rows.cpus@.len() == reservations@.len()
                &&& forall|i: int|
                    0 <= i < reservations@.len() ==> is_insert(
                        reservations@[i],
                        #[trigger] rows.cpus@[i],
                    )
                &&& forall|i: int|
                    0 <= i < nodes@.len() ==> (#[trigger] nodes@[i]).host_node_id <= i32::MAX
                &&& rows.nodes@ == nodes@.map_values(|node: NodeChoice| node_insert(node))
            },
            Err(error) => is_catalog_error(reservations@, nodes@, error),
        },
        result matches Ok(rows) ==> {
            &&& rows.cpus@.len() == reservations@.len()
            &&& rows.nodes@.len() == nodes@.len()
            &&& forall|i: int|
                #![trigger rows.cpus@[i]]
                #![trigger reservations@[i]]
                0 <= i < reservations@.len() ==> {
                    let row = rows.cpus@[i];
                    let reservation = reservations@[i];
                    &&& reservation.vcpu_index == Some(row.vcpu_index as u16)
                    &&& 0 <= row.vcpu_index <= u16::MAX
                    &&& row.logical_cpu == reservation.logical_cpu.group * 65536
                        + reservation.logical_cpu.index
                    &&& row.role@ == reservation.role@
                }
            &&& forall|i: int|
                #![trigger rows.nodes@[i]]
                #![trigger nodes@[i]]
                0 <= i < nodes@.len() ==> {
                    &&& rows.nodes@[i].guest_numa_node == nodes@[i].guest_node_id
                    &&& rows.nodes@[i].host_numa_node == nodes@[i].host_node_id
                    &&& rows.nodes@[i].boot_mib == nodes@[i].boot_memory_mib
                    &&& rows.nodes@[i].max_mib == nodes@[i].max_memory_mib
                }
        },
        result is Ok <==> (forall|i: int|
            0 <= i < reservations@.len() ==> (#[trigger] reservations@[i]).vcpu_index is Some) && (
        forall|i: int| 0 <= i < nodes@.len() ==> (#[trigger] nodes@[i]).host_node_id <= 0x7fff_ffff),
{
    let mut cpus: Vec<CpuInsert> = Vec::new();
    let mut i: usize = 0;
    while i < reservations.len()
        invariant
            i <= reservations@.len(),
            cpus@.len() == i,
            forall|k: int|
                0 <= k < i ==> is_insert(reservations@[k], #[trigger] cpus@[k]),
            forall|k: int| 0 <= k < i ==> (#[trigger] reservations@[k]).vcpu_index is Some,
        decreases reservations@.len() - i,
    {
        let reservation = &reservations[i];
        match reservation.vcpu_index {
            None => {
                assert(reservations@[i as int].vcpu_index is None);
                return Err(CatalogError::MissingVcpu);
            },
            Some(vcpu_index) => {
                let key: u32 = reservation.logical_cpu.catalog_key();
                cpus.push(
                    CpuInsert {
                        vcpu_index: vcpu_index as i32,
                        logical_cpu: key as i64,
                        role: reservation.role.clone(),
                    },
                );
            },
        }
        i = i + 1;
    }
    let mut rows: Vec<MemoryInsert> = Vec::new();
    let mut n: usize = 0;
    while n < nodes.len()
        invariant
            n <= nodes@.len(),
            forall|k: int| 0 <= k < reservations@.len() ==> (
            #[trigger] reservations@[k]).vcpu_index is Some,
            forall|k: int| 0 <= k < n ==> (#[trigger] nodes@[k]).host_node_id <= i32::MAX,
            rows@ =~= nodes@.subrange(0, n as int).map_values(|node: NodeChoice| node_insert(node)),
        decreases nodes@.len() - n,
    {
        let node = nodes[n];
        if node.host_node_id > i32::MAX as u32 {
            assert(nodes@[n as int].host_node_id > i32::MAX);
            return Err(CatalogError::NodeOutOfRange { host_node_id: node.host_node_id });
        }
        rows.push(
            MemoryInsert {
                guest_numa_node: node.guest_node_id as i32,
                host_numa_node: node.host_node_id as i32,
                boot_mib: node.boot_memory_mib as i64,
                max_mib: node.max_memory_mib as i64,
            },
        );
        n = n + 1;
    }
    assert(nodes@.subrange(0, n as int) =~= nodes@);
    Ok(CatalogRows { cpus, nodes: rows })
}

/// What a planner does while it waits for the lock.
#[derive(Clone, Copy, Debug, PartialEq, Eq, Structural)]
pub enum PlannerWait {
    Acquired,
    Retry,
    TimedOut,
}

/// Wait for the planner lock, but not forever.
pub fn lock_planner(locked: bool, elapsed_ms: u64) -> (wait: PlannerWait)
    ensures
        wait == if locked {
            PlannerWait::Acquired
        } else if elapsed_ms >= PLANNER_LOCK_TIMEOUT_MS {
            PlannerWait::TimedOut
        } else {
            PlannerWait::Retry
        },
        wait == PlannerWait::TimedOut <==> !locked && elapsed_ms >= 250,
{
    if locked {
        PlannerWait::Acquired
    } else if elapsed_ms >= PLANNER_LOCK_TIMEOUT_MS {
        PlannerWait::TimedOut
    } else {
        PlannerWait::Retry
    }
}

/// Why no placement was planned.
pub fn planner_busy_message() -> (text: String)
    ensures
        text@ == "CPU placement planner remained busy for "@ + decimal(
            PLANNER_LOCK_TIMEOUT_MS as nat,
        ) + " ms"@,
{
    numbered("CPU placement planner remained busy for ", PLANNER_LOCK_TIMEOUT_MS, " ms")
}

/// What an attempt to allocate does next. A lease file that no catalog row names is removed again,
/// except where the memory of another allocation could not be read.
#[derive(Clone, Copy, Debug, PartialEq, Eq, Structural)]
pub enum AllocationStage {
    /// Read the catalog and probe its leases.
    Snapshot,
    /// Plan on the occupancy.
    Plan,
    /// Write the rows in one transaction, with the stale rows deleted first.
    Commit,
    /// Remove the files of the stale leases; the allocation stands.
    CleanStale,
    /// Unlock and remove the new lease file, then fail.
    RemoveLease,
    /// Fail, with the new lease file in its place.
    LeaveLease,
}

/// The stage after an attempt at the current one. `removes_lease` says whether a failed snapshot
/// takes the new lease file with it.
pub open spec fn allocation_next(
    stage: AllocationStage,
    succeeded: bool,
    removes_lease: bool,
) -> AllocationStage {
    match stage {
        AllocationStage::Snapshot => if succeeded {
            AllocationStage::Plan
        } else if !removes_lease {
            AllocationStage::LeaveLease
        } else {
            AllocationStage::RemoveLease
        },
        AllocationStage::Plan => if succeeded {
            AllocationStage::Commit
        } else {
            AllocationStage::RemoveLease
        },
        AllocationStage::Commit => if succeeded {
            AllocationStage::CleanStale
        } else {
            AllocationStage::RemoveLease
        },
        other => other,
    }
}

/// Go on with an attempt to allocate.
pub fn allocation_step(stage: AllocationStage, succeeded: bool, removes_lease: bool) -> (next:
    AllocationStage)
    ensures
        next == allocation_next(stage, succeeded, removes_lease),
{
    match stage {
        AllocationStage::Snapshot => if succeeded {
            AllocationStage::Plan
        } else if !removes_lease {
            AllocationStage::LeaveLease
        } else {
            AllocationStage::RemoveLease
        },
        AllocationStage::Plan => if succeeded {
            AllocationStage::Commit
        } else {
            AllocationStage::RemoveLease
        },
        AllocationStage::Commit => if succeeded {
            AllocationStage::CleanStale
        } else {
            AllocationStage::RemoveLease
        },
        other => other,
    }
}

/// The rows of a plan are the plan: each row of the catalog holds, field by field, what was reserved
/// or chosen at its place.
pub proof fn memory_rows_hold_the_chosen_nodes(node: NodeChoice)
    requires
        node.host_node_id <= i32::MAX,
    ensures
        node_insert(node).guest_numa_node == node.guest_node_id,
        node_insert(node).host_numa_node == node.host_node_id,
        node_insert(node).boot_mib == node.boot_memory_mib,
        node_insert(node).max_mib == node.max_memory_mib,
{
}

/// What an allocation claims is what its threads have: none of its own where no thread is pinned,
/// all of them where every thread is, and a part of them otherwise; and shared exactly where the plan
/// shared processors.
pub proof fn enforcement_tells_what_is_pinned(report: Seq<VcpuPlacement>, shared: bool)
    ensures
        ({
            let enforcement = enforcement_of(pinned_count(report, report.len()), report.len(), shared);
            let some = exists|i: int| 0 <= i < report.len() && #[trigger] report[i] is Pinned;
            let all = forall|i: int| 0 <= i < report.len() ==> #[trigger] report[i] is Pinned;
            &&& enforcement == Enforcement::Inherited <==> !some
            &&& enforcement == Enforcement::Exclusive <==> some && all && !shared
            &&& enforcement == Enforcement::Shared <==> some && all && shared
            &&& enforcement == Enforcement::Partial <==> some && !all && !shared
            &&& enforcement == Enforcement::PartialShared <==> some && !all && shared
            &&& enforcement != Enforcement::Pending
        }),
{
    lemma_pinned_bound(report, report.len());
    if pinned_count(report, report.len()) == report.len() {
        lemma_all_pinned(report, report.len());
        if report.len() > 0 {
            let first = report[0];
            assert(first is Pinned);
        }
    }
    assert forall|i: int| 0 <= i < report.len() && #[trigger] report[i] is Pinned implies pinned_count(
        report,
        report.len(),
    ) > 0 by {
        lemma_pinned_is_counted(report, report.len(), i);
    }
    assert forall|i: int| 0 <= i < report.len() && !(#[trigger] report[i] is Pinned) implies pinned_count(
        report,
        report.len(),
    ) < report.len() by {
        lemma_unpinned_is_not_counted(report, report.len(), i);
    }
    let count = pinned_count(report, report.len());
    let some = exists|i: int| 0 <= i < report.len() && #[trigger] report[i] is Pinned;
    let all = forall|i: int| 0 <= i < report.len() ==> #[trigger] report[i] is Pinned;
    assert(some == (count > 0)) by {
        if count > 0 {
            lemma_counted_is_pinned(report, report.len());
        }
    }
    assert(all == (count == report.len())) by {
        if !all {
            let w = choose|i: int| 0 <= i < report.len() && !(#[trigger] report[i] is Pinned);
            assert(!(report[w] is Pinned));
        } else {
            lemma_pinned_are_all(report, report.len());
        }
    }
}

proof fn lemma_pinned_are_all(report: Seq<VcpuPlacement>, n: nat)
    requires
        n <= report.len(),
        forall|i: int| 0 <= i < report.len() ==> #[trigger] report[i] is Pinned,
    ensures
        pinned_count(report, n) == n,
    decreases n,
{
    if n > 0 {
        lemma_pinned_are_all(report, (n - 1) as nat);
        assert(report[n - 1] is Pinned);
    }
}

proof fn lemma_pinned_is_counted(report: Seq<VcpuPlacement>, n: nat, i: int)
    requires
        0 <= i < n <= report.len(),
        report[i] is Pinned,
    ensures
        pinned_count(report, n) > 0,
    decreases n,
{
    if i < n - 1 {
        lemma_pinned_is_counted(report, (n - 1) as nat, i);
    }
}

proof fn lemma_unpinned_is_not_counted(report: Seq<VcpuPlacement>, n: nat, i: int)
    requires
        0 <= i < n <= report.len(),
        !(report[i] is Pinned),
    ensures
        pinned_count(report, n) < n,
    decreases n,
{
    lemma_pinned_bound(report, (n - 1) as nat);
    if i < n - 1 {
        lemma_unpinned_is_not_counted(report, (n - 1) as nat, i);
    }
}

proof fn lemma_counted_is_pinned(report: Seq<VcpuPlacement>, n: nat)
    requires
        n <= report.len(),
        pinned_count(report, n) > 0,
    ensures
        exists|i: int| 0 <= i < n && #[trigger] report[i] is Pinned,
    decreases n,
{
    if report[n - 1] is Pinned {
    } else {
        lemma_counted_is_pinned(report, (n - 1) as nat);
        let w = choose|i: int| 0 <= i < n - 1 && #[trigger] report[i] is Pinned;
        assert(report[w] is Pinned);
    }
}

/// A report is taken where it names planned rows only, and each on the processor that was planned
/// for it, where it names one: the row that is compared is the first one of that guest processor.
pub proof fn reports_are_held_against_their_rows(
    rows: Seq<PlannedRow>,
    result: VcpuPlacement,
    i: int,
)
    requires
        0 <= i < rows.len(),
        rows[i].vcpu_index == result.vcpu(),
        forall|k: int| 0 <= k < i ==> (#[trigger] rows[k]).vcpu_index != result.vcpu(),
    ensures
        match result {
            VcpuPlacement::Pinned { host_cpu, .. } => fits_plan(rows, result) <==> rows[i].logical_cpu
                == host_cpu.group * 65536 + host_cpu.index,
            VcpuPlacement::Inherited { requested_host_cpu: Some(host_cpu), .. } => fits_plan(
                rows,
                result,
            ) <==> rows[i].logical_cpu == host_cpu.group * 65536 + host_cpu.index,
            VcpuPlacement::Inherited { requested_host_cpu: None, .. } => fits_plan(rows, result),
        },
    decreases rows.len(),
{
    let rest = rows.skip(1);
    assert forall|k: int| 0 <= k < rest.len() implies #[trigger] rest[k] == rows[k + 1] by {}
    if i > 0 {
        let first = rows[0];
        assert(first.vcpu_index != result.vcpu());
        reports_are_held_against_their_rows(rest, result, i - 1);
    }
}

/// A report of a guest processor that was not planned does not fit.
pub proof fn unplanned_reports_do_not_fit(rows: Seq<PlannedRow>, result: VcpuPlacement)
    requires
        forall|k: int| 0 <= k < rows.len() ==> (#[trigger] rows[k]).vcpu_index != result.vcpu(),
    ensures
        !fits_plan(rows, result),
    decreases rows.len(),
{
    if rows.len() > 0 {
        let rest = rows.skip(1);
        assert forall|k: int| 0 <= k < rest.len() implies #[trigger] rest[k] == rows[k + 1] by {}
        let first = rows[0];
        assert(first.vcpu_index != result.vcpu());
        unplanned_reports_do_not_fit(rest, result);
    }
}

/// An attempt to allocate stands only after the snapshot, the plan and the commit succeeded, one
/// after the other, and a failed one leaves no lease file behind, except where a snapshot failed that
/// keeps it.
pub proof fn allocation_takes_every_step(removes_lease: bool)
    ensures
        allocation_next(AllocationStage::Snapshot, true, removes_lease) == AllocationStage::Plan,
        allocation_next(AllocationStage::Plan, true, removes_lease) == AllocationStage::Commit,
        allocation_next(AllocationStage::Commit, true, removes_lease)
            == AllocationStage::CleanStale,
        forall|stage: AllocationStage, succeeded: bool|
            #[trigger] allocation_next(stage, succeeded, removes_lease)
                == AllocationStage::CleanStale && stage != AllocationStage::CleanStale ==> stage
                == AllocationStage::Commit && succeeded,
        forall|stage: AllocationStage, succeeded: bool|
            #[trigger] allocation_next(stage, succeeded, removes_lease)
                == AllocationStage::LeaveLease && stage != AllocationStage::LeaveLease ==> stage
                == AllocationStage::Snapshot && !succeeded && !removes_lease,
        forall|stage: AllocationStage|
            stage == AllocationStage::Plan || stage == AllocationStage::Commit
                ==> #[trigger] allocation_next(stage, false, removes_lease)
                == AllocationStage::RemoveLease,
        allocation_next(AllocationStage::Snapshot, false, true) == AllocationStage::RemoveLease,
        allocation_next(AllocationStage::Snapshot, false, false) == AllocationStage::LeaveLease,
        forall|stage: AllocationStage, succeeded: bool|
            stage == AllocationStage::CleanStale || stage == AllocationStage::RemoveLease || stage
                == AllocationStage::LeaveLease ==> #[trigger] allocation_next(
                stage,
                succeeded,
                removes_lease,
            ) == stage,
{
}

/// A report that does not fit fails for the first reason: the number of its rows, or else the first
/// guest processor in it that was not planned, or was planned elsewhere.
pub proof fn first_misfit_is_reported(
    rows: Seq<PlannedRow>,
    report: Seq<VcpuPlacement>,
    allocation_id: Seq<char>,
    error: ReconcileError,
    i: int,
)
    requires
        is_reconcile_error(rows, report, allocation_id, error),
        rows.len() == report.len() ==> {
            &&& 0 <= i < report.len()
            &&& !fits_plan(rows, report[i])
            &&& forall|k: int| 0 <= k < i ==> fits_plan(rows, #[trigger] report[k])
        },
    ensures
        rows.len() != report.len() ==> (error matches ReconcileError::RowCount {
            reported,
            planned,
            ..
        } && reported == report.len() && planned == rows.len()),
        rows.len() == report.len() ==> match error {
            ReconcileError::Unplanned { vcpu_index } => vcpu_index == report[i].vcpu(),
            ReconcileError::WrongCpu { vcpu_index, reported, .. } => vcpu_index == report[i].vcpu()
                && report[i].reported() is Some && reported == report[i].reported()->0.group * 65536
                + report[i].reported()->0.index,
            _ => false,
        },
{
    if rows.len() == report.len() {
        let w = choose|w: int|
            {
                &&& 0 <= w < report.len()
                &&& !fits_plan(rows, #[trigger] report[w])
                &&& forall|k: int| 0 <= k < w ==> fits_plan(rows, #[trigger] report[k])
                &&& match planned_row(rows, report[w].vcpu()) {
                    None => error == (ReconcileError::Unplanned { vcpu_index: report[w].vcpu() }),
                    Some(row) => {
                        &&& error matches ReconcileError::WrongCpu { vcpu_index, reported, planned }
                        &&& vcpu_index == report[w].vcpu()
                        &&& reported == report[w].reported()->0.key()
                        &&& planned == row.logical_cpu
                    },
                }
            };
        if w < i {
            assert(fits_plan(rows, report[w]));
        }
        if i < w {
            assert(fits_plan(rows, report[i]));
        }
        assert(w == i);
    }
}

/// A plan that cannot be written fails for the first reason: a reservation without a guest
/// processor, or else the first node that the catalog cannot hold.
pub proof fn first_unwritable_row_is_reported(
    reservations: Seq<Reservation>,
    nodes: Seq<NodeChoice>,
    error: CatalogError,
    i: int,
)
    requires
        is_catalog_error(reservations, nodes, error),
    ensures
        error == CatalogError::MissingVcpu <==> exists|k: int|
            0 <= k < reservations.len() && (#[trigger] reservations[k]).vcpu_index is None,
        error != CatalogError::MissingVcpu && 0 <= i < nodes.len() && nodes[i].host_node_id
            > 0x7fff_ffff && (forall|k: int|
            0 <= k < i ==> (#[trigger] nodes[k]).host_node_id <= 0x7fff_ffff) ==> error == (
        CatalogError::NodeOutOfRange { host_node_id: nodes[i].host_node_id }),
{
    if error != CatalogError::MissingVcpu {
        let w = choose|w: int|
            {
                &&& 0 <= w < nodes.len()
                &&& (#[trigger] nodes[w]).host_node_id > i32::MAX
                &&& forall|k: int| 0 <= k < w ==> (#[trigger] nodes[k]).host_node_id <= i32::MAX
                &&& error == (CatalogError::NodeOutOfRange { host_node_id: nodes[w].host_node_id })
            };
        if 0 <= i < nodes.len() && nodes[i].host_node_id > 0x7fff_ffff {
            if i < w {
                assert(nodes[i].host_node_id <= i32::MAX);
            }
            if w < i {
                assert(nodes[w].host_node_id > i32::MAX);
            }
        }
    }
}

} // verus!
