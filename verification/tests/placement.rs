//! Processor and memory allocation.

use sandbox_runner::cpu::allocation_name;
use sandbox_runner::cpu::is_stale;
use sandbox_runner::cpu::is_valid_lease_name;
use sandbox_runner::cpu::new_allocation_name;
use sandbox_runner::cpu::occupancy;
use sandbox_runner::cpu::CpuRow;
use sandbox_runner::cpu::LeaseProbe;
use sandbox_runner::cpu::LogicalCpu;
use sandbox_runner::cpu::MemoryRow;
use sandbox_runner::cpu::SnapshotError;
use sandbox_runner::placement::allocation_row;
use sandbox_runner::placement::allocation_step;
use sandbox_runner::placement::catalog_rows;
use sandbox_runner::placement::lock_planner;
use sandbox_runner::placement::planner_busy_message;
use sandbox_runner::placement::reconcile;
use sandbox_runner::placement::AllocationLease;
use sandbox_runner::placement::AllocationStage;
use sandbox_runner::placement::Enforcement;
use sandbox_runner::placement::NodeChoice;
use sandbox_runner::placement::PlannedRow;
use sandbox_runner::placement::PlannerWait;
use sandbox_runner::placement::Reservation;
use sandbox_runner::placement::RowUpdate;
use sandbox_runner::placement::VcpuPlacement;

#[test]
fn lease_names_are_derived_from_canonical_allocation_ids() {
    let id = "0123456789abcdef0123456789abcdef";
    assert!(is_valid_lease_name(id, &format!("{id}.lock")));
    assert!(!is_valid_lease_name(id, "../outside.lock"));
    assert!(!is_valid_lease_name("short", "short.lock"));
    assert!(!is_valid_lease_name(
        "0123456789abcdef0123456789abcdeg",
        "0123456789abcdef0123456789abcdeg.lock"
    ));
}

#[test]
fn allocation_names_are_padded_numbers() {
    let name = allocation_name(0x1f);
    assert_eq!(name.id, "0000000000000000000000000000001f");
    assert_eq!(name.lease_name, "0000000000000000000000000000001f.lock");
    let (first, second) = (new_allocation_name(), new_allocation_name());
    assert!(is_valid_lease_name(&first.id, &first.lease_name));
    assert_ne!(first.id, second.id);
}

#[test]
fn only_a_free_private_lease_is_stale() {
    let name = allocation_name(7);
    assert!(is_stale(&name.id, &name.lease_name, LeaseProbe::Free));
    assert!(!is_stale(&name.id, &name.lease_name, LeaseProbe::Held));
    assert!(!is_stale(&name.id, &name.lease_name, LeaseProbe::Unverifiable));
    assert!(!is_stale(&name.id, "../outside.lock", LeaseProbe::Free));
}

fn cpu(index: u16) -> LogicalCpu {
    LogicalCpu { group: 0, index }
}

fn cpu_row(id: &str, index: u16) -> CpuRow {
    CpuRow {
        allocation_id: id.into(),
        logical_cpu: index as i64,
        cpu: Ok(cpu(index)),
    }
}

fn memory_row(id: &str, host_numa_node: i32, max_mib: i64) -> MemoryRow {
    MemoryRow {
        allocation_id: id.into(),
        host_numa_node,
        max_mib,
    }
}

#[test]
fn stale_rows_do_not_count() {
    let cpus = vec![cpu_row("a", 1), cpu_row("b", 1), cpu_row("gone", 1), cpu_row("gone", 2)];
    let memory = vec![
        memory_row("a", 0, 512),
        memory_row("b", 0, 256),
        memory_row("b", 1, 128),
        memory_row("gone", 2, -5),
    ];
    let found = occupancy(&cpus, &memory, &vec!["gone".to_string()]).ok().unwrap();
    assert_eq!(found.loads.into_iter().collect::<Vec<_>>(), [(1, 2)]);
    assert_eq!(
        found.reserved_memory_mib.into_iter().collect::<Vec<_>>(),
        [(0, 768), (1, 128)]
    );
    assert_eq!(LogicalCpu { group: 2, index: 3 }.catalog_key(), 0x2_0003);
}

#[test]
fn a_damaged_catalog_is_reported() {
    let bad = CpuRow {
        allocation_id: "a".into(),
        logical_cpu: -3,
        cpu: Err("out of range".into()),
    };
    let error = occupancy(&vec![bad], &vec![memory_row("a", -1, 1)], &vec![])
        .err()
        .unwrap();
    assert_eq!(
        error.message(),
        "CPU allocation a contains invalid logical CPU -3: out of range"
    );
    assert!(error.removes_lease());
    let error = occupancy(&vec![], &vec![memory_row("a", -1, 1)], &vec![])
        .err()
        .unwrap();
    assert_eq!(
        error.message(),
        "memory allocation a contains invalid host NUMA node -1"
    );
    assert!(!error.removes_lease());
    let error = occupancy(&vec![], &vec![memory_row("a", 0, i64::MIN)], &vec![])
        .err()
        .unwrap();
    assert!(matches!(error, SnapshotError::InvalidMemory { .. }));
    assert_eq!(
        error.message(),
        "memory allocation a contains invalid maximum memory -9223372036854775808"
    );
}

fn planned() -> Vec<PlannedRow> {
    vec![
        PlannedRow { vcpu_index: 0, logical_cpu: 0 },
        PlannedRow { vcpu_index: 1, logical_cpu: 1 },
    ]
}

fn pinned(vcpu_index: u16) -> VcpuPlacement {
    VcpuPlacement::Pinned {
        vcpu_index,
        host_cpu: cpu(vcpu_index),
    }
}

fn inherited(vcpu_index: u16) -> VcpuPlacement {
    VcpuPlacement::Inherited {
        vcpu_index,
        requested_host_cpu: Some(cpu(vcpu_index)),
    }
}

#[test]
fn a_report_keeps_pins_and_releases_fallback_capacity() {
    let lease = AllocationLease::new("a".into(), false);
    let result = lease
        .reconcile(&planned(), &vec![pinned(0), inherited(1)], false)
        .unwrap()
        .ok()
        .unwrap();
    assert_eq!(
        result.updates,
        [
            RowUpdate::Assign { vcpu_index: 0 },
            RowUpdate::Delete { vcpu_index: 1 }
        ]
    );
    assert!(result.drop_memory);
    assert_eq!(result.enforcement.name(), "thread-affinity-partial");
    assert_eq!(result.state.name(), "active");
    assert_eq!(result.updates[0].role(), Some("assigned"));
    assert_eq!(result.updates[1].role(), None);
}

#[test]
fn a_new_allocation_is_pending() {
    let name = allocation_name(0x1f);
    let row = allocation_row(&name, -7, "auto", "exclusive", "fingerprint");
    assert_eq!(row.id, "0000000000000000000000000000001f");
    assert_eq!(row.run_id, -7);
    assert_eq!(row.requested_policy, "auto");
    assert_eq!(row.resolved_policy, "exclusive");
    assert_eq!(row.enforcement.name(), "pending");
    assert_eq!(row.topology_fingerprint, "fingerprint");
    assert_eq!(row.lease_name, "0000000000000000000000000000001f.lock");
    assert_eq!(row.state.name(), "pending");
}

#[test]
fn enforcement_counts_pinned_processors() {
    let id = "a".to_string();
    for (report, shared, expected) in [
        (vec![pinned(0), pinned(1)], false, Enforcement::Exclusive),
        (vec![pinned(0), pinned(1)], true, Enforcement::Shared),
        (vec![pinned(0), inherited(1)], true, Enforcement::PartialShared),
        (vec![inherited(0), inherited(1)], false, Enforcement::Inherited),
    ] {
        let result = reconcile(&id, &planned(), &report, true, shared).ok().unwrap();
        assert_eq!(result.enforcement, expected);
        assert!(!result.drop_memory);
    }
    for (enforcement, name) in [
        (Enforcement::Inherited, "inherited"),
        (Enforcement::Exclusive, "thread-affinity-exclusive"),
        (Enforcement::Shared, "thread-affinity-shared"),
        (Enforcement::PartialShared, "thread-affinity-partial-shared"),
    ] {
        assert_eq!(enforcement.name(), name);
    }
}

#[test]
fn a_foreign_report_changes_nothing() {
    let id = "a".to_string();
    let error = |report: Vec<VcpuPlacement>| {
        reconcile(&id, &planned(), &report, true, false)
            .err()
            .unwrap()
            .message()
    };
    assert_eq!(
        error(vec![pinned(0)]),
        "placement report has 1 vCPUs but allocation a has 2 planned rows"
    );
    assert_eq!(
        error(vec![pinned(0), pinned(7)]),
        "placement report references unplanned vCPU 7"
    );
    let wrong = VcpuPlacement::Pinned {
        vcpu_index: 1,
        host_cpu: cpu(9),
    };
    assert_eq!(
        error(vec![pinned(0), wrong]),
        "placement report maps vCPU 1 to host CPU 9, expected 1"
    );
}

#[test]
fn a_released_lease_stays_released() {
    let mut lease = AllocationLease::new("a".into(), true);
    assert_eq!(lease.to_release(), Some(&"a".to_string()));
    lease.mark_released();
    assert_eq!(lease.to_release(), None);
    assert!(lease
        .reconcile(&planned(), &vec![pinned(0), pinned(1)], true)
        .is_none());
}

#[test]
fn catalog_rows_hold_the_plan() {
    let reservations = vec![Reservation {
        vcpu_index: Some(3),
        logical_cpu: LogicalCpu { group: 1, index: 2 },
        role: "assigned".into(),
    }];
    let node = NodeChoice {
        guest_node_id: 0,
        host_node_id: 4,
        boot_memory_mib: 512,
        max_memory_mib: u32::MAX,
    };
    let rows = catalog_rows(&reservations, &vec![node]).ok().unwrap();
    assert_eq!(rows.cpus[0].vcpu_index, 3);
    assert_eq!(rows.cpus[0].logical_cpu, 0x1_0002);
    assert_eq!(rows.cpus[0].role, "assigned");
    assert_eq!(rows.nodes[0].host_numa_node, 4);
    assert_eq!(rows.nodes[0].boot_mib, 512);
    assert_eq!(rows.nodes[0].max_mib, u32::MAX as i64);
    let nameless = vec![Reservation {
        vcpu_index: None,
        logical_cpu: cpu(0),
        role: "x".into(),
    }];
    assert_eq!(
        catalog_rows(&nameless, &vec![]).err().unwrap().message(),
        "CPU assignment is missing its guest vCPU index"
    );
    let far = NodeChoice {
        host_node_id: u32::MAX,
        guest_node_id: 0,
        boot_memory_mib: 0,
        max_memory_mib: 0,
    };
    assert_eq!(
        catalog_rows(&vec![], &vec![far]).err().unwrap().message(),
        "host NUMA node 4294967295 exceeds the catalog range"
    );
}

#[test]
fn the_planner_waits_a_bounded_time() {
    assert_eq!(lock_planner(true, 9999), PlannerWait::Acquired);
    assert_eq!(lock_planner(false, 249), PlannerWait::Retry);
    assert_eq!(lock_planner(false, 250), PlannerWait::TimedOut);
    assert_eq!(
        planner_busy_message(),
        "CPU placement planner remained busy for 250 ms"
    );
}

#[test]
fn an_unpublished_lease_is_removed() {
    assert_eq!(
        allocation_step(AllocationStage::Snapshot, true, true),
        AllocationStage::Plan
    );
    assert_eq!(
        allocation_step(AllocationStage::Plan, true, true),
        AllocationStage::Commit
    );
    assert_eq!(
        allocation_step(AllocationStage::Commit, true, true),
        AllocationStage::CleanStale
    );
    for stage in [
        AllocationStage::Snapshot,
        AllocationStage::Plan,
        AllocationStage::Commit,
    ] {
        assert_eq!(
            allocation_step(stage, false, true),
            AllocationStage::RemoveLease
        );
    }
    // A memory row of another allocation that cannot be read leaves the new lease where it is.
    assert_eq!(
        allocation_step(AllocationStage::Snapshot, false, false),
        AllocationStage::LeaveLease
    );
    assert_eq!(
        allocation_step(AllocationStage::Plan, false, false),
        AllocationStage::RemoveLease
    );
}
