use std::collections::BTreeSet;

use aion::worker::registry::{
    ActivityType, ConnectedWorkerRegistry, WorkerHandle, WorkerId, WorkerRegistration,
};

/// The namespace a caller may act in: its own, and no other.
fn scoped(caller: &str, namespace: &str) -> Result<String, String> {
    if caller == namespace {
        Ok(namespace.to_owned())
    } else {
        Err(format!("caller may not act in namespace {namespace}"))
    }
}

fn types(names: &[&str]) -> Vec<String> {
    names.iter().map(|name| (*name).to_owned()).collect()
}

fn accept(
    registry: &mut ConnectedWorkerRegistry,
    caller: &str,
    namespace: &str,
    activity_types: &[&str],
) -> Result<WorkerRegistration, String> {
    registry.accept_registration(scoped(caller, namespace), &types(activity_types), 0)
}

#[test]
fn register_and_deregister_are_namespace_isolated() -> Result<(), String> {
    let mut registry = ConnectedWorkerRegistry::new();

    let tenant_a = accept(&mut registry, "tenant-a", "tenant-a", &["charge", "charge"])?;
    let tenant_b = accept(&mut registry, "tenant-b", "tenant-b", &["charge"])?;

    assert_eq!(registry.workers_for("tenant-a", "charge").len(), 1);
    assert_eq!(registry.workers_for("tenant-b", "charge").len(), 1);
    assert!(registry.workers_for("tenant-a", "missing").is_empty());

    let tenant_a_id = tenant_a.worker_id();
    tenant_a.deregister(&mut registry);

    assert!(registry.workers_for("tenant-a", "charge").is_empty());
    assert_eq!(registry.workers_for("tenant-b", "charge").len(), 1);
    assert_ne!(tenant_a_id, tenant_b.worker_id());

    tenant_b.deregister(&mut registry);
    assert!(registry.workers_for("tenant-b", "charge").is_empty());
    Ok(())
}

#[test]
fn workers_for_rotates_start_across_calls_with_stable_membership() -> Result<(), String> {
    let mut registry = ConnectedWorkerRegistry::new();
    let mut ids = Vec::new();
    for _ in 0..3 {
        let registration = accept(&mut registry, "tenant-a", "tenant-a", &["charge"])?;
        ids.push(registration.worker_id());
    }

    let sorted_membership = {
        let mut sorted = ids.clone();
        sorted.sort();
        sorted
    };

    let mut starts = Vec::new();
    for _ in 0..3 {
        let rotated = registry.workers_for("tenant-a", "charge");
        assert_eq!(rotated.len(), 3, "every call sees all three workers");
        let mut membership: Vec<WorkerId> = rotated.iter().map(|worker| worker.id()).collect();
        membership.sort();
        assert_eq!(
            membership, sorted_membership,
            "membership is stable across rotations"
        );
        starts.push(rotated.first().map(WorkerHandle::id));
    }

    assert_eq!(
        starts.len(),
        3,
        "three calls recorded three starting workers"
    );
    let distinct: BTreeSet<_> = starts.iter().collect();
    assert_eq!(
        distinct.len(),
        3,
        "each successive call starts at a different worker: {starts:?}"
    );
    Ok(())
}

#[test]
fn workers_for_stays_in_bounds_after_deregistering_rotation_position() -> Result<(), String> {
    let mut registry = ConnectedWorkerRegistry::new();
    let worker_a = accept(&mut registry, "tenant-a", "tenant-a", &["charge"])?;
    let worker_b = accept(&mut registry, "tenant-a", "tenant-a", &["charge"])?;

    // Advance the rotation index to the second worker, then deregister the
    // worker sitting at that index. The next call must wrap the index back
    // into range rather than index out of bounds.
    let _ = registry.workers_for("tenant-a", "charge");
    let _ = registry.workers_for("tenant-a", "charge");
    worker_b.deregister(&mut registry);

    let remaining = registry.workers_for("tenant-a", "charge");
    assert_eq!(remaining.len(), 1, "only the surviving worker remains");
    assert_eq!(
        remaining.first().map(WorkerHandle::id),
        Some(worker_a.worker_id()),
        "the surviving worker is returned"
    );
    worker_a.deregister(&mut registry);
    Ok(())
}

#[test]
fn rotation_cursor_is_pruned_when_last_worker_for_a_key_deregisters() -> Result<(), String> {
    let mut registry = ConnectedWorkerRegistry::new();
    let worker = accept(&mut registry, "tenant-a", "tenant-a", &["charge"])?;

    // Materialise a rotation cursor for the key.
    let _ = registry.workers_for("tenant-a", "charge");
    assert_eq!(
        registry.rotation_key_count(),
        1,
        "cursor created for the key"
    );

    worker.deregister(&mut registry);
    assert_eq!(
        registry.rotation_key_count(),
        0,
        "the rotation cursor is pruned once the key has no workers"
    );
    Ok(())
}

#[test]
fn denied_namespace_is_not_registered() -> Result<(), String> {
    let mut registry = ConnectedWorkerRegistry::new();
    let denied = accept(&mut registry, "tenant-a", "tenant-b", &["charge"]);

    assert!(denied.is_err());
    assert!(registry.workers_for("tenant-b", "charge").is_empty());
    Ok(())
}

#[test]
fn a_worker_keeps_what_it_registered_with() {
    let mut registry = ConnectedWorkerRegistry::new();
    let registration = registry.register("tenant-a", &types(&["ship", "charge", "ship"]), 77);
    let names: Vec<&str> = registration
        .activity_types()
        .iter()
        .map(|kind| kind.name.as_str())
        .collect();
    assert_eq!(names, vec!["charge", "ship"]);
    assert_eq!(registration.namespace(), "tenant-a");
    let workers = registry.all_workers();
    assert_eq!(workers.len(), 1);
    assert_eq!(workers[0].sender(), 77);
    assert_eq!(workers[0].namespace(), "tenant-a");
    assert_eq!(workers[0].id(), registration.worker_id());
    assert_eq!(workers[0].id().value(), registration.worker_id().0);
    assert!(registry.is_registered(registration.worker_id()));
}

#[test]
fn a_full_rotation_returns_to_its_start() {
    let mut registry = ConnectedWorkerRegistry::new();
    for _ in 0..3 {
        registry.register("tenant-a", &types(&["charge"]), 0);
    }
    let first: Vec<WorkerId> = registry
        .workers_for("tenant-a", "charge")
        .iter()
        .map(|worker| worker.id())
        .collect();
    registry.workers_for("tenant-a", "charge");
    registry.workers_for("tenant-a", "charge");
    let fourth: Vec<WorkerId> = registry
        .workers_for("tenant-a", "charge")
        .iter()
        .map(|worker| worker.id())
        .collect();
    assert_eq!(first, fourth);
}

#[test]
fn draining_drops_the_workers_that_did_not_take_the_message() {
    let mut registry = ConnectedWorkerRegistry::new();
    let reached = registry.register("tenant-a", &types(&["charge"]), 1).worker_id();
    let closed = registry.register("tenant-a", &types(&["charge"]), 2).worker_id();
    let delivered = registry.broadcast_drain(&vec![(reached, true), (closed, false)]);
    assert_eq!(delivered, 1);
    assert!(registry.is_registered(reached));
    assert!(!registry.is_registered(closed));
}

#[test]
fn deregistering_twice_changes_nothing_more() {
    let mut registry = ConnectedWorkerRegistry::new();
    let worker = registry.register("tenant-a", &types(&["charge"]), 1).worker_id();
    registry.deregister(worker);
    registry.deregister(worker);
    assert!(registry.all_workers().is_empty());
}

#[test]
fn advertised_types_are_kept_in_order_and_once() {
    let mut registry = ConnectedWorkerRegistry::new();
    let registration = registry.register("tenant-a", &types(&["ship", "charge", "ship", "audit"]), 0);
    let names = |types: &Vec<ActivityType>| -> Vec<String> {
        types.iter().map(|kind| kind.name.clone()).collect()
    };
    assert_eq!(names(registration.activity_types()), ["audit", "charge", "ship"]);
    let workers = registry.workers_for("tenant-a", "ship");
    assert_eq!(names(workers[0].activity_types()), ["audit", "charge", "ship"]);
}

#[test]
fn registrations_are_numbered_whatever_is_removed_in_between() {
    let mut registry = ConnectedWorkerRegistry::default();
    for number in 1..=5u64 {
        let registration = registry.register("tenant-a", &types(&["charge"]), 0);
        assert_eq!(registration.worker_id().value(), number);
        if number % 2 == 0 {
            registration.deregister(&mut registry);
        }
        let _ = registry.workers_for("tenant-a", "charge");
    }
}
