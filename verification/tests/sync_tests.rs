use cluster_core::descriptor::NodeDescriptor;
use cluster_core::sync::{NodeSyncStatus, SyncAction, SyncCoordinator, SyncResult};

fn three_nodes() -> Vec<NodeDescriptor> {
    vec![
        NodeDescriptor::new("http://a:1/".to_owned(), "t1".to_owned(), "ingester".to_owned()),
        NodeDescriptor::new("http://b:2/".to_owned(), "t2".to_owned(), "ingester".to_owned()),
        NodeDescriptor::new("http://c:3/".to_owned(), "t3".to_owned(), "ingester".to_owned()),
    ]
}

#[test]
fn all_nodes_succeeding_syncs_with_zero_rollbacks() {
    let mut c = SyncCoordinator::new(three_nodes());
    for i in 0..3usize {
        assert!(matches!(c.next_action(), SyncAction::Probe(j) if j == i));
        c.on_probe(true);
        assert!(matches!(c.next_action(), SyncAction::Create(j) if j == i));
        c.on_create_result(true);
    }
    assert!(matches!(c.next_action(), SyncAction::Finished));
    assert!(matches!(c.result(), SyncResult::Synced));
    for i in 0..3usize {
        assert!(matches!(c.forward[i], NodeSyncStatus::Succeeded));
        assert!(matches!(c.rollback[i], NodeSyncStatus::Pending));
    }
}

#[test]
fn second_node_failing_halts_and_rolls_back_all_three() {
    let mut c = SyncCoordinator::new(three_nodes());
    c.on_probe(true);
    c.on_create_result(true);
    c.on_probe(true);
    c.on_create_result(false);
    // node 1 and node 2 were attempted, node 3 never was
    assert!(matches!(c.forward[0], NodeSyncStatus::Succeeded));
    assert!(matches!(c.forward[1], NodeSyncStatus::Failed));
    assert!(matches!(c.forward[2], NodeSyncStatus::Pending));
    // the compensating delete goes to every node in the original list
    for i in 0..3usize {
        assert!(matches!(c.next_action(), SyncAction::Probe(j) if j == i));
        c.on_probe(true);
        assert!(matches!(c.next_action(), SyncAction::Rollback(j) if j == i));
        c.on_rollback_result(true);
    }
    assert!(matches!(c.next_action(), SyncAction::Finished));
    assert!(matches!(c.result(), SyncResult::RolledBack));
    for i in 0..3usize {
        assert!(matches!(c.rollback[i], NodeSyncStatus::Succeeded));
    }
}

#[test]
fn unreachable_node_is_skipped_not_failed() {
    let mut c = SyncCoordinator::new(three_nodes());
    c.on_probe(true);
    c.on_create_result(true);
    // node 2 fails its liveness probe: vacuously succeeded
    c.on_probe(false);
    c.on_probe(true);
    c.on_create_result(true);
    assert!(matches!(c.result(), SyncResult::Synced));
    assert!(matches!(c.forward[0], NodeSyncStatus::Succeeded));
    assert!(matches!(c.forward[1], NodeSyncStatus::Skipped));
    assert!(matches!(c.forward[2], NodeSyncStatus::Succeeded));
    assert!(matches!(c.rollback[0], NodeSyncStatus::Pending));
}

#[test]
fn rollback_failure_is_fatal_and_distinct() {
    let mut c = SyncCoordinator::new(three_nodes());
    c.on_probe(true);
    c.on_create_result(false);
    c.on_probe(true);
    c.on_rollback_result(true);
    c.on_probe(true);
    c.on_rollback_result(false);
    assert!(matches!(c.next_action(), SyncAction::Finished));
    assert!(matches!(c.result(), SyncResult::RollbackFailed));
    assert!(matches!(c.rollback[1], NodeSyncStatus::Failed));
    assert!(matches!(c.rollback[2], NodeSyncStatus::Pending));
}

#[test]
fn unreachable_node_also_skips_its_rollback() {
    let mut c = SyncCoordinator::new(three_nodes());
    c.on_probe(true);
    c.on_create_result(false);
    c.on_probe(false);
    c.on_probe(true);
    c.on_rollback_result(true);
    c.on_probe(false);
    assert!(matches!(c.result(), SyncResult::RolledBack));
    assert!(matches!(c.rollback[0], NodeSyncStatus::Skipped));
    assert!(matches!(c.rollback[1], NodeSyncStatus::Succeeded));
    assert!(matches!(c.rollback[2], NodeSyncStatus::Skipped));
}

#[test]
fn empty_membership_is_vacuously_synced() {
    let c = SyncCoordinator::new(Vec::new());
    assert!(matches!(c.next_action(), SyncAction::Finished));
    assert!(matches!(c.result(), SyncResult::Synced));
}

#[test]
fn create_url_targets_the_stream_path() {
    let c = SyncCoordinator::new(three_nodes());
    assert_eq!(c.create_url(0, "teststream"), "http://a:1/api/v1/logstream/teststream");
}
