use bucface::registry::{ConnRegistry, WriteOutcome};

fn registry_with(handles: &[u64]) -> ConnRegistry {
    let mut reg = ConnRegistry::new();
    for &h in handles {
        reg.register(h);
    }
    reg
}

#[test]
fn one_closed_connection_leaves_and_the_rest_receive() {
    // a registry of three connections; the middle one's write half closed
    let mut reg = registry_with(&[10, 20, 30]);
    let outcomes = vec![
        WriteOutcome::Delivered,
        WriteOutcome::Closed,
        WriteOutcome::Delivered,
    ];
    let delivered = reg.broadcast(&outcomes);
    assert_eq!(delivered, vec![10, 30]);
    assert_eq!(reg.len(), 2);
    assert_eq!(reg.handle_at(0), 10);
    assert_eq!(reg.handle_at(1), 30);
}

#[test]
fn a_failing_write_keeps_the_connection_registered() {
    let mut reg = registry_with(&[1, 2]);
    let outcomes = vec![WriteOutcome::Failed, WriteOutcome::Delivered];
    let delivered = reg.broadcast(&outcomes);
    assert_eq!(delivered, vec![2]);
    assert_eq!(reg.len(), 2);
    assert_eq!(reg.handle_at(0), 1);
}

#[test]
fn broadcast_to_all_live_connections_reaches_all() {
    let mut reg = registry_with(&[5, 6, 7, 8]);
    let outcomes = vec![WriteOutcome::Delivered; 4];
    let delivered = reg.broadcast(&outcomes);
    assert_eq!(delivered, vec![5, 6, 7, 8]);
    assert_eq!(reg.len(), 4);
}

#[test]
fn registration_appends_in_order() {
    let reg = registry_with(&[3, 1, 2]);
    assert_eq!(reg.len(), 3);
    assert_eq!(reg.handle_at(0), 3);
    assert_eq!(reg.handle_at(1), 1);
    assert_eq!(reg.handle_at(2), 2);
}
