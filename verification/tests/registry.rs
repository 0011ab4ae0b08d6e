use chat_relay::registry::{ClientRegistry, WriteOutcome};

const OK: WriteOutcome = WriteOutcome::Delivered;
const GONE: WriteOutcome = WriteOutcome::Closed;

fn registry_of(n: usize) -> ClientRegistry {
    let mut registry = ClientRegistry::new();
    for _ in 0..n {
        registry.register().unwrap();
    }
    registry
}

#[test]
fn new_registry_is_empty() {
    let registry = ClientRegistry::new();
    assert_eq!(registry.len(), 0);
    assert_eq!(registry.snapshot(), Vec::<u64>::new());
    assert!(!registry.contains(0));
}

#[test]
fn clients_are_numbered_in_the_order_they_come() {
    let mut registry = ClientRegistry::new();
    assert_eq!(registry.register(), Some(0));
    assert_eq!(registry.register(), Some(1));
    assert_eq!(registry.register(), Some(2));
    assert_eq!(registry.len(), 3);
    assert_eq!(registry.snapshot(), vec![0, 1, 2]);
    assert!(registry.contains(1));
    assert!(!registry.contains(3));
}

#[test]
fn prune_takes_out_whose_write_failed() {
    let mut registry = registry_of(5);
    let removed = registry.prune(&vec![OK, GONE, OK, GONE, OK]);
    assert_eq!(removed, vec![1, 3]);
    assert_eq!(registry.snapshot(), vec![0, 2, 4]);
    assert_eq!(registry.len(), 3);
    assert!(!registry.contains(1));
    assert!(!registry.contains(3));
    assert!(registry.contains(4));
}

#[test]
fn prune_with_all_delivered_changes_nothing() {
    let mut registry = registry_of(3);
    assert_eq!(registry.prune(&vec![OK, OK, OK]), Vec::<u64>::new());
    assert_eq!(registry.snapshot(), vec![0, 1, 2]);
}

#[test]
fn prune_with_all_failed_empties_the_registry() {
    let mut registry = registry_of(3);
    assert_eq!(registry.prune(&vec![GONE, GONE, GONE]), vec![0, 1, 2]);
    assert_eq!(registry.len(), 0);
}

#[test]
fn prune_pairs_outcomes_with_positions_not_numbers() {
    let mut registry = registry_of(4);
    registry.prune(&vec![GONE, OK, OK, OK]);
    assert_eq!(registry.snapshot(), vec![1, 2, 3]);
    let removed = registry.prune(&vec![OK, GONE, OK]);
    assert_eq!(removed, vec![2]);
    assert_eq!(registry.snapshot(), vec![1, 3]);
}

#[test]
fn clients_without_an_outcome_stay() {
    let mut registry = registry_of(4);
    assert_eq!(registry.prune(&vec![GONE]), vec![0]);
    assert_eq!(registry.snapshot(), vec![1, 2, 3]);
    assert_eq!(registry.prune(&vec![]), Vec::<u64>::new());
    assert_eq!(registry.snapshot(), vec![1, 2, 3]);
}

#[test]
fn outcomes_without_a_client_count_for_nothing() {
    let mut registry = registry_of(2);
    assert_eq!(registry.prune(&vec![OK, GONE, GONE, GONE]), vec![1]);
    assert_eq!(registry.snapshot(), vec![0]);
    let mut empty = ClientRegistry::new();
    assert_eq!(empty.prune(&vec![GONE]), Vec::<u64>::new());
}

#[test]
fn numbers_are_not_handed_out_twice() {
    let mut registry = registry_of(3);
    registry.prune(&vec![GONE, GONE, GONE]);
    assert_eq!(registry.register(), Some(3));
    assert_eq!(registry.snapshot(), vec![3]);
    registry.prune(&vec![GONE]);
    assert_eq!(registry.register(), Some(4));
    assert!(!registry.contains(0));
    assert!(!registry.contains(3));
}
