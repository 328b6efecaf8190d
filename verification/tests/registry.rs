use islemulti::player::Player;
use islemulti::position::Position;
use islemulti::registry::Registry;
use islemulti::scalar::Scalar;
use islemulti::vector::Vector;

fn scalar(value: f32) -> Scalar {
    Scalar::new(value.to_bits(), &value.to_string())
}

fn fresh(name: &str) -> Player {
    Player::new(name, Position::origin(), Vector::zero())
}

fn sorted(recipients: Vec<(u64, &String)>) -> Vec<(u64, String)> {
    let mut owned: Vec<(u64, String)> =
        recipients.into_iter().map(|(id, handle)| (id, handle.clone())).collect();
    owned.sort();
    owned
}

#[test]
fn new_registry_is_empty() {
    let registry: Registry<String> = Registry::new();
    assert_eq!(registry.len(), 0);
    assert!(!registry.contains(0));
    assert!(registry.session(0).is_none());
    assert!(registry.snapshot_handles(None).is_empty());
}

#[test]
fn register_inserts_session_and_handle_together() {
    let mut registry: Registry<String> = Registry::new();
    registry.register(4, fresh("Alice"), "a".to_string());
    assert_eq!(registry.len(), 1);
    assert!(registry.contains(4));
    assert_eq!(registry.session(4), Some(&fresh("Alice")));
    assert_eq!(sorted(registry.snapshot_handles(None)), vec![(4, "a".to_string())]);
}

#[test]
fn register_replaces_an_earlier_entry() {
    let mut registry: Registry<String> = Registry::new();
    registry.register(4, fresh("Alice"), "a".to_string());
    registry.register(4, fresh("Alicia"), "b".to_string());
    assert_eq!(registry.len(), 1);
    assert_eq!(registry.session(4), Some(&fresh("Alicia")));
    assert_eq!(sorted(registry.snapshot_handles(None)), vec![(4, "b".to_string())]);
}

#[test]
fn update_moves_an_existing_session() {
    let mut registry: Registry<String> = Registry::new();
    registry.register(4, fresh("Alice"), "a".to_string());
    registry.register(5, fresh("Bob"), "b".to_string());
    let position = Position::new(scalar(1.0), scalar(2.0), scalar(3.0));
    let direction = Vector::new(scalar(0.0), scalar(0.0), scalar(1.0));
    assert!(registry.update(4, position.clone(), direction.clone()));
    let moved = registry.session(4).unwrap();
    assert_eq!(moved.username, "Alice");
    assert_eq!(moved.position, position);
    assert_eq!(moved.direction, direction);
    assert_eq!(registry.session(5), Some(&fresh("Bob")));
    assert_eq!(
        sorted(registry.snapshot_handles(None)),
        vec![(4, "a".to_string()), (5, "b".to_string())]
    );
}

#[test]
fn update_of_an_absent_session_does_nothing() {
    let mut registry: Registry<String> = Registry::new();
    registry.register(5, fresh("Bob"), "b".to_string());
    let position = Position::new(scalar(1.0), scalar(2.0), scalar(3.0));
    assert!(!registry.update(4, position, Vector::zero()));
    assert_eq!(registry.len(), 1);
    assert!(!registry.contains(4));
    assert_eq!(registry.session(5), Some(&fresh("Bob")));
}

#[test]
fn remove_takes_session_and_handle_out() {
    let mut registry: Registry<String> = Registry::new();
    registry.register(4, fresh("Alice"), "a".to_string());
    registry.register(5, fresh("Bob"), "b".to_string());
    registry.remove(4);
    assert_eq!(registry.len(), 1);
    assert!(!registry.contains(4));
    assert!(registry.session(4).is_none());
    assert_eq!(sorted(registry.snapshot_handles(None)), vec![(5, "b".to_string())]);
}

#[test]
fn remove_is_idempotent() {
    let mut registry: Registry<String> = Registry::new();
    registry.register(5, fresh("Bob"), "b".to_string());
    registry.remove(4);
    registry.remove(4);
    assert_eq!(registry.len(), 1);
    registry.remove(5);
    registry.remove(5);
    assert_eq!(registry.len(), 0);
}

#[test]
fn snapshot_leaves_out_the_excluded_identity() {
    let mut registry: Registry<String> = Registry::new();
    for id in 0..10u64 {
        registry.register(id, fresh("p"), format!("h{}", id));
    }
    let all = sorted(registry.snapshot_handles(None));
    assert_eq!(all.len(), 10);
    for (index, (id, handle)) in all.iter().enumerate() {
        assert_eq!(*id, index as u64);
        assert_eq!(*handle, format!("h{}", id));
    }
    let others = sorted(registry.snapshot_handles(Some(3)));
    assert_eq!(others.len(), 9);
    assert!(others.iter().all(|(id, _)| *id != 3));
    for id in (0..10u64).filter(|id| *id != 3) {
        assert!(others.contains(&(id, format!("h{}", id))));
    }
}

#[test]
fn snapshot_excluding_a_stranger_reaches_everyone() {
    let mut registry: Registry<String> = Registry::new();
    registry.register(1, fresh("a"), "x".to_string());
    registry.register(2, fresh("b"), "y".to_string());
    assert_eq!(
        sorted(registry.snapshot_handles(Some(99))),
        vec![(1, "x".to_string()), (2, "y".to_string())]
    );
}

#[test]
fn snapshot_of_a_lone_sender_is_empty() {
    let mut registry: Registry<String> = Registry::new();
    registry.register(1, fresh("a"), "x".to_string());
    assert!(registry.snapshot_handles(Some(1)).is_empty());
}
