use relativity::universe::{EntityId, EntityRegistry};

#[test]
fn new_registry_holds_the_user_entity() {
    let registry = EntityRegistry::new("user".to_string());
    assert_eq!(registry.get_user_entity().as_str(), "user");
}

#[test]
fn generate_draws_an_identifier() {
    let id = EntityId::generate();
    let EntityId(raw) = id;
    assert_eq!(EntityId(raw), id);
}

#[test]
fn inserted_entities_can_be_removed() {
    let mut registry = EntityRegistry::new(0u64);
    let id = registry.insert_entity(7u64);
    assert_eq!(registry.remove_entity(id), Some(7));
    assert_eq!(registry.remove_entity(id), None);
}

#[test]
fn the_user_entity_cannot_be_removed() {
    let mut registry = EntityRegistry::new(1u64);
    let user_id = registry.user_entity_id();
    assert_eq!(registry.remove_entity(user_id), None);
    assert_eq!(*registry.get_user_entity(), 1);
}

#[test]
fn entities_can_be_looked_up_without_removal() {
    let mut registry = EntityRegistry::new(0u64);
    let id = registry.insert_entity(9u64);
    assert!(registry.contains_entity(id));
    assert_eq!(registry.get_entity(id), Some(&9));
    registry.remove_entity(id);
    assert!(!registry.contains_entity(id));
    assert_eq!(registry.get_entity(id), None);
}

#[test]
fn entity_ids_lists_every_entity_once() {
    let mut registry = EntityRegistry::new(0u64);
    let a = registry.insert_entity(1u64);
    let b = registry.insert_entity(2u64);
    let ids = registry.entity_ids();
    assert_eq!(ids.len(), 3);
    assert!(ids.contains(&registry.user_entity_id()));
    assert!(ids.contains(&a));
    assert!(ids.contains(&b));
}

#[test]
fn mutable_access_updates_the_user_entity() {
    let mut registry = EntityRegistry::new(5u64);
    *registry.get_user_entity_mut() = 11;
    assert_eq!(*registry.get_user_entity(), 11);
}
