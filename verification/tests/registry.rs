use scene_engine::EntityRegistry;

#[test]
fn new_registry_is_empty() {
    let registry: EntityRegistry<u32> = EntityRegistry::new();
    assert_eq!(registry.len(), 0);
    assert!(registry.values().is_empty());
    assert!(registry.get("anything").is_none());
}

#[test]
fn registered_entity_is_found_under_its_name() {
    let mut registry = EntityRegistry::new();
    registry.register("Text", 7u32);
    registry.register("Shadow", 9u32);
    assert_eq!(registry.get("Text"), Some(&7));
    assert_eq!(registry.get("Shadow"), Some(&9));
    assert_eq!(registry.get("text"), None);
    assert_eq!(registry.get(""), None);
}

#[test]
fn last_write_under_a_name_wins() {
    let mut registry = EntityRegistry::new();
    registry.register("a", 1u32);
    registry.register("b", 2u32);
    registry.register("a", 3u32);
    assert_eq!(registry.len(), 2);
    assert_eq!(registry.get("a"), Some(&3));
    assert_eq!(registry.get("b"), Some(&2));
    assert_eq!(registry.values(), vec![&3, &2]);
}

#[test]
fn values_come_in_the_order_of_registration() {
    let mut registry = EntityRegistry::new();
    for (i, name) in ["one", "two", "three", "four"].iter().enumerate() {
        registry.register(name, i);
    }
    assert_eq!(registry.values(), vec![&0, &1, &2, &3]);
}

#[test]
fn get_mut_changes_the_entity_in_place() {
    let mut registry = EntityRegistry::new();
    registry.register("a", 1u32);
    registry.register("b", 2u32);
    if let Some(e) = registry.get_mut("b") {
        *e = 20;
    }
    assert_eq!(registry.get("a"), Some(&1));
    assert_eq!(registry.get("b"), Some(&20));
    assert!(registry.get_mut("c").is_none());
    assert_eq!(registry.len(), 2);
}

#[test]
fn names_that_share_a_start_are_kept_apart() {
    let mut registry = EntityRegistry::new();
    registry.register("tree", 1u32);
    registry.register("tree2", 2u32);
    registry.register("tre", 3u32);
    assert_eq!(registry.get("tree"), Some(&1));
    assert_eq!(registry.get("tree2"), Some(&2));
    assert_eq!(registry.get("tre"), Some(&3));
}
