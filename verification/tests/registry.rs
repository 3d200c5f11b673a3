use parley::Registry;

#[test]
fn fresh_triggers_get_consecutive_slots() {
    let mut registry = Registry::new();
    assert_eq!(registry.register("!join".to_string()), 0);
    assert_eq!(registry.register("!part".to_string()), 1);
}

#[test]
fn registering_an_existing_trigger_reuses_its_slot() {
    let mut registry = Registry::new();
    assert_eq!(registry.register("!join".to_string()), 0);
    assert_eq!(registry.register("!part".to_string()), 1);
    assert_eq!(registry.register("!join".to_string()), 0);
    assert_eq!(registry.register("!other".to_string()), 2);
}

#[test]
fn lookup_finds_exactly_the_registered_string() {
    let mut registry = Registry::new();
    let slot = registry.register("!join".to_string());
    assert_eq!(registry.lookup("!join"), Some(slot));
    assert_eq!(registry.lookup("!Join"), None);
    assert_eq!(registry.lookup("join"), None);
    assert_eq!(registry.lookup(""), None);
}

#[test]
fn empty_registry_finds_nothing() {
    let registry = Registry::new();
    assert_eq!(registry.lookup("!join"), None);
}
