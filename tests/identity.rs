use game_sync::net_identity::NetIdentityRegistry;

#[test]
fn registered_entities_resolve_until_removed() {
    let mut reg = NetIdentityRegistry::new();
    let a = reg.register_new_entity(10);
    let b = reg.register_new_entity(11);
    assert_eq!(a, 0);
    assert_eq!(b, 1);
    assert_eq!(reg.resolve(a), Some(10));
    assert_eq!(reg.resolve(b), Some(11));
    assert_eq!(reg.net_id_of(10), Some(a));
    assert_eq!(reg.remove(a), Some(10));
    assert_eq!(reg.resolve(a), None);
    assert_eq!(reg.resolve(b), Some(11));
    let c = reg.register_new_entity(12);
    assert_eq!(c, 2);
}

#[test]
fn set_net_id_overwrites_both_sides() {
    let mut reg = NetIdentityRegistry::new();
    reg.set_net_id(5, 40);
    assert_eq!(reg.resolve(40), Some(5));
    reg.set_net_id(5, 41);
    assert_eq!(reg.resolve(40), None);
    assert_eq!(reg.resolve(41), Some(5));
    reg.set_net_id(6, 41);
    assert_eq!(reg.resolve(41), Some(6));
    assert_eq!(reg.net_id_of(5), None);
    // the counter moves past identifiers bound from outside
    assert_eq!(reg.register_new_entity(7), 42);
}

#[test]
fn registering_an_entity_again_moves_its_binding() {
    let mut reg = NetIdentityRegistry::new();
    let first = reg.register_new_entity(3);
    let second = reg.register_new_entity(3);
    assert_ne!(first, second);
    assert_eq!(reg.resolve(first), None);
    assert_eq!(reg.resolve(second), Some(3));
}

#[test]
fn resolve_of_unknown_identifier_is_none() {
    let reg = NetIdentityRegistry::new();
    assert_eq!(reg.resolve(99), None);
    assert!(reg.can_register());
}
