use ockam_trust::flow_control::{
    permits, AccessControl, Delivery, FlowControlPolicy, FlowControls,
};
use ockam_trust::routing::Address;

fn addr(name: &str) -> Address {
    Address::from_str(name)
}

#[test]
fn nothing_is_delivered_without_a_registration() {
    let mut registry = FlowControls::new();
    let id = registry.generate_id();
    assert!(!registry.is_allowed(&id, &addr("echoer")));
    assert_eq!(registry.check_delivery(Some(&id), &addr("echoer")), Delivery::Denied);
    assert_eq!(registry.consumer_policy(&addr("echoer"), &id), None);
}

#[test]
fn untagged_delivery_is_denied() {
    let mut registry = FlowControls::new();
    let id = registry.generate_id();
    registry.add_consumer(addr("echoer"), &id, FlowControlPolicy::ProducerAllowMultiple);
    assert_eq!(registry.check_delivery(None, &addr("echoer")), Delivery::Denied);
}

#[test]
fn registered_consumer_receives_the_flow() {
    let mut registry = FlowControls::new();
    let id = registry.generate_id();
    registry.add_consumer(addr("echoer"), &id, FlowControlPolicy::ProducerAllowMultiple);
    assert!(registry.is_allowed(&id, &addr("echoer")));
    assert_eq!(registry.check_delivery(Some(&id), &addr("echoer")), Delivery::Allowed);
    assert_eq!(
        registry.consumer_policy(&addr("echoer"), &id),
        Some(FlowControlPolicy::ProducerAllowMultiple)
    );
}

#[test]
fn registration_is_for_one_endpoint_and_one_flow() {
    let mut registry = FlowControls::new();
    let id = registry.generate_id();
    let other = registry.generate_id();
    registry.add_consumer(addr("echoer"), &id, FlowControlPolicy::ProducerAllowMultiple);
    assert!(!registry.is_allowed(&id, &addr("other")));
    assert!(!registry.is_allowed(&other, &addr("echoer")));
    assert!(!registry.is_allowed(&id, &addr("echoe")));
    assert!(!registry.is_allowed(&id, &addr("echoer ")));
}

#[test]
fn registration_stays_through_later_changes() {
    let mut registry = FlowControls::new();
    let id = registry.generate_id();
    registry.add_consumer(addr("echoer"), &id, FlowControlPolicy::ProducerAllowMultiple);
    for i in 0..50 {
        let more = registry.generate_id();
        registry.add_consumer(addr(&format!("w{}", i)), &more, FlowControlPolicy::ProducerAllowMultiple);
        registry.add_producer(addr(&format!("p{}", i)), &more);
        let child = registry.spawn_id(&more);
        registry.add_consumer(addr("echoer"), &child, FlowControlPolicy::SpawnerAllowMultipleMessages);
        assert!(registry.is_allowed(&id, &addr("echoer")));
    }
    // any number of messages: the answer does not wear out
    for _ in 0..10 {
        assert_eq!(registry.check_delivery(Some(&id), &addr("echoer")), Delivery::Allowed);
    }
}

#[test]
fn registering_twice_changes_nothing() {
    let mut registry = FlowControls::new();
    let id = registry.generate_id();
    registry.add_consumer(addr("echoer"), &id, FlowControlPolicy::ProducerAllowMultiple);
    registry.add_consumer(addr("echoer"), &id, FlowControlPolicy::ProducerAllowMultiple);
    assert_eq!(
        registry.consumer_policy(&addr("echoer"), &id),
        Some(FlowControlPolicy::ProducerAllowMultiple)
    );
    assert!(registry.is_allowed(&id, &addr("echoer")));
}

#[test]
fn registering_again_replaces_the_policy() {
    let mut registry = FlowControls::new();
    let spawner = registry.generate_id();
    registry.add_consumer(addr("echoer"), &spawner, FlowControlPolicy::SpawnerAllowMultipleMessages);
    let flow = registry.spawn_id(&spawner);
    assert!(registry.is_allowed(&flow, &addr("echoer")));
    registry.add_consumer(addr("echoer"), &spawner, FlowControlPolicy::ProducerAllowMultiple);
    assert_eq!(
        registry.consumer_policy(&addr("echoer"), &spawner),
        Some(FlowControlPolicy::ProducerAllowMultiple)
    );
    // the flow itself still delivers, what it spawned no longer does
    assert!(registry.is_allowed(&spawner, &addr("echoer")));
    assert!(!registry.is_allowed(&flow, &addr("echoer")));
}

#[test]
fn spawner_policy_accepts_what_the_spawner_spawned() {
    let mut registry = FlowControls::new();
    let listener = registry.generate_id();
    let unrelated = registry.generate_id();
    registry.add_consumer(addr("echoer"), &listener, FlowControlPolicy::SpawnerAllowMultipleMessages);
    let channel = registry.spawn_id(&listener);
    let nested = registry.spawn_id(&channel);
    let deeper = registry.spawn_id(&nested);
    let stranger = registry.spawn_id(&unrelated);
    assert!(registry.is_allowed(&listener, &addr("echoer")));
    assert!(registry.is_allowed(&channel, &addr("echoer")));
    assert!(registry.is_allowed(&nested, &addr("echoer")));
    assert!(registry.is_allowed(&deeper, &addr("echoer")));
    assert!(!registry.is_allowed(&stranger, &addr("echoer")));
    assert!(!registry.is_allowed(&unrelated, &addr("echoer")));
    assert!(!registry.is_allowed(&channel, &addr("other")));
    assert_eq!(registry.spawner_of(&channel), Some(listener));
    assert_eq!(registry.spawner_of(&nested), Some(channel));
    assert_eq!(registry.spawner_of(&listener), None);
}

#[test]
fn producer_policy_does_not_reach_spawned_flows() {
    let mut registry = FlowControls::new();
    let listener = registry.generate_id();
    registry.add_consumer(addr("echoer"), &listener, FlowControlPolicy::ProducerAllowMultiple);
    let channel = registry.spawn_id(&listener);
    assert!(registry.is_allowed(&listener, &addr("echoer")));
    assert!(!registry.is_allowed(&channel, &addr("echoer")));
}

#[test]
fn generated_ids_are_all_different() {
    let mut registry = FlowControls::new();
    let mut ids = Vec::new();
    for _ in 0..100 {
        assert!(registry.has_free_id());
        let id = registry.generate_id();
        assert!(!ids.contains(&id));
        ids.push(id);
        let spawned = registry.spawn_id(&id);
        assert!(!ids.contains(&spawned));
        ids.push(spawned);
    }
}

#[test]
fn generating_an_id_registers_nothing() {
    let mut registry = FlowControls::new();
    let id = registry.generate_id();
    registry.add_consumer(addr("echoer"), &id, FlowControlPolicy::SpawnerAllowMultipleMessages);
    let fresh = registry.generate_id();
    assert!(!registry.is_allowed(&fresh, &addr("echoer")));
    assert_eq!(registry.spawner_of(&fresh), None);
    assert!(registry.is_allowed(&id, &addr("echoer")));
}

#[test]
fn ids_of_another_registry_are_never_handed_out_again() {
    let mut first = FlowControls::new();
    let mut foreign = Vec::new();
    for _ in 0..5 {
        foreign.push(first.generate_id());
    }
    let mut second = FlowControls::new();
    second.add_consumer(addr("echoer"), &foreign[4], FlowControlPolicy::ProducerAllowMultiple);
    let fresh = second.generate_id();
    assert!(fresh != foreign[4]);
    assert!(!second.is_allowed(&fresh, &addr("echoer")));
}

#[test]
fn producers_are_known_by_their_endpoint() {
    let mut registry = FlowControls::new();
    let a = registry.generate_id();
    let b = registry.generate_id();
    assert_eq!(registry.producer_flow(&addr("receiver")), None);
    registry.add_producer(addr("receiver"), &a);
    assert_eq!(registry.producer_flow(&addr("receiver")), Some(a));
    registry.add_producer(addr("receiver"), &b);
    assert_eq!(registry.producer_flow(&addr("receiver")), Some(b));
    assert_eq!(registry.producer_flow(&addr("other")), None);
    // a producer is no consumer
    assert!(!registry.is_allowed(&b, &addr("receiver")));
}

#[test]
fn access_control_decides_whether_the_registry_is_asked() {
    let mut registry = FlowControls::new();
    let id = registry.generate_id();
    let echoer = addr("echoer");
    // no flow control configured: fully open
    assert_eq!(permits(AccessControl::AllowAll, &registry, None, &echoer), Delivery::Allowed);
    assert_eq!(permits(AccessControl::AllowAll, &registry, Some(&id), &echoer), Delivery::Allowed);
    // nothing passes
    assert_eq!(permits(AccessControl::DenyAll, &registry, Some(&id), &echoer), Delivery::Denied);
    // flow control in force: default deny
    assert_eq!(permits(AccessControl::FlowControl, &registry, None, &echoer), Delivery::Denied);
    assert_eq!(permits(AccessControl::FlowControl, &registry, Some(&id), &echoer), Delivery::Denied);
    registry.add_consumer(addr("echoer"), &id, FlowControlPolicy::ProducerAllowMultiple);
    assert_eq!(permits(AccessControl::FlowControl, &registry, Some(&id), &echoer), Delivery::Allowed);
    assert_eq!(permits(AccessControl::FlowControl, &registry, None, &echoer), Delivery::Denied);
    assert_eq!(permits(AccessControl::DenyAll, &registry, Some(&id), &echoer), Delivery::Denied);
}

#[test]
fn spawning_is_possible_while_ids_are_left() {
    let mut registry = FlowControls::new();
    let id = registry.generate_id();
    assert!(registry.can_spawn(&id));
    assert!(registry.has_free_id());
}
