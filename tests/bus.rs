use live_record::{
    change_age, change_name, get_user, BusError, ChangeEvent, DeliveryFault, NotificationBus,
    Record, SharedRecord, QUEUE_CAPACITY,
};

fn age_of(e: Option<ChangeEvent>) -> u8 {
    match e {
        Some(ChangeEvent::AgeChanged(a)) => a,
        other => panic!("expected an age event, got {:?}", other),
    }
}

#[test]
fn subscriber_sees_changes_end_to_end() {
    let mut shared = SharedRecord::new(Record { name: "zeljic".to_string(), age: 37 });
    let mut bus = NotificationBus::new(QUEUE_CAPACITY, 16);
    let s1 = bus.subscribe().unwrap();

    let e = change_age(&mut shared, "40").unwrap();
    bus.publish(e);
    let got = bus.pull(s1).unwrap();
    assert_eq!(got.to_json(), "{\"kind\":\"age_changed\",\"value\":{\"age\":40}}");

    let e = change_name(&mut shared, "bob".to_string());
    bus.publish(e);
    let got = bus.pull(s1).unwrap();
    assert_eq!(got.to_json(), "{\"kind\":\"name_changed\",\"value\":{\"name\":\"bob\"}}");

    assert_eq!(get_user(&shared).unwrap(), "{\"name\":\"bob\",\"age\":40}");
    assert!(bus.pull(s1).is_none());
}

#[test]
fn refused_change_publishes_nothing() {
    let mut shared = SharedRecord::new(Record { name: "zeljic".to_string(), age: 37 });
    let mut bus = NotificationBus::new(QUEUE_CAPACITY, 16);
    let s1 = bus.subscribe().unwrap();
    if let Ok(e) = change_age(&mut shared, "999") {
        bus.publish(e);
    }
    assert!(bus.pull(s1).is_none());
    assert_eq!(shared.read().age, 37);
}

#[test]
fn events_arrive_in_publish_order() {
    let mut bus = NotificationBus::new(QUEUE_CAPACITY, 4);
    let s = bus.subscribe().unwrap();
    for a in [3u8, 1, 4, 1, 5] {
        bus.publish(ChangeEvent::AgeChanged(a));
    }
    let got: Vec<u8> = (0..5).map(|_| age_of(bus.pull(s))).collect();
    assert_eq!(got, vec![3, 1, 4, 1, 5]);
    assert!(bus.pull(s).is_none());
}

#[test]
fn overflow_is_signalled_once() {
    let mut bus = NotificationBus::new(QUEUE_CAPACITY, 4);
    let s = bus.subscribe().unwrap();
    for a in 1u8..=8 {
        bus.publish(ChangeEvent::AgeChanged(a));
    }
    assert!(matches!(bus.pull(s), Some(ChangeEvent::DeliveryError(DeliveryFault::Lagged))));
    let got: Vec<u8> = (0..5).map(|_| age_of(bus.pull(s))).collect();
    assert_eq!(got, vec![4, 5, 6, 7, 8]);
    assert!(bus.pull(s).is_none());
}

#[test]
fn overflow_of_one_capacity_queue() {
    let mut bus = NotificationBus::new(1, 1);
    let s = bus.subscribe().unwrap();
    bus.publish(ChangeEvent::AgeChanged(1));
    bus.publish(ChangeEvent::AgeChanged(2));
    assert!(matches!(bus.pull(s), Some(ChangeEvent::DeliveryError(DeliveryFault::Lagged))));
    assert_eq!(age_of(bus.pull(s)), 2);
    bus.publish(ChangeEvent::AgeChanged(3));
    assert_eq!(age_of(bus.pull(s)), 3);
}

#[test]
fn closing_one_subscription_leaves_others() {
    let mut bus = NotificationBus::new(QUEUE_CAPACITY, 4);
    let a = bus.subscribe().unwrap();
    let b = bus.subscribe().unwrap();
    assert_ne!(a, b);
    bus.publish(ChangeEvent::AgeChanged(10));
    assert!(bus.unsubscribe(a));
    assert!(!bus.unsubscribe(a));
    assert!(!bus.is_subscribed(a));
    assert!(bus.is_subscribed(b));
    bus.publish(ChangeEvent::AgeChanged(11));
    assert_eq!(age_of(bus.pull(b)), 10);
    assert_eq!(age_of(bus.pull(b)), 11);
    assert!(bus.pull(b).is_none());
    assert!(bus.pull(a).is_none());
}

#[test]
fn subscriber_limit_is_enforced() {
    let mut bus = NotificationBus::new(QUEUE_CAPACITY, 2);
    let a = bus.subscribe().unwrap();
    bus.subscribe().unwrap();
    assert_eq!(bus.subscribe(), Err(BusError::CapacityExceeded));
    bus.unsubscribe(a);
    assert!(bus.subscribe().is_ok());
}

#[test]
fn late_subscriber_misses_earlier_events() {
    let mut bus = NotificationBus::new(QUEUE_CAPACITY, 2);
    bus.publish(ChangeEvent::AgeChanged(1));
    let s = bus.subscribe().unwrap();
    assert!(bus.pull(s).is_none());
}
