use live_record::{
    change_age, change_name, get_user, ChangeEvent, Record, ServiceError, SharedRecord,
};

fn initial() -> SharedRecord {
    SharedRecord::new(Record { name: "zeljic".to_string(), age: 37 })
}

#[test]
fn initial_record_reads_back() {
    let shared = initial();
    let r = shared.read();
    assert_eq!(r.name, "zeljic");
    assert_eq!(r.age, 37);
    assert_eq!(get_user(&shared).unwrap(), "{\"name\":\"zeljic\",\"age\":37}");
}

#[test]
fn reads_see_only_written_values() {
    let mut shared = initial();
    let written = shared.set_age(1);
    assert_eq!(shared.read().age, written.age);
    assert_eq!(shared.read().name, "zeljic");
    let written = shared.set_name("ana".to_string());
    let r = shared.read();
    assert_eq!((r.name.as_str(), r.age), (written.name.as_str(), written.age));
    assert_eq!((r.name.as_str(), r.age), ("ana", 1));
    shared.set_age(2);
    shared.set_age(3);
    assert_eq!(shared.read().age, 3);
}

#[test]
fn change_age_accepts_byte_values() {
    let mut shared = initial();
    assert!(matches!(change_age(&mut shared, "40"), Ok(ChangeEvent::AgeChanged(40))));
    assert!(matches!(change_age(&mut shared, "0"), Ok(ChangeEvent::AgeChanged(0))));
    assert!(matches!(change_age(&mut shared, "255"), Ok(ChangeEvent::AgeChanged(255))));
    assert!(matches!(change_age(&mut shared, "+7"), Ok(ChangeEvent::AgeChanged(7))));
    assert_eq!(shared.read().age, 7);
}

#[test]
fn change_age_out_of_range_is_refused() {
    let mut shared = initial();
    let r = change_age(&mut shared, "999");
    assert!(matches!(r, Err(ServiceError::ValidationError)));
    assert_eq!(ServiceError::ValidationError.status(), 400);
    let rec = shared.read();
    assert_eq!((rec.name.as_str(), rec.age), ("zeljic", 37));
}

#[test]
fn change_age_non_numeric_is_refused() {
    let mut shared = initial();
    for raw in ["abc", "", "-1", "256", "4 0", "+"] {
        assert!(matches!(change_age(&mut shared, raw), Err(ServiceError::ValidationError)));
    }
    assert_eq!(shared.read().age, 37);
}

#[test]
fn change_name_takes_segment_as_is() {
    let mut shared = initial();
    let e = change_name(&mut shared, "bob".to_string());
    assert!(matches!(e, ChangeEvent::NameChanged(ref n) if n == "bob"));
    assert_eq!(shared.read().name, "bob");
    assert_eq!(shared.read().age, 37);
}

#[test]
fn user_json_escapes_name() {
    let mut shared = initial();
    change_name(&mut shared, "a\"b".to_string());
    assert_eq!(get_user(&shared).unwrap(), "{\"name\":\"a\\\"b\",\"age\":37}");
}

#[test]
fn error_statuses() {
    assert_eq!(ServiceError::Busy.status(), 503);
    assert_eq!(ServiceError::CapacityExceeded.status(), 503);
    assert_eq!(ServiceError::Unserializable.status(), 500);
}
