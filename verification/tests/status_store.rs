use service_scan::status::{Service, ServiceStatus, Status, Timestamp};

const ALL: [Service; 6] = [
    Service::BindDns,
    Service::AdDns,
    Service::Smtp,
    Service::Pop3,
    Service::Ecom,
    Service::Splunk,
];

fn status(up: bool, secs: i64, reason: &str) -> Status {
    Status { up, last: Timestamp { secs, nanos: 5 }, failure_reason: reason.to_string() }
}

#[test]
fn a_new_store_has_the_initial_status_everywhere() {
    let initial = status(false, 1, "not yet checked");
    let store = ServiceStatus::new(initial.clone());
    for service in ALL {
        assert_eq!(store.entry(service), &initial);
    }
}

#[test]
fn get_after_set_returns_the_value_set_and_leaves_the_rest() {
    let initial = status(false, 1, "not yet checked");
    let mut store = ServiceStatus::new(initial.clone());
    let up = status(true, 1_700_000_000, "");
    store.set(Service::from_name("ecom").unwrap(), up.clone());
    let snapshot = store.get();
    assert_eq!(snapshot.entry(Service::Ecom), &up);
    for service in ALL {
        if service != Service::Ecom {
            assert_eq!(snapshot.entry(service), &initial);
        }
    }
    assert_eq!(snapshot, store);
}

#[test]
fn every_service_can_be_set_on_its_own() {
    let initial = status(false, 0, "x");
    for (i, target) in ALL.iter().enumerate() {
        let mut store = ServiceStatus::new(initial.clone());
        let new = status(true, i as i64, "y");
        store.set(*target, new.clone());
        for service in ALL {
            let expected = if service == *target { &new } else { &initial };
            assert_eq!(store.entry(service), expected);
        }
    }
}

#[test]
fn a_snapshot_does_not_change_with_the_store() {
    let mut store = ServiceStatus::new(status(false, 1, "not yet checked"));
    let snapshot = store.get();
    store.set(Service::Ecom, status(true, 2, ""));
    store.set(Service::Smtp, status(false, 3, "timeout"));
    assert_eq!(snapshot, ServiceStatus::new(status(false, 1, "not yet checked")));
    assert_ne!(snapshot, store);
}

#[test]
fn a_later_set_replaces_an_earlier_one() {
    let mut store = ServiceStatus::new(status(false, 1, "a"));
    store.set(Service::Ecom, status(false, 2, "b"));
    store.set(Service::Ecom, status(true, 3, ""));
    assert_eq!(store.entry(Service::Ecom), &status(true, 3, ""));
}

#[test]
fn services_are_known_by_their_names() {
    let names = ["bind_dns", "ad_dns", "smtp", "pop3", "ecom", "splunk"];
    for (service, name) in ALL.iter().zip(names) {
        assert_eq!(service.name(), name);
        assert_eq!(Service::from_name(name), Some(*service));
    }
    for name in ["", "Ecom", "ecom ", "http", "bind-dns"] {
        assert_eq!(Service::from_name(name), None);
    }
}

#[test]
fn a_clone_of_a_status_equals_it() {
    let s = status(true, 42, "Error reading body: eof");
    assert_eq!(s.clone(), s);
}
