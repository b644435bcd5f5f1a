use service_scan::config::{DNSConfig, HTTPConfig, ScanConfig};
use service_scan::ip_pool::{IPAddrPool, PoolError};
use service_scan::scanner::{rocket, rocket_at, Action, DeviceCommand, Event, Scanner};
use service_scan::status::{Service, Status, Timestamp};

fn config(pools: &[&str]) -> ScanConfig {
    let dns = DNSConfig { ip: "10.9.9.9".to_string(), domain: "example.org".to_string(), response: 1 };
    let http = HTTPConfig {
        ip: "10.1.2.3".to_string(),
        port: 80,
        path: "/shop".to_string(),
        response: "ok".to_string(),
    };
    ScanConfig {
        bind_dns: dns.clone(),
        ad_dns: dns,
        splunk: http.clone(),
        ecom: http,
        time: 30,
        ip_pools: pools.iter().map(|p| IPAddrPool::try_from(p.to_string()).unwrap()).collect(),
        dev: "eth0".to_string(),
    }
}

fn exited(code: Option<i32>, output: &str) -> Event {
    Event::Exited { code, output: output.to_string() }
}

fn up() -> Status {
    Status { up: true, last: Timestamp { secs: 77, nanos: 0 }, failure_reason: String::new() }
}

#[test]
fn the_commands_have_the_arguments_of_the_ip_program() {
    let add = DeviceCommand::Add { dev: "eth0", addr: 0x0A00_0042 };
    assert_eq!(add.args(), ["addr", "add", "dev", "eth0", "10.0.0.66/32"]);
    let delete = DeviceCommand::Delete { dev: "wlan1", addr: 0xC0A8_0101 };
    assert_eq!(delete.args(), ["addr", "del", "dev", "wlan1", "192.168.1.1/32"]);
    let show = DeviceCommand::Show { dev: "eth0" };
    assert_eq!(show.args(), ["addr", "show", "dev", "eth0"]);
}

#[test]
fn a_scan_adds_probes_deletes_and_then_commits() {
    let config = config(&["10.0.0.0/8"]);
    let mut scanner = Scanner::new(&config);
    let addr = match scanner.step(Event::Tick) {
        Some(Action::Run(DeviceCommand::Add { dev: "eth0", addr })) => addr,
        other => panic!("{:?}", other),
    };
    assert_eq!(addr >> 8, 0x0A_0000);
    assert_eq!(
        scanner.step(exited(Some(0), "")),
        Some(Action::Probe { source: addr, url: "http://10.1.2.3/shop".to_string() })
    );
    assert_eq!(
        scanner.step(Event::Probed { ecom: up() }),
        Some(Action::Run(DeviceCommand::Delete { dev: "eth0", addr }))
    );
    assert_eq!(scanner.step(exited(Some(0), "")), Some(Action::Commit { ecom: up() }));
    assert!(!scanner.stopped());
    assert!(matches!(scanner.step(Event::Tick), Some(Action::Run(DeviceCommand::Add { .. }))));
}

#[test]
fn a_given_draw_selects_the_address() {
    let config = config(&["10.0.0.0/8"]);
    let mut scanner = Scanner::new(&config);
    assert_eq!(
        scanner.step_with(Event::Tick, 0x1234_5678),
        Some(Action::Run(DeviceCommand::Add { dev: "eth0", addr: 0x0A00_0078 }))
    );
}

#[test]
fn scans_take_the_pools_in_turn() {
    let config = config(&["10.0.0.1/0", "10.0.0.2/0", "10.0.0.3/0"]);
    let mut scanner = Scanner::new(&config);
    let mut used = Vec::new();
    for _ in 0..6 {
        let addr = match scanner.step(Event::Tick) {
            Some(Action::Run(DeviceCommand::Add { addr, .. })) => addr,
            other => panic!("{:?}", other),
        };
        used.push(addr);
        assert!(matches!(scanner.step(exited(Some(0), "")), Some(Action::Probe { .. })));
        assert!(matches!(scanner.step(Event::Probed { ecom: up() }), Some(Action::Run(_))));
        assert!(matches!(scanner.step(exited(Some(0), "")), Some(Action::Commit { .. })));
    }
    assert_eq!(used, [0x0A00_0001, 0x0A00_0002, 0x0A00_0003, 0x0A00_0001, 0x0A00_0002, 0x0A00_0003]);
}

#[test]
fn without_pools_a_scan_goes_out_from_the_listed_address() {
    let config = config(&[]);
    let mut scanner = Scanner::new(&config);
    for _ in 0..3 {
        assert_eq!(scanner.step(Event::Tick), Some(Action::Run(DeviceCommand::Show { dev: "eth0" })));
        assert_eq!(
            scanner.step(exited(Some(0), "2: eth0\n  inet 192.168.1.5/24 brd 192.168.1.255")),
            Some(Action::Probe { source: 0xC0A8_0105, url: "http://10.1.2.3/shop".to_string() })
        );
        assert_eq!(scanner.step(Event::Probed { ecom: up() }), Some(Action::Commit { ecom: up() }));
    }
}

#[test]
fn a_failed_add_ends_the_run() {
    let config = config(&["10.0.0.0/8"]);
    let mut scanner = Scanner::new(&config);
    scanner.step(Event::Tick);
    assert_eq!(
        scanner.step(exited(Some(2), "")),
        Some(Action::Abort(PoolError::AddressAssignmentFailed))
    );
    assert!(scanner.stopped());
    assert_eq!(scanner.step(Event::Tick), None);
    assert_eq!(scanner.step(exited(Some(0), "")), None);
    assert_eq!(scanner.step(Event::Probed { ecom: up() }), None);
}

#[test]
fn a_failed_delete_ends_the_run_and_holds_the_result_back() {
    let config = config(&["10.0.0.0/8"]);
    let mut scanner = Scanner::new(&config);
    scanner.step(Event::Tick);
    scanner.step(exited(None, ""));
    scanner.step(Event::Probed { ecom: up() });
    assert_eq!(
        scanner.step(exited(Some(1), "")),
        Some(Action::Abort(PoolError::AddressReleaseFailed))
    );
    assert!(scanner.stopped());
}

#[test]
fn a_listing_without_an_address_ends_the_run() {
    let config = config(&[]);
    let mut scanner = Scanner::new(&config);
    scanner.step(Event::Tick);
    assert_eq!(
        scanner.step(exited(Some(0), "2: eth0: <NO-CARRIER>")),
        Some(Action::Abort(PoolError::NoAddressFound))
    );
    assert!(scanner.stopped());
}

#[test]
fn a_failed_listing_ends_the_run() {
    let config = config(&[]);
    let mut scanner = Scanner::new(&config);
    scanner.step(Event::Tick);
    assert_eq!(
        scanner.step(exited(Some(1), "inet 192.168.1.5/24")),
        Some(Action::Abort(PoolError::AddressAssignmentFailed))
    );
}

#[test]
fn an_event_that_does_not_belong_to_the_state_changes_nothing() {
    let config = config(&["10.0.0.7/0"]);
    let mut scanner = Scanner::new(&config);
    assert_eq!(scanner.step(exited(Some(0), "")), None);
    assert_eq!(scanner.step(Event::Probed { ecom: up() }), None);
    assert!(matches!(scanner.step(Event::Tick), Some(Action::Run(DeviceCommand::Add { .. }))));
    assert_eq!(scanner.step(Event::Tick), None);
    assert_eq!(scanner.step(Event::Probed { ecom: up() }), None);
    assert!(matches!(scanner.step(exited(Some(0), "")), Some(Action::Probe { .. })));
    assert_eq!(scanner.step(Event::Tick), None);
    assert_eq!(scanner.step(exited(Some(0), "")), None);
    assert_eq!(
        scanner.step(Event::Probed { ecom: up() }),
        Some(Action::Run(DeviceCommand::Delete { dev: "eth0", addr: 0x0A00_0007 }))
    );
    assert_eq!(scanner.step(Event::Probed { ecom: up() }), None);
    assert_eq!(scanner.step(exited(Some(0), "")), Some(Action::Commit { ecom: up() }));
}

#[test]
fn a_launch_starts_with_placeholders_and_an_idle_machine() {
    let config = config(&["10.0.0.0/8"]);
    let now = Timestamp { secs: 1_700_000_000, nanos: 1 };
    let (store, mut scanner) = rocket_at(&config, now);
    let placeholder =
        Status { up: false, last: now, failure_reason: "not yet checked".to_string() };
    for service in [Service::BindDns, Service::AdDns, Service::Smtp, Service::Pop3,
        Service::Ecom, Service::Splunk]
    {
        assert_eq!(store.entry(service), &placeholder);
    }
    assert!(!scanner.stopped());
    assert!(matches!(scanner.step(Event::Tick), Some(Action::Run(DeviceCommand::Add { .. }))));
}

#[test]
fn a_launch_stamps_the_placeholders_with_the_time_of_the_call() {
    let config = config(&[]);
    let before = chrono::Utc::now().timestamp();
    let (store, _scanner) = rocket(&config);
    let after = chrono::Utc::now().timestamp();
    let first = store.entry(Service::Ecom).clone();
    assert!(!first.up);
    assert_eq!(first.failure_reason, "not yet checked");
    assert!(before <= first.last.secs && first.last.secs <= after);
    assert_eq!(store.entry(Service::Smtp), &first);
}
