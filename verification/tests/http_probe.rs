use service_scan::config::HTTPConfig;
use service_scan::probe::{scan_http, scan_http_at, status_is_success, HttpAction, HttpEvent};
use service_scan::status::{Status, Timestamp};

const NOW: Timestamp = Timestamp { secs: 1_700_000_000, nanos: 250 };

fn report(up: bool, reason: &str) -> HttpAction {
    HttpAction::Report(Status { up, last: NOW, failure_reason: reason.to_string() })
}

#[test]
fn a_response_of_200_is_up_once_the_body_is_read() {
    assert_eq!(scan_http_at(HttpEvent::Responded(200), NOW), HttpAction::ReadBody);
    assert_eq!(scan_http_at(HttpEvent::BodyRead, NOW), report(true, ""));
}

#[test]
fn a_response_of_500_is_down_and_names_the_code() {
    assert_eq!(scan_http_at(HttpEvent::Responded(500), NOW), report(false, "Get Failed: 500"));
}

#[test]
fn a_refused_connection_is_down_and_describes_the_error() {
    let described = "reqwest::Error { kind: Request, source: ConnectionRefused }".to_string();
    assert_eq!(
        scan_http_at(HttpEvent::Failed(described.clone()), NOW),
        report(false, &format!("Get Failed: {}", described))
    );
}

#[test]
fn a_body_that_cannot_be_read_is_still_up() {
    assert_eq!(
        scan_http_at(HttpEvent::BodyFailed("eof".to_string()), NOW),
        report(true, "Error reading body: eof")
    );
}

#[test]
fn every_code_decides_as_its_class_says() {
    for code in 0u16..=1000 {
        let action = scan_http_at(HttpEvent::Responded(code), NOW);
        if (200..=299).contains(&code) {
            assert!(status_is_success(code));
            assert_eq!(action, HttpAction::ReadBody);
        } else {
            assert!(!status_is_success(code));
            assert_eq!(action, report(false, &format!("Get Failed: {}", code)));
        }
    }
    assert_eq!(scan_http_at(HttpEvent::Responded(65535), NOW), report(false, "Get Failed: 65535"));
}

#[test]
fn success_and_the_written_code_agree_with_reqwest() {
    for code in 100u16..=999 {
        let status = reqwest::StatusCode::from_u16(code).unwrap();
        assert_eq!(status_is_success(code), status.is_success());
        if !status.is_success() {
            assert_eq!(
                scan_http_at(HttpEvent::Responded(code), NOW),
                report(false, &format!("Get Failed: {:?}", status))
            );
        }
    }
}

#[test]
fn scan_http_stamps_the_status_with_the_time_of_the_call() {
    let before = chrono::Utc::now().timestamp();
    let action = scan_http(HttpEvent::Responded(404));
    let after = chrono::Utc::now().timestamp();
    match action {
        HttpAction::Report(status) => {
            assert!(!status.up);
            assert_eq!(status.failure_reason, "Get Failed: 404");
            assert!(before <= status.last.secs && status.last.secs <= after);
            assert!(status.last.nanos < 2_000_000_000);
        }
        HttpAction::ReadBody => panic!("a final status was due"),
    }
    assert_eq!(scan_http(HttpEvent::Responded(200)), HttpAction::ReadBody);
}

#[test]
fn the_url_is_made_of_address_and_path() {
    let config = HTTPConfig {
        ip: "10.1.2.3".to_string(),
        port: 8080,
        path: "/index.html".to_string(),
        response: "Welcome".to_string(),
    };
    assert_eq!(config.url(), "http://10.1.2.3/index.html");
    assert_eq!(config.clone().url(), "http://10.1.2.3/index.html");
}
