use feed_scheduler::mockito::{Server, State};

fn server() -> Server {
    Server { host: "localhost".to_string(), port: 5001 }
}

#[test]
fn url_is_scheme_host_and_port() {
    assert_eq!(server().url(), "http://localhost:5001");
}

#[test]
fn url_renders_any_port() {
    let mut s = server();
    s.port = 0;
    assert_eq!(s.url(), "http://localhost:0");
    s.port = 65535;
    assert_eq!(s.url(), "http://localhost:65535");
    s.port = 80;
    assert_eq!(s.url(), "http://localhost:80");
}

#[test]
fn builder_records_the_expectation() {
    let s = server();
    let b = s.mock("GET", "/gtfs");
    assert_eq!(b.method, "GET");
    assert_eq!(b.path, "/gtfs");
    assert_eq!(b.status, 200);
    assert!(b.body.is_empty());
    let m = b.with_status(404).with_body(vec![1, 2, 3]).create();
    assert_eq!(m.method, "GET");
    assert_eq!(m.path, "/gtfs");
    assert_eq!(m.status, 404);
    assert_eq!(m.body, vec![1, 2, 3]);
}

#[test]
fn created_mock_reports_hit() {
    let m = server().mock("GET", "/gtfs").with_status(200).create();
    assert!(m.assert_hit());
}

#[test]
fn state_starts_empty() {
    let s = State::new();
    assert_eq!(s.mocks.len(), 0);
    let d = State::default();
    assert_eq!(d.mocks.len(), 0);
}
