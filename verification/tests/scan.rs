use portscan::identify::{ProbeAttempt, ProbeReply};
use portscan::prober::Exchange;
use portscan::scanner::{ScanAction, ScanEvent, ScanRun, Stage, Target};
use portscan::{PortKind, ProbeRegistry, ScanResult, Scanner, TcpScanner};
use std::sync::Arc;

const PROBES: &str = r#"
[[probe]]
name = "http"
ports = [80, 8080]
payload = "GET / HTTP/1.0\r\n\r\n"
match_regex = "Server: [^\r\n]*"

[[probe]]
name = "ssh"
ports = [22]
match_regex = "SSH-[0-9.]+"

[[probe]]
name = "proxy"
ports = [8080]
match_regex = "Via: [^\r\n]*"
"#;

fn localhost() -> Target {
    Target::V4(0x7f00_0001)
}

fn scanner(ports: PortKind, banner_grab: bool) -> TcpScanner {
    let registry = Arc::new(ProbeRegistry::new(Some(PROBES)).unwrap());
    TcpScanner::new(&"127.0.0.1".to_string(), Some(localhost()), ports, banner_grab, registry)
        .unwrap()
}

fn open(port: u16, banner: &str) -> ScanResult {
    ScanResult::TcpOpen(port, Some(banner.to_string()))
}

fn bare(port: u16) -> ScanResult {
    ScanResult::TcpOpen(port, None)
}

fn response(attempt: usize, text: &str) -> ProbeReply {
    ProbeReply { attempt, exchange: Exchange::Response(text.as_bytes().to_vec()) }
}

fn begin(scanner: &TcpScanner) -> (ScanRun, Vec<u16>) {
    match scanner.execute(ScanRun::new(), ScanEvent::Start) {
        (run, ScanAction::Connect(ports)) => (run, ports),
        (_, action) => panic!("a scan began with {:?}", action),
    }
}

#[test]
fn one_of_two_listed_ports_is_reachable() {
    let scanner = scanner(PortKind::List(vec![22, 9999]), false);
    assert_eq!(scanner.get_ports(), vec![22, 9999]);
    assert_eq!(scanner.scan(&vec![22]), vec![bare(22)]);
    let (run, ports) = begin(&scanner);
    assert_eq!(ports, vec![22, 9999]);
    let (run, action) = scanner.execute(run, ScanEvent::Connected(vec![22]));
    assert_eq!(action, ScanAction::Return(vec![bare(22)]));
    assert_eq!(run.stage(), Stage::Finished);
}

#[test]
fn one_port_of_a_range_is_open() {
    let scanner = scanner(PortKind::Range(78, 82), false);
    assert_eq!(scanner.get_ports(), vec![78, 79, 80, 81, 82]);
    assert_eq!(scanner.scan(&vec![80]), vec![bare(80)]);
    let (run, ports) = begin(&scanner);
    assert_eq!(ports, vec![78, 79, 80, 81, 82]);
    let (_, action) = scanner.execute(run, ScanEvent::Connected(vec![80]));
    assert_eq!(action, ScanAction::Return(vec![bare(80)]));
}

#[test]
fn scan_sorts_whatever_order_the_ports_reported_in() {
    let scanner = scanner(PortKind::Range(1, 1024), false);
    assert_eq!(scanner.scan(&vec![443, 22, 80]), vec![bare(22), bare(80), bare(443)]);
    assert_eq!(scanner.scan(&vec![]), vec![]);
}

#[test]
fn scan_returns_a_port_once_however_often_it_is_listed() {
    let scanner = scanner(PortKind::List(vec![80, 22, 80, 80]), false);
    assert_eq!(scanner.get_ports(), vec![80, 22, 80, 80]);
    assert_eq!(scanner.scan(&vec![80, 22, 80, 80]), vec![bare(22), bare(80)]);
}

#[test]
fn an_inverted_range_scans_no_port() {
    let scanner = scanner(PortKind::Range(82, 78), false);
    let (run, ports) = begin(&scanner);
    assert_eq!(ports, Vec::<u16>::new());
    let (_, action) = scanner.execute(run, ScanEvent::Connected(vec![]));
    assert_eq!(action, ScanAction::Return(vec![]));
}

#[test]
fn scanner_gives_back_what_it_was_made_of() {
    let registry = Arc::new(ProbeRegistry::new(Some(PROBES)).unwrap());
    let target = Target::V6(1);
    let made = TcpScanner::new(
        &"::1".to_string(),
        Some(target),
        PortKind::List(vec![5, 3]),
        true,
        registry.clone(),
    )
    .unwrap();
    assert_eq!(made.get_target(), target);
    assert!(made.is_banner_grab());
    assert_eq!(made.get_ports(), vec![5, 3]);
    assert!(Arc::ptr_eq(&made.get_probers(), &registry));
    assert!(!scanner(PortKind::List(vec![]), false).is_banner_grab());
}

#[test]
fn an_address_that_is_no_ip_address_makes_no_scanner() {
    let registry = Arc::new(ProbeRegistry::new(Some(PROBES)).unwrap());
    let made =
        TcpScanner::new(&"example.org".to_string(), None, PortKind::Range(1, 2), false, registry);
    assert_eq!(made.unwrap_err(), "Invalid Ip Address: example.org");
}

#[test]
fn without_banner_grabbing_no_port_is_probed() {
    let scanner = scanner(PortKind::List(vec![22, 80]), false);
    let (run, _) = begin(&scanner);
    let (run, action) = scanner.execute(run, ScanEvent::Connected(vec![80, 22]));
    assert_eq!(action, ScanAction::Return(vec![bare(22), bare(80)]));
    assert_eq!(run.stage(), Stage::Finished);
}

#[test]
fn with_banner_grabbing_each_open_port_is_identified_in_turn() {
    let scanner = scanner(PortKind::List(vec![8080, 443, 22, 21]), true);
    let (run, ports) = begin(&scanner);
    assert_eq!(run.stage(), Stage::Connecting);
    assert_eq!(ports, vec![8080, 443, 22, 21]);

    let (run, action) = scanner.execute(run, ScanEvent::Connected(vec![8080, 443, 22, 21]));
    assert_eq!(run.stage(), Stage::Probing);
    assert_eq!(action, ScanAction::Probe(22, vec![ProbeAttempt { probe: 1, payload: None }]));

    let (run, action) =
        scanner.execute(run, ScanEvent::Probed(vec![response(0, "SSH-2.0-OpenSSH_9.6\r\n")]));
    assert_eq!(run.stage(), Stage::Probing);
    assert_eq!(
        action,
        ScanAction::Probe(
            8080,
            vec![
                ProbeAttempt { probe: 0, payload: Some("GET / HTTP/1.0\r\n\r\n".to_string()) },
                ProbeAttempt { probe: 2, payload: None },
            ]
        )
    );

    let replies = vec![
        response(1, "HTTP/1.0 200 OK\r\nVia: 1.1 cache\r\n\r\n"),
        response(0, "HTTP/1.0 200 OK\r\nServer: TestSrv\r\n\r\n"),
    ];
    let (run, action) = scanner.execute(run, ScanEvent::Probed(replies));
    assert_eq!(run.stage(), Stage::Finished);
    assert_eq!(
        action,
        ScanAction::Return(vec![
            bare(21),
            open(22, "SSH-2.0"),
            bare(443),
            open(8080, "Server: TestSrv"),
        ])
    );
}

#[test]
fn the_banner_depends_on_which_report_arrives_last() {
    let scanner = scanner(PortKind::List(vec![8080]), true);
    let via = response(1, "Via: 1.1 cache\r\n");
    let server = response(0, "Server: TestSrv\r\n");
    let (run, _) = begin(&scanner);
    let (run, _) = scanner.execute(run, ScanEvent::Connected(vec![8080]));
    let (_, action) = scanner.execute(run, ScanEvent::Probed(vec![server, via]));
    assert_eq!(action, ScanAction::Return(vec![open(8080, "Via: 1.1 cache")]));

    let via = response(1, "Via: 1.1 cache\r\n");
    let server = response(0, "Server: TestSrv\r\n");
    let (run, _) = begin(&scanner);
    let (run, _) = scanner.execute(run, ScanEvent::Connected(vec![8080]));
    let (_, action) = scanner.execute(run, ScanEvent::Probed(vec![via, server]));
    assert_eq!(action, ScanAction::Return(vec![open(8080, "Server: TestSrv")]));
}

#[test]
fn a_race_without_banner_leaves_the_port_open() {
    let scanner = scanner(PortKind::List(vec![22, 80]), true);
    let (run, _) = begin(&scanner);
    let (run, action) = scanner.execute(run, ScanEvent::Connected(vec![80, 22]));
    assert_eq!(action, ScanAction::Probe(22, vec![ProbeAttempt { probe: 1, payload: None }]));
    let (run, action) = scanner.execute(run, ScanEvent::Probed(vec![]));
    assert_eq!(
        action,
        ScanAction::Probe(
            80,
            vec![ProbeAttempt { probe: 0, payload: Some("GET / HTTP/1.0\r\n\r\n".to_string()) }]
        )
    );
    let replies = vec![
        response(0, "no banner here"),
        ProbeReply { attempt: 0, exchange: Exchange::Unreachable },
    ];
    let (_, action) = scanner.execute(run, ScanEvent::Probed(replies));
    assert_eq!(action, ScanAction::Return(vec![bare(22), bare(80)]));
}

#[test]
fn open_ports_without_probes_are_returned_at_once() {
    let scanner = scanner(PortKind::Range(440, 445), true);
    let (run, _) = begin(&scanner);
    let (run, action) = scanner.execute(run, ScanEvent::Connected(vec![445, 443]));
    assert_eq!(action, ScanAction::Return(vec![bare(443), bare(445)]));
    assert_eq!(run.stage(), Stage::Finished);
}

#[test]
fn nothing_open_returns_nothing() {
    for banner_grab in [false, true] {
        let scanner = scanner(PortKind::Range(1, 100), banner_grab);
        let (run, _) = begin(&scanner);
        let (run, action) = scanner.execute(run, ScanEvent::Connected(vec![]));
        assert_eq!(action, ScanAction::Return(vec![]));
        assert_eq!(run.stage(), Stage::Finished);
    }
}

#[test]
fn an_event_out_of_turn_changes_nothing() {
    let scanner = scanner(PortKind::List(vec![22]), true);
    let (run, action) = scanner.execute(ScanRun::new(), ScanEvent::Connected(vec![22]));
    assert_eq!(action, ScanAction::Ignore);
    assert_eq!(run.stage(), Stage::Ready);
    let (run, action) = scanner.execute(run, ScanEvent::Probed(vec![]));
    assert_eq!(action, ScanAction::Ignore);
    assert_eq!(run.stage(), Stage::Ready);

    let (run, _) = begin(&scanner);
    let (run, action) = scanner.execute(run, ScanEvent::Start);
    assert_eq!(action, ScanAction::Ignore);
    let (run, action) = scanner.execute(run, ScanEvent::Probed(vec![response(0, "SSH-2.0")]));
    assert_eq!(action, ScanAction::Ignore);
    assert_eq!(run.stage(), Stage::Connecting);

    let (run, _) = scanner.execute(run, ScanEvent::Connected(vec![22]));
    let (run, action) = scanner.execute(run, ScanEvent::Connected(vec![80]));
    assert_eq!(action, ScanAction::Ignore);
    let (run, action) = scanner.execute(run, ScanEvent::Start);
    assert_eq!(action, ScanAction::Ignore);
    assert_eq!(run.stage(), Stage::Probing);

    let (run, action) = scanner.execute(run, ScanEvent::Probed(vec![response(0, "SSH-2.0")]));
    assert_eq!(action, ScanAction::Return(vec![open(22, "SSH-2.0")]));
    let (run, action) = scanner.execute(run, ScanEvent::Probed(vec![]));
    assert_eq!(action, ScanAction::Ignore);
    let (run, action) = scanner.execute(run, ScanEvent::Start);
    assert_eq!(action, ScanAction::Ignore);
    assert_eq!(run.stage(), Stage::Finished);
}

#[test]
fn probe_outside_a_race_changes_nothing() {
    let scanner = scanner(PortKind::List(vec![22]), true);
    let (run, action) = scanner.probe(ScanRun::new(), &vec![response(0, "SSH-2.0")]);
    assert_eq!(action, ScanAction::Ignore);
    assert_eq!(run.stage(), Stage::Ready);
}

#[test]
fn probe_settles_the_port_of_the_race() {
    let scanner = scanner(PortKind::List(vec![22]), true);
    let (run, _) = begin(&scanner);
    let (run, _) = scanner.execute(run, ScanEvent::Connected(vec![22]));
    let (run, action) = scanner.probe(run, &vec![response(0, "SSH-1.99 SSH-2.0")]);
    assert_eq!(action, ScanAction::Return(vec![open(22, "SSH-1.99SSH-2.0")]));
    assert_eq!(run.stage(), Stage::Finished);
}

#[test]
fn the_time_limits_are_a_second_and_half_a_second() {
    assert_eq!(portscan::scanner::CONNECTION_TIMEOUT_MS, 1000);
    assert_eq!(portscan::scanner::EXCHANGE_TIMEOUT_MS, 500);
}
