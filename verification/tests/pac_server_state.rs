use bypaxdpi::pac::{make_pac_body, PAC_DIRECT_BODY};
use bypaxdpi::server::{PortSearch, PortStep, port_candidates, PacServerState, StartStep, PAC_PORT_END, PAC_PORT_START};

#[test]
fn default_state_is_stopped_and_direct() {
    let s = PacServerState::default();
    assert_eq!(s.pac_body, PAC_DIRECT_BODY);
    assert_eq!(s.pac_port, 0);
    assert_eq!(s.pac_url, "");
    assert!(!s.running);
    assert!(!s.shutdown);
}

#[test]
fn start_stop_restart_cycle() {
    let mut s = PacServerState::default();
    match s.begin_start("192.168.1.20", 8080) {
        StartStep::NeedListener => {}
        StartStep::AlreadyRunning { .. } => panic!("not running yet"),
    }
    assert_eq!(s.pac_body, make_pac_body("192.168.1.20", 8080));
    let response = s.finish_start("192.168.1.20", 8788);
    assert_eq!(response.pac_port, 8788);
    assert_eq!(s.pac_url, "http://192.168.1.20:8788/proxy.pac");
    assert!(s.running && !s.shutdown);

    s.stop();
    assert_eq!(s.pac_body, PAC_DIRECT_BODY);
    assert!(s.running);
    assert_eq!(s.pac_port, 8788);

    match s.begin_start("10.0.0.7", 8081) {
        StartStep::AlreadyRunning { pac_port } => assert_eq!(pac_port, 8788),
        StartStep::NeedListener => panic!("still running"),
    }
    assert_eq!(s.pac_body, make_pac_body("10.0.0.7", 8081));
    assert_eq!(s.pac_url, "http://10.0.0.7:8788/proxy.pac");

    s.force_stop();
    assert_eq!(s.pac_body, PAC_DIRECT_BODY);
    assert!(!s.running && s.shutdown);
    match s.begin_start("10.0.0.7", 8081) {
        StartStep::NeedListener => {}
        StartStep::AlreadyRunning { .. } => panic!("stopped"),
    }
}

#[test]
fn port_ranges() {
    let ports = port_candidates(PAC_PORT_START, PAC_PORT_END);
    assert_eq!(ports.len(), 101);
    assert_eq!(ports[0], 8787);
    assert_eq!(ports[100], 8887);
    assert_eq!(port_candidates(8080, 8090), (8080..=8090).collect::<Vec<u16>>());
    assert_eq!(port_candidates(5, 4), Vec::<u16>::new());
    assert_eq!(port_candidates(65535, 65535), vec![65535]);
}

#[test]
fn listener_ports_end_with_system_choice() {
    let ports = bypaxdpi::server::listener_ports(PAC_PORT_START, PAC_PORT_END);
    assert_eq!(ports.len(), 102);
    assert_eq!(ports[0], 8787);
    assert_eq!(ports[100], 8887);
    assert_eq!(ports[101], 0);
    assert_eq!(bypaxdpi::server::listener_ports(8080, 8090).len(), 12);
    assert_eq!(
        bypaxdpi::server::no_pac_port_error("Address in use"),
        "PAC için uygun port bulunamadı: Address in use"
    );
}

#[test]
fn search_uses_first_port_that_binds() {
    let (mut search, step) = PortSearch::new(8080, 8082);
    assert_eq!(step, PortStep::Try(8080));
    assert!(search.waiting());
    assert_eq!(search.after_bind(false), PortStep::Try(8081));
    assert_eq!(search.after_bind(true), PortStep::Use(8081));
    assert!(!search.waiting());

    let (mut search, _) = PortSearch::new(8080, 8081);
    assert_eq!(search.after_bind(false), PortStep::Try(8081));
    assert_eq!(search.after_bind(false), PortStep::Try(0));
    assert_eq!(search.after_bind(true), PortStep::Use(0));

    let (mut search, _) = PortSearch::new(PAC_PORT_START, PAC_PORT_END);
    let mut step = PortStep::Try(PAC_PORT_START);
    let mut tried = Vec::new();
    while let PortStep::Try(p) = step {
        tried.push(p);
        step = search.after_bind(false);
    }
    assert_eq!(step, PortStep::Exhausted);
    assert_eq!(tried.len(), 102);
    assert_eq!(*tried.last().unwrap(), 0);
}
