use netscan::probe::{
    liveness_ports, liveness_verdict, open_ports_from_probes, service_ports, ConnectOutcome,
    PortProbe,
};

#[test]
fn liveness_port_list_is_fixed() {
    assert_eq!(liveness_ports(), vec![22, 80, 135, 139, 443, 445]);
}

#[test]
fn service_port_list_is_fixed() {
    let ports = service_ports();
    assert_eq!(
        ports,
        vec![21, 22, 23, 25, 53, 80, 110, 135, 139, 143, 443, 445, 993, 995, 3389, 5985, 5986]
    );
    assert_eq!(ports.len(), 17);
}

#[test]
fn silent_host_with_failed_ping_is_dead() {
    let fast = vec![ConnectOutcome::TimedOut; 6];
    assert!(!liveness_verdict(&fast, false));
}

#[test]
fn one_completed_connect_is_alive() {
    let fast = vec![
        ConnectOutcome::TimedOut,
        ConnectOutcome::Completed,
        ConnectOutcome::TimedOut,
    ];
    assert!(liveness_verdict(&fast, false));
}

#[test]
fn ping_fallback_decides_when_ports_are_silent() {
    let fast = vec![ConnectOutcome::TimedOut; 6];
    assert!(liveness_verdict(&fast, true));
}

#[test]
fn empty_probe_list_falls_back_to_ping() {
    assert!(!liveness_verdict(&vec![], false));
    assert!(liveness_verdict(&vec![], true));
}

#[test]
fn host_with_only_ssh_open_reports_only_port_22() {
    let probes: Vec<PortProbe> = service_ports()
        .into_iter()
        .map(|port| PortProbe { port, completed: port == 22 })
        .collect();
    assert_eq!(open_ports_from_probes(&probes), vec![22]);
}

#[test]
fn open_ports_follow_recorded_order() {
    let probes = vec![
        PortProbe { port: 443, completed: true },
        PortProbe { port: 21, completed: false },
        PortProbe { port: 22, completed: true },
    ];
    assert_eq!(open_ports_from_probes(&probes), vec![443, 22]);
}

#[test]
fn fully_closed_host_reports_no_ports() {
    let probes: Vec<PortProbe> = service_ports()
        .into_iter()
        .map(|port| PortProbe { port, completed: false })
        .collect();
    assert!(open_ports_from_probes(&probes).is_empty());
}
