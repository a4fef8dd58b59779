use netscan::host::{build_host_record, choose_hostname, smb_share_hints};

#[test]
fn smb_port_445_attaches_share_hints() {
    let r = build_host_record("192.168.1.5".to_string(), None, None, vec![80, 445]);
    let names: Vec<&str> = r.smb_shares.iter().map(|s| s.as_str()).collect();
    assert_eq!(
        names,
        vec!["C$", "ADMIN$", "IPC$", "shared", "public", "media", "downloads"]
    );
}

#[test]
fn smb_port_139_attaches_share_hints() {
    let r = build_host_record("192.168.1.5".to_string(), None, None, vec![139]);
    assert_eq!(r.smb_shares.len(), 7);
}

#[test]
fn no_smb_port_means_no_share_hints() {
    let r = build_host_record("192.168.1.5".to_string(), None, None, vec![22, 80, 443]);
    assert!(r.smb_shares.is_empty());
    let closed = build_host_record("192.168.1.6".to_string(), None, None, vec![]);
    assert!(closed.smb_shares.is_empty());
}

#[test]
fn record_keeps_findings_and_never_has_a_vendor() {
    let r = build_host_record(
        "10.0.0.9".to_string(),
        Some("printer.local".to_string()),
        Some("aa:bb:cc:dd:ee:ff".to_string()),
        vec![9100],
    );
    assert_eq!(r.ip.as_str(), "10.0.0.9");
    assert_eq!(r.hostname.as_deref(), Some("printer.local"));
    assert_eq!(r.mac_address.as_deref(), Some("aa:bb:cc:dd:ee:ff"));
    assert!(r.vendor.is_none());
    assert_eq!(r.open_ports, vec![9100]);
}

#[test]
fn hint_list_is_the_fixed_candidate_set() {
    let hints = smb_share_hints();
    assert_eq!(hints.len(), 7);
    assert_eq!(hints[0].as_str(), "C$");
    assert_eq!(hints[6].as_str(), "downloads");
}

#[test]
fn hostname_is_the_first_resolved_name() {
    assert_eq!(choose_hostname(vec![]), None);
    assert_eq!(
        choose_hostname(vec!["a.local".to_string(), "b.local".to_string()]).as_deref(),
        Some("a.local")
    );
}
