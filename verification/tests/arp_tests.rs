use netscan::arp::parse_arp_output;

const LINUX_OUTPUT: &str = "Address                  HWtype  HWaddress           Flags Mask            Iface\n\
192.168.1.7              ether   aa:bb:cc:dd:ee:ff   C                     eth0\n";

#[test]
fn extracts_mac_from_matching_line() {
    let mac = parse_arp_output(LINUX_OUTPUT, "192.168.1.7");
    assert_eq!(mac.as_deref(), Some("aa:bb:cc:dd:ee:ff"));
}

#[test]
fn other_address_yields_nothing() {
    assert!(parse_arp_output(LINUX_OUTPUT, "192.168.1.8").is_none());
}

#[test]
fn malformed_mac_yields_nothing() {
    let out = "192.168.1.7 ether aa:bb:cc:dd:ee C eth0\n";
    assert!(parse_arp_output(out, "192.168.1.7").is_none());
}

#[test]
fn mac_is_found_from_third_field_onward() {
    let out = "? 192.168.1.7 at aa:bb:cc:dd:ee:ff on en0\n";
    let mac = parse_arp_output(out, "192.168.1.7");
    assert_eq!(mac.as_deref(), Some("aa:bb:cc:dd:ee:ff"));
}

#[test]
fn mac_in_second_field_is_not_taken() {
    let out = "192.168.1.7 aa:bb:cc:dd:ee:ff\n";
    assert!(parse_arp_output(out, "192.168.1.7").is_none());
}

#[test]
fn first_matching_line_wins() {
    let out = "192.168.1.7 ether 11:22:33:44:55:66 C eth0\n\
192.168.1.7 ether aa:bb:cc:dd:ee:ff C eth1\n";
    let mac = parse_arp_output(out, "192.168.1.7");
    assert_eq!(mac.as_deref(), Some("11:22:33:44:55:66"));
}

#[test]
fn empty_output_yields_nothing() {
    assert!(parse_arp_output("", "192.168.1.7").is_none());
}
