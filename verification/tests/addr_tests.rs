use netscan::addr::{format_ipv4, AddressRange};
use netscan::order::{str_eq, str_lt};

#[test]
fn format_renders_dotted_quad() {
    assert_eq!(format_ipv4(0xC0A8_0102).as_str(), "192.168.1.2");
    assert_eq!(format_ipv4(0).as_str(), "0.0.0.0");
    assert_eq!(format_ipv4(0xFFFF_FFFF).as_str(), "255.255.255.255");
    assert_eq!(format_ipv4(0x0A00_000A).as_str(), "10.0.0.10");
    assert_eq!(format_ipv4(0xAC10_FE01).as_str(), "172.16.254.1");
}

#[test]
fn derive_masks_host_octet_to_zero() {
    let r = AddressRange::derive(0xC0A8_0115);
    assert_eq!(r.base, 0xC0A8_0100);
    let aligned = AddressRange::derive(0x0A00_0100);
    assert_eq!(aligned.base, 0x0A00_0100);
}

#[test]
fn block_enumerates_exactly_256_addresses() {
    let r = AddressRange::derive(0xC0A8_0115);
    let addrs = r.addresses();
    assert_eq!(addrs.len(), 256);
    assert_eq!(addrs[0], 0xC0A8_0100);
    assert_eq!(addrs[255], 0xC0A8_01FF);
    for (i, a) in addrs.iter().enumerate() {
        assert_eq!(*a, 0xC0A8_0100 + i as u32);
    }
}

#[test]
fn top_block_enumerates_without_overflow() {
    let r = AddressRange::derive(0xFFFF_FF42);
    let addrs = r.addresses();
    assert_eq!(addrs.len(), 256);
    assert_eq!(addrs[255], 0xFFFF_FFFF);
}

#[test]
fn string_order_is_lexicographic_not_numeric() {
    assert!(str_lt("192.168.1.10", "192.168.1.2"));
    assert!(!str_lt("192.168.1.2", "192.168.1.10"));
    assert!(!str_lt("192.168.1.2", "192.168.1.2"));
    assert!(str_lt("", "0"));
}

#[test]
fn string_equality_is_exact() {
    assert!(str_eq("192.168.1.2", "192.168.1.2"));
    assert!(!str_eq("192.168.1.2", "192.168.1.20"));
    assert!(str_eq("", ""));
}
