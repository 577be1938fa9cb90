use webcam_direct::ip_range::{DhcpIpRange, IpRangeError};

#[test]
fn test_new_valid_range() {
    let range = DhcpIpRange::new("192.168.1.10", "192.168.1.20");
    assert!(range.is_ok());
}

#[test]
fn test_new_invalid_start_ip() {
    let range = DhcpIpRange::new("192.168.1.0", "192.168.1.20");
    assert!(range.is_err());
}

#[test]
fn test_new_invalid_end_ip() {
    let range = DhcpIpRange::new("192.168.1.10", "192.168.1.255");
    assert!(range.is_err());
}

#[test]
fn test_new_router_ip() {
    let range = DhcpIpRange::new("192.168.1.1", "192.168.1.20");
    assert!(range.is_err());
}

#[test]
fn test_new_different_subnets() {
    let range = DhcpIpRange::new("192.168.1.10", "192.168.2.20");
    assert!(range.is_err());
}

#[test]
fn test_new_start_greater_than_end() {
    let range = DhcpIpRange::new("192.168.1.20", "192.168.1.10");
    assert!(range.is_err());
}

#[test]
fn test_new_invalid_ip_format() {
    let range = DhcpIpRange::new("192.168.1.abc", "192.168.1.20");
    assert!(range.is_err());
}

#[test]
fn test_new_invalid_end_ip_format() {
    let range = DhcpIpRange::new("192.168.1.4", "192.168.1.abc");
    assert!(range.is_err());
}

#[test]
fn test_get_interface_ip() {
    let range = DhcpIpRange::new("192.168.1.10", "192.168.1.20").unwrap();
    assert_eq!(range.get_router_ip(), "192.168.1.1");
}

#[test]
fn test_get_start_ip() {
    let range = DhcpIpRange::new("192.168.1.10", "192.168.1.20").unwrap();
    assert_eq!(range.get_start_ip(), "192.168.1.10");
}

#[test]
fn test_get_end_ip() {
    let range = DhcpIpRange::new("192.168.1.10", "192.168.1.20").unwrap();
    assert_eq!(range.get_end_ip(), "192.168.1.20");
}

#[test]
fn range_errors_name_the_rule() {
    assert_eq!(DhcpIpRange::new("1.2.3", "1.2.3.4").err(), Some(IpRangeError::InvalidStartIp));
    assert_eq!(DhcpIpRange::new("1.2.3.4", "1.2.3.4.5").err(), Some(IpRangeError::InvalidEndIp));
    assert_eq!(DhcpIpRange::new("10.0.0.010", "10.0.0.20").err(), Some(IpRangeError::InvalidStartIp));
    assert_eq!(DhcpIpRange::new("10.0.0.256", "10.0.0.20").err(), Some(IpRangeError::InvalidStartIp));
    assert_eq!(DhcpIpRange::new("10.0.0..", "10.0.0.20").err(), Some(IpRangeError::InvalidStartIp));
    assert_eq!(DhcpIpRange::new("10.0.0.0", "10.0.0.20").err(), Some(IpRangeError::NetworkOrBroadcast));
    assert_eq!(DhcpIpRange::new("10.0.0.1", "10.0.0.20").err(), Some(IpRangeError::RouterAddress));
    assert_eq!(DhcpIpRange::new("10.0.0.9", "10.0.1.20").err(), Some(IpRangeError::DifferentSubnets));
    assert_eq!(DhcpIpRange::new("10.0.0.30", "10.0.0.20").err(), Some(IpRangeError::StartAfterEnd));
    assert!(DhcpIpRange::new("0.0.0.2", "0.0.0.2").is_ok());
    assert!(DhcpIpRange::new("255.255.255.254", "255.255.255.254").is_ok());
}

#[test]
fn router_ip_follows_the_subnet() {
    let range = DhcpIpRange::new("10.20.0.5", "10.20.0.9").unwrap();
    assert_eq!(range.get_router_ip(), "10.20.0.1");
}
