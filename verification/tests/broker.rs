use tinybox::broker::{check_request, forbidden_ip, may_dial, rule_id, BrokerDenial, IpAddress};
use tinybox::policy::NetworkRule;

#[test]
fn rejects_private_addresses_except_explicit_local_fixture() {
    assert!(forbidden_ip(IpAddress::V4(127, 0, 0, 1)));
    assert!(forbidden_ip(IpAddress::V4(169, 254, 169, 254)));
    assert!(!forbidden_ip(IpAddress::V4(1, 1, 1, 1)));
}

#[test]
fn address_classes() {
    assert!(forbidden_ip(IpAddress::V4(10, 1, 2, 3)));
    assert!(forbidden_ip(IpAddress::V4(172, 31, 0, 1)));
    assert!(!forbidden_ip(IpAddress::V4(172, 32, 0, 1)));
    assert!(forbidden_ip(IpAddress::V4(203, 0, 113, 9)));
    assert!(forbidden_ip(IpAddress::V6(0, 0, 0, 0, 0, 0, 0, 1)));
    assert!(forbidden_ip(IpAddress::V6(0xfd12, 0, 0, 0, 0, 0, 0, 1)));
    assert!(forbidden_ip(IpAddress::V6(0xfe80, 0, 0, 0, 0, 0, 0, 1)));
    assert!(!forbidden_ip(IpAddress::V6(0x2606, 0x4700, 0, 0, 0, 0, 0, 0x1111)));
    assert!(may_dial("localhost", IpAddress::V4(127, 0, 0, 1)));
    assert!(!may_dial("example.com", IpAddress::V4(127, 0, 0, 1)));
}

#[test]
fn requests_must_match_a_rule_exactly() {
    let rules = vec![NetworkRule { host: "example.com".into(), port: 443 }, NetworkRule { host: "api.test".into(), port: 80 }];
    assert_eq!(check_request(" example.com:443\n", &rules).unwrap(), ("example.com".to_string(), 443));
    assert_eq!(check_request("example.com:80", &rules), Err(BrokerDenial::NotAllowlisted));
    assert_eq!(check_request("example.com", &rules), Err(BrokerDenial::Malformed));
    assert_eq!(check_request("example.com:http", &rules), Err(BrokerDenial::BadPort));
    assert_eq!(rule_id("api.test:80", &rules).as_deref(), Some("network:1"));
    assert_eq!(rule_id("api.test:81", &rules), None);
}
