use bnvr::network::bypass::{normalize_address, normalize_target};
use bnvr::network::device::{map_create_error, tun_device_name, validate_mtu, CreateFailure, TUN_IPV4, TUN_MTU};
use bnvr::network::privilege::{check_privileges, HostOs, PrivilegeError};

#[test]
fn test_validate_mtu_bounds() {
    assert!(validate_mtu(1280).is_ok());
    assert!(validate_mtu(u16::MAX).is_ok());
    assert!(validate_mtu(1279).is_err());
}

#[test]
fn mtu_error_message() {
    assert_eq!(validate_mtu(576).unwrap_err().message(), "invalid TUN MTU 576: expected 1280..=65535");
    assert!(validate_mtu(TUN_MTU).is_ok());
}

#[test]
fn device_defaults() {
    assert_eq!(tun_device_name(true), "bnvr0");
    assert_eq!(tun_device_name(false), "tun-bnvr0");
    assert_eq!(TUN_IPV4, "198.18.0.1");
}

#[test]
fn create_errors_are_classified() {
    assert!(matches!(map_create_error("Device or resource BUSY"), CreateFailure::AlreadyExists));
    assert!(matches!(map_create_error("file exists"), CreateFailure::AlreadyExists));
    assert!(matches!(map_create_error("Operation not permitted: Permission denied"), CreateFailure::NeedsPrivileges));
    assert_eq!(
        map_create_error("Access is denied.").message(),
        "requires administrator (Windows) or CAP_NET_ADMIN/root (Linux)"
    );
    match map_create_error("no such driver") {
        CreateFailure::Other(m) => assert_eq!(m, "no such driver"),
        _ => panic!("expected the original text"),
    }
    assert_eq!(
        map_create_error("EXISTS").message(),
        "device already exists, run 'bnvr network tun clear' first"
    );
}

#[test]
fn test_normalize_bypass_target_accepts_ip_and_cidr() {
    assert_eq!(normalize_target("10.0.0.1").unwrap(), "10.0.0.1/32");
    assert_eq!(normalize_target("192.168.1.0/24").unwrap(), "192.168.1.0/24");
}

#[test]
fn test_normalize_bypass_target_rejects_invalid() {
    assert!(normalize_target("not-an-ip").is_err());
    assert_eq!(normalize_target("not-an-ip").unwrap_err().message(), "invalid IP address syntax");
}

#[test]
fn normalize_ipv6_and_address_routes() {
    assert_eq!(normalize_target("::1").unwrap(), "::1/128");
    assert_eq!(normalize_address("10.1.2.3", true), "10.1.2.3/32");
    assert_eq!(normalize_address("fe80::1", false), "fe80::1/128");
}

#[test]
fn privileges_per_platform() {
    assert!(check_privileges(HostOs::Windows, true, Ok(false)).is_ok());
    assert!(matches!(check_privileges(HostOs::Windows, false, Ok(true)), Err(PrivilegeError::NotAdministrator)));
    assert!(check_privileges(HostOs::Linux, true, Err("caps unreadable".into())).is_ok());
    assert!(check_privileges(HostOs::Linux, false, Ok(true)).is_ok());
    let err = check_privileges(HostOs::Linux, false, Ok(false)).unwrap_err();
    assert!(err.message().starts_with("TUN device creation requires root or CAP_NET_ADMIN."));
    let err = check_privileges(HostOs::Linux, false, Err("caps unreadable".into())).unwrap_err();
    assert_eq!(err.message(), "caps unreadable");
    let err = check_privileges(HostOs::Other, true, Ok(true)).unwrap_err();
    assert_eq!(err.message(), "TUN device creation is supported only on Windows and Linux");
}
