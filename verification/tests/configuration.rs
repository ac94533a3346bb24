use port_sniffer::config::{
    end_port_guard, start_port_guard, Address, Configuration, DEFAULT_END_PORT,
    DEFAULT_START_PORT, END_PORT_CONSTRAINT, MAX, START_PORT_CONSTRAINT,
};

#[test]
fn start_port_guard_rejects_zero_only() {
    assert!(!start_port_guard(&0));
    assert!(start_port_guard(&1));
    assert!(start_port_guard(&22));
    assert!(start_port_guard(&65535));
}

#[test]
fn end_port_guard_accepts_every_port() {
    assert!(end_port_guard(&0));
    assert!(end_port_guard(&1));
    assert!(end_port_guard(&65534));
    assert!(end_port_guard(&MAX));
}

#[test]
fn max_is_the_largest_port() {
    assert_eq!(MAX, 65535);
    assert_eq!(MAX, u16::MAX);
}

#[test]
fn defaults_are_one_and_max() {
    assert_eq!(DEFAULT_START_PORT, 1);
    assert_eq!(DEFAULT_END_PORT, 65535);
}

#[test]
fn constraints_read_as_written() {
    assert_eq!(START_PORT_CONSTRAINT, "Must be greater than 0");
    assert_eq!(END_PORT_CONSTRAINT, "Must be less than or equal to 65535");
}

#[test]
fn fallback_address_is_localhost() {
    assert_eq!(Address::fallback(), Address::V4(127, 0, 0, 1));
}

#[test]
fn new_keeps_what_it_is_given() {
    let address = Address::V6(0x2001, 0xdb8, 0, 0, 0, 0, 0, 1);
    let config = Configuration::new(address, 22220, 22225).unwrap();
    assert_eq!(config.address(), address);
    assert_eq!(config.start_port(), 22220);
    assert_eq!(config.end_port(), 22225);
}

#[test]
fn new_rejects_start_port_zero() {
    let made = Configuration::new(Address::fallback(), 0, 100);
    assert_eq!(made.err(), Some("Must be greater than 0"));
}

#[test]
fn new_rejects_start_port_zero_whatever_the_end() {
    assert!(Configuration::new(Address::fallback(), 0, 0).is_err());
    assert!(Configuration::new(Address::fallback(), 0, 65535).is_err());
}

#[test]
fn new_accepts_the_largest_ports() {
    let config = Configuration::new(Address::fallback(), 65535, 65535).unwrap();
    assert_eq!(config.start_port(), 65535);
    assert_eq!(config.end_port(), 65535);
}

#[test]
fn new_does_not_compare_start_and_end() {
    let config = Configuration::new(Address::fallback(), 500, 20).unwrap();
    assert_eq!(config.start_port(), 500);
    assert_eq!(config.end_port(), 20);
    assert!(Configuration::new(Address::fallback(), 1, 0).is_ok());
}

#[test]
fn fallback_configuration_scans_all_of_localhost() {
    let config = Configuration::fallback();
    assert_eq!(config.address(), Address::V4(127, 0, 0, 1));
    assert_eq!(config.start_port(), 1);
    assert_eq!(config.end_port(), 65535);
}
