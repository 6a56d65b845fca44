use picow_mqtt::hostname::dhcp_hostname;
use picow_mqtt::settings::HOSTNAME;

#[test]
fn configured_hostname_fits() {
    assert_eq!(dhcp_hostname(HOSTNAME), Some(String::from("PicoWSwitchRS")));
}

#[test]
fn hostname_of_exactly_capacity_fits() {
    let name = "a".repeat(32);
    assert_eq!(dhcp_hostname(&name), Some(name.clone()));
}

#[test]
fn hostname_over_capacity_is_refused() {
    assert_eq!(dhcp_hostname(&"a".repeat(33)), None);
}

#[test]
fn hostname_capacity_counts_bytes() {
    // seventeen characters, thirty-four bytes
    assert_eq!(dhcp_hostname(&"é".repeat(17)), None);
    assert_eq!(dhcp_hostname(&"é".repeat(16)), Some("é".repeat(16)));
}

#[test]
fn empty_hostname_fits() {
    assert_eq!(dhcp_hostname(""), Some(String::new()));
}
