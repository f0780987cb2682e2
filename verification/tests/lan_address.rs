use bypaxdpi::netif::{
    get_safe_lan_ip, ipv4_to_string, is_usable_v4, is_virtual_adapter, IpAddress, Ipv4Address,
    NetInterface,
};

fn v4(name: &str, a: u8, b: u8, c: u8, d: u8) -> NetInterface {
    NetInterface { name: name.to_string(), addr: IpAddress::V4(Ipv4Address { octets: [a, b, c, d] }) }
}

fn v6(name: &str) -> NetInterface {
    NetInterface { name: name.to_string(), addr: IpAddress::V6 }
}

#[test]
fn prefers_real_adapter() {
    let ifs = vec![
        v4("VirtualBox Host-Only Network", 192, 168, 56, 1),
        v4("Loopback Pseudo-Interface 1", 127, 0, 0, 1),
        v6("Wi-Fi"),
        v4("Wi-Fi", 192, 168, 1, 34),
        v4("Ethernet", 10, 0, 0, 5),
    ];
    assert_eq!(get_safe_lan_ip(&ifs), "192.168.1.34");
}

#[test]
fn falls_back_to_virtual_then_loopback() {
    let ifs = vec![v4("vEthernet (WSL)", 172, 20, 0, 1), v4("Hamachi", 25, 1, 2, 3)];
    assert_eq!(get_safe_lan_ip(&ifs), "172.20.0.1");
    let ifs = vec![v4("Ethernet", 169, 254, 3, 4), v4("lo", 127, 0, 0, 1), v6("eth0")];
    assert_eq!(get_safe_lan_ip(&ifs), "127.0.0.1");
    assert_eq!(get_safe_lan_ip(&[]), "127.0.0.1");
}

#[test]
fn virtual_names_case_insensitive() {
    assert!(is_virtual_adapter("VMware Network Adapter VMnet8"));
    assert!(is_virtual_adapter("Hyper-V Virtual Ethernet"));
    assert!(is_virtual_adapter("Teredo Tunneling"));
    assert!(is_virtual_adapter("6TO4 Adapter"));
    assert!(is_virtual_adapter("Bluetooth Network Connection"));
    assert!(!is_virtual_adapter("Wi-Fi"));
    assert!(!is_virtual_adapter("Ethernet 2"));
    assert!(!is_virtual_adapter(""));
}

#[test]
fn link_local_and_loopback_are_unusable() {
    assert!(!is_usable_v4(&IpAddress::V4(Ipv4Address { octets: [127, 1, 2, 3] })));
    assert!(!is_usable_v4(&IpAddress::V4(Ipv4Address { octets: [169, 254, 0, 1] })));
    assert!(is_usable_v4(&IpAddress::V4(Ipv4Address { octets: [169, 253, 0, 1] })));
    assert!(!is_usable_v4(&IpAddress::V6));
}

#[test]
fn dotted_decimal() {
    for o in [[0u8, 0, 0, 0], [255, 255, 255, 255], [192, 168, 1, 34], [10, 0, 100, 9]] {
        let expected = format!("{}.{}.{}.{}", o[0], o[1], o[2], o[3]);
        assert_eq!(ipv4_to_string(&Ipv4Address { octets: o }), expected);
    }
}
