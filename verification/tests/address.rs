use avail_light_core::network::address::{
    any_global, is_global, is_multiaddr_global, Component, Ipv4Addr,
};
use libp2p::Multiaddr;

fn global(text: &str) -> bool {
    let address: Multiaddr = if text.is_empty() {
        Multiaddr::empty()
    } else {
        text.parse().unwrap()
    };
    is_multiaddr_global(&address)
}

fn ip(a: u8, b: u8, c: u8, d: u8) -> Ipv4Addr {
    Ipv4Addr { octets: [a, b, c, d] }
}

#[test]
fn test_is_multiaddr_global() {
    assert!(global("/ip4/159.73.143.3/tcp/37000"));
    assert!(!global("/ip4/192.168.0.1/tcp/37000"));
    assert!(!global("/ip4/172.16.10.11/tcp/37000"));
    assert!(!global("/ip4/127.0.0.1/tcp/37000"));
    assert!(!global(""));
}

#[test]
fn only_ipv4_components_count() {
    assert!(!global("/ip6/2606:4700::1111/tcp/37000"));
    assert!(!global("/dns4/example.com/tcp/37000"));
    assert!(!global("/tcp/37000"));
}

#[test]
fn any_component_of_an_address_may_be_global() {
    assert!(global("/ip4/10.0.0.1/tcp/1/ip4/159.73.143.3/tcp/2"));
    assert!(global("/ip4/159.73.143.3/tcp/1/ip4/10.0.0.1/tcp/2"));
    assert!(!global("/ip4/10.0.0.1/tcp/1/ip4/10.0.0.2/tcp/2"));
}

#[test]
fn some_component_decides() {
    assert!(!any_global(&vec![]));
    assert!(!any_global(&vec![Component::Other]));
    assert!(!any_global(&vec![Component::Ip4(ip(127, 0, 0, 1)), Component::Other]));
    assert!(any_global(&vec![Component::Other, Component::Ip4(ip(8, 8, 8, 8))]));
}

#[test]
fn this_network_is_not_global() {
    assert!(!is_global(ip(0, 0, 0, 0)));
    assert!(!is_global(ip(0, 255, 255, 255)));
    assert!(is_global(ip(1, 0, 0, 0)));
}

#[test]
fn private_networks_are_not_global() {
    assert!(is_global(ip(9, 255, 255, 255)));
    assert!(!is_global(ip(10, 0, 0, 0)));
    assert!(!is_global(ip(10, 255, 255, 255)));
    assert!(is_global(ip(11, 0, 0, 0)));
    assert!(is_global(ip(172, 15, 255, 255)));
    assert!(!is_global(ip(172, 16, 0, 0)));
    assert!(!is_global(ip(172, 31, 255, 255)));
    assert!(is_global(ip(172, 32, 0, 0)));
    assert!(is_global(ip(192, 167, 255, 255)));
    assert!(!is_global(ip(192, 168, 0, 0)));
    assert!(!is_global(ip(192, 168, 255, 255)));
    assert!(is_global(ip(192, 169, 0, 0)));
}

#[test]
fn loopback_and_link_local_are_not_global() {
    assert!(is_global(ip(126, 255, 255, 255)));
    assert!(!is_global(ip(127, 0, 0, 0)));
    assert!(!is_global(ip(127, 255, 255, 255)));
    assert!(is_global(ip(128, 0, 0, 0)));
    assert!(is_global(ip(169, 253, 255, 255)));
    assert!(!is_global(ip(169, 254, 0, 0)));
    assert!(!is_global(ip(169, 254, 255, 255)));
    assert!(is_global(ip(169, 255, 0, 0)));
}

#[test]
fn two_addresses_for_protocols_are_global() {
    assert!(!is_global(ip(192, 0, 0, 0)));
    assert!(!is_global(ip(192, 0, 0, 8)));
    assert!(is_global(ip(192, 0, 0, 9)));
    assert!(is_global(ip(192, 0, 0, 10)));
    assert!(!is_global(ip(192, 0, 0, 11)));
    assert!(!is_global(ip(192, 0, 0, 255)));
    assert!(is_global(ip(192, 0, 1, 0)));
}

#[test]
fn documentation_and_broadcast_are_not_global() {
    assert!(!is_global(ip(192, 0, 2, 1)));
    assert!(!is_global(ip(198, 51, 100, 1)));
    assert!(!is_global(ip(203, 0, 113, 1)));
    assert!(is_global(ip(203, 0, 114, 1)));
    assert!(!is_global(ip(255, 255, 255, 255)));
    assert!(!is_global(ip(255, 255, 255, 254)));
}

#[test]
fn shared_addresses_are_not_global() {
    assert!(is_global(ip(100, 63, 255, 255)));
    assert!(!is_global(ip(100, 64, 0, 0)));
    assert!(!is_global(ip(100, 64, 0, 1)));
    assert!(!is_global(ip(100, 127, 255, 255)));
    assert!(is_global(ip(100, 128, 0, 0)));
}

#[test]
fn benchmarking_addresses_are_not_global() {
    assert!(is_global(ip(198, 17, 255, 255)));
    assert!(!is_global(ip(198, 18, 0, 0)));
    assert!(!is_global(ip(198, 18, 0, 1)));
    assert!(!is_global(ip(198, 19, 255, 255)));
    assert!(is_global(ip(198, 20, 0, 0)));
}

#[test]
fn reserved_addresses_are_not_global() {
    assert!(is_global(ip(239, 255, 255, 255)));
    assert!(!is_global(ip(240, 0, 0, 0)));
    assert!(!is_global(ip(240, 0, 0, 1)));
    assert!(ip(240, 0, 0, 1).is_reserved());
    assert!(ip(255, 255, 255, 254).is_reserved());
    assert!(!ip(255, 255, 255, 255).is_reserved());
    assert!(ip(255, 255, 255, 255).is_broadcast());
}
