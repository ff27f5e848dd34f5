use udp_p2p::address::{Ipv4Endpoint, Ipv6Endpoint, SocketAddress};
use udp_p2p::text::push_decimal;
use udp_p2p::utils::ip_address::octets_to_string;

#[test]
fn loopback_is_rendered_in_dotted_decimal() {
    assert_eq!(octets_to_string([127, 0, 0, 1]), "127.0.0.1");
}

#[test]
fn extreme_octets_are_rendered_without_padding() {
    assert_eq!(octets_to_string([0, 0, 0, 0]), "0.0.0.0");
    assert_eq!(octets_to_string([255, 255, 255, 255]), "255.255.255.255");
    assert_eq!(octets_to_string([10, 9, 100, 99]), "10.9.100.99");
}

#[test]
fn every_octet_value_reads_back_as_itself() {
    for value in 0..=255u8 {
        let text = octets_to_string([value, 0, value, 1]);
        let parts: Vec<&str> = text.split('.').collect();
        assert_eq!(parts.len(), 4);
        for part in &parts {
            assert!(!part.is_empty() && part.len() <= 3);
            assert!(part.chars().all(|c| c.is_ascii_digit()));
            assert!(part.len() == 1 || !part.starts_with('0'));
        }
        assert_eq!(parts[0].parse::<u8>().unwrap(), value);
        assert_eq!(parts[1], "0");
        assert_eq!(parts[2].parse::<u8>().unwrap(), value);
        assert_eq!(parts[3], "1");
    }
}

#[test]
fn decimal_digits_are_appended_most_significant_first() {
    let mut text = String::from("port ");
    push_decimal(&mut text, 0);
    text.push(' ');
    push_decimal(&mut text, 4823);
    text.push(' ');
    push_decimal(&mut text, 65535);
    text.push(' ');
    push_decimal(&mut text, 1000);
    assert_eq!(text, "port 0 4823 65535 1000");
}

#[test]
fn ipv4_endpoint_text_is_ip_colon_port() {
    let endpoint = Ipv4Endpoint { octets: [192, 168, 1, 20], port: 4823 };
    assert_eq!(endpoint.to_text(), "192.168.1.20:4823");
    assert_eq!(SocketAddress::V4(endpoint).to_text(), "192.168.1.20:4823");
}

#[test]
fn ipv6_endpoint_text_is_host_colon_port() {
    let endpoint = Ipv6Endpoint { host: "::1".to_string(), port: 9 };
    assert_eq!(SocketAddress::V6(endpoint).to_text(), "::1:9");
}

#[test]
fn ip_comparison_ignores_the_port() {
    let a = Ipv4Endpoint { octets: [10, 0, 0, 1], port: 1 };
    let b = Ipv4Endpoint { octets: [10, 0, 0, 1], port: 2 };
    let c = Ipv4Endpoint { octets: [10, 0, 0, 2], port: 1 };
    assert!(a.has_ip_of(&b));
    assert!(!a.has_ip_of(&c));
}
