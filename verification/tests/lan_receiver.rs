use power_paste::names::sanitize_file_name;
use power_paste::net::{
    extract_ipv4_candidates, extract_windows_ipv4_candidates, lan_ipv4_score, usable_lan_ipv4,
    Ipv4,
};
use power_paste::url::{query_has_token, split_target};

#[test]
fn validates_token_query_pair() {
    assert!(query_has_token("token=abc&x=1", "abc"));
    assert!(!query_has_token("token=abc", "def"));
}

#[test]
fn splits_path_and_query() {
    let (path, query) = split_target("/api/clipboard?token=abc");
    assert_eq!(path, "/api/clipboard");
    assert_eq!(query, "token=abc");
}

#[test]
fn sanitizes_file_names() {
    assert_eq!(sanitize_file_name("../a:b?.txt"), "a_b_.txt");
    assert_eq!(sanitize_file_name("..."), "transfer-file");
}

#[test]
fn excludes_benchmark_network_from_lan_candidates() {
    assert!(!usable_lan_ipv4(Ipv4::new(198, 18, 0, 1)));
    assert!(!usable_lan_ipv4(Ipv4::new(198, 19, 0, 1)));
    assert!(usable_lan_ipv4(Ipv4::new(192, 168, 5, 174)));
}

#[test]
fn prefers_private_home_lan_address() {
    let home_lan = Ipv4::new(192, 168, 5, 174);
    let carrier_nat = Ipv4::new(100, 64, 1, 2);
    assert!(lan_ipv4_score(home_lan) > lan_ipv4_score(carrier_nat));
}

#[test]
fn prefers_host_address_over_common_gateway_address() {
    let host_ip = Ipv4::new(192, 168, 5, 174);
    let gateway_ip = Ipv4::new(192, 168, 5, 1);
    assert!(lan_ipv4_score(host_ip) > lan_ipv4_score(gateway_ip));
}

#[test]
fn extracts_ipv4_addresses_from_command_output() {
    let text = "IPv4 Address . . . . . . . . . . . : 192.168.5.174\nMask 255.255.255.0";
    let candidates = extract_ipv4_candidates(text);
    assert!(candidates.contains(&Ipv4::new(192, 168, 5, 174)));
}

#[test]
fn extracts_only_windows_ipv4_address_lines() {
    let text = "\
IPv4 Address. . . . . . . . . . . : 192.168.5.174(Preferred)
Subnet Mask . . . . . . . . . . . : 255.255.255.0
Default Gateway . . . . . . . . . : 192.168.5.1";
    let candidates = extract_windows_ipv4_candidates(text);
    assert_eq!(candidates, vec![Ipv4::new(192, 168, 5, 174)]);
}
