use nerine::addr::{calculate_container_name, calculate_network_name, calculate_static_tcp_port, calculate_subdomain};
use nerine::challenge::DeploymentStrategy;
use sha2::Digest;

fn expected_static_port(slug: &str, ct: &str, port: u16, bump: u64) -> u16 {
    let digest = sha2::Sha256::digest(format!("{}/{}/{},{}", slug, ct, port, bump).as_bytes());
    let n = u16::from_le_bytes([digest[0], digest[1]]);
    n.saturating_add(1025)
}

#[test]
fn static_port_matches_digest() {
    let got = calculate_static_tcp_port("a", "default", 1337, 0);
    assert_eq!(got, expected_static_port("a", "default", 1337, 0));
    assert!(got >= 1025);
}

#[test]
fn static_port_uses_bump_seed() {
    let p0 = calculate_static_tcp_port("web", "default", 80, 0);
    let p1 = calculate_static_tcp_port("web", "default", 80, 1);
    assert_eq!(p0, expected_static_port("web", "default", 80, 0));
    assert_eq!(p1, expected_static_port("web", "default", 80, 1));
    assert_ne!(p0, p1, "distinct bump seeds should perturb this port");
}

#[test]
fn static_port_is_deterministic() {
    let a = calculate_static_tcp_port("pwn-chall", "sidecar", 31337, 7);
    let b = calculate_static_tcp_port("pwn-chall", "sidecar", 31337, 7);
    assert_eq!(a, b);
}

#[test]
fn subdomain_matches_digest_and_base32() {
    let digest = sha2::Sha256::digest("a//80".as_bytes());
    let expected = format!("a-{}", fast32::base32::CROCKFORD_LOWER.encode(&digest[..5]));
    assert_eq!(calculate_subdomain("a", None, 80), expected);
    assert_eq!(expected.len(), "a-".len() + 8);
}

#[test]
fn subdomain_with_team_matches_digest() {
    let digest = sha2::Sha256::digest("web/team-pub-id/3000".as_bytes());
    let expected = format!("web-{}", fast32::base32::CROCKFORD_LOWER.encode(&digest[..5]));
    assert_eq!(calculate_subdomain("web", Some("team-pub-id"), 3000), expected);
}

#[test]
fn subdomain_missing_team_hashes_as_empty() {
    assert_eq!(calculate_subdomain("a", None, 80), calculate_subdomain("a", Some(""), 80));
}

#[test]
fn container_and_network_names() {
    assert_eq!(
        calculate_container_name("a", DeploymentStrategy::Static, "default", None),
        "a-container-default"
    );
    assert_eq!(
        calculate_container_name("a", DeploymentStrategy::Instanced, "db", Some(3)),
        "a-team-3-container-db"
    );
    assert_eq!(calculate_network_name("a", DeploymentStrategy::Static, None), "a-network");
    assert_eq!(
        calculate_network_name("a", DeploymentStrategy::Instanced, Some(-7)),
        "a-team--7-network"
    );
}

#[test]
fn decimal_rendering() {
    assert_eq!(nerine::numfmt::u64_to_dec(0), "0");
    assert_eq!(nerine::numfmt::u64_to_dec(18446744073709551615), "18446744073709551615");
    assert_eq!(nerine::numfmt::u16_to_dec(65535), "65535");
    assert_eq!(nerine::numfmt::i32_to_dec(-42), "-42");
    assert_eq!(nerine::numfmt::i32_to_dec(-2147483648), "-2147483648");
}

#[test]
fn valid_ids() {
    assert!(nerine::ident::is_valid_id("abc-123"));
    assert!(nerine::ident::is_valid_id(""));
    assert!(!nerine::ident::is_valid_id("Abc"));
    assert!(!nerine::ident::is_valid_id("a_b"));
    assert!(!nerine::ident::is_valid_id("a b"));
}
