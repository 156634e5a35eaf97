use peerlab_bird_config::headscale::{Node, User};

fn node_with(email: Option<&str>, addresses: &[&str]) -> Node {
    Node {
        id: "7".to_string(),
        machine_key: "mkey".to_string(),
        node_key: "nkey".to_string(),
        disco_key: "dkey".to_string(),
        ip_addresses: addresses.iter().map(|a| a.to_string()).collect(),
        name: "laptop".to_string(),
        user: User {
            id: "u7".to_string(),
            name: "seven".to_string(),
            created_at: "2024-01-01T00:00:00Z".to_string(),
            display_name: Some("Seven".to_string()),
            email: email.map(|e| e.to_string()),
            provider_id: Some("oidc/7".to_string()),
            provider: Some("oidc".to_string()),
            profile_pic_url: None,
        },
        last_seen: "2024-01-02T00:00:00Z".to_string(),
        expiry: Some("2025-01-01T00:00:00Z".to_string()),
        created_at: "2024-01-01T00:00:00Z".to_string(),
        online: false,
    }
}

#[test]
fn ipv4_is_the_first_tailnet_address() {
    let node = node_with(None, &["fd7a:115c:a1e0::1", "100.64.0.5", "100.64.0.9"]);
    assert_eq!(node.get_ipv4(), Some("100.64.0.5".to_string()));
}

#[test]
fn ipv4_goes_by_the_leading_text() {
    assert_eq!(node_with(None, &["100.64.0.1"]).get_ipv4(), Some("100.64.0.1".to_string()));
    assert_eq!(node_with(None, &["100.64."]).get_ipv4(), Some("100.64.".to_string()));
    assert_eq!(node_with(None, &["100.64.x"]).get_ipv4(), Some("100.64.x".to_string()));
    assert_eq!(node_with(None, &["100.65.0.1"]).get_ipv4(), None);
    assert_eq!(node_with(None, &["100.100.0.1"]).get_ipv4(), None);
    assert_eq!(node_with(None, &["100.64"]).get_ipv4(), None);
    assert_eq!(node_with(None, &["192.168.100.64"]).get_ipv4(), None);
}

#[test]
fn ipv4_is_none_without_addresses() {
    assert_eq!(node_with(None, &[]).get_ipv4(), None);
    assert_eq!(node_with(None, &["fd7a:115c:a1e0::1"]).get_ipv4(), None);
}

#[test]
fn ipv6_is_the_first_address_with_a_colon() {
    let node = node_with(None, &["100.64.0.5", "fd7a:115c:a1e0::1", "fd7a:115c:a1e0::2"]);
    assert_eq!(node.get_ipv6(), Some("fd7a:115c:a1e0::1".to_string()));
    assert_eq!(node_with(None, &["::1"]).get_ipv6(), Some("::1".to_string()));
}

#[test]
fn ipv6_is_none_without_a_colon() {
    assert_eq!(node_with(None, &["100.64.0.5", "10.0.0.1"]).get_ipv6(), None);
    assert_eq!(node_with(None, &[]).get_ipv6(), None);
    assert_eq!(node_with(None, &[""]).get_ipv6(), None);
}

#[test]
fn user_email_counts_when_not_empty() {
    assert!(node_with(Some("a@x.com"), &[]).has_user_email());
    assert!(node_with(Some(" "), &[]).has_user_email());
    assert!(!node_with(Some(""), &[]).has_user_email());
    assert!(!node_with(None, &[]).has_user_email());
}

#[test]
fn node_keeps_what_it_was_given() {
    let node = node_with(Some("a@x.com"), &["100.64.0.5"]);
    let copy = node.clone();
    assert_eq!(copy.id, "7");
    assert_eq!(copy.name, "laptop");
    assert_eq!(copy.user.id, "u7");
    assert_eq!(copy.user.email, Some("a@x.com".to_string()));
    assert_eq!(copy.ip_addresses, vec!["100.64.0.5".to_string()]);
    assert!(!copy.online);
    assert_eq!(copy.get_ipv4(), node.get_ipv4());
}
