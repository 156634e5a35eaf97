use peerlab_bird_config::bird::{append_clause, authorize, find_data_gaps, node_gap, Clause, DataGap};
use peerlab_bird_config::headscale::{Node, User};
use peerlab_bird_config::peerlab::{MappingLookup, UserMapping};

fn tail_node(email: Option<&str>, addresses: &[&str]) -> Node {
    Node {
        id: "1".to_string(),
        machine_key: "mkey".to_string(),
        node_key: "nkey".to_string(),
        disco_key: "dkey".to_string(),
        ip_addresses: addresses.iter().map(|a| a.to_string()).collect(),
        name: "node".to_string(),
        user: User {
            id: "u".to_string(),
            name: "user".to_string(),
            created_at: "2024-01-01T00:00:00Z".to_string(),
            display_name: None,
            email: email.map(|e| e.to_string()),
            provider_id: None,
            provider: None,
            profile_pic_url: None,
        },
        last_seen: "2024-01-01T00:00:00Z".to_string(),
        expiry: None,
        created_at: "2024-01-01T00:00:00Z".to_string(),
        online: true,
    }
}

fn grant(email: Option<&str>, asn: u32, prefixes: &[&str]) -> UserMapping {
    UserMapping {
        user_hash: "hash".to_string(),
        user_id: "u".to_string(),
        email: email.map(|e| e.to_string()),
        asn,
        prefixes: prefixes.iter().map(|p| p.to_string()).collect(),
    }
}

fn clause_text(clause: &Clause) -> String {
    let mut out = String::new();
    append_clause(&mut out, clause);
    out
}

#[test]
fn authorize_joins_node_and_record() {
    let records = vec![grant(Some("a@x.com"), 65001, &["2001:db8:2::/48", "2001:db8:1::/48"])];
    let lookup = MappingLookup::build(&records);
    let node = tail_node(Some("a@x.com"), &["fd7a::1", "100.64.0.3", "100.64.0.4"]);
    let clause = authorize(&node, &lookup).unwrap();
    assert_eq!(clause.email, "a@x.com");
    assert_eq!(clause.address, "100.64.0.3");
    assert_eq!(clause.asn, 65001);
    assert_eq!(clause.prefixes, &["2001:db8:2::/48".to_string(), "2001:db8:1::/48".to_string()]);
}

#[test]
fn authorize_gives_no_clause_without_candidate_address_or_record() {
    let records = vec![grant(Some("a@x.com"), 65001, &["2001:db8::/32"]), grant(Some(""), 65002, &[])];
    let lookup = MappingLookup::build(&records);
    assert!(authorize(&tail_node(None, &["100.64.0.1"]), &lookup).is_none());
    assert!(authorize(&tail_node(Some(""), &["100.64.0.1"]), &lookup).is_none());
    assert!(authorize(&tail_node(Some("a@x.com"), &["10.0.0.1"]), &lookup).is_none());
    assert!(authorize(&tail_node(Some("b@x.com"), &["100.64.0.1"]), &lookup).is_none());
    assert!(authorize(&tail_node(Some("a@x.com"), &["100.64.0.1"]), &lookup).is_some());
}

#[test]
fn clause_with_prefixes_checks_membership() {
    let prefixes = vec!["2001:db8:1::/48".to_string(), "2001:db8:2::/48".to_string()];
    let clause = Clause {
        email: "user1@example.com",
        address: "100.64.0.1".to_string(),
        asn: 65001,
        prefixes: &prefixes,
    };
    assert_eq!(
        clause_text(&clause),
        "    # User: user1@example.com\n\
         \x20   if (remote_ip = 100.64.0.1) then {\n\
         \x20       if (bgp_path.last != 65001) then reject;\n\
         \x20       if !(net ~ [ 2001:db8:1::/48, 2001:db8:2::/48 ]) then reject;\n\
         \x20       accept;\n\
         \x20   }\n\
         \n"
    );
}

#[test]
fn clause_without_prefixes_denies_all() {
    let clause = Clause { email: "a@x.com", address: "100.64.0.1".to_string(), asn: 7, prefixes: &[] };
    assert_eq!(
        clause_text(&clause),
        "    # User: a@x.com\n\
         \x20   if (remote_ip = 100.64.0.1) then {\n\
         \x20       if (bgp_path.last != 7) then reject;\n\
         \x20       reject;  # No authorized prefixes\n\
         \x20       accept;\n\
         \x20   }\n\
         \n"
    );
}

#[test]
fn clause_is_appended_to_what_is_there() {
    let clause = Clause { email: "a@x.com", address: "100.64.0.1".to_string(), asn: 7, prefixes: &[] };
    let mut out = String::from("function f() {\n");
    append_clause(&mut out, &clause);
    assert!(out.starts_with("function f() {\n    # User: a@x.com\n"));
    assert!(out.ends_with("        accept;\n    }\n\n"));
}

#[test]
fn gap_missing_address() {
    let records = vec![grant(Some("a@x.com"), 65001, &["2001:db8::/32"])];
    let lookup = MappingLookup::build(&records);
    assert_eq!(
        node_gap(&tail_node(Some("a@x.com"), &["fd7a::1"]), &lookup),
        Some(DataGap::MissingAddress)
    );
    assert_eq!(
        node_gap(&tail_node(Some("nobody@x.com"), &[]), &lookup),
        Some(DataGap::MissingAddress)
    );
}

#[test]
fn gap_missing_mapping() {
    let records = vec![grant(Some("a@x.com"), 65001, &["2001:db8::/32"])];
    let lookup = MappingLookup::build(&records);
    assert_eq!(
        node_gap(&tail_node(Some("b@x.com"), &["100.64.0.2"]), &lookup),
        Some(DataGap::MissingMapping)
    );
}

#[test]
fn gap_empty_prefixes() {
    let records = vec![grant(Some("a@x.com"), 65001, &[])];
    let lookup = MappingLookup::build(&records);
    assert_eq!(
        node_gap(&tail_node(Some("a@x.com"), &["100.64.0.1"]), &lookup),
        Some(DataGap::EmptyPrefixes)
    );
}

#[test]
fn no_gap_for_complete_data_or_for_nodes_that_are_no_candidates() {
    let records = vec![grant(Some("a@x.com"), 65001, &["2001:db8::/32"])];
    let lookup = MappingLookup::build(&records);
    assert_eq!(node_gap(&tail_node(Some("a@x.com"), &["100.64.0.1"]), &lookup), None);
    assert_eq!(node_gap(&tail_node(None, &[]), &lookup), None);
    assert_eq!(node_gap(&tail_node(Some(""), &[]), &lookup), None);
}

#[test]
fn gaps_are_reported_node_by_node() {
    let records = vec![
        grant(Some("full@x.com"), 65001, &["2001:db8::/32"]),
        grant(Some("bare@x.com"), 65002, &[]),
    ];
    let nodes = vec![
        tail_node(Some("full@x.com"), &["100.64.0.1"]),
        tail_node(None, &["100.64.0.2"]),
        tail_node(Some("bare@x.com"), &["100.64.0.3"]),
        tail_node(Some("gone@x.com"), &["100.64.0.4"]),
        tail_node(Some("full@x.com"), &["192.168.0.5"]),
    ];
    assert_eq!(
        find_data_gaps(&nodes, &records),
        vec![
            None,
            None,
            Some(DataGap::EmptyPrefixes),
            Some(DataGap::MissingMapping),
            Some(DataGap::MissingAddress),
        ]
    );
    assert_eq!(find_data_gaps(&[], &records), vec![]);
}
