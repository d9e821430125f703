use voxel_core::browser::{collect_discovery_result, collect_discovery_results, name_less, BrowserState, DiscoveredServer, ServerAddr, ServerSummary};

fn server(ip: u32, port: u16, name: &str, motd: &str) -> DiscoveredServer {
    DiscoveredServer {
        addr: ServerAddr::V4(ip, port),
        summary: ServerSummary {
            server_name: name.to_string(),
            motd: motd.to_string(),
            current_players: 0,
            max_players: 8,
            game_port: port,
        },
    }
}

fn names(b: &BrowserState) -> Vec<(String, String)> {
    b.servers.iter().map(|s| (s.summary.server_name.clone(), s.summary.motd.clone())).collect()
}

fn pairs(v: &[(&str, &str)]) -> Vec<(String, String)> {
    v.iter().map(|(a, b)| (a.to_string(), b.to_string())).collect()
}

#[test]
fn name_order_is_code_point_order() {
    assert!(name_less("alpha", "beta"));
    assert!(!name_less("beta", "alpha"));
    assert!(name_less("ab", "abc"));
    assert!(!name_less("abc", "abc"));
    assert!(name_less("Zeta", "alpha"));
    assert!(name_less("é", "ê"));
    for (a, b) in [("x", "y"), ("", "a"), ("a", ""), ("same", "same"), ("b1", "b10")] {
        assert_eq!(name_less(a, b), a < b);
    }
}

#[test]
fn new_servers_are_sorted_by_name() {
    let mut b = BrowserState { servers: Vec::new() };
    collect_discovery_result(&mut b, server(1, 5000, "mango", "m"));
    collect_discovery_result(&mut b, server(2, 5000, "apple", "a"));
    collect_discovery_result(&mut b, server(3, 5000, "kiwi", "k"));
    assert_eq!(names(&b), pairs(&[("apple", "a"), ("kiwi", "k"), ("mango", "m")]));
}

#[test]
fn equal_names_keep_their_order() {
    let mut b = BrowserState { servers: Vec::new() };
    collect_discovery_result(&mut b, server(1, 5000, "same", "first"));
    collect_discovery_result(&mut b, server(2, 5000, "same", "second"));
    collect_discovery_result(&mut b, server(3, 5000, "aaa", "third"));
    assert_eq!(names(&b), pairs(&[("aaa", "third"), ("same", "first"), ("same", "second")]));
}

#[test]
fn known_address_is_replaced_in_place() {
    let mut b = BrowserState { servers: Vec::new() };
    collect_discovery_result(&mut b, server(1, 5000, "b", "old"));
    collect_discovery_result(&mut b, server(2, 5000, "c", "c"));
    collect_discovery_result(&mut b, server(1, 5000, "z", "new"));
    assert_eq!(names(&b), pairs(&[("z", "new"), ("c", "c")]));
    // the next new server sorts the whole list again
    collect_discovery_result(&mut b, server(3, 5000, "a", "a"));
    assert_eq!(names(&b), pairs(&[("a", "a"), ("c", "c"), ("z", "new")]));
    // same host, other port: another server
    collect_discovery_result(&mut b, server(3, 5001, "a", "second port"));
    assert_eq!(b.servers.len(), 4);
}

#[test]
fn a_run_of_answers_keeps_addresses_distinct() {
    let mut b = BrowserState { servers: Vec::new() };
    collect_discovery_results(
        &mut b,
        vec![
            server(1, 5000, "mango", "m1"),
            server(2, 5000, "apple", "a"),
            server(1, 5000, "mango", "m2"),
            server(3, 5001, "kiwi", "k"),
            server(2, 5000, "apple", "a2"),
        ],
    );
    assert_eq!(names(&b), pairs(&[("apple", "a2"), ("kiwi", "k"), ("mango", "m2")]));
    for i in 0..b.servers.len() {
        for j in i + 1..b.servers.len() {
            assert_ne!(b.servers[i].addr, b.servers[j].addr);
        }
    }
    collect_discovery_results(&mut b, Vec::new());
    assert_eq!(b.servers.len(), 3);
}
