use mineroute::server_state::{Configuration, IpAddress, ServerConfig, SocketAddress};

fn addr(port: u16) -> SocketAddress {
    SocketAddress { ip: IpAddress::V4([127, 0, 0, 1]), port }
}

#[test]
fn routes_add_get_remove() {
    let mut config = Configuration::new();
    assert!(config.get_server("a.mc.local").is_none());
    config.add_server("a.mc.local", ServerConfig::new(addr(25566)));
    config.add_server("b.mc.local", ServerConfig::new(addr(25567)));
    assert_eq!(config.get_server("a.mc.local").unwrap().upstream, addr(25566));
    let mut hosts = config.get_server_hosts();
    hosts.sort();
    assert_eq!(hosts, vec!["a.mc.local".to_string(), "b.mc.local".to_string()]);
    config.add_server("a.mc.local", ServerConfig::new(addr(1)));
    assert_eq!(config.get_server("a.mc.local").unwrap().upstream, addr(1));
    assert_eq!(config.get_server_hosts().len(), 2);
    let removed = config.remove_server("a.mc.local").unwrap();
    assert_eq!(removed.upstream, addr(1));
    assert!(config.remove_server("a.mc.local").is_none());
    assert_eq!(config.get_server_hosts(), vec!["b.mc.local".to_string()]);
}

#[test]
fn added_player_is_visible_to_the_next_read() {
    let mut config = Configuration::new();
    config.add_server("h", ServerConfig::new(addr(2)));
    assert!(config.add_player("h", "p".to_string()));
    assert_eq!(config.get_server("h").unwrap().players, vec!["p".to_string()]);
    assert!(!config.add_player("missing", "p".to_string()));
    assert!(config.get_server("missing").is_none());
}

#[test]
fn removing_a_player_removes_one_occurrence() {
    let mut config = Configuration::new();
    config.add_server("h", ServerConfig::new(addr(2)));
    config.add_player("h", "p".to_string());
    config.add_player("h", "q".to_string());
    config.add_player("h", "p".to_string());
    assert!(config.remove_player("h", "p"));
    assert_eq!(config.get_server("h").unwrap().players, vec!["q".to_string(), "p".to_string()]);
    assert!(config.remove_player("h", "absent"));
    assert_eq!(config.get_server("h").unwrap().players.len(), 2);
    assert!(!config.remove_player("nowhere", "p"));
}

#[test]
fn route_players_add_then_remove() {
    let mut route = ServerConfig::new(addr(3));
    route.add_player("x".to_string());
    assert_eq!(route.players, vec!["x".to_string()]);
    route.remove_player("x");
    assert!(route.players.is_empty());
    let copy = route.duplicate();
    assert_eq!(copy.upstream, addr(3));
}

#[test]
fn ipv6_upstream_is_kept() {
    let mut config = Configuration::new();
    let v6 = SocketAddress { ip: IpAddress::V6([0, 0, 0, 0, 0, 0, 0, 1]), port: 25565 };
    config.add_server("six", ServerConfig::new(v6));
    assert_eq!(config.get_server("six").unwrap().upstream, v6);
}
