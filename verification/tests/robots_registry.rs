use robot_agent::cli::Args;
use robot_agent::robots::Robot;
use robot_agent::robots::RobotsConfig;
use robot_agent::robots::RobotsManager;
use robot_agent::store::Message;

fn robot(peer: &str, name: &str) -> Robot {
    Robot {
        robot_id: format!("id-{}", peer),
        robot_peer_id: peer.to_string(),
        name: name.to_string(),
        tags: vec!["lab".to_string()],
        interfaces: vec![],
    }
}

#[test]
fn add_robot_makes_it_retrievable() {
    let mut mgr = RobotsManager::default();
    mgr.add_robot(robot("peer-1", "alpha"));
    assert!(mgr.contains_robot(&"peer-1".to_string()));
    let r = mgr.get_robot(&"peer-1".to_string()).unwrap();
    assert_eq!(r.name, "alpha");
    assert!(r.interfaces.is_empty());
}

#[test]
fn interface_for_known_robot_joins_its_set_once() {
    let mut mgr = RobotsManager::default();
    mgr.add_robot(robot("peer-1", "alpha"));
    mgr.add_interface_to_robot("peer-1".to_string(), "10.0.0.5".to_string());
    mgr.add_interface_to_robot("peer-1".to_string(), "10.0.0.5".to_string());
    let r = mgr.get_robot(&"peer-1".to_string()).unwrap();
    assert_eq!(r.interfaces.len(), 1);
    assert_eq!(r.interfaces[0].ip4, "10.0.0.5");
}

#[test]
fn interface_for_unknown_peer_is_parked_until_the_robot_arrives() {
    let mut mgr = RobotsManager::default();
    mgr.add_interface_to_robot("peer-9".to_string(), "192.168.1.2".to_string());
    assert!(!mgr.contains_robot(&"peer-9".to_string()));
    assert_eq!(mgr.get_pending_ip(&"peer-9".to_string()).unwrap(), "192.168.1.2");
    mgr.add_robot(robot("peer-9", "late"));
    let r = mgr.get_robot(&"peer-9".to_string()).unwrap();
    assert_eq!(r.interfaces.len(), 1);
    assert_eq!(r.interfaces[0].ip4, "192.168.1.2");
}

#[test]
fn merge_update_keeps_known_robots_and_adds_new_ones() {
    let mut mgr = RobotsManager::default();
    mgr.add_robot(robot("peer-1", "original"));
    let update = RobotsConfig {
        robots: vec![robot("peer-1", "imposter"), robot("peer-2", "fresh")],
    };
    mgr.merge_update(update);
    assert_eq!(mgr.get_robot(&"peer-1".to_string()).unwrap().name, "original");
    assert_eq!(mgr.get_robot(&"peer-2".to_string()).unwrap().name, "fresh");
}

#[test]
fn remove_interface_is_currently_a_noop() {
    let mut mgr = RobotsManager::default();
    mgr.add_robot(robot("peer-1", "alpha"));
    mgr.add_interface_to_robot("peer-1".to_string(), "10.0.0.5".to_string());
    mgr.remove_interface_from_robot("peer-1".to_string(), "10.0.0.5".to_string());
    assert_eq!(mgr.get_robot(&"peer-1".to_string()).unwrap().interfaces.len(), 1);
}

#[test]
fn message_carries_exactly_what_was_given() {
    let m = Message::new(
        "hello".to_string(),
        Some("operator".to_string()),
        None,
    );
    assert_eq!(m.content, "hello");
    assert_eq!(m.from, Some("operator".to_string()));
    assert_eq!(m.to, None);
}

#[test]
fn args_keep_their_fields() {
    let a = Args::new(
        "test-key".to_string(),
        "http://robots.example:8888".to_string(),
        "normal".to_string(),
        "agent.socket".to_string(),
        "agent.key".to_string(),
    );
    assert_eq!(a.robot_server_url, "http://robots.example:8888");
    assert_eq!(a.mode, "normal");
    assert_eq!(a.socket_filename, "agent.socket");
    assert_eq!(a.key_filename, "agent.key");
}
