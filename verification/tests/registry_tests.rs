use vpnet::protocol::{NodeStatus, TransportAddr};
use vpnet::registry::{Peer, PeerRegistry};

fn addr(last: u8, port: u16) -> TransportAddr {
    TransportAddr { ip: vec![10, 0, 0, last], port }
}

fn peer(id: &str, last_seen: u64) -> Peer {
    Peer {
        node_id: id.to_string(),
        node_name: format!("node {}", id),
        address: addr(1, 51820),
        virtual_ip: String::new(),
        public_key: vec![1, 2, 3],
        status: NodeStatus::Online,
        last_seen,
        capabilities: 0,
    }
}

#[test]
fn upsert_inserts_exactly_one_entry() {
    let mut reg = PeerRegistry::new();
    reg.upsert(peer("A", 100));
    let peers = reg.list();
    assert_eq!(peers.len(), 1);
    assert_eq!(peers[0].node_id, "A");
    assert_eq!(peers[0].status, NodeStatus::Online);
}

#[test]
fn upsert_overwrites_never_duplicates() {
    let mut reg = PeerRegistry::new();
    reg.upsert(peer("A", 100));
    reg.upsert(peer("B", 100));
    let mut again = peer("A", 200);
    again.node_name = "renamed".to_string();
    reg.upsert(again);
    let peers = reg.list();
    assert_eq!(peers.len(), 2);
    let a: Vec<&Peer> = peers.iter().filter(|p| p.node_id == "A").collect();
    assert_eq!(a.len(), 1);
    assert_eq!(a[0].last_seen, 200);
    assert_eq!(a[0].node_name, "renamed");
}

#[test]
fn touch_refreshes_known_id() {
    let mut reg = PeerRegistry::new();
    let mut p = peer("A", 100);
    p.status = NodeStatus::Offline;
    reg.upsert(p);
    reg.touch(&"A".to_string(), 150);
    let peers = reg.list();
    assert_eq!(peers.len(), 1);
    assert_eq!(peers[0].last_seen, 150);
    assert_eq!(peers[0].status, NodeStatus::Online);
}

#[test]
fn touch_unknown_id_is_a_no_op() {
    let mut reg = PeerRegistry::new();
    reg.upsert(peer("A", 100));
    reg.touch(&"B".to_string(), 150);
    let peers = reg.list();
    assert_eq!(peers.len(), 1);
    assert_eq!(peers[0].node_id, "A");
    assert_eq!(peers[0].last_seen, 100);
}

#[test]
fn sweep_removes_expired_only() {
    let mut reg = PeerRegistry::new();
    reg.upsert(peer("stale", 100));
    reg.upsert(peer("fresh", 290));
    // now = 300, timeout = 120: "stale" is 200 seconds silent.
    let removed = reg.sweep(300, 120);
    assert_eq!(removed, vec!["stale".to_string()]);
    let peers = reg.list();
    assert_eq!(peers.len(), 1);
    assert_eq!(peers[0].node_id, "fresh");
}

#[test]
fn sweep_boundary_is_strict() {
    let mut reg = PeerRegistry::new();
    reg.upsert(peer("edge", 100));
    // exactly timeout seconds silent: kept
    assert!(reg.sweep(220, 120).is_empty());
    assert_eq!(reg.len(), 1);
    // one second past the timeout: evicted
    assert_eq!(reg.sweep(221, 120), vec!["edge".to_string()]);
    assert_eq!(reg.len(), 0);
}

#[test]
fn get_finds_by_id() {
    let mut reg = PeerRegistry::new();
    reg.upsert(peer("A", 100));
    assert!(reg.get(&"A".to_string()).is_some());
    assert!(reg.get(&"B".to_string()).is_none());
}

#[test]
fn list_is_a_snapshot() {
    let mut reg = PeerRegistry::new();
    reg.upsert(peer("A", 100));
    let snapshot = reg.list();
    reg.upsert(peer("B", 100));
    assert_eq!(snapshot.len(), 1);
    assert_eq!(reg.list().len(), 2);
}
