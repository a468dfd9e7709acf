use remotesync::advertise::{advertisement, host_name_or};
use remotesync::connect::{SERVICE_TYPE, WS_PORT};
use remotesync::peers::{display_name, DiscoveryEvent, Peer, PeerTable};

#[test]
fn display_name_strips_prefix_and_domain() {
    assert_eq!(display_name("RemoteSync-Mac2.local."), "Mac2");
    assert_eq!(display_name("RemoteSync-Mac2._remotesync._tcp.local."), "Mac2");
    assert_eq!(display_name("RemoteSync-"), "");
    assert_eq!(display_name("Other.local."), "Other.local.");
}

fn resolved(full: &str, host: &str, port: u16) -> DiscoveryEvent {
    DiscoveryEvent::Resolved { fullname: full.to_string(), host: host.to_string(), port }
}

fn names(list: &[Peer]) -> Vec<String> {
    let mut v: Vec<String> = list.iter().map(|p| p.name.clone()).collect();
    v.sort();
    v
}

#[test]
fn table_follows_resolve_and_remove() {
    let mut t = PeerTable::new();
    let l1 = t.handle_event(resolved("RemoteSync-A.local.", "10.0.0.1", 18765)).unwrap();
    assert_eq!(l1, vec![Peer { name: "A".to_string(), host: "10.0.0.1".to_string(), port: 18765 }]);
    let l2 = t.handle_event(resolved("RemoteSync-B.local.", "10.0.0.2", 18765)).unwrap();
    assert_eq!(names(&l2), vec!["A", "B"]);
    let l3 = t.handle_event(resolved("RemoteSync-A.local.", "10.0.0.9", 1)).unwrap();
    assert_eq!(l3.len(), 2);
    assert!(l3.contains(&Peer { name: "A".to_string(), host: "10.0.0.9".to_string(), port: 1 }));
    let l4 = t.handle_event(DiscoveryEvent::Removed { fullname: "RemoteSync-A.local.".to_string() }).unwrap();
    assert_eq!(names(&l4), vec!["B"]);
    let l5 = t.handle_event(DiscoveryEvent::Removed { fullname: "RemoteSync-Z.local.".to_string() }).unwrap();
    assert_eq!(names(&l5), vec!["B"]);
    assert!(t.handle_event(DiscoveryEvent::Other).is_none());
    let l6 = t.handle_event(DiscoveryEvent::Removed { fullname: "RemoteSync-B.local.".to_string() }).unwrap();
    assert!(l6.is_empty());
}

#[test]
fn table_matches_live_names_over_a_sequence() {
    let mut t = PeerTable::new();
    let events = [("r", "a"), ("r", "b"), ("r", "c"), ("x", "b"), ("r", "d"), ("x", "a"), ("r", "b"), ("x", "z")];
    let mut live: Vec<String> = Vec::new();
    for (kind, n) in events.iter() {
        let full = format!("RemoteSync-{}.local.", n);
        let list = if *kind == "r" {
            if !live.contains(&n.to_string()) {
                live.push(n.to_string());
            }
            t.handle_event(resolved(&full, "h", 1)).unwrap()
        } else {
            live.retain(|x| x != n);
            t.handle_event(DiscoveryEvent::Removed { fullname: full }).unwrap()
        };
        let mut expect = live.clone();
        expect.sort();
        assert_eq!(names(&list), expect);
    }
}

#[test]
fn advertisement_names_the_host() {
    let ad = advertisement("MacA", Some("192.168.1.5".to_string()));
    assert_eq!(ad.service_type, SERVICE_TYPE);
    assert_eq!(ad.instance_name, "RemoteSync-MacA");
    assert_eq!(ad.host_domain, "MacA.local.");
    assert_eq!(ad.address, "192.168.1.5");
    assert_eq!(ad.port, WS_PORT);
    assert_eq!(advertisement("X", None).address, "127.0.0.1");
}

#[test]
fn host_name_falls_back() {
    assert_eq!(host_name_or(Some("MacB".to_string()), "Mac"), "MacB");
    assert_eq!(host_name_or(None, "Mac"), "Mac");
}
