use rust_chat_app::addr::PeerAddr;
use rust_chat_app::registry::{frame_message, Registry};

fn addr(s: &str) -> PeerAddr {
    PeerAddr::new(s)
}

fn deliver(reg: &mut Registry<Vec<u8>>, origin: &str, text: &str) {
    let plan = reg.broadcast(&addr(origin), text);
    for i in plan.targets.iter() {
        reg.connection_mut(*i).extend_from_slice(plan.frame.as_bytes());
    }
}

fn received_by(reg: &mut Registry<Vec<u8>>, who: &str) -> String {
    let i = reg.position(&addr(who)).unwrap();
    String::from_utf8(reg.connection_mut(i).clone()).unwrap()
}

#[test]
fn frame_has_origin_and_newline() {
    assert_eq!(frame_message(&addr("10.0.0.1:5000"), "hello"), "10.0.0.1:5000: hello\n");
    assert_eq!(frame_message(&addr("a"), ""), "a: \n");
}

#[test]
fn broadcast_reaches_the_other_peer_only() {
    let mut reg: Registry<Vec<u8>> = Registry::new();
    reg.insert(addr("addrA"), Vec::new());
    reg.insert(addr("addrB"), Vec::new());
    deliver(&mut reg, "addrA", "hi");
    assert_eq!(received_by(&mut reg, "addrB"), "addrA: hi\n");
    assert_eq!(received_by(&mut reg, "addrA"), "");
}

#[test]
fn broadcast_among_three_is_not_echoed() {
    let mut reg: Registry<Vec<u8>> = Registry::new();
    for a in ["127.0.0.1:1", "127.0.0.1:2", "127.0.0.1:3"] {
        assert!(reg.admit_client(addr(a), Vec::new(), 5).is_ok());
    }
    let plan = reg.broadcast(&addr("127.0.0.1:1"), "hello all");
    assert_eq!(plan.targets, vec![1, 2]);
    deliver(&mut reg, "127.0.0.1:1", "hello all");
    assert_eq!(received_by(&mut reg, "127.0.0.1:2"), "127.0.0.1:1: hello all\n");
    assert_eq!(received_by(&mut reg, "127.0.0.1:3"), "127.0.0.1:1: hello all\n");
    assert_eq!(received_by(&mut reg, "127.0.0.1:1"), "");
}

#[test]
fn departed_peer_is_not_targeted() {
    let mut reg: Registry<Vec<u8>> = Registry::new();
    reg.insert(addr("a:1"), Vec::new());
    reg.insert(addr("b:2"), Vec::new());
    reg.insert(addr("c:3"), Vec::new());
    assert!(reg.remove(&addr("b:2")).is_some());
    assert!(!reg.contains(&addr("b:2")));
    assert_eq!(reg.size(), 2);
    let plan = reg.broadcast(&addr("a:1"), "x");
    assert_eq!(plan.targets, vec![1]);
    assert_eq!(reg.address(1).as_str(), "c:3");
}

#[test]
fn removing_an_absent_address_is_a_no_op() {
    let mut reg: Registry<Vec<u8>> = Registry::new();
    reg.insert(addr("a:1"), vec![7]);
    assert!(reg.remove(&addr("z:9")).is_none());
    assert_eq!(reg.size(), 1);
    assert!(reg.contains(&addr("a:1")));
    let mut empty: Registry<Vec<u8>> = Registry::new();
    assert!(empty.remove(&addr("a:1")).is_none());
    assert_eq!(empty.size(), 0);
}

#[test]
fn remove_hands_back_the_connection() {
    let mut reg: Registry<Vec<u8>> = Registry::new();
    reg.insert(addr("a:1"), vec![1]);
    reg.insert(addr("b:2"), vec![2]);
    assert_eq!(reg.remove(&addr("a:1")), Some(vec![1]));
    assert_eq!(reg.address(0).as_str(), "b:2");
}

#[test]
fn insert_of_a_known_address_replaces_its_connection() {
    let mut reg: Registry<Vec<u8>> = Registry::new();
    assert!(reg.insert(addr("a:1"), vec![1]).is_none());
    assert_eq!(reg.insert(addr("a:1"), vec![2]), Some(vec![1]));
    assert_eq!(reg.size(), 1);
    assert_eq!(*reg.connection_mut(0), vec![2]);
}

#[test]
fn capacity_refuses_one_past_the_limit() {
    let mut reg: Registry<Vec<u8>> = Registry::new();
    assert!(reg.admit_client(addr("a:1"), Vec::new(), 2).is_ok());
    assert!(reg.admit_client(addr("b:2"), Vec::new(), 2).is_ok());
    let third = reg.admit_client(addr("c:3"), Vec::new(), 2);
    assert!(third.err().unwrap().is_max_clients_reached());
    assert_eq!(reg.size(), 2);
    assert!(!reg.contains(&addr("c:3")));
}

#[test]
fn room_frees_up_after_a_departure() {
    let mut reg: Registry<Vec<u8>> = Registry::new();
    assert!(reg.admit_client(addr("a:1"), Vec::new(), 1).is_ok());
    assert!(reg.admit_client(addr("b:2"), Vec::new(), 1).is_err());
    reg.remove(&addr("a:1"));
    assert!(reg.admit_client(addr("b:2"), Vec::new(), 1).is_ok());
}
