use scene_sync::events::{PeerAddr, RemoteMessage};
use scene_sync::fanout::{BindError, FanoutServer};

fn peer_a() -> PeerAddr {
    PeerAddr { ip: 0x0a000001, port: 50001 }
}

fn peer_b() -> PeerAddr {
    PeerAddr { ip: 0x0a000002, port: 50002 }
}

fn running_server() -> FanoutServer {
    let mut s = FanoutServer::new_public_server(7777, true).unwrap();
    s.start();
    s
}

#[test]
fn bind_failure_is_a_setup_error() {
    match FanoutServer::new_public_server(7777, false) {
        Err(e) => assert_eq!(e, BindError::PortUnavailable),
        Ok(_) => panic!("an occupied port must be a setup error"),
    }
}

#[test]
fn bind_success_keeps_the_port() {
    let s = FanoutServer::new_public_server(7777, true).unwrap();
    assert_eq!(s.port, 7777);
    assert!(!s.started);
}

#[test]
fn nothing_is_emitted_before_start() {
    let mut s = FanoutServer::new_public_server(7777, true).unwrap();
    assert_eq!(s.peer_connected(peer_a()), None);
    assert_eq!(s.peer_data(peer_a(), vec![1]), None);
    assert_eq!(s.peer_disconnected(peer_a()), None);
}

#[test]
fn connected_is_emitted_exactly_once_per_peer() {
    let mut s = running_server();
    assert_eq!(s.peer_connected(peer_a()), Some(RemoteMessage::Connected));
    assert_eq!(s.peer_connected(peer_a()), None);
}

#[test]
fn data_before_connected_is_suppressed() {
    let mut s = running_server();
    assert_eq!(s.peer_data(peer_a(), vec![1, 2]), None);
}

#[test]
fn data_while_connected_carries_the_payload() {
    let mut s = running_server();
    s.peer_connected(peer_a());
    assert_eq!(s.peer_data(peer_a(), vec![1, 2]), Some(RemoteMessage::Data(vec![1, 2])));
    assert_eq!(s.peer_data(peer_a(), vec![]), Some(RemoteMessage::Data(vec![])));
}

#[test]
fn disconnected_is_terminal_for_the_peer() {
    let mut s = running_server();
    s.peer_connected(peer_a());
    assert_eq!(s.peer_disconnected(peer_a()), Some(RemoteMessage::Disconnected));
    assert_eq!(s.peer_disconnected(peer_a()), None);
    assert_eq!(s.peer_data(peer_a(), vec![9]), None);
    assert_eq!(s.peer_connected(peer_a()), None);
}

#[test]
fn disconnect_without_connect_is_suppressed() {
    let mut s = running_server();
    assert_eq!(s.peer_disconnected(peer_a()), None);
}

#[test]
fn peers_have_independent_lifecycles() {
    let mut s = running_server();
    assert_eq!(s.peer_connected(peer_a()), Some(RemoteMessage::Connected));
    assert_eq!(s.peer_data(peer_b(), vec![3]), None);
    assert_eq!(s.peer_connected(peer_b()), Some(RemoteMessage::Connected));
    assert_eq!(s.peer_disconnected(peer_a()), Some(RemoteMessage::Disconnected));
    assert_eq!(s.peer_data(peer_b(), vec![4]), Some(RemoteMessage::Data(vec![4])));
    assert_eq!(s.peer_data(peer_a(), vec![5]), None);
}
