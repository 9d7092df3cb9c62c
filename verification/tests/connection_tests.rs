use peerjs_server::room::client::{Client, ClientManage};
use peerjs_server::room::message::{Message, MessageType};
use peerjs_server::room::messagehandler::{Delivery, MessageHandlerImpl};
use peerjs_server::room::{Room, RoomManage};
use peerjs_server::wshandler::{
    check_ws_query, on_client_message, register_peer, register_peer_at, release_connection, Admission,
    ErrorType,
};

fn s(x: &str) -> Option<String> {
    Some(x.to_string())
}

#[test]
fn error_texts() {
    assert_eq!(ErrorType::InvalidWsParameters.as_str(), "Invalid WebSocket parameters");
    assert_eq!(ErrorType::InvalidKey.as_str(), "Invalid key provided");
    assert_eq!(ErrorType::ConnectionLimitExceed.as_str(), "Connection limit exceeded");
    assert_eq!(ErrorType::PeerUnavailable.as_str(), "Peer unavailable");
}

#[test]
fn ws_query_checks() {
    let key = "peerjs".to_string();
    let missing = check_ws_query(s("id"), None, s("peerjs"), &key).err().unwrap();
    assert_eq!((missing.status, missing.body), (400, "Missing required parameters"));
    let bad = check_ws_query(s("id"), s("tok"), s("other"), &key).err().unwrap();
    assert_eq!((bad.status, bad.body), (401, "Invalid key"));
    let ok = check_ws_query(s("id"), s("tok"), s("peerjs"), &key).ok().unwrap();
    assert_eq!(ok, ("id".to_string(), "tok".to_string()));
}

#[test]
fn registration_rules() {
    let mut room = Room::new();
    match register_peer(&mut room, "a".to_string(), "t1".to_string(), 1, 2) {
        Admission::Accepted { open } => {
            assert_eq!(open.msg_type, MessageType::Open);
            assert_eq!(open.src, None);
        }
        Admission::Rejected(_) => panic!("should be accepted"),
    }
    assert_eq!(room.get_client_by_id("a").unwrap().get_socket(), Some(1));
    // same id, other token: refused
    match register_peer(&mut room, "a".to_string(), "t2".to_string(), 5, 2) {
        Admission::Rejected(e) => {
            assert_eq!(e.msg_type, MessageType::IdTaken);
            assert_eq!(e.payload.msg, "ID is taken");
        }
        Admission::Accepted { .. } => panic!("should be refused"),
    }
    // same id and token: reconnection takes the new socket
    assert!(matches!(register_peer(&mut room, "a".to_string(), "t1".to_string(), 6, 2), Admission::Accepted { .. }));
    assert_eq!(room.get_client_by_id("a").unwrap().get_socket(), Some(6));
    assert!(matches!(register_peer(&mut room, "b".to_string(), "t".to_string(), 7, 2), Admission::Accepted { .. }));
    // room full
    match register_peer(&mut room, "c".to_string(), "t".to_string(), 8, 2) {
        Admission::Rejected(e) => {
            assert_eq!(e.msg_type, MessageType::Error);
            assert_eq!(e.payload.msg, "Connection limit exceeded");
        }
        Admission::Accepted { .. } => panic!("room is full"),
    }
    assert_eq!(room.client_count(), 2);
}

#[test]
fn messages_get_their_sender_set() {
    let mut room = Room::new();
    register_peer(&mut room, "a".to_string(), "t".to_string(), 1, 10);
    register_peer(&mut room, "b".to_string(), "t".to_string(), 2, 10);
    let handler = MessageHandlerImpl::new();
    let m = Message::new(MessageType::Offer, s("spoofed"), s("b"), s("{}"));
    let (handled, d) = on_client_message(&mut room, &handler, &"a".to_string(), m);
    assert!(handled);
    match d {
        Delivery::Send { socket, message } => {
            assert_eq!(socket, 2);
            assert_eq!(message.src, s("a"));
        }
        Delivery::Done => panic!("expected a delivery"),
    }
}

#[test]
fn release_only_removes_the_current_connection() {
    let mut room = Room::new();
    register_peer(&mut room, "a".to_string(), "t".to_string(), 1, 10);
    register_peer(&mut room, "a".to_string(), "t".to_string(), 2, 10);
    assert!(!release_connection(&mut room, "a", 1));
    assert!(room.get_client_by_id("a").is_some());
    assert!(release_connection(&mut room, "a", 2));
    assert!(room.get_client_by_id("a").is_none());
}

#[test]
fn registration_stamps_the_ping_time() {
    let mut room = Room::new();
    assert!(matches!(register_peer_at(&mut room, "a".to_string(), "t".to_string(), 3, 5, 12_345), Admission::Accepted { .. }));
    let a = room.get_client_by_id("a").unwrap();
    assert_eq!(a.get_last_ping(), 12_345);
    assert_eq!(a.get_socket(), Some(3));
    assert_eq!(a.get_token(), "t");
    let c = Client::new_at("x".to_string(), "y".to_string(), 77);
    assert_eq!((c.get_id(), c.get_token(), c.get_socket(), c.get_last_ping()), ("x", "y", None, 77));
}
