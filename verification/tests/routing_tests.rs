use peerjs_server::room::client::{Client, ClientManage};
use peerjs_server::room::message::{Message, MessageType};
use peerjs_server::room::message_queue::Queue;
use peerjs_server::room::messagehandler::{
    handle_send_failure, handle_transmission, still_deliverable, Delivery, HandlerKind, HandlersRegistry,
    HandlersRegistryImpl, MessageHandler, MessageHandlerImpl,
};
use peerjs_server::room::{Room, RoomManage};

fn peer(room: &mut Room, id: &str, socket: Option<u64>) {
    let mut c = Client::new(id.to_string(), format!("tok-{}", id));
    c.set_socket(socket);
    room.set_client(c, id.to_string());
}

fn message(t: MessageType, src: Option<&str>, dst: Option<&str>) -> Message {
    Message::new(t, src.map(|s| s.to_string()), dst.map(|s| s.to_string()), Some("{}".to_string()))
}

#[test]
fn offer_to_connected_peer_is_sent_to_its_socket() {
    let mut room = Room::new();
    peer(&mut room, "a", Some(1));
    peer(&mut room, "b", Some(2));
    match handle_transmission(&mut room, message(MessageType::Offer, Some("a"), Some("b"))) {
        Delivery::Send { socket, message } => {
            assert_eq!(socket, 2);
            assert_eq!(message.dst, Some("b".to_string()));
            assert_eq!(message.msg_type, MessageType::Offer);
        }
        Delivery::Done => panic!("expected a delivery"),
    }
    assert_eq!(room.client_count(), 2);
    assert!(room.get_clients_ids_with_queue().is_empty());
}

#[test]
fn message_to_peer_without_socket_removes_that_peer() {
    let mut room = Room::new();
    peer(&mut room, "a", Some(1));
    peer(&mut room, "b", None);
    // the sender is told that the destination has left
    match handle_transmission(&mut room, message(MessageType::Answer, Some("a"), Some("b"))) {
        Delivery::Send { socket, message } => {
            assert_eq!(socket, 1);
            assert_eq!(message.msg_type, MessageType::Leave);
            assert_eq!(message.src, Some("b".to_string()));
            assert_eq!(message.dst, Some("a".to_string()));
            assert_eq!(message.payload, None);
        }
        Delivery::Done => panic!("expected a LEAVE for the sender"),
    }
    assert!(room.get_client_by_id("b").is_none());
    assert!(room.get_client_by_id("a").is_some());
    assert!(room.get_clients_ids_with_queue().is_empty());
    // without a sender the message just removes the peer
    peer(&mut room, "c", None);
    let d = handle_transmission(&mut room, message(MessageType::Answer, None, Some("c")));
    assert!(matches!(d, Delivery::Done));
    assert!(room.get_client_by_id("c").is_none());
    // when the sender has no connection either, both are removed
    peer(&mut room, "d", None);
    peer(&mut room, "e", None);
    let d = handle_transmission(&mut room, message(MessageType::Offer, Some("d"), Some("e")));
    assert!(matches!(d, Delivery::Done));
    assert!(room.get_client_by_id("d").is_none());
    assert!(room.get_client_by_id("e").is_none());
    assert!(room.get_clients_ids_with_queue().is_empty());
}

#[test]
fn message_to_unknown_peer_is_queued_in_order() {
    let mut room = Room::new();
    handle_transmission(&mut room, message(MessageType::Offer, Some("a"), Some("z")));
    handle_transmission(&mut room, message(MessageType::Candidate, Some("a"), Some("z")));
    let q = room.get_message_queue_by_id("z").unwrap();
    let msgs = q.get_messages();
    assert_eq!(msgs.len(), 2);
    assert_eq!(msgs[0].msg_type, MessageType::Offer);
    assert_eq!(msgs[1].msg_type, MessageType::Candidate);
}

#[test]
fn leave_and_expire_to_unknown_peer_are_dropped() {
    let mut room = Room::new();
    handle_transmission(&mut room, message(MessageType::Leave, Some("a"), Some("z")));
    handle_transmission(&mut room, message(MessageType::Expire, Some("a"), Some("z")));
    assert!(room.get_message_queue_by_id("z").is_none());
}

#[test]
fn leave_without_destination_removes_sender() {
    let mut room = Room::new();
    peer(&mut room, "a", Some(1));
    let d = handle_transmission(&mut room, message(MessageType::Leave, Some("a"), None));
    assert!(matches!(d, Delivery::Done));
    assert!(room.get_client_by_id("a").is_none());
    // other types without destination are ignored
    peer(&mut room, "b", Some(2));
    handle_transmission(&mut room, message(MessageType::Offer, Some("b"), None));
    assert!(room.get_client_by_id("b").is_some());
}

#[test]
fn failed_send_tells_the_sender_to_stop_trying() {
    let mut room = Room::new();
    peer(&mut room, "a", Some(1));
    peer(&mut room, "b", Some(2));
    let failed = message(MessageType::Offer, Some("a"), Some("b"));
    match handle_send_failure(&mut room, &failed, 2) {
        Delivery::Send { socket, message } => {
            assert_eq!(socket, 1);
            assert_eq!(message.msg_type, MessageType::Leave);
            assert_eq!(message.src, Some("b".to_string()));
            assert_eq!(message.dst, Some("a".to_string()));
            assert_eq!(message.payload, None);
        }
        Delivery::Done => panic!("expected a LEAVE delivery"),
    }
    // the failed destination stays registered until its own session ends
    assert!(room.get_client_by_id("b").is_some());
    // without a sender nothing more happens
    let anonymous = message(MessageType::Offer, None, Some("b"));
    assert!(matches!(handle_send_failure(&mut room, &anonymous, 2), Delivery::Done));
    // when the sender has gone in the meantime, the LEAVE is dropped
    room.remove_client_by_id("a");
    assert!(matches!(handle_send_failure(&mut room, &failed, 2), Delivery::Done));
    assert!(room.get_message_queue_by_id("a").is_none());
}

#[test]
fn registry_lookup_and_overwrite() {
    let mut reg = HandlersRegistryImpl::new();
    assert_eq!(reg.lookup(MessageType::Offer), None);
    reg.register_handler(MessageType::Offer, HandlerKind::Heartbeat);
    assert_eq!(reg.lookup(MessageType::Offer), Some(HandlerKind::Heartbeat));
    reg.register_handler(MessageType::Offer, HandlerKind::Transmission);
    assert_eq!(reg.lookup(MessageType::Offer), Some(HandlerKind::Transmission));
    assert_eq!(reg.lookup(MessageType::Answer), None);
}

#[test]
fn default_handler_table() {
    let h = MessageHandlerImpl::new();
    let mut room = Room::new();
    peer(&mut room, "b", Some(9));
    let (handled, d) = h.handle(&mut room, message(MessageType::Heartbeat, Some("a"), None));
    assert!(handled);
    assert!(matches!(d, Delivery::Done));
    for t in [MessageType::Open, MessageType::IdTaken, MessageType::Error] {
        let (handled, d) = h.handle(&mut room, message(t, Some("a"), Some("b")));
        assert!(!handled);
        assert!(matches!(d, Delivery::Done));
    }
    for t in [MessageType::Offer, MessageType::Answer, MessageType::Candidate, MessageType::Leave, MessageType::Expire] {
        let (handled, d) = h.handle(&mut room, message(t, Some("a"), Some("b")));
        assert!(handled);
        assert!(matches!(d, Delivery::Send { socket: 9, .. }));
    }
}

#[test]
fn no_second_write_to_a_failed_connection() {
    let d = Delivery::Send { socket: 4, message: message(MessageType::Leave, Some("b"), Some("a")) };
    assert!(still_deliverable(&d, &vec![]));
    assert!(still_deliverable(&d, &vec![1, 2]));
    assert!(!still_deliverable(&d, &vec![1, 4]));
    assert!(!still_deliverable(&Delivery::Done, &vec![]));
}
