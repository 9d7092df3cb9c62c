use peerjs_server::room::client::{Client, ClientManage};
use peerjs_server::room::message::{Message, MessageType};
use peerjs_server::room::message_queue::{MessageQueue, Queue};
use peerjs_server::room::{Room, RoomManage};

fn msg(t: MessageType, src: &str, dst: &str, payload: &str) -> Message {
    Message::new(t, Some(src.to_string()), Some(dst.to_string()), Some(payload.to_string()))
}

#[test]
fn message_type_wire_names() {
    assert_eq!(MessageType::Open.as_str(), "OPEN");
    assert_eq!(MessageType::Leave.as_str(), "LEAVE");
    assert_eq!(MessageType::Candidate.as_str(), "CANDIDATE");
    assert_eq!(MessageType::Offer.as_str(), "OFFER");
    assert_eq!(MessageType::Answer.as_str(), "ANSWER");
    assert_eq!(MessageType::Expire.as_str(), "EXPIRE");
    assert_eq!(MessageType::Heartbeat.as_str(), "HEARTBEAT");
    assert_eq!(MessageType::IdTaken.as_str(), "ID-TAKEN");
    assert_eq!(MessageType::Error.as_str(), "ERROR");
    assert_eq!(MessageType::IdTaken.to_string(), "ID-TAKEN".to_string());
}

#[test]
fn signaling_and_control_messages() {
    for t in [MessageType::Offer, MessageType::Answer, MessageType::Candidate] {
        let m = Message::without_payload(t, None, None);
        assert!(m.is_signaling());
        assert!(!m.is_control());
    }
    for t in [
        MessageType::Open,
        MessageType::Leave,
        MessageType::Expire,
        MessageType::Heartbeat,
        MessageType::IdTaken,
        MessageType::Error,
    ] {
        let m = Message::without_payload(t, None, None);
        assert!(!m.is_signaling());
        assert!(m.is_control());
    }
}

#[test]
fn message_constructors() {
    let m = Message::with_payload(MessageType::Offer, Some("a".to_string()), Some("b".to_string()), "{\"sdp\":1}".to_string());
    assert_eq!(m.payload, Some("{\"sdp\":1}".to_string()));
    let n = Message::without_payload(MessageType::Offer, Some("a".to_string()), None);
    assert_eq!(n.payload, None);
    assert_eq!(n.dst, None);
    let c = m.clone();
    assert_eq!(c.src, Some("a".to_string()));
    assert_eq!(c.dst, Some("b".to_string()));
    assert_eq!(c.msg_type, MessageType::Offer);
}

#[test]
fn queue_is_first_in_first_out() {
    let mut q = MessageQueue::new_at(100);
    assert_eq!(q.len(), 0);
    q.add_message(msg(MessageType::Offer, "a", "b", "1"));
    q.add_message(msg(MessageType::Answer, "a", "b", "2"));
    assert_eq!(q.len(), 2);
    assert_eq!(q.get_last_read_time(), 100);
    let all = q.get_messages();
    assert_eq!(all.len(), 2);
    assert_eq!(all[0].payload, Some("1".to_string()));
    let first = q.read_message_at(250).unwrap();
    assert_eq!(first.payload, Some("1".to_string()));
    assert_eq!(q.get_last_read_time(), 250);
    let second = q.read_message().unwrap();
    assert_eq!(second.payload, Some("2".to_string()));
    assert!(q.read_message_at(999).is_none());
    assert_ne!(q.get_last_read_time(), 999);
}

#[test]
fn queue_clear_keeps_read_time() {
    let mut q = MessageQueue::new_at(7);
    q.add_message(msg(MessageType::Candidate, "a", "b", "x"));
    q.clear();
    assert_eq!(q.len(), 0);
    assert!(q.get_messages().is_empty());
    assert_eq!(q.get_last_read_time(), 7);
}

#[test]
fn client_accessors() {
    let mut c = Client::new("id1".to_string(), "tok".to_string());
    assert_eq!(c.get_id(), "id1");
    assert_eq!(c.get_token(), "tok");
    assert_eq!(c.get_socket(), None);
    assert_eq!(c.send_target(), Err("Socket not connected".to_string()));
    c.set_socket(Some(42));
    assert_eq!(c.get_socket(), Some(42));
    assert_eq!(c.send_target(), Ok(42));
    c.set_last_ping(1234);
    assert_eq!(c.get_last_ping(), 1234);
    let d = c.clone();
    assert_eq!(d.get_id(), "id1");
    assert_eq!(d.get_last_ping(), 1234);
}

#[test]
fn room_set_get_remove_clients() {
    let mut room = Room::new();
    assert!(room.get_clients_ids().is_empty());
    room.set_client(Client::new("a".to_string(), "t".to_string()), "a".to_string());
    room.set_client(Client::new("b".to_string(), "t".to_string()), "b".to_string());
    let mut ids = room.get_clients_ids();
    ids.sort();
    assert_eq!(ids, vec!["a".to_string(), "b".to_string()]);
    assert_eq!(room.client_count(), 2);
    assert!(room.get_client_by_id("a").is_some());
    assert!(room.get_client_by_id("c").is_none());
    // replacing keeps one entry
    let mut c = Client::new("a".to_string(), "t2".to_string());
    c.set_socket(Some(5));
    room.set_client(c, "a".to_string());
    assert_eq!(room.client_count(), 2);
    assert_eq!(room.get_client_by_id("a").unwrap().get_token(), "t2");
    assert!(room.remove_client_by_id("a"));
    assert!(!room.remove_client_by_id("a"));
    assert_eq!(room.get_clients_ids(), vec!["b".to_string()]);
}

#[test]
fn room_message_queues() {
    let mut room = Room::new();
    room.add_message_to_queue_at("x", msg(MessageType::Offer, "a", "x", "1"), 10);
    room.add_message_to_queue_at("x", msg(MessageType::Answer, "a", "x", "2"), 99);
    room.add_message_to_queue("y", msg(MessageType::Offer, "a", "y", "3"));
    let mut ids = room.get_clients_ids_with_queue();
    ids.sort();
    assert_eq!(ids, vec!["x".to_string(), "y".to_string()]);
    let q = room.get_message_queue_by_id("x").unwrap();
    assert_eq!(q.len(), 2);
    assert_eq!(q.get_last_read_time(), 10);
    assert_eq!(q.get_messages()[1].payload, Some("2".to_string()));
    room.clear_message_queue("x");
    assert!(room.get_message_queue_by_id("x").is_none());
    assert_eq!(room.get_clients_ids_with_queue(), vec!["y".to_string()]);
    room.clear_message_queue("x");
    assert_eq!(room.get_clients_ids_with_queue().len(), 1);
}

#[test]
fn generated_ids_are_fresh() {
    let mut room = Room::new();
    let id1 = room.generate_client_id(None::<fn() -> String>).unwrap();
    assert_eq!(id1.len(), 36);
    let chars: Vec<char> = id1.chars().collect();
    for (i, c) in chars.iter().enumerate() {
        if i == 8 || i == 13 || i == 18 || i == 23 {
            assert_eq!(*c, '-');
        } else {
            assert!(c.is_ascii_digit() || ('a'..='f').contains(c));
        }
    }
    assert_eq!(chars[14], '4');
    assert!(matches!(chars[19], '8' | '9' | 'a' | 'b'));
    room.set_client(Client::new(id1.clone(), "t".to_string()), id1.clone());
    let id2 = room.generate_client_id(None::<fn() -> String>).unwrap();
    assert_ne!(id1, id2);
}

#[test]
fn custom_id_generator_skips_taken_ids() {
    let mut room = Room::new();
    room.set_client(Client::new("custom-1".to_string(), "t".to_string()), "custom-1".to_string());
    let counter = std::cell::Cell::new(0);
    let gen = || {
        counter.set(counter.get() + 1);
        format!("custom-{}", counter.get())
    };
    let id = room.generate_client_id(Some(gen)).unwrap();
    assert_eq!(id, "custom-2");
    assert!(id.starts_with("custom-"));
    assert_eq!(room.try_client_id("custom-1".to_string()), None);
    assert_eq!(room.try_client_id("free".to_string()), Some("free".to_string()));
}

#[test]
fn custom_id_generator_first_draw_on_empty_room() {
    let room = Room::new();
    let counter = std::cell::Cell::new(0);
    let gen = || {
        counter.set(counter.get() + 1);
        format!("custom-{}", counter.get())
    };
    let id = room.generate_client_id(Some(gen)).unwrap();
    assert_eq!(id, "custom-1");
    assert_eq!(counter.get(), 1);
}
