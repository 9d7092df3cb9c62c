use peerjs_server::room::client::{Client, ClientManage};
use peerjs_server::room::message::{Message, MessageType};
use peerjs_server::room::message_queue::Queue;
use peerjs_server::room::messagehandler::MessageHandlerImpl;
use peerjs_server::room::{Room, RoomManage};
use peerjs_server::services::check_connections::{
    check_connections_at, CheckBrokenConnections, CustomConfig as AliveConfig, IConfig as AliveIConfig,
    DEFAULT_CHECK_INTERVAL,
};
use peerjs_server::services::messages_expire::{
    prune_outstanding_at, CustomConfig, IConfig, MessagesExpire, MessagesExpireBuilder,
};

fn offer(src: &str, dst: &str) -> Message {
    Message::new(MessageType::Offer, Some(src.to_string()), Some(dst.to_string()), Some("{\"data\":\"test\"}".to_string()))
}

#[test]
fn expired_queue_is_pruned() {
    let mut room = Room::new();
    room.add_message_to_queue_at("test_client_1", offer("client_a", "test_client_1"), 1_000);
    let seen = prune_outstanding_at(&mut room, 500, 2_000);
    assert!(room.get_message_queue_by_id("test_client_1").is_none());
    assert_eq!(seen, vec!["client_a_test_client_1".to_string()]);
}

#[test]
fn fresh_queue_is_kept() {
    let mut room = Room::new();
    room.add_message_to_queue_at("test_client_2", offer("client_b", "test_client_2"), 1_000);
    let seen = prune_outstanding_at(&mut room, 2_000, 1_300);
    assert!(seen.is_empty());
    let q = room.get_message_queue_by_id("test_client_2").unwrap();
    assert_eq!(q.get_messages().len(), 1);
}

#[test]
fn prune_notes_each_pair_once_and_spares_future_stamps() {
    let mut room = Room::new();
    room.add_message_to_queue_at("x", offer("a", "x"), 0);
    room.add_message_to_queue_at("x", offer("a", "x"), 0);
    room.add_message_to_queue_at("x", offer("b", "x"), 0);
    room.add_message_to_queue_at("late", offer("a", "late"), 10_000);
    let mut seen = prune_outstanding_at(&mut room, 100, 5_000);
    seen.sort();
    assert_eq!(seen, vec!["a_x".to_string(), "b_x".to_string()]);
    assert!(room.get_message_queue_by_id("x").is_none());
    assert!(room.get_message_queue_by_id("late").is_some());
    // exactly at the timeout the queue expires
    let mut room2 = Room::new();
    room2.add_message_to_queue_at("y", offer("a", "y"), 100);
    prune_outstanding_at(&mut room2, 50, 150);
    assert!(room2.get_message_queue_by_id("y").is_none());
}

#[test]
fn expiry_settings_and_builder() {
    let config = CustomConfig { cleanup_out_msgs: 1000, expire_timeout: 5000 };
    assert_eq!(config.cleanup_out_msgs(), 1000);
    assert_eq!(config.expire_timeout(), 5000);
    let built = MessagesExpire::<u8>::builder().realm(7).config(config).build().expect("Failed to build MessagesExpire");
    assert_eq!(*built.realm(), 7);
    assert_eq!(built.config().expire_timeout, 5000);
    let no_realm = MessagesExpireBuilder::<u8>::new().config(config).build();
    assert_eq!(no_realm.err(), Some("Realm is required"));
    let no_config = MessagesExpireBuilder::<u8>::new().realm(1).message_handler(MessageHandlerImpl::new()).build();
    assert_eq!(no_config.err(), Some("Config is required"));
    let nothing = MessagesExpireBuilder::<u8>::new().build();
    assert_eq!(nothing.err(), Some("Realm is required"));
}

#[test]
fn expiry_method_uses_its_timeout() {
    let e = MessagesExpire::new((), CustomConfig { cleanup_out_msgs: 100, expire_timeout: 500 }, MessageHandlerImpl::new());
    let mut room = Room::new();
    room.add_message_to_queue_at("q", offer("s", "q"), 0);
    e.prune_outstanding_at(&mut room, 499);
    assert!(room.get_message_queue_by_id("q").is_some());
    e.prune_outstanding_at(&mut room, 500);
    assert!(room.get_message_queue_by_id("q").is_none());
}

#[test]
fn stale_clients_are_dropped_with_their_queue() {
    let mut room = Room::new();
    let mut c1 = Client::new("client1".to_string(), "token1".to_string());
    c1.set_socket(Some(3));
    c1.set_last_ping(1_000);
    room.set_client(c1, "client1".to_string());
    let mut c2 = Client::new("client2".to_string(), "token2".to_string());
    c2.set_last_ping(2_500);
    room.set_client(c2, "client2".to_string());
    room.add_message_to_queue_at("client1", offer("x", "client1"), 0);
    room.add_message_to_queue_at("client2", offer("x", "client2"), 0);
    let closed = check_connections_at(&mut room, 1_000, 3_000);
    assert_eq!(closed.len(), 1);
    assert_eq!(closed[0].get_id(), "client1");
    assert_eq!(closed[0].get_socket(), None);
    assert_eq!(closed[0].get_last_ping(), 1_000);
    assert!(room.get_client_by_id("client1").is_none());
    assert!(room.get_message_queue_by_id("client1").is_none());
    assert!(room.get_client_by_id("client2").is_some());
    assert!(room.get_message_queue_by_id("client2").is_some());
}

#[test]
fn connection_check_settings() {
    let config = AliveConfig { alive_timeout: 1000 };
    assert_eq!(config.alive_timeout(), 1000);
    let checker: CheckBrokenConnections<(), fn(Client)> = CheckBrokenConnections::new((), config, Some(1), None);
    assert_eq!(checker.check_interval, 1);
    assert!(checker.on_close().is_none());
    let default_checker: CheckBrokenConnections<(), fn(Client)> = CheckBrokenConnections::new((), config, None, None);
    assert_eq!(default_checker.check_interval, DEFAULT_CHECK_INTERVAL);
    assert_eq!(default_checker.check_interval, 300);
    let mut room = Room::new();
    room.set_client(Client::new("fresh".to_string(), "t".to_string()), "fresh".to_string());
    let closed = checker.check_connections(&mut room);
    assert!(closed.is_empty());
    assert!(room.get_client_by_id("fresh").is_some());
}
