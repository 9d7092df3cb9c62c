//! The decisions taken for a peer's WebSocket connection: which requests
//! are accepted, how a peer joins the room, how its messages are
//! handled and how it leaves.

use vstd::prelude::*;
use crate::clock::now_millis;
use crate::room::client::{Client, ClientManage, ClientView};
use crate::room::message::{Message, MessageType, MessageView};
use crate::room::messagehandler::{dispatched, kind_for, Delivery, MessageHandler, MessageHandlerImpl};
use crate::room::{Room, RoomManage};

verus! {

/// The errors a connection can be refused with.
pub enum ErrorType {
    InvalidWsParameters,
    InvalidKey,
    ConnectionLimitExceed,
    PeerUnavailable,
}

/// The text of an error.
pub open spec fn error_text(e: ErrorType) -> Seq<char> {
    match e {
        ErrorType::InvalidWsParameters => "Invalid WebSocket parameters"@,
        ErrorType::InvalidKey => "Invalid key provided"@,
        ErrorType::ConnectionLimitExceed => "Connection limit exceeded"@,
        ErrorType::PeerUnavailable => "Peer unavailable"@,
    }
}

impl ErrorType {
    /// The text of this error.
    pub fn as_str(&self) -> (s: &'static str)
        ensures
            s@ == error_text(*self),
    {
        match self {
            ErrorType::InvalidWsParameters => "Invalid WebSocket parameters",
            ErrorType::InvalidKey => "Invalid key provided",
            ErrorType::ConnectionLimitExceed => "Connection limit exceeded",
            ErrorType::PeerUnavailable => "Peer unavailable",
        }
    }
}

/// The body of an error notice.
pub struct ErrorPayload {
    pub msg: String,
}

/// An error notice sent to a peer before its connection is dropped.
pub struct ErrorMessage {
    pub msg_type: MessageType,
    pub payload: ErrorPayload,
}

/// The rejection of a WebSocket request: an HTTP status and a body.
pub struct Rejection {
    pub status: u16,
    pub body: &'static str,
}

/// Checks the query of a WebSocket request: id, token and key must all be
/// present (else 400), and the key must be the server's (else 401). On
/// success, the id and the token.
pub fn check_ws_query(
    id: Option<String>,
    token: Option<String>,
    key: Option<String>,
    server_key: &String,
) -> (r: Result<(String, String), Rejection>)
    ensures
        (id is None || token is None || key is None) ==> (r matches Err(e) && e.status == 400
            && e.body@ == "Missing required parameters"@),
        (id is Some && token is Some && key is Some && key.unwrap()@ != server_key@) ==> (r matches Err(e)
            && e.status == 401 && e.body@ == "Invalid key"@),
        (id is Some && token is Some && key is Some && key.unwrap()@ == server_key@) ==> (r matches Ok(
            p,
        ) && p.0@ == id.unwrap()@ && p.1@ == token.unwrap()@),
{
    match (id, token, key) {
        (Some(id), Some(token), Some(key)) => {
            if key != *server_key {
                Err(Rejection { status: 401, body: "Invalid key" })
            } else {
                Ok((id, token))
            }
        },
        _ => Err(Rejection { status: 400, body: "Missing required parameters" }),
    }
}

/// The outcome of a peer's request to join the room.
pub enum Admission {
    /// The peer is registered; the message to greet it with.
    Accepted { open: Message },
    /// The peer is refused with this notice.
    Rejected(ErrorMessage),
}

/// The notice of an id held by another peer.
pub open spec fn is_id_taken_notice(e: ErrorMessage) -> bool {
    e.msg_type == MessageType::IdTaken && e.payload.msg@ == "ID is taken"@
}

/// The notice of a full room.
pub open spec fn is_limit_notice(e: ErrorMessage) -> bool {
    e.msg_type == MessageType::Error && e.payload.msg@ == error_text(
        ErrorType::ConnectionLimitExceed,
    )
}

/// The outcome of a peer's request to join: from peers `c0`, the peer `id`
/// with `token` on connection `socket`, at time `now`, to peers `c1` and the
/// answer `a`. A peer whose id is held with another token is refused; a
/// new id is refused when the room already holds `limit` peers. Otherwise
/// the peer is registered (replacing the one of the same id and token) with
/// that connection and `now` as its last ping, and greeted with an OPEN
/// message.
pub open spec fn admitted(
    c0: Map<Seq<char>, ClientView>,
    id: Seq<char>,
    token: Seq<char>,
    socket: u64,
    limit: usize,
    now: u64,
    c1: Map<Seq<char>, ClientView>,
    a: Admission,
) -> bool {
    let refused_id = c0.contains_key(id) && c0[id].token != token;
    let refused_limit = !c0.contains_key(id) && c0.dom().len() >= limit;
    &&& refused_id ==> (a matches Admission::Rejected(e) && is_id_taken_notice(e))
    &&& refused_limit ==> (a matches Admission::Rejected(e) && is_limit_notice(e))
    &&& (refused_id || refused_limit) ==> c1 == c0
    &&& !(refused_id || refused_limit) ==> {
        &&& a matches Admission::Accepted { open }
        &&& open@ == (MessageView {
            msg_type: MessageType::Open,
            src: None,
            dst: None,
            payload: None,
        })
        &&& c1 == c0.insert(
            id,
            ClientView { id, token, socket: Some(socket), last_ping: now },
        )
    }
}

/// Registers a peer that connected with `id` and `token` over the connection
/// `socket`, with the current time as its last ping (see `admitted`).
pub fn register_peer(room: &mut Room, id: String, token: String, socket: u64, concurrent_limit: usize) -> (a:
    Admission)
    ensures
        final(room).queues() == old(room).queues(),
        final(room).clients().dom().finite(),
        old(room).clients().dom().len() <= concurrent_limit ==> final(room).clients().dom().len()
            <= concurrent_limit,
        exists|now: u64|
            admitted(
                old(room).clients(),
                id@,
                token@,
                socket,
                concurrent_limit,
                now,
                final(room).clients(),
                a,
            ),
{
    register_peer_at(room, id, token, socket, concurrent_limit, now_millis())
}

/// Registers a peer that connected with `id` and `token` over the connection
/// `socket`, with `now` as its last ping (see `admitted`).
pub fn register_peer_at(
    room: &mut Room,
    id: String,
    token: String,
    socket: u64,
    concurrent_limit: usize,
    now: u64,
) -> (a: Admission)
    ensures
        final(room).queues() == old(room).queues(),
        final(room).clients().dom().finite(),
        old(room).clients().dom().len() <= concurrent_limit ==> final(room).clients().dom().len()
            <= concurrent_limit,
        admitted(
            old(room).clients(),
            id@,
            token@,
            socket,
            concurrent_limit,
            now,
            final(room).clients(),
            a,
        ),
{
    proof {
        use_type_invariant(&*room);
        room.lemma_finite();
    }
    let existing = match room.get_client_by_id(id.as_str()) {
        Some(c) => Some(c.has_token(&token)),
        None => None,
    };
    match existing {
        Some(false) => {
            return Admission::Rejected(
                ErrorMessage {
                    msg_type: MessageType::IdTaken,
                    payload: ErrorPayload { msg: "ID is taken".to_string() },
                },
            );
        },
        Some(true) => {},
        None => {
            if room.client_count() >= concurrent_limit {
                return Admission::Rejected(
                    ErrorMessage {
                        msg_type: MessageType::Error,
                        payload: ErrorPayload {
                            msg: ErrorType::ConnectionLimitExceed.as_str().to_string(),
                        },
                    },
                );
            }
        },
    }
    let key = id.clone();
    let mut client = Client::new_at(id, token, now);
    client.set_socket(Some(socket));
    room.set_client(client, key);
    proof {
        use_type_invariant(&*room);
        room.lemma_finite();
    }
    Admission::Accepted { open: Message::new(MessageType::Open, None, None, None) }
}

/// `m` with its sender set to `src`.
pub open spec fn from_sender(m: MessageView, src: Seq<char>) -> MessageView {
    MessageView { src: Some(src), ..m }
}

/// Handles a message received from the peer `client_id`: its sender is set
/// to that peer, then the handler routes it.
pub fn on_client_message(
    room: &mut Room,
    handler: &MessageHandlerImpl,
    client_id: &String,
    message: Message,
) -> (r: (bool, Delivery))
    ensures
        dispatched(
            kind_for(handler.handlers(), message@.msg_type),
            old(room).clients(),
            old(room).queues(),
            from_sender(message@, client_id@),
            final(room).clients(),
            final(room).queues(),
            r,
        ),
{
    let ghost original = message@;
    let mut message = message;
    message.src = Some(client_id.clone());
    assert(message@ == from_sender(original, client_id@));
    handler.handle(room, message)
}

/// What the transport received on a peer's connection.
pub enum Frame {
    /// A text frame, with the message it holds, or none when the text is
    /// not a message.
    Text(Option<Message>),
    /// The peer closed the connection.
    Close,
    /// The connection failed.
    Failed,
    /// The connection ended.
    Ended,
    /// Any other frame (binary, ping, pong).
    Other,
}

/// What the transport does after a frame.
pub enum SessionStep {
    /// Keep reading, after carrying out the delivery.
    Continue(Delivery),
    /// Stop reading: the session is over.
    Stop,
}

/// The decision taken on a frame received from the peer `client_id`: a
/// message is handled (see `on_client_message`), text that is no message
/// and other frames are skipped, and a closed, failed or ended connection
/// ends the session.
pub fn on_frame(room: &mut Room, handler: &MessageHandlerImpl, client_id: &String, frame: Frame) -> (step:
    SessionStep)
    ensures
        match frame {
            Frame::Text(Some(m)) => step matches SessionStep::Continue(d) && exists|b: bool|
                dispatched(
                    kind_for(handler.handlers(), m@.msg_type),
                    old(room).clients(),
                    old(room).queues(),
                    from_sender(m@, client_id@),
                    final(room).clients(),
                    final(room).queues(),
                    (b, d),
                ),
            Frame::Text(None) | Frame::Other => {
                &&& step matches SessionStep::Continue(d) && d is Done
                &&& final(room).clients() == old(room).clients()
                &&& final(room).queues() == old(room).queues()
            },
            Frame::Close | Frame::Failed | Frame::Ended => {
                &&& step is Stop
                &&& final(room).clients() == old(room).clients()
                &&& final(room).queues() == old(room).queues()
            },
        },
{
    match frame {
        Frame::Text(Some(m)) => {
            let (_handled, d) = on_client_message(room, handler, client_id, m);
            SessionStep::Continue(d)
        },
        Frame::Text(None) | Frame::Other => SessionStep::Continue(Delivery::Done),
        Frame::Close | Frame::Failed | Frame::Ended => SessionStep::Stop,
    }
}

/// Ends the connection `socket` of the peer `id`: the peer is removed when
/// that connection is still the one it is registered with, and kept when it
/// has reconnected since. Tells whether it was removed.
pub fn release_connection(room: &mut Room, id: &str, socket: u64) -> (removed: bool)
    requires
        old(room).clients().contains_key(id@),
        old(room).clients()[id@].socket is Some,
    ensures
        final(room).queues() == old(room).queues(),
        removed == (old(room).clients()[id@].socket == Some(socket)),
        final(room).clients() == if removed {
            old(room).clients().remove(id@)
        } else {
            old(room).clients()
        },
{
    let current = match room.get_client_by_id(id) {
        Some(c) => c.get_socket(),
        None => None,
    };
    if current == Some(socket) {
        let _ = room.remove_client_by_id(id);
        true
    } else {
        false
    }
}

} // verus!
