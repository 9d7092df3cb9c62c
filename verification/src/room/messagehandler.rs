use vstd::prelude::*;
use crate::assoc::{assoc_map, distinct_keys, has_key, lemma_assoc_index, lemma_assoc_push, lemma_assoc_update};
use crate::room::client::{ClientManage, ClientView};
use crate::room::message::{Message, MessageType, MessageView};
use crate::room::message_queue::QueueView;
use crate::room::{Room, RoomManage};

verus! {

/// What the transport has to do after the room has routed a message: write
/// the message to a connection, or nothing.
pub enum Delivery {
    Send { socket: u64, message: Message },
    Done,
}

/// `q1` is `q0` with `m` appended to the queue of `id`, a queue created
/// for it when there was none.
pub open spec fn enqueued(
    q0: Map<Seq<char>, QueueView>,
    id: Seq<char>,
    m: MessageView,
    q1: Map<Seq<char>, QueueView>,
) -> bool {
    &&& q1 == q0.insert(id, q1[id])
    &&& q1[id].messages == if q0.contains_key(id) {
        q0[id].messages.push(m)
    } else {
        seq![m]
    }
    &&& q0.contains_key(id) ==> q1[id].last_read == q0[id].last_read
}

/// Message types that are dropped rather than queued when their
/// destination is not connected.
pub open spec fn is_unqueued_type(t: MessageType) -> bool {
    t == MessageType::Leave || t == MessageType::Expire
}

/// How the room routes a message: from peers `c0` and queues `q0` to peers
/// `c1`, queues `q1` and what the transport must do.
///
/// - A message for a peer with a connection is handed to the transport.
/// - A message for a peer without a connection removes that peer, and the
///   sender, if known, is told to stop trying: a LEAVE from the removed peer
///   to the sender is routed in turn.
/// - A message for an unknown id is queued for it, unless it is a LEAVE or
///   an EXPIRE, which is dropped.
/// - A LEAVE without a destination removes its sender.
pub open spec fn transmitted(
    c0: Map<Seq<char>, ClientView>,
    q0: Map<Seq<char>, QueueView>,
    m: MessageView,
    c1: Map<Seq<char>, ClientView>,
    q1: Map<Seq<char>, QueueView>,
    d: Delivery,
) -> bool
    decreases c0.dom().len(),
    when c0.dom().finite()
{
    match m.dst {
        Some(dst) => if c0.contains_key(dst) {
            match c0[dst].socket {
                Some(s) => {
                    &&& c1 == c0
                    &&& q1 == q0
                    &&& d matches Delivery::Send { socket, message } && socket == s && message@
                        == m
                },
                None => match m.src {
                    Some(src) => transmitted(c0.remove(dst), q0, leave_view(dst, src), c1, q1, d),
                    None => c1 == c0.remove(dst) && q1 == q0 && d is Done,
                },
            }
        } else if !is_unqueued_type(m.msg_type) {
            c1 == c0 && enqueued(q0, dst, m, q1) && d is Done
        } else {
            c1 == c0 && q1 == q0 && d is Done
        },
        None => {
            &&& q1 == q0
            &&& d is Done
            &&& c1 == if m.msg_type == MessageType::Leave && m.src is Some {
                c0.remove(m.src.unwrap())
            } else {
                c0
            }
        },
    }
}

/// The LEAVE notice from `src` to `dst`.
pub open spec fn leave_view(src: Seq<char>, dst: Seq<char>) -> MessageView {
    MessageView {
        msg_type: MessageType::Leave,
        src: Some(src),
        dst: Some(dst),
        payload: None,
    }
}

/// Copies a string.
fn copy_string(s: &String) -> (r: String)
    ensures
        r@ == s@,
{
    s.clone()
}

/// Routes a signalling message through the room (see `transmitted`).
pub fn handle_transmission(room: &mut Room, message: Message) -> (d: Delivery)
    ensures
        ({
            let c0 = old(room).clients();
            let q0 = old(room).queues();
            let m = message@;
            &&& (m.dst is Some && c0.contains_key(m.dst.unwrap()) && c0[m.dst.unwrap()].socket is Some)
                ==> {
                &&& d matches Delivery::Send { socket, message: sent } && socket
                    == c0[m.dst.unwrap()].socket.unwrap() && sent@ == m
                &&& final(room).clients() == c0
                &&& final(room).queues() == q0
            }
            &&& (m.dst is Some && !c0.contains_key(m.dst.unwrap()) && m.msg_type
                != MessageType::Leave && m.msg_type != MessageType::Expire) ==> {
                &&& d is Done
                &&& final(room).clients() == c0
                &&& final(room).queues().contains_key(m.dst.unwrap())
                &&& final(room).queues()[m.dst.unwrap()].messages == if q0.contains_key(
                    m.dst.unwrap(),
                ) {
                    q0[m.dst.unwrap()].messages.push(m)
                } else {
                    seq![m]
                }
                &&& final(room).queues().remove(m.dst.unwrap()) == q0.remove(m.dst.unwrap())
            }
            &&& (m.dst is Some && !c0.contains_key(m.dst.unwrap()) && (m.msg_type
                == MessageType::Leave || m.msg_type == MessageType::Expire)) ==> {
                &&& d is Done
                &&& final(room).clients() == c0
                &&& final(room).queues() == q0
            }
            &&& (m.dst is Some && c0.contains_key(m.dst.unwrap()) && c0[m.dst.unwrap()].socket
                is None) ==> {
                &&& !final(room).clients().contains_key(m.dst.unwrap())
                &&& final(room).queues() == q0
            }
            &&& m.dst is None ==> {
                &&& d is Done
                &&& final(room).queues() == q0
                &&& final(room).clients() == (if m.msg_type == MessageType::Leave && m.src is Some {
                    c0.remove(m.src.unwrap())
                } else {
                    c0
                })
            }
            &&& (m.msg_type == MessageType::Leave || m.msg_type == MessageType::Expire)
                ==> final(room).queues() == q0
            &&& forall|k: Seq<char>| #[trigger]
                final(room).clients().contains_key(k) ==> c0.contains_key(k)
                    && final(room).clients()[k] == c0[k]
        }),
        transmitted(
            old(room).clients(),
            old(room).queues(),
            message@,
            final(room).clients(),
            final(room).queues(),
            d,
        ),
    decreases 3 * old(room).clients().dom().len() + 1,
{
    proof {
        use_type_invariant(&*room);
        room.lemma_finite();
    }
    let message_type = message.msg_type;
    match &message.dst {
        Some(dst_id) => {
            let found = match room.get_client_by_id(dst_id.as_str()) {
                Some(c) => Some((c.id_string(), c.get_socket())),
                None => None,
            };
            match found {
                Some((client_id, Some(socket))) => Delivery::Send { socket, message },
                Some((client_id, None)) => {
                    let dst = copy_string(dst_id);
                    let src = match &message.src {
                        Some(s) => Some(copy_string(s)),
                        None => None,
                    };
                    handle_connection_error(room, client_id, None, src, dst)
                },
                None => {
                    if message_type != MessageType::Leave && message_type != MessageType::Expire {
                        let dst = copy_string(dst_id);
                        room.add_message_to_queue(dst.as_str(), message);
                    }
                    Delivery::Done
                },
            }
        },
        None => {
            if message_type == MessageType::Leave {
                match &message.src {
                    Some(src_id) => {
                        let _ = room.remove_client_by_id(src_id.as_str());
                    },
                    None => {},
                }
            }
            Delivery::Done
        },
    }
}

/// Deals with a destination that cannot be written to: a peer without a
/// connection is removed (with a connection, the caller closes it before
/// calling), and the sender, if known, is told to stop trying: a LEAVE from
/// the destination to the sender is routed.
fn handle_connection_error(
    room: &mut Room,
    destination_id: String,
    socket: Option<u64>,
    src_id: Option<String>,
    dst_id: String,
) -> (d: Delivery)
    requires
        socket is None ==> old(room).clients().contains_key(destination_id@),
        socket is None ==> destination_id@ == dst_id@,
    ensures
        ({
            let c = if socket is None {
                old(room).clients().remove(dst_id@)
            } else {
                old(room).clients()
            };
            match src_id {
                Some(s) => transmitted(
                    c,
                    old(room).queues(),
                    leave_view(dst_id@, s@),
                    final(room).clients(),
                    final(room).queues(),
                    d,
                ),
                None => final(room).clients() == c && final(room).queues() == old(room).queues()
                    && d is Done,
            }
        }),
        final(room).queues() == old(room).queues(),
        forall|k: Seq<char>| #[trigger]
            final(room).clients().contains_key(k) ==> old(room).clients().contains_key(k)
                && final(room).clients()[k] == old(room).clients()[k],
        socket is None ==> !final(room).clients().contains_key(dst_id@),
    decreases 3 * old(room).clients().dom().len() + if socket is None {
        0int
    } else {
        2int
    },
{
    proof {
        use_type_invariant(&*room);
        room.lemma_finite();
    }
    if socket.is_none() {
        let _ = room.remove_client_by_id(destination_id.as_str());
        proof {
            use_type_invariant(&*room);
            room.lemma_finite();
        }
    }
    match src_id {
        Some(src) => {
            let leave = Message::new(MessageType::Leave, Some(dst_id), Some(src), None);
            handle_transmission(room, leave)
        },
        None => Delivery::Done,
    }
}

/// Deals with a failed write of `failed` to `socket`: the caller closes the
/// connection, then the sender of the failed message, if known, is told to
/// stop trying: a LEAVE from the failed destination to that sender is
/// routed.
pub fn handle_send_failure(room: &mut Room, failed: &Message, socket: u64) -> (d: Delivery)
    requires
        failed.dst is Some,
    ensures
        match failed@.src {
            Some(s) => transmitted(
                old(room).clients(),
                old(room).queues(),
                leave_view(failed@.dst.unwrap(), s),
                final(room).clients(),
                final(room).queues(),
                d,
            ),
            None => final(room).clients() == old(room).clients() && final(room).queues()
                == old(room).queues() && d is Done,
        },
{
    let dst = match &failed.dst {
        Some(d) => copy_string(d),
        None => String::new(),
    };
    let src = match &failed.src {
        Some(s) => Some(copy_string(s)),
        None => None,
    };
    let destination = copy_string(&dst);
    handle_connection_error(room, destination, Some(socket), src, dst)
}

/// Whether a delivery is still to be written, after the connections in
/// `failed` have failed in the same chain of deliveries: nothing is written
/// again to a connection that already failed (its own session removes its
/// peer), so a chain of LEAVE notices between two dead connections ends.
pub fn still_deliverable(d: &Delivery, failed: &Vec<u64>) -> (b: bool)
    ensures
        b == match *d {
            Delivery::Send { socket, .. } => !failed@.contains(socket),
            Delivery::Done => false,
        },
{
    match d {
        Delivery::Done => false,
        Delivery::Send { socket, .. } => {
            let n = failed.len();
            let mut i: usize = 0;
            while i < n
                invariant
                    n == failed@.len(),
                    i <= n,
                    forall|j: int| 0 <= j < i ==> failed@[j] != *socket,
                    match *d {
                        Delivery::Send { socket: s, .. } => s == *socket,
                        Delivery::Done => false,
                    },
                decreases n - i,
            {
                if failed[i] == *socket {
                    assert(failed@[i as int] == *socket);
                    assert(failed@.contains(*socket));
                    return false;
                }
                i = i + 1;
            }
            proof {
                if failed@.contains(*socket) {
                    let j = choose|j: int| 0 <= j < failed@.len() && failed@[j] == *socket;
                    assert(failed@[j] != *socket);
                }
            }
            true
        },
    }
}

/// The handlers a message type can be routed to.
#[derive(Debug, Clone, Copy, PartialEq, Eq, Structural)]
pub enum HandlerKind {
    /// Acknowledges a heartbeat.
    Heartbeat,
    /// Routes the message to its destination (see `transmitted`).
    Transmission,
}

/// The outcome of handling `m` with the handler `kind` (none when the type
/// has no handler): whether the message was handled, and the room and the
/// delivery afterwards.
pub open spec fn dispatched(
    kind: Option<HandlerKind>,
    c0: Map<Seq<char>, ClientView>,
    q0: Map<Seq<char>, QueueView>,
    m: MessageView,
    c1: Map<Seq<char>, ClientView>,
    q1: Map<Seq<char>, QueueView>,
    r: (bool, Delivery),
) -> bool {
    match kind {
        Some(HandlerKind::Transmission) => r.0 && transmitted(c0, q0, m, c1, q1, r.1),
        Some(HandlerKind::Heartbeat) => r.0 && r.1 is Done && c1 == c0 && q1 == q0,
        None => !r.0 && r.1 is Done && c1 == c0 && q1 == q0,
    }
}

/// The handler registered for a type in a table, if any.
pub open spec fn kind_for(t: Map<MessageType, HandlerKind>, mt: MessageType) -> Option<
    HandlerKind,
> {
    if t.contains_key(mt) {
        Some(t[mt])
    } else {
        None
    }
}

/// The table `t0` after the registrations `regs`, in order: each one
/// replaces the handler its type had.
pub open spec fn registered(
    t0: Map<MessageType, HandlerKind>,
    regs: Seq<(MessageType, HandlerKind)>,
) -> Map<MessageType, HandlerKind>
    decreases regs.len(),
{
    if regs.len() == 0 {
        t0
    } else {
        registered(t0, regs.drop_last()).insert(regs.last().0, regs.last().1)
    }
}

/// The handler of the last registration of `mt` among `regs`, if any.
pub open spec fn last_registration(regs: Seq<(MessageType, HandlerKind)>, mt: MessageType) -> Option<
    HandlerKind,
>
    decreases regs.len(),
{
    if regs.len() == 0 {
        None
    } else if regs.last().0 == mt {
        Some(regs.last().1)
    } else {
        last_registration(regs.drop_last(), mt)
    }
}

/// The table every message handler starts with: heartbeats are
/// acknowledged; OFFER, ANSWER, CANDIDATE, LEAVE and EXPIRE are routed.
pub open spec fn default_handlers() -> Map<MessageType, HandlerKind> {
    map![
        MessageType::Heartbeat => HandlerKind::Heartbeat,
        MessageType::Offer => HandlerKind::Transmission,
        MessageType::Answer => HandlerKind::Transmission,
        MessageType::Candidate => HandlerKind::Transmission,
        MessageType::Leave => HandlerKind::Transmission,
        MessageType::Expire => HandlerKind::Transmission,
    ]
}

/// A table from message types to handlers.
pub trait HandlersRegistry {
    fn register_handler(&mut self, message_type: MessageType, handler: HandlerKind);

    fn handle(&self, room: &mut Room, message: Message) -> (r: (bool, Delivery));
}

/// A table from message types to handlers, each type at most once.
pub struct HandlersRegistryImpl {
    handlers: Vec<(MessageType, HandlerKind)>,
}

impl HandlersRegistryImpl {
    #[verifier::type_invariant]
    closed spec fn inv(self) -> bool {
        distinct_keys(self.handlers@)
    }

    /// The table, by message type.
    pub closed spec fn handlers(&self) -> Map<MessageType, HandlerKind> {
        assoc_map(self.handlers@)
    }

    /// An empty table.
    pub fn new() -> (r: Self)
        ensures
            r.handlers() == Map::<MessageType, HandlerKind>::empty(),
    {
        let r = HandlersRegistryImpl { handlers: Vec::new() };
        assert(r.handlers() =~= Map::<MessageType, HandlerKind>::empty());
        r
    }

    /// The handler registered for a type, if any.
    pub fn lookup(&self, message_type: MessageType) -> (k: Option<HandlerKind>)
        ensures
            k == kind_for(self.handlers(), message_type),
    {
        proof {
            use_type_invariant(self);
        }
        let n = self.handlers.len();
        let mut i: usize = 0;
        while i < n
            invariant
                n == self.handlers@.len(),
                i <= n,
                distinct_keys(self.handlers@),
                forall|j: int| 0 <= j < i ==> self.handlers@[j].0 != message_type,
            decreases n - i,
        {
            if self.handlers[i].0 == message_type {
                proof {
                    lemma_assoc_index(self.handlers@, i as int);
                }
                return Some(self.handlers[i].1);
            }
            i = i + 1;
        }
        proof {
            assert(!has_key(self.handlers@, message_type));
        }
        None
    }
}

impl HandlersRegistry for HandlersRegistryImpl {
    /// Registers a handler for a type, replacing the one it had.
    fn register_handler(&mut self, message_type: MessageType, handler: HandlerKind)
        ensures
            final(self).handlers() == old(self).handlers().insert(message_type, handler),
    {
        proof {
            use_type_invariant(&*self);
        }
        let mut table: Vec<(MessageType, HandlerKind)> = Vec::new();
        std::mem::swap(&mut table, &mut self.handlers);
        let ghost before = table@;
        assert(before == old(self).handlers@);
        let n = table.len();
        let mut i: usize = 0;
        let mut found = false;
        while i < n && !found
            invariant
                n == table@.len(),
                table@ == before,
                i <= n,
                found ==> i < n && table@[i as int].0 == message_type,
                !found ==> forall|j: int| 0 <= j < i ==> table@[j].0 != message_type,
            decreases n - i + if found { 0int } else { 1int },
        {
            if table[i].0 == message_type {
                found = true;
            } else {
                i = i + 1;
            }
        }
        if found {
            proof {
                lemma_assoc_update(before, i as int, handler);
            }
            table.set(i, (message_type, handler));
        } else {
            proof {
                assert(!has_key(before, message_type));
                lemma_assoc_push(before, message_type, handler);
            }
            table.push((message_type, handler));
        }
        self.handlers = table;
    }

    /// Handles a message with the handler registered for its type.
    fn handle(&self, room: &mut Room, message: Message) -> (r: (bool, Delivery))
        ensures
            dispatched(
                kind_for(self.handlers(), message@.msg_type),
                old(room).clients(),
                old(room).queues(),
                message@,
                final(room).clients(),
                final(room).queues(),
                r,
            ),
    {
        match self.lookup(message.msg_type) {
            Some(HandlerKind::Heartbeat) => (true, Delivery::Done),
            Some(HandlerKind::Transmission) => {
                let d = handle_transmission(room, message);
                (true, d)
            },
            None => (false, Delivery::Done),
        }
    }
}

/// Handles the messages that peers send to the server.
pub trait MessageHandler {
    fn handle(&self, room: &mut Room, message: Message) -> (r: (bool, Delivery));
}

/// The server's message handler: a table of handlers filled with the
/// default ones.
pub struct MessageHandlerImpl {
    handlers_registry: HandlersRegistryImpl,
}

impl MessageHandlerImpl {
    /// The handler table in use.
    pub closed spec fn handlers(&self) -> Map<MessageType, HandlerKind> {
        self.handlers_registry.handlers()
    }

    /// A message handler with the default table.
    pub fn new() -> (h: Self)
        ensures
            h.handlers() == default_handlers(),
    {
        let mut handlers_registry = HandlersRegistryImpl::new();
        handlers_registry.register_handler(MessageType::Heartbeat, HandlerKind::Heartbeat);
        handlers_registry.register_handler(MessageType::Offer, HandlerKind::Transmission);
        handlers_registry.register_handler(MessageType::Answer, HandlerKind::Transmission);
        handlers_registry.register_handler(MessageType::Candidate, HandlerKind::Transmission);
        handlers_registry.register_handler(MessageType::Leave, HandlerKind::Transmission);
        handlers_registry.register_handler(MessageType::Expire, HandlerKind::Transmission);
        let h = MessageHandlerImpl { handlers_registry };
        assert(h.handlers() =~= default_handlers());
        h
    }
}

impl MessageHandler for MessageHandlerImpl {
    /// Handles a message with the handler its type has in the table.
    fn handle(&self, room: &mut Room, message: Message) -> (r: (bool, Delivery))
        ensures
            dispatched(
                kind_for(self.handlers(), message@.msg_type),
                old(room).clients(),
                old(room).queues(),
                message@,
                final(room).clients(),
                final(room).queues(),
                r,
            ),
    {
        self.handlers_registry.handle(room, message)
    }
}

} // verus!
