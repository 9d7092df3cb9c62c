use vstd::prelude::*;
use crate::clock::now_millis;

verus! {

/// What the server keeps of a connected peer: its id, its token, the
/// connection that reaches it (a handle given by the transport, if any) and
/// the time of its last ping in milliseconds since the epoch.
pub trait ClientManage {
    fn get_id(&self) -> &str;

    fn get_token(&self) -> &str;

    fn get_socket(&self) -> Option<u64>;

    fn set_socket(&mut self, socket: Option<u64>);

    fn get_last_ping(&self) -> u64;

    fn set_last_ping(&mut self, last_ping: u64);
}

/// A peer known to the room.
pub struct Client {
    id: String,
    token: String,
    socket: Option<u64>,
    last_ping: u64,
}

/// The mathematical content of a peer.
pub struct ClientView {
    pub id: Seq<char>,
    pub token: Seq<char>,
    pub socket: Option<u64>,
    pub last_ping: u64,
}

impl View for Client {
    type V = ClientView;

    closed spec fn view(&self) -> ClientView {
        ClientView {
            id: self.id@,
            token: self.token@,
            socket: self.socket,
            last_ping: self.last_ping,
        }
    }
}

/// A clone is a snapshot of the peer: the same id, token, connection handle
/// and ping time. The handle names the same connection, but later changes
/// made through one value (a new connection, a new ping time) are not seen
/// through the other: the room holds the one record of each peer that
/// counts, and peers are updated through it.
impl Clone for Client {
    fn clone(&self) -> (r: Self)
        ensures
            r@ == self@,
    {
        Client {
            id: self.id.clone(),
            token: self.token.clone(),
            socket: self.socket,
            last_ping: self.last_ping,
        }
    }
}

impl Client {
    /// A peer with no connection yet, whose last ping is the current time.
    pub fn new(id: String, token: String) -> (c: Self)
        ensures
            c@.id == id@,
            c@.token == token@,
            c@.socket.is_none(),
            exists|now: u64| c@ == (ClientView { id: id@, token: token@, socket: None, last_ping: now }),
    {
        Self::new_at(id, token, now_millis())
    }

    /// A peer with no connection yet, whose last ping is `now`.
    pub fn new_at(id: String, token: String, now: u64) -> (c: Self)
        ensures
            c@ == (ClientView { id: id@, token: token@, socket: None, last_ping: now }),
    {
        Client { id, token, socket: None, last_ping: now }
    }

    /// Whether this peer's id is the given one.
    pub fn has_id(&self, id: &String) -> (b: bool)
        ensures
            b == (self@.id == id@),
    {
        self.id == *id
    }

    /// Whether this peer's token is the given one.
    pub fn has_token(&self, token: &String) -> (b: bool)
        ensures
            b == (self@.token == token@),
    {
        self.token == *token
    }

    /// The id as an owned string.
    pub fn id_string(&self) -> (s: String)
        ensures
            s@ == self@.id,
    {
        self.id.clone()
    }

    /// The connection to write to, or the error text of a peer that has
    /// none.
    pub fn send_target(&self) -> (r: Result<u64, String>)
        ensures
            match r {
                Ok(s) => self@.socket == Some(s),
                Err(e) => self@.socket.is_none() && e@ == "Socket not connected"@,
            },
    {
        match self.socket {
            Some(s) => Ok(s),
            None => Err("Socket not connected".to_string()),
        }
    }
}

impl ClientManage for Client {
    fn get_id(&self) -> (s: &str)
        ensures
            s@ == self@.id,
    {
        self.id.as_str()
    }

    fn get_token(&self) -> (s: &str)
        ensures
            s@ == self@.token,
    {
        self.token.as_str()
    }

    fn get_socket(&self) -> (s: Option<u64>)
        ensures
            s == self@.socket,
    {
        self.socket
    }

    fn set_socket(&mut self, socket: Option<u64>)
        ensures
            final(self)@ == (ClientView { socket, ..old(self)@ }),
    {
        self.socket = socket;
    }

    fn get_last_ping(&self) -> (t: u64)
        ensures
            t == self@.last_ping,
    {
        self.last_ping
    }

    fn set_last_ping(&mut self, last_ping: u64)
        ensures
            final(self)@ == (ClientView { last_ping, ..old(self)@ }),
    {
        self.last_ping = last_ping;
    }
}

} // verus!
