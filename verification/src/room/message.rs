use vstd::prelude::*;

verus! {

/// The kind of a signalling message, as it travels in the `type` field of
/// the JSON frames exchanged with PeerJS clients.
#[derive(Debug, Clone, Copy, PartialEq, Eq, Hash, Structural)]
pub enum MessageType {
    Open,
    Leave,
    Candidate,
    Offer,
    Answer,
    Expire,
    Heartbeat,
    IdTaken,
    Error,
}

/// The name of a message type on the wire.
pub open spec fn wire_name(t: MessageType) -> Seq<char> {
    match t {
        MessageType::Open => "OPEN"@,
        MessageType::Leave => "LEAVE"@,
        MessageType::Candidate => "CANDIDATE"@,
        MessageType::Offer => "OFFER"@,
        MessageType::Answer => "ANSWER"@,
        MessageType::Expire => "EXPIRE"@,
        MessageType::Heartbeat => "HEARTBEAT"@,
        MessageType::IdTaken => "ID-TAKEN"@,
        MessageType::Error => "ERROR"@,
    }
}

/// Signalling messages carry session descriptions and ICE candidates
/// between peers.
pub open spec fn is_signaling_type(t: MessageType) -> bool {
    t == MessageType::Offer || t == MessageType::Answer || t == MessageType::Candidate
}

impl MessageType {
    /// The wire name of this message type.
    pub fn as_str(&self) -> (s: &'static str)
        ensures
            s@ == wire_name(*self),
    {
        match self {
            MessageType::Open => "OPEN",
            MessageType::Leave => "LEAVE",
            MessageType::Candidate => "CANDIDATE",
            MessageType::Offer => "OFFER",
            MessageType::Answer => "ANSWER",
            MessageType::Expire => "EXPIRE",
            MessageType::Heartbeat => "HEARTBEAT",
            MessageType::IdTaken => "ID-TAKEN",
            MessageType::Error => "ERROR",
        }
    }

    /// The wire name of this message type as an owned string (what the
    /// type's textual form is).
    pub fn to_string(&self) -> (s: String)
        ensures
            s@ == wire_name(*self),
    {
        self.as_str().to_string()
    }
}

/// An error notice sent to a client: its type and an optional text.
pub struct ErrorMessage {
    pub msg_type: MessageType,
    pub payload: Option<String>,
}

/// A signalling message. The payload is kept as the JSON text of the
/// client's `payload` field; the server never looks inside it.
pub struct Message {
    pub msg_type: MessageType,
    pub src: Option<String>,
    pub dst: Option<String>,
    pub payload: Option<String>,
}

/// The mathematical content of a message.
pub struct MessageView {
    pub msg_type: MessageType,
    pub src: Option<Seq<char>>,
    pub dst: Option<Seq<char>>,
    pub payload: Option<Seq<char>>,
}

impl View for Message {
    type V = MessageView;

    open spec fn view(&self) -> MessageView {
        MessageView {
            msg_type: self.msg_type,
            src: self.src.deep_view(),
            dst: self.dst.deep_view(),
            payload: self.payload.deep_view(),
        }
    }
}

/// Copies an optional string, keeping its content.
pub fn clone_opt_string(s: &Option<String>) -> (r: Option<String>)
    ensures
        r.deep_view() == s.deep_view(),
{
    match s {
        Some(x) => Some(x.clone()),
        None => None,
    }
}

impl Clone for Message {
    fn clone(&self) -> (r: Self)
        ensures
            r@ == self@,
    {
        Message {
            msg_type: self.msg_type,
            src: clone_opt_string(&self.src),
            dst: clone_opt_string(&self.dst),
            payload: clone_opt_string(&self.payload),
        }
    }
}

impl Message {
    /// Builds a message from its four parts.
    pub fn new(
        msg_type: MessageType,
        src: Option<String>,
        dst: Option<String>,
        payload: Option<String>,
    ) -> (m: Self)
        ensures
            m.msg_type == msg_type,
            m.src == src,
            m.dst == dst,
            m.payload == payload,
    {
        Message { msg_type, src, dst, payload }
    }

    /// Builds a message that carries a payload.
    pub fn with_payload(
        msg_type: MessageType,
        src: Option<String>,
        dst: Option<String>,
        payload: String,
    ) -> (m: Self)
        ensures
            m.msg_type == msg_type,
            m.src == src,
            m.dst == dst,
            m.payload == Some(payload),
    {
        Self::new(msg_type, src, dst, Some(payload))
    }

    /// Builds a message without a payload.
    pub fn without_payload(msg_type: MessageType, src: Option<String>, dst: Option<String>) -> (m:
        Self)
        ensures
            m.msg_type == msg_type,
            m.src == src,
            m.dst == dst,
            m.payload.is_none(),
    {
        Self::new(msg_type, src, dst, None)
    }

    /// Whether this is a signalling message (OFFER, ANSWER or CANDIDATE).
    pub fn is_signaling(&self) -> (b: bool)
        ensures
            b == is_signaling_type(self.msg_type),
    {
        match self.msg_type {
            MessageType::Offer | MessageType::Answer | MessageType::Candidate => true,
            _ => false,
        }
    }

    /// Whether this is a control message: any message that is not a
    /// signalling one.
    pub fn is_control(&self) -> (b: bool)
        ensures
            b == !is_signaling_type(self.msg_type),
    {
        !self.is_signaling()
    }
}

} // verus!
