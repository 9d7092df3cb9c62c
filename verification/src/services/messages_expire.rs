use vstd::prelude::*;
use crate::assoc::{lemma_push_fresh, lemma_take_step};
use crate::clock::now_millis;
use crate::room::message::{Message, MessageView};
use crate::room::message_queue::{Queue, QueueView};
use crate::room::messagehandler::{default_handlers, HandlerKind, MessageHandlerImpl};
use crate::room::{string_views, Room, RoomManage};
use crate::room::message::MessageType;

verus! {

/// The timing settings of message expiry.
pub trait IConfig {
    /// How often queued messages are checked, in milliseconds.
    fn cleanup_out_msgs(&self) -> u64;

    /// How long a queue may go unread before it is dropped, in
    /// milliseconds.
    fn expire_timeout(&self) -> u64;
}

/// Message expiry settings given by value.
#[derive(Clone, Copy)]
pub struct CustomConfig {
    pub cleanup_out_msgs: u64,
    pub expire_timeout: u64,
}

impl IConfig for CustomConfig {
    fn cleanup_out_msgs(&self) -> (r: u64)
        ensures
            r == self.cleanup_out_msgs,
    {
        self.cleanup_out_msgs
    }

    fn expire_timeout(&self) -> (r: u64)
        ensures
            r == self.expire_timeout,
    {
        self.expire_timeout
    }
}

/// A time stamp `last` has expired at `now` when at least `timeout`
/// milliseconds have passed since it; a stamp later than `now` has not.
pub open spec fn is_expired(last: u64, now: u64, timeout: u64) -> bool {
    last <= now && now - last >= timeout
}

/// The text of an optional id, empty when there is none.
pub open spec fn text_or_empty(s: Option<Seq<char>>) -> Seq<char> {
    match s {
        Some(t) => t,
        None => Seq::empty(),
    }
}

/// The key under which an expired message is noted: its sender and its
/// destination joined by an underscore.
pub open spec fn notice_key(m: MessageView) -> Seq<char> {
    text_or_empty(m.src) + "_"@ + text_or_empty(m.dst)
}

/// The queues of `q0` that have not expired at `now`.
pub open spec fn unexpired(q0: Map<Seq<char>, QueueView>, now: u64, timeout: u64) -> Map<
    Seq<char>,
    QueueView,
> {
    q0.restrict(Set::new(|k: Seq<char>| !is_expired(q0[k].last_read, now, timeout)))
}

/// `s` is the notice key of a message in a queue of `q0` that has expired
/// at `now`, among the ids that `within` holds.
pub open spec fn is_notice_within(
    q0: Map<Seq<char>, QueueView>,
    now: u64,
    timeout: u64,
    within: Seq<Seq<char>>,
    s: Seq<char>,
) -> bool {
    exists|k: Seq<char>, j: int|
        within.contains(k) && q0.contains_key(k) && is_expired(q0[k].last_read, now, timeout) && 0
            <= j < q0[k].messages.len() && #[trigger] notice_key(q0[k].messages[j]) == s
}

/// `s` is the notice key of a message in a queue of `q0` that has expired
/// at `now`.
pub open spec fn is_notice(
    q0: Map<Seq<char>, QueueView>,
    now: u64,
    timeout: u64,
    s: Seq<char>,
) -> bool {
    exists|k: Seq<char>, j: int|
        q0.contains_key(k) && is_expired(q0[k].last_read, now, timeout) && 0 <= j
            < q0[k].messages.len() && #[trigger] notice_key(q0[k].messages[j]) == s
}

/// The notice key of a message.
fn message_notice_key(m: &Message) -> (key: String)
    ensures
        key@ == notice_key(m@),
{
    let mut key = String::new();
    match &m.src {
        Some(s) => key.append(s.as_str()),
        None => {},
    }
    key.append("_");
    match &m.dst {
        Some(d) => key.append(d.as_str()),
        None => {},
    }
    assert(key@ =~= notice_key(m@));
    key
}

/// Whether a list of strings holds the given one.
fn contains_string(v: &Vec<String>, s: &String) -> (b: bool)
    ensures
        b == string_views(v@).contains(s@),
{
    let n = v.len();
    let mut i: usize = 0;
    while i < n
        invariant
            n == v@.len(),
            i <= n,
            forall|j: int| 0 <= j < i ==> v@[j]@ != s@,
        decreases n - i,
    {
        if v[i] == *s {
            assert(string_views(v@)[i as int] == s@);
            return true;
        }
        i = i + 1;
    }
    proof {
        if string_views(v@).contains(s@) {
            let j = choose|j: int| 0 <= j < string_views(v@).len() && string_views(v@)[j] == s@;
            assert(v@[j]@ == s@);
        }
    }
    false
}

/// Drops every queue of the room that has gone unread for at least
/// `expire_timeout` milliseconds at time `now`, and returns the notice keys
/// (sender and destination) of the messages dropped, each once.
pub fn prune_outstanding_at(room: &mut Room, expire_timeout: u64, now: u64) -> (seen: Vec<String>)
    ensures
        forall|k: Seq<char>| #[trigger]
            final(room).queues().contains_key(k) <==> old(room).queues().contains_key(k) && !(old(
                room,
            ).queues()[k].last_read <= now && now - old(room).queues()[k].last_read
                >= expire_timeout),
        forall|k: Seq<char>| #[trigger]
            final(room).queues().contains_key(k) ==> final(room).queues()[k] == old(
                room,
            ).queues()[k],
        final(room).clients() == old(room).clients(),
        final(room).queues() == unexpired(old(room).queues(), now, expire_timeout),
        string_views(seen@).no_duplicates(),
        forall|s: Seq<char>| #[trigger]
            string_views(seen@).contains(s) <==> is_notice(
                old(room).queues(),
                now,
                expire_timeout,
                s,
            ),
{
    let ghost q0 = room.queues();
    let ghost c0 = room.clients();
    let ids = room.get_clients_ids_with_queue();
    let ghost ks = string_views(ids@);
    let n = ids.len();
    let mut seen: Vec<String> = Vec::new();
    let mut i: usize = 0;
    while i < n
        invariant
            n == ids@.len(),
            ks == string_views(ids@),
            ks.no_duplicates(),
            forall|k: Seq<char>| #[trigger] ks.contains(k) <==> q0.contains_key(k),
            i <= n,
            room.clients() == c0,
            forall|k: Seq<char>| #[trigger]
                room.queues().contains_key(k) <==> q0.contains_key(k) && !(ks.take(
                    i as int,
                ).contains(k) && is_expired(q0[k].last_read, now, expire_timeout)),
            forall|k: Seq<char>| #[trigger]
                room.queues().contains_key(k) ==> room.queues()[k] == q0[k],
            string_views(seen@).no_duplicates(),
            forall|s: Seq<char>| #[trigger]
                string_views(seen@).contains(s) <==> is_notice_within(
                    q0,
                    now,
                    expire_timeout,
                    ks.take(i as int),
                    s,
                ),
        decreases n - i,
    {
        let id = &ids[i];
        let ghost k = id@;
        let ghost p0 = ks.take(i as int);
        let ghost p1 = ks.take(i + 1);
        proof {
            assert(ks[i as int] == k);
            assert(ks.contains(k));
            lemma_take_step(ks, i as int);
        }
        let expired_messages = match room.get_message_queue_by_id(id.as_str()) {
            Some(queue) => {
                let last_read_at = queue.get_last_read_time();
                if last_read_at <= now && now - last_read_at >= expire_timeout {
                    Some(queue.get_messages())
                } else {
                    None
                }
            },
            None => None,
        };
        match expired_messages {
            Some(messages) => {
                let ghost qm = q0[k].messages;
                let m_len = messages.len();
                let mut j: usize = 0;
                while j < m_len
                    invariant
                        m_len == messages@.len(),
                        j <= m_len,
                        qm.len() == m_len,
                        forall|x: int| 0 <= x < m_len ==> #[trigger] messages@[x]@ == qm[x],
                        string_views(seen@).no_duplicates(),
                        forall|s: Seq<char>| #[trigger]
                            string_views(seen@).contains(s) <==> is_notice_within(
                                q0,
                                now,
                                expire_timeout,
                                p0,
                                s,
                            ) || exists|x: int| 0 <= x < j && #[trigger] notice_key(qm[x]) == s,
                    decreases m_len - j,
                {
                    let key = message_notice_key(&messages[j]);
                    let ghost kv = key@;
                    let ghost before = seen@;
                    let present = contains_string(&seen, &key);
                    if !present {
                        seen.push(key);
                    }
                    proof {
                        let sv = string_views(seen@);
                        let bv = string_views(before);
                        if !present {
                            assert(sv =~= bv.push(kv));
                            lemma_push_fresh(bv, kv);
                        } else {
                            assert(sv == bv);
                        }
                        assert(sv.contains(kv));
                        assert forall|t: Seq<char>| #[trigger] sv.contains(t) <==> bv.contains(t)
                            || t == kv by {}
                        assert(notice_key(qm[j as int]) == kv);
                        assert forall|t: Seq<char>| #[trigger]
                            string_views(seen@).contains(t) <==> is_notice_within(
                                q0,
                                now,
                                expire_timeout,
                                p0,
                                t,
                            ) || exists|x: int| 0 <= x < j + 1 && #[trigger] notice_key(qm[x])
                                == t by {
                            assert(bv.contains(t) <==> is_notice_within(
                                q0,
                                now,
                                expire_timeout,
                                p0,
                                t,
                            ) || exists|x: int| 0 <= x < j && #[trigger] notice_key(qm[x]) == t);
                            if exists|x: int| 0 <= x < j + 1 && #[trigger] notice_key(qm[x]) == t {
                                let x = choose|x: int|
                                    0 <= x < j + 1 && #[trigger] notice_key(qm[x]) == t;
                                if x < j {
                                    assert(exists|y: int|
                                        0 <= y < j && #[trigger] notice_key(qm[y]) == t);
                                }
                            }
                            if t == kv {
                                assert(exists|y: int|
                                    0 <= y < j + 1 && #[trigger] notice_key(qm[y]) == t);
                            }
                            if exists|x: int| 0 <= x < j && #[trigger] notice_key(qm[x]) == t {
                                let x = choose|x: int| 0 <= x < j && #[trigger] notice_key(qm[x]) == t;
                                assert(exists|y: int|
                                    0 <= y < j + 1 && #[trigger] notice_key(qm[y]) == t);
                            }
                        }
                    }
                    j = j + 1;
                }
                room.clear_message_queue(id.as_str());
                proof {
                    assert forall|s: Seq<char>| #[trigger]
                        string_views(seen@).contains(s) <==> is_notice_within(
                            q0,
                            now,
                            expire_timeout,
                            p1,
                            s,
                        ) by {
                        if exists|x: int| 0 <= x < m_len && #[trigger] notice_key(qm[x]) == s {
                            let x = choose|x: int| 0 <= x < m_len && #[trigger] notice_key(qm[x]) == s;
                            assert(p1[i as int] == k);
                            assert(p1.contains(k));
                            assert(notice_key(q0[k].messages[x]) == s);
                        }
                        if is_notice_within(q0, now, expire_timeout, p1, s) {
                            let (k2, x) = choose|k2: Seq<char>, x: int|
                                p1.contains(k2) && q0.contains_key(k2) && is_expired(
                                    q0[k2].last_read,
                                    now,
                                    expire_timeout,
                                ) && 0 <= x < q0[k2].messages.len() && #[trigger] notice_key(
                                    q0[k2].messages[x],
                                ) == s;
                            if k2 == k {
                                assert(notice_key(qm[x]) == s);
                            }
                        }
                    }
                }
            },
            None => {
                proof {
                    assert forall|s: Seq<char>| #[trigger]
                        string_views(seen@).contains(s) <==> is_notice_within(
                            q0,
                            now,
                            expire_timeout,
                            p1,
                            s,
                        ) by {
                        if is_notice_within(q0, now, expire_timeout, p1, s) {
                            let (k2, x) = choose|k2: Seq<char>, x: int|
                                p1.contains(k2) && q0.contains_key(k2) && is_expired(
                                    q0[k2].last_read,
                                    now,
                                    expire_timeout,
                                ) && 0 <= x < q0[k2].messages.len() && #[trigger] notice_key(
                                    q0[k2].messages[x],
                                ) == s;
                            assert(p1.contains(k2));
                        }
                    }
                }
            },
        }
        i = i + 1;
    }
    proof {
        assert(ks.take(n as int) =~= ks);
        assert(room.queues() =~= unexpired(q0, now, expire_timeout));
        assert forall|s: Seq<char>| #[trigger]
            string_views(seen@).contains(s) <==> is_notice(q0, now, expire_timeout, s) by {
            if is_notice(q0, now, expire_timeout, s) {
                let (k2, x) = choose|k2: Seq<char>, x: int|
                    q0.contains_key(k2) && is_expired(q0[k2].last_read, now, expire_timeout) && 0
                        <= x < q0[k2].messages.len() && #[trigger] notice_key(q0[k2].messages[x])
                        == s;
                assert(ks.contains(k2));
                assert(is_notice_within(q0, now, expire_timeout, ks, s));
            }
        }
    }
    seen
}

/// The periodic expiry of queued messages: the room it works on, its
/// timing settings and the handler that expiry notices would go through.
/// The timer that runs it belongs to the transport.
pub struct MessagesExpire<R> {
    realm: R,
    config: CustomConfig,
    message_handler: MessageHandlerImpl,
}

impl<R> MessagesExpire<R> {
    /// The room handle.
    pub closed spec fn realm_spec(&self) -> R {
        self.realm
    }

    /// The timing settings.
    pub closed spec fn config_spec(&self) -> CustomConfig {
        self.config
    }

    /// The handler table of the message handler.
    pub closed spec fn handlers(&self) -> Map<MessageType, HandlerKind> {
        self.message_handler.handlers()
    }

    /// Puts the parts together.
    pub fn new(realm: R, config: CustomConfig, message_handler: MessageHandlerImpl) -> (e: Self)
        ensures
            e.realm_spec() == realm,
            e.config_spec() == config,
            e.handlers() == message_handler.handlers(),
    {
        MessagesExpire { realm, config, message_handler }
    }

    /// A builder with nothing set but the default message handler.
    pub fn builder() -> (b: MessagesExpireBuilder<R>)
        ensures
            b.realm_spec().is_none(),
            b.config_spec().is_none(),
            b.handlers() == default_handlers(),
    {
        MessagesExpireBuilder::new()
    }

    /// The room handle.
    pub fn realm(&self) -> (r: &R)
        ensures
            *r == self.realm_spec(),
    {
        &self.realm
    }

    /// The timing settings.
    pub fn config(&self) -> (c: CustomConfig)
        ensures
            c == self.config_spec(),
    {
        self.config
    }

    /// Drops the queues of `room` that have expired at `now` under these
    /// settings (see `prune_outstanding_at`).
    pub fn prune_outstanding_at(&self, room: &mut Room, now: u64) -> (seen: Vec<String>)
        ensures
            final(room).clients() == old(room).clients(),
            final(room).queues() == unexpired(
                old(room).queues(),
                now,
                self.config_spec().expire_timeout,
            ),
            string_views(seen@).no_duplicates(),
            forall|s: Seq<char>| #[trigger]
                string_views(seen@).contains(s) <==> is_notice(
                    old(room).queues(),
                    now,
                    self.config_spec().expire_timeout,
                    s,
                ),
    {
        prune_outstanding_at(room, self.config.expire_timeout(), now)
    }

    /// Drops the queues of `room` that have expired at the current time
    /// under these settings.
    pub fn prune_outstanding(&self, room: &mut Room) -> (seen: Vec<String>)
        ensures
            final(room).clients() == old(room).clients(),
            exists|now: u64|
                {
                    &&& final(room).queues() == unexpired(
                        old(room).queues(),
                        now,
                        self.config_spec().expire_timeout,
                    )
                    &&& forall|s: Seq<char>| #[trigger]
                        string_views(seen@).contains(s) <==> is_notice(
                            old(room).queues(),
                            now,
                            self.config_spec().expire_timeout,
                            s,
                        )
                },
            string_views(seen@).no_duplicates(),
    {
        let now = now_millis();
        self.prune_outstanding_at(room, now)
    }
}

/// Collects the parts of a `MessagesExpire`; the room and the settings
/// must be given, the message handler defaults to the standard one.
pub struct MessagesExpireBuilder<R> {
    realm: Option<R>,
    config: Option<CustomConfig>,
    message_handler: MessageHandlerImpl,
}

impl<R> MessagesExpireBuilder<R> {
    /// The room handle, if set.
    pub closed spec fn realm_spec(&self) -> Option<R> {
        self.realm
    }

    /// The settings, if set.
    pub closed spec fn config_spec(&self) -> Option<CustomConfig> {
        self.config
    }

    /// The handler table of the message handler.
    pub closed spec fn handlers(&self) -> Map<MessageType, HandlerKind> {
        self.message_handler.handlers()
    }

    /// A builder with nothing set but the default message handler.
    pub fn new() -> (b: Self)
        ensures
            b.realm_spec().is_none(),
            b.config_spec().is_none(),
            b.handlers() == default_handlers(),
    {
        MessagesExpireBuilder { realm: None, config: None, message_handler: MessageHandlerImpl::new() }
    }

    /// Sets the room handle.
    pub fn realm(self, realm: R) -> (b: Self)
        ensures
            b.realm_spec() == Some(realm),
            b.config_spec() == self.config_spec(),
            b.handlers() == self.handlers(),
    {
        MessagesExpireBuilder { realm: Some(realm), config: self.config, message_handler: self.message_handler }
    }

    /// Sets the timing settings.
    pub fn config(self, config: CustomConfig) -> (b: Self)
        ensures
            b.realm_spec() == self.realm_spec(),
            b.config_spec() == Some(config),
            b.handlers() == self.handlers(),
    {
        MessagesExpireBuilder { realm: self.realm, config: Some(config), message_handler: self.message_handler }
    }

    /// Sets the message handler.
    pub fn message_handler(self, handler: MessageHandlerImpl) -> (b: Self)
        ensures
            b.realm_spec() == self.realm_spec(),
            b.config_spec() == self.config_spec(),
            b.handlers() == handler.handlers(),
    {
        MessagesExpireBuilder { realm: self.realm, config: self.config, message_handler: handler }
    }

    /// The assembled `MessagesExpire`, or the error naming the first
    /// missing part: the room before the settings.
    pub fn build(self) -> (r: Result<MessagesExpire<R>, &'static str>)
        ensures
            self.realm_spec() is None ==> (r matches Err(e) && e@ == "Realm is required"@),
            self.realm_spec() is Some && self.config_spec() is None ==> (r matches Err(e) && e@
                == "Config is required"@),
            self.realm_spec() is Some && self.config_spec() is Some ==> (r matches Ok(m) && {
                &&& m.realm_spec() == self.realm_spec().unwrap()
                &&& m.config_spec() == self.config_spec().unwrap()
                &&& m.handlers() == self.handlers()
            }),
    {
        let realm = match self.realm {
            Some(r) => r,
            None => {
                return Err("Realm is required");
            },
        };
        let config = match self.config {
            Some(c) => c,
            None => {
                return Err("Config is required");
            },
        };
        Ok(MessagesExpire::new(realm, config, self.message_handler))
    }
}

} // verus!
