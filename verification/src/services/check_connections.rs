use vstd::prelude::*;
use crate::assoc::{lemma_push_fresh, lemma_take_step};
use crate::clock::now_millis;
use crate::room::client::{Client, ClientManage, ClientView};
use crate::room::{string_views, Room, RoomManage};
use crate::services::messages_expire::is_expired;

verus! {

/// How long the check waits between two rounds when none is given, in
/// seconds.
pub const DEFAULT_CHECK_INTERVAL: u64 = 300;

/// The liveness setting of the connection check.
pub trait IConfig {
    /// How long a peer may go without a ping before it is dropped, in
    /// milliseconds.
    fn alive_timeout(&self) -> u64;
}

/// Liveness settings given by value.
#[derive(Clone, Copy)]
pub struct CustomConfig {
    pub alive_timeout: u64,
}

impl IConfig for CustomConfig {
    fn alive_timeout(&self) -> (r: u64)
        ensures
            r == self.alive_timeout,
    {
        self.alive_timeout
    }
}

/// The peer `k` of `c0` has gone without a ping for `timeout`
/// milliseconds at `now`.
pub open spec fn is_stale(c0: Map<Seq<char>, ClientView>, now: u64, timeout: u64, k: Seq<char>) -> bool {
    c0.contains_key(k) && is_expired(c0[k].last_ping, now, timeout)
}

/// The ids of the peers of `c0` that are stale at `now`.
pub open spec fn stale_ids(c0: Map<Seq<char>, ClientView>, now: u64, timeout: u64) -> Set<Seq<char>> {
    Set::new(|k: Seq<char>| is_stale(c0, now, timeout, k))
}

/// The peers of `c0` that are not stale at `now`.
pub open spec fn alive(c0: Map<Seq<char>, ClientView>, now: u64, timeout: u64) -> Map<
    Seq<char>,
    ClientView,
> {
    c0.restrict(Set::new(|k: Seq<char>| !is_stale(c0, now, timeout, k)))
}

/// The ids of a list of peers.
pub open spec fn client_ids(s: Seq<Client>) -> Seq<Seq<char>> {
    s.map_values(|c: Client| c@.id)
}

/// What the check hands back of a dropped peer: the peer as it was, with
/// no connection.
pub open spec fn disconnected(c: ClientView) -> ClientView {
    ClientView { socket: None, ..c }
}

/// Drops every peer that has gone without a ping for at least
/// `alive_timeout` milliseconds at time `now`, with the queue held for it,
/// and returns the dropped peers, each once and without connection.
pub fn check_connections_at(room: &mut Room, alive_timeout: u64, now: u64) -> (closed: Vec<Client>)
    ensures
        forall|k: Seq<char>| #[trigger]
            final(room).clients().contains_key(k) <==> old(room).clients().contains_key(k) && !(old(
                room,
            ).clients()[k].last_ping <= now && now - old(room).clients()[k].last_ping
                >= alive_timeout),
        forall|k: Seq<char>| #[trigger]
            final(room).clients().contains_key(k) ==> final(room).clients()[k] == old(
                room,
            ).clients()[k],
        forall|k: Seq<char>|
            #![trigger old(room).clients().contains_key(k)]
            old(room).clients().contains_key(k) && !final(room).clients().contains_key(k)
                ==> !final(room).queues().contains_key(k),
        final(room).clients() == alive(old(room).clients(), now, alive_timeout),
        final(room).queues() == old(room).queues().remove_keys(
            stale_ids(old(room).clients(), now, alive_timeout),
        ),
        client_ids(closed@).no_duplicates(),
        forall|k: Seq<char>| #[trigger]
            client_ids(closed@).contains(k) <==> is_stale(old(room).clients(), now, alive_timeout, k),
        forall|i: int|
            0 <= i < closed@.len() ==> #[trigger] closed@[i]@ == disconnected(
                old(room).clients()[closed@[i]@.id],
            ),
{
    let ghost c0 = room.clients();
    let ghost q0 = room.queues();
    let ids = room.get_clients_ids();
    let ghost ks = string_views(ids@);
    let n = ids.len();
    let mut closed: Vec<Client> = Vec::new();
    let mut i: usize = 0;
    while i < n
        invariant
            n == ids@.len(),
            ks == string_views(ids@),
            ks.no_duplicates(),
            forall|k: Seq<char>| #[trigger] ks.contains(k) <==> c0.contains_key(k),
            i <= n,
            forall|k: Seq<char>| #[trigger]
                room.clients().contains_key(k) <==> c0.contains_key(k) && !(ks.take(
                    i as int,
                ).contains(k) && is_stale(c0, now, alive_timeout, k)),
            forall|k: Seq<char>| #[trigger]
                room.clients().contains_key(k) ==> room.clients()[k] == c0[k],
            forall|k: Seq<char>| #[trigger]
                room.queues().contains_key(k) <==> q0.contains_key(k) && !(ks.take(
                    i as int,
                ).contains(k) && is_stale(c0, now, alive_timeout, k)),
            forall|k: Seq<char>| #[trigger]
                room.queues().contains_key(k) ==> room.queues()[k] == q0[k],
            client_ids(closed@).no_duplicates(),
            forall|k: Seq<char>| #[trigger]
                client_ids(closed@).contains(k) <==> ks.take(i as int).contains(k) && is_stale(
                    c0,
                    now,
                    alive_timeout,
                    k,
                ),
            forall|x: int|
                0 <= x < closed@.len() ==> #[trigger] closed@[x]@ == disconnected(
                    c0[closed@[x]@.id],
                ),
        decreases n - i,
    {
        let id = &ids[i];
        let ghost k = id@;
        let ghost p0 = ks.take(i as int);
        let ghost p1 = ks.take(i + 1);
        proof {
            assert(ks[i as int] == k);
            assert(ks.contains(k));
            lemma_take_step(ks, i as int);
        }
        let found = match room.get_client_by_id(id.as_str()) {
            Some(c) => Some(c.clone()),
            None => None,
        };
        match found {
            Some(client) => {
                let last_ping = client.get_last_ping();
                if last_ping <= now && now - last_ping >= alive_timeout {
                    room.clear_message_queue(id.as_str());
                    let _ = room.remove_client_by_id(id.as_str());
                    let mut client = client;
                    client.set_socket(None);
                    let ghost before = closed@;
                    closed.push(client);
                    proof {
                        assert(client_ids(closed@) =~= client_ids(before).push(k));
                        let cv = client_ids(closed@);
                        let bv = client_ids(before);
                        assert(!bv.contains(k));
                        lemma_push_fresh(bv, k);
                        assert forall|x: int|
                            0 <= x < closed@.len() implies #[trigger] closed@[x]@ == disconnected(
                                c0[closed@[x]@.id],
                            ) by {
                            if x < before.len() {
                                assert(closed@[x] == before[x]);
                            }
                        }
                    }
                } else {
                    proof {
                        assert(!is_stale(c0, now, alive_timeout, k));
                    }
                }
            },
            None => {
                proof {
                    assert(!c0.contains_key(k));
                }
            },
        }
        i = i + 1;
    }
    proof {
        assert(ks.take(n as int) =~= ks);
        assert(room.clients() =~= alive(c0, now, alive_timeout));
        assert(room.queues() =~= q0.remove_keys(stale_ids(c0, now, alive_timeout)));
    }
    closed
}

/// The periodic check of peers' liveness: its interval in seconds, the
/// room it works on, its setting and what to call on each dropped peer.
/// The timer that runs it belongs to the transport.
pub struct CheckBrokenConnections<R, C> {
    pub check_interval: u64,
    realm: R,
    config: CustomConfig,
    on_close: Option<C>,
}

impl<R, C> CheckBrokenConnections<R, C> {
    /// The room handle.
    pub closed spec fn realm_spec(&self) -> R {
        self.realm
    }

    /// The interval between rounds, in seconds.
    pub closed spec fn interval(&self) -> u64 {
        self.check_interval
    }

    /// The liveness setting.
    pub closed spec fn config_spec(&self) -> CustomConfig {
        self.config
    }

    /// The callback for dropped peers, if any.
    pub closed spec fn on_close_spec(&self) -> Option<C> {
        self.on_close
    }

    /// Puts the parts together; the interval defaults to
    /// `DEFAULT_CHECK_INTERVAL` seconds.
    pub fn new(realm: R, config: CustomConfig, check_interval: Option<u64>, on_close: Option<C>) -> (c:
        Self)
        ensures
            c.interval() == match check_interval {
                Some(s) => s,
                None => DEFAULT_CHECK_INTERVAL,
            },
            c.realm_spec() == realm,
            c.config_spec() == config,
            c.on_close_spec() == on_close,
    {
        let check_interval = match check_interval {
            Some(s) => s,
            None => DEFAULT_CHECK_INTERVAL,
        };
        CheckBrokenConnections { check_interval, realm, config, on_close }
    }

    /// The room handle.
    pub fn realm(&self) -> (r: &R)
        ensures
            *r == self.realm_spec(),
    {
        &self.realm
    }

    /// The liveness setting.
    pub fn config(&self) -> (c: CustomConfig)
        ensures
            c == self.config_spec(),
    {
        self.config
    }

    /// The callback for dropped peers, if any.
    pub fn on_close(&self) -> (c: Option<&C>)
        ensures
            match c {
                Some(f) => self.on_close_spec() == Some(*f),
                None => self.on_close_spec() is None,
            },
    {
        match &self.on_close {
            Some(f) => Some(f),
            None => None,
        }
    }

    /// One round of the check at the current time under this setting (see
    /// `check_connections_at`).
    pub fn check_connections(&self, room: &mut Room) -> (closed: Vec<Client>)
        ensures
            exists|now: u64|
                {
                    &&& final(room).clients() == alive(
                        old(room).clients(),
                        now,
                        self.config_spec().alive_timeout,
                    )
                    &&& final(room).queues() == old(room).queues().remove_keys(
                        stale_ids(old(room).clients(), now, self.config_spec().alive_timeout),
                    )
                    &&& forall|k: Seq<char>| #[trigger]
                        client_ids(closed@).contains(k) <==> is_stale(
                            old(room).clients(),
                            now,
                            self.config_spec().alive_timeout,
                            k,
                        )
                },
            client_ids(closed@).no_duplicates(),
            forall|i: int|
                0 <= i < closed@.len() ==> #[trigger] closed@[i]@ == disconnected(
                    old(room).clients()[closed@[i]@.id],
                ),
    {
        let now = now_millis();
        let timeout = self.config.alive_timeout();
        let closed = check_connections_at(room, timeout, now);
        assert(timeout == self.config_spec().alive_timeout);
        assert(room.clients() == alive(old(room).clients(), now, timeout));
        closed
    }
}

} // verus!
