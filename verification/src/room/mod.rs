pub mod message;
pub mod message_queue;
pub mod client;
pub mod messagehandler;

use vstd::prelude::*;
use crate::assoc::{assoc_keys, assoc_map, distinct_keys, has_key, lemma_assoc_index, lemma_assoc_keys, lemma_assoc_push, lemma_assoc_remove, lemma_assoc_update};
use crate::clock::now_millis;
use crate::room::client::{Client, ClientView};
use crate::room::message::Message;
use crate::room::message_queue::{MessageQueue, Queue, QueueView};

verus! {

/// The (key, view) entries of a list of peers, keyed by their ids.
pub open spec fn client_entries(s: Seq<Client>) -> Seq<(Seq<char>, ClientView)> {
    s.map_values(|c: Client| (c@.id, c@))
}

/// The (key, view) entries of a list of message queues.
pub open spec fn queue_entries(s: Seq<(String, MessageQueue)>) -> Seq<(Seq<char>, QueueView)> {
    s.map_values(|e: (String, MessageQueue)| (e.0@, e.1@))
}

/// The contents of a list of strings.
pub open spec fn string_views(s: Seq<String>) -> Seq<Seq<char>> {
    s.map_values(|x: String| x@)
}

/// The operations on a room of peers and message queues.
pub trait RoomManage {
    fn get_clients_ids(&self) -> Vec<String>;

    fn get_client_by_id(&self, client_id: &str) -> Option<&Client>;

    fn get_clients_ids_with_queue(&self) -> Vec<String>;

    fn set_client(&mut self, client: Client, id: String)
        requires
            client@.id == id@,
    ;

    fn remove_client_by_id(&mut self, id: &str) -> (removed: bool);

    fn get_message_queue_by_id(&self, id: &str) -> Option<&MessageQueue>;

    fn add_message_to_queue(&mut self, id: &str, message: Message);

    fn clear_message_queue(&mut self, id: &str);

    fn generate_client_id<F: Fn() -> String>(&self, custom_generator: Option<F>) -> Option<String>
        requires
            custom_generator matches Some(g) ==> g.requires(()),
    ;
}

/// The peers of a room, each under its id, and the queues of messages held
/// for ids that were not connected when the messages came.
pub struct Room {
    clients: Vec<Client>,
    message_queues: Vec<(String, MessageQueue)>,
}

/// A lower-case hexadecimal digit.
pub open spec fn is_lower_hex(c: char) -> bool {
    (0x30 <= (c as u32) && (c as u32) <= 0x39) || (0x61 <= (c as u32) && (c as u32) <= 0x66)
}

/// The hyphenated text of a version-4 UUID: 36 characters in groups of
/// 8-4-4-4-12 lower-case hex digits, the version digit `4`, and the variant
/// digit one of `8`, `9`, `a`, `b`.
pub open spec fn is_uuid_v4_text(s: Seq<char>) -> bool {
    &&& s.len() == 36
    &&& s[8] == '-' && s[13] == '-' && s[18] == '-' && s[23] == '-'
    &&& s[14] == '4'
    &&& (s[19] == '8' || s[19] == '9' || s[19] == 'a' || s[19] == 'b')
    &&& forall|i: int|
        0 <= i < 36 && i != 8 && i != 13 && i != 18 && i != 23 ==> is_lower_hex(#[trigger] s[i])
}

/// `uuid::Uuid::new_v4` followed by `to_string`: a random version-4 UUID
/// in its hyphenated lower-case form. The value is random; only its format
/// is claimed.
#[verifier::external_body]
fn new_v4_string() -> (s: String)
    ensures
        is_uuid_v4_text(s@),
{
    uuid::Uuid::new_v4().to_string()
}

/// Whether a draw of a candidate id can give `k`: any string the custom
/// generator may return, or, without one, the text of a version-4 UUID.
pub open spec fn draws_may_give<F: Fn() -> String>(custom_generator: Option<F>, k: Seq<char>) -> bool {
    match custom_generator {
        Some(g) => exists|s: String| #[trigger] call_ensures(g, (), s) && s@ == k,
        None => is_uuid_v4_text(k),
    }
}

/// No draw of a candidate id can give an id held in `clients`.
pub open spec fn every_draw_free<F: Fn() -> String>(
    clients: Map<Seq<char>, ClientView>,
    custom_generator: Option<F>,
) -> bool {
    forall|k: Seq<char>| #[trigger]
        clients.contains_key(k) ==> !draws_may_give(custom_generator, k)
}

impl Room {
    /// No id is held twice, neither by peers nor by queues.
    #[verifier::type_invariant]
    pub closed spec fn inv(self) -> bool {
        &&& distinct_keys(client_entries(self.clients@))
        &&& distinct_keys(queue_entries(self.message_queues@))
    }

    /// The peers, by id.
    pub closed spec fn clients(&self) -> Map<Seq<char>, ClientView> {
        assoc_map(client_entries(self.clients@))
    }

    /// The message queues, by the id they wait for.
    pub closed spec fn queues(&self) -> Map<Seq<char>, QueueView> {
        assoc_map(queue_entries(self.message_queues@))
    }

    /// A room holds finitely many peers and queues.
    pub proof fn lemma_finite(&self)
        requires
            self.inv(),
        ensures
            self.clients().dom().finite(),
            self.queues().dom().finite(),
    {
        lemma_assoc_keys(client_entries(self.clients@));
        lemma_assoc_keys(queue_entries(self.message_queues@));
    }

    /// A room with no peer and no queue.
    pub fn new() -> (r: Self)
        ensures
            r.clients() == Map::<Seq<char>, ClientView>::empty(),
            r.queues() == Map::<Seq<char>, QueueView>::empty(),
    {
        let r = Room { clients: Vec::new(), message_queues: Vec::new() };
        assert(r.clients() =~= Map::<Seq<char>, ClientView>::empty());
        assert(r.queues() =~= Map::<Seq<char>, QueueView>::empty());
        r
    }

    /// Where the peer with the given id stands in the list of peers.
    fn find_client(&self, id: &String) -> (r: Option<usize>)
        ensures
            match r {
                Some(i) => i < self.clients@.len() && self.clients@[i as int]@.id == id@,
                None => !has_key(client_entries(self.clients@), id@),
            },
    {
        proof {
            use_type_invariant(&*self);
        }
        let n = self.clients.len();
        let mut i: usize = 0;
        while i < n
            invariant
                n == self.clients@.len(),
                i <= n,
                forall|j: int| 0 <= j < i ==> self.clients@[j]@.id != id@,
            decreases n - i,
        {
            if self.clients[i].has_id(id) {
                return Some(i);
            }
            i = i + 1;
        }
        proof {
            let es = client_entries(self.clients@);
            assert forall|j: int| 0 <= j < es.len() implies #[trigger] es[j].0 != id@ by {
                assert(es[j].0 == self.clients@[j]@.id);
            }
        }
        None
    }

    /// Where the queue for the given id stands in the list of queues.
    fn find_queue(&self, id: &String) -> (r: Option<usize>)
        ensures
            match r {
                Some(i) => i < self.message_queues@.len() && self.message_queues@[i as int].0@
                    == id@,
                None => !has_key(queue_entries(self.message_queues@), id@),
            },
    {
        proof {
            use_type_invariant(&*self);
        }
        let n = self.message_queues.len();
        let mut i: usize = 0;
        while i < n
            invariant
                n == self.message_queues@.len(),
                i <= n,
                forall|j: int| 0 <= j < i ==> self.message_queues@[j].0@ != id@,
            decreases n - i,
        {
            if self.message_queues[i].0 == *id {
                return Some(i);
            }
            i = i + 1;
        }
        proof {
            let es = queue_entries(self.message_queues@);
            assert forall|j: int| 0 <= j < es.len() implies #[trigger] es[j].0 != id@ by {
                assert(es[j].0 == self.message_queues@[j].0@);
            }
        }
        None
    }

    /// Appends a message to the queue held for the given id; a missing
    /// queue is first created empty, stamped with the time `now`.
    pub fn add_message_to_queue_at(&mut self, id: &str, message: Message, now: u64)
        ensures
            final(self).clients() == old(self).clients(),
            final(self).queues() == old(self).queues().insert(
                id@,
                if old(self).queues().contains_key(id@) {
                    QueueView {
                        messages: old(self).queues()[id@].messages.push(message@),
                        last_read: old(self).queues()[id@].last_read,
                    }
                } else {
                    QueueView { messages: seq![message@], last_read: now }
                },
            ),
    {
        proof {
            use_type_invariant(&*self);
        }
        let key = id.to_string();
        let found = self.find_queue(&key);
        let mut qs: Vec<(String, MessageQueue)> = Vec::new();
        std::mem::swap(&mut qs, &mut self.message_queues);
        match found {
            Some(i) => {
                let ghost before = qs@;
                proof {
                    lemma_assoc_index(queue_entries(before), i as int);
                }
                let mut entry = (String::new(), MessageQueue::new_at(0));
                qs.set_and_swap(i, &mut entry);
                entry.1.add_message(message);
                let ghost q = entry.1@;
                qs.set(i, entry);
                proof {
                    lemma_assoc_update(queue_entries(before), i as int, q);
                    assert(queue_entries(qs@) =~= queue_entries(before).update(
                        i as int,
                        (queue_entries(before)[i as int].0, q),
                    ));
                }
            },
            None => {
                let mut q = MessageQueue::new_at(now);
                q.add_message(message);
                let ghost before = qs@;
                proof {
                    lemma_assoc_push(queue_entries(before), id@, q@);
                    assert(q@.messages =~= seq![message@]);
                }
                qs.push((key, q));
                proof {
                    assert(queue_entries(qs@) =~= queue_entries(before).push(
                        (id@, q@),
                    ));
                }
            },
        }
        self.message_queues = qs;
    }

    /// The candidate id when no peer holds it yet.
    pub fn try_client_id(&self, candidate: String) -> (r: Option<String>)
        ensures
            match r {
                Some(id) => id@ == candidate@ && !self.clients().contains_key(candidate@),
                None => self.clients().contains_key(candidate@),
            },
    {
        proof {
            use_type_invariant(&*self);
        }
        match self.find_client(&candidate) {
            Some(i) => {
                proof {
                    lemma_assoc_index(client_entries(self.clients@), i as int);
                }
                None
            },
            None => {
                proof {
                    assert(!self.clients().contains_key(candidate@));
                }
                Some(candidate)
            },
        }
    }

    /// The number of peers.
    pub fn client_count(&self) -> (n: usize)
        ensures
            self.clients().dom().finite(),
            n == self.clients().dom().len(),
    {
        proof {
            use_type_invariant(&*self);
        }
        proof {
            lemma_assoc_keys(client_entries(self.clients@));
        }
        self.clients.len()
    }
}

impl RoomManage for Room {

    /// The ids of all peers, each once.
    fn get_clients_ids(&self) -> (ids: Vec<String>)
        ensures
            string_views(ids@).no_duplicates(),
            forall|k: Seq<char>| #[trigger]
                string_views(ids@).contains(k) <==> self.clients().contains_key(k),
            self.clients().dom().finite(),
            ids@.len() == self.clients().dom().len(),
    {
        proof {
            use_type_invariant(&*self);
        }
        let mut ids: Vec<String> = Vec::new();
        let n = self.clients.len();
        let mut i: usize = 0;
        while i < n
            invariant
                n == self.clients@.len(),
                i <= n,
                string_views(ids@) =~= assoc_keys(client_entries(self.clients@)).take(i as int),
            decreases n - i,
        {
            ids.push(self.clients[i].id_string());
            proof {
                let ks = assoc_keys(client_entries(self.clients@));
                assert(ks[i as int] == self.clients@[i as int]@.id);
                assert(ks.take(i + 1) =~= ks.take(i as int).push(ks[i as int]));
            }
            i = i + 1;
        }
        proof {
            let es = client_entries(self.clients@);
            assert(assoc_keys(es).take(n as int) =~= assoc_keys(es));
            lemma_assoc_keys(es);
        }
        ids
    }

    /// The ids for which messages are queued, each once.
    fn get_clients_ids_with_queue(&self) -> (ids: Vec<String>)
        ensures
            string_views(ids@).no_duplicates(),
            forall|k: Seq<char>| #[trigger]
                string_views(ids@).contains(k) <==> self.queues().contains_key(k),
            self.queues().dom().finite(),
            ids@.len() == self.queues().dom().len(),
    {
        proof {
            use_type_invariant(&*self);
        }
        let mut ids: Vec<String> = Vec::new();
        let n = self.message_queues.len();
        let mut i: usize = 0;
        while i < n
            invariant
                n == self.message_queues@.len(),
                i <= n,
                string_views(ids@) =~= assoc_keys(queue_entries(self.message_queues@)).take(
                    i as int,
                ),
            decreases n - i,
        {
            ids.push(self.message_queues[i].0.clone());
            proof {
                let ks = assoc_keys(queue_entries(self.message_queues@));
                assert(ks[i as int] == self.message_queues@[i as int].0@);
                assert(ks.take(i + 1) =~= ks.take(i as int).push(ks[i as int]));
            }
            i = i + 1;
        }
        proof {
            let es = queue_entries(self.message_queues@);
            assert(assoc_keys(es).take(n as int) =~= assoc_keys(es));
            lemma_assoc_keys(es);
        }
        ids
    }

    /// The peer with the given id, if there is one.
    fn get_client_by_id(&self, client_id: &str) -> (c: Option<&Client>)
        ensures
            c.is_some() == self.clients().contains_key(client_id@),
            c matches Some(c) ==> c@ == self.clients()[client_id@] && c@.id == client_id@,
    {
        proof {
            use_type_invariant(&*self);
        }
        let key = client_id.to_string();
        match self.find_client(&key) {
            Some(i) => {
                proof {
                    lemma_assoc_index(client_entries(self.clients@), i as int);
                }
                Some(&self.clients[i])
            },
            None => None,
        }
    }

    /// Registers a peer under its id, replacing any peer of that id.
    fn set_client(&mut self, client: Client, id: String)
        ensures
            final(self).clients() == old(self).clients().insert(id@, client@),
            final(self).queues() == old(self).queues(),
    {
        proof {
            use_type_invariant(&*self);
        }
        let found = self.find_client(&id);
        let mut cl: Vec<Client> = Vec::new();
        std::mem::swap(&mut cl, &mut self.clients);
        match found {
            Some(i) => {
                proof {
                    lemma_assoc_update(client_entries(cl@), i as int, client@);
                }
                let ghost before = cl@;
                cl.set(i, client);
                proof {
                    assert(client_entries(cl@) =~= client_entries(before).update(
                        i as int,
                        (client_entries(before)[i as int].0, client@),
                    ));
                }
            },
            None => {
                proof {
                    lemma_assoc_push(client_entries(cl@), id@, client@);
                }
                let ghost before = cl@;
                cl.push(client);
                proof {
                    assert(client_entries(cl@) =~= client_entries(before).push(
                        (id@, client@),
                    ));
                }
            },
        }
        self.clients = cl;
    }

    /// Removes the peer with the given id; tells whether there was one.
    fn remove_client_by_id(&mut self, id: &str) -> (removed: bool)
        ensures
            removed == old(self).clients().contains_key(id@),
            final(self).clients() == old(self).clients().remove(id@),
            final(self).queues() == old(self).queues(),
    {
        proof {
            use_type_invariant(&*self);
        }
        let key = id.to_string();
        match self.find_client(&key) {
            Some(i) => {
                proof {
                    lemma_assoc_remove(client_entries(self.clients@), i as int);
                    lemma_assoc_index(client_entries(self.clients@), i as int);
                }
                let ghost before = self.clients@;
                let mut cl: Vec<Client> = Vec::new();
                std::mem::swap(&mut cl, &mut self.clients);
                let _ = cl.remove(i);
                proof {
                    assert(client_entries(cl@) =~= client_entries(before).remove(i as int));
                }
                self.clients = cl;
                true
            },
            None => {
                assert(self.clients() =~= old(self).clients().remove(id@));
                false
            },
        }
    }

    /// The queue of messages held for the given id, if there is one.
    fn get_message_queue_by_id(&self, id: &str) -> (q: Option<&MessageQueue>)
        ensures
            q.is_some() == self.queues().contains_key(id@),
            q matches Some(q) ==> q@ == self.queues()[id@],
    {
        proof {
            use_type_invariant(&*self);
        }
        let key = id.to_string();
        match self.find_queue(&key) {
            Some(i) => {
                proof {
                    lemma_assoc_index(queue_entries(self.message_queues@), i as int);
                }
                Some(&self.message_queues[i].1)
            },
            None => None,
        }
    }

    /// Appends a message to the queue held for the given id; a missing
    /// queue is first created empty, stamped with the current time.
    fn add_message_to_queue(&mut self, id: &str, message: Message)
        ensures
            final(self).clients() == old(self).clients(),
            final(self).queues() == old(self).queues().insert(id@, final(self).queues()[id@]),
            final(self).queues()[id@].messages == if old(self).queues().contains_key(id@) {
                old(self).queues()[id@].messages.push(message@)
            } else {
                seq![message@]
            },
            old(self).queues().contains_key(id@) ==> final(self).queues()[id@].last_read
                == old(self).queues()[id@].last_read,
    {
        proof {
            use_type_invariant(&*self);
        }
        let now = now_millis();
        self.add_message_to_queue_at(id, message, now);
    }

    /// Draws ids from the custom generator, or random UUIDs when there is
    /// none, until one is not held by any peer, and returns it. The drawing
    /// is bounded by `u64::MAX` attempts, after which there is no result.
    /// The id returned is a draw: a string the custom generator gave, or the
    /// text of a version-4 UUID.
    /// An id is owed whenever no draw can hit a peer's id: when the room is
    /// empty, when no peer's id is the text of a UUID and UUIDs are drawn,
    /// or when nothing the custom generator can give is held.
    fn generate_client_id<F: Fn() -> String>(&self, custom_generator: Option<F>) -> (r:
        Option<String>)
        ensures
            r matches Some(id) ==> !self.clients().contains_key(id@),
            r matches Some(id) ==> draws_may_give(custom_generator, id@),
            self.clients().dom().len() == 0 ==> r is Some,
            every_draw_free(self.clients(), custom_generator) ==> r is Some,
    {
        proof {
            use_type_invariant(&*self);
        }
        proof {
            self.lemma_finite();
            if self.clients().dom().len() == 0 {
                assert forall|k: Seq<char>| !self.clients().contains_key(k) by {
                    if self.clients().contains_key(k) {
                        assert(self.clients().dom().contains(k));
                    }
                }
            }
        }
        let ghost free: bool = self.clients().dom().len() == 0 || every_draw_free(
            self.clients(),
            custom_generator,
        );
        let mut attempts: u64 = u64::MAX;
        while attempts > 0
            invariant
                custom_generator matches Some(g) ==> g.requires(()),
                free ==> forall|k: Seq<char>| #![trigger self.clients().contains_key(k)]
                    self.clients().contains_key(k) ==> !draws_may_give(custom_generator, k),
                free ==> attempts == u64::MAX,
            decreases attempts,
        {
            let candidate = match &custom_generator {
                Some(g) => g(),
                None => new_v4_string(),
            };
            assert(draws_may_give(custom_generator, candidate@)) by {
                match custom_generator {
                    Some(g) => {
                        assert(call_ensures(g, (), candidate));
                    },
                    None => {},
                }
            }
            match self.try_client_id(candidate) {
                Some(id) => {
                    return Some(id);
                },
                None => {},
            }
            attempts = attempts - 1;
        }
        None
    }

    /// Drops the queue held for the given id.
    fn clear_message_queue(&mut self, id: &str)
        ensures
            final(self).clients() == old(self).clients(),
            final(self).queues() == old(self).queues().remove(id@),
    {
        proof {
            use_type_invariant(&*self);
        }
        let key = id.to_string();
        match self.find_queue(&key) {
            Some(i) => {
                proof {
                    lemma_assoc_remove(queue_entries(self.message_queues@), i as int);
                    lemma_assoc_index(queue_entries(self.message_queues@), i as int);
                }
                let ghost before = self.message_queues@;
                let mut qs: Vec<(String, MessageQueue)> = Vec::new();
                std::mem::swap(&mut qs, &mut self.message_queues);
                let _ = qs.remove(i);
                proof {
                    assert(queue_entries(qs@) =~= queue_entries(before).remove(i as int));
                }
                self.message_queues = qs;
            },
            None => {
                assert(self.queues() =~= old(self).queues().remove(id@));
            },
        }
    }
}

} // verus!
