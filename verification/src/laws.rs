//! Properties of the library that relate several of its operations.

use vstd::prelude::*;
use crate::calendar::{
    day_number, days_before_month, days_before_year, is_date, lemma_months_fill_year,
    lemma_year_step, month_len,
};
use crate::config::{completes, config_version_spec, is_default_config, PartialConfig, ServerConfig};
use crate::room::client::ClientView;
use crate::room::message::{wire_name, MessageType, MessageView};
use crate::room::message_queue::QueueView;
use crate::room::messagehandler::{
    dispatched, is_unqueued_type, kind_for, last_registration, leave_view, registered, transmitted,
    Delivery, HandlerKind,
};
use crate::services::check_connections::alive;
use crate::services::messages_expire::{is_expired, unexpired};

verus! {

/// Queues are first in, first out: after a message is appended, reading
/// gives back the oldest message, and the one appended comes out after all
/// those that were there before it.
pub proof fn law_queue_fifo(contents: Seq<MessageView>, m: MessageView)
    ensures
        contents.push(m)[0] == if contents.len() == 0 {
            m
        } else {
            contents[0]
        },
        contents.len() > 0 ==> contents.push(m).drop_first() == contents.drop_first().push(m),
        contents.push(m).drop_first().len() == contents.len(),
{
    if contents.len() > 0 {
        assert(contents.push(m).drop_first() =~= contents.drop_first().push(m));
    }
}

/// A peer that is registered is found again under its id, and removing a
/// peer that was just registered under a new id gives back the room's
/// peers as they were.
pub proof fn law_register_then_find(c0: Map<Seq<char>, ClientView>, id: Seq<char>, v: ClientView)
    ensures
        c0.insert(id, v).contains_key(id),
        c0.insert(id, v)[id] == v,
        !c0.contains_key(id) ==> c0.insert(id, v).remove(id) == c0,
{
    if !c0.contains_key(id) {
        assert(c0.insert(id, v).remove(id) =~= c0);
    }
}

/// Routing never adds a peer to the room: the peers afterwards are among
/// those before, as they were.
pub proof fn law_routing_adds_no_peer(
    c0: Map<Seq<char>, ClientView>,
    q0: Map<Seq<char>, QueueView>,
    m: MessageView,
    c1: Map<Seq<char>, ClientView>,
    q1: Map<Seq<char>, QueueView>,
    d: Delivery,
)
    requires
        c0.dom().finite(),
        transmitted(c0, q0, m, c1, q1, d),
    ensures
        c1.dom().subset_of(c0.dom()),
        forall|k: Seq<char>| #[trigger] c1.contains_key(k) ==> c1[k] == c0[k],
    decreases c0.dom().len(),
{
    if let Some(dst) = m.dst {
        if c0.contains_key(dst) && c0[dst].socket is None && m.src is Some {
            let src = m.src.unwrap();
            law_routing_adds_no_peer(c0.remove(dst), q0, leave_view(dst, src), c1, q1, d);
        }
    }
}

/// LEAVE and EXPIRE messages are never queued: routing one leaves the
/// queues as they were.
pub proof fn law_notices_never_queued(
    c0: Map<Seq<char>, ClientView>,
    q0: Map<Seq<char>, QueueView>,
    m: MessageView,
    c1: Map<Seq<char>, ClientView>,
    q1: Map<Seq<char>, QueueView>,
    d: Delivery,
)
    requires
        c0.dom().finite(),
        transmitted(c0, q0, m, c1, q1, d),
        is_unqueued_type(m.msg_type),
    ensures
        q1 == q0,
    decreases c0.dom().len(),
{
    if let Some(dst) = m.dst {
        if c0.contains_key(dst) && c0[dst].socket is None && m.src is Some {
            let src = m.src.unwrap();
            law_notices_never_queued(c0.remove(dst), q0, leave_view(dst, src), c1, q1, d);
        }
    }
}

/// A message for an id that no peer holds is kept for that id, unless it
/// is a LEAVE or an EXPIRE: it is appended to the id's queue (a queue is
/// opened for it when there was none), the other queues and the peers stay
/// as they were, and nothing is written.
pub proof fn law_unknown_destination_queued(
    c0: Map<Seq<char>, ClientView>,
    q0: Map<Seq<char>, QueueView>,
    m: MessageView,
    c1: Map<Seq<char>, ClientView>,
    q1: Map<Seq<char>, QueueView>,
    d: Delivery,
)
    requires
        c0.dom().finite(),
        transmitted(c0, q0, m, c1, q1, d),
        m.dst is Some,
        !c0.contains_key(m.dst.unwrap()),
        m.msg_type != MessageType::Leave,
        m.msg_type != MessageType::Expire,
    ensures
        d is Done,
        c1 == c0,
        q1.contains_key(m.dst.unwrap()),
        q1[m.dst.unwrap()].messages == if q0.contains_key(m.dst.unwrap()) {
            q0[m.dst.unwrap()].messages.push(m)
        } else {
            seq![m]
        },
        forall|k: Seq<char>|
            k != m.dst.unwrap() ==> (#[trigger] q1.contains_key(k) == q0.contains_key(k) && (
            q0.contains_key(k) ==> q1[k] == q0[k])),
{
}

/// A message for a connected peer is handed over unchanged and changes
/// nothing in the room.
pub proof fn law_delivery_to_connected_peer(
    c0: Map<Seq<char>, ClientView>,
    q0: Map<Seq<char>, QueueView>,
    m: MessageView,
    c1: Map<Seq<char>, ClientView>,
    q1: Map<Seq<char>, QueueView>,
    d: Delivery,
)
    requires
        c0.dom().finite(),
        transmitted(c0, q0, m, c1, q1, d),
        m.dst is Some,
        c0.contains_key(m.dst.unwrap()),
        c0[m.dst.unwrap()].socket is Some,
    ensures
        c1 == c0,
        q1 == q0,
        d matches Delivery::Send { socket, message } && socket == c0[m.dst.unwrap()].socket.unwrap()
            && message@ == m,
{
}

/// Of handlers registered in turn on an empty table (as `register_handler`
/// does, one insertion each), the last registration of a type wins, and a
/// type never registered has no handler, so `handle` reports it unhandled.
pub proof fn law_last_registration_wins(regs: Seq<(MessageType, HandlerKind)>, mt: MessageType)
    ensures
        kind_for(registered(Map::empty(), regs), mt) == last_registration(regs, mt),
    decreases regs.len(),
{
    if regs.len() > 0 {
        law_last_registration_wins(regs.drop_last(), mt);
    }
}

/// Registering handlers in turn: `tables[0]` is the empty table that
/// `HandlersRegistryImpl::new` gives, and each `tables[i + 1]` is what
/// `register_handler` makes of `tables[i]` with `regs[i]`. In the last
/// table, the last registration of each type wins, a type never registered
/// has none; and so `handle` routes a message by its type's last
/// registration, and reports a type never registered as unhandled.
pub proof fn law_registrations_in_turn(
    tables: Seq<Map<MessageType, HandlerKind>>,
    regs: Seq<(MessageType, HandlerKind)>,
    mt: MessageType,
)
    requires
        tables.len() == regs.len() + 1,
        tables[0] == Map::<MessageType, HandlerKind>::empty(),
        forall|i: int|
            0 <= i < regs.len() ==> #[trigger] tables[i + 1] == tables[i].insert(
                regs[i].0,
                regs[i].1,
            ),
    ensures
        tables.last() == registered(Map::empty(), regs),
        kind_for(tables.last(), mt) == last_registration(regs, mt),
        forall|c0: Map<Seq<char>, ClientView>, q0: Map<Seq<char>, QueueView>, m: MessageView, c1: Map<
            Seq<char>,
            ClientView,
        >, q1: Map<Seq<char>, QueueView>, r: (bool, Delivery)|
            m.msg_type == mt ==> (#[trigger] dispatched(
                kind_for(tables.last(), m.msg_type),
                c0,
                q0,
                m,
                c1,
                q1,
                r,
            ) <==> dispatched(last_registration(regs, mt), c0, q0, m, c1, q1, r)),
{
    lemma_tables_registered(tables, regs);
    law_last_registration_wins(regs, mt);
}

/// The tables of registrations in turn are the spec `registered` of the
/// registrations so far.
proof fn lemma_tables_registered(
    tables: Seq<Map<MessageType, HandlerKind>>,
    regs: Seq<(MessageType, HandlerKind)>,
)
    requires
        tables.len() == regs.len() + 1,
        tables[0] == Map::<MessageType, HandlerKind>::empty(),
        forall|i: int|
            0 <= i < regs.len() ==> #[trigger] tables[i + 1] == tables[i].insert(
                regs[i].0,
                regs[i].1,
            ),
    ensures
        tables.last() == registered(Map::empty(), regs),
    decreases regs.len(),
{
    if regs.len() > 0 {
        let n = regs.len();
        let t2 = tables.take(n as int);
        let r2 = regs.drop_last();
        assert forall|i: int| 0 <= i < r2.len() implies #[trigger] t2[i + 1] == t2[i].insert(
            r2[i].0,
            r2[i].1,
        ) by {
            assert(t2[i + 1] == tables[i + 1]);
            assert(t2[i] == tables[i]);
            assert(r2[i] == regs[i]);
        }
        lemma_tables_registered(t2, r2);
        assert(tables[n as int] == tables[n - 1].insert(regs[n - 1].0, regs[n - 1].1));
    }
}

/// Pruning expired queues keeps every queue that has not expired as it
/// was, and pruning twice at the same time prunes nothing more.
pub proof fn law_prune_idempotent(q0: Map<Seq<char>, QueueView>, now: u64, timeout: u64)
    ensures
        unexpired(unexpired(q0, now, timeout), now, timeout) == unexpired(q0, now, timeout),
        forall|k: Seq<char>|
            #![trigger q0.contains_key(k)]
            q0.contains_key(k) && !is_expired(q0[k].last_read, now, timeout) ==> unexpired(
                q0,
                now,
                timeout,
            ).contains_key(k) && unexpired(q0, now, timeout)[k] == q0[k],
        forall|k: Seq<char>| #[trigger]
            unexpired(q0, now, timeout).contains_key(k) ==> !is_expired(
                q0[k].last_read,
                now,
                timeout,
            ),
{
    assert(unexpired(unexpired(q0, now, timeout), now, timeout) =~= unexpired(q0, now, timeout));
}

/// Checking connections twice at the same time drops nothing more, and the
/// peers kept are exactly those that have pinged recently enough.
pub proof fn law_check_idempotent(c0: Map<Seq<char>, ClientView>, now: u64, timeout: u64)
    ensures
        alive(alive(c0, now, timeout), now, timeout) == alive(c0, now, timeout),
        forall|k: Seq<char>| #[trigger]
            alive(c0, now, timeout).contains_key(k) <==> c0.contains_key(k) && !is_expired(
                c0[k].last_ping,
                now,
                timeout,
            ),
{
    assert(alive(alive(c0, now, timeout), now, timeout) =~= alive(c0, now, timeout));
}

/// Loading keeps every setting the file gives, each as the value of that
/// same setting, and gives each setting the file leaves out its documented
/// default.
pub proof fn law_given_settings_kept(p: PartialConfig, c: ServerConfig)
    requires
        completes(p, c),
    ensures
        match p.key {
            Some(v) => c.key@ == v@,
            None => c.key@ == "peerjs"@,
        },
        match p.concurrent_limit {
            Some(v) => c.concurrent_limit == v,
            None => c.concurrent_limit == 5000usize,
        },
        match p.path {
            Some(v) => c.path@ == v@,
            None => c.path@ == "/peerjs"@,
        },
        match p.allow_discovery {
            Some(v) => c.allow_discovery == v,
            None => c.allow_discovery == false,
        },
        match p.alive_timeout {
            Some(v) => c.alive_timeout == v,
            None => c.alive_timeout == 60000u64,
        },
        match p.check_interval {
            Some(v) => c.check_interval == v,
            None => c.check_interval == 300u64,
        },
        match p.cleanup_out_msgs {
            Some(v) => c.cleanup_out_msgs == v,
            None => c.cleanup_out_msgs == 10000u64,
        },
        match p.expire_timeout {
            Some(v) => c.expire_timeout == v,
            None => c.expire_timeout == 5000u64,
        },
        match p.tls_enabled {
            Some(v) => c.tls_enabled == v,
            None => c.tls_enabled == false,
        },
        match p.tls_cert_path {
            Some(v) => c.tls_cert_path@ == v@,
            None => c.tls_cert_path@ == "cert.pem"@,
        },
        match p.tls_key_path {
            Some(v) => c.tls_key_path@ == v@,
            None => c.tls_key_path@ == "key.pem"@,
        },
        match p.log_level {
            Some(v) => c.log_level@ == v@,
            None => c.log_level@ == "info"@,
        },
        match p.debug_request_headers {
            Some(v) => c.debug_request_headers == v,
            None => c.debug_request_headers == false,
        },
{
}

/// A configuration file that gives no setting yields the default
/// configuration, and any file yields a configuration of the current
/// version.
pub proof fn law_missing_settings_default(p: PartialConfig, c: ServerConfig)
    requires
        completes(p, c),
    ensures
        c.config_version@ == config_version_spec(),
        ({
            &&& p.key is None
            &&& p.concurrent_limit is None
            &&& p.path is None
            &&& p.allow_discovery is None
            &&& p.alive_timeout is None
            &&& p.check_interval is None
            &&& p.cleanup_out_msgs is None
            &&& p.expire_timeout is None
            &&& p.tls_enabled is None
            &&& p.tls_cert_path is None
            &&& p.tls_key_path is None
            &&& p.log_level is None
            &&& p.debug_request_headers is None
        }) ==> is_default_config(c),
{
}

/// Distinct message types have distinct wire names.
pub proof fn law_wire_names_distinct(a: MessageType, b: MessageType)
    ensures
        wire_name(a) == wire_name(b) ==> a == b,
{
    reveal_strlit("OPEN");
    reveal_strlit("LEAVE");
    reveal_strlit("CANDIDATE");
    reveal_strlit("OFFER");
    reveal_strlit("ANSWER");
    reveal_strlit("EXPIRE");
    reveal_strlit("HEARTBEAT");
    reveal_strlit("ID-TAKEN");
    reveal_strlit("ERROR");
    if wire_name(a) == wire_name(b) && a != b {
        let (x, y) = (wire_name(a), wire_name(b));
        assert(x.len() == y.len());
        assert(x[0] == y[0]);
        assert(x[1] == y[1]);
    }
}

/// The first day of year `y + n` comes `n` years of days after that of
/// year `y`; in particular later years start later.
proof fn lemma_year_starts_increase(y: int, z: int)
    requires
        0 <= y <= z,
    ensures
        days_before_year(y) + 365 * (z - y) <= days_before_year(z),
    decreases z - y,
{
    if y < z {
        lemma_year_starts_increase(y, z - 1);
        lemma_year_step(z - 1);
    }
}

/// Earlier months of a year start earlier, by at least their lengths.
proof fn lemma_month_starts_increase(y: int, m: int, n: int)
    requires
        1 <= m <= n,
    ensures
        days_before_month(y, m) + 28 * (n - m) <= days_before_month(y, n),
        m < n ==> days_before_month(y, m) + month_len(y, m) <= days_before_month(y, n),
    decreases n - m,
{
    if m < n {
        lemma_month_starts_increase(y, m, n - 1);
    }
}

/// A date lies within its year.
proof fn lemma_date_in_year(y: int, m: int, d: int)
    requires
        is_date(y, m, d),
    ensures
        days_before_year(y) <= day_number(y, m, d) < days_before_year(y + 1),
{
    lemma_months_fill_year(y);
    lemma_year_step(y);
    lemma_month_starts_increase(y, m, 13);
    lemma_month_starts_increase(y, 1, m);
    assert(days_before_month(y, 1) == 0);
}

/// Distinct dates have distinct day numbers: the date that the calendar
/// functions give for a day is the only one.
pub proof fn law_dates_unique(y1: int, m1: int, d1: int, y2: int, m2: int, d2: int)
    requires
        is_date(y1, m1, d1),
        is_date(y2, m2, d2),
        day_number(y1, m1, d1) == day_number(y2, m2, d2),
    ensures
        y1 == y2 && m1 == m2 && d1 == d2,
{
    lemma_date_in_year(y1, m1, d1);
    lemma_date_in_year(y2, m2, d2);
    if y1 < y2 {
        lemma_year_starts_increase(y1 + 1, y2);
    } else if y2 < y1 {
        lemma_year_starts_increase(y2 + 1, y1);
    }
    assert(y1 == y2);
    if m1 < m2 {
        lemma_month_starts_increase(y1, m1, m2);
    } else if m2 < m1 {
        lemma_month_starts_increase(y1, m2, m1);
    }
}

} // verus!
