//! Which connections belong to which session.
//!
//! Two tables of the same shape: the connections that are bound to a session,
//! and those of them that carry its callbacks. A connection is known by a number
//! that no other connection of the server's lifetime has.
use crate::octets;
use crate::octets::u64_at;
use crate::protocol::SessionId;
use dashmap::DashMap;
use vstd::prelude::*;
use vstd::slice::slice_subrange;

verus! {

/// The connections of each session.
pub uninterp spec fn connections_of(map: DashMap<u128, Vec<u64>>) -> Map<u128, Seq<u64>>;

pub open spec fn no_connections() -> Map<u128, Seq<u64>> {
    Map::empty()
}

/// `DashMap::new`: a map that holds nothing.
#[verifier::external_body]
fn table_new() -> (fresh: DashMap<u128, Vec<u64>>)
    ensures
        connections_of(fresh) == no_connections(),
{
    DashMap::new()
}

/// `DashMap::get`: a copy of the value of a key that is present.
#[verifier::external_body]
fn table_get(map: &DashMap<u128, Vec<u64>>, key: u128) -> (v: Option<Vec<u64>>)
    ensures
        match v {
            Some(v) => connections_of(*map).dom().contains(key) && v@ == connections_of(*map)[key],
            None => !connections_of(*map).dom().contains(key),
        },
{
    map.get(&key).map(|v| v.clone())
}

/// `DashMap::insert`: the key has the value given, every other key what it had.
#[verifier::external_body]
fn table_insert(map: &mut DashMap<u128, Vec<u64>>, key: u128, value: Vec<u64>)
    ensures
        connections_of(*final(map)) == connections_of(*old(map)).insert(key, value@),
{
    map.insert(key, value);
}

/// `DashMap::remove`: the key is gone, every other key has what it had.
#[verifier::external_body]
fn table_remove(map: &mut DashMap<u128, Vec<u64>>, key: u128)
    ensures
        connections_of(*final(map)) == connections_of(*old(map)).remove(key),
{
    map.remove(&key);
}

/// A session's number: its sixteen octets, most significant first.
pub open spec fn session_number(id: Seq<u8>) -> u128 {
    (octets::u64_of(id.take(8)) * 0x1_0000_0000_0000_0000 + octets::u64_of(id.skip(8))) as u128
}

fn number_of(id: &SessionId) -> (n: u128)
    ensures
        n == session_number(id@),
{
    let hi: u64 = u64_at(slice_subrange(&id.0, 0, 8));
    let lo: u64 = u64_at(slice_subrange(&id.0, 8, 16));
    assert(id@.subrange(0, 8) =~= id@.take(8));
    assert(id@.subrange(8, 16) =~= id@.skip(8));
    (hi as u128) * 0x1_0000_0000_0000_0000 + (lo as u128)
}

/// Law: two sessions never share a number.
pub proof fn sessions_have_their_own_numbers(a: Seq<u8>, b: Seq<u8>)
    requires
        a.len() == 16,
        b.len() == 16,
        session_number(a) == session_number(b),
    ensures
        a == b,
{
    octets::lemma_u64_back(a.take(8));
    octets::lemma_u64_back(a.skip(8));
    octets::lemma_u64_back(b.take(8));
    octets::lemma_u64_back(b.skip(8));
    assert(a =~= a.take(8) + a.skip(8));
    assert(b =~= b.take(8) + b.skip(8));
}

/// The connections of a session; none where it has no entry.
pub open spec fn listed(table: Map<u128, Seq<u64>>, session: Seq<u8>) -> Seq<u64> {
    if table.dom().contains(session_number(session)) {
        table[session_number(session)]
    } else {
        Seq::empty()
    }
}

/// Those of `conns` that are still alive, in order.
pub open spec fn alive(conns: Seq<u64>, live: Seq<u64>) -> Seq<u64>
    decreases conns.len(),
{
    if conns.len() == 0 {
        Seq::empty()
    } else {
        let front = alive(conns.drop_last(), live);
        if live.contains(conns.last()) {
            front.push(conns.last())
        } else {
            front
        }
    }
}

pub open spec fn with(conns: Seq<u64>, conn: u64) -> Seq<u64> {
    if conns.contains(conn) {
        conns
    } else {
        conns.push(conn)
    }
}

/// The table after `conn` was bound to `session`, and the dead connections of
/// that session were forgotten.
pub open spec fn bound(
    table: Map<u128, Seq<u64>>,
    session: Seq<u8>,
    conn: u64,
    live: Seq<u64>,
) -> Map<u128, Seq<u64>> {
    table.insert(session_number(session), with(alive(listed(table, session), live), conn))
}

fn holds(v: &Vec<u64>, x: u64) -> (b: bool)
    ensures
        b == v@.contains(x),
{
    let mut i: usize = 0;
    while i < v.len()
        invariant
            i <= v@.len(),
            forall|k: int| 0 <= k < i ==> v@[k] != x,
        decreases v@.len() - i,
    {
        if v[i] == x {
            return true;
        }
        i = i + 1;
    }
    false
}

/// A table without any connection.
pub fn new_table() -> (t: DashMap<u128, Vec<u64>>)
    ensures
        connections_of(t) == no_connections(),
{
    table_new()
}

/// Record that the connection of a COMPOUND is bound to `session`. `live` are the
/// connections that are still open. Nothing is recorded for a call that came in
/// without a connection.
pub fn bind_conn_to_session(
    table: &mut DashMap<u128, Vec<u64>>,
    session: &SessionId,
    conn: Option<u64>,
    live: &Vec<u64>,
)
    ensures
        connections_of(*final(table)) == (match conn {
            Some(c) => bound(connections_of(*old(table)), session@, c, live@),
            None => connections_of(*old(table)),
        }),
{
    let c: u64 = match conn {
        Some(c) => c,
        None => return,
    };
    let key: u128 = number_of(session);
    let old_list = match table_get(table, key) {
        Some(v) => v,
        None => Vec::new(),
    };
    let ghost before = listed(connections_of(*table), session@);
    assert(old_list@ =~= before);
    let mut kept: Vec<u64> = Vec::new();
    let mut i: usize = 0;
    assert(before.take(0) =~= Seq::empty());
    while i < old_list.len()
        invariant
            i <= old_list@.len(),
            old_list@ == before,
            kept@ == alive(before.take(i as int), live@),
        decreases old_list@.len() - i,
    {
        assert(before.take(i + 1).drop_last() =~= before.take(i as int));
        assert(before.take(i + 1).last() == old_list@[i as int]);
        if holds(live, old_list[i]) {
            kept.push(old_list[i]);
        }
        i = i + 1;
    }
    assert(before.take(i as int) =~= before);
    if !holds(&kept, c) {
        kept.push(c);
    }
    table_insert(table, key, kept);
}

/// Whether the connection of a COMPOUND is bound to `session`. A call that came
/// in without a connection counts as bound.
pub fn conn_bound_to_session(
    table: &DashMap<u128, Vec<u64>>,
    session: &SessionId,
    conn: Option<u64>,
) -> (b: bool)
    ensures
        b == (match conn {
            Some(c) => listed(connections_of(*table), session@).contains(c),
            None => true,
        }),
{
    match conn {
        Some(c) => match table_get(table, number_of(session)) {
            Some(v) => holds(&v, c),
            None => false,
        },
        None => true,
    }
}

/// Forget the connections of a session that is gone.
pub fn unbind_session(table: &mut DashMap<u128, Vec<u64>>, session: &SessionId)
    ensures
        connections_of(*final(table)) == connections_of(*old(table)).remove(
            session_number(session@),
        ),
{
    table_remove(table, number_of(session));
}

/// Register one more connection for the callbacks of a session, once.
pub fn bind_back_channel(table: &mut DashMap<u128, Vec<u64>>, session: &SessionId, conn: u64)
    ensures
        connections_of(*final(table)) == connections_of(*old(table)).insert(
            session_number(session@),
            with(listed(connections_of(*old(table)), session@), conn),
        ),
{
    let key: u128 = number_of(session);
    let mut list = match table_get(table, key) {
        Some(v) => v,
        None => Vec::new(),
    };
    assert(list@ =~= listed(connections_of(*table), session@));
    if !holds(&list, conn) {
        list.push(conn);
    }
    table_insert(table, key, list);
}

/// The connections that a session can be called back on, oldest first.
pub fn back_channels(table: &DashMap<u128, Vec<u64>>, session: &SessionId) -> (v: Vec<u64>)
    ensures
        v@ == listed(connections_of(*table), session@),
{
    match table_get(table, number_of(session)) {
        Some(v) => v,
        None => {
            let v: Vec<u64> = Vec::new();
            assert(v@ =~= Seq::empty());
            v
        },
    }
}

proof fn lemma_alive_keeps(conns: Seq<u64>, live: Seq<u64>, c: u64)
    ensures
        alive(conns, live).contains(c) <==> conns.contains(c) && live.contains(c),
    decreases conns.len(),
{
    if conns.len() > 0 {
        let front = conns.drop_last();
        lemma_alive_keeps(front, live, c);
        let a = alive(conns, live);
        if conns.contains(c) && live.contains(c) {
            let k = choose|k: int| 0 <= k < conns.len() && conns[k] == c;
            if k == conns.len() - 1 {
                assert(a[a.len() - 1] == c);
            } else {
                assert(front[k] == c);
                let b = alive(front, live);
                let j = choose|j: int| 0 <= j < b.len() && b[j] == c;
                assert(a[j] == c);
            }
        }
        if a.contains(c) {
            let k = choose|k: int| 0 <= k < a.len() && a[k] == c;
            if k < alive(front, live).len() {
                assert(alive(front, live)[k] == c);
                let j = choose|j: int| 0 <= j < front.len() && front[j] == c;
                assert(conns[j] == c);
            } else {
                assert(conns[conns.len() - 1] == c);
            }
        }
    }
}

/// Law: a connection that was just bound is bound; connections of the session
/// that are still open stay bound, and dead ones do not.
pub proof fn binding_binds(
    table: Map<u128, Seq<u64>>,
    session: Seq<u8>,
    conn: u64,
    live: Seq<u64>,
    c: u64,
)
    ensures
        listed(bound(table, session, conn, live), session).contains(conn),
        c != conn ==> (listed(bound(table, session, conn, live), session).contains(c) <==> listed(
            table,
            session,
        ).contains(c) && live.contains(c)),
{
    let kept = alive(listed(table, session), live);
    lemma_alive_keeps(listed(table, session), live, c);
    lemma_alive_keeps(listed(table, session), live, conn);
    let now = with(kept, conn);
    if !kept.contains(conn) {
        assert(now[now.len() - 1] == conn);
        if kept.contains(c) {
            let k = choose|k: int| 0 <= k < kept.len() && kept[k] == c;
            assert(now[k] == c);
        }
    }
}

/// Law: binding to one session leaves the connections of every other as they
/// were.
pub proof fn sessions_do_not_share_connections(
    table: Map<u128, Seq<u64>>,
    session: Seq<u8>,
    other: Seq<u8>,
    conn: u64,
    live: Seq<u64>,
)
    requires
        session.len() == 16,
        other.len() == 16,
        session != other,
    ensures
        listed(bound(table, session, conn, live), other) == listed(table, other),
{
    if session_number(session) == session_number(other) {
        sessions_have_their_own_numbers(session, other);
    }
}

/// Law: the number of a session is its sixteen octets taken as one number, the most
/// significant first.
pub proof fn a_session_is_numbered_by_its_octets(high: u64, low: u64)
    ensures
        session_number(octets::be64(high) + octets::be64(low)) == high * 0x1_0000_0000_0000_0000
            + low,
{
    let id = octets::be64(high) + octets::be64(low);
    assert(id.take(8) =~= octets::be64(high));
    assert(id.skip(8) =~= octets::be64(low));
    octets::lemma_u64_round_trip(high);
    octets::lemma_u64_round_trip(low);
}

/// Law: a connection that is added comes last and is not added twice; those that were
/// there keep their order.
pub proof fn a_connection_is_added_once(conns: Seq<u64>, conn: u64, i: int)
    ensures
        with(conns, conn).contains(conn),
        with(with(conns, conn), conn) == with(conns, conn),
        0 <= i < conns.len() ==> with(conns, conn)[i] == conns[i],
        !conns.contains(conn) ==> with(conns, conn).last() == conn && with(conns, conn).len()
            == conns.len() + 1,
        conns.contains(conn) ==> with(conns, conn).len() == conns.len(),
{
    if !conns.contains(conn) {
        assert(with(conns, conn)[conns.len() as int] == conn);
    }
}

/// Law: a session has the connections of its entry; one without an entry has none, and
/// neither has one that was let go of.
pub proof fn a_session_that_is_gone_has_no_connections(
    table: Map<u128, Seq<u64>>,
    session: Seq<u8>,
    conns: Seq<u64>,
)
    ensures
        listed(no_connections(), session).len() == 0,
        listed(table.remove(session_number(session)), session).len() == 0,
        listed(table.insert(session_number(session), conns), session) == conns,
{
}

/// Law: a connection that was bound to a session is bound to it, and one that never was is
/// not, unless it is gone; a call without a connection is taken as bound.
pub proof fn what_was_bound_is_bound(
    table: &mut DashMap<u128, Vec<u64>>,
    session: &SessionId,
    conn: u64,
    live: &Vec<u64>,
    later: &DashMap<u128, Vec<u64>>,
    other: u64,
    same: bool,
    another: bool,
    none: bool,
)
    requires
        call_ensures(bind_conn_to_session, (table, session, Some(conn), live), ()),
        connections_of(*later) == connections_of(*final(table)),
        call_ensures(conn_bound_to_session, (later, session, Some(conn)), same),
        call_ensures(conn_bound_to_session, (later, session, Some(other)), another),
        call_ensures(conn_bound_to_session, (later, session, None::<u64>), none),
    ensures
        same,
        none,
        other != conn ==> (another <==> listed(connections_of(*old(table)), session@).contains(
            other,
        ) && live@.contains(other)),
{
    binding_binds(connections_of(*old(table)), session@, conn, live@, other);
}

/// Law: the callbacks of a session go over the connections that were registered for it, the
/// new one at the end and no one twice; a session that was ended has none.
pub proof fn callbacks_go_over_what_was_registered(
    table: &mut DashMap<u128, Vec<u64>>,
    session: &SessionId,
    conn: u64,
    later: &DashMap<u128, Vec<u64>>,
    v: Vec<u64>,
    ended: &mut DashMap<u128, Vec<u64>>,
    after: &DashMap<u128, Vec<u64>>,
    none: Vec<u64>,
)
    requires
        call_ensures(bind_back_channel, (table, session, conn), ()),
        connections_of(*later) == connections_of(*final(table)),
        call_ensures(back_channels, (later, session), v),
        call_ensures(unbind_session, (ended, session), ()),
        connections_of(*after) == connections_of(*final(ended)),
        call_ensures(back_channels, (after, session), none),
    ensures
        listed(connections_of(*old(table)), session@).contains(conn) ==> v@ == listed(
            connections_of(*old(table)),
            session@,
        ),
        !listed(connections_of(*old(table)), session@).contains(conn) ==> v@ == listed(
            connections_of(*old(table)),
            session@,
        ).push(conn),
        none@.len() == 0,
{
}

} // verus!
