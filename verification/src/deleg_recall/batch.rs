//! Recalls that share a callback: grouping the orders, splitting the reply.
use crate::cb_compound;
use crate::cb_compound::{
    CbCompoundReply, CbCompoundReplyView, CbReplyError, CbResult, CbResultView,
};
use crate::protocol::{Nfs4Status, StateId};
use crate::xdr;
use crate::xdr::octets_to_vec;
use vstd::prelude::*;

verus! {

/// A delegation to recall, and from whom. The fence hands out each order once.
#[derive(Debug)]
pub struct RecallOrder {
    pub client_id: u64,
    pub stateid: StateId,
    pub truncate: bool,
    pub fh: Vec<u8>,
}

/// The arguments of one CB_RECALL.
#[derive(Debug, PartialEq, Eq)]
pub struct RecallItem {
    pub stateid: StateId,
    pub truncate: bool,
    pub fh: Vec<u8>,
}

impl RecallItem {
    pub open spec fn asks_for(self, o: RecallOrder) -> bool {
        self.stateid == o.stateid && self.truncate == o.truncate && self.fh@ == o.fh@
    }

    pub fn from_order(o: &RecallOrder) -> (i: RecallItem)
        ensures
            i.asks_for(*o),
    {
        RecallItem { stateid: o.stateid, truncate: o.truncate, fh: octets_to_vec(o.fh.as_slice()) }
    }
}

/// The recalls of one callback, in the order of their orders.
pub fn recall_items(chunk: &Vec<RecallOrder>) -> (items: Vec<RecallItem>)
    ensures
        items@.len() == chunk@.len(),
        forall|i: int| 0 <= i < chunk@.len() ==> (#[trigger] items@[i]).asks_for(chunk@[i]),
{
    let mut items: Vec<RecallItem> = Vec::new();
    let mut i: usize = 0;
    while i < chunk.len()
        invariant
            i <= chunk@.len(),
            items@.len() == i,
            forall|k: int| 0 <= k < i ==> (#[trigger] items@[k]).asks_for(chunk@[k]),
        decreases chunk@.len() - i,
    {
        items.push(RecallItem::from_order(&chunk[i]));
        i = i + 1;
    }
    items
}

/// Why a callback brought no reply that can be used.
#[derive(Debug, PartialEq, Eq)]
pub enum CallbackError {
    /// The call went out and nothing came back.
    Timeout,
    /// No transport took the call.
    Transport(String),
    /// Something came back that is no reply.
    Reply(CbReplyError),
    /// There is no connection.
    ConnectionClosed,
}

pub enum CallbackErrorView {
    Timeout,
    Transport(Seq<char>),
    Reply(CbReplyError),
    ConnectionClosed,
}

impl View for CallbackError {
    type V = CallbackErrorView;

    open spec fn view(&self) -> CallbackErrorView {
        match *self {
            CallbackError::Timeout => CallbackErrorView::Timeout,
            CallbackError::Transport(m) => CallbackErrorView::Transport(m@),
            CallbackError::Reply(e) => CallbackErrorView::Reply(e),
            CallbackError::ConnectionClosed => CallbackErrorView::ConnectionClosed,
        }
    }
}

/// The outcome of a batch concerns every record in it.
pub fn clone_cb_error(e: &CallbackError) -> (c: CallbackError)
    ensures
        c@ == e@,
{
    match e {
        CallbackError::Timeout => CallbackError::Timeout,
        CallbackError::Transport(m) => CallbackError::Transport(m.clone()),
        CallbackError::Reply(r) => CallbackError::Reply(*r),
        CallbackError::ConnectionClosed => CallbackError::ConnectionClosed,
    }
}

// ---------------------------------------------------------------------------
// What a reply says
// ---------------------------------------------------------------------------

/// The first CB_SEQUENCE result.
pub open spec fn first_sequence(rs: Seq<CbResultView>) -> Option<CbResultView>
    decreases rs.len(),
{
    if rs.len() == 0 {
        None
    } else if first_sequence(rs.drop_last()) is Some {
        first_sequence(rs.drop_last())
    } else if rs.last() is Sequence {
        Some(rs.last())
    } else {
        None
    }
}

/// The statuses of the CB_RECALL results, in order.
pub open spec fn recall_statuses(rs: Seq<CbResultView>) -> Seq<Nfs4Status>
    decreases rs.len(),
{
    if rs.len() == 0 {
        Seq::empty()
    } else {
        match rs.last() {
            CbResultView::Recall { status } => recall_statuses(rs.drop_last()).push(status),
            _ => recall_statuses(rs.drop_last()),
        }
    }
}

/// What a reply means for a record.
#[derive(Debug, Clone, Copy, PartialEq, Eq, Structural)]
pub enum Classified {
    /// The client asks for time. It is asked again, and not revoked for it.
    Delay,
    /// The client took note; the delegation is on its way back.
    Acked,
    /// The client says that it holds no such delegation.
    Disown,
    /// The client cannot or will not.
    Refused,
}

pub open spec fn any_delay(rs: Seq<CbResultView>) -> bool {
    exists|i: int|
        0 <= i < rs.len() && cb_compound::result_status(#[trigger] rs[i]) == Nfs4Status::Delay
}

/// A delay anywhere is a delay. Otherwise the status of the recall decides, and
/// a reply that never came to the recall is a refusal.
pub open spec fn classified(reply: CbCompoundReplyView) -> Classified {
    let recalls = recall_statuses(reply.results);
    if reply.status == Nfs4Status::Delay || any_delay(reply.results) {
        Classified::Delay
    } else if recalls.len() == 0 {
        Classified::Refused
    } else if recalls[0] == Nfs4Status::NfsOk {
        Classified::Acked
    } else if recalls[0] == Nfs4Status::BadStateId || recalls[0] == Nfs4Status::BadHandle {
        Classified::Disown
    } else {
        Classified::Refused
    }
}

fn collect_recalls(results: &Vec<CbResult>) -> (v: Vec<Nfs4Status>)
    ensures
        v@ == recall_statuses(xdr::views(results@)),
{
    let ghost all = xdr::views(results@);
    let mut v: Vec<Nfs4Status> = Vec::new();
    let mut i: usize = 0;
    assert(all.take(0) =~= Seq::empty());
    while i < results.len()
        invariant
            i <= results@.len(),
            all == xdr::views(results@),
            v@ == recall_statuses(all.take(i as int)),
        decreases results@.len() - i,
    {
        assert(all.take(i + 1).drop_last() =~= all.take(i as int));
        assert(all.take(i + 1).last() == results@[i as int]@);
        if let CbResult::Recall { status } = &results[i] {
            v.push(*status);
        }
        i = i + 1;
    }
    assert(all.take(i as int) =~= all);
    v
}

fn find_sequence(results: &Vec<CbResult>) -> (s: Option<CbResult>)
    ensures
        match s {
            Some(s) => first_sequence(xdr::views(results@)) == Some(s@),
            None => first_sequence(xdr::views(results@)) is None,
        },
{
    let ghost all = xdr::views(results@);
    let mut found: Option<CbResult> = None;
    let mut i: usize = 0;
    assert(all.take(0) =~= Seq::empty());
    while i < results.len()
        invariant
            i <= results@.len(),
            all == xdr::views(results@),
            match found {
                Some(s) => first_sequence(all.take(i as int)) == Some(s@),
                None => first_sequence(all.take(i as int)) is None,
            },
        decreases results@.len() - i,
    {
        assert(all.take(i + 1).drop_last() =~= all.take(i as int));
        assert(all.take(i + 1).last() == results@[i as int]@);
        if found.is_none() {
            if let CbResult::Sequence { .. } = &results[i] {
                found = Some(results[i]);
            }
        }
        i = i + 1;
    }
    assert(all.take(i as int) =~= all);
    found
}

/// Classify the reply to one recall.
pub fn classify(reply: &CbCompoundReply) -> (c: Classified)
    ensures
        c == classified(reply@),
{
    if reply.status == Nfs4Status::Delay {
        return Classified::Delay;
    }
    let mut i: usize = 0;
    while i < reply.results.len()
        invariant
            i <= reply.results@.len(),
            forall|k: int|
                0 <= k < i ==> cb_compound::result_status(#[trigger] reply@.results[k])
                    != Nfs4Status::Delay,
        decreases reply.results@.len() - i,
    {
        assert(reply@.results[i as int] == reply.results@[i as int]@);
        if reply.results[i].status() == Nfs4Status::Delay {
            assert(any_delay(reply@.results));
            return Classified::Delay;
        }
        i = i + 1;
    }
    assert(!any_delay(reply@.results));
    let recalls = collect_recalls(&reply.results);
    if recalls.len() == 0 {
        return Classified::Refused;
    }
    match recalls[0] {
        Nfs4Status::NfsOk => Classified::Acked,
        Nfs4Status::BadStateId | Nfs4Status::BadHandle => Classified::Disown,
        _ => Classified::Refused,
    }
}

// ---------------------------------------------------------------------------
// Splitting the reply to a batch
// ---------------------------------------------------------------------------

/// Whether the whole batch was told to wait.
pub open spec fn batch_delayed(reply: CbCompoundReplyView) -> bool {
    ||| first_sequence(reply.results) matches Some(s) && cb_compound::result_status(s)
        == Nfs4Status::Delay
    ||| recall_statuses(reply.results).len() == 0 && reply.status == Nfs4Status::Delay
}

pub open spec fn head(reply: CbCompoundReplyView) -> Seq<CbResultView> {
    match first_sequence(reply.results) {
        Some(s) => seq![s],
        None => Seq::empty(),
    }
}

/// The reply as far as the record at place `i` of the batch is concerned: its own
/// result next to the CB_SEQUENCE result, and nothing of its siblings. Nothing
/// where the callback ended before it reached the record, which was then not
/// asked at all; a callback that ended at CB_SEQUENCE is every record's.
pub open spec fn part(reply: CbCompoundReplyView, i: int) -> Option<CbCompoundReplyView> {
    let recalls = recall_statuses(reply.results);
    if 0 <= i < recalls.len() {
        Some(
            CbCompoundReplyView {
                status: if batch_delayed(reply) {
                    Nfs4Status::Delay
                } else {
                    recalls[i]
                },
                tag: reply.tag,
                results: head(reply).push(CbResultView::Recall { status: recalls[i] }),
            },
        )
    } else if recalls.len() == 0 {
        Some(
            CbCompoundReplyView { status: reply.status, tag: reply.tag, results: head(reply) },
        )
    } else {
        None
    }
}

pub open spec fn opt_reply_view(r: Option<CbCompoundReply>) -> Option<CbCompoundReplyView> {
    match r {
        Some(r) => Some(r@),
        None => None,
    }
}

/// Split the reply to a batch of `n` recalls.
pub fn split_batch_reply(reply: &CbCompoundReply, n: usize) -> (parts: Vec<Option<CbCompoundReply>>)
    ensures
        parts@.len() == n,
        forall|i: int| 0 <= i < n ==> opt_reply_view(#[trigger] parts@[i]) == part(reply@, i),
{
    let seq = find_sequence(&reply.results);
    let recalls = collect_recalls(&reply.results);
    let told_by_sequence = match &seq {
        Some(s) => s.status() == Nfs4Status::Delay,
        None => false,
    };
    let delayed = told_by_sequence || (recalls.len() == 0 && reply.status == Nfs4Status::Delay);
    let mut parts: Vec<Option<CbCompoundReply>> = Vec::new();
    let mut i: usize = 0;
    while i < n
        invariant
            i <= n,
            parts@.len() == i,
            match seq {
                Some(s) => first_sequence(reply@.results) == Some(s@),
                None => first_sequence(reply@.results) is None,
            },
            recalls@ == recall_statuses(reply@.results),
            delayed == batch_delayed(reply@),
            forall|k: int| 0 <= k < i ==> opt_reply_view(#[trigger] parts@[k]) == part(reply@, k),
        decreases n - i,
    {
        let mut results: Vec<CbResult> = Vec::new();
        if let Some(s) = &seq {
            results.push(*s);
        }
        assert(xdr::views(results@) =~= head(reply@));
        if i < recalls.len() {
            let status = recalls[i];
            results.push(CbResult::Recall { status });
            assert(xdr::views(results@) =~= head(reply@).push(CbResultView::Recall { status }));
            let own = if delayed {
                Nfs4Status::Delay
            } else {
                status
            };
            parts.push(Some(CbCompoundReply { status: own, tag: reply.tag.clone(), results }));
        } else if recalls.len() == 0 {
            parts.push(
                Some(CbCompoundReply { status: reply.status, tag: reply.tag.clone(), results }),
            );
        } else {
            parts.push(None);
        }
        i = i + 1;
    }
    parts
}

/// Law: what a record is told depends on the CB_SEQUENCE result and on its own
/// result alone. No sibling's status changes it.
pub proof fn a_sibling_changes_nothing(a: CbCompoundReplyView, b: CbCompoundReplyView, i: int)
    requires
        a.tag == b.tag,
        first_sequence(a.results) == first_sequence(b.results),
        0 <= i < recall_statuses(a.results).len(),
        0 <= i < recall_statuses(b.results).len(),
        recall_statuses(a.results)[i] == recall_statuses(b.results)[i],
    ensures
        part(a, i) == part(b, i),
{
}

/// Law: where the callback itself went through, each record is classified by its
/// own status as if it had been asked alone.
pub proof fn each_record_gets_its_own_answer(reply: CbCompoundReplyView, i: int)
    requires
        first_sequence(reply.results) matches Some(s) && cb_compound::result_status(s)
            == Nfs4Status::NfsOk,
        0 <= i < recall_statuses(reply.results).len(),
    ensures
        part(reply, i) is Some,
        ({
            let own = recall_statuses(reply.results)[i];
            classified(part(reply, i)->0) == (if own == Nfs4Status::Delay {
                Classified::Delay
            } else if own == Nfs4Status::NfsOk {
                Classified::Acked
            } else if own == Nfs4Status::BadStateId || own == Nfs4Status::BadHandle {
                Classified::Disown
            } else {
                Classified::Refused
            })
        }),
{
    let own = recall_statuses(reply.results)[i];
    let p = part(reply, i)->0;
    lemma_first_sequence_is_one(reply.results);
    assert(p.results.len() == 2);
    assert(p.results[1] == CbResultView::Recall { status: own });
    assert(p.results.drop_last() =~= head(reply));
    assert(head(reply).drop_last() =~= Seq::empty());
    assert(recall_statuses(head(reply)) =~= Seq::empty()) by {
        reveal_with_fuel(recall_statuses, 3);
    }
    assert(recall_statuses(p.results) =~= seq![own]);
    if own == Nfs4Status::Delay {
        assert(cb_compound::result_status(p.results[1]) == Nfs4Status::Delay);
    } else {
        assert(!any_delay(p.results));
    }
}

proof fn lemma_first_sequence_is_one(rs: Seq<CbResultView>)
    ensures
        first_sequence(rs) matches Some(s) ==> s is Sequence,
    decreases rs.len(),
{
    if rs.len() > 0 {
        lemma_first_sequence_is_one(rs.drop_last());
    }
}

/// Law: a record that the callback did not reach is nobody's answer, and one
/// that it reached always has an answer.
pub proof fn only_an_unreached_record_has_no_answer(reply: CbCompoundReplyView, i: int)
    requires
        0 <= i,
    ensures
        part(reply, i) is None <==> 0 < recall_statuses(reply.results).len() <= i,
{
}

// ---------------------------------------------------------------------------
// The first transmit of a batch
// ---------------------------------------------------------------------------

/// The outcome of a first transmit that the batch made for a record.
#[derive(Debug)]
pub struct Primed {
    pub outcome: Result<CbCompoundReply, CallbackError>,
    /// How often the client had bound a connection before the batch was sent.
    pub rearm_epoch: u64,
}

impl Primed {
    pub open spec fn stands_for(
        self,
        reply: Result<CbCompoundReplyView, CallbackErrorView>,
        rearm_epoch: u64,
    ) -> bool {
        self.rearm_epoch == rearm_epoch && match self.outcome {
            Ok(r) => reply == Ok::<CbCompoundReplyView, CallbackErrorView>(r@),
            Err(e) => reply == Err::<CbCompoundReplyView, CallbackErrorView>(e@),
        }
    }
}

/// What each of the `n` records of a batch starts its ladder with. A record
/// without an outcome sends for itself.
pub fn prime(
    outcome: &Result<CbCompoundReply, CallbackError>,
    n: usize,
    rearm_epoch: u64,
) -> (primed: Vec<Option<Primed>>)
    ensures
        primed@.len() == n,
        forall|i: int|
            0 <= i < n ==> match outcome {
                Ok(reply) => match part(reply@, i) {
                    Some(p) => #[trigger] primed@[i] matches Some(q) && q.stands_for(
                        Ok(p),
                        rearm_epoch,
                    ),
                    None => primed@[i] is None,
                },
                Err(e) => primed@[i] matches Some(q) && q.stands_for(Err(e@), rearm_epoch),
            },
{
    let mut primed: Vec<Option<Primed>> = Vec::new();
    match outcome {
        Ok(reply) => {
            let parts = split_batch_reply(reply, n);
            for p in it: parts
                invariant
                    it.seq() == parts@,
                    parts@.len() == n,
                    forall|i: int|
                        0 <= i < n ==> opt_reply_view(#[trigger] parts@[i]) == part(reply@, i),
                    primed@.len() == it.index(),
                    forall|i: int|
                        0 <= i < it.index() ==> match part(reply@, i) {
                            Some(p) => #[trigger] primed@[i] matches Some(q) && q.stands_for(
                                Ok(p),
                                rearm_epoch,
                            ),
                            None => primed@[i] is None,
                        },
            {
                let ghost k = it.index() as int;
                assert(opt_reply_view(parts@[k]) == part(reply@, k));
                match p {
                    Some(r) => {
                        primed.push(Some(Primed { outcome: Ok(r), rearm_epoch }));
                    },
                    None => {
                        primed.push(None);
                    },
                }
            }
        },
        Err(e) => {
            let mut i: usize = 0;
            while i < n
                invariant
                    i <= n,
                    primed@.len() == i,
                    forall|k: int|
                        0 <= k < i ==> (#[trigger] primed@[k] matches Some(q) && q.stands_for(
                            Err(e@),
                            rearm_epoch,
                        )),
                decreases n - i,
            {
                primed.push(Some(Primed { outcome: Err(clone_cb_error(e)), rearm_epoch }));
                i = i + 1;
            }
        },
    }
    primed
}

// ---------------------------------------------------------------------------
// Grouping and chunking the orders
// ---------------------------------------------------------------------------

/// The clients of a list of orders, each once, in the order of their first.
pub open spec fn clients_of(orders: Seq<RecallOrder>) -> Seq<u64>
    decreases orders.len(),
{
    if orders.len() == 0 {
        Seq::empty()
    } else {
        let before = clients_of(orders.drop_last());
        if before.contains(orders.last().client_id) {
            before
        } else {
            before.push(orders.last().client_id)
        }
    }
}

/// The orders for one client, in their order.
pub open spec fn orders_of(orders: Seq<RecallOrder>, client_id: u64) -> Seq<RecallOrder>
    decreases orders.len(),
{
    if orders.len() == 0 {
        Seq::empty()
    } else {
        let before = orders_of(orders.drop_last(), client_id);
        if orders.last().client_id == client_id {
            before.push(orders.last())
        } else {
            before
        }
    }
}

/// All the orders for one client.
#[derive(Debug)]
pub struct ClientGroup {
    pub client_id: u64,
    pub orders: Vec<RecallOrder>,
}

pub open spec fn groups_match(groups: Seq<ClientGroup>, orders: Seq<RecallOrder>) -> bool {
    &&& groups.len() == clients_of(orders).len()
    &&& forall|k: int|
        0 <= k < groups.len() ==> (#[trigger] groups[k]).client_id == clients_of(orders)[k]
            && groups[k].orders@ == orders_of(orders, groups[k].client_id)
}

proof fn lemma_no_orders(orders: Seq<RecallOrder>, client_id: u64)
    requires
        !clients_of(orders).contains(client_id),
    ensures
        orders_of(orders, client_id) == Seq::<RecallOrder>::empty(),
    decreases orders.len(),
{
    if orders.len() > 0 {
        let front = orders.drop_last();
        let before = clients_of(front);
        if before.contains(orders.last().client_id) {
            lemma_no_orders(front, client_id);
        } else {
            let now = clients_of(orders);
            assert(now[now.len() - 1] == orders.last().client_id);
            if before.contains(client_id) {
                let k = choose|k: int| 0 <= k < before.len() && before[k] == client_id;
                assert(now[k] == client_id);
            }
            lemma_no_orders(front, client_id);
        }
        if orders.last().client_id == client_id {
            if before.contains(client_id) {
                assert(clients_of(orders).contains(client_id));
            } else {
                let now = clients_of(orders);
                assert(now[now.len() - 1] == client_id);
            }
        }
    }
}

/// Law: a client is listed once, and exactly the clients that have orders are.
pub proof fn clients_are_listed_once(orders: Seq<RecallOrder>)
    ensures
        clients_of(orders).no_duplicates(),
        forall|i: int|
            0 <= i < orders.len() ==> clients_of(orders).contains((#[trigger] orders[i]).client_id),
    decreases orders.len(),
{
    if orders.len() > 0 {
        let front = orders.drop_last();
        let before = clients_of(front);
        let now = clients_of(orders);
        clients_are_listed_once(front);
        assert forall|i: int| 0 <= i < orders.len() implies now.contains(
            (#[trigger] orders[i]).client_id,
        ) by {
            if i < front.len() {
                assert(front[i] == orders[i]);
                let k = choose|k: int| 0 <= k < before.len() && before[k] == orders[i].client_id;
                assert(now[k] == before[k]);
            } else if !before.contains(orders.last().client_id) {
                assert(now[now.len() - 1] == orders[i].client_id);
            }
        }
    }
}

/// Law: grouping drops no order and moves none to another client.
pub proof fn every_order_is_in_the_group_of_its_client(orders: Seq<RecallOrder>, i: int)
    requires
        0 <= i < orders.len(),
    ensures
        orders_of(orders, orders[i].client_id).contains(orders[i]),
        forall|c: u64, k: int|
            0 <= k < orders_of(orders, c).len() ==> (#[trigger] orders_of(orders, c)[k]).client_id
                == c,
    decreases orders.len(),
{
    let front = orders.drop_last();
    let c = orders[i].client_id;
    if i < front.len() {
        every_order_is_in_the_group_of_its_client(front, i);
        assert(front[i] == orders[i]);
        let b = orders_of(front, c);
        let k = choose|k: int| 0 <= k < b.len() && b[k] == orders[i];
        assert(orders_of(orders, c)[k] == orders[i]);
    } else {
        let n = orders_of(orders, c);
        assert(n[n.len() - 1] == orders[i]);
        if front.len() > 0 {
            every_order_is_in_the_group_of_its_client(front, 0);
        } else {
            assert(front =~= Seq::empty());
        }
    }
    assert forall|c: u64, k: int| 0 <= k < orders_of(orders, c).len() implies (
    #[trigger] orders_of(orders, c)[k]).client_id == c by {
        if k < orders_of(front, c).len() {
            assert(orders_of(orders, c)[k] == orders_of(front, c)[k]);
        }
    }
}

/// Group orders by client, the clients in the order in which they first appear.
pub fn group_orders(orders: Vec<RecallOrder>) -> (groups: Vec<ClientGroup>)
    ensures
        groups_match(groups@, orders@),
{
    let ghost all = orders@;
    let mut groups: Vec<ClientGroup> = Vec::new();
    assert(all.take(0) =~= Seq::empty());
    for order in it: orders
        invariant
            it.seq() == orders@,
            all == orders@,
            groups_match(groups@, all.take(it.index() as int)),
    {
        let ghost k = it.index() as int;
        let ghost front = all.take(k);
        let ghost whole = all.take(k + 1);
        let ghost before = groups@;
        assert(whole.drop_last() =~= front);
        assert(whole.last() == order);
        let client_id: u64 = order.client_id;
        let mut i: usize = 0;
        while i < groups.len() && groups[i].client_id != client_id
            invariant
                i <= groups@.len(),
                forall|j: int| 0 <= j < i ==> (#[trigger] groups@[j]).client_id != client_id,
            decreases groups@.len() - i,
        {
            i = i + 1;
        }
        if i < groups.len() {
            assert(clients_of(front)[i as int] == client_id);
            proof {
                clients_are_listed_once(front);
            }
            groups[i].orders.push(order);
            assert(groups@[i as int].orders@ =~= orders_of(whole, client_id));
            assert forall|j: int| 0 <= j < groups@.len() implies (#[trigger] groups@[j]).client_id
                == clients_of(whole)[j] && groups@[j].orders@ == orders_of(
                whole,
                groups@[j].client_id,
            ) by {
                if j != i {
                    assert(groups@[j] == before[j]);
                }
            }
        } else {
            assert(!clients_of(front).contains(client_id)) by {
                if clients_of(front).contains(client_id) {
                    let j = choose|j: int|
                        0 <= j < clients_of(front).len() && clients_of(front)[j] == client_id;
                    assert(groups@[j].client_id == client_id);
                }
            }
            proof {
                lemma_no_orders(front, client_id);
            }
            let mut own: Vec<RecallOrder> = Vec::new();
            own.push(order);
            groups.push(ClientGroup { client_id, orders: own });
            assert(groups@[i as int].orders@ =~= orders_of(whole, client_id));
            assert forall|j: int| 0 <= j < groups@.len() implies (#[trigger] groups@[j]).client_id
                == clients_of(whole)[j] && groups@[j].orders@ == orders_of(
                whole,
                groups@[j].client_id,
            ) by {
                if j < before.len() {
                    assert(groups@[j] == before[j]);
                    assert(clients_of(front)[j] == before[j].client_id);
                    assert(clients_of(front).contains(before[j].client_id));
                }
            }
        }
    }
    assert(all.take(all.len() as int) =~= all);
    groups
}

/// The orders cut into runs of at most `limit`.
pub open spec fn chunks(orders: Seq<RecallOrder>, limit: nat) -> Seq<Seq<RecallOrder>>
    decreases orders.len(),
{
    if orders.len() == 0 || limit == 0 {
        Seq::empty()
    } else if orders.len() <= limit {
        seq![orders]
    } else {
        seq![orders.take(limit as int)] + chunks(orders.skip(limit as int), limit)
    }
}

/// One callback to make.
#[derive(Debug)]
pub enum RecallTask {
    /// A record on its own: no batch comes before its ladder.
    One(RecallOrder),
    /// Records whose first transmit shares a callback.
    Batch(Vec<RecallOrder>),
}

impl RecallTask {
    pub open spec fn orders(self) -> Seq<RecallOrder> {
        match self {
            RecallTask::One(o) => seq![o],
            RecallTask::Batch(v) => v@,
        }
    }

    /// A batch has at least two records.
    pub open spec fn wf(self) -> bool {
        self matches RecallTask::Batch(v) ==> v@.len() >= 2
    }
}

pub open spec fn task_orders(tasks: Seq<RecallTask>) -> Seq<Seq<RecallOrder>> {
    tasks.map_values(|t: RecallTask| t.orders())
}

proof fn lemma_chunks_push(orders: Seq<RecallOrder>, limit: nat, from: int)
    requires
        limit > 0,
        0 <= from < orders.len(),
    ensures
        ({
            let rest = orders.skip(from);
            let n = if rest.len() <= limit {
                rest.len()
            } else {
                limit
            };
            &&& chunks(rest, limit) == seq![orders.subrange(from, from + n)] + chunks(
                orders.skip(from + n),
                limit,
            )
        }),
{
    let rest = orders.skip(from);
    if rest.len() <= limit {
        let n = rest.len();
        assert(orders.subrange(from, from + n) =~= rest);
        assert(orders.skip(from + n) =~= Seq::empty());
        assert(seq![rest] + Seq::<Seq<RecallOrder>>::empty() =~= seq![rest]);
    } else {
        let n = limit;
        assert(orders.subrange(from, from + n) =~= rest.take(n as int));
        assert(orders.skip(from + n) =~= rest.skip(n as int));
    }
}

/// The callbacks for one client's orders, of at most `limit` recalls each. A
/// limit of 0 counts as 1.
pub fn chunk_orders(group: ClientGroup, limit: usize) -> (tasks: Vec<RecallTask>)
    ensures
        task_orders(tasks@) == chunks(
            group.orders@,
            if limit == 0 {
                1
            } else {
                limit as nat
            },
        ),
        forall|k: int| 0 <= k < tasks@.len() ==> (#[trigger] tasks@[k]).wf(),
{
    let limit: usize = if limit == 0 {
        1
    } else {
        limit
    };
    let ghost all = group.orders@;
    let total: usize = group.orders.len();
    let mut tasks: Vec<RecallTask> = Vec::new();
    let mut chunk: Vec<RecallOrder> = Vec::new();
    let ghost mut from: int = 0;
    assert(all.skip(0) =~= all);
    assert(task_orders(tasks@) =~= Seq::empty());
    assert(Seq::<Seq<RecallOrder>>::empty() + chunks(all, limit as nat) =~= chunks(
        all,
        limit as nat,
    ));
    let mut done: usize = 0;
    for order in it: group.orders
        invariant
            it.seq() == all,
            total == all.len(),
            0 < limit,
            done == it.index(),
            0 <= from <= it.index() <= all.len(),
            chunk@ == all.subrange(from, it.index() as int),
            chunk@.len() < limit,
            it.index() == all.len() ==> from == all.len(),
            forall|k: int| 0 <= k < tasks@.len() ==> (#[trigger] tasks@[k]).wf(),
            chunks(all, limit as nat) == task_orders(tasks@) + chunks(
                all.skip(from),
                limit as nat,
            ),
    {
        let ghost k = it.index() as int;
        let ghost before = chunk@;
        chunk.push(order);
        done = done + 1;
        assert(chunk@ =~= all.subrange(from, k + 1));
        if chunk.len() == limit || done == total {
            let ghost made = chunk@;
            let ghost tasks_before = tasks@;
            proof {
                lemma_chunks_push(all, limit as nat, from);
            }
            if chunk.len() == 1 {
                match chunk.pop() {
                    Some(o) => {
                        assert(made =~= seq![o]);
                        tasks.push(RecallTask::One(o));
                    },
                    None => {},
                }
            } else {
                tasks.push(RecallTask::Batch(chunk));
                chunk = Vec::new();
            }
            assert(tasks@.last().orders() =~= made);
            assert(task_orders(tasks@) =~= task_orders(tasks_before).push(made));
            assert(task_orders(tasks_before) + (seq![made] + chunks(all.skip(k + 1), limit as nat))
                =~= task_orders(tasks@) + chunks(all.skip(k + 1), limit as nat));
            proof {
                from = k + 1;
            }
            assert(chunk@ =~= all.subrange(from, k + 1));
        }
    }
    assert(all.skip(from) =~= Seq::empty());
    assert(task_orders(tasks@) + Seq::<Seq<RecallOrder>>::empty() =~= task_orders(tasks@));
    tasks
}

/// The orders of a list of runs, one after the other.
pub open spec fn concatenated(runs: Seq<Seq<RecallOrder>>) -> Seq<RecallOrder>
    decreases runs.len(),
{
    if runs.len() == 0 {
        Seq::empty()
    } else {
        runs[0] + concatenated(runs.skip(1))
    }
}

/// Law: cutting into callbacks keeps every order, in order, and no callback
/// carries more recalls than the back channel allows, nor none.
pub proof fn chunks_keep_the_orders_and_the_limit(orders: Seq<RecallOrder>, limit: nat, k: int)
    requires
        limit > 0,
    ensures
        concatenated(chunks(orders, limit)) == orders,
        0 <= k < chunks(orders, limit).len() ==> 0 < chunks(orders, limit)[k].len() <= limit,
    decreases orders.len(),
{
    let c = chunks(orders, limit);
    if orders.len() == 0 {
        assert(orders =~= Seq::empty());
    } else if orders.len() <= limit {
        assert(c == seq![orders]);
        assert(c.skip(1) =~= Seq::empty());
        assert(concatenated(c.skip(1)) == Seq::<RecallOrder>::empty());
        assert(concatenated(c) =~= orders);
    } else {
        let rest = orders.skip(limit as int);
        chunks_keep_the_orders_and_the_limit(rest, limit, k - 1);
        assert(c.skip(1) =~= chunks(rest, limit));
        assert(c[0] == orders.take(limit as int));
        assert(orders.take(limit as int) + rest =~= orders);
        if 1 <= k < c.len() {
            assert(c[k] == chunks(rest, limit)[k - 1]);
        }
    }
}

proof fn lemma_one_more_result(rs: Seq<CbResultView>, r: CbResultView)
    ensures
        recall_statuses(rs.push(r)) == (match r {
            CbResultView::Recall { status } => recall_statuses(rs).push(status),
            _ => recall_statuses(rs),
        }),
        first_sequence(rs) is Some ==> first_sequence(rs.push(r)) == first_sequence(rs),
        first_sequence(rs) is None ==> first_sequence(rs.push(r)) == (if r is Sequence {
            Some(r)
        } else {
            None
        }),
{
    assert(rs.push(r).drop_last() =~= rs);
}

/// Law: the statuses of the recalls are read in the order of the results, and a result of
/// another operation is passed over; of several CB_SEQUENCE results the first counts.
pub proof fn results_are_read_in_order(rs: Seq<CbResultView>, r: CbResultView, status: Nfs4Status)
    ensures
        recall_statuses(Seq::empty()).len() == 0,
        r == (CbResultView::Recall { status }) ==> recall_statuses(rs.push(r)) == recall_statuses(
            rs,
        ).push(status),
        !(r is Recall) ==> recall_statuses(rs.push(r)) == recall_statuses(rs),
        first_sequence(Seq::empty()) is None,
        first_sequence(rs) matches Some(s) ==> first_sequence(rs.push(r)) == Some(s),
        first_sequence(rs) is None && r is Sequence ==> first_sequence(rs.push(r)) == Some(r),
        first_sequence(rs) is None && !(r is Sequence) ==> first_sequence(rs.push(r)) is None,
{
    lemma_one_more_result(rs, r);
}

/// Law: the answer to a single recall. A delay of the callback or of any operation in it
/// is a delay; otherwise the recall's own status says whether the client took note, holds
/// no such delegation, or refuses; and a callback that did not come to the recall is
/// refused.
pub proof fn an_answer_is_taken_by_its_recall(
    reply: &CbCompoundReply,
    own: Nfs4Status,
    c: Classified,
)
    requires
        call_ensures(classify, (reply,), c),
        recall_statuses(reply@.results).len() > 0 ==> recall_statuses(reply@.results)[0] == own,
    ensures
        reply.status == Nfs4Status::Delay ==> c == Classified::Delay,
        any_delay(reply@.results) ==> c == Classified::Delay,
        reply.status != Nfs4Status::Delay && !any_delay(reply@.results) ==> {
            &&& recall_statuses(reply@.results).len() == 0 ==> c == Classified::Refused
            &&& recall_statuses(reply@.results).len() > 0 ==> {
                &&& own == Nfs4Status::NfsOk <==> c == Classified::Acked
                &&& own == Nfs4Status::BadStateId || own == Nfs4Status::BadHandle <==> c
                    == Classified::Disown
                &&& c != Classified::Delay
            }
        },
{
}

/// Law: each record of a batch is told its own status and the CB_SEQUENCE result, under
/// the tag of the reply; a batch whose callback was delayed is delayed for every record.
pub proof fn a_part_holds_its_own_result(reply: CbCompoundReplyView, i: int)
    requires
        0 <= i < recall_statuses(reply.results).len(),
    ensures
        ({
            let own = recall_statuses(reply.results)[i];
            let p = part(reply, i)->0;
            &&& part(reply, i) is Some
            &&& p.tag == reply.tag
            &&& recall_statuses(p.results) == seq![own]
            &&& first_sequence(p.results) == first_sequence(reply.results)
            &&& p.status == own || p.status == Nfs4Status::Delay
            &&& p.status != own <==> own != Nfs4Status::Delay && (first_sequence(
                reply.results,
            ) is Some && cb_compound::result_status(first_sequence(reply.results)->0)
                == Nfs4Status::Delay)
        }),
{
    let own = recall_statuses(reply.results)[i];
    let one = CbResultView::Recall { status: own };
    lemma_first_sequence_is_one(reply.results);
    lemma_one_more_result(head(reply), one);
    if let Some(s) = first_sequence(reply.results) {
        lemma_one_more_result(Seq::empty(), s);
        assert(Seq::<CbResultView>::empty().push(s) =~= head(reply));
        assert(recall_statuses(head(reply)) =~= Seq::empty());
    } else {
        assert(head(reply) =~= Seq::empty());
    }
    assert(recall_statuses((part(reply, i)->0).results) =~= seq![own]);
}

/// Law: a record starts its ladder with its own part of the answer, and every record with
/// the failure of a batch that failed as a whole; how often the client had bound a
/// connection is the same for all.
pub proof fn a_record_starts_with_its_own_answer(
    outcome: &Result<CbCompoundReply, CallbackError>,
    n: usize,
    rearm_epoch: u64,
    primed: Vec<Option<Primed>>,
    i: int,
)
    requires
        call_ensures(prime, (outcome, n, rearm_epoch), primed),
        0 <= i < n,
    ensures
        primed@.len() == n,
        primed@[i] matches Some(q) ==> q.rearm_epoch == rearm_epoch,
        outcome matches Err(e) ==> (primed@[i] matches Some(q) && q.outcome is Err
            && q.outcome->Err_0@ == e@),
        outcome matches Ok(reply) ==> {
            &&& i < recall_statuses(reply@.results).len() ==> primed@[i] is Some && (
            primed@[i]->0).outcome is Ok && recall_statuses(
                (primed@[i]->0).outcome->Ok_0@.results,
            ) == seq![recall_statuses(reply@.results)[i]]
            &&& 0 < recall_statuses(reply@.results).len() <= i ==> primed@[i] is None
        },
{
    if let Ok(reply) = outcome {
        if i < recall_statuses(reply@.results).len() {
            a_part_holds_its_own_result(reply@, i);
        }
        assert(part(reply@, i) is Some ==> primed@[i] is Some);
    }
}

/// Law: a recall asks for the delegation that its order names: its stateid, its file, and
/// whether the file is about to be truncated.
pub proof fn a_recall_asks_for_what_was_ordered(o: &RecallOrder, item: RecallItem)
    requires
        call_ensures(RecallItem::from_order, (o,), item),
    ensures
        item.stateid == o.stateid,
        item.truncate == o.truncate,
        item.fh@ == o.fh@,
{
}

} // verus!
