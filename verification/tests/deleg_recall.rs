use flint_nfs::cb_compound::{CbCompoundReply, CbReplyError, CbResult};
use flint_nfs::deleg_recall::batch::{
    chunk_orders, classify, clone_cb_error, group_orders, prime, recall_items, split_batch_reply,
    CallbackError, Classified, ClientGroup, Primed, RecallItem, RecallOrder, RecallTask,
};
use flint_nfs::deleg_recall::config::{env_secs, RecallLadderConfig};
use flint_nfs::deleg_recall::ladder::{
    revoke, still_pending, weigh, DelegState, Effects, Ladder, LadderStep, PathFlag, RecallDriver,
    RecallOutcome, Revocation, RevokeReason, SendOutcome, SEQ4_CB_PATH_DOWN,
    SEQ4_RECALLABLE_STATE_REVOKED,
};
use flint_nfs::protocol::{Nfs4Status, SessionId, StateId};
use flint_nfs::xdr::XdrError;

const SEC: u128 = 1_000_000_000;

fn sequence(status: Nfs4Status) -> CbResult {
    CbResult::Sequence {
        status,
        sessionid: SessionId([0; 16]),
        sequenceid: 1,
        slotid: 0,
        highest_slotid: 0,
        target_highest_slotid: 0,
    }
}

fn reply_multi(statuses: &[Nfs4Status]) -> CbCompoundReply {
    let mut results = vec![sequence(Nfs4Status::NfsOk)];
    for s in statuses {
        results.push(CbResult::Recall { status: *s });
    }
    let status = statuses.iter().copied().find(|s| *s != Nfs4Status::NfsOk);
    CbCompoundReply {
        status: status.unwrap_or(Nfs4Status::NfsOk),
        tag: String::new(),
        results,
    }
}

fn reply(s: Nfs4Status) -> Result<CbCompoundReply, CallbackError> {
    Ok(reply_multi(&[s]))
}

fn closed() -> Result<CbCompoundReply, CallbackError> {
    Err(CallbackError::ConnectionClosed)
}

/// One record, its client and a clock.
struct Sim {
    now: u128,
    ladder: Ladder,
    step: LadderStep,
    state: Option<DelegState>,
    flags: u32,
    sends: Vec<u128>,
    sent: u32,
    outcomes: Vec<RecallOutcome>,
    revoked: Vec<RevokeReason>,
    latency: Vec<u64>,
    first_transmit: Option<u128>,
    script: Vec<Result<CbCompoundReply, CallbackError>>,
}

impl Sim {
    fn new(script: Vec<Result<CbCompoundReply, CallbackError>>) -> Sim {
        let driver = RecallDriver::new();
        Sim {
            now: 0,
            ladder: driver.drive_one(0),
            step: LadderStep::SleepUntil(0),
            state: Some(DelegState::RecallPending),
            flags: 0,
            sends: vec![],
            sent: 0,
            outcomes: vec![],
            revoked: vec![],
            latency: vec![],
            first_transmit: None,
            script,
        }
    }

    fn record(&mut self, e: Effects) {
        if e.first_transmit {
            self.first_transmit = Some(self.now);
        }
        self.sent += u32::from(e.sent);
        match e.path {
            PathFlag::Keep => {}
            PathFlag::Raise => self.flags |= SEQ4_CB_PATH_DOWN,
            PathFlag::Lower => self.flags &= !SEQ4_CB_PATH_DOWN,
        }
        if e.acked && still_pending(self.state) {
            self.state = Some(DelegState::RecallAcked);
        }
        self.outcomes.extend(e.outcome);
        if let Some(reason) = e.revoke {
            let holder = self.state.map(|_| 7);
            if let Some(r) = revoke(holder, self.first_transmit, self.now) {
                self.state = Some(DelegState::Revoked);
                self.revoked.push(reason);
                self.flags |= r.flags;
                self.latency.extend(r.latency_ms);
            }
        }
        if e.drop_disowned {
            self.state = None;
        }
    }

    fn wake(&mut self) {
        let (e, step) = self.ladder.on_wake(still_pending(self.state), self.now);
        self.record(e);
        self.step = step;
        if let LadderStep::Send = step {
            self.sends.push(self.now);
            let outcome =
                if self.script.is_empty() { closed() } else { self.script.remove(0) };
            self.told(&outcome);
        }
    }

    fn told(&mut self, outcome: &Result<CbCompoundReply, CallbackError>) {
        let pending = still_pending(self.state);
        let (e, step) = self.ladder.on_outcome(weigh(outcome), pending, self.now);
        self.record(e);
        self.step = step;
    }

    fn run_until(&mut self, secs: u64) {
        let end = secs as u128 * SEC;
        loop {
            let at = match self.step {
                LadderStep::SleepUntil(t) | LadderStep::ParkUntil(t) => t,
                _ => break,
            };
            if at > end {
                break;
            }
            self.now = at.max(self.now);
            self.wake();
        }
        self.now = end;
    }

    fn rebind(&mut self) {
        self.flags &= !SEQ4_CB_PATH_DOWN;
        if let LadderStep::ParkUntil(_) = self.step {
            self.wake();
        }
    }
}

#[test]
fn the_shipped_ladder_timings_are_the_designs_numbers() {
    let d = RecallLadderConfig::default();
    assert_eq!(d.revoke_deadline, 90);
    assert_eq!(d.rungs, [30, 60]);
    assert_eq!(d.path_down_window, 30);
    assert_eq!(d.path_retry, 5);

    // A zero is refused rather than honoured.
    assert_eq!(env_secs(None, d.revoke_deadline), d.revoke_deadline);
    assert_eq!(env_secs(Some("0"), d.revoke_deadline), d.revoke_deadline);
    assert_eq!(env_secs(Some("soon"), d.revoke_deadline), d.revoke_deadline);
    assert_eq!(env_secs(Some("7"), d.revoke_deadline), 7);
    let c = RecallLadderConfig::from_env(Some("12"), Some("0"), Some("3"));
    assert_eq!((c.revoke_deadline, c.path_down_window, c.path_retry), (12, 30, 3));
    assert_eq!(c.rungs, [30, 60]);
}

#[test]
fn a_cooperating_client_is_never_revoked() {
    let mut s = Sim::new(vec![reply(Nfs4Status::NfsOk)]);
    s.run_until(5);
    assert_eq!(s.state, Some(DelegState::RecallAcked));
    s.state = None; // the delegation came back
    s.run_until(125);
    assert_eq!(s.state, None);
    assert_eq!(s.flags, 0, "no SEQ4 bit for a clean return");
    assert_eq!(s.step, LadderStep::Done);
}

#[test]
fn acked_but_never_returned_revokes_at_the_deadline_with_seq4() {
    let mut s = Sim::new(vec![reply(Nfs4Status::NfsOk)]);
    s.run_until(89);
    assert_eq!(s.state, Some(DelegState::RecallAcked));
    assert_eq!(s.flags, 0);
    s.run_until(91);
    assert_eq!(s.state, Some(DelegState::Revoked));
    assert_ne!(s.flags & SEQ4_RECALLABLE_STATE_REVOKED, 0);
    assert_eq!(s.outcomes, vec![RecallOutcome::Acked]);
    assert_eq!(s.revoked, vec![RevokeReason::Deadline]);
    assert_eq!(s.latency, vec![90_000]);
}

#[test]
fn delay_replies_walk_the_rungs_then_succeed() {
    let mut s = Sim::new(vec![
        reply(Nfs4Status::Delay),
        reply(Nfs4Status::Delay),
        reply(Nfs4Status::NfsOk),
    ]);
    s.run_until(89);
    assert_eq!(s.state, Some(DelegState::RecallAcked));
    assert_eq!(s.sends, vec![0, 30 * SEC, 60 * SEC]);
}

#[test]
fn the_meter_separates_a_dead_channel_from_a_rude_client() {
    let mut s = Sim::new((0..40).map(|_| closed()).collect());
    s.run_until(200);
    assert_eq!(s.outcomes, vec![RecallOutcome::PathDown]);
    assert_eq!(s.revoked, vec![RevokeReason::ChannelDead]);
    // Nothing ever reached the wire, so there is no latency to report.
    assert!(s.latency.is_empty());
    assert_eq!(s.sent, 0, "a call that no transport accepted was never sent");
}

#[test]
fn an_unreachable_client_gets_the_window_not_instant_revoke() {
    let mut s = Sim::new(vec![]);
    s.run_until(10);
    assert_eq!(s.state, Some(DelegState::RecallPending));
    assert_ne!(s.flags & SEQ4_CB_PATH_DOWN, 0);
    s.run_until(35);
    assert_eq!(s.state, Some(DelegState::Revoked));
    assert_ne!(s.flags & SEQ4_RECALLABLE_STATE_REVOKED, 0);
}

#[test]
fn a_rebind_inside_the_window_converts_revocation_into_recall() {
    let mut s = Sim::new(vec![closed(), closed(), closed(), reply(Nfs4Status::NfsOk)]);
    s.run_until(20);
    assert_eq!(s.state, Some(DelegState::RecallAcked));
    assert_eq!(s.flags & SEQ4_CB_PATH_DOWN, 0);
    s.state = None;
    s.run_until(140);
    assert_eq!(s.flags, 0);
}

#[test]
fn a_rebind_wakes_a_parked_ladder_instead_of_waiting_out_the_retry_timer() {
    let mut control = Sim::new(vec![closed(), reply(Nfs4Status::NfsOk)]);
    control.run_until(8);
    assert_eq!(control.sends, vec![0, 5 * SEC]);

    let mut s = Sim::new(vec![closed(), reply(Nfs4Status::NfsOk)]);
    s.run_until(1);
    s.rebind();
    s.run_until(2);
    assert_eq!(s.sends, vec![0, SEC], "the rebind, not the timer, woke the ladder");
    assert_eq!(s.state, Some(DelegState::RecallAcked));
}

#[test]
fn cb_path_down_outlives_the_ladder_and_only_a_rebind_takes_it_down() {
    let mut s = Sim::new(vec![]);
    s.run_until(60);
    assert_eq!(s.step, LadderStep::Done);
    assert_ne!(s.flags & SEQ4_CB_PATH_DOWN, 0);
    s.rebind();
    assert_eq!(s.flags & SEQ4_CB_PATH_DOWN, 0);
    assert_ne!(s.flags & SEQ4_RECALLABLE_STATE_REVOKED, 0);
}

#[test]
fn one_disown_gets_a_reprobe_two_drop_the_record_without_revoking() {
    let mut s = Sim::new(vec![reply(Nfs4Status::BadStateId), reply(Nfs4Status::BadStateId)]);
    s.run_until(10);
    assert_eq!(s.state, None, "double disown drops the record entirely");
    assert_eq!(s.flags, 0, "a disown is not a revocation");
    assert_eq!(s.outcomes, vec![RecallOutcome::ClientDisowns]);
    assert_eq!(s.sends, vec![0, 2 * SEC]);

    let mut s = Sim::new(vec![reply(Nfs4Status::BadStateId), reply(Nfs4Status::NfsOk)]);
    s.run_until(10);
    assert_eq!(s.state, Some(DelegState::RecallAcked));
}

#[test]
fn a_definitive_refusal_revokes_immediately() {
    let mut s = Sim::new(vec![reply(Nfs4Status::NotSupp)]);
    s.run_until(2);
    assert_eq!(s.state, Some(DelegState::Revoked));
    assert_eq!(s.revoked, vec![RevokeReason::Refused]);

    // What is no reply at all counts the same.
    let unusable = Err(CallbackError::Reply(CbReplyError::Xdr(XdrError::Truncated)));
    let mut s = Sim::new(vec![unusable]);
    s.run_until(2);
    assert_eq!(s.revoked, vec![RevokeReason::Refused]);
    assert_eq!(s.sent, 0);
}

#[test]
fn a_record_returned_before_the_task_runs_is_left_alone() {
    let mut s = Sim::new(vec![reply(Nfs4Status::NfsOk)]);
    s.state = None;
    s.run_until(200);
    assert!(s.sends.is_empty(), "no send for a resolved record");
    assert_eq!(s.flags, 0);
}

#[test]
fn timeouts_resend_on_rungs_and_revoke_at_the_deadline() {
    let timeout = || Err(CallbackError::Timeout);
    let mut s = Sim::new(vec![timeout(), timeout(), timeout()]);
    s.run_until(95);
    assert_eq!(s.state, Some(DelegState::Revoked));
    assert_eq!(s.sends.len(), 3, "first transmit + two rung resends");
    assert_eq!(s.outcomes, vec![RecallOutcome::Timeout]);
}

// ---------------------------------------------------------------------------
// Batches
// ---------------------------------------------------------------------------

#[test]
fn a_batched_reply_is_split_positionally_and_a_siblings_delay_stays_its_own() {
    let r = reply_multi(&[Nfs4Status::NfsOk, Nfs4Status::Delay, Nfs4Status::BadStateId]);
    let parts = split_batch_reply(&r, 3);
    assert_eq!(parts.len(), 3);
    let p0 = parts[0].as_ref().unwrap();
    let p1 = parts[1].as_ref().unwrap();
    let p2 = parts[2].as_ref().unwrap();
    assert!(matches!(classify(p0), Classified::Acked), "position 0 is OK");
    assert!(matches!(classify(p1), Classified::Delay), "position 1 is DELAY");
    assert!(matches!(classify(p2), Classified::Disown), "position 2 is BAD_STATEID");
    // Each synthesized reply carries exactly [Sequence, own Recall].
    for p in [p0, p1, p2] {
        assert_eq!(p.results.len(), 2);
    }
    // A compound that STOPPED after two ops leaves the third with no result.
    let short = reply_multi(&[Nfs4Status::NfsOk, Nfs4Status::NotSupp]);
    let parts = split_batch_reply(&short, 3);
    assert!(parts[0].is_some() && parts[1].is_some());
    assert!(parts[2].is_none(), "the unreached op is nobody's answer");
    // A failure AT CB_SEQUENCE (no recall ran) is everyone's.
    let seq_only = CbCompoundReply {
        status: Nfs4Status::BadSession,
        tag: String::new(),
        results: vec![sequence(Nfs4Status::BadSession)],
    };
    let parts = split_batch_reply(&seq_only, 2);
    for p in &parts {
        assert!(matches!(classify(p.as_ref().unwrap()), Classified::Refused));
    }
    let mut seq_delay = seq_only.clone();
    seq_delay.status = Nfs4Status::Delay;
    seq_delay.results[0] = sequence(Nfs4Status::Delay);
    for p in split_batch_reply(&seq_delay, 2) {
        assert!(matches!(classify(&p.unwrap()), Classified::Delay));
    }
}

fn order(client_id: u64, n: u8) -> RecallOrder {
    RecallOrder {
        client_id,
        stateid: StateId { seqid: 1, other: [n; 12] },
        truncate: false,
        fh: vec![n],
    }
}

fn task_sizes(orders: Vec<RecallOrder>, limit: usize) -> Vec<usize> {
    let driver = RecallDriver::new();
    let mut sizes = vec![];
    for group in group_orders(orders) {
        for task in driver.spawn_recalls(group, limit) {
            sizes.push(match task {
                RecallTask::One(_) => 1,
                RecallTask::Batch(v) => v.len(),
            });
        }
    }
    sizes
}

fn orders_for(client_id: u64, n: u8) -> Vec<RecallOrder> {
    (0..n).map(|i| order(client_id, i)).collect()
}

#[test]
fn a_clients_recalls_share_one_compound_when_its_back_channel_allows() {
    assert_eq!(task_sizes(orders_for(7, 3), 8), vec![3], "one compound carried all three");
    let items = recall_items(&orders_for(7, 3));
    assert_eq!(items.len(), 3);
    assert_eq!(items[2], RecallItem::from_order(&order(7, 2)));
    // Every record is told of its own result.
    let all = Ok(reply_multi(&[Nfs4Status::NfsOk; 3]));
    for primed in prime(&all, 3, 5) {
        let primed = primed.unwrap();
        assert_eq!(primed.rearm_epoch, 5);
        let mut s = Sim::new(vec![]);
        s.told(&primed.outcome);
        assert_eq!(s.state, Some(DelegState::RecallAcked));
    }
}

#[test]
fn a_back_channel_of_two_ops_gets_no_batching() {
    assert_eq!(task_sizes(orders_for(7, 3), 1), vec![1, 1, 1]);
    assert_eq!(task_sizes(orders_for(7, 2), 0), vec![1, 1]);
}

#[test]
fn a_group_larger_than_the_limit_is_chunked() {
    assert_eq!(task_sizes(orders_for(7, 5), 2), vec![2, 2, 1]);
    let tasks = chunk_orders(ClientGroup { client_id: 7, orders: orders_for(7, 3) }, 2);
    assert!(matches!(&tasks[1], RecallTask::One(o) if o.fh == vec![2]));
}

#[test]
fn two_clients_get_two_compounds() {
    let orders = vec![order(7, 1), order(9, 2), order(7, 3), order(9, 4)];
    let groups = group_orders(orders);
    assert_eq!(groups.len(), 2);
    assert_eq!((groups[0].client_id, groups[1].client_id), (7, 9));
    assert_eq!(groups[0].orders[1].fh, vec![3]);
    assert_eq!(groups[1].orders[0].fh, vec![2]);
    let orders = vec![order(7, 1), order(7, 2), order(9, 3), order(9, 4)];
    assert_eq!(task_sizes(orders, 8), vec![2, 2]);
}

#[test]
fn a_failing_sibling_stops_the_compound_and_the_tail_is_resent_alone() {
    let outcome = Ok(reply_multi(&[Nfs4Status::NfsOk, Nfs4Status::BadStateId]));
    let primed = prime(&outcome, 3, 0);

    let mut first = Sim::new(vec![]);
    first.told(&primed[0].as_ref().unwrap().outcome);
    assert_eq!(first.state, Some(DelegState::RecallAcked));

    let mut second = Sim::new(vec![reply(Nfs4Status::NfsOk)]);
    second.told(&primed[1].as_ref().unwrap().outcome);
    assert_eq!(second.state, Some(DelegState::RecallPending));
    second.run_until(3);
    assert_eq!(second.state, Some(DelegState::RecallAcked), "the re-probe saves the record");
    assert_eq!(second.sends, vec![2 * SEC]);

    assert!(primed[2].is_none(), "unreached: it starts its own ladder");
    let mut third = Sim::new(vec![reply(Nfs4Status::NfsOk)]);
    third.run_until(0);
    assert_eq!(third.state, Some(DelegState::RecallAcked));
}

#[test]
fn a_batch_that_finds_no_transport_parks_every_record_and_a_rebind_re_drives_them() {
    for primed in prime(&closed(), 3, 4) {
        let Primed { outcome, rearm_epoch } = primed.unwrap();
        assert_eq!(rearm_epoch, 4);
        let mut s = Sim::new(vec![reply(Nfs4Status::NfsOk)]);
        s.told(&outcome);
        assert_ne!(s.flags & SEQ4_CB_PATH_DOWN, 0);
        assert_eq!(s.state, Some(DelegState::RecallPending));
        s.run_until(1);
        s.rebind();
        assert_eq!(s.sends, vec![SEC]);
        assert_eq!(s.state, Some(DelegState::RecallAcked));
        assert_eq!(s.flags & SEQ4_CB_PATH_DOWN, 0);
    }
}

#[test]
fn an_error_is_shared_by_every_record_of_its_batch() {
    let e = CallbackError::Transport("no route".to_string());
    assert!(matches!(clone_cb_error(&e), CallbackError::Transport(m) if m == "no route"));
    assert!(matches!(clone_cb_error(&CallbackError::Timeout), CallbackError::Timeout));
    assert_eq!(weigh(&Err(e)), SendOutcome::Unreachable);
    assert_eq!(weigh(&Err(CallbackError::Timeout)), SendOutcome::Timeout);
}

#[test]
fn nothing_is_reported_where_nothing_was_held() {
    assert_eq!(revoke(None, Some(0), 5), None);
    assert_eq!(
        revoke(Some(3), Some(SEC), 3 * SEC),
        Some(Revocation {
            client: 3,
            latency_ms: Some(2000),
            flags: SEQ4_RECALLABLE_STATE_REVOKED
        })
    );
    assert!(!still_pending(Some(DelegState::Granted)) && !still_pending(None));
}
