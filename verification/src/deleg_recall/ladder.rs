//! The ladder of one recalled record.
//!
//! The ladder decides; whoever runs it sends, sleeps and keeps the tables. Every
//! wake-up starts with a look at the record: one that was returned, dropped or
//! revoked in the meantime is not touched, and neither is what may have been
//! granted in its place.
//!
//! Times are nanoseconds of a clock that never goes back.
use crate::cb_compound::CbCompoundReply;
use crate::deleg_recall::batch;
use crate::deleg_recall::batch::{
    chunk_orders, classify, CallbackError, Classified, ClientGroup, RecallTask,
};
use crate::deleg_recall::config::RecallLadderConfig;
use vstd::prelude::*;

verus! {

/// The client learns from this bit that its back channel is gone.
pub const SEQ4_CB_PATH_DOWN: u32 = 0x0000_0001;

/// The client learns from this bit that something it could have returned was
/// revoked.
pub const SEQ4_RECALLABLE_STATE_REVOKED: u32 = 0x0000_0040;

const NANOS: u128 = 1_000_000_000;

/// Where a delegation is in its life.
#[derive(Debug, Clone, Copy, PartialEq, Eq, Structural)]
pub enum DelegState {
    Granted,
    RecallPending,
    RecallAcked,
    Revoked,
}

/// Whether a record is still under recall. `None` stands for a record that is
/// gone.
pub fn still_pending(state: Option<DelegState>) -> (b: bool)
    ensures
        b == (state == Some(DelegState::RecallPending) || state == Some(DelegState::RecallAcked)),
{
    match state {
        Some(DelegState::RecallPending) => true,
        Some(DelegState::RecallAcked) => true,
        _ => false,
    }
}

/// How a recall ended, as far as the client's answer goes.
#[derive(Debug, Clone, Copy, PartialEq, Eq, Structural)]
pub enum RecallOutcome {
    Acked,
    Timeout,
    ClientDisowns,
    Refused,
    PathDown,
}

/// Why a delegation was revoked.
#[derive(Debug, Clone, Copy, PartialEq, Eq, Structural)]
pub enum RevokeReason {
    Deadline,
    Refused,
    ChannelDead,
}

/// What becomes of the client's "path down" bit.
#[derive(Debug, Clone, Copy, PartialEq, Eq, Structural)]
pub enum PathFlag {
    Keep,
    Raise,
    Lower,
}

/// What is to be recorded before the next step.
#[derive(Debug, Clone, Copy, PartialEq, Eq, Structural)]
pub struct Effects {
    /// A recall reached the wire.
    pub sent: bool,
    /// It was the first of this record.
    pub first_transmit: bool,
    pub path: PathFlag,
    /// The record is acknowledged.
    pub acked: bool,
    pub outcome: Option<RecallOutcome>,
    pub revoke: Option<RevokeReason>,
    /// The record goes without a revocation: the client never held it.
    pub drop_disowned: bool,
}

/// What to do next.
#[derive(Debug, Clone, Copy, PartialEq, Eq, Structural)]
pub enum LadderStep {
    /// Send the recall, then report what came of it.
    Send,
    /// Sleep, then wake the ladder.
    SleepUntil(u128),
    /// Sleep, or until the client binds a connection, then wake the ladder.
    ParkUntil(u128),
    /// The ladder is over.
    Done,
}

/// What came of a send.
#[derive(Debug, Clone, Copy, PartialEq, Eq, Structural)]
pub enum SendOutcome {
    Reply(Classified),
    /// The call went out and nothing came back.
    Timeout,
    /// Nothing went out.
    Unreachable,
    /// Something came back that is no reply.
    Unusable,
}

/// How a send counts for the ladder.
pub open spec fn outcome_of(o: Result<CbCompoundReply, CallbackError>) -> SendOutcome {
    match o {
        Ok(reply) => SendOutcome::Reply(batch::classified(reply@)),
        Err(CallbackError::Timeout) => SendOutcome::Timeout,
        Err(CallbackError::Transport(_)) => SendOutcome::Unreachable,
        Err(CallbackError::ConnectionClosed) => SendOutcome::Unreachable,
        Err(CallbackError::Reply(_)) => SendOutcome::Unusable,
    }
}

pub fn weigh(o: &Result<CbCompoundReply, CallbackError>) -> (s: SendOutcome)
    ensures
        s == outcome_of(*o),
{
    match o {
        Ok(reply) => SendOutcome::Reply(classify(reply)),
        Err(CallbackError::Timeout) => SendOutcome::Timeout,
        Err(CallbackError::Transport(_)) => SendOutcome::Unreachable,
        Err(CallbackError::ConnectionClosed) => SendOutcome::Unreachable,
        Err(CallbackError::Reply(_)) => SendOutcome::Unusable,
    }
}

pub open spec fn no_effects() -> Effects {
    Effects {
        sent: false,
        first_transmit: false,
        path: PathFlag::Keep,
        acked: false,
        outcome: None,
        revoke: None,
        drop_disowned: false,
    }
}

pub open spec fn nanos(secs: u64) -> int {
    secs * 1_000_000_000
}

/// The moment `secs` seconds after `t`, or the last moment that can be told.
pub open spec fn later(t: u128, secs: u64) -> u128 {
    if t + nanos(secs) > u128::MAX {
        u128::MAX
    } else {
        (t + nanos(secs)) as u128
    }
}

fn after(t: u128, secs: u64) -> (u: u128)
    ensures
        u == later(t, secs),
{
    let d: u128 = (secs as u128) * NANOS;
    if t > u128::MAX - d {
        u128::MAX
    } else {
        t + d
    }
}

fn has_passed(since: u128, secs: u64, now: u128) -> (b: bool)
    ensures
        b == (now - since >= nanos(secs) && now >= since),
{
    let d: u128 = (secs as u128) * NANOS;
    now >= since && now - since >= d
}

/// The ladder of one record.
#[derive(Debug, Clone, Copy)]
pub struct Ladder {
    pub cfg: RecallLadderConfig,
    pub started: u128,
    /// When a recall first reached the wire. The deadline counts from here.
    pub first_transmit: Option<u128>,
    /// The client denied holding the delegation once.
    pub disown_seen: bool,
    /// How many of the resend rungs were used.
    pub rung: usize,
    /// The client acknowledged, and the delegation is awaited.
    pub awaiting_return: bool,
}

impl Ladder {
    pub open spec fn fresh(cfg: RecallLadderConfig, now: u128) -> Ladder {
        Ladder {
            cfg,
            started: now,
            first_transmit: None,
            disown_seen: false,
            rung: 0,
            awaiting_return: false,
        }
    }

    pub open spec fn transmitted(self, now: u128) -> Ladder {
        Ladder {
            first_transmit: match self.first_transmit {
                Some(t) => Some(t),
                None => Some(now),
            },
            ..self
        }
    }

    pub open spec fn deadline(self) -> u128 {
        later(self.first_transmit->0, self.cfg.revoke_deadline)
    }

    /// When to wake after a delay or a timeout: at the next rung, at once if its
    /// moment has passed, at the deadline when the rungs are used up, and never
    /// after the deadline.
    pub open spec fn next_rung(self, now: u128) -> u128 {
        if self.rung < 2 {
            let at = later(self.first_transmit->0, self.cfg.rungs@[self.rung as int]);
            let at = if at >= now {
                at
            } else {
                now
            };
            if at <= self.deadline() {
                at
            } else {
                self.deadline()
            }
        } else {
            self.deadline()
        }
    }

    pub open spec fn climbed(self) -> Ladder {
        Ladder {
            rung: if self.rung < 2 {
                (self.rung + 1) as usize
            } else {
                self.rung
            },
            ..self
        }
    }

    /// What happens when the ladder wakes.
    pub open spec fn woken(self, pending: bool, now: u128) -> (Ladder, Effects, LadderStep) {
        if !pending {
            (self, no_effects(), LadderStep::Done)
        } else if self.awaiting_return {
            (
                self,
                Effects { revoke: Some(RevokeReason::Deadline), ..no_effects() },
                LadderStep::Done,
            )
        } else if self.first_transmit is Some && now >= self.deadline() {
            (
                self,
                Effects {
                    outcome: Some(RecallOutcome::Timeout),
                    revoke: Some(RevokeReason::Deadline),
                    ..no_effects()
                },
                LadderStep::Done,
            )
        } else {
            (self, no_effects(), LadderStep::Send)
        }
    }

    /// What happens when the client answered.
    pub open spec fn answered(self, c: Classified, now: u128) -> (Ladder, Effects, LadderStep) {
        let l = self.transmitted(now);
        let e = Effects {
            sent: true,
            first_transmit: self.first_transmit is None,
            path: PathFlag::Lower,
            ..no_effects()
        };
        match c {
            Classified::Acked => (
                Ladder { awaiting_return: true, ..l },
                Effects { acked: true, outcome: Some(RecallOutcome::Acked), ..e },
                LadderStep::SleepUntil(l.deadline()),
            ),
            Classified::Delay => (l.climbed(), e, LadderStep::SleepUntil(l.next_rung(now))),
            Classified::Disown => if self.disown_seen {
                (
                    l,
                    Effects {
                        outcome: Some(RecallOutcome::ClientDisowns),
                        drop_disowned: true,
                        ..e
                    },
                    LadderStep::Done,
                )
            } else {
                (
                    Ladder { disown_seen: true, ..l },
                    e,
                    LadderStep::SleepUntil(later(now, self.cfg.disown_probe_delay)),
                )
            },
            Classified::Refused => (
                l,
                Effects {
                    outcome: Some(RecallOutcome::Refused),
                    revoke: Some(RevokeReason::Refused),
                    ..e
                },
                LadderStep::Done,
            ),
        }
    }

    /// Whether a client that cannot be reached has had its time: the deadline if
    /// it was ever reached, and otherwise the window.
    pub open spec fn given_up_on(self, now: u128) -> bool {
        match self.first_transmit {
            Some(t) => now >= t && now - t >= nanos(self.cfg.revoke_deadline),
            None => now >= self.started && now - self.started >= nanos(self.cfg.path_down_window),
        }
    }

    pub open spec fn path_lost(self, pending: bool, now: u128) -> (Ladder, Effects, LadderStep) {
        let e = Effects { path: PathFlag::Raise, ..no_effects() };
        if self.given_up_on(now) {
            (
                self,
                if pending {
                    Effects {
                        outcome: Some(RecallOutcome::PathDown),
                        revoke: Some(RevokeReason::ChannelDead),
                        ..e
                    }
                } else {
                    e
                },
                LadderStep::Done,
            )
        } else {
            (self, e, LadderStep::ParkUntil(later(now, self.cfg.path_retry)))
        }
    }

    /// What happens after a send.
    pub open spec fn told(self, o: SendOutcome, pending: bool, now: u128) -> (
        Ladder,
        Effects,
        LadderStep,
    ) {
        match o {
            SendOutcome::Reply(c) => self.answered(c, now),
            SendOutcome::Timeout => {
                let l = self.transmitted(now);
                (
                    l.climbed(),
                    Effects {
                        sent: true,
                        first_transmit: self.first_transmit is None,
                        ..no_effects()
                    },
                    LadderStep::SleepUntil(l.next_rung(now)),
                )
            },
            SendOutcome::Unreachable => self.path_lost(pending, now),
            SendOutcome::Unusable => (
                self,
                Effects {
                    outcome: Some(RecallOutcome::Refused),
                    revoke: Some(RevokeReason::Refused),
                    ..no_effects()
                },
                LadderStep::Done,
            ),
        }
    }

    pub fn new(cfg: RecallLadderConfig, now: u128) -> (l: Ladder)
        ensures
            l == Ladder::fresh(cfg, now),
    {
        Ladder {
            cfg,
            started: now,
            first_transmit: None,
            disown_seen: false,
            rung: 0,
            awaiting_return: false,
        }
    }

    fn nothing() -> (e: Effects)
        ensures
            e == no_effects(),
    {
        Effects {
            sent: false,
            first_transmit: false,
            path: PathFlag::Keep,
            acked: false,
            outcome: None,
            revoke: None,
            drop_disowned: false,
        }
    }

    /// The ladder wakes. `pending` says whether the record is still under recall.
    pub fn on_wake(&mut self, pending: bool, now: u128) -> (r: (Effects, LadderStep))
        ensures
            (*final(self), r.0, r.1) == old(self).woken(pending, now),
    {
        let mut e = Ladder::nothing();
        if !pending {
            return (e, LadderStep::Done);
        }
        if self.awaiting_return {
            e.revoke = Some(RevokeReason::Deadline);
            return (e, LadderStep::Done);
        }
        if let Some(ft) = self.first_transmit {
            if now >= after(ft, self.cfg.revoke_deadline) {
                e.outcome = Some(RecallOutcome::Timeout);
                e.revoke = Some(RevokeReason::Deadline);
                return (e, LadderStep::Done);
            }
        }
        (e, LadderStep::Send)
    }

    fn note_transmit(&mut self, e: &mut Effects, now: u128) -> (ft: u128)
        ensures
            *final(self) == old(self).transmitted(now),
            ft == old(self).transmitted(now).first_transmit->0,
            *final(e) == (Effects {
                sent: true,
                first_transmit: if old(self).first_transmit is None {
                    true
                } else {
                    old(e).first_transmit
                },
                ..*old(e)
            }),
    {
        e.sent = true;
        match self.first_transmit {
            Some(t) => t,
            None => {
                self.first_transmit = Some(now);
                e.first_transmit = true;
                now
            },
        }
    }

    fn climb(&mut self, ft: u128, now: u128) -> (wake: u128)
        requires
            old(self).first_transmit == Some(ft),
        ensures
            *final(self) == old(self).climbed(),
            wake == old(self).next_rung(now),
    {
        let deadline: u128 = after(ft, self.cfg.revoke_deadline);
        if self.rung < 2 {
            let at: u128 = after(ft, self.cfg.rungs[self.rung]);
            let at: u128 = if at >= now {
                at
            } else {
                now
            };
            self.rung = self.rung + 1;
            if at <= deadline {
                at
            } else {
                deadline
            }
        } else {
            deadline
        }
    }

    fn on_reply(&mut self, c: Classified, now: u128) -> (r: (Effects, LadderStep))
        ensures
            (*final(self), r.0, r.1) == old(self).answered(c, now),
    {
        let mut e = Ladder::nothing();
        let ft: u128 = self.note_transmit(&mut e, now);
        e.path = PathFlag::Lower;
        match c {
            Classified::Acked => {
                self.awaiting_return = true;
                e.acked = true;
                e.outcome = Some(RecallOutcome::Acked);
                (e, LadderStep::SleepUntil(after(ft, self.cfg.revoke_deadline)))
            },
            Classified::Delay => {
                let wake: u128 = self.climb(ft, now);
                (e, LadderStep::SleepUntil(wake))
            },
            Classified::Disown => {
                if self.disown_seen {
                    e.outcome = Some(RecallOutcome::ClientDisowns);
                    e.drop_disowned = true;
                    return (e, LadderStep::Done);
                }
                self.disown_seen = true;
                (e, LadderStep::SleepUntil(after(now, self.cfg.disown_probe_delay)))
            },
            Classified::Refused => {
                e.outcome = Some(RecallOutcome::Refused);
                e.revoke = Some(RevokeReason::Refused);
                (e, LadderStep::Done)
            },
        }
    }

    /// A send came to its end. `pending` says whether the record is still under
    /// recall.
    pub fn on_outcome(&mut self, o: SendOutcome, pending: bool, now: u128) -> (r: (
        Effects,
        LadderStep,
    ))
        ensures
            (*final(self), r.0, r.1) == old(self).told(o, pending, now),
    {
        match o {
            SendOutcome::Reply(c) => self.on_reply(c, now),
            SendOutcome::Timeout => {
                let mut e = Ladder::nothing();
                let ft: u128 = self.note_transmit(&mut e, now);
                let wake: u128 = self.climb(ft, now);
                (e, LadderStep::SleepUntil(wake))
            },
            SendOutcome::Unreachable => {
                let mut e = Ladder::nothing();
                e.path = PathFlag::Raise;
                let given_up = match self.first_transmit {
                    Some(t) => has_passed(t, self.cfg.revoke_deadline, now),
                    None => has_passed(self.started, self.cfg.path_down_window, now),
                };
                if given_up {
                    if pending {
                        e.outcome = Some(RecallOutcome::PathDown);
                        e.revoke = Some(RevokeReason::ChannelDead);
                    }
                    return (e, LadderStep::Done);
                }
                (e, LadderStep::ParkUntil(after(now, self.cfg.path_retry)))
            },
            SendOutcome::Unusable => {
                let mut e = Ladder::nothing();
                e.outcome = Some(RecallOutcome::Refused);
                e.revoke = Some(RevokeReason::Refused);
                (e, LadderStep::Done)
            },
        }
    }
}

/// What a revocation has to tell.
#[derive(Debug, Clone, Copy, PartialEq, Eq, Structural)]
pub struct Revocation {
    pub client: u64,
    /// From the first transmit, in milliseconds. A recall that was never sent has
    /// no latency: a 0 would make a dead channel look fast.
    pub latency_ms: Option<u64>,
    /// The bits to raise for the client.
    pub flags: u32,
}

/// The report of a revocation. `holder` is the client that the table says held
/// the delegation; with none there was nothing to revoke, and nothing is
/// reported.
pub fn revoke(holder: Option<u64>, first_transmit: Option<u128>, now: u128) -> (r: Option<
    Revocation,
>)
    ensures
        match holder {
            Some(client) => r == Some(
                Revocation {
                    client,
                    latency_ms: match first_transmit {
                        Some(t) => Some(
                            if now >= t {
                                ((now - t) / 1_000_000) as u64
                            } else {
                                0
                            },
                        ),
                        None => None,
                    },
                    flags: SEQ4_RECALLABLE_STATE_REVOKED,
                },
            ),
            None => r is None,
        },
{
    match holder {
        Some(client) => {
            let latency_ms = match first_transmit {
                Some(t) => Some(
                    if now >= t {
                        ((now - t) / 1_000_000) as u64
                    } else {
                        0
                    },
                ),
                None => None,
            };
            Some(Revocation { client, latency_ms, flags: SEQ4_RECALLABLE_STATE_REVOKED })
        },
        None => None,
    }
}

/// Starts ladders with one set of timings.
#[derive(Debug, Clone, Copy)]
pub struct RecallDriver {
    pub cfg: RecallLadderConfig,
}

impl RecallDriver {
    /// A driver with the shipped timings.
    pub fn new() -> (d: RecallDriver)
        ensures
            d.cfg.shipped(),
    {
        RecallDriver { cfg: RecallLadderConfig::default() }
    }

    pub fn with_config(self, cfg: RecallLadderConfig) -> (d: RecallDriver)
        ensures
            d.cfg == cfg,
    {
        RecallDriver { cfg }
    }

    /// The callbacks for one client's orders; `limit` is how many recalls its
    /// back channel takes at once.
    pub fn spawn_recalls(&self, group: ClientGroup, limit: usize) -> (tasks: Vec<RecallTask>)
        ensures
            batch::task_orders(tasks@) == batch::chunks(
                group.orders@,
                if limit == 0 {
                    1
                } else {
                    limit as nat
                },
            ),
            forall|k: int| 0 <= k < tasks@.len() ==> (#[trigger] tasks@[k]).wf(),
    {
        chunk_orders(group, limit)
    }

    /// A ladder that starts now.
    pub fn drive_one(&self, now: u128) -> (l: Ladder)
        ensures
            l == Ladder::fresh(self.cfg, now),
    {
        Ladder::new(self.cfg, now)
    }
}

// ---------------------------------------------------------------------------
// Laws
// ---------------------------------------------------------------------------

/// Law: a record that is no longer under recall is never touched: the ladder
/// ends, and nothing is recorded.
pub proof fn a_resolved_record_is_left_alone(l: Ladder, now: u128)
    ensures
        l.woken(false, now) == (l, no_effects(), LadderStep::Done),
{
}

/// Law: no client is revoked for the deadline before the deadline, which counts
/// from the first transmit. A ladder that awaits a return sleeps until then.
pub proof fn no_revocation_before_the_deadline(l: Ladder, pending: bool, now: u128)
    requires
        l.woken(pending, now).1.revoke is Some,
        l.awaiting_return ==> l.first_transmit is Some && now >= l.deadline(),
    ensures
        pending,
        l.woken(pending, now).1.revoke == Some(RevokeReason::Deadline),
        l.first_transmit is Some,
        now >= l.deadline(),
{
}

/// Law: after an acknowledgement the ladder sleeps until the deadline.
pub proof fn an_acknowledged_recall_has_until_the_deadline(l: Ladder, now: u128)
    ensures
        ({
            let (m, e, step) = l.answered(Classified::Acked, now);
            &&& m.awaiting_return
            &&& m.first_transmit is Some
            &&& step == LadderStep::SleepUntil(m.deadline())
            &&& e.revoke is None
        }),
{
}

/// Law: a client that asks for time is asked again, and asking for time never
/// gets it revoked.
pub proof fn a_delay_is_never_a_revocation(l: Ladder, pending: bool, now: u128)
    ensures
        ({
            let (m, e, step) = l.told(SendOutcome::Reply(Classified::Delay), pending, now);
            &&& e.revoke is None
            &&& !e.drop_disowned
            &&& step matches LadderStep::SleepUntil(_)
        }),
{
}

/// Law: a resend never comes after the deadline; and when the rungs are used up
/// the next wake-up is the deadline itself.
pub proof fn resends_stay_within_the_deadline(l: Ladder, now: u128)
    requires
        l.first_transmit is Some,
    ensures
        l.next_rung(now) <= l.deadline(),
        l.rung >= 2 ==> l.next_rung(now) == l.deadline(),
        now <= l.deadline() ==> l.next_rung(now) >= now,
        l.climbed().rung <= 2 || l.climbed().rung == l.rung,
        l.rung < 2 ==> l.climbed().rung == l.rung + 1,
{
}

/// Law: a client that denies holding the delegation is asked once more before
/// the record is dropped, and the record is then dropped without a revocation.
pub proof fn one_denial_is_probed_and_two_drop_the_record(l: Ladder, now: u128)
    ensures
        ({
            let (m, e, step) = l.answered(Classified::Disown, now);
            &&& e.revoke is None
            &&& e.drop_disowned == l.disown_seen
            &&& !l.disown_seen ==> m.disown_seen && step == LadderStep::SleepUntil(
                later(now, l.cfg.disown_probe_delay),
            )
            &&& l.disown_seen ==> step == LadderStep::Done
        }),
{
}

/// Law: a client that cannot be reached is given the window if it was never
/// reached, and the deadline if it was; until then the ladder only waits.
pub proof fn an_unreachable_client_gets_its_time(l: Ladder, pending: bool, now: u128)
    ensures
        ({
            let (m, e, step) = l.told(SendOutcome::Unreachable, pending, now);
            &&& m == l
            &&& !e.sent
            &&& e.path == PathFlag::Raise
            &&& e.revoke is Some ==> l.given_up_on(now) && pending
            &&& !l.given_up_on(now) ==> step == LadderStep::ParkUntil(
                later(now, l.cfg.path_retry),
            )
        }),
{
}

/// Law: the first transmit is set by the first send that reached the wire, and
/// nothing changes it afterwards.
pub proof fn the_first_transmit_never_moves(l: Ladder, o: SendOutcome, pending: bool, now: u128)
    ensures
        l.first_transmit is Some ==> l.told(o, pending, now).0.first_transmit == l.first_transmit,
        l.first_transmit is None && l.told(o, pending, now).1.sent ==> l.told(
            o,
            pending,
            now,
        ).0.first_transmit == Some(now),
        !l.told(o, pending, now).1.sent ==> l.told(o, pending, now).0.first_transmit
            == l.first_transmit,
{
}

/// Law: a dead channel and a rude client are told apart: what was never answered
/// is never counted as refused, and what was refused never as unreachable.
pub proof fn a_dead_channel_is_not_a_refusal(l: Ladder, o: SendOutcome, pending: bool, now: u128)
    ensures
        l.told(o, pending, now).1.revoke == Some(RevokeReason::ChannelDead) ==> o
            == SendOutcome::Unreachable,
        l.told(o, pending, now).1.revoke == Some(RevokeReason::Refused) ==> o
            == SendOutcome::Unusable || o == SendOutcome::Reply(Classified::Refused),
        l.told(o, pending, now).1.revoke != Some(RevokeReason::Deadline),
{
}

/// Law: recalled or revoked. A record that is still out at the deadline is
/// revoked by the wake-up at or after it; one whose client was never reached is
/// revoked by the first send that fails after the window; and either way the
/// ladder ends there.
pub proof fn a_record_does_not_outlive_its_time(l: Ladder, now: u128)
    ensures
        l.first_transmit is Some && now >= l.deadline() ==> l.woken(true, now).1.revoke == Some(
            RevokeReason::Deadline,
        ) && l.woken(true, now).2 == LadderStep::Done,
        l.first_transmit is None && now >= l.started && now - l.started >= nanos(
            l.cfg.path_down_window,
        ) ==> l.told(SendOutcome::Unreachable, true, now).1.revoke == Some(
            RevokeReason::ChannelDead,
        ) && l.told(SendOutcome::Unreachable, true, now).2 == LadderStep::Done,
{
}

/// What a client says that neither acknowledges nor refuses.
pub open spec fn stalls(o: SendOutcome) -> bool {
    o == SendOutcome::Timeout || o == SendOutcome::Reply(Classified::Delay)
}

/// Law: a client that stalls is asked three times at most. Whenever the answers
/// come, the third is followed by a sleep until the deadline of the first, and
/// the wake-up from it revokes a record that is still out.
pub proof fn a_stalling_client_is_asked_three_times(
    cfg: RecallLadderConfig,
    started: u128,
    answers: Seq<(SendOutcome, u128)>,
    woken_at: u128,
)
    requires
        answers.len() == 3,
        forall|k: int| 0 <= k < 3 ==> stalls((#[trigger] answers[k]).0),
        woken_at >= later(answers[0].1, cfg.revoke_deadline),
    ensures
        ({
            let deadline = later(answers[0].1, cfg.revoke_deadline);
            let (one, e1, s1) = Ladder::fresh(cfg, started).told(
                answers[0].0,
                true,
                answers[0].1,
            );
            let (two, e2, s2) = one.told(answers[1].0, true, answers[1].1);
            let (three, e3, s3) = two.told(answers[2].0, true, answers[2].1);
            &&& s1 matches LadderStep::SleepUntil(t) && t <= deadline
            &&& s2 matches LadderStep::SleepUntil(t) && t <= deadline
            &&& s3 == LadderStep::SleepUntil(deadline)
            &&& e1.revoke is None && e2.revoke is None && e3.revoke is None
            &&& three.woken(true, woken_at).1.revoke == Some(RevokeReason::Deadline)
            &&& three.woken(true, woken_at).2 == LadderStep::Done
        }),
{
    assert(stalls(answers[0].0) && stalls(answers[1].0) && stalls(answers[2].0));
}

/// Law: times are counted in nanoseconds, of which a second has a thousand
/// million; a moment too late to be told is the last one that can be.
pub proof fn a_second_is_a_thousand_million_nanoseconds(t: u128, secs: u64)
    ensures
        t + secs * 1_000_000_000 <= u128::MAX ==> later(t, secs) - t == secs * 1_000_000_000,
        t + secs * 1_000_000_000 > u128::MAX ==> later(t, secs) == u128::MAX,
        later(t, secs) >= t,
{
}

/// Law: an answer that can be read is taken for what it says, silence for a
/// timeout, and what is no reply for something unusable; without a transport or
/// a connection nothing went out.
pub proof fn a_send_is_weighed_by_what_came_of_it(o: Result<CbCompoundReply, CallbackError>)
    ensures
        o matches Ok(reply) ==> outcome_of(o) == SendOutcome::Reply(batch::classified(reply@)),
        o is Err && o->Err_0 is Timeout <==> outcome_of(o) == SendOutcome::Timeout,
        o is Err && o->Err_0 is Reply <==> outcome_of(o) == SendOutcome::Unusable,
        o is Err && (o->Err_0 is Transport || o->Err_0 is ConnectionClosed) <==> outcome_of(o)
            == SendOutcome::Unreachable,
{
}

/// Law: what is recorded of an answer. A recall that was answered reached the
/// wire, and the path is up; the record is acknowledged by an acknowledgement
/// alone, revoked by a refusal alone, and dropped by the second denial alone.
pub proof fn what_an_answer_leaves_on_record(
    l: Ladder,
    c: Classified,
    pending: bool,
    now: u128,
)
    ensures
        ({
            let (m, e, step) = l.told(SendOutcome::Reply(c), pending, now);
            &&& e.sent
            &&& e.first_transmit <==> l.first_transmit is None
            &&& e.path == PathFlag::Lower
            &&& e.acked <==> c == Classified::Acked
            &&& e.outcome == Some(RecallOutcome::Acked) <==> c == Classified::Acked
            &&& e.outcome == Some(RecallOutcome::Refused) <==> c == Classified::Refused
            &&& e.outcome == Some(RecallOutcome::ClientDisowns) <==> c == Classified::Disown
                && l.disown_seen
            &&& e.outcome != Some(RecallOutcome::Timeout)
            &&& e.outcome != Some(RecallOutcome::PathDown)
            &&& e.revoke == Some(RevokeReason::Refused) <==> c == Classified::Refused
            &&& e.revoke is Some ==> c == Classified::Refused
            &&& e.drop_disowned <==> c == Classified::Disown && l.disown_seen
            &&& step == LadderStep::Done <==> c == Classified::Refused || (c == Classified::Disown
                && l.disown_seen)
        }),
{
}

/// Law: a call that went unanswered reached the wire and says nothing of the
/// path or the client: the ladder goes on, and nothing is decided.
pub proof fn silence_decides_nothing(l: Ladder, pending: bool, now: u128)
    ensures
        ({
            let (m, e, step) = l.told(SendOutcome::Timeout, pending, now);
            &&& e.sent
            &&& e.first_transmit <==> l.first_transmit is None
            &&& e.path == PathFlag::Keep
            &&& !e.acked && e.outcome is None && e.revoke is None && !e.drop_disowned
            &&& step is SleepUntil
        }),
{
}

/// Law: what came back and is no reply counts as a refusal, and is not counted
/// as a recall that reached the client.
pub proof fn what_is_no_reply_is_a_refusal(l: Ladder, pending: bool, now: u128)
    ensures
        ({
            let (m, e, step) = l.told(SendOutcome::Unusable, pending, now);
            &&& m == l
            &&& !e.sent && !e.first_transmit && !e.acked && !e.drop_disowned
            &&& e.path == PathFlag::Keep
            &&& e.outcome == Some(RecallOutcome::Refused)
            &&& e.revoke == Some(RevokeReason::Refused)
            &&& step == LadderStep::Done
        }),
{
}

/// Law: a client that cannot be reached for its whole time is revoked for a dead
/// channel, and one whose record was settled meanwhile is not. The time of a
/// client that was once reached is the deadline from then, and of one that never
/// was the window from the start.
pub proof fn a_dead_channel_ends_when_its_time_is_up(l: Ladder, pending: bool, now: u128)
    ensures
        ({
            let (m, e, step) = l.told(SendOutcome::Unreachable, pending, now);
            let up = match l.first_transmit {
                Some(t) => now - t >= l.cfg.revoke_deadline * 1_000_000_000,
                None => now - l.started >= l.cfg.path_down_window * 1_000_000_000,
            };
            let begun = match l.first_transmit {
                Some(t) => now >= t,
                None => now >= l.started,
            };
            &&& up && begun <==> step == LadderStep::Done
            &&& up && begun && pending ==> e.revoke == Some(RevokeReason::ChannelDead)
                && e.outcome == Some(RecallOutcome::PathDown)
            &&& !(up && begun && pending) ==> e.revoke is None && e.outcome is None
            &&& !(up && begun) ==> step == LadderStep::ParkUntil(later(now, l.cfg.path_retry))
            &&& !e.sent && !e.first_transmit && !e.acked && !e.drop_disowned
            &&& e.path == PathFlag::Raise
        }),
{
}

/// Law: the first resend comes at the first rung and the second at the second,
/// both counted from the first transmit, unless the rung has passed or lies
/// behind the deadline.
pub proof fn resends_come_at_the_rungs(l: Ladder, o: SendOutcome, pending: bool, now: u128)
    requires
        stalls(o),
        l.rung < 2,
        l.first_transmit is Some,
    ensures
        ({
            let (m, e, step) = l.told(o, pending, now);
            let rung = later(l.first_transmit->0, l.cfg.rungs@[l.rung as int]);
            let end = later(l.first_transmit->0, l.cfg.revoke_deadline);
            &&& m.rung == l.rung + 1
            &&& now <= rung <= end ==> step == LadderStep::SleepUntil(rung)
            &&& rung < now <= end ==> step == LadderStep::SleepUntil(now)
            &&& rung > end || now > end ==> step == LadderStep::SleepUntil(end)
        }),
{
}

/// Law: no send changes the timings or the start of a ladder; only an
/// acknowledgement makes it await a return, only a denial counts as one, and
/// only stalling uses a rung.
pub proof fn a_send_changes_only_what_it_shows(
    l: Ladder,
    o: SendOutcome,
    pending: bool,
    now: u128,
)
    ensures
        ({
            let m = l.told(o, pending, now).0;
            &&& m.cfg == l.cfg
            &&& m.started == l.started
            &&& m.awaiting_return <==> l.awaiting_return || o == SendOutcome::Reply(
                Classified::Acked,
            )
            &&& m.disown_seen <==> l.disown_seen || o == SendOutcome::Reply(Classified::Disown)
            &&& !stalls(o) ==> m.rung == l.rung
        }),
{
}

/// Law: a wake-up before the deadline sends, unless the return is awaited; one at
/// or after it revokes and ends. A wake-up itself changes nothing of the ladder
/// and never counts as a send.
pub proof fn a_wake_up_sends_or_ends(l: Ladder, now: u128)
    ensures
        ({
            let (m, e, step) = l.woken(true, now);
            let late = l.first_transmit matches Some(t) && now >= later(t, l.cfg.revoke_deadline);
            &&& m == l
            &&& !e.sent && !e.first_transmit && !e.acked && !e.drop_disowned
            &&& e.path == PathFlag::Keep
            &&& !l.awaiting_return && !late ==> step == LadderStep::Send && e.revoke is None
                && e.outcome is None
            &&& l.awaiting_return || late ==> step == LadderStep::Done && e.revoke == Some(
                RevokeReason::Deadline,
            )
            &&& !l.awaiting_return && late ==> e.outcome == Some(RecallOutcome::Timeout)
            &&& l.awaiting_return ==> e.outcome is None
        }),
{
}

/// Law: a ladder that starts has sent nothing, used no rung and heard nothing.
pub proof fn a_fresh_ladder_has_done_nothing(cfg: RecallLadderConfig, now: u128)
    ensures
        ({
            let l = Ladder::fresh(cfg, now);
            &&& l.cfg == cfg
            &&& l.started == now
            &&& l.first_transmit is None
            &&& l.rung == 0
            &&& !l.disown_seen && !l.awaiting_return
            &&& l.woken(true, now).2 == LadderStep::Send
        }),
{
}

/// Law: the two bits that a client is told of have their places.
pub proof fn the_bits_have_their_places()
    ensures
        SEQ4_CB_PATH_DOWN == 1,
        SEQ4_RECALLABLE_STATE_REVOKED == 64,
{
}

/// Law: a delegation is under recall from the recall to its return or revocation, and a
/// record that is gone is not.
pub proof fn what_is_under_recall(state: Option<DelegState>, b: bool)
    requires
        call_ensures(still_pending, (state,), b),
    ensures
        state is None ==> !b,
        state == Some(DelegState::Granted) ==> !b,
        state == Some(DelegState::RecallPending) ==> b,
        state == Some(DelegState::RecallAcked) ==> b,
        state == Some(DelegState::Revoked) ==> !b,
{
}

/// Law: a revocation is reported for the client that held the delegation, with the time
/// since the recall first went out in milliseconds, and with none where it never did.
pub proof fn a_revocation_is_reported_for_its_holder(
    client: u64,
    sent: u128,
    now: u128,
    r: Option<Revocation>,
    unsent: Option<Revocation>,
    vacant: Option<Revocation>,
)
    requires
        call_ensures(revoke, (Some(client), Some(sent), now), r),
        call_ensures(revoke, (Some(client), None::<u128>, now), unsent),
        call_ensures(revoke, (None::<u64>, Some(sent), now), vacant),
    ensures
        r is Some && r->0.client == client && r->0.flags == 64,
        sent <= now < sent + 1_000_000 * 0x1_0000_0000_0000_0000 ==> r->0.latency_ms is Some && 0
            <= now - sent - r->0.latency_ms->0 * 1_000_000 < 1_000_000,
        now < sent ==> r->0.latency_ms == Some(0u64),
        unsent is Some && unsent->0.client == client && unsent->0.latency_ms is None,
        vacant is None,
{
}

} // verus!
