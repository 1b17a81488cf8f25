//! The course of one COMPOUND.
use crate::compound::context::{CompoundContext, ContextView};
use crate::compound::ops::Operation;
use crate::compound::request::CompoundRequest;
use crate::compound::reply_laws;
use crate::compound::response;
use crate::compound::response::{reply_exceeds, CompoundResponse};
use crate::compound::results::OperationResult;
use crate::compound::wire;
use crate::dispatcher::admission;
use crate::dispatcher::admission::{screen, Admission};
use crate::octets;
use crate::protocol::Nfs4Status;
use crate::sec_policy::SecOffer;
use crate::segment;
use crate::segment::Segment;
use crate::xdr;
use bytes::Bytes;
use vstd::prelude::*;

verus! {

/// What the session of a COMPOUND allows, as its CREATE_SESSION negotiated it.
#[derive(Debug, Clone, Copy, PartialEq, Eq, Structural)]
pub struct SessionLimits {
    /// The operations of one COMPOUND.
    pub max_operations: u32,
    /// The octets of a request.
    pub max_request_size: u32,
    /// The octets of a reply; 0 for no limit.
    pub max_response_size: u32,
}

/// How far a COMPOUND has come.
#[derive(Debug)]
pub enum Course {
    /// Operations may be left.
    Open,
    /// No further operation runs.
    Stopped,
    /// The request was larger than its session allows.
    TooBig,
    /// The request was answered before: this is the answer.
    Replayed(Bytes),
}

/// The result of an operation that was not carried out.
pub open spec fn sentinel(status: Nfs4Status) -> OperationResult {
    OperationResult::Unsupported { opcode: 0, status }
}

/// A COMPOUND that runs.
pub struct CompoundRun {
    tag: String,
    /// The operations that are left, the next one last.
    pending: Vec<Operation>,
    taken: usize,
    total: usize,
    wire_size: usize,
    misplaced: Option<usize>,
    results: Vec<OperationResult>,
    status: Nfs4Status,
    course: Course,
    sec: SecOffer,
}

pub struct RunView {
    pub tag: Seq<char>,
    /// The operations that are left, in order.
    pub pending: Seq<Operation>,
    /// How many operations were handed out.
    pub taken: nat,
    /// How many there were at the start.
    pub total: nat,
    pub wire_size: nat,
    /// The place of the SEQUENCE that may not stand there.
    pub misplaced: Option<usize>,
    pub results: Seq<OperationResult>,
    pub status: Nfs4Status,
    pub course: Course,
    pub sec: SecOffer,
}

impl View for CompoundRun {
    type V = RunView;

    closed spec fn view(&self) -> RunView {
        RunView {
            tag: self.tag@,
            pending: self.pending@.reverse(),
            taken: self.taken as nat,
            total: self.total as nat,
            wire_size: self.wire_size as nat,
            misplaced: self.misplaced,
            results: self.results@,
            status: self.status,
            course: self.course,
            sec: self.sec,
        }
    }
}

impl RunView {
    /// Every operation is either handed out or left, and a COMPOUND that goes on
    /// has not failed.
    pub open spec fn wf(self) -> bool {
        &&& self.taken + self.pending.len() == self.total
        &&& self.course is Open ==> self.status == Nfs4Status::NfsOk
    }

    pub open spec fn fresh(request: CompoundRequest, misplaced: Option<usize>, sec: SecOffer) ->
        RunView {
        RunView {
            tag: request.tag@,
            pending: request.operations@,
            taken: 0,
            total: request.operations@.len(),
            wire_size: request.wire_size as nat,
            misplaced,
            results: Seq::empty(),
            status: Nfs4Status::NfsOk,
            course: Course::Open,
            sec,
        }
    }

    /// The COMPOUND stops with `status`, and `r` is its last result.
    pub open spec fn stopped(self, r: OperationResult, status: Nfs4Status) -> RunView {
        RunView {
            results: self.results.push(r),
            status,
            course: Course::Stopped,
            ..self
        }
    }

    /// Whether the next operation is a SEQUENCE that may not stand there.
    pub open spec fn at_misplaced(self) -> bool {
        self.misplaced matches Some(at) && at == self.taken
    }

    /// The operation just handed out is past what the session allows.
    pub open spec fn over_operations(self, limits: Option<SessionLimits>) -> bool {
        limits matches Some(l) && self.total as u32 > l.max_operations && self.taken
            > l.max_operations
    }

    pub open spec fn over_size(self, limits: Option<SessionLimits>) -> bool {
        limits matches Some(l) && self.wire_size > 0 && self.wire_size > l.max_request_size
    }

    /// The COMPOUND after an operation came to `r`. The limits of the session come
    /// first, then a replay, and then the operation's own status: the first that
    /// is not a success ends the COMPOUND.
    pub open spec fn after(
        self,
        r: OperationResult,
        limits: Option<SessionLimits>,
        replay: Option<Bytes>,
    ) -> RunView {
        if self.over_operations(limits) {
            self.stopped(sentinel(Nfs4Status::TooManyOps), Nfs4Status::TooManyOps)
        } else if self.over_size(limits) {
            RunView {
                results: self.results.push(r).push(sentinel(Nfs4Status::ReqTooBig)),
                status: Nfs4Status::ReqTooBig,
                course: Course::TooBig,
                ..self
            }
        } else if let Some(b) = replay {
            RunView { course: Course::Replayed(b), ..self }
        } else if wire::status_of(r) != Nfs4Status::NfsOk {
            self.stopped(r, wire::status_of(r))
        } else {
            RunView { results: self.results.push(r), ..self }
        }
    }

    /// The reply as it would be without a limit on its size.
    pub open spec fn full_reply(self) -> Seq<u8> {
        response::wire_envelope(self.status, self.tag, self.results.len()) + wire::wire_results(
            self.results,
            self.sec,
        )
    }

    /// The reply in place of one that is too large: the first result, which is
    /// SEQUENCE's, and the reason.
    pub open spec fn cut_results(self) -> Seq<OperationResult> {
        self.results.take(
            if self.results.len() == 0 {
                0
            } else {
                1
            },
        ).push(sentinel(Nfs4Status::RepTooBig))
    }

    pub open spec fn cut_reply(self) -> Seq<u8> {
        response::wire_envelope(Nfs4Status::RepTooBig, self.tag, self.cut_results().len())
            + wire::wire_results(self.cut_results(), self.sec)
    }

    /// What goes on the wire. `limits` are those of the session that the COMPOUND
    /// was bound to at its end.
    pub open spec fn wire_reply(self, limits: Option<SessionLimits>) -> Seq<u8> {
        match self.course {
            Course::Replayed(b) => octets::bytes_of(b),
            Course::TooBig => self.full_reply(),
            _ => match limits {
                Some(l) => if l.max_response_size > 0 && self.full_reply().len()
                    > l.max_response_size {
                    self.cut_reply()
                } else {
                    self.full_reply()
                },
                None => self.full_reply(),
            },
        }
    }

    /// The segments of the reply as it would be without a limit on its size.
    pub open spec fn full_segments(self) -> Seq<Seq<u8>> {
        response::reply_segments(self.status, self.tag, self.results, self.sec)
    }

    pub open spec fn cut_segments(self) -> Seq<Seq<u8>> {
        response::reply_segments(Nfs4Status::RepTooBig, self.tag, self.cut_results(), self.sec)
    }

    /// The segments that a reply goes out in where it is encoded here. A reply that
    /// was measured keeps its segments: the payload of a READ is one of its own.
    pub open spec fn raw_segments(self, limits: Option<SessionLimits>) -> Seq<Seq<u8>> {
        match self.course {
            Course::Replayed(b) => seq![octets::bytes_of(b)],
            _ => if limits matches Some(l) && l.max_response_size > 0 && self.full_reply().len()
                > l.max_response_size {
                self.cut_segments()
            } else {
                self.full_segments()
            },
        }
    }

    pub open spec fn reply_status(self, limits: Option<SessionLimits>) -> Nfs4Status {
        match self.course {
            Course::Replayed(_) => Nfs4Status::NfsOk,
            Course::TooBig => self.status,
            _ => match limits {
                Some(l) => if l.max_response_size > 0 && self.full_reply().len()
                    > l.max_response_size {
                    Nfs4Status::RepTooBig
                } else {
                    self.status
                },
                None => self.status,
            },
        }
    }
}

/// What becomes of a request.
pub enum Start {
    Reply(CompoundResponse),
    Run(CompoundRun),
}

/// A refusal: no result and no slot to keep the reply for.
pub open spec fn is_refusal(
    r: CompoundResponse,
    tag: Seq<char>,
    status: Nfs4Status,
    sec: SecOffer,
) -> bool {
    r.status == status && r.tag@ == tag && r.results@.len() == 0 && r.raw_reply is None
        && r.cache_slot is None && r.sec == sec
}

fn reversed(ops: Vec<Operation>) -> (out: Vec<Operation>)
    ensures
        out@ == ops@.reverse(),
{
    let ghost all = ops@;
    let mut rest = ops;
    let mut out: Vec<Operation> = Vec::new();
    while rest.len() > 0
        invariant
            rest@.len() <= all.len(),
            rest@ == all.take(rest@.len() as int),
            out@.len() == all.len() - rest@.len(),
            forall|i: int| 0 <= i < out@.len() ==> out@[i] == all[all.len() - 1 - i],
        decreases rest@.len(),
    {
        let ghost n = rest@.len();
        match rest.pop() {
            Some(op) => {
                out.push(op);
            },
            None => {},
        }
        assert(rest@ =~= all.take(n - 1));
    }
    assert(out@ =~= all.reverse());
    out
}

/// Let a request in and make it ready to run. `sec` is what a SECINFO among its
/// operations is answered from.
pub fn start(request: CompoundRequest, sec: SecOffer) -> (s: Start)
    ensures
        match admission::admission(request.operations@, request.minor_version, request.tag_valid) {
            Admission::Refuse(status) => s matches Start::Reply(r) && is_refusal(
                r,
                request.tag@,
                status,
                sec,
            ),
            Admission::Run(misplaced) => s matches Start::Run(run) && run@ == RunView::fresh(
                request,
                misplaced,
                sec,
            ) && run@.wf(),
        },
{
    match screen(&request) {
        Admission::Refuse(status) => {
            Start::Reply(
                CompoundResponse {
                    status,
                    tag: request.tag,
                    results: Vec::new(),
                    raw_reply: None,
                    cache_slot: None,
                    sec,
                },
            )
        },
        Admission::Run(misplaced) => {
            let ghost ops = request.operations@;
            let total: usize = request.operations.len();
            let pending = reversed(request.operations);
            assert(ops.reverse().reverse() =~= ops);
            Start::Run(
                CompoundRun {
                    tag: request.tag,
                    pending,
                    taken: 0,
                    total,
                    wire_size: request.wire_size,
                    misplaced,
                    results: Vec::new(),
                    status: Nfs4Status::NfsOk,
                    course: Course::Open,
                    sec,
                },
            )
        },
    }
}

/// The context that the operations of a request start with: who calls, with which
/// supplementary groups, and over which connection.
pub fn context_for(
    minor_version: u32,
    principal: Vec<u8>,
    unix_cred: Option<(u32, u32)>,
    unix_gids: Vec<u32>,
    back_channel: Option<u64>,
) -> (c: CompoundContext)
    ensures
        c@ == (ContextView {
            unix_cred,
            unix_gids: unix_gids@,
            back_channel,
            ..ContextView::fresh(minor_version, principal@)
        }),
{
    let mut c = CompoundContext::with_principal(minor_version, principal);
    c.unix_cred = unix_cred;
    c.unix_gids = unix_gids;
    c.back_channel = back_channel;
    c
}

impl CompoundRun {
    fn is_open(&self) -> (b: bool)
        ensures
            b == (self@.course is Open),
    {
        match self.course {
            Course::Open => true,
            _ => false,
        }
    }

    /// The next operation to carry out; none when the COMPOUND is over. A
    /// SEQUENCE that may not stand where it stands is answered here: running it
    /// would spoil its slot.
    pub fn next_operation(&mut self) -> (op: Option<Operation>)
        requires
            old(self)@.wf(),
        ensures
            final(self)@.wf(),
            !(old(self)@.course is Open) || old(self)@.pending.len() == 0 ==> op is None
                && final(self)@ == old(self)@,
            old(self)@.course is Open && old(self)@.pending.len() > 0 && old(self)@.at_misplaced()
                ==> op is None && final(self)@ == old(self)@.stopped(
                OperationResult::Sequence(Nfs4Status::SequencePos, None),
                Nfs4Status::SequencePos,
            ),
            old(self)@.course is Open && old(self)@.pending.len() > 0 && !old(self)@.at_misplaced()
                ==> op == Some(old(self)@.pending[0]) && final(self)@ == (RunView {
                pending: old(self)@.pending.skip(1),
                taken: old(self)@.taken + 1,
                ..old(self)@
            }),
    {
        if !self.is_open() || self.pending.len() == 0 {
            return None;
        }
        let at_misplaced = match self.misplaced {
            Some(at) => at == self.taken,
            None => false,
        };
        if at_misplaced {
            self.status = Nfs4Status::SequencePos;
            self.results.push(OperationResult::Sequence(Nfs4Status::SequencePos, None));
            self.course = Course::Stopped;
            return None;
        }
        let ghost before = self.pending@;
        let op = self.pending.pop();
        self.taken = self.taken + 1;
        assert(self.pending@.reverse() =~= before.reverse().skip(1));
        op
    }

    /// Take the result of the operation that was handed out last. `limits` are
    /// those of the session that the COMPOUND is bound to by now, if any. A reply
    /// to replay is taken out of the context.
    pub fn completed(
        &mut self,
        result: OperationResult,
        limits: Option<SessionLimits>,
        context: &mut CompoundContext,
    )
        requires
            old(self)@.wf(),
            old(self)@.course is Open,
        ensures
            final(self)@.wf(),
            final(self)@ == old(self)@.after(result, limits, old(context).replay_reply),
            final(self)@.course is Replayed ==> final(context)@ == (ContextView {
                replay_reply: None,
                ..old(context)@
            }),
            !(final(self)@.course is Replayed) ==> final(context)@ == old(context)@,
    {
        if let Some(l) = limits {
            if self.total as u32 > l.max_operations && self.taken > l.max_operations as usize {
                self.status = Nfs4Status::TooManyOps;
                self.results.push(
                    OperationResult::Unsupported { opcode: 0, status: Nfs4Status::TooManyOps },
                );
                self.course = Course::Stopped;
                return;
            }
            if self.wire_size > 0 && self.wire_size > l.max_request_size as usize {
                self.results.push(result);
                self.results.push(
                    OperationResult::Unsupported { opcode: 0, status: Nfs4Status::ReqTooBig },
                );
                self.status = Nfs4Status::ReqTooBig;
                self.course = Course::TooBig;
                return;
            }
        }
        if let Some(b) = context.replay_reply.take() {
            self.course = Course::Replayed(b);
            return;
        }
        let status = result.status();
        self.results.push(result);
        if status != Nfs4Status::NfsOk {
            self.status = status;
            self.course = Course::Stopped;
        }
    }

    /// The reply. `limits` are those of the session that the COMPOUND is bound to,
    /// if any.
    pub fn finish(self, limits: Option<SessionLimits>, context: &CompoundContext) -> (r:
        CompoundResponse)
        requires
            self@.wf(),
        ensures
            response::wire_response(r) == self@.wire_reply(limits),
            r.status == self@.reply_status(limits),
            r.tag@ == self@.tag,
            r.cache_slot == (if self@.course is Replayed {
                None
            } else {
                context.cache_slot
            }),
            r.raw_reply matches Some(raw) ==> xdr::views(raw@) == self@.raw_segments(limits),
            r.raw_reply is None ==> r.results@ == self@.results && r.sec == self@.sec,
            r.raw_reply is None <==> self@.course is TooBig || (!(self@.course is Replayed) && (
            limits is None || limits->0.max_response_size == 0)),
    {
        match self.course {
            Course::Replayed(b) => {
                let mut raw: Vec<Segment> = Vec::new();
                raw.push(Segment::new(b));
                proof {
                    lemma_joined_one(raw@);
                    assert(xdr::views(raw@) =~= seq![octets::bytes_of(b)]);
                }
                CompoundResponse {
                    status: Nfs4Status::NfsOk,
                    tag: self.tag,
                    results: Vec::new(),
                    raw_reply: Some(raw),
                    cache_slot: None,
                    sec: self.sec,
                }
            },
            Course::TooBig => CompoundResponse {
                status: self.status,
                tag: self.tag,
                results: self.results,
                raw_reply: None,
                cache_slot: context.cache_slot,
                sec: self.sec,
            },
            _ => {
                if let Some(l) = limits {
                    if l.max_response_size > 0 {
                        return self.measured(l.max_response_size as usize, context);
                    }
                }
                CompoundResponse {
                    status: self.status,
                    tag: self.tag,
                    results: self.results,
                    raw_reply: None,
                    cache_slot: context.cache_slot,
                    sec: self.sec,
                }
            },
        }
    }

    /// The reply of a session that limits its size: it is measured, cut down if it
    /// is too large, and encoded once, in segments.
    fn measured(self, max: usize, context: &CompoundContext) -> (r: CompoundResponse)
        ensures
            response::wire_response(r) == (if self@.full_reply().len() > max {
                self@.cut_reply()
            } else {
                self@.full_reply()
            }),
            r.status == (if self@.full_reply().len() > max {
                Nfs4Status::RepTooBig
            } else {
                self@.status
            }),
            r.tag@ == self@.tag,
            r.cache_slot == context.cache_slot,
            r.raw_reply matches Some(raw) && xdr::views(raw@) == (if self@.full_reply().len() > max {
                self@.cut_segments()
            } else {
                self@.full_segments()
            }),
    {
        if !reply_exceeds(self.status, self.tag.as_str(), &self.results, &self.sec, max) {
            return encoded(self.status, self.tag, self.results, self.sec, context);
        }
        let kept = cut_down(self.results);
        encoded(Nfs4Status::RepTooBig, self.tag, kept, self.sec, context)
    }
}

/// The first result alone, and the reason.
fn cut_down(results: Vec<OperationResult>) -> (kept: Vec<OperationResult>)
    ensures
        kept@ == results@.take(
            if results@.len() == 0 {
                0
            } else {
                1
            },
        ).push(sentinel(Nfs4Status::RepTooBig)),
{
    let ghost all = results@;
    let mut kept = results;
    assert(kept@ =~= all.take(kept@.len() as int));
    while kept.len() > 1
        invariant
            kept@.len() <= all.len(),
            kept@ == all.take(kept@.len() as int),
            all.len() > 0 ==> kept@.len() > 0,
        decreases kept@.len(),
    {
        let ghost n = kept@.len() as int;
        kept.pop();
        assert(kept@ =~= all.take(n - 1));
    }
    kept.push(OperationResult::Unsupported { opcode: 0, status: Nfs4Status::RepTooBig });
    kept
}

/// A reply with these parts, encoded.
fn encoded(
    status: Nfs4Status,
    tag: String,
    results: Vec<OperationResult>,
    sec: SecOffer,
    context: &CompoundContext,
) -> (r: CompoundResponse)
    ensures
        r.status == status,
        r.tag@ == tag@,
        r.cache_slot == context.cache_slot,
        r.raw_reply matches Some(raw) && xdr::views(raw@) == response::reply_segments(
            status,
            tag@,
            results@,
            sec,
        ),
        response::wire_response(r) == response::wire_envelope(status, tag@, results@.len())
            + wire::wire_results(results@, sec),
{
    let name = tag.as_str().to_owned();
    let trial = CompoundResponse { status, tag, results, raw_reply: None, cache_slot: None, sec };
    let raw = trial.encode_segments();
    CompoundResponse {
        status,
        tag: name,
        results: Vec::new(),
        raw_reply: Some(raw),
        cache_slot: context.cache_slot,
        sec,
    }
}

proof fn lemma_joined_one(segs: Seq<Segment>)
    requires
        segs.len() == 1,
    ensures
        segment::joined(segs) == segs[0]@,
{
    reveal_with_fuel(segment::joined, 2);
    assert(segs.drop_last() =~= Seq::empty());
    assert(segment::joined(segs) =~= segs[0]@);
}

// ---------------------------------------------------------------------------
// Laws
// ---------------------------------------------------------------------------

/// Law: the first operation that does not succeed ends the COMPOUND, and the
/// COMPOUND then has the status of that operation, which is its last result.
pub proof fn the_first_failure_stops_the_compound(
    run: RunView,
    r: OperationResult,
    limits: Option<SessionLimits>,
)
    requires
        !run.over_operations(limits),
        !run.over_size(limits),
        wire::status_of(r) != Nfs4Status::NfsOk,
    ensures
        run.after(r, limits, None).course is Stopped,
        run.after(r, limits, None).status == wire::status_of(r),
        run.after(r, limits, None).results == run.results.push(r),
{
}

/// Law: while a COMPOUND goes on, it has one result for each operation that was
/// handed out, in order, and all of them are successes.
pub proof fn results_answer_the_operations_in_order(
    run: RunView,
    r: OperationResult,
    limits: Option<SessionLimits>,
    replay: Option<Bytes>,
)
    requires
        run.results.len() + 1 == run.taken,
        forall|i: int|
            0 <= i < run.results.len() ==> wire::status_of(#[trigger] run.results[i])
                == Nfs4Status::NfsOk,
        run.course is Open,
        run.after(r, limits, replay).course is Open,
    ensures
        run.after(r, limits, replay).results == run.results.push(r),
        run.after(r, limits, replay).results.len() == run.after(r, limits, replay).taken,
        forall|i: int|
            0 <= i < run.after(r, limits, replay).results.len() ==> wire::status_of(
                #[trigger] run.after(r, limits, replay).results[i],
            ) == Nfs4Status::NfsOk,
{
}

/// Law: a request that was answered before is answered with the very same
/// octets, whatever the session now allows.
pub proof fn a_replay_is_answered_octet_for_octet(
    run: RunView,
    b: Bytes,
    limits: Option<SessionLimits>,
)
    requires
        run.course == Course::Replayed(b),
    ensures
        run.wire_reply(limits) == octets::bytes_of(b),
{
}

/// Law: no reply exceeds the limit of its session, unless even the cut reply does.
pub proof fn a_reply_respects_the_limit(run: RunView, limits: SessionLimits)
    requires
        limits.max_response_size > 0,
        run.course is Open || run.course is Stopped,
        run.cut_reply().len() <= limits.max_response_size,
    ensures
        run.wire_reply(Some(limits)).len() <= limits.max_response_size,
{
}

/// Law: the result of SEQUENCE comes first even in a reply that was cut.
pub proof fn a_cut_reply_keeps_the_first_result(run: RunView)
    requires
        run.results.len() > 0,
    ensures
        run.cut_results().len() == 2,
        run.cut_results()[0] == run.results[0],
        run.cut_results()[1] == sentinel(Nfs4Status::RepTooBig),
{
}

/// Law: measuring a reply does not flatten it: the payload of a READ that fits is
/// still a segment of its own.
pub proof fn a_measured_reply_keeps_its_payloads(run: RunView, limits: SessionLimits, i: int)
    requires
        run.course is Open || run.course is Stopped,
        run.full_reply().len() <= limits.max_response_size,
        0 <= i < run.results.len(),
        response::is_segmented(run.results[i]),
    ensures
        run.results[i] matches OperationResult::Read(_, Some(res)) ==> run.raw_segments(
            Some(limits),
        ).contains(res.data@),
{
    reply_laws::lemma_payload_is_kept(run.status, run.tag, run.results, run.sec, i);
}

/// Law: a COMPOUND goes on after a success within the limits of its session, and the
/// result is added to those before it.
pub proof fn a_success_lets_the_compound_go_on(
    run: RunView,
    r: OperationResult,
    limits: Option<SessionLimits>,
)
    requires
        wire::status_of(r) == Nfs4Status::NfsOk,
        limits matches Some(l) ==> run.taken <= l.max_operations && run.wire_size
            <= l.max_request_size,
    ensures
        run.after(r, limits, None) == (RunView { results: run.results.push(r), ..run }),
{
}

/// Law: the operation that is one more than the session allows ends the COMPOUND, with
/// that as its status and as its last result; the ones before it have run.
pub proof fn an_operation_too_many_ends_the_compound(
    run: RunView,
    r: OperationResult,
    limits: SessionLimits,
    replay: Option<Bytes>,
)
    requires
        limits.max_operations < run.taken <= run.total <= u32::MAX,
    ensures
        run.after(r, Some(limits), replay).course is Stopped,
        run.after(r, Some(limits), replay).status is TooManyOps,
        run.after(r, Some(limits), replay).results == run.results.push(
            OperationResult::Unsupported { opcode: 0, status: Nfs4Status::TooManyOps },
        ),
{
}

/// Law: a request that is larger than its session allows is answered with that behind
/// the result of the operation that ran.
pub proof fn a_request_too_large_is_said_to_be_so(
    run: RunView,
    r: OperationResult,
    limits: SessionLimits,
    replay: Option<Bytes>,
)
    requires
        run.taken <= limits.max_operations,
        limits.max_request_size < run.wire_size,
    ensures
        run.after(r, Some(limits), replay).course is TooBig,
        run.after(r, Some(limits), replay).status is ReqTooBig,
        run.after(r, Some(limits), replay).results == run.results.push(r).push(
            OperationResult::Unsupported { opcode: 0, status: Nfs4Status::ReqTooBig },
        ),
{
}

/// Law: within the limits of its session a request that was answered before is replayed.
pub proof fn a_replay_takes_the_place_of_the_results(
    run: RunView,
    r: OperationResult,
    limits: Option<SessionLimits>,
    b: Bytes,
)
    requires
        limits matches Some(l) ==> run.taken <= l.max_operations && run.wire_size
            <= l.max_request_size,
    ensures
        run.after(r, limits, Some(b)).course == Course::Replayed(b),
        run.after(r, limits, Some(b)).results == run.results,
{
}

/// Law: a reply goes out whole unless it exceeds the limit of its session; one that does
/// goes out as its first result and the reason, with that as its status.
pub proof fn only_a_reply_too_large_is_cut(run: RunView, limits: Option<SessionLimits>)
    requires
        run.course is Open || run.course is Stopped,
    ensures
        (limits matches Some(l) ==> l.max_response_size == 0 || run.full_reply().len()
            <= l.max_response_size) ==> run.wire_reply(limits) == run.full_reply()
            && run.reply_status(limits) == run.status,
        limits matches Some(l) ==> (0 < l.max_response_size < run.full_reply().len()
            ==> run.wire_reply(limits) == run.cut_reply() && run.reply_status(limits)
            is RepTooBig),
{
}

/// Law: a COMPOUND begins with all its operations ahead of it, in order, and with no
/// result.
pub proof fn a_compound_begins_with_all_its_operations(
    request: CompoundRequest,
    misplaced: Option<usize>,
    sec: SecOffer,
)
    ensures
        ({
            let run = RunView::fresh(request, misplaced, sec);
            &&& run.pending == request.operations@
            &&& run.taken == 0 && run.total == request.operations@.len()
            &&& run.results.len() == 0
            &&& run.status is NfsOk && run.course is Open
            &&& run.tag == request.tag@
            &&& run.wire_size == request.wire_size
            &&& run.misplaced == misplaced && run.sec == sec
        }),
{
}

/// Law: a request runs under the caller, the groups and the connection that it came with.
pub proof fn a_request_runs_as_its_caller(
    minor_version: u32,
    principal: Vec<u8>,
    unix_cred: Option<(u32, u32)>,
    unix_gids: Vec<u32>,
    back_channel: Option<u64>,
    c: CompoundContext,
)
    requires
        call_ensures(
            context_for,
            (minor_version, principal, unix_cred, unix_gids, back_channel),
            c,
        ),
    ensures
        c@.minor_version == minor_version,
        c@.principal == principal@,
        c@.unix_cred == unix_cred,
        c@.unix_gids == unix_gids@,
        c@.back_channel == back_channel,
        c@.current_fh is None,
        c@.saved_fh is None,
{
}

/// Law: a request that is let in starts with all of its operations and no result; one
/// that is not is answered under its own tag and without results.
pub proof fn a_request_starts_or_is_refused(request: CompoundRequest, sec: SecOffer, s: Start)
    requires
        call_ensures(start, (request, sec), s),
    ensures
        s matches Start::Run(run) ==> {
            &&& run@.pending == request.operations@
            &&& run@.taken == 0
            &&& run@.results.len() == 0
            &&& run@.tag == request.tag@
            &&& run@.status == Nfs4Status::NfsOk
            &&& run@.course is Open
            &&& run@.sec == sec
        },
        s matches Start::Reply(r) ==> {
            &&& r.results@.len() == 0
            &&& r.tag@ == request.tag@
            &&& r.raw_reply is None
            &&& r.cache_slot is None
            &&& r.status != Nfs4Status::NfsOk
        },
{
    admission::a_request_is_refused_for_the_first_reason(
        request.operations@,
        request.minor_version,
        request.tag_valid,
    );
}

/// Law: a run hands out its operations in order, each once, and none once it is over.
pub proof fn operations_are_handed_out_in_order(run: &mut CompoundRun, op: Option<Operation>)
    requires
        call_ensures(CompoundRun::next_operation, (run,), op),
    ensures
        op matches Some(next) ==> {
            &&& old(run)@.course is Open
            &&& old(run)@.pending == seq![next] + final(run)@.pending
            &&& final(run)@.taken == old(run)@.taken + 1
            &&& final(run)@.results == old(run)@.results
        },
        op is None ==> final(run)@.pending == old(run)@.pending,
        !(old(run)@.course is Open) ==> op is None,
{
    if let Some(next) = op {
        assert(old(run)@.pending =~= seq![next] + final(run)@.pending);
    }
}

/// Law: taking the result of an operation that succeeded adds it to the results and lets
/// the run go on; that of one that failed is added and ends the run with its status. Both
/// within the limits of the session, and where nothing is replayed.
pub proof fn a_result_is_taken_as_it_came(
    run: &mut CompoundRun,
    result: OperationResult,
    limits: Option<SessionLimits>,
    context: &mut CompoundContext,
)
    requires
        call_ensures(CompoundRun::completed, (run, result, limits, context), ()),
        old(context).replay_reply is None,
        old(run)@.course is Open,
        limits matches Some(l) ==> old(run)@.taken <= l.max_operations && old(run)@.wire_size
            <= l.max_request_size,
    ensures
        final(run)@.results == old(run)@.results.push(result),
        wire::status_of(result) == Nfs4Status::NfsOk ==> final(run)@.course is Open,
        wire::status_of(result) != Nfs4Status::NfsOk ==> final(run)@.course is Stopped
            && final(run)@.status == wire::status_of(result),
        final(run)@.pending == old(run)@.pending,
        final(context)@ == old(context)@,
{
}

/// Law: the reply to a run goes out under its tag, for the slot that its SEQUENCE named,
/// and, where no limit is set on it, with the status and the results of the run.
pub proof fn a_run_ends_in_its_reply(
    run: CompoundRun,
    context: &CompoundContext,
    r: CompoundResponse,
)
    requires
        call_ensures(CompoundRun::finish, (run, None::<SessionLimits>, context), r),
        run@.course is Open || run@.course is Stopped,
    ensures
        r.tag@ == run@.tag,
        r.status == run@.status,
        r.results@ == run@.results,
        r.raw_reply is None,
        r.cache_slot == context.cache_slot,
{
}

} // verus!
