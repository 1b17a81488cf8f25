//! What a callback and its reply lose on the wire: nothing.
use crate::cb_compound;
use crate::cb_compound::{
    CbCompoundCall, CbCompoundCallView, CbCompoundReply, CbCompoundReplyView, CbOp, CbOpView,
    CbReplyError, CbResult, CbResultView, LayoutRecall, LayoutRecallView, RpcRejection,
    CB_LAYOUTRECALL, CB_RECALL, CB_SEQUENCE, LAYOUTRECALL_ALL, LAYOUTRECALL_FILE,
    LAYOUTRECALL_FSID,
};
use crate::octets;
use crate::protocol::{Nfs4Status, StateIdView};
use crate::rpc;
use crate::rpc::{AcceptStatus, MessageType, ReplyStatus};
use crate::text;
use crate::xdr;
use crate::xdr::{Parsed, XdrError};
use vstd::prelude::*;
use vstd::utf8::*;

verus! {

// ---------------------------------------------------------------------------
// The client's side of a call
// ---------------------------------------------------------------------------

pub open spec fn parse_layout_recall(s: Seq<u8>) -> Parsed<LayoutRecallView> {
    xdr::bind(
        xdr::parse_u32(s),
        |arm: u32, s: Seq<u8>|
            if arm == LAYOUTRECALL_FILE {
                xdr::bind(
                    xdr::parse_opaque(s),
                    |fh: Seq<u8>, s: Seq<u8>|
                        xdr::bind(
                            xdr::parse_u64(s),
                            |offset: u64, s: Seq<u8>|
                                xdr::bind(
                                    xdr::parse_u64(s),
                                    |length: u64, s: Seq<u8>|
                                        xdr::bind(
                                            xdr::parse_stateid(s),
                                            |stateid: StateIdView, s: Seq<u8>|
                                                (
                                                    Ok(
                                                        LayoutRecallView::File {
                                                            fh,
                                                            offset,
                                                            length,
                                                            stateid,
                                                        },
                                                    ),
                                                    s,
                                                ),
                                        ),
                                ),
                        ),
                )
            } else if arm == LAYOUTRECALL_FSID {
                xdr::bind(
                    xdr::parse_u64(s),
                    |fsid_major: u64, s: Seq<u8>|
                        xdr::bind(
                            xdr::parse_u64(s),
                            |fsid_minor: u64, s: Seq<u8>|
                                (Ok(LayoutRecallView::Fsid { fsid_major, fsid_minor }), s),
                        ),
                )
            } else if arm == LAYOUTRECALL_ALL {
                (Ok(LayoutRecallView::All), s)
            } else {
                (Err(XdrError::UnknownArm), s)
            },
    )
}

/// A CB_SEQUENCE behind its opcode, with an empty list of referring calls.
pub open spec fn parse_cb_sequence(s: Seq<u8>) -> Parsed<CbOpView> {
    xdr::bind(
        xdr::parse_fixed(s, 16),
        |sessionid: Seq<u8>, s: Seq<u8>|
            xdr::bind(
                xdr::parse_u32(s),
                |sequenceid: u32, s: Seq<u8>|
                    xdr::bind(
                        xdr::parse_u32(s),
                        |slotid: u32, s: Seq<u8>|
                            xdr::bind(
                                xdr::parse_u32(s),
                                |highest_slotid: u32, s: Seq<u8>|
                                    xdr::bind(
                                        xdr::parse_bool(s),
                                        |cachethis: bool, s: Seq<u8>|
                                            xdr::bind(
                                                xdr::parse_u32(s),
                                                |referring: u32, s: Seq<u8>|
                                                    if referring == 0 {
                                                        (
                                                            Ok(
                                                                CbOpView::Sequence {
                                                                    sessionid,
                                                                    sequenceid,
                                                                    slotid,
                                                                    highest_slotid,
                                                                    cachethis,
                                                                },
                                                            ),
                                                            s,
                                                        )
                                                    } else {
                                                        (Err(XdrError::OverBound), s)
                                                    },
                                            ),
                                    ),
                            ),
                    ),
            ),
    )
}

pub open spec fn parse_cb_layoutrecall(s: Seq<u8>) -> Parsed<CbOpView> {
    xdr::bind(
        xdr::parse_u32(s),
        |layout_type: u32, s: Seq<u8>|
            xdr::bind(
                xdr::parse_u32(s),
                |iomode: u32, s: Seq<u8>|
                    xdr::bind(
                        xdr::parse_bool(s),
                        |changed: bool, s: Seq<u8>|
                            xdr::bind(
                                parse_layout_recall(s),
                                |recall: LayoutRecallView, s: Seq<u8>|
                                    (
                                        Ok(
                                            CbOpView::LayoutRecall {
                                                layout_type,
                                                iomode,
                                                changed,
                                                recall,
                                            },
                                        ),
                                        s,
                                    ),
                            ),
                    ),
            ),
    )
}

#[verifier::opaque]
pub open spec fn parse_cb_op(s: Seq<u8>) -> Parsed<CbOpView> {
    xdr::bind(
        xdr::parse_u32(s),
        |opcode: u32, s: Seq<u8>|
            if opcode == CB_SEQUENCE {
                parse_cb_sequence(s)
            } else if opcode == CB_LAYOUTRECALL {
                parse_cb_layoutrecall(s)
            } else {
                (Err(XdrError::UnknownArm), s)
            },
    )
}

pub open spec fn parse_cb_ops(s: Seq<u8>, n: nat) -> Parsed<Seq<CbOpView>>
    decreases n,
{
    if n == 0 {
        (Ok(Seq::empty()), s)
    } else {
        match parse_cb_op(s) {
            (Ok(v), t) => xdr::prepend(seq![v], parse_cb_ops(t, (n - 1) as nat)),
            (Err(e), t) => (Err(e), t),
        }
    }
}

/// `CB_COMPOUND4args`, read as the client reads it.
pub open spec fn parse_cb_args(s: Seq<u8>) -> Parsed<CbCompoundCallView> {
    xdr::bind(
        xdr::parse_string(s),
        |tag: Seq<char>, s: Seq<u8>|
            xdr::bind(
                xdr::parse_u32(s),
                |minorversion: u32, s: Seq<u8>|
                    xdr::bind(
                        xdr::parse_u32(s),
                        |callback_ident: u32, s: Seq<u8>|
                            xdr::bind(
                                xdr::parse_u32(s),
                                |n: u32, s: Seq<u8>|
                                    xdr::bind(
                                        parse_cb_ops(s, n as nat),
                                        |ops: Seq<CbOpView>, s: Seq<u8>|
                                            (
                                                Ok(
                                                    CbCompoundCallView {
                                                        tag,
                                                        minorversion,
                                                        callback_ident,
                                                        ops,
                                                    },
                                                ),
                                                s,
                                            ),
                                    ),
                            ),
                    ),
            ),
    )
}

/// An operation whose parts have the sizes that their types give them, and whose
/// filehandle has a length that a word can say.
pub open spec fn op_fits(op: CbOpView) -> bool {
    match op {
        CbOpView::Sequence { sessionid, .. } => sessionid.len() == 16,
        CbOpView::LayoutRecall { recall, .. } => match recall {
            LayoutRecallView::File { fh, stateid, .. } => fh.len() <= u32::MAX
                && stateid.other.len() == 12,
            _ => true,
        },
    }
}

proof fn layout_recall_round_trip(r: LayoutRecallView, t: Seq<u8>)
    requires
        r matches LayoutRecallView::File { fh, stateid, .. } ==> fh.len() <= u32::MAX
            && stateid.other.len() == 12,
    ensures
        parse_layout_recall(cb_compound::wire_layout_recall(r) + t) == (
            Ok::<LayoutRecallView, XdrError>(r),
            t,
        ),
{
    broadcast use {xdr::group_round_trips, xdr::lemma_concat_assoc};

}

proof fn cb_sequence_round_trip(
    sessionid: Seq<u8>,
    sequenceid: u32,
    slotid: u32,
    highest_slotid: u32,
    cachethis: bool,
    t: Seq<u8>,
)
    requires
        sessionid.len() == 16,
    ensures
        parse_cb_sequence(
            xdr::wire_fixed(sessionid) + (octets::be32(sequenceid) + (octets::be32(slotid) + (
            octets::be32(highest_slotid) + (xdr::wire_bool(cachethis) + (octets::be32(0) + t))))),
        ) == (
            Ok::<CbOpView, XdrError>(
                CbOpView::Sequence { sessionid, sequenceid, slotid, highest_slotid, cachethis },
            ),
            t,
        ),
{
    broadcast use xdr::group_round_trips;

}

proof fn cb_layoutrecall_round_trip(
    layout_type: u32,
    iomode: u32,
    changed: bool,
    recall: LayoutRecallView,
    t: Seq<u8>,
)
    requires
        op_fits(CbOpView::LayoutRecall { layout_type, iomode, changed, recall }),
    ensures
        parse_cb_layoutrecall(
            octets::be32(layout_type) + (octets::be32(iomode) + (xdr::wire_bool(changed) + (
            cb_compound::wire_layout_recall(recall) + t))),
        ) == (
            Ok::<CbOpView, XdrError>(
                CbOpView::LayoutRecall { layout_type, iomode, changed, recall },
            ),
            t,
        ),
{
    layout_recall_round_trip(recall, t);
    let w = cb_compound::wire_layout_recall(recall) + t;
    xdr::u32_round_trip(
        layout_type,
        octets::be32(iomode) + (xdr::wire_bool(changed) + w),
    );
    xdr::u32_round_trip(iomode, xdr::wire_bool(changed) + w);
    xdr::bool_round_trip(changed, w);
}

/// One operation is read back as it was written.
pub proof fn cb_op_round_trip(op: CbOpView, t: Seq<u8>)
    requires
        op_fits(op),
    ensures
        parse_cb_op(cb_compound::wire_cb_op(op) + t) == (Ok::<CbOpView, XdrError>(op), t),
{
    reveal(parse_cb_op);
    match op {
        CbOpView::Sequence { sessionid, sequenceid, slotid, highest_slotid, cachethis } => {
            let body = xdr::wire_fixed(sessionid) + (octets::be32(sequenceid) + (octets::be32(
                slotid,
            ) + (octets::be32(highest_slotid) + (xdr::wire_bool(cachethis) + (octets::be32(0)
                + t)))));
            assert(cb_compound::wire_cb_op(op) + t =~= octets::be32(CB_SEQUENCE) + body);
            xdr::u32_round_trip(CB_SEQUENCE, body);
            cb_sequence_round_trip(sessionid, sequenceid, slotid, highest_slotid, cachethis, t);
        },
        CbOpView::LayoutRecall { layout_type, iomode, changed, recall } => {
            let body = octets::be32(layout_type) + (octets::be32(iomode) + (xdr::wire_bool(changed)
                + (cb_compound::wire_layout_recall(recall) + t)));
            assert(cb_compound::wire_cb_op(op) + t =~= octets::be32(CB_LAYOUTRECALL) + body);
            xdr::u32_round_trip(CB_LAYOUTRECALL, body);
            cb_layoutrecall_round_trip(layout_type, iomode, changed, recall, t);
        },
    }
}

proof fn wire_cb_ops_front(ops: Seq<CbOpView>)
    requires
        ops.len() > 0,
    ensures
        cb_compound::wire_cb_ops(ops) == cb_compound::wire_cb_op(ops[0]) + cb_compound::wire_cb_ops(
            ops.skip(1),
        ),
    decreases ops.len(),
{
    broadcast use xdr::lemma_concat_assoc;

    if ops.len() == 1 {
        assert(ops.drop_last() =~= Seq::empty());
        assert(ops.skip(1) =~= Seq::empty());
        let w = cb_compound::wire_cb_op(ops[0]);
        assert(Seq::<u8>::empty() + w =~= w + Seq::<u8>::empty());
    } else {
        wire_cb_ops_front(ops.drop_last());
        assert(ops.drop_last().skip(1) =~= ops.skip(1).drop_last());
        assert(ops.skip(1).last() == ops.last());
    }
}

proof fn cb_ops_round_trip(ops: Seq<CbOpView>, t: Seq<u8>)
    requires
        forall|i: int| 0 <= i < ops.len() ==> op_fits(#[trigger] ops[i]),
    ensures
        parse_cb_ops(cb_compound::wire_cb_ops(ops) + t, ops.len()) == (
            Ok::<Seq<CbOpView>, XdrError>(ops),
            t,
        ),
    decreases ops.len(),
{
    if ops.len() == 0 {
        assert(Seq::<u8>::empty() + t =~= t);
        assert(ops =~= Seq::empty());
    } else {
        let rest = ops.skip(1);
        wire_cb_ops_front(ops);
        xdr::lemma_concat_assoc(
            cb_compound::wire_cb_op(ops[0]),
            cb_compound::wire_cb_ops(rest),
            t,
        );
        cb_op_round_trip(ops[0], cb_compound::wire_cb_ops(rest) + t);
        assert forall|i: int| 0 <= i < rest.len() implies op_fits(#[trigger] rest[i]) by {
            assert(rest[i] == ops[i + 1]);
        }
        cb_ops_round_trip(rest, t);
        assert(seq![ops[0]] + rest =~= ops);
    }
}

/// Law: the arguments of a callback are read back, by a client that follows the
/// protocol, as the call that went in, and nothing is left behind them.
pub proof fn the_client_reads_the_call_that_was_written(call: CbCompoundCallView)
    requires
        encode_utf8(call.tag).len() <= u32::MAX,
        call.ops.len() <= u32::MAX,
        forall|i: int| 0 <= i < call.ops.len() ==> op_fits(#[trigger] call.ops[i]),
    ensures
        parse_cb_args(cb_compound::wire_cb_args(call)) == (
            Ok::<CbCompoundCallView, XdrError>(call),
            Seq::<u8>::empty(),
        ),
{
    broadcast use xdr::group_round_trips;

    let none = Seq::<u8>::empty();
    let ops = cb_compound::wire_cb_ops(call.ops);
    let r3 = octets::be32(call.ops.len() as u32) + (ops + none);
    let r2 = octets::be32(call.callback_ident) + r3;
    let r1 = octets::be32(call.minorversion) + r2;
    assert(cb_compound::wire_cb_args(call) =~= xdr::wire_string(call.tag) + r1);
    cb_ops_round_trip(call.ops, none);
}

// ---------------------------------------------------------------------------
// The client's side of a reply
// ---------------------------------------------------------------------------

pub open spec fn wire_cb_result(r: CbResultView) -> Seq<u8> {
    match r {
        CbResultView::Sequence {
            status,
            sessionid,
            sequenceid,
            slotid,
            highest_slotid,
            target_highest_slotid,
        } => octets::be32(CB_SEQUENCE) + xdr::wire_status(status) + if status == Nfs4Status::NfsOk {
            xdr::wire_fixed(sessionid) + octets::be32(sequenceid) + octets::be32(slotid)
                + octets::be32(highest_slotid) + octets::be32(target_highest_slotid)
        } else {
            Seq::empty()
        },
        CbResultView::LayoutRecall { status } => octets::be32(CB_LAYOUTRECALL) + xdr::wire_status(
            status,
        ),
        CbResultView::Recall { status } => octets::be32(CB_RECALL) + xdr::wire_status(status),
        CbResultView::OtherStatus { opcode, status } => octets::be32(opcode) + xdr::wire_status(
            status,
        ),
    }
}

pub open spec fn wire_cb_results(rs: Seq<CbResultView>) -> Seq<u8>
    decreases rs.len(),
{
    if rs.len() == 0 {
        Seq::empty()
    } else {
        wire_cb_result(rs[0]) + wire_cb_results(rs.skip(1))
    }
}

/// The whole RPC reply that a client sends for a CB_COMPOUND that it ran.
pub open spec fn wire_cb_reply(xid: u32, flavor: u32, verf: Seq<u8>, r: CbCompoundReplyView) -> Seq<
    u8,
> {
    octets::be32(xid) + octets::be32(MessageType::Reply.spec_code()) + octets::be32(
        ReplyStatus::Accepted.spec_code(),
    ) + octets::be32(flavor) + xdr::wire_opaque(verf) + octets::be32(
        AcceptStatus::Success.spec_code(),
    ) + xdr::wire_status(r.status) + xdr::wire_string(r.tag) + octets::be32(r.results.len() as u32)
        + wire_cb_results(r.results)
}

/// A result as a client can send it: the fields of a CB_SEQUENCE that failed are
/// not on the wire, and opcodes with a form of their own have that form.
pub open spec fn result_fits(r: CbResultView) -> bool {
    match r {
        CbResultView::Sequence {
            status,
            sessionid,
            sequenceid,
            slotid,
            highest_slotid,
            target_highest_slotid,
        } => if status == Nfs4Status::NfsOk {
            sessionid.len() == 16
        } else {
            sessionid == xdr::zeros(16) && sequenceid == 0 && slotid == 0 && highest_slotid == 0
                && target_highest_slotid == 0
        },
        CbResultView::LayoutRecall { .. } => true,
        CbResultView::Recall { .. } => true,
        CbResultView::OtherStatus { opcode, .. } => opcode != CB_SEQUENCE && opcode
            != CB_LAYOUTRECALL && opcode != CB_RECALL,
    }
}

proof fn cb_result_round_trip(r: CbResultView, t: Seq<u8>)
    requires
        result_fits(r),
    ensures
        cb_compound::parse_cb_result(wire_cb_result(r) + t) == (
            Ok::<CbResultView, XdrError>(r),
            t,
        ),
{
    broadcast use xdr::group_round_trips;

    match r {
        CbResultView::Sequence {
            status,
            sessionid,
            sequenceid,
            slotid,
            highest_slotid,
            target_highest_slotid,
        } => {
            if status == Nfs4Status::NfsOk {
                let r5 = octets::be32(target_highest_slotid) + t;
                let r4 = octets::be32(highest_slotid) + r5;
                let r3 = octets::be32(slotid) + r4;
                let r2 = octets::be32(sequenceid) + r3;
                let r1 = xdr::wire_fixed(sessionid) + r2;
                assert(wire_cb_result(r) + t == octets::be32(CB_SEQUENCE) + (xdr::wire_status(
                    status,
                ) + r1)) by {
                    broadcast use xdr::lemma_concat_assoc;

                }
            } else {
                assert(wire_cb_result(r) + t =~= octets::be32(CB_SEQUENCE) + (xdr::wire_status(
                    status,
                ) + t));
            }
        },
        CbResultView::LayoutRecall { status } => {
            xdr::lemma_concat_assoc(octets::be32(CB_LAYOUTRECALL), xdr::wire_status(status), t);
        },
        CbResultView::Recall { status } => {
            xdr::lemma_concat_assoc(octets::be32(CB_RECALL), xdr::wire_status(status), t);
        },
        CbResultView::OtherStatus { opcode, status } => {
            xdr::lemma_concat_assoc(octets::be32(opcode), xdr::wire_status(status), t);
        },
    }
}

proof fn cb_res_round_trip(r: CbCompoundReplyView, t: Seq<u8>)
    requires
        encode_utf8(r.tag).len() <= u32::MAX,
        r.results.len() <= u32::MAX,
        forall|i: int| 0 <= i < r.results.len() ==> result_fits(#[trigger] r.results[i]),
    ensures
        cb_compound::parse_cb_res(
            xdr::wire_status(r.status) + (xdr::wire_string(r.tag) + (octets::be32(
                r.results.len() as u32,
            ) + (wire_cb_results(r.results) + t))),
        ) == (Ok::<CbCompoundReplyView, XdrError>(r), t),
{
    broadcast use xdr::group_round_trips;
    broadcast use {encode_utf8_valid_utf8, encode_utf8_decode_utf8};

    cb_results_round_trip(r.results, t);
}


proof fn cb_results_round_trip(rs: Seq<CbResultView>, t: Seq<u8>)
    requires
        forall|i: int| 0 <= i < rs.len() ==> result_fits(#[trigger] rs[i]),
    ensures
        cb_compound::parse_cb_results(wire_cb_results(rs) + t, rs.len()) == (
            Ok::<Seq<CbResultView>, XdrError>(rs),
            t,
        ),
    decreases rs.len(),
{
    if rs.len() == 0 {
        assert(Seq::<u8>::empty() + t =~= t);
        assert(rs =~= Seq::empty());
    } else {
        let rest = rs.skip(1);
        xdr::lemma_concat_assoc(wire_cb_result(rs[0]), wire_cb_results(rest), t);
        cb_result_round_trip(rs[0], wire_cb_results(rest) + t);
        assert forall|i: int| 0 <= i < rest.len() implies result_fits(#[trigger] rest[i]) by {
            assert(rest[i] == rs[i + 1]);
        }
        cb_results_round_trip(rest, t);
        assert(seq![rs[0]] + rest =~= rs);
    }
}

proof fn reassociated(
    a: Seq<u8>,
    b: Seq<u8>,
    c: Seq<u8>,
    d: Seq<u8>,
    e: Seq<u8>,
    f: Seq<u8>,
    g: Seq<u8>,
    h: Seq<u8>,
    i: Seq<u8>,
    j: Seq<u8>,
    t: Seq<u8>,
)
    ensures
        a + b + c + d + e + f + g + h + i + j + t == a + (b + (c + (d + (e + (f + (g + (h + (i + (j
            + t))))))))),
{
    let x = i + (j + t);
    let y = e + (f + (g + (h + x)));
    assert(a + b + c + d + e + f + g + h + i + j + t =~= a + b + c + d + e + f + g + h + x);
    assert(a + b + c + d + e + f + g + h + x =~= a + b + c + d + y);
    assert(a + b + c + d + y =~= a + (b + (c + (d + y))));
}

/// Law: a reply is read back as the client wrote it, whatever its verifier and
/// whatever follows it, by the call that it answers.
pub proof fn a_reply_is_read_back_by_its_call(
    xid: u32,
    flavor: u32,
    verf: Seq<u8>,
    r: CbCompoundReplyView,
    t: Seq<u8>,
)
    requires
        verf.len() <= u32::MAX,
        encode_utf8(r.tag).len() <= u32::MAX,
        r.results.len() <= u32::MAX,
        forall|i: int| 0 <= i < r.results.len() ==> result_fits(#[trigger] r.results[i]),
    ensures
        cb_compound::parse_cb_reply(wire_cb_reply(xid, flavor, verf, r) + t, xid) == Ok::<
            CbCompoundReplyView,
            CbReplyError,
        >(r),
{
    broadcast use xdr::group_round_trips;

    let results = wire_cb_results(r.results);
    let r8 = octets::be32(r.results.len() as u32) + (results + t);
    let r7 = xdr::wire_string(r.tag) + r8;
    let r6 = xdr::wire_status(r.status) + r7;
    let r5 = octets::be32(AcceptStatus::Success.spec_code()) + r6;
    let r4 = xdr::wire_opaque(verf) + r5;
    let r3 = octets::be32(flavor) + r4;
    let r2 = octets::be32(ReplyStatus::Accepted.spec_code()) + r3;
    let r1 = octets::be32(MessageType::Reply.spec_code()) + r2;
    assert(wire_cb_reply(xid, flavor, verf, r) + t == octets::be32(xid) + r1) by {
        reassociated(
            octets::be32(xid),
            octets::be32(MessageType::Reply.spec_code()),
            octets::be32(ReplyStatus::Accepted.spec_code()),
            octets::be32(flavor),
            xdr::wire_opaque(verf),
            octets::be32(AcceptStatus::Success.spec_code()),
            xdr::wire_status(r.status),
            xdr::wire_string(r.tag),
            octets::be32(r.results.len() as u32),
            results,
            t,
        );
    }
    cb_res_round_trip(r, t);
    assert(cb_compound::parse_accepted(AcceptStatus::Success.spec_code(), r6) == Ok::<
        CbCompoundReplyView,
        CbReplyError,
    >(r));
}

/// Law: a call never takes the reply to another call for its own.
pub proof fn a_reply_is_refused_by_every_other_call(s: Seq<u8>, xid: u32, other: u32)
    requires
        xid != other,
    ensures
        cb_compound::parse_cb_reply(octets::be32(xid) + s, other) == Err::<
            CbCompoundReplyView,
            CbReplyError,
        >(CbReplyError::XidMismatch { expected: other, actual: xid }),
{
    broadcast use xdr::group_round_trips;

}

/// Law: the words of a callback have these numbers (RFC 8881 section 20).
pub proof fn callback_words_have_their_numbers()
    ensures
        cb_compound::CB_VERSION == 1,
        cb_compound::CB_COMPOUND == 1,
        cb_compound::CB_RECALL == 4,
        cb_compound::CB_LAYOUTRECALL == 5,
        cb_compound::CB_SEQUENCE == 11,
        cb_compound::LAYOUTRECALL_FILE == 1,
        cb_compound::LAYOUTRECALL_FSID == 2,
        cb_compound::LAYOUTRECALL_ALL == 3,
{
}

/// Law: a callback and its parts say what they hold.
pub proof fn a_callback_says_what_it_holds(
    op: CbOp,
    recall: LayoutRecall,
    call: CbCompoundCall,
    result: CbResult,
    reply: CbCompoundReply,
)
    ensures
        op matches CbOp::Sequence { sessionid, sequenceid, slotid, highest_slotid, cachethis }
            ==> op@ == (CbOpView::Sequence {
            sessionid: sessionid@,
            sequenceid,
            slotid,
            highest_slotid,
            cachethis,
        }),
        op matches CbOp::LayoutRecall { layout_type, iomode, changed, recall } ==> op@ == (
        CbOpView::LayoutRecall { layout_type, iomode, changed, recall: recall@ }),
        recall matches LayoutRecall::File { fh, offset, length, stateid } ==> recall@ == (
        LayoutRecallView::File { fh: fh@, offset, length, stateid: stateid@ }),
        recall matches LayoutRecall::Fsid { fsid_major, fsid_minor } ==> recall@ == (
        LayoutRecallView::Fsid { fsid_major, fsid_minor }),
        recall is All ==> recall@ is All,
        call@.tag == call.tag@ && call@.minorversion == call.minorversion && call@.callback_ident
            == call.callback_ident && call@.ops == xdr::views(call.ops@),
        result matches CbResult::Sequence {
            status,
            sessionid,
            sequenceid,
            slotid,
            highest_slotid,
            target_highest_slotid,
        } ==> result@ == (CbResultView::Sequence {
            status,
            sessionid: sessionid@,
            sequenceid,
            slotid,
            highest_slotid,
            target_highest_slotid,
        }),
        result matches CbResult::LayoutRecall { status } ==> result@ == (
        CbResultView::LayoutRecall { status }),
        result matches CbResult::Recall { status } ==> result@ == (CbResultView::Recall { status }),
        result matches CbResult::OtherStatus { opcode, status } ==> result@ == (
        CbResultView::OtherStatus { opcode, status }),
        reply@.status == reply.status && reply@.tag == reply.tag@ && reply@.results == xdr::views(
            reply.results@,
        ),
{
}

/// Law: a callback opens with its transaction, that it is a call, version 2 of RPC, the
/// program of the client, version 1 of it, CB_COMPOUND, and two empty credentials.
pub proof fn a_callback_opens_with_its_header(xid: u32, cb_program: u32, t: Seq<u8>)
    ensures
        ({
            let (id, s) = xdr::parse_u32(cb_compound::wire_cb_header(xid, cb_program) + t);
            let (kind, s) = xdr::parse_u32(s);
            let (version, s) = xdr::parse_u32(s);
            let (program, s) = xdr::parse_u32(s);
            &&& id == Ok::<u32, XdrError>(xid)
            &&& kind == Ok::<u32, XdrError>(0)
            &&& version == Ok::<u32, XdrError>(2)
            &&& program == Ok::<u32, XdrError>(cb_program)
            &&& s == octets::be32(1) + (octets::be32(1) + (octets::be32(0) + (octets::be32(0) + (
            octets::be32(0) + (octets::be32(0) + t)))))
        }),
{
    let zero = octets::be32(0);
    let none = xdr::wire_opaque(Seq::empty());
    assert(none =~= zero);
    let s4 = octets::be32(1) + (octets::be32(1) + (zero + (zero + (zero + (zero + t)))));
    let s3 = octets::be32(cb_program) + s4;
    let s2 = octets::be32(2) + s3;
    let s1 = zero + s2;
    reassociated(
        octets::be32(xid),
        zero,
        octets::be32(2),
        octets::be32(cb_program),
        octets::be32(1),
        octets::be32(1),
        zero,
        zero,
        zero,
        zero,
        t,
    );
    xdr::u32_round_trip(xid, s1);
    xdr::u32_round_trip(0, s2);
    xdr::u32_round_trip(2, s3);
    xdr::u32_round_trip(cb_program, s4);
}

/// Law: what is no reply, and a reply that RPC denied, is refused as such.
pub proof fn what_is_no_reply_is_refused(xid: u32, word: u32, s: Seq<u8>)
    ensures
        word != 1 ==> cb_compound::parse_cb_reply(octets::be32(xid) + (octets::be32(word) + s), xid)
            == Err::<CbCompoundReplyView, CbReplyError>(
            CbReplyError::RpcRejected { reason: RpcRejection::NotAReply { msg_type: word } },
        ),
        word != 0 ==> cb_compound::parse_cb_reply(
            octets::be32(xid) + (octets::be32(1) + (octets::be32(word) + s)),
            xid,
        ) == Err::<CbCompoundReplyView, CbReplyError>(
            CbReplyError::RpcRejected { reason: RpcRejection::Denied { reply_status: word } },
        ),
{
    broadcast use xdr::u32_round_trip;

}

/// Law: a reply that was accepted and not run is refused with the reason that RPC gives.
pub proof fn what_was_not_run_is_said_to_be_so(status: u32, s: Seq<u8>)
    ensures
        status > 5 ==> cb_compound::parse_accepted(status, s) == Err::<
            CbCompoundReplyView,
            CbReplyError,
        >(
            CbReplyError::RpcRejected {
                reason: RpcRejection::UnknownAcceptStatus { accept_status: status },
            },
        ),
        1 <= status <= 5 ==> (cb_compound::parse_accepted(status, s) matches Err(
            CbReplyError::Accept { status: a },
        ) && a.spec_code() == status),
{
}

/// Law: the words of a CB_SEQUENCE: its number, the session, the sequence number, the
/// slot, the highest slot, whether the reply is kept, and no referring calls.
pub proof fn a_cb_sequence_says_its_session_and_slot(
    sessionid: Seq<u8>,
    sequenceid: u32,
    slotid: u32,
    highest_slotid: u32,
    cachethis: bool,
    t: Seq<u8>,
)
    requires
        sessionid.len() == 16,
    ensures
        ({
            let op = CbOpView::Sequence {
                sessionid,
                sequenceid,
                slotid,
                highest_slotid,
                cachethis,
            };
            let (number, s) = xdr::parse_u32(cb_compound::wire_cb_op(op) + t);
            let (session, s) = xdr::parse_fixed(s, 16);
            let (sequence, s) = xdr::parse_u32(s);
            let (slot, s) = xdr::parse_u32(s);
            let (highest, s) = xdr::parse_u32(s);
            let (kept, s) = xdr::parse_bool(s);
            let (referring, s) = xdr::parse_u32(s);
            &&& number == Ok::<u32, XdrError>(11)
            &&& session == Ok::<Seq<u8>, XdrError>(sessionid)
            &&& sequence == Ok::<u32, XdrError>(sequenceid)
            &&& slot == Ok::<u32, XdrError>(slotid)
            &&& highest == Ok::<u32, XdrError>(highest_slotid)
            &&& kept == Ok::<bool, XdrError>(cachethis)
            &&& referring == Ok::<u32, XdrError>(0)
            &&& s == t
        }),
{
    let s6 = octets::be32(0) + t;
    let s5 = xdr::wire_bool(cachethis) + s6;
    let s4 = octets::be32(highest_slotid) + s5;
    let s3 = octets::be32(slotid) + s4;
    let s2 = octets::be32(sequenceid) + s3;
    let s1 = xdr::wire_fixed(sessionid) + s2;
    let op = CbOpView::Sequence { sessionid, sequenceid, slotid, highest_slotid, cachethis };
    assert(cb_compound::wire_cb_op(op) + t == octets::be32(11) + s1) by {
        broadcast use xdr::lemma_concat_assoc;

    }
    xdr::u32_round_trip(11, s1);
    xdr::fixed_round_trip(sessionid, 16, s2);
    xdr::u32_round_trip(sequenceid, s3);
    xdr::u32_round_trip(slotid, s4);
    xdr::u32_round_trip(highest_slotid, s5);
    xdr::bool_round_trip(cachethis, s6);
    xdr::u32_round_trip(0, t);
}

/// Law: the words of a CB_LAYOUTRECALL: its number, the type, the mode, whether the layout
/// changed, and then which layouts.
pub proof fn a_cb_layoutrecall_says_type_and_mode(
    layout_type: u32,
    iomode: u32,
    changed: bool,
    recall: LayoutRecallView,
    t: Seq<u8>,
)
    ensures
        ({
            let op = CbOpView::LayoutRecall { layout_type, iomode, changed, recall };
            let (number, s) = xdr::parse_u32(cb_compound::wire_cb_op(op) + t);
            let (kind, s) = xdr::parse_u32(s);
            let (mode, s) = xdr::parse_u32(s);
            let (change, s) = xdr::parse_bool(s);
            &&& number == Ok::<u32, XdrError>(5)
            &&& kind == Ok::<u32, XdrError>(layout_type)
            &&& mode == Ok::<u32, XdrError>(iomode)
            &&& change == Ok::<bool, XdrError>(changed)
            &&& s == cb_compound::wire_layout_recall(recall) + t
        }),
{
    let s4 = cb_compound::wire_layout_recall(recall) + t;
    let s3 = xdr::wire_bool(changed) + s4;
    let s2 = octets::be32(iomode) + s3;
    let s1 = octets::be32(layout_type) + s2;
    let op = CbOpView::LayoutRecall { layout_type, iomode, changed, recall };
    assert(cb_compound::wire_cb_op(op) + t == octets::be32(5) + s1) by {
        broadcast use xdr::lemma_concat_assoc;

    }
    xdr::u32_round_trip(5, s1);
    xdr::u32_round_trip(layout_type, s2);
    xdr::u32_round_trip(iomode, s3);
    xdr::bool_round_trip(changed, s4);
}

/// Law: which layouts are recalled: those of a file, by its filehandle, the range and the
/// stateid; those of a file system, by its two numbers; or all.
pub proof fn a_recall_says_which_layouts(
    fh: Seq<u8>,
    offset: u64,
    length: u64,
    stateid: StateIdView,
    fsid_major: u64,
    fsid_minor: u64,
    t: Seq<u8>,
)
    requires
        fh.len() <= u32::MAX,
        stateid.other.len() == 12,
    ensures
        ({
            let r = LayoutRecallView::File { fh, offset, length, stateid };
            let (arm, s) = xdr::parse_u32(cb_compound::wire_layout_recall(r) + t);
            let (file, s) = xdr::parse_opaque(s);
            let (from, s) = xdr::parse_u64(s);
            let (len, s) = xdr::parse_u64(s);
            let (id, s) = xdr::parse_stateid(s);
            &&& arm == Ok::<u32, XdrError>(1)
            &&& file == Ok::<Seq<u8>, XdrError>(fh)
            &&& from == Ok::<u64, XdrError>(offset)
            &&& len == Ok::<u64, XdrError>(length)
            &&& id == Ok::<StateIdView, XdrError>(stateid)
            &&& s == t
        }),
        ({
            let r = LayoutRecallView::Fsid { fsid_major, fsid_minor };
            let (arm, s) = xdr::parse_u32(cb_compound::wire_layout_recall(r) + t);
            let (major, s) = xdr::parse_u64(s);
            let (minor, s) = xdr::parse_u64(s);
            &&& arm == Ok::<u32, XdrError>(2)
            &&& major == Ok::<u64, XdrError>(fsid_major)
            &&& minor == Ok::<u64, XdrError>(fsid_minor)
            &&& s == t
        }),
        xdr::parse_u32(cb_compound::wire_layout_recall(LayoutRecallView::All) + t) == (
            Ok::<u32, XdrError>(3),
            t,
        ),
{
    let s4 = xdr::wire_stateid(stateid) + t;
    let s3 = octets::be64(length) + s4;
    let s2 = octets::be64(offset) + s3;
    let s1 = xdr::wire_opaque(fh) + s2;
    assert(cb_compound::wire_layout_recall(
        LayoutRecallView::File { fh, offset, length, stateid },
    ) + t == octets::be32(1) + s1) by {
        broadcast use xdr::lemma_concat_assoc;

    }
    xdr::u32_round_trip(1, s1);
    xdr::opaque_round_trip(fh, s2);
    xdr::u64_round_trip(offset, s3);
    xdr::u64_round_trip(length, s4);
    xdr::stateid_round_trip(stateid, t);
    let m1 = octets::be64(fsid_minor) + t;
    assert(cb_compound::wire_layout_recall(LayoutRecallView::Fsid { fsid_major, fsid_minor }) + t
        == octets::be32(2) + (octets::be64(fsid_major) + m1)) by {
        broadcast use xdr::lemma_concat_assoc;

    }
    xdr::u32_round_trip(2, octets::be64(fsid_major) + m1);
    xdr::u64_round_trip(fsid_major, m1);
    xdr::u64_round_trip(fsid_minor, t);
    xdr::u32_round_trip(3, t);
}

/// Law: the arguments of a callback are its tag, its minor version, its identifier, the
/// number of its operations, and the operations in order.
pub proof fn a_callback_is_tag_version_and_operations(call: CbCompoundCallView)
    requires
        encode_utf8(call.tag).len() <= u32::MAX,
        call.ops.len() <= u32::MAX,
    ensures
        ({
            let (tag, s) = xdr::parse_opaque(cb_compound::wire_cb_args(call));
            let (minor, s) = xdr::parse_u32(s);
            let (ident, s) = xdr::parse_u32(s);
            let (count, s) = xdr::parse_u32(s);
            &&& tag == Ok::<Seq<u8>, XdrError>(encode_utf8(call.tag))
            &&& minor == Ok::<u32, XdrError>(call.minorversion)
            &&& ident == Ok::<u32, XdrError>(call.callback_ident)
            &&& count == Ok::<u32, XdrError>(call.ops.len() as u32)
            &&& s == cb_compound::wire_cb_ops(call.ops)
        }),
{
    let s4 = cb_compound::wire_cb_ops(call.ops);
    let s3 = octets::be32(call.ops.len() as u32) + s4;
    let s2 = octets::be32(call.callback_ident) + s3;
    let s1 = octets::be32(call.minorversion) + s2;
    assert(cb_compound::wire_cb_args(call) =~= xdr::wire_opaque(encode_utf8(call.tag)) + s1);
    xdr::opaque_round_trip(encode_utf8(call.tag), s1);
    xdr::u32_round_trip(call.minorversion, s2);
    xdr::u32_round_trip(call.callback_ident, s3);
    xdr::u32_round_trip(call.ops.len() as u32, s4);
}

/// Law: the operations of a callback go out in their order.
pub proof fn callbacks_go_out_in_order(ops: Seq<CbOpView>, op: CbOpView)
    ensures
        cb_compound::wire_cb_ops(Seq::empty()).len() == 0,
        cb_compound::wire_cb_ops(ops.push(op)) == cb_compound::wire_cb_ops(ops)
            + cb_compound::wire_cb_op(op),
{
    assert(ops.push(op).drop_last() =~= ops);
}

/// Law: what a client answers to a callback is read as it stands: to CB_SEQUENCE the
/// session, the sequence number and the three slots, and to a recall of a layout or of a
/// delegation the status alone. A CB_SEQUENCE that failed has nothing but its status.
pub proof fn an_answer_to_a_callback_is_read_as_it_stands(
    status: Nfs4Status,
    sessionid: Seq<u8>,
    sequenceid: u32,
    slotid: u32,
    highest_slotid: u32,
    target_highest_slotid: u32,
    t: Seq<u8>,
)
    requires
        sessionid.len() == 16,
    ensures
        cb_compound::parse_cb_result(
            octets::be32(11) + (xdr::wire_status(Nfs4Status::NfsOk) + (xdr::wire_fixed(sessionid) + (
            octets::be32(sequenceid) + (octets::be32(slotid) + (octets::be32(highest_slotid) + (
            octets::be32(target_highest_slotid) + t)))))),
        ) == (
            Ok::<CbResultView, XdrError>(
                CbResultView::Sequence {
                    status: Nfs4Status::NfsOk,
                    sessionid,
                    sequenceid,
                    slotid,
                    highest_slotid,
                    target_highest_slotid,
                },
            ),
            t,
        ),
        cb_compound::parse_cb_result(octets::be32(5) + (xdr::wire_status(status) + t)) == (
            Ok::<CbResultView, XdrError>(CbResultView::LayoutRecall { status }),
            t,
        ),
        cb_compound::parse_cb_result(octets::be32(4) + (xdr::wire_status(status) + t)) == (
            Ok::<CbResultView, XdrError>(CbResultView::Recall { status }),
            t,
        ),
        status != Nfs4Status::NfsOk ==> ({
            let r = cb_compound::parse_cb_result(
                octets::be32(11) + (xdr::wire_status(status) + t),
            );
            r.1 == t && (r.0 matches Ok(v) && v is Sequence && cb_compound::result_status(v)
                == status)
        }),
{
    broadcast use xdr::group_round_trips;

}

/// Law: a reply is its status, its tag, the number of its results and the results.
pub proof fn a_callback_reply_is_status_tag_and_results(
    r: CbCompoundReplyView,
    t: Seq<u8>,
)
    requires
        encode_utf8(r.tag).len() <= u32::MAX,
        r.results.len() == 1,
        result_fits(r.results[0]),
        r.results[0] is Recall,
    ensures
        cb_compound::parse_cb_res(
            xdr::wire_status(r.status) + (xdr::wire_string(r.tag) + (octets::be32(1) + (octets::be32(
                4,
            ) + (xdr::wire_status(cb_compound::result_status(r.results[0])) + t)))),
        ) == (Ok::<CbCompoundReplyView, XdrError>(r), t),
{
    let one = octets::be32(4) + xdr::wire_status(cb_compound::result_status(r.results[0]));
    assert(wire_cb_results(r.results) == one) by {
        reveal_with_fuel(wire_cb_results, 2);
        assert(r.results.skip(1) =~= Seq::empty());
        assert(one + Seq::<u8>::empty() =~= one);
    }
    xdr::lemma_concat_assoc(
        octets::be32(4),
        xdr::wire_status(cb_compound::result_status(r.results[0])),
        t,
    );
    cb_res_round_trip(r, t);
}

/// Law: the status of an answer is the one that it was given with.
pub proof fn an_answer_has_its_status(
    status: Nfs4Status,
    sessionid: Seq<u8>,
    w: u32,
)
    ensures
        cb_compound::result_status(CbResultView::Recall { status }) == status,
        cb_compound::result_status(CbResultView::LayoutRecall { status }) == status,
        cb_compound::result_status(CbResultView::OtherStatus { opcode: w, status }) == status,
        cb_compound::result_status(
            CbResultView::Sequence {
                status,
                sessionid,
                sequenceid: w,
                slotid: w,
                highest_slotid: w,
                target_highest_slotid: w,
            },
        ) == status,
{
}

/// Law: the sentence for a reply to another call names the transaction that was expected
/// and then, at its end, the one that came; it begins with a text of its own.
pub proof fn a_mismatch_names_both_transactions(expected: u32, actual: u32)
    ensures
        ({
            let s = (CbReplyError::XidMismatch { expected, actual }).text();
            let (e, a) = (text::decimal(expected as nat), text::decimal(actual as nat));
            let lead = "CB xid mismatch: expected "@;
            &&& s.take(lead.len() as int) == lead
            &&& s.subrange(lead.len() as int, (lead.len() + e.len()) as int) == e
            &&& s.skip(s.len() - a.len()) == a
        }),
{
    let s = (CbReplyError::XidMismatch { expected, actual }).text();
    let (e, a) = (text::decimal(expected as nat), text::decimal(actual as nat));
    let lead = "CB xid mismatch: expected "@;
    assert(s.take(lead.len() as int) =~= lead);
    assert(s.subrange(lead.len() as int, (lead.len() + e.len()) as int) =~= e);
    assert(s.skip(s.len() - a.len()) =~= a);
}

/// Law: the sentence for a message that RPC refused ends with the word that it was refused
/// for, or has it ahead of the note that it was denied; that for one it did not run ends
/// with the name of the outcome.
pub proof fn a_refusal_names_its_word(word: u32, status: AcceptStatus)
    ensures
        ({
            let n = text::decimal(word as nat);
            let kind = (RpcRejection::NotAReply { msg_type: word }).text();
            let denied = (RpcRejection::Denied { reply_status: word }).text();
            let unknown = (RpcRejection::UnknownAcceptStatus { accept_status: word }).text();
            let named = (CbReplyError::Accept { status }).text();
            let name = rpc::accept_name(status);
            let lead = "reply_status="@;
            &&& kind.skip(kind.len() - n.len()) == n
            &&& denied.subrange(lead.len() as int, (lead.len() + n.len()) as int) == n
            &&& unknown.skip(unknown.len() - n.len()) == n
            &&& named.skip(named.len() - name.len()) == name
        }),
{
    let n = text::decimal(word as nat);
    let kind = (RpcRejection::NotAReply { msg_type: word }).text();
    let denied = (RpcRejection::Denied { reply_status: word }).text();
    let unknown = (RpcRejection::UnknownAcceptStatus { accept_status: word }).text();
    let named = (CbReplyError::Accept { status }).text();
    let name = rpc::accept_name(status);
    let lead = "reply_status="@;
    assert(kind.skip(kind.len() - n.len()) =~= n);
    assert(denied.subrange(lead.len() as int, (lead.len() + n.len()) as int) =~= n);
    assert(unknown.skip(unknown.len() - n.len()) =~= n);
    assert(named.skip(named.len() - name.len()) =~= name);
}

} // verus!
