//! CB_COMPOUND: the calls that the server makes to its client, and the replies.
//!
//! The server's call goes out on a connection that the client opened:
//!
//! ```text
//!     xid | CALL | rpcvers=2 | cb_program | version=1 | CB_COMPOUND
//!         | cred(AUTH_NONE) | verf(AUTH_NONE) | CB_COMPOUND4args
//! ```
//!
//! and the reply comes back on it:
//!
//! ```text
//!     xid | REPLY | MSG_ACCEPTED | verf | SUCCESS | CB_COMPOUND4res
//! ```
pub mod laws;

use crate::octets;
use crate::octets::bytes_as_slice;
use crate::protocol::{Nfs4Status, SessionId, StateId, StateIdView};
use crate::rpc;
use crate::rpc::{accept_status, AcceptStatus, AuthFlavor, MessageType, ReplyStatus, RPC_VERSION};
use crate::text;
use crate::text::{push_decimal, str_from_utf8};
use crate::xdr;
use crate::xdr::{Parsed, XdrDecoder, XdrEncoder, XdrError};
use bytes::Bytes;
use vstd::prelude::*;
use vstd::utf8::*;

verus! {

/// The version of the callback program.
pub const CB_VERSION: u32 = 1;

/// The procedure number of CB_COMPOUND.
pub const CB_COMPOUND: u32 = 1;

/// `nfs_cb_opnum4`.
pub const CB_RECALL: u32 = 4;

pub const CB_LAYOUTRECALL: u32 = 5;

pub const CB_SEQUENCE: u32 = 11;

/// `layoutrecall_type4`.
pub const LAYOUTRECALL_FILE: u32 = 1;

pub const LAYOUTRECALL_FSID: u32 = 2;

pub const LAYOUTRECALL_ALL: u32 = 3;

/// One operation of a CB_COMPOUND, of those that this server sends.
#[derive(Debug, Clone, PartialEq, Eq)]
pub enum CbOp {
    /// CB_SEQUENCE, the first operation of every callback. Its list of referring
    /// calls goes out empty.
    Sequence {
        sessionid: SessionId,
        sequenceid: u32,
        slotid: u32,
        highest_slotid: u32,
        cachethis: bool,
    },
    /// CB_LAYOUTRECALL: asks the client to return a layout.
    LayoutRecall { layout_type: u32, iomode: u32, changed: bool, recall: LayoutRecall },
}

/// What a CB_LAYOUTRECALL covers.
#[derive(Debug, Clone, PartialEq, Eq)]
pub enum LayoutRecall {
    /// A byte range of one file.
    File { fh: Vec<u8>, offset: u64, length: u64, stateid: StateId },
    /// Everything of one file system.
    Fsid { fsid_major: u64, fsid_minor: u64 },
    /// Every layout that the client holds.
    All,
}

/// The arguments of a CB_COMPOUND.
#[derive(Debug, Clone, PartialEq, Eq)]
pub struct CbCompoundCall {
    /// Echoed in the reply.
    pub tag: String,
    pub minorversion: u32,
    pub callback_ident: u32,
    pub ops: Vec<CbOp>,
}

/// One result of a CB_COMPOUND.
#[derive(Debug, Clone, Copy, PartialEq, Eq)]
pub enum CbResult {
    /// The fields are all zero where the status is an error: the body is then
    /// absent on the wire.
    Sequence {
        status: Nfs4Status,
        sessionid: SessionId,
        sequenceid: u32,
        slotid: u32,
        highest_slotid: u32,
        target_highest_slotid: u32,
    },
    /// `NoMatchingLayout` means that the client no longer holds the layout.
    LayoutRecall { status: Nfs4Status },
    /// CB_RECALL, which asks for a delegation back.
    Recall { status: Nfs4Status },
    /// Any other operation: only its status is read.
    OtherStatus { opcode: u32, status: Nfs4Status },
}

/// A CB_COMPOUND reply.
#[derive(Debug, PartialEq, Eq)]
pub struct CbCompoundReply {
    /// The status of the last result, which is the one that failed if any did.
    pub status: Nfs4Status,
    pub tag: String,
    pub results: Vec<CbResult>,
}

/// What the RPC layer refused a callback for.
#[derive(Debug, Clone, Copy, PartialEq, Eq, Structural)]
pub enum RpcRejection {
    /// The message is no REPLY.
    NotAReply { msg_type: u32 },
    /// The reply is not MSG_ACCEPTED.
    Denied { reply_status: u32 },
    /// An `accept_stat` that RPC does not define.
    UnknownAcceptStatus { accept_status: u32 },
}

/// Why a reply could not be taken. The first three mean that the connection is
/// of no use for callbacks; a CB_COMPOUND that ran and failed is no error here.
#[derive(Debug, Clone, Copy, PartialEq, Eq, Structural)]
pub enum CbReplyError {
    /// The frame could not be read.
    Xdr(XdrError),
    /// RPC refused the message.
    RpcRejected { reason: RpcRejection },
    /// RPC accepted the message but did not run it (PROG_UNAVAIL: the client has
    /// no callback program here).
    Accept { status: AcceptStatus },
    /// The reply belongs to another call.
    XidMismatch { expected: u32, actual: u32 },
}

impl RpcRejection {
    pub open spec fn text(self) -> Seq<char> {
        match self {
            RpcRejection::NotAReply { msg_type } => "expected REPLY, got msg_type="@
                + text::decimal(msg_type as nat),
            RpcRejection::Denied { reply_status } => "reply_status="@ + text::decimal(
                reply_status as nat,
            ) + " (DENIED)"@,
            RpcRejection::UnknownAcceptStatus { accept_status } => "unknown accept_status="@
                + text::decimal(accept_status as nat),
        }
    }

    fn append_to(&self, s: &mut String)
        ensures
            final(s)@ == old(s)@ + self.text(),
    {
        let ghost before = s@;
        match self {
            RpcRejection::NotAReply { msg_type } => {
                s.append("expected REPLY, got msg_type=");
                push_decimal(s, *msg_type as u64);
            },
            RpcRejection::Denied { reply_status } => {
                s.append("reply_status=");
                push_decimal(s, *reply_status as u64);
                s.append(" (DENIED)");
            },
            RpcRejection::UnknownAcceptStatus { accept_status } => {
                s.append("unknown accept_status=");
                push_decimal(s, *accept_status as u64);
            },
        }
        assert(s@ =~= before + self.text());
    }
}

impl CbReplyError {
    pub open spec fn text(self) -> Seq<char> {
        match self {
            CbReplyError::Xdr(e) => "CB reply XDR decode error: "@ + e.text(),
            CbReplyError::RpcRejected { reason } => "CB RPC rejected: "@ + reason.text(),
            CbReplyError::Accept { status } => "CB RPC accept_status="@ + rpc::accept_name(status),
            CbReplyError::XidMismatch { expected, actual } => "CB xid mismatch: expected "@
                + text::decimal(expected as nat) + ", got "@ + text::decimal(actual as nat),
        }
    }

    /// A sentence for a log.
    pub fn describe(&self) -> (s: String)
        ensures
            s@ == self.text(),
    {
        match self {
            CbReplyError::Xdr(e) => {
                let mut s = "CB reply XDR decode error: ".to_owned();
                s.append(e.describe());
                s
            },
            CbReplyError::RpcRejected { reason } => {
                let mut s = "CB RPC rejected: ".to_owned();
                reason.append_to(&mut s);
                s
            },
            CbReplyError::Accept { status } => {
                let mut s = "CB RPC accept_status=".to_owned();
                s.append(status.name());
                s
            },
            CbReplyError::XidMismatch { expected, actual } => {
                let mut s = "CB xid mismatch: expected ".to_owned();
                push_decimal(&mut s, *expected as u64);
                s.append(", got ");
                push_decimal(&mut s, *actual as u64);
                s
            },
        }
    }
}

// ---------------------------------------------------------------------------
// Views
// ---------------------------------------------------------------------------

pub enum CbOpView {
    Sequence {
        sessionid: Seq<u8>,
        sequenceid: u32,
        slotid: u32,
        highest_slotid: u32,
        cachethis: bool,
    },
    LayoutRecall { layout_type: u32, iomode: u32, changed: bool, recall: LayoutRecallView },
}

pub enum LayoutRecallView {
    File { fh: Seq<u8>, offset: u64, length: u64, stateid: StateIdView },
    Fsid { fsid_major: u64, fsid_minor: u64 },
    All,
}

pub struct CbCompoundCallView {
    pub tag: Seq<char>,
    pub minorversion: u32,
    pub callback_ident: u32,
    pub ops: Seq<CbOpView>,
}

pub enum CbResultView {
    Sequence {
        status: Nfs4Status,
        sessionid: Seq<u8>,
        sequenceid: u32,
        slotid: u32,
        highest_slotid: u32,
        target_highest_slotid: u32,
    },
    LayoutRecall { status: Nfs4Status },
    Recall { status: Nfs4Status },
    OtherStatus { opcode: u32, status: Nfs4Status },
}

pub struct CbCompoundReplyView {
    pub status: Nfs4Status,
    pub tag: Seq<char>,
    pub results: Seq<CbResultView>,
}

impl View for LayoutRecall {
    type V = LayoutRecallView;

    open spec fn view(&self) -> LayoutRecallView {
        match *self {
            LayoutRecall::File { fh, offset, length, stateid } => LayoutRecallView::File {
                fh: fh@,
                offset,
                length,
                stateid: stateid@,
            },
            LayoutRecall::Fsid { fsid_major, fsid_minor } => LayoutRecallView::Fsid {
                fsid_major,
                fsid_minor,
            },
            LayoutRecall::All => LayoutRecallView::All,
        }
    }
}

impl View for CbOp {
    type V = CbOpView;

    open spec fn view(&self) -> CbOpView {
        match *self {
            CbOp::Sequence { sessionid, sequenceid, slotid, highest_slotid, cachethis } =>
                CbOpView::Sequence {
                sessionid: sessionid@,
                sequenceid,
                slotid,
                highest_slotid,
                cachethis,
            },
            CbOp::LayoutRecall { layout_type, iomode, changed, recall } => CbOpView::LayoutRecall {
                layout_type,
                iomode,
                changed,
                recall: recall@,
            },
        }
    }
}

impl View for CbCompoundCall {
    type V = CbCompoundCallView;

    open spec fn view(&self) -> CbCompoundCallView {
        CbCompoundCallView {
            tag: self.tag@,
            minorversion: self.minorversion,
            callback_ident: self.callback_ident,
            ops: xdr::views(self.ops@),
        }
    }
}

impl View for CbResult {
    type V = CbResultView;

    open spec fn view(&self) -> CbResultView {
        match *self {
            CbResult::Sequence {
                status,
                sessionid,
                sequenceid,
                slotid,
                highest_slotid,
                target_highest_slotid,
            } => CbResultView::Sequence {
                status,
                sessionid: sessionid@,
                sequenceid,
                slotid,
                highest_slotid,
                target_highest_slotid,
            },
            CbResult::LayoutRecall { status } => CbResultView::LayoutRecall { status },
            CbResult::Recall { status } => CbResultView::Recall { status },
            CbResult::OtherStatus { opcode, status } => CbResultView::OtherStatus {
                opcode,
                status,
            },
        }
    }
}

impl View for CbCompoundReply {
    type V = CbCompoundReplyView;

    open spec fn view(&self) -> CbCompoundReplyView {
        CbCompoundReplyView {
            status: self.status,
            tag: self.tag@,
            results: xdr::views(self.results@),
        }
    }
}

impl Clone for CbCompoundReply {
    fn clone(&self) -> (r: CbCompoundReply)
        ensures
            r@ == self@,
    {
        let results = self.results.clone();
        assert(results@ =~= self.results@);
        CbCompoundReply { status: self.status, tag: self.tag.clone(), results }
    }
}

// ---------------------------------------------------------------------------
// Calls
// ---------------------------------------------------------------------------

pub open spec fn wire_layout_recall(r: LayoutRecallView) -> Seq<u8> {
    match r {
        LayoutRecallView::File { fh, offset, length, stateid } => octets::be32(LAYOUTRECALL_FILE)
            + xdr::wire_opaque(fh) + octets::be64(offset) + octets::be64(length)
            + xdr::wire_stateid(stateid),
        LayoutRecallView::Fsid { fsid_major, fsid_minor } => octets::be32(LAYOUTRECALL_FSID)
            + octets::be64(fsid_major) + octets::be64(fsid_minor),
        LayoutRecallView::All => octets::be32(LAYOUTRECALL_ALL),
    }
}

pub open spec fn wire_cb_op(op: CbOpView) -> Seq<u8> {
    match op {
        CbOpView::Sequence { sessionid, sequenceid, slotid, highest_slotid, cachethis } =>
            octets::be32(CB_SEQUENCE) + xdr::wire_fixed(sessionid) + octets::be32(sequenceid)
            + octets::be32(slotid) + octets::be32(highest_slotid) + xdr::wire_bool(cachethis)
            + octets::be32(0),
        CbOpView::LayoutRecall { layout_type, iomode, changed, recall } => octets::be32(
            CB_LAYOUTRECALL,
        ) + octets::be32(layout_type) + octets::be32(iomode) + xdr::wire_bool(changed)
            + wire_layout_recall(recall),
    }
}

pub open spec fn wire_cb_ops(ops: Seq<CbOpView>) -> Seq<u8>
    decreases ops.len(),
{
    if ops.len() == 0 {
        Seq::empty()
    } else {
        wire_cb_ops(ops.drop_last()) + wire_cb_op(ops.last())
    }
}

/// `CB_COMPOUND4args`.
pub open spec fn wire_cb_args(call: CbCompoundCallView) -> Seq<u8> {
    xdr::wire_string(call.tag) + octets::be32(call.minorversion) + octets::be32(
        call.callback_ident,
    ) + octets::be32(call.ops.len() as u32) + wire_cb_ops(call.ops)
}

/// Everything of the call ahead of its arguments.
pub open spec fn wire_cb_header(xid: u32, cb_program: u32) -> Seq<u8> {
    octets::be32(xid) + octets::be32(MessageType::Call.spec_code()) + octets::be32(RPC_VERSION)
        + octets::be32(cb_program) + octets::be32(CB_VERSION) + octets::be32(CB_COMPOUND)
        + octets::be32(AuthFlavor::Null.spec_code()) + xdr::wire_opaque(Seq::empty())
        + octets::be32(AuthFlavor::Null.spec_code()) + xdr::wire_opaque(Seq::empty())
}

fn encode_layout_recall(e: &mut XdrEncoder, recall: &LayoutRecall)
    ensures
        final(e)@ == old(e)@ + wire_layout_recall(recall@),
{
    broadcast use xdr::lemma_concat_assoc;

    match recall {
        LayoutRecall::File { fh, offset, length, stateid } => {
            e.encode_u32(LAYOUTRECALL_FILE);
            e.encode_opaque(fh.as_slice());
            e.encode_u64(*offset);
            e.encode_u64(*length);
            e.encode_stateid(stateid);
        },
        LayoutRecall::Fsid { fsid_major, fsid_minor } => {
            e.encode_u32(LAYOUTRECALL_FSID);
            e.encode_u64(*fsid_major);
            e.encode_u64(*fsid_minor);
        },
        LayoutRecall::All => {
            e.encode_u32(LAYOUTRECALL_ALL);
        },
    }
}

/// Append one operation.
pub fn encode_cb_op(e: &mut XdrEncoder, op: &CbOp)
    ensures
        final(e)@ == old(e)@ + wire_cb_op(op@),
{
    broadcast use xdr::lemma_concat_assoc;

    match op {
        CbOp::Sequence { sessionid, sequenceid, slotid, highest_slotid, cachethis } => {
            e.encode_u32(CB_SEQUENCE);
            e.encode_sessionid(sessionid);
            e.encode_u32(*sequenceid);
            e.encode_u32(*slotid);
            e.encode_u32(*highest_slotid);
            e.encode_bool(*cachethis);
            e.encode_u32(0);
        },
        CbOp::LayoutRecall { layout_type, iomode, changed, recall } => {
            e.encode_u32(CB_LAYOUTRECALL);
            e.encode_u32(*layout_type);
            e.encode_u32(*iomode);
            e.encode_bool(*changed);
            encode_layout_recall(e, recall);
        },
    }
}

impl CbCompoundCall {
    /// The arguments alone; [`encode_cb_call`] gives the whole RPC message.
    pub fn encode(&self) -> (b: Bytes)
        ensures
            octets::bytes_of(b) == wire_cb_args(self@),
    {
        broadcast use xdr::lemma_concat_assoc;

        let mut e = XdrEncoder::new();
        e.encode_string(self.tag.as_str());
        e.encode_u32(self.minorversion);
        e.encode_u32(self.callback_ident);
        e.encode_u32(self.ops.len() as u32);
        let ghost head = e@;
        let ghost ops = xdr::views(self.ops@);
        assert(ops.take(0) =~= Seq::empty());
        assert(head + Seq::<u8>::empty() =~= head);
        let mut i: usize = 0;
        while i < self.ops.len()
            invariant
                i <= self.ops@.len(),
                ops == xdr::views(self.ops@),
                e@ == head + wire_cb_ops(ops.take(i as int)),
            decreases self.ops@.len() - i,
        {
            encode_cb_op(&mut e, &self.ops[i]);
            assert(ops.take(i + 1).drop_last() =~= ops.take(i as int));
            i = i + 1;
        }
        assert(ops.take(i as int) =~= ops);
        assert(Seq::<u8>::empty() + xdr::wire_string(self.tag@) =~= xdr::wire_string(self.tag@));
        e.finish()
    }
}

/// The whole RPC message of a CB_COMPOUND. `xid` pairs the reply with it, and
/// `cb_program` is what the client named when it created the session.
pub fn encode_cb_call(xid: u32, cb_program: u32, args: &CbCompoundCall) -> (b: Bytes)
    ensures
        octets::bytes_of(b) == wire_cb_header(xid, cb_program) + wire_cb_args(args@),
{
    let mut e = XdrEncoder::new();
    e.encode_u32(xid);
    assert(e@ =~= octets::be32(xid));
    e.encode_u32(MessageType::Call.code());
    e.encode_u32(RPC_VERSION);
    e.encode_u32(cb_program);
    e.encode_u32(CB_VERSION);
    e.encode_u32(CB_COMPOUND);
    let none: [u8; 0] = [];
    assert(none@ =~= Seq::empty());
    e.encode_u32(AuthFlavor::Null.code());
    e.encode_opaque(&none);
    e.encode_u32(AuthFlavor::Null.code());
    e.encode_opaque(&none);
    let body = args.encode();
    e.append_raw(bytes_as_slice(&body));
    e.finish()
}

// ---------------------------------------------------------------------------
// Replies
// ---------------------------------------------------------------------------

pub open spec fn result_status(r: CbResultView) -> Nfs4Status {
    match r {
        CbResultView::Sequence { status, .. } => status,
        CbResultView::LayoutRecall { status } => status,
        CbResultView::Recall { status } => status,
        CbResultView::OtherStatus { status, .. } => status,
    }
}

impl CbResult {
    /// The status of this one operation.
    pub fn status(&self) -> (s: Nfs4Status)
        ensures
            s == result_status(self@),
    {
        match self {
            CbResult::Sequence { status, .. } => *status,
            CbResult::LayoutRecall { status } => *status,
            CbResult::Recall { status } => *status,
            CbResult::OtherStatus { status, .. } => *status,
        }
    }
}

/// What follows opcode and status of one result.
pub open spec fn parse_cb_result_body(opcode: u32, status: Nfs4Status, s: Seq<u8>) -> Parsed<
    CbResultView,
> {
    if opcode == CB_SEQUENCE {
        if status == Nfs4Status::NfsOk {
            xdr::bind(
                xdr::parse_fixed(s, 16),
                |sessionid: Seq<u8>, s: Seq<u8>|
                    xdr::bind(
                        xdr::parse_u32(s),
                        |sequenceid: u32, s: Seq<u8>|
                            xdr::bind(
                                xdr::parse_u32(s),
                                |slotid: u32, s: Seq<u8>|
                                    xdr::bind(
                                        xdr::parse_u32(s),
                                        |highest_slotid: u32, s: Seq<u8>|
                                            xdr::bind(
                                                xdr::parse_u32(s),
                                                |target_highest_slotid: u32, s: Seq<u8>|
                                                    (
                                                        Ok(
                                                            CbResultView::Sequence {
                                                                status,
                                                                sessionid,
                                                                sequenceid,
                                                                slotid,
                                                                highest_slotid,
                                                                target_highest_slotid,
                                                            },
                                                        ),
                                                        s,
                                                    ),
                                            ),
                                    ),
                            ),
                    ),
            )
        } else {
            (
                Ok(
                    CbResultView::Sequence {
                        status,
                        sessionid: xdr::zeros(16),
                        sequenceid: 0,
                        slotid: 0,
                        highest_slotid: 0,
                        target_highest_slotid: 0,
                    },
                ),
                s,
            )
        }
    } else if opcode == CB_LAYOUTRECALL {
        (Ok(CbResultView::LayoutRecall { status }), s)
    } else if opcode == CB_RECALL {
        (Ok(CbResultView::Recall { status }), s)
    } else {
        (Ok(CbResultView::OtherStatus { opcode, status }), s)
    }
}

pub open spec fn parse_cb_result(s: Seq<u8>) -> Parsed<CbResultView> {
    xdr::bind(
        xdr::parse_u32(s),
        |opcode: u32, s: Seq<u8>|
            xdr::bind(
                xdr::parse_status(s),
                |status: Nfs4Status, s: Seq<u8>| parse_cb_result_body(opcode, status, s),
            ),
    )
}

pub open spec fn parse_cb_results(s: Seq<u8>, n: nat) -> Parsed<Seq<CbResultView>>
    decreases n,
{
    if n == 0 {
        (Ok(Seq::empty()), s)
    } else {
        match parse_cb_result(s) {
            (Ok(v), t) => xdr::prepend(seq![v], parse_cb_results(t, (n - 1) as nat)),
            (Err(e), t) => (Err(e), t),
        }
    }
}

/// The characters of a tag; a tag that is not UTF-8 counts as empty.
pub open spec fn tag_text(tag: Seq<u8>) -> Seq<char> {
    if valid_utf8(tag) {
        decode_utf8(tag)
    } else {
        Seq::empty()
    }
}

/// `CB_COMPOUND4res`.
pub open spec fn parse_cb_res(s: Seq<u8>) -> Parsed<CbCompoundReplyView> {
    xdr::bind(
        xdr::parse_status(s),
        |status: Nfs4Status, s: Seq<u8>|
            xdr::bind(
                xdr::parse_opaque(s),
                |tag: Seq<u8>, s: Seq<u8>|
                    xdr::bind(
                        xdr::parse_u32(s),
                        |n: u32, s: Seq<u8>|
                            xdr::bind(
                                parse_cb_results(s, n as nat),
                                |results: Seq<CbResultView>, s: Seq<u8>|
                                    (
                                        Ok(
                                            CbCompoundReplyView {
                                                status,
                                                tag: tag_text(tag),
                                                results,
                                            },
                                        ),
                                        s,
                                    ),
                            ),
                    ),
            ),
    )
}

/// Go on with what a reader gave, or end with its error.
pub open spec fn after<A, B>(
    p: Parsed<A>,
    f: spec_fn(A, Seq<u8>) -> Result<B, CbReplyError>,
) -> Result<B, CbReplyError> {
    match p.0 {
        Ok(v) => f(v, p.1),
        Err(e) => Err(CbReplyError::Xdr(e)),
    }
}

/// What follows the `accept_stat`.
pub open spec fn parse_accepted(status: u32, s: Seq<u8>) -> Result<
    CbCompoundReplyView,
    CbReplyError,
> {
    match rpc::accept_named(status) {
        None => Err(
            CbReplyError::RpcRejected {
                reason: RpcRejection::UnknownAcceptStatus { accept_status: status },
            },
        ),
        Some(a) => if a == AcceptStatus::Success {
            after(parse_cb_res(s), |r: CbCompoundReplyView, s: Seq<u8>| Ok(r))
        } else {
            Err(CbReplyError::Accept { status: a })
        },
    }
}

/// The reply to the call `expected_xid`. Octets behind it are ignored.
pub open spec fn parse_cb_reply(s: Seq<u8>, expected_xid: u32) -> Result<
    CbCompoundReplyView,
    CbReplyError,
> {
    after(
        xdr::parse_u32(s),
        |xid: u32, s: Seq<u8>|
            if xid != expected_xid {
                Err(CbReplyError::XidMismatch { expected: expected_xid, actual: xid })
            } else {
                after(
                    xdr::parse_u32(s),
                    |msg_type: u32, s: Seq<u8>|
                        if msg_type != MessageType::Reply.spec_code() {
                            Err(
                                CbReplyError::RpcRejected {
                                    reason: RpcRejection::NotAReply { msg_type },
                                },
                            )
                        } else {
                            after(
                                xdr::parse_u32(s),
                                |reply_status: u32, s: Seq<u8>|
                                    if reply_status != ReplyStatus::Accepted.spec_code() {
                                        Err(
                                            CbReplyError::RpcRejected {
                                                reason: RpcRejection::Denied { reply_status },
                                            },
                                        )
                                    } else {
                                        after(
                                            xdr::parse_u32(s),
                                            |flavor: u32, s: Seq<u8>|
                                                after(
                                                    xdr::parse_opaque(s),
                                                    |verf: Seq<u8>, s: Seq<u8>|
                                                        after(
                                                            xdr::parse_u32(s),
                                                            |status: u32, s: Seq<u8>|
                                                                parse_accepted(status, s),
                                                        ),
                                                ),
                                        )
                                    },
                            )
                        },
                )
            },
    )
}

fn decode_cb_result(d: &mut XdrDecoder) -> (r: Result<CbResult, XdrError>)
    ensures
        (xdr::viewed(r), final(d)@) == parse_cb_result(old(d)@),
{
    let opcode: u32 = d.decode_u32()?;
    let status = d.decode_status()?;
    if opcode == CB_SEQUENCE {
        if status == Nfs4Status::NfsOk {
            let sessionid = d.decode_sessionid()?;
            let sequenceid: u32 = d.decode_u32()?;
            let slotid: u32 = d.decode_u32()?;
            let highest_slotid: u32 = d.decode_u32()?;
            let target_highest_slotid: u32 = d.decode_u32()?;
            Ok(
                CbResult::Sequence {
                    status,
                    sessionid,
                    sequenceid,
                    slotid,
                    highest_slotid,
                    target_highest_slotid,
                },
            )
        } else {
            let sessionid = SessionId([0u8; 16]);
            assert(sessionid@ =~= xdr::zeros(16));
            Ok(
                CbResult::Sequence {
                    status,
                    sessionid,
                    sequenceid: 0,
                    slotid: 0,
                    highest_slotid: 0,
                    target_highest_slotid: 0,
                },
            )
        }
    } else if opcode == CB_LAYOUTRECALL {
        Ok(CbResult::LayoutRecall { status })
    } else if opcode == CB_RECALL {
        Ok(CbResult::Recall { status })
    } else {
        Ok(CbResult::OtherStatus { opcode, status })
    }
}

fn decode_cb_results(d: &mut XdrDecoder, n: u32) -> (r: Result<Vec<CbResult>, XdrError>)
    ensures
        match r {
            Ok(v) => (Ok::<Seq<CbResultView>, XdrError>(xdr::views(v@)), final(d)@) == parse_cb_results(old(d)@, n as nat),
            Err(e) => (Err::<Seq<CbResultView>, XdrError>(e), final(d)@) == parse_cb_results(old(d)@, n as nat),
        },
{
    let ghost s = d@;
    let mut out: Vec<CbResult> = Vec::new();
    let mut i: u32 = 0;
    assert(xdr::prepend(xdr::views(out@), parse_cb_results(s, n as nat)) == parse_cb_results(
        s,
        n as nat,
    )) by {
        assert(xdr::views(out@) =~= Seq::<CbResultView>::empty());
        let p = parse_cb_results(s, n as nat);
        if let Ok(v) = p.0 {
            assert(Seq::<CbResultView>::empty() + v =~= v);
        }
    }
    while i < n
        invariant
            i <= n,
            s == old(d)@,
            parse_cb_results(s, n as nat) == xdr::prepend(
                xdr::views(out@),
                parse_cb_results(d@, (n - i) as nat),
            ),
        decreases n - i,
    {
        let ghost before = d@;
        let v = decode_cb_result(d)?;
        let ghost pre = xdr::views(out@);
        out.push(v);
        proof {
            assert(xdr::views(out@) =~= pre + seq![v@]);
            let tail = parse_cb_results(d@, (n - i - 1) as nat);
            if let Ok(t) = tail.0 {
                assert(pre + (seq![v@] + t) =~= xdr::views(out@) + t);
            }
        }
        i = i + 1;
    }
    assert(xdr::views(out@) + Seq::<CbResultView>::empty() =~= xdr::views(out@));
    Ok(out)
}

fn decode_cb_res(d: &mut XdrDecoder) -> (r: Result<CbCompoundReply, XdrError>)
    ensures
        (xdr::viewed(r), final(d)@) == parse_cb_res(old(d)@),
{
    let status = d.decode_status()?;
    let tag_octets = d.decode_opaque()?;
    let tag = match str_from_utf8(bytes_as_slice(&tag_octets)) {
        Ok(s) => s.to_owned(),
        Err(_) => String::new(),
    };
    assert(tag@ =~= tag_text(octets::bytes_of(tag_octets)));
    let n: u32 = d.decode_u32()?;
    let results = decode_cb_results(d, n)?;
    Ok(CbCompoundReply { status, tag, results })
}

/// Read the whole RPC reply to the call `expected_xid`.
pub fn decode_cb_reply(bytes: Bytes, expected_xid: u32) -> (r: Result<
    CbCompoundReply,
    CbReplyError,
>)
    ensures
        match r {
            Ok(v) => parse_cb_reply(octets::bytes_of(bytes), expected_xid) == Ok::<
                CbCompoundReplyView,
                CbReplyError,
            >(v@),
            Err(e) => parse_cb_reply(octets::bytes_of(bytes), expected_xid) == Err::<
                CbCompoundReplyView,
                CbReplyError,
            >(e),
        },
{
    let mut d = XdrDecoder::new(bytes);
    let xid: u32 = match d.decode_u32() {
        Ok(v) => v,
        Err(e) => return Err(CbReplyError::Xdr(e)),
    };
    if xid != expected_xid {
        return Err(CbReplyError::XidMismatch { expected: expected_xid, actual: xid });
    }
    let msg_type: u32 = match d.decode_u32() {
        Ok(v) => v,
        Err(e) => return Err(CbReplyError::Xdr(e)),
    };
    if msg_type != MessageType::Reply.code() {
        return Err(CbReplyError::RpcRejected { reason: RpcRejection::NotAReply { msg_type } });
    }
    let reply_status: u32 = match d.decode_u32() {
        Ok(v) => v,
        Err(e) => return Err(CbReplyError::Xdr(e)),
    };
    if reply_status != ReplyStatus::Accepted.code() {
        return Err(CbReplyError::RpcRejected { reason: RpcRejection::Denied { reply_status } });
    }
    let _flavor: u32 = match d.decode_u32() {
        Ok(v) => v,
        Err(e) => return Err(CbReplyError::Xdr(e)),
    };
    let _verf = match d.decode_opaque() {
        Ok(v) => v,
        Err(e) => return Err(CbReplyError::Xdr(e)),
    };
    let status: u32 = match d.decode_u32() {
        Ok(v) => v,
        Err(e) => return Err(CbReplyError::Xdr(e)),
    };
    match accept_status(status) {
        None => Err(
            CbReplyError::RpcRejected {
                reason: RpcRejection::UnknownAcceptStatus { accept_status: status },
            },
        ),
        Some(AcceptStatus::Success) => match decode_cb_res(&mut d) {
            Ok(v) => Ok(v),
            Err(e) => Err(CbReplyError::Xdr(e)),
        },
        Some(a) => Err(CbReplyError::Accept { status: a }),
    }
}

} // verus!
