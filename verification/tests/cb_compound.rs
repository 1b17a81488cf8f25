use bytes::Bytes;
use flint_nfs::cb_compound::{
    decode_cb_reply, encode_cb_call, CbCompoundCall, CbOp, CbReplyError, CbResult, LayoutRecall,
    RpcRejection, CB_COMPOUND, CB_LAYOUTRECALL, CB_RECALL, CB_SEQUENCE, CB_VERSION,
    LAYOUTRECALL_ALL, LAYOUTRECALL_FILE, LAYOUTRECALL_FSID,
};
use flint_nfs::protocol::{Nfs4Status, SessionId, StateId};
use flint_nfs::rpc::{AcceptStatus, AuthFlavor, MessageType, ReplyStatus};
use flint_nfs::xdr::{XdrDecoder, XdrEncoder, XdrError};

fn sample_session_id() -> SessionId {
    SessionId([
        0xaa, 0xbb, 0xcc, 0xdd, 0xee, 0xff, 0x01, 0x02, 0x03, 0x04, 0x05, 0x06, 0x07, 0x08, 0x09,
        0x0a,
    ])
}

fn sample_layout_stateid() -> StateId {
    StateId {
        seqid: 7,
        other: [0x11, 0x22, 0x33, 0x44, 0x55, 0x66, 0x77, 0x88, 0x99, 0xaa, 0xbb, 0xcc],
    }
}

fn sequence_op() -> CbOp {
    CbOp::Sequence {
        sessionid: sample_session_id(),
        sequenceid: 1,
        slotid: 0,
        highest_slotid: 0,
        cachethis: false,
    }
}

fn sample_recall_call() -> CbCompoundCall {
    CbCompoundCall {
        tag: String::new(),
        minorversion: 1,
        callback_ident: 0,
        ops: vec![
            sequence_op(),
            CbOp::LayoutRecall {
                layout_type: 1, // LAYOUT4_NFSV4_1_FILES
                iomode: 3,      // LAYOUTIOMODE4_ANY
                changed: true,
                recall: LayoutRecall::File {
                    fh: vec![0xde, 0xad, 0xbe, 0xef],
                    offset: 0,
                    length: u64::MAX,
                    stateid: sample_layout_stateid(),
                },
            },
        ],
    }
}

#[test]
fn cb_compound_args_round_trip() {
    let call = sample_recall_call();
    let bytes = call.encode();

    let mut dec = XdrDecoder::new(bytes);
    let tag = dec.decode_string().unwrap();
    let minorversion = dec.decode_u32().unwrap();
    let callback_ident = dec.decode_u32().unwrap();
    let ops_len = dec.decode_u32().unwrap();
    assert_eq!(tag, "");
    assert_eq!(minorversion, 1);
    assert_eq!(callback_ident, 0);
    assert_eq!(ops_len, 2);

    // Op 1: CB_SEQUENCE.
    assert_eq!(dec.decode_u32().unwrap(), CB_SEQUENCE);
    assert_eq!(dec.decode_sessionid().unwrap(), sample_session_id());
    assert_eq!(dec.decode_u32().unwrap(), 1); // sequenceid
    assert_eq!(dec.decode_u32().unwrap(), 0); // slotid
    assert_eq!(dec.decode_u32().unwrap(), 0); // highest_slotid
    assert!(!dec.decode_bool().unwrap()); // cachethis
    assert_eq!(dec.decode_u32().unwrap(), 0); // referring_call_lists<>

    // Op 2: CB_LAYOUTRECALL with FILE body.
    assert_eq!(dec.decode_u32().unwrap(), CB_LAYOUTRECALL);
    assert_eq!(dec.decode_u32().unwrap(), 1); // layout_type
    assert_eq!(dec.decode_u32().unwrap(), 3); // iomode
    assert!(dec.decode_bool().unwrap()); // changed
    assert_eq!(dec.decode_u32().unwrap(), LAYOUTRECALL_FILE);
    assert_eq!(dec.decode_opaque().unwrap().as_ref(), &[0xde, 0xad, 0xbe, 0xef][..]);
    assert_eq!(dec.decode_u64().unwrap(), 0);
    assert_eq!(dec.decode_u64().unwrap(), u64::MAX);
    assert_eq!(dec.decode_stateid().unwrap(), sample_layout_stateid());
    assert_eq!(dec.remaining(), 0, "no trailing bytes after CB_COMPOUND args");
}

#[test]
fn encode_cb_call_writes_well_formed_rpc_call() {
    let xid = 0xfeed_face;
    let cb_program = 0x40000000;
    let bytes = encode_cb_call(xid, cb_program, &sample_recall_call());

    let mut dec = XdrDecoder::new(bytes);
    assert_eq!(dec.decode_u32().unwrap(), xid);
    assert_eq!(dec.decode_u32().unwrap(), MessageType::Call.code());
    assert_eq!(dec.decode_u32().unwrap(), 2); // RPC version
    assert_eq!(dec.decode_u32().unwrap(), cb_program);
    assert_eq!(dec.decode_u32().unwrap(), CB_VERSION);
    assert_eq!(dec.decode_u32().unwrap(), CB_COMPOUND);
    // cred (AUTH_NONE, empty body)
    assert_eq!(dec.decode_u32().unwrap(), AuthFlavor::Null.code());
    assert_eq!(dec.decode_opaque().unwrap().len(), 0);
    // verf (AUTH_NONE, empty body)
    assert_eq!(dec.decode_u32().unwrap(), AuthFlavor::Null.code());
    assert_eq!(dec.decode_opaque().unwrap().len(), 0);
    // The first word of the arguments is the length of the empty tag.
    let tag_len = dec.decode_u32().unwrap();
    assert_eq!(tag_len, 0);
}

#[test]
fn decode_cb_reply_success() {
    let xid = 0x1234_5678;
    let bytes = build_synthetic_reply(
        xid,
        ReplyStatus::Accepted.code(),
        AcceptStatus::Success.code(),
        Nfs4Status::NfsOk,
        &[
            CbResult::Sequence {
                status: Nfs4Status::NfsOk,
                sessionid: sample_session_id(),
                sequenceid: 1,
                slotid: 0,
                highest_slotid: 0,
                target_highest_slotid: 127,
            },
            CbResult::LayoutRecall { status: Nfs4Status::NfsOk },
        ],
    );

    let reply = decode_cb_reply(bytes, xid).expect("reply decodes");
    assert_eq!(reply.status, Nfs4Status::NfsOk);
    assert_eq!(reply.tag, "");
    assert_eq!(reply.results.len(), 2);
    match &reply.results[0] {
        CbResult::Sequence { status, sequenceid, target_highest_slotid, .. } => {
            assert_eq!(*status, Nfs4Status::NfsOk);
            assert_eq!(*sequenceid, 1);
            assert_eq!(*target_highest_slotid, 127);
        }
        other => panic!("expected Sequence, got {:?}", other),
    }
    assert_eq!(reply.results[1].status(), Nfs4Status::NfsOk);
}

#[test]
fn decode_cb_reply_layoutrecall_no_matching_layout() {
    let xid = 0xaaaa_bbbb;
    let bytes = build_synthetic_reply(
        xid,
        ReplyStatus::Accepted.code(),
        AcceptStatus::Success.code(),
        Nfs4Status::NoMatchingLayout, // top-level status mirrors last op
        &[
            CbResult::Sequence {
                status: Nfs4Status::NfsOk,
                sessionid: sample_session_id(),
                sequenceid: 5,
                slotid: 0,
                highest_slotid: 0,
                target_highest_slotid: 127,
            },
            CbResult::LayoutRecall { status: Nfs4Status::NoMatchingLayout },
        ],
    );

    let reply = decode_cb_reply(bytes, xid).expect("reply decodes");
    assert_eq!(reply.status, Nfs4Status::NoMatchingLayout);
    assert_eq!(reply.results[1].status(), Nfs4Status::NoMatchingLayout);
}

#[test]
fn decode_cb_reply_rejects_xid_mismatch() {
    let bytes = build_synthetic_reply(
        42,
        ReplyStatus::Accepted.code(),
        AcceptStatus::Success.code(),
        Nfs4Status::NfsOk,
        &[],
    );
    let err = decode_cb_reply(bytes, 99).unwrap_err();
    assert!(matches!(err, CbReplyError::XidMismatch { expected: 99, actual: 42 }));
}

#[test]
fn decode_cb_reply_prog_unavail_surfaces_accept_error() {
    let bytes = build_synthetic_reply(
        7,
        ReplyStatus::Accepted.code(),
        AcceptStatus::ProgUnavail.code(),
        Nfs4Status::NfsOk, // ignored: the body is absent
        &[],
    );
    let err = decode_cb_reply(bytes, 7).unwrap_err();
    match err {
        CbReplyError::Accept { status } => {
            assert!(matches!(status, AcceptStatus::ProgUnavail));
        }
        other => panic!("expected Accept, got {:?}", other),
    }
}

/// A reply frame as a client lays it out.
fn build_synthetic_reply(
    xid: u32,
    reply_status: u32,
    accept_status: u32,
    cb_status: Nfs4Status,
    results: &[CbResult],
) -> Bytes {
    let mut enc = XdrEncoder::new();
    enc.encode_u32(xid);
    enc.encode_u32(MessageType::Reply.code());
    enc.encode_u32(reply_status);
    // Verifier: AUTH_NONE.
    enc.encode_u32(AuthFlavor::Null.code());
    enc.encode_opaque(&[]);
    enc.encode_u32(accept_status);
    if accept_status != AcceptStatus::Success.code() {
        return enc.finish();
    }
    enc.encode_u32(cb_status.to_u32());
    enc.encode_string(""); // tag
    enc.encode_u32(results.len() as u32);
    for r in results {
        match r {
            CbResult::Sequence {
                status,
                sessionid,
                sequenceid,
                slotid,
                highest_slotid,
                target_highest_slotid,
            } => {
                enc.encode_u32(CB_SEQUENCE);
                enc.encode_u32(status.to_u32());
                if *status == Nfs4Status::NfsOk {
                    enc.encode_sessionid(sessionid);
                    enc.encode_u32(*sequenceid);
                    enc.encode_u32(*slotid);
                    enc.encode_u32(*highest_slotid);
                    enc.encode_u32(*target_highest_slotid);
                }
            }
            CbResult::LayoutRecall { status } => {
                enc.encode_u32(CB_LAYOUTRECALL);
                enc.encode_u32(status.to_u32());
            }
            CbResult::Recall { status } => {
                enc.encode_u32(CB_RECALL);
                enc.encode_u32(status.to_u32());
            }
            CbResult::OtherStatus { opcode, status } => {
                enc.encode_u32(*opcode);
                enc.encode_u32(status.to_u32());
            }
        }
    }
    enc.finish()
}

#[test]
fn every_kind_of_result_is_read_back() {
    let results = [
        CbResult::Sequence {
            status: Nfs4Status::NfsOk,
            sessionid: sample_session_id(),
            sequenceid: 9,
            slotid: 1,
            highest_slotid: 2,
            target_highest_slotid: 3,
        },
        CbResult::Recall { status: Nfs4Status::NfsOk },
        CbResult::OtherStatus { opcode: 8, status: Nfs4Status::NotSupp },
    ];
    let reply =
        decode_cb_reply(build_synthetic_reply(3, 0, 0, Nfs4Status::NotSupp, &results), 3).unwrap();
    assert_eq!(reply.results, results);
    assert_eq!(reply.results[2].status(), Nfs4Status::NotSupp);
}

#[test]
fn a_failed_sequence_has_no_body() {
    let failed = CbResult::Sequence {
        status: Nfs4Status::BadSession,
        sessionid: SessionId([0; 16]),
        sequenceid: 0,
        slotid: 0,
        highest_slotid: 0,
        target_highest_slotid: 0,
    };
    let reply =
        decode_cb_reply(build_synthetic_reply(3, 0, 0, Nfs4Status::BadSession, &[failed]), 3)
            .unwrap();
    assert_eq!(reply.results, vec![failed]);
}

#[test]
fn what_is_no_accepted_reply_is_refused() {
    let mut call = XdrEncoder::new();
    call.encode_u32(5);
    call.encode_u32(0); // CALL
    let err = decode_cb_reply(call.finish(), 5).unwrap_err();
    assert_eq!(
        err,
        CbReplyError::RpcRejected { reason: RpcRejection::NotAReply { msg_type: 0 } }
    );

    let err = decode_cb_reply(build_synthetic_reply(5, 1, 0, Nfs4Status::NfsOk, &[]), 5).unwrap_err();
    assert_eq!(
        err,
        CbReplyError::RpcRejected { reason: RpcRejection::Denied { reply_status: 1 } }
    );

    let err =
        decode_cb_reply(build_synthetic_reply(5, 0, 77, Nfs4Status::NfsOk, &[]), 5).unwrap_err();
    assert_eq!(
        err,
        CbReplyError::RpcRejected {
            reason: RpcRejection::UnknownAcceptStatus { accept_status: 77 }
        }
    );
}

#[test]
fn a_short_frame_is_a_decode_error() {
    let err = decode_cb_reply(Bytes::from_static(&[0, 0, 0]), 5).unwrap_err();
    assert!(matches!(err, CbReplyError::Xdr(_)));
    // An unknown status word is one too.
    let mut enc = XdrEncoder::new();
    enc.encode_u32(5);
    enc.encode_u32(1);
    enc.encode_u32(0);
    enc.encode_u32(0);
    enc.encode_opaque(&[]);
    enc.encode_u32(0);
    enc.encode_u32(123_456);
    assert!(matches!(decode_cb_reply(enc.finish(), 5), Err(CbReplyError::Xdr(_))));
}

#[test]
fn errors_have_words() {
    let e = CbReplyError::XidMismatch { expected: 99, actual: 42 };
    assert!(e.describe().contains("99") && e.describe().contains("42"));
    let e = CbReplyError::Accept { status: AcceptStatus::ProgUnavail };
    assert!(e.describe().contains("ProgUnavail"));
    let e = CbReplyError::Xdr(XdrError::Truncated);
    assert!(e.describe().starts_with("CB reply XDR decode error: "));
}

#[test]
fn the_other_recalls_have_their_own_bodies() {
    let call = CbCompoundCall {
        tag: "t".to_string(),
        minorversion: 1,
        callback_ident: 4,
        ops: vec![
            CbOp::LayoutRecall {
                layout_type: 5,
                iomode: 1,
                changed: false,
                recall: LayoutRecall::Fsid { fsid_major: 1, fsid_minor: 2 },
            },
            CbOp::LayoutRecall {
                layout_type: 1,
                iomode: 2,
                changed: false,
                recall: LayoutRecall::All,
            },
        ],
    };
    let mut dec = XdrDecoder::new(call.encode());
    assert_eq!(dec.decode_string().unwrap(), "t");
    assert_eq!(dec.decode_u32().unwrap(), 1);
    assert_eq!(dec.decode_u32().unwrap(), 4);
    assert_eq!(dec.decode_u32().unwrap(), 2);
    assert_eq!(dec.decode_u32().unwrap(), CB_LAYOUTRECALL);
    assert_eq!(dec.decode_u32().unwrap(), 5);
    assert_eq!(dec.decode_u32().unwrap(), 1);
    assert!(!dec.decode_bool().unwrap());
    assert_eq!(dec.decode_u32().unwrap(), LAYOUTRECALL_FSID);
    assert_eq!(dec.decode_u64().unwrap(), 1);
    assert_eq!(dec.decode_u64().unwrap(), 2);
    assert_eq!(dec.decode_u32().unwrap(), CB_LAYOUTRECALL);
    assert_eq!(dec.decode_u32().unwrap(), 1);
    assert_eq!(dec.decode_u32().unwrap(), 2);
    assert!(!dec.decode_bool().unwrap());
    assert_eq!(dec.decode_u32().unwrap(), LAYOUTRECALL_ALL);
    assert_eq!(dec.remaining(), 0);
}
