use flint_nfs::compound::{
    pick_cb_cred, CallbackSecParms, ChangeInfo, CompoundRequest, CompoundResponse, Delegation,
    OpenClaim, OpenResult, Operation, OperationResult, WhyNoDelegation,
};
use flint_nfs::protocol::{opcode, Nfs4Status, StateId};
use flint_nfs::xdr::{XdrDecoder, XdrEncoder};

fn req(build_ops: impl FnOnce(&mut XdrEncoder), op_count: u32) -> CompoundRequest {
    let mut e = XdrEncoder::new();
    e.encode_opaque(b"t"); // tag
    e.encode_u32(1); // minorversion
    e.encode_u32(op_count); // op count
    build_ops(&mut e);
    CompoundRequest::decode(XdrDecoder::new(e.finish())).expect("compound must decode")
}

fn sid() -> StateId {
    StateId { seqid: 7, other: [0xab; 12] }
}

#[test]
fn delegpurge_decodes_and_the_op_behind_it_survives() {
    let r = req(
        |e| {
            e.encode_u32(opcode::DELEGPURGE);
            e.encode_u64(0xdead_beef); // clientid4
            e.encode_u32(opcode::GETFH); // no args
        },
        2,
    );
    assert_eq!(r.operations.len(), 2, "DELEGPURGE truncated the compound");
    assert!(
        matches!(r.operations[0], Operation::DelegPurge { clientid: 0xdead_beef }),
        "got {:?}",
        r.operations[0]
    );
    assert!(matches!(r.operations[1], Operation::GetFh));
}

#[test]
fn backchannel_ctl_decodes_and_the_op_behind_it_survives() {
    let r = req(
        |e| {
            e.encode_u32(opcode::BACKCHANNEL_CTL);
            e.encode_u32(0x4000_0001); // bca_cb_program
            e.encode_u32(1); // bca_sec_parms<> count
            e.encode_u32(1); // AUTH_SYS
            e.encode_u32(13); // stamp
            e.encode_string("fake name"); // machinename
            e.encode_u32(29); // uid
            e.encode_u32(31); // gid
            e.encode_u32(0); // gids<>
            e.encode_u32(opcode::GETFH); // no args
        },
        2,
    );
    assert_eq!(r.operations.len(), 2, "BACKCHANNEL_CTL truncated the compound");
    match &r.operations[0] {
        Operation::BackchannelCtl { cb_program, cb_sec } => {
            assert_eq!(*cb_program, 0x4000_0001);
            assert_eq!(cb_sec.len(), 1);
            assert!(
                matches!(&cb_sec[0], CallbackSecParms::Sys { uid: 29, gid: 31, .. }),
                "got {:?}",
                cb_sec[0],
            );
        }
        other => panic!("got {other:?}"),
    }
    assert!(matches!(r.operations[1], Operation::GetFh));
}

#[test]
fn the_callback_credential_policy_prefers_sys_then_none_and_never_gss() {
    let sys = CallbackSecParms::Sys {
        stamp: 1,
        machinename: "m".to_string(),
        uid: 5,
        gid: 6,
        gids: vec![],
    };
    assert!(
        matches!(
            pick_cb_cred(&[CallbackSecParms::AuthNone, sys.clone()]),
            Some(CallbackSecParms::Sys { uid: 5, .. }),
        ),
        "AUTH_SYS wins even when offered second"
    );
    assert!(matches!(
        pick_cb_cred(&[CallbackSecParms::AuthNone]),
        Some(CallbackSecParms::AuthNone),
    ));
    assert_eq!(
        pick_cb_cred(&[CallbackSecParms::Gss]),
        None,
        "a GSS-only offer is unemittable, so nothing is selected",
    );
    assert_eq!(pick_cb_cred(&[]), None);
}

#[test]
fn delegreturn_decodes_and_the_op_behind_it_survives() {
    let r = req(
        |e| {
            e.encode_u32(opcode::DELEGRETURN);
            e.encode_u32(7); // stateid.seqid
            e.encode_fixed_opaque(&[0xab; 12]); // stateid.other
            e.encode_u32(opcode::GETFH);
        },
        2,
    );
    assert_eq!(r.operations.len(), 2, "DELEGRETURN truncated the compound");
    match &r.operations[0] {
        Operation::DelegReturn { stateid } => assert_eq!(*stateid, sid()),
        other => panic!("got {:?}", other),
    }
    assert!(matches!(r.operations[1], Operation::GetFh));
}

/// One OPEN with the given claim payload; returns the decoded claim.
fn open_with_claim(claim: impl FnOnce(&mut XdrEncoder)) -> OpenClaim {
    let r = req(
        |e| {
            e.encode_u32(opcode::OPEN);
            e.encode_u32(0); // seqid
            e.encode_u32(1); // share_access READ
            e.encode_u32(0); // share_deny NONE
            e.encode_u64(0); // open_owner4.clientid
            e.encode_opaque(b"owner"); // open_owner4.owner
            e.encode_u32(0); // OPEN4_NOCREATE
            claim(e);
        },
        1,
    );
    match r.operations.into_iter().next().expect("one op") {
        Operation::Open { claim, .. } => claim,
        other => panic!("got {:?}", other),
    }
}

#[test]
fn claim_previous_threads_its_delegate_type() {
    let c = open_with_claim(|e| {
        e.encode_u32(1); // CLAIM_PREVIOUS
        e.encode_u32(1); // OPEN_DELEGATE_READ
    });
    assert_eq!(c.claim_type, 1);
    assert_eq!(c.delegate_type, Some(1), "delegate_type discarded again");
    assert_eq!(c.delegate_stateid, None);
}

#[test]
fn claim_deleg_cur_fh_threads_its_stateid() {
    let c = open_with_claim(|e| {
        e.encode_u32(5); // CLAIM_DELEG_CUR_FH
        e.encode_u32(7);
        e.encode_fixed_opaque(&[0xab; 12]);
    });
    assert_eq!(c.claim_type, 5);
    assert_eq!(c.delegate_stateid, Some(sid()), "delegation stateid discarded again");
}

#[test]
fn claim_delegate_cur_threads_stateid_and_name() {
    let c = open_with_claim(|e| {
        e.encode_u32(2); // CLAIM_DELEGATE_CUR
        e.encode_u32(7);
        e.encode_fixed_opaque(&[0xab; 12]);
        e.encode_string("cached.bin");
    });
    assert_eq!(c.claim_type, 2);
    assert_eq!(c.delegate_stateid, Some(sid()));
    assert_eq!(c.file, "cached.bin");
}

fn words_of(b: &[u8]) -> Vec<u32> {
    b.chunks(4).map(|c| u32::from_be_bytes(c.try_into().unwrap())).collect()
}

#[test]
fn deleg_results_encode_opcode_and_status_only() {
    let mut resp = CompoundResponse::new();
    resp.status = Nfs4Status::NotSupp;
    resp.tag = String::new();
    resp.results.push(OperationResult::DelegPurge(Nfs4Status::NotSupp));
    let b = resp.encode();
    // status, tag(len 0), count=1, opcode, op status
    let words = words_of(&b);
    assert_eq!(words[2], 1, "result count");
    assert_eq!(words[3], opcode::DELEGPURGE);
    assert_eq!(words[4], Nfs4Status::NotSupp.to_u32());

    let mut resp = CompoundResponse::new();
    resp.status = Nfs4Status::BadStateId;
    resp.tag = String::new();
    resp.results.push(OperationResult::DelegReturn(Nfs4Status::BadStateId));
    let b = resp.encode();
    let words = words_of(&b);
    assert_eq!(words[3], opcode::DELEGRETURN);
    assert_eq!(words[4], Nfs4Status::BadStateId.to_u32());
}

fn open_reply(delegation: Option<Delegation>) -> Vec<u8> {
    let mut resp = CompoundResponse::new();
    resp.status = Nfs4Status::NfsOk;
    resp.tag = String::new();
    resp.results.push(OperationResult::Open(
        Nfs4Status::NfsOk,
        Some(OpenResult {
            stateid: StateId { seqid: 1, other: [1u8; 12] },
            change_info: ChangeInfo { atomic: true, before: 0, after: 0 },
            result_flags: 0,
            attrset: vec![],
            delegation,
        }),
    ));
    resp.encode().to_vec()
}

#[test]
fn the_none_ext_arm_encodes_its_union_and_nothing_more() {
    let mk = |deleg: Option<Delegation>| words_of(&open_reply(deleg));
    let deleg_at = 5 + 4 + 5 + 1 + 1;

    // WND4_NOT_WANTED: a VOID union arm.
    let w = mk(Some(Delegation::NoneExt { why: WhyNoDelegation::NotWanted }));
    assert_eq!(w[deleg_at], 3, "OPEN_DELEGATE_NONE_EXT");
    assert_eq!(w[deleg_at + 1], 0, "WND4_NOT_WANTED");
    assert_eq!(w.len(), deleg_at + 2, "a void union arm must add NOTHING after ond_why");

    // WND4_CANCELLED: also void, and a different code.
    let w = mk(Some(Delegation::NoneExt { why: WhyNoDelegation::Cancelled }));
    assert_eq!(w[deleg_at + 1], 7, "WND4_CANCELLED");
    assert_eq!(w.len(), deleg_at + 2);

    // WND4_CONTENTION: one bool, ond_server_will_push_deleg.
    let w = mk(Some(Delegation::NoneExt { why: WhyNoDelegation::Contention }));
    assert_eq!(w[deleg_at + 1], 1, "WND4_CONTENTION");
    assert_eq!(w.len(), deleg_at + 3, "CONTENTION carries one bool");
    assert_eq!(w[deleg_at + 2], 0, "we never push a delegation later");

    // WND4_RESOURCE: one bool, ond_server_will_signal_avail.
    let w = mk(Some(Delegation::NoneExt { why: WhyNoDelegation::Resource }));
    assert_eq!(w[deleg_at + 1], 2, "WND4_RESOURCE");
    assert_eq!(w.len(), deleg_at + 3, "RESOURCE carries one bool");
    assert_eq!(w[deleg_at + 2], 0, "we never signal availability");

    // And the plain NONE arm is shorter than either.
    assert_eq!(mk(None).len(), deleg_at + 1);
}

#[test]
fn open_result_encodes_the_read_delegation_arm() {
    let deleg_sid = StateId { seqid: 1, other: [7u8; 12] };

    // No grant: the delegation word is OPEN_DELEGATE_NONE and the reply ends there.
    let b = open_reply(None);
    let words = words_of(&b);
    assert_eq!(words[3], opcode::OPEN);
    assert_eq!(words[4], Nfs4Status::NfsOk.to_u32());
    let deleg_at = 5 + 4 + 5 + 1 + 1;
    assert_eq!(words[deleg_at], 0, "OPEN_DELEGATE_NONE");
    assert_eq!(words.len(), deleg_at + 1, "reply ends after the NONE arm");

    // Granted: READ arm with the delegation stateid verbatim, then
    // recall=false, then the single permissive ace.
    let b = open_reply(Some(Delegation::Read { stateid: deleg_sid }));
    let words = words_of(&b);
    assert_eq!(words[deleg_at], 1, "OPEN_DELEGATE_READ");
    assert_eq!(words[deleg_at + 1], 1, "delegation stateid.seqid");
    assert_eq!(
        words[deleg_at + 2],
        u32::from_be_bytes([7, 7, 7, 7]),
        "delegation stateid.other travels verbatim"
    );
    assert_eq!(words[deleg_at + 5], 0, "recall=false at grant");
    assert_eq!(words[deleg_at + 6], 0, "ace type ALLOW");
    assert_eq!(words[deleg_at + 7], 0, "ace flag");
    assert_eq!(words[deleg_at + 8], 0x0012_0089, "ace access mask");
    assert_eq!(words[deleg_at + 9], 9, "who length");
    assert_eq!(&b[(deleg_at + 10) * 4..(deleg_at + 10) * 4 + 9], b"EVERYONE@");
}
