use bytes::Bytes;
use flint_nfs::compound::{
    ChangeInfo, CompoundContext, CompoundRequest, CompoundResponse, CopyResult, ExchangeIdResult,
    OpenClaim, OpenHow, Operation, OperationResult, ReadResult,
};
use flint_nfs::deleg_recall::ladder::{SEQ4_CB_PATH_DOWN, SEQ4_RECALLABLE_STATE_REVOKED};
use flint_nfs::dispatcher::attrs::{decode_verify, encode_fattr, handle_verify, unpack_fattr};
use flint_nfs::dispatcher::complete::{
    complete, proxy_write_end, Completion, Effect, HandlerReply, ProxyWriteOutcome,
    ReclaimCompleteOutcome, SecInfoFound, StateEntry, StateType, WriteVerifier,
    EXCHGID4_FLAG_USE_PNFS_MDS,
};
use flint_nfs::dispatcher::connections::{
    back_channels, bind_back_channel, bind_conn_to_session, conn_bound_to_session, new_table,
    unbind_session,
};
use flint_nfs::dispatcher::layout::codec::LayoutClass;
use flint_nfs::dispatcher::open::{
    convert_claim, convert_openhow, grace_refusal, ClaimKind, CreateHow,
};
use flint_nfs::dispatcher::placement::{
    pnfs_file_key, refuse_if_striped, scsi_class_cfh, stub_io_disposition,
};
use flint_nfs::dispatcher::route::{
    minor_version_2_opcode, route, Facts, FallbackIoDisposition, HandlerCall, Routed, SeekType,
};
use flint_nfs::dispatcher::run::{context_for, start, SessionLimits, Start};
use flint_nfs::protocol::{
    opcode, ClientId, Fattr4, Nfs4FileHandle, Nfs4Status, SessionId, StateId,
};
use flint_nfs::sec_policy::SecOffer;
use flint_nfs::segment::Segment;

fn facts() -> Facts {
    Facts {
        session_known: true,
        conn_bound: true,
        client_known: true,
        client_sessions: 0,
        session_client: Some(1),
        in_grace: false,
        reclaim_complete: true,
        scsi_class: false,
        striped: false,
        disposition: FallbackIoDisposition::Serve,
        stub: false,
        rename_preserves_data: true,
        link_allowed: true,
        is_root: false,
    }
}

fn ctx(minor_version: u32) -> CompoundContext {
    CompoundContext::new(minor_version)
}

fn answered(op: Operation, c: &mut CompoundContext, f: &Facts) -> OperationResult {
    match route(op, c, f) {
        Routed::Done(r) => r,
        other => panic!("not answered: {:?}", other),
    }
}

fn call(op: Operation, c: &mut CompoundContext, f: &Facts) -> HandlerCall {
    match route(op, c, f) {
        Routed::Call(h) => h,
        other => panic!("not handed on: {:?}", other),
    }
}

fn sid(n: u8) -> StateId {
    StateId { seqid: 2, other: [n; 12] }
}

fn current() -> StateId {
    StateId { seqid: 1, other: [0; 12] }
}

// ---------------------------------------------------------------------------
// A server that knows its root and nothing else
// ---------------------------------------------------------------------------

fn verf(value: u64) -> WriteVerifier {
    WriteVerifier::new(value).unwrap()
}

struct Server {
    pnfs: bool,
    clients: u64,
    verifier: u64,
    flags: u32,
}

impl Default for Server {
    fn default() -> Self {
        Server { pnfs: false, clients: 0, verifier: 1, flags: 0 }
    }
}

impl Server {
    fn handle(&mut self, h: HandlerCall, c: &mut CompoundContext) -> HandlerReply {
        match h {
            HandlerCall::PutRootFh => {
                c.set_current_fh(Nfs4FileHandle { data: vec![0] });
                HandlerReply::PutRootFh(Nfs4Status::NfsOk)
            }
            HandlerCall::GetFh => match c.get_current_fh() {
                Ok(fh) => HandlerReply::GetFh(Nfs4Status::NfsOk, Some(fh.clone())),
                Err(s) => HandlerReply::GetFh(s, None),
            },
            HandlerCall::SaveFh => {
                HandlerReply::SaveFh(c.save_fh().err().unwrap_or(Nfs4Status::NfsOk))
            }
            HandlerCall::RestoreFh => {
                HandlerReply::RestoreFh(c.restore_fh().err().unwrap_or(Nfs4Status::NfsOk))
            }
            HandlerCall::ExchangeId { flags, .. } => {
                self.clients += 1;
                HandlerReply::ExchangeId {
                    status: Nfs4Status::NfsOk,
                    result: ExchangeIdResult {
                        clientid: self.clients,
                        sequenceid: 1,
                        flags,
                        server_owner: "s".to_string(),
                        server_scope: vec![],
                    },
                }
            }
            HandlerCall::Sequence { sessionid, sequenceid, slotid, .. } => {
                HandlerReply::Sequence {
                    status: Nfs4Status::NfsOk,
                    sessionid,
                    sequenceid,
                    slotid,
                    highest_slotid: 0,
                    target_highest_slotid: 0,
                    status_flags: self.flags,
                }
            }
            HandlerCall::Copy { count, sync, .. } => {
                HandlerReply::Copy { status: Nfs4Status::NfsOk, count, sync }
            }
            HandlerCall::Commit { .. } => {
                HandlerReply::Commit { status: Nfs4Status::NfsOk, verifier: self.verifier }
            }
            other => panic!("no handler for {:?}", other),
        }
    }

    fn dispatch(&mut self, request: CompoundRequest) -> CompoundResponse {
        let mut c = context_for(request.minor_version, Vec::new(), None, Vec::new(), None);
        let mut run = match start(request, SecOffer::default()) {
            Start::Reply(r) => return r,
            Start::Run(run) => run,
        };
        while let Some(op) = run.next_operation() {
            let result = match route(op, &mut c, &facts()) {
                Routed::Done(r) => r,
                Routed::Bind { result, .. } => result,
                Routed::Call(h) => {
                    let reply = self.handle(h, &mut c);
                    complete(reply, &mut c, self.pnfs, verf(self.verifier)).result
                }
            };
            run.completed(result, None, &mut c);
        }
        run.finish(None, &c)
    }
}

fn request(minor_version: u32, operations: Vec<Operation>) -> CompoundRequest {
    CompoundRequest {
        tag: "test".to_string(),
        tag_valid: true,
        minor_version,
        operations,
        wire_size: 0,
    }
}

fn exchange_id() -> Operation {
    Operation::ExchangeId {
        clientowner: ClientId { verifier: 12345, id: b"test-client".to_vec() },
        flags: 0,
        state_protect: 0,
        impl_id: vec![],
    }
}

#[test]
fn test_simple_compound() {
    let r = Server::default().dispatch(request(0, vec![Operation::PutRootFh, Operation::GetFh]));
    assert_eq!(r.status, Nfs4Status::NfsOk);
    assert_eq!(r.results.len(), 2);
    assert_eq!(r.tag, "test");
}

#[test]
fn test_session_compound() {
    let r = Server::default().dispatch(request(2, vec![exchange_id()]));
    assert_eq!(r.status, Nfs4Status::NfsOk);
    assert_eq!(r.results.len(), 1);
    match &r.results[0] {
        OperationResult::ExchangeId(status, result) => {
            assert_eq!(*status, Nfs4Status::NfsOk);
            assert_ne!(result.as_ref().unwrap().clientid, 0);
        }
        _ => panic!("Expected ExchangeId result"),
    }
}

#[test]
fn exchange_id_advertises_the_mds_role_only_when_pnfs_is_enabled() {
    let flags = |pnfs: bool| {
        let mut s = Server { pnfs, ..Server::default() };
        match &s.dispatch(request(2, vec![exchange_id()])).results[0] {
            OperationResult::ExchangeId(Nfs4Status::NfsOk, Some(res)) => res.flags,
            other => panic!("expected a successful ExchangeId, got {:?}", other),
        }
    };
    assert_ne!(flags(true) & EXCHGID4_FLAG_USE_PNFS_MDS, 0);
    assert_eq!(flags(false) & EXCHGID4_FLAG_USE_PNFS_MDS, 0);
}

#[test]
fn test_file_ops_compound() {
    let r = Server::default().dispatch(request(
        0,
        vec![
            Operation::PutRootFh,
            Operation::SaveFh,
            Operation::RestoreFh,
            Operation::GetFh,
        ],
    ));
    assert_eq!(r.status, Nfs4Status::NfsOk);
    assert_eq!(r.results.len(), 4);
}

#[test]
fn test_error_stops_compound() {
    let r = Server::default().dispatch(request(0, vec![Operation::GetFh, Operation::PutRootFh]));
    assert_ne!(r.status, Nfs4Status::NfsOk);
    assert_eq!(r.results.len(), 1); // Only first operation
}

fn sequence() -> Operation {
    Operation::Sequence {
        sessionid: SessionId([1; 16]),
        sequenceid: 1,
        slotid: 0,
        highest_slotid: 0,
        cachethis: false,
    }
}

#[test]
fn a_request_is_refused_before_anything_runs() {
    let refused = |r: CompoundRequest| {
        let r = match start(r, SecOffer::default()) {
            Start::Reply(r) => r,
            Start::Run(_) => panic!("runs"),
        };
        assert!(r.results.is_empty());
        r.status
    };
    assert_eq!(refused(request(3, vec![Operation::PutRootFh])), Nfs4Status::MinorVersMismatch);
    let mut bad_tag = request(1, vec![sequence()]);
    bad_tag.tag_valid = false;
    assert_eq!(refused(bad_tag), Nfs4Status::Inval);
    assert_eq!(refused(request(1, vec![Operation::PutRootFh])), Nfs4Status::OpNotInSession);
}

#[test]
fn a_second_sequence_is_misplaced() {
    let mut run = match start(request(1, vec![sequence(), sequence()]), SecOffer::default()) {
        Start::Run(run) => run,
        Start::Reply(r) => panic!("{:?}", r.status),
    };
    let mut c = ctx(1);
    assert!(run.next_operation().is_some());
    run.completed(OperationResult::Sequence(Nfs4Status::NfsOk, None), None, &mut c);
    assert!(run.next_operation().is_none());
    let r = run.finish(None, &c);
    assert_eq!((r.status, r.results.len()), (Nfs4Status::SequencePos, 2));
}

fn running(ops: Vec<Operation>, wire_size: usize) -> flint_nfs::dispatcher::run::CompoundRun {
    let mut r = request(0, ops);
    r.wire_size = wire_size;
    match start(r, SecOffer::default()) {
        Start::Run(run) => run,
        Start::Reply(r) => panic!("{:?}", r.status),
    }
}

fn limits(max_operations: u32, max_request_size: u32, max_response_size: u32) -> Option<SessionLimits> {
    Some(SessionLimits { max_operations, max_request_size, max_response_size })
}

#[test]
fn the_limits_of_a_session_hold() {
    let mut c = ctx(0);
    // Too many operations: the one past the limit is answered with the refusal.
    let mut run = running(vec![Operation::GetFh, Operation::GetFh], 0);
    run.next_operation();
    run.completed(OperationResult::PutFh(Nfs4Status::NfsOk), limits(1, 0, 0), &mut c);
    run.next_operation();
    run.completed(OperationResult::PutFh(Nfs4Status::NfsOk), limits(1, 0, 0), &mut c);
    let r = run.finish(None, &c);
    assert_eq!((r.status, r.results.len()), (Nfs4Status::TooManyOps, 2));
    // A request that is too large.
    let mut run = running(vec![Operation::GetFh], 101);
    run.next_operation();
    run.completed(OperationResult::PutFh(Nfs4Status::NfsOk), limits(8, 100, 0), &mut c);
    assert!(run.next_operation().is_none());
    assert_eq!(run.finish(None, &c).status, Nfs4Status::ReqTooBig);
    // A reply that is too large is cut down.
    let mut run = running(vec![Operation::GetFh, Operation::GetFh, Operation::GetFh], 0);
    for _ in 0..3 {
        run.next_operation();
        run.completed(OperationResult::PutFh(Nfs4Status::NfsOk), None, &mut c);
    }
    let r = run.finish(limits(8, 100, 24), &c);
    assert_eq!(r.status, Nfs4Status::RepTooBig);
    let octets = r.encode();
    assert_eq!(&octets[0..4], &Nfs4Status::RepTooBig.to_u32().to_be_bytes());
}

fn read_result(data: &Bytes) -> OperationResult {
    let data = Segment::new(data.clone());
    OperationResult::Read(Nfs4Status::NfsOk, Some(ReadResult { eof: true, data }))
}

#[test]
fn a_measured_reply_keeps_the_payload_as_it_came() {
    let payload = Bytes::from(vec![7u8; 1001]);
    let mut c = ctx(0);
    let reply = |max: u32, c: &mut CompoundContext| {
        let mut run = running(vec![Operation::GetFh, Operation::GetFh], 0);
        run.next_operation();
        run.completed(OperationResult::PutFh(Nfs4Status::NfsOk), None, c);
        run.next_operation();
        run.completed(read_result(&payload), None, c);
        run.finish(limits(8, 100, max), c)
    };
    let flat = reply(0, &mut c).encode();
    // status, tag and count; PUTFH; READ up to its payload; the payload; padding.
    assert_eq!(flat.len(), 16 + 8 + 16 + 1001 + 3);
    let whole = reply(flat.len() as u32, &mut c);
    assert_eq!(whole.status, Nfs4Status::NfsOk);
    let segs = whole.raw_reply.as_ref().unwrap();
    let lens: Vec<usize> = segs.iter().map(|s| s.len()).collect();
    assert_eq!(lens, vec![40, 1001, 3]);
    // The very same memory, not a copy of it.
    assert_eq!(segs[1].as_mem().as_ptr(), payload.as_ptr());
    assert_eq!(whole.encode(), flat);
    // One octet less, and it is cut.
    let cut = reply(flat.len() as u32 - 1, &mut c);
    assert_eq!(cut.status, Nfs4Status::RepTooBig);
    assert_eq!(cut.raw_reply.as_ref().unwrap().len(), 1);
    assert_eq!(cut.encode().len(), 16 + 8 + 8);
}

#[test]
fn a_caller_comes_with_its_groups() {
    let c = context_for(1, b"p".to_vec(), Some((5, 6)), vec![7, 8], Some(9));
    let cred = c.cred().unwrap();
    assert_eq!((cred.uid, cred.gid, cred.gids), (5, 6, vec![7, 8]));
    assert_eq!((c.back_channel, c.minor_version), (Some(9), 1));
    assert!(context_for(1, vec![], None, vec![7], None).cred().is_none());
}

#[test]
fn a_replay_is_answered_with_what_was_answered_before() {
    let mut c = ctx(0);
    c.replay_reply = Some(Bytes::from_static(b"as before"));
    let mut run = running(vec![Operation::GetFh, Operation::GetFh], 0);
    run.next_operation();
    run.completed(OperationResult::PutFh(Nfs4Status::NfsOk), None, &mut c);
    assert!(run.next_operation().is_none());
    assert!(c.replay_reply.is_none());
    assert_eq!(run.finish(None, &c).encode().to_vec(), b"as before".to_vec());
}

// ---------------------------------------------------------------------------
// Routing
// ---------------------------------------------------------------------------

fn four_two() -> Vec<(u32, Operation)> {
    let dummy = current();
    vec![
        (opcode::ALLOCATE, Operation::Allocate { stateid: dummy, offset: 0, length: 1 }),
        (opcode::DEALLOCATE, Operation::Deallocate { stateid: dummy, offset: 0, length: 1 }),
        (opcode::SEEK, Operation::Seek { stateid: dummy, offset: 0, what: 0 }),
        (opcode::READ_PLUS, Operation::ReadPlus { stateid: dummy, offset: 0, count: 1 }),
        (opcode::COPY, copy(0)),
        (
            opcode::CLONE,
            Operation::Clone {
                src_stateid: dummy,
                dst_stateid: dummy,
                src_offset: 0,
                dst_offset: 0,
                count: 1,
            },
        ),
    ]
}

fn copy(source_server_count: u32) -> Operation {
    Operation::Copy {
        src_stateid: current(),
        dst_stateid: current(),
        src_offset: 0,
        dst_offset: 0,
        count: 1,
        consecutive: false,
        synchronous: true,
        source_server_count,
    }
}

#[test]
fn nfsv4_2_opcodes_are_illegal_in_a_4_1_compound() {
    // Minorversion 1: illegal, and the reply names the opcode.
    for (code, op) in four_two() {
        match answered(op, &mut ctx(1), &facts()) {
            OperationResult::Unsupported { opcode, status } => {
                assert_eq!((opcode, status), (code, Nfs4Status::OpIllegal));
            }
            other => panic!("opcode {code}: expected Unsupported, got {other:?}"),
        }
    }
    // Minorversion 2: they reach their handlers.
    for (code, op) in four_two() {
        assert!(
            matches!(route(op, &mut ctx(2), &facts()), Routed::Call(_)),
            "opcode {code} must be legal in a 4.2 COMPOUND"
        );
    }
}

#[test]
fn an_inter_server_copy_is_refused_rather_than_done_locally() {
    let r = answered(copy(1), &mut ctx(2), &facts());
    assert_eq!(r.status(), Nfs4Status::NotSupp);
    assert!(matches!(
        call(copy(0), &mut ctx(2), &facts()),
        HandlerCall::Copy { count: 1, sync: true, .. }
    ));
}

#[test]
fn seek_rejects_an_unknown_data_content_arm() {
    let seek = |what: u32| Operation::Seek { stateid: current(), offset: 0, what };
    for what in [2u32, 3, u32::MAX] {
        let r = answered(seek(what), &mut ctx(2), &facts());
        assert_eq!(r.status(), Nfs4Status::UnionNotsupp, "sa_what={what}");
    }
    let arm = |what: u32| match call(seek(what), &mut ctx(2), &facts()) {
        HandlerCall::Seek { what, .. } => what,
        other => panic!("{:?}", other),
    };
    assert_eq!((arm(0), arm(1)), (SeekType::Data, SeekType::Hole));
}

#[test]
fn the_minor_version_gate_does_not_catch_pre_4_2_operations() {
    assert!(matches!(
        call(Operation::PutRootFh, &mut ctx(1), &facts()),
        HandlerCall::PutRootFh
    ));
    assert!(minor_version_2_opcode(&Operation::PutRootFh).is_none());
    assert!(minor_version_2_opcode(&Operation::GetFh).is_none());
}

fn read() -> Operation {
    Operation::Read { stateid: sid(9), offset: 0, count: 4 }
}

fn write() -> Operation {
    Operation::Write { stateid: sid(9), offset: 0, stable: 2, data: Bytes::from_static(b"zzzz") }
}

#[test]
fn read_and_write_through_the_mds_honour_both_stub_dispositions() {
    for (disposition, expected) in [
        (FallbackIoDisposition::Delay, Nfs4Status::Delay),
        (FallbackIoDisposition::FailFast, Nfs4Status::Io),
    ] {
        let mut f = facts();
        f.disposition = disposition;
        f.stub = true;
        assert_eq!(answered(read(), &mut ctx(2), &f).status(), expected);
        assert_eq!(answered(write(), &mut ctx(2), &f).status(), expected);
    }
}

#[test]
fn read_of_a_never_layouted_file_on_an_mds_is_served() {
    let (disposition, stub) = stub_io_disposition(None);
    let mut f = facts();
    f.disposition = disposition;
    f.stub = stub;
    assert!(matches!(call(read(), &mut ctx(2), &f), HandlerCall::Read { count: 4, .. }));
    assert_eq!(
        stub_io_disposition(Some(FallbackIoDisposition::FailFast)),
        (FallbackIoDisposition::FailFast, true)
    );
}

#[test]
fn a_healthy_fleet_is_read_and_written_through() {
    let mut f = facts();
    f.disposition = FallbackIoDisposition::Proxy;
    f.stub = true;
    assert!(matches!(
        call(read(), &mut ctx(2), &f),
        HandlerCall::ProxyRead { offset: 0, count: 4 }
    ));
    assert!(matches!(call(write(), &mut ctx(2), &f), HandlerCall::ProxyWrite { offset: 0, .. }));
    let unset = Operation::Read { stateid: current(), offset: 0, count: 4 };
    assert_eq!(answered(unset, &mut ctx(2), &f).status(), Nfs4Status::BadStateId);
    f.stub = false;
    assert_eq!(answered(read(), &mut ctx(2), &f).status(), Nfs4Status::Io);
}

#[test]
fn the_space_op_guard_fires_only_for_pinned_files_and_only_on_an_mds() {
    assert_eq!(refuse_if_striped(Some(true)), Some(Nfs4Status::NotSupp));
    assert_eq!(refuse_if_striped(Some(false)), None);
    // Standalone: no key to ask for.
    assert_eq!(pnfs_file_key(false, Some("striped.dat".to_string())), None);
    assert_eq!(refuse_if_striped(None), None);
    assert_eq!(
        pnfs_file_key(true, Some("striped.dat".to_string())),
        Some("striped.dat".to_string())
    );
    assert_eq!(pnfs_file_key(true, Some(String::new())), None);
    assert_eq!(pnfs_file_key(true, None), None);
}

#[test]
fn space_ops_refuse_striped_files_and_still_serve_unpinned_ones() {
    for striped in [true, false] {
        let ops = [
            Operation::Allocate { stateid: sid(1), offset: 0, length: 4096 },
            Operation::Deallocate { stateid: sid(1), offset: 0, length: 4096 },
            Operation::Seek { stateid: sid(1), offset: 0, what: 0 },
        ];
        let mut f = facts();
        f.striped = striped;
        for op in ops {
            match route(op, &mut ctx(2), &f) {
                Routed::Done(r) => assert!(striped && r.status() == Nfs4Status::NotSupp),
                Routed::Call(_) => assert!(!striped),
                other => panic!("{:?}", other),
            }
        }
    }
}

#[test]
fn locks_are_refused_on_block_volumes_and_released_everywhere() {
    let mut f = facts();
    f.scsi_class = scsi_class_cfh(Some(LayoutClass::Scsi));
    assert!(!scsi_class_cfh(Some(LayoutClass::File)) && !scsi_class_cfh(None));
    let lock = || Operation::Lock {
        locktype: 1,
        reclaim: false,
        offset: 0,
        length: 1,
        stateid: sid(1),
        owner: vec![],
        new_lock_owner: false,
    };
    let test = || Operation::LockT { locktype: 2, offset: 0, length: 1, owner: vec![] };
    let unlock =
        || Operation::LockU { locktype: 1, seqid: 0, stateid: sid(1), offset: 0, length: 1 };
    assert_eq!(answered(lock(), &mut ctx(1), &f).status(), Nfs4Status::NotSupp);
    assert_eq!(answered(test(), &mut ctx(1), &f).status(), Nfs4Status::NotSupp);
    assert!(matches!(call(unlock(), &mut ctx(1), &f), HandlerCall::LockU { .. }));
    assert!(matches!(
        call(lock(), &mut ctx(1), &facts()),
        HandlerCall::Lock { new_lock_owner: false, .. }
    ));
    assert!(matches!(call(test(), &mut ctx(1), &facts()), HandlerCall::LockT { .. }));
}

#[test]
fn the_current_stateid_goes_with_the_filehandle() {
    let mut c = ctx(1);
    c.current_stateid = Some(sid(5));
    let close = || Operation::Close { seqid: 0, stateid: current() };
    match call(close(), &mut c, &facts()) {
        HandlerCall::Close { stateid, .. } => assert_eq!(stateid, sid(5)),
        other => panic!("{:?}", other),
    }
    call(Operation::SaveFh, &mut c, &facts());
    assert_eq!(c.saved_stateid, Some(sid(5)));
    call(Operation::Lookup("x".to_string()), &mut c, &facts());
    assert_eq!(c.current_stateid, None);
    assert_eq!(answered(close(), &mut c, &facts()).status(), Nfs4Status::BadStateId);
    complete(HandlerReply::RestoreFh(Nfs4Status::NfsOk), &mut c, false, verf(1));
    assert_eq!(c.current_stateid, Some(sid(5)));
    complete(HandlerReply::RestoreFh(Nfs4Status::RestoReFh), &mut c, false, verf(1));
    assert_eq!(c.current_stateid, None);
}

#[test]
fn sessions_and_clients_are_guarded() {
    let s = SessionId([3; 16]);
    let mut f = facts();
    f.conn_bound = false;
    assert_eq!(
        answered(Operation::DestroySession(s), &mut ctx(1), &f).status(),
        Nfs4Status::ConnNotBoundToSession
    );
    f.session_known = false;
    assert!(matches!(
        call(Operation::DestroySession(s), &mut ctx(1), &f),
        HandlerCall::DestroySession(_)
    ));
    let bind =
        |dir: u32| Operation::BindConnToSession { sessionid: s, dir, use_conn_in_rdma_mode: true };
    assert!(matches!(
        answered(bind(3), &mut ctx(1), &f),
        OperationResult::BindConnToSession(Nfs4Status::BadSession, None, 3, true)
    ));
    for (dir, want) in [(1, false), (2, true), (3, true)] {
        match route(bind(dir), &mut ctx(1), &facts()) {
            Routed::Bind { sessionid, back, result } => {
                assert_eq!((sessionid, back), (s, want));
                assert_eq!(result.status(), Nfs4Status::NfsOk);
            }
            other => panic!("{:?}", other),
        }
    }
    let mut f = facts();
    f.client_sessions = 2;
    assert_eq!(
        answered(Operation::DestroyClientId(4), &mut ctx(1), &f).status(),
        Nfs4Status::ClientIdBusy
    );
    f.client_known = false;
    assert_eq!(
        answered(Operation::DestroyClientId(4), &mut ctx(1), &f).status(),
        Nfs4Status::StaleClientId
    );
    assert!(matches!(
        call(Operation::DestroyClientId(4), &mut ctx(1), &facts()),
        HandlerCall::RemoveClient(4)
    ));
}

#[test]
fn reclaiming_is_done_once() {
    let mut f = facts();
    assert_eq!(
        answered(Operation::ReclaimComplete(true), &mut ctx(1), &f).status(),
        Nfs4Status::NfsOk
    );
    assert!(matches!(
        call(Operation::ReclaimComplete(false), &mut ctx(1), &f),
        HandlerCall::MarkReclaimComplete(1)
    ));
    f.session_client = None;
    assert_eq!(
        answered(Operation::ReclaimComplete(false), &mut ctx(1), &f).status(),
        Nfs4Status::OpNotInSession
    );
    let done = |o: ReclaimCompleteOutcome| {
        complete(HandlerReply::MarkReclaimComplete(o), &mut ctx(1), false, verf(1)).result.status()
    };
    assert_eq!(done(ReclaimCompleteOutcome::Marked), Nfs4Status::NfsOk);
    assert_eq!(done(ReclaimCompleteOutcome::AlreadyComplete), Nfs4Status::CompleteAlready);
    assert_eq!(done(ReclaimCompleteOutcome::NoSuchClient), Nfs4Status::StaleClientId);
}

#[test]
fn names_and_links_of_striped_files_are_guarded() {
    let rename = || Operation::Rename { oldname: "a".to_string(), newname: "b".to_string() };
    let mut f = facts();
    assert!(matches!(call(rename(), &mut ctx(1), &f), HandlerCall::Rename { .. }));
    f.rename_preserves_data = false;
    assert_eq!(answered(rename(), &mut ctx(1), &f).status(), Nfs4Status::NotSupp);
    let link = || Operation::Link("b".to_string());
    assert!(matches!(call(link(), &mut ctx(1), &f), HandlerCall::Link(_)));
    f.link_allowed = false;
    assert_eq!(answered(link(), &mut ctx(1), &f).status(), Nfs4Status::NotSupp);
}

#[test]
fn secinfo_leaves_no_filehandle() {
    let mut c = ctx(1);
    let named = || Operation::SecInfo("x".to_string());
    assert_eq!(answered(named(), &mut c, &facts()).status(), Nfs4Status::NoFileHandle);
    let bare = Operation::SecInfoNoName;
    assert_eq!(answered(bare(0), &mut c, &facts()).status(), Nfs4Status::NoFileHandle);
    c.set_current_fh(Nfs4FileHandle { data: vec![1] });
    let mut f = facts();
    f.is_root = true;
    assert_eq!(answered(bare(1), &mut c, &f).status(), Nfs4Status::NoEnt);
    assert!(c.has_current_fh());
    assert!(matches!(call(named(), &mut c, &f), HandlerCall::SecInfo(_)));
    let found = |f: SecInfoFound, c: &mut CompoundContext| {
        complete(HandlerReply::SecInfo(f), c, false, verf(1)).result.status()
    };
    assert_eq!(found(SecInfoFound::Stale, &mut c), Nfs4Status::Stale);
    assert_eq!(found(SecInfoFound::NotDir, &mut c), Nfs4Status::NotDir);
    assert_eq!(found(SecInfoFound::Missing, &mut c), Nfs4Status::NoEnt);
    assert!(c.has_current_fh());
    assert_eq!(found(SecInfoFound::Found, &mut c), Nfs4Status::NfsOk);
    assert!(!c.has_current_fh());
    c.set_current_fh(Nfs4FileHandle { data: vec![1] });
    assert_eq!(answered(bare(0), &mut c, &f).status(), Nfs4Status::NfsOk);
    assert!(!c.has_current_fh());
}

#[test]
fn what_has_no_handler_is_answered() {
    let unsupported = |op: Operation| match answered(op, &mut ctx(2), &facts()) {
        OperationResult::Unsupported { opcode, status } => (opcode, status),
        other => panic!("{:?}", other),
    };
    assert_eq!(unsupported(Operation::Unsupported(2)), (2, Nfs4Status::OpIllegal));
    assert_eq!(unsupported(Operation::Unsupported(4711)), (4711, Nfs4Status::OpIllegal));
    assert_eq!(
        unsupported(Operation::Unsupported(opcode::GETDEVICELIST)),
        (opcode::GETDEVICELIST, Nfs4Status::NotSupp)
    );
    assert_eq!(
        unsupported(Operation::BadXdr(opcode::COPY)),
        (opcode::COPY, Nfs4Status::BadXdr)
    );
    assert_eq!(
        unsupported(Operation::InvalidName(opcode::LOOKUP)),
        (opcode::LOOKUP, Nfs4Status::Inval)
    );
}

#[test]
fn what_is_not_served_is_said_to_be_so() {
    let unserved = || {
        vec![
            (opcode::DELEGPURGE, Operation::DelegPurge { clientid: 1 }),
            (opcode::DELEGRETURN, Operation::DelegReturn { stateid: sid(3) }),
            (
                opcode::BACKCHANNEL_CTL,
                Operation::BackchannelCtl { cb_program: 0x4000_0000, cb_sec: vec![] },
            ),
            (
                opcode::IO_ADVISE,
                Operation::IoAdvise { stateid: sid(3), offset: 0, count: 4096, hints: 1 },
            ),
        ]
    };
    for (code, op) in unserved() {
        match answered(op, &mut ctx(2), &facts()) {
            OperationResult::Unsupported { opcode, status } => {
                assert_eq!((opcode, status), (code, Nfs4Status::NotSupp));
            }
            other => panic!("{:?}", other),
        }
    }
    // Its number and NFS4ERR_NOTSUPP are what goes on the wire.
    for (code, op) in unserved() {
        let mut r = CompoundResponse::new();
        r.results.push(answered(op, &mut ctx(2), &facts()));
        let encoded = r.encode();
        assert_eq!(encoded[12..16], code.to_be_bytes());
        assert_eq!(encoded[16..20], 10004u32.to_be_bytes());
    }
}

// ---------------------------------------------------------------------------
// OPEN
// ---------------------------------------------------------------------------

fn how(createmode: u32, attrs: Option<&'static [u8]>) -> OpenHow {
    OpenHow { createmode, attrs: attrs.map(Bytes::from_static), attrmask: vec![16] }
}

#[test]
fn an_open_says_what_it_makes() {
    assert!(matches!(convert_openhow(how(0, None)), CreateHow::NoCreate));
    assert!(matches!(convert_openhow(how(9, Some(b"x"))), CreateHow::NoCreate));
    match convert_openhow(how(0, Some(b"abcd"))) {
        CreateHow::Create(a) => assert_eq!((a.attrmask, a.attr_vals), (vec![16], b"abcd".to_vec())),
        other => panic!("{:?}", other),
    }
    assert!(matches!(convert_openhow(how(1, None)), CreateHow::Create(a) if a.attr_vals.is_empty()));
    assert!(matches!(
        convert_openhow(how(2, Some(&[0, 0, 0, 0, 0, 0, 1, 2]))),
        CreateHow::Exclusive(0x0102)
    ));
    assert!(matches!(convert_openhow(how(2, Some(&[1]))), CreateHow::Exclusive(0)));
    match convert_openhow(how(3, Some(&[0, 0, 0, 0, 0, 0, 0, 5, 7, 8]))) {
        CreateHow::Exclusive41 { verifier, attrs } => {
            assert_eq!((verifier, attrs.attr_vals), (5, vec![7, 8]));
        }
        other => panic!("{:?}", other),
    }
    let claim = |claim_type: u32| OpenClaim {
        claim_type,
        file: "f".to_string(),
        delegate_type: None,
        delegate_stateid: None,
    };
    assert!(matches!(convert_claim(claim(0)), ClaimKind::Null(n) if n == "f"));
    assert!(matches!(convert_claim(claim(4)), ClaimKind::Fh));
}

#[test]
fn the_grace_period_lets_reclaims_through_and_nothing_else() {
    assert_eq!(grace_refusal(1, true, false), None);
    assert_eq!(grace_refusal(1, false, false), Some(Nfs4Status::NoGrace));
    assert_eq!(grace_refusal(6, true, true), Some(Nfs4Status::NoGrace));
    assert_eq!(grace_refusal(0, true, false), Some(Nfs4Status::Grace));
    assert_eq!(grace_refusal(0, true, true), None);
    assert_eq!(grace_refusal(4, false, false), None);
    let open = || Operation::Open {
        seqid: 0,
        share_access: 1,
        share_deny: 0,
        owner: vec![],
        openhow: how(0, None),
        claim: OpenClaim {
            claim_type: 0,
            file: "f".to_string(),
            delegate_type: None,
            delegate_stateid: None,
        },
    };
    let mut f = facts();
    assert!(matches!(call(open(), &mut ctx(1), &f), HandlerCall::Open { .. }));
    f.in_grace = true;
    f.session_client = None;
    assert_eq!(answered(open(), &mut ctx(1), &f).status(), Nfs4Status::Grace);
}

#[test]
fn an_open_under_a_delegation_says_which() {
    let open = |claim_type: u32, kind: Option<u32>, deleg: Option<StateId>| Operation::Open {
        seqid: 0,
        share_access: 1,
        share_deny: 0,
        owner: vec![],
        openhow: how(0, None),
        claim: OpenClaim {
            claim_type,
            file: "f".to_string(),
            delegate_type: kind,
            delegate_stateid: deleg,
        },
    };
    match call(open(2, None, Some(sid(3))), &mut ctx(1), &facts()) {
        HandlerCall::Open { claim: ClaimKind::Fh, delegate_type, delegate_stateid, .. } => {
            assert_eq!((delegate_type, delegate_stateid), (None, Some(sid(3))));
        }
        other => panic!("{:?}", other),
    }
    let mut f = facts();
    f.in_grace = true;
    f.reclaim_complete = false;
    match call(open(1, Some(1), None), &mut ctx(1), &f) {
        HandlerCall::Open { delegate_type, delegate_stateid, .. } => {
            assert_eq!((delegate_type, delegate_stateid), (Some(1), None));
        }
        other => panic!("{:?}", other),
    }
}

fn open_reply(status: Nfs4Status, with_change: bool, attrset: Vec<u32>) -> HandlerReply {
    HandlerReply::Open {
        status,
        stateid: Some(sid(4)),
        change_info: if with_change { Some(ChangeInfo::default()) } else { None },
        result_flags: 2,
        attrset,
        requested: Some(100),
    }
}

#[test]
fn an_open_leaves_its_stateid() {
    let mut c = ctx(1);
    let done = complete(open_reply(Nfs4Status::NfsOk, true, vec![0x10]), &mut c, true, verf(1));
    assert_eq!(done.effect, Effect::Truncate(100));
    assert_eq!(c.current_stateid, Some(sid(4)));
    assert!(matches!(done.result, OperationResult::Open(Nfs4Status::NfsOk, Some(_))));
    // Where no size was applied, and where there are no data servers, nothing follows.
    let done = complete(open_reply(Nfs4Status::NfsOk, true, vec![0]), &mut c, true, verf(1));
    assert_eq!(done.effect, Effect::Nothing);
    let done = complete(open_reply(Nfs4Status::NfsOk, false, vec![0x10]), &mut c, false, verf(1));
    assert_eq!(done.effect, Effect::Nothing);
    assert!(matches!(done.result, OperationResult::Open(Nfs4Status::NfsOk, None)));
    let mut c = ctx(1);
    let done = complete(open_reply(Nfs4Status::NoEnt, true, vec![0x10]), &mut c, true, verf(1));
    assert_eq!((done.effect, c.current_stateid), (Effect::Nothing, None));
}

// ---------------------------------------------------------------------------
// Completing
// ---------------------------------------------------------------------------

fn done(h: HandlerReply) -> Completion {
    complete(h, &mut ctx(2), true, verf(0xfeed))
}

#[test]
fn copy_and_commit_report_the_same_write_verifier() {
    let mut server = Server { verifier: 0xfeed_0001, ..Server::default() };
    let copied = server.dispatch(request(2, vec![sequence(), copy(0)]));
    let copy_verf = match &copied.results[1] {
        OperationResult::Copy(Nfs4Status::NfsOk, Some(r)) => r.verifier,
        other => panic!("COPY did not succeed: {other:?}"),
    };
    let commit = Operation::Commit { offset: 0, count: 4096 };
    let committed = server.dispatch(request(2, vec![sequence(), commit]));
    let commit_verf = match &committed.results[1] {
        OperationResult::Commit(Nfs4Status::NfsOk, Some(v)) => u64::from_be_bytes(*v),
        other => panic!("COMMIT did not succeed: {other:?}"),
    };
    assert_eq!(copy_verf, commit_verf);
    assert_ne!(copy_verf, 0);

    let mut r = CompoundResponse::new();
    r.results.push(OperationResult::Copy(
        Nfs4Status::NfsOk,
        Some(CopyResult {
            count: 4096,
            consecutive: true,
            synchronous: true,
            verifier: copy_verf,
        }),
    ));
    let encoded = r.encode();
    // status(4) tag_len(4) count(4) | opcode(4) status(4)
    // wr_callback_id count(4) wr_count(8) wr_committed(4) wr_writeverf(8)
    let verf_off = 4 + 4 + 4 + 4 + 4 + 4 + 8 + 4;
    let on_wire = u64::from_be_bytes(encoded[verf_off..verf_off + 8].try_into().unwrap());
    assert_eq!(on_wire, copy_verf);
}

#[test]
fn a_write_verifier_is_not_zero() {
    assert!(WriteVerifier::new(0).is_none());
    assert_eq!(WriteVerifier::new(1).unwrap().get(), 1);
    assert_eq!(WriteVerifier::new(u64::MAX).unwrap().get(), u64::MAX);
}

#[test]
fn a_revocation_is_on_the_next_sequence() {
    let raised = SEQ4_RECALLABLE_STATE_REVOKED | SEQ4_CB_PATH_DOWN;
    let mut server = Server { flags: raised, ..Server::default() };
    match &server.dispatch(request(1, vec![sequence()])).results[0] {
        OperationResult::Sequence(Nfs4Status::NfsOk, Some(r)) => {
            assert_eq!(r.status_flags, 0x41);
        }
        other => panic!("{:?}", other),
    }
}

#[test]
fn a_session_is_bound_to_its_connection() {
    let s = SessionId([2; 16]);
    let mut c = ctx(1);
    let reply = |status: Nfs4Status| HandlerReply::Sequence {
        status,
        sessionid: s,
        sequenceid: 3,
        slotid: 1,
        highest_slotid: 4,
        target_highest_slotid: 5,
        status_flags: 0x41,
    };
    let d = complete(reply(Nfs4Status::BadSession), &mut c, false, verf(1));
    assert_eq!((d.effect, c.session_id), (Effect::Nothing, None));
    let d = complete(reply(Nfs4Status::NfsOk), &mut c, false, verf(1));
    assert_eq!(d.effect, Effect::Bind { sessionid: s, back: false });
    assert_eq!(c.session_id, Some(s));
    match d.result {
        OperationResult::Sequence(Nfs4Status::NfsOk, Some(r)) => {
            assert_eq!((r.sequenceid, r.slotid, r.highest_slotid), (3, 1, 4));
            assert_eq!((r.target_highest_slotid, r.status_flags), (5, 0x41));
        }
        other => panic!("{:?}", other),
    }
    let d = done(HandlerReply::DestroySession { status: Nfs4Status::NfsOk, sessionid: s });
    assert_eq!(d.effect, Effect::Unbind(s));
}

#[test]
fn connections_are_kept_per_session() {
    let (a, b) = (SessionId([1; 16]), SessionId([2; 16]));
    let mut t = new_table();
    bind_conn_to_session(&mut t, &a, Some(10), &vec![10]);
    assert!(conn_bound_to_session(&t, &a, Some(10)));
    assert!(!conn_bound_to_session(&t, &a, Some(11)));
    assert!(!conn_bound_to_session(&t, &b, Some(10)));
    assert!(conn_bound_to_session(&t, &b, None), "a call without a connection");
    // Connections that are gone are forgotten when another is bound.
    bind_conn_to_session(&mut t, &a, Some(11), &vec![11]);
    assert!(!conn_bound_to_session(&t, &a, Some(10)));
    assert!(conn_bound_to_session(&t, &a, Some(11)));
    bind_conn_to_session(&mut t, &a, None, &vec![]);
    assert!(conn_bound_to_session(&t, &a, Some(11)));
    unbind_session(&mut t, &a);
    assert!(!conn_bound_to_session(&t, &a, Some(11)));

    let mut back = new_table();
    bind_back_channel(&mut back, &a, 5);
    bind_back_channel(&mut back, &a, 6);
    bind_back_channel(&mut back, &a, 5);
    assert_eq!(back_channels(&back, &a), vec![5, 6]);
    assert!(back_channels(&back, &b).is_empty());
}

#[test]
fn a_stateid_in_use_is_not_freed() {
    let free = |e: Option<StateEntry>| {
        let d = done(HandlerReply::FreeStateId(e));
        (d.result.status(), d.effect)
    };
    let entry = |state_type: StateType, revoked: bool| Some(StateEntry { state_type, revoked });
    assert_eq!(free(None), (Nfs4Status::NfsOk, Effect::Nothing));
    assert_eq!(free(entry(StateType::Open, true)), (Nfs4Status::NfsOk, Effect::CloseState));
    assert_eq!(free(entry(StateType::Open, false)), (Nfs4Status::LocksHeld, Effect::Nothing));
    assert_eq!(free(entry(StateType::Lock, false)), (Nfs4Status::LocksHeld, Effect::Nothing));
    assert_eq!(
        free(entry(StateType::Delegation, false)),
        (Nfs4Status::NfsOk, Effect::RevokeState)
    );
    match done(HandlerReply::TestStateId(vec![true, false])).result {
        OperationResult::TestStateId(Nfs4Status::NfsOk, Some(v)) => {
            assert_eq!(v, vec![Nfs4Status::NfsOk, Nfs4Status::BadStateId]);
        }
        other => panic!("{:?}", other),
    }
}

#[test]
fn io_through_the_data_servers_is_answered_as_io() {
    assert_eq!(done(HandlerReply::ProxyRead(None)).result.status(), Nfs4Status::Delay);
    let wrote = |o: ProxyWriteOutcome| done(HandlerReply::ProxyWrite(o)).result;
    assert_eq!(wrote(ProxyWriteOutcome::Failed).status(), Nfs4Status::Delay);
    assert_eq!(wrote(ProxyWriteOutcome::SizeFailed).status(), Nfs4Status::Io);
    match wrote(ProxyWriteOutcome::Written { len: 9 }) {
        OperationResult::Write(Nfs4Status::NfsOk, Some(w)) => {
            assert_eq!((w.count, w.committed), (9, 2));
            assert_eq!(w.verifier, 0xfeedu64.to_be_bytes());
        }
        other => panic!("{:?}", other),
    }
    assert_eq!(proxy_write_end(10, 5, 12), Some(15));
    assert_eq!(proxy_write_end(10, 5, 15), None);
    assert_eq!(proxy_write_end(u64::MAX, 5, 0), Some(u64::MAX));
}

#[test]
fn the_data_servers_hear_of_what_is_gone() {
    let removed = |status: Nfs4Status| HandlerReply::Remove { status, change_info: None };
    assert_eq!(done(removed(Nfs4Status::NfsOk)).effect, Effect::Removed);
    assert_eq!(done(removed(Nfs4Status::NoEnt)).effect, Effect::Nothing);
    assert_eq!(
        complete(removed(Nfs4Status::NfsOk), &mut ctx(1), false, verf(1)).effect,
        Effect::Nothing
    );
    let renamed = HandlerReply::Rename {
        status: Nfs4Status::NfsOk,
        source_cinfo: None,
        target_cinfo: None,
    };
    assert_eq!(done(renamed).effect, Effect::Renamed);
    // The bitmap is believed, not the status.
    let set = HandlerReply::SetAttr {
        status: Nfs4Status::Access,
        attrsset: vec![0x10],
        requested: Some(3),
    };
    assert_eq!(done(set).effect, Effect::Truncate(3));
}

#[test]
fn attributes_are_taken_apart_and_put_together() {
    let blob = Bytes::from_static(&[0, 0, 0, 1, 0, 0, 0, 0x10, 0, 0, 0, 2, 7, 8]);
    let f = unpack_fattr(blob).unwrap();
    assert_eq!((f.attrmask, f.attr_vals), (vec![0x10], vec![7, 8]));
    assert!(unpack_fattr(Bytes::from_static(&[0, 0, 0, 9])).is_none());
    assert!(unpack_fattr(Bytes::from_static(&[0, 0])).is_none());
    let broken = Operation::SetAttr { stateid: sid(1), attrs: Bytes::from_static(&[0]) };
    assert!(matches!(
        answered(broken, &mut ctx(1), &facts()),
        OperationResult::SetAttr(Nfs4Status::BadXdr, v) if v.is_empty()
    ));
    let wire = encode_fattr(Some(Fattr4 { attrmask: vec![1, 2], attr_vals: vec![9] }));
    assert_eq!(
        wire.to_vec(),
        vec![0, 0, 0, 2, 0, 0, 0, 1, 0, 0, 0, 2, 0, 0, 0, 1, 9, 0, 0, 0]
    );
    assert!(encode_fattr(None).is_empty());
    assert_eq!(decode_verify(wire).unwrap().attr_vals, vec![9]);
}

#[test]
fn verify_and_nverify_answer_opposites() {
    let f = |mask: u32, vals: &[u8]| Fattr4 { attrmask: vec![mask], attr_vals: vals.to_vec() };
    let ask = |n: bool, have: Option<Fattr4>| {
        handle_verify(n, f(2, &[1]), Nfs4Status::NfsOk, have).status()
    };
    assert_eq!(ask(false, Some(f(2, &[1]))), Nfs4Status::NfsOk);
    assert_eq!(ask(true, Some(f(2, &[1]))), Nfs4Status::Same);
    assert_eq!(ask(false, Some(f(2, &[0]))), Nfs4Status::NotSame);
    assert_eq!(ask(true, Some(f(2, &[0]))), Nfs4Status::NfsOk);
    assert_eq!(ask(false, Some(f(1, &[1]))), Nfs4Status::AttrNotsupp);
    assert_eq!(ask(false, None), Nfs4Status::ServerFault);
    let stale = handle_verify(true, f(2, &[1]), Nfs4Status::Stale, None);
    assert!(matches!(stale, OperationResult::Nverify(Nfs4Status::Stale)));
    let bad = Operation::Verify { attrs: Bytes::from_static(&[0, 0, 0, 1]) };
    assert_eq!(answered(bad, &mut ctx(1), &facts()).status(), Nfs4Status::BadXdr);
}
