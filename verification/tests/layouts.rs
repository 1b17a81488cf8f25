use bytes::BytesMut;
use flint_nfs::compound::{LayoutReturn4Body, OperationResult};
use flint_nfs::dispatcher::layout::codec::{
    encode_device_addr, encode_file_layout, encode_file_layout_numbered,
    encode_file_layout_striped, endpoint_to_uaddr, frame_getdeviceinfo_reply, io_mode,
    is_pnfs_opcode, layout_type_served, slot_requests, stateid_octets, DeviceAddr4, IoMode, LayoutClass,
    LayoutSegment, LayoutType, SlotRequest,
};
use flint_nfs::dispatcher::layout::commit::{
    begin_layoutcommit, commit_size, commit_time, commit_verdict, complete_layoutcommit, Applied,
    CommitFacts, CommitOutcome,
};
use flint_nfs::dispatcher::layout::device::{
    begin_getdeviceinfo, complete_getdeviceinfo, scsi_device_reply, DeviceStep,
};
use flint_nfs::dispatcher::layout::get::{
    begin_layoutget, complete_layoutget, complete_scsi_layoutget, grant_refusal, layout_key,
    scsi_request, ExtentAllocError, GrantOutcome, Layout, LayoutGetError, LayoutGetFacts,
    LayoutGetResult, LayoutGetStep, LayoutRequest, ScsiFacts, GRANT_LIMIT,
};
use flint_nfs::dispatcher::layout::give_back::{
    begin_layoutreturn, clamp_length, complete_layoutreturn, rows_to_drop, LayoutReturnError,
    LayoutReturnStep, LayoutReturnType, TakenLayout,
};
use flint_nfs::dispatcher::layout::scsi::{
    encode_scsi_device_addr, encode_scsi_layout, extents_fit, hostnqn_from_co_ownerid,
    scsi_read_segments, scsi_write_segments, span, GrantedExtent, ScsiSegment,
};
use flint_nfs::protocol::{opcode, Nfs4Status, SessionId, StateId};
use flint_nfs::xdr::XdrDecoder;

#[test]
fn multipath_device_addr_encoding_shape() {
    let addr = DeviceAddr4 {
        netid: "tcp".to_string(),
        ds_list: vec![
            vec!["10.0.0.1:2049".to_string(), "10.0.1.1:2049".to_string()],
            vec!["10.0.0.2:2049".to_string()],
        ],
    };
    let body = encode_device_addr(&addr);
    let mut d = XdrDecoder::new(body);

    // stripe_indices: exactly one index per DS, in order.
    assert_eq!(d.decode_u32().unwrap(), 2);
    assert_eq!(d.decode_u32().unwrap(), 0);
    assert_eq!(d.decode_u32().unwrap(), 1);

    // ds_list: DS[0] carries BOTH its addresses, DS[1] one.
    assert_eq!(d.decode_u32().unwrap(), 2);

    assert_eq!(d.decode_u32().unwrap(), 2); // DS[0] multipath count
    assert_eq!(d.decode_string().unwrap(), "tcp");
    assert_eq!(d.decode_string().unwrap(), "10.0.0.1.8.1");
    assert_eq!(d.decode_string().unwrap(), "tcp");
    assert_eq!(d.decode_string().unwrap(), "10.0.1.1.8.1");

    assert_eq!(d.decode_u32().unwrap(), 1); // DS[1] multipath count
    assert_eq!(d.decode_string().unwrap(), "tcp");
    assert_eq!(d.decode_string().unwrap(), "10.0.0.2.8.1");
}

#[test]
fn what_is_no_endpoint_stays_as_it_is() {
    assert_eq!(endpoint_to_uaddr("10.42.214.18:2049"), "10.42.214.18.8.1");
    assert_eq!(endpoint_to_uaddr("host:65535"), "host.255.255");
    assert_eq!(endpoint_to_uaddr("host:65536"), "host:65536");
    assert_eq!(endpoint_to_uaddr("host"), "host");
    assert_eq!(endpoint_to_uaddr("2049"), "2049");
    assert_eq!(endpoint_to_uaddr("host:"), "host:");
}

/// nfl_first_stripe_index sits after the 16-byte deviceid and the 4-byte
/// nfl_util in the encoded nfsv4_1_file_layout4.
fn encoded_first_stripe_index(fh: &[u8], file_id: u64, n_ds: usize) -> u32 {
    let stripe_fhs: Vec<Vec<u8>> = (0..n_ds).map(|i| vec![i as u8; 4]).collect();
    let enc = encode_file_layout_striped(&stripe_fhs, fh, 8 << 20, &[0xd5; 16], file_id);
    u32::from_be_bytes(enc[20..24].try_into().unwrap())
}

#[test]
fn striped_layout_rotates_first_stripe_index_per_file_id() {
    for file_id in 1..=32u64 {
        assert_eq!(
            encoded_first_stripe_index(b"any-fh", file_id, 4),
            (file_id % 4) as u32,
            "file_id {} must rotate to file_id % N",
            file_id,
        );
    }

    // Always inside the stripe count, for stripe widths that are not
    // powers of two.
    for n in [1usize, 2, 3, 5, 7] {
        for file_id in [1u64, 2, 9, 1_000_003, u64::MAX] {
            assert!(encoded_first_stripe_index(b"fh", file_id, n) < n as u32);
        }
    }

    // Across a sample of file_ids every DS is used as a starting point.
    let mut seen = std::collections::HashSet::new();
    for file_id in 1..=64u64 {
        seen.insert(encoded_first_stripe_index(b"fh", file_id, 4));
    }
    assert_eq!(seen.len(), 4, "rotation does not reach every DS");
}

#[test]
fn striped_layout_rotation_survives_rename() {
    const FILE_ID: u64 = 0xDEAD_BEEF;
    let expected = (FILE_ID % 4) as u32;
    for fh in [
        b"fh-before-rename".as_ref(),
        b"a-completely-different-fh",
        b"/exports/data/train-00001.tfrecord",
        b"\x02\x00\x00\x00\x00\x00\x00\x00\x01",
        b"x",
        b"",
    ] {
        assert_eq!(
            encoded_first_stripe_index(fh, FILE_ID, 4),
            expected,
            "rotation must depend on file_id alone, not the filehandle",
        );
    }
}

#[test]
fn striped_layout_legacy_pins_rotate_on_filehandle() {
    assert_eq!(
        encoded_first_stripe_index(b"file-A", 0, 2),
        encoded_first_stripe_index(b"file-A", 0, 2)
    );

    // Distinct from the identity-keyed arm.
    let legacy = encoded_first_stripe_index(b"probe", 0, 4);
    let probe_file_id = (legacy as u64 + 1) % 4 + 4;
    assert_ne!(probe_file_id, 0);
    let identity = encoded_first_stripe_index(b"probe", probe_file_id, 4);
    assert_ne!(legacy, identity);

    let mut seen = std::collections::HashSet::new();
    for i in 0..16u8 {
        seen.insert(encoded_first_stripe_index(&[b'f', i], 0, 2));
    }
    assert_eq!(seen.len(), 2, "legacy rotation never picks the second DS");
}

#[test]
fn a_file_layout_is_laid_out_octet_for_octet() {
    let fhs = vec![vec![1u8, 2, 3], vec![4u8]];
    let enc = encode_file_layout_striped(&fhs, b"fh", 8 << 20, &[7; 16], 5);
    let mut want = vec![7u8; 16];
    want.extend_from_slice(&(8u32 << 20).to_be_bytes());
    want.extend_from_slice(&1u32.to_be_bytes()); // 5 % 2
    want.extend_from_slice(&0u64.to_be_bytes());
    want.extend_from_slice(&2u32.to_be_bytes());
    want.extend_from_slice(&[0, 0, 0, 3, 1, 2, 3, 0]);
    want.extend_from_slice(&[0, 0, 0, 1, 4, 0, 0, 0]);
    assert_eq!(enc.to_vec(), want);
    // Without an identity of its own the list of filehandles is empty.
    let enc = encode_file_layout_striped(&fhs, b"fh", 1, &[7; 16], 0);
    assert_eq!(enc.len(), 16 + 4 + 4 + 8 + 4);
    assert_eq!(&enc[32..36], &[0, 0, 0, 0]);
    assert!(encode_file_layout_striped(&vec![], b"fh", 1, &[7; 16], 5).is_empty());
}

#[test]
fn a_layout_on_one_data_server_names_its_device_twice() {
    let segment = |name: &str| LayoutSegment {
        device_id: name.to_string(),
        stripe_index: 3,
        pattern_offset: 0x0102,
    };
    let mut want = vec![0, 0, 0, 0, 0, 0, 0, 9, 0, 0, 0, 0, 0, 0, 0, 9];
    want.extend_from_slice(&(1u32 << 16).to_be_bytes());
    want.extend_from_slice(&3u32.to_be_bytes());
    want.extend_from_slice(&0x0102u64.to_be_bytes());
    want.extend_from_slice(&[0, 0, 0, 1, 0, 0, 0, 2, 7, 8, 0, 0]);
    let enc = encode_file_layout_numbered(9, &segment("ds-1"), &[7, 8], (1 << 16) + (1 << 40));
    assert_eq!(enc.to_vec(), want);
    let enc = encode_file_layout(&segment("ds-1"), &[7, 8], 1 << 16);
    assert_eq!(&enc[0..8], &enc[8..16]);
    assert_eq!(&enc[16..], &want[16..]);
    let other = encode_file_layout(&segment("ds-2"), &[7, 8], 1 << 16);
    assert_ne!(&enc[0..8], &other[0..8]);
}

#[test]
fn a_slot_is_named_by_the_file_and_its_place() {
    let slot = |stripe_index: u32| SlotRequest { instance_id: 0, file_id: 77, stripe_index };
    assert_eq!(slot_requests(77, 3), vec![slot(0), slot(1), slot(2)]);
    assert!(slot_requests(77, 0).is_empty());
}

#[test]
fn only_the_served_layout_types_are_accepted() {
    assert_eq!(layout_type_served(1), Ok(LayoutType::NfsV4_1Files));
    assert_eq!(layout_type_served(5), Ok(LayoutType::Scsi));
    assert_eq!(layout_type_served(4), Err(Nfs4Status::UnknownLayoutType));
    for t in [0u32, 2, 3, 99, u32::MAX] {
        assert_eq!(layout_type_served(t), Err(Nfs4Status::UnknownLayoutType), "layout type {}", t);
    }
    assert_eq!(Nfs4Status::UnknownLayoutType.to_u32(), 10062);
    assert_eq!((io_mode(1), io_mode(2)), (Some(IoMode::Read), Some(IoMode::ReadWrite)));
    assert_eq!((io_mode(3), io_mode(4)), (Some(IoMode::Any), None));
    assert!(is_pnfs_opcode(opcode::LAYOUTGET) && is_pnfs_opcode(opcode::GETDEVICEINFO));
    assert!(!is_pnfs_opcode(opcode::READ));
}

#[test]
fn scsi_device_addr_encoding_shape() {
    let nguid: [u8; 16] = *b"0123456789abcdef";
    let body = encode_scsi_device_addr(&nguid, 0xDEAD_BEEF_CAFE_F00D);
    let mut want = BytesMut::new();
    want.extend_from_slice(&1u32.to_be_bytes()); // sda_volumes<> len
    want.extend_from_slice(&4u32.to_be_bytes()); // PNFS_SCSI_VOLUME_BASE
    want.extend_from_slice(&1u32.to_be_bytes()); // PS_CODE_SET_BINARY
    want.extend_from_slice(&2u32.to_be_bytes()); // PS_DESIGNATOR_EUI64
    want.extend_from_slice(&16u32.to_be_bytes()); // sd_designator len
    want.extend_from_slice(&nguid); // 16 bytes, no pad needed
    want.extend_from_slice(&0xDEAD_BEEF_CAFE_F00Du64.to_be_bytes());
    assert_eq!(&body[..], &want[..]);
}

#[test]
fn getdeviceinfo_maxcount_toosmall_carries_mincount() {
    let body = [0u8; 40];
    // Total = 4 (type) + 4 (opaque len) + 40 + 4 (notify) = 52.
    match frame_getdeviceinfo_reply(5, &body, 51) {
        OperationResult::GetDeviceInfo(Nfs4Status::TooSmall, Some(b)) => {
            assert_eq!(&b[..], &52u32.to_be_bytes());
        }
        other => panic!("expected TooSmall with mincount, got {:?}", other),
    }
    match frame_getdeviceinfo_reply(5, &body, 52) {
        OperationResult::GetDeviceInfo(Nfs4Status::NfsOk, Some(b)) => {
            assert_eq!(b.len(), 52);
            assert_eq!(&b[0..4], &5u32.to_be_bytes(), "echoes the layout type");
        }
        other => panic!("expected Ok, got {:?}", other),
    }
    // maxcount 0 = the client declared no ceiling.
    assert!(matches!(
        frame_getdeviceinfo_reply(5, &body, 0),
        OperationResult::GetDeviceInfo(Nfs4Status::NfsOk, Some(_))
    ));
}

#[test]
fn hostnqn_derivation_handles_the_kernel_owner_shapes() {
    let derive = |s: &str| hostnqn_from_co_ownerid(s.as_bytes());
    assert_eq!(
        derive("Linux NFSv4.1 worker-3"),
        Some("nqn.2024-11.com.flint:node:worker-3".to_string()),
        "plain uniform shape"
    );
    assert_eq!(
        derive("Linux NFSv4.2 my-uniq-id/worker-3"),
        Some("nqn.2024-11.com.flint:node:worker-3".to_string()),
        "uniquifier shape: nodename is the LAST /-component"
    );
    assert_eq!(derive("Linux NFSv4.0 worker-3/10.0.0.7"), None);
    assert_eq!(derive("pynfs-owner-12345"), None, "non-Linux owners refuse");
    assert_eq!(derive("Linux NFSv4.1 "), None, "empty nodename refuses");
    assert_eq!(hostnqn_from_co_ownerid(&[0xff, 0xfe]), None, "non-UTF8 owners refuse");
}

fn ext(lo: u64, len: u64, phys: u64) -> GrantedExtent {
    GrantedExtent {
        logical_offset: lo,
        length: len,
        physical_offset: phys,
        generation: 1,
        committed: true,
        needs_scrub: false,
    }
}

#[test]
fn read_segments_tile_the_window_with_none_data_holes() {
    // Window [4096, 4096+24576); committed extents [0,8192) (clipped)
    // and [16384, 20480): leading part-overlap, interior hole, trailing hole.
    let segs =
        scsi_read_segments(&vec![ext(0, 8192, 100_000), ext(16384, 4096, 200_000)], 4096, 24576);
    let flat: Vec<(u64, u64, u64, u32)> =
        segs.iter().map(|s| (s.file_offset, s.length, s.storage_offset, s.state)).collect();
    assert_eq!(
        flat,
        vec![
            (4096, 4096, 104_096, 1), // clipped READ_DATA, phys shifted
            (8192, 8192, 0, 3),       // interior hole
            (16384, 4096, 200_000, 1),
            (20480, 8192, 0, 3), // trailing hole
        ]
    );
    // Contiguity.
    let mut cursor = 4096;
    for (off, len, _, state) in &flat {
        assert_eq!(*off, cursor, "gapless tiling");
        assert_ne!(*state, 0, "no RW_DATA in a read layout");
        assert_ne!(*state, 2, "no INVALID_DATA in a read layout");
        cursor = off + len;
    }
    assert_eq!(cursor, 4096 + 24576, "window fully covered");

    // Empty file: the whole window is one NONE_DATA hole.
    let segs = scsi_read_segments(&vec![], 0, 4096);
    assert_eq!(segs.len(), 1);
    assert_eq!((segs[0].file_offset, segs[0].length, segs[0].state), (0, 4096, 3));
}

#[test]
fn write_segments_show_what_is_not_committed() {
    let mut fresh = ext(8192, 4096, 50);
    fresh.committed = false;
    let extents = vec![fresh, ext(0, 4096, 10)];
    let segs = scsi_write_segments(&extents);
    assert_eq!(
        segs,
        vec![
            ScsiSegment { file_offset: 8192, length: 4096, storage_offset: 50, state: 2 },
            ScsiSegment { file_offset: 0, length: 4096, storage_offset: 10, state: 0 },
        ]
    );
    assert_eq!(span(&extents), (0, 12288));
    let body = encode_scsi_layout(&segs, &[9; 16]);
    assert_eq!(body.len(), 4 + 2 * (16 + 8 + 8 + 8 + 4));
    assert_eq!(&body[0..4], &[0, 0, 0, 2]);
    assert!(extents_fit(&extents));
    assert!(!extents_fit(&vec![ext(u64::MAX, 1, 0)]));
    assert!(!extents_fit(&vec![ext(0, 2, u64::MAX)]));
    assert!(extents_fit(&vec![ext(0, 1, u64::MAX)]));
}

// ---------------------------------------------------------------------------
// LAYOUTGET
// ---------------------------------------------------------------------------

fn request(layout_type: u32, iomode: u32) -> LayoutRequest {
    LayoutRequest {
        signal_layout_avail: false,
        layout_type,
        iomode,
        offset: 10,
        length: 20,
        minlength: 5,
        stateid: StateId { seqid: 3, other: [8; 12] },
        maxcount: 4096,
    }
}

fn facts() -> LayoutGetFacts {
    LayoutGetFacts {
        pnfs: true,
        filehandle: Some(vec![1, 2]),
        file_key: Some("vol/f".to_string()),
        session: Some(SessionId([4; 16])),
        client_id: 77,
        class: LayoutClass::File,
    }
}

fn refusal(r: LayoutRequest, f: LayoutGetFacts) -> Nfs4Status {
    match begin_layoutget(r, f) {
        LayoutGetStep::Refuse(s) => s,
        other => panic!("{:?}", other),
    }
}

#[test]
fn a_layoutget_is_refused_in_order() {
    let mut f = facts();
    f.pnfs = false;
    f.filehandle = None;
    assert_eq!(refusal(request(9, 9), f), Nfs4Status::NotSupp);
    let mut f = facts();
    f.filehandle = None;
    assert_eq!(refusal(request(9, 9), f), Nfs4Status::NoFileHandle);
    let mut f = facts();
    f.file_key = None;
    assert_eq!(refusal(request(9, 9), f), Nfs4Status::Stale);
    let mut f = facts();
    f.session = None;
    assert_eq!(refusal(request(9, 9), f), Nfs4Status::OpNotInSession);
    assert_eq!(refusal(request(5, 1), facts()), Nfs4Status::UnknownLayoutType);
    assert_eq!(refusal(request(4, 1), facts()), Nfs4Status::UnknownLayoutType);
    assert_eq!(refusal(request(1, 9), facts()), Nfs4Status::BadIoMode);
    let mut f = facts();
    f.class = LayoutClass::Scsi;
    assert_eq!(refusal(request(1, 1), f), Nfs4Status::UnknownLayoutType);
}

#[test]
fn a_layoutget_asks_the_metadata_server() {
    match begin_layoutget(request(1, 3), facts()) {
        LayoutGetStep::Files(a) => {
            assert_eq!((a.layout_type, a.iomode), (LayoutType::NfsV4_1Files, IoMode::Any));
            assert_eq!((a.offset, a.length, a.minlength, a.maxcount), (10, 20, 5, 4096));
            assert_eq!(a.stateid, [0, 0, 0, 3, 8, 8, 8, 8, 8, 8, 8, 8, 8, 8, 8, 8]);
            assert_eq!((a.filehandle, a.file_key.as_str()), (vec![1, 2], "vol/f"));
            assert_eq!((a.owner.client_id, a.owner.fsid), (77, 1));
            assert_eq!(a.owner.session_id, SessionId([4; 16]));
        }
        other => panic!("{:?}", other),
    }
    let mut f = facts();
    f.file_key = Some(String::new());
    f.class = LayoutClass::Scsi;
    match begin_layoutget(request(5, 1), f) {
        LayoutGetStep::Scsi { file_key, owner, .. } => {
            assert_eq!((file_key.as_str(), owner.client_id), ("/", 77));
        }
        other => panic!("{:?}", other),
    }
    assert_eq!(layout_key("a".to_string()), "a");
    let s = StateId { seqid: 0x0102_0304, other: [5; 12] };
    assert_eq!(&stateid_octets(&s)[0..5], &[1, 2, 3, 4, 5]);
}

fn granted(stripes: usize) -> LayoutGetResult {
    LayoutGetResult {
        return_on_close: true,
        stateid: [6; 16],
        layouts: vec![Layout {
            offset: 0,
            length: u64::MAX,
            stripe_fhs: vec![vec![1]; stripes],
            stripe_unit: 4096,
            device_id: [2; 16],
            file_id: 9,
        }],
    }
}

#[test]
fn a_grant_goes_out_with_its_stateid() {
    match complete_layoutget(Ok(granted(2)), 2, b"fh") {
        OperationResult::LayoutGet(Nfs4Status::NfsOk, Some(b)) => {
            let mut d = XdrDecoder::new(b);
            assert!(d.decode_bool().unwrap());
            assert_eq!(d.decode_fixed_opaque(16).unwrap().as_ref(), &[6; 16]);
            assert_eq!(d.decode_u32().unwrap(), 1);
            assert_eq!(d.decode_u64().unwrap(), 0);
            assert_eq!(d.decode_u64().unwrap(), u64::MAX);
            assert_eq!(d.decode_u32().unwrap(), 2); // iomode
            assert_eq!(d.decode_u32().unwrap(), 1); // LAYOUT4_NFSV4_1_FILES
            let content = d.decode_opaque().unwrap();
            assert_eq!(&content[0..16], &[2; 16]);
            assert_eq!(&content[20..24], &[0, 0, 0, 1]); // 9 % 2
            assert_eq!(d.remaining(), 0);
        }
        other => panic!("{:?}", other),
    }
    let status = |r: OperationResult| r.status();
    assert_eq!(status(complete_layoutget(Ok(granted(0)), 2, b"fh")), Nfs4Status::LayoutUnavail);
    assert_eq!(
        status(complete_layoutget(Err(LayoutGetError::TryLater), 2, b"fh")),
        Nfs4Status::LayoutTrylater
    );
    assert_eq!(
        status(complete_layoutget(Err(LayoutGetError::Unavailable), 2, b"fh")),
        Nfs4Status::LayoutUnavail
    );
}

fn scsi_facts() -> ScsiFacts {
    ScsiFacts {
        backend: true,
        client_id: 5,
        file_id: Some(12),
        owner: Some(b"Linux NFSv4.2 node-a".to_vec()),
    }
}

#[test]
fn a_request_for_extents_is_refused_in_order() {
    let ask = |key: &str, iomode: u32, offset: u64, length: u64, f: ScsiFacts| {
        scsi_request(key, iomode, offset, length, 0, f).unwrap_err()
    };
    assert_eq!(ask("v/f", 3, 0, 1, scsi_facts()), Nfs4Status::BadIoMode);
    let mut f = scsi_facts();
    f.backend = false;
    assert_eq!(ask("v/f", 1, 0, 1, f), Nfs4Status::LayoutUnavail);
    assert_eq!(ask("/", 1, 0, 1, scsi_facts()), Nfs4Status::LayoutUnavail);
    let mut f = scsi_facts();
    f.client_id = 0;
    assert_eq!(ask("v/f", 1, 0, 1, f), Nfs4Status::OpNotInSession);
    let mut f = scsi_facts();
    f.file_id = None;
    assert_eq!(ask("v/f", 1, 0, 1, f), Nfs4Status::Stale);
    assert_eq!(ask("v/f", 1, 0, 0, scsi_facts()), Nfs4Status::Inval);
    assert_eq!(ask("v/f", 1, u64::MAX, 1, scsi_facts()), Nfs4Status::Inval);
    let mut f = scsi_facts();
    f.owner = Some(b"pynfs".to_vec());
    assert_eq!(ask("v/f", 1, 0, 1, f), Nfs4Status::LayoutUnavail);
    let mut f = scsi_facts();
    f.owner = None;
    assert_eq!(ask("v/f", 1, 0, 1, f), Nfs4Status::LayoutUnavail);
}

#[test]
fn a_grant_is_capped_and_floored() {
    let ask = |offset: u64, length: u64, min: u64| {
        scsi_request("/vol/dir/f", 2, offset, length, min, scsi_facts()).unwrap()
    };
    let g = ask(0, u64::MAX, 0);
    assert_eq!((g.volume.as_str(), g.file_id, g.client_id), ("vol", 12, 5));
    assert_eq!((g.length, g.read), (GRANT_LIMIT, false));
    assert_eq!(g.host_nqn, "nqn.2024-11.com.flint:node:node-a");
    assert_eq!(ask(0, 10, 20).length, 20);
    assert_eq!(ask(0, u64::MAX, GRANT_LIMIT + 1).length, GRANT_LIMIT + 1);
    assert_eq!(ask(i64::MAX as u64 - 3, 10, 10).length, 3);
    assert!(scsi_request("v/f", 1, 0, 1, 0, scsi_facts()).unwrap().read);
}

#[test]
fn what_the_allocator_says_decides() {
    use_each(ExtentAllocError::Conflict, Nfs4Status::LayoutTrylater);
    use_each(ExtentAllocError::NotQuiescent, Nfs4Status::LayoutTrylater);
    use_each(ExtentAllocError::FencedClient, Nfs4Status::LayoutTrylater);
    use_each(ExtentAllocError::NoSpace, Nfs4Status::LayoutUnavail);
    use_each(ExtentAllocError::InvalidRange, Nfs4Status::Inval);
    use_each(ExtentAllocError::CommitRejected, Nfs4Status::ServerFault);
    use_each(ExtentAllocError::Corruption, Nfs4Status::ServerFault);
    use_each(ExtentAllocError::Sql, Nfs4Status::ServerFault);
    assert_eq!(grant_refusal(&GrantOutcome::NotAdmitted), Some(Nfs4Status::LayoutTrylater));
    assert_eq!(grant_refusal(&GrantOutcome::BackendFailed), Some(Nfs4Status::ServerFault));
    assert_eq!(grant_refusal(&GrantOutcome::Granted(vec![ext(0, 1, 1)])), None);
    let mut dirty = ext(0, 1, 1);
    dirty.needs_scrub = true;
    assert_eq!(
        grant_refusal(&GrantOutcome::Granted(vec![ext(0, 1, 1), dirty])),
        Some(Nfs4Status::LayoutUnavail)
    );
}

fn use_each(e: ExtentAllocError, want: Nfs4Status) {
    assert_eq!(grant_refusal(&GrantOutcome::Refused(e)), Some(want));
}

#[test]
fn extents_go_out_as_a_layout() {
    let read = scsi_request("v/f", 1, 4096, 8192, 0, scsi_facts()).unwrap();
    let reply = complete_scsi_layoutget(&read, &vec![ext(0, 8192, 100)], Some([1; 16]), &[2; 16]);
    let b = match reply {
        OperationResult::LayoutGet(Nfs4Status::NfsOk, Some(b)) => b,
        other => panic!("{:?}", other),
    };
    let mut d = XdrDecoder::new(b);
    assert!(d.decode_bool().unwrap());
    assert_eq!(d.decode_fixed_opaque(16).unwrap().as_ref(), &[1; 16]);
    assert_eq!(d.decode_u32().unwrap(), 1);
    assert_eq!((d.decode_u64().unwrap(), d.decode_u64().unwrap()), (4096, 8192));
    assert_eq!((d.decode_u32().unwrap(), d.decode_u32().unwrap()), (1, 5));
    let content = d.decode_opaque().unwrap();
    assert_eq!(&content[0..4], &[0, 0, 0, 2], "the extent and a hole");

    let write = scsi_request("v/f", 2, 4096, 8192, 0, scsi_facts()).unwrap();
    let extents = vec![ext(8192, 4096, 1), ext(4096, 4096, 2)];
    match complete_scsi_layoutget(&write, &extents, Some([1; 16]), &[2; 16]) {
        OperationResult::LayoutGet(Nfs4Status::NfsOk, Some(b)) => {
            assert_eq!(&b[24..32], &4096u64.to_be_bytes());
            assert_eq!(&b[32..40], &8192u64.to_be_bytes());
            assert_eq!(&b[40..44], &2u32.to_be_bytes());
        }
        other => panic!("{:?}", other),
    }
    // What cannot be registered cannot be recalled.
    assert_eq!(
        complete_scsi_layoutget(&write, &extents, None, &[2; 16]).status(),
        Nfs4Status::LayoutUnavail
    );
}

// ---------------------------------------------------------------------------
// GETDEVICEINFO, LAYOUTRETURN, LAYOUTCOMMIT
// ---------------------------------------------------------------------------

#[test]
fn a_device_is_named_by_sixteen_octets() {
    let id = [3u8; 20];
    let refused = |s: DeviceStep| match s {
        DeviceStep::Refuse(s) => s,
        other => panic!("{:?}", other),
    };
    assert_eq!(refused(begin_getdeviceinfo(&id, 1, false, true, 1)), Nfs4Status::NotSupp);
    assert_eq!(refused(begin_getdeviceinfo(&id[..15], 1, true, true, 1)), Nfs4Status::NoEnt);
    assert_eq!(refused(begin_getdeviceinfo(&id, 5, true, false, 1)), Nfs4Status::NoEnt);
    assert_eq!(refused(begin_getdeviceinfo(&id, 5, true, true, 0)), Nfs4Status::OpNotInSession);
    assert_eq!(refused(begin_getdeviceinfo(&id, 4, true, true, 1)), Nfs4Status::UnknownLayoutType);
    assert!(matches!(
        begin_getdeviceinfo(&id, 5, true, true, 9),
        DeviceStep::Scsi { device_id, pr_key: 9 } if device_id == [3; 16]
    ));
    assert!(matches!(
        begin_getdeviceinfo(&id, 1, true, false, 0),
        DeviceStep::Files { device_id, layout_type: LayoutType::NfsV4_1Files } if device_id == [3; 16]
    ));
}

#[test]
fn a_device_reply_says_how_much_room_it_takes() {
    let room = match scsi_device_reply(&[1; 16], 7, 10) {
        OperationResult::GetDeviceInfo(Nfs4Status::TooSmall, Some(b)) => {
            u32::from_be_bytes(b[..].try_into().unwrap())
        }
        other => panic!("{:?}", other),
    };
    assert_eq!(room, 12 + 4 * 5 + 16 + 8);
    assert_eq!(scsi_device_reply(&[1; 16], 7, room).status(), Nfs4Status::NfsOk);
    let addr = DeviceAddr4 { netid: "tcp".to_string(), ds_list: vec![vec!["h:1".to_string()]] };
    assert_eq!(complete_getdeviceinfo(Some(addr), 0).status(), Nfs4Status::NfsOk);
    assert_eq!(complete_getdeviceinfo(None, 0).status(), Nfs4Status::NoEnt);
}

fn one_file() -> LayoutReturn4Body {
    LayoutReturn4Body::File {
        offset: 1,
        length: 2,
        stateid: StateId { seqid: 9, other: [1; 12] },
        body: bytes::Bytes::from_static(b"xy"),
    }
}

#[test]
fn a_return_takes_more_than_is_granted() {
    let done = |s: LayoutReturnStep| match s {
        LayoutReturnStep::Done(s) => s,
        other => panic!("{:?}", other),
    };
    let all = LayoutReturn4Body::All;
    assert_eq!(
        done(begin_layoutreturn(false, 1, 1, all, false, Some(1))),
        Nfs4Status::NotSupp
    );
    let all = LayoutReturn4Body::All;
    assert_eq!(done(begin_layoutreturn(false, 1, 1, all, true, None)), Nfs4Status::OpNotInSession);
    let all = LayoutReturn4Body::All;
    assert_eq!(
        done(begin_layoutreturn(false, 2, 1, all, true, Some(1))),
        Nfs4Status::UnknownLayoutType
    );
    let all = LayoutReturn4Body::All;
    assert_eq!(done(begin_layoutreturn(false, 1, 9, all, true, Some(1))), Nfs4Status::BadIoMode);
    let bulk = LayoutReturn4Body::Fsid;
    assert_eq!(done(begin_layoutreturn(false, 5, 9, bulk, true, Some(1))), Nfs4Status::NfsOk);
    match begin_layoutreturn(true, 4, 3, one_file(), true, Some(8)) {
        LayoutReturnStep::Files(a) => {
            assert!(a.reclaim);
            assert_eq!((a.layout_type, a.iomode), (LayoutType::FlexFiles, IoMode::Any));
            assert_eq!((a.client_id, a.fsid), (8, 1));
            match a.return_type {
                LayoutReturnType::File { offset, length, stateid, layout_body } => {
                    assert_eq!((offset, length, layout_body), (1, 2, b"xy".to_vec()));
                    assert_eq!(&stateid[0..5], &[0, 0, 0, 9, 1]);
                }
                other => panic!("{:?}", other),
            }
        }
        other => panic!("{:?}", other),
    }
    assert!(matches!(
        begin_layoutreturn(false, 5, 9, one_file(), true, Some(8)),
        LayoutReturnStep::Scsi { offset: 1, length: 2, .. }
    ));
    assert_eq!(complete_layoutreturn(Ok(())), Nfs4Status::NfsOk);
    assert_eq!(complete_layoutreturn(Err(LayoutReturnError::BadStateId)), Nfs4Status::BadStateId);
    assert_eq!(complete_layoutreturn(Err(LayoutReturnError::Inval)), Nfs4Status::Inval);
    assert_eq!(
        complete_layoutreturn(Err(LayoutReturnError::UnknownLayoutType)),
        Nfs4Status::UnknownLayoutType
    );
}

#[test]
fn a_returned_layout_drops_its_grants() {
    let taken = |key: &str, file_id: u64| {
        Some(TakenLayout { client_id: 4, file_key: key.to_string(), file_id })
    };
    let rows = rows_to_drop(taken("vol/f", 3), true, 10, u64::MAX).unwrap();
    assert_eq!((rows.volume.as_str(), rows.file_id, rows.client_id), ("vol", 3, 4));
    assert_eq!((rows.offset, rows.length), (10, i64::MAX as u64 - 10));
    assert!(rows_to_drop(None, true, 0, 1).is_none());
    assert!(rows_to_drop(taken("vol/f", 3), false, 0, 1).is_none());
    assert!(rows_to_drop(taken("vol/f", 0), true, 0, 1).is_none());
    assert!(rows_to_drop(taken("//", 3), true, 0, 1).is_none());
    assert_eq!(clamp_length(u64::MAX, 5), 0);
    assert_eq!(clamp_length(0, 5), 5);
}

fn commit_facts() -> CommitFacts {
    CommitFacts {
        has_fh: true,
        resolved: true,
        scsi_key: Some("vol/f".to_string()),
        backend: true,
        client_id: 2,
        file_id: Some(6),
    }
}

#[test]
fn a_commit_is_refused_before_the_size_moves() {
    let ask = |t: u32, f: CommitFacts| begin_layoutcommit(1, 2, t, f).unwrap_err();
    let mut f = commit_facts();
    f.has_fh = false;
    assert_eq!(ask(5, f), Nfs4Status::NoFileHandle);
    let mut f = commit_facts();
    f.resolved = false;
    assert_eq!(ask(5, f), Nfs4Status::Stale);
    assert_eq!(ask(1, commit_facts()), Nfs4Status::UnknownLayoutType);
    let mut f = commit_facts();
    f.backend = false;
    assert_eq!(ask(5, f), Nfs4Status::ServerFault);
    let mut f = commit_facts();
    f.client_id = 0;
    assert_eq!(ask(5, f), Nfs4Status::OpNotInSession);
    let mut f = commit_facts();
    f.scsi_key = Some("/".to_string());
    assert_eq!(ask(5, f), Nfs4Status::BadLayout);
    let mut f = commit_facts();
    f.file_id = None;
    assert_eq!(ask(5, f), Nfs4Status::Stale);
    let g = begin_layoutcommit(1, u64::MAX, 5, commit_facts()).unwrap().unwrap();
    assert_eq!((g.volume.as_str(), g.file_id, g.client_id, g.offset), ("vol", 6, 2, 1));
    assert_eq!(g.length, i64::MAX as u64 - 1);
    let mut f = commit_facts();
    f.scsi_key = None;
    assert!(begin_layoutcommit(1, 2, 1, f).unwrap().is_none());
    assert_eq!(commit_verdict(CommitOutcome::Promoted), None);
    assert_eq!(
        commit_verdict(CommitOutcome::Refused(ExtentAllocError::FencedClient)),
        Some(Nfs4Status::BadLayout)
    );
    assert_eq!(commit_verdict(CommitOutcome::BackendFailed), Some(Nfs4Status::ServerFault));
}

#[test]
fn a_commit_lengthens_up_to_a_truncation() {
    assert_eq!(commit_size(Some(99), None, 0), Some(100));
    assert_eq!(commit_size(Some(99), None, 100), None);
    assert_eq!(commit_size(Some(99), Some(50), 0), Some(50));
    assert_eq!(commit_size(Some(99), Some(50), 60), None);
    assert_eq!(commit_size(Some(u64::MAX), None, 0), Some(u64::MAX));
    assert_eq!(commit_size(None, None, 0), None);
    assert_eq!(commit_time(Some((-5, 7))), Some((0, 7)));
    assert_eq!(commit_time(Some((5, 7))), Some((5, 7)));
    assert_eq!(commit_time(None), None);
    assert!(matches!(
        complete_layoutcommit(Applied::Size(Some(3))),
        OperationResult::LayoutCommit(Nfs4Status::NfsOk, Some(3))
    ));
    assert_eq!(complete_layoutcommit(Applied::Failed).status(), Nfs4Status::Io);
    assert_eq!(complete_layoutcommit(Applied::Lost).status(), Nfs4Status::ServerFault);
}
