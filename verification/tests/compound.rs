use bytes::{BufMut, Bytes, BytesMut};
use flint_nfs::compound::encode::encode_result;
use flint_nfs::compound::{
    decode_callback_sec_parms, encode_secinfo_flavors, encode_secinfo_flavors_with,
    CallbackSecParms, CompoundRequest, LayoutReturn4Body, Operation, OperationResult,
};
use flint_nfs::protocol::{opcode, Fattr4, Nfs4FileType, Nfs4Status};
use flint_nfs::sec_policy::{SecLevel, SecOffer, SecPolicy};
use flint_nfs::xdr::{checked_array_len, XdrDecoder, XdrEncoder, XdrError};

const ALL_LEVELS: [SecLevel; 5] =
    [SecLevel::AuthNone, SecLevel::Sys, SecLevel::Krb5, SecLevel::Krb5i, SecLevel::Krb5p];

fn sec_parms_bytes(entries: &[&[u8]]) -> Bytes {
    let mut v = Vec::new();
    v.extend_from_slice(&(entries.len() as u32).to_be_bytes());
    for e in entries {
        v.extend_from_slice(e);
    }
    Bytes::from(v)
}

/// An AUTH_SYS entry as a Linux client sends it.
fn linux_auth_sys_entry() -> Vec<u8> {
    let mut v = Vec::new();
    v.extend_from_slice(&1u32.to_be_bytes()); // AUTH_SYS
    v.extend_from_slice(&0xda039c49u32.to_be_bytes()); // stamp
    let name = b"ip-172-31-15-129.us-west-1.compute.internal"; // 43 bytes
    v.extend_from_slice(&(name.len() as u32).to_be_bytes());
    v.extend_from_slice(name);
    v.push(0); // XDR pad to a 4-byte boundary (43 -> 44)
    v.extend_from_slice(&0u32.to_be_bytes()); // uid
    v.extend_from_slice(&0u32.to_be_bytes()); // gid
    v.extend_from_slice(&0u32.to_be_bytes()); // gids<> empty
    v
}

/// A COMPOUND: tag "", minorversion 2, [COPY(args), GETATTR].
fn compound_with_copy(netloc: &[u8]) -> Bytes {
    let mut v = Vec::new();
    v.extend_from_slice(&0u32.to_be_bytes()); // tag<> empty
    v.extend_from_slice(&2u32.to_be_bytes()); // minorversion
    v.extend_from_slice(&2u32.to_be_bytes()); // 2 operations

    v.extend_from_slice(&opcode::COPY.to_be_bytes());
    for _ in 0..2 {
        v.extend_from_slice(&1u32.to_be_bytes()); // stateid seqid
        v.extend_from_slice(&[0u8; 12]); // stateid other
    }
    v.extend_from_slice(&0u64.to_be_bytes()); // ca_src_offset
    v.extend_from_slice(&0u64.to_be_bytes()); // ca_dst_offset
    v.extend_from_slice(&16u64.to_be_bytes()); // ca_count
    v.extend_from_slice(&0u32.to_be_bytes()); // ca_consecutive = FALSE
    v.extend_from_slice(&1u32.to_be_bytes()); // ca_synchronous = TRUE
    v.extend_from_slice(netloc); // ca_source_server<>

    v.extend_from_slice(&opcode::GETATTR.to_be_bytes());
    v.extend_from_slice(&0u32.to_be_bytes()); // attr bitmap<> empty

    Bytes::from(v)
}

#[test]
fn an_empty_source_server_list_leaves_the_next_operation_decodable() {
    let empty = 0u32.to_be_bytes().to_vec();
    let req =
        CompoundRequest::decode(XdrDecoder::new(compound_with_copy(&empty))).expect("decodes");
    assert_eq!(
        req.operations.len(),
        2,
        "the GETATTR after COPY must survive: {:?}",
        req.operations
    );
    assert!(matches!(req.operations[1], Operation::GetAttr(_)));
    match &req.operations[0] {
        Operation::Copy { source_server_count, count, .. } => {
            assert_eq!(*source_server_count, 0);
            assert_eq!(*count, 16);
        }
        other => panic!("expected COPY, got {other:?}"),
    }
}

#[test]
fn a_populated_source_server_list_is_consumed_arm_by_arm() {
    // One NL4_NETADDR entry: two strings, the second needing XDR pad.
    let mut netloc = Vec::new();
    netloc.extend_from_slice(&1u32.to_be_bytes()); // one entry
    netloc.extend_from_slice(&3u32.to_be_bytes()); // NL4_NETADDR
    netloc.extend_from_slice(&3u32.to_be_bytes()); // na_r_netid len
    netloc.extend_from_slice(b"tcp");
    netloc.push(0); // pad 3 -> 4
    netloc.extend_from_slice(&9u32.to_be_bytes()); // na_r_addr len
    netloc.extend_from_slice(b"10.0.0.1.");
    netloc.extend_from_slice(&[0, 0, 0]); // pad 9 -> 12

    let req =
        CompoundRequest::decode(XdrDecoder::new(compound_with_copy(&netloc))).expect("decodes");
    assert_eq!(req.operations.len(), 2, "GETATTR must still be reachable");
    assert!(matches!(req.operations[1], Operation::GetAttr(_)));
    match &req.operations[0] {
        Operation::Copy { source_server_count, .. } => assert_eq!(*source_server_count, 1),
        other => panic!("expected COPY, got {other:?}"),
    }
}

#[test]
fn a_name_arm_source_server_entry_is_consumed() {
    let mut netloc = Vec::new();
    netloc.extend_from_slice(&1u32.to_be_bytes());
    netloc.extend_from_slice(&1u32.to_be_bytes()); // NL4_NAME
    netloc.extend_from_slice(&4u32.to_be_bytes());
    netloc.extend_from_slice(b"srv1");

    let req =
        CompoundRequest::decode(XdrDecoder::new(compound_with_copy(&netloc))).expect("decodes");
    assert_eq!(req.operations.len(), 2);
    assert!(matches!(req.operations[1], Operation::GetAttr(_)));
}

#[test]
fn an_unknown_netloc_arm_is_a_decode_error_not_a_silent_skip() {
    let mut netloc = Vec::new();
    netloc.extend_from_slice(&1u32.to_be_bytes());
    netloc.extend_from_slice(&99u32.to_be_bytes()); // not a netloc_type4

    let req =
        CompoundRequest::decode(XdrDecoder::new(compound_with_copy(&netloc))).expect("decodes");
    assert!(
        matches!(req.operations[0], Operation::BadXdr(opcode::COPY)),
        "got {:?}",
        req.operations[0]
    );
}

#[test]
fn decodes_the_auth_sys_offer_a_real_linux_client_sends() {
    let buf = sec_parms_bytes(&[&linux_auth_sys_entry()]);
    let mut d = XdrDecoder::new(buf);
    let parsed = decode_callback_sec_parms(&mut d).expect("decodes");
    assert_eq!(
        parsed,
        vec![CallbackSecParms::Sys {
            stamp: 0xda039c49,
            machinename: "ip-172-31-15-129.us-west-1.compute.internal".into(),
            uid: 0,
            gid: 0,
            gids: vec![],
        }],
    );
}

#[test]
fn decodes_auth_none_and_an_empty_offer() {
    let none_entry = 0u32.to_be_bytes().to_vec();
    let mut d = XdrDecoder::new(sec_parms_bytes(&[&none_entry]));
    assert_eq!(decode_callback_sec_parms(&mut d).unwrap(), vec![CallbackSecParms::AuthNone]);

    let mut d = XdrDecoder::new(sec_parms_bytes(&[]));
    assert!(decode_callback_sec_parms(&mut d).unwrap().is_empty());
}

#[test]
fn gss_entry_is_consumed_so_later_entries_still_parse() {
    let mut gss = Vec::new();
    gss.extend_from_slice(&6u32.to_be_bytes()); // RPCSEC_GSS
    gss.extend_from_slice(&1u32.to_be_bytes()); // gcbp_service
    gss.extend_from_slice(&4u32.to_be_bytes()); // handle len
    gss.extend_from_slice(b"abcd");
    gss.extend_from_slice(&2u32.to_be_bytes()); // handle len
    gss.extend_from_slice(b"xy");
    gss.extend_from_slice(&[0, 0]); // pad to 4

    let buf = sec_parms_bytes(&[&gss, &linux_auth_sys_entry()]);
    let mut d = XdrDecoder::new(buf);
    let parsed = decode_callback_sec_parms(&mut d).expect("decodes past the GSS entry");
    assert_eq!(parsed.len(), 2);
    assert_eq!(parsed[0], CallbackSecParms::Gss);
    assert!(
        matches!(&parsed[1], CallbackSecParms::Sys { machinename, .. }
                 if machinename.starts_with("ip-172-31")),
        "the entry AFTER the GSS one must still frame correctly",
    );
}

#[test]
fn refuses_an_implausible_offer_rather_than_allocating() {
    let mut v = Vec::new();
    v.extend_from_slice(&9999u32.to_be_bytes());
    let mut d = XdrDecoder::new(Bytes::from(v));
    assert!(decode_callback_sec_parms(&mut d).is_err());
}

#[test]
fn wire_array_counts_are_bounded_before_allocating() {
    // A count that cannot possibly be described by the bytes left.
    const LIE: u32 = 0xFFFF_FFFF;

    // COMPOUND argarray
    let mut b = BytesMut::new();
    b.put_u32(0); // tag<> empty
    b.put_u32(1); // minorversion 1
    b.put_u32(LIE); // op_count, and then nothing at all
    let err = CompoundRequest::decode(XdrDecoder::new(b.freeze()))
        .expect_err("an impossible op_count must be refused");
    assert_eq!(err, XdrError::CountExceedsInput);
    assert!(err.describe().contains("exceeds"));

    // SETATTR bitmap4
    let mut b = BytesMut::new();
    b.put_u32(0);
    b.put_u32(0);
    b.put_u32(0); // stateid seqid + other(12)
    b.put_u32(0);
    b.put_u32(0);
    b.put_u32(LIE); // bitmap_len
    let mut d = XdrDecoder::new(b.freeze());
    assert!(
        CompoundRequest::decode_operation(&mut d, opcode::SETATTR).is_err(),
        "SETATTR bitmap4 length must be refused"
    );

    // TEST_STATEID stateid array
    let mut b = BytesMut::new();
    b.put_u32(LIE);
    let mut d = XdrDecoder::new(b.freeze());
    assert!(
        CompoundRequest::decode_operation(&mut d, opcode::TEST_STATEID).is_err(),
        "TEST_STATEID array length must be refused"
    );

    // The bound itself, both directions.
    assert!(checked_array_len(LIE, 12, 4).is_err());
    assert!(checked_array_len(3, 12, 4).is_ok()); // 3 x 4B fits in 12B
    assert!(checked_array_len(4, 12, 4).is_err()); // 4 x 4B does not
    assert_eq!(checked_array_len(1024, 4096, 4).unwrap(), 1024);
    assert_eq!(checked_array_len(0, 0, 4).unwrap(), 0);
}

#[test]
fn create_carries_createattrs_off_the_wire() {
    // CREATE args: type(NF4DIR=2), objname<>, createattrs(bitmap+attrs)
    let mut buf = BytesMut::new();
    buf.put_u32(2); // NF4DIR: no type-specific tail for a directory
    let name = b"workspace";
    buf.put_u32(name.len() as u32);
    buf.put_slice(name);
    buf.put_slice(&[0u8; 3]); // pad 9 -> 12
    // fattr4: bitmap4 with FATTR4_MODE (33) => word1 bit1.
    buf.put_u32(2); // two bitmap words
    buf.put_u32(0);
    buf.put_u32(1 << 1);
    // attrlist4: mode 0o700 as a 4-byte opaque
    buf.put_u32(4);
    buf.put_u32(0o700);

    let mut dec = XdrDecoder::new(buf.freeze());
    let op =
        CompoundRequest::decode_operation(&mut dec, opcode::CREATE).expect("CREATE must decode");

    match op {
        Operation::Create { objtype, objname, createattrs, .. } => {
            assert_eq!(objname, "workspace");
            assert!(matches!(objtype, Nfs4FileType::Directory));
            assert_eq!(
                createattrs.attrmask,
                vec![0u32, 1 << 1],
                "createattrs bitmap was dropped by the decoder"
            );
            assert_eq!(
                createattrs.attr_vals,
                0o700u32.to_be_bytes().to_vec(),
                "createattrs values were dropped by the decoder"
            );
        }
        other => panic!("expected Operation::Create, got {other:?}"),
    }
}

#[test]
fn test_getattr_response_encoding() {
    let mut attr_vals = BytesMut::new();
    attr_vals.put_u32(2); // NF4DIR (directory type)
    attr_vals.put_u64(4096); // size = 4096 bytes

    let fattr = Fattr4 {
        attrmask: vec![0x0000000A], // bits 1 and 3 set (TYPE=1, SIZE=3)
        attr_vals: attr_vals.to_vec(),
    };

    let mut dispatcher_buf = BytesMut::new();
    dispatcher_buf.put_u32(fattr.attrmask.len() as u32); // bitmap array length
    for &word in &fattr.attrmask {
        dispatcher_buf.put_u32(word);
    }
    dispatcher_buf.put_u32(fattr.attr_vals.len() as u32); // attr_vals length
    dispatcher_buf.put_slice(&fattr.attr_vals);
    let attrs_bytes = dispatcher_buf.freeze();

    let mut encoder = XdrEncoder::new();
    encode_result(
        &mut encoder,
        &OperationResult::GetAttr(Nfs4Status::NfsOk, Some(attrs_bytes)),
        &SecOffer::default(),
    );
    let encoded = encoder.finish();

    let mut decoder = XdrDecoder::new(encoded);
    let op = decoder.decode_u32().expect("decode opcode");
    assert_eq!(op, opcode::GETATTR);
    let status = decoder.decode_u32().expect("decode status");
    assert_eq!(status, Nfs4Status::NfsOk.to_u32());

    // Now comes the fattr4 structure DIRECTLY (not wrapped in opaque).
    let bitmap_len = decoder.decode_u32().expect("decode bitmap len");
    assert_eq!(bitmap_len, 1, "Should have 1 bitmap word");
    let bitmap_word0 = decoder.decode_u32().expect("decode bitmap word 0");
    assert_eq!(bitmap_word0, 0x0000000A, "Bitmap should have bits 1,3 set");
    let attr_vals_len = decoder.decode_u32().expect("decode attr_vals len");
    assert_eq!(attr_vals_len, 12, "attr_vals should be 12 bytes (u32 + u64)");
    let type_val = decoder.decode_u32().expect("decode type");
    assert_eq!(type_val, 2, "Type should be NF4DIR");
    let size_val = decoder.decode_u64().expect("decode size");
    assert_eq!(size_val, 4096, "Size should be 4096");
    assert_eq!(decoder.remaining(), 0, "Should have no remaining bytes");
}

#[test]
fn test_getattr_no_double_wrapping() {
    let attrs_bytes = vec![
        0x00, 0x00, 0x00, 0x01, // bitmap array length = 1
        0x00, 0x00, 0x00, 0x02, // bitmap word 0 = 0x02 (bit 1 = TYPE)
        0x00, 0x00, 0x00, 0x04, // attr_vals length = 4 bytes
        0x00, 0x00, 0x00, 0x01, // TYPE = NF4REG (regular file)
    ];

    let mut encoder = XdrEncoder::new();
    encode_result(
        &mut encoder,
        &OperationResult::GetAttr(Nfs4Status::NfsOk, Some(Bytes::from(attrs_bytes.clone()))),
        &SecOffer::default(),
    );
    let encoded = encoder.finish();

    // opcode (4) + status (4) + attrs_bytes (16) = 24 bytes in all.
    assert_eq!(
        encoded.len(),
        24,
        "Expected 24 bytes: 4 (opcode) + 4 (status) + 16 (fattr4). Got {} bytes",
        encoded.len()
    );
    let bytes: Vec<u8> = encoded.to_vec();
    assert_eq!(&bytes[0..4], &[0x00, 0x00, 0x00, opcode::GETATTR as u8], "opcode");
    assert_eq!(&bytes[4..8], &[0x00, 0x00, 0x00, 0x00], "status OK");
    assert_eq!(&bytes[8..], &attrs_bytes[..], "fattr4 data should follow directly");
}

#[test]
fn test_secinfo_no_name_dual_flavors() {
    let mut encoder = XdrEncoder::new();
    encoder.encode_u32(opcode::SECINFO_NO_NAME);
    encoder.encode_status(Nfs4Status::NfsOk);
    // 3 security flavors: AUTH_NONE (0), AUTH_SYS (1), and RPCSEC_GSS (6)
    encoder.encode_u32(3); // flavor count
    encoder.encode_u32(0); // AUTH_NONE
    encoder.encode_u32(1); // AUTH_SYS
    encoder.encode_u32(6); // RPCSEC_GSS
    // For RPCSEC_GSS, OID, QOP, and service
    let krb5_oid = vec![0x2a, 0x86, 0x48, 0x86, 0xf7, 0x12, 0x01, 0x02, 0x02];
    encoder.encode_opaque(&krb5_oid);
    encoder.encode_u32(0); // QOP
    encoder.encode_u32(1); // Service
    let encoded = encoder.finish();

    let mut decoder = XdrDecoder::new(encoded);
    let op = decoder.decode_u32().expect("decode opcode");
    assert_eq!(op, opcode::SECINFO_NO_NAME);
    let status = decoder.decode_u32().expect("decode status");
    assert_eq!(status, Nfs4Status::NfsOk.to_u32());
    let flavor_count = decoder.decode_u32().expect("decode flavor count");
    assert_eq!(flavor_count, 3, "Should return 3 security flavors");
    let flavor1 = decoder.decode_u32().expect("decode flavor 1");
    assert_eq!(flavor1, 0, "First flavor should be AUTH_NONE (0)");
    let flavor2 = decoder.decode_u32().expect("decode flavor 2");
    assert_eq!(flavor2, 1, "Second flavor should be AUTH_SYS (1)");
    let flavor3 = decoder.decode_u32().expect("decode flavor 3");
    assert_eq!(flavor3, 6, "Third flavor should be RPCSEC_GSS (6)");
    let oid = decoder.decode_opaque().expect("decode GSS OID");
    assert_eq!(oid.len(), 9, "Kerberos V5 OID should be 9 bytes");
    let qop = decoder.decode_u32().expect("decode QOP");
    assert_eq!(qop, 0, "QOP should be 0");
    let service = decoder.decode_u32().expect("decode service");
    assert_eq!(service, 1, "Service should be 1 (rpc_gss_svc_none)");
    assert_eq!(decoder.remaining(), 0, "Should have consumed all data");
}

/// The body of a LAYOUTRETURN op (everything after the opcode).
fn encode_layoutreturn_body(
    reclaim: bool,
    layout_type: u32,
    iomode: u32,
    union_tail: &[u8],
) -> Bytes {
    let mut buf = BytesMut::new();
    buf.put_u32(if reclaim { 1 } else { 0 });
    buf.put_u32(layout_type);
    buf.put_u32(iomode);
    buf.put_slice(union_tail);
    buf.freeze()
}

#[test]
fn test_layoutreturn_decode_all() {
    let tail = {
        let mut b = BytesMut::new();
        b.put_u32(3); // LAYOUTRETURN4_ALL
        b.freeze()
    };
    let body = encode_layoutreturn_body(false, 1, 1, &tail);
    let mut d = XdrDecoder::new(body);
    let op = CompoundRequest::decode_operation(&mut d, opcode::LAYOUTRETURN).expect("decode ALL");
    match op {
        Operation::LayoutReturn { reclaim, layout_type, iomode, return_body } => {
            assert!(!reclaim);
            assert_eq!(layout_type, 1);
            assert_eq!(iomode, 1);
            assert!(matches!(return_body, LayoutReturn4Body::All));
        }
        _ => panic!("wrong variant"),
    }
    assert_eq!(d.remaining(), 0, "ALL should consume the whole body");
}

#[test]
fn test_layoutreturn_decode_fsid() {
    let tail = {
        let mut b = BytesMut::new();
        b.put_u32(2); // LAYOUTRETURN4_FSID
        b.freeze()
    };
    let body = encode_layoutreturn_body(false, 1, 2, &tail);
    let mut d = XdrDecoder::new(body);
    let op = CompoundRequest::decode_operation(&mut d, opcode::LAYOUTRETURN).expect("decode FSID");
    match op {
        Operation::LayoutReturn { return_body, iomode, .. } => {
            assert_eq!(iomode, 2);
            assert!(matches!(return_body, LayoutReturn4Body::Fsid));
        }
        _ => panic!("wrong variant"),
    }
    assert_eq!(d.remaining(), 0);
}

#[test]
fn test_layoutreturn_decode_file() {
    // offset (u64) | length (u64) | stateid (16B) | opaque<>
    let tail = {
        let mut b = BytesMut::new();
        b.put_u32(1); // LAYOUTRETURN4_FILE
        b.put_u64(0); // offset
        b.put_u64(u64::MAX); // length (entire file)
        b.put_u32(7); // stateid.seqid
        b.put_slice(&[1u8; 12]); // stateid.other
        b.put_u32(0); // body length 0 (FILES has nothing)
        b.freeze()
    };
    let body = encode_layoutreturn_body(false, 1, 1, &tail);
    let mut d = XdrDecoder::new(body);
    let op = CompoundRequest::decode_operation(&mut d, opcode::LAYOUTRETURN).expect("decode FILE");
    match op {
        Operation::LayoutReturn { return_body, .. } => match return_body {
            LayoutReturn4Body::File { offset, length, stateid, body } => {
                assert_eq!(offset, 0);
                assert_eq!(length, u64::MAX);
                assert_eq!(stateid.seqid, 7);
                assert_eq!(stateid.other, [1u8; 12]);
                assert!(body.is_empty());
            }
            _ => panic!("expected File"),
        },
        _ => panic!("wrong variant"),
    }
    assert_eq!(d.remaining(), 0);
}

#[test]
fn test_verify_decode_repacks_fattr4() {
    let mut buf = BytesMut::new();
    buf.put_u32(1); // bitmap_len = 1
    buf.put_u32(0x0000_000A); // attrs: TYPE(1) + SIZE(3)
    let payload = [0x00, 0x00, 0x00, 0x02, 0, 0, 0, 0, 0, 0, 0x10, 0x00];
    buf.put_u32(payload.len() as u32);
    buf.put_slice(&payload);
    let mut d = XdrDecoder::new(buf.freeze());
    let op = CompoundRequest::decode_operation(&mut d, opcode::VERIFY).expect("decode VERIFY");
    let attrs = match op {
        Operation::Verify { attrs } => attrs,
        _ => panic!("wrong variant"),
    };
    // Re-decode the repacked blob: should see the same shape.
    let mut d2 = XdrDecoder::new(attrs);
    assert_eq!(d2.decode_u32().unwrap(), 1);
    assert_eq!(d2.decode_u32().unwrap(), 0x0000_000A);
    let attr_vals = d2.decode_opaque().unwrap();
    assert_eq!(attr_vals.as_ref(), &payload);
}

#[test]
fn test_nverify_uses_same_decoder() {
    let mut buf = BytesMut::new();
    buf.put_u32(0); // bitmap_len = 0
    buf.put_u32(0); // attrs len = 0
    let mut d = XdrDecoder::new(buf.freeze());
    let op = CompoundRequest::decode_operation(&mut d, opcode::NVERIFY).expect("decode NVERIFY");
    assert!(matches!(op, Operation::Nverify { .. }));
}

#[test]
fn test_secinfo_decode_component() {
    let mut buf = BytesMut::new();
    let name = b"foo.txt";
    buf.put_u32(name.len() as u32);
    buf.put_slice(name);
    buf.put_slice(&[0u8]); // pad to 8 bytes (next multiple of 4)
    let mut d = XdrDecoder::new(buf.freeze());
    let op = CompoundRequest::decode_operation(&mut d, opcode::SECINFO).expect("decode SECINFO");
    match op {
        Operation::SecInfo(s) => assert_eq!(s, "foo.txt"),
        _ => panic!("wrong variant"),
    }
    assert_eq!(d.remaining(), 0);
}

#[test]
fn secinfo_advertises_only_what_the_server_can_honour() {
    // With GSS available.
    let offer = SecOffer { gss: true, policy: SecPolicy::default() };
    let mut encoder = XdrEncoder::new();
    encode_secinfo_flavors(&mut encoder, &offer);
    let mut d = XdrDecoder::new(encoder.finish());
    assert_eq!(d.decode_u32().unwrap(), 5, "AUTH_SYS + 3 GSS services + AUTH_NONE");
    assert_eq!(d.decode_u32().unwrap(), 1, "AUTH_SYS MUST be advertised first");
    // rpc_gss_svc_privacy, _integrity, _none: strongest first.
    for want in [3u32, 2, 1] {
        assert_eq!(d.decode_u32().unwrap(), 6, "RPCSEC_GSS");
        assert_eq!(
            d.decode_opaque().unwrap().as_ref(),
            &[0x2a, 0x86, 0x48, 0x86, 0xf7, 0x12, 0x01, 0x02, 0x02],
            "Kerberos V5 OID 1.2.840.113554.1.2.2",
        );
        assert_eq!(d.decode_u32().unwrap(), 0, "QOP");
        assert_eq!(d.decode_u32().unwrap(), want, "service");
    }
    assert_eq!(d.decode_u32().unwrap(), 0, "AUTH_NONE must be LAST");
    assert_eq!(d.remaining(), 0, "no trailing bytes");

    // Without a keytab.
    let offer = SecOffer { gss: false, policy: SecPolicy::default() };
    let mut encoder = XdrEncoder::new();
    encode_secinfo_flavors(&mut encoder, &offer);
    let mut d = XdrDecoder::new(encoder.finish());
    assert_eq!(d.decode_u32().unwrap(), 2, "AUTH_SYS + AUTH_NONE only");
    assert_eq!(d.decode_u32().unwrap(), 1, "AUTH_SYS still first");
    assert_eq!(d.decode_u32().unwrap(), 0, "AUTH_NONE still last");
    assert_eq!(d.remaining(), 0, "no GSS entry may be advertised when no keytab loaded");
}

/// A SECINFO flavor list as the levels it offers.
fn advertised_levels(bytes: Bytes) -> Vec<SecLevel> {
    let mut d = XdrDecoder::new(bytes);
    let count = d.decode_u32().unwrap();
    let mut out = Vec::new();
    for _ in 0..count {
        match d.decode_u32().unwrap() {
            0 => out.push(SecLevel::AuthNone),
            1 => out.push(SecLevel::Sys),
            6 => {
                d.decode_opaque().unwrap();
                assert_eq!(d.decode_u32().unwrap(), 0, "QOP");
                out.push(match d.decode_u32().unwrap() {
                    1 => SecLevel::Krb5,
                    2 => SecLevel::Krb5i,
                    3 => SecLevel::Krb5p,
                    other => panic!("unknown GSS service {other}"),
                });
            }
            other => panic!("unknown flavor {other}"),
        }
    }
    assert_eq!(d.remaining(), 0, "no trailing bytes");
    out
}

#[test]
fn secinfo_offers_exactly_what_the_floor_will_accept() {
    for &floor in &ALL_LEVELS {
        let policy = SecPolicy::new(floor);
        let mut encoder = XdrEncoder::new();
        encode_secinfo_flavors_with(&mut encoder, true, policy);
        let offered = advertised_levels(encoder.finish());

        for &level in &ALL_LEVELS {
            assert_eq!(
                offered.contains(&level),
                policy.permits(level),
                "floor {}: advertising {} but permits() says {}",
                floor.name(),
                level.name(),
                policy.permits(level)
            );
        }
    }
}

#[test]
fn a_krb5p_floor_advertises_only_krb5p() {
    let mut encoder = XdrEncoder::new();
    encode_secinfo_flavors_with(&mut encoder, true, SecPolicy::new(SecLevel::Krb5p));
    assert_eq!(advertised_levels(encoder.finish()), vec![SecLevel::Krb5p]);
}

#[test]
fn a_kerberos_floor_without_a_keytab_advertises_nothing_at_all() {
    for floor in [SecLevel::Krb5, SecLevel::Krb5i, SecLevel::Krb5p] {
        let mut encoder = XdrEncoder::new();
        encode_secinfo_flavors_with(&mut encoder, false, SecPolicy::new(floor));
        assert!(
            advertised_levels(encoder.finish()).is_empty(),
            "floor {} with no keytab offered something",
            floor.name()
        );
    }
}

#[test]
fn the_default_floor_leaves_the_advertisement_exactly_as_it_shipped() {
    let mut encoder = XdrEncoder::new();
    encode_secinfo_flavors_with(&mut encoder, true, SecPolicy::default());
    assert_eq!(
        advertised_levels(encoder.finish()),
        vec![
            SecLevel::Sys,
            SecLevel::Krb5p,
            SecLevel::Krb5i,
            SecLevel::Krb5,
            SecLevel::AuthNone
        ]
    );
}

#[test]
fn test_layoutreturn_decode_unknown_returntype_errors() {
    let tail = {
        let mut b = BytesMut::new();
        b.put_u32(99);
        b.freeze()
    };
    let body = encode_layoutreturn_body(false, 1, 1, &tail);
    let mut d = XdrDecoder::new(body);
    assert!(CompoundRequest::decode_operation(&mut d, opcode::LAYOUTRETURN).is_err());
}

#[test]
fn a_tag_that_is_no_utf8_is_echoed_with_replacements() {
    let mut e = XdrEncoder::new();
    e.encode_opaque(&[b'a', 0xff, b'b']);
    e.encode_u32(1);
    e.encode_u32(0);
    let r = CompoundRequest::decode(XdrDecoder::new(e.finish())).unwrap();
    assert_eq!(r.tag, "a\u{fffd}b");
    assert!(!r.tag_valid);

    let mut e = XdrEncoder::new();
    e.encode_opaque("ab\u{e9}".as_bytes());
    e.encode_u32(2);
    e.encode_u32(0);
    let r = CompoundRequest::decode(XdrDecoder::new(e.finish())).unwrap();
    assert_eq!(r.tag, "ab\u{e9}");
    assert!(r.tag_valid);
    assert_eq!((r.minor_version, r.operations.len()), (2, 0));
}

#[test]
fn a_name_that_is_no_component_leaves_the_operations_behind_it() {
    let mut e = XdrEncoder::new();
    e.encode_opaque(b"");
    e.encode_u32(1);
    e.encode_u32(2);
    e.encode_u32(opcode::LOOKUP);
    e.encode_opaque(&[0xc3, 0x28]);
    e.encode_u32(opcode::GETFH);
    let r = CompoundRequest::decode(XdrDecoder::new(e.finish())).unwrap();
    assert_eq!(r.operations.len(), 2);
    assert!(matches!(r.operations[0], Operation::InvalidName(opcode::LOOKUP)));
    assert!(matches!(r.operations[1], Operation::GetFh));
}

#[test]
fn an_unknown_operation_is_the_last_that_is_read() {
    let mut e = XdrEncoder::new();
    e.encode_opaque(b"");
    e.encode_u32(1);
    e.encode_u32(3);
    e.encode_u32(opcode::GETFH);
    e.encode_u32(4711);
    e.encode_u32(opcode::GETFH);
    let r = CompoundRequest::decode(XdrDecoder::new(e.finish())).unwrap();
    assert_eq!(r.operations.len(), 2);
    assert!(matches!(r.operations[1], Operation::Unsupported(4711)));
}

#[test]
fn an_operation_outside_the_protocol_goes_out_as_illegal() {
    let mut e = XdrEncoder::new();
    encode_result(
        &mut e,
        &OperationResult::Unsupported { opcode: 4711, status: Nfs4Status::NotSupp },
        &SecOffer::default(),
    );
    let mut d = XdrDecoder::new(e.finish());
    assert_eq!(d.decode_u32(), Ok(10044));
    assert_eq!(d.decode_u32(), Ok(Nfs4Status::OpIllegal.to_u32()));
    assert_eq!(d.decode_u32(), Err(XdrError::Truncated));
}
