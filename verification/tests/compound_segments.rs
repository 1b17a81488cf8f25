use bytes::Bytes;
use flint_nfs::compound::{
    CompoundResponse, OperationResult, ReadResult, SequenceResult,
};
use flint_nfs::protocol::{Nfs4Status, SessionId};
use flint_nfs::segment::Segment;

fn resp(payload: &[u8], eof: bool) -> CompoundResponse {
    let mut r = CompoundResponse::new();
    r.tag = "tag".to_string();
    r.results.push(OperationResult::PutRootFh(Nfs4Status::NfsOk));
    r.results.push(OperationResult::Read(
        Nfs4Status::NfsOk,
        Some(ReadResult { eof, data: Segment::new(Bytes::copy_from_slice(payload)) }),
    ));
    r.results.push(OperationResult::PutRootFh(Nfs4Status::NfsOk));
    r
}

fn joined(segs: Vec<Segment>) -> Vec<u8> {
    let mut v = Vec::new();
    for s in segs {
        v.extend_from_slice(s.as_mem());
    }
    v
}

#[test]
fn segments_match_the_flattened_encoding() {
    for len in [0usize, 1, 2, 3, 4, 5, 7, 8, 4096, 4097] {
        for eof in [false, true] {
            let payload: Vec<u8> = (0..len).map(|i| (i % 251) as u8).collect();
            let flat = resp(&payload, eof).encode();
            let segs = resp(&payload, eof).encode_segments();
            assert_eq!(
                joined(segs),
                flat.to_vec(),
                "len={} eof={}: segmented and flattened wire bytes diverged",
                len,
                eof
            );
        }
    }
}

#[test]
fn a_full_size_read_reply_fits_under_the_cap_we_advertise() {
    // What a client may ask for in one READ, and the room beside it.
    let max_io_payload = 1024 * 1024usize;
    let headroom = 4096usize;

    // The real shape of a read compound: SEQUENCE, PUTFH, READ.
    let payload = vec![0u8; max_io_payload];
    let mut r = CompoundResponse::new();
    r.tag = String::new();
    r.results.push(OperationResult::Sequence(
        Nfs4Status::NfsOk,
        Some(SequenceResult {
            sessionid: SessionId([0u8; 16]),
            sequenceid: 1,
            slotid: 0,
            highest_slotid: 127,
            target_highest_slotid: 127,
            status_flags: 0,
        }),
    ));
    r.results.push(OperationResult::PutFh(Nfs4Status::NfsOk));
    r.results.push(OperationResult::Read(
        Nfs4Status::NfsOk,
        Some(ReadResult { eof: false, data: Segment::new(Bytes::from(payload)) }),
    ));

    let encoded: usize = r.encode_segments().iter().map(|s| s.len()).sum();
    assert!(encoded <= max_io_payload + headroom);
    // The margin has to absorb a real envelope.
    assert!(encoded > max_io_payload);
    assert_eq!(encoded - max_io_payload, 80);
}

#[test]
fn a_read_payload_is_carried_as_its_own_segment() {
    let payload: Vec<u8> = (0..4096).map(|i| (i % 251) as u8).collect();
    let segs = resp(&payload, false).encode_segments();
    assert!(segs.len() >= 3, "expected head/payload/tail segments, got {}", segs.len());
    assert!(
        segs.iter().any(|s| s.len() == 4096 && s.as_mem() == payload.as_slice()),
        "the payload is not present as an uncopied standalone segment"
    );
}

#[test]
fn an_empty_read_payload_cuts_no_segment() {
    let flat = resp(&[], true).encode();
    let segs = resp(&[], true).encode_segments();
    assert_eq!(segs.len(), 1, "an empty payload must not be segmented");
    assert_eq!(joined(segs), flat.to_vec());
}

#[test]
fn a_raw_replay_reply_passes_through_untouched() {
    let raw = Bytes::from_static(b"already-encoded-reply");
    let mut r = CompoundResponse::new();
    r.raw_reply = Some(vec![Segment::new(raw.clone())]);
    assert_eq!(joined(r.encode_segments()), raw.to_vec());

    let mut r = CompoundResponse::new();
    r.raw_reply = Some(vec![Segment::new(raw.slice(0..7)), Segment::new(raw.slice(7..))]);
    assert_eq!(r.encode().to_vec(), raw.to_vec());
}

#[test]
fn a_segment_is_the_memory_it_was_made_of() {
    let s = Segment::new(Bytes::from_static(b"abc"));
    assert_eq!(s.len(), 3);
    assert!(!s.is_empty() && Segment::new(Bytes::new()).is_empty());
    assert_eq!(s.into_mem(), Bytes::from_static(b"abc"));
}
