//! Record marking on a connection that carries replies and callbacks alike.
//!
//! Every RPC message goes out as one record of one fragment: a marker of four
//! octets, whose top bit says that the fragment is the last and whose other bits
//! give its length, and then the message. Who holds the connection's lock writes
//! marker and message together, so that two messages never interleave.
use crate::octets;
use vstd::prelude::*;

verus! {

/// The top bit of a marker: this fragment is the record's last.
pub const LAST_FRAGMENT: u32 = 0x8000_0000;

/// The longest message that one fragment holds.
pub const MAX_FRAGMENT: u32 = 0x7fff_ffff;

/// Why a message cannot be sent.
#[derive(Debug, Clone, Copy, PartialEq, Eq, Structural)]
pub enum RecordError {
    /// The message exceeds one fragment.
    TooLong,
}

impl RecordError {
    pub fn describe(&self) -> (s: &'static str)
        ensures
            s@ == "RPC fragment exceeds 2 GiB"@,
    {
        "RPC fragment exceeds 2 GiB"
    }
}

/// A whole record on the wire.
pub open spec fn wire_record(message: Seq<u8>) -> Seq<u8> {
    octets::be32(LAST_FRAGMENT | (message.len() as u32)) + message
}

/// The first record of a stream and what follows it, for a stream whose records
/// have one fragment each.
pub open spec fn first_record(stream: Seq<u8>) -> Option<(Seq<u8>, Seq<u8>)> {
    let marker = octets::u32_of(stream);
    let len = (marker & MAX_FRAGMENT) as int;
    if stream.len() < 4 || marker & LAST_FRAGMENT == 0 || stream.len() < 4 + len {
        None
    } else {
        Some((stream.subrange(4, 4 + len), stream.skip(4 + len)))
    }
}

/// The marker that goes ahead of a message of `len` octets.
pub fn record_marker(len: usize) -> (r: Result<[u8; 4], RecordError>)
    ensures
        match r {
            Ok(m) => len <= MAX_FRAGMENT && m@ == octets::be32(LAST_FRAGMENT | (len as u32)),
            Err(e) => len > MAX_FRAGMENT && e == RecordError::TooLong,
        },
{
    if len > MAX_FRAGMENT as usize {
        return Err(RecordError::TooLong);
    }
    let n: u32 = len as u32;
    let v: u32 = LAST_FRAGMENT | n;
    let m: [u8; 4] = [(v >> 24) as u8, (v >> 16) as u8, (v >> 8) as u8, v as u8];
    assert(m@ =~= octets::be32(v));
    Ok(m)
}

/// Law: a stream of records comes apart again into the messages that went into
/// it, in their order.
pub proof fn a_record_is_read_back(message: Seq<u8>, rest: Seq<u8>)
    requires
        message.len() <= MAX_FRAGMENT,
    ensures
        first_record(wire_record(message) + rest) == Some((message, rest)),
{
    let n: u32 = message.len() as u32;
    let v: u32 = LAST_FRAGMENT | n;
    let s = wire_record(message) + rest;
    octets::lemma_u32_round_trip(v);
    assert(s.take(4) =~= octets::be32(v));
    assert(octets::u32_of(s) == octets::u32_of(octets::be32(v)));
    assert((0x8000_0000u32 | n) & 0x7fff_ffffu32 == n) by (bit_vector)
        requires
            n <= 0x7fff_ffff,
    ;
    assert((0x8000_0000u32 | n) & 0x8000_0000u32 != 0) by (bit_vector);
    assert(s.subrange(4, 4 + n as int) =~= message);
    assert(s.skip(4 + n as int) =~= rest);
}

/// Law: a record opens with its length and, in the highest bit, the mark that it is
/// complete; a message of two gibibytes or more has no marker.
pub proof fn a_marker_says_length_and_end(len: usize, r: Result<[u8; 4], RecordError>)
    requires
        call_ensures(record_marker, (len,), r),
    ensures
        r is Ok <==> len < 0x8000_0000,
        r matches Ok(m) ==> octets::u32_of(m@) == 0x8000_0000 + len,
{
    if let Ok(m) = r {
        let n: u32 = len as u32;
        octets::lemma_u32_round_trip(LAST_FRAGMENT | n);
        assert(0x8000_0000u32 | n == 0x8000_0000u32 + n) by (bit_vector)
            requires
                n < 0x8000_0000,
        ;
    }
}

/// Law: what goes over the wire for a message is the marker of its length and then the
/// message.
pub proof fn a_record_is_its_marker_and_its_message(
    message: Seq<u8>,
    len: usize,
    r: Result<[u8; 4], RecordError>,
)
    requires
        len == message.len(),
        len < 0x8000_0000,
        call_ensures(record_marker, (len,), r),
    ensures
        wire_record(message).take(4) == r->Ok_0@,
        wire_record(message).skip(4) == message,
{
    assert(wire_record(message).take(4) =~= r->Ok_0@);
    assert(wire_record(message).skip(4) =~= message);
}

} // verus!
