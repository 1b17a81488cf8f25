//! The COMPOUND request as a whole.
use vstd::prelude::*;
use vstd::utf8::*;

use crate::compound::decode;
use crate::compound::grammar;
use crate::compound::ops::{Operation, OperationView};
use crate::octets;
use crate::octets::bytes_as_slice;
use crate::protocol::NFS_V4_MINOR_VERSION_2;
use crate::text;
use crate::text::{str_from_utf8, string_from_utf8_lossy, utf8str_cs_ok};
use crate::xdr;
use crate::xdr::{Parsed, XdrDecoder, XdrError};

verus! {

/// A COMPOUND request.
#[derive(Debug)]
pub struct CompoundRequest {
    /// The client's tag, which is echoed. Octets that are not UTF-8 are replaced.
    pub tag: String,
    /// Whether the tag on the wire was valid `utf8str_cs`.
    pub tag_valid: bool,
    pub minor_version: u32,
    pub operations: Vec<Operation>,
    /// How many octets the arguments took on the wire, as far as the caller
    /// knows; zero means unknown.
    pub wire_size: usize,
}

/// What a [`CompoundRequest`] says.
pub struct CompoundRequestView {
    pub tag: Seq<char>,
    pub tag_valid: bool,
    pub minor_version: u32,
    pub operations: Seq<OperationView>,
    pub wire_size: usize,
}

impl View for CompoundRequest {
    type V = CompoundRequestView;

    open spec fn view(&self) -> CompoundRequestView {
        CompoundRequestView {
            tag: self.tag@,
            tag_valid: self.tag_valid,
            minor_version: self.minor_version,
            operations: xdr::views(self.operations@),
            wire_size: self.wire_size,
        }
    }
}

/// A tag that the protocol admits.
pub open spec fn tag_ok(tag: Seq<u8>) -> bool {
    valid_utf8(tag) && text::is_utf8str_cs(decode_utf8(tag))
}

/// An operation behind which the cursor cannot be trusted, so that nothing
/// behind it is decoded.
pub open spec fn stops_decoding(op: OperationView) -> bool {
    op is Unsupported || op is BadXdr
}

/// The operation that stands next: its number, then its arguments. Arguments
/// that do not parse make it a [`OperationView::BadXdr`].
pub open spec fn parse_next(s: Seq<u8>) -> Parsed<OperationView> {
    xdr::bind(xdr::parse_u32(s), |op: u32, s: Seq<u8>| {
        let (r, t) = grammar::parse_operation(s, op);
        match r {
            Ok(v) => (Ok(v), t),
            Err(_) => (Ok(OperationView::BadXdr(op)), t),
        }
    })
}

/// Up to `n` operations: all of them, or those up to and with the first that
/// stops the decoding.
pub open spec fn parse_operations(s: Seq<u8>, n: nat) -> Parsed<Seq<OperationView>>
    decreases n,
{
    if n == 0 {
        (Ok(Seq::empty()), s)
    } else {
        let (r, t) = parse_next(s);
        match r {
            Err(e) => (Err(e), t),
            Ok(op) => if stops_decoding(op) {
                (Ok(seq![op]), t)
            } else {
                xdr::prepend(seq![op], parse_operations(t, (n - 1) as nat))
            },
        }
    }
}

/// A whole request. A minor version that the server does not know is passed on
/// with no operations, whatever stands behind it.
pub open spec fn parse_request(s: Seq<u8>) -> Parsed<CompoundRequestView> {
    xdr::bind(xdr::parse_opaque(s), |tag: Seq<u8>, s: Seq<u8>|
    xdr::bind(xdr::parse_u32(s), |minor_version: u32, s: Seq<u8>|
    if minor_version > NFS_V4_MINOR_VERSION_2 {
        (Ok(CompoundRequestView {
            tag: text::utf8_lossy(tag),
            tag_valid: tag_ok(tag),
            minor_version,
            operations: Seq::empty(),
            wire_size: 0,
        }), s)
    } else {
        xdr::bind(xdr::parse_count(s, 4), |n: u32, s: Seq<u8>|
        xdr::bind(parse_operations(s, n as nat), |operations: Seq<OperationView>, s: Seq<u8>|
        (Ok(CompoundRequestView {
            tag: text::utf8_lossy(tag),
            tag_valid: tag_ok(tag),
            minor_version,
            operations,
            wire_size: 0,
        }), s)))
    }))
}

/// Decodes one operation number and its arguments.
fn decode_next(d: &mut XdrDecoder) -> (r: Result<Operation, XdrError>)
    ensures
        (xdr::viewed(r), final(d)@) == parse_next(old(d)@),
{
    let op: u32 = d.decode_u32()?;
    match decode::decode_operation(d, op) {
        Ok(v) => Ok(v),
        Err(_) => Ok(Operation::BadXdr(op)),
    }
}

/// Decodes up to `n` operations.
fn decode_operations(d: &mut XdrDecoder, n: u32) -> (r: Result<Vec<Operation>, XdrError>)
    ensures
        final(d)@ == parse_operations(old(d)@, n as nat).1,
        match r {
            Ok(v) => parse_operations(old(d)@, n as nat).0 == Ok::<Seq<OperationView>, XdrError>(
                xdr::views(v@),
            ),
            Err(e) => parse_operations(old(d)@, n as nat).0 == Err::<Seq<OperationView>, XdrError>(
                e,
            ),
        },
{
    let ghost s = d@;
    let mut out: Vec<Operation> = Vec::new();
    let mut i: u32 = 0;
    assert(xdr::prepend(xdr::views(out@), parse_operations(s, n as nat)) == parse_operations(
        s,
        n as nat,
    )) by {
        assert forall|v: Seq<OperationView>| xdr::views(out@) + v =~= v by {}
    }
    while i < n
        invariant
            i <= n,
            s == old(d)@,
            parse_operations(s, n as nat) == xdr::prepend(
                xdr::views(out@),
                parse_operations(d@, (n - i) as nat),
            ),
        decreases n - i,
    {
        let ghost before = out@;
        let ghost tail = parse_operations(d@, (n - i) as nat);
        let op = decode_next(d)?;
        let stop = matches!(op, Operation::Unsupported(_) | Operation::BadXdr(_));
        let ghost said = op@;
        out.push(op);
        i += 1;
        assert(xdr::views(before) + seq![said] =~= xdr::views(out@));
        if stop {
            return Ok(out);
        }
        proof {
            let rest = parse_operations(d@, (n - i) as nat);
            assert(tail == xdr::prepend(seq![said], rest));
            if let Ok(t) = rest.0 {
                assert(xdr::views(before) + (seq![said] + t) =~= xdr::views(out@) + t);
            }
        }
    }
    assert(xdr::views(out@) + Seq::<OperationView>::empty() =~= xdr::views(out@));
    Ok(out)
}

impl CompoundRequest {
    /// Decodes a request.
    ///
    /// Little is refused here, so that the reply can say what was wrong: a tag
    /// that is not UTF-8 and an unknown minor version are passed on, and an
    /// operation whose arguments do not parse becomes [`Operation::BadXdr`]. An
    /// operation count that the octets could not hold is an error before
    /// anything is allocated for it.
    pub fn decode(decoder: XdrDecoder) -> (r: Result<CompoundRequest, XdrError>)
        ensures
            xdr::viewed(r) == parse_request(decoder@).0,
            r is Ok && r->Ok_0.tag_valid ==> xdr::parse_opaque(decoder@).0 == Ok::<
                Seq<u8>,
                XdrError,
            >(encode_utf8(r->Ok_0.tag@)),
    {
        broadcast use decode_utf8_encode_utf8;

        let mut d = decoder;
        let tag_octets = d.decode_opaque()?;
        let octets = bytes_as_slice(&tag_octets);
        let tag_valid = match str_from_utf8(octets) {
            Ok(s) => utf8str_cs_ok(s),
            Err(_) => false,
        };
        let tag = string_from_utf8_lossy(octets);
        let minor_version: u32 = d.decode_u32()?;
        if minor_version > NFS_V4_MINOR_VERSION_2 {
            let operations: Vec<Operation> = Vec::new();
            assert(xdr::views(operations@) =~= Seq::<OperationView>::empty());
            return Ok(CompoundRequest { tag, tag_valid, minor_version, operations, wire_size: 0 });
        }
        let n: u32 = d.decode_count(4)?;
        let operations = decode_operations(&mut d, n)?;
        Ok(CompoundRequest { tag, tag_valid, minor_version, operations, wire_size: 0 })
    }

    /// Decodes the arguments of operation `op`.
    pub fn decode_operation(d: &mut XdrDecoder, op: u32) -> (r: Result<Operation, XdrError>)
        ensures
            (xdr::viewed(r), final(d)@) == grammar::parse_operation(old(d)@, op),
    {
        decode::decode_operation(d, op)
    }
}

// ---------------------------------------------------------------------------
// Laws
// ---------------------------------------------------------------------------

/// Decoding stops at the first operation whose extent is unknown: such an
/// operation is the last of the list, and the list has no more operations than
/// were announced.
pub proof fn a_stopping_operation_is_the_last(s: Seq<u8>, n: nat, i: int)
    requires
        parse_operations(s, n).0 is Ok,
        0 <= i < parse_operations(s, n).0->Ok_0.len(),
        stops_decoding(parse_operations(s, n).0->Ok_0[i]),
    ensures
        i == parse_operations(s, n).0->Ok_0.len() - 1,
        parse_operations(s, n).0->Ok_0.len() <= n,
    decreases n,
{
    lemma_no_more_than_announced(s, n);
    if n > 0 {
        let (r, t) = parse_next(s);
        let op = r->Ok_0;
        if !stops_decoding(op) {
            let rest = parse_operations(t, (n - 1) as nat).0->Ok_0;
            assert(parse_operations(s, n).0->Ok_0 == seq![op] + rest);
            assert((seq![op] + rest)[i] == if i == 0 { op } else { rest[i - 1] });
            a_stopping_operation_is_the_last(t, (n - 1) as nat, i - 1);
        }
    }
}

proof fn lemma_no_more_than_announced(s: Seq<u8>, n: nat)
    requires
        parse_operations(s, n).0 is Ok,
    ensures
        parse_operations(s, n).0->Ok_0.len() <= n,
    decreases n,
{
    if n > 0 {
        let (r, t) = parse_next(s);
        if !stops_decoding(r->Ok_0) {
            lemma_no_more_than_announced(t, (n - 1) as nat);
        }
    }
}

/// A decoded list is shorter than announced only when its last operation
/// stopped the decoding.
pub proof fn only_a_stopping_operation_shortens_the_list(s: Seq<u8>, n: nat)
    requires
        parse_operations(s, n).0 is Ok,
        parse_operations(s, n).0->Ok_0.len() < n,
    ensures
        parse_operations(s, n).0->Ok_0.len() > 0,
        stops_decoding(parse_operations(s, n).0->Ok_0.last()),
    decreases n,
{
    let (r, t) = parse_next(s);
    let op = r->Ok_0;
    if !stops_decoding(op) {
        let rest = parse_operations(t, (n - 1) as nat).0->Ok_0;
        assert(parse_operations(s, n).0->Ok_0 == seq![op] + rest);
        only_a_stopping_operation_shortens_the_list(t, (n - 1) as nat);
        assert((seq![op] + rest).last() == rest.last());
    }
}

} // verus!
