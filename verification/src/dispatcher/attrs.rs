//! Attributes on their way between the wire and the file handlers.
use crate::compound::grammar;
use crate::compound::results::OperationResult;
use crate::compound::types::Fattr4View;
use crate::octets;
use crate::octets::same_octets;
use crate::protocol::{Fattr4, Nfs4Status};
use crate::xdr;
use crate::xdr::{octets_to_vec, Parsed, XdrDecoder, XdrEncoder, XdrError};
use bytes::Bytes;
use vstd::prelude::*;
use vstd::slice::slice_subrange;

verus! {

/// The most bitmap words that a SETATTR may carry.
pub const MAX_SETATTR_WORDS: u32 = 8;

/// The bit of the size attribute, in the first word of a bitmap.
pub const FATTR4_SIZE_BIT: u32 = 0x10;

// ---------------------------------------------------------------------------
// SETATTR
// ---------------------------------------------------------------------------

/// The bitmap and the values that a packed blob holds. Octets behind the values
/// are ignored.
pub open spec fn unpacked(b: Seq<u8>) -> Option<Fattr4View> {
    match xdr::parse_u32(b) {
        (Ok(n), s) => if n > MAX_SETATTR_WORDS {
            None
        } else {
            match xdr::parse_words(s, n as nat) {
                (Ok(attrmask), s) => match xdr::parse_u32(s) {
                    (Ok(len), s) => if s.len() < len {
                        None
                    } else {
                        Some(Fattr4View { attrmask, attr_vals: s.take(len as int) })
                    },
                    _ => None,
                },
                _ => None,
            }
        },
        _ => None,
    }
}

pub open spec fn opt_fattr_view(f: Option<Fattr4>) -> Option<Fattr4View> {
    match f {
        Some(f) => Some(f@),
        None => None,
    }
}

/// Take apart the blob that a SETATTR was decoded into.
pub fn unpack_fattr(attrs: Bytes) -> (r: Option<Fattr4>)
    ensures
        opt_fattr_view(r) == unpacked(octets::bytes_of(attrs)),
{
    let mut d = XdrDecoder::new(attrs);
    let n: u32 = match d.decode_u32() {
        Ok(n) => n,
        Err(_) => return None,
    };
    if n > MAX_SETATTR_WORDS {
        return None;
    }
    let attrmask = match d.decode_words(n) {
        Ok(w) => w,
        Err(_) => return None,
    };
    let len: u32 = match d.decode_u32() {
        Ok(n) => n,
        Err(_) => return None,
    };
    let left = d.rest();
    if left.len() < len as usize {
        return None;
    }
    let vals = slice_subrange(left, 0, len as usize);
    assert(vals@ =~= d@.take(len as int));
    Some(Fattr4 { attrmask, attr_vals: octets_to_vec(vals) })
}

/// Law: unpacking gives back what packing put in, up to the bitmap size that is
/// accepted.
pub proof fn unpacking_undoes_packing(attrmask: Seq<u32>, attr_vals: Seq<u8>)
    requires
        attrmask.len() <= MAX_SETATTR_WORDS,
        attr_vals.len() <= u32::MAX,
    ensures
        unpacked(grammar::pack_fattr(attrmask, attr_vals)) == Some(
            Fattr4View { attrmask, attr_vals },
        ),
{
    let r2 = octets::be32(attr_vals.len() as u32) + attr_vals;
    let r1 = xdr::wire_words(attrmask) + r2;
    assert(grammar::pack_fattr(attrmask, attr_vals) =~= octets::be32(attrmask.len() as u32) + r1);
    xdr::u32_round_trip(attrmask.len() as u32, r1);
    xdr::words_round_trip(attrmask, r2);
    xdr::u32_round_trip(attr_vals.len() as u32, attr_vals);
    assert(attr_vals.take(attr_vals.len() as int) =~= attr_vals);
}

/// Whether a size was applied, by the bitmap of what was set. The bitmap is
/// believed and not the status: a request that set the size and then failed on
/// something else has set the size.
pub open spec fn size_applied(attrset: Seq<u32>) -> bool {
    attrset.len() > 0 && attrset[0] & FATTR4_SIZE_BIT != 0
}

/// The size that the data servers have to follow, if the size that was asked for
/// was applied.
pub fn size_to_note(attrset: &Vec<u32>, requested: Option<u64>) -> (r: Option<u64>)
    ensures
        r == (if size_applied(attrset@) {
            requested
        } else {
            None
        }),
{
    if attrset.len() > 0 && attrset[0] & FATTR4_SIZE_BIT != 0 {
        requested
    } else {
        None
    }
}

// ---------------------------------------------------------------------------
// GETATTR
// ---------------------------------------------------------------------------

/// `fattr4` on the wire; nothing at all where there are no attributes.
pub open spec fn wire_fattr(f: Option<Fattr4View>) -> Seq<u8> {
    match f {
        Some(f) => xdr::wire_bitmap(f.attrmask) + xdr::wire_opaque(f.attr_vals),
        None => Seq::empty(),
    }
}

/// Encode the attributes of a GETATTR.
pub fn encode_fattr(f: Option<Fattr4>) -> (b: Bytes)
    ensures
        octets::bytes_of(b) == wire_fattr(opt_fattr_view(f)),
{
    let mut e = XdrEncoder::new();
    if let Some(f) = f {
        e.encode_bitmap(f.attrmask.as_slice());
        assert(Seq::<u8>::empty() + xdr::wire_bitmap(f.attrmask@) =~= xdr::wire_bitmap(
            f.attrmask@,
        ));
        e.encode_opaque(f.attr_vals.as_slice());
    }
    e.finish()
}

// ---------------------------------------------------------------------------
// VERIFY and NVERIFY
// ---------------------------------------------------------------------------

/// The bitmap and the values that a VERIFY compares with.
pub open spec fn parse_verify(s: Seq<u8>) -> Parsed<Fattr4View> {
    xdr::bind(
        xdr::parse_u32(s),
        |n: u32, s: Seq<u8>|
            xdr::bind(
                xdr::parse_words(s, n as nat),
                |attrmask: Seq<u32>, s: Seq<u8>|
                    xdr::bind(
                        xdr::parse_opaque(s),
                        |attr_vals: Seq<u8>, s: Seq<u8>|
                            (Ok(Fattr4View { attrmask, attr_vals }), s),
                    ),
            ),
    )
}

fn decode_verify_args(d: &mut XdrDecoder) -> (r: Result<Fattr4, XdrError>)
    ensures
        (xdr::viewed(r), final(d)@) == parse_verify(old(d)@),
{
    let n: u32 = d.decode_u32()?;
    let attrmask = d.decode_words(n)?;
    let attr_vals = d.decode_octets()?;
    Ok(Fattr4 { attrmask, attr_vals })
}

/// Take apart the blob that a VERIFY or NVERIFY was decoded into.
pub fn decode_verify(attrs: Bytes) -> (r: Option<Fattr4>)
    ensures
        match parse_verify(octets::bytes_of(attrs)).0 {
            Ok(f) => r is Some && (r->0)@ == f,
            Err(_) => r is None,
        },
{
    let mut d = XdrDecoder::new(attrs);
    match decode_verify_args(&mut d) {
        Ok(f) => Some(f),
        Err(_) => None,
    }
}

/// Word `i` of a bitmap; the words that it does not have are zero.
pub open spec fn word(mask: Seq<u32>, i: int) -> u32 {
    if 0 <= i < mask.len() {
        mask[i]
    } else {
        0
    }
}

/// Every bit of `want` is in `have`.
pub open spec fn covers(have: Seq<u32>, want: Seq<u32>) -> bool {
    forall|i: int| 0 <= i < want.len() ==> #[trigger] want[i] & !word(have, i) == 0
}

pub open spec fn verify_result(is_nverify: bool, status: Nfs4Status) -> OperationResult {
    if is_nverify {
        OperationResult::Nverify(status)
    } else {
        OperationResult::Verify(status)
    }
}

/// The outcome of a comparison, from what GETATTR gave for the same bitmap.
pub open spec fn verify_status(
    is_nverify: bool,
    want: Fattr4View,
    status: Nfs4Status,
    have: Option<Fattr4View>,
) -> Nfs4Status {
    if status != Nfs4Status::NfsOk {
        status
    } else {
        match have {
            None => Nfs4Status::ServerFault,
            Some(have) => if !covers(have.attrmask, want.attrmask) {
                Nfs4Status::AttrNotsupp
            } else if have.attr_vals == want.attr_vals {
                if is_nverify {
                    Nfs4Status::Same
                } else {
                    Nfs4Status::NfsOk
                }
            } else {
                if is_nverify {
                    Nfs4Status::NfsOk
                } else {
                    Nfs4Status::NotSame
                }
            },
        }
    }
}

/// A result of VERIFY, or of NVERIFY.
pub fn verify_answer(is_nverify: bool, status: Nfs4Status) -> (r: OperationResult)
    ensures
        r == verify_result(is_nverify, status),
{
    if is_nverify {
        OperationResult::Nverify(status)
    } else {
        OperationResult::Verify(status)
    }
}

fn bitmap_covers(have: &Vec<u32>, want: &Vec<u32>) -> (b: bool)
    ensures
        b == covers(have@, want@),
{
    let mut i: usize = 0;
    while i < want.len()
        invariant
            i <= want@.len(),
            forall|k: int| 0 <= k < i ==> #[trigger] want@[k] & !word(have@, k) == 0,
        decreases want@.len() - i,
    {
        let h: u32 = if i < have.len() {
            have[i]
        } else {
            0
        };
        if want[i] & !h != 0 {
            assert(want@[i as int] & !word(have@, i as int) != 0);
            return false;
        }
        i = i + 1;
    }
    true
}

/// VERIFY succeeds where the attributes are as the client says, NVERIFY where
/// they are not.
pub fn handle_verify(
    is_nverify: bool,
    want: Fattr4,
    status: Nfs4Status,
    have: Option<Fattr4>,
) -> (r: OperationResult)
    ensures
        r == verify_result(
            is_nverify,
            verify_status(is_nverify, want@, status, opt_fattr_view(have)),
        ),
{
    if status != Nfs4Status::NfsOk {
        return verify_answer(is_nverify, status);
    }
    match have {
        None => verify_answer(is_nverify, Nfs4Status::ServerFault),
        Some(have) => {
            if !bitmap_covers(&have.attrmask, &want.attrmask) {
                return verify_answer(is_nverify, Nfs4Status::AttrNotsupp);
            }
            let same = same_octets(want.attr_vals.as_slice(), have.attr_vals.as_slice());
            let outcome = match (is_nverify, same) {
                (false, true) => Nfs4Status::NfsOk,
                (false, false) => Nfs4Status::NotSame,
                (true, true) => Nfs4Status::Same,
                (true, false) => Nfs4Status::NfsOk,
            };
            verify_answer(is_nverify, outcome)
        },
    }
}

/// Law: where the attributes can be compared at all, exactly one of VERIFY and
/// NVERIFY succeeds.
pub proof fn verify_and_nverify_are_opposites(want: Fattr4View, have: Fattr4View)
    requires
        covers(have.attrmask, want.attrmask),
    ensures
        (verify_status(false, want, Nfs4Status::NfsOk, Some(have)) == Nfs4Status::NfsOk) != (
        verify_status(true, want, Nfs4Status::NfsOk, Some(have)) == Nfs4Status::NfsOk),
{
}

} // verus!
