//! The wire form of a kernel inode handle:
//!
//! `[ver=4][instance:8][ino:8][tag:16][handle type:4][length:1][kernel handle]`
//!
//! The tag is the front of an HMAC-SHA256 over everything that the server acts
//! on, under a key that stays with the volume. Kernel handles are small numbers
//! that can be guessed, and opening one by number passes the permissions of the
//! directories by; the tag is what a guess lacks.
use crate::octets;
use crate::octets::{append_be32, append_be64, append_octets, same_octets, u32_at, u64_at};
use crate::protocol::Nfs4FileHandle;
use crate::text;
use crate::text::push_decimal;
use crate::xdr::octets_to_vec;
use hmac::{Hmac, Mac};
use sha2::Sha256;
use vstd::prelude::*;
use vstd::slice::slice_subrange;

verus! {

/// The first octet of a handle of this form.
pub const FH_V4_VERSION: u8 = 4;

/// The octets of a handle ahead of the kernel's own.
pub const FH_V4_MIN: usize = 38;

/// The octets of the tag.
pub const HMAC_LEN: usize = 16;

/// The longest kernel handle that is wrapped.
pub const MAX_KHANDLE: usize = 64;

/// Why a handle was not made or not taken.
#[derive(Debug, Clone, Copy, PartialEq, Eq, Structural)]
pub enum FhError {
    /// The kernel's handle is longer than what is wrapped.
    KernelHandleTooLarge { len: usize },
    /// Too short, or of another version.
    NotV4,
    /// Minted by another instance of the server.
    Stale { instance: u64, expected: u64 },
    /// The length that the handle claims is not the one that it has.
    LengthMismatch,
    /// The tag does not belong to the rest.
    AuthenticationFailed,
    /// The key file holds something else than a key.
    KeyCorrupt { len: usize },
}

impl FhError {
    pub open spec fn text(self) -> Seq<char> {
        match self {
            FhError::KernelHandleTooLarge { len } => "kernel handle too large: "@ + text::decimal(
                len as nat,
            ) + " bytes"@,
            FhError::NotV4 => "not a v4 filehandle"@,
            FhError::Stale { instance, expected } => "stale v4 handle: instance "@ + text::decimal(
                instance as nat,
            ) + " != "@ + text::decimal(expected as nat),
            FhError::LengthMismatch => "v4 filehandle length mismatch"@,
            FhError::AuthenticationFailed => "v4 filehandle authentication failed"@,
            FhError::KeyCorrupt { len } => "fh.key corrupt: "@ + text::decimal(len as nat)
                + " bytes (want 32)"@,
        }
    }

    /// A sentence for a log.
    pub fn describe(&self) -> (s: String)
        ensures
            s@ == self.text(),
    {
        match self {
            FhError::KernelHandleTooLarge { len } => {
                let mut s = "kernel handle too large: ".to_owned();
                push_decimal(&mut s, *len as u64);
                s.append(" bytes");
                s
            },
            FhError::NotV4 => "not a v4 filehandle".to_owned(),
            FhError::Stale { instance, expected } => {
                let mut s = "stale v4 handle: instance ".to_owned();
                push_decimal(&mut s, *instance);
                s.append(" != ");
                push_decimal(&mut s, *expected);
                s
            },
            FhError::LengthMismatch => "v4 filehandle length mismatch".to_owned(),
            FhError::AuthenticationFailed => "v4 filehandle authentication failed".to_owned(),
            FhError::KeyCorrupt { len } => {
                let mut s = "fh.key corrupt: ".to_owned();
                push_decimal(&mut s, *len as u64);
                s.append(" bytes (want 32)");
                s
            },
        }
    }
}

/// The HMAC-SHA256 of a message under a key: 32 octets.
pub uninterp spec fn hmac_sha256(key: Seq<u8>, message: Seq<u8>) -> Seq<u8>;

/// `hmac::Hmac<sha2::Sha256>`, made by `Mac::new_from_slice`, fed by
/// `Mac::update` and read by `Mac::finalize`: a function of key and message
/// alone, named [`hmac_sha256`]. Nothing is said of how hard it is to find a
/// message for a given result.
#[verifier::external_body]
fn hmac(key: &[u8; 32], message: &[u8]) -> (t: [u8; 32])
    ensures
        t@ == hmac_sha256(key@, message@),
{
    let mut mac = Hmac::<Sha256>::new_from_slice(key).expect("any key length is accepted");
    mac.update(message);
    mac.finalize().into_bytes().into()
}

/// What the tag covers.
pub open spec fn mac_message(instance: u64, ino: u64, htype: i32, kh: Seq<u8>) -> Seq<u8> {
    octets::be64(instance) + octets::be64(ino) + octets::be32(htype as u32) + kh
}

/// The tag: the first sixteen octets of the HMAC.
pub open spec fn tag_of(key: Seq<u8>, instance: u64, ino: u64, htype: i32, kh: Seq<u8>) -> Seq<u8> {
    Seq::new(
        HMAC_LEN as nat,
        |i: int| hmac_sha256(key, mac_message(instance, ino, htype, kh))[i],
    )
}

/// A whole handle.
pub open spec fn wire_v4(key: Seq<u8>, instance: u64, ino: u64, htype: i32, kh: Seq<u8>) -> Seq<
    u8,
> {
    seq![FH_V4_VERSION] + octets::be64(instance) + octets::be64(ino) + tag_of(
        key,
        instance,
        ino,
        htype,
        kh,
    ) + octets::be32(htype as u32) + seq![kh.len() as u8] + kh
}

pub open spec fn looks_v4(data: Seq<u8>) -> bool {
    data.len() >= FH_V4_MIN && data[0] == FH_V4_VERSION
}

/// The inode number that a handle carries. It serves to find files that are
/// open; what the handle resolves to is the kernel's word.
pub open spec fn ino_of(data: Seq<u8>) -> u64 {
    octets::u64_of(data.subrange(9, 17))
}

/// The inode number, handle type and kernel handle of a handle that this
/// instance minted.
pub open spec fn parse_v4(key: Seq<u8>, expected: u64, data: Seq<u8>) -> Result<
    (u64, i32, Seq<u8>),
    FhError,
> {
    let instance = octets::u64_of(data.subrange(1, 9));
    let ino = ino_of(data);
    let htype = octets::u32_of(data.subrange(33, 37)) as i32;
    let kh = data.skip(FH_V4_MIN as int);
    if !looks_v4(data) {
        Err(FhError::NotV4)
    } else if instance != expected {
        Err(FhError::Stale { instance, expected })
    } else if data.len() != FH_V4_MIN + data[37] {
        Err(FhError::LengthMismatch)
    } else if tag_of(key, instance, ino, htype, kh) != data.subrange(17, 33) {
        Err(FhError::AuthenticationFailed)
    } else {
        Ok((ino, htype, kh))
    }
}

/// The inode number of a handle of this form, whoever minted it.
pub fn v4_ino(data: &[u8]) -> (r: Option<u64>)
    ensures
        r == (if looks_v4(data@) {
            Some(ino_of(data@))
        } else {
            None
        }),
{
    if data.len() >= FH_V4_MIN && data[0] == FH_V4_VERSION {
        Some(u64_at(slice_subrange(data, 9, 17)))
    } else {
        None
    }
}

fn mac_tag(key: &[u8; 32], instance: u64, ino: u64, htype: i32, kh: &[u8]) -> (t: Vec<u8>)
    ensures
        t@ == tag_of(key@, instance, ino, htype, kh@),
{
    let mut message: Vec<u8> = Vec::new();
    append_be64(&mut message, instance);
    append_be64(&mut message, ino);
    append_be32(&mut message, htype as u32);
    append_octets(&mut message, kh);
    assert(message@ =~= mac_message(instance, ino, htype, kh@));
    let full = hmac(key, message.as_slice());
    let mut t: Vec<u8> = Vec::new();
    let mut i: usize = 0;
    while i < HMAC_LEN
        invariant
            i <= HMAC_LEN,
            full@ == hmac_sha256(key@, mac_message(instance, ino, htype, kh@)),
            t@.len() == i,
            forall|k: int| 0 <= k < i ==> t@[k] == full@[k],
        decreases HMAC_LEN - i,
    {
        t.push(full[i]);
        i = i + 1;
    }
    assert(t@ =~= tag_of(key@, instance, ino, htype, kh@));
    t
}

/// Wrap a kernel handle.
pub fn encode_v4(
    key: &[u8; 32],
    instance_id: u64,
    ino: u64,
    handle_type: i32,
    khandle: &[u8],
) -> (r: Result<Nfs4FileHandle, FhError>)
    ensures
        match r {
            Ok(fh) => khandle@.len() <= MAX_KHANDLE && fh@ == wire_v4(
                key@,
                instance_id,
                ino,
                handle_type,
                khandle@,
            ),
            Err(e) => khandle@.len() > MAX_KHANDLE && e == (FhError::KernelHandleTooLarge {
                len: khandle@.len() as usize,
            }),
        },
{
    if khandle.len() > MAX_KHANDLE {
        return Err(FhError::KernelHandleTooLarge { len: khandle.len() });
    }
    let mut data: Vec<u8> = Vec::new();
    data.push(FH_V4_VERSION);
    append_be64(&mut data, instance_id);
    append_be64(&mut data, ino);
    append_octets(&mut data, mac_tag(key, instance_id, ino, handle_type, khandle).as_slice());
    append_be32(&mut data, handle_type as u32);
    data.push(khandle.len() as u8);
    append_octets(&mut data, khandle);
    assert(data@ =~= wire_v4(key@, instance_id, ino, handle_type, khandle@));
    Ok(Nfs4FileHandle { data })
}

/// Take a handle apart and check its tag.
pub fn decode_v4(key: &[u8; 32], expect_instance: u64, data: &[u8]) -> (r: Result<
    (u64, i32, Vec<u8>),
    FhError,
>)
    ensures
        match r {
            Ok((ino, htype, kh)) => parse_v4(key@, expect_instance, data@) == Ok::<
                (u64, i32, Seq<u8>),
                FhError,
            >((ino, htype, kh@)),
            Err(e) => parse_v4(key@, expect_instance, data@) == Err::<(u64, i32, Seq<u8>), FhError>(
                e,
            ),
        },
{
    if data.len() < FH_V4_MIN || data[0] != FH_V4_VERSION {
        return Err(FhError::NotV4);
    }
    let instance: u64 = u64_at(slice_subrange(data, 1, 9));
    if instance != expect_instance {
        return Err(FhError::Stale { instance, expected: expect_instance });
    }
    let ino: u64 = u64_at(slice_subrange(data, 9, 17));
    let htype: i32 = u32_at(slice_subrange(data, 33, 37)) as i32;
    let klen: usize = data[37] as usize;
    if data.len() != FH_V4_MIN + klen {
        return Err(FhError::LengthMismatch);
    }
    let khandle = slice_subrange(data, FH_V4_MIN, data.len());
    assert(khandle@ =~= data@.skip(FH_V4_MIN as int));
    let tag = mac_tag(key, instance, ino, htype, khandle);
    if !same_octets(tag.as_slice(), slice_subrange(data, 17, 33)) {
        return Err(FhError::AuthenticationFailed);
    }
    Ok((ino, htype, octets_to_vec(khandle)))
}

/// What reading the key file gave.
#[derive(Debug)]
pub enum KeyRead {
    Octets(Vec<u8>),
    NotFound,
    Failed(String),
}

/// What to do about the key.
#[derive(Debug)]
pub enum KeyStep {
    /// The key that the volume has.
    Use([u8; 32]),
    /// The volume has none yet: make one, and write it aside before it takes its
    /// name, so that a crash leaves no short key.
    Create,
    Refuse(FhError),
    Report(String),
}

/// The key for a volume, from what its key file holds. A file that is there but
/// is no key is an error, never a reason for a fresh key: every handle minted
/// under the old one would go stale.
pub fn key_step(read: KeyRead) -> (step: KeyStep)
    ensures
        match read {
            KeyRead::Octets(v) => if v@.len() == 32 {
                step matches KeyStep::Use(k) && k@ == v@
            } else {
                step == KeyStep::Refuse(FhError::KeyCorrupt { len: v@.len() as usize })
            },
            KeyRead::NotFound => step == KeyStep::Create,
            KeyRead::Failed(m) => step == KeyStep::Report(m),
        },
{
    match read {
        KeyRead::Octets(v) => {
            if v.len() != 32 {
                return KeyStep::Refuse(FhError::KeyCorrupt { len: v.len() });
            }
            let mut k: [u8; 32] = [0u8; 32];
            let mut i: usize = 0;
            while i < 32
                invariant
                    i <= 32,
                    v@.len() == 32,
                    forall|j: int| 0 <= j < i ==> k@[j] == v@[j],
                decreases 32 - i,
            {
                k[i] = v[i];
                i = i + 1;
            }
            assert(k@ =~= v@);
            KeyStep::Use(k)
        },
        KeyRead::NotFound => KeyStep::Create,
        KeyRead::Failed(m) => KeyStep::Report(m),
    }
}

// ---------------------------------------------------------------------------
// Laws
// ---------------------------------------------------------------------------

proof fn lemma_htype_round_trip(htype: i32)
    ensures
        (htype as u32) as i32 == htype,
{
    assert((htype as u32) as i32 == htype) by (bit_vector);
}

/// Where each part of a handle stands.
proof fn lemma_parts(key: Seq<u8>, instance: u64, ino: u64, htype: i32, kh: Seq<u8>)
    ensures
        ({
            let data = wire_v4(key, instance, ino, htype, kh);
            &&& data.len() == FH_V4_MIN + kh.len()
            &&& data[0] == FH_V4_VERSION
            &&& data.subrange(1, 9) == octets::be64(instance)
            &&& data.subrange(9, 17) == octets::be64(ino)
            &&& data[37] == kh.len() as u8
            &&& data.skip(FH_V4_MIN as int) == kh
        }),
{
    let data = wire_v4(key, instance, ino, htype, kh);
    assert(data.subrange(1, 9) =~= octets::be64(instance));
    assert(data.subrange(9, 17) =~= octets::be64(ino));
    assert(data.skip(FH_V4_MIN as int) =~= kh);
}

proof fn lemma_tag_part(key: Seq<u8>, instance: u64, ino: u64, htype: i32, kh: Seq<u8>)
    ensures
        wire_v4(key, instance, ino, htype, kh).subrange(17, 33) == tag_of(
            key,
            instance,
            ino,
            htype,
            kh,
        ),
{
    let data = wire_v4(key, instance, ino, htype, kh);
    assert(data.subrange(17, 33) =~= tag_of(key, instance, ino, htype, kh));
}

proof fn lemma_type_part(key: Seq<u8>, instance: u64, ino: u64, htype: i32, kh: Seq<u8>)
    ensures
        octets::u32_of(wire_v4(key, instance, ino, htype, kh).subrange(33, 37)) as i32 == htype,
{
    let data = wire_v4(key, instance, ino, htype, kh);
    octets::lemma_u32_round_trip(htype as u32);
    lemma_htype_round_trip(htype);
    assert(data.subrange(33, 37) =~= octets::be32(htype as u32));
}

/// Law: a handle is taken back by the instance and the key that minted it, and
/// yields what went into it.
pub proof fn a_minted_handle_is_taken_back(
    key: Seq<u8>,
    instance: u64,
    ino: u64,
    htype: i32,
    kh: Seq<u8>,
)
    requires
        kh.len() <= MAX_KHANDLE,
    ensures
        parse_v4(key, instance, wire_v4(key, instance, ino, htype, kh)) == Ok::<
            (u64, i32, Seq<u8>),
            FhError,
        >((ino, htype, kh)),
        looks_v4(wire_v4(key, instance, ino, htype, kh)),
        ino_of(wire_v4(key, instance, ino, htype, kh)) == ino,
        wire_v4(key, instance, ino, htype, kh).len() == FH_V4_MIN + kh.len() <= 128,
{
    octets::lemma_u64_round_trip(instance);
    octets::lemma_u64_round_trip(ino);
    lemma_parts(key, instance, ino, htype, kh);
    lemma_tag_part(key, instance, ino, htype, kh);
    lemma_type_part(key, instance, ino, htype, kh);
}

/// Law: what is taken is octet for octet what minting the same contents gives.
/// A handle whose inode number, type, kernel handle or tag was altered is thus
/// taken only if the altered tag is the one for the altered contents.
pub proof fn only_minted_handles_are_taken(
    key: Seq<u8>,
    instance: u64,
    data: Seq<u8>,
    ino: u64,
    htype: i32,
    kh: Seq<u8>,
)
    requires
        parse_v4(key, instance, data) == Ok::<(u64, i32, Seq<u8>), FhError>((ino, htype, kh)),
    ensures
        data == wire_v4(key, instance, ino, htype, kh),
{
    let h = octets::u32_of(data.subrange(33, 37));
    octets::lemma_u64_back(data.subrange(1, 9));
    octets::lemma_u64_back(data.subrange(9, 17));
    octets::lemma_u32_back(data.subrange(33, 37));
    assert((h as i32) as u32 == h) by (bit_vector);
    assert(data =~= wire_v4(key, instance, ino, htype, kh));
}

/// Law: a handle of another instance is stale, whatever its key.
pub proof fn a_foreign_handle_is_stale(
    key: Seq<u8>,
    minted_under: Seq<u8>,
    instance: u64,
    minted_by: u64,
    ino: u64,
    htype: i32,
    kh: Seq<u8>,
)
    requires
        kh.len() <= MAX_KHANDLE,
        instance != minted_by,
    ensures
        parse_v4(key, instance, wire_v4(minted_under, minted_by, ino, htype, kh)) == Err::<
            (u64, i32, Seq<u8>),
            FhError,
        >(FhError::Stale { instance: minted_by, expected: instance }),
{
    let data = wire_v4(minted_under, minted_by, ino, htype, kh);
    octets::lemma_u64_round_trip(minted_by);
    assert(data.subrange(1, 9) =~= octets::be64(minted_by));
}

/// Law: no front of a handle is taken for the handle.
pub proof fn a_truncated_handle_is_refused(
    key: Seq<u8>,
    instance: u64,
    ino: u64,
    htype: i32,
    kh: Seq<u8>,
    n: int,
)
    requires
        kh.len() <= MAX_KHANDLE,
        0 <= n < FH_V4_MIN + kh.len(),
    ensures
        parse_v4(key, instance, wire_v4(key, instance, ino, htype, kh).take(n)) is Err,
{
    let data = wire_v4(key, instance, ino, htype, kh);
    if n >= FH_V4_MIN {
        assert(data.take(n)[37] == kh.len() as u8);
    }
}

/// Law: where each part of a handle stands: the version, the instance and the
/// inode number, the tag, the handle type and the length, and the kernel's own
/// handle behind them.
pub proof fn a_handle_has_its_parts_in_place(
    key: Seq<u8>,
    instance: u64,
    ino: u64,
    htype: i32,
    kh: Seq<u8>,
)
    requires
        kh.len() <= MAX_KHANDLE,
    ensures
        ({
            let data = wire_v4(key, instance, ino, htype, kh);
            &&& data.len() == 38 + kh.len()
            &&& data[0] == 4
            &&& octets::u64_of(data.subrange(1, 9)) == instance
            &&& octets::u64_of(data.subrange(9, 17)) == ino
            &&& octets::u32_of(data.subrange(33, 37)) as i32 == htype
            &&& data[37] == kh.len()
            &&& data.skip(38) == kh
        }),
        MAX_KHANDLE == 64,
{
    octets::lemma_u64_round_trip(instance);
    octets::lemma_u64_round_trip(ino);
    lemma_parts(key, instance, ino, htype, kh);
    lemma_type_part(key, instance, ino, htype, kh);
}

/// Law: the tag in a handle is the front of the HMAC over the instance, the inode
/// number, the handle type and the kernel handle, under the key.
pub proof fn a_handle_carries_the_front_of_its_hmac(
    key: Seq<u8>,
    instance: u64,
    ino: u64,
    htype: i32,
    kh: Seq<u8>,
    i: int,
)
    requires
        0 <= i < 16,
    ensures
        wire_v4(key, instance, ino, htype, kh)[17 + i] == hmac_sha256(
            key,
            octets::be64(instance) + (octets::be64(ino) + (octets::be32(htype as u32) + kh)),
        )[i],
{
    lemma_tag_part(key, instance, ino, htype, kh);
    let data = wire_v4(key, instance, ino, htype, kh);
    assert(data.subrange(17, 33)[i] == data[17 + i]);
    assert(mac_message(instance, ino, htype, kh) =~= octets::be64(instance) + (octets::be64(ino) + (
    octets::be32(htype as u32) + kh)));
}

/// Law: no two contents share what the tag is made over, so nothing of a handle
/// that the server acts on is left out of it.
pub proof fn no_two_contents_share_a_message(
    a_instance: u64,
    a_ino: u64,
    a_type: i32,
    a_kh: Seq<u8>,
    b_instance: u64,
    b_ino: u64,
    b_type: i32,
    b_kh: Seq<u8>,
)
    requires
        mac_message(a_instance, a_ino, a_type, a_kh) == mac_message(
            b_instance,
            b_ino,
            b_type,
            b_kh,
        ),
    ensures
        a_instance == b_instance,
        a_ino == b_ino,
        a_type == b_type,
        a_kh == b_kh,
{
    let a = mac_message(a_instance, a_ino, a_type, a_kh);
    let b = mac_message(b_instance, b_ino, b_type, b_kh);
    octets::lemma_u64_round_trip(a_instance);
    octets::lemma_u64_round_trip(b_instance);
    octets::lemma_u64_round_trip(a_ino);
    octets::lemma_u64_round_trip(b_ino);
    octets::lemma_u32_round_trip(a_type as u32);
    octets::lemma_u32_round_trip(b_type as u32);
    lemma_htype_round_trip(a_type);
    lemma_htype_round_trip(b_type);
    assert(a.subrange(0, 8) =~= octets::be64(a_instance));
    assert(b.subrange(0, 8) =~= octets::be64(b_instance));
    assert(a.subrange(8, 16) =~= octets::be64(a_ino));
    assert(b.subrange(8, 16) =~= octets::be64(b_ino));
    assert(a.subrange(16, 20) =~= octets::be32(a_type as u32));
    assert(b.subrange(16, 20) =~= octets::be32(b_type as u32));
    assert(a.skip(20) =~= a_kh);
    assert(b.skip(20) =~= b_kh);
}

/// Law: what is too short or of another version is no handle of this form, and
/// one whose length octet is wrong is refused for that, before its tag is looked
/// at.
pub proof fn a_malformed_handle_is_refused(key: Seq<u8>, expected: u64, data: Seq<u8>)
    ensures
        data.len() < 38 || data[0] != 4 ==> parse_v4(key, expected, data) == Err::<
            (u64, i32, Seq<u8>),
            FhError,
        >(FhError::NotV4),
        data.len() >= 38 && data[0] == 4 && octets::u64_of(data.subrange(1, 9)) == expected
            && data.len() != 38 + data[37] ==> parse_v4(key, expected, data) == Err::<
            (u64, i32, Seq<u8>),
            FhError,
        >(FhError::LengthMismatch),
{
}

/// Law: a volume keeps its key. A key file of thirty-two octets is the key, one that is
/// missing asks for a new key, and one that holds anything else is refused and never
/// replaced.
pub proof fn a_volume_keeps_its_key(read: KeyRead, step: KeyStep)
    requires
        call_ensures(key_step, (read,), step),
    ensures
        step is Create <==> read is NotFound,
        read matches KeyRead::Octets(v) ==> {
            &&& v@.len() == 32 ==> (step matches KeyStep::Use(k) && k@ == v@)
            &&& v@.len() != 32 ==> step is Refuse
        },
        read is Failed ==> step is Report,
{
}

/// Law: what one call wraps another takes apart, under the same key and for the same
/// instance.
pub proof fn wrapping_and_taking_apart_undo_each_other(
    key: &[u8; 32],
    instance: u64,
    ino: u64,
    htype: i32,
    kh: &[u8],
    wrapped: Result<Nfs4FileHandle, FhError>,
    data: &[u8],
    taken: Result<(u64, i32, Vec<u8>), FhError>,
    seen: Option<u64>,
)
    requires
        call_ensures(encode_v4, (key, instance, ino, htype, kh), wrapped),
        call_ensures(decode_v4, (key, instance, data), taken),
        call_ensures(v4_ino, (data,), seen),
        wrapped is Ok ==> data@ == (wrapped->Ok_0)@,
    ensures
        wrapped is Ok <==> kh@.len() <= 64,
        wrapped is Ok ==> taken is Ok && (taken->Ok_0).0 == ino && (taken->Ok_0).1 == htype && (
        taken->Ok_0).2@ == kh@ && seen == Some(ino),
{
    if wrapped is Ok {
        a_minted_handle_is_taken_back(key@, instance, ino, htype, kh@);
    }
}

/// Law: the sentence for a stale handle names the instance that minted it and then, at its
/// end, the one that was expected; those for a handle or a key of the wrong length name
/// the length.
pub proof fn an_error_names_its_numbers(instance: u64, expected: u64, len: usize)
    ensures
        ({
            let s = (FhError::Stale { instance, expected }).text();
            let (i, e) = (text::decimal(instance as nat), text::decimal(expected as nat));
            let lead = "stale v4 handle: instance "@;
            &&& s.subrange(lead.len() as int, (lead.len() + i.len()) as int) == i
            &&& s.skip(s.len() - e.len()) == e
        }),
        ({
            let n = text::decimal(len as nat);
            let large = (FhError::KernelHandleTooLarge { len }).text();
            let key = (FhError::KeyCorrupt { len }).text();
            let (a, b) = ("kernel handle too large: "@, "fh.key corrupt: "@);
            &&& large.subrange(a.len() as int, (a.len() + n.len()) as int) == n
            &&& key.subrange(b.len() as int, (b.len() + n.len()) as int) == n
        }),
{
    let s = (FhError::Stale { instance, expected }).text();
    let (i, e) = (text::decimal(instance as nat), text::decimal(expected as nat));
    let lead = "stale v4 handle: instance "@;
    assert(s.subrange(lead.len() as int, (lead.len() + i.len()) as int) =~= i);
    assert(s.skip(s.len() - e.len()) =~= e);
    let n = text::decimal(len as nat);
    let large = (FhError::KernelHandleTooLarge { len }).text();
    let key = (FhError::KeyCorrupt { len }).text();
    let (a, b) = ("kernel handle too large: "@, "fh.key corrupt: "@);
    assert(large.subrange(a.len() as int, (a.len() + n.len()) as int) =~= n);
    assert(key.subrange(b.len() as int, (b.len() + n.len()) as int) =~= n);
}

} // verus!
