//! LAYOUTGET.
use crate::compound::results::OperationResult;
use crate::dispatcher::layout::codec;
use crate::dispatcher::layout::codec::{
    encode_file_layout_seeded, io_mode, layout_type_served, legacy_seed, stateid_octets, IoMode,
    LayoutClass, LayoutType,
};
use crate::dispatcher::layout::scsi;
use crate::dispatcher::layout::scsi::{
    encode_scsi_layout, hostnqn_from_co_ownerid, scsi_read_segments, scsi_write_segments, span,
    GrantedExtent,
};
use crate::octets;
use crate::octets::bytes_as_slice;
use crate::protocol::{Nfs4Status, SessionId, StateId};
use crate::text;
use crate::text::first_component;
use crate::xdr;
use crate::xdr::XdrEncoder;
use bytes::Bytes;
use vstd::prelude::*;

verus! {

/// The filesystem that every layout is counted under.
pub const LAYOUT_FSID: u64 = 1;

/// The most that one grant covers, unless the client cannot do with less.
pub const GRANT_LIMIT: u64 = 1_073_741_824;

/// The arguments of LAYOUTGET.
#[derive(Debug, Clone, Copy)]
pub struct LayoutRequest {
    pub signal_layout_avail: bool,
    pub layout_type: u32,
    pub iomode: u32,
    pub offset: u64,
    pub length: u64,
    pub minlength: u64,
    pub stateid: StateId,
    pub maxcount: u32,
}

/// What the server knows when a LAYOUTGET comes in.
#[derive(Debug)]
pub struct LayoutGetFacts {
    /// Whether there is a metadata server to ask.
    pub pnfs: bool,
    /// The current filehandle.
    pub filehandle: Option<Vec<u8>>,
    /// The path of the file below the export, where the filehandle resolves.
    pub file_key: Option<String>,
    /// The session that the COMPOUND runs on.
    pub session: Option<SessionId>,
    /// The client of that session, 0 where it is not known.
    pub client_id: u64,
    /// How the volume of the file keeps its data.
    pub class: LayoutClass,
}

/// Who a layout belongs to.
#[derive(Debug, Clone, Copy)]
pub struct LayoutOwner {
    pub client_id: u64,
    pub session_id: SessionId,
    pub fsid: u64,
}

/// What the metadata server is asked.
#[derive(Debug)]
pub struct LayoutGetArgs {
    pub signal_layout_avail: bool,
    pub layout_type: LayoutType,
    pub iomode: IoMode,
    pub offset: u64,
    pub length: u64,
    pub minlength: u64,
    pub stateid: [u8; 16],
    pub maxcount: u32,
    pub filehandle: Vec<u8>,
    pub file_key: String,
    pub owner: LayoutOwner,
}

/// What to do about a LAYOUTGET.
#[derive(Debug)]
pub enum LayoutGetStep {
    Refuse(Nfs4Status),
    /// Ask the metadata server for a file layout.
    Files(LayoutGetArgs),
    /// Ask the allocator for extents: see [`scsi_request`].
    Scsi { filehandle: Vec<u8>, file_key: String, owner: LayoutOwner },
}

/// The key of a file in the placement table. The root of the export has one too:
/// clients probe it when they mount.
pub open spec fn keyed(path: Seq<char>) -> Seq<char> {
    if path.len() == 0 {
        "/"@
    } else {
        path
    }
}

/// The key of a file, from its path below the export.
pub fn layout_key(path: String) -> (key: String)
    ensures
        key@ == keyed(path@),
{
    if path.as_str().unicode_len() == 0 {
        "/".to_owned()
    } else {
        path
    }
}

/// What stands against a LAYOUTGET, in the order in which it is looked for.
pub open spec fn layoutget_refusal(r: LayoutRequest, f: LayoutGetFacts) -> Option<Nfs4Status> {
    if !f.pnfs {
        Some(Nfs4Status::NotSupp)
    } else if f.filehandle is None {
        Some(Nfs4Status::NoFileHandle)
    } else if f.file_key is None {
        Some(Nfs4Status::Stale)
    } else if f.session is None {
        Some(Nfs4Status::OpNotInSession)
    } else if f.class is Scsi {
        if r.layout_type != 5 {
            Some(Nfs4Status::UnknownLayoutType)
        } else {
            None
        }
    } else if r.layout_type != 1 {
        Some(Nfs4Status::UnknownLayoutType)
    } else if codec::io_mode_of(r.iomode) is None {
        Some(Nfs4Status::BadIoMode)
    } else {
        None
    }
}

/// The owner of a layout that this session gets.
pub open spec fn owner_for(f: LayoutGetFacts) -> LayoutOwner {
    LayoutOwner { client_id: f.client_id, session_id: f.session->0, fsid: LAYOUT_FSID }
}

/// Decide a LAYOUTGET. A volume grants layouts of its own class alone: a client
/// that asks a file volume for blocks, or a block volume for files, is told that
/// there is no such type.
pub fn begin_layoutget(r: LayoutRequest, f: LayoutGetFacts) -> (step: LayoutGetStep)
    ensures
        match step {
            LayoutGetStep::Refuse(status) => layoutget_refusal(r, f) == Some(status),
            LayoutGetStep::Files(a) => {
                &&& layoutget_refusal(r, f) is None
                &&& f.class is File
                &&& a.signal_layout_avail == r.signal_layout_avail
                &&& a.layout_type is NfsV4_1Files
                &&& codec::io_mode_of(r.iomode) == Some(a.iomode)
                &&& a.offset == r.offset
                &&& a.length == r.length
                &&& a.minlength == r.minlength
                &&& a.stateid@ == xdr::wire_stateid(r.stateid@)
                &&& a.maxcount == r.maxcount
                &&& Some(a.filehandle) == f.filehandle
                &&& a.file_key@ == keyed(f.file_key->0@)
                &&& a.owner == owner_for(f)
            },
            LayoutGetStep::Scsi { filehandle, file_key, owner } => {
                &&& layoutget_refusal(r, f) is None
                &&& f.class is Scsi
                &&& Some(filehandle) == f.filehandle
                &&& file_key@ == keyed(f.file_key->0@)
                &&& owner == owner_for(f)
            },
        },
{
    if !f.pnfs {
        return LayoutGetStep::Refuse(Nfs4Status::NotSupp);
    }
    let filehandle = match f.filehandle {
        Some(fh) => fh,
        None => {
            return LayoutGetStep::Refuse(Nfs4Status::NoFileHandle);
        },
    };
    let file_key = match f.file_key {
        Some(path) => layout_key(path),
        None => {
            return LayoutGetStep::Refuse(Nfs4Status::Stale);
        },
    };
    let owner = match f.session {
        Some(session_id) => LayoutOwner { client_id: f.client_id, session_id, fsid: LAYOUT_FSID },
        None => {
            return LayoutGetStep::Refuse(Nfs4Status::OpNotInSession);
        },
    };
    match f.class {
        LayoutClass::Scsi => {
            if r.layout_type != 5 {
                return LayoutGetStep::Refuse(Nfs4Status::UnknownLayoutType);
            }
            LayoutGetStep::Scsi { filehandle, file_key, owner }
        },
        LayoutClass::File => {
            if r.layout_type == 5 {
                return LayoutGetStep::Refuse(Nfs4Status::UnknownLayoutType);
            }
            let layout_type = match layout_type_served(r.layout_type) {
                Ok(t) => t,
                Err(status) => {
                    return LayoutGetStep::Refuse(status);
                },
            };
            let iomode = match io_mode(r.iomode) {
                Some(m) => m,
                None => {
                    return LayoutGetStep::Refuse(Nfs4Status::BadIoMode);
                },
            };
            let stateid = stateid_octets(&r.stateid);
            LayoutGetStep::Files(
                LayoutGetArgs {
                    signal_layout_avail: r.signal_layout_avail,
                    layout_type,
                    iomode,
                    offset: r.offset,
                    length: r.length,
                    minlength: r.minlength,
                    stateid,
                    maxcount: r.maxcount,
                    filehandle,
                    file_key,
                    owner,
                },
            )
        },
    }
}

/// Law: no volume hands out a layout of a class other than its own.
pub proof fn a_volume_grants_its_own_class_alone(r: LayoutRequest, f: LayoutGetFacts)
    requires
        layoutget_refusal(r, f) is None,
    ensures
        f.class is Scsi <==> r.layout_type == 5,
        f.class is File <==> r.layout_type == 1,
        codec::served(r.layout_type) is Ok,
{
}

// ---------------------------------------------------------------------------
// The answer of the metadata server
// ---------------------------------------------------------------------------

/// A layout that the metadata server granted.
#[derive(Debug)]
pub struct Layout {
    pub offset: u64,
    pub length: u64,
    /// The filehandle of the file on each of its data servers, in stripe order.
    pub stripe_fhs: Vec<Vec<u8>>,
    pub stripe_unit: u64,
    pub device_id: [u8; 16],
    /// The identity of the file, 0 where its placement predates identities.
    pub file_id: u64,
}

#[derive(Debug)]
pub struct LayoutGetResult {
    pub return_on_close: bool,
    pub stateid: [u8; 16],
    pub layouts: Vec<Layout>,
}

/// Why the metadata server grants nothing.
#[derive(Debug, Clone, Copy, PartialEq, Eq, Structural)]
pub enum LayoutGetError {
    /// A truncation is still under way on the data servers.
    TryLater,
    Unavailable,
}

/// `layout4`. The layout starts where `seed` says if the file has no identity of
/// its own.
pub open spec fn wire_layout(l: Layout, iomode: u32, seed: u64) -> Seq<u8> {
    octets::be64(l.offset) + octets::be64(l.length) + octets::be32(iomode) + octets::be32(1)
        + xdr::wire_opaque(
        codec::layout_content(
            codec::octet_views(l.stripe_fhs@),
            l.stripe_unit,
            l.device_id@,
            l.file_id,
            seed,
        ),
    )
}

pub open spec fn wire_layouts(v: Seq<Layout>, iomode: u32, seed: u64) -> Seq<u8>
    decreases v.len(),
{
    if v.len() == 0 {
        Seq::empty()
    } else {
        wire_layouts(v.drop_last(), iomode, seed) + wire_layout(v.last(), iomode, seed)
    }
}

/// LAYOUTGET4resok.
pub open spec fn wire_layoutget(g: LayoutGetResult, iomode: u32, seed: u64) -> Seq<u8> {
    xdr::wire_bool(g.return_on_close) + xdr::wire_fixed(g.stateid@) + octets::be32(
        g.layouts@.len() as u32,
    ) + wire_layouts(g.layouts@, iomode, seed)
}

/// A layout without a data server cannot be used.
pub open spec fn has_bare_layout(g: LayoutGetResult) -> bool {
    exists|i: int| 0 <= i < g.layouts@.len() && (#[trigger] g.layouts@[i]).stripe_fhs@.len() == 0
}

fn encode_layout(e: &mut XdrEncoder, l: &Layout, iomode: u32, seed: u64)
    ensures
        final(e)@ == old(e)@ + wire_layout(*l, iomode, seed),
{
    broadcast use xdr::lemma_concat_assoc;

    e.encode_u64(l.offset);
    e.encode_u64(l.length);
    e.encode_u32(iomode);
    e.encode_u32(1);
    let content = encode_file_layout_seeded(
        &l.stripe_fhs,
        l.stripe_unit,
        &l.device_id,
        l.file_id,
        seed,
    );
    e.encode_opaque(bytes_as_slice(&content));
}

/// The octets of a grant, where every layout has a data server.
pub fn encode_layoutget(g: &LayoutGetResult, iomode: u32, seed: u64) -> (r: Option<Bytes>)
    ensures
        match r {
            Some(b) => !has_bare_layout(*g) && octets::bytes_of(b) == wire_layoutget(
                *g,
                iomode,
                seed,
            ),
            None => has_bare_layout(*g),
        },
{
    let mut e = XdrEncoder::new();
    e.encode_bool(g.return_on_close);
    assert(e@ =~= xdr::wire_bool(g.return_on_close));
    e.encode_fixed_opaque(&g.stateid);
    e.encode_u32(g.layouts.len() as u32);
    let ghost head = e@;
    assert(g.layouts@.take(0) =~= Seq::empty());
    assert(head + Seq::<u8>::empty() =~= head);
    let mut i: usize = 0;
    while i < g.layouts.len()
        invariant
            i <= g.layouts@.len(),
            e@ == head + wire_layouts(g.layouts@.take(i as int), iomode, seed),
            forall|k: int| 0 <= k < i ==> (#[trigger] g.layouts@[k]).stripe_fhs@.len() > 0,
        decreases g.layouts@.len() - i,
    {
        if g.layouts[i].stripe_fhs.len() == 0 {
            assert(g.layouts@[i as int].stripe_fhs@.len() == 0);
            return None;
        }
        encode_layout(&mut e, &g.layouts[i], iomode, seed);
        proof {
            let before = g.layouts@.take(i as int);
            assert(g.layouts@.take(i + 1).drop_last() =~= before);
            xdr::lemma_concat_assoc(
                head,
                wire_layouts(before, iomode, seed),
                wire_layout(g.layouts@[i as int], iomode, seed),
            );
        }
        i = i + 1;
    }
    assert(g.layouts@.take(i as int) =~= g.layouts@);
    Some(e.finish())
}

/// What a LAYOUTGET is answered.
pub open spec fn answers_layoutget(
    outcome: Result<LayoutGetResult, LayoutGetError>,
    iomode: u32,
    seed: u64,
    r: OperationResult,
) -> bool {
    match outcome {
        Ok(g) => if has_bare_layout(g) {
            r == OperationResult::LayoutGet(Nfs4Status::LayoutUnavail, None)
        } else {
            r matches OperationResult::LayoutGet(Nfs4Status::NfsOk, Some(b)) && octets::bytes_of(b)
                == wire_layoutget(g, iomode, seed)
        },
        Err(LayoutGetError::TryLater) => r == OperationResult::LayoutGet(
            Nfs4Status::LayoutTrylater,
            None,
        ),
        Err(LayoutGetError::Unavailable) => r == OperationResult::LayoutGet(
            Nfs4Status::LayoutUnavail,
            None,
        ),
    }
}

/// Turn the answer of the metadata server into a result.
pub fn complete_layoutget_seeded(
    outcome: Result<LayoutGetResult, LayoutGetError>,
    iomode: u32,
    seed: u64,
) -> (r: OperationResult)
    ensures
        answers_layoutget(outcome, iomode, seed, r),
{
    match outcome {
        Ok(g) => match encode_layoutget(&g, iomode, seed) {
            Some(b) => OperationResult::LayoutGet(Nfs4Status::NfsOk, Some(b)),
            None => OperationResult::LayoutGet(Nfs4Status::LayoutUnavail, None),
        },
        Err(LayoutGetError::TryLater) => OperationResult::LayoutGet(
            Nfs4Status::LayoutTrylater,
            None,
        ),
        Err(LayoutGetError::Unavailable) => OperationResult::LayoutGet(
            Nfs4Status::LayoutUnavail,
            None,
        ),
    }
}

/// Turn the answer of the metadata server into a result, for the file that this
/// filehandle names.
pub fn complete_layoutget(
    outcome: Result<LayoutGetResult, LayoutGetError>,
    iomode: u32,
    filehandle: &[u8],
) -> (r: OperationResult)
    ensures
        exists|seed: u64|
            codec::hashed(filehandle@, seed) && #[trigger] answers_layoutget(
                outcome,
                iomode,
                seed,
                r,
            ),
{
    let seed: u64 = legacy_seed(filehandle);
    complete_layoutget_seeded(outcome, iomode, seed)
}

// ---------------------------------------------------------------------------
// Block volumes
// ---------------------------------------------------------------------------

/// What the server knows about a request for extents.
#[derive(Debug)]
pub struct ScsiFacts {
    /// Whether the metadata server has an allocator.
    pub backend: bool,
    /// The client of the session, 0 where it is not known.
    pub client_id: u64,
    /// The inode of the file, where it can be looked up.
    pub file_id: Option<u64>,
    /// The owner string that the client gave of itself.
    pub owner: Option<Vec<u8>>,
}

/// What the allocator is asked, once the host is let in.
#[derive(Debug)]
pub struct ScsiGrant {
    pub volume: String,
    pub file_id: u64,
    pub client_id: u64,
    pub offset: u64,
    pub length: u64,
    /// Reading never allocates.
    pub read: bool,
    /// The host to let in before anything is granted.
    pub host_nqn: String,
}

/// How much to grant: what is asked for up to [`GRANT_LIMIT`], no less than the
/// client needs, and never beyond the largest signed offset.
pub open spec fn wanted(offset: u64, length: u64, minlength: u64) -> u64 {
    let room = if offset <= i64::MAX {
        (i64::MAX - offset) as u64
    } else {
        0
    };
    let capped = if length < GRANT_LIMIT {
        length
    } else {
        GRANT_LIMIT
    };
    let enough = if capped > minlength {
        capped
    } else {
        minlength
    };
    if enough < room {
        enough
    } else {
        room
    }
}

fn want(offset: u64, length: u64, minlength: u64) -> (w: u64)
    ensures
        w == wanted(offset, length, minlength),
{
    let room: u64 = (i64::MAX as u64).saturating_sub(offset);
    let capped: u64 = if length < GRANT_LIMIT {
        length
    } else {
        GRANT_LIMIT
    };
    let enough: u64 = if capped > minlength {
        capped
    } else {
        minlength
    };
    if enough < room {
        enough
    } else {
        room
    }
}

/// Law: a grant covers what the client cannot do without, as far as offsets go,
/// and never runs past the largest of them.
pub proof fn a_grant_covers_the_minimum(offset: u64, length: u64, minlength: u64)
    ensures
        wanted(offset, length, minlength) > 0 ==> offset + wanted(offset, length, minlength)
            <= i64::MAX,
        offset + minlength <= i64::MAX ==> wanted(offset, length, minlength) >= minlength,
        minlength <= GRANT_LIMIT ==> wanted(offset, length, minlength) <= GRANT_LIMIT,
{
}

/// The host name of the client, where it has one.
pub open spec fn host_of(owner: Option<Vec<u8>>) -> Option<Seq<char>> {
    match owner {
        Some(o) => scsi::host_nqn(o@),
        None => None,
    }
}

/// What stands against a request for extents, in the order in which it is looked
/// for.
pub open spec fn scsi_refusal(
    key: Seq<char>,
    iomode: u32,
    offset: u64,
    length: u64,
    minlength: u64,
    f: ScsiFacts,
) -> Option<Nfs4Status> {
    if iomode != 1 && iomode != 2 {
        Some(Nfs4Status::BadIoMode)
    } else if !f.backend || text::first_part(key, '/').len() == 0 {
        Some(Nfs4Status::LayoutUnavail)
    } else if f.client_id == 0 {
        Some(Nfs4Status::OpNotInSession)
    } else if f.file_id is None {
        Some(Nfs4Status::Stale)
    } else if wanted(offset, length, minlength) == 0 {
        Some(Nfs4Status::Inval)
    } else if host_of(f.owner) is None {
        Some(Nfs4Status::LayoutUnavail)
    } else {
        None
    }
}

/// Decide a request for extents. The host has to be let in before the grant, so
/// that a host that cannot be let in leaves no grant behind.
pub fn scsi_request(
    key: &str,
    iomode: u32,
    offset: u64,
    length: u64,
    minlength: u64,
    f: ScsiFacts,
) -> (r: Result<ScsiGrant, Nfs4Status>)
    ensures
        match r {
            Ok(g) => {
                &&& scsi_refusal(key@, iomode, offset, length, minlength, f) is None
                &&& g.volume@ == text::first_part(key@, '/')
                &&& Some(g.file_id) == f.file_id
                &&& g.client_id == f.client_id
                &&& g.offset == offset
                &&& g.length == wanted(offset, length, minlength)
                &&& g.read == (iomode == 1)
                &&& Some(g.host_nqn@) == host_of(f.owner)
            },
            Err(status) => scsi_refusal(key@, iomode, offset, length, minlength, f) == Some(status),
        },
{
    let read = match iomode {
        1 => true,
        2 => false,
        _ => {
            return Err(Nfs4Status::BadIoMode);
        },
    };
    if !f.backend {
        return Err(Nfs4Status::LayoutUnavail);
    }
    let volume = first_component(key, '/');
    if volume.unicode_len() == 0 {
        return Err(Nfs4Status::LayoutUnavail);
    }
    if f.client_id == 0 {
        return Err(Nfs4Status::OpNotInSession);
    }
    let file_id: u64 = match f.file_id {
        Some(id) => id,
        None => {
            return Err(Nfs4Status::Stale);
        },
    };
    let length: u64 = want(offset, length, minlength);
    if length == 0 {
        return Err(Nfs4Status::Inval);
    }
    let host = match &f.owner {
        Some(o) => hostnqn_from_co_ownerid(o.as_slice()),
        None => None,
    };
    match host {
        Some(host_nqn) => Ok(
            ScsiGrant {
                volume: volume.to_owned(),
                file_id,
                client_id: f.client_id,
                offset,
                length,
                read,
                host_nqn,
            },
        ),
        None => Err(Nfs4Status::LayoutUnavail),
    }
}

/// Why the allocator refuses.
#[derive(Debug, Clone, Copy, PartialEq, Eq, Structural)]
pub enum ExtentAllocError {
    /// Another client holds the range.
    Conflict,
    /// The last holder may still be writing.
    NotQuiescent,
    FencedClient,
    NoSpace,
    InvalidRange,
    CommitRejected,
    Corruption,
    Sql,
}

/// What became of a request for extents.
#[derive(Debug)]
pub enum GrantOutcome {
    /// The host could not be let in.
    NotAdmitted,
    Granted(Vec<GrantedExtent>),
    Refused(ExtentAllocError),
    BackendFailed,
}

/// Space that still holds what its last owner wrote.
pub open spec fn unscrubbed(extents: Seq<GrantedExtent>) -> bool {
    exists|i: int| 0 <= i < extents.len() && (#[trigger] extents[i]).needs_scrub
}

/// What stands against handing out a grant. What passes in time is worth another
/// try; a full volume is not, and the client then writes through the server,
/// which tells it why.
pub open spec fn grant_refusal_for(outcome: GrantOutcome) -> Option<Nfs4Status> {
    match outcome {
        GrantOutcome::NotAdmitted => Some(Nfs4Status::LayoutTrylater),
        GrantOutcome::Granted(extents) => if unscrubbed(extents@) {
            Some(Nfs4Status::LayoutUnavail)
        } else {
            None
        },
        GrantOutcome::Refused(e) => match e {
            ExtentAllocError::Conflict => Some(Nfs4Status::LayoutTrylater),
            ExtentAllocError::NotQuiescent => Some(Nfs4Status::LayoutTrylater),
            ExtentAllocError::FencedClient => Some(Nfs4Status::LayoutTrylater),
            ExtentAllocError::NoSpace => Some(Nfs4Status::LayoutUnavail),
            ExtentAllocError::InvalidRange => Some(Nfs4Status::Inval),
            ExtentAllocError::CommitRejected => Some(Nfs4Status::ServerFault),
            ExtentAllocError::Corruption => Some(Nfs4Status::ServerFault),
            ExtentAllocError::Sql => Some(Nfs4Status::ServerFault),
        },
        GrantOutcome::BackendFailed => Some(Nfs4Status::ServerFault),
    }
}

fn any_unscrubbed(extents: &Vec<GrantedExtent>) -> (b: bool)
    ensures
        b == unscrubbed(extents@),
{
    let mut i: usize = 0;
    while i < extents.len()
        invariant
            i <= extents@.len(),
            forall|k: int| 0 <= k < i ==> !(#[trigger] extents@[k]).needs_scrub,
        decreases extents@.len() - i,
    {
        if extents[i].needs_scrub {
            assert(extents@[i as int].needs_scrub);
            return true;
        }
        i = i + 1;
    }
    false
}

/// What stands against handing out a grant, if anything does.
pub fn grant_refusal(outcome: &GrantOutcome) -> (r: Option<Nfs4Status>)
    ensures
        r == grant_refusal_for(*outcome),
{
    match outcome {
        GrantOutcome::NotAdmitted => Some(Nfs4Status::LayoutTrylater),
        GrantOutcome::Granted(extents) => {
            if any_unscrubbed(extents) {
                return Some(Nfs4Status::LayoutUnavail);
            }
            None
        },
        GrantOutcome::Refused(e) => match e {
            ExtentAllocError::Conflict => Some(Nfs4Status::LayoutTrylater),
            ExtentAllocError::NotQuiescent => Some(Nfs4Status::LayoutTrylater),
            ExtentAllocError::FencedClient => Some(Nfs4Status::LayoutTrylater),
            ExtentAllocError::NoSpace => Some(Nfs4Status::LayoutUnavail),
            ExtentAllocError::InvalidRange => Some(Nfs4Status::Inval),
            ExtentAllocError::CommitRejected => Some(Nfs4Status::ServerFault),
            ExtentAllocError::Corruption => Some(Nfs4Status::ServerFault),
            ExtentAllocError::Sql => Some(Nfs4Status::ServerFault),
        },
        GrantOutcome::BackendFailed => Some(Nfs4Status::ServerFault),
    }
}

/// LAYOUTGET4resok with one SCSI layout, to be returned on close.
pub open spec fn wire_scsi_grant(
    stateid: Seq<u8>,
    offset: u64,
    length: u64,
    iomode: u32,
    content: Seq<u8>,
) -> Seq<u8> {
    xdr::wire_bool(true) + xdr::wire_fixed(stateid) + octets::be32(1) + octets::be64(offset)
        + octets::be64(length) + octets::be32(iomode) + octets::be32(5) + xdr::wire_opaque(content)
}

/// The octets of a grant. A layout for reading covers the window that was asked
/// for; one for writing, the span of its extents.
pub open spec fn scsi_grant_octets(
    g: ScsiGrant,
    extents: Seq<GrantedExtent>,
    stateid: Seq<u8>,
    device_id: Seq<u8>,
) -> Seq<u8> {
    if g.read {
        wire_scsi_grant(
            stateid,
            g.offset,
            g.length,
            1,
            scsi::wire_scsi_layout(scsi::read_view(extents, g.offset, g.length), device_id),
        )
    } else {
        let content = scsi::wire_scsi_layout(scsi::write_view(extents), device_id);
        if extents.len() == 0 {
            wire_scsi_grant(stateid, g.offset, g.length, 2, content)
        } else {
            wire_scsi_grant(
                stateid,
                scsi::lowest(extents),
                (scsi::highest(extents) - scsi::lowest(extents)) as u64,
                2,
                content,
            )
        }
    }
}

fn encode_scsi_grant(
    stateid: &[u8; 16],
    offset: u64,
    length: u64,
    iomode: u32,
    content: &[u8],
) -> (b: Bytes)
    ensures
        octets::bytes_of(b) == wire_scsi_grant(stateid@, offset, length, iomode, content@),
{
    let mut e = XdrEncoder::new();
    e.encode_bool(true);
    assert(e@ =~= xdr::wire_bool(true));
    e.encode_fixed_opaque(stateid);
    e.encode_u32(1);
    e.encode_u64(offset);
    e.encode_u64(length);
    e.encode_u32(iomode);
    e.encode_u32(5);
    e.encode_opaque(content);
    e.finish()
}

/// Turn a grant into a result, under the stateid that it was registered with.
/// What cannot be registered cannot be recalled, and is not handed out.
pub fn complete_scsi_layoutget(
    g: &ScsiGrant,
    extents: &Vec<GrantedExtent>,
    stateid: Option<[u8; 16]>,
    device_id: &[u8; 16],
) -> (r: OperationResult)
    requires
        scsi::all_fit(extents@),
    ensures
        match stateid {
            Some(s) => r matches OperationResult::LayoutGet(Nfs4Status::NfsOk, Some(b))
                && octets::bytes_of(b) == scsi_grant_octets(*g, extents@, s@, device_id@),
            None => r == OperationResult::LayoutGet(Nfs4Status::LayoutUnavail, None),
        },
{
    let s = match stateid {
        Some(s) => s,
        None => {
            return OperationResult::LayoutGet(Nfs4Status::LayoutUnavail, None);
        },
    };
    if g.read {
        let segments = scsi_read_segments(extents, g.offset, g.length);
        let content = encode_scsi_layout(&segments, device_id);
        let b = encode_scsi_grant(&s, g.offset, g.length, 1, bytes_as_slice(&content));
        return OperationResult::LayoutGet(Nfs4Status::NfsOk, Some(b));
    }
    let segments = scsi_write_segments(extents);
    let content = encode_scsi_layout(&segments, device_id);
    if extents.len() == 0 {
        let b = encode_scsi_grant(&s, g.offset, g.length, 2, bytes_as_slice(&content));
        return OperationResult::LayoutGet(Nfs4Status::NfsOk, Some(b));
    }
    let (low, high) = span(extents);
    proof {
        scsi::a_write_layout_spans_its_extents(extents@, 0);
    }
    let b = encode_scsi_grant(&s, low, high - low, 2, bytes_as_slice(&content));
    OperationResult::LayoutGet(Nfs4Status::NfsOk, Some(b))
}

} // verus!
