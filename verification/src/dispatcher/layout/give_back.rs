//! LAYOUTRETURN.
use crate::compound::types::LayoutReturn4Body;
use crate::dispatcher::layout::codec;
use crate::dispatcher::layout::codec::{io_mode, stateid_octets, IoMode, LayoutType};
use crate::dispatcher::layout::get;
use crate::octets;
use crate::octets::bytes_as_slice;
use crate::protocol::Nfs4Status;
use crate::text;
use crate::text::first_component;
use crate::xdr;
use crate::xdr::octets_to_vec;
use vstd::prelude::*;

verus! {

/// Which layouts are returned.
#[derive(Debug)]
pub enum LayoutReturnType {
    File { offset: u64, length: u64, stateid: [u8; 16], layout_body: Vec<u8> },
    Fsid,
    All,
}

/// What the metadata server is told.
#[derive(Debug)]
pub struct LayoutReturnArgs {
    pub reclaim: bool,
    pub layout_type: LayoutType,
    pub iomode: IoMode,
    pub return_type: LayoutReturnType,
    pub client_id: u64,
    pub fsid: u64,
}

/// What to do about a LAYOUTRETURN.
#[derive(Debug)]
pub enum LayoutReturnStep {
    Done(Nfs4Status),
    /// Take back the SCSI layout of this stateid: see [`rows_to_drop`].
    Scsi { stateid: [u8; 16], offset: u64, length: u64 },
    /// Tell the metadata server.
    Files(LayoutReturnArgs),
}

/// The layout types that are taken back. There is one more than are granted: a
/// layout that was once granted under it can still be returned.
pub open spec fn returned_type(layout_type: u32) -> Option<LayoutType> {
    if layout_type == 1 {
        Some(LayoutType::NfsV4_1Files)
    } else if layout_type == 4 {
        Some(LayoutType::FlexFiles)
    } else if layout_type == 5 {
        Some(LayoutType::Scsi)
    } else {
        None
    }
}

/// What a LAYOUTRETURN is answered without asking anybody, in the order in which
/// it is looked for. A bulk return of SCSI layouts is taken as it is.
pub open spec fn return_verdict(
    pnfs: bool,
    session: bool,
    layout_type: u32,
    iomode: u32,
    body: LayoutReturn4Body,
) -> Option<Nfs4Status> {
    if !pnfs {
        Some(Nfs4Status::NotSupp)
    } else if !session {
        Some(Nfs4Status::OpNotInSession)
    } else if returned_type(layout_type) is None {
        Some(Nfs4Status::UnknownLayoutType)
    } else if layout_type == 5 {
        if body is File {
            None
        } else {
            Some(Nfs4Status::NfsOk)
        }
    } else if codec::io_mode_of(iomode) is None {
        Some(Nfs4Status::BadIoMode)
    } else {
        None
    }
}

/// What the metadata server is told of a return.
pub open spec fn same_return(body: LayoutReturn4Body, t: LayoutReturnType) -> bool {
    match body {
        LayoutReturn4Body::File { offset, length, stateid, body } => {
            &&& t is File
            &&& t->offset == offset
            &&& t->length == length
            &&& t->stateid@ == xdr::wire_stateid(stateid@)
            &&& t->layout_body@ == octets::bytes_of(body)
        },
        LayoutReturn4Body::Fsid => t is Fsid,
        LayoutReturn4Body::All => t is All,
    }
}

/// Decide a LAYOUTRETURN. `client_id` is the client of the session, where there
/// is one.
pub fn begin_layoutreturn(
    reclaim: bool,
    layout_type: u32,
    iomode: u32,
    body: LayoutReturn4Body,
    pnfs: bool,
    client_id: Option<u64>,
) -> (step: LayoutReturnStep)
    ensures
        ({
            let verdict = return_verdict(pnfs, client_id is Some, layout_type, iomode, body);
            match step {
                LayoutReturnStep::Done(status) => verdict == Some(status),
                LayoutReturnStep::Scsi { stateid, offset, length } => {
                    &&& verdict is None
                    &&& layout_type == 5
                    &&& body is File
                    &&& stateid@ == xdr::wire_stateid(body->stateid@)
                    &&& offset == body->offset
                    &&& length == body->length
                },
                LayoutReturnStep::Files(a) => {
                    &&& verdict is None
                    &&& layout_type != 5
                    &&& a.reclaim == reclaim
                    &&& returned_type(layout_type) == Some(a.layout_type)
                    &&& codec::io_mode_of(iomode) == Some(a.iomode)
                    &&& same_return(body, a.return_type)
                    &&& Some(a.client_id) == client_id
                    &&& a.fsid == get::LAYOUT_FSID
                },
            }
        }),
{
    if !pnfs {
        return LayoutReturnStep::Done(Nfs4Status::NotSupp);
    }
    let client_id: u64 = match client_id {
        Some(c) => c,
        None => {
            return LayoutReturnStep::Done(Nfs4Status::OpNotInSession);
        },
    };
    let lt = match layout_type {
        1 => LayoutType::NfsV4_1Files,
        4 => LayoutType::FlexFiles,
        5 => {
            return match body {
                LayoutReturn4Body::File { offset, length, stateid, body: _ } => {
                    let stateid = stateid_octets(&stateid);
                    LayoutReturnStep::Scsi { stateid, offset, length }
                },
                LayoutReturn4Body::Fsid => LayoutReturnStep::Done(Nfs4Status::NfsOk),
                LayoutReturn4Body::All => LayoutReturnStep::Done(Nfs4Status::NfsOk),
            };
        },
        _ => {
            return LayoutReturnStep::Done(Nfs4Status::UnknownLayoutType);
        },
    };
    let im = match io_mode(iomode) {
        Some(m) => m,
        None => {
            return LayoutReturnStep::Done(Nfs4Status::BadIoMode);
        },
    };
    let return_type = match body {
        LayoutReturn4Body::File { offset, length, stateid, body } => {
            let stateid = stateid_octets(&stateid);
            let layout_body = octets_to_vec(bytes_as_slice(&body));
            LayoutReturnType::File { offset, length, stateid, layout_body }
        },
        LayoutReturn4Body::Fsid => LayoutReturnType::Fsid,
        LayoutReturn4Body::All => LayoutReturnType::All,
    };
    LayoutReturnStep::Files(
        LayoutReturnArgs {
            reclaim,
            layout_type: lt,
            iomode: im,
            return_type,
            client_id,
            fsid: get::LAYOUT_FSID,
        },
    )
}

/// Why the metadata server does not take a return.
#[derive(Debug, Clone, Copy, PartialEq, Eq, Structural)]
pub enum LayoutReturnError {
    BadStateId,
    UnknownLayoutType,
    Inval,
}

/// The status of a return. Clients take these as benign, and go on to close the
/// file.
pub open spec fn return_status(outcome: Result<(), LayoutReturnError>) -> Nfs4Status {
    match outcome {
        Ok(_) => Nfs4Status::NfsOk,
        Err(LayoutReturnError::BadStateId) => Nfs4Status::BadStateId,
        Err(LayoutReturnError::UnknownLayoutType) => Nfs4Status::UnknownLayoutType,
        Err(LayoutReturnError::Inval) => Nfs4Status::Inval,
    }
}

pub fn complete_layoutreturn(outcome: Result<(), LayoutReturnError>) -> (s: Nfs4Status)
    ensures
        s == return_status(outcome),
{
    match outcome {
        Ok(_) => Nfs4Status::NfsOk,
        Err(LayoutReturnError::BadStateId) => Nfs4Status::BadStateId,
        Err(LayoutReturnError::UnknownLayoutType) => Nfs4Status::UnknownLayoutType,
        Err(LayoutReturnError::Inval) => Nfs4Status::Inval,
    }
}

/// A SCSI layout that was taken back, and where its grants are kept.
#[derive(Debug)]
pub struct TakenLayout {
    pub client_id: u64,
    /// The path of the file below the export.
    pub file_key: String,
    /// The inode of the file, 0 where it is gone.
    pub file_id: u64,
}

/// The grants to drop from the allocator.
#[derive(Debug)]
pub struct GrantRange {
    pub volume: String,
    pub file_id: u64,
    pub client_id: u64,
    pub offset: u64,
    pub length: u64,
}

/// A length cut down so that the range ends at the largest signed offset.
pub open spec fn within_range(offset: u64, length: u64) -> u64 {
    let room = if offset <= i64::MAX {
        (i64::MAX - offset) as u64
    } else {
        0
    };
    if length < room {
        length
    } else {
        room
    }
}

/// Cut a length down to what the allocator can address.
pub fn clamp_length(offset: u64, length: u64) -> (n: u64)
    ensures
        n == within_range(offset, length),
{
    let room: u64 = (i64::MAX as u64).saturating_sub(offset);
    if length < room {
        length
    } else {
        room
    }
}

/// The grants that go with a SCSI layout that was returned. There are none to
/// drop where the layout is not known any more, where there is no allocator, or
/// where the file is gone; the return succeeds all the same.
pub fn rows_to_drop(
    taken: Option<TakenLayout>,
    backend: bool,
    offset: u64,
    length: u64,
) -> (r: Option<GrantRange>)
    ensures
        match taken {
            Some(t) => if backend && text::first_part(t.file_key@, '/').len() > 0 && t.file_id
                != 0 {
                &&& r is Some
                &&& r->0.volume@ == text::first_part(t.file_key@, '/')
                &&& r->0.file_id == t.file_id
                &&& r->0.client_id == t.client_id
                &&& r->0.offset == offset
                &&& r->0.length == within_range(offset, length)
            } else {
                r is None
            },
            None => r is None,
        },
{
    match taken {
        Some(t) => {
            let volume = first_component(t.file_key.as_str(), '/');
            if !backend || volume.unicode_len() == 0 || t.file_id == 0 {
                return None;
            }
            Some(
                GrantRange {
                    volume: volume.to_owned(),
                    file_id: t.file_id,
                    client_id: t.client_id,
                    offset,
                    length: clamp_length(offset, length),
                },
            )
        },
        None => None,
    }
}

/// Law: every type of layout that is granted is taken back.
pub proof fn what_is_granted_can_be_returned(layout_type: u32)
    requires
        codec::served(layout_type) is Ok,
    ensures
        returned_type(layout_type) == Some(codec::served(layout_type)->Ok_0),
{
}

} // verus!
