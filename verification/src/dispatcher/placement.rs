//! Where the data of a file is: what the server asks before it acts on a file
//! that may be striped over data servers.
//!
//! A file has a key in the placement table: its path below the export. A file
//! without one is an ordinary file, and whatever is not known to be otherwise is
//! treated as one.
use crate::dispatcher::layout::codec::LayoutClass;
use crate::dispatcher::route::FallbackIoDisposition;
use crate::protocol::Nfs4Status;
use vstd::prelude::*;

verus! {

/// The key of a file, where it has one: there is a metadata server, the
/// filehandle resolves, and the path is not that of the export itself.
pub open spec fn placed(pnfs: bool, path: Option<String>) -> bool {
    pnfs && path is Some && path->0@.len() > 0
}

/// The key of a file in the placement table. `path` is its path below the export,
/// where the filehandle resolves.
pub fn pnfs_file_key(pnfs: bool, path: Option<String>) -> (key: Option<String>)
    ensures
        key == (if placed(pnfs, path) {
            path
        } else {
            None
        }),
{
    if !pnfs {
        return None;
    }
    match path {
        Some(path) => if path.as_str().unicode_len() == 0 {
            None
        } else {
            Some(path)
        },
        None => None,
    }
}

/// Whether the current file is on a block volume. `class` is what the metadata
/// server says of its key, where it has one.
pub fn scsi_class_cfh(class: Option<LayoutClass>) -> (b: bool)
    ensures
        b == (class == Some(LayoutClass::Scsi)),
{
    match class {
        Some(LayoutClass::Scsi) => true,
        _ => false,
    }
}

/// What an operation on the space of the current file is refused with. `managed`
/// says whether the metadata server has striped the file, where it has a key: the
/// file here then holds none of its data.
pub fn refuse_if_striped(managed: Option<bool>) -> (r: Option<Nfs4Status>)
    ensures
        r == (if managed == Some(true) {
            Some(Nfs4Status::NotSupp)
        } else {
            None
        }),
{
    match managed {
        Some(true) => Some(Nfs4Status::NotSupp),
        _ => None,
    }
}

/// What becomes of I/O on the current file, and whether it is known to the
/// metadata server. `asked` is what that server says of the key of the file,
/// where it has one.
pub fn stub_io_disposition(asked: Option<FallbackIoDisposition>) -> (r: (
    FallbackIoDisposition,
    bool,
))
    ensures
        r == (match asked {
            Some(d) => (d, true),
            None => (FallbackIoDisposition::Serve, false),
        }),
{
    match asked {
        Some(d) => (d, true),
        None => (FallbackIoDisposition::Serve, false),
    }
}

/// Law: a file is known to the metadata server by its path below the export. The export
/// itself has no key, nor has a file that does not resolve, and without a metadata server
/// nothing has one.
pub proof fn a_file_is_placed_by_its_path(
    pnfs: bool,
    path: Option<String>,
    key: Option<String>,
)
    requires
        call_ensures(pnfs_file_key, (pnfs, path), key),
    ensures
        key is Some ==> key == path && pnfs && key->0@.len() > 0,
        pnfs && path is Some && path->0@.len() > 0 ==> key == path,
{
}

/// Law: only a file that is known to be on a block volume is treated as one, and only one
/// that is known to be striped is kept from operations on its space. I/O on a file that
/// has no key is served here.
pub proof fn what_is_not_known_is_an_ordinary_file(
    class: Option<LayoutClass>,
    block: bool,
    managed: Option<bool>,
    refusal: Option<Nfs4Status>,
    asked: Option<FallbackIoDisposition>,
    io: (FallbackIoDisposition, bool),
)
    requires
        call_ensures(scsi_class_cfh, (class,), block),
        call_ensures(refuse_if_striped, (managed,), refusal),
        call_ensures(stub_io_disposition, (asked,), io),
    ensures
        block <==> class == Some(LayoutClass::Scsi),
        managed == Some(true) ==> refusal == Some(Nfs4Status::NotSupp),
        managed != Some(true) ==> refusal is None,
        asked is None ==> io.0 is Serve && !io.1,
        asked matches Some(d) ==> io.0 == d && io.1,
{
}

} // verus!
