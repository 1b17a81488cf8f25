//! LAYOUTCOMMIT: a client that wrote past the metadata server reports how far.
use crate::compound::results::OperationResult;
use crate::dispatcher::layout::get::ExtentAllocError;
use crate::dispatcher::layout::give_back;
use crate::dispatcher::layout::give_back::{clamp_length, GrantRange};
use crate::protocol::Nfs4Status;
use crate::text;
use crate::text::first_component;
use vstd::prelude::*;

verus! {

/// What the server knows when a LAYOUTCOMMIT comes in.
#[derive(Debug)]
pub struct CommitFacts {
    /// Whether there is a current filehandle.
    pub has_fh: bool,
    /// Whether it resolves.
    pub resolved: bool,
    /// The path of the file below the export, where the file is on a block
    /// volume.
    pub scsi_key: Option<String>,
    /// Whether the metadata server has an allocator.
    pub backend: bool,
    /// The client of the session, 0 where it is not known.
    pub client_id: u64,
    /// The inode of the file, where it can be looked up.
    pub file_id: Option<u64>,
}

/// What stands against a LAYOUTCOMMIT, in the order in which it is looked for.
pub open spec fn commit_refusal(layout_type: u32, f: CommitFacts) -> Option<Nfs4Status> {
    if !f.has_fh {
        Some(Nfs4Status::NoFileHandle)
    } else if !f.resolved {
        Some(Nfs4Status::Stale)
    } else {
        match f.scsi_key {
            Some(key) => if layout_type != 5 {
                Some(Nfs4Status::UnknownLayoutType)
            } else if !f.backend {
                Some(Nfs4Status::ServerFault)
            } else if f.client_id == 0 {
                Some(Nfs4Status::OpNotInSession)
            } else if text::first_part(key@, '/').len() == 0 {
                Some(Nfs4Status::BadLayout)
            } else if f.file_id is None {
                Some(Nfs4Status::Stale)
            } else {
                None
            },
            None => None,
        }
    }
}

/// Decide a LAYOUTCOMMIT. On a block volume the allocator has to take the range
/// before the size of the file moves: the range to give it comes back. On any
/// other volume there is none.
pub fn begin_layoutcommit(offset: u64, length: u64, layout_type: u32, f: CommitFacts) -> (r: Result<
    Option<GrantRange>,
    Nfs4Status,
>)
    ensures
        match r {
            Err(status) => commit_refusal(layout_type, f) == Some(status),
            Ok(None) => commit_refusal(layout_type, f) is None && f.scsi_key is None,
            Ok(Some(g)) => {
                &&& commit_refusal(layout_type, f) is None
                &&& f.scsi_key is Some
                &&& g.volume@ == text::first_part(f.scsi_key->0@, '/')
                &&& Some(g.file_id) == f.file_id
                &&& g.client_id == f.client_id
                &&& g.offset == offset
                &&& g.length == give_back::within_range(offset, length)
            },
        },
{
    if !f.has_fh {
        return Err(Nfs4Status::NoFileHandle);
    }
    if !f.resolved {
        return Err(Nfs4Status::Stale);
    }
    let key = match &f.scsi_key {
        Some(key) => key,
        None => {
            return Ok(None);
        },
    };
    if layout_type != 5 {
        return Err(Nfs4Status::UnknownLayoutType);
    }
    if !f.backend {
        return Err(Nfs4Status::ServerFault);
    }
    if f.client_id == 0 {
        return Err(Nfs4Status::OpNotInSession);
    }
    let volume = first_component(key.as_str(), '/');
    if volume.unicode_len() == 0 {
        return Err(Nfs4Status::BadLayout);
    }
    match f.file_id {
        Some(file_id) => Ok(
            Some(
                GrantRange {
                    volume: volume.to_owned(),
                    file_id,
                    client_id: f.client_id,
                    offset,
                    length: clamp_length(offset, length),
                },
            ),
        ),
        None => Err(Nfs4Status::Stale),
    }
}

/// What the allocator said to a range.
#[derive(Debug, Clone, Copy, PartialEq, Eq, Structural)]
pub enum CommitOutcome {
    Promoted,
    /// The commit is stale, or comes from a client that was fenced off.
    Refused(ExtentAllocError),
    BackendFailed,
}

/// What stands against moving the size of the file once the allocator spoke.
pub open spec fn commit_verdict_for(outcome: CommitOutcome) -> Option<Nfs4Status> {
    match outcome {
        CommitOutcome::Promoted => None,
        CommitOutcome::Refused(_) => Some(Nfs4Status::BadLayout),
        CommitOutcome::BackendFailed => Some(Nfs4Status::ServerFault),
    }
}

pub fn commit_verdict(outcome: CommitOutcome) -> (r: Option<Nfs4Status>)
    ensures
        r == commit_verdict_for(outcome),
{
    match outcome {
        CommitOutcome::Promoted => None,
        CommitOutcome::Refused(_) => Some(Nfs4Status::BadLayout),
        CommitOutcome::BackendFailed => Some(Nfs4Status::ServerFault),
    }
}

/// The size that a commit gives a file, if it changes it. The last octet written
/// is reported, so the file ends one behind it; where a truncation is still under
/// way, it ends no later than that truncation says; and a commit never shortens
/// a file.
pub open spec fn committed_size(last_write: Option<u64>, ceiling: Option<u64>, size: u64) -> Option<
    u64,
> {
    match last_write {
        None => None,
        Some(last) => {
            let end = if last == u64::MAX {
                u64::MAX
            } else {
                (last + 1) as u64
            };
            let capped = match ceiling {
                Some(c) => if end > c {
                    c
                } else {
                    end
                },
                None => end,
            };
            if capped > size {
                Some(capped)
            } else {
                None
            }
        },
    }
}

/// The size to give a file of `size` octets, if a commit changes it.
pub fn commit_size(last_write: Option<u64>, ceiling: Option<u64>, size: u64) -> (r: Option<u64>)
    ensures
        r == committed_size(last_write, ceiling, size),
{
    match last_write {
        None => None,
        Some(last) => {
            let end: u64 = last.saturating_add(1);
            let capped: u64 = match ceiling {
                Some(c) => if end > c {
                    c
                } else {
                    end
                },
                None => end,
            };
            if capped > size {
                Some(capped)
            } else {
                None
            }
        },
    }
}

/// The modification time to set, with moments before the epoch taken for it.
pub fn commit_time(time: Option<(i64, u32)>) -> (r: Option<(u64, u32)>)
    ensures
        match time {
            Some((secs, nanos)) => r == Some(
                (
                    if secs > 0 {
                        secs as u64
                    } else {
                        0u64
                    },
                    nanos,
                ),
            ),
            None => r is None,
        },
{
    match time {
        Some((secs, nanos)) => {
            let s: u64 = if secs > 0 {
                secs as u64
            } else {
                0
            };
            Some((s, nanos))
        },
        None => None,
    }
}

/// What became of applying a commit to the file.
#[derive(Debug, Clone, Copy, PartialEq, Eq, Structural)]
pub enum Applied {
    /// The size that the file was given, if it changed.
    Size(Option<u64>),
    /// The file could not be opened or extended.
    Failed,
    /// The worker that was to do it did not come back.
    Lost,
}

pub open spec fn commit_result(applied: Applied) -> OperationResult {
    match applied {
        Applied::Size(size) => OperationResult::LayoutCommit(Nfs4Status::NfsOk, size),
        Applied::Failed => OperationResult::LayoutCommit(Nfs4Status::Io, None),
        Applied::Lost => OperationResult::LayoutCommit(Nfs4Status::ServerFault, None),
    }
}

/// The result of a commit.
pub fn complete_layoutcommit(applied: Applied) -> (r: OperationResult)
    ensures
        r == commit_result(applied),
{
    match applied {
        Applied::Size(size) => OperationResult::LayoutCommit(Nfs4Status::NfsOk, size),
        Applied::Failed => OperationResult::LayoutCommit(Nfs4Status::Io, None),
        Applied::Lost => OperationResult::LayoutCommit(Nfs4Status::ServerFault, None),
    }
}

/// Law: a commit only ever lengthens a file, never past what the client wrote,
/// and never past a truncation that is still under way.
pub proof fn a_commit_only_grows_the_file(last_write: Option<u64>, ceiling: Option<u64>, size: u64)
    ensures
        committed_size(last_write, ceiling, size) matches Some(s) ==> {
            &&& s > size
            &&& s <= last_write->0 + 1
            &&& ceiling matches Some(c) ==> s <= c
        },
        last_write is None ==> committed_size(last_write, ceiling, size) is None,
{
}

/// Law: once a commit was applied, the same commit changes nothing more.
pub proof fn a_repeated_commit_changes_nothing(
    last_write: Option<u64>,
    ceiling: Option<u64>,
    size: u64,
)
    requires
        committed_size(last_write, ceiling, size) is Some,
    ensures
        committed_size(last_write, ceiling, committed_size(last_write, ceiling, size)->0) is None,
{
}

} // verus!
