//! The data types of the NFSv4 protocol (RFC 8881, RFC 7862) that the rest of
//! the crate is written in terms of.
pub mod opcode;
pub mod status;

use crate::octets::same_octets;
use vstd::prelude::*;

pub use crate::protocol::status::Nfs4Status;

verus! {

pub const NFS_V4_MINOR_VERSION_1: u32 = 1;

pub const NFS_V4_MINOR_VERSION_2: u32 = 2;

/// `stateid4`: a sequence number and twelve opaque octets.
#[derive(Debug, Clone, Copy)]
pub struct StateId {
    pub seqid: u32,
    pub other: [u8; 12],
}

/// What a [`StateId`] says.
pub struct StateIdView {
    pub seqid: u32,
    pub other: Seq<u8>,
}

impl View for StateId {
    type V = StateIdView;

    open spec fn view(&self) -> StateIdView {
        StateIdView { seqid: self.seqid, other: self.other@ }
    }
}

impl StateId {
    pub fn new(seqid: u32, other: [u8; 12]) -> (s: StateId)
        ensures
            s == (StateId { seqid, other }),
    {
        StateId { seqid, other }
    }
}

impl PartialEq for StateId {
    fn eq(&self, other: &Self) -> (r: bool) {
        let same = self.seqid == other.seqid && same_octets(&self.other, &other.other);
        assert(self.other@ == other.other@ ==> self.other == other.other);
        same
    }
}

impl vstd::std_specs::cmp::PartialEqSpecImpl for StateId {
    open spec fn obeys_eq_spec() -> bool {
        true
    }

    open spec fn eq_spec(&self, other: &Self) -> bool {
        *self == *other
    }
}

impl Eq for StateId {
}

/// `sessionid4`.
#[derive(Debug, Clone, Copy)]
pub struct SessionId(pub [u8; 16]);

impl View for SessionId {
    type V = Seq<u8>;

    open spec fn view(&self) -> Seq<u8> {
        self.0@
    }
}

impl PartialEq for SessionId {
    fn eq(&self, other: &Self) -> (r: bool) {
        let same = same_octets(&self.0, &other.0);
        assert(self.0@ == other.0@ ==> self.0 == other.0);
        same
    }
}

impl vstd::std_specs::cmp::PartialEqSpecImpl for SessionId {
    open spec fn obeys_eq_spec() -> bool {
        true
    }

    open spec fn eq_spec(&self, other: &Self) -> bool {
        *self == *other
    }
}

impl Eq for SessionId {
}

/// `nfs_fh4`: an opaque filehandle.
#[derive(Debug)]
pub struct Nfs4FileHandle {
    pub data: Vec<u8>,
}

impl View for Nfs4FileHandle {
    type V = Seq<u8>;

    open spec fn view(&self) -> Seq<u8> {
        self.data@
    }
}

impl Clone for Nfs4FileHandle {
    fn clone(&self) -> (r: Self)
        ensures
            r@ == self@,
    {
        let data = self.data.clone();
        assert(data@ =~= self.data@);
        Nfs4FileHandle { data }
    }
}

/// `client_owner4`.
#[derive(Debug, Clone)]
pub struct ClientId {
    pub verifier: u64,
    pub id: Vec<u8>,
}

/// `nfs_ftype4`.
#[derive(Debug, Clone, Copy, PartialEq, Eq, Structural)]
pub enum Nfs4FileType {
    Regular,
    Directory,
    BlockDevice,
    CharDevice,
    Symlink,
    Socket,
    Fifo,
    AttrDir,
    NamedAttr,
}

/// `fattr4`: the attribute bitmap and the encoded values it selects.
#[derive(Debug, Clone)]
pub struct Fattr4 {
    pub attrmask: Vec<u32>,
    pub attr_vals: Vec<u8>,
}

} // verus!
