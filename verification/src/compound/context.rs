//! What the operations of one COMPOUND hand on to each other.
use crate::authz::{Cred, CredView};
use crate::compound::types;
use crate::protocol::{Nfs4FileHandle, Nfs4Status, SessionId, StateId, StateIdView};
use crate::xdr;
use bytes::Bytes;
use vstd::prelude::*;

verus! {

/// The state of a COMPOUND between two of its operations.
#[derive(Debug)]
pub struct CompoundContext {
    pub current_fh: Option<Nfs4FileHandle>,
    pub saved_fh: Option<Nfs4FileHandle>,
    /// The current stateid that SAVEFH put aside along with the filehandle.
    pub saved_stateid: Option<StateId>,
    pub minor_version: u32,
    /// The session, which SEQUENCE sets.
    pub session_id: Option<SessionId>,
    /// The reply to give instead of running anything: SEQUENCE recognised a
    /// request that was answered before.
    pub replay_reply: Option<Bytes>,
    /// Where to keep the reply for a later replay.
    pub cache_slot: Option<(SessionId, u32)>,
    /// Whether the payload of a READ may go from the file to the socket without
    /// passing through the server. Only the plain TCP path sets it.
    pub can_splice: bool,
    /// Who the RPC layer says the caller is.
    pub principal: Vec<u8>,
    /// The caller's AUTH_SYS uid and gid.
    pub unix_cred: Option<(u32, u32)>,
    /// The caller's supplementary groups.
    pub unix_gids: Vec<u32>,
    /// What the last operation that changed state left as its stateid.
    pub current_stateid: Option<StateId>,
    /// The connection that the COMPOUND came in on.
    pub back_channel: Option<u64>,
}

pub struct ContextView {
    pub current_fh: Option<Seq<u8>>,
    pub saved_fh: Option<Seq<u8>>,
    pub saved_stateid: Option<StateIdView>,
    pub minor_version: u32,
    pub session_id: Option<Seq<u8>>,
    pub replay_reply: Option<Seq<u8>>,
    pub cache_slot: Option<(Seq<u8>, u32)>,
    pub can_splice: bool,
    pub principal: Seq<u8>,
    pub unix_cred: Option<(u32, u32)>,
    pub unix_gids: Seq<u32>,
    pub current_stateid: Option<StateIdView>,
    pub back_channel: Option<u64>,
}

pub open spec fn opt_fh_view(fh: Option<Nfs4FileHandle>) -> Option<Seq<u8>> {
    match fh {
        Some(fh) => Some(fh@),
        None => None,
    }
}

pub open spec fn opt_session_view(s: Option<SessionId>) -> Option<Seq<u8>> {
    match s {
        Some(s) => Some(s@),
        None => None,
    }
}

pub open spec fn opt_slot_view(s: Option<(SessionId, u32)>) -> Option<(Seq<u8>, u32)> {
    match s {
        Some((s, slot)) => Some((s@, slot)),
        None => None,
    }
}

impl View for CompoundContext {
    type V = ContextView;

    open spec fn view(&self) -> ContextView {
        ContextView {
            current_fh: opt_fh_view(self.current_fh),
            saved_fh: opt_fh_view(self.saved_fh),
            saved_stateid: types::opt_stateid_view(self.saved_stateid),
            minor_version: self.minor_version,
            session_id: opt_session_view(self.session_id),
            replay_reply: types::opt_bytes_view(self.replay_reply),
            cache_slot: opt_slot_view(self.cache_slot),
            can_splice: self.can_splice,
            principal: self.principal@,
            unix_cred: self.unix_cred,
            unix_gids: self.unix_gids@,
            current_stateid: types::opt_stateid_view(self.current_stateid),
            back_channel: self.back_channel,
        }
    }
}

/// The stateid by which an operation asks for the current one: sequence number
/// 1, all other octets zero (RFC 8881 section 16.2.3.1.2).
pub open spec fn current_stateid_sentinel() -> StateIdView {
    StateIdView { seqid: 1, other: xdr::zeros(12) }
}

/// Whether a stateid is the one that stands for the current stateid.
pub fn is_current_stateid_sentinel(s: &StateId) -> (b: bool)
    ensures
        b == (s@ == current_stateid_sentinel()),
{
    let sentinel = StateId { seqid: 1, other: [0u8; 12] };
    assert(sentinel@ =~= current_stateid_sentinel()) by {
        assert(sentinel.other@ =~= xdr::zeros(12));
    }
    assert(s.other@ == sentinel.other@ ==> s.other == sentinel.other);
    *s == sentinel
}

impl ContextView {
    /// A COMPOUND before its first operation.
    pub open spec fn fresh(minor_version: u32, principal: Seq<u8>) -> ContextView {
        ContextView {
            current_fh: None,
            saved_fh: None,
            saved_stateid: None,
            minor_version,
            session_id: None,
            replay_reply: None,
            cache_slot: None,
            can_splice: false,
            principal,
            unix_cred: None,
            unix_gids: Seq::empty(),
            current_stateid: None,
            back_channel: None,
        }
    }

    /// The stateid that an operation means by `stateid`.
    pub open spec fn resolved(self, stateid: StateIdView) -> Option<StateIdView> {
        if stateid == current_stateid_sentinel() {
            self.current_stateid
        } else {
            Some(stateid)
        }
    }

    /// The caller as a credential that permissions are checked against.
    pub open spec fn credential(self) -> Option<CredView> {
        match self.unix_cred {
            Some((uid, gid)) => Some(CredView { uid, gid, gids: self.unix_gids }),
            None => None,
        }
    }

    pub open spec fn saved(self) -> ContextView {
        ContextView { saved_fh: self.current_fh, ..self }
    }

    pub open spec fn restored(self) -> ContextView {
        ContextView { current_fh: self.saved_fh, ..self }
    }
}

impl CompoundContext {
    /// The caller's AUTH_SYS identity, or nothing where there is no uid to
    /// evaluate.
    pub fn cred(&self) -> (c: Option<Cred>)
        ensures
            match c {
                Some(c) => self@.credential() == Some(c@),
                None => self@.credential() is None,
            },
    {
        match self.unix_cred {
            Some((uid, gid)) => {
                let gids = self.unix_gids.clone();
                assert(gids@ =~= self.unix_gids@);
                Some(Cred { uid, gid, gids })
            },
            None => None,
        }
    }

    pub fn new(minor_version: u32) -> (c: CompoundContext)
        ensures
            c@ == ContextView::fresh(minor_version, Seq::empty()),
    {
        CompoundContext::with_principal(minor_version, Vec::new())
    }

    /// A context for a call of `principal`.
    pub fn with_principal(minor_version: u32, principal: Vec<u8>) -> (c: CompoundContext)
        ensures
            c@ == ContextView::fresh(minor_version, principal@),
    {
        CompoundContext {
            current_fh: None,
            saved_fh: None,
            saved_stateid: None,
            minor_version,
            session_id: None,
            replay_reply: None,
            cache_slot: None,
            can_splice: false,
            principal,
            unix_cred: None,
            unix_gids: Vec::new(),
            current_stateid: None,
            back_channel: None,
        }
    }

    /// The stateid that an operation means: the current one where it carries
    /// the stateid that stands for it, which is none before any operation left
    /// one.
    pub fn resolve_stateid(&self, stateid: StateId) -> (r: Option<StateId>)
        ensures
            types::opt_stateid_view(r) == self@.resolved(stateid@),
    {
        if is_current_stateid_sentinel(&stateid) {
            self.current_stateid
        } else {
            Some(stateid)
        }
    }

    pub fn has_current_fh(&self) -> (b: bool)
        ensures
            b == (self@.current_fh is Some),
    {
        self.current_fh.is_some()
    }

    /// The current filehandle.
    pub fn get_current_fh(&self) -> (r: Result<&Nfs4FileHandle, Nfs4Status>)
        ensures
            match self@.current_fh {
                Some(fh) => r is Ok && (r->Ok_0)@ == fh,
                None => r == Err::<&Nfs4FileHandle, Nfs4Status>(Nfs4Status::NoFileHandle),
            },
    {
        match &self.current_fh {
            Some(fh) => Ok(fh),
            None => Err(Nfs4Status::NoFileHandle),
        }
    }

    pub fn set_current_fh(&mut self, fh: Nfs4FileHandle)
        ensures
            final(self)@ == (ContextView { current_fh: Some(fh@), ..old(self)@ }),
    {
        self.current_fh = Some(fh);
    }

    pub fn clear_current_fh(&mut self)
        ensures
            final(self)@ == (ContextView { current_fh: None, ..old(self)@ }),
    {
        self.current_fh = None;
    }

    /// Put the current filehandle aside.
    pub fn save_fh(&mut self) -> (r: Result<(), Nfs4Status>)
        ensures
            match old(self)@.current_fh {
                Some(_) => r == Ok::<(), Nfs4Status>(()) && final(self)@ == old(self)@.saved(),
                None => r == Err::<(), Nfs4Status>(Nfs4Status::NoFileHandle) && final(self)@
                    == old(self)@,
            },
    {
        match &self.current_fh {
            Some(fh) => {
                let copy = fh.clone();
                self.saved_fh = Some(copy);
                Ok(())
            },
            None => Err(Nfs4Status::NoFileHandle),
        }
    }

    /// Make the filehandle that was put aside the current one.
    pub fn restore_fh(&mut self) -> (r: Result<(), Nfs4Status>)
        ensures
            match old(self)@.saved_fh {
                Some(_) => r == Ok::<(), Nfs4Status>(()) && final(self)@ == old(self)@.restored(),
                None => r == Err::<(), Nfs4Status>(Nfs4Status::RestoReFh) && final(self)@ == old(
                    self,
                )@,
            },
    {
        match &self.saved_fh {
            Some(fh) => {
                let copy = fh.clone();
                self.current_fh = Some(copy);
                Ok(())
            },
            None => Err(Nfs4Status::RestoReFh),
        }
    }
}

/// Law: what SAVEFH puts aside, RESTOREFH brings back, whatever the current
/// filehandle became in between.
pub proof fn restore_brings_back_what_was_saved(c: ContextView, moved: Option<Seq<u8>>)
    ensures
        (ContextView { current_fh: moved, ..c.saved() }).restored().current_fh == c.current_fh,
        (ContextView { current_fh: moved, ..c.saved() }).restored() == c.saved(),
{
}

/// Law: the stateid of the sequence number 1 and twelve zeros means the current stateid,
/// which there may be none of; every other stateid means itself.
pub proof fn one_stateid_stands_for_the_current_one(c: ContextView, stateid: StateIdView)
    requires
        stateid.other.len() == 12,
    ensures
        stateid.seqid == 1 && (forall|i: int| 0 <= i < 12 ==> stateid.other[i] == 0) ==> c.resolved(
            stateid,
        ) == c.current_stateid,
        stateid.seqid != 1 || (exists|i: int| 0 <= i < 12 && stateid.other[i] != 0) ==> c.resolved(
            stateid,
        ) == Some(stateid),
{
    if stateid.seqid == 1 && (forall|i: int| 0 <= i < 12 ==> stateid.other[i] == 0) {
        assert(stateid.other =~= xdr::zeros(12));
    }
}

/// Law: the caller is who the RPC layer says: the uid, the gid and the groups of the
/// call. Without a uid there is nobody to check.
pub proof fn the_caller_is_who_the_call_says(c: ContextView)
    ensures
        c.unix_cred is None <==> c.credential() is None,
        c.credential() matches Some(who) ==> c.unix_cred == Some((who.uid, who.gid)) && who.gids
            == c.unix_gids,
{
}

/// Law: SAVEFH and RESTOREFH move filehandles and nothing else.
pub proof fn saving_and_restoring_move_filehandles_alone(c: ContextView)
    ensures
        c.saved() == (ContextView { saved_fh: c.current_fh, ..c }),
        c.restored() == (ContextView { current_fh: c.saved_fh, ..c }),
{
}

/// Law: a COMPOUND begins with nothing: no filehandle, no stateid, no session, and no
/// caller but the principal.
pub proof fn a_compound_begins_with_nothing(minor_version: u32, principal: Seq<u8>)
    ensures
        ({
            let c = ContextView::fresh(minor_version, principal);
            &&& c.minor_version == minor_version
            &&& c.principal == principal
            &&& c.current_fh is None && c.saved_fh is None
            &&& c.current_stateid is None && c.saved_stateid is None
            &&& c.session_id is None && c.replay_reply is None && c.cache_slot is None
            &&& c.credential() is None && c.back_channel is None && !c.can_splice
        }),
{
}

/// Law: a stateid that is not the sentinel means itself, whatever the COMPOUND
/// has produced.
pub proof fn only_the_sentinel_is_replaced(c: ContextView, stateid: StateIdView)
    requires
        stateid != current_stateid_sentinel(),
    ensures
        c.resolved(stateid) == Some(stateid),
{
}

/// Law: SAVEFH puts the current filehandle aside and needs one; RESTOREFH brings back the
/// one that was put aside and needs one. What is refused changes nothing.
pub proof fn filehandles_are_put_aside_and_brought_back(
    saving: &mut CompoundContext,
    saved: Result<(), Nfs4Status>,
    restoring: &mut CompoundContext,
    restored: Result<(), Nfs4Status>,
)
    requires
        call_ensures(CompoundContext::save_fh, (saving,), saved),
        call_ensures(CompoundContext::restore_fh, (restoring,), restored),
    ensures
        saved is Ok <==> old(saving)@.current_fh is Some,
        saved is Ok ==> final(saving)@.saved_fh == old(saving)@.current_fh
            && final(saving)@.current_fh == old(saving)@.current_fh,
        saved matches Err(e) ==> e == Nfs4Status::NoFileHandle && final(saving)@ == old(saving)@,
        restored is Ok <==> old(restoring)@.saved_fh is Some,
        restored is Ok ==> final(restoring)@.current_fh == old(restoring)@.saved_fh
            && final(restoring)@.saved_fh == old(restoring)@.saved_fh,
        restored matches Err(e) ==> e == Nfs4Status::RestoReFh && final(restoring)@ == old(
            restoring,
        )@,
{
}

/// Law: the filehandle that was set is the current one, and setting it changes nothing
/// else.
pub proof fn the_filehandle_that_was_set_is_current(
    c: &mut CompoundContext,
    fh: Nfs4FileHandle,
    d: &CompoundContext,
    r: Result<&Nfs4FileHandle, Nfs4Status>,
)
    requires
        call_ensures(CompoundContext::set_current_fh, (c, fh), ()),
        call_ensures(CompoundContext::get_current_fh, (d,), r),
        d@ == final(c)@,
    ensures
        r is Ok && (r->Ok_0)@ == fh@,
        final(c)@.saved_fh == old(c)@.saved_fh,
        final(c)@.current_stateid == old(c)@.current_stateid,
        final(c)@.session_id == old(c)@.session_id,
{
}

/// Law: permissions are checked against the uid, the gid and the groups of the call.
pub proof fn permissions_are_checked_against_the_caller(c: &CompoundContext, who: Option<Cred>)
    requires
        call_ensures(CompoundContext::cred, (c,), who),
    ensures
        c.unix_cred is None <==> who is None,
        who matches Some(w) ==> c.unix_cred == Some((w.uid, w.gid)) && w@.gids == c.unix_gids@,
{
    the_caller_is_who_the_call_says(c@);
}

} // verus!
