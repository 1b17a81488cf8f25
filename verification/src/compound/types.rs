//! The structured arguments and results of the operations.
use vstd::prelude::*;

use bytes::Bytes;

use crate::octets;
use crate::protocol::{ClientId, Fattr4, StateId, StateIdView};

verus! {

/// One entry of `csa_sec_parms<>` (RFC 8881 section 18.36.1): a credential that
/// the client is willing to accept on callback calls.
#[derive(Debug, PartialEq, Eq)]
pub enum CallbackSecParms {
    /// AUTH_NONE: no credential body.
    AuthNone,
    /// AUTH_SYS. The server has to echo these values, so all of them are kept.
    Sys { stamp: u32, machinename: String, uid: u32, gid: u32, gids: Vec<u32> },
    /// RPCSEC_GSS: recognised, and never emitted.
    Gss,
}

/// What a [`CallbackSecParms`] says.
pub enum SecParmsView {
    AuthNone,
    Sys { stamp: u32, machinename: Seq<char>, uid: u32, gid: u32, gids: Seq<u32> },
    Gss,
}

impl View for CallbackSecParms {
    type V = SecParmsView;

    open spec fn view(&self) -> SecParmsView {
        match *self {
            CallbackSecParms::AuthNone => SecParmsView::AuthNone,
            CallbackSecParms::Sys { stamp, machinename, uid, gid, gids } => SecParmsView::Sys {
                stamp,
                machinename: machinename@,
                uid,
                gid,
                gids: gids@,
            },
            CallbackSecParms::Gss => SecParmsView::Gss,
        }
    }
}

impl Clone for CallbackSecParms {
    fn clone(&self) -> (r: Self)
        ensures
            r@ == self@,
    {
        match self {
            CallbackSecParms::AuthNone => CallbackSecParms::AuthNone,
            CallbackSecParms::Sys { stamp, machinename, uid, gid, gids } => {
                let copied = gids.clone();
                assert(copied@ =~= gids@);
                CallbackSecParms::Sys {
                    stamp: *stamp,
                    machinename: machinename.clone(),
                    uid: *uid,
                    gid: *gid,
                    gids: copied,
                }
            },
            CallbackSecParms::Gss => CallbackSecParms::Gss,
        }
    }
}

/// The first AUTH_SYS entry.
pub open spec fn first_sys(offered: Seq<SecParmsView>) -> Option<SecParmsView>
    decreases offered.len(),
{
    if offered.len() == 0 {
        None
    } else if offered[0] is Sys {
        Some(offered[0])
    } else {
        first_sys(offered.skip(1))
    }
}

/// The credential that callbacks go out under, of those that a client offers:
/// the first AUTH_SYS one, else AUTH_NONE if it is among them. A client that
/// offers RPCSEC_GSS alone gets none: it could never be called back.
pub open spec fn picked(offered: Seq<SecParmsView>) -> Option<SecParmsView> {
    if first_sys(offered) is Some {
        first_sys(offered)
    } else if offered.contains(SecParmsView::AuthNone) {
        Some(SecParmsView::AuthNone)
    } else {
        None
    }
}

pub open spec fn sec_parms_views(offered: Seq<CallbackSecParms>) -> Seq<SecParmsView> {
    offered.map_values(|p: CallbackSecParms| p@)
}

/// Choose the credential for callbacks.
pub fn pick_cb_cred(offered: &[CallbackSecParms]) -> (r: Option<CallbackSecParms>)
    ensures
        match r {
            Some(p) => picked(sec_parms_views(offered@)) == Some(p@),
            None => picked(sec_parms_views(offered@)) is None,
        },
{
    let ghost all = sec_parms_views(offered@);
    let mut none_seen = false;
    let mut i: usize = 0;
    assert(all.skip(0) =~= all);
    while i < offered.len()
        invariant
            i <= offered@.len(),
            all == sec_parms_views(offered@),
            first_sys(all) == first_sys(all.skip(i as int)),
            none_seen <==> exists|k: int| 0 <= k < i && #[trigger] all[k] == SecParmsView::AuthNone,
        decreases offered@.len() - i,
    {
        assert(all.skip(i as int)[0] == offered@[i as int]@);
        assert(all.skip(i as int).skip(1) =~= all.skip(i + 1));
        assert(all[i as int] == offered@[i as int]@);
        match &offered[i] {
            CallbackSecParms::Sys { .. } => {
                return Some(offered[i].clone());
            },
            CallbackSecParms::AuthNone => {
                none_seen = true;
            },
            CallbackSecParms::Gss => {},
        }
        i += 1;
    }
    if none_seen {
        Some(CallbackSecParms::AuthNone)
    } else {
        None
    }
}

/// Law: AUTH_SYS wins wherever it stands in the offer, AUTH_NONE is taken only
/// where no AUTH_SYS is offered, and RPCSEC_GSS is never taken.
pub proof fn the_callback_credential_prefers_sys_then_none_and_is_never_gss(
    offered: Seq<SecParmsView>,
)
    ensures
        picked(offered) != Some(SecParmsView::Gss),
        picked(offered) is Some ==> offered.contains(picked(offered)->0),
        (exists|i: int| 0 <= i < offered.len() && (#[trigger] offered[i]) is Sys) ==> picked(
            offered,
        ) is Some && picked(offered)->0 is Sys,
        picked(offered) is None <==> forall|i: int|
            0 <= i < offered.len() ==> (#[trigger] offered[i]) is Gss,
    decreases offered.len(),
{
    if offered.len() > 0 {
        let rest = offered.skip(1);
        the_callback_credential_prefers_sys_then_none_and_is_never_gss(rest);
        assert forall|i: int| 0 <= i < rest.len() implies #[trigger] rest[i] == offered[i + 1] by {}
        assert forall|i: int| 1 <= i < offered.len() implies #[trigger] offered[i] == rest[i
            - 1] by {}
        if offered[0] is Sys {
            assert(offered.contains(offered[0]));
        } else {
            assert(first_sys(offered) == first_sys(rest));
            if rest.contains(SecParmsView::AuthNone) {
                let k = choose|k: int| 0 <= k < rest.len() && rest[k] == SecParmsView::AuthNone;
                assert(offered[k + 1] == SecParmsView::AuthNone);
            }
            if offered[0] is AuthNone {
                assert(offered[0] == SecParmsView::AuthNone);
            }
        }
    }
}

/// `layoutreturn4` (RFC 8881 section 18.44.1).
#[derive(Debug)]
pub enum LayoutReturn4Body {
    /// LAYOUTRETURN4_FILE: the layout of one stateid.
    File { offset: u64, length: u64, stateid: StateId, body: Bytes },
    /// LAYOUTRETURN4_FSID: every layout the client holds in the filesystem.
    Fsid,
    /// LAYOUTRETURN4_ALL: every layout the client holds.
    All,
}

/// What a [`LayoutReturn4Body`] says.
pub enum LayoutReturnView {
    File { offset: u64, length: u64, stateid: StateIdView, body: Seq<u8> },
    Fsid,
    All,
}

impl View for LayoutReturn4Body {
    type V = LayoutReturnView;

    open spec fn view(&self) -> LayoutReturnView {
        match *self {
            LayoutReturn4Body::File { offset, length, stateid, body } => LayoutReturnView::File {
                offset,
                length,
                stateid: stateid@,
                body: octets::bytes_of(body),
            },
            LayoutReturn4Body::Fsid => LayoutReturnView::Fsid,
            LayoutReturn4Body::All => LayoutReturnView::All,
        }
    }
}

/// What a [`ClientId`] says.
pub struct ClientIdView {
    pub verifier: u64,
    pub id: Seq<u8>,
}

impl View for ClientId {
    type V = ClientIdView;

    open spec fn view(&self) -> ClientIdView {
        ClientIdView { verifier: self.verifier, id: self.id@ }
    }
}

/// What a [`Fattr4`] says.
pub struct Fattr4View {
    pub attrmask: Seq<u32>,
    pub attr_vals: Seq<u8>,
}

impl View for Fattr4 {
    type V = Fattr4View;

    open spec fn view(&self) -> Fattr4View {
        Fattr4View { attrmask: self.attrmask@, attr_vals: self.attr_vals@ }
    }
}

/// `channel_attrs4` (RFC 8881 section 18.36).
#[derive(Debug)]
pub struct ChannelAttrs {
    pub header_pad_size: u32,
    pub max_request_size: u32,
    pub max_response_size: u32,
    pub max_response_size_cached: u32,
    pub max_operations: u32,
    pub max_requests: u32,
    /// `ca_rdma_ird<1>`: at most one element.
    pub rdma_ird: Vec<u32>,
}

/// What a [`ChannelAttrs`] says.
pub struct ChannelAttrsView {
    pub header_pad_size: u32,
    pub max_request_size: u32,
    pub max_response_size: u32,
    pub max_response_size_cached: u32,
    pub max_operations: u32,
    pub max_requests: u32,
    pub rdma_ird: Seq<u32>,
}

impl View for ChannelAttrs {
    type V = ChannelAttrsView;

    open spec fn view(&self) -> ChannelAttrsView {
        ChannelAttrsView {
            header_pad_size: self.header_pad_size,
            max_request_size: self.max_request_size,
            max_response_size: self.max_response_size,
            max_response_size_cached: self.max_response_size_cached,
            max_operations: self.max_operations,
            max_requests: self.max_requests,
            rdma_ird: self.rdma_ird@,
        }
    }
}

impl Default for ChannelAttrs {
    fn default() -> (a: ChannelAttrs)
        ensures
            a@ == (ChannelAttrsView {
                header_pad_size: 0,
                max_request_size: 1_048_576,
                max_response_size: 1_048_576,
                max_response_size_cached: 65_536,
                max_operations: 8,
                max_requests: 128,
                rdma_ird: Seq::<u32>::empty(),
            }),
    {
        ChannelAttrs {
            header_pad_size: 0,
            max_request_size: 1024 * 1024,
            max_response_size: 1024 * 1024,
            max_response_size_cached: 64 * 1024,
            max_operations: 8,
            max_requests: 128,
            rdma_ird: Vec::new(),
        }
    }
}

/// `createhow4`, flattened. For EXCLUSIVE4_1 `attrs` is the eight octets of the
/// verifier and then the attribute values.
#[derive(Debug)]
pub struct OpenHow {
    pub createmode: u32,
    pub attrs: Option<Bytes>,
    /// The bitmap against which `attrs` decodes.
    pub attrmask: Vec<u32>,
}

/// What an [`OpenHow`] says.
pub struct OpenHowView {
    pub createmode: u32,
    pub attrs: Option<Seq<u8>>,
    pub attrmask: Seq<u32>,
}

/// The octets of an optional buffer.
pub open spec fn opt_bytes_view(b: Option<Bytes>) -> Option<Seq<u8>> {
    match b {
        Some(b) => Some(octets::bytes_of(b)),
        None => None,
    }
}

/// The characters of an optional string.
pub open spec fn opt_string_view(s: Option<String>) -> Option<Seq<char>> {
    match s {
        Some(s) => Some(s@),
        None => None,
    }
}

/// The view of an optional stateid.
pub open spec fn opt_stateid_view(s: Option<StateId>) -> Option<StateIdView> {
    match s {
        Some(s) => Some(s@),
        None => None,
    }
}

impl View for OpenHow {
    type V = OpenHowView;

    open spec fn view(&self) -> OpenHowView {
        OpenHowView {
            createmode: self.createmode,
            attrs: opt_bytes_view(self.attrs),
            attrmask: self.attrmask@,
        }
    }
}

/// `open_claim4`, flattened.
#[derive(Debug)]
pub struct OpenClaim {
    pub claim_type: u32,
    pub file: String,
    /// CLAIM_PREVIOUS alone: the delegation type held before the restart.
    pub delegate_type: Option<u32>,
    /// CLAIM_DELEGATE_CUR and CLAIM_DELEG_CUR_FH alone: the delegation that a
    /// cached open is converted under.
    pub delegate_stateid: Option<StateId>,
}

/// What an [`OpenClaim`] says.
pub struct OpenClaimView {
    pub claim_type: u32,
    pub file: Seq<char>,
    pub delegate_type: Option<u32>,
    pub delegate_stateid: Option<StateIdView>,
}

impl View for OpenClaim {
    type V = OpenClaimView;

    open spec fn view(&self) -> OpenClaimView {
        OpenClaimView {
            claim_type: self.claim_type,
            file: self.file@,
            delegate_type: self.delegate_type,
            delegate_stateid: opt_stateid_view(self.delegate_stateid),
        }
    }
}

proof fn lemma_first_sys(offered: Seq<SecParmsView>)
    ensures
        first_sys(offered) is None <==> forall|i: int|
            0 <= i < offered.len() ==> !((#[trigger] offered[i]) is Sys),
        first_sys(offered) matches Some(p) ==> exists|i: int|
            0 <= i < offered.len() && (#[trigger] offered[i]) == p && p is Sys && forall|j: int|
                0 <= j < i ==> !((#[trigger] offered[j]) is Sys),
    decreases offered.len(),
{
    if offered.len() > 0 && !(offered[0] is Sys) {
        let rest = offered.skip(1);
        lemma_first_sys(rest);
        if let Some(p) = first_sys(rest) {
            let i = choose|i: int|
                0 <= i < rest.len() && (#[trigger] rest[i]) == p && p is Sys && forall|j: int|
                    0 <= j < i ==> !((#[trigger] rest[j]) is Sys);
            assert(offered[i + 1] == p);
            assert forall|j: int| 0 <= j < i + 1 implies !((#[trigger] offered[j]) is Sys) by {
                if j > 0 {
                    assert(!(rest[j - 1] is Sys));
                }
            }
        } else {
            assert forall|j: int| 0 <= j < offered.len() implies !((
            #[trigger] offered[j]) is Sys) by {
                if j > 0 {
                    assert(!(rest[j - 1] is Sys));
                }
            }
        }
    }
}

/// Law: callbacks go out under the first AUTH_SYS credential that the client offers, under
/// AUTH_NONE where it offers that and no AUTH_SYS, and otherwise not at all.
pub proof fn callbacks_go_out_under_what_was_offered(offered: Seq<SecParmsView>, i: int)
    ensures
        0 <= i < offered.len() && offered[i] is Sys && (forall|j: int|
            0 <= j < i ==> !((#[trigger] offered[j]) is Sys)) ==> picked(offered) == Some(
            offered[i],
        ),
        (forall|j: int| 0 <= j < offered.len() ==> !((#[trigger] offered[j]) is Sys)) ==> {
            &&& offered.contains(SecParmsView::AuthNone) ==> picked(offered) == Some(
                SecParmsView::AuthNone,
            )
            &&& !offered.contains(SecParmsView::AuthNone) ==> picked(offered) is None
        },
        picked(offered) matches Some(p) ==> offered.contains(p),
{
    lemma_first_sys(offered);
    if let Some(p) = first_sys(offered) {
        let k = choose|k: int|
            0 <= k < offered.len() && (#[trigger] offered[k]) == p && p is Sys && forall|j: int|
                0 <= j < k ==> !((#[trigger] offered[j]) is Sys);
        assert(offered.contains(offered[k]));
        if 0 <= i < offered.len() && offered[i] is Sys && (forall|j: int|
            0 <= j < i ==> !((#[trigger] offered[j]) is Sys)) {
            assert(i == k);
        }
    }
}

} // verus!
