//! Laws of the operation grammar.
use vstd::prelude::*;

use crate::compound::grammar;
use crate::protocol::opcode;
use crate::protocol::Nfs4FileType;
use crate::xdr;

verus! {

broadcast proof fn component_stable(s: Seq<u8>, t: Seq<u8>)
    requires
        grammar::parse_component(s).0 is Ok,
    ensures
        #[trigger] grammar::parse_component(s + t) == (grammar::parse_component(s).0, grammar::parse_component(s).1 + t),
{
    broadcast use xdr::group_readers_stable;

}

broadcast proof fn fattr_stable(s: Seq<u8>, t: Seq<u8>)
    requires
        grammar::parse_fattr(s).0 is Ok,
    ensures
        #[trigger] grammar::parse_fattr(s + t) == (grammar::parse_fattr(s).0, grammar::parse_fattr(s).1 + t),
{
    broadcast use {xdr::group_readers_stable, component_stable};

}

broadcast proof fn packed_fattr_stable(s: Seq<u8>, t: Seq<u8>)
    requires
        grammar::parse_packed_fattr(s).0 is Ok,
    ensures
        #[trigger] grammar::parse_packed_fattr(s + t) == (grammar::parse_packed_fattr(s).0, grammar::parse_packed_fattr(s).1 + t),
{
    broadcast use {xdr::group_readers_stable, component_stable, fattr_stable};

}

broadcast proof fn authsys_stable(s: Seq<u8>, t: Seq<u8>)
    requires
        grammar::parse_authsys(s).0 is Ok,
    ensures
        #[trigger] grammar::parse_authsys(s + t) == (grammar::parse_authsys(s).0, grammar::parse_authsys(s).1 + t),
{
    broadcast use {xdr::group_readers_stable, component_stable, fattr_stable, packed_fattr_stable};

}

broadcast proof fn sec_parm_stable(s: Seq<u8>, t: Seq<u8>)
    requires
        grammar::parse_sec_parm(s).0 is Ok,
    ensures
        #[trigger] grammar::parse_sec_parm(s + t) == (grammar::parse_sec_parm(s).0, grammar::parse_sec_parm(s).1 + t),
{
    broadcast use {xdr::group_readers_stable, component_stable, fattr_stable, packed_fattr_stable, authsys_stable};

}

broadcast proof fn sec_parm_list_stable(s: Seq<u8>, t: Seq<u8>, n: nat)
    requires
        grammar::parse_sec_parm_list(s, n).0 is Ok,
    ensures
        #[trigger] grammar::parse_sec_parm_list(s + t, n) == (grammar::parse_sec_parm_list(s, n).0, grammar::parse_sec_parm_list(s, n).1 + t),
    decreases n,
{
    broadcast use {xdr::group_readers_stable, component_stable, fattr_stable, packed_fattr_stable, authsys_stable, sec_parm_stable};

    if n > 0 {
        sec_parm_list_stable(grammar::parse_sec_parm(s).1, t, (n - 1) as nat);
    }
}

broadcast proof fn sec_parms_stable(s: Seq<u8>, t: Seq<u8>)
    requires
        grammar::parse_sec_parms(s).0 is Ok,
    ensures
        #[trigger] grammar::parse_sec_parms(s + t) == (grammar::parse_sec_parms(s).0, grammar::parse_sec_parms(s).1 + t),
{
    broadcast use {xdr::group_readers_stable, component_stable, fattr_stable, packed_fattr_stable, authsys_stable, sec_parm_stable, sec_parm_list_stable};

}

broadcast proof fn channel_attrs_stable(s: Seq<u8>, t: Seq<u8>)
    requires
        grammar::parse_channel_attrs(s).0 is Ok,
    ensures
        #[trigger] grammar::parse_channel_attrs(s + t) == (grammar::parse_channel_attrs(s).0, grammar::parse_channel_attrs(s).1 + t),
{
    broadcast use {xdr::group_readers_stable, component_stable, fattr_stable, packed_fattr_stable, authsys_stable, sec_parm_stable, sec_parm_list_stable, sec_parms_stable};

}

broadcast proof fn netloc_stable(s: Seq<u8>, t: Seq<u8>)
    requires
        grammar::parse_netloc(s).0 is Ok,
    ensures
        #[trigger] grammar::parse_netloc(s + t) == (grammar::parse_netloc(s).0, grammar::parse_netloc(s).1 + t),
{
    broadcast use {xdr::group_readers_stable, component_stable, fattr_stable, packed_fattr_stable, authsys_stable, sec_parm_stable, sec_parm_list_stable, sec_parms_stable, channel_attrs_stable};

}

broadcast proof fn netloc_list_stable(s: Seq<u8>, t: Seq<u8>, n: nat)
    requires
        grammar::parse_netloc_list(s, n).0 is Ok,
    ensures
        #[trigger] grammar::parse_netloc_list(s + t, n) == (grammar::parse_netloc_list(s, n).0, grammar::parse_netloc_list(s, n).1 + t),
    decreases n,
{
    broadcast use {xdr::group_readers_stable, component_stable, fattr_stable, packed_fattr_stable, authsys_stable, sec_parm_stable, sec_parm_list_stable, sec_parms_stable, channel_attrs_stable, netloc_stable};

    if n > 0 {
        netloc_list_stable(grammar::parse_netloc(s).1, t, (n - 1) as nat);
    }
}

broadcast proof fn netlocs_stable(s: Seq<u8>, t: Seq<u8>)
    requires
        grammar::parse_netlocs(s).0 is Ok,
    ensures
        #[trigger] grammar::parse_netlocs(s + t) == (grammar::parse_netlocs(s).0, grammar::parse_netlocs(s).1 + t),
{
    broadcast use {xdr::group_readers_stable, component_stable, fattr_stable, packed_fattr_stable, authsys_stable, sec_parm_stable, sec_parm_list_stable, sec_parms_stable, channel_attrs_stable, netloc_stable, netloc_list_stable};

}

broadcast proof fn opaque_list_stable(s: Seq<u8>, t: Seq<u8>, n: nat)
    requires
        grammar::parse_opaque_list(s, n).0 is Ok,
    ensures
        #[trigger] grammar::parse_opaque_list(s + t, n) == (grammar::parse_opaque_list(s, n).0, grammar::parse_opaque_list(s, n).1 + t),
    decreases n,
{
    broadcast use {xdr::group_readers_stable, component_stable, fattr_stable, packed_fattr_stable, authsys_stable, sec_parm_stable, sec_parm_list_stable, sec_parms_stable, channel_attrs_stable, netloc_stable, netloc_list_stable, netlocs_stable};

    if n > 0 {
        opaque_list_stable(xdr::parse_opaque(s).1, t, (n - 1) as nat);
    }
}

broadcast proof fn algs_stable(s: Seq<u8>, t: Seq<u8>)
    requires
        grammar::parse_algs(s).0 is Ok,
    ensures
        #[trigger] grammar::parse_algs(s + t) == (grammar::parse_algs(s).0, grammar::parse_algs(s).1 + t),
{
    broadcast use {xdr::group_readers_stable, component_stable, fattr_stable, packed_fattr_stable, authsys_stable, sec_parm_stable, sec_parm_list_stable, sec_parms_stable, channel_attrs_stable, netloc_stable, netloc_list_stable, netlocs_stable, opaque_list_stable};

}

broadcast proof fn state_protect_stable(s: Seq<u8>, t: Seq<u8>, how: u32)
    requires
        grammar::parse_state_protect(s, how).0 is Ok,
    ensures
        #[trigger] grammar::parse_state_protect(s + t, how) == (grammar::parse_state_protect(s, how).0, grammar::parse_state_protect(s, how).1 + t),
{
    broadcast use {xdr::group_readers_stable, component_stable, fattr_stable, packed_fattr_stable, authsys_stable, sec_parm_stable, sec_parm_list_stable, sec_parms_stable, channel_attrs_stable, netloc_stable, netloc_list_stable, netlocs_stable, opaque_list_stable, algs_stable};

}

broadcast proof fn impl_id_stable(s: Seq<u8>, t: Seq<u8>)
    requires
        grammar::parse_impl_id(s).0 is Ok,
    ensures
        #[trigger] grammar::parse_impl_id(s + t) == (grammar::parse_impl_id(s).0, grammar::parse_impl_id(s).1 + t),
{
    broadcast use {xdr::group_readers_stable, component_stable, fattr_stable, packed_fattr_stable, authsys_stable, sec_parm_stable, sec_parm_list_stable, sec_parms_stable, channel_attrs_stable, netloc_stable, netloc_list_stable, netlocs_stable, opaque_list_stable, algs_stable, state_protect_stable};

}

broadcast proof fn createhow_stable(s: Seq<u8>, t: Seq<u8>)
    requires
        grammar::parse_createhow(s).0 is Ok,
    ensures
        #[trigger] grammar::parse_createhow(s + t) == (grammar::parse_createhow(s).0, grammar::parse_createhow(s).1 + t),
{
    broadcast use {xdr::group_readers_stable, component_stable, fattr_stable, packed_fattr_stable, authsys_stable, sec_parm_stable, sec_parm_list_stable, sec_parms_stable, channel_attrs_stable, netloc_stable, netloc_list_stable, netlocs_stable, opaque_list_stable, algs_stable, state_protect_stable, impl_id_stable};

}

broadcast proof fn openflag_stable(s: Seq<u8>, t: Seq<u8>)
    requires
        grammar::parse_openflag(s).0 is Ok,
    ensures
        #[trigger] grammar::parse_openflag(s + t) == (grammar::parse_openflag(s).0, grammar::parse_openflag(s).1 + t),
{
    broadcast use {xdr::group_readers_stable, component_stable, fattr_stable, packed_fattr_stable, authsys_stable, sec_parm_stable, sec_parm_list_stable, sec_parms_stable, channel_attrs_stable, netloc_stable, netloc_list_stable, netlocs_stable, opaque_list_stable, algs_stable, state_protect_stable, impl_id_stable, createhow_stable};

}

broadcast proof fn claim_stable(s: Seq<u8>, t: Seq<u8>)
    requires
        grammar::parse_claim(s).0 is Ok,
    ensures
        #[trigger] grammar::parse_claim(s + t) == (grammar::parse_claim(s).0, grammar::parse_claim(s).1 + t),
{
    broadcast use {xdr::group_readers_stable, component_stable, fattr_stable, packed_fattr_stable, authsys_stable, sec_parm_stable, sec_parm_list_stable, sec_parms_stable, channel_attrs_stable, netloc_stable, netloc_list_stable, netlocs_stable, opaque_list_stable, algs_stable, state_protect_stable, impl_id_stable, createhow_stable, openflag_stable};

}

broadcast proof fn newoffset_stable(s: Seq<u8>, t: Seq<u8>)
    requires
        grammar::parse_newoffset(s).0 is Ok,
    ensures
        #[trigger] grammar::parse_newoffset(s + t) == (grammar::parse_newoffset(s).0, grammar::parse_newoffset(s).1 + t),
{
    broadcast use {xdr::group_readers_stable, component_stable, fattr_stable, packed_fattr_stable, authsys_stable, sec_parm_stable, sec_parm_list_stable, sec_parms_stable, channel_attrs_stable, netloc_stable, netloc_list_stable, netlocs_stable, opaque_list_stable, algs_stable, state_protect_stable, impl_id_stable, createhow_stable, openflag_stable, claim_stable};

}

broadcast proof fn newtime_stable(s: Seq<u8>, t: Seq<u8>)
    requires
        grammar::parse_newtime(s).0 is Ok,
    ensures
        #[trigger] grammar::parse_newtime(s + t) == (grammar::parse_newtime(s).0, grammar::parse_newtime(s).1 + t),
{
    broadcast use {xdr::group_readers_stable, component_stable, fattr_stable, packed_fattr_stable, authsys_stable, sec_parm_stable, sec_parm_list_stable, sec_parms_stable, channel_attrs_stable, netloc_stable, netloc_list_stable, netlocs_stable, opaque_list_stable, algs_stable, state_protect_stable, impl_id_stable, createhow_stable, openflag_stable, claim_stable, newoffset_stable};

}

broadcast proof fn layout_return_body_stable(s: Seq<u8>, t: Seq<u8>)
    requires
        grammar::parse_layout_return_body(s).0 is Ok,
    ensures
        #[trigger] grammar::parse_layout_return_body(s + t) == (grammar::parse_layout_return_body(s).0, grammar::parse_layout_return_body(s).1 + t),
{
    broadcast use {xdr::group_readers_stable, component_stable, fattr_stable, packed_fattr_stable, authsys_stable, sec_parm_stable, sec_parm_list_stable, sec_parms_stable, channel_attrs_stable, netloc_stable, netloc_list_stable, netlocs_stable, opaque_list_stable, algs_stable, state_protect_stable, impl_id_stable, createhow_stable, openflag_stable, claim_stable, newoffset_stable, newtime_stable};

}

broadcast proof fn createtype_tail_stable(s: Seq<u8>, t: Seq<u8>, k: Nfs4FileType)
    requires
        grammar::parse_createtype_tail(s, k).0 is Ok,
    ensures
        #[trigger] grammar::parse_createtype_tail(s + t, k) == (grammar::parse_createtype_tail(s, k).0, grammar::parse_createtype_tail(s, k).1 + t),
{
    broadcast use {xdr::group_readers_stable, component_stable, fattr_stable, packed_fattr_stable, authsys_stable, sec_parm_stable, sec_parm_list_stable, sec_parms_stable, channel_attrs_stable, netloc_stable, netloc_list_stable, netlocs_stable, opaque_list_stable, algs_stable, state_protect_stable, impl_id_stable, createhow_stable, openflag_stable, claim_stable, newoffset_stable, newtime_stable, layout_return_body_stable};

}

broadcast proof fn session_args_stable(s: Seq<u8>, t: Seq<u8>)
    requires
        grammar::parse_session_args(s).0 is Ok,
    ensures
        #[trigger] grammar::parse_session_args(s + t) == (grammar::parse_session_args(s).0, grammar::parse_session_args(s).1 + t),
{
    broadcast use {xdr::group_readers_stable, component_stable, fattr_stable, packed_fattr_stable, authsys_stable, sec_parm_stable, sec_parm_list_stable, sec_parms_stable, channel_attrs_stable, netloc_stable, netloc_list_stable, netlocs_stable, opaque_list_stable, algs_stable, state_protect_stable, impl_id_stable, createhow_stable, openflag_stable, claim_stable, newoffset_stable, newtime_stable, layout_return_body_stable, createtype_tail_stable};

}

broadcast proof fn locker_stable(s: Seq<u8>, t: Seq<u8>, new_owner: bool)
    requires
        grammar::parse_locker(s, new_owner).0 is Ok,
    ensures
        #[trigger] grammar::parse_locker(s + t, new_owner) == (grammar::parse_locker(s, new_owner).0, grammar::parse_locker(s, new_owner).1 + t),
{
    broadcast use {xdr::group_readers_stable, component_stable, fattr_stable, packed_fattr_stable, authsys_stable, sec_parm_stable, sec_parm_list_stable, sec_parms_stable, channel_attrs_stable, netloc_stable, netloc_list_stable, netlocs_stable, opaque_list_stable, algs_stable, state_protect_stable, impl_id_stable, createhow_stable, openflag_stable, claim_stable, newoffset_stable, newtime_stable, layout_return_body_stable, createtype_tail_stable, session_args_stable};

}

broadcast group group_parts_stable {
    component_stable,
    fattr_stable,
    packed_fattr_stable,
    authsys_stable,
    sec_parm_stable,
    sec_parm_list_stable,
    sec_parms_stable,
    channel_attrs_stable,
    netloc_stable,
    netloc_list_stable,
    netlocs_stable,
    opaque_list_stable,
    algs_stable,
    state_protect_stable,
    impl_id_stable,
    createhow_stable,
    openflag_stable,
    claim_stable,
    newoffset_stable,
    newtime_stable,
    layout_return_body_stable,
    createtype_tail_stable,
    session_args_stable,
    locker_stable,
}

proof fn putfh_args_stable(s: Seq<u8>, t: Seq<u8>)
    requires
        grammar::parse_putfh(s).0 is Ok,
    ensures
        grammar::parse_putfh(s + t) == (grammar::parse_putfh(s).0, grammar::parse_putfh(s).1 + t),
{
    broadcast use {xdr::group_readers_stable, group_parts_stable};

}

proof fn readdir_args_stable(s: Seq<u8>, t: Seq<u8>)
    requires
        grammar::parse_readdir(s).0 is Ok,
    ensures
        grammar::parse_readdir(s + t) == (grammar::parse_readdir(s).0, grammar::parse_readdir(s).1 + t),
{
    broadcast use {xdr::group_readers_stable, group_parts_stable};

}

proof fn getattr_args_stable(s: Seq<u8>, t: Seq<u8>)
    requires
        grammar::parse_getattr(s).0 is Ok,
    ensures
        grammar::parse_getattr(s + t) == (grammar::parse_getattr(s).0, grammar::parse_getattr(s).1 + t),
{
    broadcast use {xdr::group_readers_stable, group_parts_stable};

}

proof fn setattr_args_stable(s: Seq<u8>, t: Seq<u8>)
    requires
        grammar::parse_setattr(s).0 is Ok,
    ensures
        grammar::parse_setattr(s + t) == (grammar::parse_setattr(s).0, grammar::parse_setattr(s).1 + t),
{
    broadcast use {xdr::group_readers_stable, group_parts_stable};

}

proof fn access_args_stable(s: Seq<u8>, t: Seq<u8>)
    requires
        grammar::parse_access(s).0 is Ok,
    ensures
        grammar::parse_access(s + t) == (grammar::parse_access(s).0, grammar::parse_access(s).1 + t),
{
    broadcast use {xdr::group_readers_stable, group_parts_stable};

}

proof fn verify_args_stable(s: Seq<u8>, t: Seq<u8>)
    requires
        grammar::parse_verify(s).0 is Ok,
    ensures
        grammar::parse_verify(s + t) == (grammar::parse_verify(s).0, grammar::parse_verify(s).1 + t),
{
    broadcast use {xdr::group_readers_stable, group_parts_stable};

}

proof fn nverify_args_stable(s: Seq<u8>, t: Seq<u8>)
    requires
        grammar::parse_nverify(s).0 is Ok,
    ensures
        grammar::parse_nverify(s + t) == (grammar::parse_nverify(s).0, grammar::parse_nverify(s).1 + t),
{
    broadcast use {xdr::group_readers_stable, group_parts_stable};

}

proof fn delegpurge_args_stable(s: Seq<u8>, t: Seq<u8>)
    requires
        grammar::parse_delegpurge(s).0 is Ok,
    ensures
        grammar::parse_delegpurge(s + t) == (grammar::parse_delegpurge(s).0, grammar::parse_delegpurge(s).1 + t),
{
    broadcast use {xdr::group_readers_stable, group_parts_stable};

}

proof fn delegreturn_args_stable(s: Seq<u8>, t: Seq<u8>)
    requires
        grammar::parse_delegreturn(s).0 is Ok,
    ensures
        grammar::parse_delegreturn(s + t) == (grammar::parse_delegreturn(s).0, grammar::parse_delegreturn(s).1 + t),
{
    broadcast use {xdr::group_readers_stable, group_parts_stable};

}

proof fn open_args_stable(s: Seq<u8>, t: Seq<u8>)
    requires
        grammar::parse_open(s).0 is Ok,
    ensures
        grammar::parse_open(s + t) == (grammar::parse_open(s).0, grammar::parse_open(s).1 + t),
{
    broadcast use {xdr::group_readers_stable, group_parts_stable};

}

proof fn close_args_stable(s: Seq<u8>, t: Seq<u8>)
    requires
        grammar::parse_close(s).0 is Ok,
    ensures
        grammar::parse_close(s + t) == (grammar::parse_close(s).0, grammar::parse_close(s).1 + t),
{
    broadcast use {xdr::group_readers_stable, group_parts_stable};

}

proof fn open_downgrade_args_stable(s: Seq<u8>, t: Seq<u8>)
    requires
        grammar::parse_open_downgrade(s).0 is Ok,
    ensures
        grammar::parse_open_downgrade(s + t) == (grammar::parse_open_downgrade(s).0, grammar::parse_open_downgrade(s).1 + t),
{
    broadcast use {xdr::group_readers_stable, group_parts_stable};

}

proof fn read_args_stable(s: Seq<u8>, t: Seq<u8>)
    requires
        grammar::parse_read(s).0 is Ok,
    ensures
        grammar::parse_read(s + t) == (grammar::parse_read(s).0, grammar::parse_read(s).1 + t),
{
    broadcast use {xdr::group_readers_stable, group_parts_stable};

}

proof fn write_args_stable(s: Seq<u8>, t: Seq<u8>)
    requires
        grammar::parse_write(s).0 is Ok,
    ensures
        grammar::parse_write(s + t) == (grammar::parse_write(s).0, grammar::parse_write(s).1 + t),
{
    broadcast use {xdr::group_readers_stable, group_parts_stable};

}

proof fn commit_args_stable(s: Seq<u8>, t: Seq<u8>)
    requires
        grammar::parse_commit(s).0 is Ok,
    ensures
        grammar::parse_commit(s + t) == (grammar::parse_commit(s).0, grammar::parse_commit(s).1 + t),
{
    broadcast use {xdr::group_readers_stable, group_parts_stable};

}

proof fn destroy_session_args_stable(s: Seq<u8>, t: Seq<u8>)
    requires
        grammar::parse_destroy_session(s).0 is Ok,
    ensures
        grammar::parse_destroy_session(s + t) == (grammar::parse_destroy_session(s).0, grammar::parse_destroy_session(s).1 + t),
{
    broadcast use {xdr::group_readers_stable, group_parts_stable};

}

proof fn bind_conn_args_stable(s: Seq<u8>, t: Seq<u8>)
    requires
        grammar::parse_bind_conn(s).0 is Ok,
    ensures
        grammar::parse_bind_conn(s + t) == (grammar::parse_bind_conn(s).0, grammar::parse_bind_conn(s).1 + t),
{
    broadcast use {xdr::group_readers_stable, group_parts_stable};

}

proof fn backchannel_ctl_args_stable(s: Seq<u8>, t: Seq<u8>)
    requires
        grammar::parse_backchannel_ctl(s).0 is Ok,
    ensures
        grammar::parse_backchannel_ctl(s + t) == (grammar::parse_backchannel_ctl(s).0, grammar::parse_backchannel_ctl(s).1 + t),
{
    broadcast use {xdr::group_readers_stable, group_parts_stable};

}

proof fn destroy_clientid_args_stable(s: Seq<u8>, t: Seq<u8>)
    requires
        grammar::parse_destroy_clientid(s).0 is Ok,
    ensures
        grammar::parse_destroy_clientid(s + t) == (grammar::parse_destroy_clientid(s).0, grammar::parse_destroy_clientid(s).1 + t),
{
    broadcast use {xdr::group_readers_stable, group_parts_stable};

}

proof fn sequence_args_stable(s: Seq<u8>, t: Seq<u8>)
    requires
        grammar::parse_sequence(s).0 is Ok,
    ensures
        grammar::parse_sequence(s + t) == (grammar::parse_sequence(s).0, grammar::parse_sequence(s).1 + t),
{
    broadcast use {xdr::group_readers_stable, group_parts_stable};

}

proof fn reclaim_complete_args_stable(s: Seq<u8>, t: Seq<u8>)
    requires
        grammar::parse_reclaim_complete(s).0 is Ok,
    ensures
        grammar::parse_reclaim_complete(s + t) == (grammar::parse_reclaim_complete(s).0, grammar::parse_reclaim_complete(s).1 + t),
{
    broadcast use {xdr::group_readers_stable, group_parts_stable};

}

proof fn free_stateid_args_stable(s: Seq<u8>, t: Seq<u8>)
    requires
        grammar::parse_free_stateid(s).0 is Ok,
    ensures
        grammar::parse_free_stateid(s + t) == (grammar::parse_free_stateid(s).0, grammar::parse_free_stateid(s).1 + t),
{
    broadcast use {xdr::group_readers_stable, group_parts_stable};

}

proof fn lockt_args_stable(s: Seq<u8>, t: Seq<u8>)
    requires
        grammar::parse_lockt(s).0 is Ok,
    ensures
        grammar::parse_lockt(s + t) == (grammar::parse_lockt(s).0, grammar::parse_lockt(s).1 + t),
{
    broadcast use {xdr::group_readers_stable, group_parts_stable};

}

proof fn locku_args_stable(s: Seq<u8>, t: Seq<u8>)
    requires
        grammar::parse_locku(s).0 is Ok,
    ensures
        grammar::parse_locku(s + t) == (grammar::parse_locku(s).0, grammar::parse_locku(s).1 + t),
{
    broadcast use {xdr::group_readers_stable, group_parts_stable};

}

proof fn allocate_args_stable(s: Seq<u8>, t: Seq<u8>)
    requires
        grammar::parse_allocate(s).0 is Ok,
    ensures
        grammar::parse_allocate(s + t) == (grammar::parse_allocate(s).0, grammar::parse_allocate(s).1 + t),
{
    broadcast use {xdr::group_readers_stable, group_parts_stable};

}

proof fn deallocate_args_stable(s: Seq<u8>, t: Seq<u8>)
    requires
        grammar::parse_deallocate(s).0 is Ok,
    ensures
        grammar::parse_deallocate(s + t) == (grammar::parse_deallocate(s).0, grammar::parse_deallocate(s).1 + t),
{
    broadcast use {xdr::group_readers_stable, group_parts_stable};

}

proof fn seek_args_stable(s: Seq<u8>, t: Seq<u8>)
    requires
        grammar::parse_seek(s).0 is Ok,
    ensures
        grammar::parse_seek(s + t) == (grammar::parse_seek(s).0, grammar::parse_seek(s).1 + t),
{
    broadcast use {xdr::group_readers_stable, group_parts_stable};

}

proof fn copy_args_stable(s: Seq<u8>, t: Seq<u8>)
    requires
        grammar::parse_copy(s).0 is Ok,
    ensures
        grammar::parse_copy(s + t) == (grammar::parse_copy(s).0, grammar::parse_copy(s).1 + t),
{
    broadcast use {xdr::group_readers_stable, group_parts_stable};

}

proof fn clone_args_stable(s: Seq<u8>, t: Seq<u8>)
    requires
        grammar::parse_clone(s).0 is Ok,
    ensures
        grammar::parse_clone(s + t) == (grammar::parse_clone(s).0, grammar::parse_clone(s).1 + t),
{
    broadcast use {xdr::group_readers_stable, group_parts_stable};

}

proof fn read_plus_args_stable(s: Seq<u8>, t: Seq<u8>)
    requires
        grammar::parse_read_plus(s).0 is Ok,
    ensures
        grammar::parse_read_plus(s + t) == (grammar::parse_read_plus(s).0, grammar::parse_read_plus(s).1 + t),
{
    broadcast use {xdr::group_readers_stable, group_parts_stable};

}

proof fn io_advise_args_stable(s: Seq<u8>, t: Seq<u8>)
    requires
        grammar::parse_io_advise(s).0 is Ok,
    ensures
        grammar::parse_io_advise(s + t) == (grammar::parse_io_advise(s).0, grammar::parse_io_advise(s).1 + t),
{
    broadcast use {xdr::group_readers_stable, group_parts_stable};

}

proof fn secinfo_args_stable(s: Seq<u8>, t: Seq<u8>)
    requires
        grammar::parse_secinfo(s).0 is Ok,
    ensures
        grammar::parse_secinfo(s + t) == (grammar::parse_secinfo(s).0, grammar::parse_secinfo(s).1 + t),
{
    broadcast use {xdr::group_readers_stable, group_parts_stable};

}

proof fn secinfo_no_name_args_stable(s: Seq<u8>, t: Seq<u8>)
    requires
        grammar::parse_secinfo_no_name(s).0 is Ok,
    ensures
        grammar::parse_secinfo_no_name(s + t) == (grammar::parse_secinfo_no_name(s).0, grammar::parse_secinfo_no_name(s).1 + t),
{
    broadcast use {xdr::group_readers_stable, group_parts_stable};

}

proof fn layoutget_args_stable(s: Seq<u8>, t: Seq<u8>)
    requires
        grammar::parse_layoutget(s).0 is Ok,
    ensures
        grammar::parse_layoutget(s + t) == (grammar::parse_layoutget(s).0, grammar::parse_layoutget(s).1 + t),
{
    broadcast use {xdr::group_readers_stable, group_parts_stable};

}

proof fn layoutcommit_args_stable(s: Seq<u8>, t: Seq<u8>)
    requires
        grammar::parse_layoutcommit(s).0 is Ok,
    ensures
        grammar::parse_layoutcommit(s + t) == (grammar::parse_layoutcommit(s).0, grammar::parse_layoutcommit(s).1 + t),
{
    broadcast use {xdr::group_readers_stable, group_parts_stable};

}

proof fn layoutreturn_args_stable(s: Seq<u8>, t: Seq<u8>)
    requires
        grammar::parse_layoutreturn(s).0 is Ok,
    ensures
        grammar::parse_layoutreturn(s + t) == (grammar::parse_layoutreturn(s).0, grammar::parse_layoutreturn(s).1 + t),
{
    broadcast use {xdr::group_readers_stable, group_parts_stable};

}

proof fn rename_args_stable(s: Seq<u8>, t: Seq<u8>)
    requires
        grammar::parse_rename(s).0 is Ok,
    ensures
        grammar::parse_rename(s + t) == (grammar::parse_rename(s).0, grammar::parse_rename(s).1 + t),
{
    broadcast use {xdr::group_readers_stable, group_parts_stable};

}

proof fn create_args_stable(s: Seq<u8>, t: Seq<u8>)
    requires
        grammar::parse_create(s).0 is Ok,
    ensures
        grammar::parse_create(s + t) == (grammar::parse_create(s).0, grammar::parse_create(s).1 + t),
{
    broadcast use {xdr::group_readers_stable, group_parts_stable};

}

proof fn exchange_id_args_stable(s: Seq<u8>, t: Seq<u8>)
    requires
        grammar::parse_exchange_id(s).0 is Ok,
    ensures
        grammar::parse_exchange_id(s + t) == (grammar::parse_exchange_id(s).0, grammar::parse_exchange_id(s).1 + t),
{
    broadcast use {xdr::group_readers_stable, group_parts_stable};

}

proof fn test_stateid_args_stable(s: Seq<u8>, t: Seq<u8>)
    requires
        grammar::parse_test_stateid(s).0 is Ok,
    ensures
        grammar::parse_test_stateid(s + t) == (grammar::parse_test_stateid(s).0, grammar::parse_test_stateid(s).1 + t),
{
    broadcast use {xdr::group_readers_stable, group_parts_stable};

}

proof fn lock_args_stable(s: Seq<u8>, t: Seq<u8>)
    requires
        grammar::parse_lock(s).0 is Ok,
    ensures
        grammar::parse_lock(s + t) == (grammar::parse_lock(s).0, grammar::parse_lock(s).1 + t),
{
    broadcast use {xdr::group_readers_stable, group_parts_stable};

}

proof fn getdeviceinfo_args_stable(s: Seq<u8>, t: Seq<u8>)
    requires
        grammar::parse_getdeviceinfo(s).0 is Ok,
    ensures
        grammar::parse_getdeviceinfo(s + t) == (grammar::parse_getdeviceinfo(s).0, grammar::parse_getdeviceinfo(s).1 + t),
{
    broadcast use {xdr::group_readers_stable, group_parts_stable};

}

proof fn create_session_args_stable(s: Seq<u8>, t: Seq<u8>)
    requires
        grammar::parse_session_args(s).0 is Ok,
        grammar::parse_sec_parms(grammar::parse_session_args(s).1).0 is Ok,
    ensures
        grammar::parse_create_session(s + t) == (
            grammar::parse_create_session(s).0,
            grammar::parse_create_session(s).1 + t,
        ),
{
    broadcast use {xdr::group_readers_stable, group_parts_stable};

}

/// Whether the credential offer of a CREATE_SESSION parses. One that does not
/// is read as empty, and where it broke off can depend on what stands behind
/// it.
pub open spec fn offer_reads(s: Seq<u8>) -> bool {
    grammar::parse_sec_parms(grammar::parse_session_args(s).1).0 is Ok
}

/// The operation behind survives: an operation whose arguments parse takes
/// exactly its own octets. Whatever is put behind them changes nothing in what
/// it says, and is what is ahead when it has been read.
pub proof fn the_operation_behind_survives(s: Seq<u8>, t: Seq<u8>, op: u32)
    requires
        grammar::parse_operation(s, op).0 is Ok,
        op == opcode::CREATE_SESSION ==> offer_reads(s),
    ensures
        grammar::parse_operation(s + t, op) == (
            grammar::parse_operation(s, op).0,
            grammar::parse_operation(s, op).1 + t,
        ),
{
    reveal(grammar::parse_operation);
    if op == opcode::CREATE_SESSION {
        create_session_args_stable(s, t);
    } else if op == opcode::PUTFH {
        putfh_args_stable(s, t);
    } else if op == opcode::READDIR {
        readdir_args_stable(s, t);
    } else if op == opcode::GETATTR {
        getattr_args_stable(s, t);
    } else if op == opcode::SETATTR {
        setattr_args_stable(s, t);
    } else if op == opcode::ACCESS {
        access_args_stable(s, t);
    } else if op == opcode::VERIFY {
        verify_args_stable(s, t);
    } else if op == opcode::NVERIFY {
        nverify_args_stable(s, t);
    } else if op == opcode::DELEGPURGE {
        delegpurge_args_stable(s, t);
    } else if op == opcode::DELEGRETURN {
        delegreturn_args_stable(s, t);
    } else if op == opcode::OPEN {
        open_args_stable(s, t);
    } else if op == opcode::CLOSE {
        close_args_stable(s, t);
    } else if op == opcode::OPEN_DOWNGRADE {
        open_downgrade_args_stable(s, t);
    } else if op == opcode::READ {
        read_args_stable(s, t);
    } else if op == opcode::WRITE {
        write_args_stable(s, t);
    } else if op == opcode::COMMIT {
        commit_args_stable(s, t);
    } else if op == opcode::DESTROY_SESSION {
        destroy_session_args_stable(s, t);
    } else if op == opcode::BIND_CONN_TO_SESSION {
        bind_conn_args_stable(s, t);
    } else if op == opcode::BACKCHANNEL_CTL {
        backchannel_ctl_args_stable(s, t);
    } else if op == opcode::DESTROY_CLIENTID {
        destroy_clientid_args_stable(s, t);
    } else if op == opcode::SEQUENCE {
        sequence_args_stable(s, t);
    } else if op == opcode::RECLAIM_COMPLETE {
        reclaim_complete_args_stable(s, t);
    } else if op == opcode::FREE_STATEID {
        free_stateid_args_stable(s, t);
    } else if op == opcode::LOCKT {
        lockt_args_stable(s, t);
    } else if op == opcode::LOCKU {
        locku_args_stable(s, t);
    } else if op == opcode::ALLOCATE {
        allocate_args_stable(s, t);
    } else if op == opcode::DEALLOCATE {
        deallocate_args_stable(s, t);
    } else if op == opcode::SEEK {
        seek_args_stable(s, t);
    } else if op == opcode::COPY {
        copy_args_stable(s, t);
    } else if op == opcode::CLONE {
        clone_args_stable(s, t);
    } else if op == opcode::READ_PLUS {
        read_plus_args_stable(s, t);
    } else if op == opcode::IO_ADVISE {
        io_advise_args_stable(s, t);
    } else if op == opcode::SECINFO {
        secinfo_args_stable(s, t);
    } else if op == opcode::SECINFO_NO_NAME {
        secinfo_no_name_args_stable(s, t);
    } else if op == opcode::LAYOUTGET {
        layoutget_args_stable(s, t);
    } else if op == opcode::LAYOUTCOMMIT {
        layoutcommit_args_stable(s, t);
    } else if op == opcode::LAYOUTRETURN {
        layoutreturn_args_stable(s, t);
    } else if op == opcode::RENAME {
        rename_args_stable(s, t);
    } else if op == opcode::CREATE {
        create_args_stable(s, t);
    } else if op == opcode::EXCHANGE_ID {
        exchange_id_args_stable(s, t);
    } else if op == opcode::TEST_STATEID {
        test_stateid_args_stable(s, t);
    } else if op == opcode::LOCK {
        lock_args_stable(s, t);
    } else if op == opcode::GETDEVICEINFO {
        getdeviceinfo_args_stable(s, t);
    } else {
        broadcast use component_stable;

    }
}

} // verus!
