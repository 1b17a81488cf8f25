//! OPEN: how the file is to be made, what is claimed, and whether the grace
//! period lets it through.
use crate::compound::types::{Fattr4View, OpenClaim, OpenClaimView, OpenHow, OpenHowView};
use crate::octets;
use crate::octets::{bytes_as_slice, u64_at};
use crate::protocol::{Fattr4, Nfs4Status};
use crate::xdr::octets_to_vec;
use vstd::prelude::*;
use vstd::slice::slice_subrange;

verus! {

/// How OPEN makes a file.
#[derive(Debug)]
pub enum CreateHow {
    NoCreate,
    /// UNCHECKED4 and GUARDED4.
    Create(Fattr4),
    /// EXCLUSIVE4, with its verifier.
    Exclusive(u64),
    /// EXCLUSIVE4_1, with its verifier and the attributes to set.
    Exclusive41 { verifier: u64, attrs: Fattr4 },
}

pub enum CreateHowView {
    NoCreate,
    Create(Fattr4View),
    Exclusive(u64),
    Exclusive41 { verifier: u64, attrs: Fattr4View },
}

impl View for CreateHow {
    type V = CreateHowView;

    open spec fn view(&self) -> CreateHowView {
        match *self {
            CreateHow::NoCreate => CreateHowView::NoCreate,
            CreateHow::Create(a) => CreateHowView::Create(a@),
            CreateHow::Exclusive(v) => CreateHowView::Exclusive(v),
            CreateHow::Exclusive41 { verifier, attrs } => CreateHowView::Exclusive41 {
                verifier,
                attrs: attrs@,
            },
        }
    }
}

/// The first eight octets as a number, or 0 where there are fewer.
pub open spec fn leading_verifier(attrs: Seq<u8>) -> u64 {
    if attrs.len() >= 8 {
        octets::u64_of(attrs)
    } else {
        0
    }
}

/// What an OPEN asks for. UNCHECKED4 without attributes creates nothing, and
/// neither does a mode that the protocol does not define.
pub open spec fn created_how(h: OpenHowView) -> CreateHowView {
    if h.createmode == 0 {
        match h.attrs {
            Some(a) => CreateHowView::Create(Fattr4View { attrmask: h.attrmask, attr_vals: a }),
            None => CreateHowView::NoCreate,
        }
    } else if h.createmode == 1 {
        CreateHowView::Create(
            Fattr4View {
                attrmask: h.attrmask,
                attr_vals: match h.attrs {
                    Some(a) => a,
                    None => Seq::empty(),
                },
            },
        )
    } else if h.createmode == 2 {
        CreateHowView::Exclusive(
            match h.attrs {
                Some(a) => leading_verifier(a),
                None => 0,
            },
        )
    } else if h.createmode == 3 {
        match h.attrs {
            Some(a) => CreateHowView::Exclusive41 {
                verifier: leading_verifier(a),
                attrs: Fattr4View {
                    attrmask: h.attrmask,
                    attr_vals: if a.len() > 8 {
                        a.skip(8)
                    } else {
                        Seq::empty()
                    },
                },
            },
            None => CreateHowView::Exclusive41 {
                verifier: 0,
                attrs: Fattr4View { attrmask: Seq::empty(), attr_vals: Seq::empty() },
            },
        }
    } else {
        CreateHowView::NoCreate
    }
}

fn verifier_of(attrs: &[u8]) -> (v: u64)
    ensures
        v == leading_verifier(attrs@),
{
    if attrs.len() >= 8 {
        u64_at(attrs)
    } else {
        0
    }
}

/// What an OPEN asks to be made.
pub fn convert_openhow(h: OpenHow) -> (c: CreateHow)
    ensures
        c@ == created_how(h@),
{
    let attrmask = h.attrmask;
    match h.createmode {
        0 => match h.attrs {
            Some(a) => {
                let attr_vals = octets_to_vec(bytes_as_slice(&a));
                CreateHow::Create(Fattr4 { attrmask, attr_vals })
            },
            None => CreateHow::NoCreate,
        },
        1 => {
            let attr_vals = match h.attrs {
                Some(a) => octets_to_vec(bytes_as_slice(&a)),
                None => {
                    let none: Vec<u8> = Vec::new();
                    assert(none@ =~= Seq::empty());
                    none
                },
            };
            CreateHow::Create(Fattr4 { attrmask, attr_vals })
        },
        2 => match h.attrs {
            Some(a) => CreateHow::Exclusive(verifier_of(bytes_as_slice(&a))),
            None => CreateHow::Exclusive(0),
        },
        3 => match h.attrs {
            Some(a) => {
                let s = bytes_as_slice(&a);
                let verifier: u64 = verifier_of(s);
                let attr_vals = if s.len() > 8 {
                    let t = slice_subrange(s, 8, s.len());
                    assert(t@ =~= s@.skip(8));
                    octets_to_vec(t)
                } else {
                    let none: Vec<u8> = Vec::new();
                    assert(none@ =~= Seq::empty());
                    none
                };
                CreateHow::Exclusive41 { verifier, attrs: Fattr4 { attrmask, attr_vals } }
            },
            None => {
                let attrs = Fattr4 { attrmask: Vec::new(), attr_vals: Vec::new() };
                assert(attrs.attrmask@ =~= Seq::empty());
                assert(attrs.attr_vals@ =~= Seq::empty());
                CreateHow::Exclusive41 { verifier: 0, attrs }
            },
        },
        _ => CreateHow::NoCreate,
    }
}

/// What an OPEN opens.
#[derive(Debug)]
pub enum ClaimKind {
    /// A name in the current directory.
    Null(String),
    /// The current filehandle.
    Fh,
}

pub enum ClaimKindView {
    Null(Seq<char>),
    Fh,
}

impl View for ClaimKind {
    type V = ClaimKindView;

    open spec fn view(&self) -> ClaimKindView {
        match *self {
            ClaimKind::Null(s) => ClaimKindView::Null(s@),
            ClaimKind::Fh => ClaimKindView::Fh,
        }
    }
}

/// CLAIM_NULL opens by name, every other claim the current filehandle.
pub open spec fn claimed(c: OpenClaimView) -> ClaimKindView {
    if c.claim_type == 0 {
        ClaimKindView::Null(c.file)
    } else {
        ClaimKindView::Fh
    }
}

pub fn convert_claim(c: OpenClaim) -> (k: ClaimKind)
    ensures
        k@ == claimed(c@),
{
    if c.claim_type == 0 {
        ClaimKind::Null(c.file)
    } else {
        ClaimKind::Fh
    }
}

/// CLAIM_PREVIOUS, CLAIM_DELEGATE_PREV and CLAIM_DELEG_PREV_FH.
pub open spec fn is_reclaim(claim_type: u32) -> bool {
    claim_type == 1 || claim_type == 3 || claim_type == 6
}

/// What the grace period says to an OPEN: a reclaim needs the period to last and
/// the client not to be done, and any other OPEN of a client that is not done has
/// to wait for its end.
pub open spec fn grace_verdict(claim_type: u32, in_grace: bool, complete: bool) -> Option<
    Nfs4Status,
> {
    if is_reclaim(claim_type) {
        if !in_grace || complete {
            Some(Nfs4Status::NoGrace)
        } else {
            None
        }
    } else if in_grace && !complete {
        Some(Nfs4Status::Grace)
    } else {
        None
    }
}

/// Why the grace period stands against an OPEN, if it does.
pub fn grace_refusal(claim_type: u32, in_grace: bool, complete: bool) -> (r: Option<Nfs4Status>)
    ensures
        r == grace_verdict(claim_type, in_grace, complete),
{
    match claim_type {
        1 | 3 | 6 => if !in_grace || complete {
            Some(Nfs4Status::NoGrace)
        } else {
            None
        },
        _ => if in_grace && !complete {
            Some(Nfs4Status::Grace)
        } else {
            None
        },
    }
}

/// Law: at any moment a client can either reclaim or open afresh, and never both.
pub proof fn reclaiming_and_opening_exclude_each_other(
    reclaim: u32,
    other: u32,
    in_grace: bool,
    complete: bool,
)
    requires
        is_reclaim(reclaim),
        !is_reclaim(other),
    ensures
        (grace_verdict(reclaim, in_grace, complete) is None) != (grace_verdict(
            other,
            in_grace,
            complete,
        ) is None),
{
}

} // verus!
