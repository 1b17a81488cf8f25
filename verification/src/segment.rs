//! A piece of a reply on its way to the socket.
use vstd::prelude::*;

use bytes::Bytes;

use crate::octets;
use crate::octets::bytes_as_slice;

verus! {

/// One contiguous run of reply octets. A reply is an ordered list of them, so
/// that a READ payload can travel as it came from the I/O layer.
#[derive(Debug)]
pub struct Segment {
    mem: Bytes,
}

impl View for Segment {
    type V = Seq<u8>;

    closed spec fn view(&self) -> Seq<u8> {
        octets::bytes_of(self.mem)
    }
}

impl Segment {
    pub fn new(mem: Bytes) -> (s: Segment)
        ensures
            s@ == octets::bytes_of(mem),
    {
        Segment { mem }
    }

    pub fn as_mem(&self) -> (r: &[u8])
        ensures
            r@ == self@,
    {
        bytes_as_slice(&self.mem)
    }

    pub fn into_mem(self) -> (b: Bytes)
        ensures
            octets::bytes_of(b) == self@,
    {
        self.mem
    }

    pub fn len(&self) -> (n: usize)
        ensures
            n == self@.len(),
    {
        self.as_mem().len()
    }

    pub fn is_empty(&self) -> (b: bool)
        ensures
            b == (self@.len() == 0),
    {
        self.as_mem().len() == 0
    }
}

/// The octets of a list of segments, in order.
pub open spec fn joined(segs: Seq<Segment>) -> Seq<u8>
    decreases segs.len(),
{
    if segs.len() == 0 {
        Seq::empty()
    } else {
        joined(segs.drop_last()) + segs.last()@
    }
}

/// Law: the octets of a list of segments are those of its first part and then those of
/// its second; one segment alone is its own octets, and no segment none.
pub proof fn segments_are_joined_in_order(a: Seq<Segment>, b: Seq<Segment>)
    ensures
        joined(a + b) == joined(a) + joined(b),
        b.len() == 1 ==> joined(b) == b[0]@,
        b.len() == 0 ==> joined(b).len() == 0,
    decreases b.len(),
{
    if b.len() == 0 {
        assert(a + b =~= a);
        assert(joined(a) + joined(b) =~= joined(a));
    } else {
        segments_are_joined_in_order(a, b.drop_last());
        assert((a + b).drop_last() =~= a + b.drop_last());
        assert(joined(a + b) =~= joined(a) + joined(b));
        if b.len() == 1 {
            assert(joined(b.drop_last()).len() == 0);
            assert(joined(b) =~= b[0]@);
        }
    }
}

} // verus!
