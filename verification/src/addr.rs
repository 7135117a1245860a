use vstd::prelude::*;

verus! {

/// A destination address as carried by a handshake: an IPv4 literal,
/// a domain name, or an IPv6 literal.
pub enum Address {
    V4(Vec<u8>),
    Domain(Vec<u8>),
    V6(Vec<u8>),
}

/// The mathematical value of an `Address`.
pub enum AddrV {
    V4(Seq<u8>),
    Domain(Seq<u8>),
    V6(Seq<u8>),
}

pub open spec fn addr_view(a: Address) -> AddrV {
    match a {
        Address::V4(b) => AddrV::V4(b@),
        Address::Domain(b) => AddrV::Domain(b@),
        Address::V6(b) => AddrV::V6(b@),
    }
}

/// An address is well formed when its bytes have the length its kind demands.
pub open spec fn addr_wf(a: AddrV) -> bool {
    match a {
        AddrV::V4(b) => b.len() == 4,
        AddrV::Domain(b) => 1 <= b.len() <= 255,
        AddrV::V6(b) => b.len() == 16,
    }
}

/// Deep copy of an address, needed because the session keeps the target
/// while also handing it to the connector action.
pub fn clone_address(a: &Address) -> (r: Address)
    ensures
        addr_view(r) == addr_view(*a),
{
    match a {
        Address::V4(b) => Address::V4(clone_bytes(b)),
        Address::Domain(b) => Address::Domain(clone_bytes(b)),
        Address::V6(b) => Address::V6(clone_bytes(b)),
    }
}

/// Byte-for-byte copy of a buffer.
pub fn clone_bytes(src: &Vec<u8>) -> (r: Vec<u8>)
    ensures
        r@ == src@,
{
    let mut out: Vec<u8> = Vec::new();
    let mut i: usize = 0;
    while i < src.len()
        invariant
            i <= src.len(),
            out@ == src@.take(i as int),
        decreases src.len() - i,
    {
        out.push(src[i]);
        i = i + 1;
        proof {
            assert(out@ =~= src@.take(i as int));
        }
    }
    proof {
        assert(src@.take(src@.len() as int) =~= src@);
    }
    out
}

} // verus!
