use crate::key::Key;
use crate::listing::{Listing, ListingStatus};
use vstd::bytes::{
    lemma_auto_spec_u64_to_from_le_bytes, spec_u64_from_le_bytes, spec_u64_to_le_bytes,
    u64_from_le_bytes, u64_to_le_bytes,
};
use vstd::prelude::*;
use vstd::slice::slice_subrange;

verus! {

/// The length of the record of a listing: two identifiers of 32 bytes, the
/// price and the two times in 8 bytes each, and one byte for the status.
pub const RECORD_LEN: usize = 89;

/// The byte that stands for a status.
pub open spec fn status_code(status: ListingStatus) -> u8 {
    match status {
        ListingStatus::Active => 0,
        ListingStatus::Cancelled => 1,
        ListingStatus::Sold => 2,
    }
}

/// The unsigned number with the same 64 bits as `x` in two's complement.
pub open spec fn unsigned(x: i64) -> u64 {
    if x >= 0 {
        x as u64
    } else {
        (x + 0x1_0000_0000_0000_0000) as u64
    }
}

/// The record of a listing: the seller, the asset, the price, the time of
/// creation, the deadline and the status, in this order, every number with
/// its lowest byte first.
pub open spec fn record(l: Listing) -> Seq<u8> {
    l.seller.bytes() + l.asset.bytes() + spec_u64_to_le_bytes(l.price) + spec_u64_to_le_bytes(
        unsigned(l.created_at),
    ) + spec_u64_to_le_bytes(unsigned(l.expires_at)) + seq![status_code(l.status)]
}

/// The listing that `bytes` are the record of, if they are the record of
/// one.
pub open spec fn parsed(bytes: Seq<u8>) -> Option<Listing> {
    if exists|l: Listing| record(l) == bytes {
        Some(choose|l: Listing| record(l) == bytes)
    } else {
        None
    }
}

/// Where each field lies in a record.
pub proof fn lemma_record_layout(l: Listing)
    ensures
        record(l).len() == RECORD_LEN,
        record(l).subrange(0, 32) == l.seller.bytes(),
        record(l).subrange(32, 64) == l.asset.bytes(),
        record(l).subrange(64, 72) == spec_u64_to_le_bytes(l.price),
        record(l).subrange(72, 80) == spec_u64_to_le_bytes(unsigned(l.created_at)),
        record(l).subrange(80, 88) == spec_u64_to_le_bytes(unsigned(l.expires_at)),
        record(l)[88] == status_code(l.status),
{
    lemma_auto_spec_u64_to_from_le_bytes();
    assert(l.seller.bytes().len() == 32);
    assert(l.asset.bytes().len() == 32);
    assert(record(l).subrange(0, 32) =~= l.seller.bytes());
    assert(record(l).subrange(32, 64) =~= l.asset.bytes());
    assert(record(l).subrange(64, 72) =~= spec_u64_to_le_bytes(l.price));
    assert(record(l).subrange(72, 80) =~= spec_u64_to_le_bytes(unsigned(l.created_at)));
    assert(record(l).subrange(80, 88) =~= spec_u64_to_le_bytes(unsigned(l.expires_at)));
}

/// Two listings with one record are one listing.
pub proof fn lemma_record_injective(a: Listing, b: Listing)
    requires
        record(a) == record(b),
    ensures
        a == b,
{
    lemma_record_layout(a);
    lemma_record_layout(b);
    lemma_auto_spec_u64_to_from_le_bytes();
    assert(a.seller.0 =~= b.seller.0);
    assert(a.asset.0 =~= b.asset.0);
    assert(a.price == spec_u64_from_le_bytes(spec_u64_to_le_bytes(a.price)));
    assert(unsigned(a.created_at) == spec_u64_from_le_bytes(
        spec_u64_to_le_bytes(unsigned(a.created_at)),
    ));
    assert(unsigned(a.expires_at) == spec_u64_from_le_bytes(
        spec_u64_to_le_bytes(unsigned(a.expires_at)),
    ));
    assert(unsigned(b.created_at) == spec_u64_from_le_bytes(
        spec_u64_to_le_bytes(unsigned(b.created_at)),
    ));
    assert(unsigned(b.expires_at) == spec_u64_from_le_bytes(
        spec_u64_to_le_bytes(unsigned(b.expires_at)),
    ));
}

/// A record read back gives the listing it was written from.
pub proof fn lemma_parsed_record(l: Listing)
    ensures
        parsed(record(l)) == Some(l),
{
    let back = choose|x: Listing| record(x) == record(l);
    lemma_record_injective(back, l);
}

fn to_unsigned(x: i64) -> (u: u64)
    ensures
        u == unsigned(x),
{
    if x >= 0 {
        x as u64
    } else {
        u64::MAX - ((-(x + 1)) as u64)
    }
}

fn to_signed(u: u64) -> (x: i64)
    ensures
        unsigned(x) == u,
{
    if u <= 0x7fff_ffff_ffff_ffff {
        u as i64
    } else {
        -((u64::MAX - u) as i64) - 1
    }
}

fn push_key(out: &mut Vec<u8>, key: &Key)
    ensures
        final(out)@ == old(out)@ + key.bytes(),
{
    let mut i: usize = 0;
    while i < 32
        invariant
            i <= 32,
            out@ == old(out)@ + key.bytes().take(i as int),
        decreases 32 - i,
    {
        out.push(key.0[i]);
        assert(key.bytes().take(i + 1) =~= key.bytes().take(i as int).push(key.bytes()[i as int]));
        i = i + 1;
    }
    assert(key.bytes().take(32) =~= key.bytes());
}

fn push_number(out: &mut Vec<u8>, n: u64)
    ensures
        final(out)@ == old(out)@ + spec_u64_to_le_bytes(n),
{
    let digits = u64_to_le_bytes(n);
    let mut i: usize = 0;
    while i < 8
        invariant
            i <= 8,
            digits@.len() == 8,
            out@ == old(out)@ + digits@.take(i as int),
        decreases 8 - i,
    {
        out.push(digits[i]);
        assert(digits@.take(i + 1) =~= digits@.take(i as int).push(digits@[i as int]));
        i = i + 1;
    }
    assert(digits@.take(8) =~= digits@);
}

fn read_key(bytes: &[u8], start: usize) -> (key: Key)
    requires
        start + 32 <= bytes@.len(),
    ensures
        key.bytes() == bytes@.subrange(start as int, start + 32),
{
    let mut raw = [0u8; 32];
    let n = bytes.len();
    let mut i: usize = 0;
    while i < 32
        invariant
            i <= 32,
            n == bytes@.len(),
            start + 32 <= n,
            forall|j: int| 0 <= j < i ==> raw@[j] == bytes@[start + j],
        decreases 32 - i,
    {
        raw[i] = bytes[start + i];
        i = i + 1;
    }
    assert(raw@ =~= bytes@.subrange(start as int, start + 32));
    Key(raw)
}

/// Writes the record of a listing.
pub fn encode(l: &Listing) -> (bytes: Vec<u8>)
    ensures
        bytes@ == record(*l),
        bytes@.len() == RECORD_LEN,
{
    let mut bytes: Vec<u8> = Vec::new();
    push_key(&mut bytes, &l.seller);
    push_key(&mut bytes, &l.asset);
    push_number(&mut bytes, l.price);
    push_number(&mut bytes, to_unsigned(l.created_at));
    push_number(&mut bytes, to_unsigned(l.expires_at));
    let code: u8 = match l.status {
        ListingStatus::Active => 0,
        ListingStatus::Cancelled => 1,
        ListingStatus::Sold => 2,
    };
    bytes.push(code);
    proof {
        lemma_record_layout(*l);
        assert(bytes@ =~= record(*l));
    }
    bytes
}

/// Reads a record back. Bytes of another length, or with a status byte
/// above 2, are the record of no listing.
pub fn decode(bytes: &[u8]) -> (r: Option<Listing>)
    ensures
        r == parsed(bytes@),
        r is Some <==> bytes@.len() == RECORD_LEN && bytes@[88] <= 2,
{
    if bytes.len() != RECORD_LEN {
        proof {
            assert forall|l: Listing| record(l) != bytes@ by {
                lemma_record_layout(l);
            }
        }
        return None;
    }
    let status = match bytes[88] {
        0 => ListingStatus::Active,
        1 => ListingStatus::Cancelled,
        2 => ListingStatus::Sold,
        _ => {
            proof {
                assert forall|l: Listing| record(l) != bytes@ by {
                    lemma_record_layout(l);
                }
            }
            return None;
        },
    };
    let l = Listing {
        seller: read_key(bytes, 0),
        asset: read_key(bytes, 32),
        price: u64_from_le_bytes(slice_subrange(bytes, 64, 72)),
        created_at: to_signed(u64_from_le_bytes(slice_subrange(bytes, 72, 80))),
        expires_at: to_signed(u64_from_le_bytes(slice_subrange(bytes, 80, 88))),
        status,
    };
    proof {
        lemma_auto_spec_u64_to_from_le_bytes();
        lemma_record_layout(l);
        assert(record(l) =~= bytes@.subrange(0, 32) + bytes@.subrange(32, 64) + bytes@.subrange(
            64,
            72,
        ) + bytes@.subrange(72, 80) + bytes@.subrange(80, 88) + seq![bytes@[88]]);
        assert(record(l) =~= bytes@);
        lemma_record_injective(choose|x: Listing| record(x) == bytes@, l);
    }
    Some(l)
}

} // verus!
