//! A stored HTTP response: status, headers and body as plain values.
//!
//! The idempotency store must replay a response byte for byte, so the
//! model keeps the full triple. Header values may be arbitrary bytes and
//! a header name may repeat, hence an ordered list of (name, bytes) pairs.

use vstd::prelude::*;

verus! {

/// One response header.
#[derive(Debug)]
pub struct HeaderPairRecord {
    pub name: String,
    pub value: Vec<u8>,
}

/// Mathematical view of a header pair.
pub struct HeaderPairV {
    pub name: Seq<char>,
    pub value: Seq<u8>,
}

impl View for HeaderPairRecord {
    type V = HeaderPairV;

    open spec fn view(&self) -> HeaderPairV {
        HeaderPairV { name: self.name@, value: self.value@ }
    }
}

/// A full response, exactly as the idempotency store persists and
/// replays it.
#[derive(Debug)]
pub struct SavedResponse {
    pub status_code: u16,
    pub headers: Vec<HeaderPairRecord>,
    pub body: Vec<u8>,
}

/// Mathematical view of a response.
pub struct SavedResponseV {
    pub status_code: u16,
    pub headers: Seq<HeaderPairV>,
    pub body: Seq<u8>,
}

impl View for SavedResponse {
    type V = SavedResponseV;

    open spec fn view(&self) -> SavedResponseV {
        SavedResponseV {
            status_code: self.status_code,
            headers: self.headers@.map_values(|h: HeaderPairRecord| h@),
            body: self.body@,
        }
    }
}

/// Byte-for-byte copy of a byte buffer.
pub fn clone_bytes(v: &Vec<u8>) -> (r: Vec<u8>)
    ensures
        r@ == v@,
{
    let mut r: Vec<u8> = Vec::new();
    let mut i: usize = 0;
    while i < v.len()
        invariant
            i <= v@.len(),
            r@ == v@.subrange(0, i as int),
        decreases v@.len() - i,
    {
        r.push(v[i]);
        i += 1;
        proof {
            assert(r@ =~= v@.subrange(0, i as int));
        }
    }
    proof {
        assert(r@ =~= v@);
    }
    r
}

/// Copy of a header list that keeps names, values and their order.
pub fn clone_headers(headers: &Vec<HeaderPairRecord>) -> (r: Vec<HeaderPairRecord>)
    ensures
        r@.map_values(|h: HeaderPairRecord| h@) == headers@.map_values(
            |h: HeaderPairRecord| h@,
        ),
{
    let mut r: Vec<HeaderPairRecord> = Vec::new();
    let mut i: usize = 0;
    while i < headers.len()
        invariant
            i <= headers@.len(),
            r@.len() == i,
            forall|j: int| 0 <= j < i ==> r@[j]@ == headers@[j]@,
        decreases headers@.len() - i,
    {
        let pair = HeaderPairRecord {
            name: headers[i].name.clone(),
            value: clone_bytes(&headers[i].value),
        };
        r.push(pair);
        i += 1;
    }
    proof {
        assert(r@.map_values(|h: HeaderPairRecord| h@) =~= headers@.map_values(
            |h: HeaderPairRecord| h@,
        ));
    }
    r
}

impl SavedResponse {
    /// Copy of the response with the same view.
    pub fn duplicate(&self) -> (r: SavedResponse)
        ensures
            r@ == self@,
    {
        let r = SavedResponse {
            status_code: self.status_code,
            headers: clone_headers(&self.headers),
            body: clone_bytes(&self.body),
        };
        proof {
            assert(r@ == self@);
        }
        r
    }
}

} // verus!
