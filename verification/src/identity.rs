//! Content digests of chunks and the stable identifiers of stored points.

use vstd::prelude::*;
use vstd::utf8::encode_utf8;
use sha2::Digest;
use crate::domain::{AssetId, Scope};
use crate::text::{concat, decimal, decimal_string};

verus! {

/// The SHA-256 digest of a byte sequence.
pub uninterp spec fn sha256_of(data: Seq<u8>) -> Seq<u8>;

/// The name-based (version 5) UUID of `name` in the OID namespace, in its
/// hyphenated lowercase text form.
pub uninterp spec fn uuid_v5_oid_text(name: Seq<u8>) -> Seq<char>;

/// `sha2::Sha256::digest`: the 32-byte SHA-256 digest of `data`.
#[verifier::external_body]
fn sha256(data: &[u8]) -> (r: Vec<u8>)
    ensures
        r@ == sha256_of(data@),
        r@.len() == 32,
{
    sha2::Sha256::digest(data).to_vec()
}

/// `uuid::Uuid::new_v5` in `Uuid::NAMESPACE_OID`, written out with `to_string`
/// (uuid's `Display`: the hyphenated lowercase form, whose version digit is 5).
#[verifier::external_body]
fn uuid_v5_oid(name: &[u8]) -> (r: String)
    ensures
        r@ == uuid_v5_oid_text(name@),
        is_uuid_text(r@),
        r@[14] == '5',
{
    uuid::Uuid::new_v5(&uuid::Uuid::NAMESPACE_OID, name).to_string()
}

/// A lowercase hexadecimal digit.
pub open spec fn is_lower_hex(c: char) -> bool {
    ('0' <= c && c <= '9') || ('a' <= c && c <= 'f')
}

/// The hyphenated text form of a UUID: 36 characters, `-` at positions 8, 13,
/// 18 and 23, lowercase hexadecimal digits everywhere else.
pub open spec fn is_uuid_text(s: Seq<char>) -> bool {
    &&& s.len() == 36
    &&& forall|i: int|
        #![trigger s[i]]
        0 <= i < 36 ==> if i == 8 || i == 13 || i == 18 || i == 23 {
            s[i] == '-'
        } else {
            is_lower_hex(s[i])
        }
}

pub open spec fn hex_digit(d: nat) -> char {
    if d < 10 {
        crate::text::digit_char(d)
    } else if d == 10 {
        'a'
    } else if d == 11 {
        'b'
    } else if d == 12 {
        'c'
    } else if d == 13 {
        'd'
    } else if d == 14 {
        'e'
    } else {
        'f'
    }
}

/// Lowercase hexadecimal text of a byte sequence, two digits per byte.
pub open spec fn hex_lower(data: Seq<u8>) -> Seq<char>
    decreases data.len(),
{
    if data.len() == 0 {
        Seq::empty()
    } else {
        seq![hex_digit(data[0] as nat / 16), hex_digit(data[0] as nat % 16)] + hex_lower(
            data.drop_first(),
        )
    }
}

fn hex_char(d: u8) -> (c: char)
    requires
        d < 16,
    ensures
        c == hex_digit(d as nat),
{
    if d == 0 { '0' }
    else if d == 1 { '1' }
    else if d == 2 { '2' }
    else if d == 3 { '3' }
    else if d == 4 { '4' }
    else if d == 5 { '5' }
    else if d == 6 { '6' }
    else if d == 7 { '7' }
    else if d == 8 { '8' }
    else if d == 9 { '9' }
    else if d == 10 { 'a' }
    else if d == 11 { 'b' }
    else if d == 12 { 'c' }
    else if d == 13 { 'd' }
    else if d == 14 { 'e' }
    else { 'f' }
}

/// Each byte as two lowercase hexadecimal digits, high nibble first.
fn hex_encode(data: &[u8]) -> (r: String)
    ensures
        r@ == hex_lower(data@),
{
    let mut r = String::new();
    let mut i: usize = 0;
    assert(data@.skip(0) =~= data@);
    while i < data.len()
        invariant
            i <= data@.len(),
            r@ + hex_lower(data@.skip(i as int)) == hex_lower(data@),
        decreases data@.len() - i,
    {
        let b = data[i];
        let ghost rest = data@.skip(i as int);
        assert(rest[0] == b);
        assert(rest.drop_first() =~= data@.skip(i + 1));
        crate::text::push_char(&mut r, hex_char(b / 16));
        crate::text::push_char(&mut r, hex_char(b % 16));
        assert(hex_lower(rest) == seq![hex_digit(b as nat / 16), hex_digit(b as nat % 16)] + hex_lower(
            data@.skip(i + 1),
        ));
        i += 1;
    }
    assert(data@.skip(data@.len() as int) =~= Seq::<u8>::empty());
    assert(r@ + Seq::<char>::empty() =~= r@);
    r
}

proof fn lemma_hex_digit(d: nat)
    ensures
        is_lower_hex(hex_digit(d)),
{
}

/// Hex text has two digits per byte, all lowercase hexadecimal.
pub proof fn lemma_hex_lower_shape(data: Seq<u8>)
    ensures
        hex_lower(data).len() == 2 * data.len(),
        forall|i: int| 0 <= i < hex_lower(data).len() ==> is_lower_hex(#[trigger] hex_lower(data)[i]),
    decreases data.len(),
{
    if data.len() > 0 {
        lemma_hex_lower_shape(data.drop_first());
        lemma_hex_digit(data[0] as nat / 16);
        lemma_hex_digit(data[0] as nat % 16);
        let h = hex_lower(data);
        let t = hex_lower(data.drop_first());
        assert forall|i: int| 0 <= i < h.len() implies is_lower_hex(#[trigger] h[i]) by {
            if i >= 2 {
                assert(h[i] == t[i - 2]);
            }
        }
    }
}

/// The four little-endian bytes of a 32-bit number.
pub open spec fn le_bytes(x: u32) -> Seq<u8> {
    seq![
        (x as nat % 256) as u8,
        (x as nat / 256 % 256) as u8,
        (x as nat / 65536 % 256) as u8,
        (x as nat / 16777216) as u8,
    ]
}

/// What a chunk's digest is taken over: the tenant, namespace and asset names
/// in UTF-8, the chunk's position as four little-endian bytes, then its text.
pub open spec fn digest_input(scope: Scope, asset_id: AssetId, text: Seq<char>, chunk_index: u32) -> Seq<u8> {
    encode_utf8(scope.tenant_id.0@) + encode_utf8(scope.namespace.0@) + encode_utf8(asset_id.0@)
        + le_bytes(chunk_index) + encode_utf8(text)
}

/// The digest of a chunk: lowercase hex of the SHA-256 of its digest input.
pub open spec fn chunk_digest_text(scope: Scope, asset_id: AssetId, text: Seq<char>, chunk_index: u32) -> Seq<char> {
    hex_lower(sha256_of(digest_input(scope, asset_id, text, chunk_index)))
}

fn le_bytes_of(x: u32) -> (r: Vec<u8>)
    ensures
        r@ == le_bytes(x),
{
    let mut r: Vec<u8> = Vec::new();
    r.push((x % 256) as u8);
    r.push((x / 256 % 256) as u8);
    r.push((x / 65536 % 256) as u8);
    r.push((x / 16777216) as u8);
    assert(r@ =~= le_bytes(x));
    r
}

/// The digest of one chunk of an asset.
pub fn chunk_digest(scope: &Scope, asset_id: &AssetId, text: &str, chunk_index: u32) -> (r: String)
    ensures
        r@ == chunk_digest_text(*scope, *asset_id, text@, chunk_index),
        r@.len() == 64,
        forall|i: int| 0 <= i < 64 ==> is_lower_hex(#[trigger] r@[i]),
{
    let mut data: Vec<u8> = Vec::new();
    data.extend_from_slice(scope.tenant_id.0.as_str().as_bytes());
    data.extend_from_slice(scope.namespace.0.as_str().as_bytes());
    data.extend_from_slice(asset_id.0.as_str().as_bytes());
    let idx = le_bytes_of(chunk_index);
    data.extend_from_slice(idx.as_slice());
    data.extend_from_slice(text.as_bytes());
    assert(data@ =~= digest_input(*scope, *asset_id, text@, chunk_index));
    let hash = sha256(data.as_slice());
    proof {
        lemma_hex_lower_shape(hash@);
    }
    hex_encode(hash.as_slice())
}

/// The text a point's identifier is derived from:
/// `tenant:namespace:asset:index:digest`.
pub open spec fn point_seed(tenant: Seq<char>, namespace: Seq<char>, asset: Seq<char>, chunk_index: u32, digest: Seq<char>) -> Seq<char> {
    tenant + ":"@ + namespace + ":"@ + asset + ":"@ + decimal(chunk_index as nat) + ":"@ + digest
}

/// The identifier of the stored point of a chunk: the version 5 UUID of its
/// seed, so the same chunk always lands on the same point.
pub fn point_id(tenant: &str, namespace: &str, asset: &str, chunk_index: u32, digest: &str) -> (r: String)
    ensures
        r@ == uuid_v5_oid_text(encode_utf8(point_seed(tenant@, namespace@, asset@, chunk_index, digest@))),
        is_uuid_text(r@),
        r@[14] == '5',
{
    let a = concat(tenant, ":");
    let b = concat(a.as_str(), namespace);
    let c = concat(b.as_str(), ":");
    let d = concat(c.as_str(), asset);
    let e = concat(d.as_str(), ":");
    let idx = decimal_string(chunk_index as u64);
    let f = concat(e.as_str(), idx.as_str());
    let g = concat(f.as_str(), ":");
    let seed = concat(g.as_str(), digest);
    assert(seed@ == point_seed(tenant@, namespace@, asset@, chunk_index, digest@));
    uuid_v5_oid(seed.as_str().as_bytes())
}

} // verus!
