//! Canonical signatures and the four-byte selectors derived from them.

use byteorder::{BigEndian, ByteOrder};
use vstd::prelude::*;
use vstd::string::StringExecFns;
use vstd::utf8::encode_utf8;

use crate::types::{canonical_list, canonical_types, ParamType};

verus! {

/// The Keccak-256 digest of a byte sequence.
pub uninterp spec fn keccak256(data: Seq<u8>) -> Seq<u8>;

/// The unsigned 32-bit integer that the first four bytes hold in big-endian order.
pub open spec fn be_u32(bytes: Seq<u8>) -> u32
    recommends
        bytes.len() >= 4,
{
    (bytes[0] as int * 0x100_0000 + bytes[1] as int * 0x1_0000 + bytes[2] as int * 0x100
        + bytes[3] as int) as u32
}

/// The four bytes that hold `value` in big-endian order.
pub open spec fn be_bytes(value: u32) -> Seq<u8> {
    seq![
        (value / 0x100_0000) as u8,
        (value / 0x1_0000 % 0x100) as u8,
        (value / 0x100 % 0x100) as u8,
        (value % 0x100) as u8,
    ]
}

/// The canonical signature of a callable item: its name, then the canonical
/// names of its argument types, comma-joined in parentheses.
pub open spec fn signature_text(name: Seq<char>, types: Seq<ParamType>) -> Seq<char> {
    name + seq!['('] + canonical_list(types) + seq![')']
}

/// The selector that a canonical signature hashes to.
pub open spec fn text_selector(text: Seq<char>) -> u32 {
    be_u32(keccak256(encode_utf8(text)))
}

/// The selector of the item with the given name and argument types.
pub open spec fn selector_of(name: Seq<char>, types: Seq<ParamType>) -> u32 {
    text_selector(signature_text(name, types))
}

/// Calls `tiny_keccak::keccak256`, which hashes the whole of `data` with
/// Keccak-256 and returns the 32-byte digest. The digest is not computed
/// here: the contract only gives it its name.
#[verifier::external_body]
fn keccak256_digest(data: &[u8]) -> (digest: [u8; 32])
    ensures
        digest@ == keccak256(data@),
{
    tiny_keccak::keccak256(data)
}

/// Calls `byteorder::BigEndian::read_u32`, which reads the first four bytes
/// of `buf` as a big-endian integer and panics on a shorter buffer.
#[verifier::external_body]
fn read_be_u32(buf: &[u8]) -> (value: u32)
    requires
        buf@.len() >= 4,
    ensures
        value == be_u32(buf@),
{
    BigEndian::read_u32(buf)
}

/// Builds the canonical signature of an item.
pub fn canonical_signature(name: &str, types: &Vec<ParamType>) -> (text: String)
    ensures
        text@ == signature_text(name@, types@),
{
    proof {
        reveal_strlit("(");
        reveal_strlit(")");
        assert("("@ =~= seq!['(']);
        assert(")"@ =~= seq![')']);
    }
    let mut text = String::from_str(name);
    text.append("(");
    let list = canonical_types(types);
    text.append(list.as_str());
    text.append(")");
    text
}

/// Takes the selector out of a digest: its first four bytes, big-endian.
pub fn selector_from_digest(digest: &[u8; 32]) -> (selector: u32)
    ensures
        selector == be_u32(digest@),
{
    read_be_u32(digest.as_slice())
}

/// Hashes a canonical signature to its selector.
pub fn selector_hash(text: &str) -> (selector: u32)
    ensures
        selector == text_selector(text@),
{
    let digest = keccak256_digest(text.as_bytes());
    selector_from_digest(&digest)
}

/// Computes the selector of the item with the given name and argument types.
pub fn selector(name: &str, types: &Vec<ParamType>) -> (selector: u32)
    ensures
        selector == selector_of(name@, types@),
{
    let text = canonical_signature(name, types);
    selector_hash(text.as_str())
}

/// Writes a selector as four bytes in big-endian order.
pub fn selector_bytes(selector: u32) -> (bytes: [u8; 4])
    ensures
        bytes@ == be_bytes(selector),
{
    let b0: u8 = (selector >> 24) as u8;
    let b1: u8 = ((selector >> 16) & 0xff) as u8;
    let b2: u8 = ((selector >> 8) & 0xff) as u8;
    let b3: u8 = (selector & 0xff) as u8;
    assert(selector >> 24 == selector / 0x100_0000 && (selector >> 24) < 0x100) by (bit_vector);
    assert((selector >> 16) & 0xff == selector / 0x1_0000 % 0x100) by (bit_vector);
    assert((selector >> 8) & 0xff == selector / 0x100 % 0x100) by (bit_vector);
    assert(selector & 0xff == selector % 0x100) by (bit_vector);
    let bytes = [b0, b1, b2, b3];
    assert(bytes@ =~= be_bytes(selector));
    bytes
}

/// Reading back the bytes of a selector gives the selector.
pub proof fn lemma_be_round_trip(value: u32)
    ensures
        be_u32(be_bytes(value)) == value,
{
    let b = be_bytes(value);
    assert(b[0] as int * 0x100_0000 + b[1] as int * 0x1_0000 + b[2] as int * 0x100 + b[3] as int
        == value) by {
        assert(b[0] == value / 0x100_0000);
        assert(b[1] == value / 0x1_0000 % 0x100);
        assert(b[2] == value / 0x100 % 0x100);
        assert(b[3] == value % 0x100);
    }
}

} // verus!
