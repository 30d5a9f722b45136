//! The wire format of cache entries. An identifier is written as the source's
//! variant index (`u32`), the year (`u16`), the month and the day; a content
//! as the byte length of its UTF-8 text (`u64`), the text, and the content
//! type's variant index (`u32`). Integers are little-endian.
use vstd::bytes::*;
use vstd::prelude::*;
use vstd::slice::slice_subrange;
use vstd::utf8::*;

use crate::types::{PuzzleId, PuzzlesContent, PuzzlesContentType, PuzzlesContentView, SourceId};

verus! {

pub open spec fn source_index(s: SourceId) -> u32 {
    match s {
        SourceId::LaTimes => 0,
    }
}

pub open spec fn content_type_index(t: PuzzlesContentType) -> u32 {
    match t {
        PuzzlesContentType::Xml => 0,
    }
}

/// The cache key of an identifier.
pub open spec fn spec_encode_id(id: PuzzleId) -> Seq<u8> {
    spec_u32_to_le_bytes(source_index(id.source_id)) + spec_u16_to_le_bytes(id.date.year) + seq![
        id.date.month,
        id.date.day,
    ]
}

/// The cached form of a content.
pub open spec fn spec_encode_content(c: PuzzlesContentView) -> Seq<u8> {
    let text = encode_utf8(c.content);
    spec_u64_to_le_bytes(text.len() as u64) + text + spec_u32_to_le_bytes(
        content_type_index(c.content_type),
    )
}

/// The content that `b` encodes, if it is a well-formed cached entry.
pub open spec fn spec_decode_content(b: Seq<u8>) -> Option<PuzzlesContentView> {
    if b.len() < 12 {
        None
    } else {
        let n = spec_u64_from_le_bytes(b.take(8));
        if b.len() != 12 + n {
            None
        } else {
            let text = b.subrange(8, 8 + n);
            let tag = spec_u32_from_le_bytes(b.subrange(8 + n, 12 + n));
            if tag != 0 || !valid_utf8(text) {
                None
            } else {
                Some(PuzzlesContentView { content: decode_utf8(text), content_type: PuzzlesContentType::Xml })
            }
        }
    }
}

/// Relies on `String::from_utf8`, which accepts exactly the valid UTF-8 byte
/// sequences and holds the characters they encode.
#[verifier::external_body]
fn string_from_utf8(bytes: Vec<u8>) -> (r: Option<String>)
    ensures
        r is Some <==> valid_utf8(bytes@),
        r matches Some(s) ==> s@ == decode_utf8(bytes@),
{
    String::from_utf8(bytes).ok()
}

/// The cache key of an identifier.
pub fn encode_id(id: &PuzzleId) -> (r: Vec<u8>)
    ensures
        r@ == spec_encode_id(*id),
{
    let mut out = match id.source_id {
        SourceId::LaTimes => u32_to_le_bytes(0),
    };
    let year = u16_to_le_bytes(id.date.year);
    out.extend_from_slice(year.as_slice());
    out.push(id.date.month);
    out.push(id.date.day);
    proof {
        assert(out@ =~= spec_encode_id(*id));
    }
    out
}

/// The cached form of a content.
pub fn encode_content(c: &PuzzlesContent) -> (r: Vec<u8>)
    ensures
        r@ == spec_encode_content(c@),
{
    let text = c.content.as_str().as_bytes();
    let mut out = u64_to_le_bytes(text.len() as u64);
    out.extend_from_slice(text);
    let tag = match c.content_type {
        PuzzlesContentType::Xml => u32_to_le_bytes(0),
    };
    out.extend_from_slice(tag.as_slice());
    proof {
        assert(out@ =~= spec_encode_content(c@));
    }
    out
}

/// Reads a cached entry back; `None` where the bytes are not one.
pub fn decode_content(b: &[u8]) -> (r: Option<PuzzlesContent>)
    ensures
        match spec_decode_content(b@) {
            Some(v) => r matches Some(c) && c@ == v,
            None => r is None,
        },
{
    let len = b.len();
    if len < 12 {
        return None;
    }
    let n = u64_from_le_bytes(slice_subrange(b, 0, 8));
    proof {
        assert(b@.subrange(0, 8) =~= b@.take(8));
    }
    if (len - 12) as u64 != n {
        return None;
    }
    let end = len - 4;
    let tag = u32_from_le_bytes(slice_subrange(b, end, len));
    if tag != 0 {
        return None;
    }
    let mut text: Vec<u8> = Vec::new();
    text.extend_from_slice(slice_subrange(b, 8, end));
    proof {
        assert(text@ =~= b@.subrange(8, 8 + n));
    }
    match string_from_utf8(text) {
        Some(s) => Some(PuzzlesContent { content: s, content_type: PuzzlesContentType::Xml }),
        None => None,
    }
}

/// Distinct identifiers have distinct cache keys.
pub proof fn lemma_encode_id_injective(a: PuzzleId, b: PuzzleId)
    requires
        spec_encode_id(a) == spec_encode_id(b),
    ensures
        a == b,
{
    lemma_auto_spec_u16_to_from_le_bytes();
    lemma_auto_spec_u32_to_from_le_bytes();
    let ka = spec_encode_id(a);
    let kb = spec_encode_id(b);
    assert(ka.subrange(4, 6) =~= spec_u16_to_le_bytes(a.date.year));
    assert(kb.subrange(4, 6) =~= spec_u16_to_le_bytes(b.date.year));
    assert(ka[6] == a.date.month && kb[6] == b.date.month);
    assert(ka[7] == a.date.day && kb[7] == b.date.day);
    assert(a.source_id == b.source_id);
}

/// Reading back what was written gives the same content.
pub proof fn lemma_content_round_trip(c: PuzzlesContentView)
    requires
        encode_utf8(c.content).len() <= u64::MAX,
    ensures
        spec_decode_content(spec_encode_content(c)) == Some(c),
{
    broadcast use encode_utf8_valid_utf8, encode_utf8_decode_utf8;

    lemma_auto_spec_u64_to_from_le_bytes();
    lemma_auto_spec_u32_to_from_le_bytes();
    let text = encode_utf8(c.content);
    let b = spec_encode_content(c);
    let n = text.len() as int;
    assert(b.take(8) =~= spec_u64_to_le_bytes(n as u64));
    assert(b.subrange(8, 8 + n) =~= text);
    assert(b.subrange(8 + n, 12 + n) =~= spec_u32_to_le_bytes(0));
    assert(c.content_type == PuzzlesContentType::Xml);
}

} // verus!
