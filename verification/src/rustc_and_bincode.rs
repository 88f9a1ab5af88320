//! The adapter that writes bincode through rustc-serialize.

use vstd::prelude::*;
use crate::document::{Document, DocumentView};
use crate::error::DecodeError;
use crate::frame::{framed, is_framed};
use crate::layout::{bincode_layout, is_cut_of, layout_len, lemma_no_layout_in_a_cut};
use crate::parts::{
    author_parts, decoded, document_of_parts, outcome_view, DocumentParts,
};

verus! {

/// `bincode::rustc_serialize::EncodingError`, carried through unread.
#[verifier::external_type_specification]
#[verifier::external_body]
pub struct ExEncodingError(bincode::rustc_serialize::EncodingError);

/// `bincode::rustc_serialize::DecodingError`, carried through unread.
#[verifier::external_type_specification]
#[verifier::external_body]
pub struct ExDecodingError(bincode::rustc_serialize::DecodingError);

/// Calls `bincode::rustc_serialize::encode`, with no size limit, on the four
/// parts of a document as one tuple. Taken on trust: it returns bytes, and they
/// are the layout of that document, which has to fit in memory. (Its errors
/// are a writer's and the size limit's; here it writes to a vector and has no
/// limit.)
#[verifier::external_body]
fn encode_parts(
    id: u64,
    name: &String,
    authors: &Vec<(u64, String, String)>,
    content: &Vec<u8>,
) -> (r: Result<Vec<u8>, bincode::rustc_serialize::EncodingError>)
    requires
        layout_len(document_of_parts(id, name@, authors@, content@)) <= usize::MAX,
    ensures
        r is Ok,
        r matches Ok(bytes) ==> bytes@ == bincode_layout(
            document_of_parts(id, name@, authors@, content@),
        ),
{
    bincode::rustc_serialize::encode(&(id, name, authors, content), bincode::SizeLimit::Infinite)
}

/// Calls `bincode::rustc_serialize::decode` for the four parts of a document
/// as one tuple, on bytes with the frame of a document. (bincode takes each
/// count for a `usize`; in the frame every count is at most the number of
/// bytes.) Taken on trust: from the layout of a document it returns the parts
/// of that document, and parts that it returns are those of a document whose
/// layout the bytes start with.
#[verifier::external_body]
fn decode_parts(bytes: &[u8]) -> (r: Result<DocumentParts, bincode::rustc_serialize::DecodingError>)
    requires
        framed(bytes@),
    ensures
        forall|d: DocumentView| bytes@ == #[trigger] bincode_layout(d) ==> outcome_view(r) == Some(d),
        r matches Ok(p) ==> bincode_layout(document_of_parts(p.0, p.1@, p.2@, p.3@)).is_prefix_of(
            bytes@,
        ),
{
    bincode::rustc_serialize::decode(bytes)
}

/// Encodes `v`: the bytes are the bincode layout of `v`. The layout has to
/// fit in memory: `encoded_len` tells whether it does.
pub fn encode(v: &Document) -> (bytes: Vec<u8>)
    requires
        layout_len(v@) <= usize::MAX,
    ensures
        bytes@ == bincode_layout(v@),
{
    let authors = author_parts(v);
    encode_parts(v.id, &v.name, &authors, &v.content).unwrap()
}

/// Decodes a document. From the layout of a document it returns that
/// document. A document that it returns is one whose layout the bytes start
/// with, so bytes without the frame of a document, and a layout that was cut
/// short, give a `DecodeError`.
pub fn decode(bytes: &[u8]) -> (r: Result<Document, DecodeError>)
    ensures
        forall|d: DocumentView|
            bytes@ == #[trigger] bincode_layout(d) ==> (r matches Ok(doc) && doc@ == d),
        r matches Ok(doc) ==> bincode_layout(doc@).is_prefix_of(bytes@),
        !framed(bytes@) ==> r is Err,
        forall|d: DocumentView|
            bincode_layout(d).len() <= u64::MAX && is_cut_of(bytes@, #[trigger] bincode_layout(d))
                ==> r is Err,
{
    if !is_framed(bytes) {
        return Err(DecodeError);
    }
    let r = decoded(decode_parts(bytes));
    assert forall|d: DocumentView|
        bincode_layout(d).len() <= u64::MAX && is_cut_of(
            bytes@,
            #[trigger] bincode_layout(d),
        ) implies r is Err by {
        if let Ok(doc) = r {
            lemma_no_layout_in_a_cut(doc@, d, bytes@);
        }
    }
    r
}

} // verus!
