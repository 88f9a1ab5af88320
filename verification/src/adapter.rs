//! The adapters behind one interface, chosen by value where they are called.

use vstd::prelude::*;
use crate::document::{Document, DocumentView};
use crate::error::DecodeError;
use crate::frame::framed;
use crate::layout::{bincode_layout, is_cut_of, layout_len, lemma_layout_len};
use crate::rustc_and_bincode;
use crate::serde_and_bincode;

verus! {

/// The adapters that this library holds.
#[derive(Debug, Clone, Copy, PartialEq, Eq, Structural)]
pub enum Adapter {
    SerdeAndBincode,
    RustcAndBincode,
}

impl Adapter {
    /// The line under which the sizes of this adapter are reported.
    pub open spec fn label_spec(self) -> Seq<char> {
        match self {
            Adapter::SerdeAndBincode => "Using Bincode format with serde"@,
            Adapter::RustcAndBincode => "Using Bincode format with rustc-serialize"@,
        }
    }

    /// The line under which the sizes of this adapter are reported.
    pub fn label(&self) -> (s: &'static str)
        ensures
            s@ == self.label_spec(),
    {
        match self {
            Adapter::SerdeAndBincode => "Using Bincode format with serde",
            Adapter::RustcAndBincode => "Using Bincode format with rustc-serialize",
        }
    }

    /// Encodes `v` with this adapter. Both adapters write the same layout.
    pub fn encode(&self, v: &Document) -> (bytes: Vec<u8>)
        requires
            layout_len(v@) <= usize::MAX,
        ensures
            bytes@ == bincode_layout(v@),
    {
        match self {
            Adapter::SerdeAndBincode => serde_and_bincode::encode(v),
            Adapter::RustcAndBincode => rustc_and_bincode::encode(v),
        }
    }

    /// Decodes a document with this adapter.
    pub fn decode(&self, bytes: &[u8]) -> (r: Result<Document, DecodeError>)
        ensures
            forall|d: DocumentView|
                bytes@ == #[trigger] bincode_layout(d) ==> (r matches Ok(doc) && doc@ == d),
            r matches Ok(doc) ==> bincode_layout(doc@).is_prefix_of(bytes@),
            !framed(bytes@) ==> r is Err,
            forall|d: DocumentView|
                bincode_layout(d).len() <= u64::MAX && is_cut_of(
                    bytes@,
                    #[trigger] bincode_layout(d),
                ) ==> r is Err,
    {
        match self {
            Adapter::SerdeAndBincode => serde_and_bincode::decode(bytes),
            Adapter::RustcAndBincode => rustc_and_bincode::decode(bytes),
        }
    }

    /// Encodes `v` and decodes the bytes again: decoding what this adapter
    /// wrote cannot fail, and it gives `v` back, field by field.
    pub fn round_trip(&self, v: &Document) -> (doc: Document)
        requires
            layout_len(v@) <= usize::MAX,
        ensures
            doc@ == v@,
            doc@.content.len() == v@.content.len(),
    {
        let bytes = self.encode(v);
        self.decode(bytes.as_slice()).unwrap()
    }

    /// The numbers of bytes to which this adapter encodes `small` and `big`.
    pub fn sizes(&self, small: &Document, big: &Document) -> (s: (usize, usize))
        requires
            layout_len(small@) <= usize::MAX,
            layout_len(big@) <= usize::MAX,
        ensures
            s.0 == layout_len(small@),
            s.1 == layout_len(big@),
    {
        let a = self.encode(small);
        let b = self.encode(big);
        proof {
            lemma_layout_len(small@);
            lemma_layout_len(big@);
        }
        (a.len(), b.len())
    }
}

} // verus!
