//! A document taken apart into integers, strings and vectors, the shape in
//! which it is handed to a codec and taken back from it.

use vstd::prelude::*;
use crate::document::{Document, DocumentView, Person, PersonView};
use crate::error::DecodeError;

verus! {

/// A document as the tuple that a codec is given: identifier, name, authors
/// as triples of identifier, name and email address, payload.
pub type DocumentParts = (u64, String, Vec<(u64, String, String)>, Vec<u8>);

/// The person that the triple `t` stands for.
pub open spec fn person_of_parts(t: (u64, String, String)) -> PersonView {
    PersonView { id: t.0, name: t.1@, email: t.2@ }
}

/// The persons that the triples `ts` stand for, in their order.
pub open spec fn people_of_parts(ts: Seq<(u64, String, String)>) -> Seq<PersonView> {
    ts.map_values(|t: (u64, String, String)| person_of_parts(t))
}

/// The document that the four parts stand for.
pub open spec fn document_of_parts(
    id: u64,
    name: Seq<char>,
    authors: Seq<(u64, String, String)>,
    content: Seq<u8>,
) -> DocumentView {
    DocumentView { id, name, authors: people_of_parts(authors), content }
}

/// The document that a codec handed back in parts, if it handed one back.
pub open spec fn outcome_view<E>(r: Result<DocumentParts, E>) -> Option<DocumentView> {
    match r {
        Ok(p) => Some(document_of_parts(p.0, p.1@, p.2@, p.3@)),
        Err(_) => None,
    }
}

/// The authors of `doc` as triples of identifier, name and email address.
pub fn author_parts(doc: &Document) -> (parts: Vec<(u64, String, String)>)
    ensures
        people_of_parts(parts@) == doc@.authors,
{
    let mut parts: Vec<(u64, String, String)> = Vec::new();
    let mut i: usize = 0;
    while i < doc.authors.len()
        invariant
            i <= doc.authors.len(),
            parts@.len() == i,
            forall|k: int| 0 <= k < i ==> person_of_parts(#[trigger] parts@[k]) == doc.authors@[k]@,
        decreases doc.authors.len() - i,
    {
        let p = &doc.authors[i];
        parts.push((p.id, p.name.clone(), p.email.clone()));
        i += 1;
    }
    assert(people_of_parts(parts@) =~= doc@.authors);
    parts
}

/// Puts a document together from its four parts.
pub fn document_from_parts(
    id: u64,
    name: String,
    authors: Vec<(u64, String, String)>,
    content: Vec<u8>,
) -> (doc: Document)
    ensures
        doc@ == document_of_parts(id, name@, authors@, content@),
{
    let mut people: Vec<Person> = Vec::new();
    let mut i: usize = 0;
    while i < authors.len()
        invariant
            i <= authors.len(),
            people@.len() == i,
            forall|k: int| 0 <= k < i ==> (#[trigger] people@[k])@ == person_of_parts(authors@[k]),
        decreases authors.len() - i,
    {
        let t = &authors[i];
        people.push(Person::new(t.0, t.1.clone(), t.2.clone()));
        i += 1;
    }
    let doc = Document { id, name, authors: people, content };
    assert(doc@.authors =~= people_of_parts(authors@));
    doc
}

/// Turns what a codec handed back into the adapter's answer: the document put
/// together from its parts, or a `DecodeError` whatever the codec's error was.
pub fn decoded<E>(raw: Result<DocumentParts, E>) -> (r: Result<Document, DecodeError>)
    ensures
        raw matches Ok(p) ==> (r matches Ok(doc) && Some(doc@) == outcome_view(raw)),
        raw is Err ==> r is Err,
{
    match raw {
        Ok(p) => Ok(document_from_parts(p.0, p.1, p.2, p.3)),
        Err(_) => Err(DecodeError),
    }
}

} // verus!
