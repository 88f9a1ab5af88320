//! The document shape that every adapter encodes and decodes.

use vstd::prelude::*;

verus! {

/// An author of a document.
#[derive(Debug, Clone, PartialEq, Eq)]
pub struct Person {
    pub id: u64,
    pub name: String,
    pub email: String,
}

/// A named byte payload with its authors.
#[derive(Debug, Clone, PartialEq, Eq)]
pub struct Document {
    pub id: u64,
    pub name: String,
    pub authors: Vec<Person>,
    pub content: Vec<u8>,
}

/// The mathematical value of a `Person`.
pub ghost struct PersonView {
    pub id: u64,
    pub name: Seq<char>,
    pub email: Seq<char>,
}

/// The mathematical value of a `Document`.
pub ghost struct DocumentView {
    pub id: u64,
    pub name: Seq<char>,
    pub authors: Seq<PersonView>,
    pub content: Seq<u8>,
}

impl View for Person {
    type V = PersonView;

    open spec fn view(&self) -> PersonView {
        PersonView { id: self.id, name: self.name@, email: self.email@ }
    }
}

impl View for Document {
    type V = DocumentView;

    open spec fn view(&self) -> DocumentView {
        DocumentView {
            id: self.id,
            name: self.name@,
            authors: self.authors@.map_values(|p: Person| p@),
            content: self.content@,
        }
    }
}

impl Person {
    /// Builds a person from its three fields.
    pub fn new(id: u64, name: String, email: String) -> (person: Person)
        ensures
            person@ == (PersonView { id, name: name@, email: email@ }),
    {
        Person { id, name, email }
    }
}

} // verus!
