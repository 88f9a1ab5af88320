//! The sample documents that the adapters are compared on.

use vstd::prelude::*;
use vstd::utf8::{encode_utf8, is_ascii_chars, is_ascii_chars_encode_utf8};
use crate::document::{Document, DocumentView, Person, PersonView};
use crate::layout::{
    bincode_layout, lemma_layout_len, lemma_shorter_content_shorter_layout, people_len,
};

verus! {

/// The identifier that every sample document carries.
pub const SAMPLE_ID: u64 = 829472904;

/// The value of the sample document that carries `content`.
pub open spec fn sample_view(content: Seq<u8>) -> DocumentView {
    DocumentView {
        id: SAMPLE_ID,
        name: "stuff.txt"@,
        authors: seq![
            PersonView { id: 1, name: "Alice"@, email: "alice@example.com"@ },
            PersonView { id: 2, name: "Bob"@, email: "bob@example.com"@ },
        ],
        content,
    }
}

/// `rand::rngs::ThreadRng`, the handle to a thread's generator.
#[verifier::external_type_specification]
#[verifier::external_body]
pub struct ExThreadRng(rand::rngs::ThreadRng);

/// Calls `rand::thread_rng` for this thread's generator. Nothing is claimed
/// of it. (rand gives up, with a panic, where the operating system has no
/// entropy to seed it.)
#[verifier::external_body]
fn thread_generator() -> (rng: rand::rngs::ThreadRng) {
    rand::thread_rng()
}

/// Calls `rand::Rng::gen` for one byte. Nothing is claimed of the byte. (rand
/// gives up, with a panic, where the operating system has no entropy when
/// the generator is due to be seeded again.)
#[verifier::external_body]
fn random_byte(rng: &mut rand::rngs::ThreadRng) -> (byte: u8) {
    rand::Rng::gen(rng)
}

/// Builds the sample document around a payload that the caller supplies.
pub fn sample_document(content: Vec<u8>) -> (doc: Document)
    ensures
        doc@ == sample_view(content@),
{
    let alice = Person::new(1, "Alice".to_owned(), "alice@example.com".to_owned());
    let bob = Person::new(2, "Bob".to_owned(), "bob@example.com".to_owned());
    let mut authors: Vec<Person> = Vec::new();
    authors.push(alice);
    authors.push(bob);
    let doc = Document { id: SAMPLE_ID, name: "stuff.txt".to_owned(), authors, content };
    assert(doc@.authors =~= sample_view(content@).authors);
    doc
}

/// Builds the sample document around `size` bytes drawn from this thread's
/// random generator.
pub fn make_sample_data(size: usize) -> (doc: Document)
    ensures
        doc@.content.len() == size,
        doc@ == sample_view(doc@.content),
{
    let mut rng = thread_generator();
    let mut content: Vec<u8> = Vec::new();
    let mut i: usize = 0;
    while i < size
        invariant
            i <= size,
            content@.len() == i,
        decreases size - i,
    {
        content.push(random_byte(&mut rng));
        i += 1;
    }
    sample_document(content)
}

proof fn lemma_sample_text_lens()
    ensures
        encode_utf8("stuff.txt"@).len() == 9,
        encode_utf8("Alice"@).len() == 5,
        encode_utf8("alice@example.com"@).len() == 17,
        encode_utf8("Bob"@).len() == 3,
        encode_utf8("bob@example.com"@).len() == 15,
{
    reveal_strlit("stuff.txt");
    reveal_strlit("Alice");
    reveal_strlit("alice@example.com");
    reveal_strlit("Bob");
    reveal_strlit("bob@example.com");
    assert(is_ascii_chars("stuff.txt"@));
    assert(is_ascii_chars("Alice"@));
    assert(is_ascii_chars("alice@example.com"@));
    assert(is_ascii_chars("Bob"@));
    assert(is_ascii_chars("bob@example.com"@));
    is_ascii_chars_encode_utf8("stuff.txt"@);
    is_ascii_chars_encode_utf8("Alice"@);
    is_ascii_chars_encode_utf8("alice@example.com"@);
    is_ascii_chars_encode_utf8("Bob"@);
    is_ascii_chars_encode_utf8("bob@example.com"@);
}

/// A sample document is laid out in 129 bytes and its payload.
pub proof fn lemma_sample_layout_len(content: Seq<u8>)
    ensures
        bincode_layout(sample_view(content)).len() == 129 + content.len(),
{
    let d = sample_view(content);
    lemma_sample_text_lens();
    lemma_layout_len(d);
    let tail = d.authors.drop_first();
    assert(tail.drop_first().len() == 0);
    assert(people_len(tail) == 8 + (8 + 3) + (8 + 15) + people_len(tail.drop_first()));
    assert(people_len(d.authors) == 8 + (8 + 5) + (8 + 17) + people_len(tail));
}

/// The sample with the empty payload is laid out in fewer bytes than the
/// sample with any other payload.
pub proof fn lemma_empty_sample_is_shortest(content: Seq<u8>)
    requires
        content.len() > 0,
    ensures
        bincode_layout(sample_view(Seq::empty())).len() < bincode_layout(
            sample_view(content),
        ).len(),
{
    lemma_shorter_content_shorter_layout(sample_view(Seq::empty()), sample_view(content));
}

} // verus!
