use codec_bench::document::{Document, Person};
use codec_bench::sample::{make_sample_data, sample_document, SAMPLE_ID};

fn alice() -> Person {
    Person { id: 1, name: "Alice".to_owned(), email: "alice@example.com".to_owned() }
}

fn bob() -> Person {
    Person { id: 2, name: "Bob".to_owned(), email: "bob@example.com".to_owned() }
}

#[test]
fn sample_document_has_the_fixed_fields() {
    let doc = sample_document(vec![1, 2, 3]);
    let expected = Document {
        id: 829472904,
        name: "stuff.txt".to_owned(),
        authors: vec![alice(), bob()],
        content: vec![1, 2, 3],
    };
    assert_eq!(doc, expected);
    assert_eq!(SAMPLE_ID, 829472904);
}

#[test]
fn sample_document_keeps_an_empty_payload() {
    let doc = sample_document(Vec::new());
    assert!(doc.content.is_empty());
    assert_eq!(doc.authors, vec![alice(), bob()]);
}

#[test]
fn make_sample_data_small_is_empty() {
    let doc = make_sample_data(0);
    assert_eq!(doc, sample_document(Vec::new()));
}

#[test]
fn make_sample_data_big_has_one_mebibyte() {
    let doc = make_sample_data(1024 * 1024);
    assert_eq!(doc.content.len(), 1_048_576);
    assert_eq!(doc.id, 829472904);
    assert_eq!(doc.name, "stuff.txt");
    assert_eq!(doc.authors, vec![alice(), bob()]);
}

#[test]
fn make_sample_data_draws_its_bytes() {
    let doc = make_sample_data(4096);
    assert_eq!(doc.content.len(), 4096);
    let first = doc.content[0];
    assert!(doc.content.iter().any(|b| *b != first));
}

#[test]
fn person_new_sets_the_fields() {
    let p = Person::new(7, "Carol".to_owned(), "carol@example.com".to_owned());
    assert_eq!(p.id, 7);
    assert_eq!(p.name, "Carol");
    assert_eq!(p.email, "carol@example.com");
}
