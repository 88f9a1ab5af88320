use codec_bench::adapter::Adapter;
use codec_bench::document::{Document, Person};
use codec_bench::error::DecodeError;
use codec_bench::frame::is_framed;
use codec_bench::layout::encoded_len;
use codec_bench::parts::{author_parts, decoded, document_from_parts, DocumentParts};
use codec_bench::sample::{make_sample_data, sample_document};
use codec_bench::{rustc_and_bincode, serde_and_bincode};

fn tiny() -> Document {
    Document {
        id: 1,
        name: "a".to_owned(),
        authors: vec![Person { id: 2, name: "b".to_owned(), email: "c".to_owned() }],
        content: vec![9],
    }
}

fn tiny_bytes() -> Vec<u8> {
    vec![
        0, 0, 0, 0, 0, 0, 0, 1, // id
        0, 0, 0, 0, 0, 0, 0, 1, 0x61, // name
        0, 0, 0, 0, 0, 0, 0, 1, // one author
        0, 0, 0, 0, 0, 0, 0, 2, // the author's id
        0, 0, 0, 0, 0, 0, 0, 1, 0x62, // the author's name
        0, 0, 0, 0, 0, 0, 0, 1, 0x63, // the author's email
        0, 0, 0, 0, 0, 0, 0, 1, 9, // content
    ]
}

#[test]
fn sizes() {
    println!();
    println!("Size after serialization:");
    let small = make_sample_data(0);
    let big = make_sample_data(1024 * 1024);
    for adapter in [Adapter::SerdeAndBincode, Adapter::RustcAndBincode] {
        println!("{}", adapter.label());
        let (s, b) = adapter.sizes(&small, &big);
        println!("    small: {} bytes", s);
        println!("    big:   {} bytes", b);
        assert_eq!(s, 129);
        assert_eq!(b, 129 + 1024 * 1024);
        assert!(s < b);
    }
}

#[test]
fn serde_bincode_writes_the_layout() {
    assert_eq!(serde_and_bincode::encode(&tiny()), tiny_bytes());
}

#[test]
fn rustc_bincode_writes_the_layout() {
    assert_eq!(rustc_and_bincode::encode(&tiny()), tiny_bytes());
}

#[test]
fn serde_bincode_reads_the_layout() {
    assert_eq!(serde_and_bincode::decode(&tiny_bytes()).unwrap(), tiny());
}

#[test]
fn rustc_bincode_reads_the_layout() {
    assert_eq!(rustc_and_bincode::decode(&tiny_bytes()).unwrap(), tiny());
}

#[test]
fn identifiers_are_written_most_significant_byte_first() {
    let mut doc = tiny();
    doc.id = 0x0102030405060708;
    doc.authors.clear();
    doc.content.clear();
    doc.name.clear();
    let bytes = serde_and_bincode::encode(&doc);
    assert_eq!(&bytes[..8], &[1, 2, 3, 4, 5, 6, 7, 8]);
    assert_eq!(bytes.len(), 32);
    assert_eq!(rustc_and_bincode::encode(&doc), bytes);
}

#[test]
fn text_is_counted_in_bytes_not_characters() {
    let mut doc = tiny();
    doc.name = "é€".to_owned();
    let bytes = serde_and_bincode::encode(&doc);
    assert_eq!(&bytes[8..16], &[0, 0, 0, 0, 0, 0, 0, 5]);
    assert_eq!(&bytes[16..21], "é€".as_bytes());
    assert_eq!(bytes.len(), tiny_bytes().len() + 4);
    assert_eq!(serde_and_bincode::decode(&bytes).unwrap(), doc);
    assert_eq!(rustc_and_bincode::encode(&doc), bytes);
    assert_eq!(rustc_and_bincode::decode(&bytes).unwrap(), doc);
}

#[test]
fn small_sample_round_trips_through_each_adapter() {
    let doc = Document {
        id: 829472904,
        name: "stuff.txt".to_owned(),
        authors: vec![
            Person { id: 1, name: "Alice".to_owned(), email: "alice@example.com".to_owned() },
            Person { id: 2, name: "Bob".to_owned(), email: "bob@example.com".to_owned() },
        ],
        content: vec![],
    };
    let back = serde_and_bincode::decode(&serde_and_bincode::encode(&doc)).unwrap();
    assert_eq!(back.id, doc.id);
    assert_eq!(back.name, doc.name);
    assert_eq!(back.authors, doc.authors);
    assert_eq!(back.content, doc.content);
    let back = rustc_and_bincode::decode(&rustc_and_bincode::encode(&doc)).unwrap();
    assert_eq!(back.id, doc.id);
    assert_eq!(back.name, doc.name);
    assert_eq!(back.authors, doc.authors);
    assert_eq!(back.content, doc.content);
}

#[test]
fn big_sample_round_trips_byte_for_byte() {
    let doc = make_sample_data(1_048_576);
    for adapter in [Adapter::SerdeAndBincode, Adapter::RustcAndBincode] {
        let bytes = adapter.encode(&doc);
        let back = adapter.decode(&bytes).unwrap();
        assert_eq!(back.content.len(), 1_048_576);
        assert_eq!(back.content, doc.content);
        assert_eq!(back, doc);
    }
}

#[test]
fn content_length_survives_both_sizes() {
    for size in [0usize, 1_048_576] {
        let doc = make_sample_data(size);
        for adapter in [Adapter::SerdeAndBincode, Adapter::RustcAndBincode] {
            let back = adapter.round_trip(&doc);
            assert_eq!(back.content.len(), doc.content.len());
        }
    }
}

#[test]
fn round_trip_returns_the_document() {
    let doc = sample_document(vec![0, 255, 23, 24, 128]);
    assert_eq!(Adapter::SerdeAndBincode.round_trip(&doc), doc);
    assert_eq!(Adapter::RustcAndBincode.round_trip(&doc), doc);
}

#[test]
fn empty_sample_is_shorter_than_any_other() {
    let small = sample_document(Vec::new());
    let one = sample_document(vec![0]);
    for adapter in [Adapter::SerdeAndBincode, Adapter::RustcAndBincode] {
        assert_eq!(adapter.sizes(&small, &one), (129, 130));
    }
}

#[test]
fn the_two_bincode_adapters_share_their_bytes() {
    let doc = sample_document(vec![1, 2, 3, 4]);
    let by_serde = serde_and_bincode::encode(&doc);
    let by_rustc = rustc_and_bincode::encode(&doc);
    assert_eq!(by_serde, by_rustc);
    assert_eq!(rustc_and_bincode::decode(&by_serde).unwrap(), doc);
    assert_eq!(serde_and_bincode::decode(&by_rustc).unwrap(), doc);
}

#[test]
fn truncated_bytes_are_a_decode_error() {
    let bytes = tiny_bytes();
    for cut in [0usize, 7, 16, 30, bytes.len() - 1] {
        assert_eq!(serde_and_bincode::decode(&bytes[..cut]), Err(DecodeError));
        assert_eq!(rustc_and_bincode::decode(&bytes[..cut]), Err(DecodeError));
    }
}

#[test]
fn every_proper_prefix_of_an_encoding_is_a_decode_error() {
    let bytes = serde_and_bincode::encode(&sample_document(vec![7, 8, 9]));
    for cut in 0..bytes.len() {
        assert_eq!(serde_and_bincode::decode(&bytes[..cut]), Err(DecodeError));
        assert_eq!(rustc_and_bincode::decode(&bytes[..cut]), Err(DecodeError));
        assert!(!is_framed(&bytes[..cut]));
    }
    assert!(is_framed(&bytes));
}

#[test]
fn a_text_count_past_the_end_is_a_decode_error() {
    let mut bytes = vec![1, 2, 3, 4, 5, 6, 7, 8];
    bytes.extend_from_slice(&[0xff; 8]);
    assert!(!is_framed(&bytes));
    assert_eq!(serde_and_bincode::decode(&bytes), Err(DecodeError));
    assert_eq!(rustc_and_bincode::decode(&bytes), Err(DecodeError));
    for adapter in [Adapter::SerdeAndBincode, Adapter::RustcAndBincode] {
        assert_eq!(adapter.decode(&bytes), Err(DecodeError));
    }
}

#[test]
fn a_text_count_that_fills_the_byte_counter_is_a_decode_error() {
    let mut bytes = vec![0; 8];
    bytes.extend_from_slice(&(u64::MAX - 16).to_be_bytes());
    bytes.extend_from_slice(&[0x61; 40]);
    assert_eq!(serde_and_bincode::decode(&bytes), Err(DecodeError));
    assert_eq!(rustc_and_bincode::decode(&bytes), Err(DecodeError));
}

#[test]
fn a_count_of_authors_past_the_end_is_a_decode_error() {
    let mut bytes = tiny_bytes();
    bytes[24] = 0x7f;
    assert!(!is_framed(&bytes));
    assert_eq!(serde_and_bincode::decode(&bytes), Err(DecodeError));
    assert_eq!(rustc_and_bincode::decode(&bytes), Err(DecodeError));
    let mut bytes = tiny_bytes();
    bytes[17 + 7] = 2;
    assert!(!is_framed(&bytes));
    assert_eq!(serde_and_bincode::decode(&bytes), Err(DecodeError));
    assert_eq!(rustc_and_bincode::decode(&bytes), Err(DecodeError));
}

#[test]
fn a_payload_count_past_the_end_is_a_decode_error() {
    let mut bytes = tiny_bytes();
    let at = bytes.len() - 2;
    bytes[at] = 2;
    assert!(!is_framed(&bytes));
    assert_eq!(serde_and_bincode::decode(&bytes), Err(DecodeError));
    assert_eq!(rustc_and_bincode::decode(&bytes), Err(DecodeError));
}

#[test]
fn the_frame_does_not_look_at_the_text() {
    let mut bytes = tiny_bytes();
    bytes[16] = 0xff;
    assert!(is_framed(&bytes));
    assert!(is_framed(&tiny_bytes()));
    assert!(!is_framed(&[]));
    let mut longer = tiny_bytes();
    longer.extend_from_slice(&[1, 2, 3]);
    assert!(is_framed(&longer));
}

#[test]
fn encoded_len_is_the_length_of_the_encoding() {
    assert_eq!(encoded_len(&tiny()), Some(60));
    assert_eq!(encoded_len(&sample_document(Vec::new())), Some(129));
    let big = make_sample_data(1_048_576);
    assert_eq!(encoded_len(&big), Some(129 + 1_048_576));
    assert_eq!(encoded_len(&big), Some(serde_and_bincode::encode(&big).len()));
    let mut doc = tiny();
    doc.name = "é€".to_owned();
    assert_eq!(encoded_len(&doc), Some(rustc_and_bincode::encode(&doc).len()));
    doc.authors.clear();
    assert_eq!(encoded_len(&doc), Some(8 + 8 + 5 + 8 + 8 + 1));
}

#[test]
fn text_that_is_not_utf8_is_a_decode_error() {
    let mut bytes = tiny_bytes();
    bytes[16] = 0xff;
    assert_eq!(serde_and_bincode::decode(&bytes), Err(DecodeError));
    assert_eq!(rustc_and_bincode::decode(&bytes), Err(DecodeError));
    assert_eq!(Adapter::SerdeAndBincode.decode(&bytes), Err(DecodeError));
}

#[test]
fn decoded_builds_the_document_or_reports_the_failure() {
    let parts = (7, "n".to_owned(), vec![(8, "a".to_owned(), "e".to_owned())], vec![1, 2]);
    let raw: Result<_, String> = Ok(parts);
    let doc = Document {
        id: 7,
        name: "n".to_owned(),
        authors: vec![Person { id: 8, name: "a".to_owned(), email: "e".to_owned() }],
        content: vec![1, 2],
    };
    assert_eq!(decoded(raw), Ok(doc));
    let raw: Result<DocumentParts, String> = Err("no".to_owned());
    assert_eq!(decoded(raw), Err(DecodeError));
}

#[test]
fn bytes_after_a_layout_are_left_to_bincode() {
    let mut bytes = tiny_bytes();
    bytes.push(0);
    for adapter in [Adapter::SerdeAndBincode, Adapter::RustcAndBincode] {
        if let Ok(doc) = adapter.decode(&bytes) {
            assert_eq!(doc, tiny());
        }
    }
}

#[test]
fn parts_keep_the_authors_in_order() {
    let doc = sample_document(vec![5]);
    let parts = author_parts(&doc);
    assert_eq!(
        parts,
        vec![
            (1, "Alice".to_owned(), "alice@example.com".to_owned()),
            (2, "Bob".to_owned(), "bob@example.com".to_owned()),
        ]
    );
    let again = document_from_parts(doc.id, doc.name.clone(), parts, doc.content.clone());
    assert_eq!(again, doc);
}

#[test]
fn labels_name_the_format_and_the_framework() {
    assert_eq!(Adapter::SerdeAndBincode.label(), "Using Bincode format with serde");
    assert_eq!(Adapter::RustcAndBincode.label(), "Using Bincode format with rustc-serialize");
}
