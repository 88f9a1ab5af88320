//! Whether bytes hold the frame of a document: every count that they declare
//! is followed by as much as it counts. Bytes without the frame hold no
//! document, and are kept from the codec.

use vstd::prelude::*;
use vstd::utf8::encode_utf8;
use crate::document::{DocumentView, PersonView};
use crate::layout::{
    be_u64, bincode_layout, lemma_append_assoc, lemma_people_fit_tail,
    lemma_people_layout_len, lemma_short_layout_fits, people_fit, people_layout, people_len,
    person_fits, person_layout, person_len, text_layout, text_len,
};

verus! {

/// The number that the eight bytes from `at` on hold, most significant first.
pub open spec fn u64_at(bytes: Seq<u8>, at: int) -> u64 {
    (bytes[at] as u64) << 56 | (bytes[at + 1] as u64) << 48 | (bytes[at + 2] as u64) << 40 | (bytes[at
        + 3] as u64) << 32 | (bytes[at + 4] as u64) << 24 | (bytes[at + 5] as u64) << 16 | (bytes[at
        + 6] as u64) << 8 | (bytes[at + 7] as u64)
}

/// Where the text that starts at `at` ends: behind its count and as many
/// bytes as the count says, if `bytes` has them.
pub open spec fn text_end(bytes: Seq<u8>, at: int) -> Option<int> {
    if 0 <= at && at + 8 <= bytes.len() && u64_at(bytes, at) <= bytes.len() - at - 8 {
        Some(at + 8 + u64_at(bytes, at))
    } else {
        None
    }
}

/// Where the person that starts at `at` ends: behind an identifier and two
/// texts, if `bytes` has them.
pub open spec fn person_end(bytes: Seq<u8>, at: int) -> Option<int> {
    if 0 <= at && at + 8 <= bytes.len() {
        match text_end(bytes, at + 8) {
            Some(e) => text_end(bytes, e),
            None => None,
        }
    } else {
        None
    }
}

/// Where `n` persons that start at `at` end, if `bytes` has them.
pub open spec fn people_end(bytes: Seq<u8>, at: int, n: nat) -> Option<int>
    decreases n,
{
    if n == 0 {
        Some(at)
    } else {
        match person_end(bytes, at) {
            Some(e) => people_end(bytes, e, (n - 1) as nat),
            None => None,
        }
    }
}

/// Where the counted persons that start at `at` end, if `bytes` has the
/// count and the persons.
pub open spec fn authors_end(bytes: Seq<u8>, at: int) -> Option<int> {
    if 0 <= at && at + 8 <= bytes.len() {
        people_end(bytes, at + 8, u64_at(bytes, at) as nat)
    } else {
        None
    }
}

/// `bytes` start with the frame of a document: an identifier, a text, a
/// counted list of persons and a counted payload, each count followed by as
/// much as it counts.
pub open spec fn framed(bytes: Seq<u8>) -> bool {
    match text_end(bytes, 8) {
        Some(e1) => match authors_end(bytes, e1) {
            Some(e2) => e2 + 8 <= bytes.len() && u64_at(bytes, e2) <= bytes.len() - e2 - 8,
            None => false,
        },
        None => false,
    }
}

/// Reads the number that the eight bytes from `at` on hold.
fn read_u64(bytes: &[u8], at: usize) -> (x: u64)
    requires
        at + 8 <= bytes@.len(),
    ensures
        x == u64_at(bytes@, at as int),
{
    (bytes[at] as u64) << 56 | (bytes[at + 1] as u64) << 48 | (bytes[at + 2] as u64) << 40 | (bytes[at
        + 3] as u64) << 32 | (bytes[at + 4] as u64) << 24 | (bytes[at + 5] as u64) << 16 | (bytes[at
        + 6] as u64) << 8 | (bytes[at + 7] as u64)
}

/// Steps over the text that starts at `at`.
fn skip_text(bytes: &[u8], at: usize) -> (end: Option<usize>)
    requires
        at <= bytes@.len(),
    ensures
        end matches Some(e) ==> text_end(bytes@, at as int) == Some(e as int) && e <= bytes@.len(),
        end is None ==> text_end(bytes@, at as int) is None,
{
    let n = bytes.len();
    if n - at < 8 {
        return None;
    }
    let count = read_u64(bytes, at);
    let rest = n - at - 8;
    if count > rest as u64 {
        None
    } else {
        Some(at + 8 + count as usize)
    }
}

/// Steps over the person that starts at `at`.
fn skip_person(bytes: &[u8], at: usize) -> (end: Option<usize>)
    requires
        at <= bytes@.len(),
    ensures
        end matches Some(e) ==> person_end(bytes@, at as int) == Some(e as int) && at + 24 <= e
            && e <= bytes@.len(),
        end is None ==> person_end(bytes@, at as int) is None,
{
    if bytes.len() - at < 8 {
        return None;
    }
    match skip_text(bytes, at + 8) {
        Some(e) => skip_text(bytes, e),
        None => None,
    }
}

/// Tells whether `bytes` start with the frame of a document. Bytes that do
/// not are the layout of none.
pub fn is_framed(bytes: &[u8]) -> (ok: bool)
    ensures
        ok == framed(bytes@),
        !ok ==> forall|d: DocumentView| bytes@ != #[trigger] bincode_layout(d),
{
    let n = bytes.len();
    proof {
        if !framed(bytes@) {
            assert forall|d: DocumentView| bytes@ != #[trigger] bincode_layout(d) by {
                lemma_unframed_is_no_layout(bytes@, d);
            }
        }
    }
    if n < 8 {
        return false;
    }
    let e1 = match skip_text(bytes, 8) {
        Some(e) => e,
        None => {
            return false;
        },
    };
    if n - e1 < 8 {
        return false;
    }
    let count = read_u64(bytes, e1);
    let mut at = e1 + 8;
    let mut left = count;
    while left > 0
        invariant
            at <= n,
            n == bytes@.len(),
            e1 + 8 <= n,
            text_end(bytes@, 8) == Some(e1 as int),
            count == u64_at(bytes@, e1 as int),
            !framed(bytes@) ==> forall|d: DocumentView| bytes@ != #[trigger] bincode_layout(d),
            people_end(bytes@, e1 + 8, count as nat) == people_end(bytes@, at as int, left as nat),
        decreases left,
    {
        match skip_person(bytes, at) {
            Some(e) => {
                at = e;
                left = left - 1;
            },
            None => {
                assert(people_end(bytes@, at as int, left as nat) is None);
                return false;
            },
        }
    }
    if n - at < 8 {
        return false;
    }
    let payload = read_u64(bytes, at);
    payload <= (n - at - 8) as u64
}

proof fn lemma_u64_at_be_u64(x: u64)
    ensures
        u64_at(be_u64(x), 0) == x,
{
    assert((((((x >> 56) & 0xff) as u8) as u64) << 56 | ((((x >> 48) & 0xff) as u8) as u64) << 48 | (
    (((x >> 40) & 0xff) as u8) as u64) << 40 | ((((x >> 32) & 0xff) as u8) as u64) << 32 | ((((x
        >> 24) & 0xff) as u8) as u64) << 24 | ((((x >> 16) & 0xff) as u8) as u64) << 16 | ((((x
        >> 8) & 0xff) as u8) as u64) << 8 | (((x & 0xff) as u8) as u64)) == x) by (bit_vector);
}

/// A number laid out anywhere in a byte string is read back from there.
proof fn lemma_u64_at_laid_out(pre: Seq<u8>, x: u64, post: Seq<u8>)
    ensures
        u64_at(pre + be_u64(x) + post, pre.len() as int) == x,
{
    let b = pre + be_u64(x) + post;
    let k = pre.len() as int;
    assert(b[k] == be_u64(x)[0] && b[k + 1] == be_u64(x)[1] && b[k + 2] == be_u64(x)[2] && b[k + 3]
        == be_u64(x)[3]);
    assert(b[k + 4] == be_u64(x)[4] && b[k + 5] == be_u64(x)[5] && b[k + 6] == be_u64(x)[6] && b[k
        + 7] == be_u64(x)[7]);
    lemma_u64_at_be_u64(x);
}

proof fn lemma_text_end_laid_out(pre: Seq<u8>, s: Seq<char>, post: Seq<u8>)
    requires
        encode_utf8(s).len() <= u64::MAX,
    ensures
        text_end(pre + text_layout(s) + post, pre.len() as int) == Some((pre.len() + text_len(s)) as int),
{
    let u = encode_utf8(s);
    let b = pre + text_layout(s) + post;
    assert(b =~= pre + be_u64(u.len() as u64) + (u + post));
    lemma_u64_at_laid_out(pre, u.len() as u64, u + post);
}

proof fn lemma_person_end_laid_out(pre: Seq<u8>, p: PersonView, post: Seq<u8>)
    requires
        person_fits(p),
    ensures
        person_end(pre + person_layout(p) + post, pre.len() as int) == Some(
            (pre.len() + person_len(p)) as int,
        ),
{
    let b = pre + person_layout(p) + post;
    let pre1 = pre + be_u64(p.id);
    let post1 = text_layout(p.email) + post;
    assert(b =~= pre1 + text_layout(p.name) + post1);
    lemma_text_end_laid_out(pre1, p.name, post1);
    let pre2 = pre1 + text_layout(p.name);
    assert(b =~= pre2 + text_layout(p.email) + post);
    lemma_text_end_laid_out(pre2, p.email, post);
}

proof fn lemma_people_end_laid_out(pre: Seq<u8>, ps: Seq<PersonView>, post: Seq<u8>)
    requires
        people_fit(ps),
    ensures
        people_end(pre + people_layout(ps) + post, pre.len() as int, ps.len()) == Some(
            (pre.len() + people_len(ps)) as int,
        ),
    decreases ps.len(),
{
    if ps.len() == 0 {
    } else {
        let p = ps.first();
        let tail = ps.drop_first();
        lemma_people_fit_tail(ps);
        lemma_append_assoc(pre, person_layout(p), people_layout(tail));
        lemma_append_assoc(pre + person_layout(p), people_layout(tail), post);
        lemma_person_end_laid_out(pre, p, people_layout(tail) + post);
        lemma_person_layout_len(p);
        lemma_people_end_laid_out(pre + person_layout(p), tail, post);
    }
}

proof fn lemma_person_layout_len(p: PersonView)
    ensures
        person_layout(p).len() == person_len(p),
{
}

proof fn lemma_be_u64_len(x: u64)
    ensures
        be_u64(x).len() == 8,
{
}

/// Bytes put together from an identifier, a name, counted authors, a counted
/// payload and a rest have the frame of a document.
proof fn lemma_assembled_is_framed(
    b: Seq<u8>,
    id: u64,
    name: Seq<char>,
    authors: Seq<PersonView>,
    content: Seq<u8>,
    rest: Seq<u8>,
)
    requires
        encode_utf8(name).len() <= u64::MAX,
        authors.len() <= u64::MAX,
        content.len() <= u64::MAX,
        people_fit(authors),
        b == be_u64(id) + text_layout(name) + (be_u64(authors.len() as u64) + (people_layout(authors)
            + (be_u64(content.len() as u64) + (content + rest)))),
        b == be_u64(id) + text_layout(name) + be_u64(authors.len() as u64) + (people_layout(authors)
            + (be_u64(content.len() as u64) + (content + rest))),
        b == be_u64(id) + text_layout(name) + be_u64(authors.len() as u64) + people_layout(authors)
            + (be_u64(content.len() as u64) + (content + rest)),
        b == be_u64(id) + text_layout(name) + be_u64(authors.len() as u64) + people_layout(authors)
            + be_u64(content.len() as u64) + (content + rest),
    ensures
        framed(b),
{
    let count = authors.len() as u64;
    let payload = content.len() as u64;
    let x1 = be_u64(id) + text_layout(name);
    let x2 = x1 + be_u64(count);
    let x3 = x2 + people_layout(authors);
    let r4 = content + rest;
    let r3 = be_u64(payload) + r4;
    let r2 = people_layout(authors) + r3;
    let r1 = be_u64(count) + r2;
    lemma_be_u64_len(id);
    lemma_be_u64_len(count);
    lemma_be_u64_len(payload);
    lemma_people_layout_len(authors);
    lemma_text_end_laid_out(be_u64(id), name, r1);
    let e1 = x1.len() as int;
    assert(text_end(b, 8) == Some(e1));
    lemma_u64_at_laid_out(x1, count, r2);
    assert(u64_at(b, e1) == count);
    lemma_people_end_laid_out(x2, authors, r3);
    let e2 = x3.len() as int;
    assert(x2.len() == e1 + 8);
    assert(people_end(b, e1 + 8, authors.len()) == Some(e2));
    assert(authors_end(b, e1) == Some(e2));
    lemma_u64_at_laid_out(x3, payload, r4);
    assert(u64_at(b, e2) == payload);
    assert(b.len() == e2 + 8 + content.len() + rest.len());
}

/// The layout of a document has the frame of a document, whatever follows
/// it.
pub proof fn lemma_layout_is_framed(d: DocumentView, rest: Seq<u8>)
    requires
        bincode_layout(d).len() <= u64::MAX,
    ensures
        framed(bincode_layout(d) + rest),
{
    lemma_short_layout_fits(d);
    let count = d.authors.len() as u64;
    let payload = d.content.len() as u64;
    let x1 = be_u64(d.id) + text_layout(d.name);
    let x2 = x1 + be_u64(count);
    let x3 = x2 + people_layout(d.authors);
    let x4 = x3 + be_u64(payload);
    let r4 = d.content + rest;
    let r3 = be_u64(payload) + r4;
    let r2 = people_layout(d.authors) + r3;
    lemma_append_assoc(x4, d.content, rest);
    lemma_append_assoc(x3, be_u64(payload), r4);
    lemma_append_assoc(x2, people_layout(d.authors), r3);
    lemma_append_assoc(x1, be_u64(count), r2);
    lemma_assembled_is_framed(
        bincode_layout(d) + rest,
        d.id,
        d.name,
        d.authors,
        d.content,
        rest,
    );
}

/// Bytes without the frame of a document are the layout of none.
pub proof fn lemma_unframed_is_no_layout(bytes: Seq<u8>, d: DocumentView)
    requires
        !framed(bytes),
        bytes.len() <= u64::MAX,
    ensures
        bytes != bincode_layout(d),
{
    if bytes == bincode_layout(d) {
        lemma_layout_is_framed(d, Seq::empty());
        assert(bincode_layout(d) + Seq::<u8>::empty() =~= bincode_layout(d));
    }
}

} // verus!
