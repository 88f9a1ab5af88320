//! The byte layout that bincode gives a document, as a specification, and
//! what follows from it: how long an encoding is, and that the bytes determine
//! the document.

use vstd::prelude::*;
use vstd::utf8::{encode_utf8, encode_utf8_decode_utf8};
use crate::document::{Document, DocumentView, PersonView};

verus! {

/// The eight bytes of `x`, most significant first.
pub open spec fn be_u64(x: u64) -> Seq<u8> {
    seq![
        ((x >> 56) & 0xff) as u8,
        ((x >> 48) & 0xff) as u8,
        ((x >> 40) & 0xff) as u8,
        ((x >> 32) & 0xff) as u8,
        ((x >> 24) & 0xff) as u8,
        ((x >> 16) & 0xff) as u8,
        ((x >> 8) & 0xff) as u8,
        (x & 0xff) as u8,
    ]
}

/// A text: the number of its UTF-8 bytes, then those bytes.
pub open spec fn text_layout(s: Seq<char>) -> Seq<u8> {
    be_u64(encode_utf8(s).len() as u64) + encode_utf8(s)
}

/// A person: the fields one after another.
pub open spec fn person_layout(p: PersonView) -> Seq<u8> {
    be_u64(p.id) + text_layout(p.name) + text_layout(p.email)
}

/// The persons of a list one after another, without the count.
pub open spec fn people_layout(ps: Seq<PersonView>) -> Seq<u8>
    decreases ps.len(),
{
    if ps.len() == 0 {
        Seq::empty()
    } else {
        person_layout(ps.first()) + people_layout(ps.drop_first())
    }
}

/// A document: identifier, name, the counted list of authors, the counted
/// payload.
pub open spec fn bincode_layout(d: DocumentView) -> Seq<u8> {
    be_u64(d.id) + text_layout(d.name) + be_u64(d.authors.len() as u64) + people_layout(
        d.authors,
    ) + be_u64(d.content.len() as u64) + d.content
}

/// Every count that the layout of `p` writes fits in 64 bits.
pub open spec fn person_fits(p: PersonView) -> bool {
    encode_utf8(p.name).len() <= u64::MAX && encode_utf8(p.email).len() <= u64::MAX
}

/// Every count that the layouts of `ps` write fits in 64 bits.
pub open spec fn people_fit(ps: Seq<PersonView>) -> bool {
    forall|i: int| 0 <= i < ps.len() ==> person_fits(#[trigger] ps[i])
}

/// Every count that the layout of `d` writes fits in 64 bits.
pub open spec fn document_fits(d: DocumentView) -> bool {
    &&& encode_utf8(d.name).len() <= u64::MAX
    &&& d.authors.len() <= u64::MAX
    &&& d.content.len() <= u64::MAX
    &&& people_fit(d.authors)
}

/// The number of bytes in the layout of a text.
pub open spec fn text_len(s: Seq<char>) -> nat {
    8 + encode_utf8(s).len()
}

/// The number of bytes in the layout of a person.
pub open spec fn person_len(p: PersonView) -> nat {
    8 + text_len(p.name) + text_len(p.email)
}

/// The number of bytes in the layouts of a list of persons.
pub open spec fn people_len(ps: Seq<PersonView>) -> nat
    decreases ps.len(),
{
    if ps.len() == 0 {
        0
    } else {
        person_len(ps.first()) + people_len(ps.drop_first())
    }
}

/// The number of bytes in the layout of a document: 32 for the identifier and
/// the three counts, and the bytes of the name, the authors and the payload.
pub open spec fn layout_len(d: DocumentView) -> nat {
    32 + encode_utf8(d.name).len() + people_len(d.authors) + d.content.len()
}

proof fn lemma_be_u64_injective(x: u64, y: u64)
    requires
        be_u64(x) == be_u64(y),
    ensures
        x == y,
{
    let a = be_u64(x);
    let b = be_u64(y);
    assert(a[0] == b[0] && a[1] == b[1] && a[2] == b[2] && a[3] == b[3]);
    assert(a[4] == b[4] && a[5] == b[5] && a[6] == b[6] && a[7] == b[7]);
    assert(x == y) by (bit_vector)
        requires
            ((x >> 56) & 0xff) as u8 == ((y >> 56) & 0xff) as u8,
            ((x >> 48) & 0xff) as u8 == ((y >> 48) & 0xff) as u8,
            ((x >> 40) & 0xff) as u8 == ((y >> 40) & 0xff) as u8,
            ((x >> 32) & 0xff) as u8 == ((y >> 32) & 0xff) as u8,
            ((x >> 24) & 0xff) as u8 == ((y >> 24) & 0xff) as u8,
            ((x >> 16) & 0xff) as u8 == ((y >> 16) & 0xff) as u8,
            ((x >> 8) & 0xff) as u8 == ((y >> 8) & 0xff) as u8,
            (x & 0xff) as u8 == (y & 0xff) as u8,
    ;
}

/// Two byte strings that start with a 64-bit number and agree, agree on the
/// number and on what follows it.
proof fn lemma_be_u64_prefix(x: u64, y: u64, r: Seq<u8>, s: Seq<u8>)
    requires
        be_u64(x) + r == be_u64(y) + s,
    ensures
        x == y,
        r == s,
{
    let a = be_u64(x) + r;
    let b = be_u64(y) + s;
    assert(a.subrange(0, 8) =~= be_u64(x));
    assert(b.subrange(0, 8) =~= be_u64(y));
    lemma_be_u64_injective(x, y);
    assert(a.subrange(8, a.len() as int) =~= r);
    assert(b.subrange(8, b.len() as int) =~= s);
}

proof fn lemma_text_prefix(a: Seq<char>, b: Seq<char>, r: Seq<u8>, s: Seq<u8>)
    requires
        text_layout(a) + r == text_layout(b) + s,
        encode_utf8(a).len() <= u64::MAX,
        encode_utf8(b).len() <= u64::MAX,
    ensures
        a == b,
        r == s,
{
    let ua = encode_utf8(a);
    let ub = encode_utf8(b);
    let ta = ua + r;
    let tb = ub + s;
    assert(text_layout(a) + r =~= be_u64(ua.len() as u64) + ta);
    assert(text_layout(b) + s =~= be_u64(ub.len() as u64) + tb);
    lemma_be_u64_prefix(ua.len() as u64, ub.len() as u64, ta, tb);
    assert(ua.len() == ub.len());
    assert(ta.subrange(0, ua.len() as int) =~= ua);
    assert(tb.subrange(0, ub.len() as int) =~= ub);
    assert(ta.subrange(ua.len() as int, ta.len() as int) =~= r);
    assert(tb.subrange(ub.len() as int, tb.len() as int) =~= s);
    encode_utf8_decode_utf8(a);
    encode_utf8_decode_utf8(b);
}

proof fn lemma_person_prefix(p: PersonView, q: PersonView, r: Seq<u8>, s: Seq<u8>)
    requires
        person_layout(p) + r == person_layout(q) + s,
        person_fits(p),
        person_fits(q),
    ensures
        p == q,
        r == s,
{
    let p1 = text_layout(p.email) + r;
    let q1 = text_layout(q.email) + s;
    let p0 = text_layout(p.name) + p1;
    let q0 = text_layout(q.name) + q1;
    assert(person_layout(p) + r =~= be_u64(p.id) + p0);
    assert(person_layout(q) + s =~= be_u64(q.id) + q0);
    lemma_be_u64_prefix(p.id, q.id, p0, q0);
    lemma_text_prefix(p.name, q.name, p1, q1);
    lemma_text_prefix(p.email, q.email, r, s);
}

pub proof fn lemma_append_assoc(a: Seq<u8>, b: Seq<u8>, c: Seq<u8>)
    ensures
        (a + b) + c == a + (b + c),
{
    assert((a + b) + c =~= a + (b + c));
}

/// Two byte strings that agree and start with pieces of one length agree on
/// the pieces and on what follows them.
pub proof fn lemma_append_split(a: Seq<u8>, r: Seq<u8>, b: Seq<u8>, s: Seq<u8>)
    requires
        a + r == b + s,
        a.len() == b.len(),
    ensures
        a == b,
        r == s,
{
    let n = a.len() as int;
    assert((a + r).subrange(0, n) =~= a);
    assert((b + s).subrange(0, n) =~= b);
    assert((a + r).subrange(n, (a + r).len() as int) =~= r);
    assert((b + s).subrange(n, (b + s).len() as int) =~= s);
}

pub proof fn lemma_people_fit_tail(ps: Seq<PersonView>)
    requires
        ps.len() > 0,
        people_fit(ps),
    ensures
        person_fits(ps.first()),
        people_fit(ps.drop_first()),
{
    assert(person_fits(ps[0]));
    assert forall|i: int| 0 <= i < ps.drop_first().len() implies person_fits(
        #[trigger] ps.drop_first()[i],
    ) by {
        assert(ps.drop_first()[i] == ps[i + 1]);
    }
}

proof fn lemma_people_prefix(ps: Seq<PersonView>, qs: Seq<PersonView>, r: Seq<u8>, s: Seq<u8>)
    requires
        people_layout(ps) + r == people_layout(qs) + s,
        ps.len() == qs.len(),
        people_fit(ps),
        people_fit(qs),
    ensures
        ps == qs,
        r == s,
    decreases ps.len(),
{
    if ps.len() == 0 {
        assert(people_layout(ps) + r =~= r);
        assert(people_layout(qs) + s =~= s);
        assert(ps =~= qs);
    } else {
        let p = ps.first();
        let q = qs.first();
        let pt = ps.drop_first();
        let qt = qs.drop_first();
        lemma_append_assoc(person_layout(p), people_layout(pt), r);
        lemma_append_assoc(person_layout(q), people_layout(qt), s);
        lemma_people_fit_tail(ps);
        lemma_people_fit_tail(qs);
        lemma_person_prefix(p, q, people_layout(pt) + r, people_layout(qt) + s);
        lemma_people_prefix(pt, qt, r, s);
        assert(ps =~= seq![p] + pt);
        assert(qs =~= seq![q] + qt);
    }
}

/// Two byte strings that start with the layout of a document and agree,
/// agree on the document and on what follows it.
pub proof fn lemma_layout_prefix(a: DocumentView, b: DocumentView, r: Seq<u8>, s: Seq<u8>)
    requires
        document_fits(a),
        document_fits(b),
        bincode_layout(a) + r == bincode_layout(b) + s,
    ensures
        a == b,
        r == s,
{
    let a1 = be_u64(a.id) + text_layout(a.name);
    let a2 = a1 + be_u64(a.authors.len() as u64);
    let a3 = a2 + people_layout(a.authors);
    let a4 = a3 + be_u64(a.content.len() as u64);
    let ra4 = a.content + r;
    let ra3 = be_u64(a.content.len() as u64) + ra4;
    let ra2 = people_layout(a.authors) + ra3;
    let ra1 = be_u64(a.authors.len() as u64) + ra2;
    let ra0 = text_layout(a.name) + ra1;
    lemma_append_assoc(a4, a.content, r);
    lemma_append_assoc(a3, be_u64(a.content.len() as u64), ra4);
    lemma_append_assoc(a2, people_layout(a.authors), ra3);
    lemma_append_assoc(a1, be_u64(a.authors.len() as u64), ra2);
    lemma_append_assoc(be_u64(a.id), text_layout(a.name), ra1);
    let b1 = be_u64(b.id) + text_layout(b.name);
    let b2 = b1 + be_u64(b.authors.len() as u64);
    let b3 = b2 + people_layout(b.authors);
    let b4 = b3 + be_u64(b.content.len() as u64);
    let rb4 = b.content + s;
    let rb3 = be_u64(b.content.len() as u64) + rb4;
    let rb2 = people_layout(b.authors) + rb3;
    let rb1 = be_u64(b.authors.len() as u64) + rb2;
    let rb0 = text_layout(b.name) + rb1;
    lemma_append_assoc(b4, b.content, s);
    lemma_append_assoc(b3, be_u64(b.content.len() as u64), rb4);
    lemma_append_assoc(b2, people_layout(b.authors), rb3);
    lemma_append_assoc(b1, be_u64(b.authors.len() as u64), rb2);
    lemma_append_assoc(be_u64(b.id), text_layout(b.name), rb1);
    assert(be_u64(a.id) + ra0 == be_u64(b.id) + rb0);
    lemma_be_u64_prefix(a.id, b.id, ra0, rb0);
    lemma_text_prefix(a.name, b.name, ra1, rb1);
    lemma_be_u64_prefix(a.authors.len() as u64, b.authors.len() as u64, ra2, rb2);
    lemma_people_prefix(a.authors, b.authors, ra3, rb3);
    lemma_be_u64_prefix(a.content.len() as u64, b.content.len() as u64, ra4, rb4);
    lemma_append_split(a.content, r, b.content, s);
}

pub proof fn lemma_people_layout_len(ps: Seq<PersonView>)
    ensures
        people_layout(ps).len() == people_len(ps),
    decreases ps.len(),
{
    if ps.len() > 0 {
        lemma_people_layout_len(ps.drop_first());
    }
}

/// The layout of a document has `layout_len` bytes.
pub proof fn lemma_layout_len(d: DocumentView)
    ensures
        bincode_layout(d).len() == layout_len(d),
{
    lemma_people_layout_len(d.authors);
}

proof fn lemma_people_fit_in_their_len(ps: Seq<PersonView>)
    ensures
        ps.len() <= people_len(ps),
        forall|i: int| 0 <= i < ps.len() ==> person_len(#[trigger] ps[i]) <= people_len(ps),
    decreases ps.len(),
{
    if ps.len() > 0 {
        let tail = ps.drop_first();
        lemma_people_fit_in_their_len(tail);
        assert forall|i: int| 0 <= i < ps.len() implies person_len(#[trigger] ps[i]) <= people_len(
            ps,
        ) by {
            if i > 0 {
                assert(ps[i] == tail[i - 1]);
            }
        }
    }
}

/// A document whose layout has fewer than 2^64 bytes has no count that
/// overflows 64 bits.
pub proof fn lemma_short_layout_fits(d: DocumentView)
    requires
        bincode_layout(d).len() <= u64::MAX,
    ensures
        document_fits(d),
{
    lemma_layout_len(d);
    lemma_people_fit_in_their_len(d.authors);
}

/// Two documents with the same layout are the same document: the bytes leave
/// a decoder no choice. (A layout of 2^64 bytes or more is left out: the
/// counts in it have wrapped.)
pub proof fn lemma_layout_injective(a: DocumentView, b: DocumentView)
    requires
        bincode_layout(a) == bincode_layout(b),
        bincode_layout(a).len() <= u64::MAX,
    ensures
        a == b,
{
    lemma_short_layout_fits(a);
    lemma_short_layout_fits(b);
    assert(bincode_layout(a) + Seq::<u8>::empty() == bincode_layout(b) + Seq::<u8>::empty());
    lemma_layout_prefix(a, b, Seq::empty(), Seq::empty());
}

/// No document is decoded from less than its layout: the layout of a
/// document is no proper prefix of the layout of another, nor of its own.
pub proof fn lemma_no_layout_in_a_cut(a: DocumentView, d: DocumentView, bytes: Seq<u8>)
    requires
        bincode_layout(d).len() <= u64::MAX,
        bytes.is_prefix_of(bincode_layout(d)),
        bincode_layout(a).is_prefix_of(bytes),
    ensures
        bytes == bincode_layout(d),
        a == d,
{
    let la = bincode_layout(a);
    let ld = bincode_layout(d);
    let rest = ld.subrange(la.len() as int, ld.len() as int);
    assert(la + rest =~= ld + Seq::<u8>::empty());
    lemma_short_layout_fits(a);
    lemma_short_layout_fits(d);
    lemma_layout_prefix(a, d, rest, Seq::empty());
    assert(bytes =~= ld);
}

/// Decoding undoes encoding: an outcome that is right for every document
/// whose layout the bytes are, as `decode` promises, is `d` itself for the
/// bytes that `encode` gives for `d`, payload and all.
pub proof fn lemma_decode_undoes_encode(d: DocumentView, outcome: Option<DocumentView>)
    requires
        forall|x: DocumentView| bincode_layout(d) == #[trigger] bincode_layout(x) ==> outcome == Some(x),
    ensures
        outcome == Some(d),
        outcome.unwrap().content.len() == d.content.len(),
{
    assert(bincode_layout(d) == bincode_layout(d));
}

/// `bytes` are the start of `whole`, and less than `whole`.
pub open spec fn is_cut_of(bytes: Seq<u8>, whole: Seq<u8>) -> bool {
    bytes.len() < whole.len() && bytes.is_prefix_of(whole)
}

/// Nothing is decoded from a layout that was cut short: an outcome whose
/// layout the bytes start with, as `decode` promises of every document that
/// it returns, is no document where the bytes are less than the layout of
/// one.
pub proof fn lemma_cut_layout_decodes_to_nothing(
    d: DocumentView,
    bytes: Seq<u8>,
    outcome: Option<DocumentView>,
)
    requires
        bincode_layout(d).len() <= u64::MAX,
        is_cut_of(bytes, bincode_layout(d)),
        outcome matches Some(x) ==> bincode_layout(x).is_prefix_of(bytes),
    ensures
        outcome is None,
{
    if let Some(x) = outcome {
        lemma_no_layout_in_a_cut(x, d, bytes);
    }
}

/// Of two documents that differ in their payload alone, the one with the
/// shorter payload has the shorter layout.
pub proof fn lemma_shorter_content_shorter_layout(a: DocumentView, b: DocumentView)
    requires
        a.id == b.id,
        a.name == b.name,
        a.authors == b.authors,
        a.content.len() < b.content.len(),
    ensures
        bincode_layout(a).len() < bincode_layout(b).len(),
{
    lemma_layout_len(a);
    lemma_layout_len(b);
}

proof fn lemma_people_len_append(a: Seq<PersonView>, b: Seq<PersonView>)
    ensures
        people_len(a + b) == people_len(a) + people_len(b),
    decreases a.len(),
{
    if a.len() == 0 {
        assert(a + b =~= b);
    } else {
        assert((a + b).drop_first() =~= a.drop_first() + b);
        lemma_people_len_append(a.drop_first(), b);
    }
}

/// The first `i + 1` persons take the bytes of the first `i` and of the next
/// one, and no more than all of them.
proof fn lemma_people_len_step(ps: Seq<PersonView>, i: int)
    requires
        0 <= i < ps.len(),
    ensures
        people_len(ps.take(i + 1)) == people_len(ps.take(i)) + person_len(ps[i]),
        people_len(ps.take(i + 1)) <= people_len(ps),
{
    let one = seq![ps[i]];
    assert(one.drop_first().len() == 0);
    assert(people_len(one) == person_len(ps[i]) + people_len(one.drop_first()));
    assert(ps.take(i + 1) =~= ps.take(i) + one);
    lemma_people_len_append(ps.take(i), one);
    assert(ps =~= ps.take(i + 1) + ps.skip(i + 1));
    lemma_people_len_append(ps.take(i + 1), ps.skip(i + 1));
}

/// The number of UTF-8 bytes of `s`.
fn text_bytes(s: &String) -> (n: usize)
    ensures
        n == encode_utf8(s@).len(),
{
    s.as_str().as_bytes().len()
}

/// The sum of two lengths, where it fits.
fn sum(a: usize, b: usize) -> (r: Option<usize>)
    ensures
        r matches Some(n) ==> n == a + b,
        r is None ==> a + b > usize::MAX,
{
    if a > usize::MAX - b {
        None
    } else {
        Some(a + b)
    }
}

/// The number of bytes in the layout of `doc`, where a `usize` holds it.
pub fn encoded_len(doc: &Document) -> (r: Option<usize>)
    ensures
        r matches Some(n) ==> n == layout_len(doc@),
        r is None ==> layout_len(doc@) > usize::MAX,
{
    let mut total: usize = match sum(32, text_bytes(&doc.name)) {
        Some(n) => n,
        None => {
            return None;
        },
    };
    let ghost people = doc@.authors;
    let mut i: usize = 0;
    assert(people.take(0).len() == 0);
    while i < doc.authors.len()
        invariant
            i <= doc.authors.len(),
            people == doc@.authors,
            people.len() == doc.authors.len(),
            total == 32 + encode_utf8(doc.name@).len() + people_len(people.take(i as int)),
        decreases doc.authors.len() - i,
    {
        let p = &doc.authors[i];
        proof {
            lemma_people_len_step(people, i as int);
            assert(people[i as int] == p@);
        }
        let name = match sum(16, text_bytes(&p.name)) {
            Some(n) => n,
            None => {
                return None;
            },
        };
        let person = match sum(name, text_bytes(&p.email)) {
            Some(n) => match sum(n, 8) {
                Some(m) => m,
                None => {
                    return None;
                },
            },
            None => {
                return None;
            },
        };
        total = match sum(total, person) {
            Some(n) => n,
            None => {
                return None;
            },
        };
        i += 1;
    }
    assert(people.take(i as int) =~= people);
    sum(total, doc.content.len())
}

} // verus!
