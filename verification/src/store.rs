use vstd::prelude::*;

use crate::book::{Book, BookRequest};
use crate::codec::{
    book_document, book_matches_doc, doc_ok, doc_oid, doc_to_book, is_book_doc,
    lemma_book_doc_id, lemma_book_doc_round_trip, missing_key,
};
use crate::doc::{lookup, Document, Value};
use crate::error::Error;
use crate::oid::{
    bytes_of_hex, hex_of, is_object_id_hex, lemma_hex_round_trip, parse_object_id,
};
use vstd::std_specs::cmp::PartialEqSpec;

verus! {

/// The collection of stored book documents, in storage order, and the
/// single-document operations the service asks of it. The surrounding
/// program keeps one of these in step with every database call it makes;
/// everything the operations promise is stated over the document sequence.
pub struct Store {
    pub docs: Vec<Document>,
}

impl Store {
    /// Keyed documents are keyed uniquely: no two documents carry the same
    /// object identifier.
    pub open spec fn wf(&self) -> bool {
        forall|i: int, j: int|
            0 <= i < j < self.docs@.len() && (#[trigger] doc_oid(self.docs@[i].fields@)) is Some
                ==> doc_oid(self.docs@[i].fields@) != #[trigger] doc_oid(self.docs@[j].fields@)
    }

    /// An empty collection.
    pub fn new() -> (r: Store)
        ensures
            r.docs@ =~= Seq::<Document>::empty(),
            r.wf(),
    {
        Store { docs: Vec::new() }
    }

    /// Whether the document is keyed by exactly the given identifier bytes.
    fn doc_has_oid(d: &Document, oid: &Vec<u8>) -> (r: bool)
        ensures
            r == (doc_oid(d.fields@) == Some(oid@)),
    {
        match d.get("_id") {
            Some(Value::ObjectId(b)) => {
                let same = b == oid;
                proof {
                    if same {
                        assert(b@ =~= oid@);
                    } else {
                        assert(b@ != oid@) by {
                            if b@ == oid@ {
                                assert(b.eq_spec(oid));
                            }
                        }
                    }
                }
                same
            },
            _ => false,
        }
    }

    /// Lists every stored book, in storage order.
    ///
    /// Succeeds exactly when every document reads back as a book; one
    /// unreadable document fails the whole call, with the error of the
    /// first such document.
    pub fn fetch_books(&self) -> (r: Result<Vec<Book>, Error>)
        ensures
            r is Ok <==> (forall|i: int|
                0 <= i < self.docs@.len() ==> doc_ok(#[trigger] self.docs@[i].fields@)),
            (r matches Ok(bs) ==> bs@.len() == self.docs@.len() && (forall|i: int|
                0 <= i < bs@.len() ==> book_matches_doc(#[trigger] bs@[i], self.docs@[i].fields@))),
            (r matches Err(e) ==> exists|i: int|
                0 <= i < self.docs@.len() && !doc_ok(#[trigger] self.docs@[i].fields@)
                    && (forall|k: int| 0 <= k < i ==> doc_ok(#[trigger] self.docs@[k].fields@))
                    && (e matches Error::MongoDataError(key)
                        && key@ == missing_key(self.docs@[i].fields@))),
    {
        let mut out: Vec<Book> = Vec::new();
        let n = self.docs.len();
        for i in 0..n
            invariant
                n == self.docs@.len(),
                out@.len() == i,
                forall|k: int| 0 <= k < i ==> doc_ok(#[trigger] self.docs@[k].fields@),
                forall|k: int|
                    0 <= k < i ==> book_matches_doc(#[trigger] out@[k], self.docs@[k].fields@),
        {
            match doc_to_book(&self.docs[i]) {
                Ok(b) => out.push(b),
                Err(e) => {
                    return Err(e);
                },
            }
        }
        Ok(out)
    }

    /// Stores a new book document built from the request, keyed by the
    /// freshly assigned identifier and stamped with the write time. Every
    /// document already stored is kept, unchanged and in place.
    pub fn create_book(&mut self, entry: &BookRequest, oid: &Vec<u8>, now_ms: i64)
        requires
            entry.fits_storage(),
            old(self).wf(),
            forall|i: int|
                0 <= i < old(self).docs@.len()
                    ==> doc_oid(#[trigger] old(self).docs@[i].fields@) != Some(oid@),
        ensures
            final(self).wf(),
            final(self).docs@.len() == old(self).docs@.len() + 1,
            forall|i: int|
                0 <= i < old(self).docs@.len()
                    ==> final(self).docs@[i] == #[trigger] old(self).docs@[i],
            is_book_doc(
                final(self).docs@.last(),
                oid@,
                entry.name@,
                entry.author@,
                entry.num_pages as int,
                now_ms as int,
                entry.tags.deep_view(),
            ),
    {
        let d = book_document(entry, oid.as_slice(), now_ms);
        self.docs.push(d);
        proof {
            lemma_book_doc_id(self.docs@.last(), oid@, entry.name@, entry.author@,
                entry.num_pages as int, now_ms as int, entry.tags.deep_view());
            assert forall|i: int| 0 <= i < old(self).docs@.len() implies doc_oid(
                #[trigger] self.docs@[i].fields@,
            ) == doc_oid(old(self).docs@[i].fields@) by {
                assert(self.docs@[i] == old(self).docs@[i]);
            }
        }
    }

    /// Replaces every non-identifier field of the document keyed by `id`
    /// with the request's fields and a fresh stamp. A malformed `id` is
    /// rejected as an invalid identifier and nothing changes; an absent one
    /// succeeds silently and nothing changes either.
    pub fn edit_book(&mut self, id: &str, entry: &BookRequest, now_ms: i64) -> (r: Result<
        (),
        Error,
    >)
        requires
            entry.fits_storage(),
            old(self).wf(),
        ensures
            final(self).wf(),
            final(self).docs@.len() == old(self).docs@.len(),
            !is_object_id_hex(id@) ==> (r matches Err(e) && e matches Error::InvalidIDError(s)
                && s@ == id@) && final(self).docs@ == old(self).docs@,
            is_object_id_hex(id@) ==> r is Ok && (forall|i: int|
                0 <= i < old(self).docs@.len()
                    && doc_oid(#[trigger] old(self).docs@[i].fields@) != Some(bytes_of_hex(id@))
                    ==> final(self).docs@[i] == old(self).docs@[i]) && (forall|i: int|
                0 <= i < old(self).docs@.len()
                    && doc_oid(#[trigger] old(self).docs@[i].fields@) == Some(bytes_of_hex(id@))
                    ==> is_book_doc(
                    final(self).docs@[i],
                    bytes_of_hex(id@),
                    entry.name@,
                    entry.author@,
                    entry.num_pages as int,
                    now_ms as int,
                    entry.tags.deep_view(),
                )),
    {
        let oid = match parse_object_id(id) {
            Some(b) => b,
            None => {
                return Err(Error::InvalidIDError(id.to_owned()));
            },
        };
        let n = self.docs.len();
        for i in 0..n
            invariant
                entry.fits_storage(),
                n == self.docs@.len(),
                old(self).docs@.len() == n,
                oid@ == bytes_of_hex(id@),
                oid@.len() == 12,
                forall|k: int|
                    i <= k < n ==> #[trigger] self.docs@[k] == old(self).docs@[k],
                forall|k: int|
                    0 <= k < i && doc_oid(#[trigger] old(self).docs@[k].fields@) != Some(oid@)
                        ==> self.docs@[k] == old(self).docs@[k],
                forall|k: int|
                    0 <= k < i && doc_oid(#[trigger] old(self).docs@[k].fields@) == Some(oid@)
                        ==> is_book_doc(
                        self.docs@[k],
                        oid@,
                        entry.name@,
                        entry.author@,
                        entry.num_pages as int,
                        now_ms as int,
                        entry.tags.deep_view(),
                    ),
        {
            if Self::doc_has_oid(&self.docs[i], &oid) {
                let d = book_document(entry, oid.as_slice(), now_ms);
                self.docs[i] = d;
            }
        }
        proof {
            assert forall|i: int, j: int|
                0 <= i < j < self.docs@.len() && (#[trigger] doc_oid(self.docs@[i].fields@)) is Some
                    implies doc_oid(self.docs@[i].fields@) != #[trigger] doc_oid(
                    self.docs@[j].fields@,
                ) by {
                    lemma_edit_keeps_oid(old(self).docs@[i], self.docs@[i], oid@, entry, now_ms);
                    lemma_edit_keeps_oid(old(self).docs@[j], self.docs@[j], oid@, entry, now_ms);
                }
        }
        Ok(())
    }

    /// Removes the document keyed by `id`. A malformed `id` is rejected as
    /// an invalid identifier; an absent one succeeds silently. Either way
    /// every other document is kept, in order, and afterwards no stored
    /// document is keyed by `id`.
    pub fn delete_book(&mut self, id: &str) -> (r: Result<(), Error>)
        requires
            old(self).wf(),
        ensures
            final(self).wf(),
            !is_object_id_hex(id@) ==> (r matches Err(e) && e matches Error::InvalidIDError(s)
                && s@ == id@) && final(self).docs@ == old(self).docs@,
            is_object_id_hex(id@) ==> r is Ok,
            is_object_id_hex(id@) && (forall|i: int|
                0 <= i < old(self).docs@.len()
                    ==> doc_oid(#[trigger] old(self).docs@[i].fields@) != Some(bytes_of_hex(id@)))
                ==> final(self).docs@ == old(self).docs@,
            is_object_id_hex(id@) && (exists|i: int|
                0 <= i < old(self).docs@.len()
                    && doc_oid(#[trigger] old(self).docs@[i].fields@) == Some(bytes_of_hex(id@)))
                ==> (exists|i: int|
                0 <= i < old(self).docs@.len()
                    && doc_oid(#[trigger] old(self).docs@[i].fields@) == Some(bytes_of_hex(id@))
                    && final(self).docs@ == old(self).docs@.remove(i)),
            is_object_id_hex(id@) ==> (forall|i: int|
                0 <= i < final(self).docs@.len()
                    ==> doc_oid(#[trigger] final(self).docs@[i].fields@) != Some(
                    bytes_of_hex(id@),
                )),
    {
        let oid = match parse_object_id(id) {
            Some(b) => b,
            None => {
                return Err(Error::InvalidIDError(id.to_owned()));
            },
        };
        let n = self.docs.len();
        for i in 0..n
            invariant
                old(self).wf(),
                is_object_id_hex(id@),
                n == self.docs@.len(),
                self.docs@ == old(self).docs@,
                oid@ == bytes_of_hex(id@),
                forall|k: int|
                    0 <= k < i ==> doc_oid(#[trigger] self.docs@[k].fields@) != Some(oid@),
        {
            if Self::doc_has_oid(&self.docs[i], &oid) {
                self.docs.remove(i);
                proof {
                    let before = old(self).docs@;
                    assert forall|k: int| 0 <= k < self.docs@.len() implies doc_oid(
                        #[trigger] self.docs@[k].fields@,
                    ) != Some(oid@) by {
                        if k < i {
                            assert(self.docs@[k] == before[k]);
                        } else {
                            assert(self.docs@[k] == before[k + 1]);
                            assert(doc_oid(before[i as int].fields@) is Some);
                            assert(doc_oid(before[i as int].fields@) != doc_oid(
                                before[k + 1].fields@,
                            ));
                        }
                    }
                    assert forall|p: int, q: int|
                        0 <= p < q < self.docs@.len() && (#[trigger] doc_oid(
                            self.docs@[p].fields@,
                        )) is Some implies doc_oid(self.docs@[p].fields@) != #[trigger] doc_oid(
                        self.docs@[q].fields@,
                    ) by {
                        let p0: int = if p < i { p } else { p + 1 };
                        let q0: int = if q < i { q } else { q + 1 };
                        assert(self.docs@[p] == before[p0]);
                        assert(self.docs@[q] == before[q0]);
                        assert(doc_oid(before[p0].fields@) is Some ==> doc_oid(before[p0].fields@)
                            != doc_oid(before[q0].fields@));
                    }
                }
                return Ok(());
            }
        }
        Ok(())
    }
}

/// Finding a stored book by its identifier: in a listing of a well-formed
/// store that holds a book document keyed by `oid`, the book listed under
/// the identifier's text exists, is the only one so listed, and carries
/// exactly the document's fields. With `create_book`'s promise about the
/// document it stores, this is the create-then-list-then-find round trip;
/// with `edit_book`'s, it says a listing after an edit shows the edited
/// fields and nothing else changed.
pub proof fn lemma_find_by_id(
    s: Store,
    j: int,
    oid: Seq<u8>,
    name: Seq<char>,
    author: Seq<char>,
    pages: int,
    at: int,
    tags: Seq<Seq<char>>,
    books: Seq<Book>,
)
    requires
        s.wf(),
        0 <= j < s.docs@.len(),
        is_book_doc(s.docs@[j], oid, name, author, pages, at, tags),
        pages >= 0,
        books.len() == s.docs@.len(),
        forall|i: int|
            0 <= i < books.len() ==> book_matches_doc(#[trigger] books[i], s.docs@[i].fields@),
    ensures
        books[j].id@ == hex_of(oid),
        forall|i: int|
            0 <= i < books.len() && (#[trigger] books[i].id@) == hex_of(oid) ==> i == j
                && books[i].name@ == name && books[i].author@ == author
                && books[i].num_pages as int == pages && books[i].added_at as int == at
                && books[i].tags.deep_view() == tags,
{
    lemma_book_doc_id(s.docs@[j], oid, name, author, pages, at, tags);
    lemma_book_doc_round_trip(s.docs@[j], oid, name, author, pages, at, tags);
    assert(book_matches_doc(books[j], s.docs@[j].fields@));
    assert forall|i: int|
        0 <= i < books.len() && (#[trigger] books[i].id@) == hex_of(oid) implies i == j
            && books[i].name@ == name && books[i].author@ == author
            && books[i].num_pages as int == pages && books[i].added_at as int == at
            && books[i].tags.deep_view() == tags by {
        match lookup(s.docs@[i].fields@, "_id"@) {
            Some(Value::ObjectId(ob)) => {
                lemma_hex_round_trip(ob@);
                lemma_hex_round_trip(oid);
                assert(ob@ == oid);
                assert(doc_oid(s.docs@[i].fields@) == Some(oid));
                assert(doc_oid(s.docs@[j].fields@) == Some(oid));
                if i < j {
                    assert(doc_oid(s.docs@[i].fields@) != doc_oid(s.docs@[j].fields@));
                } else if j < i {
                    assert(doc_oid(s.docs@[j].fields@) != doc_oid(s.docs@[i].fields@));
                }
            },
            _ => {},
        }
    }
}

/// A listing taken after a delete of `id` no longer shows any book under
/// that identifier: what `delete_book` promises of the documents carries
/// over to what `fetch_books` lists.
pub proof fn lemma_deleted_id_not_listed(s: Store, id: Seq<char>, books: Seq<Book>)
    requires
        is_object_id_hex(id),
        forall|i: int|
            0 <= i < s.docs@.len()
                ==> doc_oid(#[trigger] s.docs@[i].fields@) != Some(bytes_of_hex(id)),
        books.len() == s.docs@.len(),
        forall|i: int|
            0 <= i < books.len() ==> book_matches_doc(#[trigger] books[i], s.docs@[i].fields@),
    ensures
        forall|i: int| 0 <= i < books.len() ==> (#[trigger] books[i].id@) != id,
{
    assert forall|i: int| 0 <= i < books.len() implies (#[trigger] books[i].id@) != id by {
        match lookup(s.docs@[i].fields@, "_id"@) {
            Some(Value::ObjectId(ob)) => {
                if books[i].id@ == id {
                    lemma_hex_round_trip(ob@);
                    assert(ob@ == bytes_of_hex(id));
                    assert(doc_oid(s.docs@[i].fields@) == Some(bytes_of_hex(id)));
                }
            },
            _ => {},
        }
    }
}

/// Editing under an identifier never changes which identifier, if any, a
/// document is keyed by.
proof fn lemma_edit_keeps_oid(
    before: Document,
    after: Document,
    oid: Seq<u8>,
    entry: &BookRequest,
    now_ms: i64,
)
    requires
        doc_oid(before.fields@) != Some(oid) ==> after == before,
        doc_oid(before.fields@) == Some(oid) ==> is_book_doc(
            after,
            oid,
            entry.name@,
            entry.author@,
            entry.num_pages as int,
            now_ms as int,
            entry.tags.deep_view(),
        ),
    ensures
        doc_oid(after.fields@) == doc_oid(before.fields@),
{
    if doc_oid(before.fields@) == Some(oid) {
        lemma_book_doc_id(after, oid, entry.name@, entry.author@, entry.num_pages as int,
            now_ms as int, entry.tags.deep_view());
    }
}

} // verus!
