use vstd::prelude::*;

use crate::book::{Book, BookRequest};
use crate::doc::{lemma_lookup_skip, lookup, Document, Field, Value};
use crate::error::Error;
use crate::oid::{hex_of, object_id_hex};

verus! {

/// A document carries every field a `Book` requires, under the right key and
/// of the right type. The page count must also be non-negative, the one
/// coercion the 32-bit storage field needs.
pub open spec fn doc_ok(fields: Seq<Field>) -> bool {
    &&& lookup(fields, "_id"@) matches Some(Value::ObjectId(_))
    &&& lookup(fields, "name"@) matches Some(Value::Text(_))
    &&& lookup(fields, "author"@) matches Some(Value::Text(_))
    &&& (lookup(fields, "num_pages"@) matches Some(Value::Int32(n)) && n >= 0)
    &&& lookup(fields, "added_at"@) matches Some(Value::DateTime(_))
}

/// The first required key, in reading order, that a document fails on.
pub open spec fn missing_key(fields: Seq<Field>) -> Seq<char> {
    if !(lookup(fields, "_id"@) matches Some(Value::ObjectId(_))) {
        "_id"@
    } else if !(lookup(fields, "name"@) matches Some(Value::Text(_))) {
        "name"@
    } else if !(lookup(fields, "author"@) matches Some(Value::Text(_))) {
        "author"@
    } else if !(lookup(fields, "num_pages"@) matches Some(Value::Int32(n)) && n >= 0) {
        "num_pages"@
    } else {
        "added_at"@
    }
}

/// The string members of an array of values, in order, everything else
/// silently dropped.
pub open spec fn string_views(vs: Seq<Value>) -> Seq<Seq<char>>
    decreases vs.len(),
{
    if vs.len() == 0 {
        Seq::empty()
    } else {
        let rest = string_views(vs.drop_last());
        match vs.last() {
            Value::Text(s) => rest.push(s@),
            _ => rest,
        }
    }
}

/// The tag list a document yields: the string members of its `tags` array,
/// or nothing at all when `tags` is missing or not an array.
pub open spec fn tags_of(fields: Seq<Field>) -> Seq<Seq<char>> {
    match lookup(fields, "tags"@) {
        Some(Value::Array(vs)) => string_views(vs@),
        _ => Seq::empty(),
    }
}

/// `b` is the in-process record the stored document stands for.
pub open spec fn book_matches_doc(b: Book, fields: Seq<Field>) -> bool {
    &&& (lookup(fields, "_id"@) matches Some(Value::ObjectId(ob)) && b.id@ == hex_of(ob@))
    &&& (lookup(fields, "name"@) matches Some(Value::Text(s)) && b.name@ == s@)
    &&& (lookup(fields, "author"@) matches Some(Value::Text(s)) && b.author@ == s@)
    &&& (lookup(fields, "num_pages"@) matches Some(Value::Int32(n)) && b.num_pages as int == n as int)
    &&& (lookup(fields, "added_at"@) matches Some(Value::DateTime(t)) && b.added_at == t)
    &&& b.tags.deep_view() == tags_of(fields)
}

/// The exact shape of a document this service writes: the six fields, in
/// order, each of the stored type, with the given contents.
pub open spec fn is_book_doc(
    d: Document,
    oid: Seq<u8>,
    name: Seq<char>,
    author: Seq<char>,
    pages: int,
    at: int,
    tags: Seq<Seq<char>>,
) -> bool {
    &&& d.fields@.len() == 6
    &&& d.fields@[0].key@ == "_id"@
    &&& (d.fields@[0].value matches Value::ObjectId(b) && b@ == oid)
    &&& d.fields@[1].key@ == "name"@
    &&& (d.fields@[1].value matches Value::Text(s) && s@ == name)
    &&& d.fields@[2].key@ == "author"@
    &&& (d.fields@[2].value matches Value::Text(s) && s@ == author)
    &&& d.fields@[3].key@ == "num_pages"@
    &&& (d.fields@[3].value matches Value::Int32(n) && n as int == pages)
    &&& d.fields@[4].key@ == "added_at"@
    &&& (d.fields@[4].value matches Value::DateTime(t) && t as int == at)
    &&& d.fields@[5].key@ == "tags"@
    &&& (d.fields@[5].value matches Value::Array(vs) && vs@.len() == tags.len() && (forall|i: int|
        0 <= i < vs@.len() ==> (#[trigger] vs@[i] matches Value::Text(s) && s@ == tags[i])))
}

/// Builds the document stored for a book: the identifier, the four request
/// fields, and the write-time stamp, under their reserved keys.
pub fn book_document(entry: &BookRequest, oid: &[u8], now_ms: i64) -> (r: Document)
    requires
        entry.fits_storage(),
    ensures
        is_book_doc(
            r,
            oid@,
            entry.name@,
            entry.author@,
            entry.num_pages as int,
            now_ms as int,
            entry.tags.deep_view(),
        ),
{
    let mut vs: Vec<Value> = Vec::new();
    let m = entry.tags.len();
    for i in 0..m
        invariant
            m == entry.tags@.len(),
            vs@.len() == i,
            forall|j: int|
                0 <= j < i ==> (#[trigger] vs@[j] matches Value::Text(s)
                    && s@ == entry.tags.deep_view()[j]),
    {
        vs.push(Value::Text(entry.tags[i].clone()));
    }
    let mut d = Document::new();
    d.push_field(String::from_str("_id"), Value::ObjectId(vstd::slice::slice_to_vec(oid)));
    d.push_field(String::from_str("name"), Value::Text(entry.name.clone()));
    d.push_field(String::from_str("author"), Value::Text(entry.author.clone()));
    d.push_field(String::from_str("num_pages"), Value::Int32(entry.num_pages as i32));
    d.push_field(String::from_str("added_at"), Value::DateTime(now_ms));
    d.push_field(String::from_str("tags"), Value::Array(vs));
    d
}

/// Reads a stored document back into a `Book`.
///
/// Succeeds exactly on documents that carry every required field of the
/// required type; the error names the first key that fails. A missing or
/// malformed tag list is no failure: it reads as no tags at all.
pub fn doc_to_book(d: &Document) -> (r: Result<Book, Error>)
    ensures
        r is Ok <==> doc_ok(d.fields@),
        (r matches Ok(b) ==> book_matches_doc(b, d.fields@)),
        (r matches Err(e) ==> e matches Error::MongoDataError(k) && k@ == missing_key(d.fields@)),
{
    let id = match d.get("_id") {
        Some(Value::ObjectId(b)) => object_id_hex(b.as_slice()),
        _ => {
            return Err(Error::MongoDataError(String::from_str("_id")));
        },
    };
    let name = match d.get("name") {
        Some(Value::Text(s)) => s.clone(),
        _ => {
            return Err(Error::MongoDataError(String::from_str("name")));
        },
    };
    let author = match d.get("author") {
        Some(Value::Text(s)) => s.clone(),
        _ => {
            return Err(Error::MongoDataError(String::from_str("author")));
        },
    };
    let num_pages = match d.get("num_pages") {
        Some(Value::Int32(n)) => {
            if *n >= 0 {
                *n as usize
            } else {
                return Err(Error::MongoDataError(String::from_str("num_pages")));
            }
        },
        _ => {
            return Err(Error::MongoDataError(String::from_str("num_pages")));
        },
    };
    let added_at = match d.get("added_at") {
        Some(Value::DateTime(t)) => *t,
        _ => {
            return Err(Error::MongoDataError(String::from_str("added_at")));
        },
    };
    let mut tags: Vec<String> = Vec::new();
    match d.get("tags") {
        Some(Value::Array(vs)) => {
            let m = vs.len();
            for i in 0..m
                invariant
                    m == vs@.len(),
                    tags.deep_view() =~= string_views(vs@.take(i as int)),
            {
                let ghost prev = tags.deep_view();
                match &vs[i] {
                    Value::Text(s) => {
                        tags.push(s.clone());
                        proof {
                            assert(tags.deep_view() =~= prev.push(s@));
                        }
                    },
                    _ => {},
                }
                proof {
                    assert(vs@.take(i + 1).drop_last() =~= vs@.take(i as int));
                    assert(vs@.take(i + 1).last() == vs@[i as int]);
                }
            }
            proof {
                assert(vs@.take(m as int) =~= vs@);
            }
        },
        _ => {},
    }
    proof {
        assert(tags.deep_view() =~= tags_of(d.fields@));
    }
    Ok(Book { id, name, author, num_pages, added_at, tags })
}

/// The six reserved keys are pairwise distinct text.
proof fn lemma_keys_distinct()
    ensures
        "_id"@ != "name"@,
        "_id"@ != "author"@,
        "_id"@ != "num_pages"@,
        "_id"@ != "added_at"@,
        "_id"@ != "tags"@,
        "name"@ != "author"@,
        "name"@ != "num_pages"@,
        "name"@ != "added_at"@,
        "name"@ != "tags"@,
        "author"@ != "num_pages"@,
        "author"@ != "added_at"@,
        "author"@ != "tags"@,
        "num_pages"@ != "added_at"@,
        "num_pages"@ != "tags"@,
        "added_at"@ != "tags"@,
{
    reveal_strlit("_id");
    reveal_strlit("name");
    reveal_strlit("author");
    reveal_strlit("num_pages");
    reveal_strlit("added_at");
    reveal_strlit("tags");
    assert("_id"@.len() == 3);
    assert("name"@.len() == 4);
    assert("author"@.len() == 6);
    assert("num_pages"@.len() == 9);
    assert("added_at"@.len() == 8);
    assert("tags"@.len() == 4);
    assert("name"@[0] == 'n' && "tags"@[0] == 't');
}

/// In a document of the written shape, each reserved key looks up the field
/// that was written under it.
proof fn lemma_book_doc_lookups(d: Document)
    requires
        d.fields@.len() == 6,
        d.fields@[0].key@ == "_id"@,
        d.fields@[1].key@ == "name"@,
        d.fields@[2].key@ == "author"@,
        d.fields@[3].key@ == "num_pages"@,
        d.fields@[4].key@ == "added_at"@,
        d.fields@[5].key@ == "tags"@,
    ensures
        lookup(d.fields@, "_id"@) == Some(d.fields@[0].value),
        lookup(d.fields@, "name"@) == Some(d.fields@[1].value),
        lookup(d.fields@, "author"@) == Some(d.fields@[2].value),
        lookup(d.fields@, "num_pages"@) == Some(d.fields@[3].value),
        lookup(d.fields@, "added_at"@) == Some(d.fields@[4].value),
        lookup(d.fields@, "tags"@) == Some(d.fields@[5].value),
{
    lemma_keys_distinct();
    let f = d.fields@;
    assert(lookup(f, "_id"@) == Some(f[0].value));
    lemma_lookup_skip(f, "name"@, 1);
    assert(f.skip(1)[0] == f[1]);
    lemma_lookup_skip(f, "author"@, 2);
    assert(f.skip(2)[0] == f[2]);
    lemma_lookup_skip(f, "num_pages"@, 3);
    assert(f.skip(3)[0] == f[3]);
    lemma_lookup_skip(f, "added_at"@, 4);
    assert(f.skip(4)[0] == f[4]);
    lemma_lookup_skip(f, "tags"@, 5);
    assert(f.skip(5)[0] == f[5]);
}

/// An array whose members are exactly the given strings reads back as
/// exactly those strings.
proof fn lemma_string_views_all_text(vs: Seq<Value>, tags: Seq<Seq<char>>)
    requires
        vs.len() == tags.len(),
        forall|i: int| 0 <= i < vs.len() ==> (#[trigger] vs[i] matches Value::Text(s) && s@ == tags[i]),
    ensures
        string_views(vs) == tags,
    decreases vs.len(),
{
    if vs.len() == 0 {
        assert(string_views(vs) =~= tags);
    } else {
        lemma_string_views_all_text(vs.drop_last(), tags.drop_last());
        assert(vs.last() == vs[vs.len() - 1]);
        assert(string_views(vs) =~= tags);
    }
}

/// The object identifier a stored document is keyed by, if it carries one.
pub open spec fn doc_oid(fields: Seq<Field>) -> Option<Seq<u8>> {
    match lookup(fields, "_id"@) {
        Some(Value::ObjectId(b)) => Some(b@),
        _ => None,
    }
}

/// A document of the written shape is keyed by the written identifier.
pub proof fn lemma_book_doc_id(
    d: Document,
    oid: Seq<u8>,
    name: Seq<char>,
    author: Seq<char>,
    pages: int,
    at: int,
    tags: Seq<Seq<char>>,
)
    requires
        is_book_doc(d, oid, name, author, pages, at, tags),
    ensures
        doc_oid(d.fields@) == Some(oid),
{
    lemma_book_doc_lookups(d);
}

/// Round trip through storage: a document written for a book reads back as
/// a record carrying the written identifier, fields and stamp, exactly.
pub proof fn lemma_book_doc_round_trip(
    d: Document,
    oid: Seq<u8>,
    name: Seq<char>,
    author: Seq<char>,
    pages: int,
    at: int,
    tags: Seq<Seq<char>>,
)
    requires
        is_book_doc(d, oid, name, author, pages, at, tags),
        pages >= 0,
    ensures
        doc_ok(d.fields@),
        forall|b: Book|
            #[trigger] book_matches_doc(b, d.fields@) ==> b.id@ == hex_of(oid) && b.name@ == name
                && b.author@ == author && b.num_pages as int == pages && b.added_at as int == at
                && b.tags.deep_view() == tags,
{
    lemma_book_doc_lookups(d);
    match d.fields@[5].value {
        Value::Array(vs) => {
            lemma_string_views_all_text(vs@, tags);
        },
        _ => {},
    }
    assert(tags_of(d.fields@) == tags);
}

} // verus!
