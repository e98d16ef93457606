use bookshelf::book::BookRequest;
use bookshelf::codec::{book_document, doc_to_book};
use bookshelf::doc::{Document, Field, Value};
use bookshelf::error::{rejection_status, Error, RejectionKind};
use bookshelf::oid::{object_id_hex, parse_object_id};
use bookshelf::store::Store;

fn dune() -> BookRequest {
    BookRequest {
        name: "Dune".to_string(),
        author: "Herbert".to_string(),
        num_pages: 412,
        tags: vec!["sci-fi".to_string()],
    }
}

fn oid_a() -> Vec<u8> {
    vec![0, 1, 2, 3, 4, 5, 6, 7, 8, 9, 10, 11]
}

#[test]
fn create_then_list_returns_the_record() {
    let mut store = Store::new();
    store.create_book(&dune(), &oid_a(), 1_700_000_000_000);
    let books = store.fetch_books().unwrap();
    assert_eq!(books.len(), 1);
    let b = &books[0];
    assert!(!b.id.is_empty());
    assert_eq!(b.id.len(), 24);
    assert_eq!(b.id, "000102030405060708090a0b");
    assert_eq!(b.name, "Dune");
    assert_eq!(b.author, "Herbert");
    assert_eq!(b.num_pages, 412);
    assert_eq!(b.added_at, 1_700_000_000_000);
    assert_eq!(b.tags, vec!["sci-fi".to_string()]);
}

#[test]
fn edit_changes_pages_and_stamp_only() {
    let mut store = Store::new();
    store.create_book(&dune(), &oid_a(), 1_700_000_000_000);
    let id = store.fetch_books().unwrap()[0].id.clone();
    let mut changed = dune();
    changed.num_pages = 500;
    let r = store.edit_book(&id, &changed, 1_700_000_005_000);
    assert!(r.is_ok());
    let books = store.fetch_books().unwrap();
    assert_eq!(books.len(), 1);
    let b = &books[0];
    assert_eq!(b.id, id);
    assert_eq!(b.num_pages, 500);
    assert_eq!(b.name, "Dune");
    assert_eq!(b.author, "Herbert");
    assert_eq!(b.tags, vec!["sci-fi".to_string()]);
    assert!(b.added_at > 1_700_000_000_000);
    assert_eq!(b.added_at, 1_700_000_005_000);
}

#[test]
fn delete_removes_the_id_and_absent_id_is_silent() {
    let mut store = Store::new();
    store.create_book(&dune(), &oid_a(), 1_700_000_000_000);
    let id = store.fetch_books().unwrap()[0].id.clone();
    assert!(store.delete_book(&id).is_ok());
    let books = store.fetch_books().unwrap();
    assert!(books.iter().all(|b| b.id != id));
    assert_eq!(books.len(), 0);
    // deleting the same id again is no error
    assert!(store.delete_book(&id).is_ok());
}

#[test]
fn malformed_id_is_an_invalid_identifier_failure() {
    let mut store = Store::new();
    store.create_book(&dune(), &oid_a(), 1_700_000_000_000);
    let r = store.edit_book("not-an-id", &dune(), 1_700_000_005_000);
    assert_eq!(r, Err(Error::InvalidIDError("not-an-id".to_string())));
    let r = store.delete_book("not-an-id");
    assert_eq!(r, Err(Error::InvalidIDError("not-an-id".to_string())));
    // the store is untouched either way
    assert_eq!(store.fetch_books().unwrap().len(), 1);
}

#[test]
fn malformed_body_maps_to_bad_request() {
    let (code, message) = rejection_status(&RejectionKind::InvalidBody);
    assert_eq!(code, 400);
    assert_eq!(message, "Invalid Body");
}

#[test]
fn round_trip_preserves_every_request_field() {
    let entry = BookRequest {
        name: "A Memory Called Empire".to_string(),
        author: "Martine".to_string(),
        num_pages: 462,
        tags: vec!["space".to_string(), "opera".to_string()],
    };
    let mut store = Store::new();
    store.create_book(&entry, &vec![0xab; 12], 1_650_000_000_000);
    let books = store.fetch_books().unwrap();
    assert_eq!(books.len(), 1);
    let id = books[0].id.clone();
    let found: Vec<_> = books.iter().filter(|b| b.id == id).collect();
    assert_eq!(found.len(), 1);
    let b = found[0];
    assert_eq!(b.name, entry.name);
    assert_eq!(b.author, entry.author);
    assert_eq!(b.num_pages, entry.num_pages);
    assert_eq!(b.tags, entry.tags);
}

#[test]
fn rejection_statuses_are_exact() {
    assert_eq!(
        rejection_status(&RejectionKind::NotFound),
        (404, "Not Found".to_string())
    );
    assert_eq!(
        rejection_status(&RejectionKind::MethodNotAllowed),
        (405, "Method Not Allowed".to_string())
    );
    assert_eq!(
        rejection_status(&RejectionKind::App(Error::InvalidIDError("x".to_string()))),
        (500, "Internal Server Error".to_string())
    );
    assert_eq!(
        rejection_status(&RejectionKind::App(Error::MongoError("down".to_string()))),
        (500, "Internal Server Error".to_string())
    );
    assert_eq!(
        rejection_status(&RejectionKind::App(Error::MongoQueryError("q".to_string()))),
        (500, "Internal Server Error".to_string())
    );
    assert_eq!(
        rejection_status(&RejectionKind::Other),
        (500, "Internal Server Error".to_string())
    );
}

#[test]
fn object_id_text_is_lower_case_hex_and_parses_back() {
    let bytes = vec![0x00, 0xff, 0x10, 0x2a, 0x3b, 0x4c, 0x5d, 0x6e, 0x7f, 0x80, 0x91, 0xa2];
    let text = object_id_hex(&bytes);
    assert_eq!(text, "00ff102a3b4c5d6e7f8091a2");
    assert_eq!(parse_object_id(&text), Some(bytes));
}

#[test]
fn object_id_parsing_accepts_either_case_and_rejects_the_rest() {
    assert_eq!(
        parse_object_id("00FF102A3B4C5D6E7F8091A2"),
        parse_object_id("00ff102a3b4c5d6e7f8091a2")
    );
    assert_eq!(parse_object_id(""), None);
    assert_eq!(parse_object_id("00ff102a3b4c5d6e7f8091a"), None);
    assert_eq!(parse_object_id("00ff102a3b4c5d6e7f8091a2b"), None);
    assert_eq!(parse_object_id("00ff102a3b4c5d6e7f8091g2"), None);
}

fn field(key: &str, value: Value) -> Field {
    Field {
        key: key.to_string(),
        value,
    }
}

fn full_doc() -> Document {
    book_document(&dune(), &oid_a(), 1_700_000_000_000)
}

#[test]
fn document_missing_a_required_field_fails_with_its_key() {
    let mut d = full_doc();
    d.fields.retain(|f| f.key != "name");
    assert_eq!(
        doc_to_book(&d),
        Err(Error::MongoDataError("name".to_string()))
    );
}

#[test]
fn document_field_of_the_wrong_type_fails_with_its_key() {
    let mut d = full_doc();
    for f in d.fields.iter_mut() {
        if f.key == "num_pages" {
            f.value = Value::Text("412".to_string());
        }
    }
    assert_eq!(
        doc_to_book(&d),
        Err(Error::MongoDataError("num_pages".to_string()))
    );
    let mut d = full_doc();
    for f in d.fields.iter_mut() {
        if f.key == "num_pages" {
            f.value = Value::Int32(-1);
        }
    }
    assert_eq!(
        doc_to_book(&d),
        Err(Error::MongoDataError("num_pages".to_string()))
    );
}

#[test]
fn tag_list_tolerates_absence_and_drops_non_strings() {
    let mut d = full_doc();
    d.fields.retain(|f| f.key != "tags");
    assert_eq!(doc_to_book(&d).unwrap().tags, Vec::<String>::new());

    let d = Document {
        fields: vec![
            field("_id", Value::ObjectId(oid_a())),
            field("name", Value::Text("Dune".to_string())),
            field("author", Value::Text("Herbert".to_string())),
            field("num_pages", Value::Int32(412)),
            field("added_at", Value::DateTime(1_700_000_000_000)),
            field(
                "tags",
                Value::Array(vec![
                    Value::Text("sci-fi".to_string()),
                    Value::Int32(7),
                    Value::Text("classic".to_string()),
                    Value::Other,
                ]),
            ),
        ],
    };
    assert_eq!(
        doc_to_book(&d).unwrap().tags,
        vec!["sci-fi".to_string(), "classic".to_string()]
    );
}

#[test]
fn one_unreadable_document_fails_the_whole_listing() {
    let mut store = Store::new();
    store.create_book(&dune(), &oid_a(), 1_700_000_000_000);
    store.docs.push(Document {
        fields: vec![field("name", Value::Text("stray".to_string()))],
    });
    assert_eq!(
        store.fetch_books(),
        Err(Error::MongoDataError("_id".to_string()))
    );
}

#[test]
fn editing_an_absent_id_succeeds_and_changes_nothing() {
    let mut store = Store::new();
    store.create_book(&dune(), &oid_a(), 1_700_000_000_000);
    let before = store.fetch_books().unwrap();
    let absent = "ffffffffffffffffffffffff";
    assert!(store.edit_book(absent, &dune(), 1_700_000_009_000).is_ok());
    let after = store.fetch_books().unwrap();
    assert_eq!(before.len(), after.len());
    assert_eq!(before[0].id, after[0].id);
    assert_eq!(before[0].added_at, after[0].added_at);
}
