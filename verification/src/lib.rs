//! A small book-catalogue service core: the record and request shapes, the
//! mapping between records and stored key/value documents, textual object
//! identifiers, the failure taxonomy with its HTTP status mapping, and a
//! model of the document collection with the four operations the service
//! performs on it. The HTTP and database plumbing around this library lives
//! outside it and hands plain values in and out.

pub mod book;
pub mod codec;
pub mod doc;
pub mod error;
pub mod oid;
pub mod store;
