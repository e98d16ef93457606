use vstd::prelude::*;

verus! {

/// A stored book record, as handed back to clients of the service.
///
/// `added_at` is kept as milliseconds since the Unix epoch; turning it into a
/// calendar date is presentation work and happens outside the library.
#[derive(Debug, Clone, PartialEq, Eq)]
pub struct Book {
    pub id: String,
    pub name: String,
    pub author: String,
    pub num_pages: usize,
    pub added_at: i64,
    pub tags: Vec<String>,
}

/// The request body for create and edit: the shape of a `Book` minus the
/// server-assigned `id` and `added_at`.
#[derive(Debug, Clone, PartialEq, Eq)]
pub struct BookRequest {
    pub name: String,
    pub author: String,
    pub num_pages: usize,
    pub tags: Vec<String>,
}

impl BookRequest {
    /// The page count must fit the signed 32-bit field it is stored under.
    pub open spec fn fits_storage(&self) -> bool {
        self.num_pages <= i32::MAX
    }
}

} // verus!
