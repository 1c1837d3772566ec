//! The value types the web layer exchanges with the handlers: requests
//! coming in, categories and words going out.

use vstd::prelude::*;

verus! {

/// A category as reported to clients, with its word count and a few sample
/// words.
#[derive(Debug)]
pub struct Category {
    pub id: i64,
    pub name: Option<String>,
    pub num_words: i64,
    pub sample_words: Vec<String>,
}

#[derive(Debug)]
pub struct CategoryCreateRequest {
    pub name: Option<String>,
}

#[derive(Debug)]
pub struct CategoryUpdateRequest {
    pub name: Option<String>,
}

#[derive(Debug)]
pub struct Categories {
    pub categories: Vec<Category>,
}

#[derive(Debug)]
pub struct WordCreateRequest {
    pub word: String,
}

#[derive(Debug)]
pub struct Word {
    pub id: i64,
    pub word: String,
}

#[derive(Debug)]
pub struct Words {
    pub words: Vec<Word>,
}

/// Failures of the category and word handlers. An ownership mismatch is
/// reported as `NotFound`, never as a distinct "forbidden", so a caller
/// cannot probe for the existence of someone else's resources.
#[derive(Clone, Copy, Debug, PartialEq, Eq, Structural)]
pub enum ApiError {
    /// The resource does not exist for this caller.
    NotFound,
    /// A store constraint was violated.
    StoreError,
}

} // verus!
