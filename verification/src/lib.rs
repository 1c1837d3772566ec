//! Core of a small multi-user vocabulary manager: password credentials,
//! session tokens, and the ownership rule that scopes every access to
//! categories and words by the user that created them.
//!
//! The store itself is an in-memory table set; the surrounding process is
//! expected to hold it behind whatever sharing or persistence it needs and
//! to hand plain values (cookie strings, form fields, clock readings) in
//! and out.

pub mod api_data;
pub mod auth;
pub mod categories;
pub mod credentials;
pub mod seeds;
pub mod store;
pub mod users;
pub mod words;
