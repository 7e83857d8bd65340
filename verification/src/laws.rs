//! What the operations are for, as laws over what goes in and what comes out.
//!
//! The laws here speak of the members of documents, of texts and of bytes, so
//! that they can be read without the functions that compose them.
pub mod backends;
pub(crate) mod names;
pub mod replies;
pub mod reports;
pub mod requests;
pub mod stream;
pub mod texts;
pub mod views;
