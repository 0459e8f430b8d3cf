//! An in-memory store of books with create, read, update and delete
//! operations, and the texts that a web front end reads and shows.
//!
//! - `book`: the book record, a candidate for a new book, a change to one.
//! - `store`: `ResourceStore`, the map from id to book, with `list`, `get`,
//!   `create`, `put`, `patch` and `delete`. Each contract says what the
//!   operation returns and what the store holds after it, as a function of
//!   what the store held before.
//! - `shared`: `SharedStore`, a `ResourceStore` behind a lock, for callers
//!   that use one store at the same time.
//! - `access`: the operations for a caller that may have been given no
//!   store, as when the lock could not be had.
//! - `listing`: the order in which books are listed.
//! - `decode`: from the named values of a request to a book, a candidate or
//!   a change.
//! - `render`: lines, pages and messages that show books; `html`: tables.
//! - `text`: byte order on texts, decimal numerals.
//! - `laws`: what holds of the operations taken together.

pub mod access;
pub mod book;
pub mod decode;
pub mod html;
pub mod laws;
pub mod listing;
pub mod render;
pub mod shared;
pub mod store;
pub mod text;

pub use book::Book;
pub use book::BookChange;
pub use book::NewBook;
pub use shared::SharedStore;
pub use store::ResourceStore;
pub use store::StoreError;
