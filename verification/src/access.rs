//! The operations of the store for a caller that first had to ask for it.
//!
//! Each function takes the store that the caller was given, or `None` where
//! it was given none, for example because the lock around the store could
//! not be had. On a store the function does what the operation of
//! `ResourceStore` does; on `None` it fails with `InternalUnavailable`.

use vstd::prelude::*;

use crate::book::some_view;
use crate::book::views;
use crate::book::Book;
use crate::book::BookChange;
use crate::book::NewBook;
use crate::listing::is_listing;
use crate::store::after_create;
use crate::store::after_delete;
use crate::store::after_patch;
use crate::store::after_put;
use crate::store::create_result;
use crate::store::delete_result;
use crate::store::lookup;
use crate::store::ok_view;
use crate::store::patch_result;
use crate::store::ResourceStore;
use crate::store::StoreError;

verus! {

/// All books of the store in listing order, or `InternalUnavailable` where
/// there is no store.
pub fn list(store: Option<&ResourceStore>) -> (outcome: Result<Vec<Book>, StoreError>)
    ensures
        match store {
            Some(found) => outcome matches Ok(books) && is_listing(found@, views(books@)),
            None => outcome == Err::<Vec<Book>, StoreError>(StoreError::InternalUnavailable),
        },
{
    match store {
        Some(found) => Ok(found.list()),
        None => Err(StoreError::InternalUnavailable),
    }
}

/// The book with this id, if the store has one, or `InternalUnavailable`
/// where there is no store.
pub fn get(store: Option<&ResourceStore>, id: u32) -> (outcome: Result<Option<Book>, StoreError>)
    ensures
        match store {
            Some(found) => outcome matches Ok(book) && some_view(book) == lookup(found@, id),
            None => outcome == Err::<Option<Book>, StoreError>(StoreError::InternalUnavailable),
        },
{
    match store {
        Some(found) => Ok(found.get(id)),
        None => Err(StoreError::InternalUnavailable),
    }
}

/// Stores the candidate under a new id, as `ResourceStore::create` does, or
/// fails with `InternalUnavailable` where there is no store.
pub fn create(store: Option<&mut ResourceStore>, candidate: NewBook) -> (outcome: Result<
    Book,
    StoreError,
>)
    ensures
        match store {
            Some(found) => {
                &&& ok_view(outcome) == create_result(
                    found@,
                    candidate.title@,
                    candidate.author@,
                )
                &&& final(found)@ == after_create(found@, candidate.title@, candidate.author@)
            },
            None => outcome == Err::<Book, StoreError>(StoreError::InternalUnavailable),
        },
{
    match store {
        Some(found) => found.create(candidate),
        None => Err(StoreError::InternalUnavailable),
    }
}

/// Stores `book` under its id, as `ResourceStore::put` does, or fails with
/// `InternalUnavailable` where there is no store.
pub fn put(store: Option<&mut ResourceStore>, book: Book) -> (outcome: Result<Book, StoreError>)
    ensures
        match store {
            Some(found) => {
                &&& outcome matches Ok(stored) && stored@ == book@
                &&& final(found)@ == after_put(found@, book@)
            },
            None => outcome == Err::<Book, StoreError>(StoreError::InternalUnavailable),
        },
{
    match store {
        Some(found) => Ok(found.put(book)),
        None => Err(StoreError::InternalUnavailable),
    }
}

/// Sets the fields that `change` names on the book with this id, as
/// `ResourceStore::patch` does, or fails with `InternalUnavailable` where
/// there is no store.
pub fn patch(store: Option<&mut ResourceStore>, id: u32, change: &BookChange) -> (outcome: Result<
    Book,
    StoreError,
>)
    ensures
        match store {
            Some(found) => {
                &&& ok_view(outcome) == patch_result(found@, id, change@)
                &&& final(found)@ == after_patch(found@, id, change@)
            },
            None => outcome == Err::<Book, StoreError>(StoreError::InternalUnavailable),
        },
{
    match store {
        Some(found) => found.patch(id, change),
        None => Err(StoreError::InternalUnavailable),
    }
}

/// Removes the book with this id, as `ResourceStore::delete` does, or fails
/// with `InternalUnavailable` where there is no store.
pub fn delete(store: Option<&mut ResourceStore>, id: u32) -> (outcome: Result<(), StoreError>)
    ensures
        match store {
            Some(found) => {
                &&& outcome == delete_result(found@, id)
                &&& final(found)@ == after_delete(found@, id)
            },
            None => outcome == Err::<(), StoreError>(StoreError::InternalUnavailable),
        },
{
    match store {
        Some(found) => found.delete(id),
        None => Err(StoreError::InternalUnavailable),
    }
}

} // verus!
