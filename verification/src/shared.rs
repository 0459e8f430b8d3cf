//! A store behind a lock, for callers that share it.
//!
//! Each operation takes the lock, hands the store behind it to the operation
//! of `access` and gives the lock back before it returns, so two operations
//! never overlap. What the store holds then depends on the callers that came
//! before: the contracts here state what holds whatever it held, and those
//! of `access` state what comes of each store and of a lock that was not had.

use std::sync::Mutex;
use std::sync::MutexGuard;
use vstd::prelude::*;

use crate::access;
use crate::book::text_view;
use crate::book::views;
use crate::book::Book;
use crate::book::BookChange;
use crate::book::NewBook;
use crate::listing::in_order;
use crate::listing::lemma_listed_once_by_title;
use crate::listing::title_le;
use crate::store::ResourceStore;
use crate::store::StoreError;

verus! {

/// `std::sync::Mutex`: a lock around a value. Nothing is stated of what it
/// holds.
#[verifier::external_type_specification]
#[verifier::external_body]
#[verifier::reject_recursive_types(T)]
pub struct ExMutex<T: ?Sized>(Mutex<T>);

/// `std::sync::MutexGuard`: the lock while it is held. To drop the guard
/// gives the lock back.
#[verifier::external_type_specification]
#[verifier::external_body]
#[verifier::reject_recursive_types(T)]
pub struct ExMutexGuard<'a, T: ?Sized + 'a>(MutexGuard<'a, T>);

/// A store that many callers can use at once.
pub struct SharedStore {
    lock: Mutex<ResourceStore>,
}

/// `Mutex::new`: puts the store behind a new lock. Nothing is claimed of the
/// result.
#[verifier::external_body]
fn behind_lock(store: ResourceStore) -> (lock: Mutex<ResourceStore>) {
    Mutex::new(store)
}

/// `Mutex::lock`: waits for the lock and takes it. The result is `None`
/// where the lock is poisoned, that is where a holder of it has panicked.
/// Nothing is claimed of when that is, nor of the store behind the lock. The
/// calling thread must not hold the lock already: each operation of
/// `SharedStore` takes it once, and has given it back when it returns.
#[verifier::external_body]
fn acquire<'a>(lock: &'a Mutex<ResourceStore>) -> (guard: Option<
    MutexGuard<'a, ResourceStore>,
>) {
    match lock.lock() {
        Ok(guard) => Some(guard),
        Err(_) => None,
    }
}

/// `DerefMut::deref_mut` of the guard: the store behind the lock that the
/// guard holds. Nothing is claimed of the store: it is as the last holder of
/// the lock left it.
#[verifier::external_body]
fn held<'g, 'a>(guard: &'g mut MutexGuard<'a, ResourceStore>) -> (store: &'g mut ResourceStore) {
    &mut **guard
}

impl SharedStore {
    /// Puts `store` behind a lock.
    pub fn new(store: ResourceStore) -> (shared: Self) {
        SharedStore { lock: behind_lock(store) }
    }

    /// All books in listing order, each once. Fails with
    /// `InternalUnavailable` where the lock could not be had, and in no other
    /// way.
    pub fn list(&self) -> (outcome: Result<Vec<Book>, StoreError>)
        ensures
            match outcome {
                Ok(books) => {
                    &&& in_order(views(books@))
                    &&& forall|i: int, j: int|
                        0 <= i < j < books.len() ==> (#[trigger] books[i]).id != (
                        #[trigger] books[j]).id
                    &&& forall|i: int, j: int|
                        0 <= i <= j < books.len() ==> title_le(
                            (#[trigger] books[i]).title@,
                            (#[trigger] books[j]).title@,
                        )
                },
                Err(error) => error == StoreError::InternalUnavailable,
            },
    {
        match acquire(&self.lock) {
            None => access::list(None),
            Some(mut guard) => {
                let store = held(&mut guard);
                let outcome = access::list(Some(&*store));
                proof {
                    lemma_listed_once_by_title(store@, outcome->Ok_0@);
                }
                outcome
            },
        }
    }

    /// The book with this id, if there is one. Fails with
    /// `InternalUnavailable` where the lock could not be had, and in no other
    /// way. The answer is that of `access::get` on the store as it was while
    /// this call held the lock. Another caller may have changed the store
    /// before and may change it after, so the contract states only what holds
    /// of the answer on every store: a book that is found has the id asked
    /// for.
    pub fn get(&self, id: u32) -> (outcome: Result<Option<Book>, StoreError>)
        ensures
            match outcome {
                Ok(Some(book)) => book.id == id,
                Ok(None) => true,
                Err(error) => error == StoreError::InternalUnavailable,
            },
    {
        match acquire(&self.lock) {
            None => access::get(None, id),
            Some(mut guard) => {
                let store = held(&mut guard);
                proof {
                    store.lemma_keyed_by_id();
                }
                access::get(Some(&*store), id)
            },
        }
    }

    /// Stores the candidate under a new id and returns the book as stored.
    /// Fails with `InternalUnavailable` where the lock could not be had or no
    /// id is left, and in no other way.
    pub fn create(&self, candidate: NewBook) -> (outcome: Result<Book, StoreError>)
        ensures
            match outcome {
                Ok(book) => book.id >= 1 && book.title@ == candidate.title@ && book.author@
                    == candidate.author@,
                Err(error) => error == StoreError::InternalUnavailable,
            },
    {
        match acquire(&self.lock) {
            None => access::create(None, candidate),
            Some(mut guard) => access::create(Some(held(&mut guard)), candidate),
        }
    }

    /// Stores `book` under its id and returns the book as stored. Fails with
    /// `InternalUnavailable` where the lock could not be had, and in no other
    /// way.
    pub fn put(&self, book: Book) -> (outcome: Result<Book, StoreError>)
        ensures
            match outcome {
                Ok(stored) => stored@ == book@,
                Err(error) => error == StoreError::InternalUnavailable,
            },
    {
        match acquire(&self.lock) {
            None => access::put(None, book),
            Some(mut guard) => access::put(Some(held(&mut guard)), book),
        }
    }

    /// Sets the fields that `change` names on the book with this id and
    /// returns the book as it then is. Fails with `NotFound` where there is
    /// no such book, and with `InternalUnavailable` where the lock could not
    /// be had.
    pub fn patch(&self, id: u32, change: &BookChange) -> (outcome: Result<Book, StoreError>)
        ensures
            outcome matches Ok(book) ==> {
                &&& book.id == id
                &&& change.title is Some ==> Some(book.title@) == text_view(change.title)
                &&& change.author is Some ==> Some(book.author@) == text_view(change.author)
            },
    {
        match acquire(&self.lock) {
            None => access::patch(None, id, change),
            Some(mut guard) => {
                let store = held(&mut guard);
                proof {
                    store.lemma_keyed_by_id();
                }
                access::patch(Some(store), id, change)
            },
        }
    }

    /// Removes the book with this id. Fails with `NotFound` where there is no
    /// such book, and with `InternalUnavailable` where the lock could not be
    /// had.
    pub fn delete(&self, id: u32) -> (outcome: Result<(), StoreError>) {
        match acquire(&self.lock) {
            None => access::delete(None, id),
            Some(mut guard) => access::delete(Some(held(&mut guard)), id),
        }
    }
}

} // verus!
