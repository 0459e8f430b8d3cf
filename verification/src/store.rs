//! The store: a map from id to book, with the operations that read and
//! change it.

use std::collections::HashMap;
use vstd::prelude::*;
use vstd::std_specs::hash::spec_hash_map_iter;
use vstd::std_specs::hash::spec_keys_iter;
use vstd::std_specs::iter::IteratorSpec;

use crate::book::changed;
use crate::book::some_view;
use crate::book::views;
use crate::book::Book;
use crate::book::BookChange;
use crate::book::BookChangeView;
use crate::book::BookView;
use crate::book::NewBook;
use crate::laws::law_listing_is_ordered_by_title;
use crate::listing::in_order;
use crate::listing::insert_in_order;
use crate::listing::is_listing;
use crate::listing::title_le;

verus! {

broadcast use vstd::std_specs::hash::group_hash_axioms;

/// Why an operation on the store did not succeed.
#[derive(Clone, Copy, Debug, PartialEq, Eq, Structural)]
pub enum StoreError {
    /// No book has the id that was asked for.
    NotFound,
    /// The store cannot serve the request: exclusive access to it could not
    /// be had, or it has no id left to give to a new book.
    InternalUnavailable,
}

/// Every book stands under its own id.
pub open spec fn keyed_by_id(books: Map<u32, BookView>) -> bool {
    forall|id: u32| books.contains_key(id) ==> (#[trigger] books[id]).id == id
}

/// Whether `id` is present and no greater id is.
pub open spec fn is_greatest_id(books: Map<u32, BookView>, id: u32) -> bool {
    books.contains_key(id) && forall|other: u32| books.contains_key(other) ==> other <= id
}

/// The greatest id present, and 0 where no book is present.
pub open spec fn greatest_id(books: Map<u32, BookView>) -> u32 {
    if exists|id: u32| is_greatest_id(books, id) {
        choose|id: u32| is_greatest_id(books, id)
    } else {
        0
    }
}

/// The book under `id`, if one is present.
pub open spec fn lookup(books: Map<u32, BookView>, id: u32) -> Option<BookView> {
    if books.contains_key(id) {
        Some(books[id])
    } else {
        None
    }
}

/// Whether an id is left for `create` to give: the greatest id present is
/// not the greatest that there can be.
pub open spec fn has_room(books: Map<u32, BookView>) -> bool {
    greatest_id(books) < u32::MAX
}

/// The book that `create` stores for a candidate where an id is left: the
/// candidate's texts under the id that follows the greatest one present.
pub open spec fn created(books: Map<u32, BookView>, title: Seq<char>, author: Seq<char>)
    -> BookView {
    BookView { id: (greatest_id(books) + 1) as u32, title, author }
}

/// What `create` returns: the book that it stores, or `InternalUnavailable`
/// where no id is left.
pub open spec fn create_result(books: Map<u32, BookView>, title: Seq<char>, author: Seq<char>)
    -> Result<BookView, StoreError> {
    if has_room(books) {
        Ok(created(books, title, author))
    } else {
        Err(StoreError::InternalUnavailable)
    }
}

/// The books after `create`: the new book stands beside the others, and
/// where no id is left nothing changes.
pub open spec fn after_create(books: Map<u32, BookView>, title: Seq<char>, author: Seq<char>)
    -> Map<u32, BookView> {
    if has_room(books) {
        books.insert(created(books, title, author).id, created(books, title, author))
    } else {
        books
    }
}

/// The books after `put` has stored `book`.
pub open spec fn after_put(books: Map<u32, BookView>, book: BookView) -> Map<u32, BookView> {
    books.insert(book.id, book)
}

/// What `patch` returns: the changed book, or `NotFound` where no book has
/// the id.
pub open spec fn patch_result(books: Map<u32, BookView>, id: u32, change: BookChangeView)
    -> Result<BookView, StoreError> {
    if books.contains_key(id) {
        Ok(changed(books[id], change))
    } else {
        Err(StoreError::NotFound)
    }
}

/// The books after `patch`: the changed book stands in place of the old one,
/// and where no book has the id nothing changes.
pub open spec fn after_patch(books: Map<u32, BookView>, id: u32, change: BookChangeView)
    -> Map<u32, BookView> {
    if books.contains_key(id) {
        books.insert(id, changed(books[id], change))
    } else {
        books
    }
}

/// What `delete` returns: success, or `NotFound` where no book has the id.
pub open spec fn delete_result(books: Map<u32, BookView>, id: u32) -> Result<(), StoreError> {
    if books.contains_key(id) {
        Ok(())
    } else {
        Err(StoreError::NotFound)
    }
}

/// The books after `delete`: all but the one under `id`.
pub open spec fn after_delete(books: Map<u32, BookView>, id: u32) -> Map<u32, BookView> {
    books.remove(id)
}

/// A book or an error, as contracts see it.
pub open spec fn ok_view(outcome: Result<Book, StoreError>) -> Result<BookView, StoreError> {
    match outcome {
        Ok(book) => Ok(book@),
        Err(error) => Err(error),
    }
}

/// The three books that a seeded store starts with.
pub open spec fn seed() -> Map<u32, BookView> {
    Map::<u32, BookView>::empty().insert(
        1,
        BookView { id: 1, title: "Antigone"@, author: "Sophocles"@ },
    ).insert(2, BookView { id: 2, title: "Beloved"@, author: "Toni Morrison"@ }).insert(
        3,
        BookView { id: 3, title: "Candide"@, author: "Voltaire"@ },
    )
}

/// Where a book is present, a greatest id is.
pub proof fn lemma_greatest_id_exists(books: Map<u32, BookView>, id: u32)
    requires
        books.contains_key(id),
    ensures
        is_greatest_id(books, greatest_id(books)),
    decreases u32::MAX - id,
{
    if is_greatest_id(books, id) {
    } else {
        let other = choose|other: u32| books.contains_key(other) && other > id;
        lemma_greatest_id_exists(books, other);
    }
}

/// What the store keeps of a book under its id.
struct Record {
    title: String,
    author: String,
}

/// The books of the store, each under its id.
pub struct ResourceStore {
    records: HashMap<u32, Record>,
}

impl View for ResourceStore {
    type V = Map<u32, BookView>;

    closed spec fn view(&self) -> Map<u32, BookView> {
        Map::new(
            |id: u32| self.records@.contains_key(id),
            |id: u32|
                BookView {
                    id,
                    title: self.records@[id].title@,
                    author: self.records@[id].author@,
                },
        )
    }
}

impl ResourceStore {
    /// In every store each book stands under its own id, so no two books
    /// share an id.
    pub proof fn lemma_keyed_by_id(self)
        ensures
            keyed_by_id(self@),
    {
    }

    /// A store without books.
    pub fn new() -> (store: Self)
        ensures
            store@ == Map::<u32, BookView>::empty(),
    {
        let store = ResourceStore { records: HashMap::new() };
        assert(store@ =~= Map::<u32, BookView>::empty());
        store
    }

    /// A store with the three books of `seed`.
    pub fn seeded() -> (store: Self)
        ensures
            store@ == seed(),
    {
        let mut store = ResourceStore::new();
        store.put(Book { id: 1, title: "Antigone".to_owned(), author: "Sophocles".to_owned() });
        store.put(Book { id: 2, title: "Beloved".to_owned(), author: "Toni Morrison".to_owned() });
        store.put(Book { id: 3, title: "Candide".to_owned(), author: "Voltaire".to_owned() });
        store
    }

    /// The book with this id, if the store has one.
    pub fn get(&self, id: u32) -> (found: Option<Book>)
        ensures
            some_view(found) == lookup(self@, id),
    {
        match self.records.get(&id) {
            Some(record) => Some(
                Book { id, title: record.title.clone(), author: record.author.clone() },
            ),
            None => None,
        }
    }

    /// All books of the store in listing order: by title in byte order, and
    /// by id among books of one title.
    pub fn list(&self) -> (books: Vec<Book>)
        ensures
            is_listing(self@, views(books@)),
            forall|i: int, j: int|
                0 <= i <= j < books.len() ==> title_le(
                    (#[trigger] books[i]).title@,
                    (#[trigger] books[j]).title@,
                ),
    {
        let mut books: Vec<Book> = Vec::new();
        let ghost entries = spec_hash_map_iter(&self.records).remaining();
        let ghost ids = Seq::new(entries.len(), |n: int| *entries[n].0);
        let ghost mut seen: int = 0;
        let iter = self.records.iter();
        proof {
            assert forall|n: int, m: int| 0 <= n < m < ids.len() implies ids[n] != ids[m] by {
                assert(self.records@[*entries[n].0] == *entries[n].1);
                assert(self.records@[*entries[m].0] == *entries[m].1);
                assert(entries[n] != entries[m]);
            }
            assert forall|id: u32| self@.contains_key(id) implies ids.contains(id) by {
                let entry = (&id, &self.records@[id]);
                assert(entries.contains(entry));
                let n = choose|n: int| 0 <= n < entries.len() && entries[n] == entry;
                assert(ids[n] == id);
            }
        }
        for entry in it: iter
            invariant
                it.seq() == entries,
                seen == it.index(),
                ids.len() == entries.len(),
                ids.no_duplicates(),
                forall|n: int| 0 <= n < ids.len() ==> ids[n] == *(#[trigger] entries[n]).0,
                forall|n: int|
                    0 <= n < ids.len() ==> self.records@.contains_key(#[trigger] ids[n])
                        && self.records@[ids[n]] == *entries[n].1,
                in_order(views(books@)),
                forall|k: int|
                    0 <= k < books.len() ==> self@.contains_key((#[trigger] books[k]).id)
                        && self@[books[k].id] == books[k]@,
                forall|k: int|
                    0 <= k < books.len() ==> exists|n: int|
                        0 <= n < seen && ids[n] == (#[trigger] books[k]).id,
                forall|n: int|
                    0 <= n < seen ==> exists|k: int|
                        0 <= k < books.len() && (#[trigger] books[k]).id == #[trigger] ids[n],
        {
            let book = Book {
                id: *entry.0,
                title: entry.1.title.clone(),
                author: entry.1.author.clone(),
            };
            let ghost before = books@;
            assert(book.id == ids[seen]);
            assert forall|k: int| 0 <= k < books.len() implies books[k].id != book.id by {
                let n = choose|n: int| 0 <= n < seen && ids[n] == books[k].id;
            }
            insert_in_order(&mut books, book);
            proof {
                let at = choose|at: int|
                    0 <= at <= before.len() && books@ == before.insert(at, book);
                assert forall|k: int| 0 <= k < books.len() implies self@.contains_key(
                    (#[trigger] books[k]).id,
                ) && self@[books[k].id] == books[k]@ && exists|n: int|
                    0 <= n < seen + 1 && ids[n] == books[k].id by {
                    if k < at {
                        assert(books[k] == before[k]);
                        let n = choose|n: int| 0 <= n < seen && ids[n] == before[k].id;
                        assert(ids[n] == books[k].id);
                    } else if k > at {
                        assert(books[k] == before[k - 1]);
                        let n = choose|n: int| 0 <= n < seen && ids[n] == before[k - 1].id;
                        assert(ids[n] == books[k].id);
                    } else {
                        assert(ids[seen] == books[k].id);
                    }
                }
                assert forall|n: int| 0 <= n < seen + 1 implies exists|k: int|
                    0 <= k < books.len() && (#[trigger] books[k]).id == #[trigger] ids[n] by {
                    if n < seen {
                        let k = choose|k: int|
                            0 <= k < before.len() && (#[trigger] before[k]).id == ids[n];
                        let moved = if k < at { k } else { k + 1 };
                        assert(books[moved] == before[k]);
                    } else {
                        assert(books[at].id == ids[n]);
                    }
                }
                seen = seen + 1;
            }
        }
        proof {
            let listed = views(books@);
            assert forall|id: u32| #[trigger] self@.contains_key(id) implies exists|k: int|
                0 <= k < listed.len() && (#[trigger] listed[k]).id == id by {
                let entry = (&id, &self.records@[id]);
                assert(entries.contains(entry));
                let n = choose|n: int| 0 <= n < entries.len() && entries[n] == entry;
                assert(ids[n] == id);
                let k = choose|k: int| 0 <= k < books.len() && (#[trigger] books[k]).id == ids[n];
                assert(listed[k].id == id);
            }
            law_listing_is_ordered_by_title(self@, listed);
            assert forall|a: int, b: int| 0 <= a <= b < books.len() implies title_le(
                (#[trigger] books[a]).title@,
                (#[trigger] books[b]).title@,
            ) by {
                assert(title_le(listed[a].title, listed[b].title));
            }
        }
        books
    }

    /// Stores `book` under its id, in place of the book that had that id if
    /// there was one, and returns the book as stored.
    pub fn put(&mut self, book: Book) -> (stored: Book)
        ensures
            final(self)@ == after_put(old(self)@, book@),
            stored@ == book@,
    {
        let stored = book.clone();
        self.records.insert(book.id, Record { title: book.title, author: book.author });
        assert(self@ =~= old(self)@.insert(stored.id, stored@));
        stored
    }

    /// The greatest id present, and 0 where the store has no book.
    pub fn greatest_id(&self) -> (id: u32)
        ensures
            id == greatest_id(self@),
    {
        let mut best: u32 = 0;
        let ghost keys = spec_keys_iter(&self.records).remaining();
        let ghost mut seen: int = 0;
        for id in it: self.records.keys()
            invariant
                it.seq() == keys,
                seen == it.index(),
                forall|k: int| 0 <= k < seen ==> *keys[k] <= best,
                best == 0 || exists|k: int| 0 <= k < seen && *keys[k] == best,
        {
            if *id > best {
                best = *id;
            }
            proof {
                seen = seen + 1;
            }
        }
        proof {
            let present = keys.unref();
            assert(present.to_set() == self.records@.dom());
            assert forall|other: u32| self@.contains_key(other) implies other <= best by {
                assert(present.to_set().contains(other));
                let k = choose|k: int| 0 <= k < present.len() && present[k] == other;
                assert(*keys[k] == other);
            }
            if best != 0 {
                let k = choose|k: int| 0 <= k < seen && *keys[k] == best;
                assert(present[k] == best);
                assert(present.to_set().contains(best));
                assert(is_greatest_id(self@, best));
            }
            if exists|id: u32| is_greatest_id(self@, id) {
                let chosen = choose|id: u32| is_greatest_id(self@, id);
                assert(chosen <= best);
            }
        }
        best
    }

    /// Stores the candidate under a new id, the one that follows the greatest
    /// id present (1 in a store without books), and returns the book as
    /// stored. The id is greater than every id present; it is not kept back
    /// for good: once the book with the greatest id is deleted, that id is
    /// given again. Fails with `InternalUnavailable`, and changes nothing,
    /// where the greatest id that there can be is present, so that none
    /// follows it.
    pub fn create(&mut self, candidate: NewBook) -> (outcome: Result<Book, StoreError>)
        ensures
            ok_view(outcome) == create_result(old(self)@, candidate.title@, candidate.author@),
            final(self)@ == after_create(old(self)@, candidate.title@, candidate.author@),
            outcome matches Ok(book) ==> forall|id: u32|
                old(self)@.contains_key(id) ==> id < book.id,
    {
        let greatest = self.greatest_id();
        if greatest == u32::MAX {
            return Err(StoreError::InternalUnavailable);
        }
        let id = greatest + 1;
        proof {
            assert forall|other: u32| self@.contains_key(other) implies other < id by {
                lemma_greatest_id_exists(self@, other);
            }
        }
        Ok(self.put(Book { id, title: candidate.title, author: candidate.author }))
    }

    /// Sets the fields that `change` names on the book with this id and
    /// returns the book as it then is. Fails with `NotFound`, and changes
    /// nothing, where the store has no such book.
    pub fn patch(&mut self, id: u32, change: &BookChange) -> (outcome: Result<Book, StoreError>)
        ensures
            ok_view(outcome) == patch_result(old(self)@, id, change@),
            final(self)@ == after_patch(old(self)@, id, change@),
    {
        match self.get(id) {
            None => Err(StoreError::NotFound),
            Some(book) => {
                let title = match &change.title {
                    Some(title) => title.clone(),
                    None => book.title,
                };
                let author = match &change.author {
                    Some(author) => author.clone(),
                    None => book.author,
                };
                Ok(self.put(Book { id, title, author }))
            },
        }
    }

    /// Removes the book with this id. Fails with `NotFound`, and changes
    /// nothing, where the store has no such book.
    pub fn delete(&mut self, id: u32) -> (outcome: Result<(), StoreError>)
        ensures
            outcome == delete_result(old(self)@, id),
            final(self)@ == after_delete(old(self)@, id),
    {
        if self.records.contains_key(&id) {
            self.records.remove(&id);
            assert(self@ =~= old(self)@.remove(id));
            Ok(())
        } else {
            assert(self@ =~= old(self)@.remove(id));
            Err(StoreError::NotFound)
        }
    }
}

} // verus!
