use demo_rust_axum::Book;
use demo_rust_axum::BookChange;
use demo_rust_axum::NewBook;
use demo_rust_axum::ResourceStore;
use demo_rust_axum::SharedStore;
use demo_rust_axum::StoreError;
use std::sync::Arc;

fn shared_book(id: u32, title: &str, author: &str) -> Book {
    Book { id, title: title.to_string(), author: author.to_string() }
}

fn shared_candidate(title: &str, author: &str) -> NewBook {
    NewBook { title: title.to_string(), author: author.to_string() }
}

#[test]
fn shared_store_lists_the_seed() {
    let store = SharedStore::new(ResourceStore::seeded());
    assert_eq!(
        store.list(),
        Ok(vec![
            shared_book(1, "Antigone", "Sophocles"),
            shared_book(2, "Beloved", "Toni Morrison"),
            shared_book(3, "Candide", "Voltaire"),
        ])
    );
}

#[test]
fn shared_store_creates_and_gets() {
    let store = SharedStore::new(ResourceStore::seeded());
    assert_eq!(
        store.create(shared_candidate("Decameron", "Giovanni Boccaccio")),
        Ok(shared_book(4, "Decameron", "Giovanni Boccaccio"))
    );
    assert_eq!(store.get(4), Ok(Some(shared_book(4, "Decameron", "Giovanni Boccaccio"))));
    assert_eq!(store.get(1), Ok(Some(shared_book(1, "Antigone", "Sophocles"))));
    assert_eq!(store.get(99), Ok(None));
}

#[test]
fn shared_store_puts_and_patches() {
    let store = SharedStore::new(ResourceStore::seeded());
    assert_eq!(
        store.put(shared_book(2, "Bleak House", "Charles Dickens")),
        Ok(shared_book(2, "Bleak House", "Charles Dickens"))
    );
    let change = BookChange { title: Some("Elektra".to_string()), author: None };
    assert_eq!(store.patch(1, &change), Ok(shared_book(1, "Elektra", "Sophocles")));
    assert_eq!(store.patch(99, &change), Err(StoreError::NotFound));
    assert_eq!(store.get(2), Ok(Some(shared_book(2, "Bleak House", "Charles Dickens"))));
}

#[test]
fn shared_store_deletes_once() {
    let store = SharedStore::new(ResourceStore::seeded());
    assert_eq!(store.delete(2), Ok(()));
    assert_eq!(store.get(2), Ok(None));
    assert_eq!(store.delete(2), Err(StoreError::NotFound));
}

#[test]
fn shared_store_has_no_id_after_the_last() {
    let store = SharedStore::new(ResourceStore::new());
    assert_eq!(
        store.put(shared_book(u32::MAX, "Last", "Nobody")),
        Ok(shared_book(u32::MAX, "Last", "Nobody"))
    );
    assert_eq!(
        store.create(shared_candidate("Next", "Nobody")),
        Err(StoreError::InternalUnavailable)
    );
    assert_eq!(store.list().map(|books| books.len()), Ok(1));
}

#[test]
fn callers_that_take_turns_get_distinct_ids() {
    let store = Arc::new(SharedStore::new(ResourceStore::seeded()));
    let callers: Vec<Arc<SharedStore>> = (0..8).map(|_| Arc::clone(&store)).collect();
    let mut ids: Vec<u32> = Vec::new();
    for n in 0..50 {
        for (caller, handle) in callers.iter().enumerate() {
            let title = format!("Book {} of {}", n, caller);
            ids.push(handle.create(shared_candidate(&title, "Anonymous")).unwrap().id);
        }
    }
    assert_eq!(ids, (4..404).collect::<Vec<u32>>());
    assert_eq!(store.list().map(|books| books.len()), Ok(403));
}
