//! What holds of the store's operations taken together.

use vstd::prelude::*;

use crate::book::changed;
use crate::book::BookChangeView;
use crate::book::BookView;
use crate::decode::decoded_book;
use crate::decode::name_of;
use crate::decode::value_of;
use crate::decode::DecodeError;
use crate::decode::FieldView;
use crate::decode::Key;
use crate::decode::ValueView;
use crate::listing::comes_before;
use crate::listing::is_listing;
use crate::listing::lemma_comes_before_asymmetric;
use crate::listing::title_le;
use crate::store::after_create;
use crate::store::after_delete;
use crate::store::after_patch;
use crate::store::after_put;
use crate::store::create_result;
use crate::store::created;
use crate::store::delete_result;
use crate::store::greatest_id;
use crate::store::has_room;
use crate::store::is_greatest_id;
use crate::store::lemma_greatest_id_exists;
use crate::store::lookup;
use crate::store::patch_result;
use crate::store::StoreError;
use crate::text::decimal;
use crate::text::law_decimal_reads_back;
use crate::text::lemma_bytes_lt_irreflexive;
use crate::text::text_key;

verus! {

/// A book that `create` has stored is found under the id that it was given,
/// with the texts that the candidate had.
pub proof fn law_created_book_is_found(
    books: Map<u32, BookView>,
    title: Seq<char>,
    author: Seq<char>,
)
    requires
        has_room(books),
    ensures
        create_result(books, title, author) == Ok::<BookView, StoreError>(
            created(books, title, author),
        ),
        lookup(after_create(books, title, author), created(books, title, author).id) == Some(
            created(books, title, author),
        ),
        created(books, title, author).title == title,
        created(books, title, author).author == author,
{
}

/// The id that `create` gives is greater than every id present, so it is
/// the id of no book present, and the books present stay as they are.
pub proof fn law_created_id_is_greater(
    books: Map<u32, BookView>,
    title: Seq<char>,
    author: Seq<char>,
)
    requires
        has_room(books),
    ensures
        forall|id: u32| books.contains_key(id) ==> id < created(books, title, author).id,
        !books.contains_key(created(books, title, author).id),
        forall|id: u32|
            books.contains_key(id) ==> lookup(after_create(books, title, author), id) == Some(
                books[id],
            ),
{
    assert forall|id: u32| books.contains_key(id) implies id < created(
        books,
        title,
        author,
    ).id by {
        lemma_greatest_id_exists(books, id);
    }
}

/// In a store without books `create` gives the id 1.
pub proof fn law_first_created_id_is_one(title: Seq<char>, author: Seq<char>)
    ensures
        created(Map::<u32, BookView>::empty(), title, author).id == 1,
{
    let books = Map::<u32, BookView>::empty();
    assert(!exists|id: u32| is_greatest_id(books, id));
}

/// A book that `put` has stored is found under its id, whether or not a
/// book had that id before, and all other books stay as they were.
pub proof fn law_put_book_is_found(books: Map<u32, BookView>, book: BookView)
    ensures
        lookup(after_put(books, book), book.id) == Some(book),
        forall|other: u32|
            other != book.id ==> lookup(after_put(books, book), other) == lookup(books, other),
{
}

/// Once `delete` has removed a book, the book is not found, and to delete
/// it once more fails with `NotFound`.
pub proof fn law_deleted_book_is_gone(books: Map<u32, BookView>, id: u32)
    requires
        books.contains_key(id),
    ensures
        delete_result(books, id) == Ok::<(), StoreError>(()),
        lookup(after_delete(books, id), id) == None::<BookView>,
        delete_result(after_delete(books, id), id) == Err::<(), StoreError>(StoreError::NotFound),
        after_delete(after_delete(books, id), id) == after_delete(books, id),
{
    assert(after_delete(after_delete(books, id), id) =~= after_delete(books, id));
}

/// A patch that names only a title sets the title and leaves the author, the
/// id and all other books as they were.
pub proof fn law_title_patch_keeps_author(books: Map<u32, BookView>, id: u32, title: Seq<char>)
    requires
        books.contains_key(id),
    ensures
        ({
            let change = BookChangeView { title: Some(title), author: None };
            let book = BookView { id: books[id].id, title, author: books[id].author };
            &&& patch_result(books, id, change) == Ok::<BookView, StoreError>(book)
            &&& lookup(after_patch(books, id, change), id) == Some(book)
            &&& forall|other: u32|
                other != id ==> lookup(after_patch(books, id, change), other) == lookup(
                    books,
                    other,
                )
        }),
{
}

/// A patch that names no field returns the book unchanged and leaves the
/// store as it was.
pub proof fn law_empty_patch_changes_nothing(books: Map<u32, BookView>, id: u32)
    requires
        books.contains_key(id),
    ensures
        ({
            let change = BookChangeView { title: None, author: None };
            &&& patch_result(books, id, change) == Ok::<BookView, StoreError>(books[id])
            &&& after_patch(books, id, change) == books
        }),
{
    let change = BookChangeView { title: None, author: None };
    assert(changed(books[id], change) == books[id]);
    assert(after_patch(books, id, change) =~= books);
}

/// In a listing no title comes after the title of a later book.
pub proof fn law_listing_is_ordered_by_title(books: Map<u32, BookView>, listed: Seq<BookView>)
    requires
        is_listing(books, listed),
    ensures
        forall|i: int, j: int|
            0 <= i <= j < listed.len() ==> title_le(
                (#[trigger] listed[i]).title,
                (#[trigger] listed[j]).title,
            ),
{
    assert forall|i: int, j: int| 0 <= i <= j < listed.len() implies title_le(
        (#[trigger] listed[i]).title,
        (#[trigger] listed[j]).title,
    ) by {
        lemma_bytes_lt_irreflexive(text_key(listed[i].title));
        if i < j {
            assert(comes_before(listed[i], listed[j]));
            lemma_comes_before_asymmetric(listed[i], listed[j]);
        }
    }
}

/// A listing holds each book of the store once.
pub proof fn law_listing_holds_each_book_once(books: Map<u32, BookView>, listed: Seq<BookView>)
    requires
        is_listing(books, listed),
    ensures
        forall|i: int, j: int|
            0 <= i < j < listed.len() ==> (#[trigger] listed[i]).id != (#[trigger] listed[j]).id,
{
    assert forall|i: int, j: int| 0 <= i < j < listed.len() implies (#[trigger] listed[i]).id != (
    #[trigger] listed[j]).id by {
        assert(comes_before(listed[i], listed[j]));
        if listed[i].id == listed[j].id {
            assert(listed[i] == books[listed[i].id]);
            assert(listed[j] == books[listed[j].id]);
            lemma_comes_before_asymmetric(listed[i], listed[j]);
        }
    }
}

/// The place of the book with id `id` in a listing that holds it.
spec fn place_in(listed: Seq<BookView>, id: u32) -> int {
    choose|i: int| 0 <= i < listed.len() && (#[trigger] listed[i]).id == id
}

/// The books that a listing puts before the place `at` are the books of the
/// store that are listed before the book at that place, so their number
/// depends on the store alone.
proof fn lemma_same_book_same_place(
    books: Map<u32, BookView>,
    first: Seq<BookView>,
    second: Seq<BookView>,
    at: int,
)
    requires
        is_listing(books, first),
        is_listing(books, second),
        0 <= at < first.len(),
        at <= second.len(),
        forall|k: int| 0 <= k < at ==> first[k] == second[k],
    ensures
        at < second.len(),
        first[at] == second[at],
{
    law_listing_holds_each_book_once(books, first);
    law_listing_holds_each_book_once(books, second);
    let book = first[at];
    assert(books.contains_key(book.id));
    let there = place_in(second, book.id);
    assert(second[there] == book);
    if there < at {
        assert(first[there] == second[there]);
        assert(first[there].id != first[at].id);
    }
    if there > at {
        let other = second[at];
        assert(books.contains_key(other.id));
        let back = place_in(first, other.id);
        assert(first[back] == other);
        assert(comes_before(second[at], second[there]));
        if back < at {
            assert(second[back] == first[back]);
            assert(second[back].id != second[at].id);
        } else if back > at {
            assert(comes_before(first[at], first[back]));
            lemma_comes_before_asymmetric(other, book);
        } else {
            assert(second[at].id != second[there].id);
        }
    }
}

proof fn lemma_listings_agree_up_to(
    books: Map<u32, BookView>,
    first: Seq<BookView>,
    second: Seq<BookView>,
    n: int,
)
    requires
        is_listing(books, first),
        is_listing(books, second),
        0 <= n <= first.len(),
    ensures
        n <= second.len(),
        forall|k: int| 0 <= k < n ==> first[k] == second[k],
    decreases n,
{
    if n > 0 {
        lemma_listings_agree_up_to(books, first, second, n - 1);
        lemma_same_book_same_place(books, first, second, n - 1);
    }
}

/// A store has one listing only: the order of a listing depends on the
/// books that the store holds, not on the order in which they came.
pub proof fn law_listing_is_unique(
    books: Map<u32, BookView>,
    first: Seq<BookView>,
    second: Seq<BookView>,
)
    requires
        is_listing(books, first),
        is_listing(books, second),
    ensures
        first == second,
{
    lemma_listings_agree_up_to(books, first, second, first.len() as int);
    lemma_listings_agree_up_to(books, second, first, second.len() as int);
    assert(first =~= second);
}

/// A candidate for `create`: a title and an author.
pub type Candidate = (Seq<char>, Seq<char>);

/// The books after `create` has stored the candidates one after another.
pub open spec fn after_creates(books: Map<u32, BookView>, candidates: Seq<Candidate>) -> Map<
    u32,
    BookView,
>
    decreases candidates.len(),
{
    if candidates.len() == 0 {
        books
    } else {
        after_create(
            after_creates(books, candidates.drop_last()),
            candidates.last().0,
            candidates.last().1,
        )
    }
}

/// The id that the candidate at place `i` gets when `create` stores the
/// candidates one after another.
pub open spec fn created_id(books: Map<u32, BookView>, candidates: Seq<Candidate>, i: int) -> u32 {
    created(after_creates(books, candidates.take(i)), candidates[i].0, candidates[i].1).id
}

/// After a `create` the greatest id present is the one that it gave.
proof fn lemma_greatest_id_after_create(
    books: Map<u32, BookView>,
    title: Seq<char>,
    author: Seq<char>,
)
    requires
        has_room(books),
    ensures
        greatest_id(after_create(books, title, author)) == greatest_id(books) + 1,
{
    let book = created(books, title, author);
    let after = after_create(books, title, author);
    law_created_id_is_greater(books, title, author);
    assert(is_greatest_id(after, book.id));
    let chosen = greatest_id(after);
    assert(is_greatest_id(after, chosen));
}

proof fn lemma_greatest_id_after_creates(books: Map<u32, BookView>, candidates: Seq<Candidate>)
    requires
        greatest_id(books) + candidates.len() <= u32::MAX,
    ensures
        greatest_id(after_creates(books, candidates)) == greatest_id(books) + candidates.len(),
    decreases candidates.len(),
{
    if candidates.len() > 0 {
        lemma_greatest_id_after_creates(books, candidates.drop_last());
        lemma_greatest_id_after_create(
            after_creates(books, candidates.drop_last()),
            candidates.last().0,
            candidates.last().1,
        );
    }
}

/// Candidates that `create` stores one after another get ids that rise by
/// one from the greatest id present at the start, so no two of them get the
/// same id.
pub proof fn law_serial_creates_give_distinct_ids(
    books: Map<u32, BookView>,
    candidates: Seq<Candidate>,
)
    requires
        greatest_id(books) + candidates.len() <= u32::MAX,
    ensures
        forall|i: int|
            0 <= i < candidates.len() ==> #[trigger] created_id(books, candidates, i)
                == greatest_id(books) + 1 + i,
        forall|i: int, j: int|
            0 <= i < j < candidates.len() ==> created_id(books, candidates, i) != created_id(
                books,
                candidates,
                j,
            ),
{
    assert forall|i: int| 0 <= i < candidates.len() implies #[trigger] created_id(
        books,
        candidates,
        i,
    ) == greatest_id(books) + 1 + i by {
        lemma_greatest_id_after_creates(books, candidates.take(i));
    }
}

/// The fields that the form of a book posts when it is sent as it was shown:
/// the id as its numeral, then title and author.
pub open spec fn form_fields_of(book: BookView) -> Seq<FieldView> {
    seq![
        FieldView { name: name_of(Key::Id), value: ValueView::Text(decimal(book.id as nat)) },
        FieldView { name: name_of(Key::Title), value: ValueView::Text(book.title) },
        FieldView { name: name_of(Key::Author), value: ValueView::Text(book.author) },
    ]
}

/// To decode the fields that the form of a book posts gives the book back.
pub proof fn law_form_reads_back(book: BookView)
    ensures
        decoded_book(form_fields_of(book)) == Ok::<BookView, DecodeError>(book),
{
    reveal_strlit("id");
    reveal_strlit("title");
    reveal_strlit("author");
    let fields = form_fields_of(book);
    let rest = fields.drop_first();
    assert(name_of(Key::Id).len() == 2);
    assert(name_of(Key::Title).len() == 5);
    assert(name_of(Key::Author).len() == 6);
    assert(rest[0] == fields[1]);
    assert(rest.drop_first()[0] == fields[2]);
    assert(value_of(fields, name_of(Key::Id)) == Some(fields[0].value));
    assert(value_of(fields, name_of(Key::Title)) == Some(fields[1].value)) by {
        assert(value_of(rest, name_of(Key::Title)) == Some(rest[0].value));
    }
    assert(value_of(fields, name_of(Key::Author)) == Some(fields[2].value)) by {
        assert(value_of(rest.drop_first(), name_of(Key::Author)) == Some(
            rest.drop_first()[0].value,
        ));
        assert(value_of(rest, name_of(Key::Author)) == value_of(
            rest.drop_first(),
            name_of(Key::Author),
        ));
    }
    law_decimal_reads_back(book.id);
}

} // verus!
