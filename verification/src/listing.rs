//! The order in which books are listed: by title, and by id among books of
//! one title.

use vstd::prelude::*;

use crate::book::views;
use crate::book::Book;
use crate::book::BookView;
use crate::laws::law_listing_holds_each_book_once;
use crate::laws::law_listing_is_ordered_by_title;
use crate::text::bytes_lt;
use crate::text::lemma_bytes_lt_irreflexive;
use crate::text::lemma_bytes_lt_total;
use crate::text::lemma_bytes_lt_transitive;
use crate::text::rank_texts;
use crate::text::text_key;
use crate::text::Rank;

verus! {

/// Whether the title `a` does not come after the title `b` in byte order.
pub open spec fn title_le(a: Seq<char>, b: Seq<char>) -> bool {
    !bytes_lt(text_key(b), text_key(a))
}

/// Whether `a` is listed before `b`: its title comes first in byte order, or
/// the titles have the same bytes and its id is the smaller one.
pub open spec fn comes_before(a: BookView, b: BookView) -> bool {
    bytes_lt(text_key(a.title), text_key(b.title)) || (text_key(a.title) == text_key(b.title)
        && a.id < b.id)
}

/// Whether each book of `books` is listed before all that follow it.
pub open spec fn in_order(books: Seq<BookView>) -> bool {
    forall|i: int, j: int| 0 <= i < j < books.len() ==> comes_before(books[i], books[j])
}

/// Whether `listed` is the listing of `books`: it holds the books of the map
/// and no others, each under its own id, in listing order.
pub open spec fn is_listing(books: Map<u32, BookView>, listed: Seq<BookView>) -> bool {
    &&& forall|i: int|
        0 <= i < listed.len() ==> books.contains_key((#[trigger] listed[i]).id)
            && books[listed[i].id] == listed[i]
    &&& forall|id: u32|
        #[trigger] books.contains_key(id) ==> exists|i: int|
            0 <= i < listed.len() && (#[trigger] listed[i]).id == id
    &&& in_order(listed)
}

/// Listing order is transitive.
pub proof fn lemma_comes_before_transitive(a: BookView, b: BookView, c: BookView)
    requires
        comes_before(a, b),
        comes_before(b, c),
    ensures
        comes_before(a, c),
{
    let (ka, kb, kc) = (text_key(a.title), text_key(b.title), text_key(c.title));
    if bytes_lt(ka, kb) && bytes_lt(kb, kc) {
        lemma_bytes_lt_transitive(ka, kb, kc);
    }
}

/// Of two books with different ids one is listed before the other.
pub proof fn lemma_comes_before_total(a: BookView, b: BookView)
    requires
        a.id != b.id,
    ensures
        comes_before(a, b) || comes_before(b, a),
{
    lemma_bytes_lt_total(text_key(a.title), text_key(b.title));
}

/// No book is listed both before and after another.
pub proof fn lemma_comes_before_asymmetric(a: BookView, b: BookView)
    requires
        comes_before(a, b),
    ensures
        !comes_before(b, a),
{
    let (ka, kb) = (text_key(a.title), text_key(b.title));
    lemma_bytes_lt_irreflexive(ka);
    if bytes_lt(ka, kb) && bytes_lt(kb, ka) {
        lemma_bytes_lt_transitive(ka, kb, ka);
    }
}

/// Decides whether `a` is listed before `b`.
pub fn listed_before(a: &Book, b: &Book) -> (before: bool)
    ensures
        before == comes_before(a@, b@),
{
    proof {
        lemma_bytes_lt_irreflexive(text_key(a.title@));
    }
    match rank_texts(a.title.as_str(), b.title.as_str()) {
        Rank::Before => true,
        Rank::Same => a.id < b.id,
        Rank::After => false,
    }
}

/// The place at which `book` belongs among `books`.
fn place_of(books: &Vec<Book>, book: &Book) -> (at: usize)
    requires
        in_order(views(books@)),
        forall|k: int| 0 <= k < books.len() ==> books[k].id != book.id,
    ensures
        at <= books.len(),
        forall|k: int| 0 <= k < at ==> comes_before(#[trigger] books[k]@, book@),
        forall|k: int| at <= k < books.len() ==> comes_before(book@, #[trigger] books[k]@),
{
    let mut low: usize = 0;
    let mut high: usize = books.len();
    while low < high
        invariant
            low <= high <= books.len(),
            in_order(views(books@)),
            forall|k: int| 0 <= k < books.len() ==> books[k].id != book.id,
            forall|k: int| 0 <= k < low ==> comes_before(#[trigger] books[k]@, book@),
            forall|k: int| high <= k < books.len() ==> comes_before(book@, #[trigger] books[k]@),
        decreases high - low,
    {
        let middle = low + (high - low) / 2;
        let ghost at_middle = books[middle as int]@;
        if listed_before(&books[middle], book) {
            proof {
                assert forall|k: int| 0 <= k < middle + 1 implies comes_before(
                    #[trigger] books[k]@,
                    book@,
                ) by {
                    if k < middle {
                        assert(comes_before(views(books@)[k], views(books@)[middle as int]));
                        lemma_comes_before_transitive(books[k]@, at_middle, book@);
                    }
                }
            }
            low = middle + 1;
        } else {
            proof {
                lemma_comes_before_total(at_middle, book@);
                assert forall|k: int| middle <= k < books.len() implies comes_before(
                    book@,
                    #[trigger] books[k]@,
                ) by {
                    if middle < k {
                        assert(comes_before(views(books@)[middle as int], views(books@)[k]));
                        lemma_comes_before_transitive(book@, at_middle, books[k]@);
                    }
                }
            }
            high = middle;
        }
    }
    low
}

/// Puts `book` into `books` at its place in listing order.
pub(crate) fn insert_in_order(books: &mut Vec<Book>, book: Book)
    requires
        in_order(views(old(books)@)),
        forall|k: int| 0 <= k < old(books).len() ==> old(books)[k].id != book.id,
    ensures
        in_order(views(final(books)@)),
        exists|at: int|
            0 <= at <= old(books).len() && final(books)@ == old(books)@.insert(at, book),
{
    let at = place_of(books, &book);
    let ghost before = views(books@);
    books.insert(at, book);
    proof {
        let after = views(books@);
        assert forall|i: int, j: int| 0 <= i < j < after.len() implies comes_before(
            after[i],
            after[j],
        ) by {
            let from_i = if i < at { i } else { i - 1 };
            let from_j = if j < at { j } else { j - 1 };
            if i != at && j != at {
                assert(comes_before(before[from_i], before[from_j]));
            } else if i == at {
                assert(after[j] == old(books)[from_j]@);
            } else {
                assert(after[i] == old(books)[from_i]@);
            }
        }
    }
}

/// In the listing of a store no id comes twice, and no title comes after the
/// title of a later book.
pub proof fn lemma_listed_once_by_title(stored: Map<u32, BookView>, books: Seq<Book>)
    requires
        is_listing(stored, views(books)),
    ensures
        in_order(views(books)),
        forall|i: int, j: int|
            0 <= i < j < books.len() ==> (#[trigger] books[i]).id != (#[trigger] books[j]).id,
        forall|i: int, j: int|
            0 <= i <= j < books.len() ==> title_le(
                (#[trigger] books[i]).title@,
                (#[trigger] books[j]).title@,
            ),
{
    let listed = views(books);
    law_listing_holds_each_book_once(stored, listed);
    law_listing_is_ordered_by_title(stored, listed);
    assert forall|i: int, j: int| 0 <= i < j < books.len() implies (#[trigger] books[i]).id != (
    #[trigger] books[j]).id by {
        assert(listed[i].id != listed[j].id);
    }
    assert forall|i: int, j: int| 0 <= i <= j < books.len() implies title_le(
        (#[trigger] books[i]).title@,
        (#[trigger] books[j]).title@,
    ) by {
        assert(title_le(listed[i].title, listed[j].title));
    }
}

} // verus!
