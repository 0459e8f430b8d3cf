//! The book record and the values that describe a new or changed book.

use vstd::prelude::*;
use vstd::string::StringExecFns;

verus! {

/// A book as contracts see it: its id and the characters of its two texts.
pub struct BookView {
    pub id: u32,
    pub title: Seq<char>,
    pub author: Seq<char>,
}

/// A book with its primary key.
#[derive(Debug, PartialEq, Eq, Hash)]
pub struct Book {
    pub id: u32,
    pub title: String,
    pub author: String,
}

impl View for Book {
    type V = BookView;

    open spec fn view(&self) -> BookView {
        BookView { id: self.id, title: self.title@, author: self.author@ }
    }
}

impl Clone for Book {
    fn clone(&self) -> (copy: Self)
        ensures
            copy == *self,
    {
        Book { id: self.id, title: self.title.clone(), author: self.author.clone() }
    }
}

/// A book that may be absent, as contracts see it.
pub open spec fn some_view(book: Option<Book>) -> Option<BookView> {
    match book {
        Some(b) => Some(b@),
        None => None,
    }
}

/// The books of a sequence as contracts see them, in the same order.
pub open spec fn views(books: Seq<Book>) -> Seq<BookView> {
    Seq::new(books.len(), |i: int| books[i]@)
}

/// The characters of the line that shows a book: title, " by ", author.
pub open spec fn line_of(book: BookView) -> Seq<char> {
    book.title + " by "@ + book.author
}

impl Book {
    /// The line that shows this book, as in "Candide by Voltaire".
    pub fn to_string(&self) -> (line: String)
        ensures
            line@ == line_of(self@),
    {
        let mut line = self.title.clone();
        line.append(" by ");
        line.append(self.author.as_str());
        line
    }
}

/// A book that has no id yet: what a caller hands over to have it stored.
#[derive(Debug, PartialEq, Eq, Hash)]
pub struct NewBook {
    pub title: String,
    pub author: String,
}

/// The fields of a book that a partial update sets. A field that is `None`
/// stays as it is.
#[derive(Debug, PartialEq, Eq, Hash)]
pub struct BookChange {
    pub title: Option<String>,
    pub author: Option<String>,
}

/// A change as contracts see it.
pub struct BookChangeView {
    pub title: Option<Seq<char>>,
    pub author: Option<Seq<char>>,
}

/// The characters of a text that may be absent.
pub open spec fn text_view(text: Option<String>) -> Option<Seq<char>> {
    match text {
        Some(t) => Some(t@),
        None => None,
    }
}

impl View for BookChange {
    type V = BookChangeView;

    open spec fn view(&self) -> BookChangeView {
        BookChangeView { title: text_view(self.title), author: text_view(self.author) }
    }
}

/// The book that `book` becomes under `change`: the fields that the change
/// names are replaced, the id and the other fields stay.
pub open spec fn changed(book: BookView, change: BookChangeView) -> BookView {
    BookView {
        id: book.id,
        title: match change.title {
            Some(t) => t,
            None => book.title,
        },
        author: match change.author {
            Some(a) => a,
            None => book.author,
        },
    }
}

} // verus!
