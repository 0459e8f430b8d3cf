//! The texts that show books: lines, pages of HTML and the messages that
//! answer a change. Titles and authors are put into a page as they are.

use vstd::prelude::*;
use vstd::string::StringExecFns;

use crate::book::line_of;
use crate::book::views;
use crate::book::Book;
use crate::book::BookView;
use crate::text::append_decimal;
use crate::text::decimal;
use crate::text::texts_of;

verus! {

/// The line of each book, in the order of the books.
pub open spec fn lines_of(books: Seq<BookView>) -> Seq<Seq<char>> {
    Seq::new(books.len(), |i: int| line_of(books[i]))
}

/// A line as a paragraph of HTML, with a line feed after it.
pub open spec fn paragraph(line: Seq<char>) -> Seq<char> {
    "<p>"@ + line + "</p>\n"@
}

/// The page that lists books: the paragraph of each book's line, one after
/// another in the order of the books.
pub open spec fn list_page_of(books: Seq<BookView>) -> Seq<char>
    decreases books.len(),
{
    if books.len() == 0 {
        Seq::<char>::empty()
    } else {
        list_page_of(books.drop_last()) + paragraph(line_of(books.last()))
    }
}

/// The paragraph that says that no book has the id.
pub open spec fn not_found_page_of(id: u32) -> Seq<char> {
    "<p>Book id "@ + decimal(id as nat) + " not found</p>"@
}

/// The page that shows one book, or says that no book has the id.
pub open spec fn book_page_of(id: u32, found: Option<BookView>) -> Seq<char> {
    match found {
        Some(book) => paragraph(line_of(book)),
        None => not_found_page_of(id),
    }
}

/// The form in which a book's title and author can be edited. It posts to
/// the book's own form address and carries the id hidden.
pub open spec fn form_of(book: BookView) -> Seq<char> {
    "<form method=\"post\" action=\"/books/"@ + decimal(book.id as nat) + "/form\">\n"@
        + "<input type=\"hidden\" name=\"id\" value=\""@ + decimal(book.id as nat) + "\">\n"@
        + "<p><input name=\"title\" value=\""@ + book.title + "\"></p>\n"@
        + "<p><input name=\"author\" value=\""@ + book.author + "\"></p>\n"@
        + "<input type=\"submit\" value=\"Save\">\n"@ + "</form>\n"@
}

/// The page with the form of one book, or the one that says that no book
/// has the id.
pub open spec fn form_page_of(id: u32, found: Option<BookView>) -> Seq<char> {
    match found {
        Some(book) => form_of(book),
        None => not_found_page_of(id),
    }
}

/// The message that says that no book has the id.
pub open spec fn not_found_message_of(id: u32) -> Seq<char> {
    "Book id not found: "@ + decimal(id as nat)
}

/// The message that answers a `put`.
pub open spec fn put_message_of(book: BookView) -> Seq<char> {
    "Put book: "@ + line_of(book)
}

/// The message that answers the posting of a form: it shows the book as it
/// now is, or says that no book has the id.
pub open spec fn post_message_of(id: u32, updated: Option<BookView>) -> Seq<char> {
    match updated {
        Some(book) => "Post book: "@ + line_of(book),
        None => not_found_message_of(id),
    }
}

/// The message that answers a `delete`.
pub open spec fn delete_message_of(id: u32, deleted: bool) -> Seq<char> {
    if deleted {
        "Delete book id: "@ + decimal(id as nat)
    } else {
        not_found_message_of(id)
    }
}

/// A book that may be absent and is borrowed, as contracts see it.
pub open spec fn found_view(found: Option<&Book>) -> Option<BookView> {
    match found {
        Some(book) => Some(book@),
        None => None,
    }
}

/// The line of each book, in the order of the books.
pub fn lines(books: &Vec<Book>) -> (lines: Vec<String>)
    ensures
        texts_of(lines@) == lines_of(views(books@)),
{
    let mut lines: Vec<String> = Vec::new();
    let mut i: usize = 0;
    while i < books.len()
        invariant
            i <= books.len(),
            lines@.len() == i,
            forall|k: int| 0 <= k < i ==> (#[trigger] lines@[k])@ == line_of(books@[k]@),
        decreases books.len() - i,
    {
        lines.push(books[i].to_string());
        i += 1;
    }
    assert(texts_of(lines@) =~= lines_of(views(books@)));
    lines
}

fn append_paragraph(page: &mut String, line: &str)
    ensures
        final(page)@ == old(page)@ + paragraph(line@),
{
    page.append("<p>");
    page.append(line);
    page.append("</p>\n");
    assert(page@ =~= old(page)@ + paragraph(line@));
}

/// The page that lists `books`, in their order.
pub fn list_page(books: &Vec<Book>) -> (page: String)
    ensures
        page@ == list_page_of(views(books@)),
{
    let mut page = String::new();
    let mut i: usize = 0;
    while i < books.len()
        invariant
            i <= books.len(),
            page@ == list_page_of(views(books@).take(i as int)),
        decreases books.len() - i,
    {
        let line = books[i].to_string();
        append_paragraph(&mut page, line.as_str());
        proof {
            let shown = views(books@).take(i + 1);
            assert(shown.drop_last() =~= views(books@).take(i as int));
            assert(shown.last() == books@[i as int]@);
        }
        i += 1;
    }
    assert(views(books@).take(i as int) =~= views(books@));
    page
}

fn not_found_page(id: u32) -> (page: String)
    ensures
        page@ == not_found_page_of(id),
{
    let mut page = "<p>Book id ".to_owned();
    append_decimal(&mut page, id);
    page.append(" not found</p>");
    page
}

/// The page that shows the book that was found under `id`, or says that
/// none was.
pub fn book_page(id: u32, found: Option<&Book>) -> (page: String)
    ensures
        page@ == book_page_of(id, found_view(found)),
{
    match found {
        Some(book) => {
            let mut page = String::new();
            let line = book.to_string();
            append_paragraph(&mut page, line.as_str());
            assert(page@ =~= paragraph(line@));
            page
        },
        None => not_found_page(id),
    }
}

/// The page with the form of the book that was found under `id`, or the one
/// that says that none was.
pub fn form_page(id: u32, found: Option<&Book>) -> (page: String)
    ensures
        page@ == form_page_of(id, found_view(found)),
{
    match found {
        Some(book) => {
            let mut page = "<form method=\"post\" action=\"/books/".to_owned();
            append_decimal(&mut page, book.id);
            page.append("/form\">\n");
            page.append("<input type=\"hidden\" name=\"id\" value=\"");
            append_decimal(&mut page, book.id);
            page.append("\">\n");
            page.append("<p><input name=\"title\" value=\"");
            page.append(book.title.as_str());
            page.append("\"></p>\n");
            page.append("<p><input name=\"author\" value=\"");
            page.append(book.author.as_str());
            page.append("\"></p>\n");
            page.append("<input type=\"submit\" value=\"Save\">\n");
            page.append("</form>\n");
            page
        },
        None => not_found_page(id),
    }
}

fn not_found_message(id: u32) -> (message: String)
    ensures
        message@ == not_found_message_of(id),
{
    let mut message = "Book id not found: ".to_owned();
    append_decimal(&mut message, id);
    message
}

/// The message that answers a `put` of `book`.
pub fn put_message(book: &Book) -> (message: String)
    ensures
        message@ == put_message_of(book@),
{
    let mut message = "Put book: ".to_owned();
    message.append(book.to_string().as_str());
    message
}

/// The message that answers the posting of the form of the book under `id`:
/// `updated` is the book as it now is, or `None` where no book has the id.
pub fn post_message(id: u32, updated: Option<&Book>) -> (message: String)
    ensures
        message@ == post_message_of(id, found_view(updated)),
{
    match updated {
        Some(book) => {
            let mut message = "Post book: ".to_owned();
            message.append(book.to_string().as_str());
            message
        },
        None => not_found_message(id),
    }
}

/// The message that answers a `delete` of the book under `id`: `deleted`
/// says whether there was such a book.
pub fn delete_message(id: u32, deleted: bool) -> (message: String)
    ensures
        message@ == delete_message_of(id, deleted),
{
    if deleted {
        let mut message = "Delete book id: ".to_owned();
        append_decimal(&mut message, id);
        message
    } else {
        not_found_message(id)
    }
}

} // verus!
