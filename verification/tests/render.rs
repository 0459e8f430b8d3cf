use demo_rust_axum::html::html_table_tag;
use demo_rust_axum::html::html_table_td_tags;
use demo_rust_axum::html::html_table_tr_tags;
use demo_rust_axum::render::book_page;
use demo_rust_axum::render::delete_message;
use demo_rust_axum::render::form_page;
use demo_rust_axum::render::lines;
use demo_rust_axum::render::list_page;
use demo_rust_axum::render::post_message;
use demo_rust_axum::render::put_message;
use demo_rust_axum::Book;
use demo_rust_axum::ResourceStore;

fn shown(id: u32, title: &str, author: &str) -> Book {
    Book { id, title: title.to_string(), author: author.to_string() }
}

#[test]
fn book_shows_as_title_by_author() {
    assert_eq!(shown(3, "Candide", "Voltaire").to_string(), "Candide by Voltaire");
    assert_eq!(shown(0, "", "").to_string(), " by ");
}

#[test]
fn book_clone_is_equal() {
    let first = shown(3, "Candide", "Voltaire");
    assert_eq!(first.clone(), first);
}

#[test]
fn lines_show_each_book_in_order() {
    let books = vec![shown(2, "Beloved", "Toni Morrison"), shown(1, "Antigone", "Sophocles")];
    assert_eq!(lines(&books), vec!["Beloved by Toni Morrison", "Antigone by Sophocles"]);
    assert_eq!(lines(&Vec::new()), Vec::<String>::new());
}

#[test]
fn list_page_of_the_seed() {
    let store = ResourceStore::seeded();
    assert_eq!(
        list_page(&store.list()),
        "<p>Antigone by Sophocles</p>\n<p>Beloved by Toni Morrison</p>\n\
         <p>Candide by Voltaire</p>\n"
    );
}

#[test]
fn list_page_of_no_books_is_empty() {
    assert_eq!(list_page(&Vec::new()), "");
}

#[test]
fn book_page_shows_the_book() {
    let book = shown(1, "Antigone", "Sophocles");
    assert_eq!(book_page(1, Some(&book)), "<p>Antigone by Sophocles</p>\n");
}

#[test]
fn book_page_names_the_id_that_was_not_found() {
    assert_eq!(book_page(99, None), "<p>Book id 99 not found</p>");
    assert_eq!(book_page(0, None), "<p>Book id 0 not found</p>");
    assert_eq!(book_page(u32::MAX, None), "<p>Book id 4294967295 not found</p>");
}

#[test]
fn form_page_holds_id_title_and_author() {
    let book = shown(12, "Antigone", "Sophocles");
    assert_eq!(
        form_page(12, Some(&book)),
        concat_lines(&[
            "<form method=\"post\" action=\"/books/12/form\">",
            "<input type=\"hidden\" name=\"id\" value=\"12\">",
            "<p><input name=\"title\" value=\"Antigone\"></p>",
            "<p><input name=\"author\" value=\"Sophocles\"></p>",
            "<input type=\"submit\" value=\"Save\">",
            "</form>",
        ])
    );
}

fn concat_lines(lines: &[&str]) -> String {
    let mut out = String::new();
    for line in lines {
        out.push_str(line);
        out.push('\n');
    }
    out
}

#[test]
fn form_page_names_the_id_that_was_not_found() {
    assert_eq!(form_page(7, None), "<p>Book id 7 not found</p>");
}

#[test]
fn put_message_shows_the_book() {
    assert_eq!(
        put_message(&shown(4, "Decameron", "Giovanni Boccaccio")),
        "Put book: Decameron by Giovanni Boccaccio"
    );
}

#[test]
fn post_message_shows_the_book_or_the_id() {
    let book = shown(1, "Elektra", "Sophocles");
    assert_eq!(post_message(1, Some(&book)), "Post book: Elektra by Sophocles");
    assert_eq!(post_message(99, None), "Book id not found: 99");
}

#[test]
fn delete_message_names_the_id() {
    assert_eq!(delete_message(2, true), "Delete book id: 2");
    assert_eq!(delete_message(2, false), "Book id not found: 2");
    assert_eq!(delete_message(1000, true), "Delete book id: 1000");
}

#[test]
fn table_cells() {
    assert_eq!(html_table_td_tags(&vec!["a".to_string(), "b".to_string()]), "<td>a</td><td>b</td>");
    assert_eq!(html_table_td_tags(&Vec::new()), "");
}

#[test]
fn table_rows() {
    let rows = vec![vec!["a".to_string(), "b".to_string()], Vec::new(), vec!["c".to_string()]];
    assert_eq!(
        html_table_tr_tags(rows),
        "<tr><td>a</td><td>b</td></tr>\n<tr></tr>\n<tr><td>c</td></tr>\n"
    );
    assert_eq!(html_table_tr_tags(Vec::new()), "");
}

#[test]
fn table_around_rows() {
    let rows = vec![vec!["1".to_string(), "Antigone".to_string()]];
    assert_eq!(html_table_tag(rows), "<table>\n<tr><td>1</td><td>Antigone</td></tr>\n</table>\n");
    assert_eq!(html_table_tag(Vec::new()), "<table>\n</table>\n");
}
