use demo_rust_axum::decode::decode_book;
use demo_rust_axum::decode::decode_change;
use demo_rust_axum::decode::decode_new_book;
use demo_rust_axum::decode::DecodeError;
use demo_rust_axum::decode::Field;
use demo_rust_axum::decode::Key;
use demo_rust_axum::decode::Value;
use demo_rust_axum::Book;
use demo_rust_axum::BookChange;
use demo_rust_axum::NewBook;

fn text(name: &str, value: &str) -> Field {
    Field { name: name.to_string(), value: Value::Text(value.to_string()) }
}

fn number(name: &str, value: u64) -> Field {
    Field { name: name.to_string(), value: Value::Number(value) }
}

fn other(name: &str) -> Field {
    Field { name: name.to_string(), value: Value::Other }
}

fn decoded(id: u32, title: &str, author: &str) -> Book {
    Book { id, title: title.to_string(), author: author.to_string() }
}

#[test]
fn book_from_the_members_of_an_object() {
    let fields = vec![number("id", 1), text("title", "Antigone"), text("author", "Sophocles")];
    assert_eq!(decode_book(&fields), Ok(decoded(1, "Antigone", "Sophocles")));
}

#[test]
fn book_from_the_pairs_of_a_form() {
    let fields = vec![text("id", "1"), text("title", "Antigone"), text("author", "Sophocles")];
    assert_eq!(decode_book(&fields), Ok(decoded(1, "Antigone", "Sophocles")));
}

#[test]
fn book_fields_may_come_in_any_order() {
    let fields = vec![text("author", "Sophocles"), text("title", "Antigone"), number("id", 7)];
    assert_eq!(decode_book(&fields), Ok(decoded(7, "Antigone", "Sophocles")));
}

#[test]
fn book_with_the_greatest_id() {
    let fields = vec![number("id", 4294967295), text("title", "a"), text("author", "b")];
    assert_eq!(decode_book(&fields), Ok(decoded(u32::MAX, "a", "b")));
    let fields = vec![text("id", "4294967295"), text("title", "a"), text("author", "b")];
    assert_eq!(decode_book(&fields), Ok(decoded(u32::MAX, "a", "b")));
}

#[test]
fn book_ignores_fields_that_it_does_not_know() {
    let fields = vec![
        text("isbn", "0"),
        number("id", 2),
        other("tags"),
        text("title", "Beloved"),
        text("author", "Toni Morrison"),
    ];
    assert_eq!(decode_book(&fields), Ok(decoded(2, "Beloved", "Toni Morrison")));
}

#[test]
fn book_takes_the_first_field_of_a_name() {
    let fields = vec![
        number("id", 2),
        number("id", 3),
        text("title", "First"),
        text("title", "Second"),
        text("author", "A"),
        other("author"),
    ];
    assert_eq!(decode_book(&fields), Ok(decoded(2, "First", "A")));
}

#[test]
fn book_field_names_are_matched_exactly() {
    let fields = vec![number("Id", 1), text("title", "a"), text("author", "b")];
    assert_eq!(decode_book(&fields), Err(DecodeError::Missing(Key::Id)));
    let fields = vec![number("id", 1), text("title ", "a"), text("author", "b")];
    assert_eq!(decode_book(&fields), Err(DecodeError::Missing(Key::Title)));
}

#[test]
fn book_without_a_field_is_refused() {
    let fields = vec![text("title", "Antigone"), text("author", "Sophocles")];
    assert_eq!(decode_book(&fields), Err(DecodeError::Missing(Key::Id)));
    let fields = vec![number("id", 1), text("author", "Sophocles")];
    assert_eq!(decode_book(&fields), Err(DecodeError::Missing(Key::Title)));
    let fields = vec![number("id", 1), text("title", "Antigone")];
    assert_eq!(decode_book(&fields), Err(DecodeError::Missing(Key::Author)));
    assert_eq!(decode_book(&Vec::new()), Err(DecodeError::Missing(Key::Id)));
}

#[test]
fn book_with_a_value_of_the_wrong_kind_is_refused() {
    let fields = vec![other("id"), text("title", "a"), text("author", "b")];
    assert_eq!(decode_book(&fields), Err(DecodeError::WrongType(Key::Id)));
    let fields = vec![text("id", "one"), text("title", "a"), text("author", "b")];
    assert_eq!(decode_book(&fields), Err(DecodeError::WrongType(Key::Id)));
    let fields = vec![text("id", ""), text("title", "a"), text("author", "b")];
    assert_eq!(decode_book(&fields), Err(DecodeError::WrongType(Key::Id)));
    let fields = vec![number("id", 1), number("title", 5), text("author", "b")];
    assert_eq!(decode_book(&fields), Err(DecodeError::WrongType(Key::Title)));
    let fields = vec![number("id", 1), text("title", "a"), other("author")];
    assert_eq!(decode_book(&fields), Err(DecodeError::WrongType(Key::Author)));
}

#[test]
fn book_with_an_id_that_does_not_fit_is_refused() {
    let fields = vec![number("id", 4294967296), text("title", "a"), text("author", "b")];
    assert_eq!(decode_book(&fields), Err(DecodeError::WrongType(Key::Id)));
    let fields = vec![number("id", u64::MAX), text("title", "a"), text("author", "b")];
    assert_eq!(decode_book(&fields), Err(DecodeError::WrongType(Key::Id)));
    let fields = vec![text("id", "4294967296"), text("title", "a"), text("author", "b")];
    assert_eq!(decode_book(&fields), Err(DecodeError::WrongType(Key::Id)));
}

#[test]
fn book_reports_the_first_field_that_is_wrong() {
    let fields = vec![other("author"), other("title"), other("id")];
    assert_eq!(decode_book(&fields), Err(DecodeError::WrongType(Key::Id)));
    let fields = vec![other("author"), number("id", 1)];
    assert_eq!(decode_book(&fields), Err(DecodeError::Missing(Key::Title)));
    let fields = vec![other("author"), other("title")];
    assert_eq!(decode_book(&fields), Err(DecodeError::Missing(Key::Id)));
}

#[test]
fn new_book_needs_title_and_author() {
    let fields = vec![text("title", "Decameron"), text("author", "Giovanni Boccaccio")];
    assert_eq!(
        decode_new_book(&fields),
        Ok(NewBook { title: "Decameron".to_string(), author: "Giovanni Boccaccio".to_string() })
    );
    let fields = vec![text("author", "Giovanni Boccaccio")];
    assert_eq!(decode_new_book(&fields), Err(DecodeError::Missing(Key::Title)));
    let fields = vec![text("title", "Decameron")];
    assert_eq!(decode_new_book(&fields), Err(DecodeError::Missing(Key::Author)));
    let fields = vec![number("title", 1), text("author", "x")];
    assert_eq!(decode_new_book(&fields), Err(DecodeError::WrongType(Key::Title)));
    let fields = vec![text("title", "x"), number("author", 1)];
    assert_eq!(decode_new_book(&fields), Err(DecodeError::WrongType(Key::Author)));
}

#[test]
fn new_book_does_not_read_an_id() {
    let fields = vec![other("id"), text("title", "Decameron"), text("author", "Boccaccio")];
    assert_eq!(
        decode_new_book(&fields),
        Ok(NewBook { title: "Decameron".to_string(), author: "Boccaccio".to_string() })
    );
}

#[test]
fn change_may_leave_fields_out() {
    let fields = vec![number("id", 1), text("title", "Elektra")];
    assert_eq!(
        decode_change(&fields),
        Ok(BookChange { title: Some("Elektra".to_string()), author: None })
    );
    let fields = vec![text("author", "Euripides")];
    assert_eq!(
        decode_change(&fields),
        Ok(BookChange { title: None, author: Some("Euripides".to_string()) })
    );
    assert_eq!(decode_change(&Vec::new()), Ok(BookChange { title: None, author: None }));
    let fields = vec![text("title", "Elektra"), text("author", "Euripides")];
    assert_eq!(
        decode_change(&fields),
        Ok(BookChange {
            title: Some("Elektra".to_string()),
            author: Some("Euripides".to_string())
        })
    );
}

#[test]
fn change_with_a_value_of_the_wrong_kind_is_refused() {
    let fields = vec![number("title", 1)];
    assert_eq!(decode_change(&fields), Err(DecodeError::WrongType(Key::Title)));
    let fields = vec![text("title", "Elektra"), other("author")];
    assert_eq!(decode_change(&fields), Err(DecodeError::WrongType(Key::Author)));
    let fields = vec![other("title"), other("author")];
    assert_eq!(decode_change(&fields), Err(DecodeError::WrongType(Key::Title)));
}

#[test]
fn key_names() {
    assert_eq!(Key::Id.name(), "id");
    assert_eq!(Key::Title.name(), "title");
    assert_eq!(Key::Author.name(), "author");
}

#[test]
fn decode_error_messages_name_the_field() {
    assert_eq!(DecodeError::Missing(Key::Id).message(), "missing field: id");
    assert_eq!(DecodeError::Missing(Key::Title).message(), "missing field: title");
    assert_eq!(DecodeError::Missing(Key::Author).message(), "missing field: author");
    assert_eq!(DecodeError::WrongType(Key::Id).message(), "wrong type of field: id");
    assert_eq!(DecodeError::WrongType(Key::Title).message(), "wrong type of field: title");
    assert_eq!(DecodeError::WrongType(Key::Author).message(), "wrong type of field: author");
}

#[test]
fn book_from_the_fields_that_its_form_posts() {
    for id in [0u32, 1, 12, 4294967295] {
        let fields = vec![
            text("id", &id.to_string()),
            text("title", "Antigone"),
            text("author", "Sophocles"),
        ];
        assert_eq!(decode_book(&fields), Ok(decoded(id, "Antigone", "Sophocles")));
    }
}
