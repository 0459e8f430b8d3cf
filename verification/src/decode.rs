//! From the named values of a request to a book, a candidate or a change.
//!
//! A request carries its values by name: the members of a JSON object, or
//! the pairs of a form. A form carries every value as text, so a number is
//! accepted both as a number and as the text of its numeral.

use vstd::prelude::*;
use vstd::string::StringExecFns;

use crate::book::Book;
use crate::book::BookChange;
use crate::book::BookChangeView;
use crate::book::BookView;
use crate::book::NewBook;
use crate::text::parse_u32;
use crate::text::parsed_u32;

verus! {

/// A value of a request.
#[derive(Debug, PartialEq, Eq, Hash)]
pub enum Value {
    /// A text.
    Text(String),
    /// A whole number that is not negative.
    Number(u64),
    /// Anything else: a negative number or a fraction, a truth value, null,
    /// a list or an object.
    Other,
}

/// A value under its name.
#[derive(Debug, PartialEq, Eq, Hash)]
pub struct Field {
    pub name: String,
    pub value: Value,
}

/// A value as contracts see it.
pub enum ValueView {
    Text(Seq<char>),
    Number(u64),
    Other,
}

/// A field as contracts see it.
pub struct FieldView {
    pub name: Seq<char>,
    pub value: ValueView,
}

impl View for Value {
    type V = ValueView;

    open spec fn view(&self) -> ValueView {
        match self {
            Value::Text(text) => ValueView::Text(text@),
            Value::Number(number) => ValueView::Number(*number),
            Value::Other => ValueView::Other,
        }
    }
}

impl View for Field {
    type V = FieldView;

    open spec fn view(&self) -> FieldView {
        FieldView { name: self.name@, value: self.value@ }
    }
}

/// The fields of a sequence as contracts see them, in the same order.
pub open spec fn field_views(fields: Seq<Field>) -> Seq<FieldView> {
    Seq::new(fields.len(), |i: int| fields[i]@)
}

/// The fields that decoding reads.
#[derive(Clone, Copy, Debug, PartialEq, Eq, Hash, Structural)]
pub enum Key {
    Id,
    Title,
    Author,
}

/// Why a request could not be decoded.
#[derive(Clone, Copy, Debug, PartialEq, Eq, Hash, Structural)]
pub enum DecodeError {
    /// The request has no field of this name, and one is needed.
    Missing(Key),
    /// The field of this name holds a value of the wrong kind.
    WrongType(Key),
}

/// The name under which a request carries the field.
pub open spec fn name_of(key: Key) -> Seq<char> {
    match key {
        Key::Id => "id"@,
        Key::Title => "title"@,
        Key::Author => "author"@,
    }
}

/// The value of the first field of that name, if there is one.
pub open spec fn value_of(fields: Seq<FieldView>, name: Seq<char>) -> Option<ValueView>
    decreases fields.len(),
{
    if fields.len() == 0 {
        None
    } else if fields[0].name == name {
        Some(fields[0].value)
    } else {
        value_of(fields.drop_first(), name)
    }
}

/// The text of a field that must be there.
pub open spec fn text_of(fields: Seq<FieldView>, key: Key) -> Result<Seq<char>, DecodeError> {
    match value_of(fields, name_of(key)) {
        None => Err(DecodeError::Missing(key)),
        Some(ValueView::Text(text)) => Ok(text),
        Some(_) => Err(DecodeError::WrongType(key)),
    }
}

/// The text of a field that may be left out.
pub open spec fn optional_text_of(fields: Seq<FieldView>, key: Key) -> Result<
    Option<Seq<char>>,
    DecodeError,
> {
    match value_of(fields, name_of(key)) {
        None => Ok(None),
        Some(ValueView::Text(text)) => Ok(Some(text)),
        Some(_) => Err(DecodeError::WrongType(key)),
    }
}

/// The id that the request carries: a number that fits in 32 bits, or a text
/// that is the numeral of one.
pub open spec fn id_of(fields: Seq<FieldView>) -> Result<u32, DecodeError> {
    match value_of(fields, name_of(Key::Id)) {
        None => Err(DecodeError::Missing(Key::Id)),
        Some(ValueView::Number(number)) => if number <= u32::MAX {
            Ok(number as u32)
        } else {
            Err(DecodeError::WrongType(Key::Id))
        },
        Some(ValueView::Text(text)) => match parsed_u32(text) {
            Some(number) => Ok(number),
            None => Err(DecodeError::WrongType(Key::Id)),
        },
        Some(ValueView::Other) => Err(DecodeError::WrongType(Key::Id)),
    }
}

/// The book that the fields describe. Id, title and author must be there;
/// the first of them, in this order, that is missing or of the wrong kind is
/// the error.
pub open spec fn decoded_book(fields: Seq<FieldView>) -> Result<BookView, DecodeError> {
    match id_of(fields) {
        Err(error) => Err(error),
        Ok(id) => match text_of(fields, Key::Title) {
            Err(error) => Err(error),
            Ok(title) => match text_of(fields, Key::Author) {
                Err(error) => Err(error),
                Ok(author) => Ok(BookView { id, title, author }),
            },
        },
    }
}

/// The candidate that the fields describe: title and author must be there,
/// and an id is not read.
pub open spec fn decoded_new_book(fields: Seq<FieldView>) -> Result<
    (Seq<char>, Seq<char>),
    DecodeError,
> {
    match text_of(fields, Key::Title) {
        Err(error) => Err(error),
        Ok(title) => match text_of(fields, Key::Author) {
            Err(error) => Err(error),
            Ok(author) => Ok((title, author)),
        },
    }
}

/// The change that the fields describe: title and author may each be left
/// out, and an id is not read.
pub open spec fn decoded_change(fields: Seq<FieldView>) -> Result<BookChangeView, DecodeError> {
    match optional_text_of(fields, Key::Title) {
        Err(error) => Err(error),
        Ok(title) => match optional_text_of(fields, Key::Author) {
            Err(error) => Err(error),
            Ok(author) => Ok(BookChangeView { title, author }),
        },
    }
}

/// The message that tells a caller what was wrong with a request.
pub open spec fn message_of(error: DecodeError) -> Seq<char> {
    match error {
        DecodeError::Missing(key) => "missing field: "@ + name_of(key),
        DecodeError::WrongType(key) => "wrong type of field: "@ + name_of(key),
    }
}

impl Key {
    /// The name under which a request carries the field.
    pub fn name(self) -> (name: &'static str)
        ensures
            name@ == name_of(self),
    {
        match self {
            Key::Id => "id",
            Key::Title => "title",
            Key::Author => "author",
        }
    }
}

impl DecodeError {
    /// The message that tells a caller what was wrong with a request.
    pub fn message(self) -> (message: String)
        ensures
            message@ == message_of(self),
    {
        match self {
            DecodeError::Missing(key) => {
                let mut message = "missing field: ".to_owned();
                message.append(key.name());
                message
            },
            DecodeError::WrongType(key) => {
                let mut message = "wrong type of field: ".to_owned();
                message.append(key.name());
                message
            },
        }
    }
}

/// The value of the first field that has the name of `key`.
fn find(fields: &Vec<Field>, key: Key) -> (found: Option<&Value>)
    ensures
        match found {
            Some(value) => value_of(field_views(fields@), name_of(key)) == Some(value@),
            None => value_of(field_views(fields@), name_of(key)) is None,
        },
{
    let name = key.name().to_owned();
    let ghost all = field_views(fields@);
    let mut i: usize = 0;
    assert(all.skip(0) =~= all);
    while i < fields.len()
        invariant
            i <= fields.len(),
            name@ == name_of(key),
            all == field_views(fields@),
            value_of(all, name@) == value_of(all.skip(i as int), name@),
        decreases fields.len() - i,
    {
        proof {
            assert(all.skip(i as int).drop_first() =~= all.skip(i + 1));
            assert(all.skip(i as int)[0] == fields@[i as int]@);
        }
        if fields[i].name == name {
            return Some(&fields[i].value);
        }
        i += 1;
    }
    None
}

fn text_field(fields: &Vec<Field>, key: Key) -> (text: Result<String, DecodeError>)
    ensures
        match text {
            Ok(t) => text_of(field_views(fields@), key) == Ok::<Seq<char>, DecodeError>(t@),
            Err(error) => text_of(field_views(fields@), key) == Err::<Seq<char>, DecodeError>(
                error,
            ),
        },
{
    match find(fields, key) {
        None => Err(DecodeError::Missing(key)),
        Some(Value::Text(text)) => Ok(text.clone()),
        Some(_) => Err(DecodeError::WrongType(key)),
    }
}

fn optional_text_field(fields: &Vec<Field>, key: Key) -> (text: Result<
    Option<String>,
    DecodeError,
>)
    ensures
        match text {
            Ok(Some(t)) => optional_text_of(field_views(fields@), key) == Ok::<
                Option<Seq<char>>,
                DecodeError,
            >(Some(t@)),
            Ok(None) => optional_text_of(field_views(fields@), key) == Ok::<
                Option<Seq<char>>,
                DecodeError,
            >(None),
            Err(error) => optional_text_of(field_views(fields@), key) == Err::<
                Option<Seq<char>>,
                DecodeError,
            >(error),
        },
{
    match find(fields, key) {
        None => Ok(None),
        Some(Value::Text(text)) => Ok(Some(text.clone())),
        Some(_) => Err(DecodeError::WrongType(key)),
    }
}

fn id_field(fields: &Vec<Field>) -> (id: Result<u32, DecodeError>)
    ensures
        id == id_of(field_views(fields@)),
{
    match find(fields, Key::Id) {
        None => Err(DecodeError::Missing(Key::Id)),
        Some(Value::Number(number)) => {
            if *number <= 0xffff_ffff {
                Ok(*number as u32)
            } else {
                Err(DecodeError::WrongType(Key::Id))
            }
        },
        Some(Value::Text(text)) => match parse_u32(text.as_str()) {
            Some(number) => Ok(number),
            None => Err(DecodeError::WrongType(Key::Id)),
        },
        Some(Value::Other) => Err(DecodeError::WrongType(Key::Id)),
    }
}

/// A book or an error, as contracts see it.
pub open spec fn book_outcome_view(outcome: Result<Book, DecodeError>) -> Result<
    BookView,
    DecodeError,
> {
    match outcome {
        Ok(book) => Ok(book@),
        Err(error) => Err(error),
    }
}

/// A candidate or an error, as contracts see it.
pub open spec fn new_book_outcome_view(outcome: Result<NewBook, DecodeError>) -> Result<
    (Seq<char>, Seq<char>),
    DecodeError,
> {
    match outcome {
        Ok(candidate) => Ok((candidate.title@, candidate.author@)),
        Err(error) => Err(error),
    }
}

/// A change or an error, as contracts see it.
pub open spec fn change_outcome_view(outcome: Result<BookChange, DecodeError>) -> Result<
    BookChangeView,
    DecodeError,
> {
    match outcome {
        Ok(change) => Ok(change@),
        Err(error) => Err(error),
    }
}

/// Decodes a book with its id, as a full replacement needs it.
pub fn decode_book(fields: &Vec<Field>) -> (outcome: Result<Book, DecodeError>)
    ensures
        book_outcome_view(outcome) == decoded_book(field_views(fields@)),
{
    let id = match id_field(fields) {
        Ok(id) => id,
        Err(error) => return Err(error),
    };
    let title = match text_field(fields, Key::Title) {
        Ok(title) => title,
        Err(error) => return Err(error),
    };
    let author = match text_field(fields, Key::Author) {
        Ok(author) => author,
        Err(error) => return Err(error),
    };
    Ok(Book { id, title, author })
}

/// Decodes a candidate for `create`.
pub fn decode_new_book(fields: &Vec<Field>) -> (outcome: Result<NewBook, DecodeError>)
    ensures
        new_book_outcome_view(outcome) == decoded_new_book(field_views(fields@)),
{
    let title = match text_field(fields, Key::Title) {
        Ok(title) => title,
        Err(error) => return Err(error),
    };
    let author = match text_field(fields, Key::Author) {
        Ok(author) => author,
        Err(error) => return Err(error),
    };
    Ok(NewBook { title, author })
}

/// Decodes a change for `patch`.
pub fn decode_change(fields: &Vec<Field>) -> (outcome: Result<BookChange, DecodeError>)
    ensures
        change_outcome_view(outcome) == decoded_change(field_views(fields@)),
{
    let title = match optional_text_field(fields, Key::Title) {
        Ok(title) => title,
        Err(error) => return Err(error),
    };
    let author = match optional_text_field(fields, Key::Author) {
        Ok(author) => author,
        Err(error) => return Err(error),
    };
    Ok(BookChange { title, author })
}

} // verus!
