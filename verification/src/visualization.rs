//! Plain-text rendering of values.

use crate::decimal::{decimal_digits, push_decimal};
use crate::json::Json;
use vstd::prelude::*;

pub mod numbers;

verus! {

/// The layout that a text rendering is asked for.
#[derive(Debug, Clone, Copy, PartialEq, Eq, Structural)]
pub enum TextFormat {
    AsSingleLine,
    AsMultiLine,
    AsRow,
    AsHeader,
}

/// Values that can be rendered as lines of plain text. What the lines are
/// is up to each type; the impls in this crate state theirs.
pub trait Text {
    /// Renders the value in `format`.
    fn text(&self, format: &TextFormat) -> Vec<String>;
}

/// The decimal text of an integer, with `-` before a negative one.
pub open spec fn integer_digits(n: int) -> Seq<char> {
    if n < 0 {
        seq!['-'] + decimal_digits((-n) as nat)
    } else {
        decimal_digits(n as nat)
    }
}

/// One line that holds `s`.
pub fn one_line(s: String) -> (r: Vec<String>)
    ensures
        r.deep_view() == seq![s@],
{
    let r = vec![s];
    assert(r.deep_view() =~= seq![s@]);
    r
}

/// One line with the decimal text of `n`.
pub fn unsigned_text(n: u128) -> (r: Vec<String>)
    ensures
        r.deep_view() == seq![decimal_digits(n as nat)],
{
    let mut s = String::new();
    push_decimal(&mut s, n);
    assert(s@ =~= decimal_digits(n as nat));
    one_line(s)
}

/// One line with the decimal text of `n`, with `-` before a negative number.
pub fn signed_text(n: i128) -> (r: Vec<String>)
    ensures
        r.deep_view() == seq![integer_digits(n as int)],
{
    let mut s = String::new();
    if n < 0 {
        s.push('-');
        let magnitude: u128 = if n == i128::MIN {
            0x8000_0000_0000_0000_0000_0000_0000_0000u128
        } else {
            (-n) as u128
        };
        push_decimal(&mut s, magnitude);
        assert(s@ =~= integer_digits(n as int));
    } else {
        push_decimal(&mut s, n as u128);
        assert(s@ =~= integer_digits(n as int));
    }
    one_line(s)
}

impl Text for bool {
    /// `true` or `false`, whatever the format.
    fn text(&self, _format: &TextFormat) -> (r: Vec<String>)
        ensures
            r.deep_view() == if *self {
                seq!["true"@]
            } else {
                seq!["false"@]
            },
    {
        if *self {
            one_line(String::from_str("true"))
        } else {
            one_line(String::from_str("false"))
        }
    }
}

impl Text for char {
    /// The character itself, whatever the format.
    fn text(&self, _format: &TextFormat) -> (r: Vec<String>)
        ensures
            r.deep_view() == seq![seq![*self]],
    {
        let mut s = String::new();
        s.push(*self);
        assert(s@ =~= seq![*self]);
        one_line(s)
    }
}

impl Text for String {
    /// The string itself, whatever the format.
    fn text(&self, _format: &TextFormat) -> (r: Vec<String>)
        ensures
            r.deep_view() == seq![self@],
    {
        one_line(self.clone())
    }
}

impl Text for &str {
    /// The string itself, whatever the format.
    fn text(&self, _format: &TextFormat) -> (r: Vec<String>)
        ensures
            r.deep_view() == seq![self@],
    {
        one_line(String::from_str(*self))
    }
}

impl Text for Json {
    /// The compact text of the document, whatever the format.
    fn text(&self, _format: &TextFormat) -> (r: Vec<String>)
        ensures
            r.deep_view() == seq![self@],
    {
        one_line(String::from_str(self.as_str()))
    }
}

impl<T: Text> Text for Option<T> {
    /// No line for `None`; for `Some`, what the value inside renders as.
    fn text(&self, format: &TextFormat) -> (r: Vec<String>)
        ensures
            match self {
                None => r.deep_view() == Seq::<Seq<char>>::empty(),
                Some(t) => call_ensures(T::text, (t, format), r),
            },
    {
        match self {
            None => {
                let r: Vec<String> = Vec::new();
                assert(r.deep_view() =~= Seq::<Seq<char>>::empty());
                r
            },
            Some(t) => t.text(format),
        }
    }
}

impl Text for () {
    /// One empty line, whatever the format.
    fn text(&self, _format: &TextFormat) -> (r: Vec<String>)
        ensures
            r.deep_view() == seq![Seq::<char>::empty()],
    {
        one_line(String::new())
    }
}

impl<A: Text> Text for (A,) {
    /// What the member renders as: on a single line for a single line and
    /// for a row, on several lines for several lines. A header is one empty
    /// line.
    fn text(&self, format: &TextFormat) -> (r: Vec<String>)
        ensures
            match *format {
                TextFormat::AsSingleLine | TextFormat::AsRow => call_ensures(
                    A::text,
                    (&self.0, &TextFormat::AsSingleLine),
                    r,
                ),
                TextFormat::AsMultiLine => call_ensures(
                    A::text,
                    (&self.0, &TextFormat::AsMultiLine),
                    r,
                ),
                TextFormat::AsHeader => r.deep_view() == seq![Seq::<char>::empty()],
            },
    {
        match format {
            TextFormat::AsSingleLine => self.0.text(&TextFormat::AsSingleLine),
            TextFormat::AsMultiLine => self.0.text(format),
            TextFormat::AsRow => self.0.text(&TextFormat::AsSingleLine),
            TextFormat::AsHeader => one_line(String::new()),
        }
    }
}

} // verus!
