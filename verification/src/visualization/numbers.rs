//! Text rendering of the integer types.

use crate::decimal::decimal_digits;
use crate::visualization::{integer_digits, signed_text, unsigned_text, Text, TextFormat};
use vstd::prelude::*;

verus! {

impl Text for u8 {
    /// The decimal digits of the number, whatever the format.
    fn text(&self, _format: &TextFormat) -> (r: Vec<String>)
        ensures
            r.deep_view() == seq![decimal_digits(*self as nat)],
    {
        unsigned_text(*self as u128)
    }
}

impl Text for u16 {
    /// The decimal digits of the number, whatever the format.
    fn text(&self, _format: &TextFormat) -> (r: Vec<String>)
        ensures
            r.deep_view() == seq![decimal_digits(*self as nat)],
    {
        unsigned_text(*self as u128)
    }
}

impl Text for u32 {
    /// The decimal digits of the number, whatever the format.
    fn text(&self, _format: &TextFormat) -> (r: Vec<String>)
        ensures
            r.deep_view() == seq![decimal_digits(*self as nat)],
    {
        unsigned_text(*self as u128)
    }
}

impl Text for u64 {
    /// The decimal digits of the number, whatever the format.
    fn text(&self, _format: &TextFormat) -> (r: Vec<String>)
        ensures
            r.deep_view() == seq![decimal_digits(*self as nat)],
    {
        unsigned_text(*self as u128)
    }
}

impl Text for u128 {
    /// The decimal digits of the number, whatever the format.
    fn text(&self, _format: &TextFormat) -> (r: Vec<String>)
        ensures
            r.deep_view() == seq![decimal_digits(*self as nat)],
    {
        unsigned_text(*self as u128)
    }
}

impl Text for usize {
    /// The decimal digits of the number, whatever the format.
    fn text(&self, _format: &TextFormat) -> (r: Vec<String>)
        ensures
            r.deep_view() == seq![decimal_digits(*self as nat)],
    {
        unsigned_text(*self as u128)
    }
}

impl Text for i8 {
    /// The decimal digits of the number, after `-` if it is negative,
    /// whatever the format.
    fn text(&self, _format: &TextFormat) -> (r: Vec<String>)
        ensures
            r.deep_view() == seq![integer_digits(*self as int)],
    {
        signed_text(*self as i128)
    }
}

impl Text for i16 {
    /// The decimal digits of the number, after `-` if it is negative,
    /// whatever the format.
    fn text(&self, _format: &TextFormat) -> (r: Vec<String>)
        ensures
            r.deep_view() == seq![integer_digits(*self as int)],
    {
        signed_text(*self as i128)
    }
}

impl Text for i32 {
    /// The decimal digits of the number, after `-` if it is negative,
    /// whatever the format.
    fn text(&self, _format: &TextFormat) -> (r: Vec<String>)
        ensures
            r.deep_view() == seq![integer_digits(*self as int)],
    {
        signed_text(*self as i128)
    }
}

impl Text for i64 {
    /// The decimal digits of the number, after `-` if it is negative,
    /// whatever the format.
    fn text(&self, _format: &TextFormat) -> (r: Vec<String>)
        ensures
            r.deep_view() == seq![integer_digits(*self as int)],
    {
        signed_text(*self as i128)
    }
}

impl Text for i128 {
    /// The decimal digits of the number, after `-` if it is negative,
    /// whatever the format.
    fn text(&self, _format: &TextFormat) -> (r: Vec<String>)
        ensures
            r.deep_view() == seq![integer_digits(*self as int)],
    {
        signed_text(*self as i128)
    }
}

impl Text for isize {
    /// The decimal digits of the number, after `-` if it is negative,
    /// whatever the format.
    fn text(&self, _format: &TextFormat) -> (r: Vec<String>)
        ensures
            r.deep_view() == seq![integer_digits(*self as int)],
    {
        signed_text(*self as i128)
    }
}

} // verus!
