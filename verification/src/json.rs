//! JSON payloads, held as compact text.

use vstd::prelude::*;
use vstd::std_specs::cmp::PartialEqSpecImpl;

verus! {

/// The compact text that `serde_json` writes for the JSON document `text`, or
/// `None` where `text` is not exactly one JSON document.
pub uninterp spec fn json_compact_form(text: Seq<char>) -> Option<Seq<char>>;

/// Reads `text` with `serde_json::from_str` into a `serde_json::Value` and
/// writes that value back with its `Display` impl, which prints the compact
/// form. Both steps depend on `text` alone, so the outcome has a name,
/// `json_compact_form`; nothing more is claimed of it. Text that
/// `serde_json` rejects gives `None`.
#[verifier::external_body]
fn compact_json(text: &str) -> (r: Option<String>)
    ensures
        match r {
            Some(compact) => json_compact_form(text@) == Some(compact@),
            None => json_compact_form(text@) is None,
        },
{
    match serde_json::from_str::<serde_json::Value>(text) {
        Ok(value) => Some(value.to_string()),
        Err(_) => None,
    }
}

/// A JSON value. It is kept as the compact text of the document, so two
/// values are equal exactly when their compact texts are.
#[derive(Debug)]
pub struct Json {
    text: String,
}

impl View for Json {
    type V = Seq<char>;

    closed spec fn view(&self) -> Seq<char> {
        self.text@
    }
}

impl Json {
    /// Reads a JSON document. Returns `None` where `text` is not one.
    pub fn parse(text: &str) -> (r: Option<Json>)
        ensures
            match r {
                Some(json) => json_compact_form(text@) == Some(json@),
                None => json_compact_form(text@) is None,
            },
    {
        match compact_json(text) {
            Some(compact) => Some(Json { text: compact }),
            None => None,
        }
    }

    /// The compact text of the document.
    pub fn as_str(&self) -> (s: &str)
        ensures
            s@ == self@,
    {
        self.text.as_str()
    }
}

impl Clone for Json {
    fn clone(&self) -> (r: Json)
        ensures
            r@ == self@,
    {
        Json { text: self.text.clone() }
    }
}

impl PartialEq for Json {
    fn eq(&self, other: &Json) -> (r: bool) {
        self.text == other.text
    }
}

impl Eq for Json {

}

impl PartialEqSpecImpl for Json {
    open spec fn obeys_eq_spec() -> bool {
        true
    }

    open spec fn eq_spec(&self, other: &Json) -> bool {
        self@ == other@
    }
}

} // verus!
