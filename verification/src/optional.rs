//! Stored fields that may be absent: an empty text and the word `null`
//! stand for no value.

use vstd::prelude::*;
use crate::text::same_text;

verus! {

/// Whether the text stands for an absent value.
pub open spec fn is_null_text(s: Seq<char>) -> bool {
    s.len() == 0 || s == "NULL"@ || s == "null"@ || s == "Null"@
}

/// The complaint about a text that is neither absent nor a value.
pub open spec fn unparsable_message(s: Seq<char>) -> Seq<char> {
    "Could not parse '"@ + s + "' into the desired type."@
}

/// Whether the text stands for an absent value.
pub fn is_null(s: &str) -> (r: bool)
    ensures
        r == is_null_text(s@),
{
    s.is_empty() || same_text(s, "NULL") || same_text(s, "null") || same_text(s, "Null")
}

/// The value of a stored field that may be absent: `s` is its text and
/// `parsed` is what reading `s` as a value gave. A text that stands for an
/// absent value gives none, whatever `parsed` is.
pub fn deserialize_optional<T, E>(s: &str, parsed: Result<T, E>) -> (r: Result<Option<T>, String>)
    ensures
        match r {
            Ok(None) => is_null_text(s@),
            Ok(Some(v)) => !is_null_text(s@) && parsed == Ok::<T, E>(v),
            Err(m) => !is_null_text(s@) && parsed is Err && m@ == unparsable_message(s@),
        },
{
    if is_null(s) {
        return Ok(None);
    }
    match parsed {
        Ok(v) => Ok(Some(v)),
        Err(_) => {
            let mut m = "Could not parse '".to_owned();
            m.append(s);
            m.append("' into the desired type.");
            Err(m)
        },
    }
}

} // verus!
