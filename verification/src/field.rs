//! The numeric field that starts at a place in a page: its text up to the
//! next tag, cleaned and read as a decimal number.

use vstd::prelude::*;
use crate::amount::is_decimal_literal;
use crate::amount::Amount;
use crate::error::outcome_model;
use crate::error::ErrorModel;
use crate::error::StockPriceError;
use crate::text::chars_of;
use crate::text::find_from;
use crate::text::first_occurrence;
use crate::text::lemma_first_occurrence_some;

verus! {

/// What `str::to_lowercase` makes of a text.
pub uninterp spec fn lowercase(s: Seq<char>) -> Seq<char>;

/// `str::to_lowercase` returns the lowercase equivalent of the text, in the
/// sense of Unicode's derived property of that name; it depends on the text
/// alone.
pub assume_specification[ str::to_lowercase ](s: &str) -> (r: String)
    ensures
        r@ == lowercase(s@),
;

/// Whether `c` is a space, a tab, a line feed, a form feed or a carriage
/// return.
pub open spec fn is_ascii_whitespace(c: char) -> bool {
    c == ' ' || c == '\t' || c == '\n' || c == '\x0C' || c == '\r'
}

/// The predicate that drops whitespace from a text.
pub open spec fn not_whitespace() -> spec_fn(char) -> bool {
    |c: char| !is_ascii_whitespace(c)
}

/// The predicate that drops thousands separators from a text.
pub open spec fn not_comma() -> spec_fn(char) -> bool {
    |c: char| c != ','
}

/// Whether `c` may stand in the written form of a number: a digit, a point,
/// a comma or a minus sign.
pub open spec fn is_numeric_char(c: char) -> bool {
    '0' <= c <= '9' || c == '.' || c == ',' || c == '-'
}

/// The length of the longest prefix of `s` made of numeric characters.
pub open spec fn numeric_run(s: Seq<char>) -> nat
    decreases s.len(),
{
    if s.len() == 0 || !is_numeric_char(s[0]) {
        0
    } else {
        1 + numeric_run(s.drop_first())
    }
}

/// The tag opener that ends a field.
pub open spec fn tag_opener() -> Seq<char> {
    seq!['<']
}

/// The text of the field that starts at `pos`: what stands between `pos` and
/// the next `<`, if there is one.
pub open spec fn field_text(doc: Seq<char>, pos: int) -> Option<Seq<char>> {
    match first_occurrence(doc, tag_opener(), pos) {
        Some(end) => Some(doc.subrange(pos, end)),
        None => None,
    }
}

/// The written number in a normalized field text: its leading run of
/// numeric characters, without the commas.
pub open spec fn written_number(lowered: Seq<char>) -> Seq<char> {
    lowered.take(numeric_run(lowered) as int).filter(not_comma())
}

/// The amount that a normalized field text stands for. An empty text and
/// the text `n/a` stand for zero.
pub open spec fn amount_of_normalized(lowered: Seq<char>) -> Result<Seq<char>, ErrorModel> {
    if lowered.len() == 0 || lowered == "n/a"@ {
        Ok("0"@)
    } else if is_decimal_literal(written_number(lowered)) {
        Ok(written_number(lowered))
    } else {
        Err(ErrorModel::MalformedNumber(written_number(lowered)))
    }
}

/// The amount that a field text stands for: whitespace is dropped and the
/// rest is lowercased before it is read.
pub open spec fn amount_of_field(field: Seq<char>) -> Result<Seq<char>, ErrorModel> {
    amount_of_normalized(lowercase(field.filter(not_whitespace())))
}

/// The amount of the field that starts at `pos` in `doc`.
pub open spec fn amount_at(doc: Seq<char>, pos: int) -> Result<Seq<char>, ErrorModel> {
    match field_text(doc, pos) {
        Some(field) => amount_of_field(field),
        None => Err(ErrorModel::UnterminatedField),
    }
}

/// A prefix of numeric characters that ends the text, or that a character of
/// another kind follows, is the numeric run.
pub proof fn lemma_numeric_run_is(s: Seq<char>, n: int)
    requires
        0 <= n <= s.len(),
        forall|j: int| 0 <= j < n ==> is_numeric_char(#[trigger] s[j]),
        n == s.len() || !is_numeric_char(s[n]),
    ensures
        numeric_run(s) == n,
    decreases n,
{
    if n > 0 {
        let rest = s.drop_first();
        assert forall|j: int| 0 <= j < n - 1 implies is_numeric_char(#[trigger] rest[j]) by {
            assert(rest[j] == s[j + 1]);
        }
        lemma_numeric_run_is(rest, n - 1);
    }
}

/// Whether `c` is a space, a tab, a line feed, a form feed or a carriage
/// return.
fn is_whitespace(c: char) -> (b: bool)
    ensures
        b == is_ascii_whitespace(c),
{
    c == ' ' || c == '\t' || c == '\n' || c == '\x0C' || c == '\r'
}

/// Whether `c` may stand in the written form of a number.
fn is_numeric(c: char) -> (b: bool)
    ensures
        b == is_numeric_char(c),
{
    ('0' <= c && c <= '9') || c == '.' || c == ',' || c == '-'
}

/// The place of the `<` that ends the field starting at `pos`.
pub fn field_end(doc: &[char], pos: usize) -> (r: Option<usize>)
    ensures
        match r {
            Some(end) => pos <= end < doc@.len() && field_text(doc@, pos as int) == Some(
                doc@.subrange(pos as int, end as int),
            ),
            None => field_text(doc@, pos as int) is None,
        },
{
    let mut opener: Vec<char> = Vec::new();
    opener.push('<');
    let r = find_from(doc, opener.as_slice(), pos);
    proof {
        if r is Some {
            lemma_first_occurrence_some(doc@, tag_opener(), pos as int);
        }
    }
    r
}

/// The characters of `doc[from..to]` that are not whitespace.
pub(crate) fn without_whitespace(doc: &[char], from: usize, to: usize) -> (s: String)
    requires
        from <= to <= doc@.len(),
    ensures
        s@ == doc@.subrange(from as int, to as int).filter(not_whitespace()),
{
    let ghost field = doc@.subrange(from as int, to as int);
    let mut s = String::new();
    let mut i: usize = from;
    proof {
        reveal(Seq::filter);
    }
    while i < to
        invariant
            from <= i <= to <= doc@.len(),
            field == doc@.subrange(from as int, to as int),
            s@ == field.take(i - from).filter(not_whitespace()),
        decreases to - i,
    {
        let c: char = doc[i];
        proof {
            assert(field.take(i - from + 1) =~= field.take(i - from).push(c));
            field.take(i - from).lemma_filter_push(c, not_whitespace());
        }
        if !is_whitespace(c) {
            s.push(c);
        }
        i += 1;
    }
    assert(field.take(to - from) =~= field);
    s
}

/// The characters of `v[..to]` that are not commas.
fn without_commas(v: &[char], to: usize) -> (s: String)
    requires
        to <= v@.len(),
    ensures
        s@ == v@.take(to as int).filter(not_comma()),
{
    let mut s = String::new();
    let mut i: usize = 0;
    proof {
        reveal(Seq::filter);
    }
    while i < to
        invariant
            i <= to <= v@.len(),
            s@ == v@.take(i as int).filter(not_comma()),
        decreases to - i,
    {
        let c: char = v[i];
        proof {
            assert(v@.take(i + 1) =~= v@.take(i as int).push(c));
            v@.take(i as int).lemma_filter_push(c, not_comma());
        }
        if c != ',' {
            s.push(c);
        }
        i += 1;
    }
    s
}

/// The text of `s` up to its first `<`.
pub fn extract_up_to_next_tag(s: &str) -> (r: Result<&str, StockPriceError>)
    ensures
        match r {
            Ok(t) => field_text(s@, 0) == Some(t@),
            Err(e) => e@ == ErrorModel::UnterminatedField && field_text(s@, 0) is None,
        },
{
    let doc = chars_of(s);
    match field_end(doc.as_slice(), 0) {
        Some(end) => Ok(s.substring_char(0, end)),
        None => Err(StockPriceError::UnterminatedField),
    }
}

/// Reads a field text that is already without whitespace and in lowercase.
pub fn amount_from_normalized(lowered: &str) -> (r: Result<Amount, StockPriceError>)
    ensures
        outcome_model(r) == amount_of_normalized(lowered@),
{
    let v = chars_of(lowered);
    let n: usize = v.len();
    proof {
        reveal_strlit("n/a");
    }
    if n == 0 {
        return Ok(Amount::zero());
    }
    if n == 3 && v[0] == 'n' && v[1] == '/' && v[2] == 'a' {
        assert(lowered@ =~= "n/a"@);
        return Ok(Amount::zero());
    }
    let mut run: usize = 0;
    while run < n && is_numeric(v[run])
        invariant
            run <= n,
            n == v@.len(),
            forall|j: int| 0 <= j < run ==> is_numeric_char(#[trigger] v@[j]),
        decreases n - run,
    {
        run += 1;
    }
    proof {
        lemma_numeric_run_is(v@, run as int);
    }
    let written = without_commas(v.as_slice(), run);
    match Amount::from_literal(written.as_str()) {
        Some(a) => Ok(a),
        None => Err(StockPriceError::MalformedNumber(written)),
    }
}

/// Reads the field at the start of `s`: its text up to the next `<`, without
/// whitespace and in lowercase, as an amount.
pub fn extract_pence(s: &str) -> (r: Result<Amount, StockPriceError>)
    ensures
        outcome_model(r) == amount_at(s@, 0),
{
    let doc = chars_of(s);
    amount_in(doc.as_slice(), 0)
}

/// Reads the field that starts at `pos` in `doc`.
pub fn amount_in(doc: &[char], pos: usize) -> (r: Result<Amount, StockPriceError>)
    ensures
        outcome_model(r) == amount_at(doc@, pos as int),
{
    match field_end(doc, pos) {
        Some(end) => {
            let stripped = without_whitespace(doc, pos, end);
            let lowered = stripped.as_str().to_lowercase();
            amount_from_normalized(lowered.as_str())
        },
        None => Err(StockPriceError::UnterminatedField),
    }
}

} // verus!
