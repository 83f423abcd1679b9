//! A place in a page from which the scan goes forward, never back.

use vstd::prelude::*;
use crate::amount::Amount;
use crate::error::outcome_model;
use crate::error::ErrorModel;
use crate::error::StockPriceError;
use crate::field::amount_at;
use crate::field::amount_in;
use crate::text::chars_of;
use crate::text::find_from;
use crate::text::first_occurrence;
use crate::text::lemma_first_occurrence_some;
use crate::text::string_of;

verus! {

/// A position in a page. A cursor is never changed: each advance gives a new
/// one, further on in the same page.
pub struct Cursor<'a> {
    page: &'a [char],
    pos: usize,
}

impl<'a> Cursor<'a> {
    #[verifier::type_invariant]
    spec fn well_formed(self) -> bool {
        self.pos <= self.page@.len()
    }

    /// The whole page that the cursor scans.
    pub closed spec fn page(self) -> Seq<char> {
        self.page@
    }

    /// The number of characters that lie behind the cursor.
    pub closed spec fn position(self) -> int {
        self.pos as int
    }

    /// What is left of the page.
    pub open spec fn rest(self) -> Seq<char> {
        self.page().skip(self.position())
    }

    /// A cursor at the start of `page`.
    pub fn new(page: &'a [char]) -> (c: Cursor<'a>)
        ensures
            c.page() == page@,
            c.position() == 0,
    {
        Cursor { page, pos: 0 }
    }

    /// The number of characters that lie behind the cursor.
    pub fn offset(&self) -> (n: usize)
        ensures
            n == self.position(),
            0 <= self.position() <= self.page().len(),
    {
        proof {
            use_type_invariant(self);
        }
        self.pos
    }

    /// A cursor just behind the first occurrence of `marker` at or after
    /// this one: never before this one.
    pub fn advance_past(&self, marker: &str) -> (r: Result<Cursor<'a>, StockPriceError>)
        ensures
            match r {
                Ok(c) => c.page() == self.page() && first_occurrence(
                    self.page(),
                    marker@,
                    self.position(),
                ) == Some(c.position() - marker@.len()) && self.position() + marker@.len()
                    <= c.position() <= self.page().len(),
                Err(e) => e@ == ErrorModel::MarkerNotFound(marker@) && first_occurrence(
                    self.page(),
                    marker@,
                    self.position(),
                ) is None,
            },
    {
        proof {
            use_type_invariant(self);
        }
        let m = chars_of(marker);
        let n: usize = self.page.len();
        match find_from(self.page, m.as_slice(), self.pos) {
            Some(i) => {
                proof {
                    lemma_first_occurrence_some(self.page@, marker@, self.pos as int);
                }
                assert(i + m@.len() <= n);
                Ok(Cursor { page: self.page, pos: i + m.len() })
            },
            None => Err(StockPriceError::MarkerNotFound(marker.to_owned())),
        }
    }

    /// The amount written in the field that starts at the cursor. The cursor
    /// stays where it is.
    pub fn amount(&self) -> (r: Result<Amount, StockPriceError>)
        ensures
            outcome_model(r) == amount_at(self.page(), self.position()),
    {
        amount_in(self.page, self.pos)
    }

    /// What is left of the page, as a string.
    pub fn remaining(&self) -> (s: String)
        ensures
            s@ == self.rest(),
    {
        proof {
            use_type_invariant(self);
        }
        string_of(self.page, self.pos, self.page.len())
    }
}

/// Strings that are consumed from the front, marker by marker.
pub trait StringExtensions {
    /// Drops the text up to and including the first occurrence of `s`.
    /// Where `s` does not occur, the text stays as it is.
    fn chomp(&mut self, s: &str) -> Result<(), StockPriceError>;
}

impl StringExtensions for String {
    fn chomp(&mut self, s: &str) -> (r: Result<(), StockPriceError>)
        ensures
            match r {
                Ok(_) => first_occurrence(old(self)@, s@, 0) matches Some(i) && final(self)@ == old(
                    self,
                )@.skip(i + s@.len()),
                Err(e) => e@ == ErrorModel::MarkerNotFound(s@) && first_occurrence(
                    old(self)@,
                    s@,
                    0,
                ) is None && final(self)@ == old(self)@,
            },
    {
        let page = chars_of(self.as_str());
        let start = Cursor::new(page.as_slice());
        match start.advance_past(s) {
            Ok(next) => {
                *self = next.remaining();
                Ok(())
            },
            Err(e) => Err(e),
        }
    }
}

} // verus!
