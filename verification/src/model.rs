//! The tables that the pipeline reads and the records that it produces.

use vstd::prelude::*;
use crate::amount::Amount;
use crate::date::Date;

verus! {

/// A site that publishes prices: the pages of its instruments start with
/// `url`.
#[derive(Debug)]
pub struct Source {
    pub id: u32,
    pub url: String,
}

/// The mathematical model of a [`Source`].
pub struct SourceModel {
    pub id: u32,
    pub url: Seq<char>,
}

impl View for Source {
    type V = SourceModel;

    open spec fn view(&self) -> SourceModel {
        SourceModel { id: self.id, url: self.url@ }
    }
}

impl DeepView for Source {
    type V = SourceModel;

    open spec fn deep_view(&self) -> SourceModel {
        self@
    }
}

impl Source {
    /// A copy of the source.
    pub fn duplicate(&self) -> (s: Source)
        ensures
            s@ == self@,
    {
        Source { id: self.id, url: self.url.clone() }
    }
}

/// An instrument whose price is wanted.
#[derive(Debug)]
pub struct Stock {
    pub id: u32,
    pub symbol: String,
    /// The part of the page's address that names the instrument at its
    /// source.
    pub digital_look_name: String,
    pub source_id: u32,
    pub enabled: bool,
}

/// The mathematical model of a [`Stock`].
pub struct StockModel {
    pub id: u32,
    pub symbol: Seq<char>,
    pub digital_look_name: Seq<char>,
    pub source_id: u32,
    pub enabled: bool,
}

impl View for Stock {
    type V = StockModel;

    open spec fn view(&self) -> StockModel {
        StockModel {
            id: self.id,
            symbol: self.symbol@,
            digital_look_name: self.digital_look_name@,
            source_id: self.source_id,
            enabled: self.enabled,
        }
    }
}

impl DeepView for Stock {
    type V = StockModel;

    open spec fn deep_view(&self) -> StockModel {
        self@
    }
}

impl Stock {
    /// A copy of the instrument.
    pub fn duplicate(&self) -> (s: Stock)
        ensures
            s@ == self@,
    {
        Stock {
            id: self.id,
            symbol: self.symbol.clone(),
            digital_look_name: self.digital_look_name.clone(),
            source_id: self.source_id,
            enabled: self.enabled,
        }
    }
}

/// Which of the numbers of a quote a field of the page holds.
#[derive(Clone, Copy, Debug, PartialEq, Eq, Structural)]
pub enum FieldKind {
    /// The current price.
    Price,
    /// The change of the price over the day.
    Change,
    /// The highest price of the last fifty-two weeks.
    High,
    /// The lowest price of the last fifty-two weeks.
    Low,
}

/// The numbers read from the page of one instrument. The price of the day
/// before is `price` less `change`.
#[derive(Debug)]
pub struct Quote {
    pub price: Amount,
    pub change: Amount,
    pub fifty_two_week_high: Option<Amount>,
    pub fifty_two_week_low: Option<Amount>,
}

/// The mathematical model of a [`Quote`]: each amount in its digits.
pub struct QuoteModel {
    pub price: Seq<char>,
    pub change: Seq<char>,
    pub fifty_two_week_high: Option<Seq<char>>,
    pub fifty_two_week_low: Option<Seq<char>>,
}

impl View for Quote {
    type V = QuoteModel;

    open spec fn view(&self) -> QuoteModel {
        QuoteModel {
            price: self.price@,
            change: self.change@,
            fifty_two_week_high: self.fifty_two_week_high.deep_view(),
            fifty_two_week_low: self.fifty_two_week_low.deep_view(),
        }
    }
}

impl DeepView for Quote {
    type V = QuoteModel;

    open spec fn deep_view(&self) -> QuoteModel {
        self@
    }
}

/// The quote of a page on which nothing was read: price and change are
/// zero, and the two extremes are unknown.
pub open spec fn blank_quote() -> QuoteModel {
    QuoteModel {
        price: "0"@,
        change: "0"@,
        fifty_two_week_high: None,
        fifty_two_week_low: None,
    }
}

/// The quote `q` with the field `kind` set to `amount`.
pub open spec fn with_field(q: QuoteModel, kind: FieldKind, amount: Seq<char>) -> QuoteModel {
    match kind {
        FieldKind::Price => QuoteModel { price: amount, ..q },
        FieldKind::Change => QuoteModel { change: amount, ..q },
        FieldKind::High => QuoteModel { fifty_two_week_high: Some(amount), ..q },
        FieldKind::Low => QuoteModel { fifty_two_week_low: Some(amount), ..q },
    }
}

impl Quote {
    /// The quote of a page on which nothing was read.
    pub fn blank() -> (q: Quote)
        ensures
            q@ == blank_quote(),
    {
        Quote {
            price: Amount::zero(),
            change: Amount::zero(),
            fifty_two_week_high: None,
            fifty_two_week_low: None,
        }
    }

    /// A copy of the quote.
    pub fn duplicate(&self) -> (q: Quote)
        ensures
            q@ == self@,
    {
        let high = match &self.fifty_two_week_high {
            Some(a) => Some(a.duplicate()),
            None => None,
        };
        let low = match &self.fifty_two_week_low {
            Some(a) => Some(a.duplicate()),
            None => None,
        };
        Quote {
            price: self.price.duplicate(),
            change: self.change.duplicate(),
            fifty_two_week_high: high,
            fifty_two_week_low: low,
        }
    }

    /// Sets the field `kind` to `amount`.
    pub fn set(&mut self, kind: FieldKind, amount: Amount)
        ensures
            final(self)@ == with_field(old(self)@, kind, amount@),
    {
        match kind {
            FieldKind::Price => {
                self.price = amount;
            },
            FieldKind::Change => {
                self.change = amount;
            },
            FieldKind::High => {
                self.fifty_two_week_high = Some(amount);
            },
            FieldKind::Low => {
                self.fifty_two_week_low = Some(amount);
            },
        }
    }
}

/// The price of one instrument on one day.
#[derive(Debug)]
pub struct Price {
    pub stock_id: u32,
    pub date: Date,
    pub quote: Quote,
}

/// The mathematical model of a [`Price`].
pub struct PriceModel {
    pub stock_id: u32,
    pub date: Date,
    pub quote: QuoteModel,
}

impl View for Price {
    type V = PriceModel;

    open spec fn view(&self) -> PriceModel {
        PriceModel { stock_id: self.stock_id, date: self.date, quote: self.quote@ }
    }
}

impl Price {
    /// A copy of the price.
    pub fn duplicate(&self) -> (p: Price)
        ensures
            p@ == self@,
    {
        Price { stock_id: self.stock_id, date: self.date, quote: self.quote.duplicate() }
    }
}

impl DeepView for Price {
    type V = PriceModel;

    open spec fn deep_view(&self) -> PriceModel {
        self@
    }
}

} // verus!
