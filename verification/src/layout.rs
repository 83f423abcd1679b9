//! The layouts of the pages: for each source, the markers to pass and the
//! fields to read, in their order on the page.

use vstd::prelude::*;
use crate::cursor::Cursor;
use crate::error::outcome_model;
use crate::error::ErrorModel;
use crate::error::StockPriceError;
use crate::field::amount_at;
use crate::model::blank_quote;
use crate::model::with_field;
use crate::model::FieldKind;
use crate::model::Quote;
use crate::model::QuoteModel;
use crate::text::chars_of;
use crate::text::first_occurrence;

verus! {

/// One step of reading a page.
#[derive(Clone, Copy, Debug)]
pub enum Step {
    /// Go on to just behind the next occurrence of the marker.
    Marker(&'static str),
    /// Read the field that starts here, and stay.
    Field(FieldKind),
}

/// The mathematical model of a [`Step`].
pub enum StepModel {
    Marker(Seq<char>),
    Field(FieldKind),
}

impl View for Step {
    type V = StepModel;

    open spec fn view(&self) -> StepModel {
        match self {
            Step::Marker(m) => StepModel::Marker(m@),
            Step::Field(k) => StepModel::Field(*k),
        }
    }
}

impl DeepView for Step {
    type V = StepModel;

    open spec fn deep_view(&self) -> StepModel {
        self@
    }
}

/// The page layouts that the library knows.
#[derive(Clone, Copy, Debug, PartialEq, Eq, Structural)]
pub enum Layout {
    /// The page of an equity.
    Equity,
    /// The page of a fund or of an exchange-traded fund.
    Fund,
    /// A page of a source that the library does not know: nothing is read
    /// from it.
    Unknown,
}

/// The layout of the pages of the source `source_id`.
pub open spec fn layout_of(source_id: u32) -> Layout {
    if source_id == 1 {
        Layout::Equity
    } else if source_id == 2 {
        Layout::Fund
    } else {
        Layout::Unknown
    }
}

/// The steps that read the page of an equity.
pub open spec fn equity_steps() -> Seq<StepModel> {
    seq![
        StepModel::Marker("Market Data</h2>"@),
        StepModel::Marker("precio_ultima_cotizacion"@),
        StepModel::Marker(">"@),
        StepModel::Field(FieldKind::Price),
        StepModel::Marker("variacion_puntos"@),
        StepModel::Marker(">"@),
        StepModel::Marker(">"@),
        StepModel::Field(FieldKind::Change),
        StepModel::Marker("High 52 week range"@),
        StepModel::Marker("<td>"@),
        StepModel::Field(FieldKind::High),
        StepModel::Marker("Low 52 week range"@),
        StepModel::Marker("<td>"@),
        StepModel::Field(FieldKind::Low),
    ]
}

/// The steps that read the page of a fund.
pub open spec fn fund_steps() -> Seq<StepModel> {
    seq![
        StepModel::Marker("Detailed Price Data</h2>"@),
        StepModel::Marker("<td>Price:</td>"@),
        StepModel::Marker(">"@),
        StepModel::Field(FieldKind::Price),
        StepModel::Marker("<td>Change:</td>"@),
        StepModel::Marker("<td>"@),
        StepModel::Marker(">"@),
        StepModel::Field(FieldKind::Change),
        StepModel::Marker("52 week High"@),
        StepModel::Marker("<td>"@),
        StepModel::Field(FieldKind::High),
        StepModel::Marker("52 week Low"@),
        StepModel::Marker("<td>"@),
        StepModel::Field(FieldKind::Low),
    ]
}

/// The steps that read a page of the layout.
pub open spec fn steps_of(layout: Layout) -> Seq<StepModel> {
    match layout {
        Layout::Equity => equity_steps(),
        Layout::Fund => fund_steps(),
        Layout::Unknown => Seq::empty(),
    }
}

/// What the steps make of the page when they start at `pos` with the quote
/// `so_far`: each marker moves the place to just behind its first occurrence
/// from there on, each field is read where the place is, and the first step
/// that fails ends the reading with its error.
pub open spec fn run_steps(
    page: Seq<char>,
    pos: int,
    steps: Seq<StepModel>,
    so_far: QuoteModel,
) -> Result<QuoteModel, ErrorModel>
    decreases steps.len(),
{
    if steps.len() == 0 {
        Ok(so_far)
    } else {
        match steps[0] {
            StepModel::Marker(m) => match first_occurrence(page, m, pos) {
                Some(i) => run_steps(page, i + m.len(), steps.drop_first(), so_far),
                None => Err(ErrorModel::MarkerNotFound(m)),
            },
            StepModel::Field(kind) => match amount_at(page, pos) {
                Ok(amount) => run_steps(
                    page,
                    pos,
                    steps.drop_first(),
                    with_field(so_far, kind, amount),
                ),
                Err(e) => Err(e),
            },
        }
    }
}

/// The quote on a page of the layout, or the error of the first step that
/// fails.
pub open spec fn quote_of(layout: Layout, page: Seq<char>) -> Result<QuoteModel, ErrorModel> {
    run_steps(page, 0, steps_of(layout), blank_quote())
}

impl Layout {
    /// The layout of the pages of the source `source_id`.
    pub fn for_source(source_id: u32) -> (layout: Layout)
        ensures
            layout == layout_of(source_id),
    {
        if source_id == 1 {
            Layout::Equity
        } else if source_id == 2 {
            Layout::Fund
        } else {
            Layout::Unknown
        }
    }

    /// The steps that read a page of the layout.
    pub fn steps(&self) -> (steps: Vec<Step>)
        ensures
            steps.deep_view() == steps_of(*self),
    {
        let mut steps: Vec<Step> = Vec::new();
        match self {
            Layout::Equity => {
                steps.push(Step::Marker("Market Data</h2>"));
                steps.push(Step::Marker("precio_ultima_cotizacion"));
                steps.push(Step::Marker(">"));
                steps.push(Step::Field(FieldKind::Price));
                steps.push(Step::Marker("variacion_puntos"));
                steps.push(Step::Marker(">"));
                steps.push(Step::Marker(">"));
                steps.push(Step::Field(FieldKind::Change));
                steps.push(Step::Marker("High 52 week range"));
                steps.push(Step::Marker("<td>"));
                steps.push(Step::Field(FieldKind::High));
                steps.push(Step::Marker("Low 52 week range"));
                steps.push(Step::Marker("<td>"));
                steps.push(Step::Field(FieldKind::Low));
            },
            Layout::Fund => {
                steps.push(Step::Marker("Detailed Price Data</h2>"));
                steps.push(Step::Marker("<td>Price:</td>"));
                steps.push(Step::Marker(">"));
                steps.push(Step::Field(FieldKind::Price));
                steps.push(Step::Marker("<td>Change:</td>"));
                steps.push(Step::Marker("<td>"));
                steps.push(Step::Marker(">"));
                steps.push(Step::Field(FieldKind::Change));
                steps.push(Step::Marker("52 week High"));
                steps.push(Step::Marker("<td>"));
                steps.push(Step::Field(FieldKind::High));
                steps.push(Step::Marker("52 week Low"));
                steps.push(Step::Marker("<td>"));
                steps.push(Step::Field(FieldKind::Low));
            },
            Layout::Unknown => {},
        }
        steps
    }

    /// Reads the quote from a page of the layout.
    pub fn extract(&self, page: &str) -> (r: Result<Quote, StockPriceError>)
        ensures
            outcome_model(r) == quote_of(*self, page@),
    {
        let steps = self.steps();
        let doc = chars_of(page);
        let mut cursor = Cursor::new(doc.as_slice());
        let mut quote = Quote::blank();
        let ghost all = steps.deep_view();
        let mut i: usize = 0;
        assert(all.skip(0) =~= all);
        while i < steps.len()
            invariant
                i <= steps.len(),
                all == steps.deep_view(),
                all == steps_of(*self),
                cursor.page() == page@,
                quote_of(*self, page@) == run_steps(
                    page@,
                    cursor.position(),
                    all.skip(i as int),
                    quote@,
                ),
            decreases steps.len() - i,
        {
            let ghost rest = all.skip(i as int);
            assert(rest.drop_first() =~= all.skip(i + 1));
            match steps[i] {
                Step::Marker(m) => match cursor.advance_past(m) {
                    Ok(next) => {
                        cursor = next;
                    },
                    Err(e) => {
                        return Err(e);
                    },
                },
                Step::Field(kind) => match cursor.amount() {
                    Ok(amount) => {
                        quote.set(kind, amount);
                    },
                    Err(e) => {
                        return Err(e);
                    },
                },
            }
            i += 1;
        }
        Ok(quote)
    }
}

} // verus!
