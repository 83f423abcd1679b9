//! The work on one instrument: where its page is found, and what the
//! response to the request for that page yields.

use vstd::prelude::*;
use crate::date::Date;
use crate::error::outcome_model;
use crate::error::ErrorModel;
use crate::error::StockPriceError;
use crate::layout::layout_of;
use crate::layout::quote_of;
use crate::layout::Layout;
use crate::model::Price;
use crate::model::PriceModel;
use crate::model::Source;
use crate::model::SourceModel;
use crate::model::Stock;
use crate::model::StockModel;

verus! {

/// The address of the page of `stock` at `source`.
pub open spec fn page_url(stock: StockModel, source: SourceModel) -> Seq<char> {
    source.url + stock.digital_look_name
}

/// The model of a response: the body of the page, or the cause of the
/// failure to fetch it.
pub open spec fn response_model(response: Result<String, String>) -> Result<
    Seq<char>,
    Seq<char>,
> {
    match response {
        Ok(body) => Ok(body@),
        Err(cause) => Err(cause@),
    }
}

/// What the response yields for `stock` on the day `date`: the price read
/// from the body by the layout of `source`, or the error that ended the
/// reading, or the failure of the request.
pub open spec fn price_of(
    stock: StockModel,
    source: SourceModel,
    response: Result<Seq<char>, Seq<char>>,
    date: Date,
) -> Result<PriceModel, ErrorModel> {
    match response {
        Ok(body) => match quote_of(layout_of(source.id), body) {
            Ok(quote) => Ok(PriceModel { stock_id: stock.id, date, quote }),
            Err(e) => Err(e),
        },
        Err(cause) => Err(ErrorModel::Network(cause)),
    }
}

/// The address of the page of `stock` at `source`.
pub fn price_url(stock: &Stock, source: &Source) -> (url: String)
    ensures
        url@ == page_url(stock@, source@),
{
    let mut url = source.url.clone();
    url.append(stock.digital_look_name.as_str());
    url
}

/// What the response yields for `stock` on the day `date`, the day on
/// which the page was fetched.
pub fn download_price(
    stock: &Stock,
    source: &Source,
    response: Result<String, String>,
    date: Date,
) -> (r: Result<Price, StockPriceError>)
    ensures
        outcome_model(r) == price_of(stock@, source@, response_model(response), date),
{
    match response {
        Ok(body) => {
            let layout = Layout::for_source(source.id);
            match layout.extract(body.as_str()) {
                Ok(quote) => Ok(Price { stock_id: stock.id, date, quote }),
                Err(e) => Err(e),
            }
        },
        Err(cause) => Err(StockPriceError::Network(cause)),
    }
}

/// Reading the same response twice gives the same result, but for the day:
/// the same instrument and the same quote, or the same error.
pub proof fn extraction_is_repeatable(
    stock: StockModel,
    source: SourceModel,
    response: Result<Seq<char>, Seq<char>>,
    first_day: Date,
    second_day: Date,
)
    ensures
        match (
            price_of(stock, source, response, first_day),
            price_of(stock, source, response, second_day),
        ) {
            (Ok(p), Ok(q)) => p.stock_id == q.stock_id && p.quote == q.quote && p.date
                == first_day && q.date == second_day,
            (Err(e), Err(f)) => e == f,
            _ => false,
        },
{
}

} // verus!
