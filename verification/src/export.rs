//! The rows of the files that hand the prices on: which instrument a price
//! belongs to, how a day is written, and how the parts of a row are joined.

use vstd::prelude::*;
use crate::date::Date;
use crate::model::Stock;
use crate::model::StockModel;

verus! {

/// The character of the digit `d`.
pub open spec fn digit_char(d: int) -> char {
    seq!['0', '1', '2', '3', '4', '5', '6', '7', '8', '9'][d]
}

/// The number `n` in decimal digits, without leading zeros.
pub open spec fn decimal(n: nat) -> Seq<char>
    decreases n,
{
    if n < 10 {
        seq![digit_char(n as int)]
    } else {
        decimal(n / 10).push(digit_char((n % 10) as int))
    }
}

/// The number `n` in decimal digits, with a leading zero where it has one
/// digit only.
pub open spec fn two_digits(n: nat) -> Seq<char> {
    if n < 10 {
        seq!['0'] + decimal(n)
    } else {
        decimal(n)
    }
}

/// The number `i` in decimal digits, behind a minus sign where it is
/// negative.
pub open spec fn signed_decimal(i: int) -> Seq<char> {
    if i < 0 {
        seq!['-'] + decimal((-i) as nat)
    } else {
        decimal(i as nat)
    }
}

/// The day as the files write it: day, month and year between slashes, the
/// month in two digits.
pub open spec fn date_text(d: Date) -> Seq<char> {
    decimal(d.day as nat) + seq!['/'] + two_digits(d.month as nat) + seq!['/'] + signed_decimal(
        d.year as int,
    )
}

/// The row of a price in the file for Quicken: symbol, price and day.
pub open spec fn quicken_row_text(symbol: Seq<char>, price: Seq<char>, date: Date) -> Seq<char> {
    symbol + seq![','] + price + seq![','] + date_text(date)
}

/// The row of a price in the file for the spreadsheet: symbol, price, day
/// and the price of the day before.
pub open spec fn stockdata_row_text(
    symbol: Seq<char>,
    price: Seq<char>,
    date: Date,
    prev_price: Seq<char>,
) -> Seq<char> {
    symbol + seq![','] + price + seq![','] + date_text(date) + seq![','] + prev_price
}

/// Whether `i` is the place of the first instrument in the table with the
/// identity `id`.
pub open spec fn is_first_stock(stocks: Seq<StockModel>, id: u32, i: int) -> bool {
    &&& 0 <= i < stocks.len()
    &&& stocks[i].id == id
    &&& forall|k: int| 0 <= k < i ==> (#[trigger] stocks[k]).id != id
}

/// The place of the first instrument in the table with the identity `id`:
/// the instrument that a price with that identity belongs to.
pub fn find_stock(stocks: &Vec<Stock>, id: u32) -> (r: Option<usize>)
    ensures
        match r {
            Some(i) => is_first_stock(stocks.deep_view(), id, i as int),
            None => forall|k: int| 0 <= k < stocks@.len() ==> (#[trigger] stocks.deep_view()[k]).id != id,
        },
{
    let mut i: usize = 0;
    while i < stocks.len()
        invariant
            i <= stocks.len(),
            forall|k: int| 0 <= k < i ==> (#[trigger] stocks.deep_view()[k]).id != id,
        decreases stocks.len() - i,
    {
        if stocks[i].id == id {
            return Some(i);
        }
        i += 1;
    }
    None
}

/// The character of the digit `d`.
fn digit(d: u32) -> (c: char)
    requires
        d < 10,
    ensures
        c == digit_char(d as int),
{
    if d == 0 {
        '0'
    } else if d == 1 {
        '1'
    } else if d == 2 {
        '2'
    } else if d == 3 {
        '3'
    } else if d == 4 {
        '4'
    } else if d == 5 {
        '5'
    } else if d == 6 {
        '6'
    } else if d == 7 {
        '7'
    } else if d == 8 {
        '8'
    } else {
        '9'
    }
}

/// Appends `n` in decimal digits.
fn push_decimal(s: &mut String, n: u32)
    ensures
        final(s)@ == old(s)@ + decimal(n as nat),
    decreases n,
{
    if n >= 10 {
        push_decimal(s, n / 10);
    }
    s.push(digit(n % 10));
}

/// Writes a day as the files do.
pub fn format_date(date: Date) -> (s: String)
    ensures
        s@ == date_text(date),
{
    let mut s = String::new();
    push_decimal(&mut s, date.day);
    s.push('/');
    if date.month < 10 {
        s.push('0');
    }
    push_decimal(&mut s, date.month);
    s.push('/');
    if date.year < 0 {
        s.push('-');
        let magnitude: u32 = (-(date.year as i64)) as u32;
        push_decimal(&mut s, magnitude);
    } else {
        push_decimal(&mut s, date.year as u32);
    }
    s
}

/// The row of a price in the file for Quicken. `price` is the price as the
/// file is to show it.
pub fn quicken_row(symbol: &str, price: &str, date: Date) -> (row: String)
    ensures
        row@ == quicken_row_text(symbol@, price@, date),
{
    let mut row = symbol.to_owned();
    row.push(',');
    row.append(price);
    row.push(',');
    let day = format_date(date);
    row.append(day.as_str());
    row
}

/// The row of a price in the file for the spreadsheet. `price` and
/// `prev_price` are the two prices as the file is to show them.
pub fn stockdata_row(symbol: &str, price: &str, date: Date, prev_price: &str) -> (row: String)
    ensures
        row@ == stockdata_row_text(symbol@, price@, date, prev_price@),
{
    let mut row = symbol.to_owned();
    row.push(',');
    row.append(price);
    row.push(',');
    let day = format_date(date);
    row.append(day.as_str());
    row.push(',');
    row.append(prev_price);
    row
}

} // verus!
