//! Why the price of one instrument could not be obtained.

use vstd::prelude::*;

verus! {

/// A failure that ends the work on one instrument and leaves the others
/// untouched.
#[derive(Debug)]
pub enum StockPriceError {
    /// The marker does not occur in what is left of the page.
    MarkerNotFound(String),
    /// No `<` follows the place where a field starts.
    UnterminatedField,
    /// The cleaned text of a field is not a decimal number.
    MalformedNumber(String),
    /// The page could not be fetched; the text is the cause as the
    /// transport reported it.
    Network(String),
}

/// The mathematical model of a [`StockPriceError`].
pub enum ErrorModel {
    MarkerNotFound(Seq<char>),
    UnterminatedField,
    MalformedNumber(Seq<char>),
    Network(Seq<char>),
}

impl View for StockPriceError {
    type V = ErrorModel;

    open spec fn view(&self) -> ErrorModel {
        match self {
            StockPriceError::MarkerNotFound(m) => ErrorModel::MarkerNotFound(m@),
            StockPriceError::UnterminatedField => ErrorModel::UnterminatedField,
            StockPriceError::MalformedNumber(t) => ErrorModel::MalformedNumber(t@),
            StockPriceError::Network(c) => ErrorModel::Network(c@),
        }
    }
}

impl DeepView for StockPriceError {
    type V = ErrorModel;

    open spec fn deep_view(&self) -> ErrorModel {
        self@
    }
}

/// The model of what a fallible step of the library returns.
pub open spec fn outcome_model<T: DeepView>(r: Result<T, StockPriceError>) -> Result<
    T::V,
    ErrorModel,
> {
    match r {
        Ok(t) => Ok(t.deep_view()),
        Err(e) => Err(e@),
    }
}

/// The text that describes an error to a reader.
pub open spec fn message_text(e: ErrorModel) -> Seq<char> {
    match e {
        ErrorModel::MarkerNotFound(m) => "Cannot parse document, Cannot find "@ + m
            + " in string"@,
        ErrorModel::UnterminatedField => "Cannot parse document, Cannot find next '<' character"@,
        ErrorModel::MalformedNumber(t) => if t.len() == 0 {
            "cannot parse float from empty string"@
        } else {
            "invalid float literal"@
        },
        ErrorModel::Network(c) => c,
    }
}

impl StockPriceError {
    /// Renders the error for a reader.
    pub fn message(&self) -> (s: String)
        ensures
            s@ == message_text(self@),
    {
        match self {
            StockPriceError::MarkerNotFound(m) => {
                let mut s = "Cannot parse document, Cannot find ".to_owned();
                s.append(m.as_str());
                s.append(" in string");
                s
            },
            StockPriceError::UnterminatedField => {
                "Cannot parse document, Cannot find next '<' character".to_owned()
            },
            StockPriceError::MalformedNumber(t) => {
                if t.as_str().is_empty() {
                    "cannot parse float from empty string".to_owned()
                } else {
                    "invalid float literal".to_owned()
                }
            },
            StockPriceError::Network(c) => c.clone(),
        }
    }

    /// A copy of the error.
    pub fn duplicate(&self) -> (e: StockPriceError)
        ensures
            e@ == self@,
    {
        match self {
            StockPriceError::MarkerNotFound(m) => StockPriceError::MarkerNotFound(m.clone()),
            StockPriceError::UnterminatedField => StockPriceError::UnterminatedField,
            StockPriceError::MalformedNumber(t) => StockPriceError::MalformedNumber(t.clone()),
            StockPriceError::Network(c) => StockPriceError::Network(c.clone()),
        }
    }
}

/// The message of a missing marker holds the marker itself, after the
/// thirty-five characters that introduce it.
pub proof fn missing_marker_message_names_marker(m: Seq<char>)
    ensures
        message_text(ErrorModel::MarkerNotFound(m)).len() == 45 + m.len(),
        message_text(ErrorModel::MarkerNotFound(m)).subrange(35, 35 + m.len() as int) == m,
{
    reveal_strlit("Cannot parse document, Cannot find ");
    reveal_strlit(" in string");
}

} // verus!
