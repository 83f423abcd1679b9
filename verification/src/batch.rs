//! A run over a list of instruments: each instrument is paired with its
//! source, the outcomes of the work on them arrive in any order, and the
//! report lists them in the order of the instruments.

use vstd::prelude::*;
use crate::date::Date;
use crate::download::price_of;
use crate::error::outcome_model;
use crate::error::message_text;
use crate::error::ErrorModel;
use crate::error::StockPriceError;
use crate::model::Price;
use crate::model::PriceModel;
use crate::model::Source;
use crate::model::SourceModel;
use crate::model::Stock;
use crate::model::StockModel;
use crate::selection::precedes;

verus! {

/// An instrument names a source that the table of sources does not hold.
/// This ends the run before any page is requested.
#[derive(Debug)]
pub struct ConfigurationError {
    pub symbol: String,
    pub source_id: u32,
}

/// The mathematical model of a [`ConfigurationError`].
pub struct ConfigurationErrorModel {
    pub symbol: Seq<char>,
    pub source_id: u32,
}

impl View for ConfigurationError {
    type V = ConfigurationErrorModel;

    open spec fn view(&self) -> ConfigurationErrorModel {
        ConfigurationErrorModel { symbol: self.symbol@, source_id: self.source_id }
    }
}

impl ConfigurationError {
    /// Renders the error for a reader.
    pub fn message(&self) -> (s: String)
        ensures
            s@ == "Cannot find Source for Stock "@ + self@.symbol,
    {
        let mut s = "Cannot find Source for Stock ".to_owned();
        s.append(self.symbol.as_str());
        s
    }
}

/// One unit of work: an instrument and the source of its page.
#[derive(Debug)]
pub struct Download {
    pub stock: Stock,
    pub source: Source,
}

/// The mathematical model of a [`Download`].
pub struct DownloadModel {
    pub stock: StockModel,
    pub source: SourceModel,
}

impl View for Download {
    type V = DownloadModel;

    open spec fn view(&self) -> DownloadModel {
        DownloadModel { stock: self.stock@, source: self.source@ }
    }
}

impl DeepView for Download {
    type V = DownloadModel;

    open spec fn deep_view(&self) -> DownloadModel {
        self@
    }
}

/// An instrument whose price could not be obtained, and why.
#[derive(Debug)]
pub struct ExtractionFailure {
    pub symbol: String,
    pub error: StockPriceError,
}

/// The mathematical model of an [`ExtractionFailure`].
pub struct FailureModel {
    pub symbol: Seq<char>,
    pub error: ErrorModel,
}

impl View for ExtractionFailure {
    type V = FailureModel;

    open spec fn view(&self) -> FailureModel {
        FailureModel { symbol: self.symbol@, error: self.error@ }
    }
}

impl DeepView for ExtractionFailure {
    type V = FailureModel;

    open spec fn deep_view(&self) -> FailureModel {
        self@
    }
}

/// The line that reports a failure.
pub open spec fn failure_line(f: FailureModel) -> Seq<char> {
    "Could not download price for "@ + f.symbol + ", error is "@ + message_text(f.error)
}

impl ExtractionFailure {
    /// The line that reports the failure: it names the instrument and gives
    /// the message of the error.
    pub fn line(&self) -> (s: String)
        ensures
            s@ == failure_line(self@),
    {
        let mut s = "Could not download price for ".to_owned();
        s.append(self.symbol.as_str());
        s.append(", error is ");
        let message = self.error.message();
        s.append(message.as_str());
        s
    }
}

/// Whether `j` is the place of the first source in the table with the
/// identity `id`.
pub open spec fn is_first_source(sources: Seq<SourceModel>, id: u32, j: int) -> bool {
    &&& 0 <= j < sources.len()
    &&& sources[j].id == id
    &&& forall|k: int| 0 <= k < j ==> (#[trigger] sources[k]).id != id
}

/// Whether no source in the table has the identity `id`.
pub open spec fn has_no_source(sources: Seq<SourceModel>, id: u32) -> bool {
    forall|k: int| 0 <= k < sources.len() ==> (#[trigger] sources[k]).id != id
}

/// The place of the first source in the table with the identity `id`.
pub fn find_source(sources: &Vec<Source>, id: u32) -> (r: Option<usize>)
    ensures
        match r {
            Some(j) => is_first_source(sources.deep_view(), id, j as int),
            None => has_no_source(sources.deep_view(), id),
        },
{
    let mut j: usize = 0;
    while j < sources.len()
        invariant
            j <= sources.len(),
            forall|k: int| 0 <= k < j ==> (#[trigger] sources.deep_view()[k]).id != id,
        decreases sources.len() - j,
    {
        if sources[j].id == id {
            return Some(j);
        }
        j += 1;
    }
    None
}

/// Whether `units` pairs each instrument of `stocks`, in order, with the
/// first source of the table that has the identity it names.
pub open spec fn is_plan(
    units: Seq<DownloadModel>,
    stocks: Seq<StockModel>,
    sources: Seq<SourceModel>,
) -> bool {
    &&& units.len() == stocks.len()
    &&& forall|i: int|
        0 <= i < units.len() ==> (#[trigger] units[i]).stock == stocks[i] && exists|j: int|
            is_first_source(sources, stocks[i].source_id, j) && units[i].source == sources[j]
}

/// Whether `stocks[i]` is the first instrument that names a source which
/// the table does not hold.
pub open spec fn is_first_unresolved(
    stocks: Seq<StockModel>,
    sources: Seq<SourceModel>,
    i: int,
) -> bool {
    &&& 0 <= i < stocks.len()
    &&& has_no_source(sources, stocks[i].source_id)
    &&& forall|k: int| 0 <= k < i ==> !has_no_source(sources, (#[trigger] stocks[k]).source_id)
}

/// Pairs each instrument with its source.
pub fn plan(stocks: &Vec<Stock>, sources: &Vec<Source>) -> (r: Result<
    Vec<Download>,
    ConfigurationError,
>)
    ensures
        match r {
            Ok(units) => is_plan(units.deep_view(), stocks.deep_view(), sources.deep_view()),
            Err(e) => exists|i: int|
                is_first_unresolved(stocks.deep_view(), sources.deep_view(), i) && e@
                    == (ConfigurationErrorModel {
                    symbol: (#[trigger] stocks.deep_view()[i]).symbol,
                    source_id: stocks.deep_view()[i].source_id,
                }),
        },
{
    let mut units: Vec<Download> = Vec::new();
    let mut i: usize = 0;
    while i < stocks.len()
        invariant
            i <= stocks.len(),
            is_plan(units.deep_view(), stocks.deep_view().take(i as int), sources.deep_view()),
            forall|k: int|
                0 <= k < i ==> !has_no_source(
                    sources.deep_view(),
                    (#[trigger] stocks.deep_view()[k]).source_id,
                ),
        decreases stocks.len() - i,
    {
        let stock = &stocks[i];
        match find_source(sources, stock.source_id) {
            Some(j) => {
                let ghost before = units.deep_view();
                units.push(Download { stock: stock.duplicate(), source: sources[j].duplicate() });
                proof {
                    let after = units.deep_view();
                    let so_far = stocks.deep_view().take(i + 1);
                    assert forall|u: int| 0 <= u < after.len() implies (#[trigger] after[u]).stock
                        == so_far[u] && exists|s: int|
                        is_first_source(sources.deep_view(), so_far[u].source_id, s)
                            && after[u].source == sources.deep_view()[s] by {
                        if u < i {
                            assert(after[u] == before[u]);
                        }
                    }
                }
            },
            None => {
                assert(is_first_unresolved(stocks.deep_view(), sources.deep_view(), i as int));
                return Err(
                    ConfigurationError { symbol: stock.symbol.clone(), source_id: stock.source_id },
                );
            },
        }
        i += 1;
    }
    Ok(units)
}

/// What is known of one unit of work: nothing yet, or its outcome.
pub open spec fn slot_model(slot: Option<Result<Price, StockPriceError>>) -> Option<
    Result<PriceModel, ErrorModel>,
> {
    match slot {
        Some(outcome) => Some(outcome_model(outcome)),
        None => None,
    }
}

/// The slots of a run of `n` units of which no outcome is known.
pub open spec fn pending(n: nat) -> Seq<Option<Result<PriceModel, ErrorModel>>> {
    Seq::new(n, |i: int| None)
}

/// The slots after the outcome of `unit` has arrived. The first outcome of
/// a unit stays; one for a unit that the run does not have is dropped.
pub open spec fn recorded(
    slots: Seq<Option<Result<PriceModel, ErrorModel>>>,
    unit: int,
    outcome: Result<PriceModel, ErrorModel>,
) -> Seq<Option<Result<PriceModel, ErrorModel>>> {
    if 0 <= unit < slots.len() && slots[unit] is None {
        slots.update(unit, Some(outcome))
    } else {
        slots
    }
}

/// Whether the outcome of every unit is known.
pub open spec fn is_complete(slots: Seq<Option<Result<PriceModel, ErrorModel>>>) -> bool {
    forall|i: int| 0 <= i < slots.len() ==> (#[trigger] slots[i]) is Some
}

/// The units among the first `n` that gave a price, in rising order.
pub open spec fn priced_units(slots: Seq<Option<Result<PriceModel, ErrorModel>>>, n: int) -> Seq<
    int,
>
    decreases n,
{
    if n <= 0 {
        Seq::empty()
    } else if slots[n - 1] matches Some(Ok(_)) {
        priced_units(slots, n - 1).push(n - 1)
    } else {
        priced_units(slots, n - 1)
    }
}

/// The units among the first `n` that failed, in rising order.
pub open spec fn failed_units(slots: Seq<Option<Result<PriceModel, ErrorModel>>>, n: int) -> Seq<
    int,
>
    decreases n,
{
    if n <= 0 {
        Seq::empty()
    } else if slots[n - 1] matches Some(Err(_)) {
        failed_units(slots, n - 1).push(n - 1)
    } else {
        failed_units(slots, n - 1)
    }
}

/// The prices of the first `n` units, in the order of the units.
pub open spec fn prices_of(slots: Seq<Option<Result<PriceModel, ErrorModel>>>, n: int) -> Seq<
    PriceModel,
> {
    priced_units(slots, n).map_values(|i: int| slots[i]->0->Ok_0)
}

/// The failures of the first `n` units, in the order of the units, each
/// with the symbol of its instrument.
pub open spec fn failures_of(
    symbols: Seq<Seq<char>>,
    slots: Seq<Option<Result<PriceModel, ErrorModel>>>,
    n: int,
) -> Seq<FailureModel> {
    failed_units(slots, n).map_values(
        |i: int| FailureModel { symbol: symbols[i], error: slots[i]->0->Err_0 },
    )
}

/// The symbols of the instruments of the units, in order.
pub open spec fn symbols_of(units: Seq<DownloadModel>) -> Seq<Seq<char>> {
    units.map_values(|u: DownloadModel| u.stock.symbol)
}

/// The failed units among the first `n` are below `n`, each of them failed,
/// they stand in rising order, and none that failed is missing.
pub proof fn lemma_failed_units(slots: Seq<Option<Result<PriceModel, ErrorModel>>>, n: int)
    requires
        0 <= n <= slots.len(),
    ensures
        forall|k: int|
            0 <= k < failed_units(slots, n).len() ==> 0 <= (#[trigger] failed_units(slots, n)[k])
                < n && slots[failed_units(slots, n)[k]] matches Some(Err(_)),
        forall|j: int, k: int|
            0 <= j < k < failed_units(slots, n).len() ==> (#[trigger] failed_units(slots, n)[j])
                < (#[trigger] failed_units(slots, n)[k]),
        forall|i: int|
            0 <= i < n && (#[trigger] slots[i] matches Some(Err(_))) ==> failed_units(
                slots,
                n,
            ).contains(i),
    decreases n,
{
    if n > 0 {
        lemma_failed_units(slots, n - 1);
        let before = failed_units(slots, n - 1);
        let now = failed_units(slots, n);
        assert forall|i: int|
            0 <= i < n && (#[trigger] slots[i] matches Some(Err(_))) implies now.contains(i) by {
            if i < n - 1 {
                let k = choose|k: int| 0 <= k < before.len() && before[k] == i;
                assert(now[k] == i);
            } else {
                assert(now[now.len() - 1] == i);
            }
        }
    }
}

/// The units among the first `n` that gave a price are below `n`, each of
/// them gave one, they stand in rising order, and none that gave one is
/// missing.
pub proof fn lemma_priced_units(slots: Seq<Option<Result<PriceModel, ErrorModel>>>, n: int)
    requires
        0 <= n <= slots.len(),
    ensures
        forall|k: int|
            0 <= k < priced_units(slots, n).len() ==> 0 <= (#[trigger] priced_units(slots, n)[k])
                < n && slots[priced_units(slots, n)[k]] matches Some(Ok(_)),
        forall|j: int, k: int|
            0 <= j < k < priced_units(slots, n).len() ==> (#[trigger] priced_units(slots, n)[j])
                < (#[trigger] priced_units(slots, n)[k]),
        forall|i: int|
            0 <= i < n && (#[trigger] slots[i] matches Some(Ok(_))) ==> priced_units(
                slots,
                n,
            ).contains(i),
    decreases n,
{
    if n > 0 {
        lemma_priced_units(slots, n - 1);
        let before = priced_units(slots, n - 1);
        let now = priced_units(slots, n);
        assert forall|i: int|
            0 <= i < n && (#[trigger] slots[i] matches Some(Ok(_))) implies now.contains(i) by {
            if i < n - 1 {
                let k = choose|k: int| 0 <= k < before.len() && before[k] == i;
                assert(now[k] == i);
            } else {
                assert(now[now.len() - 1] == i);
            }
        }
    }
}

/// Of the first `n` units, where the outcome of each is known, as many are
/// reported as there are: each with its price or with its failure.
pub proof fn lemma_reported_count(slots: Seq<Option<Result<PriceModel, ErrorModel>>>, n: int)
    requires
        0 <= n <= slots.len(),
        forall|i: int| 0 <= i < n ==> (#[trigger] slots[i]) is Some,
    ensures
        priced_units(slots, n).len() + failed_units(slots, n).len() == n,
    decreases n,
{
    if n > 0 {
        lemma_reported_count(slots, n - 1);
    }
}

/// In the report of a finished run of N units of which the units in
/// `failed`, and no others, have failed, the list of failures has as many
/// entries as `failed` and the list of prices has the other N less that
/// many; the k-th failure is that of the k-th failed unit and bears the
/// symbol of its instrument, and the k-th price is that of the k-th unit
/// that gave one.
pub proof fn report_accounts_for_every_unit(
    symbols: Seq<Seq<char>>,
    slots: Seq<Option<Result<PriceModel, ErrorModel>>>,
    failed: Set<int>,
)
    requires
        is_complete(slots),
        forall|i: int| failed.contains(i) <==> 0 <= i < slots.len() && (slots[i] matches Some(Err(_))),
    ensures
        failed.finite(),
        failures_of(symbols, slots, slots.len() as int).len() == failed.len(),
        prices_of(slots, slots.len() as int).len() == slots.len() - failed.len(),
        forall|k: int|
            0 <= k < failed.len() ==> failed.contains(failed_units(slots, slots.len() as int)[k])
                && (#[trigger] failures_of(symbols, slots, slots.len() as int)[k])
                == (FailureModel {
                symbol: symbols[failed_units(slots, slots.len() as int)[k]],
                error: slots[failed_units(slots, slots.len() as int)[k]]->0->Err_0,
            }),
        forall|k: int|
            0 <= k < slots.len() - failed.len() ==> slots[priced_units(
                slots,
                slots.len() as int,
            )[k]] == Some(
                Ok::<PriceModel, ErrorModel>(#[trigger] prices_of(slots, slots.len() as int)[k]),
            ),
{
    let n = slots.len() as int;
    let units = failed_units(slots, n);
    lemma_failed_units(slots, n);
    lemma_priced_units(slots, n);
    lemma_reported_count(slots, n);
    units.unique_seq_to_set();
    assert(units.to_set() =~= failed);
}

/// The slots after the outcomes of `arrivals` have arrived one after the
/// other, each with the unit it belongs to.
pub open spec fn record_all(
    slots: Seq<Option<Result<PriceModel, ErrorModel>>>,
    arrivals: Seq<(int, Result<PriceModel, ErrorModel>)>,
) -> Seq<Option<Result<PriceModel, ErrorModel>>>
    decreases arrivals.len(),
{
    if arrivals.len() == 0 {
        slots
    } else {
        recorded(record_all(slots, arrivals.drop_last()), arrivals.last().0, arrivals.last().1)
    }
}

/// Whether no unit has two outcomes among `arrivals`.
pub open spec fn each_unit_once(arrivals: Seq<(int, Result<PriceModel, ErrorModel>)>) -> bool {
    forall|j: int, k: int|
        0 <= j < k < arrivals.len() ==> (#[trigger] arrivals[j]).0 != (#[trigger] arrivals[k]).0
}

/// Where no slot is taken and no unit has two outcomes among `arrivals`,
/// the slot of a unit holds afterwards the outcome that arrived for it, and
/// is empty where none arrived.
pub proof fn lemma_record_all(n: nat, arrivals: Seq<(int, Result<PriceModel, ErrorModel>)>)
    requires
        each_unit_once(arrivals),
    ensures
        record_all(pending(n), arrivals).len() == n,
        forall|k: int|
            0 <= k < arrivals.len() && 0 <= (#[trigger] arrivals[k]).0 < n ==> record_all(
                pending(n),
                arrivals,
            )[arrivals[k].0] == Some(arrivals[k].1),
        forall|u: int|
            0 <= u < n && (forall|k: int| 0 <= k < arrivals.len() ==> (#[trigger] arrivals[k]).0 != u)
                ==> (#[trigger] record_all(pending(n), arrivals)[u]) is None,
    decreases arrivals.len(),
{
    if arrivals.len() > 0 {
        let earlier = arrivals.drop_last();
        assert(each_unit_once(earlier));
        lemma_record_all(n, earlier);
        assert forall|k: int|
            0 <= k < arrivals.len() && 0 <= (#[trigger] arrivals[k]).0 < n implies record_all(
            pending(n),
            arrivals,
        )[arrivals[k].0] == Some(arrivals[k].1) by {
            if k < earlier.len() {
                assert(earlier[k] == arrivals[k]);
            }
        }
        assert forall|u: int|
            0 <= u < n && (forall|k: int|
                0 <= k < arrivals.len() ==> (#[trigger] arrivals[k]).0 != u) implies (
        #[trigger] record_all(pending(n), arrivals)[u]) is None by {
            assert forall|k: int| 0 <= k < earlier.len() implies (#[trigger] earlier[k]).0 != u by {
                assert(earlier[k] == arrivals[k]);
            }
        }
    }
}

/// The order in which the outcomes arrive does not show in the slots, and
/// so not in the report: where each unit has one outcome, the same outcomes
/// in another order fill the slots in the same way.
pub proof fn arrival_order_does_not_matter(
    n: nat,
    first: Seq<(int, Result<PriceModel, ErrorModel>)>,
    second: Seq<(int, Result<PriceModel, ErrorModel>)>,
)
    requires
        each_unit_once(first),
        each_unit_once(second),
        first.to_multiset() == second.to_multiset(),
    ensures
        record_all(pending(n), first) == record_all(pending(n), second),
{
    let a = record_all(pending(n), first);
    let b = record_all(pending(n), second);
    lemma_record_all(n, first);
    lemma_record_all(n, second);
    first.to_multiset_ensures();
    second.to_multiset_ensures();
    assert forall|u: int| 0 <= u < n implies a[u] == b[u] by {
        if exists|k: int| 0 <= k < first.len() && (#[trigger] first[k]).0 == u {
            let k = choose|k: int| 0 <= k < first.len() && (#[trigger] first[k]).0 == u;
            assert(second.to_multiset().count(first[k]) > 0);
            assert(second.contains(first[k]));
        } else if exists|m: int| 0 <= m < second.len() && (#[trigger] second[m]).0 == u {
            let m = choose|m: int| 0 <= m < second.len() && (#[trigger] second[m]).0 == u;
            assert(first.to_multiset().count(second[m]) > 0);
            assert(first.contains(second[m]));
        }
    }
}

/// A unit whose request for the page failed is among the failures of the
/// report, under the symbol of its instrument and with the cause of the
/// failure of the request.
pub proof fn failed_request_is_reported(
    units: Seq<DownloadModel>,
    slots: Seq<Option<Result<PriceModel, ErrorModel>>>,
    unit: int,
    cause: Seq<char>,
    date: Date,
)
    requires
        units.len() == slots.len(),
        0 <= unit < slots.len(),
        slots[unit] == Some(price_of(units[unit].stock, units[unit].source, Err(cause), date)),
    ensures
        failures_of(symbols_of(units), slots, slots.len() as int).contains(
            FailureModel { symbol: units[unit].stock.symbol, error: ErrorModel::Network(cause) },
        ),
{
    let n = slots.len() as int;
    lemma_failed_units(slots, n);
    let failed = failed_units(slots, n);
    let k = choose|k: int| 0 <= k < failed.len() && failed[k] == unit;
    assert(failures_of(symbols_of(units), slots, n)[k] == (FailureModel {
        symbol: units[unit].stock.symbol,
        error: ErrorModel::Network(cause),
    }));
}

/// Where the symbols of the units do not fall from each unit to the next,
/// the symbols of the failures in the report do not fall either: the report
/// keeps the order of the run.
pub proof fn failures_keep_the_order_of_the_symbols(
    symbols: Seq<Seq<char>>,
    slots: Seq<Option<Result<PriceModel, ErrorModel>>>,
)
    requires
        symbols.len() == slots.len(),
        forall|u: int, v: int|
            0 <= u < v < symbols.len() ==> !precedes(#[trigger] symbols[v], #[trigger] symbols[u]),
    ensures
        forall|j: int, k: int|
            0 <= j < k < failures_of(symbols, slots, slots.len() as int).len() ==> !precedes(
                (#[trigger] failures_of(symbols, slots, slots.len() as int)[k]).symbol,
                (#[trigger] failures_of(symbols, slots, slots.len() as int)[j]).symbol,
            ),
{
    let n = slots.len() as int;
    lemma_failed_units(slots, n);
    let failed = failed_units(slots, n);
    let failures = failures_of(symbols, slots, n);
    assert forall|j: int, k: int| 0 <= j < k < failures.len() implies !precedes(
        (#[trigger] failures[k]).symbol,
        (#[trigger] failures[j]).symbol,
    ) by {
        assert(failed[j] < failed[k]);
    }
}

/// What a run has produced: the prices and the failures, each list in the
/// order of the instruments.
#[derive(Debug)]
pub struct Report {
    pub prices: Vec<Price>,
    pub failures: Vec<ExtractionFailure>,
}

/// One unit of a run: the symbol of its instrument, and its outcome once
/// that has arrived.
struct Slot {
    symbol: String,
    outcome: Option<Result<Price, StockPriceError>>,
}

/// A run: for each unit of work, the outcome that has arrived.
pub struct Batch {
    slots: Vec<Slot>,
}

impl Batch {
    /// The symbols of the instruments, in the order of the units.
    pub closed spec fn symbols(self) -> Seq<Seq<char>> {
        self.slots@.map_values(|slot: Slot| slot.symbol@)
    }

    /// What is known of each unit.
    pub closed spec fn outcomes(self) -> Seq<Option<Result<PriceModel, ErrorModel>>> {
        self.slots@.map_values(|slot: Slot| slot_model(slot.outcome))
    }

    /// A run over `units` of which no outcome is known.
    pub fn new(units: &Vec<Download>) -> (batch: Batch)
        ensures
            batch.symbols() == symbols_of(units.deep_view()),
            batch.outcomes() == pending(units.len() as nat),
    {
        let mut slots: Vec<Slot> = Vec::new();
        let mut i: usize = 0;
        while i < units.len()
            invariant
                i <= units.len(),
                slots@.len() == i,
                forall|k: int|
                    0 <= k < i ==> (#[trigger] slots@[k]).outcome is None && slots@[k].symbol@
                        == units.deep_view()[k].stock.symbol,
            decreases units.len() - i,
        {
            slots.push(Slot { symbol: units[i].stock.symbol.clone(), outcome: None });
            i += 1;
        }
        Batch { slots }
    }

    /// The number of units.
    pub fn len(&self) -> (n: usize)
        ensures
            n == self.symbols().len(),
            n == self.outcomes().len(),
    {
        self.slots.len()
    }

    /// Takes the outcome of `unit`. It is accepted where the run has that
    /// unit and has no outcome of it yet, and dropped otherwise.
    pub fn record(&mut self, unit: usize, outcome: Result<Price, StockPriceError>) -> (accepted:
        bool)
        ensures
            final(self).symbols() == old(self).symbols(),
            final(self).outcomes() == recorded(
                old(self).outcomes(),
                unit as int,
                outcome_model(outcome),
            ),
            accepted == (unit < old(self).outcomes().len() && old(self).outcomes()[unit as int]
                is None),
    {
        if unit < self.slots.len() && self.slots[unit].outcome.is_none() {
            let symbol = self.slots[unit].symbol.clone();
            self.slots.set(unit, Slot { symbol, outcome: Some(outcome) });
            true
        } else {
            false
        }
    }

    /// Whether the outcome of every unit has arrived.
    pub fn is_finished(&self) -> (done: bool)
        ensures
            done == is_complete(self.outcomes()),
    {
        let mut i: usize = 0;
        while i < self.slots.len()
            invariant
                i <= self.slots@.len(),
                forall|k: int| 0 <= k < i ==> (#[trigger] self.outcomes()[k]) is Some,
            decreases self.slots@.len() - i,
        {
            if self.slots[i].outcome.is_none() {
                assert(self.outcomes()[i as int] is None);
                return false;
            }
            i += 1;
        }
        true
    }

    /// The report of the run, once the outcome of every unit has arrived:
    /// the prices and the failures, each in the order of the instruments.
    pub fn report(&self) -> (r: Option<Report>)
        ensures
            r is Some <==> is_complete(self.outcomes()),
            r matches Some(report) ==> report.prices.deep_view() == prices_of(
                self.outcomes(),
                self.outcomes().len() as int,
            ) && report.failures.deep_view() == failures_of(
                self.symbols(),
                self.outcomes(),
                self.outcomes().len() as int,
            ),
    {
        let mut prices: Vec<Price> = Vec::new();
        let mut failures: Vec<ExtractionFailure> = Vec::new();
        let mut i: usize = 0;
        while i < self.slots.len()
            invariant
                i <= self.slots@.len(),
                forall|k: int| 0 <= k < i ==> (#[trigger] self.outcomes()[k]) is Some,
                prices.deep_view() == prices_of(self.outcomes(), i as int),
                failures.deep_view() == failures_of(self.symbols(), self.outcomes(), i as int),
            decreases self.slots@.len() - i,
        {
            let ghost slots = self.outcomes();
            let ghost symbols = self.symbols();
            match &self.slots[i].outcome {
                Some(Ok(price)) => {
                    prices.push(price.duplicate());
                    assert(prices_of(slots, i + 1) =~= prices_of(slots, i as int).push(price@));
                },
                Some(Err(error)) => {
                    let failure = ExtractionFailure {
                        symbol: self.slots[i].symbol.clone(),
                        error: error.duplicate(),
                    };
                    failures.push(failure);
                    assert(failures_of(symbols, slots, i + 1) =~= failures_of(
                        symbols,
                        slots,
                        i as int,
                    ).push(failure@));
                },
                None => {
                    return None;
                },
            }
            i += 1;
        }
        Some(Report { prices, failures })
    }
}

} // verus!
