use stock_prices::amount::Amount;
use stock_prices::batch::find_source;
use stock_prices::batch::plan;
use stock_prices::batch::Batch;
use stock_prices::batch::ConfigurationError;
use stock_prices::batch::Download;
use stock_prices::batch::ExtractionFailure;
use stock_prices::date::Date;
use stock_prices::download::download_price;
use stock_prices::download::price_url;
use stock_prices::error::StockPriceError;
use stock_prices::model::Price;
use stock_prices::model::Quote;
use stock_prices::model::Source;
use stock_prices::model::Stock;

const EQUITY_PAGE: &str = "<h2>ACME Market Data</h2>\
<td class=\"precio_ultima_cotizacion\">150.0</td>\
<td class=\"variacion_puntos\"><span>5.0</span></td>\
<th>High 52 week range</th><td>200.0</td>\
<th>Low 52 week range</th><td>100.0</td>";

fn stock(id: u32, symbol: &str, source_id: u32) -> Stock {
    Stock {
        id,
        symbol: symbol.to_string(),
        digital_look_name: format!("{}-page", symbol.to_lowercase()),
        source_id,
        enabled: true,
    }
}

fn sources() -> Vec<Source> {
    vec![
        Source { id: 1, url: "http://one.example/".to_string() },
        Source { id: 2, url: "http://two.example/".to_string() },
        Source { id: 1, url: "http://shadowed.example/".to_string() },
    ]
}

fn price(stock_id: u32, literal: &str) -> Price {
    let mut quote = Quote::blank();
    quote.price = Amount::from_literal(literal).unwrap();
    Price { stock_id, date: Date { year: 2020, month: 2, day: 29 }, quote }
}

fn day() -> Date {
    Date { year: 2021, month: 12, day: 31 }
}

#[test]
fn find_source_gives_the_first_with_the_identity() {
    let table = sources();
    assert_eq!(find_source(&table, 1), Some(0));
    assert_eq!(find_source(&table, 2), Some(1));
    assert_eq!(find_source(&table, 3), None);
    assert_eq!(find_source(&Vec::new(), 1), None);
}

#[test]
fn plan_pairs_each_instrument_with_its_source() {
    let stocks = vec![stock(10, "BBB", 2), stock(11, "AAA", 1), stock(12, "CCC", 2)];
    let units = plan(&stocks, &sources()).unwrap();
    assert_eq!(units.len(), 3);
    assert_eq!(units[0].stock.symbol, "BBB");
    assert_eq!(units[0].source.url, "http://two.example/");
    assert_eq!(units[1].stock.id, 11);
    assert_eq!(units[1].source.url, "http://one.example/");
    assert_eq!(units[2].stock.symbol, "CCC");
    assert_eq!(units[2].source.id, 2);
    assert!(plan(&Vec::new(), &sources()).unwrap().is_empty());
}

#[test]
fn plan_refuses_an_instrument_without_a_source() {
    let stocks = vec![stock(10, "BBB", 2), stock(11, "AAA", 7), stock(12, "CCC", 9)];
    let e: ConfigurationError = plan(&stocks, &sources()).unwrap_err();
    assert_eq!(e.symbol, "AAA");
    assert_eq!(e.source_id, 7);
    assert_eq!(e.message(), "Cannot find Source for Stock AAA");
    let e = plan(&stocks, &Vec::new()).unwrap_err();
    assert_eq!(e.symbol, "BBB");
}

#[test]
fn price_url_joins_the_source_and_the_page_name() {
    let s = stock(1, "ACME", 1);
    let table = sources();
    assert_eq!(price_url(&s, &table[0]), "http://one.example/acme-page");
    assert_eq!(price_url(&s, &table[1]), "http://two.example/acme-page");
}

#[test]
fn download_price_reads_the_page_by_the_layout_of_the_source() {
    let s = stock(42, "ACME", 1);
    let table = sources();
    let p = download_price(&s, &table[0], Ok(EQUITY_PAGE.to_string()), day()).unwrap();
    assert_eq!(p.stock_id, 42);
    assert_eq!(p.date, day());
    assert_eq!(p.quote.price.literal(), "150.0");
    assert_eq!(p.quote.change.literal(), "5.0");
    assert_eq!(p.quote.fifty_two_week_high.unwrap().literal(), "200.0");
    assert_eq!(p.quote.fifty_two_week_low.unwrap().literal(), "100.0");
    // The same page read as that of a fund has no marker of a fund.
    let r = download_price(&s, &table[1], Ok(EQUITY_PAGE.to_string()), day());
    assert!(matches!(r, Err(StockPriceError::MarkerNotFound(_))));
}

#[test]
fn download_price_gives_a_blank_quote_for_an_unknown_source() {
    let s = stock(42, "ACME", 9);
    let unknown = Source { id: 9, url: "http://nine.example/".to_string() };
    let p = download_price(&s, &unknown, Ok(EQUITY_PAGE.to_string()), day()).unwrap();
    assert_eq!(p.stock_id, 42);
    assert_eq!(p.quote.price.literal(), "0");
    assert_eq!(p.quote.change.literal(), "0");
    assert!(p.quote.fifty_two_week_high.is_none());
    assert!(p.quote.fifty_two_week_low.is_none());
}

#[test]
fn download_price_hands_on_a_failed_request() {
    let s = stock(42, "ACME", 1);
    let table = sources();
    let r = download_price(&s, &table[0], Err("connection refused".to_string()), day());
    match r {
        Err(StockPriceError::Network(cause)) => assert_eq!(cause, "connection refused"),
        _ => panic!("a failed request must give a network error"),
    }
}

#[test]
fn download_price_stamps_the_price_with_the_day_given() {
    let s = stock(42, "ACME", 1);
    let table = sources();
    let first = Date { year: 1969, month: 7, day: 20 };
    let second = Date { year: 2038, month: 1, day: 19 };
    let p = download_price(&s, &table[0], Ok(EQUITY_PAGE.to_string()), first).unwrap();
    let q = download_price(&s, &table[0], Ok(EQUITY_PAGE.to_string()), second).unwrap();
    assert_eq!(p.date, first);
    assert_eq!(q.date, second);
    assert_eq!(p.stock_id, q.stock_id);
    assert_eq!(p.quote.price.literal(), q.quote.price.literal());
    assert_eq!(p.quote.change.literal(), q.quote.change.literal());
}

fn units(symbols: &[&str]) -> Vec<Download> {
    let mut id = 0;
    symbols
        .iter()
        .map(|s| {
            id += 1;
            Download { stock: stock(id, s, 1), source: Source { id: 1, url: "u/".to_string() } }
        })
        .collect()
}

#[test]
fn report_splits_prices_and_failures_in_the_order_of_the_units() {
    let plan = units(&["AAA", "BBB", "CCC", "DDD", "EEE"]);
    let mut batch = Batch::new(&plan);
    assert_eq!(batch.len(), 5);
    assert!(!batch.is_finished());
    assert!(batch.report().is_none());
    assert!(batch.record(0, Ok(price(1, "10"))));
    assert!(batch.record(1, Err(StockPriceError::Network("down".to_string()))));
    assert!(batch.record(2, Ok(price(3, "30"))));
    assert!(batch.record(3, Err(StockPriceError::UnterminatedField)));
    assert!(!batch.is_finished());
    assert!(batch.report().is_none());
    assert!(batch.record(4, Ok(price(5, "50"))));
    assert!(batch.is_finished());
    let report = batch.report().unwrap();
    assert_eq!(report.prices.len(), 3);
    assert_eq!(report.failures.len(), 2);
    let ids: Vec<u32> = report.prices.iter().map(|p| p.stock_id).collect();
    assert_eq!(ids, vec![1, 3, 5]);
    assert_eq!(report.prices[1].quote.price.literal(), "30");
    assert_eq!(report.failures[0].symbol, "BBB");
    assert_eq!(report.failures[0].error.message(), "down");
    assert_eq!(report.failures[1].symbol, "DDD");
    assert!(matches!(report.failures[1].error, StockPriceError::UnterminatedField));
}

#[test]
fn report_does_not_depend_on_the_order_of_arrival() {
    let plan = units(&["AAA", "BBB", "CCC", "DDD", "EEE", "FFF"]);
    let outcome = |unit: usize| -> Result<Price, StockPriceError> {
        if unit % 3 == 1 {
            Err(StockPriceError::Network(format!("unit {} failed", unit)))
        } else {
            Ok(price(unit as u32 + 1, &format!("{}.5", unit)))
        }
    };
    let orders: [[usize; 6]; 4] =
        [[0, 1, 2, 3, 4, 5], [5, 4, 3, 2, 1, 0], [3, 0, 5, 1, 4, 2], [1, 4, 0, 2, 5, 3]];
    for order in orders {
        let mut batch = Batch::new(&plan);
        for unit in order {
            assert!(batch.record(unit, outcome(unit)));
        }
        let report = batch.report().unwrap();
        let ids: Vec<u32> = report.prices.iter().map(|p| p.stock_id).collect();
        assert_eq!(ids, vec![1, 3, 4, 6]);
        let prices: Vec<&str> = report.prices.iter().map(|p| p.quote.price.literal()).collect();
        assert_eq!(prices, vec!["0.5", "2.5", "3.5", "5.5"]);
        let symbols: Vec<&str> = report.failures.iter().map(|f| f.symbol.as_str()).collect();
        assert_eq!(symbols, vec!["BBB", "EEE"]);
        let lines: Vec<String> = report.failures.iter().map(|f| f.line()).collect();
        assert_eq!(
            lines,
            vec![
                "Could not download price for BBB, error is unit 1 failed",
                "Could not download price for EEE, error is unit 4 failed"
            ]
        );
    }
}

#[test]
fn failed_requests_are_counted_and_named() {
    let stocks: Vec<Stock> =
        ["A", "B", "C", "D", "E", "F", "G"].iter().enumerate().map(|(i, s)| stock(i as u32, s, 1)).collect();
    let plan = plan(&stocks, &sources()).unwrap();
    let failing = [1usize, 2, 6];
    let mut batch = Batch::new(&plan);
    for (unit, download) in plan.iter().enumerate().rev() {
        let response = if failing.contains(&unit) {
            Err(format!("no route to {}", price_url(&download.stock, &download.source)))
        } else {
            Ok(EQUITY_PAGE.to_string())
        };
        let outcome = download_price(&download.stock, &download.source, response, day());
        assert!(batch.record(unit, outcome));
    }
    let report = batch.report().unwrap();
    assert_eq!(report.prices.len(), stocks.len() - failing.len());
    assert_eq!(report.failures.len(), failing.len());
    let ids: Vec<u32> = report.prices.iter().map(|p| p.stock_id).collect();
    assert_eq!(ids, vec![0, 3, 4, 5]);
    let symbols: Vec<&str> = report.failures.iter().map(|f| f.symbol.as_str()).collect();
    assert_eq!(symbols, vec!["B", "C", "G"]);
    assert_eq!(
        report.failures[0].line(),
        "Could not download price for B, error is no route to http://one.example/b-page"
    );
}

#[test]
fn a_unit_keeps_its_first_outcome() {
    let plan = units(&["AAA", "BBB"]);
    let mut batch = Batch::new(&plan);
    assert!(batch.record(1, Ok(price(2, "20"))));
    assert!(!batch.record(1, Err(StockPriceError::UnterminatedField)));
    assert!(!batch.record(2, Ok(price(3, "30"))));
    assert!(!batch.record(usize::MAX, Ok(price(3, "30"))));
    assert!(batch.record(0, Ok(price(1, "10"))));
    let report = batch.report().unwrap();
    assert_eq!(report.prices.len(), 2);
    assert!(report.failures.is_empty());
    assert_eq!(report.prices[1].quote.price.literal(), "20");
}

#[test]
fn an_empty_run_is_finished_at_once() {
    let mut batch = Batch::new(&Vec::new());
    assert_eq!(batch.len(), 0);
    assert!(batch.is_finished());
    assert!(!batch.record(0, Ok(price(1, "1"))));
    let report = batch.report().unwrap();
    assert!(report.prices.is_empty());
    assert!(report.failures.is_empty());
}

#[test]
fn failure_lines_name_the_instrument_and_the_cause() {
    let f = ExtractionFailure {
        symbol: "ACME".to_string(),
        error: StockPriceError::MarkerNotFound("<td>".to_string()),
    };
    assert_eq!(
        f.line(),
        "Could not download price for ACME, error is Cannot parse document, Cannot find <td> in string"
    );
}

#[test]
fn records_are_copied_whole() {
    let p = price(7, "-1.5");
    let q = p.duplicate();
    assert_eq!(q.stock_id, 7);
    assert_eq!(q.date, p.date);
    assert_eq!(q.quote.price.literal(), "-1.5");
    let s = stock(3, "ACME", 2);
    let t = s.duplicate();
    assert_eq!(t.id, 3);
    assert_eq!(t.symbol, "ACME");
    assert_eq!(t.digital_look_name, "acme-page");
    assert_eq!(t.source_id, 2);
    assert!(t.enabled);
    let src = Source { id: 4, url: "x".to_string() }.duplicate();
    assert_eq!(src.id, 4);
    assert_eq!(src.url, "x");
}
