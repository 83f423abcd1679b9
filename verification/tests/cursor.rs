use stock_prices::cursor::Cursor;
use stock_prices::cursor::StringExtensions;
use stock_prices::error::StockPriceError;
use stock_prices::text::chars_of;
use stock_prices::text::find_from;
use stock_prices::text::same_text;
use stock_prices::text::stands_at;

#[test]
fn chomp_when_pattern_exists_returns_following_text() {
    let mut s = "<h2>CLLN Market Data</h2> whatever".to_string();
    s.chomp("Data</h2>").unwrap();
    assert_eq!(s, " whatever");

    let mut s = "<h2>CLLN Market Data</h2> whatever".to_string();
    s.chomp("h2>").unwrap();
    assert_eq!(s, "CLLN Market Data</h2> whatever");

    let mut s = "<h2>CLLN Market Data</h2> whatever".to_string();
    s.chomp("whatever").unwrap();
    assert_eq!(s, "");
}

#[test]
fn chomp_when_pattern_does_not_exist_returns_error() {
    let mut s = "hello world".to_string();
    match s.chomp("BLAH") {
        Ok(_) => panic!("chomp should NOT return Ok."),
        Err(e) => {
            let expected = "Cannot parse document, Cannot find BLAH in string";
            let actual = e.message();
            assert_eq!(expected, actual);
        }
    }
}

#[test]
fn chomp_leaves_the_text_alone_when_the_marker_is_absent() {
    let mut s = "hello world".to_string();
    let r = s.chomp("BLAH");
    assert!(matches!(r, Err(StockPriceError::MarkerNotFound(ref m)) if m == "BLAH"));
    assert_eq!(s, "hello world");
}

#[test]
fn chomp_takes_the_first_of_several_occurrences() {
    let mut s = "a>b>c>d".to_string();
    s.chomp(">").unwrap();
    assert_eq!(s, "b>c>d");
    s.chomp(">").unwrap();
    assert_eq!(s, "c>d");
}

#[test]
fn chomp_with_an_empty_marker_keeps_the_text() {
    let mut s = "abc".to_string();
    s.chomp("").unwrap();
    assert_eq!(s, "abc");
}

#[test]
fn chomp_counts_characters_not_bytes() {
    let mut s = "pr\u{e9}cis \u{20ac}5<td>".to_string();
    s.chomp("\u{20ac}").unwrap();
    assert_eq!(s, "5<td>");
}

#[test]
fn chomp_finds_a_marker_that_overlaps_a_false_start() {
    let mut s = "aaab!".to_string();
    s.chomp("aab").unwrap();
    assert_eq!(s, "!");
}

#[test]
fn cursor_advances_forward_only() {
    let page = chars_of("one two one three");
    let start = Cursor::new(&page);
    assert_eq!(start.offset(), 0);
    let first = start.advance_past("one").unwrap();
    assert_eq!(first.offset(), 3);
    assert_eq!(first.remaining(), " two one three");
    let second = first.advance_past("one").unwrap();
    assert_eq!(second.offset(), 11);
    assert_eq!(second.remaining(), " three");
    let third = second.advance_past("one");
    assert!(matches!(third, Err(StockPriceError::MarkerNotFound(ref m)) if m == "one"));
    // The earlier cursors are as they were.
    assert_eq!(start.offset(), 0);
    assert_eq!(first.remaining(), " two one three");
}

#[test]
fn cursor_reads_the_amount_where_it_stands_and_stays() {
    let page = chars_of("Price: 12.5</b> next 7<");
    let at = Cursor::new(&page).advance_past("Price:").unwrap();
    assert_eq!(at.amount().unwrap().literal(), "12.5");
    assert_eq!(at.offset(), 6);
    assert_eq!(at.amount().unwrap().literal(), "12.5");
}

#[test]
fn find_from_reports_the_first_place_at_or_after_the_start() {
    let t = chars_of("abcabc");
    let m = chars_of("bc");
    assert_eq!(find_from(&t, &m, 0), Some(1));
    assert_eq!(find_from(&t, &m, 1), Some(1));
    assert_eq!(find_from(&t, &m, 2), Some(4));
    assert_eq!(find_from(&t, &m, 5), None);
    assert_eq!(find_from(&t, &m, 100), None);
    assert_eq!(find_from(&t, &[], 6), Some(6));
    assert_eq!(find_from(&t, &[], 7), None);
    assert_eq!(find_from(&m, &t, 0), None);
}

#[test]
fn stands_at_compares_in_place() {
    let t = chars_of("abcabc");
    let m = chars_of("ca");
    assert!(stands_at(&t, &m, 2));
    assert!(!stands_at(&t, &m, 3));
    assert!(!stands_at(&t, &m, 5));
    assert!(!stands_at(&t, &m, 6));
    assert!(!stands_at(&t, &m, usize::MAX));
    assert!(stands_at(&t, &[], 6));
    assert!(!stands_at(&t, &[], 7));
}

#[test]
fn texts_convert_both_ways() {
    let v = chars_of("h\u{e9}llo");
    assert_eq!(v, vec!['h', '\u{e9}', 'l', 'l', 'o']);
    assert_eq!(Cursor::new(&v).advance_past("h").unwrap().remaining(), "\u{e9}llo");
    assert_eq!(Cursor::new(&v).advance_past("o").unwrap().remaining(), "");
    assert!(same_text("abc", "abc"));
    assert!(!same_text("abc", "abd"));
    assert!(!same_text("abc", "ab"));
    assert!(same_text("", ""));
}
