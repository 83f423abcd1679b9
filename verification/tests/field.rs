use stock_prices::amount::is_decimal;
use stock_prices::amount::Amount;
use stock_prices::error::StockPriceError;
use stock_prices::field::amount_from_normalized;
use stock_prices::field::amount_in;
use stock_prices::field::extract_pence;
use stock_prices::field::extract_up_to_next_tag;
use stock_prices::field::field_end;
use stock_prices::text::chars_of;

fn value(a: &Amount) -> f32 {
    a.literal().parse::<f32>().unwrap()
}

#[test]
fn extract_pence_drops_thousands_separators() {
    let a = extract_pence("1,234.56<td>").unwrap();
    assert_eq!(a.literal(), "1234.56");
    assert_eq!(value(&a), 1234.56);
}

#[test]
fn extract_pence_reads_not_available_as_zero() {
    let a = extract_pence("N/A<td>").unwrap();
    assert_eq!(a.literal(), "0");
    assert_eq!(value(&a), 0.0);
    assert_eq!(value(&extract_pence("n/a<").unwrap()), 0.0);
    assert_eq!(value(&extract_pence(" n / a <").unwrap()), 0.0);
}

#[test]
fn extract_pence_reads_an_empty_field_as_zero() {
    assert_eq!(value(&extract_pence("<td>").unwrap()), 0.0);
    assert_eq!(value(&extract_pence(" \t\r\n\u{c}<td>").unwrap()), 0.0);
}

#[test]
fn extract_pence_reads_a_negative_number() {
    let a = extract_pence("-12.3<td>").unwrap();
    assert_eq!(a.literal(), "-12.3");
    assert_eq!(value(&a), -12.3);
}

#[test]
fn extract_pence_cuts_off_what_follows_the_number() {
    assert_eq!(extract_pence("150.25p</td>").unwrap().literal(), "150.25");
    assert_eq!(extract_pence(" 1 234 GBX<").unwrap().literal(), "1234");
    assert_eq!(extract_pence("5.<").unwrap().literal(), "5.");
    assert_eq!(extract_pence(".5<").unwrap().literal(), ".5");
    assert_eq!(extract_pence("-.5%<").unwrap().literal(), "-.5");
}

#[test]
fn extract_pence_fails_without_a_tag() {
    let r = extract_pence("123.4");
    assert!(matches!(r, Err(StockPriceError::UnterminatedField)));
    assert_eq!(
        r.unwrap_err().message(),
        "Cannot parse document, Cannot find next '<' character"
    );
}

#[test]
fn extract_pence_fails_on_what_is_no_number() {
    let r = extract_pence("abc<");
    assert!(matches!(r, Err(StockPriceError::MalformedNumber(ref t)) if t == ""));
    let r = extract_pence("1.2.3<");
    assert!(matches!(r, Err(StockPriceError::MalformedNumber(ref t)) if t == "1.2.3"));
    let r = extract_pence("12-13<");
    assert!(matches!(r, Err(StockPriceError::MalformedNumber(ref t)) if t == "12-13"));
    let r = extract_pence("-<");
    assert!(matches!(r, Err(StockPriceError::MalformedNumber(ref t)) if t == "-"));
    let r = extract_pence(",<");
    assert!(matches!(r, Err(StockPriceError::MalformedNumber(ref t)) if t == ""));
    let r = extract_pence("N/A.<");
    assert!(matches!(r, Err(StockPriceError::MalformedNumber(ref t)) if t == ""));
}

#[test]
fn extract_pence_agrees_with_the_float_parser_on_failure() {
    let samples = [
        "1<", "1.5<", "-3<", ".<", "-<", "--1<", "1-<", "1.2.3<", "5.<", ".5<", "-.5<", "0<",
        "00.10<", "-0<", "1,000,000.5<", "x<", "..<", "-.<", ",,<", "1,<", "9999999999999999999999<",
    ];
    for s in samples {
        let field = &s[..s.len() - 1];
        let cleaned: String = field
            .chars()
            .take_while(|c| c.is_ascii_digit() || *c == '.' || *c == ',' || *c == '-')
            .filter(|c| *c != ',')
            .collect();
        let expected = cleaned.parse::<f32>();
        match extract_pence(s) {
            Ok(a) => assert_eq!(a.literal().parse::<f32>().ok(), expected.clone().ok()),
            Err(e) => {
                assert!(expected.is_err(), "{} was refused", s);
                assert_eq!(e.message(), expected.unwrap_err().to_string());
            }
        }
    }
}

#[test]
fn amount_from_normalized_reads_what_is_already_clean() {
    assert_eq!(amount_from_normalized("").unwrap().literal(), "0");
    assert_eq!(amount_from_normalized("n/a").unwrap().literal(), "0");
    assert_eq!(amount_from_normalized("1,234.56").unwrap().literal(), "1234.56");
    assert_eq!(amount_from_normalized("12.5p").unwrap().literal(), "12.5");
    // Lowercasing is not done here: an upper-case sentinel is no number.
    let r = amount_from_normalized("N/A");
    assert!(matches!(r, Err(StockPriceError::MalformedNumber(ref t)) if t == ""));
    let r = amount_from_normalized("n/ab");
    assert!(matches!(r, Err(StockPriceError::MalformedNumber(ref t)) if t == ""));
}

#[test]
fn extract_up_to_next_tag_stops_before_the_tag() {
    assert_eq!(extract_up_to_next_tag("12.5</td>").unwrap(), "12.5");
    assert_eq!(extract_up_to_next_tag("<td>").unwrap(), "");
    assert_eq!(extract_up_to_next_tag(" \u{20ac}5 <<").unwrap(), " \u{20ac}5 ");
    let r = extract_up_to_next_tag("no tag here");
    assert!(matches!(r, Err(StockPriceError::UnterminatedField)));
}

#[test]
fn fields_are_read_in_place() {
    let doc = chars_of("ab 1 2<cd>34<");
    assert_eq!(field_end(&doc, 0), Some(6));
    assert_eq!(field_end(&doc, 6), Some(6));
    assert_eq!(field_end(&doc, 7), Some(12));
    assert_eq!(field_end(&doc, 13), None);
    assert_eq!(field_end(&doc, 50), None);
    assert_eq!(amount_in(&doc, 2).unwrap().literal(), "12");
    assert_eq!(amount_in(&doc, 10).unwrap().literal(), "34");
    assert!(matches!(amount_in(&doc, 13), Err(StockPriceError::UnterminatedField)));
}

#[test]
fn decimal_numbers_are_told_from_other_texts() {
    let yes = ["0", "12", "1.5", "-1.5", ".5", "5.", "-.5", "-5.", "007"];
    let no = ["", "-", ".", "-.", "1.2.3", "--1", "1-", "1-2", "1,5", "1e5", "+1", " 1", "inf"];
    for s in yes {
        assert!(is_decimal(&chars_of(s)), "{}", s);
        assert_eq!(Amount::from_literal(s).unwrap().literal(), s);
        assert!(s.parse::<f32>().is_ok());
    }
    for s in no {
        assert!(!is_decimal(&chars_of(s)), "{}", s);
        assert!(Amount::from_literal(s).is_none());
    }
}

#[test]
fn amounts_are_copied_whole() {
    let a = Amount::from_literal("-12.50").unwrap();
    let b = a.duplicate();
    assert_eq!(a.literal(), b.literal());
    assert_eq!(Amount::zero().literal(), "0");
}
