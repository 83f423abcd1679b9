use stock_prices::error::StockPriceError;

#[test]
fn each_error_has_its_message() {
    assert_eq!(
        StockPriceError::MarkerNotFound("Market Data</h2>".to_string()).message(),
        "Cannot parse document, Cannot find Market Data</h2> in string"
    );
    assert_eq!(
        StockPriceError::MarkerNotFound(String::new()).message(),
        "Cannot parse document, Cannot find  in string"
    );
    assert_eq!(
        StockPriceError::UnterminatedField.message(),
        "Cannot parse document, Cannot find next '<' character"
    );
    assert_eq!(
        StockPriceError::MalformedNumber("1.2.3".to_string()).message(),
        "invalid float literal"
    );
    assert_eq!(
        StockPriceError::MalformedNumber(String::new()).message(),
        "cannot parse float from empty string"
    );
    assert_eq!(StockPriceError::Network("dns failure".to_string()).message(), "dns failure");
}

#[test]
fn messages_of_numbers_are_those_of_the_float_parser() {
    assert_eq!(
        StockPriceError::MalformedNumber("1.2.3".to_string()).message(),
        "1.2.3".parse::<f32>().unwrap_err().to_string()
    );
    assert_eq!(
        StockPriceError::MalformedNumber(String::new()).message(),
        "".parse::<f32>().unwrap_err().to_string()
    );
}

#[test]
fn the_message_of_a_missing_marker_holds_the_marker() {
    let marker = "variacion_puntos";
    let message = StockPriceError::MarkerNotFound(marker.to_string()).message();
    assert_eq!(&message[35..35 + marker.len()], marker);
    assert_eq!(message.len(), 45 + marker.len());
}

#[test]
fn errors_are_copied_whole() {
    let all = [
        StockPriceError::MarkerNotFound("m".to_string()),
        StockPriceError::UnterminatedField,
        StockPriceError::MalformedNumber("t".to_string()),
        StockPriceError::Network("c".to_string()),
    ];
    for e in &all {
        let copy = e.duplicate();
        assert_eq!(copy.message(), e.message());
        assert_eq!(format!("{:?}", copy), format!("{:?}", e));
    }
}
