use torch_overlay::log_lines::CRYSTAL_BASE_ID;
use torch_overlay::price::parse_price_response;

/// Whether the bracketed text of a line reads as a floating-point number.
fn bracket_is_number(line: &str) -> bool {
    line.split_once('[')
        .and_then(|(_, rest)| rest.split_once(']'))
        .map_or(false, |(value, _)| value.trim().parse::<f64>().is_ok())
}

fn priced_flags(lines: &[String]) -> Vec<bool> {
    lines.iter().map(|line| bracket_is_number(line)).collect()
}

fn as_numbers(texts: &[String]) -> Vec<f64> {
    texts.iter().map(|text| text.trim().parse::<f64>().unwrap()).collect()
}

#[test]
fn parses_crystal_price_group_when_other_currency_is_present() {
    let lines = vec![
        "+prices+1+unitPrices+1 [0.13000327189443]".to_string(),
        "|      | |          +2 [0.13000946670874]".to_string(),
        "|      | +currency [100300]".to_string(),
        "|      +2+unitPrices+1 [10086.0]".to_string(),
        "|      | +currency [100200]".to_string(),
        "+errCode".to_string(),
    ];
    let response = parse_price_response(&lines, &priced_flags(&lines));

    assert_eq!(response.currency_base_id, Some(CRYSTAL_BASE_ID));
    assert_eq!(
        as_numbers(&response.unit_prices),
        vec![0.13000327189443, 0.13000946670874]
    );
}
