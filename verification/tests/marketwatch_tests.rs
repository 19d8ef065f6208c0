use marketwatch::marketwatch::{
    add_thousand_separator, chart_url, currency_decimals, format_currency, format_number,
    format_publish_time, format_publish_time_at, most_active_url, news_url, quote_from_chart,
    quote_from_screener, search_label, symbol_from_label, symbol_search_url,
    user_friendly_error_message,
};

#[test]
fn friendly_messages() {
    assert_eq!(
        user_friendly_error_message("error sending request: dns error: failed to lookup address"),
        "You're offline. Please check your internet connection."
    );
    assert_eq!(
        user_friendly_error_message("failed to lookup address information"),
        "You're offline. Please check your internet connection."
    );
    assert_eq!(
        user_friendly_error_message("operation timeout"),
        "The request took too long. Try again in a moment."
    );
    assert_eq!(
        user_friendly_error_message("tcp connect error: connection refused"),
        "Unable to reach the server right now."
    );
    assert_eq!(
        user_friendly_error_message("HTTP status 500"),
        "Something went wrong while fetching market data."
    );
    assert_eq!(
        user_friendly_error_message(""),
        "Something went wrong while fetching market data."
    );
}

#[test]
fn thousands_separator() {
    assert_eq!(add_thousand_separator("1234567", ","), "1,234,567");
    assert_eq!(add_thousand_separator("123456", "."), "123.456");
    assert_eq!(add_thousand_separator("123", ","), "123");
    assert_eq!(add_thousand_separator("", ","), "");
    assert_eq!(add_thousand_separator("1000", "'"), "1'000");
    // a separator of several characters comes out reversed
    assert_eq!(add_thousand_separator("1234", "ab"), "1ba234");
}

#[test]
fn number_formatting() {
    assert_eq!(format_number("1234.56", 2, ",", "."), "1.234,56");
    assert_eq!(format_number("1234567.89", 2, ".", ","), "1,234,567.89");
    assert_eq!(format_number("80634", 0, ".", ","), "80,634");
    assert_eq!(format_number("0.50", 2, ".", ","), "0.50");
    assert_eq!(format_number("NaN", 2, ".", ","), "NaN");
}

#[test]
fn currency_formatting() {
    assert_eq!(format_currency("USD", "1234.50", false), "$1,234.50");
    assert_eq!(format_currency("USD", "1234.50", true), "-$1,234.50");
    assert_eq!(format_currency("BRL", "1234.50", false), "R$1.234,50");
    assert_eq!(format_currency("EUR", "1234.50", false), "1.234,50 €");
    assert_eq!(format_currency("GBP", "0.99", false), "£0.99");
    assert_eq!(format_currency("JPY", "15000", false), "¥15,000");
    assert_eq!(format_currency("CHF", "1234.50", false), "1'234.50 CHF");
    assert_eq!(format_currency("CAD", "10.00", false), "C$10.00");
    assert_eq!(format_currency("AUD", "10.00", false), "A$10.00");
    assert_eq!(format_currency("CNY", "10.00", false), "¥10.00");
    assert_eq!(format_currency("INR", "1000.00", false), "₹1,000.00");
    assert_eq!(format_currency("XYZ", "1234.50", false), "XYZ1,234.50");
    assert_eq!(currency_decimals("JPY"), 0);
    assert_eq!(currency_decimals("USD"), 2);
    assert_eq!(currency_decimals("EUR"), 2);
}

#[test]
fn publish_time_texts() {
    let now = 1_700_000_000u64;
    assert_eq!(format_publish_time_at(now + 5, now), "just now");
    assert_eq!(format_publish_time_at(now, now), "just now");
    assert_eq!(format_publish_time_at(now - 59, now), "just now");
    assert_eq!(format_publish_time_at(now - 60, now), "1 min ago");
    assert_eq!(format_publish_time_at(now - 150, now), "2 min ago");
    assert_eq!(format_publish_time_at(now - 3599, now), "59 min ago");
    assert_eq!(format_publish_time_at(now - 3600, now), "1 hour ago");
    assert_eq!(format_publish_time_at(now - 7200, now), "2 hours ago");
    assert_eq!(format_publish_time_at(now - 86_399, now), "23 hours ago");
    assert_eq!(format_publish_time_at(now - 86_400, now), "yesterday");
    assert_eq!(format_publish_time_at(now - 172_799, now), "yesterday");
    assert_eq!(format_publish_time_at(now - 172_800, now), "2 days ago");
    assert_eq!(format_publish_time_at(now - 6 * 86_400, now), "6 days ago");
    assert_eq!(format_publish_time_at(now - 7 * 86_400, now), "1 week ago");
    assert_eq!(format_publish_time_at(now - 13 * 86_400, now), "1 week ago");
    assert_eq!(format_publish_time_at(now - 14 * 86_400, now), "2 weeks ago");
    assert_eq!(format_publish_time_at(now - 30 * 86_400, now), "4 weeks ago");
    // seen from the present, a publication one second old is "just now"
    let t = std::time::SystemTime::now()
        .duration_since(std::time::UNIX_EPOCH)
        .unwrap()
        .as_secs();
    assert_eq!(format_publish_time(t), "just now");
    assert_eq!(format_publish_time(0), format!("{} weeks ago", t / 86_400 / 7));
}

#[test]
fn endpoints() {
    assert_eq!(
        most_active_url(5),
        "https://query1.finance.yahoo.com/v1/finance/screener/predefined/saved?count=5&scrIds=most_actives"
    );
    assert_eq!(
        news_url("AAPL", 2),
        "https://query1.finance.yahoo.com/v1/finance/search?q=AAPL&newsCount=2&quotesCount=0"
    );
    assert_eq!(
        symbol_search_url("pet"),
        "https://query1.finance.yahoo.com/v1/finance/search?q=pet&quotesCount=6&newsCount=0"
    );
    assert_eq!(
        chart_url("BTC-USD"),
        "https://query1.finance.yahoo.com/v8/finance/chart/BTC-USD?range=1d&interval=1d"
    );
}

#[test]
fn search_labels() {
    let l = search_label("PETR4.SA".to_string(), Some("PETROBRAS PN".to_string()));
    assert_eq!(l, "PETR4.SA — PETROBRAS PN");
    assert_eq!(symbol_from_label(&l), "PETR4.SA");
    let l = search_label("AAPL".to_string(), None);
    assert_eq!(l, "AAPL");
    assert_eq!(symbol_from_label(&l), "AAPL");
}

#[test]
fn quotes_with_defaults() {
    let q = quote_from_screener("AAPL".to_string(), None, None, None, None, None);
    assert_eq!(q.symbol, "AAPL");
    assert_eq!(q.name, "Unknown");
    assert_eq!(f64::from_bits(q.price), 0.0);
    assert_eq!(f64::from_bits(q.change), 0.0);
    assert_eq!(f64::from_bits(q.change_percent), 0.0);
    assert_eq!(q.currency, "USD");
    let q = quote_from_screener(
        "VALE3.SA".to_string(),
        Some("VALE ON".to_string()),
        Some(61.5f64.to_bits()),
        Some((-0.25f64).to_bits()),
        Some((-0.4f64).to_bits()),
        Some("BRL".to_string()),
    );
    assert_eq!(q.name, "VALE ON");
    assert_eq!(f64::from_bits(q.price), 61.5);
    assert_eq!(f64::from_bits(q.change), -0.25);
    assert_eq!(f64::from_bits(q.change_percent), -0.4);
    assert_eq!(q.currency, "BRL");
    let q = quote_from_chart("BTC-USD".to_string(), None, 1.0f64.to_bits(), 0, 0);
    assert_eq!(q.name, "BTC-USD");
    assert_eq!(q.currency, "USD");
    assert_eq!(f64::from_bits(q.price), 1.0);
}

#[test]
fn grouping_keeps_digits() {
    for digits in ["", "7", "1234", "9876543210", "1000000"] {
        let grouped = add_thousand_separator(digits, ",");
        let back: String = grouped.chars().filter(|c| *c != ',').collect();
        assert_eq!(back, digits);
    }
}
