//! Market data: quotes, news and price alerts, the addresses of the Yahoo
//! Finance endpoints, and the rules by which amounts, ages and error
//! messages are put into words.
//!
//! Prices and variations are floating-point numbers. The library carries each
//! as the IEEE-754 bit pattern of the `f64` (`f64::to_bits`), unchanged; the
//! arithmetic and comparisons on them are done by the caller.
use vstd::prelude::*;

use crate::text::{
    before_first, contains_str, contains_text, decimal, push_decimal, same_text, text_before,
    chars_of, push_chars, copy_string,
};

verus! {

// ===================== data =====================

/// A quote of one asset.
#[derive(Debug, Clone, PartialEq)]
pub struct MarketQuote {
    /// Bit pattern of the change since the previous close.
    pub change: u64,
    /// Bit pattern of the change in percent.
    pub change_percent: u64,
    pub currency: String,
    pub name: String,
    /// Bit pattern of the last price.
    pub price: u64,
    pub symbol: String,
}

impl MarketQuote {
    /// A copy of this quote.
    pub fn duplicate(&self) -> (r: MarketQuote)
        ensures
            r == *self,
    {
        MarketQuote {
            change: self.change,
            change_percent: self.change_percent,
            currency: self.currency.clone(),
            name: self.name.clone(),
            price: self.price,
            symbol: self.symbol.clone(),
        }
    }
}

/// A news item about an asset.
#[derive(Debug, Clone, PartialEq)]
pub struct YahooNews {
    pub title: String,
    pub link: String,
    pub publisher: Option<String>,
    pub publish_time: Option<u64>,
}

pub fn copy_opt_string(s: &Option<String>) -> (r: Option<String>)
    ensures
        r == *s,
{
    match s {
        Some(x) => Some(x.clone()),
        None => None,
    }
}

impl YahooNews {
    /// A copy of this news item.
    pub fn duplicate(&self) -> (r: YahooNews)
        ensures
            r == *self,
    {
        YahooNews {
            title: self.title.clone(),
            link: self.link.clone(),
            publisher: copy_opt_string(&self.publisher),
            publish_time: self.publish_time,
        }
    }
}

/// What makes a price alert fire. The thresholds are bit patterns of `f64`.
#[derive(Debug, Clone, Copy, PartialEq, Eq, Structural)]
pub enum AlertCondition {
    PriceAbove(u64),
    PriceBelow(u64),
    VariationAbove(u64),
    VariationBelow(u64),
    TurnPositive,
    TurnNegative,
}

/// A price alert on one asset of a wallet.
#[derive(Debug, Clone, PartialEq)]
pub struct PriceAlert {
    pub id: u64,
    pub symbol: String,
    pub condition: AlertCondition,
    pub triggered: bool,
    pub enabled: bool,
}

impl PriceAlert {
    /// A copy of this alert.
    pub fn duplicate(&self) -> (r: PriceAlert)
        ensures
            r == *self,
    {
        PriceAlert {
            id: self.id,
            symbol: self.symbol.clone(),
            condition: self.condition,
            triggered: self.triggered,
            enabled: self.enabled,
        }
    }
}

/// A copy of a list of quotes.
pub fn copy_quotes(v: &Vec<MarketQuote>) -> (r: Vec<MarketQuote>)
    ensures
        r@ == v@,
{
    let mut r: Vec<MarketQuote> = Vec::new();
    let mut i: usize = 0;
    while i < v.len()
        invariant
            i <= v@.len(),
            r@ == v@.take(i as int),
        decreases v.len() - i,
    {
        r.push(v[i].duplicate());
        assert(v@.take(i + 1) =~= v@.take(i as int).push(v@[i as int]));
        i = i + 1;
    }
    assert(v@.take(v@.len() as int) =~= v@);
    r
}

/// A copy of a list of news items.
pub fn copy_news(v: &Vec<YahooNews>) -> (r: Vec<YahooNews>)
    ensures
        r@ == v@,
{
    let mut r: Vec<YahooNews> = Vec::new();
    let mut i: usize = 0;
    while i < v.len()
        invariant
            i <= v@.len(),
            r@ == v@.take(i as int),
        decreases v.len() - i,
    {
        r.push(v[i].duplicate());
        assert(v@.take(i + 1) =~= v@.take(i as int).push(v@[i as int]));
        i = i + 1;
    }
    assert(v@.take(v@.len() as int) =~= v@);
    r
}

/// A copy of a list of alerts.
pub fn copy_alerts(v: &Vec<PriceAlert>) -> (r: Vec<PriceAlert>)
    ensures
        r@ == v@,
{
    let mut r: Vec<PriceAlert> = Vec::new();
    let mut i: usize = 0;
    while i < v.len()
        invariant
            i <= v@.len(),
            r@ == v@.take(i as int),
        decreases v.len() - i,
    {
        r.push(v[i].duplicate());
        assert(v@.take(i + 1) =~= v@.take(i as int).push(v@[i as int]));
        i = i + 1;
    }
    assert(v@.take(v@.len() as int) =~= v@);
    r
}

// ===================== error messages =====================

pub open spec fn friendly_message(err: Seq<char>) -> Seq<char> {
    if contains_text(err, "dns error"@) || contains_text(err, "failed to lookup"@) {
        "You're offline. Please check your internet connection."@
    } else if contains_text(err, "timeout"@) {
        "The request took too long. Try again in a moment."@
    } else if contains_text(err, "connection refused"@) {
        "Unable to reach the server right now."@
    } else {
        "Something went wrong while fetching market data."@
    }
}

/// The sentence shown to the user for a failed request, chosen by what the
/// error's text mentions.
pub fn user_friendly_error_message(err: &str) -> (m: &'static str)
    ensures
        m@ == friendly_message(err@),
{
    if contains_str(err, "dns error") || contains_str(err, "failed to lookup") {
        "You're offline. Please check your internet connection."
    } else if contains_str(err, "timeout") {
        "The request took too long. Try again in a moment."
    } else if contains_str(err, "connection refused") {
        "Unable to reach the server right now."
    } else {
        "Something went wrong while fetching market data."
    }
}

// ===================== amounts =====================

/// `s` with `sep` between each group of three characters, counted from the right.
pub open spec fn group_thousands(s: Seq<char>, sep: Seq<char>) -> Seq<char>
    decreases s.len(),
{
    if s.len() <= 3 {
        s
    } else {
        group_thousands(s.take(s.len() - 3), sep) + sep + s.skip(s.len() - 3)
    }
}

fn push_grouped(out: &mut String, v: &Vec<char>, end: usize, sep: &Vec<char>)
    requires
        end <= v@.len(),
    ensures
        final(out)@ == old(out)@ + group_thousands(v@.take(end as int), sep@),
    decreases end,
{
    let ghost s = v@.take(end as int);
    if end <= 3 {
        push_chars(out, v, 0, end);
        assert(v@.subrange(0, end as int) =~= s);
    } else {
        push_grouped(out, v, end - 3, sep);
        push_chars(out, sep, 0, sep.len());
        push_chars(out, v, end - 3, end);
        assert(s.take(s.len() - 3) =~= v@.take(end - 3));
        assert(s.skip(s.len() - 3) =~= v@.subrange(end - 3, end as int));
        assert(sep@.subrange(0, sep@.len() as int) =~= sep@);
        assert(final(out)@ =~= old(out)@ + group_thousands(s, sep@));
    }
}

/// `number` with `sep` inserted between groups of three characters counted
/// from the right. The characters of `sep` come out in reverse order, as the
/// whole text is built backwards and turned around at the end.
pub fn add_thousand_separator(number: &str, sep: &str) -> (r: String)
    ensures
        r@ == group_thousands(number@, sep@.reverse()),
{
    let v = chars_of(number);
    let s = chars_of(sep);
    let mut rs: Vec<char> = Vec::new();
    let mut i: usize = s.len();
    while i > 0
        invariant
            i <= s@.len(),
            rs@ == s@.subrange(i as int, s@.len() as int).reverse(),
        decreases i,
    {
        i = i - 1;
        rs.push(s[i]);
        assert(s@.subrange(i as int, s@.len() as int).reverse() =~= s@.subrange(
            i + 1,
            s@.len() as int,
        ).reverse().push(s@[i as int]));
    }
    assert(s@.subrange(0, s@.len() as int) =~= s@);
    let mut out = String::new();
    push_grouped(&mut out, &v, v.len(), &rs);
    assert(v@.take(v@.len() as int) =~= v@);
    assert(out@ =~= group_thousands(number@, sep@.reverse()));
    out
}

/// Characters other than `c`.
pub open spec fn other_char(c: char) -> spec_fn(char) -> bool {
    |x: char| x != c
}

proof fn lemma_filter_keeps_all(s: Seq<char>, c: char)
    requires
        !s.contains(c),
    ensures
        s.filter(other_char(c)) == s,
    decreases s.len(),
{
    reveal(Seq::filter);
    if s.len() > 0 {
        assert(!s.drop_last().contains(c)) by {
            if s.drop_last().contains(c) {
                let k = choose|k: int| 0 <= k < s.drop_last().len() && s.drop_last()[k] == c;
                assert(s[k] == c);
            }
        }
        lemma_filter_keeps_all(s.drop_last(), c);
        assert(s.last() != c) by {
            assert(s[s.len() - 1] == s.last());
        }
        assert(s.drop_last().push(s.last()) =~= s);
    }
}

/// Grouping only inserts separators: taking the separator's character out
/// of the grouped text gives back the text that was grouped, where the
/// separator is one character that the text does not hold.
pub proof fn law_grouping_keeps_digits(s: Seq<char>, c: char)
    requires
        !s.contains(c),
    ensures
        group_thousands(s, seq![c]).filter(other_char(c)) == s,
    decreases s.len(),
{
    if s.len() <= 3 {
        lemma_filter_keeps_all(s, c);
    } else {
        let head = s.take(s.len() - 3);
        let tail = s.skip(s.len() - 3);
        assert(!head.contains(c)) by {
            if head.contains(c) {
                let k = choose|k: int| 0 <= k < head.len() && head[k] == c;
                assert(s[k] == c);
            }
        }
        assert(!tail.contains(c)) by {
            if tail.contains(c) {
                let k = choose|k: int| 0 <= k < tail.len() && tail[k] == c;
                assert(s[s.len() - 3 + k] == c);
            }
        }
        law_grouping_keeps_digits(head, c);
        lemma_filter_keeps_all(tail, c);
        let g = group_thousands(head, seq![c]);
        Seq::filter_distributes_over_add(g + seq![c], tail, other_char(c));
        Seq::filter_distributes_over_add(g, seq![c], other_char(c));
        reveal(Seq::filter);
        assert(seq![c].drop_last() =~= Seq::<char>::empty());
        assert(Seq::<char>::empty().filter(other_char(c)) =~= Seq::<char>::empty());
        assert(seq![c].filter(other_char(c)) =~= Seq::<char>::empty());
        assert(head + tail =~= s);
    }
}

/// The digits before the first `.` of `formatted`, and what lies between
/// that `.` and the next one (or the end), where there is a `.`.
pub open spec fn split_decimal(formatted: Seq<char>) -> (Seq<char>, Option<Seq<char>>) {
    if contains_text(formatted, "."@) {
        let i = choose|i: int| crate::text::first_occurrence(formatted, "."@, i);
        (formatted.take(i), Some(before_first(formatted.skip(i + 1), "."@)))
    } else {
        (formatted, None)
    }
}

/// A number written with `decimal_sep` and `thousand_sep`, from the text
/// `formatted` that writes it with a `.` as decimal point.
pub open spec fn number_text(
    formatted: Seq<char>,
    decimals: nat,
    decimal_sep: Seq<char>,
    thousand_sep: Seq<char>,
) -> Seq<char> {
    let (int_part, dec_part) = split_decimal(formatted);
    let grouped = group_thousands(int_part, thousand_sep.reverse());
    match dec_part {
        Some(d) => if decimals > 0 {
            grouped + decimal_sep + d
        } else {
            grouped
        },
        None => grouped,
    }
}

/// Rewrites `formatted`, the text of a number with `decimals` decimals and a
/// `.` as decimal point (`format!("{value:.decimals$}")`), with the given
/// decimal and thousands separators.
pub fn format_number(formatted: &str, decimals: usize, decimal_sep: &str, thousand_sep: &str) -> (r:
    String)
    ensures
        r@ == number_text(formatted@, decimals as nat, decimal_sep@, thousand_sep@),
{
    let v = chars_of(formatted);
    let dot = chars_of(".");
    proof {
        reveal_strlit(".");
    }
    match crate::text::find_text(&v, &dot) {
        Some(i) => {
            assert(dot@.len() == 1);
            assert(i < v.len());
            let int_part = crate::text::string_from_chars(&v, 0, i);
            let rest = crate::text::string_from_chars(&v, i + 1, v.len());
            let dec = text_before(rest.as_str(), ".");
            let mut out = add_thousand_separator(int_part.as_str(), thousand_sep);
            proof {
                let c = choose|k: int| crate::text::first_occurrence(formatted@, "."@, k);
                assert(crate::text::first_occurrence(formatted@, "."@, i as int));
                assert(c == i);
                assert(int_part@ =~= formatted@.take(i as int));
                assert(rest@ =~= formatted@.skip(i + 1));
            }
            if decimals > 0 {
                out.append(decimal_sep);
                out.append(dec.as_str());
            }
            out
        },
        None => add_thousand_separator(formatted, thousand_sep),
    }
}

/// How amounts in a currency are written: its symbol, number of decimals,
/// decimal separator, thousands separator, and whether the symbol comes first.
pub open spec fn currency_style(currency: Seq<char>) -> (Seq<char>, nat, Seq<char>, Seq<char>, bool) {
    if currency == "USD"@ {
        ("$"@, 2, "."@, ","@, true)
    } else if currency == "BRL"@ {
        ("R$"@, 2, ","@, "."@, true)
    } else if currency == "EUR"@ {
        ("€"@, 2, ","@, "."@, false)
    } else if currency == "GBP"@ {
        ("£"@, 2, "."@, ","@, true)
    } else if currency == "JPY"@ {
        ("¥"@, 0, "."@, ","@, true)
    } else if currency == "CHF"@ {
        ("CHF"@, 2, "."@, "'"@, false)
    } else if currency == "CAD"@ {
        ("C$"@, 2, "."@, ","@, true)
    } else if currency == "AUD"@ {
        ("A$"@, 2, "."@, ","@, true)
    } else if currency == "CNY"@ {
        ("¥"@, 2, "."@, ","@, true)
    } else if currency == "INR"@ {
        ("₹"@, 2, "."@, ","@, true)
    } else {
        (currency, 2, "."@, ","@, true)
    }
}

/// The number of decimals with which amounts in `currency` are written.
pub fn currency_decimals(currency: &str) -> (d: usize)
    ensures
        d == currency_style(currency@).1,
{
    proof {
        reveal_strlit("USD");
        reveal_strlit("BRL");
        reveal_strlit("EUR");
        reveal_strlit("GBP");
        reveal_strlit("JPY");
        reveal_strlit("CHF");
        reveal_strlit("CAD");
        reveal_strlit("AUD");
        reveal_strlit("CNY");
        reveal_strlit("INR");
    }
    if same_text(currency, "JPY") {
        assert("JPY"@[0] != "USD"@[0]);
        assert("JPY"@[0] != "BRL"@[0]);
        assert("JPY"@[0] != "EUR"@[0]);
        assert("JPY"@[0] != "GBP"@[0]);
        0
    } else {
        2
    }
}

/// An amount in `currency`: `formatted` is the absolute value written with
/// the currency's number of decimals and a `.` as decimal point,
/// `is_negative` whether the amount's sign is negative.
pub open spec fn currency_text(currency: Seq<char>, formatted: Seq<char>, is_negative: bool) -> Seq<
    char,
> {
    let (symbol, decimals, decimal_sep, thousand_sep, symbol_before) = currency_style(currency);
    let number = number_text(formatted, decimals, decimal_sep, thousand_sep);
    let body = if symbol_before {
        symbol + number
    } else {
        number + " "@ + symbol
    };
    if is_negative {
        "-"@ + body
    } else {
        body
    }
}

/// Writes an amount in the style of its currency (see `currency_text`).
pub fn format_currency(currency: &str, formatted: &str, is_negative: bool) -> (r: String)
    ensures
        r@ == currency_text(currency@, formatted@, is_negative),
{
    let (symbol, decimals, decimal_sep, thousand_sep, symbol_before): (&str, usize, &str, &str, bool) =
        if same_text(currency, "USD") {
        ("$", 2, ".", ",", true)
    } else if same_text(currency, "BRL") {
        ("R$", 2, ",", ".", true)
    } else if same_text(currency, "EUR") {
        ("€", 2, ",", ".", false)
    } else if same_text(currency, "GBP") {
        ("£", 2, ".", ",", true)
    } else if same_text(currency, "JPY") {
        ("¥", 0, ".", ",", true)
    } else if same_text(currency, "CHF") {
        ("CHF", 2, ".", "'", false)
    } else if same_text(currency, "CAD") {
        ("C$", 2, ".", ",", true)
    } else if same_text(currency, "AUD") {
        ("A$", 2, ".", ",", true)
    } else if same_text(currency, "CNY") {
        ("¥", 2, ".", ",", true)
    } else if same_text(currency, "INR") {
        ("₹", 2, ".", ",", true)
    } else {
        (currency, 2, ".", ",", true)
    };
    let number = format_number(formatted, decimals, decimal_sep, thousand_sep);
    let mut body = String::new();
    if symbol_before {
        body.append(symbol);
        body.append(number.as_str());
    } else {
        body.append(number.as_str());
        body.append(" ");
        body.append(symbol);
    }
    if is_negative {
        let mut r = String::new();
        r.append("-");
        r.append(body.as_str());
        r
    } else {
        body
    }
}

// ===================== ages =====================

/// How long ago something happened, `diff` seconds before now.
pub open spec fn age_text(diff: nat) -> Seq<char> {
    if diff < 60 {
        "just now"@
    } else if diff < 3600 {
        let mins = diff / 60;
        if mins == 1 {
            "1 min ago"@
        } else {
            decimal(mins) + " min ago"@
        }
    } else if diff < 86400 {
        let hours = diff / 3600;
        if hours == 1 {
            "1 hour ago"@
        } else {
            decimal(hours) + " hours ago"@
        }
    } else if diff < 172800 {
        "yesterday"@
    } else {
        let days = diff / 86400;
        if days < 7 {
            decimal(days) + " days ago"@
        } else if days < 14 {
            "1 week ago"@
        } else {
            decimal(days / 7) + " weeks ago"@
        }
    }
}

/// The age of a publication at `timestamp` seen at `now` (both in seconds
/// since the Unix epoch); one from the future is "just now".
pub open spec fn publish_time_text(timestamp: u64, now: u64) -> Seq<char> {
    if timestamp > now {
        "just now"@
    } else {
        age_text((now - timestamp) as nat)
    }
}

fn number_then(n: u64, suffix: &str) -> (r: String)
    ensures
        r@ == decimal(n as nat) + suffix@,
{
    let mut s = String::new();
    push_decimal(&mut s, n);
    s.append(suffix);
    assert(s@ =~= decimal(n as nat) + suffix@);
    s
}

/// Describes the age of a publication at `timestamp` as seen at `now`.
pub fn format_publish_time_at(timestamp: u64, now: u64) -> (r: String)
    ensures
        r@ == publish_time_text(timestamp, now),
{
    if timestamp > now {
        return String::from_str("just now");
    }
    let diff = now - timestamp;
    if diff < 60 {
        String::from_str("just now")
    } else if diff < 3600 {
        let mins = diff / 60;
        if mins == 1 {
            String::from_str("1 min ago")
        } else {
            number_then(mins, " min ago")
        }
    } else if diff < 86400 {
        let hours = diff / 3600;
        if hours == 1 {
            String::from_str("1 hour ago")
        } else {
            number_then(hours, " hours ago")
        }
    } else if diff < 172_800 {
        String::from_str("yesterday")
    } else {
        let days = diff / 86400;
        if days < 7 {
            number_then(days, " days ago")
        } else if days < 14 {
            String::from_str("1 week ago")
        } else {
            number_then(days / 7, " weeks ago")
        }
    }
}

/// `SystemTime::now()`, as whole seconds since the Unix epoch (zero for a
/// clock set before it). Nothing is stated of the value: it is the time.
#[verifier::external_body]
fn unix_now() -> u64 {
    std::time::SystemTime::now().duration_since(std::time::UNIX_EPOCH).unwrap_or_default().as_secs()
}

/// Describes the age of a publication at `timestamp` as seen now.
pub fn format_publish_time(timestamp: u64) -> (r: String)
    ensures
        exists|now: u64| r@ == publish_time_text(timestamp, now),
{
    let now = unix_now();
    format_publish_time_at(timestamp, now)
}

// ===================== endpoints and search results =====================

/// Address of the screener listing the `count` most active assets.
pub fn most_active_url(count: u64) -> (r: String)
    ensures
        r@ == "https://query1.finance.yahoo.com/v1/finance/screener/predefined/saved?count="@
            + decimal(count as nat) + "&scrIds=most_actives"@,
{
    let mut s = String::from_str(
        "https://query1.finance.yahoo.com/v1/finance/screener/predefined/saved?count=",
    );
    push_decimal(&mut s, count);
    s.append("&scrIds=most_actives");
    s
}

/// Address of the search for `news_per_symbol` news items about `symbol`.
pub fn news_url(symbol: &str, news_per_symbol: u64) -> (r: String)
    ensures
        r@ == "https://query1.finance.yahoo.com/v1/finance/search?q="@ + symbol@ + "&newsCount="@
            + decimal(news_per_symbol as nat) + "&quotesCount=0"@,
{
    let mut s = String::from_str("https://query1.finance.yahoo.com/v1/finance/search?q=");
    s.append(symbol);
    s.append("&newsCount=");
    push_decimal(&mut s, news_per_symbol);
    s.append("&quotesCount=0");
    s
}

/// Address of the search for assets matching `query`.
pub fn symbol_search_url(query: &str) -> (r: String)
    ensures
        r@ == "https://query1.finance.yahoo.com/v1/finance/search?q="@ + query@
            + "&quotesCount=6&newsCount=0"@,
{
    let mut s = String::from_str("https://query1.finance.yahoo.com/v1/finance/search?q=");
    s.append(query);
    s.append("&quotesCount=6&newsCount=0");
    s
}

/// Address of the daily chart of `symbol`.
pub fn chart_url(symbol: &str) -> (r: String)
    ensures
        r@ == "https://query1.finance.yahoo.com/v8/finance/chart/"@ + symbol@
            + "?range=1d&interval=1d"@,
{
    let mut s = String::from_str("https://query1.finance.yahoo.com/v8/finance/chart/");
    s.append(symbol);
    s.append("?range=1d&interval=1d");
    s
}

/// The separator between a symbol and its name in a search result.
pub open spec fn label_separator() -> Seq<char> {
    " — "@
}

pub open spec fn label_text(symbol: Seq<char>, short_name: Option<Seq<char>>) -> Seq<char> {
    match short_name {
        Some(n) => symbol + label_separator() + n,
        None => symbol,
    }
}

/// The text under which a search result is offered: the symbol, followed by
/// the asset's short name where the search gave one.
pub fn search_label(symbol: String, short_name: Option<String>) -> (r: String)
    ensures
        r@ == label_text(symbol@, crate::text::opt_text(short_name)),
{
    match short_name {
        Some(n) => {
            let mut s = symbol;
            s.append(" — ");
            s.append(n.as_str());
            s
        },
        None => symbol,
    }
}

/// The symbol that a search result's label names: what comes before the
/// first separator.
pub fn symbol_from_label(label: &str) -> (r: String)
    ensures
        r@ == before_first(label@, label_separator()),
{
    text_before(label, " — ")
}

/// A search result's label gives back its symbol, where the symbol holds no
/// em dash (the middle character of the separator).
pub proof fn law_label_roundtrip(symbol: Seq<char>, short_name: Option<Seq<char>>)
    requires
        !symbol.contains('—'),
    ensures
        before_first(label_text(symbol, short_name), label_separator()) == symbol,
{
    reveal_strlit(" — ");
    let sep = label_separator();
    let l = label_text(symbol, short_name);
    let n = symbol.len() as int;
    assert forall|j: int| 0 <= j < n implies !crate::text::occurs_at(l, sep, j) by {
        if crate::text::occurs_at(l, sep, j) {
            assert(l.subrange(j, j + 3)[1] == '—');
            if j + 1 < n {
                assert(symbol[j + 1] == '—');
            } else {
                // j == n - 1: the character after the symbol is a space
                assert(l[j + 1] == sep[0]);
            }
        }
    }
    match short_name {
        Some(name) => {
            assert(l.subrange(n, n + 3) =~= sep);
            assert(crate::text::first_occurrence(l, sep, n));
            let c = choose|i: int| crate::text::first_occurrence(l, sep, i);
            assert(c == n) by {
                if c < n {
                } else if c > n {
                }
            }
            assert(l.take(n) =~= symbol);
        },
        None => {
            assert forall|j: int| !crate::text::occurs_at(l, sep, j) by {
                if 0 <= j < n {
                } else if j >= n {
                }
            }
        },
    }
}

/// The quote that the screener reports, with the defaults for what it leaves
/// out: name "Unknown", currency "USD", and zero (whose bit pattern is 0)
/// for the numbers.
pub fn quote_from_screener(
    symbol: String,
    short_name: Option<String>,
    price: Option<u64>,
    change: Option<u64>,
    change_percent: Option<u64>,
    currency: Option<String>,
) -> (q: MarketQuote)
    ensures
        q.symbol == symbol,
        q.name@ == (match short_name {
            Some(n) => n@,
            None => "Unknown"@,
        }),
        q.price == (match price {
            Some(p) => p,
            None => 0u64,
        }),
        q.change == (match change {
            Some(c) => c,
            None => 0u64,
        }),
        q.change_percent == (match change_percent {
            Some(c) => c,
            None => 0u64,
        }),
        q.currency@ == (match currency {
            Some(c) => c@,
            None => "USD"@,
        }),
{
    MarketQuote {
        name: match short_name {
            Some(n) => n,
            None => String::from_str("Unknown"),
        },
        price: match price {
            Some(p) => p,
            None => 0,
        },
        change: match change {
            Some(c) => c,
            None => 0,
        },
        change_percent: match change_percent {
            Some(c) => c,
            None => 0,
        },
        currency: match currency {
            Some(c) => c,
            None => String::from_str("USD"),
        },
        symbol,
    }
}

/// The quote built from a daily chart: the symbol doubles as the name, and
/// the currency is "USD" where the chart gives none.
pub fn quote_from_chart(
    symbol: String,
    currency: Option<String>,
    price: u64,
    change: u64,
    change_percent: u64,
) -> (q: MarketQuote)
    ensures
        q.symbol == symbol,
        q.name@ == symbol@,
        q.price == price,
        q.change == change,
        q.change_percent == change_percent,
        q.currency@ == (match currency {
            Some(c) => c@,
            None => "USD"@,
        }),
{
    MarketQuote {
        name: copy_string(&symbol),
        price,
        change,
        change_percent,
        currency: match currency {
            Some(c) => c,
            None => String::from_str("USD"),
        },
        symbol,
    }
}

} // verus!
