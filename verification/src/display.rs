//! What the panel button and the popup show, decided from the state; the
//! widgets themselves are drawn by the surrounding program.
use vstd::prelude::*;

use crate::app::{AppModel, MAX_WALLETS, Message, byte_len, elapsed_secs, NANOS_PER_SECOND};
use crate::config::{Config, PopupTab};
use crate::marketwatch::{
    AlertCondition, YahooNews, format_publish_time, format_publish_time_at, publish_time_text,
};
use crate::text::opt_text;

verus! {

/// What the panel button shows.
#[derive(Debug, Clone, Copy, PartialEq, Eq, Structural)]
pub enum AppletContent {
    /// The error sign.
    Error,
    /// The applet's icon alone.
    IconOnly,
    /// The quote at this position, stacked for a vertical panel.
    Vertical(usize),
    /// The quote at this position, in a row for a horizontal panel.
    Horizontal(usize),
    /// The loading sign.
    Loading,
}

pub open spec fn applet_content_spec(
    show_only_icon: bool,
    quotes_len: nat,
    current_index: usize,
    is_horizontal: bool,
    has_error: bool,
) -> AppletContent {
    if has_error {
        AppletContent::Error
    } else if show_only_icon {
        AppletContent::IconOnly
    } else if current_index < quotes_len {
        if !is_horizontal {
            AppletContent::Vertical(current_index)
        } else {
            AppletContent::Horizontal(current_index)
        }
    } else {
        AppletContent::Loading
    }
}

/// What the panel button shows: an error first, then the icon where only
/// the icon is wanted, then the quote on show where there is one.
pub fn applet_content(
    config: &Config,
    quotes_len: usize,
    current_index: usize,
    is_horizontal: bool,
    has_error: bool,
) -> (r: AppletContent)
    ensures
        r == applet_content_spec(
            config.show_only_icon,
            quotes_len as nat,
            current_index,
            is_horizontal,
            has_error,
        ),
{
    if has_error {
        return AppletContent::Error;
    }
    if config.show_only_icon {
        return AppletContent::IconOnly;
    }
    if current_index < quotes_len {
        if !is_horizontal {
            AppletContent::Vertical(current_index)
        } else {
            AppletContent::Horizontal(current_index)
        }
    } else {
        AppletContent::Loading
    }
}

/// What the market overview shows.
#[derive(Debug, Clone, Copy, PartialEq, Eq, Structural)]
pub enum QuotesState {
    Loading,
    Error,
    Ready,
}

/// The overview shows the error where there is one, else the quotes where
/// there are any, else that it is loading.
pub fn derive_state(quotes_len: usize, has_error: bool) -> (r: QuotesState)
    ensures
        r == (if has_error {
            QuotesState::Error
        } else if quotes_len == 0 {
            QuotesState::Loading
        } else {
            QuotesState::Ready
        }),
{
    if has_error {
        QuotesState::Error
    } else if quotes_len == 0 {
        QuotesState::Loading
    } else {
        QuotesState::Ready
    }
}

/// How many news items are listed before the list is expanded.
pub const NEWS_PREVIEW_COUNT: usize = 3;

/// How many of `len` news items are listed.
pub fn visible_news_count(len: usize, expanded: bool) -> (r: usize)
    ensures
        r == (if expanded || len <= NEWS_PREVIEW_COUNT {
            len
        } else {
            NEWS_PREVIEW_COUNT
        }),
{
    if expanded || len <= NEWS_PREVIEW_COUNT {
        len
    } else {
        NEWS_PREVIEW_COUNT
    }
}

/// Whether there are more news items than the preview lists.
pub fn has_more_news(len: usize) -> (r: bool)
    ensures
        r == (len > NEWS_PREVIEW_COUNT),
{
    len > NEWS_PREVIEW_COUNT
}

pub open spec fn meta_text(publisher: Option<Seq<char>>, time: Seq<char>) -> Seq<char> {
    let p = match publisher {
        Some(p) => p,
        None => "Unknown source"@,
    };
    if time.len() == 0 {
        p
    } else {
        p + " · "@ + time
    }
}

/// The line under a news title: its publisher ("Unknown source" where
/// there is none), and after a dot the text `time` of its age where that is
/// not empty.
pub fn news_meta_text(publisher: &Option<String>, time: &str) -> (r: String)
    ensures
        r@ == meta_text(opt_text(*publisher), time@),
{
    let mut r = match publisher {
        Some(p) => p.clone(),
        None => String::from_str("Unknown source"),
    };
    if !time.is_empty() {
        r.append(" · ");
        r.append(time);
    }
    r
}

/// The age text of a news item: empty where it has no publication time.
pub open spec fn news_time_text(item: YahooNews, now: u64) -> Seq<char> {
    match item.publish_time {
        Some(t) => publish_time_text(t, now),
        None => Seq::empty(),
    }
}

/// The line under a news title, as seen at `now` (seconds since the Unix epoch).
pub fn news_meta_at(item: &YahooNews, now: u64) -> (r: String)
    ensures
        r@ == meta_text(opt_text(item.publisher), news_time_text(*item, now)),
{
    let time = match item.publish_time {
        Some(t) => format_publish_time_at(t, now),
        None => String::new(),
    };
    news_meta_text(&item.publisher, time.as_str())
}

/// The line under a news title, as seen now.
pub fn news_meta(item: &YahooNews) -> (r: String)
    ensures
        exists|now: u64| r@ == meta_text(opt_text(item.publisher), news_time_text(*item, now)),
{
    let time = match item.publish_time {
        Some(t) => format_publish_time(t),
        None => String::new(),
    };
    let r = news_meta_text(&item.publisher, time.as_str());
    proof {
        match item.publish_time {
            Some(t) => {
                let now = choose|now: u64| time@ == publish_time_text(t, now);
                assert(r@ == meta_text(opt_text(item.publisher), news_time_text(*item, now)));
            },
            None => {
                assert(r@ == meta_text(opt_text(item.publisher), news_time_text(*item, 0)));
            },
        }
    }
    r
}

/// What the section for adding an asset to a wallet shows.
#[derive(Debug, Clone, Copy, PartialEq, Eq, Structural)]
pub enum AddAssetState {
    /// The wallet is full.
    LimitReached,
    /// A search is under way.
    Searching,
    /// The search results, to pick from.
    Results,
    /// The search found nothing.
    NoResults,
    /// Only the search field.
    Idle,
}

/// The section for adding an asset shows, in this order of precedence: that
/// the wallet is full, that a search runs, the results, that a search of
/// two or more bytes found nothing.
pub fn add_asset_state(limit_reached: bool, loading: bool, results_len: usize, input: &str) -> (r:
    AddAssetState)
    ensures
        r == (if limit_reached {
            AddAssetState::LimitReached
        } else if loading {
            AddAssetState::Searching
        } else if results_len > 0 {
            AddAssetState::Results
        } else if byte_len(input@) >= 2 {
            AddAssetState::NoResults
        } else {
            AddAssetState::Idle
        }),
{
    if limit_reached {
        AddAssetState::LimitReached
    } else if loading {
        AddAssetState::Searching
    } else if results_len > 0 {
        AddAssetState::Results
    } else if input.len() >= 2 {
        AddAssetState::NoResults
    } else {
        AddAssetState::Idle
    }
}

/// What the list of a wallet's assets shows.
#[derive(Debug, Clone, Copy, PartialEq, Eq, Structural)]
pub enum PortfolioState {
    /// That the wallet is empty.
    Empty,
    /// A loading row per symbol.
    Loading,
    /// A row per quote.
    Quotes,
}

/// The wallet's list is empty where there are neither symbols nor quotes,
/// shows its symbols as loading until quotes arrive, then the quotes.
pub fn portfolio_state(symbols_len: usize, quotes_len: usize) -> (r: PortfolioState)
    ensures
        r == (if symbols_len == 0 && quotes_len == 0 {
            PortfolioState::Empty
        } else if quotes_len == 0 {
            PortfolioState::Loading
        } else {
            PortfolioState::Quotes
        }),
{
    if symbols_len == 0 && quotes_len == 0 {
        PortfolioState::Empty
    } else if quotes_len == 0 {
        PortfolioState::Loading
    } else {
        PortfolioState::Quotes
    }
}

/// The part of the popup below the header.
#[derive(Debug, Clone, Copy, PartialEq, Eq, Structural)]
pub enum CardView {
    /// The settings.
    Settings,
    /// The alerts of the wallet on show.
    Alerts,
    /// The quotes of the market overview.
    Quotes,
    /// The assets of the wallet on show.
    Wallet,
}

/// The settings and alerts tabs show themselves; any other tab shows the
/// overview's quotes on screen 0 and the wallet on any other screen.
pub fn card_view(active_tab: PopupTab, wallet_index: usize) -> (r: CardView)
    ensures
        r == (if active_tab == PopupTab::Settings {
            CardView::Settings
        } else if active_tab == PopupTab::Alerts {
            CardView::Alerts
        } else if wallet_index == 0 {
            CardView::Quotes
        } else {
            CardView::Wallet
        }),
{
    match active_tab {
        PopupTab::Settings => CardView::Settings,
        PopupTab::Alerts => CardView::Alerts,
        _ => {
            if wallet_index == 0 {
                CardView::Quotes
            } else {
                CardView::Wallet
            }
        },
    }
}

/// The header's buttons that act on screens and wallets (previous, next,
/// rename, delete, refresh) work outside the alerts tab only.
pub fn navigation_enabled(active_tab: PopupTab) -> (r: bool)
    ensures
        r == (active_tab != PopupTab::Alerts),
{
    active_tab != PopupTab::Alerts
}

/// The header offers to delete the wallet on show, and not the overview.
pub fn delete_wallet_shown(current_index: usize) -> (r: bool)
    ensures
        r == (current_index > 0),
{
    current_index > 0
}

/// Fired alerts are announced to the user only where alerts are enabled in
/// the settings; they are taken out either way.
pub fn alert_notifications_on(config: &Config) -> (r: bool)
    ensures
        r == config.alerts_enabled,
{
    config.alerts_enabled
}

/// The title of the popup's header.
#[derive(Debug, Clone, Copy, PartialEq, Eq, Structural)]
pub enum HeaderTitle {
    /// "Market Overview".
    Overview,
    /// The field for a new wallet name.
    Renaming,
    /// The wallet's name with its edit button.
    Named,
}

/// The header names the overview on screen 0; a wallet's screen shows its
/// name, or the field to rename it while renaming.
pub fn header_title(current_index: usize, rename_mode: bool) -> (r: HeaderTitle)
    ensures
        r == (if current_index == 0 {
            HeaderTitle::Overview
        } else if rename_mode {
            HeaderTitle::Renaming
        } else {
            HeaderTitle::Named
        }),
{
    if current_index == 0 {
        HeaderTitle::Overview
    } else if rename_mode {
        HeaderTitle::Renaming
    } else {
        HeaderTitle::Named
    }
}

/// The name shown for a wallet: its own, or "Wallet" where there is none.
pub fn wallet_title(name: Option<&str>) -> (r: &str)
    ensures
        r@ == (match name {
            Some(n) => n@,
            None => "Wallet"@,
        }),
{
    match name {
        Some(n) => n,
        None => "Wallet",
    }
}

/// A wallet can be added while there are fewer than the most allowed and
/// the alerts tab is not open.
pub fn add_wallet_enabled(wallet_count: usize, in_alerts: bool) -> (r: bool)
    ensures
        r == (wallet_count < MAX_WALLETS && !in_alerts),
{
    !(wallet_count >= MAX_WALLETS || in_alerts)
}

/// The line at the top of the popup: "Updated at" and the age of the data,
/// or nothing.
pub fn top_header_text(last_updated: Option<String>) -> (r: String)
    ensures
        r@ == (match last_updated {
            Some(t) => "Updated at "@ + t@,
            None => Seq::empty(),
        }),
{
    match last_updated {
        Some(t) => {
            let mut r = String::from_str("Updated at ");
            r.append(t.as_str());
            r
        },
        None => String::new(),
    }
}

impl AppModel {
    /// The age of the data of the screen on show, at `now_nanos` (monotonic)
    /// and `now_unix` (seconds since the Unix epoch): none where it is not cached.
    pub fn last_updated_text(&self, now_nanos: u64, now_unix: u64) -> (r: Option<String>)
        ensures
            match r {
                Some(t) => self@.fetch_times.contains_key(self@.wallet_index) && t@
                    == publish_time_text(
                    (if now_unix >= elapsed_secs(
                        self@.fetch_times[self@.wallet_index],
                        now_nanos,
                    ) {
                        now_unix - elapsed_secs(self@.fetch_times[self@.wallet_index], now_nanos)
                    } else {
                        0
                    }) as u64,
                    now_unix,
                ),
                None => !self@.fetch_times.contains_key(self@.wallet_index),
            },
    {
        match self.fetch_time_of_current() {
            Some(t) => {
                let elapsed = if now_nanos >= t {
                    (now_nanos - t) / NANOS_PER_SECOND
                } else {
                    0
                };
                let timestamp = now_unix.saturating_sub(elapsed);
                Some(format_publish_time_at(timestamp, now_unix))
            },
            None => None,
        }
    }
}

/// The alert conditions in the order of the form's drop-down.
pub open spec fn condition_index(c: AlertCondition) -> usize {
    match c {
        AlertCondition::PriceAbove(_) => 0,
        AlertCondition::PriceBelow(_) => 1,
        AlertCondition::VariationAbove(_) => 2,
        AlertCondition::VariationBelow(_) => 3,
        AlertCondition::TurnPositive => 4,
        AlertCondition::TurnNegative => 5,
    }
}

/// The position of a condition in the form's drop-down.
pub fn condition_to_index(condition: &AlertCondition) -> (r: usize)
    ensures
        r == condition_index(*condition),
{
    match condition {
        AlertCondition::PriceAbove(_) => 0,
        AlertCondition::PriceBelow(_) => 1,
        AlertCondition::VariationAbove(_) => 2,
        AlertCondition::VariationBelow(_) => 3,
        AlertCondition::TurnPositive => 4,
        AlertCondition::TurnNegative => 5,
    }
}

pub open spec fn condition_at(idx: usize, value: u64) -> AlertCondition {
    if idx == 0 {
        AlertCondition::PriceAbove(value)
    } else if idx == 1 {
        AlertCondition::PriceBelow(value)
    } else if idx == 2 {
        AlertCondition::VariationAbove(value)
    } else if idx == 3 {
        AlertCondition::VariationBelow(value)
    } else if idx == 4 {
        AlertCondition::TurnPositive
    } else {
        AlertCondition::TurnNegative
    }
}

/// The condition picked at position `idx` of the drop-down, with threshold
/// `value` (the bit pattern of what the value field reads, 0.0 where it
/// reads no number); positions past the end pick "turns negative".
pub fn index_to_condition(idx: usize, value: u64) -> (r: AlertCondition)
    ensures
        r == condition_at(idx, value),
{
    if idx == 0 {
        AlertCondition::PriceAbove(value)
    } else if idx == 1 {
        AlertCondition::PriceBelow(value)
    } else if idx == 2 {
        AlertCondition::VariationAbove(value)
    } else if idx == 3 {
        AlertCondition::VariationBelow(value)
    } else if idx == 4 {
        AlertCondition::TurnPositive
    } else {
        AlertCondition::TurnNegative
    }
}

/// A position of the drop-down and back give the same kind of condition.
pub proof fn law_condition_index_roundtrip(c: AlertCondition, value: u64)
    ensures
        condition_index(condition_at(condition_index(c), value)) == condition_index(c),
        condition_at(condition_index(c), value) == (match c {
            AlertCondition::PriceAbove(_) => AlertCondition::PriceAbove(value),
            AlertCondition::PriceBelow(_) => AlertCondition::PriceBelow(value),
            AlertCondition::VariationAbove(_) => AlertCondition::VariationAbove(value),
            AlertCondition::VariationBelow(_) => AlertCondition::VariationBelow(value),
            other => other,
        }),
{
}

pub open spec fn condition_needs_value(c: AlertCondition) -> bool {
    !(c is TurnPositive || c is TurnNegative)
}

/// Whether the condition takes a threshold.
pub fn needs_value(condition: &AlertCondition) -> (r: bool)
    ensures
        r == condition_needs_value(*condition),
{
    match condition {
        AlertCondition::TurnPositive | AlertCondition::TurnNegative => false,
        _ => true,
    }
}

pub open spec fn with_threshold(c: AlertCondition, value: u64) -> AlertCondition {
    match c {
        AlertCondition::PriceAbove(_) => AlertCondition::PriceAbove(value),
        AlertCondition::PriceBelow(_) => AlertCondition::PriceBelow(value),
        AlertCondition::VariationAbove(_) => AlertCondition::VariationAbove(value),
        AlertCondition::VariationBelow(_) => AlertCondition::VariationBelow(value),
        other => other,
    }
}

/// The message that the form's "Add" button sends, where it can send one:
/// an asset must be selected, and a condition with a threshold needs the
/// value field to read a number (`parsed`, its bit pattern).
pub fn build_add_alert_message(
    wallet_index: usize,
    selected_symbol: Option<String>,
    condition: &AlertCondition,
    parsed: Option<u64>,
) -> (r: Option<Message>)
    ensures
        match r {
            Some(Message::AddAlert { wallet_index: w, symbol, condition: c }) => {
                &&& selected_symbol is Some
                &&& symbol == selected_symbol->0
                &&& w == wallet_index
                &&& condition_needs_value(*condition) ==> parsed is Some && c == with_threshold(
                    *condition,
                    parsed->0,
                )
                &&& !condition_needs_value(*condition) ==> c == *condition
            },
            Some(_) => false,
            None => selected_symbol is None || (condition_needs_value(*condition)
                && parsed is None),
        },
{
    let symbol = match selected_symbol {
        Some(s) => s,
        None => return None,
    };
    let final_condition = if needs_value(condition) {
        let val = match parsed {
            Some(v) => v,
            None => return None,
        };
        match condition {
            AlertCondition::PriceAbove(_) => AlertCondition::PriceAbove(val),
            AlertCondition::PriceBelow(_) => AlertCondition::PriceBelow(val),
            AlertCondition::VariationAbove(_) => AlertCondition::VariationAbove(val),
            AlertCondition::VariationBelow(_) => AlertCondition::VariationBelow(val),
            other => *other,
        }
    } else {
        *condition
    };
    Some(Message::AddAlert { wallet_index, symbol, condition: final_condition })
}

} // verus!
