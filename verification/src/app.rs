//! The applet's state and the rules by which it answers each message.
//!
//! `AppModel::update` takes a message and the time, changes the state, and
//! returns the commands that the surrounding program carries out (fetching
//! data, saving, opening the popup, ...). Its contract is `step`, a spec
//! function from a state's view and a message to the next view and the
//! commands.
use vstd::prelude::*;

use std::collections::HashMap;

use crate::config::{Config, PopupTab, RefreshInterval};
use crate::marketwatch::{
    AlertCondition, MarketQuote, PriceAlert, YahooNews, copy_news, copy_quotes,
};
use crate::text::{decimal, opt_text, parse_u64_spec, trim_spec, before_first};
use crate::wallet::{Wallet, WalletView, copy_strings};

verus! {

broadcast use vstd::std_specs::hash::group_hash_axioms;

/// The most wallets a user can create.
pub const MAX_WALLETS: usize = 10;

/// The most assets a wallet can hold.
pub const MAX_ASSETS_PER_WALLET: usize = 10;

/// Nanoseconds in a second; times handed to `update` are monotonic nanoseconds.
pub const NANOS_PER_SECOND: u64 = 1_000_000_000;

/// What the user or the surrounding program tells the applet.
#[derive(Debug, PartialEq)]
pub enum Message {
    Tick,
    RefreshMarket,
    TogglePopup,
    MarketLoaded(Result<Vec<MarketQuote>, String>),
    NewsLoaded(Result<Vec<YahooNews>, String>),
    PreviusWallet,
    NextWallet,
    OpenConfigBUtton,
    OpenNewsLink(String),
    ToggleShowOnlyIcon(bool),
    ToggleShowNews(bool),
    ToggleNewsExpanded,
    SetRefreshInterval(RefreshInterval),
    SetNumberOfNewsBySymbols(String),
    SetStokeRotationInterval(String),
    SwitchWallet(usize),
    AddWallet,
    DeleteCurrentWallet,
    RenameWallet(String),
    ConfirmRenameWallet,
    ToggleRenameMode,
    ToggleAlertsEnabled(bool),
    AddStockToWallet(String),
    RemoveStockFromWallet(String),
    AddAlert { wallet_index: usize, symbol: String, condition: AlertCondition },
    RemoveAlert { wallet_index: usize, alert_id: u64 },
    ToggleAlert { wallet_index: usize, alert_id: u64 },
    CloseAlertsTab,
    AlertSelectCondition(AlertCondition),
    AlertSetValue(String),
    OpenAlertsTab(String),
    StockSearchInput(String),
    StockSearchResults(Result<Vec<String>, String>),
}

impl Clone for Message {
    fn clone(&self) -> Self {
        match self {
            Message::Tick => Message::Tick,
            Message::RefreshMarket => Message::RefreshMarket,
            Message::TogglePopup => Message::TogglePopup,
            Message::MarketLoaded(r) => Message::MarketLoaded(
                match r {
                    Ok(v) => Ok(copy_quotes(v)),
                    Err(e) => Err(e.clone()),
                },
            ),
            Message::NewsLoaded(r) => Message::NewsLoaded(
                match r {
                    Ok(v) => Ok(copy_news(v)),
                    Err(e) => Err(e.clone()),
                },
            ),
            Message::PreviusWallet => Message::PreviusWallet,
            Message::NextWallet => Message::NextWallet,
            Message::OpenConfigBUtton => Message::OpenConfigBUtton,
            Message::OpenNewsLink(u) => Message::OpenNewsLink(u.clone()),
            Message::ToggleShowOnlyIcon(b) => Message::ToggleShowOnlyIcon(*b),
            Message::ToggleShowNews(b) => Message::ToggleShowNews(*b),
            Message::ToggleNewsExpanded => Message::ToggleNewsExpanded,
            Message::SetRefreshInterval(i) => Message::SetRefreshInterval(*i),
            Message::SetNumberOfNewsBySymbols(v) => Message::SetNumberOfNewsBySymbols(v.clone()),
            Message::SetStokeRotationInterval(v) => Message::SetStokeRotationInterval(v.clone()),
            Message::SwitchWallet(i) => Message::SwitchWallet(*i),
            Message::AddWallet => Message::AddWallet,
            Message::DeleteCurrentWallet => Message::DeleteCurrentWallet,
            Message::RenameWallet(v) => Message::RenameWallet(v.clone()),
            Message::ConfirmRenameWallet => Message::ConfirmRenameWallet,
            Message::ToggleRenameMode => Message::ToggleRenameMode,
            Message::ToggleAlertsEnabled(b) => Message::ToggleAlertsEnabled(*b),
            Message::AddStockToWallet(v) => Message::AddStockToWallet(v.clone()),
            Message::RemoveStockFromWallet(v) => Message::RemoveStockFromWallet(v.clone()),
            Message::AddAlert { wallet_index, symbol, condition } => Message::AddAlert {
                wallet_index: *wallet_index,
                symbol: symbol.clone(),
                condition: *condition,
            },
            Message::RemoveAlert { wallet_index, alert_id } => Message::RemoveAlert {
                wallet_index: *wallet_index,
                alert_id: *alert_id,
            },
            Message::ToggleAlert { wallet_index, alert_id } => Message::ToggleAlert {
                wallet_index: *wallet_index,
                alert_id: *alert_id,
            },
            Message::CloseAlertsTab => Message::CloseAlertsTab,
            Message::AlertSelectCondition(c) => Message::AlertSelectCondition(*c),
            Message::AlertSetValue(v) => Message::AlertSetValue(v.clone()),
            Message::OpenAlertsTab(v) => Message::OpenAlertsTab(v.clone()),
            Message::StockSearchInput(v) => Message::StockSearchInput(v.clone()),
            Message::StockSearchResults(r) => Message::StockSearchResults(
                match r {
                    Ok(v) => Ok(copy_strings(v)),
                    Err(e) => Err(e.clone()),
                },
            ),
        }
    }
}

/// Work that the applet asks of the surrounding program.
#[derive(Debug, Clone, PartialEq)]
pub enum Command {
    /// Open the popup window.
    OpenPopup,
    /// Close the popup window.
    ClosePopup,
    /// Fetch this many of the most active assets; answer with `MarketLoaded`.
    FetchMostActive(u64),
    /// Fetch quotes of these symbols; answer with `MarketLoaded`.
    FetchBySymbols(Vec<String>),
    /// Fetch this many news items for each of these symbols; answer with `NewsLoaded`.
    FetchNews(Vec<String>, u64),
    /// Search for assets matching this text; answer with `StockSearchResults`.
    SearchSymbols(String),
    /// Evaluate the pending alerts against the quotes (see `pending_alert_checks`).
    CheckAlerts,
    /// Send `Tick`.
    Tick,
    /// Store the settings.
    SaveConfig,
    /// Store the wallets.
    SaveWallets,
    /// Open this address in the browser.
    OpenLink(String),
}

/// The plain contents of a command.
pub enum CommandView {
    OpenPopup,
    ClosePopup,
    FetchMostActive(u64),
    FetchBySymbols(Seq<Seq<char>>),
    FetchNews(Seq<Seq<char>>, u64),
    SearchSymbols(Seq<char>),
    CheckAlerts,
    Tick,
    SaveConfig,
    SaveWallets,
    OpenLink(Seq<char>),
}

pub open spec fn texts(v: Seq<String>) -> Seq<Seq<char>> {
    v.map_values(|s: String| s@)
}

impl View for Command {
    type V = CommandView;

    open spec fn view(&self) -> CommandView {
        match self {
            Command::OpenPopup => CommandView::OpenPopup,
            Command::ClosePopup => CommandView::ClosePopup,
            Command::FetchMostActive(n) => CommandView::FetchMostActive(*n),
            Command::FetchBySymbols(v) => CommandView::FetchBySymbols(texts(v@)),
            Command::FetchNews(v, n) => CommandView::FetchNews(texts(v@), *n),
            Command::SearchSymbols(q) => CommandView::SearchSymbols(q@),
            Command::CheckAlerts => CommandView::CheckAlerts,
            Command::Tick => CommandView::Tick,
            Command::SaveConfig => CommandView::SaveConfig,
            Command::SaveWallets => CommandView::SaveWallets,
            Command::OpenLink(u) => CommandView::OpenLink(u@),
        }
    }
}

pub open spec fn commands_view(v: Seq<Command>) -> Seq<CommandView> {
    v.map_values(|c: Command| c@)
}

/// The applet's state.
pub struct AppModel {
    active_tab: PopupTab,
    popup_open: bool,
    market_quotes: Vec<MarketQuote>,
    news_items: Vec<YahooNews>,
    news_expanded: bool,
    news_per_symbol_input: String,
    config: Config,
    current_index: usize,
    error_message: Option<String>,
    wallets: Vec<Wallet>,
    /// 0 is the market overview, `k > 0` the wallet `wallets[k - 1]`.
    current_wallet_index: usize,
    rename_mode: bool,
    rename_input: String,
    stock_search_input: String,
    stock_search_results: Vec<String>,
    stock_search_loading: bool,
    /// When each screen was last fetched, in monotonic nanoseconds.
    last_fetch_time: HashMap<usize, u64>,
    cached_quotes: HashMap<usize, Vec<MarketQuote>>,
    cached_news: HashMap<usize, Vec<YahooNews>>,
    next_alert_id: u64,
    alert_selected_symbol: Option<String>,
    alert_selected_condition: AlertCondition,
    alert_input_value: String,
}

/// The plain contents of the applet's state.
#[verifier::ext_equal]
pub struct AppView {
    pub active_tab: PopupTab,
    pub popup_open: bool,
    pub quotes: Seq<MarketQuote>,
    pub news: Seq<YahooNews>,
    pub news_expanded: bool,
    pub news_input: Seq<char>,
    pub config: Config,
    pub current_index: usize,
    pub error: Option<Seq<char>>,
    pub wallets: Seq<WalletView>,
    pub wallet_index: usize,
    pub rename_mode: bool,
    pub rename_input: Seq<char>,
    pub search_input: Seq<char>,
    pub search_results: Seq<Seq<char>>,
    pub search_loading: bool,
    pub fetch_times: Map<usize, u64>,
    pub cached_quotes: Map<usize, Seq<MarketQuote>>,
    pub cached_news: Map<usize, Seq<YahooNews>>,
    pub next_alert_id: u64,
    pub alert_symbol: Option<Seq<char>>,
    pub alert_condition: AlertCondition,
    pub alert_input: Seq<char>,
}

pub open spec fn quotes_cache_view(m: Map<usize, Vec<MarketQuote>>) -> Map<usize, Seq<MarketQuote>> {
    m.map_values(|v: Vec<MarketQuote>| v@)
}

pub open spec fn news_cache_view(m: Map<usize, Vec<YahooNews>>) -> Map<usize, Seq<YahooNews>> {
    m.map_values(|v: Vec<YahooNews>| v@)
}

proof fn lemma_cache_views(
    q: Map<usize, Vec<MarketQuote>>,
    n: Map<usize, Vec<YahooNews>>,
    k: usize,
    vq: Vec<MarketQuote>,
    vn: Vec<YahooNews>,
)
    ensures
        quotes_cache_view(q.remove(k)) == quotes_cache_view(q).remove(k),
        news_cache_view(n.remove(k)) == news_cache_view(n).remove(k),
        quotes_cache_view(q.insert(k, vq)) == quotes_cache_view(q).insert(k, vq@),
        news_cache_view(n.insert(k, vn)) == news_cache_view(n).insert(k, vn@),
        quotes_cache_view(Map::empty()) == Map::<usize, Seq<MarketQuote>>::empty(),
        news_cache_view(Map::empty()) == Map::<usize, Seq<YahooNews>>::empty(),
{
    assert(quotes_cache_view(q.remove(k)) =~= quotes_cache_view(q).remove(k));
    assert(news_cache_view(n.remove(k)) =~= news_cache_view(n).remove(k));
    assert(quotes_cache_view(q.insert(k, vq)) =~= quotes_cache_view(q).insert(k, vq@));
    assert(news_cache_view(n.insert(k, vn)) =~= news_cache_view(n).insert(k, vn@));
    assert(quotes_cache_view(Map::empty()) =~= Map::<usize, Seq<MarketQuote>>::empty());
    assert(news_cache_view(Map::empty()) =~= Map::<usize, Seq<YahooNews>>::empty());
}

pub open spec fn wallets_view(v: Seq<Wallet>) -> Seq<WalletView> {
    v.map_values(|w: Wallet| w@)
}

impl View for AppModel {
    type V = AppView;

    closed spec fn view(&self) -> AppView {
        AppView {
            active_tab: self.active_tab,
            popup_open: self.popup_open,
            quotes: self.market_quotes@,
            news: self.news_items@,
            news_expanded: self.news_expanded,
            news_input: self.news_per_symbol_input@,
            config: self.config,
            current_index: self.current_index,
            error: opt_text(self.error_message),
            wallets: wallets_view(self.wallets@),
            wallet_index: self.current_wallet_index,
            rename_mode: self.rename_mode,
            rename_input: self.rename_input@,
            search_input: self.stock_search_input@,
            search_results: texts(self.stock_search_results@),
            search_loading: self.stock_search_loading,
            fetch_times: self.last_fetch_time@,
            cached_quotes: quotes_cache_view(self.cached_quotes@),
            cached_news: news_cache_view(self.cached_news@),
            next_alert_id: self.next_alert_id,
            alert_symbol: opt_text(self.alert_selected_symbol),
            alert_condition: self.alert_selected_condition,
            alert_input: self.alert_input_value@,
        }
    }
}

// ===================== the rules, as spec functions =====================

/// The condition the alert form starts with: price above 0.0 (bit pattern 0).
pub open spec fn initial_condition() -> AlertCondition {
    AlertCondition::PriceAbove(0)
}

impl AppView {
    /// What every state satisfies: the screen on show exists (and the list
    /// of wallets has room for the overview besides).
    pub open spec fn wf(self) -> bool {
        &&& self.wallet_index <= self.wallets.len()
        &&& self.wallets.len() < usize::MAX
    }

    /// The three caches without their entry for screen `idx`.
    pub open spec fn without_cache(self, idx: usize) -> AppView {
        AppView {
            fetch_times: self.fetch_times.remove(idx),
            cached_quotes: self.cached_quotes.remove(idx),
            cached_news: self.cached_news.remove(idx),
            ..self
        }
    }

    /// The fetch that shows screen `idx`: the most active assets for the
    /// overview, the wallet's symbols for a wallet that holds any, none else.
    pub open spec fn fetch_for(self, idx: usize) -> Seq<CommandView> {
        if idx > 0 {
            let symbols = self.wallets[idx - 1].symbols;
            if symbols.len() > 0 {
                seq![CommandView::FetchBySymbols(symbols)]
            } else {
                seq![]
            }
        } else {
            seq![CommandView::FetchMostActive(self.config.count_stokes_at_once)]
        }
    }

    /// The cached data of screen `idx` is younger than the refresh interval.
    pub open spec fn cache_valid(self, idx: usize, now: u64) -> bool {
        &&& self.fetch_times.contains_key(idx)
        &&& elapsed_secs(self.fetch_times[idx], now) < self.config.refresh_interval.seconds()
    }

    /// The alert form emptied.
    pub open spec fn alert_form_reset(self) -> AppView {
        AppView {
            alert_symbol: None,
            alert_input: Seq::empty(),
            alert_condition: initial_condition(),
            ..self
        }
    }
}

/// Whole seconds from `then` to `now` (monotonic nanoseconds), zero where
/// `now` comes first.
pub open spec fn elapsed_secs(then: u64, now: u64) -> nat {
    if now >= then {
        ((now - then) as nat) / (NANOS_PER_SECOND as nat)
    } else {
        0
    }
}

/// Texts other than `t`.
pub open spec fn other_text(t: Seq<char>) -> spec_fn(Seq<char>) -> bool {
    |x: Seq<char>| x != t
}

/// Alerts on other symbols than `symbol`.
pub open spec fn not_on_symbol(symbol: Seq<char>) -> spec_fn(PriceAlert) -> bool {
    |a: PriceAlert| a.symbol@ != symbol
}

/// Alerts with other ids than `id`.
pub open spec fn other_id(id: u64) -> spec_fn(PriceAlert) -> bool {
    |a: PriceAlert| a.id != id
}

/// Alerts of wallet `k` that are not among `fired`.
pub open spec fn not_fired(fired: Seq<(usize, u64)>, k: int) -> spec_fn(PriceAlert) -> bool {
    |a: PriceAlert| !fired.contains((k as usize, a.id))
}

/// The symbols of the first three quotes.
pub open spec fn news_symbols(quotes: Seq<MarketQuote>) -> Seq<Seq<char>> {
    let n = if quotes.len() < 3 {
        quotes.len() as int
    } else {
        3
    };
    quotes.take(n).map_values(|q: MarketQuote| q.symbol@)
}

/// Length in bytes of the UTF-8 encoding of `s`, as `str::len` counts it.
pub open spec fn byte_len(s: Seq<char>) -> usize {
    vstd::utf8::encode_utf8(s).len() as usize
}

pub open spec fn clamp_news(n: u64) -> u64 {
    if n < 1 {
        1
    } else if n > 5 {
        5
    } else {
        n
    }
}

/// The name given to the `n`-th wallet.
pub open spec fn wallet_name(n: nat) -> Seq<char> {
    "Wallet "@ + decimal(n)
}

/// Some alert has id `id`.
pub open spec fn has_alert(alerts: Seq<PriceAlert>, id: u64) -> bool {
    exists|j: int| 0 <= j < alerts.len() && (#[trigger] alerts[j]).id == id
}

/// `i` is the position of the first alert with id `id`.
pub open spec fn first_alert_with(alerts: Seq<PriceAlert>, id: u64, i: int) -> bool {
    &&& 0 <= i < alerts.len()
    &&& alerts[i].id == id
    &&& forall|j: int| 0 <= j < i ==> (#[trigger] alerts[j]).id != id
}

/// The alerts of a wallet after the first one with id `id` is switched on or off.
pub open spec fn toggled(alerts: Seq<PriceAlert>, id: u64) -> Seq<PriceAlert> {
    if has_alert(alerts, id) {
        let i = choose|i: int| first_alert_with(alerts, id, i);
        alerts.update(i, PriceAlert { enabled: !alerts[i].enabled, ..alerts[i] })
    } else {
        alerts
    }
}

pub open spec fn step_tick(s: AppView) -> (AppView, Seq<CommandView>) {
    if s.quotes.len() > 0 {
        (
            AppView { current_index: ((s.current_index + 1) % (s.quotes.len() as int)) as usize, ..s },
            seq![],
        )
    } else {
        (s, seq![])
    }
}

pub open spec fn step_toggle_popup(s: AppView) -> (AppView, Seq<CommandView>) {
    if s.popup_open {
        (AppView { popup_open: false, active_tab: PopupTab::Overview, ..s }, seq![CommandView::ClosePopup])
    } else {
        (AppView { popup_open: true, ..s }, seq![CommandView::OpenPopup])
    }
}

pub open spec fn step_market_loaded(s: AppView, result: Result<Vec<MarketQuote>, String>, now: u64) -> (
    AppView,
    Seq<CommandView>,
) {
    let idx = s.wallet_index;
    match result {
        Ok(data) => {
            let t = AppView {
                quotes: data@,
                error: None,
                fetch_times: s.fetch_times.insert(idx, now),
                cached_quotes: s.cached_quotes.insert(idx, data@),
                ..s
            };
            if s.config.show_news {
                (
                    t,
                    seq![
                        CommandView::CheckAlerts,
                        CommandView::FetchNews(news_symbols(data@), s.config.count_news_by_simbol),
                        CommandView::Tick,
                    ],
                )
            } else {
                (t, seq![CommandView::CheckAlerts, CommandView::Tick])
            }
        },
        Err(err) => {
            let t = AppView { error: Some(err@), quotes: Seq::empty(), ..s.without_cache(idx) };
            (t, seq![CommandView::Tick])
        },
    }
}

pub open spec fn step_news_loaded(s: AppView, result: Result<Vec<YahooNews>, String>) -> (
    AppView,
    Seq<CommandView>,
) {
    match result {
        Ok(news) => (
            AppView {
                news: news@,
                cached_news: s.cached_news.insert(s.wallet_index, news@),
                ..s
            },
            seq![],
        ),
        Err(_) => (s, seq![]),
    }
}

pub open spec fn step_refresh(s: AppView) -> (AppView, Seq<CommandView>) {
    let t = AppView {
        current_index: 0,
        quotes: Seq::empty(),
        news: Seq::empty(),
        error: None,
        ..s.without_cache(s.wallet_index)
    };
    (t, s.fetch_for(s.wallet_index))
}

/// Showing screen `index` (the overview where there is no such screen).
pub open spec fn step_switch(s: AppView, index: usize, now: u64) -> (AppView, Seq<CommandView>) {
    let safe = if index < s.wallets.len() + 1 {
        index
    } else {
        0
    };
    let t0 = AppView {
        wallet_index: safe,
        search_input: Seq::empty(),
        search_results: Seq::empty(),
        rename_mode: false,
        error: None,
        news: Seq::empty(),
        ..s
    };
    let t1 = if s.active_tab == PopupTab::Alerts {
        AppView { active_tab: PopupTab::Overview, ..t0.alert_form_reset() }
    } else {
        t0
    };
    let t2 = AppView { config: Config { last_wallet_index: safe, ..t1.config }, ..t1 };
    if t2.cache_valid(safe, now) {
        let t3 = AppView {
            quotes: if t2.cached_quotes.contains_key(safe) {
                t2.cached_quotes[safe]
            } else {
                t2.quotes
            },
            news: if t2.cached_news.contains_key(safe) {
                t2.cached_news[safe]
            } else {
                t2.news
            },
            ..t2
        };
        (t3, seq![CommandView::SaveConfig])
    } else {
        (AppView { quotes: Seq::empty(), ..t2 }, seq![CommandView::SaveConfig] + t2.fetch_for(safe))
    }
}

pub open spec fn step_previous(s: AppView, now: u64) -> (AppView, Seq<CommandView>) {
    let total = s.wallets.len() + 1;
    if s.active_tab == PopupTab::Alerts || total <= 1 {
        (s, seq![])
    } else {
        let new_index = if s.wallet_index == 0 {
            (total - 1) as usize
        } else {
            (s.wallet_index - 1) as usize
        };
        step_switch(s, new_index, now)
    }
}

pub open spec fn step_next(s: AppView, now: u64) -> (AppView, Seq<CommandView>) {
    let total = s.wallets.len() + 1;
    if s.active_tab == PopupTab::Alerts || total <= 1 {
        (s, seq![])
    } else {
        step_switch(s, ((s.wallet_index + 1) % (total as int)) as usize, now)
    }
}

pub open spec fn step_set_news_count(s: AppView, val: Seq<char>) -> (AppView, Seq<CommandView>) {
    let t = AppView { news_input: val, ..s };
    match parse_u64_spec(val) {
        Some(n) => (
            AppView { config: Config { count_news_by_simbol: clamp_news(n), ..s.config }, ..t },
            seq![CommandView::SaveConfig],
        ),
        None => (t, seq![]),
    }
}

pub open spec fn step_set_rotation(s: AppView, val: Seq<char>) -> (AppView, Seq<CommandView>) {
    match parse_u64_spec(val) {
        Some(n) => (
            AppView { config: Config { panel_stoke_rotation_interval: n, ..s.config }, ..s },
            seq![CommandView::SaveConfig],
        ),
        None => (s, seq![]),
    }
}

pub open spec fn step_show_news(s: AppView, on: bool) -> (AppView, Seq<CommandView>) {
    let t = AppView { config: Config { show_news: on, ..s.config }, ..s };
    if on {
        (
            t,
            seq![
                CommandView::SaveConfig,
                CommandView::FetchNews(news_symbols(s.quotes), s.config.count_news_by_simbol),
            ],
        )
    } else {
        (AppView { news: Seq::empty(), ..t }, seq![CommandView::SaveConfig])
    }
}

pub open spec fn step_add_wallet(s: AppView) -> (AppView, Seq<CommandView>) {
    if s.wallets.len() >= MAX_WALLETS {
        (s, seq![])
    } else {
        let w = WalletView {
            name: wallet_name((s.wallets.len() + 1) as nat),
            symbols: Seq::empty(),
            alerts: Seq::empty(),
        };
        (
            AppView {
                wallets: s.wallets.push(w),
                wallet_index: (s.wallets.len() + 1) as usize,
                quotes: Seq::empty(),
                news: Seq::empty(),
                error: None,
                ..s
            },
            seq![CommandView::SaveWallets],
        )
    }
}

pub open spec fn step_delete_wallet(s: AppView) -> (AppView, Seq<CommandView>) {
    if s.wallet_index > 0 {
        let t = s.without_cache(s.wallet_index);
        (
            AppView {
                wallets: s.wallets.remove(s.wallet_index - 1),
                wallet_index: 0,
                active_tab: PopupTab::Overview,
                ..t.alert_form_reset()
            },
            seq![
                CommandView::SaveWallets,
                CommandView::FetchMostActive(s.config.count_stokes_at_once),
            ],
        )
    } else {
        (s, seq![])
    }
}

pub open spec fn step_toggle_rename(s: AppView) -> (AppView, Seq<CommandView>) {
    if s.wallet_index > 0 {
        if !s.rename_mode {
            (
                AppView {
                    rename_mode: true,
                    rename_input: s.wallets[s.wallet_index - 1].name,
                    ..s
                },
                seq![],
            )
        } else {
            (AppView { rename_mode: false, ..s }, seq![])
        }
    } else {
        (s, seq![])
    }
}

pub open spec fn step_confirm_rename(s: AppView) -> (AppView, Seq<CommandView>) {
    let name = trim_spec(s.rename_input);
    if s.wallet_index > 0 && name.len() > 0 {
        let i = s.wallet_index - 1;
        (
            AppView {
                wallets: s.wallets.update(i, WalletView { name, ..s.wallets[i] }),
                rename_mode: false,
                ..s
            },
            seq![CommandView::SaveWallets],
        )
    } else {
        (AppView { rename_mode: false, ..s }, seq![])
    }
}

pub open spec fn step_search_input(s: AppView, val: Seq<char>) -> (AppView, Seq<CommandView>) {
    if byte_len(val) >= 2 {
        (
            AppView { search_loading: true, search_input: val, ..s },
            seq![CommandView::SearchSymbols(val)],
        )
    } else {
        (AppView { search_input: val, search_results: Seq::empty(), ..s }, seq![])
    }
}

pub open spec fn step_search_results(s: AppView, result: Result<Vec<String>, String>) -> (
    AppView,
    Seq<CommandView>,
) {
    match result {
        Ok(r) => (AppView { search_loading: false, search_results: texts(r@), ..s }, seq![]),
        Err(_) => (AppView { search_loading: false, ..s }, seq![]),
    }
}

pub open spec fn step_add_stock(s: AppView, label: Seq<char>) -> (AppView, Seq<CommandView>) {
    if !s.search_results.contains(label) {
        (s, seq![])
    } else {
        let symbol = before_first(label, crate::marketwatch::label_separator());
        let t = AppView { search_input: Seq::empty(), search_results: Seq::empty(), ..s };
        if s.wallet_index > 0 {
            let i = s.wallet_index - 1;
            let w = s.wallets[i];
            if w.symbols.len() >= MAX_ASSETS_PER_WALLET {
                (t, seq![])
            } else if !w.symbols.contains(symbol) {
                let w2 = WalletView { symbols: w.symbols.push(symbol), ..w };
                (
                    AppView { wallets: t.wallets.update(i, w2), ..t.without_cache(s.wallet_index) },
                    seq![CommandView::SaveWallets, CommandView::FetchBySymbols(w2.symbols)],
                )
            } else {
                (t.without_cache(s.wallet_index), seq![CommandView::FetchBySymbols(w.symbols)])
            }
        } else {
            (t, seq![])
        }
    }
}

pub open spec fn step_remove_stock(s: AppView, symbol: Seq<char>) -> (AppView, Seq<CommandView>) {
    if s.wallet_index > 0 {
        let i = s.wallet_index - 1;
        let w = s.wallets[i];
        let w2 = WalletView {
            symbols: w.symbols.filter(other_text(symbol)),
            alerts: w.alerts.filter(not_on_symbol(symbol)),
            ..w
        };
        let t0 = AppView { wallets: s.wallets.update(i, w2), ..s };
        let t1 = if s.alert_symbol == Some(symbol) {
            AppView {
                alert_symbol: None,
                alert_input: Seq::empty(),
                active_tab: PopupTab::Overview,
                ..t0
            }
        } else {
            t0
        };
        let t2 = t1.without_cache(s.wallet_index);
        if w2.symbols.len() == 0 {
            (
                AppView { quotes: Seq::empty(), news: Seq::empty(), ..t2 },
                seq![CommandView::SaveWallets],
            )
        } else {
            (t2, seq![CommandView::SaveWallets, CommandView::FetchBySymbols(w2.symbols)])
        }
    } else {
        (s, seq![])
    }
}

pub open spec fn step_add_alert(
    s: AppView,
    wallet_index: usize,
    alert: PriceAlert,
) -> (AppView, Seq<CommandView>) {
    if wallet_index > 0 && wallet_index - 1 < s.wallets.len() {
        let i = wallet_index - 1;
        let w = s.wallets[i];
        (
            AppView {
                wallets: s.wallets.update(i, WalletView { alerts: w.alerts.push(alert), ..w }),
                next_alert_id: (s.next_alert_id + 1) as u64,
                ..s
            },
            seq![CommandView::SaveWallets],
        )
    } else {
        (s, seq![])
    }
}

pub open spec fn step_remove_alert(s: AppView, wallet_index: usize, alert_id: u64) -> (
    AppView,
    Seq<CommandView>,
) {
    if wallet_index > 0 && wallet_index - 1 < s.wallets.len() {
        let i = wallet_index - 1;
        let w = s.wallets[i];
        (
            AppView {
                wallets: s.wallets.update(
                    i,
                    WalletView { alerts: w.alerts.filter(other_id(alert_id)), ..w },
                ),
                ..s
            },
            seq![CommandView::SaveWallets],
        )
    } else {
        (s, seq![])
    }
}

pub open spec fn step_toggle_alert(s: AppView, wallet_index: usize, alert_id: u64) -> (
    AppView,
    Seq<CommandView>,
) {
    if wallet_index > 0 && wallet_index - 1 < s.wallets.len() && has_alert(
        s.wallets[wallet_index - 1].alerts,
        alert_id,
    ) {
        let i = wallet_index - 1;
        let w = s.wallets[i];
        (
            AppView {
                wallets: s.wallets.update(i, WalletView { alerts: toggled(w.alerts, alert_id), ..w }),
                ..s
            },
            seq![CommandView::SaveWallets],
        )
    } else {
        (s, seq![])
    }
}

/// Message `m` adds an alert in state `s`: it is an `AddAlert` naming a
/// wallet that exists.
pub open spec fn adds_alert(s: AppView, m: Message) -> bool {
    m matches Message::AddAlert { wallet_index, .. } && wallet_index > 0 && wallet_index - 1
        < s.wallets.len()
}

/// The next state and the commands that answer message `m` at time `now`.
pub open spec fn step(s: AppView, m: Message, now: u64) -> (AppView, Seq<CommandView>) {
    match m {
        Message::Tick => step_tick(s),
        Message::RefreshMarket => step_refresh(s),
        Message::TogglePopup => step_toggle_popup(s),
        Message::MarketLoaded(r) => step_market_loaded(s, r, now),
        Message::NewsLoaded(r) => step_news_loaded(s, r),
        Message::PreviusWallet => step_previous(s, now),
        Message::NextWallet => step_next(s, now),
        Message::OpenConfigBUtton => (
            AppView {
                active_tab: if s.active_tab == PopupTab::Settings {
                    PopupTab::Overview
                } else {
                    PopupTab::Settings
                },
                ..s
            },
            seq![],
        ),
        Message::OpenNewsLink(url) => (s, seq![CommandView::OpenLink(url@)]),
        Message::ToggleShowOnlyIcon(b) => (
            AppView { config: Config { show_only_icon: b, ..s.config }, ..s },
            seq![CommandView::SaveConfig],
        ),
        Message::ToggleShowNews(b) => step_show_news(s, b),
        Message::ToggleNewsExpanded => (AppView { news_expanded: !s.news_expanded, ..s }, seq![]),
        Message::SetRefreshInterval(iv) => (
            AppView {
                config: Config { refresh_interval: iv, ..s.config },
                fetch_times: Map::empty(),
                cached_quotes: Map::empty(),
                cached_news: Map::empty(),
                ..s
            },
            seq![CommandView::SaveConfig],
        ),
        Message::SetNumberOfNewsBySymbols(v) => step_set_news_count(s, v@),
        Message::SetStokeRotationInterval(v) => step_set_rotation(s, v@),
        Message::SwitchWallet(i) => step_switch(s, i, now),
        Message::AddWallet => step_add_wallet(s),
        Message::DeleteCurrentWallet => step_delete_wallet(s),
        Message::RenameWallet(v) => (AppView { rename_input: v@, ..s }, seq![]),
        Message::ConfirmRenameWallet => step_confirm_rename(s),
        Message::ToggleRenameMode => step_toggle_rename(s),
        Message::ToggleAlertsEnabled(b) => (
            AppView { config: Config { alerts_enabled: b, ..s.config }, ..s },
            seq![CommandView::SaveConfig],
        ),
        Message::AddStockToWallet(label) => step_add_stock(s, label@),
        Message::RemoveStockFromWallet(symbol) => step_remove_stock(s, symbol@),
        Message::AddAlert { wallet_index, symbol, condition } => step_add_alert(
            s,
            wallet_index,
            PriceAlert {
                id: s.next_alert_id,
                symbol,
                condition,
                triggered: false,
                enabled: true,
            },
        ),
        Message::RemoveAlert { wallet_index, alert_id } => step_remove_alert(
            s,
            wallet_index,
            alert_id,
        ),
        Message::ToggleAlert { wallet_index, alert_id } => step_toggle_alert(
            s,
            wallet_index,
            alert_id,
        ),
        Message::CloseAlertsTab => (
            AppView { active_tab: PopupTab::Overview, ..s.alert_form_reset() },
            seq![],
        ),
        Message::AlertSelectCondition(c) => (AppView { alert_condition: c, ..s }, seq![]),
        Message::AlertSetValue(v) => (AppView { alert_input: v@, ..s }, seq![]),
        Message::OpenAlertsTab(symbol) => (
            AppView { active_tab: PopupTab::Alerts, alert_symbol: Some(symbol@), ..s },
            seq![],
        ),
        Message::StockSearchInput(v) => step_search_input(s, v@),
        Message::StockSearchResults(r) => step_search_results(s, r),
    }
}


// ===================== the rules, as code =====================

/// The symbols of the first three quotes.
fn first_symbols(quotes: &Vec<MarketQuote>) -> (r: Vec<String>)
    ensures
        texts(r@) == news_symbols(quotes@),
{
    let n: usize = if quotes.len() < 3 {
        quotes.len()
    } else {
        3
    };
    let mut r: Vec<String> = Vec::new();
    let mut i: usize = 0;
    while i < n
        invariant
            i <= n <= quotes@.len(),
            texts(r@) == quotes@.take(i as int).map_values(|q: MarketQuote| q.symbol@),
        decreases n - i,
    {
        r.push(quotes[i].symbol.clone());
        assert(quotes@.take(i + 1).map_values(|q: MarketQuote| q.symbol@) =~= quotes@.take(
            i as int,
        ).map_values(|q: MarketQuote| q.symbol@).push(quotes@[i as int].symbol@));
        assert(texts(r@) =~= quotes@.take(i + 1).map_values(|q: MarketQuote| q.symbol@));
        i = i + 1;
    }
    r
}

/// Whether `v` holds a string with the text of `s`.
fn holds_text(v: &Vec<String>, s: &str) -> (r: bool)
    ensures
        r == texts(v@).contains(s@),
{
    let mut i: usize = 0;
    while i < v.len()
        invariant
            i <= v@.len(),
            forall|j: int| 0 <= j < i ==> texts(v@)[j] != s@,
        decreases v.len() - i,
    {
        if crate::text::same_text(v[i].as_str(), s) {
            assert(texts(v@)[i as int] == s@);
            return true;
        }
        i = i + 1;
    }
    false
}

/// The strings of `v` whose text differs from `s`, in order.
fn strings_without(v: &Vec<String>, s: &str) -> (r: Vec<String>)
    ensures
        texts(r@) == texts(v@).filter(other_text(s@)),
{
    let ghost p = other_text(s@);
    let mut r: Vec<String> = Vec::new();
    let mut i: usize = 0;
    while i < v.len()
        invariant
            i <= v@.len(),
            p == other_text(s@),
            texts(r@) == texts(v@).take(i as int).filter(p),
        decreases v.len() - i,
    {
        proof {
            reveal(Seq::filter);
            assert(texts(v@).take(i + 1).drop_last() =~= texts(v@).take(i as int));
            assert(texts(v@).take(i + 1).last() == v@[i as int]@);
        }
        if !crate::text::same_text(v[i].as_str(), s) {
            r.push(v[i].clone());
            assert(texts(r@) =~= texts(v@).take(i + 1).filter(p));
        } else {
            assert(texts(r@) =~= texts(v@).take(i + 1).filter(p));
        }
        i = i + 1;
    }
    assert(texts(v@).take(v@.len() as int) =~= texts(v@));
    r
}

/// The alerts of `v` on other symbols than `s`, in order.
fn alerts_without_symbol(v: &Vec<PriceAlert>, s: &str) -> (r: Vec<PriceAlert>)
    ensures
        r@ == v@.filter(not_on_symbol(s@)),
{
    let ghost p = not_on_symbol(s@);
    let mut r: Vec<PriceAlert> = Vec::new();
    let mut i: usize = 0;
    while i < v.len()
        invariant
            i <= v@.len(),
            p == not_on_symbol(s@),
            r@ == v@.take(i as int).filter(p),
        decreases v.len() - i,
    {
        proof {
            reveal(Seq::filter);
            assert(v@.take(i + 1).drop_last() =~= v@.take(i as int));
        }
        if !crate::text::same_text(v[i].symbol.as_str(), s) {
            r.push(v[i].duplicate());
        }
        assert(r@ =~= v@.take(i + 1).filter(p));
        i = i + 1;
    }
    assert(v@.take(v@.len() as int) =~= v@);
    r
}

/// The alerts of `v` whose id is not `id`, in order.
fn alerts_without_id(v: &Vec<PriceAlert>, id: u64) -> (r: Vec<PriceAlert>)
    ensures
        r@ == v@.filter(other_id(id)),
{
    let ghost p = other_id(id);
    let mut r: Vec<PriceAlert> = Vec::new();
    let mut i: usize = 0;
    while i < v.len()
        invariant
            i <= v@.len(),
            p == other_id(id),
            r@ == v@.take(i as int).filter(p),
        decreases v.len() - i,
    {
        proof {
            reveal(Seq::filter);
            assert(v@.take(i + 1).drop_last() =~= v@.take(i as int));
        }
        if v[i].id != id {
            r.push(v[i].duplicate());
        }
        assert(r@ =~= v@.take(i + 1).filter(p));
        i = i + 1;
    }
    assert(v@.take(v@.len() as int) =~= v@);
    r
}

/// The position of the first alert of `v` with id `id`, if any.
fn first_alert_position(v: &Vec<PriceAlert>, id: u64) -> (r: Option<usize>)
    ensures
        match r {
            Some(i) => first_alert_with(v@, id, i as int),
            None => !has_alert(v@, id),
        },
{
    let mut i: usize = 0;
    while i < v.len()
        invariant
            i <= v@.len(),
            forall|j: int| 0 <= j < i ==> (#[trigger] v@[j]).id != id,
        decreases v.len() - i,
    {
        if v[i].id == id {
            return Some(i);
        }
        i = i + 1;
    }
    None
}

impl AppModel {
    /// Forgets what is cached for the screen on show.
    pub fn clear_cache_for_current(&mut self)
        ensures
            final(self)@ == old(self)@.without_cache(old(self)@.wallet_index),
    {
        let key = self.current_wallet_index;
        self.last_fetch_time.remove(&key);
        self.cached_quotes.remove(&key);
        self.cached_news.remove(&key);
        proof {
            lemma_cache_views(
                old(self).cached_quotes@,
                old(self).cached_news@,
                key,
                self.market_quotes,
                self.news_items,
            );
        }
        assert(self@ =~= old(self)@.without_cache(old(self)@.wallet_index));
    }

    /// Caches the quotes and news on show for the screen on show, fetched at `now`.
    pub fn save_cache(&mut self, now: u64)
        ensures
            final(self)@ == (AppView {
                fetch_times: old(self)@.fetch_times.insert(old(self)@.wallet_index, now),
                cached_quotes: old(self)@.cached_quotes.insert(
                    old(self)@.wallet_index,
                    old(self)@.quotes,
                ),
                cached_news: old(self)@.cached_news.insert(old(self)@.wallet_index, old(self)@.news),
                ..old(self)@
            }),
    {
        let key = self.current_wallet_index;
        self.last_fetch_time.insert(key, now);
        let q = copy_quotes(&self.market_quotes);
        let n = copy_news(&self.news_items);
        proof {
            lemma_cache_views(old(self).cached_quotes@, old(self).cached_news@, key, q, n);
        }
        self.cached_quotes.insert(key, q);
        self.cached_news.insert(key, n);
        assert(self@ =~= (AppView {
            fetch_times: old(self)@.fetch_times.insert(old(self)@.wallet_index, now),
            cached_quotes: old(self)@.cached_quotes.insert(old(self)@.wallet_index, old(self)@.quotes),
            cached_news: old(self)@.cached_news.insert(old(self)@.wallet_index, old(self)@.news),
            ..old(self)@
        }));
    }

    /// The fetch that shows screen `idx`.
    fn fetch_for(&self, idx: usize) -> (r: Vec<Command>)
        requires
            idx <= self@.wallets.len(),
        ensures
            commands_view(r@) == self@.fetch_for(idx),
    {
        let mut r: Vec<Command> = Vec::new();
        if idx > 0 {
            if self.wallets[idx - 1].symbols.len() > 0 {
                let symbols = copy_strings(&self.wallets[idx - 1].symbols);
                r.push(Command::FetchBySymbols(symbols));
            }
        } else {
            r.push(Command::FetchMostActive(self.config.count_stokes_at_once));
        }
        assert(commands_view(r@) =~= self@.fetch_for(idx));
        r
    }

    fn tick(&mut self)
        requires
            old(self)@.wf(),
        ensures
            final(self)@ == step_tick(old(self)@).0,
    {
        let n = self.market_quotes.len();
        if n > 0 {
            proof {
                vstd::arithmetic::div_mod::lemma_add_mod_noop_right(
                    1,
                    self.current_index as int,
                    n as int,
                );
            }
            self.current_index = (1 + self.current_index % n) % n;
        }
    }

    fn toggle_popup(&mut self) -> (cmds: Vec<Command>)
        ensures
            final(self)@ == step_toggle_popup(old(self)@).0,
            commands_view(cmds@) == step_toggle_popup(old(self)@).1,
    {
        let mut cmds: Vec<Command> = Vec::new();
        if self.popup_open {
            self.popup_open = false;
            self.active_tab = PopupTab::Overview;
            cmds.push(Command::ClosePopup);
        } else {
            self.popup_open = true;
            cmds.push(Command::OpenPopup);
        }
        assert(commands_view(cmds@) =~= step_toggle_popup(old(self)@).1);
        cmds
    }

    fn market_loaded(&mut self, result: Result<Vec<MarketQuote>, String>, now: u64) -> (cmds: Vec<
        Command,
    >)
        ensures
            final(self)@ == step_market_loaded(old(self)@, result, now).0,
            commands_view(cmds@) == step_market_loaded(old(self)@, result, now).1,
    {
        let ghost r0 = result;
        let mut cmds: Vec<Command> = Vec::new();
        match result {
            Ok(data) => {
                let idx = self.current_wallet_index;
                let copy = copy_quotes(&data);
                proof {
                    lemma_cache_views(
                        old(self).cached_quotes@,
                        old(self).cached_news@,
                        idx,
                        copy,
                        self.news_items,
                    );
                }
                self.market_quotes = data;
                self.error_message = None;
                self.last_fetch_time.insert(idx, now);
                self.cached_quotes.insert(idx, copy);
                cmds.push(Command::CheckAlerts);
                if self.config.show_news {
                    let symbols = first_symbols(&self.market_quotes);
                    cmds.push(Command::FetchNews(symbols, self.config.count_news_by_simbol));
                }
                cmds.push(Command::Tick);
                assert(self@ =~= step_market_loaded(old(self)@, r0, now).0);
                assert(commands_view(cmds@) =~= step_market_loaded(old(self)@, r0, now).1);
            },
            Err(err) => {
                self.error_message = Some(err);
                self.market_quotes.clear();
                self.clear_cache_for_current();
                cmds.push(Command::Tick);
                assert(self@ =~= step_market_loaded(old(self)@, r0, now).0);
                assert(commands_view(cmds@) =~= step_market_loaded(old(self)@, r0, now).1);
            },
        }
        cmds
    }

    fn news_loaded(&mut self, result: Result<Vec<YahooNews>, String>)
        ensures
            final(self)@ == step_news_loaded(old(self)@, result).0,
    {
        let ghost r0 = result;
        match result {
            Ok(news) => {
                let idx = self.current_wallet_index;
                let copy = copy_news(&news);
                proof {
                    lemma_cache_views(
                        old(self).cached_quotes@,
                        old(self).cached_news@,
                        idx,
                        self.market_quotes,
                        copy,
                    );
                }
                self.news_items = news;
                self.cached_news.insert(idx, copy);
                assert(self@ =~= step_news_loaded(old(self)@, r0).0);
            },
            Err(_) => {},
        }
    }

    fn refresh(&mut self) -> (cmds: Vec<Command>)
        requires
            old(self)@.wf(),
        ensures
            final(self)@ == step_refresh(old(self)@).0,
            commands_view(cmds@) == step_refresh(old(self)@).1,
    {
        self.current_index = 0;
        self.market_quotes.clear();
        self.news_items.clear();
        self.error_message = None;
        self.clear_cache_for_current();
        assert(self@ =~= step_refresh(old(self)@).0);
        self.fetch_for(self.current_wallet_index)
    }

    fn set_news_count(&mut self, val: String) -> (cmds: Vec<Command>)
        ensures
            final(self)@ == step_set_news_count(old(self)@, val@).0,
            commands_view(cmds@) == step_set_news_count(old(self)@, val@).1,
    {
        let parsed = crate::text::parse_u64(val.as_str());
        self.news_per_symbol_input = val;
        let mut cmds: Vec<Command> = Vec::new();
        match parsed {
            Some(n) => {
                let clamped = if n < 1 {
                    1
                } else if n > 5 {
                    5
                } else {
                    n
                };
                self.config.count_news_by_simbol = clamped;
                cmds.push(Command::SaveConfig);
            },
            None => {},
        }
        assert(commands_view(cmds@) =~= step_set_news_count(old(self)@, val@).1);
        cmds
    }

    fn set_rotation(&mut self, val: String) -> (cmds: Vec<Command>)
        ensures
            final(self)@ == step_set_rotation(old(self)@, val@).0,
            commands_view(cmds@) == step_set_rotation(old(self)@, val@).1,
    {
        let mut cmds: Vec<Command> = Vec::new();
        match crate::text::parse_u64(val.as_str()) {
            Some(n) => {
                self.config.panel_stoke_rotation_interval = n;
                cmds.push(Command::SaveConfig);
            },
            None => {},
        }
        assert(commands_view(cmds@) =~= step_set_rotation(old(self)@, val@).1);
        cmds
    }

    fn show_news(&mut self, on: bool) -> (cmds: Vec<Command>)
        ensures
            final(self)@ == step_show_news(old(self)@, on).0,
            commands_view(cmds@) == step_show_news(old(self)@, on).1,
    {
        self.config.show_news = on;
        let mut cmds: Vec<Command> = Vec::new();
        cmds.push(Command::SaveConfig);
        if on {
            let symbols = first_symbols(&self.market_quotes);
            cmds.push(Command::FetchNews(symbols, self.config.count_news_by_simbol));
        } else {
            self.news_items.clear();
        }
        assert(self@ =~= step_show_news(old(self)@, on).0);
        assert(commands_view(cmds@) =~= step_show_news(old(self)@, on).1);
        cmds
    }

    fn set_refresh_interval(&mut self, interval: RefreshInterval)
        ensures
            final(self)@ == step(old(self)@, Message::SetRefreshInterval(interval), 0).0,
    {
        self.config.refresh_interval = interval;
        self.last_fetch_time.clear();
        self.cached_quotes.clear();
        self.cached_news.clear();
        proof {
            lemma_cache_views(
                old(self).cached_quotes@,
                old(self).cached_news@,
                0,
                self.market_quotes,
                self.news_items,
            );
        }
        assert(self@ =~= step(old(self)@, Message::SetRefreshInterval(interval), 0).0);
    }

    fn close_alerts_tab(&mut self)
        ensures
            final(self)@ == (AppView { active_tab: PopupTab::Overview, ..old(self)@.alert_form_reset() }),
    {
        self.active_tab = PopupTab::Overview;
        self.alert_selected_symbol = None;
        self.alert_input_value = String::new();
        self.alert_selected_condition = AlertCondition::PriceAbove(0);
        assert(self@ =~= AppView { active_tab: PopupTab::Overview, ..old(self)@.alert_form_reset() });
    }

    fn search_input(&mut self, val: String) -> (cmds: Vec<Command>)
        ensures
            final(self)@ == step_search_input(old(self)@, val@).0,
            commands_view(cmds@) == step_search_input(old(self)@, val@).1,
    {
        let mut cmds: Vec<Command> = Vec::new();
        if val.as_str().len() >= 2 {
            self.stock_search_loading = true;
            let query = val.clone();
            self.stock_search_input = val;
            cmds.push(Command::SearchSymbols(query));
        } else {
            self.stock_search_input = val;
            self.stock_search_results.clear();
        }
        assert(self@ =~= step_search_input(old(self)@, val@).0);
        assert(commands_view(cmds@) =~= step_search_input(old(self)@, val@).1);
        cmds
    }

    fn search_results(&mut self, result: Result<Vec<String>, String>)
        ensures
            final(self)@ == step_search_results(old(self)@, result).0,
    {
        self.stock_search_loading = false;
        let ghost r0 = result;
        match result {
            Ok(r) => {
                self.stock_search_results = r;
            },
            Err(_) => {},
        }
        assert(self@ =~= step_search_results(old(self)@, r0).0);
    }

    #[verifier::rlimit(40)]
    fn switch_wallet(&mut self, index: usize, now: u64) -> (cmds: Vec<Command>)
        requires
            old(self)@.wf(),
        ensures
            final(self)@ == step_switch(old(self)@, index, now).0,
            commands_view(cmds@) == step_switch(old(self)@, index, now).1,
    {
        let total = self.wallets.len() + 1;
        let safe = if index < total {
            index
        } else {
            0
        };
        self.current_wallet_index = safe;
        self.stock_search_input = String::new();
        self.stock_search_results.clear();
        self.rename_mode = false;
        self.error_message = None;
        self.news_items.clear();
        if self.active_tab == PopupTab::Alerts {
            self.active_tab = PopupTab::Overview;
            self.alert_selected_symbol = None;
            self.alert_input_value = String::new();
            self.alert_selected_condition = AlertCondition::PriceAbove(0);
        }
        self.config.last_wallet_index = safe;
        let ghost t2 = self@;
        let mut cmds: Vec<Command> = Vec::new();
        cmds.push(Command::SaveConfig);
        let refresh_secs = self.config.refresh_interval.as_seconds();
        let cache_valid = match self.last_fetch_time.get(&safe) {
            Some(t) => {
                let t = *t;
                let elapsed = if now >= t {
                    (now - t) / NANOS_PER_SECOND
                } else {
                    0
                };
                elapsed < refresh_secs
            },
            None => false,
        };
        assert(cache_valid == t2.cache_valid(safe, now));
        if cache_valid {
            match self.cached_quotes.get(&safe) {
                Some(c) => {
                    self.market_quotes = copy_quotes(c);
                },
                None => {},
            }
            match self.cached_news.get(&safe) {
                Some(c) => {
                    self.news_items = copy_news(c);
                },
                None => {},
            }
            assert(self@ =~= step_switch(old(self)@, index, now).0);
            assert(commands_view(cmds@) =~= step_switch(old(self)@, index, now).1);
            return cmds;
        }
        self.market_quotes.clear();
        let mut f = self.fetch_for(safe);
        let ghost fv = f@;
        cmds.append(&mut f);
        assert(commands_view(cmds@) =~= seq![CommandView::SaveConfig] + commands_view(fv));
        assert(self@ =~= step_switch(old(self)@, index, now).0);
        cmds
    }

    fn add_wallet(&mut self) -> (cmds: Vec<Command>)
        requires
            old(self)@.wf(),
        ensures
            final(self)@ == step_add_wallet(old(self)@).0,
            commands_view(cmds@) == step_add_wallet(old(self)@).1,
    {
        let mut cmds: Vec<Command> = Vec::new();
        if self.wallets.len() >= MAX_WALLETS {
            assert(commands_view(cmds@) =~= step_add_wallet(old(self)@).1);
            return cmds;
        }
        let index = self.wallets.len() + 1;
        let mut name = String::from_str("Wallet ");
        crate::text::push_decimal(&mut name, index as u64);
        let w = Wallet::new(name);
        let ghost wv = w@;
        assert(wv.symbols =~= Seq::<Seq<char>>::empty());
        assert(wv.alerts =~= Seq::<PriceAlert>::empty());
        self.wallets.push(w);
        self.current_wallet_index = self.wallets.len();
        self.market_quotes.clear();
        self.news_items.clear();
        self.error_message = None;
        cmds.push(Command::SaveWallets);
        assert(wallets_view(self.wallets@) =~= wallets_view(old(self).wallets@).push(wv));
        assert(self@ =~= step_add_wallet(old(self)@).0);
        assert(commands_view(cmds@) =~= step_add_wallet(old(self)@).1);
        cmds
    }

    fn delete_wallet(&mut self) -> (cmds: Vec<Command>)
        requires
            old(self)@.wf(),
        ensures
            final(self)@ == step_delete_wallet(old(self)@).0,
            commands_view(cmds@) == step_delete_wallet(old(self)@).1,
    {
        let mut cmds: Vec<Command> = Vec::new();
        if self.current_wallet_index > 0 {
            self.clear_cache_for_current();
            let _removed = self.wallets.remove(self.current_wallet_index - 1);
            proof {
                assert(wallets_view(self.wallets@) =~= wallets_view(old(self).wallets@).remove(
                    old(self).current_wallet_index - 1,
                ));
            }
            self.current_wallet_index = 0;
            cmds.push(Command::SaveWallets);
            self.alert_selected_symbol = None;
            self.alert_input_value = String::new();
            self.alert_selected_condition = AlertCondition::PriceAbove(0);
            self.active_tab = PopupTab::Overview;
            cmds.push(Command::FetchMostActive(self.config.count_stokes_at_once));
        }
        assert(self@ =~= step_delete_wallet(old(self)@).0);
        assert(commands_view(cmds@) =~= step_delete_wallet(old(self)@).1);
        cmds
    }

    fn toggle_rename(&mut self)
        requires
            old(self)@.wf(),
        ensures
            final(self)@ == step_toggle_rename(old(self)@).0,
    {
        if self.current_wallet_index > 0 {
            self.rename_mode = !self.rename_mode;
            if self.rename_mode {
                self.rename_input = self.wallets[self.current_wallet_index - 1].name.clone();
            }
        }
        assert(self@ =~= step_toggle_rename(old(self)@).0);
    }

    fn confirm_rename(&mut self) -> (cmds: Vec<Command>)
        requires
            old(self)@.wf(),
        ensures
            final(self)@ == step_confirm_rename(old(self)@).0,
            commands_view(cmds@) == step_confirm_rename(old(self)@).1,
    {
        let mut cmds: Vec<Command> = Vec::new();
        if self.current_wallet_index > 0 {
            let name = crate::text::trim_text(self.rename_input.as_str());
            if !name.as_str().is_empty() {
                let i = self.current_wallet_index - 1;
                self.wallets[i].name = name;
                cmds.push(Command::SaveWallets);
                assert(wallets_view(self.wallets@) =~= wallets_view(old(self).wallets@).update(
                    i as int,
                    WalletView { name: name@, ..old(self)@.wallets[i as int] },
                ));
            }
        }
        self.rename_mode = false;
        assert(self@ =~= step_confirm_rename(old(self)@).0);
        assert(commands_view(cmds@) =~= step_confirm_rename(old(self)@).1);
        cmds
    }

    fn add_stock(&mut self, label: String) -> (cmds: Vec<Command>)
        requires
            old(self)@.wf(),
        ensures
            final(self)@ == step_add_stock(old(self)@, label@).0,
            commands_view(cmds@) == step_add_stock(old(self)@, label@).1,
    {
        let mut cmds: Vec<Command> = Vec::new();
        if !holds_text(&self.stock_search_results, label.as_str()) {
            assert(commands_view(cmds@) =~= step_add_stock(old(self)@, label@).1);
            return cmds;
        }
        let symbol = crate::marketwatch::symbol_from_label(label.as_str());
        self.stock_search_input = String::new();
        self.stock_search_results.clear();
        let ghost t = self@;
        assert(t == (AppView {
            search_input: Seq::empty(),
            search_results: Seq::empty(),
            ..old(self)@
        }));
        if self.current_wallet_index > 0 {
            let i = self.current_wallet_index - 1;
            if self.wallets[i].symbols.len() >= MAX_ASSETS_PER_WALLET {
                assert(commands_view(cmds@) =~= step_add_stock(old(self)@, label@).1);
                return cmds;
            }
            if !holds_text(&self.wallets[i].symbols, symbol.as_str()) {
                let ghost w = old(self)@.wallets[i as int];
                let ghost sv = symbol@;
                self.wallets[i].symbols.push(symbol);
                cmds.push(Command::SaveWallets);
                assert(texts(self.wallets@[i as int].symbols@) =~= w.symbols.push(sv));
                assert(self.wallets@[i as int]@ =~= WalletView { symbols: w.symbols.push(sv), ..w });
                assert(wallets_view(self.wallets@) =~= t.wallets.update(
                    i as int,
                    WalletView { symbols: w.symbols.push(sv), ..w },
                ));
            }
            let symbols = copy_strings(&self.wallets[i].symbols);
            assert(texts(symbols@) == wallets_view(self.wallets@)[i as int].symbols);
            self.clear_cache_for_current();
            cmds.push(Command::FetchBySymbols(symbols));
        }
        assert(self@ =~= step_add_stock(old(self)@, label@).0);
        assert(commands_view(cmds@) =~= step_add_stock(old(self)@, label@).1);
        cmds
    }

    fn remove_stock(&mut self, symbol: String) -> (cmds: Vec<Command>)
        requires
            old(self)@.wf(),
        ensures
            final(self)@ == step_remove_stock(old(self)@, symbol@).0,
            commands_view(cmds@) == step_remove_stock(old(self)@, symbol@).1,
    {
        let mut cmds: Vec<Command> = Vec::new();
        if self.current_wallet_index > 0 {
            let i = self.current_wallet_index - 1;
            let ghost w = old(self)@.wallets[i as int];
            let symbols = strings_without(&self.wallets[i].symbols, symbol.as_str());
            let alerts = alerts_without_symbol(&self.wallets[i].alerts, symbol.as_str());
            self.wallets[i].symbols = symbols;
            self.wallets[i].alerts = alerts;
            cmds.push(Command::SaveWallets);
            assert(wallets_view(self.wallets@) =~= old(self)@.wallets.update(
                i as int,
                WalletView {
                    symbols: w.symbols.filter(other_text(symbol@)),
                    alerts: w.alerts.filter(not_on_symbol(symbol@)),
                    ..w
                },
            ));
            let ghost t0 = self@;
            assert(t0 =~= AppView { wallets: t0.wallets, ..old(self)@ });
            let selected = match &self.alert_selected_symbol {
                Some(a) => crate::text::same_text(a.as_str(), symbol.as_str()),
                None => false,
            };
            if selected {
                self.alert_selected_symbol = None;
                self.alert_input_value = String::new();
                self.active_tab = PopupTab::Overview;
            }
            let rest = copy_strings(&self.wallets[i].symbols);
            assert(texts(rest@) == wallets_view(self.wallets@)[i as int].symbols);
            let ghost t1 = self@;
            self.clear_cache_for_current();
            assert(self@ == t1.without_cache(old(self)@.wallet_index));
            if rest.len() == 0 {
                self.market_quotes.clear();
                self.news_items.clear();
            } else {
                cmds.push(Command::FetchBySymbols(rest));
            }
        }
        assert(self@ =~= step_remove_stock(old(self)@, symbol@).0);
        assert(commands_view(cmds@) =~= step_remove_stock(old(self)@, symbol@).1);
        cmds
    }

    fn add_alert(&mut self, wallet_index: usize, symbol: String, condition: AlertCondition) -> (cmds:
        Vec<Command>)
        requires
            old(self)@.wf(),
            wallet_index > 0 && wallet_index - 1 < old(self)@.wallets.len() ==> old(
                self,
            )@.next_alert_id < u64::MAX,
        ensures
            final(self)@ == step(
                old(self)@,
                Message::AddAlert { wallet_index, symbol, condition },
                0,
            ).0,
            commands_view(cmds@) == step(
                old(self)@,
                Message::AddAlert { wallet_index, symbol, condition },
                0,
            ).1,
    {
        let ghost m = Message::AddAlert { wallet_index, symbol, condition };
        let mut cmds: Vec<Command> = Vec::new();
        if wallet_index > 0 && wallet_index - 1 < self.wallets.len() {
            let i = wallet_index - 1;
            let id = self.next_alert_id;
            self.next_alert_id = self.next_alert_id + 1;
            let alert = PriceAlert { id, symbol, condition, triggered: false, enabled: true };
            let ghost w = old(self)@.wallets[i as int];
            let ghost a = alert;
            self.wallets[i].alerts.push(alert);
            cmds.push(Command::SaveWallets);
            assert(wallets_view(self.wallets@) =~= old(self)@.wallets.update(
                i as int,
                WalletView { alerts: w.alerts.push(a), ..w },
            ));
        }
        assert(self@ =~= step(old(self)@, m, 0).0);
        assert(commands_view(cmds@) =~= step(old(self)@, m, 0).1);
        cmds
    }

    fn remove_alert(&mut self, wallet_index: usize, alert_id: u64) -> (cmds: Vec<Command>)
        requires
            old(self)@.wf(),
        ensures
            final(self)@ == step_remove_alert(old(self)@, wallet_index, alert_id).0,
            commands_view(cmds@) == step_remove_alert(old(self)@, wallet_index, alert_id).1,
    {
        let mut cmds: Vec<Command> = Vec::new();
        if wallet_index > 0 && wallet_index - 1 < self.wallets.len() {
            let i = wallet_index - 1;
            let ghost w = old(self)@.wallets[i as int];
            let alerts = alerts_without_id(&self.wallets[i].alerts, alert_id);
            self.wallets[i].alerts = alerts;
            cmds.push(Command::SaveWallets);
            assert(wallets_view(self.wallets@) =~= old(self)@.wallets.update(
                i as int,
                WalletView { alerts: w.alerts.filter(other_id(alert_id)), ..w },
            ));
        }
        assert(self@ =~= step_remove_alert(old(self)@, wallet_index, alert_id).0);
        assert(commands_view(cmds@) =~= step_remove_alert(old(self)@, wallet_index, alert_id).1);
        cmds
    }

    fn toggle_alert(&mut self, wallet_index: usize, alert_id: u64) -> (cmds: Vec<Command>)
        requires
            old(self)@.wf(),
        ensures
            final(self)@ == step_toggle_alert(old(self)@, wallet_index, alert_id).0,
            commands_view(cmds@) == step_toggle_alert(old(self)@, wallet_index, alert_id).1,
    {
        let mut cmds: Vec<Command> = Vec::new();
        if wallet_index > 0 && wallet_index - 1 < self.wallets.len() {
            let i = wallet_index - 1;
            match first_alert_position(&self.wallets[i].alerts, alert_id) {
                Some(k) => {
                    let ghost w = old(self)@.wallets[i as int];
                    let mut a = self.wallets[i].alerts[k].duplicate();
                    a.enabled = !a.enabled;
                    let ghost av = a;
                    self.wallets[i].alerts.set(k, a);
                    cmds.push(Command::SaveWallets);
                    proof {
                        let c = choose|c: int| first_alert_with(w.alerts, alert_id, c);
                        assert(c == k as int) by {
                            if c < k {
                            } else if c > k {
                            }
                        }
                        assert(toggled(w.alerts, alert_id) == w.alerts.update(k as int, av));
                    }
                    assert(wallets_view(self.wallets@) =~= old(self)@.wallets.update(
                        i as int,
                        WalletView { alerts: toggled(w.alerts, alert_id), ..w },
                    ));
                },
                None => {},
            }
        }
        assert(self@ =~= step_toggle_alert(old(self)@, wallet_index, alert_id).0);
        assert(commands_view(cmds@) =~= step_toggle_alert(old(self)@, wallet_index, alert_id).1);
        cmds
    }

    fn previous(&mut self, now: u64) -> (cmds: Vec<Command>)
        requires
            old(self)@.wf(),
        ensures
            final(self)@ == step_previous(old(self)@, now).0,
            commands_view(cmds@) == step_previous(old(self)@, now).1,
    {
        let total = self.wallets.len() + 1;
        if self.active_tab == PopupTab::Alerts || total <= 1 {
            let cmds: Vec<Command> = Vec::new();
            assert(commands_view(cmds@) =~= step_previous(old(self)@, now).1);
            return cmds;
        }
        let new_index = if self.current_wallet_index == 0 {
            total - 1
        } else {
            self.current_wallet_index - 1
        };
        self.switch_wallet(new_index, now)
    }

    fn next(&mut self, now: u64) -> (cmds: Vec<Command>)
        requires
            old(self)@.wf(),
        ensures
            final(self)@ == step_next(old(self)@, now).0,
            commands_view(cmds@) == step_next(old(self)@, now).1,
    {
        let total = self.wallets.len() + 1;
        if self.active_tab == PopupTab::Alerts || total <= 1 {
            let cmds: Vec<Command> = Vec::new();
            assert(commands_view(cmds@) =~= step_next(old(self)@, now).1);
            return cmds;
        }
        let new_index = (self.current_wallet_index + 1) % total;
        self.switch_wallet(new_index, now)
    }

    /// Answers `message`, received at `now` (monotonic nanoseconds): changes
    /// the state as `step` says and returns the commands for the surrounding
    /// program to carry out, in order.
    pub fn update(&mut self, message: Message, now: u64) -> (cmds: Vec<Command>)
        requires
            old(self)@.wf(),
            adds_alert(old(self)@, message) ==> old(self)@.next_alert_id < u64::MAX,
        ensures
            final(self)@ == step(old(self)@, message, now).0,
            commands_view(cmds@) == step(old(self)@, message, now).1,
            final(self)@.wf(),
    {
        proof {
            law_step_keeps_wf(self@, message, now);
        }
        let ghost m = message;
        let mut cmds: Vec<Command> = Vec::new();
        match message {
            Message::TogglePopup => {
                cmds = self.toggle_popup();
            },
            Message::Tick => {
                self.tick();
            },
            Message::MarketLoaded(result) => {
                cmds = self.market_loaded(result, now);
            },
            Message::NewsLoaded(result) => {
                self.news_loaded(result);
            },
            Message::OpenNewsLink(url) => {
                cmds.push(Command::OpenLink(url));
            },
            Message::RefreshMarket => {
                cmds = self.refresh();
            },
            Message::SetRefreshInterval(interval) => {
                self.set_refresh_interval(interval);
                cmds.push(Command::SaveConfig);
            },
            Message::SetNumberOfNewsBySymbols(val) => {
                cmds = self.set_news_count(val);
            },
            Message::SetStokeRotationInterval(val) => {
                cmds = self.set_rotation(val);
            },
            Message::OpenConfigBUtton => {
                self.active_tab = if self.active_tab == PopupTab::Settings {
                    PopupTab::Overview
                } else {
                    PopupTab::Settings
                };
            },
            Message::ToggleShowOnlyIcon(new_value) => {
                self.config.show_only_icon = new_value;
                cmds.push(Command::SaveConfig);
            },
            Message::ToggleShowNews(new_value) => {
                cmds = self.show_news(new_value);
            },
            Message::ToggleNewsExpanded => {
                self.news_expanded = !self.news_expanded;
            },
            Message::AddWallet => {
                cmds = self.add_wallet();
            },
            Message::SwitchWallet(index) => {
                cmds = self.switch_wallet(index, now);
            },
            Message::PreviusWallet => {
                cmds = self.previous(now);
            },
            Message::NextWallet => {
                cmds = self.next(now);
            },
            Message::ToggleRenameMode => {
                self.toggle_rename();
            },
            Message::RenameWallet(val) => {
                self.rename_input = val;
            },
            Message::ConfirmRenameWallet => {
                cmds = self.confirm_rename();
            },
            Message::StockSearchInput(val) => {
                cmds = self.search_input(val);
            },
            Message::StockSearchResults(result) => {
                self.search_results(result);
            },
            Message::AddStockToWallet(label) => {
                cmds = self.add_stock(label);
            },
            Message::RemoveStockFromWallet(symbol) => {
                cmds = self.remove_stock(symbol);
            },
            Message::DeleteCurrentWallet => {
                cmds = self.delete_wallet();
            },
            Message::ToggleAlertsEnabled(val) => {
                self.config.alerts_enabled = val;
                cmds.push(Command::SaveConfig);
            },
            Message::AddAlert { wallet_index, symbol, condition } => {
                cmds = self.add_alert(wallet_index, symbol, condition);
            },
            Message::RemoveAlert { wallet_index, alert_id } => {
                cmds = self.remove_alert(wallet_index, alert_id);
            },
            Message::ToggleAlert { wallet_index, alert_id } => {
                cmds = self.toggle_alert(wallet_index, alert_id);
            },
            Message::AlertSelectCondition(condition) => {
                self.alert_selected_condition = condition;
            },
            Message::AlertSetValue(val) => {
                self.alert_input_value = val;
            },
            Message::OpenAlertsTab(symbol) => {
                self.active_tab = PopupTab::Alerts;
                self.alert_selected_symbol = Some(symbol);
            },
            Message::CloseAlertsTab => {
                self.close_alerts_tab();
            },
        }
        assert(self@ =~= step(old(self)@, m, now).0);
        assert(commands_view(cmds@) =~= step(old(self)@, m, now).1);
        cmds
    }
}

/// Every message keeps the state well formed.
#[verifier::rlimit(50)]
pub proof fn law_step_keeps_wf(s: AppView, m: Message, now: u64)
    requires
        s.wf(),
    ensures
        step(s, m, now).0.wf(),
{
    match m {
        Message::PreviusWallet => {
            lemma_switch_keeps_wf(s, now);
        },
        Message::NextWallet => {
            lemma_switch_keeps_wf(s, now);
        },
        Message::SwitchWallet(_) => {
            lemma_switch_keeps_wf(s, now);
        },
        Message::DeleteCurrentWallet => {
            if s.wallet_index > 0 {
                assert(s.wallets.remove(s.wallet_index - 1).len() == s.wallets.len() - 1);
            }
        },
        Message::AddStockToWallet(label) => {
            lemma_add_stock_keeps_wallets_len(s, label@);
        },
        _ => {},
    }
}

proof fn lemma_switch_keeps_wf(s: AppView, now: u64)
    requires
        s.wf(),
    ensures
        forall|i: usize| #[trigger] step_switch(s, i, now).0.wf(),
{
}

proof fn lemma_add_stock_keeps_wallets_len(s: AppView, label: Seq<char>)
    requires
        s.wf(),
    ensures
        step_add_stock(s, label).0.wf(),
{
}

// ===================== start-up =====================

pub open spec fn max_opt(a: Option<u64>, b: Option<u64>) -> Option<u64> {
    match (a, b) {
        (Some(x), Some(y)) => Some(if x >= y { x } else { y }),
        (Some(x), None) => Some(x),
        (None, y) => y,
    }
}

/// The largest id among `alerts`.
pub open spec fn alerts_max_id(alerts: Seq<PriceAlert>) -> Option<u64>
    decreases alerts.len(),
{
    if alerts.len() == 0 {
        None
    } else {
        max_opt(alerts_max_id(alerts.drop_last()), Some(alerts.last().id))
    }
}

/// The largest id among the alerts of all `wallets`.
pub open spec fn wallets_max_id(wallets: Seq<WalletView>) -> Option<u64>
    decreases wallets.len(),
{
    if wallets.len() == 0 {
        None
    } else {
        max_opt(wallets_max_id(wallets.drop_last()), alerts_max_id(wallets.last().alerts))
    }
}

/// The id that the next alert gets: one past the largest id in use, zero
/// where there is no alert.
pub open spec fn first_free_id(wallets: Seq<WalletView>) -> u64 {
    match wallets_max_id(wallets) {
        Some(m) => (m + 1) as u64,
        None => 0,
    }
}

/// Every alert of `wallets` has an id below `bound`.
pub open spec fn ids_below(wallets: Seq<WalletView>, bound: u64) -> bool {
    forall|k: int, j: int|
        0 <= k < wallets.len() && 0 <= j < wallets[k].alerts.len() ==> (
        #[trigger] wallets[k].alerts[j]).id < bound
}

/// The state at start-up, from the stored settings and wallets.
pub open spec fn initial_state(config: Config, wallets: Seq<WalletView>) -> AppView {
    let saved = config.last_wallet_index;
    AppView {
        active_tab: PopupTab::Overview,
        popup_open: false,
        quotes: Seq::empty(),
        news: Seq::empty(),
        news_expanded: false,
        news_input: decimal(config.count_news_by_simbol as nat),
        config,
        current_index: 0,
        error: None,
        wallets,
        wallet_index: if saved <= wallets.len() {
            saved
        } else {
            0
        },
        rename_mode: false,
        rename_input: Seq::empty(),
        search_input: Seq::empty(),
        search_results: Seq::empty(),
        search_loading: false,
        fetch_times: Map::empty(),
        cached_quotes: Map::empty(),
        cached_news: Map::empty(),
        next_alert_id: first_free_id(wallets),
        alert_symbol: None,
        alert_condition: initial_condition(),
        alert_input: Seq::empty(),
    }
}

proof fn lemma_alerts_max(alerts: Seq<PriceAlert>)
    ensures
        alerts_max_id(alerts) is None <==> alerts.len() == 0,
        alerts_max_id(alerts) matches Some(m) ==> forall|j: int|
            0 <= j < alerts.len() ==> (#[trigger] alerts[j]).id <= m,
        alerts_max_id(alerts) matches Some(m) ==> exists|j: int|
            0 <= j < alerts.len() && (#[trigger] alerts[j]).id == m,
    decreases alerts.len(),
{
    if alerts.len() > 0 {
        lemma_alerts_max(alerts.drop_last());
        let m = alerts_max_id(alerts)->0;
        assert forall|j: int| 0 <= j < alerts.len() implies (#[trigger] alerts[j]).id <= m by {
            if j < alerts.len() - 1 {
                assert(alerts[j] == alerts.drop_last()[j]);
            }
        }
        if let Some(p) = alerts_max_id(alerts.drop_last()) {
            if p >= alerts.last().id {
                let j = choose|j: int|
                    0 <= j < alerts.drop_last().len() && (#[trigger] alerts.drop_last()[j]).id == p;
                assert(alerts[j] == alerts.drop_last()[j]);
            } else {
                assert(alerts[alerts.len() - 1].id == m);
            }
        } else {
            assert(alerts[alerts.len() - 1].id == m);
        }
    }
}

proof fn lemma_wallets_max(wallets: Seq<WalletView>)
    ensures
        wallets_max_id(wallets) matches Some(m) ==> forall|k: int, j: int|
            0 <= k < wallets.len() && 0 <= j < wallets[k].alerts.len() ==> (
            #[trigger] wallets[k].alerts[j]).id <= m,
        wallets_max_id(wallets) matches Some(m) ==> exists|k: int, j: int|
            0 <= k < wallets.len() && 0 <= j < wallets[k].alerts.len() && (
            #[trigger] wallets[k].alerts[j]).id == m,
        wallets_max_id(wallets) is None ==> forall|k: int|
            0 <= k < wallets.len() ==> (#[trigger] wallets[k]).alerts.len() == 0,
    decreases wallets.len(),
{
    if wallets.len() > 0 {
        let prev = wallets.drop_last();
        let last = wallets.last();
        lemma_wallets_max(prev);
        lemma_alerts_max(last.alerts);
        assert forall|k: int| 0 <= k < wallets.len() - 1 implies wallets[k] == #[trigger] prev[k] by {}
        if let Some(m) = wallets_max_id(wallets) {
            assert forall|k: int, j: int|
                0 <= k < wallets.len() && 0 <= j < wallets[k].alerts.len() implies (
                #[trigger] wallets[k].alerts[j]).id <= m by {
                if k < wallets.len() - 1 {
                    assert(wallets[k] == prev[k]);
                    assert(prev[k].alerts[j].id <= wallets_max_id(prev)->0);
                } else {
                    assert(last.alerts[j].id <= alerts_max_id(last.alerts)->0);
                }
            }
            if let Some(p) = wallets_max_id(prev) {
                if let Some(q) = alerts_max_id(last.alerts) {
                    if p >= q {
                        let (k, j) = choose|k: int, j: int|
                            0 <= k < prev.len() && 0 <= j < prev[k].alerts.len() && (
                            #[trigger] prev[k].alerts[j]).id == p;
                        assert(wallets[k] == prev[k]);
                        assert(wallets[k].alerts[j].id == m);
                    } else {
                        let j = choose|j: int|
                            0 <= j < last.alerts.len() && (#[trigger] last.alerts[j]).id == q;
                        assert(wallets[wallets.len() - 1].alerts[j].id == m);
                    }
                } else {
                    let (k, j) = choose|k: int, j: int|
                        0 <= k < prev.len() && 0 <= j < prev[k].alerts.len() && (
                        #[trigger] prev[k].alerts[j]).id == p;
                    assert(wallets[k] == prev[k]);
                    assert(wallets[k].alerts[j].id == m);
                }
            } else {
                let q = alerts_max_id(last.alerts)->0;
                let j = choose|j: int|
                    0 <= j < last.alerts.len() && (#[trigger] last.alerts[j]).id == q;
                assert(wallets[wallets.len() - 1].alerts[j].id == m);
            }
        } else {
            assert forall|k: int| 0 <= k < wallets.len() implies (
            #[trigger] wallets[k]).alerts.len() == 0 by {
                if k < wallets.len() - 1 {
                    assert(wallets[k] == prev[k]);
                }
            }
        }
    }
}

/// Where every stored alert has an id below `u64::MAX`, the first free id
/// lies above all of them.
pub proof fn law_first_free_id_is_fresh(wallets: Seq<WalletView>)
    requires
        ids_below(wallets, u64::MAX),
    ensures
        ids_below(wallets, first_free_id(wallets)),
{
    lemma_wallets_max(wallets);
    if let Some(m) = wallets_max_id(wallets) {
        let (k, j) = choose|k: int, j: int|
            0 <= k < wallets.len() && 0 <= j < wallets[k].alerts.len() && (
            #[trigger] wallets[k].alerts[j]).id == m;
        assert(m < u64::MAX);
    } else {
        assert forall|k: int, j: int|
            0 <= k < wallets.len() && 0 <= j < wallets[k].alerts.len() implies (
            #[trigger] wallets[k].alerts[j]).id < first_free_id(wallets) by {
            assert(wallets[k].alerts.len() == 0);
        }
    }
}

fn max_of(a: Option<u64>, b: Option<u64>) -> (r: Option<u64>)
    ensures
        r == max_opt(a, b),
{
    match (a, b) {
        (Some(x), Some(y)) => Some(if x >= y { x } else { y }),
        (Some(x), None) => Some(x),
        (None, y) => y,
    }
}

fn first_free_id_of(wallets: &Vec<Wallet>) -> (r: u64)
    requires
        ids_below(wallets_view(wallets@), u64::MAX),
    ensures
        r == first_free_id(wallets_view(wallets@)),
{
    let ghost ws = wallets_view(wallets@);
    let mut best: Option<u64> = None;
    let mut k: usize = 0;
    while k < wallets.len()
        invariant
            k <= wallets@.len(),
            ws == wallets_view(wallets@),
            best == wallets_max_id(ws.take(k as int)),
        decreases wallets.len() - k,
    {
        let alerts = &wallets[k].alerts;
        let mut inner: Option<u64> = None;
        let mut j: usize = 0;
        while j < alerts.len()
            invariant
                j <= alerts@.len(),
                alerts@ == ws[k as int].alerts,
                inner == alerts_max_id(alerts@.take(j as int)),
            decreases alerts.len() - j,
        {
            assert(alerts@.take(j + 1).drop_last() =~= alerts@.take(j as int));
            inner = max_of(inner, Some(alerts[j].id));
            j = j + 1;
        }
        assert(alerts@.take(alerts@.len() as int) =~= alerts@);
        assert(ws.take(k + 1).drop_last() =~= ws.take(k as int));
        best = max_of(best, inner);
        k = k + 1;
    }
    assert(ws.take(wallets@.len() as int) =~= ws);
    proof {
        lemma_wallets_max(ws);
    }
    match best {
        Some(m) => {
            proof {
                let (a, b) = choose|a: int, b: int|
                    0 <= a < ws.len() && 0 <= b < ws[a].alerts.len() && (#[trigger] ws[a].alerts[b]).id == m;
            }
            m + 1
        },
        None => 0,
    }
}

impl AppModel {
    /// The state at start-up, from the stored settings and wallets, and the
    /// fetch that fills the screen on show.
    pub fn new(config: Config, wallets: Vec<Wallet>) -> (r: (AppModel, Vec<Command>))
        requires
            wallets@.len() < usize::MAX,
            ids_below(wallets_view(wallets@), u64::MAX),
        ensures
            r.0@ == initial_state(config, wallets_view(wallets@)),
            commands_view(r.1@) == initial_state(config, wallets_view(wallets@)).fetch_for(
                r.0@.wallet_index,
            ),
            r.0@.wf(),
    {
        let next_alert_id = first_free_id_of(&wallets);
        let saved_index = config.last_wallet_index;
        let safe_index = if saved_index <= wallets.len() {
            saved_index
        } else {
            0
        };
        let app = AppModel {
            active_tab: PopupTab::Overview,
            popup_open: false,
            market_quotes: Vec::new(),
            news_items: Vec::new(),
            news_expanded: false,
            news_per_symbol_input: crate::text::u64_to_string(config.count_news_by_simbol),
            config,
            current_index: 0,
            error_message: None,
            wallets,
            current_wallet_index: safe_index,
            rename_mode: false,
            rename_input: String::new(),
            stock_search_input: String::new(),
            stock_search_results: Vec::new(),
            stock_search_loading: false,
            last_fetch_time: HashMap::new(),
            cached_quotes: HashMap::new(),
            cached_news: HashMap::new(),
            next_alert_id,
            alert_selected_symbol: None,
            alert_selected_condition: AlertCondition::PriceAbove(0),
            alert_input_value: String::new(),
        };
        proof {
            lemma_cache_views(Map::empty(), Map::empty(), 0, app.market_quotes, app.news_items);
        }
        assert(app@ =~= initial_state(config, wallets_view(app.wallets@)));
        let cmds = app.fetch_for(safe_index);
        (app, cmds)
    }
}

// ===================== alerts against quotes =====================

/// An enabled alert that has a quote to be judged against: the wallet it
/// belongs to (position in the list of wallets), its id and condition, and
/// the position of the first quote of its symbol.
#[derive(Debug, Clone, Copy, PartialEq, Eq, Structural)]
pub struct AlertCheck {
    pub wallet_index: usize,
    pub alert_id: u64,
    pub condition: AlertCondition,
    pub quote_index: usize,
}

/// `i` is the position of the first quote of `symbol`.
pub open spec fn first_quote_of(quotes: Seq<MarketQuote>, symbol: Seq<char>, i: int) -> bool {
    &&& 0 <= i < quotes.len()
    &&& quotes[i].symbol@ == symbol
    &&& forall|j: int| 0 <= j < i ==> (#[trigger] quotes[j]).symbol@ != symbol
}

pub open spec fn has_quote(quotes: Seq<MarketQuote>, symbol: Seq<char>) -> bool {
    exists|i: int| 0 <= i < quotes.len() && (#[trigger] quotes[i]).symbol@ == symbol
}

/// The checks for the alerts of one wallet, in order.
pub open spec fn wallet_checks(wallet: int, alerts: Seq<PriceAlert>, quotes: Seq<MarketQuote>) -> Seq<
    AlertCheck,
>
    decreases alerts.len(),
{
    if alerts.len() == 0 {
        seq![]
    } else {
        let before = wallet_checks(wallet, alerts.drop_last(), quotes);
        let a = alerts.last();
        if a.enabled && has_quote(quotes, a.symbol@) {
            before.push(
                AlertCheck {
                    wallet_index: wallet as usize,
                    alert_id: a.id,
                    condition: a.condition,
                    quote_index: (choose|i: int| first_quote_of(quotes, a.symbol@, i)) as usize,
                },
            )
        } else {
            before
        }
    }
}

/// The checks for the alerts of all wallets, wallet by wallet.
pub open spec fn all_checks(wallets: Seq<WalletView>, quotes: Seq<MarketQuote>) -> Seq<AlertCheck>
    decreases wallets.len(),
{
    if wallets.len() == 0 {
        seq![]
    } else {
        all_checks(wallets.drop_last(), quotes) + wallet_checks(
            wallets.len() - 1,
            wallets.last().alerts,
            quotes,
        )
    }
}

/// The alerts after those that fired are taken out: an alert of wallet `k`
/// goes where `(k, id)` is among `fired`.
pub open spec fn without_fired(wallets: Seq<WalletView>, fired: Seq<(usize, u64)>) -> Seq<WalletView> {
    Seq::new(
        wallets.len(),
        |k: int|
            WalletView {
                alerts: wallets[k].alerts.filter(not_fired(fired, k)),
                ..wallets[k]
            },
    )
}

proof fn lemma_filter_ext<A>(s: Seq<A>, p: spec_fn(A) -> bool, q: spec_fn(A) -> bool)
    requires
        forall|x: A| #[trigger] p(x) == q(x),
    ensures
        s.filter(p) == s.filter(q),
    decreases s.len(),
{
    reveal(Seq::filter);
    if s.len() > 0 {
        lemma_filter_ext(s.drop_last(), p, q);
    }
}

proof fn lemma_filter_and<A>(
    s: Seq<A>,
    p: spec_fn(A) -> bool,
    q: spec_fn(A) -> bool,
    r: spec_fn(A) -> bool,
)
    requires
        forall|x: A| #[trigger] r(x) == (p(x) && q(x)),
    ensures
        s.filter(p).filter(q) == s.filter(r),
    decreases s.len(),
{
    reveal(Seq::filter);
    if s.len() > 0 {
        lemma_filter_and(s.drop_last(), p, q, r);
        let sp = s.filter(p);
        if p(s.last()) {
            assert(sp.drop_last() == s.drop_last().filter(p));
            assert(sp.last() == s.last());
        } else {
            assert(sp == s.drop_last().filter(p));
        }
    }
}

fn first_quote_position(quotes: &Vec<MarketQuote>, symbol: &str) -> (r: Option<usize>)
    ensures
        match r {
            Some(i) => first_quote_of(quotes@, symbol@, i as int),
            None => !has_quote(quotes@, symbol@),
        },
{
    let mut i: usize = 0;
    while i < quotes.len()
        invariant
            i <= quotes@.len(),
            forall|j: int| 0 <= j < i ==> (#[trigger] quotes@[j]).symbol@ != symbol@,
        decreases quotes.len() - i,
    {
        if crate::text::same_text(quotes[i].symbol.as_str(), symbol) {
            return Some(i);
        }
        i = i + 1;
    }
    None
}

impl AppModel {
    /// The enabled alerts of all wallets that have a quote on show to be
    /// judged against, wallet by wallet and in the order of the alerts.
    pub fn pending_alert_checks(&self) -> (r: Vec<AlertCheck>)
        ensures
            r@ == all_checks(self@.wallets, self@.quotes),
    {
        let ghost ws = self@.wallets;
        let ghost qs = self@.quotes;
        let mut r: Vec<AlertCheck> = Vec::new();
        let mut k: usize = 0;
        while k < self.wallets.len()
            invariant
                k <= self.wallets@.len(),
                ws == wallets_view(self.wallets@),
                qs == self.market_quotes@,
                r@ == all_checks(ws.take(k as int), qs),
            decreases self.wallets.len() - k,
        {
            let alerts = &self.wallets[k].alerts;
            let ghost before = r@;
            let mut j: usize = 0;
            while j < alerts.len()
                invariant
                    j <= alerts@.len(),
                    alerts@ == ws[k as int].alerts,
                    qs == self.market_quotes@,
                    r@ == before + wallet_checks(k as int, alerts@.take(j as int), qs),
                decreases alerts.len() - j,
            {
                assert(alerts@.take(j + 1).drop_last() =~= alerts@.take(j as int));
                let a = &alerts[j];
                if a.enabled {
                    match first_quote_position(&self.market_quotes, a.symbol.as_str()) {
                        Some(qi) => {
                            proof {
                                let c = choose|i: int| first_quote_of(qs, a.symbol@, i);
                                assert(c == qi as int) by {
                                    if c < qi {
                                    } else if c > qi {
                                    }
                                }
                            }
                            r.push(
                                AlertCheck {
                                    wallet_index: k,
                                    alert_id: a.id,
                                    condition: a.condition,
                                    quote_index: qi,
                                },
                            );
                        },
                        None => {},
                    }
                }
                assert(r@ =~= before + wallet_checks(k as int, alerts@.take(j + 1), qs));
                j = j + 1;
            }
            assert(alerts@.take(alerts@.len() as int) =~= alerts@);
            assert(ws.take(k + 1).drop_last() =~= ws.take(k as int));
            k = k + 1;
        }
        assert(ws.take(self.wallets@.len() as int) =~= ws);
        r
    }

    /// Takes out the alerts that fired: `(k, id)` names the alert `id` of
    /// `wallets[k]`. Asks to store the wallets where any fired.
    pub fn remove_triggered_alerts(&mut self, fired: &Vec<(usize, u64)>) -> (cmds: Vec<Command>)
        requires
            old(self)@.wf(),
            forall|j: int| 0 <= j < fired@.len() ==> (#[trigger] fired@[j]).0 < old(self)@.wallets.len(),
        ensures
            final(self)@ == (AppView { wallets: without_fired(old(self)@.wallets, fired@), ..old(self)@ }),
            commands_view(cmds@) == if fired@.len() > 0 {
                seq![CommandView::SaveWallets]
            } else {
                seq![]
            },
            final(self)@.wf(),
    {
        let ghost ws = old(self)@.wallets;
        let mut j: usize = 0;
        assert(without_fired(ws, fired@.take(0)) =~= ws) by {
            assert forall|k: int| 0 <= k < ws.len() implies #[trigger] without_fired(ws, fired@.take(0))[k] == ws[k] by {
                let p = not_fired(fired@.take(0), k);
                lemma_filter_ext(ws[k].alerts, p, |a: PriceAlert| true);
                reveal(Seq::filter);
                assert(ws[k].alerts.filter(|a: PriceAlert| true) =~= ws[k].alerts) by {
                    lemma_filter_all(ws[k].alerts);
                }
            }
        }
        while j < fired.len()
            invariant
                j <= fired@.len(),
                forall|i: int| 0 <= i < fired@.len() ==> (#[trigger] fired@[i]).0 < ws.len(),
                self@ == (AppView { wallets: without_fired(ws, fired@.take(j as int)), ..old(self)@ }),
                self.wallets@.len() == ws.len(),
                ws.len() < usize::MAX,
            decreases fired.len() - j,
        {
            let (wi, id) = fired[j];
            assert(fired@[j as int].0 < ws.len());
            let ghost before = wallets_view(self.wallets@);
            let alerts = alerts_without_id(&self.wallets[wi].alerts, id);
            self.wallets[wi].alerts = alerts;
            assert(wallets_view(self.wallets@) =~= before.update(
                wi as int,
                WalletView {
                    alerts: before[wi as int].alerts.filter(other_id(id)),
                    ..before[wi as int]
                },
            ));
            proof {
                assert(fired@.take(j + 1) =~= fired@.take(j as int).push((wi, id)));
                lemma_fire_one(ws, fired@.take(j as int), wi, id, before, wallets_view(self.wallets@));
            }
            assert(self@ =~= AppView { wallets: without_fired(ws, fired@.take(j + 1)), ..old(self)@ });
            j = j + 1;
        }
        assert(fired@.take(fired@.len() as int) =~= fired@);
        let mut cmds: Vec<Command> = Vec::new();
        if fired.len() > 0 {
            cmds.push(Command::SaveWallets);
        }
        assert(commands_view(cmds@) =~= if fired@.len() > 0 {
            seq![CommandView::SaveWallets]
        } else {
            seq![]
        });
        cmds
    }
}

proof fn lemma_contains_push<A>(s: Seq<A>, x: A, y: A)
    ensures
        s.push(x).contains(y) == (s.contains(y) || y == x),
{
    if s.push(x).contains(y) {
        let i = choose|i: int| 0 <= i < s.push(x).len() && s.push(x)[i] == y;
        if i < s.len() {
            assert(s[i] == y);
        }
    }
    if s.contains(y) {
        let i = choose|i: int| 0 <= i < s.len() && s[i] == y;
        assert(s.push(x)[i] == y);
    }
    if y == x {
        assert(s.push(x)[s.len() as int] == y);
    }
}

proof fn lemma_fire_one(
    ws: Seq<WalletView>,
    f0: Seq<(usize, u64)>,
    wi: usize,
    id: u64,
    before: Seq<WalletView>,
    after: Seq<WalletView>,
)
    requires
        before == without_fired(ws, f0),
        wi < ws.len(),
        ws.len() <= usize::MAX,
        after == before.update(
            wi as int,
            WalletView {
                alerts: before[wi as int].alerts.filter(other_id(id)),
                ..before[wi as int]
            },
        ),
    ensures
        after == without_fired(ws, f0.push((wi, id))),
{
    let f1 = f0.push((wi, id));
    assert forall|k: int| 0 <= k < ws.len() implies #[trigger] after[k] == without_fired(ws, f1)[k] by {
        let p0 = not_fired(f0, k);
        let p1 = not_fired(f1, k);
        assert forall|a: PriceAlert| #[trigger] p1(a) == (p0(a) && !(k as usize == wi && a.id
            == id)) by {
            lemma_contains_push(f0, (wi, id), (k as usize, a.id));
        }
        assert(before[k].alerts == ws[k].alerts.filter(p0));
        assert(without_fired(ws, f1)[k].alerts == ws[k].alerts.filter(p1));
        if k == wi as int {
            lemma_filter_and(ws[k].alerts, p0, other_id(id), p1);
        } else {
            lemma_filter_ext(ws[k].alerts, p0, p1);
        }
    }
    assert(after =~= without_fired(ws, f1));
}

proof fn lemma_filter_all<A>(s: Seq<A>)
    ensures
        s.filter(|a: A| true) == s,
    decreases s.len(),
{
    reveal(Seq::filter);
    if s.len() > 0 {
        lemma_filter_all(s.drop_last());
        assert(s.drop_last().push(s.last()) =~= s);
    }
}

// ===================== reading the state =====================

impl AppModel {
    /// The tab of the popup on show.
    pub fn active_tab(&self) -> (r: PopupTab)
        ensures
            r == self@.active_tab,
    {
        self.active_tab
    }

    /// Whether the popup is open.
    pub fn popup_open(&self) -> (r: bool)
        ensures
            r == self@.popup_open,
    {
        self.popup_open
    }

    /// The quotes on show.
    pub fn market_quotes(&self) -> (r: &Vec<MarketQuote>)
        ensures
            r@ == self@.quotes,
    {
        &self.market_quotes
    }

    /// The news items on show.
    pub fn news_items(&self) -> (r: &Vec<YahooNews>)
        ensures
            r@ == self@.news,
    {
        &self.news_items
    }

    /// Whether the whole list of news is shown.
    pub fn news_expanded(&self) -> (r: bool)
        ensures
            r == self@.news_expanded,
    {
        self.news_expanded
    }

    /// The text of the field for the number of news per asset.
    pub fn news_per_symbol_input(&self) -> (r: &str)
        ensures
            r@ == self@.news_input,
    {
        self.news_per_symbol_input.as_str()
    }

    /// The settings.
    pub fn config(&self) -> (r: Config)
        ensures
            r == self@.config,
    {
        self.config
    }

    /// The position of the quote shown in the panel.
    pub fn current_index(&self) -> (r: usize)
        ensures
            r == self@.current_index,
    {
        self.current_index
    }

    /// The error of the last fetch of quotes, if it failed.
    pub fn error_message(&self) -> (r: Option<&String>)
        ensures
            match r {
                Some(e) => self@.error == Some(e@),
                None => self@.error is None,
            },
    {
        match &self.error_message {
            Some(e) => Some(e),
            None => None,
        }
    }

    /// The user's wallets.
    pub fn wallets(&self) -> (r: &Vec<Wallet>)
        ensures
            wallets_view(r@) == self@.wallets,
    {
        &self.wallets
    }

    /// The screen on show: 0 the overview, `k > 0` the `k`-th wallet.
    pub fn current_wallet_index(&self) -> (r: usize)
        ensures
            r == self@.wallet_index,
    {
        self.current_wallet_index
    }

    /// The wallet whose name, assets and alerts the popup draws on: the one
    /// on show, and the first one on the overview.
    pub fn shown_wallet(&self) -> (r: Option<&Wallet>)
        ensures
            ({
                let i = if self@.wallet_index > 0 {
                    self@.wallet_index - 1
                } else {
                    0
                };
                match r {
                    Some(w) => i < self@.wallets.len() && w@ == self@.wallets[i],
                    None => i >= self@.wallets.len(),
                }
            }),
    {
        let i = if self.current_wallet_index > 0 {
            self.current_wallet_index - 1
        } else {
            0
        };
        if i < self.wallets.len() {
            Some(&self.wallets[i])
        } else {
            None
        }
    }

    /// Whether the wallet is being renamed.
    pub fn rename_mode(&self) -> (r: bool)
        ensures
            r == self@.rename_mode,
    {
        self.rename_mode
    }

    /// The text of the rename field.
    pub fn rename_input(&self) -> (r: &str)
        ensures
            r@ == self@.rename_input,
    {
        self.rename_input.as_str()
    }

    /// The text of the asset search field.
    pub fn stock_search_input(&self) -> (r: &str)
        ensures
            r@ == self@.search_input,
    {
        self.stock_search_input.as_str()
    }

    /// The labels that the asset search found.
    pub fn stock_search_results(&self) -> (r: &Vec<String>)
        ensures
            texts(r@) == self@.search_results,
    {
        &self.stock_search_results
    }

    /// Whether an asset search runs.
    pub fn stock_search_loading(&self) -> (r: bool)
        ensures
            r == self@.search_loading,
    {
        self.stock_search_loading
    }

    /// The asset picked in the alerts tab.
    pub fn alert_selected_symbol(&self) -> (r: Option<&String>)
        ensures
            match r {
                Some(s) => self@.alert_symbol == Some(s@),
                None => self@.alert_symbol is None,
            },
    {
        match &self.alert_selected_symbol {
            Some(s) => Some(s),
            None => None,
        }
    }

    /// The condition picked in the alerts tab.
    pub fn alert_selected_condition(&self) -> (r: AlertCondition)
        ensures
            r == self@.alert_condition,
    {
        self.alert_selected_condition
    }

    /// The text of the alert value field.
    pub fn alert_input_value(&self) -> (r: &str)
        ensures
            r@ == self@.alert_input,
    {
        self.alert_input_value.as_str()
    }

    /// The id that the next alert added will get.
    pub fn next_alert_id(&self) -> (r: u64)
        ensures
            r == self@.next_alert_id,
    {
        self.next_alert_id
    }

    /// When the screen on show was last fetched, if its data is cached.
    pub fn fetch_time_of_current(&self) -> (r: Option<u64>)
        ensures
            match r {
                Some(t) => self@.fetch_times.contains_key(self@.wallet_index) && t
                    == self@.fetch_times[self@.wallet_index],
                None => !self@.fetch_times.contains_key(self@.wallet_index),
            },
    {
        match self.last_fetch_time.get(&self.current_wallet_index) {
            Some(t) => Some(*t),
            None => None,
        }
    }
}

} // verus!
