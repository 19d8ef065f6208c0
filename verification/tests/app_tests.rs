use marketwatch::app::{AlertCheck, AppModel, Command, Message, MAX_ASSETS_PER_WALLET, MAX_WALLETS};
use marketwatch::config::{Config, PopupTab, RefreshInterval};
use marketwatch::marketwatch::{AlertCondition, MarketQuote, PriceAlert, YahooNews};
use marketwatch::wallet::Wallet;

const SEC: u64 = 1_000_000_000;

fn quote(symbol: &str, price: f64, pct: f64) -> MarketQuote {
    MarketQuote {
        change: (price * pct / 100.0).to_bits(),
        change_percent: pct.to_bits(),
        currency: "USD".to_string(),
        name: symbol.to_string(),
        price: price.to_bits(),
        symbol: symbol.to_string(),
    }
}

fn news(title: &str) -> YahooNews {
    YahooNews {
        title: title.to_string(),
        link: format!("https://example.com/{title}"),
        publisher: None,
        publish_time: None,
    }
}

fn wallet(name: &str, symbols: &[&str]) -> Wallet {
    Wallet {
        name: name.to_string(),
        symbols: symbols.iter().map(|s| s.to_string()).collect(),
        alerts: Vec::new(),
    }
}

fn alert(id: u64, symbol: &str) -> PriceAlert {
    PriceAlert {
        id,
        symbol: symbol.to_string(),
        condition: AlertCondition::TurnPositive,
        triggered: false,
        enabled: true,
    }
}

fn strings(v: &[&str]) -> Vec<String> {
    v.iter().map(|s| s.to_string()).collect()
}

fn fresh() -> AppModel {
    AppModel::new(Config::default(), Vec::new()).0
}

#[test]
fn startup_fetches_the_screen_on_show() {
    let (m, cmds) = AppModel::new(Config::default(), Vec::new());
    assert_eq!(cmds, vec![Command::FetchMostActive(5)]);
    assert_eq!(m.current_wallet_index(), 0);
    assert_eq!(m.news_per_symbol_input(), "1");
    assert_eq!(m.active_tab(), PopupTab::Overview);
    assert!(m.market_quotes().is_empty());

    let mut config = Config::default();
    config.last_wallet_index = 1;
    let (m, cmds) = AppModel::new(config, vec![wallet("W", &["AAPL", "MSFT"])]);
    assert_eq!(m.current_wallet_index(), 1);
    assert_eq!(cmds, vec![Command::FetchBySymbols(strings(&["AAPL", "MSFT"]))]);

    let (_, cmds) = AppModel::new(config, vec![wallet("W", &[])]);
    assert!(cmds.is_empty());

    config.last_wallet_index = 3;
    let (m, cmds) = AppModel::new(config, vec![wallet("W", &["AAPL"])]);
    assert_eq!(m.current_wallet_index(), 0);
    assert_eq!(cmds, vec![Command::FetchMostActive(5)]);
}

#[test]
fn next_alert_id_follows_the_largest() {
    let mut w = wallet("W", &["AAPL"]);
    w.alerts.push(alert(3, "AAPL"));
    w.alerts.push(alert(7, "AAPL"));
    let mut config = Config::default();
    config.last_wallet_index = 1;
    let (mut m, _) = AppModel::new(config, vec![wallet("A", &[]), w]);
    m.update(
        Message::AddAlert { wallet_index: 1, symbol: "X".to_string(), condition: AlertCondition::TurnNegative },
        0,
    );
    assert_eq!(m.wallets()[0].alerts[0].id, 8);
}

#[test]
fn market_loaded_caches_and_asks_for_news() {
    let mut m = fresh();
    let data = vec![quote("A", 1.0, 1.0), quote("B", 2.0, -1.0), quote("C", 3.0, 0.0), quote("D", 4.0, 2.0)];
    let cmds = m.update(Message::MarketLoaded(Ok(data.clone())), 5 * SEC);
    assert_eq!(
        cmds,
        vec![Command::CheckAlerts, Command::FetchNews(strings(&["A", "B", "C"]), 1), Command::Tick]
    );
    assert_eq!(m.market_quotes(), &data);
    assert!(m.error_message().is_none());
    assert_eq!(m.fetch_time_of_current(), Some(5 * SEC));

    let cmds = m.update(Message::ToggleShowNews(false), 6 * SEC);
    assert_eq!(cmds, vec![Command::SaveConfig]);
    let cmds = m.update(Message::MarketLoaded(Ok(data.clone())), 7 * SEC);
    assert_eq!(cmds, vec![Command::CheckAlerts, Command::Tick]);
}

#[test]
fn market_error_clears_quotes_and_cache() {
    let mut m = fresh();
    m.update(Message::MarketLoaded(Ok(vec![quote("A", 1.0, 1.0)])), 0);
    let cmds = m.update(Message::MarketLoaded(Err("timeout".to_string())), SEC);
    assert_eq!(cmds, vec![Command::Tick]);
    assert_eq!(m.error_message().map(|s| s.as_str()), Some("timeout"));
    assert!(m.market_quotes().is_empty());
    assert_eq!(m.fetch_time_of_current(), None);
}

#[test]
fn tick_rotates_through_quotes() {
    let mut m = fresh();
    m.update(Message::Tick, 0);
    assert_eq!(m.current_index(), 0);
    m.update(Message::MarketLoaded(Ok(vec![quote("A", 1.0, 1.0), quote("B", 1.0, 1.0), quote("C", 1.0, 1.0)])), 0);
    let mut seen = Vec::new();
    for _ in 0..4 {
        m.update(Message::Tick, 0);
        seen.push(m.current_index());
    }
    assert_eq!(seen, vec![1, 2, 0, 1]);
}

#[test]
fn cached_quotes_come_back_within_the_interval() {
    let mut m = fresh();
    let data = vec![quote("A", 1.0, 1.0), quote("B", 2.0, 1.0)];
    m.update(Message::MarketLoaded(Ok(data.clone())), 10 * SEC);
    m.update(Message::NewsLoaded(Ok(vec![news("n1")])), 11 * SEC);
    let cmds = m.update(Message::AddWallet, 12 * SEC);
    assert_eq!(cmds, vec![Command::SaveWallets]);
    assert_eq!(m.current_wallet_index(), 1);
    assert!(m.market_quotes().is_empty());

    let cmds = m.update(Message::SwitchWallet(0), 20 * SEC);
    assert_eq!(cmds, vec![Command::SaveConfig]);
    assert_eq!(m.market_quotes(), &data);
    assert_eq!(m.news_items(), &vec![news("n1")]);
    assert_eq!(m.config().last_wallet_index, 0);

    // 15 minutes after the fetch, the overview is fetched again
    m.update(Message::SwitchWallet(1), 21 * SEC);
    let cmds = m.update(Message::SwitchWallet(0), 10 * SEC + 900 * SEC);
    assert_eq!(cmds, vec![Command::SaveConfig, Command::FetchMostActive(5)]);
    assert!(m.market_quotes().is_empty());
}

#[test]
fn changing_the_interval_drops_the_caches() {
    let mut m = fresh();
    m.update(Message::MarketLoaded(Ok(vec![quote("A", 1.0, 1.0)])), 0);
    m.update(Message::AddWallet, 0);
    let cmds = m.update(Message::SetRefreshInterval(RefreshInterval::OneHour), 0);
    assert_eq!(cmds, vec![Command::SaveConfig]);
    assert_eq!(m.config().refresh_interval, RefreshInterval::OneHour);
    let cmds = m.update(Message::SwitchWallet(0), SEC);
    assert_eq!(cmds, vec![Command::SaveConfig, Command::FetchMostActive(5)]);
}

#[test]
fn refresh_fetches_again() {
    let mut m = fresh();
    m.update(Message::MarketLoaded(Ok(vec![quote("A", 1.0, 1.0)])), 0);
    m.update(Message::Tick, 0);
    let cmds = m.update(Message::RefreshMarket, SEC);
    assert_eq!(cmds, vec![Command::FetchMostActive(5)]);
    assert_eq!(m.current_index(), 0);
    assert!(m.market_quotes().is_empty());
    assert_eq!(m.fetch_time_of_current(), None);

    m.update(Message::AddWallet, 0);
    let cmds = m.update(Message::RefreshMarket, SEC);
    assert!(cmds.is_empty());
}

#[test]
fn wallets_are_named_and_limited() {
    let mut m = fresh();
    for i in 1..=MAX_WALLETS {
        let cmds = m.update(Message::AddWallet, 0);
        assert_eq!(cmds, vec![Command::SaveWallets]);
        assert_eq!(m.wallets()[i - 1].name, format!("Wallet {i}"));
        assert_eq!(m.current_wallet_index(), i);
    }
    let cmds = m.update(Message::AddWallet, 0);
    assert!(cmds.is_empty());
    assert_eq!(m.wallets().len(), MAX_WALLETS);
}

#[test]
fn next_and_previous_wrap_around() {
    let mut m = fresh();
    assert!(m.update(Message::NextWallet, 0).is_empty());
    m.update(Message::AddWallet, 0);
    m.update(Message::AddWallet, 0);
    m.update(Message::SwitchWallet(0), 0);
    let mut seen = Vec::new();
    for _ in 0..3 {
        m.update(Message::NextWallet, 0);
        seen.push(m.current_wallet_index());
    }
    assert_eq!(seen, vec![1, 2, 0]);
    m.update(Message::PreviusWallet, 0);
    assert_eq!(m.current_wallet_index(), 2);
    m.update(Message::NextWallet, 0);
    assert_eq!(m.current_wallet_index(), 0);
    m.update(Message::OpenAlertsTab("A".to_string()), 0);
    assert!(m.update(Message::NextWallet, 0).is_empty());
    assert_eq!(m.current_wallet_index(), 0);
    m.update(Message::SwitchWallet(42), 0);
    assert_eq!(m.current_wallet_index(), 0);
    assert_eq!(m.active_tab(), PopupTab::Overview);
    assert!(m.alert_selected_symbol().is_none());
}

#[test]
fn renaming_trims_and_ignores_blank_names() {
    let mut m = fresh();
    m.update(Message::ToggleRenameMode, 0);
    assert!(!m.rename_mode());
    m.update(Message::AddWallet, 0);
    m.update(Message::ToggleRenameMode, 0);
    assert!(m.rename_mode());
    assert_eq!(m.rename_input(), "Wallet 1");
    m.update(Message::RenameWallet("  Long term \t".to_string()), 0);
    let cmds = m.update(Message::ConfirmRenameWallet, 0);
    assert_eq!(cmds, vec![Command::SaveWallets]);
    assert_eq!(m.wallets()[0].name, "Long term");
    assert!(!m.rename_mode());
    m.update(Message::RenameWallet("   ".to_string()), 0);
    let cmds = m.update(Message::ConfirmRenameWallet, 0);
    assert!(cmds.is_empty());
    assert_eq!(m.wallets()[0].name, "Long term");
}

#[test]
fn searching_and_adding_assets() {
    let mut m = fresh();
    m.update(Message::AddWallet, 0);
    let cmds = m.update(Message::StockSearchInput("a".to_string()), 0);
    assert!(cmds.is_empty());
    let cmds = m.update(Message::StockSearchInput("ap".to_string()), 0);
    assert_eq!(cmds, vec![Command::SearchSymbols("ap".to_string())]);
    assert!(m.stock_search_loading());
    // "é" is one character and two bytes: it starts a search
    let cmds = m.update(Message::StockSearchInput("é".to_string()), 0);
    assert_eq!(cmds, vec![Command::SearchSymbols("é".to_string())]);
    m.update(Message::StockSearchResults(Ok(strings(&["AAPL — Apple Inc.", "APLE"]))), 0);
    assert!(!m.stock_search_loading());

    // a label that was not offered is ignored
    assert!(m.update(Message::AddStockToWallet("MSFT".to_string()), 0).is_empty());
    assert_eq!(m.stock_search_results().len(), 2);

    let cmds = m.update(Message::AddStockToWallet("AAPL — Apple Inc.".to_string()), 0);
    assert_eq!(cmds, vec![Command::SaveWallets, Command::FetchBySymbols(strings(&["AAPL"]))]);
    assert_eq!(m.wallets()[0].symbols, strings(&["AAPL"]));
    assert!(m.stock_search_results().is_empty());
    assert_eq!(m.stock_search_input(), "");

    // adding it again fetches without saving
    m.update(Message::StockSearchResults(Ok(strings(&["AAPL — Apple Inc."]))), 0);
    let cmds = m.update(Message::AddStockToWallet("AAPL — Apple Inc.".to_string()), 0);
    assert_eq!(cmds, vec![Command::FetchBySymbols(strings(&["AAPL"]))]);
}

#[test]
fn a_full_wallet_takes_no_more_assets() {
    let syms: Vec<String> = (0..MAX_ASSETS_PER_WALLET).map(|i| format!("S{i}")).collect();
    let full = Wallet { name: "Full".to_string(), symbols: syms.clone(), alerts: Vec::new() };
    let mut config = Config::default();
    config.last_wallet_index = 1;
    let (mut m, _) = AppModel::new(config, vec![full]);
    m.update(Message::StockSearchResults(Ok(strings(&["NEW"]))), 0);
    let cmds = m.update(Message::AddStockToWallet("NEW".to_string()), 0);
    assert!(cmds.is_empty());
    assert_eq!(m.wallets()[0].symbols, syms);
    assert!(m.stock_search_results().is_empty());
}

#[test]
fn removing_an_asset_removes_its_alerts() {
    let mut w = wallet("W", &["AAPL", "MSFT"]);
    w.alerts.push(alert(0, "AAPL"));
    w.alerts.push(alert(1, "MSFT"));
    let mut config = Config::default();
    config.last_wallet_index = 1;
    let (mut m, _) = AppModel::new(config, vec![w]);
    m.update(Message::OpenAlertsTab("AAPL".to_string()), 0);
    let cmds = m.update(Message::RemoveStockFromWallet("AAPL".to_string()), 0);
    assert_eq!(cmds, vec![Command::SaveWallets, Command::FetchBySymbols(strings(&["MSFT"]))]);
    assert_eq!(m.wallets()[0].symbols, strings(&["MSFT"]));
    assert_eq!(m.wallets()[0].alerts, vec![alert(1, "MSFT")]);
    assert_eq!(m.active_tab(), PopupTab::Overview);
    assert!(m.alert_selected_symbol().is_none());

    m.update(Message::MarketLoaded(Ok(vec![quote("MSFT", 1.0, 1.0)])), 0);
    let cmds = m.update(Message::RemoveStockFromWallet("MSFT".to_string()), 0);
    assert_eq!(cmds, vec![Command::SaveWallets]);
    assert!(m.market_quotes().is_empty());
}

#[test]
fn deleting_a_wallet_returns_to_the_overview() {
    let mut m = fresh();
    assert!(m.update(Message::DeleteCurrentWallet, 0).is_empty());
    m.update(Message::AddWallet, 0);
    m.update(Message::AddWallet, 0);
    let cmds = m.update(Message::DeleteCurrentWallet, 0);
    assert_eq!(cmds, vec![Command::SaveWallets, Command::FetchMostActive(5)]);
    assert_eq!(m.current_wallet_index(), 0);
    assert_eq!(m.wallets().len(), 1);
    assert_eq!(m.wallets()[0].name, "Wallet 1");
}

#[test]
fn alerts_are_added_toggled_and_removed() {
    let mut m = fresh();
    m.update(Message::AddWallet, 0);
    assert!(m
        .update(Message::AddAlert { wallet_index: 0, symbol: "A".to_string(), condition: AlertCondition::TurnPositive }, 0)
        .is_empty());
    assert!(m
        .update(Message::AddAlert { wallet_index: 5, symbol: "A".to_string(), condition: AlertCondition::TurnPositive }, 0)
        .is_empty());
    let c = AlertCondition::PriceAbove(10.0f64.to_bits());
    let cmds = m.update(Message::AddAlert { wallet_index: 1, symbol: "A".to_string(), condition: c }, 0);
    assert_eq!(cmds, vec![Command::SaveWallets]);
    m.update(Message::AddAlert { wallet_index: 1, symbol: "B".to_string(), condition: c }, 0);
    let alerts = &m.wallets()[0].alerts;
    assert_eq!(alerts.len(), 2);
    assert_eq!((alerts[0].id, alerts[1].id), (0, 1));
    assert!(alerts[0].enabled && !alerts[0].triggered);
    assert_eq!(alerts[0].condition, c);

    let cmds = m.update(Message::ToggleAlert { wallet_index: 1, alert_id: 1 }, 0);
    assert_eq!(cmds, vec![Command::SaveWallets]);
    assert!(!m.wallets()[0].alerts[1].enabled);
    m.update(Message::ToggleAlert { wallet_index: 1, alert_id: 1 }, 0);
    assert!(m.wallets()[0].alerts[1].enabled);
    assert!(m.update(Message::ToggleAlert { wallet_index: 1, alert_id: 9 }, 0).is_empty());

    let cmds = m.update(Message::RemoveAlert { wallet_index: 1, alert_id: 0 }, 0);
    assert_eq!(cmds, vec![Command::SaveWallets]);
    assert_eq!(m.wallets()[0].alerts.len(), 1);
    assert_eq!(m.wallets()[0].alerts[0].symbol, "B");
}

#[test]
fn alert_form_state() {
    let mut m = fresh();
    m.update(Message::OpenAlertsTab("AAPL".to_string()), 0);
    assert_eq!(m.active_tab(), PopupTab::Alerts);
    assert_eq!(m.alert_selected_symbol().map(|s| s.as_str()), Some("AAPL"));
    m.update(Message::AlertSelectCondition(AlertCondition::TurnNegative), 0);
    m.update(Message::AlertSetValue("12.5".to_string()), 0);
    assert_eq!(m.alert_selected_condition(), AlertCondition::TurnNegative);
    assert_eq!(m.alert_input_value(), "12.5");
    m.update(Message::CloseAlertsTab, 0);
    assert_eq!(m.active_tab(), PopupTab::Overview);
    assert!(m.alert_selected_symbol().is_none());
    assert_eq!(m.alert_input_value(), "");
    assert_eq!(m.alert_selected_condition(), AlertCondition::PriceAbove(0));
}

#[test]
fn alerts_are_checked_against_the_first_matching_quote() {
    let mut w1 = wallet("W1", &["A"]);
    w1.alerts.push(alert(0, "A"));
    let mut off = alert(1, "B");
    off.enabled = false;
    w1.alerts.push(off);
    w1.alerts.push(alert(2, "Z"));
    let mut w2 = wallet("W2", &["B"]);
    w2.alerts.push(alert(3, "B"));
    let (mut m, _) = AppModel::new(Config::default(), vec![w1, w2]);
    m.update(Message::MarketLoaded(Ok(vec![quote("B", 1.0, 1.0), quote("A", 2.0, -1.0), quote("A", 3.0, 1.0)])), 0);
    let checks = m.pending_alert_checks();
    assert_eq!(
        checks,
        vec![
            AlertCheck { wallet_index: 0, alert_id: 0, condition: AlertCondition::TurnPositive, quote_index: 1 },
            AlertCheck { wallet_index: 1, alert_id: 3, condition: AlertCondition::TurnPositive, quote_index: 0 },
        ]
    );
    let cmds = m.remove_triggered_alerts(&vec![(1, 3)]);
    assert_eq!(cmds, vec![Command::SaveWallets]);
    assert!(m.wallets()[1].alerts.is_empty());
    assert_eq!(m.wallets()[0].alerts.len(), 3);
    assert!(m.remove_triggered_alerts(&Vec::new()).is_empty());
}

#[test]
fn settings_fields() {
    let mut m = fresh();
    assert_eq!(m.update(Message::SetNumberOfNewsBySymbols("9".to_string()), 0), vec![Command::SaveConfig]);
    assert_eq!(m.config().count_news_by_simbol, 5);
    assert_eq!(m.news_per_symbol_input(), "9");
    m.update(Message::SetNumberOfNewsBySymbols("0".to_string()), 0);
    assert_eq!(m.config().count_news_by_simbol, 1);
    m.update(Message::SetNumberOfNewsBySymbols("3".to_string()), 0);
    assert_eq!(m.config().count_news_by_simbol, 3);
    assert!(m.update(Message::SetNumberOfNewsBySymbols("x".to_string()), 0).is_empty());
    assert_eq!(m.config().count_news_by_simbol, 3);
    assert_eq!(m.news_per_symbol_input(), "x");

    assert_eq!(m.update(Message::SetStokeRotationInterval("45".to_string()), 0), vec![Command::SaveConfig]);
    assert_eq!(m.config().panel_stoke_rotation_interval, 45);
    assert!(m.update(Message::SetStokeRotationInterval("-1".to_string()), 0).is_empty());
    assert_eq!(m.config().panel_stoke_rotation_interval, 45);

    assert_eq!(m.update(Message::ToggleShowOnlyIcon(false), 0), vec![Command::SaveConfig]);
    assert!(!m.config().show_only_icon);
    assert_eq!(m.update(Message::ToggleAlertsEnabled(false), 0), vec![Command::SaveConfig]);
    assert!(!m.config().alerts_enabled);

    m.update(Message::MarketLoaded(Ok(vec![quote("A", 1.0, 1.0)])), 0);
    m.update(Message::NewsLoaded(Ok(vec![news("n")])), 0);
    assert_eq!(m.update(Message::ToggleShowNews(false), 0), vec![Command::SaveConfig]);
    assert!(m.news_items().is_empty());
    assert_eq!(
        m.update(Message::ToggleShowNews(true), 0),
        vec![Command::SaveConfig, Command::FetchNews(strings(&["A"]), 3)]
    );
}

#[test]
fn popup_tabs_and_links() {
    let mut m = fresh();
    assert_eq!(m.update(Message::TogglePopup, 0), vec![Command::OpenPopup]);
    assert!(m.popup_open());
    m.update(Message::OpenConfigBUtton, 0);
    assert_eq!(m.active_tab(), PopupTab::Settings);
    m.update(Message::OpenConfigBUtton, 0);
    assert_eq!(m.active_tab(), PopupTab::Overview);
    m.update(Message::OpenConfigBUtton, 0);
    assert_eq!(m.update(Message::TogglePopup, 0), vec![Command::ClosePopup]);
    assert!(!m.popup_open());
    assert_eq!(m.active_tab(), PopupTab::Overview);
    assert_eq!(
        m.update(Message::OpenNewsLink("https://x".to_string()), 0),
        vec![Command::OpenLink("https://x".to_string())]
    );
    m.update(Message::ToggleNewsExpanded, 0);
    assert!(m.news_expanded());
    assert!(m.update(Message::NewsLoaded(Err("dns error".to_string())), 0).is_empty());
}

#[test]
fn last_updated_text() {
    let mut m = fresh();
    assert_eq!(m.last_updated_text(0, 1000), None);
    m.update(Message::MarketLoaded(Ok(vec![quote("A", 1.0, 1.0)])), 10 * SEC);
    assert_eq!(m.last_updated_text(10 * SEC + SEC / 2, 1_000_000).as_deref(), Some("just now"));
    assert_eq!(m.last_updated_text(10 * SEC + 120 * SEC, 1_000_000).as_deref(), Some("2 min ago"));
}

#[test]
fn shown_wallet_is_the_first_on_the_overview() {
    let mut m = fresh();
    assert!(m.shown_wallet().is_none());
    m.update(Message::AddWallet, 0);
    m.update(Message::AddWallet, 0);
    assert_eq!(m.shown_wallet().unwrap().name, "Wallet 2");
    m.update(Message::SwitchWallet(0), 0);
    assert_eq!(m.shown_wallet().unwrap().name, "Wallet 1");
}

#[test]
fn cache_entry_of_the_screen_on_show() {
    let mut m = fresh();
    m.update(Message::MarketLoaded(Ok(vec![quote("AAPL", 10.0, 1.0)])), 3 * SEC);
    assert_eq!(m.fetch_time_of_current(), Some(3 * SEC));
    m.save_cache(7 * SEC);
    assert_eq!(m.fetch_time_of_current(), Some(7 * SEC));
    m.clear_cache_for_current();
    assert_eq!(m.fetch_time_of_current(), None);
    assert_eq!(m.next_alert_id(), 0);
}

#[test]
fn news_count_stays_between_one_and_five() {
    let mut m = fresh();
    for input in ["0", "3", "9", "abc", "5", "1"] {
        m.update(Message::SetNumberOfNewsBySymbols(input.to_string()), 0);
        let n = m.config().count_news_by_simbol;
        assert!((1..=5).contains(&n), "{input}: {n}");
    }
    m.update(Message::SetNumberOfNewsBySymbols("0".to_string()), 0);
    assert_eq!(m.config().count_news_by_simbol, 1);
    m.update(Message::SetNumberOfNewsBySymbols("9".to_string()), 0);
    assert_eq!(m.config().count_news_by_simbol, 5);
}

#[test]
fn reopens_on_the_last_screen() {
    let wallets = vec![wallet("A", &["AAPL"]), wallet("B", &[])];
    let mut m = AppModel::new(Config::default(), wallets.clone()).0;
    let cmds = m.update(Message::SwitchWallet(2), 0);
    assert_eq!(cmds[0], Command::SaveConfig);
    assert_eq!(m.config().last_wallet_index, 2);
    let (again, start) = AppModel::new(m.config(), m.wallets().clone());
    assert_eq!(again.current_wallet_index(), 2);
    assert_eq!(start, vec![]);
}

#[test]
fn add_alert_to_a_missing_wallet_is_ignored_even_with_the_last_id() {
    let mut w = wallet("A", &["AAPL"]);
    w.alerts.push(alert(u64::MAX - 1, "AAPL"));
    let mut m = AppModel::new(Config::default(), vec![w]).0;
    assert_eq!(m.next_alert_id(), u64::MAX);
    let cmds = m.update(
        Message::AddAlert {
            wallet_index: 0,
            symbol: "AAPL".to_string(),
            condition: AlertCondition::TurnNegative,
        },
        0,
    );
    assert!(cmds.is_empty());
    assert_eq!(m.next_alert_id(), u64::MAX);
    assert_eq!(m.wallets()[0].alerts.len(), 1);
}

#[test]
fn a_wallet_never_holds_an_asset_twice() {
    let mut m = AppModel::new(Config::default(), vec![wallet("A", &["AAPL"])]).0;
    m.update(Message::SwitchWallet(1), 0);
    for _ in 0..2 {
        m.update(
            Message::StockSearchResults(Ok(strings(&["AAPL — Apple Inc.", "MSFT — Microsoft"]))),
            0,
        );
        m.update(Message::AddStockToWallet("AAPL — Apple Inc.".to_string()), 0);
        m.update(
            Message::StockSearchResults(Ok(strings(&["MSFT — Microsoft"]))),
            0,
        );
        m.update(Message::AddStockToWallet("MSFT — Microsoft".to_string()), 0);
    }
    assert_eq!(m.wallets()[0].symbols, strings(&["AAPL", "MSFT"]));
}
