use marketwatch::app::Message;
use marketwatch::config::{Config, PopupTab};
use marketwatch::display::{
    add_asset_state, add_wallet_enabled, applet_content, build_add_alert_message,
    condition_to_index, derive_state, has_more_news, header_title, index_to_condition,
    needs_value, news_meta, news_meta_at, news_meta_text, portfolio_state, top_header_text,
    visible_news_count, wallet_title, AddAssetState, AppletContent, HeaderTitle,
    PortfolioState, QuotesState, CardView, alert_notifications_on, card_view,
    delete_wallet_shown, navigation_enabled,
};
use marketwatch::marketwatch::{AlertCondition, YahooNews};

#[test]
fn applet_button() {
    let mut c = Config::default();
    assert_eq!(applet_content(&c, 3, 0, true, true), AppletContent::Error);
    assert_eq!(applet_content(&c, 3, 0, true, false), AppletContent::IconOnly);
    c.show_only_icon = false;
    assert_eq!(applet_content(&c, 3, 1, true, false), AppletContent::Horizontal(1));
    assert_eq!(applet_content(&c, 3, 2, false, false), AppletContent::Vertical(2));
    assert_eq!(applet_content(&c, 3, 3, true, false), AppletContent::Loading);
    assert_eq!(applet_content(&c, 0, 0, true, false), AppletContent::Loading);
}

#[test]
fn overview_state() {
    assert_eq!(derive_state(0, false), QuotesState::Loading);
    assert_eq!(derive_state(2, false), QuotesState::Ready);
    assert_eq!(derive_state(2, true), QuotesState::Error);
}

#[test]
fn news_lists() {
    assert_eq!(visible_news_count(5, false), 3);
    assert_eq!(visible_news_count(5, true), 5);
    assert_eq!(visible_news_count(2, false), 2);
    assert!(has_more_news(4));
    assert!(!has_more_news(3));
    assert_eq!(news_meta_text(&None, ""), "Unknown source");
    assert_eq!(news_meta_text(&Some("Reuters".to_string()), "2 min ago"), "Reuters · 2 min ago");
    let item = YahooNews {
        title: "t".to_string(),
        link: "l".to_string(),
        publisher: Some("AP".to_string()),
        publish_time: Some(1000),
    };
    assert_eq!(news_meta_at(&item, 1000 + 7200), "AP · 2 hours ago");
    let undated = YahooNews { publish_time: None, ..item.clone() };
    assert_eq!(news_meta(&undated), "AP");
    assert!(news_meta(&item).starts_with("AP · "));
}

#[test]
fn wallet_sections() {
    assert_eq!(add_asset_state(true, true, 3, "ab"), AddAssetState::LimitReached);
    assert_eq!(add_asset_state(false, true, 3, "ab"), AddAssetState::Searching);
    assert_eq!(add_asset_state(false, false, 3, "ab"), AddAssetState::Results);
    assert_eq!(add_asset_state(false, false, 0, "ab"), AddAssetState::NoResults);
    assert_eq!(add_asset_state(false, false, 0, "a"), AddAssetState::Idle);
    assert_eq!(portfolio_state(0, 0), PortfolioState::Empty);
    assert_eq!(portfolio_state(2, 0), PortfolioState::Loading);
    assert_eq!(portfolio_state(2, 2), PortfolioState::Quotes);
    assert_eq!(portfolio_state(0, 1), PortfolioState::Quotes);
}

#[test]
fn header_parts() {
    assert_eq!(header_title(0, true), HeaderTitle::Overview);
    assert_eq!(header_title(1, true), HeaderTitle::Renaming);
    assert_eq!(header_title(1, false), HeaderTitle::Named);
    assert_eq!(wallet_title(Some("Mine")), "Mine");
    assert_eq!(wallet_title(None), "Wallet");
    assert!(add_wallet_enabled(9, false));
    assert!(!add_wallet_enabled(10, false));
    assert!(!add_wallet_enabled(1, true));
    assert_eq!(top_header_text(Some("just now".to_string())), "Updated at just now");
    assert_eq!(top_header_text(None), "");
}

#[test]
fn alert_form() {
    let v = 42.0f64.to_bits();
    for i in 0..6 {
        assert_eq!(condition_to_index(&index_to_condition(i, v)), i);
    }
    assert_eq!(index_to_condition(9, v), AlertCondition::TurnNegative);
    assert_eq!(index_to_condition(0, v), AlertCondition::PriceAbove(v));
    assert!(needs_value(&AlertCondition::VariationBelow(0)));
    assert!(!needs_value(&AlertCondition::TurnPositive));

    assert_eq!(build_add_alert_message(1, None, &AlertCondition::TurnPositive, None), None);
    assert_eq!(build_add_alert_message(1, Some("A".to_string()), &AlertCondition::PriceBelow(0), None), None);
    assert_eq!(
        build_add_alert_message(1, Some("A".to_string()), &AlertCondition::PriceBelow(0), Some(v)),
        Some(Message::AddAlert { wallet_index: 1, symbol: "A".to_string(), condition: AlertCondition::PriceBelow(v) })
    );
    assert_eq!(
        build_add_alert_message(2, Some("A".to_string()), &AlertCondition::TurnNegative, None),
        Some(Message::AddAlert { wallet_index: 2, symbol: "A".to_string(), condition: AlertCondition::TurnNegative })
    );
}

#[test]
fn card_and_header_buttons() {
    assert_eq!(card_view(PopupTab::Settings, 2), CardView::Settings);
    assert_eq!(card_view(PopupTab::Alerts, 0), CardView::Alerts);
    assert_eq!(card_view(PopupTab::Overview, 0), CardView::Quotes);
    assert_eq!(card_view(PopupTab::News, 0), CardView::Quotes);
    assert_eq!(card_view(PopupTab::Overview, 3), CardView::Wallet);
    assert!(!navigation_enabled(PopupTab::Alerts));
    assert!(navigation_enabled(PopupTab::Settings));
    assert!(!delete_wallet_shown(0));
    assert!(delete_wallet_shown(1));
    let mut c = Config::default();
    assert!(alert_notifications_on(&c));
    c.alerts_enabled = false;
    assert!(!alert_notifications_on(&c));
}
