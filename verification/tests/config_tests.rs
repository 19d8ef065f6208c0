use marketwatch::config::{default_alerts_enabled, default_show_news, Config, PopupTab, RefreshInterval};

#[test]
fn refresh_interval_minutes() {
    assert_eq!(RefreshInterval::FiveMinutes.as_minutes(), 5);
    assert_eq!(RefreshInterval::TenMinutes.as_minutes(), 10);
    assert_eq!(RefreshInterval::FifteenMinutes.as_minutes(), 15);
    assert_eq!(RefreshInterval::ThirtyMinutes.as_minutes(), 30);
    assert_eq!(RefreshInterval::OneHour.as_minutes(), 60);
}

#[test]
fn refresh_interval_seconds() {
    assert_eq!(RefreshInterval::FiveMinutes.as_seconds(), 300);
    assert_eq!(RefreshInterval::FifteenMinutes.as_seconds(), 900);
    assert_eq!(RefreshInterval::OneHour.as_seconds(), 3600);
}

#[test]
fn defaults() {
    assert!(default_alerts_enabled());
    assert!(default_show_news());
    assert_eq!(PopupTab::default(), PopupTab::Overview);
    assert_eq!(RefreshInterval::default(), RefreshInterval::FifteenMinutes);
    let c = Config::default();
    assert!(c.alerts_enabled);
    assert_eq!(c.count_stokes_at_once, 5);
    assert_eq!(c.count_news_by_simbol, 1);
    assert_eq!(c.default_tab, PopupTab::Overview);
    assert_eq!(c.last_wallet_index, 0);
    assert_eq!(c.panel_stoke_rotation_interval, 20);
    assert_eq!(c.refresh_interval, RefreshInterval::FifteenMinutes);
    assert!(c.show_news);
    assert!(c.show_only_icon);
}
