//! The applet's settings.
use vstd::prelude::*;

verus! {

/// The tabs of the popup.
#[derive(Debug, Clone, Copy, PartialEq, Eq, Structural)]
pub enum PopupTab {
    Overview,
    Settings,
    Trending,
    News,
    Alerts,
}

impl Default for PopupTab {
    fn default() -> (t: Self)
        ensures
            t == PopupTab::Overview,
    {
        PopupTab::Overview
    }
}

/// How often the market data is fetched again.
#[derive(Debug, Clone, Copy, PartialEq, Eq, Structural)]
pub enum RefreshInterval {
    FiveMinutes,
    TenMinutes,
    FifteenMinutes,
    ThirtyMinutes,
    OneHour,
}

impl Default for RefreshInterval {
    fn default() -> (r: Self)
        ensures
            r == RefreshInterval::FifteenMinutes,
    {
        RefreshInterval::FifteenMinutes
    }
}

impl RefreshInterval {
    /// The length of the interval in minutes.
    pub open spec fn minutes(self) -> nat {
        match self {
            RefreshInterval::FiveMinutes => 5,
            RefreshInterval::TenMinutes => 10,
            RefreshInterval::FifteenMinutes => 15,
            RefreshInterval::ThirtyMinutes => 30,
            RefreshInterval::OneHour => 60,
        }
    }

    /// The length of the interval in seconds.
    pub open spec fn seconds(self) -> nat {
        self.minutes() * 60
    }

    /// The interval in minutes.
    pub fn as_minutes(self) -> (m: u64)
        ensures
            m == self.minutes(),
    {
        match self {
            RefreshInterval::FiveMinutes => 5,
            RefreshInterval::TenMinutes => 10,
            RefreshInterval::FifteenMinutes => 15,
            RefreshInterval::ThirtyMinutes => 30,
            RefreshInterval::OneHour => 60,
        }
    }

    /// The interval in seconds.
    pub fn as_seconds(self) -> (s: u64)
        ensures
            s == self.seconds(),
    {
        self.as_minutes() * 60
    }
}

/// Whether alerts notify, where the stored settings do not say.
pub fn default_alerts_enabled() -> (b: bool)
    ensures
        b,
{
    true
}

/// Whether news are shown, where the stored settings do not say.
pub fn default_show_news() -> (b: bool)
    ensures
        b,
{
    true
}

/// The applet's persistent settings.
#[derive(Debug, Clone, Copy, PartialEq, Eq, Structural)]
pub struct Config {
    pub alerts_enabled: bool,
    pub count_stokes_at_once: u64,
    pub count_news_by_simbol: u64,
    pub default_tab: PopupTab,
    pub last_wallet_index: usize,
    pub panel_stoke_rotation_interval: u64,
    pub refresh_interval: RefreshInterval,
    pub show_news: bool,
    pub show_only_icon: bool,
}

impl Config {
    /// The settings of a fresh installation.
    pub open spec fn initial() -> Config {
        Config {
            alerts_enabled: true,
            count_stokes_at_once: 5,
            count_news_by_simbol: 1,
            default_tab: PopupTab::Overview,
            last_wallet_index: 0,
            panel_stoke_rotation_interval: 20,
            refresh_interval: RefreshInterval::FifteenMinutes,
            show_news: true,
            show_only_icon: true,
        }
    }
}

impl Default for Config {
    fn default() -> (c: Self)
        ensures
            c == Config::initial(),
    {
        Config {
            alerts_enabled: true,
            count_stokes_at_once: 5,
            count_news_by_simbol: 1,
            default_tab: PopupTab::default(),
            last_wallet_index: 0,
            panel_stoke_rotation_interval: 20,
            refresh_interval: RefreshInterval::default(),
            show_only_icon: true,
            show_news: true,
        }
    }
}

} // verus!
