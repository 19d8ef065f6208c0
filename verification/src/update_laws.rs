//! What the applet answers to the messages that load and show market data,
//! stated directly from the state before and the message: which screen is
//! shown, which quotes and news are on show, what is cached, and what is
//! fetched.
use vstd::prelude::*;

use crate::app::{
    AlertCheck, AppView, CommandView, Message, all_checks, elapsed_secs, first_quote_of, has_quote,
    step, wallet_checks,
};
use crate::marketwatch::PriceAlert;
use crate::wallet::WalletView;
use crate::config::PopupTab;
use crate::marketwatch::{MarketQuote, YahooNews};

verus! {

/// The commands that fetch screen `i` again: the `count` most active assets
/// on the overview, the symbols of the wallet on a wallet screen that holds
/// any, nothing on an empty wallet.
pub open spec fn refetch_of(s: AppView, i: usize) -> Seq<CommandView> {
    if i == 0 {
        seq![CommandView::FetchMostActive(s.config.count_stokes_at_once)]
    } else if s.wallets[i - 1].symbols.len() > 0 {
        seq![CommandView::FetchBySymbols(s.wallets[i - 1].symbols)]
    } else {
        seq![]
    }
}

/// Showing screen `i` whose data is not cached, or was fetched a refresh
/// interval ago or more, shows screen `i` with no quotes yet, asks to store
/// the settings, and fetches that screen's data: the most active assets on
/// the overview, the wallet's symbols on a wallet that holds any.
pub proof fn law_switch_fetches_stale_screen(s: AppView, i: usize, now: u64)
    requires
        s.wf(),
        i <= s.wallets.len(),
        !(s.fetch_times.contains_key(i) && elapsed_secs(s.fetch_times[i], now)
            < s.config.refresh_interval.seconds()),
    ensures
        ({
            let (t, cmds) = step(s, Message::SwitchWallet(i), now);
            &&& t.wallet_index == i
            &&& t.quotes.len() == 0
            &&& t.wallets == s.wallets
            &&& t.config.last_wallet_index == i
            &&& cmds == seq![CommandView::SaveConfig] + refetch_of(s, i)
        }),
{
    let (t, cmds) = step(s, Message::SwitchWallet(i), now);
    assert(cmds =~= seq![CommandView::SaveConfig] + refetch_of(s, i));
}

/// Showing screen `i` whose data was fetched less than a refresh interval
/// ago shows that screen's cached quotes and news and fetches nothing; it
/// only asks to store the settings.
pub proof fn law_switch_reuses_fresh_cache(s: AppView, i: usize, now: u64)
    requires
        s.wf(),
        i <= s.wallets.len(),
        s.fetch_times.contains_key(i),
        elapsed_secs(s.fetch_times[i], now) < s.config.refresh_interval.seconds(),
        s.cached_quotes.contains_key(i),
        s.cached_news.contains_key(i),
    ensures
        ({
            let (t, cmds) = step(s, Message::SwitchWallet(i), now);
            &&& t.wallet_index == i
            &&& t.quotes == s.cached_quotes[i]
            &&& t.news == s.cached_news[i]
            &&& t.config.last_wallet_index == i
            &&& cmds == seq![CommandView::SaveConfig]
        }),
{
}

/// Whatever the cache, showing a screen closes the wallet renaming, empties
/// the asset search, clears the error, and leaves the alerts tab for the
/// overview tab with an empty alert form.
pub proof fn law_switch_resets_the_screen(s: AppView, index: usize, now: u64)
    requires
        s.wf(),
    ensures
        ({
            let t = step(s, Message::SwitchWallet(index), now).0;
            &&& t.wallet_index == if index <= s.wallets.len() {
                index
            } else {
                0
            }
            &&& !t.rename_mode
            &&& t.search_input.len() == 0
            &&& t.search_results.len() == 0
            &&& t.error is None
            &&& t.wallets == s.wallets
            &&& s.active_tab == PopupTab::Alerts ==> t.active_tab == PopupTab::Overview
                && t.alert_symbol is None && t.alert_input.len() == 0
            &&& s.active_tab != PopupTab::Alerts ==> t.active_tab == s.active_tab
        }),
{
}

/// In particular, showing a wallet that holds symbols and whose data is not
/// fresh fetches exactly those symbols, after storing the settings.
pub proof fn law_switch_to_wallet_fetches_its_symbols(s: AppView, i: usize, now: u64)
    requires
        s.wf(),
        0 < i <= s.wallets.len(),
        s.wallets[i - 1].symbols.len() > 0,
        !s.fetch_times.contains_key(i),
    ensures
        step(s, Message::SwitchWallet(i), now).1 == seq![
            CommandView::SaveConfig,
            CommandView::FetchBySymbols(s.wallets[i - 1].symbols),
        ],
{
    law_switch_fetches_stale_screen(s, i, now);
    assert(seq![CommandView::SaveConfig] + refetch_of(s, i) =~= seq![
        CommandView::SaveConfig,
        CommandView::FetchBySymbols(s.wallets[i - 1].symbols),
    ]);
}

/// Going to the next screen is showing the screen after the one on show,
/// the overview after the last wallet (outside the alerts tab, with at least
/// one wallet).
pub proof fn law_next_is_switch_to_following(s: AppView, now: u64)
    requires
        s.wf(),
        s.wallets.len() > 0,
        s.active_tab != PopupTab::Alerts,
    ensures
        step(s, Message::NextWallet, now) == step(
            s,
            Message::SwitchWallet(
                if s.wallet_index < s.wallets.len() {
                    (s.wallet_index + 1) as usize
                } else {
                    0
                },
            ),
            now,
        ),
{
    let n = s.wallets.len() + 1;
    let a = s.wallet_index + 1;
    if s.wallet_index < s.wallets.len() {
        vstd::arithmetic::div_mod::lemma_small_mod(a as nat, n as nat);
    } else {
        assert(a == n);
        assert((n as int) % (n as int) == 0) by (nonlinear_arith)
            requires
                n > 0,
        ;
    }
}

/// Quotes that arrive are shown in place of the former ones, any error is
/// cleared, and they are cached for the screen on show as fetched at `now`.
/// The alerts are checked first; news for the first three assets are asked
/// for where news are shown; the panel then moves on by a tick.
pub proof fn law_loaded_quotes_are_shown(s: AppView, data: Vec<MarketQuote>, now: u64)
    ensures
        ({
            let (t, cmds) = step(s, Message::MarketLoaded(Ok(data)), now);
            &&& t.quotes == data@
            &&& t.error is None
            &&& t.wallet_index == s.wallet_index
            &&& t.wallets == s.wallets
            &&& t.news == s.news
            &&& t.cached_quotes == s.cached_quotes.insert(s.wallet_index, data@)
            &&& t.fetch_times == s.fetch_times.insert(s.wallet_index, now)
            &&& t.cached_news == s.cached_news
            &&& cmds.len() == if s.config.show_news {
                3int
            } else {
                2int
            }
            &&& cmds[0] == CommandView::CheckAlerts
            &&& cmds[cmds.len() - 1] == CommandView::Tick
            &&& s.config.show_news ==> (cmds[1] matches CommandView::FetchNews(symbols, count) && {
                &&& count == s.config.count_news_by_simbol
                &&& symbols.len() == if data@.len() < 3 {
                    data@.len() as int
                } else {
                    3
                }
                &&& forall|j: int| 0 <= j < symbols.len() ==> #[trigger] symbols[j] == data@[j].symbol@
            })
        }),
{
}

/// A failed load shows the error and no quotes, and drops the cache of the
/// screen on show; the panel moves on by a tick.
pub proof fn law_failed_load_shows_error(s: AppView, err: String, now: u64)
    ensures
        ({
            let (t, cmds) = step(s, Message::MarketLoaded(Err(err)), now);
            &&& t.error == Some(err@)
            &&& t.quotes.len() == 0
            &&& t.wallets == s.wallets
            &&& !t.fetch_times.contains_key(s.wallet_index)
            &&& !t.cached_quotes.contains_key(s.wallet_index)
            &&& !t.cached_news.contains_key(s.wallet_index)
            &&& cmds == seq![CommandView::Tick]
        }),
{
}

/// Refreshing empties the screen on show (quotes, news, error, rotation) and
/// its cache, and fetches that screen again: the most active assets on the
/// overview, the wallet's symbols on a wallet that holds any.
pub proof fn law_refresh_fetches_screen_on_show(s: AppView, now: u64)
    requires
        s.wf(),
    ensures
        ({
            let (t, cmds) = step(s, Message::RefreshMarket, now);
            &&& t.wallet_index == s.wallet_index
            &&& t.quotes.len() == 0
            &&& t.news.len() == 0
            &&& t.error is None
            &&& t.current_index == 0
            &&& t.wallets == s.wallets
            &&& !t.fetch_times.contains_key(s.wallet_index)
            &&& !t.cached_quotes.contains_key(s.wallet_index)
            &&& !t.cached_news.contains_key(s.wallet_index)
            &&& cmds == refetch_of(s, s.wallet_index)
        }),
{
}

/// In particular, refreshing a wallet that holds symbols fetches exactly
/// those symbols, and refreshing the overview fetches the most active assets.
pub proof fn law_refresh_fetch(s: AppView, now: u64)
    requires
        s.wf(),
    ensures
        s.wallet_index > 0 && s.wallets[s.wallet_index - 1].symbols.len() > 0 ==> step(
            s,
            Message::RefreshMarket,
            now,
        ).1 == seq![CommandView::FetchBySymbols(s.wallets[s.wallet_index - 1].symbols)],
        s.wallet_index == 0 ==> step(s, Message::RefreshMarket, now).1 == seq![
            CommandView::FetchMostActive(s.config.count_stokes_at_once),
        ],
{
    law_refresh_fetches_screen_on_show(s, now);
}

/// News that arrive replace the news on show, whatever was shown before,
/// and are cached for the screen on show; nothing is asked for.
pub proof fn law_loaded_news_replace(s: AppView, news: Vec<YahooNews>, now: u64)
    ensures
        ({
            let (t, cmds) = step(s, Message::NewsLoaded(Ok(news)), now);
            &&& t.news == news@
            &&& t.cached_news == s.cached_news.insert(s.wallet_index, news@)
            &&& t.quotes == s.quotes
            &&& t.wallets == s.wallets
            &&& t.wallet_index == s.wallet_index
            &&& cmds.len() == 0
        }),
{
}

/// News that fail to load change nothing.
pub proof fn law_failed_news_change_nothing(s: AppView, err: String, now: u64)
    ensures
        step(s, Message::NewsLoaded(Err(err)), now) == (s, Seq::<CommandView>::empty()),
{
    assert(step(s, Message::NewsLoaded(Err(err)), now).1 =~= Seq::<CommandView>::empty());
}

// ===================== alert checks =====================

/// An alert is judged when it is enabled and a quote of its symbol is on show.
pub open spec fn judged(quotes: Seq<MarketQuote>) -> spec_fn(PriceAlert) -> bool {
    |a: PriceAlert| a.enabled && has_quote(quotes, a.symbol@)
}

/// `c` is the check of alert `a` of wallet `k`: same wallet, id and
/// condition, and the first quote of the alert's symbol.
pub open spec fn check_of(c: AlertCheck, k: int, a: PriceAlert, quotes: Seq<MarketQuote>) -> bool {
    &&& a.enabled
    &&& c.wallet_index == k as usize
    &&& c.alert_id == a.id
    &&& c.condition == a.condition
    &&& first_quote_of(quotes, a.symbol@, c.quote_index as int)
}

/// The number of alerts of all wallets that are judged.
pub open spec fn judged_count(wallets: Seq<WalletView>, quotes: Seq<MarketQuote>) -> nat
    decreases wallets.len(),
{
    if wallets.len() == 0 {
        0
    } else {
        judged_count(wallets.drop_last(), quotes) + wallets.last().alerts.filter(
            judged(quotes),
        ).len()
    }
}

proof fn lemma_first_quote_exists(quotes: Seq<MarketQuote>, symbol: Seq<char>)
    requires
        has_quote(quotes, symbol),
    ensures
        exists|i: int| first_quote_of(quotes, symbol, i),
    decreases quotes.len(),
{
    let rest = quotes.drop_last();
    if has_quote(rest, symbol) {
        lemma_first_quote_exists(rest, symbol);
        let i = choose|i: int| first_quote_of(rest, symbol, i);
        assert forall|j: int| 0 <= j < i implies (#[trigger] quotes[j]).symbol@ != symbol by {
            assert(quotes[j] == rest[j]);
        }
        assert(first_quote_of(quotes, symbol, i));
    } else {
        let i = quotes.len() - 1;
        let w = choose|w: int| 0 <= w < quotes.len() && (#[trigger] quotes[w]).symbol@ == symbol;
        if w < i {
            assert(rest[w] == quotes[w]);
        }
        assert forall|j: int| 0 <= j < i implies (#[trigger] quotes[j]).symbol@ != symbol by {
            assert(quotes[j] == rest[j]);
        }
        assert(first_quote_of(quotes, symbol, i));
    }
}

proof fn lemma_first_quote_unique(quotes: Seq<MarketQuote>, symbol: Seq<char>, a: int, b: int)
    requires
        first_quote_of(quotes, symbol, a),
        first_quote_of(quotes, symbol, b),
    ensures
        a == b,
{
    if a < b {
        assert(quotes[a].symbol@ != symbol);
    } else if b < a {
        assert(quotes[b].symbol@ != symbol);
    }
}

proof fn lemma_wallet_checks(k: int, alerts: Seq<PriceAlert>, quotes: Seq<MarketQuote>)
    requires
        0 <= k < usize::MAX,
        quotes.len() <= usize::MAX,
    ensures
        wallet_checks(k, alerts, quotes).len() == alerts.filter(judged(quotes)).len(),
        forall|c: int|
            0 <= c < wallet_checks(k, alerts, quotes).len() ==> exists|j: int|
                0 <= j < alerts.len() && check_of(
                    #[trigger] wallet_checks(k, alerts, quotes)[c],
                    k,
                    alerts[j],
                    quotes,
                ),
        forall|j: int, q: int|
            0 <= j < alerts.len() && alerts[j].enabled && #[trigger] first_quote_of(
                quotes,
                alerts[j].symbol@,
                q,
            ) ==> wallet_checks(k, alerts, quotes).contains(
                AlertCheck {
                    wallet_index: k as usize,
                    alert_id: alerts[j].id,
                    condition: alerts[j].condition,
                    quote_index: q as usize,
                },
            ),
    decreases alerts.len(),
{
    reveal(Seq::filter);
    if alerts.len() > 0 {
        let rest = alerts.drop_last();
        let a = alerts.last();
        lemma_wallet_checks(k, rest, quotes);
        let before = wallet_checks(k, rest, quotes);
        let r = wallet_checks(k, alerts, quotes);
        let last = alerts.len() - 1;
        assert(alerts[last] == a);
        if a.enabled && has_quote(quotes, a.symbol@) {
            lemma_first_quote_exists(quotes, a.symbol@);
            let qi = choose|i: int| first_quote_of(quotes, a.symbol@, i);
            let ch = AlertCheck {
                wallet_index: k as usize,
                alert_id: a.id,
                condition: a.condition,
                quote_index: qi as usize,
            };
            assert(r == before.push(ch));
            assert(check_of(ch, k, alerts[last], quotes));
            assert forall|c: int| 0 <= c < r.len() implies exists|j: int|
                0 <= j < alerts.len() && check_of(#[trigger] r[c], k, alerts[j], quotes) by {
                if c < before.len() {
                    assert(r[c] == before[c]);
                    let j = choose|j: int| 0 <= j < rest.len() && check_of(before[c], k, rest[j], quotes);
                    assert(alerts[j] == rest[j]);
                } else {
                    assert(r[c] == ch);
                }
            }
            assert forall|j: int, q: int|
                0 <= j < alerts.len() && alerts[j].enabled && #[trigger] first_quote_of(
                    quotes,
                    alerts[j].symbol@,
                    q,
                ) implies r.contains(
                AlertCheck {
                    wallet_index: k as usize,
                    alert_id: alerts[j].id,
                    condition: alerts[j].condition,
                    quote_index: q as usize,
                },
            ) by {
                if j < last {
                    assert(rest[j] == alerts[j]);
                    let e = AlertCheck {
                        wallet_index: k as usize,
                        alert_id: alerts[j].id,
                        condition: alerts[j].condition,
                        quote_index: q as usize,
                    };
                    assert(before.contains(e));
                    let p = choose|p: int| 0 <= p < before.len() && before[p] == e;
                    assert(r[p] == e);
                } else {
                    lemma_first_quote_unique(quotes, a.symbol@, q, qi);
                    assert(r[r.len() - 1] == ch);
                }
            }
        } else {
            assert(r == before);
            assert forall|c: int| 0 <= c < r.len() implies exists|j: int|
                0 <= j < alerts.len() && check_of(#[trigger] r[c], k, alerts[j], quotes) by {
                let j = choose|j: int| 0 <= j < rest.len() && check_of(before[c], k, rest[j], quotes);
                assert(alerts[j] == rest[j]);
            }
            assert forall|j: int, q: int|
                0 <= j < alerts.len() && alerts[j].enabled && #[trigger] first_quote_of(
                    quotes,
                    alerts[j].symbol@,
                    q,
                ) implies r.contains(
                AlertCheck {
                    wallet_index: k as usize,
                    alert_id: alerts[j].id,
                    condition: alerts[j].condition,
                    quote_index: q as usize,
                },
            ) by {
                if j < last {
                    assert(rest[j] == alerts[j]);
                } else {
                    assert(quotes[q].symbol@ == a.symbol@);
                    assert(has_quote(quotes, a.symbol@));
                }
            }
        }
    }
}

/// The alert checks: every enabled alert of every wallet whose symbol has a
/// quote on show gets a check, against the first quote of its symbol, and
/// so does no other alert: whatever the other alerts of its wallet, and one
/// check for each such alert.
pub proof fn law_every_judged_alert_is_checked(wallets: Seq<WalletView>, quotes: Seq<MarketQuote>)
    requires
        wallets.len() < usize::MAX,
        quotes.len() <= usize::MAX,
    ensures
        all_checks(wallets, quotes).len() == judged_count(wallets, quotes),
        forall|c1: int, c2: int|
            0 <= c1 < c2 < all_checks(wallets, quotes).len() ==> (#[trigger] all_checks(
                wallets,
                quotes,
            )[c1]).wallet_index <= (#[trigger] all_checks(wallets, quotes)[c2]).wallet_index,
        forall|c: int|
            0 <= c < all_checks(wallets, quotes).len() ==> exists|k: int, j: int|
                0 <= k < wallets.len() && 0 <= j < wallets[k].alerts.len() && check_of(
                    #[trigger] all_checks(wallets, quotes)[c],
                    k,
                    wallets[k].alerts[j],
                    quotes,
                ),
        forall|k: int, j: int, q: int|
            0 <= k < wallets.len() && 0 <= j < wallets[k].alerts.len()
                && wallets[k].alerts[j].enabled && #[trigger] first_quote_of(
                quotes,
                wallets[k].alerts[j].symbol@,
                q,
            ) ==> all_checks(wallets, quotes).contains(
                AlertCheck {
                    wallet_index: k as usize,
                    alert_id: wallets[k].alerts[j].id,
                    condition: wallets[k].alerts[j].condition,
                    quote_index: q as usize,
                },
            ),
    decreases wallets.len(),
{
    if wallets.len() > 0 {
        let rest = wallets.drop_last();
        let last = wallets.len() - 1;
        let w = wallets.last();
        assert(wallets[last] == w);
        law_every_judged_alert_is_checked(rest, quotes);
        lemma_wallet_checks(last, w.alerts, quotes);
        let before = all_checks(rest, quotes);
        let mine = wallet_checks(last, w.alerts, quotes);
        let r = all_checks(wallets, quotes);
        assert(r == before + mine);
        assert forall|c1: int, c2: int| 0 <= c1 < c2 < r.len() implies (#[trigger] r[c1]).wallet_index
            <= (#[trigger] r[c2]).wallet_index by {
            if c2 < before.len() {
                assert(r[c1] == before[c1] && r[c2] == before[c2]);
            } else {
                assert(r[c2] == mine[c2 - before.len()]);
                let j2 = choose|j: int|
                    0 <= j < w.alerts.len() && check_of(mine[c2 - before.len()], last, w.alerts[j], quotes);
                if c1 < before.len() {
                    assert(r[c1] == before[c1]);
                    let (k, j) = choose|k: int, j: int|
                        0 <= k < rest.len() && 0 <= j < rest[k].alerts.len() && check_of(
                            before[c1],
                            k,
                            rest[k].alerts[j],
                            quotes,
                        );
                } else {
                    assert(r[c1] == mine[c1 - before.len()]);
                    let j1 = choose|j: int|
                        0 <= j < w.alerts.len() && check_of(mine[c1 - before.len()], last, w.alerts[j], quotes);
                }
            }
        }
        assert forall|c: int| 0 <= c < r.len() implies exists|k: int, j: int|
            0 <= k < wallets.len() && 0 <= j < wallets[k].alerts.len() && check_of(
                #[trigger] r[c],
                k,
                wallets[k].alerts[j],
                quotes,
            ) by {
            if c < before.len() {
                assert(r[c] == before[c]);
                let (k, j) = choose|k: int, j: int|
                    0 <= k < rest.len() && 0 <= j < rest[k].alerts.len() && check_of(
                        before[c],
                        k,
                        rest[k].alerts[j],
                        quotes,
                    );
                assert(wallets[k] == rest[k]);
            } else {
                assert(r[c] == mine[c - before.len()]);
                let j = choose|j: int|
                    0 <= j < w.alerts.len() && check_of(mine[c - before.len()], last, w.alerts[j], quotes);
            }
        }
        assert forall|k: int, j: int, q: int|
            0 <= k < wallets.len() && 0 <= j < wallets[k].alerts.len()
                && wallets[k].alerts[j].enabled && #[trigger] first_quote_of(
                quotes,
                wallets[k].alerts[j].symbol@,
                q,
            ) implies r.contains(
            AlertCheck {
                wallet_index: k as usize,
                alert_id: wallets[k].alerts[j].id,
                condition: wallets[k].alerts[j].condition,
                quote_index: q as usize,
            },
        ) by {
            let e = AlertCheck {
                wallet_index: k as usize,
                alert_id: wallets[k].alerts[j].id,
                condition: wallets[k].alerts[j].condition,
                quote_index: q as usize,
            };
            if k < last {
                assert(rest[k] == wallets[k]);
                assert(rest[k].alerts[j].enabled);
                assert(before.contains(e));
                let p = choose|p: int| 0 <= p < before.len() && before[p] == e;
                assert(r[p] == e);
            } else {
                assert(w.alerts[j].enabled);
                assert(mine.contains(e));
                let p = choose|p: int| 0 <= p < mine.len() && mine[p] == e;
                assert(r[before.len() + p] == e);
            }
        }
    }
}

} // verus!
