//! Properties of the applet that span several messages or hold of every
//! message, proved over `step`.
use vstd::prelude::*;

use crate::app::{
    step_toggle_alert, step_remove_stock, step_delete_wallet, step_add_wallet, step_add_stock,
    step_confirm_rename, step_add_alert, step_remove_alert, other_text, not_on_symbol, other_id,
    AppView, CommandView, MAX_ASSETS_PER_WALLET, MAX_WALLETS, Message, elapsed_secs, ids_below,
    step, step_switch, toggled, initial_state, adds_alert, without_fired, has_alert, first_alert_with,
};
use crate::config::PopupTab;
use crate::marketwatch::{AlertCondition, MarketQuote, PriceAlert};
use crate::text::before_first;
use crate::wallet::WalletView;

verus! {

broadcast use vstd::seq_lib::group_filter_ensures;

/// Every wallet holds at most `MAX_ASSETS_PER_WALLET` assets.
pub open spec fn assets_within_limit(wallets: Seq<WalletView>) -> bool {
    forall|k: int| 0 <= k < wallets.len() ==> (#[trigger] wallets[k]).symbols.len()
        <= MAX_ASSETS_PER_WALLET
}

/// No wallet holds the same asset twice.
pub open spec fn symbols_distinct(wallets: Seq<WalletView>) -> bool {
    forall|k: int| 0 <= k < wallets.len() ==> (#[trigger] wallets[k]).symbols.no_duplicates()
}

/// The wallets a message leaves: only the messages below change them, each
/// in one place; every other message leaves them alone.
proof fn lemma_wallets_unchanged(s: AppView, m: Message, now: u64)
    requires
        s.wf(),
        !(m is DeleteCurrentWallet),
        !(m is AddWallet),
        !(m is RemoveStockFromWallet),
        !(m is AddStockToWallet),
        !(m is ConfirmRenameWallet),
        !(m is AddAlert),
        !(m is RemoveAlert),
        !(m is ToggleAlert),
    ensures
        step(s, m, now).0.wallets == s.wallets,
        step(s, m, now).0.next_alert_id == s.next_alert_id,
{
    match m {
        Message::PreviusWallet => lemma_switch_basics(s, now),
        Message::NextWallet => lemma_switch_basics(s, now),
        Message::SwitchWallet(_) => lemma_switch_basics(s, now),
        _ => {},
    }
}

/// What showing screen `i` does to the screen index, the wallets, and the tab.
pub proof fn lemma_switch_basics(s: AppView, now: u64)
    ensures
        forall|i: usize| {
            let t = #[trigger] step_switch(s, i, now).0;
            &&& t.wallet_index == if i < s.wallets.len() + 1 {
                i
            } else {
                0
            }
            &&& t.wallets == s.wallets
            &&& t.config.refresh_interval == s.config.refresh_interval
            &&& t.fetch_times == s.fetch_times
            &&& t.cached_quotes == s.cached_quotes
            &&& t.active_tab != PopupTab::Alerts
        },
{
}

/// No message takes the number of wallets beyond `MAX_WALLETS`.
#[verifier::spinoff_prover]
pub proof fn law_wallet_count_kept(s: AppView, m: Message, now: u64)
    requires
        s.wf(),
        s.wallets.len() <= MAX_WALLETS,
    ensures
        step(s, m, now).0.wallets.len() <= MAX_WALLETS,
{
    match m {
        Message::DeleteCurrentWallet => {},
        Message::AddWallet => {},
        Message::RemoveStockFromWallet(_) => {},
        Message::AddStockToWallet(_) => {},
        Message::ConfirmRenameWallet => {},
        Message::AddAlert { .. } => {},
        Message::RemoveAlert { .. } => {},
        Message::ToggleAlert { .. } => {},
        _ => lemma_wallets_unchanged(s, m, now),
    }
}

/// No message puts more than `MAX_ASSETS_PER_WALLET` assets in a wallet.
pub proof fn law_assets_per_wallet_kept(s: AppView, m: Message, now: u64)
    requires
        s.wf(),
        assets_within_limit(s.wallets),
    ensures
        assets_within_limit(step(s, m, now).0.wallets),
{
    let t = step(s, m, now).0;
    match m {
        Message::DeleteCurrentWallet => {
            if s.wallet_index > 0 {
                assert forall|k: int| 0 <= k < t.wallets.len() implies (
                #[trigger] t.wallets[k]).symbols.len() <= MAX_ASSETS_PER_WALLET by {
                    if k < s.wallet_index - 1 {
                        assert(t.wallets[k] == s.wallets[k]);
                    } else {
                        assert(t.wallets[k] == s.wallets[k + 1]);
                    }
                }
            }
        },
        Message::AddWallet => {
            if s.wallets.len() < MAX_WALLETS {
                assert forall|k: int| 0 <= k < t.wallets.len() implies (
                #[trigger] t.wallets[k]).symbols.len() <= MAX_ASSETS_PER_WALLET by {
                    if k < s.wallets.len() {
                        assert(t.wallets[k] == s.wallets[k]);
                    }
                }
            }
        },
        Message::RemoveStockFromWallet(symbol) => {
            if s.wallet_index > 0 {
                let i = s.wallet_index - 1;
                let sym = symbol@;
                s.wallets[i].symbols.lemma_filter_len(other_text(sym));
                assert forall|k: int| 0 <= k < t.wallets.len() implies (
                #[trigger] t.wallets[k]).symbols.len() <= MAX_ASSETS_PER_WALLET by {
                    if k != i {
                        assert(t.wallets[k] == s.wallets[k]);
                    }
                }
            }
        },
        Message::AddStockToWallet(label) => {
            assert forall|k: int| 0 <= k < t.wallets.len() implies (
            #[trigger] t.wallets[k]).symbols.len() <= MAX_ASSETS_PER_WALLET by {
                if s.wallet_index > 0 && k != s.wallet_index - 1 {
                    assert(t.wallets[k] == s.wallets[k]);
                }
            }
        },
        Message::ConfirmRenameWallet => {
            assert forall|k: int| 0 <= k < t.wallets.len() implies (
            #[trigger] t.wallets[k]).symbols.len() <= MAX_ASSETS_PER_WALLET by {
                assert(t.wallets[k].symbols == s.wallets[k].symbols);
            }
        },
        Message::AddAlert { .. } => {
            assert forall|k: int| 0 <= k < t.wallets.len() implies (
            #[trigger] t.wallets[k]).symbols.len() <= MAX_ASSETS_PER_WALLET by {
                assert(t.wallets[k].symbols == s.wallets[k].symbols);
            }
        },
        Message::RemoveAlert { .. } => {
            assert forall|k: int| 0 <= k < t.wallets.len() implies (
            #[trigger] t.wallets[k]).symbols.len() <= MAX_ASSETS_PER_WALLET by {
                assert(t.wallets[k].symbols == s.wallets[k].symbols);
            }
        },
        Message::ToggleAlert { .. } => {
            assert forall|k: int| 0 <= k < t.wallets.len() implies (
            #[trigger] t.wallets[k]).symbols.len() <= MAX_ASSETS_PER_WALLET by {
                assert(t.wallets[k].symbols == s.wallets[k].symbols);
            }
        },
        _ => {
            lemma_wallets_unchanged(s, m, now);
        },
    }
}

proof fn lemma_filter_keeps_ids_below(alerts: Seq<PriceAlert>, p: spec_fn(PriceAlert) -> bool, bound: u64)
    requires
        forall|j: int| 0 <= j < alerts.len() ==> (#[trigger] alerts[j]).id < bound,
    ensures
        forall|j: int| 0 <= j < alerts.filter(p).len() ==> (#[trigger] alerts.filter(p)[j]).id < bound,
{
    assert forall|j: int| 0 <= j < alerts.filter(p).len() implies (#[trigger] alerts.filter(
        p,
    )[j]).id < bound by {
        let a = alerts.filter(p)[j];
        assert(alerts.filter(p).contains(a));
        alerts.lemma_filter_contains_rev(p, a);
        let i = choose|i: int| 0 <= i < alerts.len() && alerts[i] == a;
    }
}

/// Every alert keeps an id below the next one to be given out, whatever the
/// message: an alert added gets a fresh id.
#[verifier::spinoff_prover]
#[verifier::rlimit(100)]
pub proof fn law_alert_ids_stay_fresh(s: AppView, m: Message, now: u64)
    requires
        s.wf(),
        ids_below(s.wallets, s.next_alert_id),
        adds_alert(s, m) ==> s.next_alert_id < u64::MAX,
    ensures
        ids_below(step(s, m, now).0.wallets, step(s, m, now).0.next_alert_id),
{
    match m {
        Message::DeleteCurrentWallet => lemma_fresh_delete(s),
        Message::AddWallet => lemma_fresh_add_wallet(s),
        Message::AddStockToWallet(label) => lemma_fresh_add_stock(s, label@),
        Message::ConfirmRenameWallet => lemma_fresh_rename(s),
        Message::RemoveStockFromWallet(symbol) => lemma_fresh_remove_stock(s, symbol@),
        Message::AddAlert { wallet_index, symbol, condition } => lemma_fresh_add_alert(
            s,
            wallet_index,
            PriceAlert { id: s.next_alert_id, symbol, condition, triggered: false, enabled: true },
        ),
        Message::RemoveAlert { wallet_index, alert_id } => lemma_fresh_remove_alert(
            s,
            wallet_index,
            alert_id,
        ),
        Message::ToggleAlert { wallet_index, alert_id } => lemma_fresh_toggle(
            s,
            wallet_index,
            alert_id,
        ),
        _ => lemma_wallets_unchanged(s, m, now),
    }
}

proof fn lemma_fresh_delete(s: AppView)
    requires
        s.wf(),
        ids_below(s.wallets, s.next_alert_id),
    ensures
        ids_below(step_delete_wallet(s).0.wallets, step_delete_wallet(s).0.next_alert_id),
{
    let t = step_delete_wallet(s).0;
    assert(t.next_alert_id == s.next_alert_id);
    assert forall|k: int, j: int|
        0 <= k < t.wallets.len() && 0 <= j < t.wallets[k].alerts.len() implies (
        #[trigger] t.wallets[k].alerts[j]).id < t.next_alert_id by {
        if s.wallet_index > 0 {
            assert(t.wallets == s.wallets.remove(s.wallet_index - 1));
            if k < s.wallet_index - 1 {
                assert(t.wallets[k] == s.wallets[k]);
                assert(s.wallets[k].alerts[j].id < s.next_alert_id);
            } else {
                assert(t.wallets[k] == s.wallets[k + 1]);
                assert(s.wallets[k + 1].alerts[j].id < s.next_alert_id);
            }
        } else {
            assert(s.wallets[k].alerts[j].id < s.next_alert_id);
        }
    }
}

proof fn lemma_fresh_add_wallet(s: AppView)
    requires
        s.wf(),
        ids_below(s.wallets, s.next_alert_id),
    ensures
        ids_below(step_add_wallet(s).0.wallets, step_add_wallet(s).0.next_alert_id),
{
    let t = step_add_wallet(s).0;
    assert forall|k: int, j: int|
        0 <= k < t.wallets.len() && 0 <= j < t.wallets[k].alerts.len() implies (
        #[trigger] t.wallets[k].alerts[j]).id < t.next_alert_id by {
        if s.wallets.len() < MAX_WALLETS && k < s.wallets.len() {
            assert(t.wallets[k] == s.wallets[k]);
        }
    }
}

proof fn lemma_fresh_add_stock(s: AppView, label: Seq<char>)
    requires
        s.wf(),
        ids_below(s.wallets, s.next_alert_id),
    ensures
        ids_below(step_add_stock(s, label).0.wallets, step_add_stock(s, label).0.next_alert_id),
{
    let t = step_add_stock(s, label).0;
    assert forall|k: int, j: int|
        0 <= k < t.wallets.len() && 0 <= j < t.wallets[k].alerts.len() implies (
        #[trigger] t.wallets[k].alerts[j]).id < t.next_alert_id by {
        assert(t.wallets[k].alerts == s.wallets[k].alerts);
    }
}

proof fn lemma_fresh_rename(s: AppView)
    requires
        s.wf(),
        ids_below(s.wallets, s.next_alert_id),
    ensures
        ids_below(step_confirm_rename(s).0.wallets, step_confirm_rename(s).0.next_alert_id),
{
    let t = step_confirm_rename(s).0;
    assert forall|k: int, j: int|
        0 <= k < t.wallets.len() && 0 <= j < t.wallets[k].alerts.len() implies (
        #[trigger] t.wallets[k].alerts[j]).id < t.next_alert_id by {
        assert(t.wallets[k].alerts == s.wallets[k].alerts);
    }
}

proof fn lemma_fresh_remove_stock(s: AppView, symbol: Seq<char>)
    requires
        s.wf(),
        ids_below(s.wallets, s.next_alert_id),
    ensures
        ids_below(
            step_remove_stock(s, symbol).0.wallets,
            step_remove_stock(s, symbol).0.next_alert_id,
        ),
{
    let t = step_remove_stock(s, symbol).0;
    if s.wallet_index > 0 {
        let i = s.wallet_index - 1;
        let w = s.wallets[i];
        let w2 = WalletView {
            symbols: w.symbols.filter(other_text(symbol)),
            alerts: w.alerts.filter(not_on_symbol(symbol)),
            ..w
        };
        assert(t.wallets == s.wallets.update(i, w2));
    }
    assert forall|k: int, j: int|
        0 <= k < t.wallets.len() && 0 <= j < t.wallets[k].alerts.len() implies (
        #[trigger] t.wallets[k].alerts[j]).id < t.next_alert_id by {
        if s.wallet_index > 0 && k == s.wallet_index - 1 {
            assert forall|i: int| 0 <= i < s.wallets[k].alerts.len() implies (
            #[trigger] s.wallets[k].alerts[i]).id < s.next_alert_id by {}
            lemma_filter_keeps_ids_below(
                s.wallets[k].alerts,
                not_on_symbol(symbol),
                s.next_alert_id,
            );
            assert(t.wallets[k].alerts == s.wallets[k].alerts.filter(
                not_on_symbol(symbol),
            ));
        } else if s.wallet_index > 0 {
            assert(t.wallets[k] == s.wallets[k]);
        }
    }
}

proof fn lemma_fresh_add_alert(s: AppView, wallet_index: usize, alert: PriceAlert)
    requires
        s.wf(),
        ids_below(s.wallets, s.next_alert_id),
        wallet_index > 0 && wallet_index - 1 < s.wallets.len() ==> s.next_alert_id < u64::MAX,
        alert.id == s.next_alert_id,
    ensures
        ids_below(
            step_add_alert(s, wallet_index, alert).0.wallets,
            step_add_alert(s, wallet_index, alert).0.next_alert_id,
        ),
{
    let t = step_add_alert(s, wallet_index, alert).0;
    assert forall|k: int, j: int|
        0 <= k < t.wallets.len() && 0 <= j < t.wallets[k].alerts.len() implies (
        #[trigger] t.wallets[k].alerts[j]).id < t.next_alert_id by {
        if wallet_index > 0 && wallet_index - 1 < s.wallets.len() {
            if k == wallet_index - 1 && j < s.wallets[k].alerts.len() {
                assert(t.wallets[k].alerts[j] == s.wallets[k].alerts[j]);
            } else if k != wallet_index - 1 {
                assert(t.wallets[k] == s.wallets[k]);
            }
        }
    }
}

proof fn lemma_fresh_remove_alert(s: AppView, wallet_index: usize, alert_id: u64)
    requires
        s.wf(),
        ids_below(s.wallets, s.next_alert_id),
    ensures
        ids_below(
            step_remove_alert(s, wallet_index, alert_id).0.wallets,
            step_remove_alert(s, wallet_index, alert_id).0.next_alert_id,
        ),
{
    let t = step_remove_alert(s, wallet_index, alert_id).0;
    assert forall|k: int, j: int|
        0 <= k < t.wallets.len() && 0 <= j < t.wallets[k].alerts.len() implies (
        #[trigger] t.wallets[k].alerts[j]).id < t.next_alert_id by {
        if wallet_index > 0 && wallet_index - 1 < s.wallets.len() && k == wallet_index - 1 {
            assert forall|i: int| 0 <= i < s.wallets[k].alerts.len() implies (
            #[trigger] s.wallets[k].alerts[i]).id < s.next_alert_id by {}
            lemma_filter_keeps_ids_below(
                s.wallets[k].alerts,
                other_id(alert_id),
                s.next_alert_id,
            );
        } else if wallet_index > 0 && wallet_index - 1 < s.wallets.len() {
            assert(t.wallets[k] == s.wallets[k]);
        }
    }
}

proof fn lemma_fresh_toggle(s: AppView, wallet_index: usize, alert_id: u64)
    requires
        s.wf(),
        ids_below(s.wallets, s.next_alert_id),
    ensures
        ids_below(
            step_toggle_alert(s, wallet_index, alert_id).0.wallets,
            step_toggle_alert(s, wallet_index, alert_id).0.next_alert_id,
        ),
{
    let t = step_toggle_alert(s, wallet_index, alert_id).0;
    assert forall|k: int, j: int|
        0 <= k < t.wallets.len() && 0 <= j < t.wallets[k].alerts.len() implies (
        #[trigger] t.wallets[k].alerts[j]).id < t.next_alert_id by {
        if wallet_index > 0 && wallet_index - 1 < s.wallets.len() && has_alert(
            s.wallets[wallet_index - 1].alerts,
            alert_id,
        ) && k == wallet_index - 1 {
            lemma_toggled_ids(s.wallets[k].alerts, alert_id);
            assert(t.wallets[k].alerts[j].id == s.wallets[k].alerts[j].id);
        } else {
            assert(t.wallets[k] == s.wallets[k]);
        }
    }
}

/// Where some alert has id `id`, there is a first one.
proof fn lemma_first_alert_exists(alerts: Seq<PriceAlert>, id: u64)
    requires
        has_alert(alerts, id),
    ensures
        exists|c: int| first_alert_with(alerts, id, c),
    decreases alerts.len(),
{
    let prev = alerts.drop_last();
    if has_alert(prev, id) {
        lemma_first_alert_exists(prev, id);
        let c = choose|c: int| first_alert_with(prev, id, c);
        assert forall|j: int| 0 <= j < c implies (#[trigger] alerts[j]).id != id by {
            assert(alerts[j] == prev[j]);
        }
        assert(first_alert_with(alerts, id, c));
    } else {
        let j = choose|j: int| 0 <= j < alerts.len() && (#[trigger] alerts[j]).id == id;
        assert forall|i: int| 0 <= i < alerts.len() - 1 implies (#[trigger] alerts[i]).id != id by {
            assert(alerts[i] == prev[i]);
        }
        assert(first_alert_with(alerts, id, alerts.len() - 1));
    }
}

/// Switching an alert on or off changes no alert's id.
proof fn lemma_toggled_ids(alerts: Seq<PriceAlert>, id: u64)
    ensures
        toggled(alerts, id).len() == alerts.len(),
        forall|j: int| 0 <= j < alerts.len() ==> (#[trigger] toggled(alerts, id)[j]).id == alerts[j].id,
{
    if has_alert(alerts, id) {
        lemma_first_alert_exists(alerts, id);
    }
}

/// Taking out the alerts that fired keeps every remaining id below the
/// next one to be given out.
pub proof fn law_fired_alerts_keep_ids_fresh(
    wallets: Seq<WalletView>,
    fired: Seq<(usize, u64)>,
    next: u64,
)
    requires
        ids_below(wallets, next),
    ensures
        ids_below(without_fired(wallets, fired), next),
{
    let t = without_fired(wallets, fired);
    assert forall|k: int, j: int|
        0 <= k < t.len() && 0 <= j < t[k].alerts.len() implies (#[trigger] t[k].alerts[j]).id
        < next by {
        let p = crate::app::not_fired(fired, k);
        assert forall|i: int| 0 <= i < wallets[k].alerts.len() implies (
        #[trigger] wallets[k].alerts[i]).id < next by {}
        lemma_filter_keeps_ids_below(wallets[k].alerts, p, next);
    }
}

/// Going to the next screen and back to the previous one returns to the
/// screen one started from (outside the alerts tab, with at least one wallet).
pub proof fn law_next_then_previous(s: AppView, now1: u64, now2: u64)
    requires
        s.wf(),
        s.active_tab != PopupTab::Alerts,
        s.wallets.len() > 0,
    ensures
        step(step(s, Message::NextWallet, now1).0, Message::PreviusWallet, now2).0.wallet_index
            == s.wallet_index,
{
    lemma_switch_basics(s, now1);
    let s1 = step(s, Message::NextWallet, now1).0;
    lemma_switch_basics(s1, now2);
    let total = s.wallets.len() + 1;
    if s.wallet_index + 1 < total {
        vstd::arithmetic::div_mod::lemma_small_mod((s.wallet_index + 1) as nat, total as nat);
    } else {
        vstd::arithmetic::div_mod::lemma_mod_self_0(total as int);
    }
}

/// Going to the previous screen and then to the next one returns to the
/// screen one started from (outside the alerts tab, with at least one wallet).
pub proof fn law_previous_then_next(s: AppView, now1: u64, now2: u64)
    requires
        s.wf(),
        s.active_tab != PopupTab::Alerts,
        s.wallets.len() > 0,
    ensures
        step(step(s, Message::PreviusWallet, now1).0, Message::NextWallet, now2).0.wallet_index
            == s.wallet_index,
{
    lemma_switch_basics(s, now1);
    let s1 = step(s, Message::PreviusWallet, now1).0;
    lemma_switch_basics(s1, now2);
    let total = s.wallets.len() + 1;
    if s.wallet_index == 0 {
        vstd::arithmetic::div_mod::lemma_mod_self_0(total as int);
    } else {
        vstd::arithmetic::div_mod::lemma_small_mod(s.wallet_index as nat, total as nat);
    }
}

/// Quotes are cached per screen: after the quotes of a screen arrive, a
/// visit to any other screen and a return within the refresh interval show
/// those quotes again without fetching anything.
#[verifier::rlimit(50)]
pub proof fn law_cached_quotes_come_back(
    s: AppView,
    data: Vec<MarketQuote>,
    away: usize,
    t1: u64,
    t2: u64,
    t3: u64,
)
    requires
        s.wf(),
        t1 <= t3,
        elapsed_secs(t1, t3) < s.config.refresh_interval.seconds(),
    ensures
        ({
            let home = s.wallet_index;
            let s1 = step(s, Message::MarketLoaded(Ok(data)), t1).0;
            let s2 = step(s1, Message::SwitchWallet(away), t2).0;
            let (s3, cmds) = step(s2, Message::SwitchWallet(home), t3);
            &&& s3.wallet_index == home
            &&& s3.quotes == data@
            &&& cmds == seq![CommandView::SaveConfig]
        }),
{
}

/// Adding an alert and then removing it by the id it was given leaves the
/// wallet's alerts as they were (where the ids in use are below the next one).
pub proof fn law_add_then_remove_alert(
    s: AppView,
    wallet_index: usize,
    symbol: String,
    condition: AlertCondition,
)
    requires
        s.wf(),
        ids_below(s.wallets, s.next_alert_id),
        s.next_alert_id < u64::MAX,
    ensures
        step(
            step(s, Message::AddAlert { wallet_index, symbol, condition }, 0).0,
            Message::RemoveAlert { wallet_index, alert_id: s.next_alert_id },
            0,
        ).0.wallets == s.wallets,
{
    let id = s.next_alert_id;
    let s1 = step(s, Message::AddAlert { wallet_index, symbol, condition }, 0).0;
    let s2 = step(s1, Message::RemoveAlert { wallet_index, alert_id: id }, 0).0;
    if wallet_index > 0 && wallet_index - 1 < s.wallets.len() {
        let i = wallet_index - 1;
        let al = s.wallets[i as int].alerts;
        let a = PriceAlert { id, symbol, condition, triggered: false, enabled: true };
        let p = other_id(id);
        reveal(Seq::filter);
        assert(al.push(a).drop_last() =~= al);
        assert forall|j: int| 0 <= j < al.len() implies #[trigger] p(al[j]) by {
            assert(al[j].id < id);
        }
        lemma_filter_keeps_all(al, p);
        assert(s2.wallets[i as int].alerts == al);
        assert(s2.wallets =~= s.wallets);
    }
}

proof fn lemma_filter_keeps_all<A>(s: Seq<A>, p: spec_fn(A) -> bool)
    requires
        forall|j: int| 0 <= j < s.len() ==> #[trigger] p(s[j]),
    ensures
        s.filter(p) == s,
    decreases s.len(),
{
    reveal(Seq::filter);
    if s.len() > 0 {
        assert forall|j: int| 0 <= j < s.drop_last().len() implies #[trigger] p(
            s.drop_last()[j],
        ) by {
            assert(s.drop_last()[j] == s[j]);
        }
        lemma_filter_keeps_all(s.drop_last(), p);
        assert(p(s[s.len() - 1]));
        assert(s.drop_last().push(s.last()) =~= s);
    }
}

/// Switching an alert on or off twice leaves the alerts as they were.
pub proof fn law_toggle_twice(alerts: Seq<PriceAlert>, id: u64)
    ensures
        toggled(toggled(alerts, id), id) == alerts,
{
    if has_alert(alerts, id) {
        lemma_first_alert_exists(alerts, id);
        let c = choose|c: int| first_alert_with(alerts, id, c);
        let t = toggled(alerts, id);
        assert forall|j: int| 0 <= j < c implies (#[trigger] t[j]).id != id by {
            assert(t[j] == alerts[j]);
        }
        assert(first_alert_with(t, id, c));
        assert(has_alert(t, id));
        let d = choose|d: int| first_alert_with(t, id, d);
        assert(d == c) by {
            if d < c {
                assert(t[d] == alerts[d]);
            } else if c < d {
            }
        }
        assert(toggled(t, id) =~= alerts);
    }
}

/// The settings that a message leaves: only the messages below change
/// them; every other message keeps the number of news items per asset.
proof fn lemma_news_count_unchanged(s: AppView, m: Message, now: u64)
    requires
        s.wf(),
        !(m is SetNumberOfNewsBySymbols),
    ensures
        step(s, m, now).0.config.count_news_by_simbol == s.config.count_news_by_simbol,
{
    match m {
        Message::PreviusWallet => lemma_switch_config(s, now),
        Message::NextWallet => lemma_switch_config(s, now),
        Message::SwitchWallet(_) => lemma_switch_config(s, now),
        _ => {},
    }
}

proof fn lemma_switch_config(s: AppView, now: u64)
    ensures
        forall|i: usize| (#[trigger] step_switch(s, i, now).0).config.count_news_by_simbol
            == s.config.count_news_by_simbol,
{
}

/// The number of news items fetched per asset stays between 1 and 5,
/// whatever the message, once it is there.
#[verifier::spinoff_prover]
pub proof fn law_news_count_in_range(s: AppView, m: Message, now: u64)
    requires
        s.wf(),
        1 <= s.config.count_news_by_simbol <= 5,
    ensures
        1 <= step(s, m, now).0.config.count_news_by_simbol <= 5,
{
    match m {
        Message::SetNumberOfNewsBySymbols(_) => {},
        _ => lemma_news_count_unchanged(s, m, now),
    }
}

/// Removing an asset from the wallet on show leaves that wallet with
/// neither the asset nor any alert on it.
pub proof fn law_removed_asset_leaves_no_alerts(s: AppView, symbol: Seq<char>)
    requires
        s.wf(),
        s.wallet_index > 0,
    ensures
        ({
            let w = step_remove_stock(s, symbol).0.wallets[s.wallet_index - 1];
            &&& !w.symbols.contains(symbol)
            &&& forall|j: int| 0 <= j < w.alerts.len() ==> (#[trigger] w.alerts[j]).symbol@
                != symbol
        }),
{
    let i = s.wallet_index - 1;
    let w = step_remove_stock(s, symbol).0.wallets[i];
    assert(w.symbols == s.wallets[i].symbols.filter(other_text(symbol)));
    assert(w.alerts == s.wallets[i].alerts.filter(not_on_symbol(symbol)));
    if w.symbols.contains(symbol) {
        let k = choose|k: int| 0 <= k < w.symbols.len() && w.symbols[k] == symbol;
        assert(other_text(symbol)(w.symbols[k]));
    }
    assert forall|j: int| 0 <= j < w.alerts.len() implies (#[trigger] w.alerts[j]).symbol@
        != symbol by {
        assert(not_on_symbol(symbol)(w.alerts[j]));
    }
}

/// The applet opens again on the screen last shown: showing screen `i`
/// asks to store the settings, and the settings stored start the applet,
/// with the same wallets, on screen `i`.
pub proof fn law_reopens_on_last_screen(s: AppView, i: usize, now: u64)
    requires
        s.wf(),
        i <= s.wallets.len(),
    ensures
        ({
            let (t, cmds) = step(s, Message::SwitchWallet(i), now);
            &&& t.wallet_index == i
            &&& cmds.len() > 0 && cmds[0] == CommandView::SaveConfig
            &&& initial_state(t.config, t.wallets).wallet_index == i
        }),
{
    lemma_switch_basics(s, now);
}

proof fn lemma_filter_no_duplicates<A>(s: Seq<A>, p: spec_fn(A) -> bool)
    requires
        s.no_duplicates(),
    ensures
        s.filter(p).no_duplicates(),
    decreases s.len(),
{
    reveal(Seq::filter);
    if s.len() > 0 {
        let rest = s.drop_last();
        let last = s.last();
        assert(rest.no_duplicates()) by {
            assert forall|i: int, j: int|
                0 <= i < rest.len() && 0 <= j < rest.len() && i != j implies rest[i] != rest[j] by {
                assert(rest[i] == s[i] && rest[j] == s[j]);
            }
        }
        lemma_filter_no_duplicates(rest, p);
        let f = rest.filter(p);
        if p(last) {
            assert(!f.contains(last)) by {
                if f.contains(last) {
                    rest.lemma_filter_contains_rev(p, last);
                    let k = choose|k: int| 0 <= k < rest.len() && rest[k] == last;
                    assert(s[k] == s[s.len() - 1]);
                }
            }
            let g = f.push(last);
            assert(s.filter(p) == g);
            assert forall|i: int, j: int|
                0 <= i < g.len() && 0 <= j < g.len() && i != j implies g[i] != g[j] by {
                if i == f.len() {
                    assert(g[j] == f[j]);
                    if g[i] == g[j] {
                        assert(f.contains(last));
                    }
                } else if j == f.len() {
                    assert(g[i] == f[i]);
                    if g[i] == g[j] {
                        assert(f.contains(last));
                    }
                } else {
                    assert(g[i] == f[i] && g[j] == f[j]);
                }
            }
        } else {
            assert(s.filter(p) == f);
        }
    }
}

/// No message makes a wallet hold the same asset twice: an asset is added
/// only where the wallet does not hold it yet.
#[verifier::rlimit(50)]
pub proof fn law_symbols_stay_distinct(s: AppView, m: Message, now: u64)
    requires
        s.wf(),
        symbols_distinct(s.wallets),
    ensures
        symbols_distinct(step(s, m, now).0.wallets),
{
    let t = step(s, m, now).0;
    match m {
        Message::DeleteCurrentWallet => {
            if s.wallet_index > 0 {
                assert forall|k: int| 0 <= k < t.wallets.len() implies (
                #[trigger] t.wallets[k]).symbols.no_duplicates() by {
                    if k < s.wallet_index - 1 {
                        assert(t.wallets[k] == s.wallets[k]);
                    } else {
                        assert(t.wallets[k] == s.wallets[k + 1]);
                    }
                }
            }
        },
        Message::AddWallet => {
            if s.wallets.len() < MAX_WALLETS {
                assert forall|k: int| 0 <= k < t.wallets.len() implies (
                #[trigger] t.wallets[k]).symbols.no_duplicates() by {
                    if k < s.wallets.len() {
                        assert(t.wallets[k] == s.wallets[k]);
                    }
                }
            }
        },
        Message::RemoveStockFromWallet(symbol) => {
            if s.wallet_index > 0 {
                let i = s.wallet_index - 1;
                assert(s.wallets[i].symbols.no_duplicates());
                lemma_filter_no_duplicates(s.wallets[i].symbols, other_text(symbol@));
                assert forall|k: int| 0 <= k < t.wallets.len() implies (
                #[trigger] t.wallets[k]).symbols.no_duplicates() by {
                    if k != i {
                        assert(t.wallets[k] == s.wallets[k]);
                    } else {
                        assert(t.wallets[k].symbols == s.wallets[i].symbols.filter(
                            other_text(symbol@),
                        ));
                    }
                }
            }
        },
        Message::AddStockToWallet(label) => {
            assert forall|k: int| 0 <= k < t.wallets.len() implies (
            #[trigger] t.wallets[k]).symbols.no_duplicates() by {
                if s.wallet_index > 0 && k == s.wallet_index - 1 {
                    let w = s.wallets[k];
                    let sym = before_first(label@, crate::marketwatch::label_separator());
                    assert(w.symbols.no_duplicates());
                    if s.search_results.contains(label@) && w.symbols.len()
                        < MAX_ASSETS_PER_WALLET && !w.symbols.contains(sym) {
                        let g = w.symbols.push(sym);
                        assert(t.wallets[k].symbols == g);
                        assert forall|a: int, b: int|
                            0 <= a < g.len() && 0 <= b < g.len() && a != b implies g[a]
                            != g[b] by {
                            if a == w.symbols.len() {
                                assert(g[b] == w.symbols[b]);
                            } else if b == w.symbols.len() {
                                assert(g[a] == w.symbols[a]);
                            } else {
                                assert(g[a] == w.symbols[a] && g[b] == w.symbols[b]);
                            }
                        }
                    } else {
                        assert(t.wallets[k].symbols == w.symbols);
                    }
                } else {
                    assert(t.wallets[k].symbols == s.wallets[k].symbols);
                }
            }
        },
        Message::ConfirmRenameWallet => {
            assert forall|k: int| 0 <= k < t.wallets.len() implies (
            #[trigger] t.wallets[k]).symbols.no_duplicates() by {
                assert(t.wallets[k].symbols == s.wallets[k].symbols);
            }
        },
        Message::AddAlert { .. } => {
            assert forall|k: int| 0 <= k < t.wallets.len() implies (
            #[trigger] t.wallets[k]).symbols.no_duplicates() by {
                assert(t.wallets[k].symbols == s.wallets[k].symbols);
            }
        },
        Message::RemoveAlert { .. } => {
            assert forall|k: int| 0 <= k < t.wallets.len() implies (
            #[trigger] t.wallets[k]).symbols.no_duplicates() by {
                assert(t.wallets[k].symbols == s.wallets[k].symbols);
            }
        },
        Message::ToggleAlert { .. } => {
            assert forall|k: int| 0 <= k < t.wallets.len() implies (
            #[trigger] t.wallets[k]).symbols.no_duplicates() by {
                assert(t.wallets[k].symbols == s.wallets[k].symbols);
            }
        },
        _ => {
            lemma_wallets_unchanged(s, m, now);
        },
    }
}

} // verus!
