# marketwatch

A market-watch applet for the COSMIC panel: quotes of the most active assets
or of user wallets, news per asset, price alerts with desktop notifications.

- `src/` is the verified library. `app.rs` holds the applet's state and its
  update rule: `AppModel::update` takes a message and the time and returns
  the commands to carry out; its contract is the spec function `step`.
  `laws.rs` proves properties that hold over many messages (limits on
  wallets and assets, fresh alert ids, navigation round trips, the per-screen
  cache). `marketwatch.rs` has the quote, news and alert types, amount and
  age formatting, request addresses and search labels; `display.rs` the
  decisions of the views; `wallet.rs` wallets and their file; `config.rs`
  the settings; `text.rs` verified text helpers.
- `app/` is the COSMIC program around it: windows, widgets, HTTP requests,
  JSON, notifications, timers, and the floating-point comparisons of prices.
- `tests/` runs the library on concrete values.

## Announced but absent

The project's changelog announces market screens (Most Active, Gainers,
Losers) with tab navigation, data cached per screen, company logos and a
setting to hide them. The project's code never completed them: its views
name a screen-tab type and a tab message that its state does not define, its
cache helpers call a cache-key function that is defined nowhere, and it has
no request for gainers or losers and no source of logos. So this library has
one market screen (the most active assets), wallets as the other screens, a
cache keyed by screen index, and no logos. Texts are in English only, as the
project's localisation module is missing.
