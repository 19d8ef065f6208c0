//! Wallets: named lists of assets with their price alerts, and where they
//! are kept on disk.
use vstd::prelude::*;

use crate::marketwatch::{copy_alerts, PriceAlert};
use crate::text::opt_text;

verus! {

/// A named list of asset symbols, with the price alerts set on them.
#[derive(Debug, Clone, PartialEq)]
pub struct Wallet {
    pub name: String,
    pub symbols: Vec<String>,
    pub alerts: Vec<PriceAlert>,
}

/// The plain contents of a wallet.
pub struct WalletView {
    pub name: Seq<char>,
    pub symbols: Seq<Seq<char>>,
    pub alerts: Seq<PriceAlert>,
}

impl View for Wallet {
    type V = WalletView;

    open spec fn view(&self) -> WalletView {
        WalletView {
            name: self.name@,
            symbols: self.symbols@.map_values(|s: String| s@),
            alerts: self.alerts@,
        }
    }
}

/// A copy of a list of strings.
pub fn copy_strings(v: &Vec<String>) -> (r: Vec<String>)
    ensures
        r@ == v@,
{
    let mut r: Vec<String> = Vec::new();
    let mut i: usize = 0;
    while i < v.len()
        invariant
            i <= v@.len(),
            r@ == v@.take(i as int),
        decreases v.len() - i,
    {
        r.push(v[i].clone());
        assert(v@.take(i + 1) =~= v@.take(i as int).push(v@[i as int]));
        i = i + 1;
    }
    assert(v@.take(v@.len() as int) =~= v@);
    r
}

impl Wallet {
    /// An empty wallet called `name`.
    pub fn new(name: String) -> (w: Wallet)
        ensures
            w.name == name,
            w.symbols@.len() == 0,
            w.alerts@.len() == 0,
    {
        Wallet { name, symbols: Vec::new(), alerts: Vec::new() }
    }

    /// A copy of this wallet.
    pub fn duplicate(&self) -> (r: Wallet)
        ensures
            r@ == self@,
    {
        let symbols = copy_strings(&self.symbols);
        let alerts = copy_alerts(&self.alerts);
        let r = Wallet { name: self.name.clone(), symbols, alerts };
        assert(r@.symbols =~= self@.symbols);
        r
    }
}

/// The name of the applet's directory under the data directory.
pub open spec fn app_dir_name() -> Seq<char> {
    "com.github.MiracleForge.cosmic-marketwatch"@
}

/// `base` joined with the relative path `rel`, as `Path::join` joins them on
/// Unix: a `/` goes between the two unless `base` is empty or already ends
/// with one.
pub open spec fn join_path(base: Seq<char>, rel: Seq<char>) -> Seq<char> {
    if base.len() == 0 || base.last() == '/' {
        base + rel
    } else {
        base + "/"@ + rel
    }
}

fn join_path_exec(base: String, rel: &str) -> (r: String)
    ensures
        r@ == join_path(base@, rel@),
{
    proof {
        reveal_strlit("/");
    }
    let v = crate::text::chars_of(base.as_str());
    let mut r = base;
    if v.len() > 0 && v[v.len() - 1] != '/' {
        r.append("/");
    }
    r.append(rel);
    r
}

/// The directory of the applet's data: `$XDG_DATA_HOME` where it is set
/// (`xdg_data_home`), else `.local/share` under the home directory `home`,
/// else under `.`.
pub open spec fn data_dir(xdg_data_home: Option<Seq<char>>, home: Option<Seq<char>>) -> Seq<char> {
    let base = match xdg_data_home {
        Some(x) => x,
        None => match home {
            Some(h) => join_path(h, ".local/share"@),
            None => join_path("."@, ".local/share"@),
        },
    };
    join_path(base, app_dir_name())
}

/// The directory of the applet's data, given the values of `$XDG_DATA_HOME`
/// and of the home directory.
pub fn data_path_from(xdg_data_home: Option<String>, home: Option<String>) -> (r: String)
    ensures
        r@ == data_dir(opt_text(xdg_data_home), opt_text(home)),
{
    let base = match xdg_data_home {
        Some(x) => x,
        None => match home {
            Some(h) => join_path_exec(h, ".local/share"),
            None => join_path_exec(String::from_str("."), ".local/share"),
        },
    };
    join_path_exec(base, "com.github.MiracleForge.cosmic-marketwatch")
}

/// `dirs::home_dir`, the path turned into text (invalid UTF-8 replaced).
/// On Unix the crate returns `$HOME` where it is set and not empty, else the
/// user's entry in the password database where that is not empty, else
/// `None`; what is stated is only that a path it returns is not empty.
#[verifier::external_body]
fn home_dir() -> (r: Option<String>)
    ensures
        r matches Some(h) ==> h@.len() > 0,
{
    dirs::home_dir().map(|p| p.to_string_lossy().into_owned())
}

/// The directory of the applet's data, given the value of `$XDG_DATA_HOME`;
/// the home directory is looked up only where that is not set.
pub fn data_path(xdg_data_home: Option<String>) -> (r: String)
    ensures
        xdg_data_home matches Some(x) ==> r@ == data_dir(Some(x@), None),
        xdg_data_home is None ==> exists|home: Option<Seq<char>>| r@ == data_dir(None, home),
{
    match xdg_data_home {
        Some(x) => data_path_from(Some(x), None),
        None => {
            let home = home_dir();
            let ghost h = opt_text(home);
            let r = data_path_from(None, home);
            assert(r@ == data_dir(None, h));
            r
        },
    }
}

/// The file that holds the wallets, given the value of `$XDG_DATA_HOME`.
pub fn wallets_file(xdg_data_home: Option<String>) -> (r: String)
    ensures
        xdg_data_home matches Some(x) ==> r@ == join_path(
            data_dir(Some(x@), None),
            "wallets.json"@,
        ),
        xdg_data_home is None ==> exists|home: Option<Seq<char>>|
            r@ == join_path(data_dir(None, home), "wallets.json"@),
{
    let dir = data_path(xdg_data_home);
    join_path_exec(dir, "wallets.json")
}

} // verus!
