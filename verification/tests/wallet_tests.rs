use marketwatch::wallet::{data_path, data_path_from, wallets_file, Wallet};
use std::path::PathBuf;

#[test]
fn new_wallet_is_empty() {
    let w = Wallet::new("Savings".to_string());
    assert_eq!(w.name, "Savings");
    assert!(w.symbols.is_empty());
    assert!(w.alerts.is_empty());
}

#[test]
fn data_directory() {
    assert_eq!(
        data_path_from(Some("/data".to_string()), None),
        "/data/com.github.MiracleForge.cosmic-marketwatch"
    );
    assert_eq!(
        data_path_from(Some("/data/".to_string()), Some("/home/a".to_string())),
        "/data/com.github.MiracleForge.cosmic-marketwatch"
    );
    assert_eq!(
        data_path_from(None, Some("/home/alice".to_string())),
        "/home/alice/.local/share/com.github.MiracleForge.cosmic-marketwatch"
    );
    assert_eq!(
        data_path_from(None, None),
        "./.local/share/com.github.MiracleForge.cosmic-marketwatch"
    );
    assert_eq!(
        data_path_from(Some(String::new()), None),
        "com.github.MiracleForge.cosmic-marketwatch"
    );
    assert_eq!(data_path(Some("/x".to_string())), "/x/com.github.MiracleForge.cosmic-marketwatch");
    assert!(data_path(None).ends_with("/.local/share/com.github.MiracleForge.cosmic-marketwatch"));
}

#[test]
fn wallets_file_location() {
    assert_eq!(
        wallets_file(Some("/data".to_string())),
        "/data/com.github.MiracleForge.cosmic-marketwatch/wallets.json"
    );
    assert!(wallets_file(None).ends_with("com.github.MiracleForge.cosmic-marketwatch/wallets.json"));
}

#[test]
fn paths_agree_with_std() {
    for base in ["/data", "/data/", "rel", ""] {
        let expected = PathBuf::from(base)
            .join("com.github.MiracleForge.cosmic-marketwatch")
            .join("wallets.json");
        assert_eq!(
            wallets_file(Some(base.to_string())),
            expected.to_string_lossy(),
            "{base:?}"
        );
    }
}
