use tc_tui::config::{
    config_source_for, currency_units, default_currency_refresh_secs, ConfigSource,
    CurrencyConfig, LoadOutcome,
};

fn units(list: &[&str]) -> CurrencyConfig {
    CurrencyConfig { units: list.iter().map(|s| s.to_string()).collect() }
}

fn pair(a: &str, b: &str) -> (String, String) {
    (a.to_string(), b.to_string())
}

#[test]
fn config_source_file_label_contains_path() {
    let source = ConfigSource::File("/home/user/.config/tc-tui/config.toml".to_string());
    assert!(source.label().contains("cfg:"));
    assert!(source.label().contains("config.toml"));
}

#[test]
fn config_source_default_label_contains_reason() {
    let source = ConfigSource::Default("file not found".to_string());
    let label = source.label();
    assert!(label.contains("default"));
    assert!(label.contains("file not found"));
}

#[test]
fn config_source_labels_exact() {
    assert_eq!(ConfigSource::File("/x/c.toml".to_string()).label(), "cfg: /x/c.toml");
    assert_eq!(ConfigSource::Default("why".to_string()).label(), "cfg: default (why)");
}

#[test]
fn default_currency_refresh_is_an_hour() {
    assert_eq!(default_currency_refresh_secs(), 3600);
}

#[test]
fn currency_config_default_is_usd_eur() {
    assert_eq!(CurrencyConfig::default().units, vec!["USD".to_string(), "EUR".to_string()]);
}

#[test]
fn currency_units_normalizes_and_dedups() {
    assert_eq!(currency_units(&units(&[" gbp ", "jpy"])), pair("GBP", "JPY"));
    assert_eq!(currency_units(&units(&["usd", "USD", " ", "eur", "chf"])), pair("USD", "EUR"));
    assert_eq!(currency_units(&units(&["cad"])), pair("USD", "EUR"));
    assert_eq!(currency_units(&units(&["cad", "Cad", "CAD "])), pair("USD", "EUR"));
    assert_eq!(currency_units(&units(&[])), pair("USD", "EUR"));
    assert_eq!(currency_units(&units(&["\u{a0}aud\t", "nzd"])), pair("AUD", "NZD"));
    assert_eq!(currency_units(&units(&["ñx", "b"])), pair("ñX", "B"));
}

#[test]
fn currency_units_only_merges_consecutive_repeats() {
    assert_eq!(currency_units(&units(&["eur", "usd", "eur"])), pair("EUR", "USD"));
}

#[test]
fn config_source_for_each_outcome() {
    let s = config_source_for(LoadOutcome::NoConfigDir);
    assert_eq!(s.label(), "cfg: default (no config dir)");
    let s = config_source_for(LoadOutcome::Unreadable {
        path: "/h/.config/tc-tui/config.toml".to_string(),
        error: "entity not found".to_string(),
    });
    assert_eq!(s.label(), "cfg: default (/h/.config/tc-tui/config.toml: entity not found)");
    let s = config_source_for(LoadOutcome::Unparsable {
        path: "/c.toml".to_string(),
        error: "bad key".to_string(),
    });
    assert_eq!(s.label(), "cfg: default (parse error in /c.toml: bad key)");
    let s = config_source_for(LoadOutcome::Parsed { path: "/c.toml".to_string() });
    assert!(matches!(s, ConfigSource::File(ref p) if p == "/c.toml"));
}
