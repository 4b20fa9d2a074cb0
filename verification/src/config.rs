//! Configuration values that the dashboard's logic reads, the currency pair it settles on,
//! and where its configuration came from.

use vstd::prelude::*;
use crate::text::{ascii_uppercase, chars_of, string_of, to_ascii_upper, trim, trimmed};

verus! {

/// The websites whose HTTP status is checked.
#[derive(Clone, Debug)]
pub struct UrlsConfig {
    pub sites: Vec<String>,
}

/// Refresh intervals, in seconds.
#[derive(Clone, Copy, Debug)]
pub struct RefreshConfig {
    pub weather_secs: u64,
    pub url_check_secs: u64,
    pub cpu_sample_secs: u64,
    pub currency_secs: u64,
}

/// Display settings.
#[derive(Clone, Copy, Debug)]
pub struct DisplayConfig {
    /// How many CPU-load samples the history keeps.
    pub cpu_history_len: usize,
}

/// The currencies to convert between.
#[derive(Clone, Debug)]
pub struct CurrencyConfig {
    pub units: Vec<String>,
}

/// Currency refresh interval used when the configuration gives none: one hour.
pub fn default_currency_refresh_secs() -> (r: u64)
    ensures
        r == 3600,
{
    3600
}

impl Default for CurrencyConfig {
    /// US dollars and euros.
    fn default() -> (r: Self)
        ensures
            r.units@.len() == 2,
            r.units@[0]@ == "USD"@,
            r.units@[1]@ == "EUR"@,
    {
        let mut units: Vec<String> = Vec::new();
        units.push(String::from_str("USD"));
        units.push(String::from_str("EUR"));
        CurrencyConfig { units }
    }
}

/// Where the configuration in use came from: a file (its path), or the built-in defaults
/// (with the reason).
#[derive(Clone, Debug)]
pub enum ConfigSource {
    File(String),
    Default(String),
}

/// Footer label of a configuration source: `cfg: <path>` or `cfg: default (<reason>)`.
pub open spec fn source_label(source: ConfigSource) -> Seq<char> {
    match source {
        ConfigSource::File(path) => "cfg: "@ + path@,
        ConfigSource::Default(reason) => "cfg: default ("@ + reason@ + ")"@,
    }
}

impl ConfigSource {
    pub fn label(&self) -> (r: String)
        ensures
            r@ == source_label(*self),
    {
        match self {
            ConfigSource::File(path) => {
                let mut out = String::from_str("cfg: ");
                out.append(path.as_str());
                out
            },
            ConfigSource::Default(reason) => {
                let mut out = String::from_str("cfg: default (");
                out.append(reason.as_str());
                out.append(")");
                out
            },
        }
    }
}

/// How reading the configuration file went.
#[derive(Clone, Debug)]
pub enum LoadOutcome {
    /// There is no home directory to look in.
    NoConfigDir,
    /// The file at `path` could not be read; `error` describes the I/O error kind.
    Unreadable { path: String, error: String },
    /// The file at `path` is not a valid configuration; `error` is the parser's message.
    Unparsable { path: String, error: String },
    /// The file at `path` was read and parsed.
    Parsed { path: String },
}

/// The reason text a load outcome reports when the defaults are used.
pub open spec fn default_reason(outcome: LoadOutcome) -> Seq<char> {
    match outcome {
        LoadOutcome::NoConfigDir => "no config dir"@,
        LoadOutcome::Unreadable { path, error } => path@ + ": "@ + error@,
        LoadOutcome::Unparsable { path, error } => "parse error in "@ + path@ + ": "@ + error@,
        LoadOutcome::Parsed { path } => Seq::empty(),
    }
}

/// Where the configuration came from, given how loading the file went: the file itself when
/// it parsed, and otherwise the defaults with the reason.
pub fn config_source_for(outcome: LoadOutcome) -> (r: ConfigSource)
    ensures
        outcome is Parsed ==> r == ConfigSource::File(outcome->Parsed_path),
        !(outcome is Parsed) ==> r is Default && r->Default_0@ == default_reason(outcome),
{
    match outcome {
        LoadOutcome::NoConfigDir => ConfigSource::Default(String::from_str("no config dir")),
        LoadOutcome::Unreadable { path, error } => {
            let mut out = path;
            out.append(": ");
            out.append(error.as_str());
            ConfigSource::Default(out)
        },
        LoadOutcome::Unparsable { path, error } => {
            let mut out = String::from_str("parse error in ");
            out.append(path.as_str());
            out.append(": ");
            out.append(error.as_str());
            ConfigSource::Default(out)
        },
        LoadOutcome::Parsed { path } => ConfigSource::File(path),
    }
}

// ---------------------------------------------------------------------------
// Currency pair
// ---------------------------------------------------------------------------

/// A configured currency code trimmed and upper-cased.
pub open spec fn normalize_unit(u: Seq<char>) -> Seq<char> {
    ascii_uppercase(trim(u))
}

/// The non-empty normalized codes of `units`, in order.
pub open spec fn normalized_units(units: Seq<Seq<char>>) -> Seq<Seq<char>>
    decreases units.len(),
{
    if units.len() == 0 {
        Seq::empty()
    } else {
        let prev = normalized_units(units.drop_last());
        let n = normalize_unit(units.last());
        if n.len() > 0 {
            prev.push(n)
        } else {
            prev
        }
    }
}

/// `s` with each run of equal consecutive entries reduced to one (what `Vec::dedup` does).
pub open spec fn dedup(s: Seq<Seq<char>>) -> Seq<Seq<char>>
    decreases s.len(),
{
    if s.len() == 0 {
        s
    } else {
        let d = dedup(s.drop_last());
        if d.len() > 0 && d.last() == s.last() {
            d
        } else {
            d.push(s.last())
        }
    }
}

/// The currency pair to convert between: the first two entries of the normalized,
/// deduplicated codes, or USD/EUR when fewer than two remain.
pub open spec fn chosen_pair(units: Seq<Seq<char>>) -> (Seq<char>, Seq<char>) {
    let n = dedup(normalized_units(units));
    if n.len() >= 2 {
        (n[0], n[1])
    } else {
        ("USD"@, "EUR"@)
    }
}

proof fn lemma_dedup_adjacent_distinct(s: Seq<Seq<char>>)
    ensures
        forall|i: int| 0 <= i < dedup(s).len() - 1 ==> #[trigger] dedup(s)[i] != dedup(s)[i + 1],
        forall|i: int| 0 <= i < dedup(s).len() ==> s.contains(#[trigger] dedup(s)[i]),
    decreases s.len(),
{
    if s.len() > 0 {
        let p = s.drop_last();
        lemma_dedup_adjacent_distinct(p);
        let d = dedup(p);
        assert forall|i: int| 0 <= i < dedup(s).len() implies s.contains(#[trigger] dedup(s)[i]) by {
            if i < d.len() {
                assert(p.contains(d[i]));
                let k = choose|k: int| 0 <= k < p.len() && p[k] == d[i];
                assert(s[k] == d[i]);
            } else {
                assert(s[s.len() - 1] == dedup(s)[i]);
            }
        }
    }
}

proof fn lemma_normalized_nonempty(units: Seq<Seq<char>>)
    ensures
        forall|i: int| 0 <= i < normalized_units(units).len() ==> #[trigger] normalized_units(units)[i].len() > 0,
    decreases units.len(),
{
    if units.len() > 0 {
        let p = normalized_units(units.drop_last());
        lemma_normalized_nonempty(units.drop_last());
        let r = normalized_units(units);
        assert forall|i: int| 0 <= i < r.len() implies #[trigger] r[i].len() > 0 by {
            if i < p.len() {
                assert(r[i] == p[i]);
            }
        }
    }
}

/// The converter always shows two different currencies, each a non-empty code.
pub proof fn lemma_chosen_pair_distinct(units: Seq<Seq<char>>)
    ensures
        chosen_pair(units).0 != chosen_pair(units).1,
        chosen_pair(units).0.len() > 0,
        chosen_pair(units).1.len() > 0,
{
    let norm = normalized_units(units);
    let n = dedup(norm);
    lemma_dedup_adjacent_distinct(norm);
    lemma_normalized_nonempty(units);
    if n.len() >= 2 {
        assert(n[0] != n[1]);
        assert(norm.contains(n[0]));
        assert(norm.contains(n[1]));
    } else {
        reveal_strlit("USD");
        reveal_strlit("EUR");
        assert("USD"@[0] != "EUR"@[0]);
    }
}

/// The views of a list of strings.
pub open spec fn views(v: Seq<String>) -> Seq<Seq<char>> {
    v.map_values(|s: String| s@)
}

/// The characters of `v`, each made ASCII upper case.
pub fn upper_chars(v: &[char]) -> (r: Vec<char>)
    ensures
        r@ == ascii_uppercase(v@),
{
    let mut out: Vec<char> = Vec::new();
    let mut i: usize = 0;
    while i < v.len()
        invariant
            i <= v@.len(),
            out@ == ascii_uppercase(v@.take(i as int)),
        decreases v.len() - i,
    {
        out.push(to_ascii_upper(v[i]));
        i += 1;
        assert(out@ =~= ascii_uppercase(v@.take(i as int)));
    }
    assert(v@.take(v@.len() as int) =~= v@);
    out
}

/// The currency pair the converter shows: the configured codes, trimmed, upper-cased, with
/// empty codes dropped and consecutive repeats merged; the first two of them, or USD and EUR
/// when fewer than two remain.
pub fn currency_units(cfg: &CurrencyConfig) -> (r: (String, String))
    ensures
        (r.0@, r.1@) == chosen_pair(views(cfg.units@)),
{
    let units = &cfg.units;
    let ghost all = views(units@);
    let mut kept: Vec<String> = Vec::new();
    let mut i: usize = 0;
    while i < units.len()
        invariant
            i <= units@.len(),
            all == views(units@),
            views(kept@) == dedup(normalized_units(all.take(i as int))),
        decreases units.len() - i,
    {
        let cs = chars_of(units[i].as_str());
        let t = trimmed(cs.as_slice());
        let up = upper_chars(t.as_slice());
        let ghost prefix = all.take(i as int);
        assert(all.take(i + 1).drop_last() =~= prefix);
        assert(all.take(i + 1).last() == units@[i as int]@);
        if up.len() > 0 {
            let code = string_of(up.as_slice());
            let n = kept.len();
            let repeat = n > 0 && kept[n - 1] == code;
            if !repeat {
                kept.push(code);
            }
            proof {
                let norm = normalized_units(all.take(i + 1));
                assert(norm =~= normalized_units(prefix).push(code@));
                assert(norm.drop_last() =~= normalized_units(prefix));
                assert(views(kept@) =~= dedup(norm));
            }
        }
        i += 1;
    }
    assert(all.take(units@.len() as int) =~= all);
    if kept.len() >= 2 {
        let a = kept[0].clone();
        let b = kept[1].clone();
        assert(views(kept@)[0] == kept@[0]@);
        assert(views(kept@)[1] == kept@[1]@);
        (a, b)
    } else {
        (String::from_str("USD"), String::from_str("EUR"))
    }
}

} // verus!
