//! URL status list, status codes, VPN detection and the IP-location label.

use vstd::prelude::*;
use crate::text::{chars_of, decimal, push_decimal, starts_with, starts_with_chars, str_eq, string_of};

verus! {

/// The placeholder code of a URL whose check is pending.
pub open spec fn pending_code() -> Seq<char> {
    "..."@
}

/// The status list before the first check: every site, in order, with the pending code.
pub fn pending_statuses(sites: &Vec<String>) -> (r: Vec<(String, String)>)
    ensures
        r@.len() == sites@.len(),
        forall|i: int|
            0 <= i < sites@.len() ==> (#[trigger] r@[i]).0@ == pending_code() && r@[i].1 == sites@[i],
{
    let mut r: Vec<(String, String)> = Vec::new();
    let mut i: usize = 0;
    while i < sites.len()
        invariant
            i <= sites@.len(),
            r@.len() == i,
            forall|j: int|
                0 <= j < i ==> (#[trigger] r@[j]).0@ == pending_code() && r@[j].1 == sites@[j],
        decreases sites.len() - i,
    {
        r.push((String::from_str("..."), sites[i].clone()));
        i += 1;
    }
    r
}

/// `after` is `before` with every code set to pending and every URL kept, in order.
pub open spec fn is_reset_of(after: Seq<(String, String)>, before: Seq<(String, String)>) -> bool {
    &&& after.len() == before.len()
    &&& forall|i: int|
        0 <= i < before.len() ==> {
            &&& (#[trigger] after[i]).0@ == pending_code()
            &&& after[i].1 == before[i].1
        }
}

/// Resetting twice shows the same list as resetting once: the same URLs, all pending.
pub proof fn lemma_reset_idempotent(
    s0: Seq<(String, String)>,
    s1: Seq<(String, String)>,
    s2: Seq<(String, String)>,
)
    requires
        is_reset_of(s1, s0),
        is_reset_of(s2, s1),
    ensures
        s2.len() == s1.len(),
        forall|i: int| 0 <= i < s1.len() ==> (#[trigger] s2[i]).0@ == s1[i].0@ && s2[i].1 == s1[i].1,
        is_reset_of(s2, s0),
{
}

/// Marks every URL's status as pending (`"..."`), keeping the URLs and their order.
pub fn reset_statuses(statuses: &mut Vec<(String, String)>)
    ensures
        is_reset_of(final(statuses)@, old(statuses)@),
{
    let n = statuses.len();
    let mut i: usize = 0;
    while i < n
        invariant
            n == old(statuses)@.len(),
            statuses@.len() == n,
            i <= n,
            forall|j: int|
                0 <= j < i ==> {
                    &&& (#[trigger] statuses@[j]).0@ == pending_code()
                    &&& statuses@[j].1 == old(statuses)@[j].1
                },
            forall|j: int| i <= j < n ==> #[trigger] statuses@[j] == old(statuses)@[j],
        decreases n - i,
    {
        let url = statuses[i].1.clone();
        statuses.set(i, (String::from_str("..."), url));
        i += 1;
    }
}

/// Checks every URL again: each entry gets the code that `fetch` returns for its URL, in the
/// same order, with the URL kept.
pub fn refresh_statuses<F: Fn(&String) -> String>(statuses: &mut Vec<(String, String)>, fetch: F)
    requires
        forall|url: &String| #[trigger] call_requires(fetch, (url,)),
    ensures
        final(statuses)@.len() == old(statuses)@.len(),
        forall|i: int|
            0 <= i < old(statuses)@.len() ==> {
                &&& (#[trigger] final(statuses)@[i]).1 == old(statuses)@[i].1
                &&& call_ensures(fetch, (&old(statuses)@[i].1,), final(statuses)@[i].0)
            },
{
    let n = statuses.len();
    let mut results: Vec<(String, String)> = Vec::new();
    let mut i: usize = 0;
    while i < n
        invariant
            n == statuses@.len(),
            *statuses == *old(statuses),
            forall|url: &String| #[trigger] call_requires(fetch, (url,)),
            i <= n,
            results@.len() == i,
            forall|j: int|
                0 <= j < i ==> {
                    &&& (#[trigger] results@[j]).1 == statuses@[j].1
                    &&& call_ensures(fetch, (&statuses@[j].1,), results@[j].0)
                },
        decreases n - i,
    {
        let url = statuses[i].1.clone();
        let code = fetch(&url);
        results.push((code, url));
        i += 1;
    }
    *statuses = results;
}

/// What a status check got back: an HTTP status code, or no response at all.
#[derive(Clone, Copy, Debug, PartialEq, Eq, Structural)]
pub enum FetchOutcome {
    Responded(u16),
    Failed,
}

/// Text shown for a check: the status code in decimal, or `ERR` when no response came.
pub open spec fn status_code_text(outcome: FetchOutcome) -> Seq<char> {
    match outcome {
        FetchOutcome::Responded(code) => decimal(code as nat),
        FetchOutcome::Failed => "ERR"@,
    }
}

/// The status text of a URL check.
pub fn status_text(outcome: FetchOutcome) -> (r: String)
    ensures
        r@ == status_code_text(outcome),
{
    match outcome {
        FetchOutcome::Responded(code) => {
            let mut out: Vec<char> = Vec::new();
            push_decimal(&mut out, code as u64);
            assert(out@ =~= decimal(code as nat));
            string_of(out.as_slice())
        },
        FetchOutcome::Failed => String::from_str("ERR"),
    }
}

/// How a status code is shown.
#[derive(Clone, Copy, Debug, PartialEq, Eq, Structural)]
pub enum StatusTone {
    /// `200`.
    Success,
    /// A `3xx` redirect.
    Redirect,
    /// A `4xx` or `5xx` code, or anything unrecognised such as `ERR`.
    Failure,
    /// The pending placeholder `...`.
    Pending,
}

/// Tone of a status code: `200` succeeds, codes starting with `3` redirect, codes starting
/// with `4` or `5` fail, `...` is pending, and anything else fails.
pub open spec fn tone_of(code: Seq<char>) -> StatusTone {
    if code == "200"@ {
        StatusTone::Success
    } else if starts_with(code, "3"@) {
        StatusTone::Redirect
    } else if starts_with(code, "4"@) || starts_with(code, "5"@) {
        StatusTone::Failure
    } else if code == pending_code() {
        StatusTone::Pending
    } else {
        StatusTone::Failure
    }
}

pub fn status_tone(code: &str) -> (r: StatusTone)
    ensures
        r == tone_of(code@),
{
    let cs = chars_of(code);
    let three = chars_of("3");
    let four = chars_of("4");
    let five = chars_of("5");
    if str_eq(code, "200") {
        StatusTone::Success
    } else if starts_with_chars(cs.as_slice(), three.as_slice()) {
        StatusTone::Redirect
    } else if starts_with_chars(cs.as_slice(), four.as_slice()) || starts_with_chars(
        cs.as_slice(),
        five.as_slice(),
    ) {
        StatusTone::Failure
    } else if str_eq(code, "...") {
        StatusTone::Pending
    } else {
        StatusTone::Failure
    }
}

/// Interface-name prefixes of VPN tunnels.
pub open spec fn is_vpn_name(name: Seq<char>) -> bool {
    ||| starts_with(name, "tun"@)
    ||| starts_with(name, "tap"@)
    ||| starts_with(name, "utun"@)
    ||| starts_with(name, "wg"@)
    ||| starts_with(name, "ppp"@)
}

/// Whether a network interface name is that of a VPN tunnel.
pub fn is_vpn_interface(name: &str) -> (r: bool)
    ensures
        r == is_vpn_name(name@),
{
    let cs = chars_of(name);
    let tun = chars_of("tun");
    let tap = chars_of("tap");
    let utun = chars_of("utun");
    let wg = chars_of("wg");
    let ppp = chars_of("ppp");
    starts_with_chars(cs.as_slice(), tun.as_slice()) || starts_with_chars(cs.as_slice(), tap.as_slice())
        || starts_with_chars(cs.as_slice(), utun.as_slice()) || starts_with_chars(
        cs.as_slice(),
        wg.as_slice(),
    ) || starts_with_chars(cs.as_slice(), ppp.as_slice())
}

/// Whether a VPN is up: some network interface is a VPN tunnel.
pub fn vpn_active(interface_names: &Vec<String>) -> (r: bool)
    ensures
        r == exists|i: int| 0 <= i < interface_names@.len() && is_vpn_name(#[trigger] interface_names@[i]@),
{
    let mut i: usize = 0;
    while i < interface_names.len()
        invariant
            i <= interface_names@.len(),
            forall|j: int| 0 <= j < i ==> !is_vpn_name(#[trigger] interface_names@[j]@),
        decreases interface_names.len() - i,
    {
        if is_vpn_interface(interface_names[i].as_str()) {
            return true;
        }
        i += 1;
    }
    false
}

/// What the IP-geolocation lookup reported: the city and region it knows, if any.
#[derive(Clone, Debug)]
pub struct IpLocation {
    pub city: Option<String>,
    pub region: Option<String>,
}

/// Label of the machine's location: `city, region` when both are known, the city alone
/// without a region, and `Unknown` without a city or when the lookup failed (`None`).
pub open spec fn ip_city_text(lookup: Option<IpLocation>) -> Seq<char> {
    match lookup {
        Some(info) => match (info.city, info.region) {
            (Some(c), Some(r)) => c@ + ", "@ + r@,
            (Some(c), None) => c@,
            _ => "Unknown"@,
        },
        None => "Unknown"@,
    }
}

pub fn ip_city_label(lookup: Option<IpLocation>) -> (r: String)
    ensures
        r@ == ip_city_text(lookup),
{
    match lookup {
        Some(info) => match (info.city, info.region) {
            (Some(c), Some(r)) => {
                let mut out = c;
                out.append(", ");
                out.append(r.as_str());
                out
            },
            (Some(c), None) => c,
            _ => String::from_str("Unknown"),
        },
        None => String::from_str("Unknown"),
    }
}

/// How the status table colours a code, by its first character: `200` succeeds, every code
/// whose first character is `3` redirects, every code starting with `4` or `5` fails, `...`
/// is pending; success, redirect and pending are given to those codes only.
pub proof fn lemma_status_tones(code: Seq<char>)
    ensures
        code == "200"@ ==> tone_of(code) == StatusTone::Success,
        code.len() > 0 && code[0] == '3' ==> tone_of(code) == StatusTone::Redirect,
        code.len() > 0 && (code[0] == '4' || code[0] == '5') ==> tone_of(code)
            == StatusTone::Failure,
        code == "..."@ ==> tone_of(code) == StatusTone::Pending,
        tone_of(code) == StatusTone::Success ==> code == "200"@,
        tone_of(code) == StatusTone::Redirect ==> code.len() > 0 && code[0] == '3',
        tone_of(code) == StatusTone::Pending ==> code == "..."@,
{
    reveal_strlit("200");
    reveal_strlit("3");
    reveal_strlit("4");
    reveal_strlit("5");
    reveal_strlit("...");
    assert(("200"@)[0] == '2');
    assert(("..."@)[0] == '.');
    if code.len() > 0 {
        assert(code.take(1)[0] == code[0]);
        assert(("3"@)[0] == '3' && ("4"@)[0] == '4' && ("5"@)[0] == '5');
        if code[0] == '3' {
            assert(code.take(1) =~= "3"@);
        }
        if code[0] == '4' {
            assert(code.take(1) =~= "4"@);
        }
        if code[0] == '5' {
            assert(code.take(1) =~= "5"@);
        }
    }
}

} // verus!
