use tc_tui::net::{
    ip_city_label, refresh_statuses, reset_statuses, status_text, status_tone, vpn_active,
    is_vpn_interface, FetchOutcome, IpLocation, StatusTone,
};

fn make_statuses(entries: &[(&str, &str)]) -> Vec<(String, String)> {
    entries.iter().map(|(c, u)| (c.to_string(), u.to_string())).collect()
}

#[test]
fn net_reset_statuses_sets_all_codes_to_pending() {
    let mut statuses = make_statuses(&[
        ("200", "https://example.com"),
        ("404", "https://missing.example.com"),
        ("ERR", "https://broken.example.com"),
    ]);
    reset_statuses(&mut statuses);
    for (code, _) in statuses.iter() {
        assert_eq!(code, "...", "Expected '...' but got '{code}'");
    }
}

#[test]
fn net_reset_statuses_preserves_urls() {
    let urls = vec!["https://example.com", "https://other.example.com"];
    let mut statuses = make_statuses(&[("200", urls[0]), ("500", urls[1])]);
    reset_statuses(&mut statuses);
    let stored_urls: Vec<&str> = statuses.iter().map(|(_, u)| u.as_str()).collect();
    assert_eq!(stored_urls, urls);
}

#[test]
fn net_reset_statuses_on_empty_list_is_noop() {
    let mut statuses = make_statuses(&[]);
    reset_statuses(&mut statuses);
    assert!(statuses.is_empty());
}

#[test]
fn net_reset_statuses_idempotent() {
    let mut statuses = make_statuses(&[("200", "https://example.com")]);
    reset_statuses(&mut statuses);
    reset_statuses(&mut statuses);
    assert_eq!(statuses[0].0, "...");
}

#[test]
fn main_reset_statuses_sets_all_codes_to_pending() {
    let mut statuses = make_statuses(&[
        ("200", "https://example.com"),
        ("404", "https://missing.example.com"),
        ("ERR", "https://broken.example.com"),
    ]);
    reset_statuses(&mut statuses);
    for (code, _) in statuses.iter() {
        assert_eq!(code, "...", "Expected '...' but got '{code}'");
    }
}

#[test]
fn main_reset_statuses_preserves_urls() {
    let urls = vec!["https://example.com", "https://other.example.com"];
    let mut statuses = make_statuses(&[("200", urls[0]), ("500", urls[1])]);
    reset_statuses(&mut statuses);
    let stored_urls: Vec<&str> = statuses.iter().map(|(_, u)| u.as_str()).collect();
    assert_eq!(stored_urls, urls);
}

#[test]
fn main_reset_statuses_on_empty_list_is_noop() {
    let mut statuses = make_statuses(&[]);
    reset_statuses(&mut statuses);
    assert!(statuses.is_empty());
}

#[test]
fn main_reset_statuses_idempotent() {
    let mut statuses = make_statuses(&[("200", "https://example.com")]);
    reset_statuses(&mut statuses);
    reset_statuses(&mut statuses);
    assert_eq!(statuses[0].0, "...");
}

#[test]
fn refresh_statuses_pairs_each_url_with_its_code() {
    let mut statuses = make_statuses(&[
        ("...", "https://a.example"),
        ("200", "https://b.example"),
    ]);
    refresh_statuses(&mut statuses, |url: &String| {
        if url.contains("a.") { "503".to_string() } else { "ERR".to_string() }
    });
    assert_eq!(
        statuses,
        make_statuses(&[("503", "https://a.example"), ("ERR", "https://b.example")])
    );
}

#[test]
fn status_text_formats_codes_and_failures() {
    assert_eq!(status_text(FetchOutcome::Responded(200)), "200");
    assert_eq!(status_text(FetchOutcome::Responded(404)), "404");
    assert_eq!(status_text(FetchOutcome::Responded(7)), "7");
    assert_eq!(status_text(FetchOutcome::Responded(65535)), "65535");
    assert_eq!(status_text(FetchOutcome::Failed), "ERR");
}

#[test]
fn status_tone_classifies_codes() {
    assert_eq!(status_tone("200"), StatusTone::Success);
    assert_eq!(status_tone("201"), StatusTone::Failure);
    assert_eq!(status_tone("301"), StatusTone::Redirect);
    assert_eq!(status_tone("404"), StatusTone::Failure);
    assert_eq!(status_tone("503"), StatusTone::Failure);
    assert_eq!(status_tone("..."), StatusTone::Pending);
    assert_eq!(status_tone("ERR"), StatusTone::Failure);
    assert_eq!(status_tone(""), StatusTone::Failure);
}

#[test]
fn vpn_interfaces_are_recognised() {
    assert!(is_vpn_interface("tun0"));
    assert!(is_vpn_interface("tap1"));
    assert!(is_vpn_interface("utun3"));
    assert!(is_vpn_interface("wg0"));
    assert!(is_vpn_interface("ppp0"));
    assert!(!is_vpn_interface("eth0"));
    assert!(!is_vpn_interface("lo"));
    assert!(!is_vpn_interface("xtun0"));
    let names = vec!["lo".to_string(), "eth0".to_string()];
    assert!(!vpn_active(&names));
    let names = vec!["lo".to_string(), "wg0".to_string()];
    assert!(vpn_active(&names));
    assert!(!vpn_active(&Vec::new()));
}

#[test]
fn ip_city_label_cases() {
    let both = IpLocation { city: Some("Granada".to_string()), region: Some("Andalusia".to_string()) };
    assert_eq!(ip_city_label(Some(both)), "Granada, Andalusia");
    let city = IpLocation { city: Some("Granada".to_string()), region: None };
    assert_eq!(ip_city_label(Some(city)), "Granada");
    let region = IpLocation { city: None, region: Some("Andalusia".to_string()) };
    assert_eq!(ip_city_label(Some(region)), "Unknown");
    assert_eq!(ip_city_label(None), "Unknown");
}


#[test]
fn pending_statuses_lists_every_site_as_pending() {
    let sites = vec!["https://a.example".to_string(), "https://b.example".to_string()];
    assert_eq!(
        tc_tui::net::pending_statuses(&sites),
        make_statuses(&[("...", "https://a.example"), ("...", "https://b.example")])
    );
    assert!(tc_tui::net::pending_statuses(&Vec::new()).is_empty());
}
