use chrono::{Datelike, NaiveDate};
use std::collections::HashMap;
use tc_tui::github::{
    apply_dated_line,
    emoji_row, extract_attr, github_day_capacity, parse_contribution_html,
    parse_contribution_html_at, parse_tooltip_count, strip_tags, GitHubActivity,
};

fn day(y: i32, m: u32, d: u32) -> i32 {
    NaiveDate::from_ymd_opt(y, m, d).unwrap().num_days_from_ce()
}

#[test]
fn emoji_zero_is_red_x() {
    assert_eq!(GitHubActivity::emoji_for_count(0), "❌");
}

#[test]
fn emoji_1_to_3_is_checkmark() {
    for c in 1..=3 {
        assert_eq!(GitHubActivity::emoji_for_count(c), "✅");
    }
}

#[test]
fn emoji_4_to_6_is_star() {
    for c in 4..=6 {
        assert_eq!(GitHubActivity::emoji_for_count(c), "🌟");
    }
}

#[test]
fn emoji_above_6_is_rocket() {
    for c in [7, 10, 50, 100] {
        assert_eq!(GitHubActivity::emoji_for_count(c), "🚀");
    }
}

#[test]
fn extract_attr_finds_value() {
    let line = r#"<td tabindex="0" data-ix="0" data-date="2025-04-13" id="contribution-day-component-0-0" data-level="3" class="ContributionCalendar-day"></td>"#;
    assert_eq!(extract_attr(line, "data-date"), Some("2025-04-13".to_string()));
    assert_eq!(extract_attr(line, "data-level"), Some("3".to_string()));
}

#[test]
fn extract_attr_missing_returns_none() {
    let line = r#"<td class="day">"#;
    assert_eq!(extract_attr(line, "data-date"), None);
}

#[test]
fn extract_attr_unclosed_value_and_first_occurrence() {
    assert_eq!(extract_attr(r#"<td data-date="2025"#, "data-date"), None);
    assert_eq!(extract_attr(r#"a="1" a="2""#, "a"), Some("1".to_string()));
    assert_eq!(extract_attr(r#"x-a="é" a="2""#, "a"), Some("é".to_string()));
    assert_eq!(extract_attr(r#"a="""#, "a"), Some(String::new()));
}

#[test]
fn parse_tooltip_count_numeric() {
    let line = r#"<tool-tip class="sr-only">28 contributions on April 13th.</tool-tip>"#;
    assert_eq!(parse_tooltip_count(line), 28);
}

#[test]
fn parse_tooltip_count_singular() {
    let line = r#"<tool-tip class="sr-only">1 contribution on April 20th.</tool-tip>"#;
    assert_eq!(parse_tooltip_count(line), 1);
}

#[test]
fn parse_tooltip_count_none() {
    let line = r#"<tool-tip class="sr-only">No contributions on May 4th.</tool-tip>"#;
    assert_eq!(parse_tooltip_count(line), 0);
}

#[test]
fn parse_tooltip_count_edge_cases() {
    assert_eq!(parse_tooltip_count("<t>  +12 things</t>"), 12);
    assert_eq!(parse_tooltip_count("<t>4294967295 things</t>"), 4294967295);
    assert_eq!(parse_tooltip_count("<t>4294967296 things</t>"), 0);
    assert_eq!(parse_tooltip_count("<t>-3 things</t>"), 0);
    assert_eq!(parse_tooltip_count("<t>12x things</t>"), 0);
    assert_eq!(parse_tooltip_count("<t></t>"), 0);
    assert_eq!(parse_tooltip_count("<t>+</t>"), 0);
    assert_eq!(parse_tooltip_count("<t>007</t>"), 7);
}

#[test]
fn parse_contribution_html_real_format() {
    let html = r#"
<td tabindex="0" data-ix="0" data-date="2025-04-13" id="contribution-day-component-0-0" data-level="3" class="ContributionCalendar-day"></td>
  <tool-tip id="tooltip-1" for="contribution-day-component-0-0" class="sr-only">28 contributions on April 13th.</tool-tip>
<td tabindex="0" data-ix="1" data-date="2025-04-14" id="contribution-day-component-0-1" data-level="0" class="ContributionCalendar-day"></td>
  <tool-tip id="tooltip-2" for="contribution-day-component-0-1" class="sr-only">No contributions on April 14th.</tool-tip>
<td tabindex="0" data-ix="2" data-date="2025-04-15" id="contribution-day-component-0-2" data-level="1" class="ContributionCalendar-day"></td>
  <tool-tip id="tooltip-3" for="contribution-day-component-0-2" class="sr-only">3 contributions on April 15th.</tool-tip>
        "#;
    let result = parse_contribution_html_at(html, day(2025, 4, 20));
    assert!(result.is_ok());
    let days = result.unwrap();
    let map: HashMap<i32, u32> = days.into_iter().collect();
    assert_eq!(map[&day(2025, 4, 13)], 28);
    assert_eq!(map[&day(2025, 4, 14)], 0);
    assert_eq!(map[&day(2025, 4, 15)], 3);
}

#[test]
fn parse_contribution_html_empty() {
    let html = "<html><body>nothing here</body></html>";
    let result = parse_contribution_html(html);
    assert!(result.is_err());
}

#[test]
fn contribution_days_are_newest_first_within_a_year() {
    let html = "<td data-date=\"2025-04-13\"></td>\n<tool-tip>28 contributions</tool-tip>\n\
<td data-date=\"2025-04-15\"></td>\n<tool-tip>3 contributions</tool-tip>\n\
<td data-date=\"2024-01-01\"></td>\n<tool-tip>9 contributions</tool-tip>\n";
    let days = parse_contribution_html_at(html, day(2025, 4, 20)).unwrap();
    assert_eq!(days, vec![(day(2025, 4, 15), 3), (day(2025, 4, 13), 28)]);
}

#[test]
fn contribution_tooltip_without_date_and_repeated_days() {
    // A tooltip with no pending date is ignored; a later count for a day replaces the earlier.
    let html = "<tool-tip>5 contributions</tool-tip>\n\
<td data-date=\"2025-04-13\"></td>\n<tool-tip>1 contribution</tool-tip>\n\
<tool-tip>6 contributions</tool-tip>\n\
<td data-date=\"2025-04-13\"></td>\r\n<tool-tip>2 contributions</tool-tip>";
    let days = parse_contribution_html_at(html, day(2025, 4, 13)).unwrap();
    assert_eq!(days, vec![(day(2025, 4, 13), 2)]);
}

#[test]
fn contribution_data_outside_the_window_is_not_an_error() {
    let html = "<td data-date=\"2020-01-01\"></td>\n<tool-tip>4 contributions</tool-tip>";
    assert_eq!(parse_contribution_html_at(html, day(2025, 4, 20)), Ok(vec![]));
    assert_eq!(
        parse_contribution_html_at("no data", day(2025, 4, 20)),
        Err("No contribution data found".to_string())
    );
}

#[test]
fn strip_tags_removes_html() {
    assert_eq!(strip_tags("<b>hello</b> world"), "hello world");
    assert_eq!(strip_tags("no tags"), "no tags");
}

#[test]
fn strip_tags_unbalanced_brackets() {
    assert_eq!(strip_tags("a > b"), "a  b");
    assert_eq!(strip_tags("a <b"), "a ");
    assert_eq!(strip_tags(""), "");
}

#[test]
fn pending_has_empty_days() {
    let a = GitHubActivity::pending();
    assert!(a.days.is_empty());
    assert_eq!(a.status, "...");
}

#[test]
fn record_fetch_replaces_days_or_keeps_them() {
    let mut a = GitHubActivity::pending();
    let user = "octocat".to_string();
    a.record_fetch(Ok(vec![(1, 2)]), &user);
    assert_eq!(a.days, vec![(1, 2)]);
    assert_eq!(a.status, "octocat");
    a.record_fetch(Err("HTTP error: down".to_string()), &user);
    assert_eq!(a.days, vec![(1, 2)]);
    assert_eq!(a.status, "HTTP error: down");
}

#[test]
fn emoji_row_takes_first_days_joined_by_spaces() {
    let days = vec![(3, 0), (2, 2), (1, 5), (0, 9)];
    assert_eq!(emoji_row(&days, 3), "❌ ✅ 🌟");
    assert_eq!(emoji_row(&days, 10), "❌ ✅ 🌟 🚀");
    assert_eq!(emoji_row(&days, 0), "");
    assert_eq!(emoji_row(&Vec::new(), 5), "");
}

#[test]
fn github_day_capacity_counts_three_columns_per_day() {
    assert_eq!(github_day_capacity(0), 0);
    assert_eq!(github_day_capacity(2), 1);
    assert_eq!(github_day_capacity(59), 20);
    assert_eq!(github_day_capacity(65535), 21845);
}

#[test]
fn apply_dated_line_sets_and_consumes_pending_date() {
    let mut counts: HashMap<i32, u32> = HashMap::new();
    let mut last: Option<i32> = None;
    let cell: Vec<char> = "<td data-date=\"x\"></td>".chars().collect();
    apply_dated_line(&mut counts, &mut last, &cell, Some(42));
    assert_eq!(last, Some(42));
    assert!(counts.is_empty());
    let tip: Vec<char> = "<tool-tip>7 contributions</tool-tip>".chars().collect();
    apply_dated_line(&mut counts, &mut last, &tip, None);
    assert_eq!(last, None);
    assert_eq!(counts.get(&42), Some(&7));
    apply_dated_line(&mut counts, &mut last, &tip, None);
    assert_eq!(counts.len(), 1);
    let both: Vec<char> = "<tool-tip>No contributions</tool-tip>".chars().collect();
    apply_dated_line(&mut counts, &mut last, &both, Some(43));
    assert_eq!(counts.get(&43), Some(&0));
    assert_eq!(last, None);
}

#[test]
fn parse_contribution_html_counts_back_from_today() {
    let today = chrono::Utc::now().date_naive();
    let yesterday = today.pred_opt().unwrap();
    let html = format!(
        "<td data-date=\"{}\"></td>\n<tool-tip>4 contributions</tool-tip>\n\
         <td data-date=\"{}\"></td>\n<tool-tip>No contributions</tool-tip>\n",
        yesterday.format("%Y-%m-%d"),
        today.format("%Y-%m-%d")
    );
    let days = parse_contribution_html(&html).unwrap();
    assert_eq!(days, vec![(today.num_days_from_ce(), 0), (yesterday.num_days_from_ce(), 4)]);
}

#[test]
fn unparsable_dates_keep_the_pending_date() {
    let html = "<td data-date=\"2025-04-13\"></td>\n<td data-date=\"not a date\"></td>\n\
<tool-tip>2 contributions</tool-tip>";
    let days = parse_contribution_html_at(html, day(2025, 4, 13)).unwrap();
    assert_eq!(days, vec![(day(2025, 4, 13), 2)]);
}

#[test]
fn clock_within_a_year_of_the_earliest_date_is_an_error() {
    let html = "<td data-date=\"2025-04-13\"></td>\n<tool-tip>2 contributions</tool-tip>";
    let earliest = tc_tui::datetime::MIN_DAY;
    assert_eq!(
        parse_contribution_html_at(html, earliest),
        Err("Today is outside the supported date range".to_string())
    );
    assert_eq!(
        parse_contribution_html_at("nothing", earliest),
        Err("No contribution data found".to_string())
    );
    assert_eq!(parse_contribution_html_at(html, earliest + 365), Ok(vec![]));
}

#[test]
fn strip_tags_twice_is_strip_once() {
    for s in ["<b>x</b> y", "a > b < c", "plain", "<<>>", ""] {
        let once = strip_tags(s);
        assert!(!once.contains('<') && !once.contains('>'));
        assert_eq!(strip_tags(&once), once);
    }
}
