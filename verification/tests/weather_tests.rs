use tc_tui::weather::weather_code_to_emoji_desc;

#[test]
fn code_clear_sky() {
    let (emoji, desc) = weather_code_to_emoji_desc(0);
    assert_eq!(desc, "Clear");
    assert!(!emoji.is_empty());
}

#[test]
fn code_overcast() {
    let (_, desc) = weather_code_to_emoji_desc(3);
    assert_eq!(desc, "Overcast");
}

#[test]
fn code_rain() {
    let (_, desc) = weather_code_to_emoji_desc(61);
    assert_eq!(desc, "Rain");
    let (_, desc) = weather_code_to_emoji_desc(63);
    assert_eq!(desc, "Rain");
    let (_, desc) = weather_code_to_emoji_desc(65);
    assert_eq!(desc, "Rain");
}

#[test]
fn code_snow() {
    let (_, desc) = weather_code_to_emoji_desc(71);
    assert_eq!(desc, "Snow");
    let (_, desc) = weather_code_to_emoji_desc(75);
    assert_eq!(desc, "Snow");
}

#[test]
fn code_thunderstorm() {
    let (_, desc) = weather_code_to_emoji_desc(95);
    assert_eq!(desc, "Thunderstorm");
}

#[test]
fn code_showers_range() {
    for code in 80..=82 {
        let (_, desc) = weather_code_to_emoji_desc(code);
        assert_eq!(desc, "Showers", "code {code} should be Showers");
    }
}

#[test]
fn code_unknown_falls_back() {
    let (_, desc) = weather_code_to_emoji_desc(200);
    assert_eq!(desc, "Unknown");
}

#[test]
fn code_table_other_entries() {
    assert_eq!(weather_code_to_emoji_desc(1), ("🌤️", "Mainly clear"));
    assert_eq!(weather_code_to_emoji_desc(2), ("⛅", "Partly cloudy"));
    assert_eq!(weather_code_to_emoji_desc(48), ("🌫️", "Fog"));
    assert_eq!(weather_code_to_emoji_desc(53), ("🌦️", "Drizzle"));
    assert_eq!(weather_code_to_emoji_desc(57), ("🌧️", "Freezing drizzle"));
    assert_eq!(weather_code_to_emoji_desc(66), ("🌨️", "Freezing rain"));
    assert_eq!(weather_code_to_emoji_desc(77), ("🌨️", "Snow grains"));
    assert_eq!(weather_code_to_emoji_desc(86), ("🌨️", "Snow showers"));
    assert_eq!(weather_code_to_emoji_desc(99), ("⛈️", "Thunderstorm/hail"));
    assert_eq!(weather_code_to_emoji_desc(62), ("🌡️", "Unknown"));
}
