use vstd::prelude::*;

verus! {

/// Description of an Open-Meteo WMO weather code, as shown beside its emoji.
pub open spec fn weather_description(code: u32) -> Seq<char> {
    if code == 0 {
        "Clear"@
    } else if code == 1 {
        "Mainly clear"@
    } else if code == 2 {
        "Partly cloudy"@
    } else if code == 3 {
        "Overcast"@
    } else if code == 45 || code == 48 {
        "Fog"@
    } else if code == 51 || code == 53 || code == 55 {
        "Drizzle"@
    } else if code == 56 || code == 57 {
        "Freezing drizzle"@
    } else if code == 61 || code == 63 || code == 65 {
        "Rain"@
    } else if code == 66 || code == 67 {
        "Freezing rain"@
    } else if code == 71 || code == 73 || code == 75 {
        "Snow"@
    } else if code == 77 {
        "Snow grains"@
    } else if 80 <= code <= 82 {
        "Showers"@
    } else if code == 85 || code == 86 {
        "Snow showers"@
    } else if code == 95 {
        "Thunderstorm"@
    } else if code == 96 || code == 99 {
        "Thunderstorm/hail"@
    } else {
        "Unknown"@
    }
}

/// Emoji of an Open-Meteo WMO weather code.
pub open spec fn weather_emoji(code: u32) -> Seq<char> {
    if code == 0 {
        "☀️"@
    } else if code == 1 {
        "🌤️"@
    } else if code == 2 {
        "⛅"@
    } else if code == 3 {
        "☁️"@
    } else if code == 45 || code == 48 {
        "🌫️"@
    } else if code == 51 || code == 53 || code == 55 {
        "🌦️"@
    } else if code == 56 || code == 57 {
        "🌧️"@
    } else if code == 61 || code == 63 || code == 65 {
        "🌧️"@
    } else if code == 66 || code == 67 {
        "🌨️"@
    } else if code == 71 || code == 73 || code == 75 {
        "❄️"@
    } else if code == 77 {
        "🌨️"@
    } else if 80 <= code <= 82 {
        "🌦️"@
    } else if code == 85 || code == 86 {
        "🌨️"@
    } else if code == 95 {
        "⛈️"@
    } else if code == 96 || code == 99 {
        "⛈️"@
    } else {
        "🌡️"@
    }
}

/// Maps a WMO weather code to its emoji and a short description.
pub fn weather_code_to_emoji_desc(code: u32) -> (r: (&'static str, &'static str))
    ensures
        r.0@ == weather_emoji(code),
        r.1@ == weather_description(code),
{
    match code {
        0 => ("☀️", "Clear"),
        1 => ("🌤️", "Mainly clear"),
        2 => ("⛅", "Partly cloudy"),
        3 => ("☁️", "Overcast"),
        45 | 48 => ("🌫️", "Fog"),
        51 | 53 | 55 => ("🌦️", "Drizzle"),
        56 | 57 => ("🌧️", "Freezing drizzle"),
        61 | 63 | 65 => ("🌧️", "Rain"),
        66 | 67 => ("🌨️", "Freezing rain"),
        71 | 73 | 75 => ("❄️", "Snow"),
        77 => ("🌨️", "Snow grains"),
        80..=82 => ("🌦️", "Showers"),
        85 | 86 => ("🌨️", "Snow showers"),
        95 => ("⛈️", "Thunderstorm"),
        96 | 99 => ("⛈️", "Thunderstorm/hail"),
        _ => ("🌡️", "Unknown"),
    }
}

/// The Open-Meteo WMO table: each code group has its description and emoji, and every code
/// outside the table is shown as unknown with a thermometer.
pub proof fn lemma_wmo_table(code: u32)
    ensures
        code == 0 ==> weather_description(code) == "Clear"@ && weather_emoji(code) == "☀️"@,
        code == 1 ==> weather_description(code) == "Mainly clear"@ && weather_emoji(code) == "🌤️"@,
        code == 2 ==> weather_description(code) == "Partly cloudy"@ && weather_emoji(code) == "⛅"@,
        code == 3 ==> weather_description(code) == "Overcast"@ && weather_emoji(code) == "☁️"@,
        code == 45 || code == 48 ==> weather_description(code) == "Fog"@ && weather_emoji(code)
            == "🌫️"@,
        code == 51 || code == 53 || code == 55 ==> weather_description(code) == "Drizzle"@
            && weather_emoji(code) == "🌦️"@,
        code == 56 || code == 57 ==> weather_description(code) == "Freezing drizzle"@
            && weather_emoji(code) == "🌧️"@,
        code == 61 || code == 63 || code == 65 ==> weather_description(code) == "Rain"@
            && weather_emoji(code) == "🌧️"@,
        code == 66 || code == 67 ==> weather_description(code) == "Freezing rain"@
            && weather_emoji(code) == "🌨️"@,
        code == 71 || code == 73 || code == 75 ==> weather_description(code) == "Snow"@
            && weather_emoji(code) == "❄️"@,
        code == 77 ==> weather_description(code) == "Snow grains"@ && weather_emoji(code) == "🌨️"@,
        code == 80 || code == 81 || code == 82 ==> weather_description(code) == "Showers"@
            && weather_emoji(code) == "🌦️"@,
        code == 85 || code == 86 ==> weather_description(code) == "Snow showers"@
            && weather_emoji(code) == "🌨️"@,
        code == 95 ==> weather_description(code) == "Thunderstorm"@ && weather_emoji(code)
            == "⛈️"@,
        code == 96 || code == 99 ==> weather_description(code) == "Thunderstorm/hail"@
            && weather_emoji(code) == "⛈️"@,
        !(code <= 3 || code == 45 || code == 48 || code == 51 || code == 53 || code == 55
            || code == 56 || code == 57 || code == 61 || code == 63 || code == 65 || code == 66
            || code == 67 || code == 71 || code == 73 || code == 75 || code == 77 || (80 <= code
            <= 82) || code == 85 || code == 86 || code == 95 || code == 96 || code == 99)
            ==> weather_description(code) == "Unknown"@ && weather_emoji(code) == "🌡️"@,
{
}

} // verus!
