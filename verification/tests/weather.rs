use readme_patcher::cache::Cache;
use readme_patcher::error::Error;
use readme_patcher::provider::{
    basic_authorization, build_api_url, check_code, check_status, check_translation_status,
    deepl_authorization, deepl_base_url, plan_batch, stats_url, temp_path, BatchPlan,
};
use readme_patcher::config::WakaTimeRange;
use readme_patcher::weather::{
    accept_report, plan_fetch, FetchPlan, MainWeather, SysInfo, Weather, WeatherConfig,
    WeatherError, WeatherInfo, WeatherResponse,
};

const SUNRISE: i64 = 1738305000; // 2025-01-31 06:30:00 UTC
const SUNSET: i64 = 1738339200; // 2025-01-31 16:00:00 UTC

fn response() -> WeatherResponse {
    WeatherResponse {
        weather: vec![
            Weather { main: "Clear".to_string(), description: "clear sky".to_string() },
            Weather { main: "Rain".to_string(), description: "light rain".to_string() },
        ],
        main: MainWeather { temp: 215, feels_like: -5 },
        sys: SysInfo { sunrise: SUNRISE, sunset: SUNSET, country: "DE".to_string() },
        name: "Berlin".to_string(),
        cod: 200,
        timezone: 3600,
    }
}

fn invalid_response(r: Result<WeatherInfo, Error>) -> String {
    match r {
        Err(Error::InvalidResponse(detail)) => detail,
        other => panic!("{:?}", other),
    }
}

#[test]
fn config_keeps_what_it_is_given() {
    let config = WeatherConfig::new("key".to_string(), "README.md".to_string(), 300).unwrap();
    assert_eq!(config.api_key, "key");
    assert_eq!(config.readme_path, "README.md");
    assert_eq!(config.cache_duration, 300);
}

#[test]
fn config_turns_a_blank_key_away() {
    for key in ["", " ", "\t\n", "\u{00a0}\u{3000}"] {
        let r = WeatherConfig::new(key.to_string(), "README.md".to_string(), 300);
        assert!(matches!(r, Err(WeatherError::InvalidApiKey)));
    }
}

#[test]
fn weather_errors_have_their_messages() {
    assert_eq!(WeatherError::InvalidApiKey.message(), "Invalid API key");
    assert_eq!(WeatherError::RateLimitExceeded.message(), "Rate limit exceeded");
    assert_eq!(WeatherError::ApiError("503".to_string()).message(), "API request failed: 503");
    assert_eq!(
        WeatherError::FileError("denied".to_string()).message(),
        "File operation failed: denied"
    );
    assert_eq!(WeatherError::InvalidCity("x".to_string()).message(), "Invalid city name: x");
    assert_eq!(
        WeatherError::InvalidResponse("y".to_string()).message(),
        "Invalid response from weather API: y"
    );
    assert_eq!(
        WeatherError::MissingCityInSection.message(),
        "Weather section header must include city name (<!--START_SECTION:weather:city-->)"
    );
    assert_eq!(
        WeatherError::WeatherSectionNotFound.message(),
        "Weather section not found in README - skipping weather update"
    );
}

#[test]
fn report_is_read_from_the_first_condition() {
    let info = WeatherInfo::from_response(response(), 42).unwrap();
    assert_eq!(info.temp(), 215);
    assert_eq!(info.feels_like(), -5);
    assert_eq!(info.location(), "Berlin");
    assert_eq!(info.condition_desc(), "clear sky");
    assert_eq!(info.emoji(), "☀️");
    assert_eq!(info.last_update(), 42);
}

#[test]
fn report_is_written_in_two_lines() {
    let info = WeatherInfo::from_response(response(), 42).unwrap();
    assert_eq!(
        info.format_readme(),
        "Currently in **Berlin** (DE), the weather is: **21.5°C** (feels like **-0.5°C**), ***clear sky***<br/>\nOn *January 31, 2025*, the *sun rises* at 🌅**07:30** and *sets* at 🌇**17:00**."
    );
}

#[test]
fn report_is_dated_by_the_day_at_the_place() {
    let mut r = response();
    r.timezone = -9 * 3600;
    r.main = MainWeather { temp: -120, feels_like: 0 };
    let info = WeatherInfo::from_response(r, 42).unwrap();
    assert_eq!(
        info.format_weather_text("today"),
        "Currently in **Berlin** (DE), the weather is: **-12.0°C** (feels like **0.0°C**), ***clear sky***<br/>\nOn *today*, the *sun rises* at 🌅**21:30** and *sets* at 🌇**07:00**."
    );
    assert!(info.format_readme().contains("On *January 30, 2025*"));
}

#[test]
fn temperatures_are_written_with_one_decimal() {
    for (tenths, text) in [(0, "0.0"), (7, "0.7"), (-7, "-0.7"), (100, "10.0"), (-1234, "-123.4")] {
        let mut r = response();
        r.main.temp = tenths;
        let info = WeatherInfo::from_response(r, 0).unwrap();
        assert!(info.format_readme().contains(&format!("is: **{}°C**", text)));
    }
    let mut r = response();
    r.main.temp = i64::MIN;
    r.main.feels_like = i64::MAX;
    let text = WeatherInfo::from_response(r, 0).unwrap().format_readme();
    assert!(text.contains("**-922337203685477580.8°C**"));
    assert!(text.contains("**922337203685477580.7°C**"));
}

#[test]
fn report_with_an_offset_of_a_day_is_turned_away() {
    for offset in [86_400, -86_400, i32::MAX, i32::MIN] {
        let mut r = response();
        r.timezone = offset;
        assert_eq!(invalid_response(WeatherInfo::from_response(r, 0)), "Invalid timezone offset");
    }
    for offset in [86_399, -86_399, 0] {
        let mut r = response();
        r.timezone = offset;
        assert!(WeatherInfo::from_response(r, 0).is_ok());
    }
}

#[test]
fn report_without_a_condition_is_turned_away() {
    let mut r = response();
    r.weather.clear();
    assert_eq!(invalid_response(WeatherInfo::from_response(r, 0)), "No weather data available");
}

#[test]
fn report_with_a_sunrise_out_of_range_is_turned_away() {
    let mut r = response();
    r.sys.sunrise = i64::MAX;
    r.sys.sunset = i64::MAX;
    assert_eq!(invalid_response(WeatherInfo::from_response(r, 0)), "Invalid sunrise timestamp");
}

#[test]
fn report_with_a_sunset_out_of_range_is_turned_away() {
    let mut r = response();
    r.sys.sunset = i64::MIN;
    assert_eq!(invalid_response(WeatherInfo::from_response(r, 0)), "Invalid sunset timestamp");
}

#[test]
fn faults_of_a_report_are_found_in_order() {
    let mut r = response();
    r.timezone = 90_000;
    r.weather.clear();
    r.sys.sunrise = i64::MAX;
    assert_eq!(invalid_response(WeatherInfo::from_response(r, 0)), "Invalid timezone offset");
}

#[test]
fn each_condition_has_its_sign() {
    let signs = [
        ("Thunderstorm", "⛈️"),
        ("Drizzle", "🌦️"),
        ("Rain", "🌧️"),
        ("Snow", "❄️"),
        ("Atmosphere", "🌫️"),
        ("Clear", "☀️"),
        ("Clouds", "☁️"),
        ("Mist", "❓"),
        ("clear", "❓"),
        ("", "❓"),
    ];
    for (condition, sign) in signs {
        assert_eq!(WeatherInfo::get_emoji(condition), sign);
    }
}

#[test]
fn status_of_a_response_is_read() {
    assert!(check_status(200, "200 OK").is_ok());
    assert!(check_status(204, "204 No Content").is_ok());
    assert!(check_status(299, "299").is_ok());
    assert!(matches!(check_status(429, "429 Too Many Requests"), Err(Error::RateLimitExceeded)));
    for (status, text) in [(199, "199"), (300, "300 Multiple Choices"), (404, "404 Not Found"), (500, "500 Internal Server Error")] {
        match check_status(status, text) {
            Err(Error::ApiError(detail)) => assert_eq!(detail, format!("API request failed: {}", text)),
            other => panic!("{:?}", other),
        }
    }
}

#[test]
fn code_of_a_body_is_read() {
    assert!(check_code(200).is_ok());
    match check_code(404) {
        Err(Error::InvalidResponse(detail)) => assert_eq!(detail, "Invalid response code: 404"),
        other => panic!("{:?}", other),
    }
    match check_code(0) {
        Err(Error::InvalidResponse(detail)) => assert_eq!(detail, "Invalid response code: 0"),
        other => panic!("{:?}", other),
    }
    match check_code(u16::MAX) {
        Err(Error::InvalidResponse(detail)) => assert_eq!(detail, "Invalid response code: 65535"),
        other => panic!("{:?}", other),
    }
}

#[test]
fn address_of_the_weather_service_is_built() {
    assert_eq!(
        build_api_url("Berlin", "k3y").unwrap(),
        "https://api.openweathermap.org/data/2.5/weather?q=Berlin&appid=k3y&units=metric"
    );
    assert_eq!(
        build_api_url("New York", "a&b").unwrap(),
        "https://api.openweathermap.org/data/2.5/weather?q=New+York&appid=a%26b&units=metric"
    );
}

#[test]
fn blank_city_has_no_address() {
    for city in ["", "  ", "\t"] {
        match build_api_url(city, "k") {
            Err(Error::InvalidCity(detail)) => assert_eq!(detail, "City name cannot be empty"),
            other => panic!("{:?}", other),
        }
    }
}

#[test]
fn address_of_the_statistics_service_is_built() {
    assert_eq!(
        stats_url("https://wakatime.com/api", &WakaTimeRange::Last7Days),
        "https://wakatime.com/api/v1/users/current/stats/last_7_days"
    );
}

#[test]
fn key_is_sent_in_base64() {
    assert_eq!(basic_authorization("user:pass").unwrap(), "Basic dXNlcjpwYXNz");
    assert_eq!(basic_authorization("").unwrap(), "Basic ");
    assert_eq!(basic_authorization("a").unwrap(), "Basic YQ==");
    assert_eq!(basic_authorization("waka_ключ").unwrap(), "Basic d2FrYV/QutC70Y7Rhw==");
}

#[test]
fn temporary_file_stands_beside_the_document() {
    assert_eq!(temp_path("README.md"), "README.md.tmp");
    assert_eq!(temp_path("docs/índice"), "docs/índice.tmp");
}

#[test]
fn translation_service_is_chosen_by_plan() {
    assert_eq!(deepl_base_url(true), "https://api.deepl.com/v2");
    assert_eq!(deepl_base_url(false), "https://api-free.deepl.com/v2");
    assert_eq!(deepl_authorization("abc"), "DeepL-Auth-Key abc");
}

#[test]
fn translation_batch_is_planned() {
    assert!(matches!(plan_batch("", 3), Err(Error::InvalidApiKey)));
    assert!(matches!(plan_batch("", 0), Err(Error::InvalidApiKey)));
    assert_eq!(plan_batch("k", 0).unwrap(), BatchPlan::Nothing);
    assert_eq!(plan_batch("k", 2).unwrap(), BatchPlan::Request);
}

#[test]
fn translation_status_is_read() {
    assert!(check_translation_status(200, "{}").is_ok());
    assert!(matches!(check_translation_status(429, "slow down"), Err(Error::RateLimitExceeded)));
    match check_translation_status(403, "forbidden") {
        Err(Error::ApiError(detail)) => assert_eq!(detail, "forbidden"),
        other => panic!("{:?}", other),
    }
    match check_translation_status(201, "created") {
        Err(Error::ApiError(detail)) => assert_eq!(detail, "created"),
        other => panic!("{:?}", other),
    }
}

#[test]
fn fresh_report_is_served_from_the_cache() {
    let config = WeatherConfig::new("k".to_string(), "README.md".to_string(), 300).unwrap();
    let mut cache: Cache<WeatherInfo> = Cache::new();
    match plan_fetch(&cache, &config, "Berlin", 1_000).unwrap() {
        FetchPlan::Request(address) => assert!(address.contains("q=Berlin")),
        other => panic!("{:?}", other),
    }
    let report = accept_report(&mut cache, "Berlin", response(), 1_000).unwrap();
    assert_eq!(report.location(), "Berlin");
    match plan_fetch(&cache, &config, "Berlin", 1_299).unwrap() {
        FetchPlan::Cached(cached) => {
            assert_eq!(cached.location(), "Berlin");
            assert_eq!(cached.last_update(), 1_000);
        },
        other => panic!("{:?}", other),
    }
    assert!(matches!(plan_fetch(&cache, &config, "Berlin", 1_300).unwrap(), FetchPlan::Request(_)));
    assert!(matches!(plan_fetch(&cache, &config, "Paris", 1_001).unwrap(), FetchPlan::Request(_)));
}

#[test]
fn fresh_report_is_served_even_for_a_blank_city() {
    let config = WeatherConfig::new("k".to_string(), "README.md".to_string(), 300).unwrap();
    let mut cache: Cache<WeatherInfo> = Cache::new();
    assert!(matches!(plan_fetch(&cache, &config, " ", 0), Err(Error::InvalidCity(_))));
    accept_report(&mut cache, " ", response(), 0).unwrap();
    assert!(matches!(plan_fetch(&cache, &config, " ", 1).unwrap(), FetchPlan::Cached(_)));
}

#[test]
fn report_that_is_turned_away_is_not_cached() {
    let config = WeatherConfig::new("k".to_string(), "README.md".to_string(), 300).unwrap();
    let mut cache: Cache<WeatherInfo> = Cache::new();
    let mut bad = response();
    bad.cod = 401;
    match accept_report(&mut cache, "Berlin", bad, 10) {
        Err(Error::InvalidResponse(detail)) => assert_eq!(detail, "Invalid response code: 401"),
        other => panic!("{:?}", other),
    }
    let mut empty = response();
    empty.weather.clear();
    assert_eq!(
        invalid_response(accept_report(&mut cache, "Berlin", empty, 10)),
        "No weather data available"
    );
    assert!(matches!(plan_fetch(&cache, &config, "Berlin", 11).unwrap(), FetchPlan::Request(_)));
}
