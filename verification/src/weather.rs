//! The weather section: what the weather service reports, and the text that
//! is written into the document for it.

use crate::cache::Cache;
use crate::datetime::{
    format_time, formatted_time, is_representable, is_valid_offset, representable, valid_offset,
    CLOCK_FORMAT, LONG_DATE_FORMAT,
};
use crate::error::{Error, ErrorView};
use crate::provider::{blank, build_api_url, check_code, is_blank};
use crate::strings::{decimal_text, digit, digit_char, join, push_decimal, same_text};
use vstd::prelude::*;
use vstd::string::StringExecFns;

verus! {

/// A failure of the weather update.
#[derive(Debug)]
pub enum WeatherError {
    MissingCityInSection,
    WeatherSectionNotFound,
    ApiError(String),
    FileError(String),
    InvalidCity(String),
    InvalidApiKey,
    InvalidResponse(String),
    RateLimitExceeded,
}

impl WeatherError {
    /// The message shown for the error.
    pub open spec fn message_text(self) -> Seq<char> {
        match self {
            WeatherError::MissingCityInSection => "Weather section header must include city name (<!--START_SECTION:weather:city-->)"@,
            WeatherError::WeatherSectionNotFound => "Weather section not found in README - skipping weather update"@,
            WeatherError::ApiError(d) => "API request failed: "@ + d@,
            WeatherError::FileError(d) => "File operation failed: "@ + d@,
            WeatherError::InvalidCity(d) => "Invalid city name: "@ + d@,
            WeatherError::InvalidApiKey => "Invalid API key"@,
            WeatherError::InvalidResponse(d) => "Invalid response from weather API: "@ + d@,
            WeatherError::RateLimitExceeded => "Rate limit exceeded"@,
        }
    }

    /// The message shown for the error.
    pub fn message(&self) -> (r: String)
        ensures
            r@ == self.message_text(),
    {
        match self {
            WeatherError::MissingCityInSection => "Weather section header must include city name (<!--START_SECTION:weather:city-->)".to_owned(),
            WeatherError::WeatherSectionNotFound => "Weather section not found in README - skipping weather update".to_owned(),
            WeatherError::ApiError(d) => join("API request failed: ", d.as_str()),
            WeatherError::FileError(d) => join("File operation failed: ", d.as_str()),
            WeatherError::InvalidCity(d) => join("Invalid city name: ", d.as_str()),
            WeatherError::InvalidApiKey => "Invalid API key".to_owned(),
            WeatherError::InvalidResponse(d) => join(
                "Invalid response from weather API: ",
                d.as_str(),
            ),
            WeatherError::RateLimitExceeded => "Rate limit exceeded".to_owned(),
        }
    }
}

/// How the weather section is kept up to date.
#[derive(Debug, Clone)]
pub struct WeatherConfig {
    pub api_key: String,
    /// Path of the document.
    pub readme_path: String,
    /// For how many seconds a fetched report stays fresh.
    pub cache_duration: u64,
}

impl WeatherConfig {
    /// The configuration, unless the key is blank.
    pub fn new(api_key: String, readme_path: String, cache_duration: u64) -> (r: Result<
        WeatherConfig,
        WeatherError,
    >)
        ensures
            match r {
                Ok(c) => {
                    &&& !is_blank(api_key@)
                    &&& c.api_key == api_key
                    &&& c.readme_path == readme_path
                    &&& c.cache_duration == cache_duration
                },
                Err(e) => is_blank(api_key@) && e is InvalidApiKey,
            },
    {
        if blank(api_key.as_str()) {
            return Err(WeatherError::InvalidApiKey);
        }
        Ok(WeatherConfig { api_key, readme_path, cache_duration })
    }
}

/// One condition of the weather.
#[derive(Debug, Clone)]
pub struct Weather {
    pub main: String,
    pub description: String,
}

/// Temperatures, in tenths of a degree Celsius.
#[derive(Debug, Clone, Copy)]
pub struct MainWeather {
    pub temp: i64,
    pub feels_like: i64,
}

/// Sunrise and sunset, in seconds since 1970-01-01 00:00:00 UTC, and the
/// country.
#[derive(Debug, Clone)]
pub struct SysInfo {
    pub sunrise: i64,
    pub sunset: i64,
    pub country: String,
}

/// What the weather service reports for a place.
#[derive(Debug, Clone)]
pub struct WeatherResponse {
    pub weather: Vec<Weather>,
    pub main: MainWeather,
    pub sys: SysInfo,
    pub name: String,
    pub cod: u16,
    /// Offset of the place's time from UTC, in seconds.
    pub timezone: i32,
}

/// The weather of a place, ready to be rendered.
#[derive(Debug)]
pub struct WeatherInfo {
    temp: i64,
    feels_like: i64,
    condition: String,
    condition_desc: String,
    sunrise: i64,
    sunset: i64,
    utc_offset: i32,
    location: String,
    country: String,
    emoji: String,
    last_update: i64,
}

/// The mathematical value of a `WeatherInfo`.
pub struct WeatherInfoView {
    /// In tenths of a degree Celsius.
    pub temp: i64,
    /// In tenths of a degree Celsius.
    pub feels_like: i64,
    pub condition: Seq<char>,
    pub condition_desc: Seq<char>,
    pub sunrise: i64,
    pub sunset: i64,
    pub utc_offset: i32,
    pub location: Seq<char>,
    pub country: Seq<char>,
    pub emoji: Seq<char>,
    pub last_update: i64,
}

/// The sign that stands for a condition.
pub open spec fn emoji_for(condition: Seq<char>) -> Seq<char> {
    if condition == "Thunderstorm"@ {
        "⛈️"@
    } else if condition == "Drizzle"@ {
        "🌦️"@
    } else if condition == "Rain"@ {
        "🌧️"@
    } else if condition == "Snow"@ {
        "❄️"@
    } else if condition == "Atmosphere"@ {
        "🌫️"@
    } else if condition == "Clear"@ {
        "☀️"@
    } else if condition == "Clouds"@ {
        "☁️"@
    } else {
        "❓"@
    }
}

/// A number of tenths written with one decimal.
pub open spec fn tenths_text(t: int) -> Seq<char> {
    let m = if t < 0 {
        -t
    } else {
        t
    };
    (if t < 0 {
        seq!['-']
    } else {
        Seq::<char>::empty()
    }) + decimal_text((m / 10) as nat) + seq!['.', digit_char(m % 10)]
}

/// Appends a number of tenths with one decimal.
pub fn push_tenths(out: &mut String, t: i64)
    ensures
        final(out)@ == old(out)@ + tenths_text(t as int),
{
    let m: u64 = if t < 0 {
        out.push('-');
        ((-(t + 1)) as u64) + 1
    } else {
        t as u64
    };
    push_decimal(out, m / 10);
    out.push('.');
    out.push(digit((m % 10) as u8));
    assert(out@ =~= old(out)@ + tenths_text(t as int));
}

/// What the report of a place becomes: the first condition, the
/// temperatures, and sunrise and sunset; or why the report is turned away.
pub open spec fn info_of(response: WeatherResponse, now: i64) -> Result<WeatherInfoView, ErrorView> {
    if !valid_offset(response.timezone) {
        Err(ErrorView::InvalidResponse("Invalid timezone offset"@))
    } else if response.weather@.len() == 0 {
        Err(ErrorView::InvalidResponse("No weather data available"@))
    } else if !representable(response.sys.sunrise) {
        Err(ErrorView::InvalidResponse("Invalid sunrise timestamp"@))
    } else if !representable(response.sys.sunset) {
        Err(ErrorView::InvalidResponse("Invalid sunset timestamp"@))
    } else {
        Ok(
            WeatherInfoView {
                temp: response.main.temp,
                feels_like: response.main.feels_like,
                condition: response.weather@[0].main@,
                condition_desc: response.weather@[0].description@,
                sunrise: response.sys.sunrise,
                sunset: response.sys.sunset,
                utc_offset: response.timezone,
                location: response.name@,
                country: response.sys.country@,
                emoji: emoji_for(response.weather@[0].main@),
                last_update: now,
            },
        )
    }
}

/// The text of an instant that can be written.
pub open spec fn time_text(secs: i64, offset: i32, fmt: Seq<char>) -> Seq<char> {
    formatted_time(secs, offset, fmt)->Some_0
}

/// The two lines that are written into the document.
pub open spec fn weather_text(w: WeatherInfoView) -> Seq<char> {
    "Currently in **"@ + w.location + "** ("@ + w.country + "), the weather is: **"@ + tenths_text(
        w.temp as int,
    ) + "°C** (feels like **"@ + tenths_text(w.feels_like as int) + "°C**), ***"@
        + w.condition_desc + "***<br/>\nOn *"@ + time_text(w.sunrise, w.utc_offset, LONG_DATE_FORMAT@)
        + "*, the *sun rises* at 🌅**"@ + time_text(w.sunrise, w.utc_offset, CLOCK_FORMAT@)
        + "** and *sets* at 🌇**"@ + time_text(w.sunset, w.utc_offset, CLOCK_FORMAT@) + "**."@
}

/// A report or an error, seen as a mathematical value.
pub open spec fn info_result_view(r: Result<WeatherInfo, Error>) -> Result<
    WeatherInfoView,
    ErrorView,
> {
    match r {
        Ok(w) => Ok(w@),
        Err(e) => Err(e@),
    }
}

impl WeatherInfo {
    /// Sunrise, sunset and offset are such that they can be written.
    #[verifier::type_invariant]
    spec fn can_be_written(self) -> bool {
        &&& representable(self.sunrise)
        &&& representable(self.sunset)
        &&& valid_offset(self.utc_offset)
    }

    pub closed spec fn view(&self) -> WeatherInfoView {
        WeatherInfoView {
            temp: self.temp,
            feels_like: self.feels_like,
            condition: self.condition@,
            condition_desc: self.condition_desc@,
            sunrise: self.sunrise,
            sunset: self.sunset,
            utc_offset: self.utc_offset,
            location: self.location@,
            country: self.country@,
            emoji: self.emoji@,
            last_update: self.last_update,
        }
    }

    /// The sign that stands for a condition.
    pub fn get_emoji(condition: &str) -> (r: String)
        ensures
            r@ == emoji_for(condition@),
    {
        if same_text(condition, "Thunderstorm") {
            "⛈️".to_owned()
        } else if same_text(condition, "Drizzle") {
            "🌦️".to_owned()
        } else if same_text(condition, "Rain") {
            "🌧️".to_owned()
        } else if same_text(condition, "Snow") {
            "❄️".to_owned()
        } else if same_text(condition, "Atmosphere") {
            "🌫️".to_owned()
        } else if same_text(condition, "Clear") {
            "☀️".to_owned()
        } else if same_text(condition, "Clouds") {
            "☁️".to_owned()
        } else {
            "❓".to_owned()
        }
    }

    /// Reads a report that arrived at `now`.
    pub fn from_response(response: WeatherResponse, now: i64) -> (r: Result<WeatherInfo, Error>)
        ensures
            info_result_view(r) == info_of(response, now),
    {
        if !is_valid_offset(response.timezone) {
            return Err(Error::InvalidResponse("Invalid timezone offset".to_owned()));
        }
        if response.weather.len() == 0 {
            return Err(Error::InvalidResponse("No weather data available".to_owned()));
        }
        if !is_representable(response.sys.sunrise) {
            return Err(Error::InvalidResponse("Invalid sunrise timestamp".to_owned()));
        }
        if !is_representable(response.sys.sunset) {
            return Err(Error::InvalidResponse("Invalid sunset timestamp".to_owned()));
        }
        let first = &response.weather[0];
        let emoji = Self::get_emoji(first.main.as_str());
        Ok(
            WeatherInfo {
                temp: response.main.temp,
                feels_like: response.main.feels_like,
                condition: first.main.clone(),
                condition_desc: first.description.clone(),
                sunrise: response.sys.sunrise,
                sunset: response.sys.sunset,
                utc_offset: response.timezone,
                location: response.name,
                country: response.sys.country,
                emoji,
                last_update: now,
            },
        )
    }

    /// A copy of the report.
    pub fn duplicate(&self) -> (r: WeatherInfo)
        ensures
            r@ == self@,
    {
        proof {
            use_type_invariant(self);
        }
        WeatherInfo {
            temp: self.temp,
            feels_like: self.feels_like,
            condition: self.condition.clone(),
            condition_desc: self.condition_desc.clone(),
            sunrise: self.sunrise,
            sunset: self.sunset,
            utc_offset: self.utc_offset,
            location: self.location.clone(),
            country: self.country.clone(),
            emoji: self.emoji.clone(),
            last_update: self.last_update,
        }
    }

    /// The temperature, in tenths of a degree Celsius.
    pub fn temp(&self) -> (r: i64)
        ensures
            r == self@.temp,
    {
        self.temp
    }

    /// The temperature as it feels, in tenths of a degree Celsius.
    pub fn feels_like(&self) -> (r: i64)
        ensures
            r == self@.feels_like,
    {
        self.feels_like
    }

    /// The name of the place.
    pub fn location(&self) -> (r: &String)
        ensures
            r@ == self@.location,
    {
        &self.location
    }

    /// The condition in words.
    pub fn condition_desc(&self) -> (r: &String)
        ensures
            r@ == self@.condition_desc,
    {
        &self.condition_desc
    }

    /// The sign that stands for the condition.
    pub fn emoji(&self) -> (r: &String)
        ensures
            r@ == self@.emoji,
    {
        &self.emoji
    }

    /// When the report arrived.
    pub fn last_update(&self) -> (r: i64)
        ensures
            r == self@.last_update,
    {
        self.last_update
    }

    /// The two lines about the weather, with `today` as the date.
    pub fn format_weather_text(&self, today: &str) -> (r: String)
        ensures
            r@ == "Currently in **"@ + self@.location + "** ("@ + self@.country
                + "), the weather is: **"@ + tenths_text(self@.temp as int)
                + "°C** (feels like **"@ + tenths_text(self@.feels_like as int) + "°C**), ***"@
                + self@.condition_desc + "***<br/>\nOn *"@ + today@
                + "*, the *sun rises* at 🌅**"@ + time_text(
                self@.sunrise,
                self@.utc_offset,
                CLOCK_FORMAT@,
            ) + "** and *sets* at 🌇**"@ + time_text(self@.sunset, self@.utc_offset, CLOCK_FORMAT@)
                + "**."@,
    {
        proof {
            use_type_invariant(self);
        }
        let rise = format_time(self.sunrise, self.utc_offset, CLOCK_FORMAT).unwrap();
        let set = format_time(self.sunset, self.utc_offset, CLOCK_FORMAT).unwrap();
        let mut out = "Currently in **".to_owned();
        out.append(self.location.as_str());
        out.append("** (");
        out.append(self.country.as_str());
        out.append("), the weather is: **");
        push_tenths(&mut out, self.temp);
        out.append("°C** (feels like **");
        push_tenths(&mut out, self.feels_like);
        out.append("°C**), ***");
        out.append(self.condition_desc.as_str());
        out.append("***<br/>\nOn *");
        out.append(today);
        out.append("*, the *sun rises* at 🌅**");
        out.append(rise.as_str());
        out.append("** and *sets* at 🌇**");
        out.append(set.as_str());
        out.append("**.");
        out
    }

    /// What is written into the document: the two lines about the weather,
    /// dated by the day of the sunrise at the place.
    pub fn format_readme(&self) -> (r: String)
        ensures
            r@ == weather_text(self@),
    {
        proof {
            use_type_invariant(self);
        }
        let today = format_time(self.sunrise, self.utc_offset, LONG_DATE_FORMAT).unwrap();
        self.format_weather_text(today.as_str())
    }
}

/// What to do to learn the weather of a city.
#[derive(Debug)]
pub enum FetchPlan {
    /// Nothing: this report is still fresh.
    Cached(WeatherInfo),
    /// Ask the service at this address.
    Request(String),
}

/// Decides how to learn the weather of `city` at `now`: a report in the
/// cache that is still fresh is used; else a city that is not blank is asked
/// for.
pub fn plan_fetch(
    cache: &Cache<WeatherInfo>,
    config: &WeatherConfig,
    city: &str,
    now: i64,
) -> (r: Result<FetchPlan, Error>)
    requires
        cache.well_formed(),
    ensures
        cache.has_fresh(city@, now, config.cache_duration) ==> (r matches Ok(FetchPlan::Cached(w))
            && w@ == cache@[city@].0@),
        !cache.has_fresh(city@, now, config.cache_duration) ==> match r {
            Ok(FetchPlan::Request(address)) => crate::provider::text_result_view(Ok(address))
                == crate::provider::built_url(city@, config.api_key@),
            Ok(FetchPlan::Cached(_)) => false,
            Err(e) => crate::provider::built_url(city@, config.api_key@) == Err::<
                Seq<char>,
                ErrorView,
            >(e@),
        },
{
    match cache.lookup(city, now, config.cache_duration) {
        Some(report) => Ok(FetchPlan::Cached(report.duplicate())),
        None => match build_api_url(city, config.api_key.as_str()) {
            Ok(address) => Ok(FetchPlan::Request(address)),
            Err(e) => Err(e),
        },
    }
}

/// Takes the body of a successful response for `city` that arrived at
/// `now`: a body whose code is 200 and that can be read is put in the cache
/// and returned.
pub fn accept_report(
    cache: &mut Cache<WeatherInfo>,
    city: &str,
    response: WeatherResponse,
    now: i64,
) -> (r: Result<WeatherInfo, Error>)
    requires
        old(cache).well_formed(),
    ensures
        final(cache).well_formed(),
        info_result_view(r) == if response.cod != 200 {
            Err::<WeatherInfoView, ErrorView>(
                ErrorView::InvalidResponse(
                    "Invalid response code: "@ + decimal_text(response.cod as nat),
                ),
            )
        } else {
            info_of(response, now)
        },
        match r {
            Ok(w) => final(cache)@.contains_key(city@) && final(cache)@[city@].0@ == w@
                && final(cache)@[city@].1 == now && final(cache)@.remove(city@) == old(
                cache,
            )@.remove(city@),
            Err(_) => final(cache)@ == old(cache)@,
        },
{
    match check_code(response.cod) {
        Err(e) => {
            return Err(e);
        },
        Ok(()) => {},
    }
    let report = WeatherInfo::from_response(response, now)?;
    let copy = report.duplicate();
    cache.store(city, report, now);
    assert(cache@.remove(city@) =~= old(cache)@.remove(city@));
    Ok(copy)
}

} // verus!
