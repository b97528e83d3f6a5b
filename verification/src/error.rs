//! What can go wrong, and the message that goes with it.

use crate::section::LocateError;
use crate::strings::join;
use vstd::prelude::*;
use vstd::string::StringExecFns;

verus! {

/// A failure of one update cycle.
#[derive(Debug)]
pub enum Error {
    ApiError(String),
    ConfigError(String),
    IoError(String),
    HttpError(String),
    ParseError(String),
    TemplateError(String),
    RegexError(String),
    InvalidCity(String),
    InvalidApiKey,
    InvalidResponse(String),
    RateLimitExceeded,
    TimeoutError,
    MissingCityInSection,
    WeatherSectionNotFound,
}

/// The mathematical value of an `Error`.
pub enum ErrorView {
    ApiError(Seq<char>),
    ConfigError(Seq<char>),
    IoError(Seq<char>),
    HttpError(Seq<char>),
    ParseError(Seq<char>),
    TemplateError(Seq<char>),
    RegexError(Seq<char>),
    InvalidCity(Seq<char>),
    InvalidApiKey,
    InvalidResponse(Seq<char>),
    RateLimitExceeded,
    TimeoutError,
    MissingCityInSection,
    WeatherSectionNotFound,
}

impl ErrorView {
    /// The message shown for the error.
    pub open spec fn message(self) -> Seq<char> {
        match self {
            ErrorView::ApiError(d) => "API error: "@ + d,
            ErrorView::ConfigError(d) => "Configuration error: "@ + d,
            ErrorView::IoError(d) => "IO error: "@ + d,
            ErrorView::HttpError(d) => "HTTP error: "@ + d,
            ErrorView::ParseError(d) => "Failed to parse response: "@ + d,
            ErrorView::TemplateError(d) => "Template error: "@ + d,
            ErrorView::RegexError(d) => "Regex error: "@ + d,
            ErrorView::InvalidCity(d) => "Invalid city name: "@ + d,
            ErrorView::InvalidApiKey => "Invalid API key"@,
            ErrorView::InvalidResponse(d) => "Invalid response from weather API: "@ + d,
            ErrorView::RateLimitExceeded => "Rate limit exceeded"@,
            ErrorView::TimeoutError => "Timeout error"@,
            ErrorView::MissingCityInSection => "Weather section header must include city name (<!--START_SECTION:weather:city-->)"@,
            ErrorView::WeatherSectionNotFound => "Weather section not found in README - skipping weather update"@,
        }
    }

    /// The error that a failure to locate a section becomes.
    pub open spec fn of_locate(e: LocateError) -> ErrorView {
        match e {
            LocateError::SectionNotFound => ErrorView::WeatherSectionNotFound,
            LocateError::MalformedMarker => ErrorView::ParseError("Malformed section marker"@),
            LocateError::MissingTargetIdentifier => ErrorView::MissingCityInSection,
        }
    }
}

impl View for Error {
    type V = ErrorView;

    open spec fn view(&self) -> ErrorView {
        match self {
            Error::ApiError(d) => ErrorView::ApiError(d@),
            Error::ConfigError(d) => ErrorView::ConfigError(d@),
            Error::IoError(d) => ErrorView::IoError(d@),
            Error::HttpError(d) => ErrorView::HttpError(d@),
            Error::ParseError(d) => ErrorView::ParseError(d@),
            Error::TemplateError(d) => ErrorView::TemplateError(d@),
            Error::RegexError(d) => ErrorView::RegexError(d@),
            Error::InvalidCity(d) => ErrorView::InvalidCity(d@),
            Error::InvalidApiKey => ErrorView::InvalidApiKey,
            Error::InvalidResponse(d) => ErrorView::InvalidResponse(d@),
            Error::RateLimitExceeded => ErrorView::RateLimitExceeded,
            Error::TimeoutError => ErrorView::TimeoutError,
            Error::MissingCityInSection => ErrorView::MissingCityInSection,
            Error::WeatherSectionNotFound => ErrorView::WeatherSectionNotFound,
        }
    }
}

impl Error {
    /// The message shown for the error.
    pub fn message(&self) -> (r: String)
        ensures
            r@ == self@.message(),
    {
        match self {
            Error::ApiError(d) => join("API error: ", d.as_str()),
            Error::ConfigError(d) => join("Configuration error: ", d.as_str()),
            Error::IoError(d) => join("IO error: ", d.as_str()),
            Error::HttpError(d) => join("HTTP error: ", d.as_str()),
            Error::ParseError(d) => join("Failed to parse response: ", d.as_str()),
            Error::TemplateError(d) => join("Template error: ", d.as_str()),
            Error::RegexError(d) => join("Regex error: ", d.as_str()),
            Error::InvalidCity(d) => join("Invalid city name: ", d.as_str()),
            Error::InvalidApiKey => String::from_str("Invalid API key"),
            Error::InvalidResponse(d) => join("Invalid response from weather API: ", d.as_str()),
            Error::RateLimitExceeded => String::from_str("Rate limit exceeded"),
            Error::TimeoutError => String::from_str("Timeout error"),
            Error::MissingCityInSection => String::from_str(
                "Weather section header must include city name (<!--START_SECTION:weather:city-->)",
            ),
            Error::WeatherSectionNotFound => String::from_str(
                "Weather section not found in README - skipping weather update",
            ),
        }
    }

    /// The error that a failure to locate a section becomes.
    pub fn from_locate(e: LocateError) -> (r: Error)
        ensures
            r@ == ErrorView::of_locate(e),
    {
        match e {
            LocateError::SectionNotFound => Error::WeatherSectionNotFound,
            LocateError::MalformedMarker => Error::ParseError(
                String::from_str("Malformed section marker"),
            ),
            LocateError::MissingTargetIdentifier => Error::MissingCityInSection,
        }
    }
}

} // verus!
