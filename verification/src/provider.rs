//! Talking to the services that supply the metrics: which address to ask,
//! how to sign the request, and what a response's status means.

use crate::config::WakaTimeRange;
use crate::datetime::text_view;
use crate::error::{Error, ErrorView};
use crate::strings::{decimal_text, is_space, is_white_space, chars_of, push_decimal};
use vstd::prelude::*;
use vstd::string::StringExecFns;
use vstd::utf8::encode_utf8;

verus! {

/// Where the weather service answers.
pub const API_BASE_URL: &'static str = "https://api.openweathermap.org/data/2.5/weather";

/// Where the statistics service answers.
pub const WAKATIME_BASE_URL: &'static str = "https://wakatime.com/api";

/// The status of a rate-limited request.
pub const TOO_MANY_REQUESTS: u16 = 429;

/// The names and values of a query, seen as a mathematical value.
pub open spec fn pairs_view(pairs: Seq<(String, String)>) -> Seq<(Seq<char>, Seq<char>)> {
    Seq::new(pairs.len(), |i: int| (pairs[i].0@, pairs[i].1@))
}

/// The address that the `url` crate makes of `base` with `params` added to
/// its query; `None` where `base` is no absolute address.
pub uninterp spec fn url_with_params(
    base: Seq<char>,
    params: Seq<(Seq<char>, Seq<char>)>,
) -> Option<Seq<char>>;

/// The text that the standard Base64 alphabet, with padding, makes of bytes.
pub uninterp spec fn base64_text(bytes: Seq<u8>) -> Seq<char>;

/// Calls `url::Url::parse_with_params` and takes the address as text.
/// Trusted: the result is the named one, `None` where the crate reports an
/// error.  The crate keeps offsets into an address in 32 bits and panics
/// where it has to put a fragment back behind a query that has outgrown
/// them; `requires` admits only the address of the weather service, which is
/// short and has no fragment, so that no offset is taken beyond it.
#[verifier::external_body]
pub(crate) fn parse_with_params(base: &str, params: &Vec<(String, String)>) -> (r: Option<String>)
    requires
        base@ == API_BASE_URL@,
    ensures
        text_view(r) == url_with_params(base@, pairs_view(params@)),
{
    match url::Url::parse_with_params(base, params.iter()) {
        Ok(address) => Some(String::from(address)),
        Err(_) => None,
    }
}

/// Calls `encode` of `base64::engine::general_purpose::STANDARD`.  Trusted:
/// the result is the named one.  The crate panics where the length of the
/// result does not fit `usize`; `requires` leaves such input out.
#[verifier::external_body]
pub(crate) fn base64_standard(input: &[u8]) -> (r: String)
    requires
        input@.len() <= usize::MAX / 2,
    ensures
        r@ == base64_text(input@),
{
    base64::Engine::encode(&base64::engine::general_purpose::STANDARD, input)
}

/// Every character of `s` is white space; so is the empty text.
pub open spec fn is_blank(s: Seq<char>) -> bool {
    forall|i: int| 0 <= i < s.len() ==> is_white_space(#[trigger] s[i])
}

/// Whether a text is empty once trimmed.
pub fn blank(s: &str) -> (r: bool)
    ensures
        r == is_blank(s@),
{
    let chars = chars_of(s);
    let mut i: usize = 0;
    while i < chars.len()
        invariant
            i <= chars.len(),
            chars@ == s@,
            forall|k: int| 0 <= k < i ==> is_white_space(#[trigger] s@[k]),
        decreases chars.len() - i,
    {
        if !is_space(chars[i]) {
            return false;
        }
        i += 1;
    }
    true
}

/// A result without a value, seen as a mathematical value.
pub open spec fn check_view(r: Result<(), Error>) -> Result<(), ErrorView> {
    match r {
        Ok(()) => Ok(()),
        Err(e) => Err(e@),
    }
}

/// What the status of a response means: any status from 200 to 299 is a
/// success, 429 says that the rate limit is exceeded, any other is a failure
/// of the service.
pub open spec fn status_meaning(status: u16, status_text: Seq<char>) -> Result<(), ErrorView> {
    if status == TOO_MANY_REQUESTS {
        Err(ErrorView::RateLimitExceeded)
    } else if 200 <= status && status <= 299 {
        Ok(())
    } else {
        Err(ErrorView::ApiError("API request failed: "@ + status_text))
    }
}

/// Reads the status of a response; `status_text` is the status as it is
/// shown.
pub fn check_status(status: u16, status_text: &str) -> (r: Result<(), Error>)
    ensures
        check_view(r) == status_meaning(status, status_text@),
{
    if status == TOO_MANY_REQUESTS {
        Err(Error::RateLimitExceeded)
    } else if 200 <= status && status <= 299 {
        Ok(())
    } else {
        let mut notice = "API request failed: ".to_owned();
        notice.append(status_text);
        Err(Error::ApiError(notice))
    }
}

/// Reads the code inside the body of a weather response: 200 is a success.
pub fn check_code(cod: u16) -> (r: Result<(), Error>)
    ensures
        check_view(r) == if cod == 200 {
            Ok::<(), ErrorView>(())
        } else {
            Err(ErrorView::InvalidResponse("Invalid response code: "@ + decimal_text(cod as nat)))
        },
{
    if cod == 200 {
        Ok(())
    } else {
        let mut notice = "Invalid response code: ".to_owned();
        push_decimal(&mut notice, cod as u64);
        Err(Error::InvalidResponse(notice))
    }
}

/// The query that asks for the weather of `city`.
pub open spec fn weather_query(city: Seq<char>, api_key: Seq<char>) -> Seq<(Seq<char>, Seq<char>)> {
    seq![("q"@, city), ("appid"@, api_key), ("units"@, "metric"@)]
}

/// A text or an error, seen as a mathematical value.
pub open spec fn text_result_view(r: Result<String, Error>) -> Result<Seq<char>, ErrorView> {
    match r {
        Ok(t) => Ok(t@),
        Err(e) => Err(e@),
    }
}

/// The address to ask for the weather of `city`, or why there is none.
pub open spec fn built_url(city: Seq<char>, api_key: Seq<char>) -> Result<Seq<char>, ErrorView> {
    if is_blank(city) {
        Err(ErrorView::InvalidCity("City name cannot be empty"@))
    } else {
        match url_with_params(API_BASE_URL@, weather_query(city, api_key)) {
            Some(address) => Ok(address),
            None => Err(ErrorView::InvalidCity("Failed to build API URL"@)),
        }
    }
}

/// The address to ask for the weather of `city`, in metric units.  A city
/// that is blank is turned away.
pub fn build_api_url(city: &str, api_key: &str) -> (r: Result<String, Error>)
    ensures
        text_result_view(r) == built_url(city@, api_key@),
{
    if blank(city) {
        return Err(Error::InvalidCity("City name cannot be empty".to_owned()));
    }
    let mut params: Vec<(String, String)> = Vec::new();
    params.push(("q".to_owned(), city.to_owned()));
    params.push(("appid".to_owned(), api_key.to_owned()));
    params.push(("units".to_owned(), "metric".to_owned()));
    assert(pairs_view(params@) =~= weather_query(city@, api_key@));
    match parse_with_params(API_BASE_URL, &params) {
        Some(address) => Ok(address),
        None => Err(Error::InvalidCity("Failed to build API URL".to_owned())),
    }
}

/// The address to ask for the statistics of a span of time.
pub fn stats_url(base_url: &str, time_range: &WakaTimeRange) -> (r: String)
    ensures
        r@ == base_url@ + "/v1/users/current/stats/"@ + time_range.label(),
{
    let mut out = base_url.to_owned();
    out.append("/v1/users/current/stats/");
    out.append(time_range.as_str());
    out
}

/// The value of the `Authorization` header for the statistics service: the
/// key in Base64 after the word `Basic`.  A key too long to encode is turned
/// away.
pub fn basic_authorization(api_key: &str) -> (r: Result<String, Error>)
    ensures
        text_result_view(r) == if encode_utf8(api_key@).len() <= usize::MAX / 2 {
            Ok::<Seq<char>, ErrorView>("Basic "@ + base64_text(encode_utf8(api_key@)))
        } else {
            Err(ErrorView::ApiError("Invalid API key: too long"@))
        },
{
    let key = api_key.as_bytes();
    if key.len() > usize::MAX / 2 {
        return Err(Error::ApiError("Invalid API key: too long".to_owned()));
    }
    let encoded = base64_standard(key);
    let mut out = "Basic ".to_owned();
    out.append(encoded.as_str());
    Ok(out)
}

/// Where a document is written before it takes the place of the file at
/// `path`.
pub fn temp_path(path: &str) -> (r: String)
    ensures
        r@ == path@ + ".tmp"@,
{
    let mut out = path.to_owned();
    out.append(".tmp");
    out
}

/// Where the paid translation service answers.
pub const DEEPL_PRO_URL: &'static str = "https://api.deepl.com/v2";

/// Where the free translation service answers.
pub const DEEPL_FREE_URL: &'static str = "https://api-free.deepl.com/v2";

/// Where the translation service answers.
pub fn deepl_base_url(is_pro: bool) -> (r: &'static str)
    ensures
        r@ == if is_pro {
            DEEPL_PRO_URL@
        } else {
            DEEPL_FREE_URL@
        },
{
    if is_pro {
        DEEPL_PRO_URL
    } else {
        DEEPL_FREE_URL
    }
}

/// The value of the `Authorization` header for the translation service.
pub fn deepl_authorization(api_key: &str) -> (r: String)
    ensures
        r@ == "DeepL-Auth-Key "@ + api_key@,
{
    let mut out = "DeepL-Auth-Key ".to_owned();
    out.append(api_key);
    out
}

/// What to do with a batch of texts to translate.
#[derive(Debug, Clone, Copy, PartialEq, Eq, Structural)]
pub enum BatchPlan {
    /// There is nothing to translate and nothing to ask.
    Nothing,
    /// Ask the service.
    Request,
}

/// Decides what to do with a batch of `count` texts: an empty key is
/// turned away, an empty batch needs no request.
pub fn plan_batch(api_key: &str, count: usize) -> (r: Result<BatchPlan, Error>)
    ensures
        match r {
            Ok(plan) => api_key@.len() > 0 && plan == if count == 0 {
                BatchPlan::Nothing
            } else {
                BatchPlan::Request
            },
            Err(e) => api_key@.len() == 0 && e@ == ErrorView::InvalidApiKey,
        },
{
    if api_key.is_empty() {
        return Err(Error::InvalidApiKey);
    }
    if count == 0 {
        Ok(BatchPlan::Nothing)
    } else {
        Ok(BatchPlan::Request)
    }
}

/// Reads the status of the translation service's response: 200 is a
/// success, 429 says that the rate limit is exceeded, and with any other
/// status the body of the response says what failed.
pub fn check_translation_status(status: u16, body: &str) -> (r: Result<(), Error>)
    ensures
        check_view(r) == if status == 200 {
            Ok::<(), ErrorView>(())
        } else if status == TOO_MANY_REQUESTS {
            Err(ErrorView::RateLimitExceeded)
        } else {
            Err(ErrorView::ApiError(body@))
        },
{
    if status == 200 {
        Ok(())
    } else if status == TOO_MANY_REQUESTS {
        Err(Error::RateLimitExceeded)
    } else {
        Err(Error::ApiError(body.to_owned()))
    }
}

} // verus!
