//! What is reported after an update cycle.

use crate::datetime::{format_time, formatted_time, DATETIME_FORMAT};
use crate::patch::UpdateResult;
use crate::strings::{decimal_text, push_decimal};
use crate::weather::{push_tenths, tenths_text, WeatherInfo};
use vstd::prelude::*;
use vstd::string::StringExecFns;

verus! {

/// Keys, chat and paths that the updater runs with.
#[derive(Debug, Clone)]
pub struct ServiceConfig {
    pub weather_api_key: String,
    pub wakatime_api_key: String,
    pub telegram_bot_token: String,
    pub telegram_chat_id: i64,
    pub readme_path: String,
    pub config_path: String,
}

/// The date and time of an earlier update as a notice shows it: in UTC, or
/// "N/A" where there is none to show.
pub open spec fn shown_update(last_update: Option<i64>) -> Seq<char> {
    match last_update {
        Some(at) => match formatted_time(at, 0, DATETIME_FORMAT@) {
            Some(t) => t,
            None => "N/A"@,
        },
        None => "N/A"@,
    }
}

/// The date and time of an earlier update as a notice shows it.
pub fn show_update(last_update: Option<i64>) -> (r: String)
    ensures
        r@ == shown_update(last_update),
{
    match last_update {
        Some(at) => match format_time(at, 0, DATETIME_FORMAT) {
            Some(t) => t,
            None => "N/A".to_owned(),
        },
        None => "N/A".to_owned(),
    }
}

/// The notice about a cycle of the activity section.
pub open spec fn activity_notice_text(was_updated: bool, last_update: Option<i64>) -> Seq<char> {
    if was_updated {
        "WakaTime статистика успешно обновлена.\nПредыдущее обновление: *"@ + shown_update(
            last_update,
        ) + "*"@
    } else {
        "_Обновление статистики WakaTime не требуется._\nПоследнее обновление: *"@ + shown_update(
            last_update,
        ) + "*"@
    }
}

/// The notice about a cycle of the activity section: whether the section
/// was rewritten, and when it had been rewritten before.
pub fn activity_notice(result: &UpdateResult) -> (r: String)
    ensures
        r@ == activity_notice_text(result.was_updated, result.last_update),
{
    let mut out = if result.was_updated {
        "WakaTime статистика успешно обновлена.\nПредыдущее обновление: *".to_owned()
    } else {
        "_Обновление статистики WakaTime не требуется._\nПоследнее обновление: *".to_owned()
    };
    let shown = show_update(result.last_update);
    out.append(shown.as_str());
    out.append("*");
    out
}

/// A number of tenths of a degree as a notice shows it: without decimals
/// where there are none.
pub open spec fn degrees_text(t: int) -> Seq<char> {
    if t % 10 == 0 {
        (if t < 0 {
            seq!['-']
        } else {
            Seq::<char>::empty()
        }) + decimal_text((if t < 0 {
            -t
        } else {
            t
        } / 10) as nat)
    } else {
        tenths_text(t)
    }
}

/// Appends a number of tenths of a degree as a notice shows it.
pub fn push_degrees(out: &mut String, t: i64)
    ensures
        final(out)@ == old(out)@ + degrees_text(t as int),
{
    if t % 10 == 0 {
        let m: u64 = if t < 0 {
            out.push('-');
            ((-(t + 1)) as u64) + 1
        } else {
            t as u64
        };
        push_decimal(out, m / 10);
        assert(out@ =~= old(out)@ + degrees_text(t as int));
    } else {
        push_tenths(out, t);
    }
}

/// The notice about a cycle of the weather section.
pub fn weather_notice(weather: &WeatherInfo, last_update: Option<i64>) -> (r: String)
    ensures
        r@ == "В настоящее время в *"@ + weather@.location + "* погода,\nТекущая темп.: *"@
            + degrees_text(weather@.temp as int) + "°C*\nОщущается как: *"@ + degrees_text(
            weather@.feels_like as int,
        ) + "°C*\nТекущая погода: *"@ + weather@.condition_desc
            + "*\nПоследнее обновление было в: _"@ + shown_update(last_update) + "_"@,
{
    let mut out = "В настоящее время в *".to_owned();
    out.append(weather.location().as_str());
    out.append("* погода,\nТекущая темп.: *");
    push_degrees(&mut out, weather.temp());
    out.append("°C*\nОщущается как: *");
    push_degrees(&mut out, weather.feels_like());
    out.append("°C*\nТекущая погода: *");
    out.append(weather.condition_desc().as_str());
    out.append("*\nПоследнее обновление было в: _");
    let shown = show_update(last_update);
    out.append(shown.as_str());
    out.append("_");
    out
}

} // verus!
