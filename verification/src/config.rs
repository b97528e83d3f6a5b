//! What the activity section shows, as configured.

use vstd::prelude::*;

verus! {

/// The span of time that statistics are asked for.
#[derive(Debug, Clone, Copy, PartialEq, Eq, Structural)]
pub enum WakaTimeRange {
    Last7Days,
    Last30Days,
    Last6Months,
    LastYear,
    AllTime,
}

impl WakaTimeRange {
    /// The range as the statistics service spells it.
    pub open spec fn label(self) -> Seq<char> {
        match self {
            WakaTimeRange::Last7Days => "last_7_days"@,
            WakaTimeRange::Last30Days => "last_30_days"@,
            WakaTimeRange::Last6Months => "last_6_months"@,
            WakaTimeRange::LastYear => "last_year"@,
            WakaTimeRange::AllTime => "all_time"@,
        }
    }

    /// The range as the statistics service spells it.
    pub fn as_str(&self) -> (r: &'static str)
        ensures
            r@ == self.label(),
    {
        match self {
            WakaTimeRange::Last7Days => "last_7_days",
            WakaTimeRange::Last30Days => "last_30_days",
            WakaTimeRange::Last6Months => "last_6_months",
            WakaTimeRange::LastYear => "last_year",
            WakaTimeRange::AllTime => "all_time",
        }
    }
}

/// How the activity section is rendered.
#[derive(Debug, Clone)]
pub struct WakaTimeConfig {
    /// Print the line with the first and last day of the statistics.
    pub show_title: bool,
    /// Name of the section that holds the statistics.
    pub section_name: String,
    /// The four glyphs of a bar, from emptiest to fullest.
    pub blocks: String,
    /// Language tag of the code fence around the rendered text.
    pub code_lang: String,
    pub time_range: WakaTimeRange,
    /// How many languages to list at most; 0 or less lists them all.
    pub lang_count: i32,
    /// Print the time spent beside each language.
    pub show_time: bool,
    /// Print the total time.
    pub show_total: bool,
    /// Print the total time that includes unlisted languages; wins over
    /// `show_total`.
    pub show_masked_time: bool,
    /// Stop after the language named "Other".
    pub stop_at_other: bool,
    /// Names of languages to leave out, separated by white space.
    pub ignored_languages: Option<String>,
}

/// The configuration file.
#[derive(Debug, Clone)]
pub struct Config {
    pub wakatime: WakaTimeConfig,
}

} // verus!
