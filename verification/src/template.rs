//! Rendering activity statistics as text: a title, a total, and one line
//! with a bar for each language.

use crate::config::Config;
use crate::datetime::{
    format_time, formatted_time, parse_rfc3339, rfc3339_instant, TITLE_DATE_FORMAT,
};
use crate::error::Error;
use crate::markers::CODE_FENCE;
use crate::strings::{
    chars_of, contains_text, padded, push_padded, push_repeated, push_two_digits, same_text,
    split_words, texts_view, two_digits, words,
};
use vstd::prelude::*;
use vstd::string::StringExecFns;
use vstd::utf8::encode_utf8;

verus! {

/// How many character cells a bar has.
pub const GRAPH_WIDTH: usize = 25;

/// How many character cells the time spent takes.
pub const TIME_WIDTH: usize = 16;

/// One hundred percent, in hundredths of a percent.
pub const FULL_PERCENT: u32 = 10_000;

/// The time spent in one language.
#[derive(Debug, Clone)]
pub struct Language {
    pub name: String,
    /// The time spent, as a person reads it.
    pub text: String,
    /// The share of the total time, in hundredths of a percent.
    pub percent: u32,
}

/// Activity statistics over a span of time.
#[derive(Debug, Clone)]
pub struct WakaStats {
    /// First instant of the span, as RFC 3339.
    pub start: String,
    /// Last instant of the span, as RFC 3339.
    pub end: String,
    /// The languages, in the order in which they are listed.
    pub languages: Vec<Language>,
    pub human_readable_total: Option<String>,
    pub human_readable_total_including_other_language: Option<String>,
    pub total_seconds: u64,
    pub total_seconds_including_other_language: u64,
}

/// Renders statistics as configured.
#[derive(Debug)]
pub struct Template {
    pub config: Config,
    /// Names of the languages that are left out.
    pub ignored_langs: Vec<String>,
}

/// The fill of a bar in twelve-hundredths of a cell, already rounded: the
/// share of 25 cells that `percent` (in hundredths of a percent, at most one
/// hundred percent) comes to, plus half a step, a step being a third of a
/// cell.
pub open spec fn bar_level(percent: nat) -> nat {
    3 * (if percent > 10_000 {
        10_000
    } else {
        percent
    }) + 200
}

/// How many cells of the bar are full.
pub open spec fn full_cells(percent: nat) -> nat {
    bar_level(percent) / 1200
}

/// Which glyph follows the full cells: 1 or 2 for a cell that is one or two
/// thirds full, 0 for none.
pub open spec fn partial_glyph(percent: nat) -> nat {
    (bar_level(percent) % 1200) / 400
}

/// The bar for `percent`, drawn with four glyphs from emptiest to fullest.
pub open spec fn bar(glyphs: Seq<char>, percent: nat) -> Seq<char> {
    Seq::new(
        25,
        |i: int|
            if i < full_cells(percent) {
                glyphs[3]
            } else if i == full_cells(percent) && partial_glyph(percent) > 0 {
                glyphs[partial_glyph(percent) as int]
            } else {
                glyphs[0]
            },
    )
}

/// The bar for `percent` drawn with `blocks`, or a notice where `blocks` are
/// not four glyphs.
pub open spec fn graph(blocks: Seq<char>, percent: nat) -> Seq<char> {
    if blocks.len() == 4 {
        bar(blocks, percent)
    } else {
        "Invalid blocks configuration"@
    }
}

/// A share in hundredths of a percent, written with two decimals and at
/// least two digits before the point.
pub open spec fn percent_text(percent: nat) -> Seq<char> {
    two_digits(percent / 100) + seq!['.'] + two_digits(percent % 100)
}

/// The line for one language.
pub open spec fn language_line(
    blocks: Seq<char>,
    name: Seq<char>,
    time: Seq<char>,
    percent: nat,
    width: int,
) -> Seq<char> {
    padded(name, width) + "   "@ + padded(time, 16) + padded(graph(blocks, percent), 25) + "   "@
        + percent_text(percent) + " %\n"@
}

/// The width of the name column: the greatest length in bytes of a name.
pub open spec fn name_width(languages: Seq<Language>) -> nat
    decreases languages.len(),
{
    if languages.len() == 0 {
        0
    } else {
        let before = name_width(languages.drop_last());
        let n = encode_utf8(languages.last().name@).len();
        if n > before {
            n
        } else {
            before
        }
    }
}

/// The date of an RFC 3339 instant as a title shows it; "Unknown" where the
/// text is no such instant.
pub open spec fn title_date(text: Seq<char>) -> Seq<char> {
    match rfc3339_instant(text) {
        Some((secs, offset)) => match formatted_time(secs, offset, TITLE_DATE_FORMAT@) {
            Some(t) => t,
            None => "Unknown"@,
        },
        None => "Unknown"@,
    }
}

impl Template {
    /// The time printed beside a language.
    pub open spec fn time_shown(&self, language: Language) -> Seq<char> {
        if self.config.wakatime.show_time {
            language.text@
        } else {
            Seq::empty()
        }
    }

    /// The lines of the languages from index `from` on, `taken` lines having
    /// been printed before: ignored languages are passed over, the count
    /// stops at the configured number, and the list stops after "Other" where
    /// that is asked for.
    pub open spec fn lines_from(&self, languages: Seq<Language>, from: int, taken: int) -> Seq<
        char,
    >
        decreases languages.len() - from,
    {
        let c = self.config.wakatime;
        if from < 0 || from >= languages.len() || (c.lang_count > 0 && taken >= c.lang_count) {
            Seq::empty()
        } else if texts_view(self.ignored_langs@).contains(languages[from].name@) {
            self.lines_from(languages, from + 1, taken)
        } else {
            let line = language_line(
                c.blocks@,
                languages[from].name@,
                self.time_shown(languages[from]),
                languages[from].percent as nat,
                name_width(languages) as int,
            );
            if c.stop_at_other && languages[from].name@ == "Other"@ {
                line
            } else {
                line + self.lines_from(languages, from + 1, taken + 1)
            }
        }
    }

    /// The title line and the blank line after it.
    pub open spec fn title_text(&self, stats: WakaStats) -> Seq<char> {
        "From: "@ + title_date(stats.start@) + " - To: "@ + title_date(stats.end@) + "\n\n"@
    }

    /// The total that is shown: the one that counts unlisted languages where
    /// that is asked for, else the plain one where that is asked for.
    pub open spec fn total_shown(&self, stats: WakaStats) -> Option<Seq<char>> {
        let c = self.config.wakatime;
        if c.show_masked_time {
            match stats.human_readable_total_including_other_language {
                Some(t) => Some(t@),
                None => None,
            }
        } else if c.show_total {
            match stats.human_readable_total {
                Some(t) => Some(t@),
                None => None,
            }
        } else {
            None
        }
    }

    /// The line with the total and the blank line after it.
    pub open spec fn total_text(&self, stats: WakaStats) -> Seq<char> {
        match self.total_shown(stats) {
            Some(t) => "Total Time: "@ + t + "\n\n"@,
            None => Seq::empty(),
        }
    }

    /// All that is rendered: inside a code fence the title, the total and the
    /// languages, as far as each is asked for.
    pub open spec fn rendered(&self, stats: WakaStats) -> Seq<char> {
        let c = self.config.wakatime;
        CODE_FENCE@ + c.code_lang@ + "\n"@ + (if c.show_title {
            self.title_text(stats)
        } else {
            Seq::empty()
        }) + (if c.show_masked_time || c.show_total {
            self.total_text(stats)
        } else {
            Seq::empty()
        }) + self.lines_from(stats.languages@, 0, 0) + CODE_FENCE@
    }

    /// A template for `config`; the ignored languages are the words of
    /// `ignored_languages`.
    pub fn new(config: Config) -> (t: Template)
        ensures
            t.config == config,
            texts_view(t.ignored_langs@) == match config.wakatime.ignored_languages {
                Some(names) => words(names@),
                None => Seq::<Seq<char>>::empty(),
            },
    {
        let ignored_langs = match &config.wakatime.ignored_languages {
            Some(names) => split_words(names.as_str()),
            None => Vec::new(),
        };
        assert(config.wakatime.ignored_languages is None ==> texts_view(ignored_langs@)
            =~= Seq::<Seq<char>>::empty());
        Template { config, ignored_langs }
    }

    /// The bar for a share given in hundredths of a percent.
    pub fn make_graph(&self, percent: u32) -> (r: String)
        ensures
            r@ == graph(self.config.wakatime.blocks@, percent as nat),
    {
        let blocks = chars_of(self.config.wakatime.blocks.as_str());
        if blocks.len() != 4 {
            return "Invalid blocks configuration".to_owned();
        }
        let capped: u32 = if percent > FULL_PERCENT {
            FULL_PERCENT
        } else {
            percent
        };
        let level: u32 = 3 * capped + 200;
        let full: usize = (level / 1200) as usize;
        let part: usize = ((level % 1200) / 400) as usize;
        let mut out = String::new();
        push_repeated(&mut out, blocks[3], full);
        let mut used: usize = full;
        if part > 0 {
            out.push(blocks[part]);
            used = used + 1;
        }
        push_repeated(&mut out, blocks[0], GRAPH_WIDTH - used);
        assert(out@ =~= bar(blocks@, percent as nat));
        out
    }

    /// The width of the name column.
    pub fn widest_name(languages: &Vec<Language>) -> (w: usize)
        ensures
            w == name_width(languages@),
    {
        let mut w: usize = 0;
        let mut i: usize = 0;
        while i < languages.len()
            invariant
                i <= languages.len(),
                w == name_width(languages@.subrange(0, i as int)),
            decreases languages.len() - i,
        {
            let name = languages[i].name.as_str();
            let n = name.as_bytes().len();
            assert(n == encode_utf8(languages@[i as int].name@).len());
            assert(languages@.subrange(0, i + 1).drop_last() =~= languages@.subrange(0, i as int));
            assert(languages@.subrange(0, i + 1).last() == languages@[i as int]);
            if n > w {
                w = n;
            }
            i += 1;
        }
        assert(languages@.subrange(0, i as int) =~= languages@);
        w
    }

    /// Appends the line for one language.
    pub fn push_language_line(&self, out: &mut String, language: &Language, width: usize)
        ensures
            final(out)@ == old(out)@ + language_line(
                self.config.wakatime.blocks@,
                language.name@,
                self.time_shown(*language),
                language.percent as nat,
                width as int,
            ),
    {
        let graph = self.make_graph(language.percent);
        push_padded(out, language.name.as_str(), width);
        out.append("   ");
        if self.config.wakatime.show_time {
            push_padded(out, language.text.as_str(), TIME_WIDTH);
        } else {
            push_padded(out, "", TIME_WIDTH);
            proof {
                reveal_strlit("");
                assert(""@ =~= Seq::<char>::empty());
            }
        }
        push_padded(out, graph.as_str(), GRAPH_WIDTH);
        out.append("   ");
        push_percent(out, language.percent);
        out.append(" %\n");
        assert(out@ =~= old(out)@ + language_line(
            self.config.wakatime.blocks@,
            language.name@,
            self.time_shown(*language),
            language.percent as nat,
            width as int,
        ));
    }

    /// The lines of the languages.
    pub fn render_languages(&self, stats: &WakaStats) -> (r: String)
        ensures
            r@ == self.lines_from(stats.languages@, 0, 0),
    {
        let width = Self::widest_name(&stats.languages);
        let mut out = String::new();
        let mut taken: usize = 0;
        let mut i: usize = 0;
        let n = stats.languages.len();
        let limit = self.config.wakatime.lang_count;
        while i < n && !(limit > 0 && taken >= limit as usize)
            invariant
                i <= n,
                taken <= i,
                n == stats.languages.len(),
                limit == self.config.wakatime.lang_count,
                width == name_width(stats.languages@),
                self.lines_from(stats.languages@, 0, 0) == out@ + self.lines_from(
                    stats.languages@,
                    i as int,
                    taken as int,
                ),
            decreases n - i,
        {
            let language = &stats.languages[i];
            if contains_text(&self.ignored_langs, language.name.as_str()) {
                i += 1;
            } else {
                let ghost before = out@;
                self.push_language_line(&mut out, language, width);
                let ghost line = language_line(
                    self.config.wakatime.blocks@,
                    language.name@,
                    self.time_shown(*language),
                    language.percent as nat,
                    width as int,
                );
                assert(out@ =~= before + line);
                if self.config.wakatime.stop_at_other && same_text(
                    language.name.as_str(),
                    "Other",
                ) {
                    assert(before + line =~= before + self.lines_from(
                        stats.languages@,
                        i as int,
                        taken as int,
                    ));
                    return out;
                }
                assert(before + (line + self.lines_from(stats.languages@, i + 1, taken + 1))
                    =~= out@ + self.lines_from(stats.languages@, i + 1, taken + 1));
                i += 1;
                taken += 1;
            }
        }
        assert(out@ + Seq::<char>::empty() =~= out@);
        out
    }

    /// The title line.
    pub fn render_title(&self, stats: &WakaStats) -> (r: String)
        ensures
            r@ == self.title_text(*stats),
    {
        let mut out = "From: ".to_owned();
        let from = date_for_title(stats.start.as_str());
        out.append(from.as_str());
        out.append(" - To: ");
        let to = date_for_title(stats.end.as_str());
        out.append(to.as_str());
        out.append("\n\n");
        out
    }

    /// The line with the total.
    pub fn render_total_time(&self, stats: &WakaStats) -> (r: String)
        ensures
            r@ == self.total_text(*stats),
    {
        let total: Option<&String> = if self.config.wakatime.show_masked_time {
            stats.human_readable_total_including_other_language.as_ref()
        } else if self.config.wakatime.show_total {
            stats.human_readable_total.as_ref()
        } else {
            None
        };
        match total {
            Some(t) => {
                let mut out = "Total Time: ".to_owned();
                out.append(t.as_str());
                out.append("\n\n");
                out
            },
            None => String::new(),
        }
    }

    /// Renders the statistics.  Rendering does not fail.
    pub fn render(&self, stats: &WakaStats) -> (r: Result<String, Error>)
        ensures
            r matches Ok(text) && text@ == self.rendered(*stats),
    {
        let mut out = CODE_FENCE.to_owned();
        out.append(self.config.wakatime.code_lang.as_str());
        out.append("\n");
        if self.config.wakatime.show_title {
            let title = self.render_title(stats);
            out.append(title.as_str());
        }
        if self.config.wakatime.show_masked_time || self.config.wakatime.show_total {
            let total = self.render_total_time(stats);
            out.append(total.as_str());
        }
        let lines = self.render_languages(stats);
        out.append(lines.as_str());
        out.append(CODE_FENCE);
        assert(out@ =~= self.rendered(*stats));
        Ok(out)
    }
}

/// Appends a share given in hundredths of a percent.
pub fn push_percent(out: &mut String, percent: u32)
    ensures
        final(out)@ == old(out)@ + percent_text(percent as nat),
{
    push_two_digits(out, (percent / 100) as u64);
    out.push('.');
    push_two_digits(out, (percent % 100) as u64);
    assert(out@ =~= old(out)@ + percent_text(percent as nat));
}

/// The date of an RFC 3339 instant as a title shows it.
pub fn date_for_title(text: &str) -> (r: String)
    ensures
        r@ == title_date(text@),
{
    match parse_rfc3339(text) {
        Some((secs, offset)) => match format_time(secs, offset, TITLE_DATE_FORMAT) {
            Some(t) => t,
            None => "Unknown".to_owned(),
        },
        None => "Unknown".to_owned(),
    }
}

} // verus!
