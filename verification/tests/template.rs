use readme_patcher::config::{Config, WakaTimeConfig, WakaTimeRange};
use readme_patcher::template::{Language, Template, WakaStats};

fn config() -> Config {
    Config {
        wakatime: WakaTimeConfig {
            show_title: false,
            section_name: "waka".to_string(),
            blocks: "░▒▓█".to_string(),
            code_lang: "text".to_string(),
            time_range: WakaTimeRange::Last7Days,
            lang_count: 0,
            show_time: true,
            show_total: false,
            show_masked_time: false,
            stop_at_other: false,
            ignored_languages: None,
        },
    }
}

fn language(name: &str, text: &str, percent: u32) -> Language {
    Language { name: name.to_string(), text: text.to_string(), percent }
}

fn stats(languages: Vec<Language>) -> WakaStats {
    WakaStats {
        start: "2025-01-01T00:00:00Z".to_string(),
        end: "2025-01-07T23:59:59+02:00".to_string(),
        languages,
        human_readable_total: Some("12 hrs 5 mins".to_string()),
        human_readable_total_including_other_language: Some("13 hrs".to_string()),
        total_seconds: 43500,
        total_seconds_including_other_language: 46800,
    }
}

fn three() -> Vec<Language> {
    vec![
        language("Rust", "10 hrs 5 mins", 6543),
        language("Python", "2 hrs", 2000),
        language("Other", "1 hr", 1457),
    ]
}

fn bar(full: usize, part: &str) -> String {
    let used = full + part.chars().count();
    format!("{}{}{}", "█".repeat(full), part, "░".repeat(25 - used))
}

#[test]
fn bar_of_nothing_is_all_empty() {
    assert_eq!(Template::new(config()).make_graph(0), "░".repeat(25));
}

#[test]
fn bar_of_everything_is_all_full() {
    assert_eq!(Template::new(config()).make_graph(10_000), "█".repeat(25));
}

#[test]
fn bar_of_one_half_has_twelve_full_cells() {
    let graph = Template::new(config()).make_graph(5_000);
    assert_eq!(graph, bar(12, "▓"));
    assert_eq!(graph.chars().filter(|c| *c == '█').count(), 12);
    assert_eq!(graph.chars().count(), 25);
}

#[test]
fn bar_rounds_to_thirds_of_a_cell() {
    let template = Template::new(config());
    // a cell is 4 %; a third of a cell is 1.33 %, and half of that 0.67 %
    assert_eq!(template.make_graph(66), bar(0, ""));
    assert_eq!(template.make_graph(67), bar(0, "▒"));
    assert_eq!(template.make_graph(100), bar(0, "▒"));
    assert_eq!(template.make_graph(199), bar(0, "▒"));
    assert_eq!(template.make_graph(200), bar(0, "▓"));
    assert_eq!(template.make_graph(333), bar(0, "▓"));
    assert_eq!(template.make_graph(334), bar(1, ""));
    assert_eq!(template.make_graph(400), bar(1, ""));
    assert_eq!(template.make_graph(3_333), bar(8, "▒"));
    assert_eq!(template.make_graph(9_933), bar(24, "▓"));
    assert_eq!(template.make_graph(9_934), bar(25, ""));
}

#[test]
fn bar_is_capped_at_one_hundred_percent() {
    let template = Template::new(config());
    assert_eq!(template.make_graph(10_001), "█".repeat(25));
    assert_eq!(template.make_graph(u32::MAX), "█".repeat(25));
}

#[test]
fn bar_needs_four_glyphs() {
    for blocks in ["", "░▒▓", "░▒▓██", "abcde"] {
        let mut c = config();
        c.wakatime.blocks = blocks.to_string();
        let template = Template::new(c);
        assert_eq!(template.make_graph(5_000), "Invalid blocks configuration");
    }
}

#[test]
fn bar_draws_with_any_four_glyphs() {
    let mut c = config();
    c.wakatime.blocks = ".-=#".to_string();
    assert_eq!(Template::new(c).make_graph(1_457), "###=.....................");
}

#[test]
fn invalid_glyphs_still_render_a_document() {
    let mut c = config();
    c.wakatime.blocks = "ab".to_string();
    let text = Template::new(c).render(&stats(vec![language("Rust", "1 hr", 10_000)])).unwrap();
    assert_eq!(text, "```text\nRust   1 hr            Invalid blocks configuration   100.00 %\n```");
}

#[test]
fn languages_are_rendered_in_their_order() {
    let text = Template::new(config()).render_languages(&stats(three()));
    let expected = format!(
        "Rust     10 hrs 5 mins   {}   65.43 %\nPython   2 hrs           {}   20.00 %\nOther    1 hr            {}   14.57 %\n",
        bar(16, "▒"),
        bar(5, ""),
        bar(3, "▓"),
    );
    assert_eq!(text, expected);
}

#[test]
fn percentages_have_two_decimals_and_five_characters() {
    let languages = vec![
        language("a", "", 0),
        language("b", "", 5),
        language("c", "", 550),
        language("d", "", 999),
        language("e", "", 1_000),
        language("f", "", 10_000),
        language("g", "", 123_456),
    ];
    let text = Template::new(config()).render_languages(&stats(languages));
    let ends: Vec<&str> = text.lines().map(|l| l.rsplit("   ").next().unwrap()).collect();
    assert_eq!(
        ends,
        vec!["00.00 %", "00.05 %", "05.50 %", "09.99 %", "10.00 %", "100.00 %", "1234.56 %"]
    );
}

#[test]
fn time_is_left_out_on_request() {
    let mut c = config();
    c.wakatime.show_time = false;
    let text = Template::new(c).render_languages(&stats(vec![language("Go", "3 hrs", 2_000)]));
    assert_eq!(text, format!("Go   {}{}   20.00 %\n", " ".repeat(16), bar(5, "")));
}

#[test]
fn max_items_limits_the_list() {
    let mut c = config();
    c.wakatime.lang_count = 2;
    let text = Template::new(c).render_languages(&stats(three()));
    assert_eq!(text.lines().count(), 2);
    assert!(text.lines().nth(1).unwrap().starts_with("Python"));
}

#[test]
fn zero_or_negative_max_items_lists_all() {
    for count in [0, -1, i32::MIN] {
        let mut c = config();
        c.wakatime.lang_count = count;
        assert_eq!(Template::new(c).render_languages(&stats(three())).lines().count(), 3);
    }
}

#[test]
fn ignored_items_do_not_count_toward_max_items() {
    let mut c = config();
    c.wakatime.lang_count = 2;
    c.wakatime.ignored_languages = Some(" Rust\tYAML \n".to_string());
    let template = Template::new(c);
    assert_eq!(template.ignored_langs, vec!["Rust".to_string(), "YAML".to_string()]);
    let text = template.render_languages(&stats(three()));
    let names: Vec<&str> = text.lines().map(|l| l.split(' ').next().unwrap()).collect();
    assert_eq!(names, vec!["Python", "Other"]);
    // the name column is as wide as the longest name, ignored or not
    assert!(text.starts_with("Python   2 hrs"));
}

#[test]
fn ignored_items_match_exactly() {
    let mut c = config();
    c.wakatime.ignored_languages = Some("rust Pytho Other2".to_string());
    assert_eq!(Template::new(c).render_languages(&stats(three())).lines().count(), 3);
}

#[test]
fn list_stops_after_other() {
    let mut c = config();
    c.wakatime.stop_at_other = true;
    let languages = vec![
        language("Rust", "", 5_000),
        language("Other", "", 3_000),
        language("Go", "", 2_000),
    ];
    let text = Template::new(c).render_languages(&stats(languages));
    let names: Vec<&str> = text.lines().map(|l| l.split(' ').next().unwrap()).collect();
    assert_eq!(names, vec!["Rust", "Other"]);
}

#[test]
fn ignored_other_does_not_stop_the_list() {
    let mut c = config();
    c.wakatime.stop_at_other = true;
    c.wakatime.ignored_languages = Some("Other".to_string());
    let languages = vec![language("Other", "", 3_000), language("Go", "", 2_000)];
    let text = Template::new(c).render_languages(&stats(languages));
    assert!(text.starts_with("Go "));
    assert_eq!(text.lines().count(), 1);
}

#[test]
fn name_column_is_as_wide_as_the_longest_name_in_bytes() {
    let languages = vec![language("Ünï", "", 0), language("ab", "", 0)];
    let text = Template::new(config()).render_languages(&stats(languages));
    // "Ünï" has 3 characters and 5 bytes: the column is 5 wide
    let first = text.lines().next().unwrap();
    assert!(first.starts_with("Ünï     "));
    assert_eq!(first.chars().count(), 5 + 3 + 16 + 25 + 3 + 5 + 2);
    assert!(text.lines().nth(1).unwrap().starts_with("ab      "));
}

#[test]
fn title_shows_the_days() {
    let text = Template::new(config()).render_title(&stats(vec![]));
    assert_eq!(text, "From: 01 January 2025 - To: 07 January 2025\n\n");
}

#[test]
fn title_shows_unknown_for_what_is_no_instant() {
    let mut s = stats(vec![]);
    s.start = "yesterday".to_string();
    s.end = "".to_string();
    assert_eq!(Template::new(config()).render_title(&s), "From: Unknown - To: Unknown\n\n");
}

#[test]
fn masked_total_wins_over_total() {
    let mut c = config();
    c.wakatime.show_total = true;
    c.wakatime.show_masked_time = true;
    assert_eq!(Template::new(c).render_total_time(&stats(vec![])), "Total Time: 13 hrs\n\n");
}

#[test]
fn total_is_shown_on_request() {
    let mut c = config();
    c.wakatime.show_total = true;
    assert_eq!(
        Template::new(c).render_total_time(&stats(vec![])),
        "Total Time: 12 hrs 5 mins\n\n"
    );
}

#[test]
fn missing_masked_total_shows_nothing() {
    let mut c = config();
    c.wakatime.show_total = true;
    c.wakatime.show_masked_time = true;
    let mut s = stats(vec![]);
    s.human_readable_total_including_other_language = None;
    assert_eq!(Template::new(c).render_total_time(&s), "");
}

#[test]
fn no_total_is_shown_unasked() {
    assert_eq!(Template::new(config()).render_total_time(&stats(vec![])), "");
}

#[test]
fn render_puts_everything_inside_a_fence() {
    let mut c = config();
    c.wakatime.show_title = true;
    c.wakatime.show_total = true;
    c.wakatime.code_lang = "txt".to_string();
    let text = Template::new(c).render(&stats(vec![language("Rust", "1 hr", 10_000)])).unwrap();
    assert_eq!(
        text,
        format!(
            "```txt\nFrom: 01 January 2025 - To: 07 January 2025\n\nTotal Time: 12 hrs 5 mins\n\nRust   1 hr            {}   100.00 %\n```",
            "█".repeat(25)
        )
    );
}

#[test]
fn render_of_nothing_is_an_empty_fence() {
    assert_eq!(Template::new(config()).render(&stats(vec![])).unwrap(), "```text\n```");
}

#[test]
fn time_range_is_spelled_as_the_service_does() {
    assert_eq!(WakaTimeRange::Last7Days.as_str(), "last_7_days");
    assert_eq!(WakaTimeRange::Last30Days.as_str(), "last_30_days");
    assert_eq!(WakaTimeRange::Last6Months.as_str(), "last_6_months");
    assert_eq!(WakaTimeRange::LastYear.as_str(), "last_year");
    assert_eq!(WakaTimeRange::AllTime.as_str(), "all_time");
}
