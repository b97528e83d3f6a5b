use readme_patcher::dotenv::{strip, Dotenv, Strip};
use readme_patcher::error::Error;

fn pair(key: &str, value: &str) -> Result<(String, String), String> {
    Ok((key.to_string(), value.to_string()))
}

fn lines(text: &[&str]) -> Vec<String> {
    text.iter().map(|l| l.to_string()).collect()
}

#[test]
fn new_dotenv_holds_nothing() {
    let d = Dotenv::new();
    assert_eq!(d.get("HOME"), None);
    assert!(d.entries().is_empty());
}

#[test]
fn line_is_split_at_the_first_equals_sign() {
    let d = Dotenv::new();
    assert_eq!(d.parse_line("KEY=value"), pair("KEY", "value"));
    assert_eq!(d.parse_line("A=b=c"), pair("A", "b=c"));
    assert_eq!(d.parse_line("A="), pair("A", ""));
    assert_eq!(d.parse_line("  SPACED \t=  some value  "), pair("SPACED", "some value"));
}

#[test]
fn quotes_around_a_value_are_dropped() {
    let d = Dotenv::new();
    assert_eq!(d.parse_line("A=\"quoted value\""), pair("A", "quoted value"));
    assert_eq!(d.parse_line("A='single'"), pair("A", "single"));
    assert_eq!(d.parse_line("A=\"'both'\""), pair("A", "both"));
    assert_eq!(d.parse_line("A='\"inner\"'"), pair("A", "\"inner\""));
    assert_eq!(d.parse_line("A=\"\"\"x\"\""), pair("A", "x"));
    assert_eq!(d.parse_line("A=\"\""), pair("A", ""));
    assert_eq!(d.parse_line("A=say \"hi\" now"), pair("A", "say \"hi\" now"));
    assert_eq!(d.parse_line("A=\" padded \""), pair("A", " padded "));
}

#[test]
fn line_without_equals_sign_is_a_fault() {
    let d = Dotenv::new();
    assert_eq!(d.parse_line("novalue"), Err("Invalid format: missing '='".to_string()));
    assert_eq!(d.parse_line(""), Err("Invalid format: missing '='".to_string()));
}

#[test]
fn line_without_key_is_a_fault() {
    let d = Dotenv::new();
    assert_eq!(d.parse_line("=value"), Err("Empty key".to_string()));
    assert_eq!(d.parse_line("  \t = value"), Err("Empty key".to_string()));
}

#[test]
fn strip_takes_from_both_ends_only() {
    let chars: Vec<char> = "xxaxbxx".chars().collect();
    assert_eq!(strip(&chars, Strip::Char('x')), "axb".chars().collect::<Vec<char>>());
    assert_eq!(strip(&chars, Strip::Char('y')), chars);
    let all: Vec<char> = "xxx".chars().collect();
    assert_eq!(strip(&all, Strip::Char('x')), Vec::<char>::new());
    let spaced: Vec<char> = "\u{2003} a b\u{00a0}\n".chars().collect();
    assert_eq!(strip(&spaced, Strip::WhiteSpace), "a b".chars().collect::<Vec<char>>());
}

#[test]
fn later_value_replaces_an_earlier_one() {
    let mut d = Dotenv::new();
    d.insert("A".to_string(), "1".to_string());
    d.insert("B".to_string(), "2".to_string());
    d.insert("A".to_string(), "3".to_string());
    assert_eq!(d.get("A"), Some(&"3".to_string()));
    assert_eq!(d.get("B"), Some(&"2".to_string()));
    assert_eq!(d.get("a"), None);
}

#[test]
fn lines_of_a_file_are_read() {
    let mut d = Dotenv::new();
    let r = d.load_lines(&lines(&[
        "# settings",
        "",
        "   ",
        "OPENWEATHER_API_KEY = abc123",
        "  # indented comment",
        "TELEGRAM_CHAT_ID=\"-100\"\r",
        "OPENWEATHER_API_KEY=xyz",
    ]));
    assert!(r.is_ok());
    assert_eq!(d.get("OPENWEATHER_API_KEY"), Some(&"xyz".to_string()));
    assert_eq!(d.get("TELEGRAM_CHAT_ID"), Some(&"-100".to_string()));
    assert_eq!(d.get("# settings"), None);
}

#[test]
fn reading_stops_at_the_first_fault() {
    let mut d = Dotenv::new();
    let r = d.load_lines(&lines(&["A=1", "# note", "oops", "B=2"]));
    match r {
        Err(Error::ConfigError(detail)) => {
            assert_eq!(detail, "Error on line 3: Invalid format: missing '='")
        },
        other => panic!("{:?}", other),
    }
    assert_eq!(d.get("A"), Some(&"1".to_string()));
    assert_eq!(d.get("B"), None);
}

#[test]
fn fault_names_the_line_of_the_empty_key() {
    let mut d = Dotenv::new();
    match d.load_lines(&lines(&[" = x"])) {
        Err(Error::ConfigError(detail)) => assert_eq!(detail, "Error on line 1: Empty key"),
        other => panic!("{:?}", other),
    }
}

#[test]
fn no_lines_set_nothing() {
    let mut d = Dotenv::new();
    d.insert("A".to_string(), "1".to_string());
    assert!(d.load_lines(&Vec::new()).is_ok());
    assert_eq!(d.get("A"), Some(&"1".to_string()));
    assert_eq!(d.entries().len(), 1);
}
