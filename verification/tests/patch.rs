use readme_patcher::error::Error;
use readme_patcher::patch::{
    contents_equal, normalize, patch_document, plan_cycle, replace_body, CyclePlan, Outcome,
};
use readme_patcher::section::{locate, query_target, LocateError, TargetSource};

const NOON: i64 = 1738326645; // 2025-01-31 12:30:45 UTC

fn updated(outcome: Outcome) -> (readme_patcher::patch::UpdateResult, Vec<u8>) {
    match outcome {
        Outcome::Updated(result, document) => (result, document),
        other => panic!("not updated: {:?}", other),
    }
}

#[test]
fn patch_rewrites_the_section_and_stamps_it() {
    let doc = b"intro\n<!--START_SECTION:waka-->\nold\n<!--END_SECTION:waka-->\noutro";
    let (result, document) = updated(patch_document(doc, b"waka", "NEW", NOON).unwrap());
    assert_eq!(
        String::from_utf8(document).unwrap(),
        "intro\n<!--START_SECTION:waka-->\n<!--LAST_UPDATE:2025-01-31 12:30:45-->\nNEW\n<!--END_SECTION:waka-->\noutro"
    );
    assert!(result.was_updated);
    assert_eq!(result.stats, "NEW");
    assert_eq!(result.last_update, None);
    assert_eq!(result.current_update, NOON);
}

#[test]
fn patch_reports_the_previous_time_stamp() {
    let doc = b"<!--START_SECTION:waka-->\n<!--LAST_UPDATE:2025-01-31 12:30:45-->\nold\n<!--END_SECTION:waka-->";
    let (result, document) = updated(patch_document(doc, b"waka", "new", NOON + 60).unwrap());
    assert_eq!(result.last_update, Some(NOON));
    assert_eq!(result.current_update, NOON + 60);
    assert_eq!(
        String::from_utf8(document).unwrap(),
        "<!--START_SECTION:waka-->\n<!--LAST_UPDATE:2025-01-31 12:31:45-->\nnew\n<!--END_SECTION:waka-->"
    );
}

#[test]
fn patching_twice_with_the_same_content_changes_nothing() {
    let doc = b"# Me\n<!--START_SECTION:waka-->\n<!--END_SECTION:waka-->\nbye\n";
    let body = "```text\nRust   10 hrs\nGo     2 hrs\n```";
    let (_, once) = updated(patch_document(doc, b"waka", body, NOON).unwrap());
    match patch_document(&once, b"waka", body, NOON + 3600).unwrap() {
        Outcome::Unchanged(result) => {
            assert!(!result.was_updated);
            assert_eq!(result.last_update, Some(NOON));
            assert_eq!(result.current_update, NOON + 3600);
            assert_eq!(result.stats, body);
        },
        other => panic!("second patch: {:?}", other),
    }
}

#[test]
fn patching_twice_is_idempotent_with_a_declared_target() {
    let doc = "x<!--START_SECTION:weather: Oslo -->stale<!--END_SECTION:weather-->y";
    let body = "Currently in **Oslo**<br/>\nOn *January 31, 2025*";
    let (_, once) = updated(patch_document(doc.as_bytes(), b"weather", body, NOON).unwrap());
    assert_eq!(
        String::from_utf8(once.clone()).unwrap(),
        "x<!--START_SECTION:weather: Oslo -->\n<!--LAST_UPDATE:2025-01-31 12:30:45-->\nCurrently in **Oslo**<br/>\nOn *January 31, 2025*\n<!--END_SECTION:weather-->y"
    );
    let again = patch_document(&once, b"weather", body, NOON + 1).unwrap();
    assert!(matches!(again, Outcome::Unchanged(_)));
    assert!(!again.was_updated());
}

#[test]
fn patch_preserves_everything_outside_the_section() {
    let before = "\u{feff}# Title\r\n\r\n<!--START_SECTION:other-->keep<!--END_SECTION:other-->\n";
    let after = "\n<!--START_SECTION:waka-->second<!--END_SECTION:waka-->\n\ttrailing \u{2603}\n";
    let doc = format!("{}<!--START_SECTION:waka-->first<!--END_SECTION:waka-->{}", before, after);
    let (_, document) = updated(patch_document(doc.as_bytes(), b"waka", "fresh", NOON).unwrap());
    let text = String::from_utf8(document).unwrap();
    assert!(text.starts_with(before));
    assert!(text.ends_with(after));
    assert_eq!(
        text,
        format!(
            "{}<!--START_SECTION:waka-->\n<!--LAST_UPDATE:2025-01-31 12:30:45-->\nfresh\n<!--END_SECTION:waka-->{}",
            before, after
        )
    );
}

#[test]
fn patch_preserves_bytes_that_are_not_text() {
    let mut doc = vec![0xff, 0x00, 0xfe];
    doc.extend_from_slice(b"<!--START_SECTION:s-->a<!--END_SECTION:s-->");
    doc.extend_from_slice(&[0x80, 0x81]);
    let (_, document) = updated(patch_document(&doc, b"s", "b", 0).unwrap());
    assert_eq!(&document[..3], &[0xff, 0x00, 0xfe]);
    assert_eq!(&document[document.len() - 2..], &[0x80, 0x81]);
    assert_eq!(
        &document[3..document.len() - 2],
        &b"<!--START_SECTION:s-->\n<!--LAST_UPDATE:1970-01-01 00:00:00-->\nb\n<!--END_SECTION:s-->"[..]
    );
}

#[test]
fn document_without_the_section_is_skipped() {
    let doc = b"# Readme\n\nNothing to see.\n<!--START_SECTION:waka-->x<!--END_SECTION:waka-->";
    let outcome = patch_document(doc, b"weather", "sunny", NOON).unwrap();
    assert!(matches!(outcome, Outcome::Skipped));
    assert!(!outcome.was_updated());
}

#[test]
fn document_with_only_a_longer_name_is_skipped() {
    let doc = b"<!--START_SECTION:wakatime-->x<!--END_SECTION:wakatime-->\n<!--END_SECTION:waka-->";
    let outcome = patch_document(doc, b"waka", "stats", NOON).unwrap();
    assert!(matches!(outcome, Outcome::Skipped));
    assert!(matches!(
        plan_cycle(doc, b"waka", &TargetSource::Configured("last_7_days".to_string())).unwrap(),
        CyclePlan::Skip
    ));
}

#[test]
fn section_after_a_longer_name_is_patched_in_place() {
    let other = "<!--START_SECTION:wakatime-->x<!--END_SECTION:wakatime-->\n";
    let doc = format!("{}<!--START_SECTION:waka-->old<!--END_SECTION:waka-->!", other);
    let (_, document) = updated(patch_document(doc.as_bytes(), b"waka", "new", NOON).unwrap());
    assert_eq!(
        String::from_utf8(document).unwrap(),
        format!(
            "{}<!--START_SECTION:waka-->\n<!--LAST_UPDATE:2025-01-31 12:30:45-->\nnew\n<!--END_SECTION:waka-->!",
            other
        )
    );
}

#[test]
fn only_the_span_up_to_the_first_end_marker_is_replaced() {
    let doc = b"a<!--START_SECTION:s-->x<!--END_SECTION:s-->y<!--END_SECTION:s-->z";
    let (_, document) = updated(patch_document(doc, b"s", "new", 0).unwrap());
    assert_eq!(
        String::from_utf8(document).unwrap(),
        "a<!--START_SECTION:s-->\n<!--LAST_UPDATE:1970-01-01 00:00:00-->\nnew\n<!--END_SECTION:s-->y<!--END_SECTION:s-->z"
    );
}

#[test]
fn section_without_end_marker_is_skipped() {
    let doc = b"<!--START_SECTION:weather:Rome-->\nno end";
    assert!(matches!(patch_document(doc, b"weather", "sunny", NOON).unwrap(), Outcome::Skipped));
}

#[test]
fn patch_fails_on_an_empty_target() {
    let doc = b"<!--START_SECTION:weather:-->...<!--END_SECTION:weather-->";
    match patch_document(doc, b"weather", "sunny", NOON) {
        Err(Error::MissingCityInSection) => {},
        other => panic!("{:?}", other),
    }
}

#[test]
fn patch_fails_on_a_malformed_marker() {
    let doc = b"<!--START_SECTION:weather:Rome\n<!--END_SECTION:weather";
    match patch_document(doc, b"weather", "sunny", NOON) {
        Err(Error::ParseError(detail)) => assert_eq!(detail, "Malformed section marker"),
        other => panic!("{:?}", other),
    }
}

#[test]
fn patch_fails_without_a_representable_instant() {
    let doc = b"<!--START_SECTION:s-->a<!--END_SECTION:s-->";
    match patch_document(doc, b"s", "b", i64::MAX) {
        Err(Error::ConfigError(detail)) => assert_eq!(detail, "Time stamp out of range"),
        other => panic!("{:?}", other),
    }
}

#[test]
fn unchanged_content_needs_no_instant() {
    let doc = b"<!--START_SECTION:s-->\n  a  \n<!--END_SECTION:s-->";
    assert!(matches!(patch_document(doc, b"s", "a", i64::MAX).unwrap(), Outcome::Unchanged(_)));
}

#[test]
fn normal_form_drops_blank_lines_fences_and_the_time_stamp() {
    let body = b"\n<!--LAST_UPDATE:2025-01-31 12:30:45-->\n```text\n  Rust   10 hrs  \r\n\n\tGo 2 hrs\n```\n";
    assert_eq!(normalize(body), vec![b"Rust   10 hrs".to_vec(), b"Go 2 hrs".to_vec()]);
}

#[test]
fn normal_form_keeps_other_comments() {
    assert_eq!(
        normalize(b"<!-- note -->\n<!--LAST_UPDATE:x\nx-->"),
        vec![b"<!-- note -->".to_vec(), b"<!--LAST_UPDATE:x".to_vec(), b"x-->".to_vec()]
    );
}

#[test]
fn normal_form_of_nothing_is_empty() {
    assert_eq!(normalize(b""), Vec::<Vec<u8>>::new());
    assert_eq!(normalize(b" \n\t\n```"), Vec::<Vec<u8>>::new());
}

#[test]
fn contents_are_compared_in_normal_form() {
    assert!(contents_equal(b"a\nb", b"  a \n\n```\nb\n```\n"));
    assert!(contents_equal(b"", b"\n\n"));
    assert!(!contents_equal(b"a\nb", b"b\na"));
    assert!(!contents_equal(b"a\nb", b"a b"));
    assert!(!contents_equal(b"a", b"a\nb"));
    assert!(!contents_equal(b"a", b"A"));
}

#[test]
fn fenced_content_equals_bare_content() {
    let doc = b"<!--START_SECTION:s-->\n```text\nRust 100 %\n```\n<!--END_SECTION:s-->";
    assert!(matches!(patch_document(doc, b"s", "Rust 100 %", NOON).unwrap(), Outcome::Unchanged(_)));
}

#[test]
fn content_with_the_end_marker_is_rewritten_each_time() {
    let doc = b"<!--START_SECTION:s-->a<!--END_SECTION:s-->";
    let body = "<!--END_SECTION:s-->\nfoo";
    let (_, once) = updated(patch_document(doc, b"s", body, NOON).unwrap());
    assert!(matches!(patch_document(&once, b"s", body, NOON).unwrap(), Outcome::Updated(_, _)));
}

#[test]
fn replace_body_splices_between_the_markers() {
    let doc = b"A<!--START_SECTION:s:t-->old<!--END_SECTION:s-->B";
    let section = locate(doc, b"s").unwrap();
    let out = replace_body(doc, &section, b"STAMP", b"line 1\nline 2");
    assert_eq!(
        String::from_utf8(out).unwrap(),
        "A<!--START_SECTION:s:t-->\n<!--LAST_UPDATE:STAMP-->\nline 1\nline 2\n<!--END_SECTION:s-->B"
    );
}

#[test]
fn a_written_target_is_recovered() {
    for target in ["Berlin", "São Paulo", "a-", "x--", "->", ">", "New  York", "::"] {
        let doc = format!(
            "<!--START_SECTION:weather:{}-->\n<!--LAST_UPDATE:2025-01-31 12:30:45-->\nbody\n<!--END_SECTION:weather-->",
            target
        );
        let section = locate(doc.as_bytes(), b"weather").unwrap();
        assert_eq!(section.target_id, Some(target.as_bytes().to_vec()));
        assert_eq!(section.last_update, Some(NOON));
    }
}

#[test]
fn cycle_is_skipped_without_the_section() {
    let plan = plan_cycle(b"no markers", b"weather", &TargetSource::Document).unwrap();
    assert!(matches!(plan, CyclePlan::Skip));
}

#[test]
fn cycle_fetches_for_the_declared_target() {
    let doc = b"<!--START_SECTION:weather: Lima --><!--END_SECTION:weather-->";
    match plan_cycle(doc, b"weather", &TargetSource::Document).unwrap() {
        CyclePlan::Fetch(target) => assert_eq!(target, b"Lima".to_vec()),
        other => panic!("{:?}", other),
    }
}

#[test]
fn cycle_fetches_for_the_configured_target() {
    let doc = b"<!--START_SECTION:waka--><!--END_SECTION:waka-->";
    let source = TargetSource::Configured("last_7_days".to_string());
    match plan_cycle(doc, b"waka", &source).unwrap() {
        CyclePlan::Fetch(target) => assert_eq!(target, b"last_7_days".to_vec()),
        other => panic!("{:?}", other),
    }
}

#[test]
fn cycle_fails_without_a_declared_target() {
    let doc = b"<!--START_SECTION:weather--><!--END_SECTION:weather-->";
    match plan_cycle(doc, b"weather", &TargetSource::Document) {
        Err(Error::MissingCityInSection) => {},
        other => panic!("{:?}", other),
    }
    let section = locate(doc, b"weather").unwrap();
    assert_eq!(
        query_target(&section, &TargetSource::Document),
        Err(LocateError::MissingTargetIdentifier)
    );
}

#[test]
fn cycle_fails_on_a_malformed_marker() {
    match plan_cycle(b"<!--START_SECTION:weather:", b"weather", &TargetSource::Document) {
        Err(Error::ParseError(detail)) => assert_eq!(detail, "Malformed section marker"),
        other => panic!("{:?}", other),
    }
}
