use readme_patcher::section::{find_start, locate, LocateError};

#[test]
fn locates_a_section_with_a_declared_target() {
    let doc = b"intro\n<!--START_SECTION:weather:Berlin-->\nold\n<!--END_SECTION:weather-->\noutro";
    let section = locate(doc, b"weather").expect("section");
    assert_eq!(section.start_offset, 6);
    assert_eq!(section.content_offset, 6 + "<!--START_SECTION:weather:Berlin-->".len());
    assert_eq!(section.end_offset, doc.len() - "<!--END_SECTION:weather-->\noutro".len());
    assert_eq!(section.target_id, Some(b"Berlin".to_vec()));
    assert_eq!(section.last_update, None);
}

#[test]
fn locates_a_section_without_a_target() {
    let doc = b"<!--START_SECTION:waka-->\nbody\n<!--END_SECTION:waka-->";
    let section = locate(doc, b"waka").expect("section");
    assert_eq!(section.start_offset, 0);
    assert_eq!(section.content_offset, 25);
    assert_eq!(section.end_offset, 31);
    assert_eq!(section.target_id, None);
}

#[test]
fn trims_the_declared_target() {
    let doc = b"<!--START_SECTION:weather:  New York \t-->x<!--END_SECTION:weather-->";
    let section = locate(doc, b"weather").expect("section");
    assert_eq!(section.target_id, Some(b"New York".to_vec()));
}

#[test]
fn trims_white_space_beyond_ascii_from_the_target() {
    let doc = "<!--START_SECTION:weather:\u{00a0}\u{3000}Köln\u{2003}\u{0085}-->x<!--END_SECTION:weather-->";
    let section = locate(doc.as_bytes(), b"weather").expect("section");
    assert_eq!(section.target_id, Some("Köln".as_bytes().to_vec()));
}

#[test]
fn missing_start_marker_is_not_found() {
    let doc = b"# Title\n\nNo markers here.\n<!--END_SECTION:weather-->";
    assert_eq!(locate(doc, b"weather").unwrap_err(), LocateError::SectionNotFound);
}

#[test]
fn missing_end_marker_is_not_found() {
    let doc = b"<!--START_SECTION:weather:Berlin-->\nbody";
    assert_eq!(locate(doc, b"weather").unwrap_err(), LocateError::SectionNotFound);
}

#[test]
fn end_marker_before_the_start_marker_does_not_count() {
    let doc = b"<!--END_SECTION:weather--><!--START_SECTION:weather:Berlin-->";
    assert_eq!(locate(doc, b"weather").unwrap_err(), LocateError::SectionNotFound);
}

#[test]
fn unclosed_start_marker_is_malformed() {
    let doc = b"<!--START_SECTION:weather:Berlin";
    assert_eq!(locate(doc, b"weather").unwrap_err(), LocateError::MalformedMarker);
}

#[test]
fn unclosed_target_is_malformed_even_before_a_whole_marker() {
    let doc = b"<!--START_SECTION:weather:Berlin <!--START_SECTION:weather--";
    assert_eq!(locate(doc, b"weather").unwrap_err(), LocateError::MalformedMarker);
}

#[test]
fn longer_name_is_the_marker_of_another_section() {
    let doc = b"<!--START_SECTION:weather2-->x<!--END_SECTION:weather-->";
    assert_eq!(locate(doc, b"weather").unwrap_err(), LocateError::SectionNotFound);
    let doc = b"<!--START_SECTION:weather Rome-->x<!--END_SECTION:weather-->";
    assert_eq!(locate(doc, b"weather").unwrap_err(), LocateError::SectionNotFound);
    let doc = b"<!--START_SECTION:weather";
    assert_eq!(locate(doc, b"weather").unwrap_err(), LocateError::SectionNotFound);
    let doc = b"<!--START_SECTION:weather--";
    assert_eq!(locate(doc, b"weather").unwrap_err(), LocateError::SectionNotFound);
}

#[test]
fn marker_of_a_longer_name_is_passed_over() {
    let other = "<!--START_SECTION:wakatime-->
other
<!--END_SECTION:wakatime-->
";
    let doc = format!("{}<!--START_SECTION:waka-->
mine
<!--END_SECTION:waka-->", other);
    let section = locate(doc.as_bytes(), b"waka").expect("section");
    assert_eq!(section.start_offset, other.len());
    assert_eq!(section.content_offset, other.len() + "<!--START_SECTION:waka-->".len());
    assert_eq!(section.end_offset, doc.len() - "<!--END_SECTION:waka-->".len());
    assert_eq!(section.target_id, None);
    let longer = locate(doc.as_bytes(), b"wakatime").expect("section");
    assert_eq!(longer.start_offset, 0);
    assert_eq!(longer.end_offset, "<!--START_SECTION:wakatime-->
other
".len());
}

#[test]
fn whichever_form_of_the_start_marker_comes_first_is_used() {
    let doc = b"<!--START_SECTION:s-->a<!--START_SECTION:s:t-->b<!--END_SECTION:s-->";
    let section = locate(doc, b"s").expect("section");
    assert_eq!(section.start_offset, 0);
    assert_eq!(section.target_id, None);
    let doc = b"x<!--START_SECTION:s:t-->a<!--START_SECTION:s-->b<!--END_SECTION:s-->";
    let section = locate(doc, b"s").expect("section");
    assert_eq!(section.start_offset, 1);
    assert_eq!(section.target_id, Some(b"t".to_vec()));
    assert_eq!(find_start(doc, b"s"), Some(1));
    assert_eq!(find_start(doc, b"t"), None);
    assert_eq!(find_start(b"<!--START_SECTION:st--><!--START_SECTION:s-->", b"s"), Some(23));
}

#[test]
fn empty_target_is_missing_target_identifier() {
    let doc = b"<!--START_SECTION:weather:-->...<!--END_SECTION:weather-->";
    assert_eq!(locate(doc, b"weather").unwrap_err(), LocateError::MissingTargetIdentifier);
}

#[test]
fn blank_target_is_missing_target_identifier() {
    let doc = b"<!--START_SECTION:weather:   -->...<!--END_SECTION:weather-->";
    assert_eq!(locate(doc, b"weather").unwrap_err(), LocateError::MissingTargetIdentifier);
}

#[test]
fn only_the_first_pair_of_markers_is_used() {
    let one = "<!--START_SECTION:weather:Berlin-->a<!--END_SECTION:weather-->";
    let two = "<!--START_SECTION:weather:Paris-->b<!--END_SECTION:weather-->";
    let doc = format!("{}\n{}", one, two);
    let section = locate(doc.as_bytes(), b"weather").expect("section");
    assert_eq!(section.start_offset, 0);
    assert_eq!(section.end_offset, one.len() - "<!--END_SECTION:weather-->".len());
    assert_eq!(section.target_id, Some(b"Berlin".to_vec()));
}

#[test]
fn reads_the_time_stamp_inside_the_section() {
    let doc = b"<!--START_SECTION:waka-->\n<!--LAST_UPDATE:2025-01-31 12:30:45-->\nbody\n<!--END_SECTION:waka-->";
    let section = locate(doc, b"waka").expect("section");
    assert_eq!(section.last_update, Some(1738326645));
}

#[test]
fn reads_a_time_stamp_with_blanks_around_it() {
    let doc = b"<!--START_SECTION:waka--><!--LAST_UPDATE:  1970-01-01 00:00:10  --><!--END_SECTION:waka-->";
    let section = locate(doc, b"waka").expect("section");
    assert_eq!(section.last_update, Some(10));
}

#[test]
fn malformed_time_stamp_counts_as_absent() {
    let doc = b"<!--START_SECTION:waka-->\n<!--LAST_UPDATE:yesterday-->\nbody\n<!--END_SECTION:waka-->";
    let section = locate(doc, b"waka").expect("section");
    assert_eq!(section.last_update, None);
}

#[test]
fn time_stamp_outside_the_section_is_ignored() {
    let doc = b"<!--LAST_UPDATE:2025-01-31 12:30:45-->\n<!--START_SECTION:waka-->\nbody\n<!--END_SECTION:waka-->\n<!--LAST_UPDATE:2025-01-31 12:30:45-->";
    let section = locate(doc, b"waka").expect("section");
    assert_eq!(section.last_update, None);
}

#[test]
fn time_stamp_that_is_not_text_counts_as_absent() {
    let mut doc = b"<!--START_SECTION:waka--><!--LAST_UPDATE:".to_vec();
    doc.extend_from_slice(&[0xff, 0xfe]);
    doc.extend_from_slice(b"--><!--END_SECTION:waka-->");
    let section = locate(&doc, b"waka").expect("section");
    assert_eq!(section.last_update, None);
}
