//! Keeping the activity section of a document up to date.

use crate::error::{Error, ErrorView};
use crate::patch::{
    contents_equal, is_stamp_bytes, normal_form, patch_document, patched, stamp_of, Outcome,
    PatchView, UpdateResultView,
};
use crate::section::{find_stamp, lemma_located_bounds, locate, located, stamp_in};
use crate::text::copy_range;
use vstd::prelude::*;
use vstd::string::StringSliceAdditionalSpecFns;
use vstd::utf8::encode_utf8;

verus! {

/// Rewrites one named section of one document.
#[derive(Debug)]
pub struct StatsUpdater {
    readme_path: String,
    section_name: String,
}

impl StatsUpdater {
    /// The path of the document.
    pub closed spec fn path(&self) -> Seq<char> {
        self.readme_path@
    }

    /// The name of the section.
    pub closed spec fn section(&self) -> Seq<char> {
        self.section_name@
    }

    /// An updater for the section `section_name` of the document at
    /// `readme_path`.
    pub fn new(readme_path: String, section_name: String) -> (u: StatsUpdater)
        ensures
            u.path() == readme_path@,
            u.section() == section_name@,
    {
        StatsUpdater { readme_path, section_name }
    }

    /// The path of the document.
    pub fn readme_path(&self) -> (r: &String)
        ensures
            r@ == self.path(),
    {
        &self.readme_path
    }

    /// The name of the section.
    pub fn section_name(&self) -> (r: &String)
        ensures
            r@ == self.section(),
    {
        &self.section_name
    }

    /// Patches `readme`, the content of the document, with `new_content` at
    /// the instant `now`.
    pub fn update(&self, readme: &[u8], new_content: &str, now: i64) -> (r: Result<Outcome, Error>)
        ensures
            match patched(
                readme@,
                encode_utf8(self.section()),
                new_content.spec_bytes(),
                stamp_of(now),
            ) {
                PatchView::Skipped => r matches Ok(Outcome::Skipped),
                PatchView::Rejected(e) => r matches Err(err) && err@ == ErrorView::of_locate(e),
                PatchView::Unstamped => r matches Err(err) && err@ == ErrorView::ConfigError(
                    "Time stamp out of range"@,
                ),
                PatchView::Unchanged => r matches Ok(Outcome::Unchanged(u)) && u@ == (
                UpdateResultView {
                    stats: new_content@,
                    last_update: located(readme@, encode_utf8(self.section()))->Ok_0.last_update,
                    current_update: now,
                    was_updated: false,
                }),
                PatchView::Updated(d) => r matches Ok(Outcome::Updated(u, n)) && n@ == d && u@ == (
                UpdateResultView {
                    stats: new_content@,
                    last_update: located(readme@, encode_utf8(self.section()))->Ok_0.last_update,
                    current_update: now,
                    was_updated: true,
                }),
            },
            r matches Ok(Outcome::Updated(_, _)) ==> stamp_of(now) matches Some(s)
                && is_stamp_bytes(s),
    {
        patch_document(readme, self.section_name.as_str().as_bytes(), new_content, now)
    }

    /// What stands between the markers of the section, and when the section
    /// was last rewritten.
    pub fn extract_content_and_timestamp(&self, readme: &[u8]) -> (r: Result<
        (Vec<u8>, Option<i64>),
        Error,
    >)
        ensures
            match located(readme@, encode_utf8(self.section())) {
                Ok(s) => r matches Ok((content, stamp)) && content@ == readme@.subrange(
                    s.content,
                    s.end,
                ) && stamp == s.last_update,
                Err(e) => r matches Err(err) && err@ == ErrorView::of_locate(e),
            },
    {
        match locate(readme, self.section_name.as_str().as_bytes()) {
            Ok(s) => {
                proof {
                    lemma_located_bounds(readme@, encode_utf8(self.section()));
                }
                Ok((copy_range(readme, s.content_offset, s.end_offset), s.last_update))
            },
            Err(e) => Err(Error::from_locate(e)),
        }
    }

    /// Whether two bodies say the same, blank lines, white space around
    /// lines, code fences and the time stamp marker set aside.
    pub fn contents_equal(&self, content1: &str, content2: &str) -> (r: bool)
        ensures
            r == (normal_form(content1.spec_bytes()) == normal_form(content2.spec_bytes())),
    {
        contents_equal(content1.as_bytes(), content2.as_bytes())
    }

    /// The instant that the time stamp marker in `content` records.
    pub fn parse_last_update(&self, content: &[u8]) -> (r: Option<i64>)
        ensures
            r == stamp_in(content@),
    {
        find_stamp(content)
    }
}

} // verus!
