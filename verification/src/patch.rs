//! Rewriting a section: deciding whether freshly rendered content differs
//! from what the section holds, and splicing it in where it does.

use crate::datetime::{
    format_time, formatted_time, is_stamp_char, is_stamp_text, DATETIME_FORMAT,
};
use crate::error::{Error, ErrorView};
use crate::markers::{
    close_bytes, fence_bytes, make_stamp_marker, stamp_marker, stamp_prefix_bytes, CODE_FENCE,
    HTML_COMMENT_END, LAST_UPDATE_PREFIX,
};
use crate::section::{
    lemma_located_bounds, locate, located, query_target, target_of, LocateError, Section,
    SectionView, TargetSource,
};
use crate::text::{
    append, copy_range, ends_with, find_line_end, has_prefix, has_suffix, lines_from, same_bytes,
    split_lines, starts_with, trim, trimmed, LINE_FEED,
};
use vstd::prelude::*;
use vstd::string::StringSliceAdditionalSpecFns;
use vstd::utf8::encode_utf8;

verus! {

/// A trimmed line that opens or closes a fenced code block.
pub open spec fn is_fence_line(l: Seq<u8>) -> bool {
    has_prefix(l, fence_bytes()) || has_suffix(l, fence_bytes())
}

/// A trimmed line that is a time stamp marker.
pub open spec fn is_stamp_line(l: Seq<u8>) -> bool {
    has_prefix(l, stamp_prefix_bytes()) && has_suffix(l, close_bytes())
}

/// A trimmed line that counts when two bodies are compared: it is not
/// blank, no code fence and no time stamp marker.
pub open spec fn is_content_line(l: Seq<u8>) -> bool {
    l.len() > 0 && !is_fence_line(l) && !is_stamp_line(l)
}

/// The lines that count, each trimmed, in their order.
pub open spec fn content_lines(lines: Seq<Seq<u8>>) -> Seq<Seq<u8>>
    decreases lines.len(),
{
    if lines.len() == 0 {
        Seq::empty()
    } else {
        let before = content_lines(lines.drop_last());
        let l = trimmed(lines.last());
        if is_content_line(l) {
            before.push(l)
        } else {
            before
        }
    }
}

/// The normal form of a body: its lines, trimmed, without the blank ones,
/// the code fences and the time stamp marker.
pub open spec fn normal_form(body: Seq<u8>) -> Seq<Seq<u8>> {
    content_lines(split_lines(body))
}

/// The lines held by a vector of byte strings.
pub open spec fn lines_view(v: Seq<Vec<u8>>) -> Seq<Seq<u8>> {
    Seq::new(v.len(), |i: int| v[i]@)
}

/// What is written between the two markers of a section: a line break, then
/// on lines of their own the time stamp marker and the body.
pub open spec fn written_body(stamp: Seq<u8>, body: Seq<u8>) -> Seq<u8> {
    seq![LINE_FEED] + stamp_marker(stamp) + seq![LINE_FEED] + body + seq![LINE_FEED]
}

/// The document with the section's body replaced: everything up to the end
/// of the start marker, then the time stamp marker and the new body, then
/// everything from the end marker on.
pub open spec fn replaced(doc: Seq<u8>, section: SectionView, stamp: Seq<u8>, body: Seq<u8>) -> Seq<
    u8,
> {
    doc.subrange(0, section.content) + written_body(stamp, body) + doc.subrange(
        section.end,
        doc.len() as int,
    )
}

/// What patching a document comes to.
pub enum PatchView {
    /// The document has no such section; there is nothing to do.
    Skipped,
    /// The section's start marker is malformed.
    Rejected(LocateError),
    /// The section already holds the body, up to normal form.
    Unchanged,
    /// The body differs and there is no time stamp to write with it.
    Unstamped,
    /// The body differs; this is the new document.
    Updated(Seq<u8>),
}

/// Patching `doc`: the section named `name` gets the body `body` and the
/// time stamp `stamp`, unless it holds that body already.
pub open spec fn patched(
    doc: Seq<u8>,
    name: Seq<u8>,
    body: Seq<u8>,
    stamp: Option<Seq<u8>>,
) -> PatchView {
    match located(doc, name) {
        Err(LocateError::SectionNotFound) => PatchView::Skipped,
        Err(e) => PatchView::Rejected(e),
        Ok(section) => {
            if normal_form(doc.subrange(section.content, section.end)) == normal_form(body) {
                PatchView::Unchanged
            } else {
                match stamp {
                    None => PatchView::Unstamped,
                    Some(s) => PatchView::Updated(replaced(doc, section, s, body)),
                }
            }
        },
    }
}

/// A byte that a time stamp can hold: a digit, a sign, a blank or a colon.
pub open spec fn is_stamp_byte(b: u8) -> bool {
    (0x30 <= b && b <= 0x39) || b == 0x2d || b == 0x2b || b == 0x20 || b == 0x3a
}

/// Bytes that a time stamp can consist of.
pub open spec fn is_stamp_bytes(s: Seq<u8>) -> bool {
    forall|i: int| 0 <= i < s.len() ==> is_stamp_byte(#[trigger] s[i])
}

/// The time stamp written for the instant `now`: its date and time in UTC,
/// as `YYYY-MM-DD HH:MM:SS`.
pub open spec fn stamp_of(now: i64) -> Option<Seq<u8>> {
    match formatted_time(now, 0, DATETIME_FORMAT@) {
        Some(t) => Some(encode_utf8(t)),
        None => None,
    }
}

/// Optional bytes, seen as a mathematical value.
pub open spec fn bytes_view(b: Option<Vec<u8>>) -> Option<Seq<u8>> {
    match b {
        Some(v) => Some(v@),
        None => None,
    }
}

/// What one update cycle did.
#[derive(Debug)]
pub struct UpdateResult {
    /// The rendered content.
    pub stats: String,
    /// When the section had last been rewritten, if it says so.
    pub last_update: Option<i64>,
    /// The instant of this cycle.
    pub current_update: i64,
    /// Whether the document was rewritten.
    pub was_updated: bool,
}

/// The mathematical value of an `UpdateResult`.
pub struct UpdateResultView {
    pub stats: Seq<char>,
    pub last_update: Option<i64>,
    pub current_update: i64,
    pub was_updated: bool,
}

impl View for UpdateResult {
    type V = UpdateResultView;

    open spec fn view(&self) -> UpdateResultView {
        UpdateResultView {
            stats: self.stats@,
            last_update: self.last_update,
            current_update: self.current_update,
            was_updated: self.was_updated,
        }
    }
}

/// How patching a document ended.
#[derive(Debug)]
pub enum Outcome {
    /// The document has no such section and is left alone.
    Skipped,
    /// The section holds the rendered content already; nothing is written.
    Unchanged(UpdateResult),
    /// The section was rewritten; the bytes are the new document.
    Updated(UpdateResult, Vec<u8>),
}

impl Outcome {
    /// Whether there is a new document to write.
    pub fn was_updated(&self) -> (r: bool)
        ensures
            r == (self is Updated),
    {
        match self {
            Outcome::Updated(_, _) => true,
            _ => false,
        }
    }
}

/// Whether a trimmed line counts when two bodies are compared.
pub fn counts(line: &[u8]) -> (r: bool)
    ensures
        r == is_content_line(line@),
{
    if line.len() == 0 {
        return false;
    }
    let fence = CODE_FENCE.as_bytes();
    if starts_with(line, fence) || ends_with(line, fence) {
        return false;
    }
    !(starts_with(line, LAST_UPDATE_PREFIX.as_bytes()) && ends_with(
        line,
        HTML_COMMENT_END.as_bytes(),
    ))
}

/// The normal form of `body`.
pub fn normalize(body: &[u8]) -> (r: Vec<Vec<u8>>)
    ensures
        lines_view(r@) == normal_form(body@),
{
    let mut out: Vec<Vec<u8>> = Vec::new();
    let mut pos: usize = 0;
    let ghost mut seen: Seq<Seq<u8>> = Seq::empty();
    assert(lines_view(out@) =~= content_lines(seen));
    loop
        invariant_except_break
            pos <= body.len(),
            split_lines(body@) == seen + lines_from(body@, pos as int),
        invariant
            lines_view(out@) == content_lines(seen),
        ensures
            split_lines(body@) == seen,
            lines_view(out@) == content_lines(seen),
        decreases body.len() - pos,
    {
        let n = find_line_end(body, pos);
        let line = copy_range(body, pos, n);
        let kept = trim(line.as_slice());
        let ghost before = seen;
        let ghost out_before = out@;
        proof {
            seen = seen.push(line@);
            assert(seen.drop_last() =~= before);
        }
        if counts(kept.as_slice()) {
            out.push(kept);
            assert(lines_view(out@) =~= lines_view(out_before).push(kept@));
        }
        if n >= body.len() {
            assert(before + lines_from(body@, pos as int) =~= seen);
            break ;
        }
        assert(before + lines_from(body@, pos as int) =~= seen + lines_from(body@, n + 1));
        pos = n + 1;
    }
    out
}

/// Whether two vectors hold the same lines.
pub fn same_lines(a: &Vec<Vec<u8>>, b: &Vec<Vec<u8>>) -> (r: bool)
    ensures
        r == (lines_view(a@) == lines_view(b@)),
{
    if a.len() != b.len() {
        assert(lines_view(a@).len() != lines_view(b@).len());
        return false;
    }
    let mut i: usize = 0;
    while i < a.len()
        invariant
            i <= a.len(),
            a.len() == b.len(),
            forall|k: int| 0 <= k < i ==> a@[k]@ == b@[k]@,
        decreases a.len() - i,
    {
        if !same_bytes(a[i].as_slice(), b[i].as_slice()) {
            assert(lines_view(a@)[i as int] != lines_view(b@)[i as int]);
            return false;
        }
        i += 1;
    }
    assert(lines_view(a@) =~= lines_view(b@));
    true
}

/// Whether two bodies have the same normal form.
pub fn contents_equal(a: &[u8], b: &[u8]) -> (r: bool)
    ensures
        r == (normal_form(a@) == normal_form(b@)),
{
    let left = normalize(a);
    let right = normalize(b);
    same_lines(&left, &right)
}

/// The document with the section's body replaced by `body`, stamped `stamp`.
pub fn replace_body(document: &[u8], section: &Section, stamp: &[u8], body: &[u8]) -> (r: Vec<u8>)
    requires
        section.content_offset <= section.end_offset <= document.len(),
    ensures
        r@ == replaced(document@, section@, stamp@, body@),
{
    let mut out = copy_range(document, 0, section.content_offset);
    out.push(LINE_FEED);
    let marker = make_stamp_marker(stamp);
    append(&mut out, marker.as_slice());
    out.push(LINE_FEED);
    append(&mut out, body);
    out.push(LINE_FEED);
    let rest = copy_range(document, section.end_offset, document.len());
    append(&mut out, rest.as_slice());
    assert(out@ =~= replaced(document@, section@, stamp@, body@));
    out
}

/// The time stamp to write for the instant `now`.
pub fn current_stamp(now: i64) -> (r: Option<Vec<u8>>)
    ensures
        bytes_view(r) == stamp_of(now),
        r matches Some(s) ==> is_stamp_bytes(s@),
{
    match format_time(now, 0, DATETIME_FORMAT) {
        None => None,
        Some(t) => {
            let text = t.as_str();
            let bytes = text.as_bytes();
            proof {
                lemma_stamp_bytes(text);
                assert(bytes@.subrange(0, bytes@.len() as int) =~= bytes@);
            }
            Some(copy_range(bytes, 0, bytes.len()))
        },
    }
}

/// A text of time stamp characters has time stamp bytes.
pub proof fn lemma_stamp_bytes(t: &str)
    requires
        is_stamp_text(t@),
    ensures
        is_stamp_bytes(t.spec_bytes()),
{
    assert forall|i: int| 0 <= i < t@.len() implies (t@[i] as u32) < 128 by {
        assert(is_stamp_char(t@[i]));
    }
    assert(vstd::string::is_ascii(t));
    vstd::string::is_ascii_spec_bytes(t);
    assert forall|i: int| 0 <= i < t.spec_bytes().len() implies is_stamp_byte(
        #[trigger] t.spec_bytes()[i],
    ) by {
        assert(is_stamp_char(t@[i]));
    }
}

/// Patches `document`: where the section named `section_name` does not hold
/// `rendered` already, up to normal form, it is rewritten with `rendered`
/// and a time stamp for `now`.
pub fn patch_document(document: &[u8], section_name: &[u8], rendered: &str, now: i64) -> (r:
    Result<Outcome, Error>)
    ensures
        match patched(document@, section_name@, rendered.spec_bytes(), stamp_of(now)) {
            PatchView::Skipped => r matches Ok(Outcome::Skipped),
            PatchView::Rejected(e) => r matches Err(err) && err@ == ErrorView::of_locate(e),
            PatchView::Unstamped => r matches Err(err) && err@ == ErrorView::ConfigError(
                "Time stamp out of range"@,
            ),
            PatchView::Unchanged => r matches Ok(Outcome::Unchanged(u)) && u@ == (UpdateResultView {
                stats: rendered@,
                last_update: located(document@, section_name@)->Ok_0.last_update,
                current_update: now,
                was_updated: false,
            }),
            PatchView::Updated(d) => r matches Ok(Outcome::Updated(u, n)) && n@ == d && u@ == (
            UpdateResultView {
                stats: rendered@,
                last_update: located(document@, section_name@)->Ok_0.last_update,
                current_update: now,
                was_updated: true,
            }),
        },
        r matches Ok(Outcome::Updated(_, _)) ==> stamp_of(now) matches Some(s) && is_stamp_bytes(s),
{
    let section = match locate(document, section_name) {
        Err(LocateError::SectionNotFound) => {
            return Ok(Outcome::Skipped);
        },
        Err(e) => {
            return Err(Error::from_locate(e));
        },
        Ok(section) => section,
    };
    proof {
        lemma_located_bounds(document@, section_name@);
    }
    let body = rendered.as_bytes();
    let previous = copy_range(document, section.content_offset, section.end_offset);
    if contents_equal(previous.as_slice(), body) {
        return Ok(
            Outcome::Unchanged(
                UpdateResult {
                    stats: rendered.to_owned(),
                    last_update: section.last_update,
                    current_update: now,
                    was_updated: false,
                },
            ),
        );
    }
    let stamp = match current_stamp(now) {
        None => {
            return Err(Error::ConfigError("Time stamp out of range".to_owned()));
        },
        Some(stamp) => stamp,
    };
    let updated = replace_body(document, &section, stamp.as_slice(), body);
    Ok(
        Outcome::Updated(
            UpdateResult {
                stats: rendered.to_owned(),
                last_update: section.last_update,
                current_update: now,
                was_updated: true,
            },
            updated,
        ),
    )
}

/// How an update cycle goes on once the document is read.
#[derive(Debug)]
pub enum CyclePlan {
    /// The document has no such section: there is nothing to do.
    Skip,
    /// Fetch the metrics for this target.
    Fetch(Vec<u8>),
}

/// What `plan_cycle` decides.
pub open spec fn planned(doc: Seq<u8>, name: Seq<u8>, source: TargetSource) -> Result<
    Option<Seq<u8>>,
    ErrorView,
> {
    match located(doc, name) {
        Err(LocateError::SectionNotFound) => Ok(None),
        Err(e) => Err(ErrorView::of_locate(e)),
        Ok(section) => match target_of(section, source) {
            Ok(t) => Ok(Some(t)),
            Err(e) => Err(ErrorView::of_locate(e)),
        },
    }
}

/// A plan or an error, seen as a mathematical value.
pub open spec fn plan_view(r: Result<CyclePlan, Error>) -> Result<Option<Seq<u8>>, ErrorView> {
    match r {
        Ok(CyclePlan::Skip) => Ok(None),
        Ok(CyclePlan::Fetch(t)) => Ok(Some(t@)),
        Err(e) => Err(e@),
    }
}

/// Decides how an update cycle goes on: a document without the section is
/// left alone, a malformed start marker ends the cycle, and else the metrics
/// are fetched for the target that `source` gives.
pub fn plan_cycle(document: &[u8], section_name: &[u8], source: &TargetSource) -> (r: Result<
    CyclePlan,
    Error,
>)
    ensures
        plan_view(r) == planned(document@, section_name@, *source),
{
    match locate(document, section_name) {
        Err(LocateError::SectionNotFound) => Ok(CyclePlan::Skip),
        Err(e) => Err(Error::from_locate(e)),
        Ok(section) => match query_target(&section, source) {
            Ok(t) => Ok(CyclePlan::Fetch(t)),
            Err(e) => Err(Error::from_locate(e)),
        },
    }
}

} // verus!
