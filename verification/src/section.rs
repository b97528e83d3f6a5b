//! Locating a section: where its markers stand in a document, which target
//! the start marker declares, and when the section was last rewritten.

use crate::datetime::{parse_seconds, parsed_seconds, DATETIME_ZONE_FORMAT, UTC_SUFFIX};
use crate::markers::{
    close_bytes, declared_start, end_marker, lemma_marker_bytes, make_declared_start,
    make_end_marker, make_start_marker, make_start_prefix, plain_start, stamp_prefix_bytes,
    start_prefix, HTML_COMMENT_END, LAST_UPDATE_PREFIX, TARGET_SEPARATOR,
};
use crate::text::{
    copy_range, earlier, find, find_from, lemma_absent_agrees, lemma_decode_bytes_of,
    lemma_find_from, lemma_find_from_is, lemma_find_not_before, lemma_occurs_bytes, occurs_at,
    offset_view, trim_bounds, trimmed, utf8_text,
};
use vstd::prelude::*;
use vstd::string::StringExecFns;
use vstd::utf8::{decode_utf8, encode_utf8, valid_utf8};

verus! {

/// Why a section could not be located.
#[derive(Debug, Clone, Copy, PartialEq, Eq, Structural)]
pub enum LocateError {
    /// The document has no start marker for the section, or no end marker
    /// after it.
    SectionNotFound,
    /// The start marker declares a target and is never closed.
    MalformedMarker,
    /// The start marker declares a target and leaves it empty.
    MissingTargetIdentifier,
}

/// A section of a document.
#[derive(Debug, Clone)]
pub struct Section {
    /// Offset of the first byte of the start marker.
    pub start_offset: usize,
    /// Offset of the first byte after the start marker.
    pub content_offset: usize,
    /// Offset of the first byte of the end marker.
    pub end_offset: usize,
    /// The target that the start marker declares, trimmed.
    pub target_id: Option<Vec<u8>>,
    /// The instant recorded by the time stamp marker inside the section, in
    /// seconds since 1970-01-01 00:00:00 UTC.
    pub last_update: Option<i64>,
}

/// The mathematical value of a `Section`.
pub struct SectionView {
    pub start: int,
    pub content: int,
    pub end: int,
    pub target: Option<Seq<u8>>,
    pub last_update: Option<i64>,
}

impl View for Section {
    type V = SectionView;

    open spec fn view(&self) -> SectionView {
        SectionView {
            start: self.start_offset as int,
            content: self.content_offset as int,
            end: self.end_offset as int,
            target: match self.target_id {
                Some(t) => Some(t@),
                None => None,
            },
            last_update: self.last_update,
        }
    }
}

/// The instant that a time stamp text denotes: the text is read as UTC by
/// the pattern `YYYY-MM-DD HH:MM:SS`.  Bytes that are no text, or a text that
/// does not parse, denote none.
pub open spec fn stamp_value(text: Seq<u8>) -> Option<i64> {
    if valid_utf8(text) {
        parsed_seconds(decode_utf8(text) + UTC_SUFFIX@, DATETIME_ZONE_FORMAT@)
    } else {
        None
    }
}

/// Where the text of the first time stamp marker of `region` lies: between
/// the first `<!--LAST_UPDATE:` and the first `-->` after it.
pub open spec fn stamp_span(region: Seq<u8>) -> Option<(int, int)> {
    match find_from(region, stamp_prefix_bytes(), 0) {
        None => None,
        Some(at) => {
            let from = at + stamp_prefix_bytes().len();
            match find_from(region, close_bytes(), from) {
                None => None,
                Some(to) => Some((from, to)),
            }
        },
    }
}

/// The instant recorded in `region`, if it holds a time stamp marker whose
/// text can be read.
pub open spec fn stamp_in(region: Seq<u8>) -> Option<i64> {
    match stamp_span(region) {
        None => None,
        Some((from, to)) => stamp_value(trimmed(region.subrange(from, to))),
    }
}

/// Where the start marker of the section named `name` begins: at the first
/// `<!--START_SECTION:name:` or `<!--START_SECTION:name-->`, whichever comes
/// first.  The name followed by anything else is the marker of another
/// section, or none, and is passed over.
pub open spec fn first_start(doc: Seq<u8>, name: Seq<u8>) -> Option<int> {
    earlier(find_from(doc, declared_start(name), 0), find_from(doc, plain_start(name), 0))
}

/// The section named `name` of `doc`.
///
/// The start marker is the first text that reads `<!--START_SECTION:name`
/// and goes on with `:` or `-->`; a longer name, as in
/// `<!--START_SECTION:name2-->`, is not this section's marker and is passed
/// over.  The marker ends with the first `-->` after the name; what stands
/// between the colon and that `-->` is the target.  The end marker is the
/// first `<!--END_SECTION:name-->` after the start marker.
pub open spec fn located(doc: Seq<u8>, name: Seq<u8>) -> Result<SectionView, LocateError> {
    match first_start(doc, name) {
        None => Err(LocateError::SectionNotFound),
        Some(start) => {
            let named = start + start_prefix(name).len();
            match find_from(doc, close_bytes(), named) {
                None => Err(LocateError::MalformedMarker),
                Some(close) => {
                    let content = close + close_bytes().len();
                    if close > named && trimmed(doc.subrange(named + 1, close)).len() == 0 {
                        Err(LocateError::MissingTargetIdentifier)
                    } else {
                        match find_from(doc, end_marker(name), content) {
                            None => Err(LocateError::SectionNotFound),
                            Some(end) => Ok(
                                SectionView {
                                    start,
                                    content,
                                    end,
                                    target: if close > named {
                                        Some(trimmed(doc.subrange(named + 1, close)))
                                    } else {
                                        None
                                    },
                                    last_update: stamp_in(doc.subrange(content, end)),
                                },
                            ),
                        }
                    }
                },
            }
        },
    }
}

/// At the start of a section one of the two forms of its start marker
/// begins: the one with a colon after the name, or the one that closes
/// there.
pub proof fn lemma_first_start(doc: Seq<u8>, name: Seq<u8>)
    ensures
        match first_start(doc, name) {
            Some(start) => {
                &&& 0 <= start
                &&& start + start_prefix(name).len() + 1 <= doc.len()
                &&& occurs_at(doc, declared_start(name), start) || occurs_at(
                    doc,
                    plain_start(name),
                    start,
                )
                &&& occurs_at(doc, declared_start(name), start) ==> doc[start + start_prefix(
                    name,
                ).len()] == TARGET_SEPARATOR
                &&& occurs_at(doc, plain_start(name), start) ==> occurs_at(
                    doc,
                    close_bytes(),
                    start + start_prefix(name).len(),
                )
                &&& forall|j: int|
                    0 <= j < start ==> !occurs_at(doc, declared_start(name), j) && !occurs_at(
                        doc,
                        plain_start(name),
                        j,
                    )
            },
            None => forall|j: int|
                0 <= j ==> !occurs_at(doc, declared_start(name), j) && !occurs_at(
                    doc,
                    plain_start(name),
                    j,
                ),
        },
{
    lemma_marker_bytes();
    let declared = declared_start(name);
    let plain = plain_start(name);
    let n = start_prefix(name).len() as int;
    lemma_find_from(doc, declared, 0);
    lemma_find_from(doc, plain, 0);
    assert forall|j: int| occurs_at(doc, declared, j) implies doc[j + n] == TARGET_SEPARATOR by {
        lemma_occurs_bytes(doc, declared, j, n);
    }
    assert forall|j: int| occurs_at(doc, plain, j) implies occurs_at(doc, close_bytes(), j + n) by {
        assert(doc.subrange(j + n, j + n + 3) =~= doc.subrange(j, j + plain.len()).subrange(
            n,
            n + 3,
        ));
        assert(plain.subrange(n, n + 3) =~= close_bytes());
    }
}

/// Where one form of the start marker begins and neither begins before,
/// the section starts.
pub proof fn lemma_first_start_is(doc: Seq<u8>, name: Seq<u8>, start: int)
    requires
        0 <= start,
        occurs_at(doc, declared_start(name), start) || occurs_at(doc, plain_start(name), start),
        forall|j: int| 0 <= j < start ==> !occurs_at(doc, declared_start(name), j),
        forall|j: int| 0 <= j < start ==> !occurs_at(doc, plain_start(name), j),
    ensures
        first_start(doc, name) == Some(start),
{
    lemma_find_not_before(doc, declared_start(name), start);
    lemma_find_not_before(doc, plain_start(name), start);
    if occurs_at(doc, declared_start(name), start) {
        lemma_find_from_is(doc, declared_start(name), 0, start);
    }
    if occurs_at(doc, plain_start(name), start) {
        lemma_find_from_is(doc, plain_start(name), 0, start);
    }
}

/// Two documents that agree up to the end of the shortest start marker of a
/// section have that section start in the same place.
pub proof fn lemma_first_start_agrees(doc: Seq<u8>, other: Seq<u8>, name: Seq<u8>, limit: int)
    requires
        0 <= limit <= doc.len(),
        limit <= other.len(),
        doc.subrange(0, limit) == other.subrange(0, limit),
        first_start(doc, name) matches Some(start) && start + start_prefix(name).len() + 3
            <= limit,
    ensures
        first_start(other, name) == first_start(doc, name),
{
    lemma_marker_bytes();
    lemma_first_start(doc, name);
    let start = first_start(doc, name)->Some_0;
    let declared = declared_start(name);
    let plain = plain_start(name);
    assert forall|k: int| 0 <= k < limit implies doc[k] == other[k] by {
        assert(doc.subrange(0, limit)[k] == doc[k]);
        assert(other.subrange(0, limit)[k] == other[k]);
    }
    if occurs_at(doc, declared, start) {
        assert(other.subrange(start, start + declared.len()) =~= doc.subrange(
            start,
            start + declared.len(),
        ));
    }
    if occurs_at(doc, plain, start) {
        assert(other.subrange(start, start + plain.len()) =~= doc.subrange(
            start,
            start + plain.len(),
        ));
    }
    lemma_absent_agrees(doc, other, declared, start, limit);
    lemma_absent_agrees(doc, other, plain, start, limit);
    lemma_first_start_is(other, name, start);
}

/// A located section lies inside its document, markers in order.
pub proof fn lemma_located_bounds(doc: Seq<u8>, name: Seq<u8>)
    ensures
        located(doc, name) matches Ok(s) ==> {
            &&& 0 <= s.start < s.content <= s.end
            &&& s.end + end_marker(name).len() <= doc.len()
            &&& s.start + start_prefix(name).len() + close_bytes().len() <= s.content
            &&& first_start(doc, name) == Some(s.start)
        },
{
    lemma_marker_bytes();
    lemma_first_start(doc, name);
    match first_start(doc, name) {
        None => {},
        Some(start) => {
            let named = start + start_prefix(name).len();
            lemma_find_from(doc, close_bytes(), named);
            match find_from(doc, close_bytes(), named) {
                None => {},
                Some(close) => {
                    lemma_find_from(doc, end_marker(name), close + close_bytes().len());
                },
            }
        },
    }
}

/// The result of `locate`, seen as a mathematical value.
pub open spec fn locate_view(r: Result<Section, LocateError>) -> Result<SectionView, LocateError> {
    match r {
        Ok(s) => Ok(s@),
        Err(e) => Err(e),
    }
}

/// Reads a time stamp text.
pub fn read_stamp(text: &[u8]) -> (r: Option<i64>)
    ensures
        r == stamp_value(text@),
{
    match utf8_text(text) {
        None => None,
        Some(t) => {
            proof {
                lemma_decode_bytes_of(t);
            }
            let mut zoned = String::from_str(t);
            zoned.append(UTC_SUFFIX);
            parse_seconds(zoned.as_str(), DATETIME_ZONE_FORMAT)
        },
    }
}

/// Finds the time stamp marker in `region` and reads it.
pub fn find_stamp(region: &[u8]) -> (r: Option<i64>)
    ensures
        r == stamp_in(region@),
{
    let prefix = LAST_UPDATE_PREFIX.as_bytes();
    match find(region, prefix, 0) {
        None => None,
        Some(at) => {
            proof {
                lemma_find_from(region@, prefix@, 0);
                assert(occurs_at(region@, prefix@, at as int));
                assert(at + prefix@.len() <= region.len());
            }
            let from = at + prefix.len();
            match find(region, HTML_COMMENT_END.as_bytes(), from) {
                None => None,
                Some(to) => {
                    proof {
                        lemma_find_from(region@, close_bytes(), from as int);
                        assert(occurs_at(region@, close_bytes(), to as int));
                    }
                    let text = copy_range(region, from, to);
                    let (a, b) = trim_bounds(text.as_slice());
                    let stamp = copy_range(text.as_slice(), a, b);
                    read_stamp(stamp.as_slice())
                },
            }
        },
    }
}

/// Where the start marker of the section named `section_name` begins.
pub fn find_start(document: &[u8], section_name: &[u8]) -> (r: Option<usize>)
    ensures
        offset_view(r) == first_start(document@, section_name@),
{
    let declared = make_declared_start(section_name);
    let plain = make_start_marker(section_name, None);
    let with_target = find(document, declared.as_slice(), 0);
    let without = find(document, plain.as_slice(), 0);
    match (with_target, without) {
        (Some(i), Some(j)) => if i <= j {
            Some(i)
        } else {
            Some(j)
        },
        (Some(i), None) => Some(i),
        (None, Some(j)) => Some(j),
        (None, None) => None,
    }
}

/// Locates the section named `section_name` in `document`.  A section that
/// is found lies inside the document, its start marker before its end
/// marker.
pub fn locate(document: &[u8], section_name: &[u8]) -> (r: Result<Section, LocateError>)
    ensures
        locate_view(r) == located(document@, section_name@),
        r matches Ok(s) ==> s.start_offset < s.content_offset <= s.end_offset <= document@.len(),
{
    proof {
        lemma_located_bounds(document@, section_name@);
        lemma_first_start(document@, section_name@);
        lemma_marker_bytes();
    }
    let start = match find_start(document, section_name) {
        None => {
            return Err(LocateError::SectionNotFound);
        },
        Some(start) => start,
    };
    let prefix = make_start_prefix(section_name);
    assert(start + prefix@.len() < document.len());
    let named = start + prefix.len();
    let close = match find(document, HTML_COMMENT_END.as_bytes(), named) {
        None => {
            return Err(LocateError::MalformedMarker);
        },
        Some(close) => close,
    };
    proof {
        lemma_find_from(document@, close_bytes(), named as int);
        assert(occurs_at(document@, close_bytes(), close as int));
        assert(close + close_bytes().len() <= document.len());
    }
    let content = close + HTML_COMMENT_END.as_bytes().len();
    let mut target_id: Option<Vec<u8>> = None;
    if close > named {
        let declared = copy_range(document, named + 1, close);
        let (a, b) = trim_bounds(declared.as_slice());
        if a == b {
            return Err(LocateError::MissingTargetIdentifier);
        }
        target_id = Some(copy_range(declared.as_slice(), a, b));
    }
    let closing = make_end_marker(section_name);
    let end = match find(document, closing.as_slice(), content) {
        None => {
            return Err(LocateError::SectionNotFound);
        },
        Some(end) => end,
    };
    proof {
        lemma_find_from(document@, closing@, content as int);
        assert(occurs_at(document@, closing@, end as int));
    }
    let region = copy_range(document, content, end);
    let last_update = find_stamp(region.as_slice());
    Ok(Section { start_offset: start, content_offset: content, end_offset: end, target_id, last_update })
}

/// Where the target of a query comes from.
#[derive(Debug)]
pub enum TargetSource {
    /// The start marker declares it.
    Document,
    /// It is configured.
    Configured(String),
}

/// The target to ask the provider for.
pub open spec fn target_of(section: SectionView, source: TargetSource) -> Result<
    Seq<u8>,
    LocateError,
> {
    match source {
        TargetSource::Configured(t) => Ok(encode_utf8(t@)),
        TargetSource::Document => match section.target {
            Some(t) => Ok(t),
            None => Err(LocateError::MissingTargetIdentifier),
        },
    }
}

/// A target or an error, seen as a mathematical value.
pub open spec fn target_view(r: Result<Vec<u8>, LocateError>) -> Result<Seq<u8>, LocateError> {
    match r {
        Ok(t) => Ok(t@),
        Err(e) => Err(e),
    }
}

/// The target to ask the provider for: the configured one, or the one that
/// the section's start marker declares.
pub fn query_target(section: &Section, source: &TargetSource) -> (r: Result<Vec<u8>, LocateError>)
    ensures
        target_view(r) == target_of(section@, *source),
{
    match source {
        TargetSource::Configured(t) => {
            let bytes = t.as_str().as_bytes();
            assert(bytes@.subrange(0, bytes@.len() as int) =~= bytes@);
            Ok(copy_range(bytes, 0, bytes.len()))
        },
        TargetSource::Document => match &section.target_id {
            Some(t) => {
                assert(t@.subrange(0, t@.len() as int) =~= t@);
                Ok(copy_range(t.as_slice(), 0, t.len()))
            },
            None => Err(LocateError::MissingTargetIdentifier),
        },
    }
}

} // verus!
