//! The marker grammar: the literal comments that delimit a section inside a
//! document, and the comment that records when it was last rewritten.
//!
//! ```text
//! <!--START_SECTION:name-->            start, target given by configuration
//! <!--START_SECTION:name:target-->     start, target declared in the document
//! <!--END_SECTION:name-->              end
//! <!--LAST_UPDATE:2025-01-31 12:00:00-->
//! ```

use crate::datetime::DATETIME_FORMAT;
use crate::text::append;
use vstd::prelude::*;
use vstd::string::StringSliceAdditionalSpecFns;

verus! {

/// What every start marker begins with; the section's name follows.
pub const START_SECTION_PREFIX: &'static str = "<!--START_SECTION:";

/// What every end marker begins with; the section's name follows.
pub const END_SECTION_PREFIX: &'static str = "<!--END_SECTION:";

/// What the time stamp marker begins with.
pub const LAST_UPDATE_PREFIX: &'static str = "<!--LAST_UPDATE:";

/// What closes every marker.
pub const HTML_COMMENT_END: &'static str = "-->";

/// What opens and closes a fenced code block.
pub const CODE_FENCE: &'static str = "```";

/// The colon between a section's name and a target declared in the marker.
pub const TARGET_SEPARATOR: u8 = 0x3a;

/// The literals by which the time stamp is found and read.
#[derive(Debug, Clone, Copy)]
pub struct MarkdownMarkers {
    pub last_update_prefix: &'static str,
    pub html_comment_end: &'static str,
    pub datetime_format: &'static str,
}

impl MarkdownMarkers {
    /// The markers of the grammar above.
    pub fn standard() -> (m: MarkdownMarkers)
        ensures
            m.last_update_prefix@ == LAST_UPDATE_PREFIX@,
            m.html_comment_end@ == HTML_COMMENT_END@,
            m.datetime_format@ == DATETIME_FORMAT@,
    {
        MarkdownMarkers {
            last_update_prefix: LAST_UPDATE_PREFIX,
            html_comment_end: HTML_COMMENT_END,
            datetime_format: DATETIME_FORMAT,
        }
    }
}

/// The bytes of `-->`.
pub open spec fn close_bytes() -> Seq<u8> {
    HTML_COMMENT_END.spec_bytes()
}

/// The bytes of `<!--LAST_UPDATE:`.
pub open spec fn stamp_prefix_bytes() -> Seq<u8> {
    LAST_UPDATE_PREFIX.spec_bytes()
}

/// The bytes of a code fence.
pub open spec fn fence_bytes() -> Seq<u8> {
    CODE_FENCE.spec_bytes()
}

/// A start marker up to the end of the section's name.
pub open spec fn start_prefix(name: Seq<u8>) -> Seq<u8> {
    START_SECTION_PREFIX.spec_bytes() + name
}

/// A start marker that declares a target, up to the colon before the
/// target.
pub open spec fn declared_start(name: Seq<u8>) -> Seq<u8> {
    start_prefix(name) + seq![TARGET_SEPARATOR]
}

/// The start marker that declares no target.
pub open spec fn plain_start(name: Seq<u8>) -> Seq<u8> {
    start_prefix(name) + close_bytes()
}

/// The whole start marker of a section, with or without a declared target.
pub open spec fn start_marker(name: Seq<u8>, target: Option<Seq<u8>>) -> Seq<u8> {
    match target {
        Some(t) => start_prefix(name) + seq![TARGET_SEPARATOR] + t + close_bytes(),
        None => start_prefix(name) + close_bytes(),
    }
}

/// The end marker of a section.
pub open spec fn end_marker(name: Seq<u8>) -> Seq<u8> {
    END_SECTION_PREFIX.spec_bytes() + name + close_bytes()
}

/// The marker that records the time stamp `stamp`.
pub open spec fn stamp_marker(stamp: Seq<u8>) -> Seq<u8> {
    stamp_prefix_bytes() + stamp + close_bytes()
}

/// What the literals hold, byte by byte, as far as the proofs about markers
/// need it.
pub proof fn lemma_marker_bytes()
    ensures
        close_bytes() == seq![0x2du8, 0x2du8, 0x3eu8],
        fence_bytes() == seq![0x60u8, 0x60u8, 0x60u8],
        START_SECTION_PREFIX.spec_bytes().len() == 18,
        START_SECTION_PREFIX.spec_bytes()[0] == 0x3c,
        END_SECTION_PREFIX.spec_bytes().len() == 16,
        END_SECTION_PREFIX.spec_bytes()[0] == 0x3c,
        END_SECTION_PREFIX.spec_bytes()[4] == 0x45,
        stamp_prefix_bytes().len() == 16,
        stamp_prefix_bytes()[0] == 0x3c,
        stamp_prefix_bytes()[4] == 0x4c,
        forall|k: int| 1 <= k < 16 ==> #[trigger] stamp_prefix_bytes()[k] != 0x3c,
        forall|k: int| 0 <= k < 16 ==> #[trigger] stamp_prefix_bytes()[k] != 0x0a,
{
    reveal_strlit("-->");
    reveal_strlit("```");
    reveal_strlit("<!--START_SECTION:");
    reveal_strlit("<!--END_SECTION:");
    reveal_strlit("<!--LAST_UPDATE:");
    vstd::string::is_ascii_spec_bytes(HTML_COMMENT_END);
    vstd::string::is_ascii_spec_bytes(CODE_FENCE);
    vstd::string::is_ascii_spec_bytes(START_SECTION_PREFIX);
    vstd::string::is_ascii_spec_bytes(END_SECTION_PREFIX);
    vstd::string::is_ascii_spec_bytes(LAST_UPDATE_PREFIX);
    assert(vstd::string::is_ascii(HTML_COMMENT_END));
    assert(vstd::string::is_ascii(CODE_FENCE));
    assert(vstd::string::is_ascii(START_SECTION_PREFIX));
    assert(vstd::string::is_ascii(END_SECTION_PREFIX));
    assert(vstd::string::is_ascii(LAST_UPDATE_PREFIX));
    assert(close_bytes() =~= seq![0x2du8, 0x2du8, 0x3eu8]);
    assert(fence_bytes() =~= seq![0x60u8, 0x60u8, 0x60u8]);
}

/// A start marker up to the end of the section's name.
pub fn make_start_prefix(name: &[u8]) -> (r: Vec<u8>)
    ensures
        r@ == start_prefix(name@),
{
    let mut out: Vec<u8> = Vec::new();
    append(&mut out, START_SECTION_PREFIX.as_bytes());
    append(&mut out, name);
    assert(out@ =~= start_prefix(name@));
    out
}

/// A start marker that declares a target, up to the colon before the
/// target.
pub fn make_declared_start(name: &[u8]) -> (r: Vec<u8>)
    ensures
        r@ == declared_start(name@),
{
    let mut out = make_start_prefix(name);
    out.push(TARGET_SEPARATOR);
    out
}

/// The whole start marker of a section.
pub fn make_start_marker(name: &[u8], target: Option<&[u8]>) -> (r: Vec<u8>)
    ensures
        r@ == start_marker(
            name@,
            match target {
                Some(t) => Some(t@),
                None => None,
            },
        ),
{
    let mut out = make_start_prefix(name);
    match target {
        Some(t) => {
            out.push(TARGET_SEPARATOR);
            append(&mut out, t);
        },
        None => {},
    }
    append(&mut out, HTML_COMMENT_END.as_bytes());
    out
}

/// The end marker of a section.
pub fn make_end_marker(name: &[u8]) -> (r: Vec<u8>)
    ensures
        r@ == end_marker(name@),
{
    let mut out: Vec<u8> = Vec::new();
    append(&mut out, END_SECTION_PREFIX.as_bytes());
    append(&mut out, name);
    append(&mut out, HTML_COMMENT_END.as_bytes());
    out
}

/// The marker that records the time stamp `stamp`.
pub fn make_stamp_marker(stamp: &[u8]) -> (r: Vec<u8>)
    ensures
        r@ == stamp_marker(stamp@),
{
    let mut out: Vec<u8> = Vec::new();
    append(&mut out, LAST_UPDATE_PREFIX.as_bytes());
    append(&mut out, stamp);
    append(&mut out, HTML_COMMENT_END.as_bytes());
    out
}

} // verus!
