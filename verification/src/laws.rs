//! What holds of locating and patching, whatever the document.

use crate::markers::{
    close_bytes, declared_start, end_marker, lemma_marker_bytes, plain_start, stamp_marker,
    stamp_prefix_bytes, start_marker, start_prefix, END_SECTION_PREFIX, TARGET_SEPARATOR,
};
use crate::patch::{
    content_lines, is_content_line, is_stamp_byte, is_stamp_bytes, is_stamp_line, normal_form,
    patched, replaced, written_body, PatchView,
};
use crate::section::{
    first_start, lemma_first_start, lemma_first_start_agrees, lemma_first_start_is,
    lemma_located_bounds, located, LocateError, SectionView,
};
use crate::strings::repeated;
use crate::template::{full_cells, graph};
use crate::text::{
    find_from, is_trim, lemma_find_agrees, lemma_find_from, lemma_find_from_is,
    lemma_lines_concat, lemma_occurs_bytes, lemma_occurs_prefix, lemma_occurs_shift,
    lemma_single_line, lemma_trim_bounds, lemma_trimmed_of_trim, occurs_at, split_lines, trimmed,
    LINE_FEED,
};
use vstd::prelude::*;
use vstd::string::StringSliceAdditionalSpecFns;

verus! {

/// Patching leaves the text before the start marker and the text after the
/// end marker as they were, byte for byte; and the two markers too.
pub proof fn law_boundaries_preserved(
    doc: Seq<u8>,
    name: Seq<u8>,
    body: Seq<u8>,
    stamp: Option<Seq<u8>>,
)
    ensures
        patched(doc, name, body, stamp) matches PatchView::Updated(d) ==> {
            let s = located(doc, name)->Ok_0;
            let kept = doc.len() - s.end;
            &&& located(doc, name) is Ok
            &&& d.len() >= s.content + kept
            &&& d.subrange(0, s.content) == doc.subrange(0, s.content)
            &&& d.subrange(d.len() - kept, d.len() as int) == doc.subrange(
                s.end,
                doc.len() as int,
            )
        },
{
    lemma_located_bounds(doc, name);
    match patched(doc, name, body, stamp) {
        PatchView::Updated(d) => {
            let s = located(doc, name)->Ok_0;
            let kept = doc.len() - s.end;
            assert(d == replaced(doc, s, stamp->Some_0, body));
            assert(d.subrange(0, s.content) =~= doc.subrange(0, s.content));
            assert(d.subrange(d.len() - kept, d.len() as int) =~= doc.subrange(
                s.end,
                doc.len() as int,
            ));
        },
        _ => {},
    }
}

/// A document without a start marker of the section, in either form, is
/// left alone: patching it is skipped.
pub proof fn law_absent_section_is_skipped(
    doc: Seq<u8>,
    name: Seq<u8>,
    body: Seq<u8>,
    stamp: Option<Seq<u8>>,
)
    requires
        forall|j: int| !occurs_at(doc, declared_start(name), j),
        forall|j: int| !occurs_at(doc, plain_start(name), j),
    ensures
        located(doc, name) == Err::<SectionView, LocateError>(LocateError::SectionNotFound),
        patched(doc, name, body, stamp) == PatchView::Skipped,
{
    lemma_first_start(doc, name);
    lemma_find_from(doc, declared_start(name), 0);
    lemma_find_from(doc, plain_start(name), 0);
}

/// A section as it is written: start marker with a target, time stamp
/// marker, body and end marker, each on lines of its own.
pub open spec fn section_text(
    name: Seq<u8>,
    target: Seq<u8>,
    stamp: Seq<u8>,
    body: Seq<u8>,
) -> Seq<u8> {
    start_marker(name, Some(target)) + seq![LINE_FEED] + stamp_marker(stamp) + seq![LINE_FEED]
        + body + seq![LINE_FEED] + end_marker(name)
}

/// `-->` does not occur in `s`.
pub open spec fn has_no_close(s: Seq<u8>) -> bool {
    forall|j: int| !occurs_at(s, close_bytes(), j)
}

/// In a target followed by `-->`, the first `-->` is the one that follows.
pub proof fn lemma_first_close(doc: Seq<u8>, named: int, target: Seq<u8>)
    requires
        0 <= named,
        named + 1 + target.len() + 3 <= doc.len(),
        doc[named] == TARGET_SEPARATOR,
        doc.subrange(named + 1, named + 1 + target.len()) == target,
        occurs_at(doc, close_bytes(), named + 1 + target.len()),
        has_no_close(target),
    ensures
        find_from(doc, close_bytes(), named) == Some(named + 1 + target.len()),
{
    lemma_marker_bytes();
    let close = named + 1 + target.len();
    assert forall|j: int| named <= j < close implies !occurs_at(doc, close_bytes(), j) by {
        if occurs_at(doc, close_bytes(), j) {
            lemma_occurs_bytes(doc, close_bytes(), j, 0);
            lemma_occurs_bytes(doc, close_bytes(), j, 2);
            lemma_occurs_bytes(doc, close_bytes(), close, 0);
            lemma_occurs_bytes(doc, close_bytes(), close, 1);
            if j == named {
            } else if j + 3 <= close {
                let k = j - named - 1;
                assert(target.subrange(k, k + 3) =~= doc.subrange(j, j + 3));
                assert(occurs_at(target, close_bytes(), k));
            } else {
            }
        }
    }
    lemma_find_from_is(doc, close_bytes(), named, close);
}

/// A target written into a start marker is the target that locating the
/// section recovers: for every target that is not empty, neither starts nor
/// ends with white space, and does not hold `-->`.
pub proof fn law_target_round_trip(
    name: Seq<u8>,
    target: Seq<u8>,
    stamp: Seq<u8>,
    body: Seq<u8>,
    rest: Seq<u8>,
)
    requires
        is_trim(target),
        has_no_close(target),
    ensures
        located(section_text(name, target, stamp, body) + rest, name) matches Ok(s) && s.target
            == Some(target) && s.start == 0,
{
    lemma_marker_bytes();
    let doc = section_text(name, target, stamp, body) + rest;
    let prefix = start_prefix(name);
    let named = prefix.len() as int;
    let close = named + 1 + target.len();
    let content = close + 3;
    assert(doc.subrange(0, named + 1) =~= declared_start(name));
    lemma_first_start_is(doc, name, 0);
    assert(doc[named] == TARGET_SEPARATOR);
    assert(doc.subrange(named + 1, close) =~= target);
    assert(doc.subrange(close, close + 3) =~= close_bytes());
    lemma_first_close(doc, named, target);
    lemma_trimmed_of_trim(target);
    let closing = end_marker(name);
    let at = section_text(name, target, stamp, body).len() - closing.len();
    assert(doc.subrange(at, at + closing.len()) =~= closing);
    assert(occurs_at(doc, closing, at));
    lemma_find_from(doc, closing, content);
}

/// The lines that count in one list of lines followed by another.
pub proof fn lemma_content_lines_concat(x: Seq<Seq<u8>>, y: Seq<Seq<u8>>)
    ensures
        content_lines(x + y) == content_lines(x) + content_lines(y),
    decreases y.len(),
{
    if y.len() == 0 {
        assert(x + y =~= x);
        assert(content_lines(x) + content_lines(y) =~= content_lines(x));
    } else {
        lemma_content_lines_concat(x, y.drop_last());
        assert((x + y).drop_last() =~= x + y.drop_last());
        assert((x + y).last() == y.last());
        let l = trimmed(y.last());
        if is_content_line(l) {
            assert(content_lines(x + y) =~= content_lines(x) + content_lines(y));
        }
    }
}

/// A single line counts or it does not.
pub proof fn lemma_content_lines_single(l: Seq<u8>)
    ensures
        content_lines(seq![l]) == if is_content_line(trimmed(l)) {
            seq![trimmed(l)]
        } else {
            Seq::<Seq<u8>>::empty()
        },
{
    assert(seq![l].drop_last() =~= Seq::<Seq<u8>>::empty());
    assert(content_lines(seq![l].drop_last()) =~= Seq::<Seq<u8>>::empty());
    assert(seq![l].last() == l);
    if is_content_line(trimmed(l)) {
        assert(content_lines(seq![l]) =~= seq![trimmed(l)]);
    }
}

/// What a time stamp marker is made of: one line that is dropped from the
/// normal form, with `<` only at its start.
pub proof fn lemma_stamp_marker(stamp: Seq<u8>)
    requires
        is_stamp_bytes(stamp),
    ensures
        stamp_marker(stamp).len() == stamp.len() + 19,
        forall|k: int| 0 <= k < stamp_marker(stamp).len() ==> stamp_marker(stamp)[k] != LINE_FEED,
        forall|k: int| 1 <= k < stamp_marker(stamp).len() ==> stamp_marker(stamp)[k] != 0x3c,
        stamp_marker(stamp)[4] == 0x4c,
        content_lines(seq![stamp_marker(stamp)]) == Seq::<Seq<u8>>::empty(),
{
    lemma_marker_bytes();
    let m = stamp_marker(stamp);
    let n = m.len() as int;
    assert forall|k: int| 0 <= k < n implies m[k] != LINE_FEED && (k >= 1 ==> m[k] != 0x3c) by {
        if k < 16 {
            assert(m[k] == stamp_prefix_bytes()[k]);
        } else if k < 16 + stamp.len() {
            assert(m[k] == stamp[k - 16]);
            assert(is_stamp_byte(stamp[k - 16]));
        } else {
            assert(m[k] == close_bytes()[k - 16 - stamp.len()]);
        }
    }
    assert(m[4] == stamp_prefix_bytes()[4]);
    assert(m[0] == stamp_prefix_bytes()[0]);
    assert(m[n - 1] == close_bytes()[2]);
    assert(m[n - 2] == close_bytes()[1]);
    assert(m[n - 3] == close_bytes()[0]);
    assert(is_trim(m));
    lemma_trimmed_of_trim(m);
    assert(m.subrange(0, 16) =~= stamp_prefix_bytes());
    assert(m.subrange(n - 3, n) =~= close_bytes());
    assert(is_stamp_line(m));
    lemma_content_lines_single(m);
}

/// What is written between the markers has the normal form of the body.
pub proof fn lemma_written_body_normal_form(stamp: Seq<u8>, body: Seq<u8>)
    requires
        is_stamp_bytes(stamp),
    ensures
        normal_form(written_body(stamp, body)) == normal_form(body),
{
    let none = Seq::<u8>::empty();
    let m = stamp_marker(stamp);
    let break_ = seq![LINE_FEED];
    lemma_stamp_marker(stamp);
    let x = written_body(stamp, body);
    let after_marker = body + break_ + none;
    let after_break = m + break_ + after_marker;
    assert(x =~= none + break_ + after_break);
    lemma_lines_concat(none, after_break, 0);
    lemma_lines_concat(m, after_marker, 0);
    lemma_lines_concat(body, none, 0);
    lemma_single_line(none);
    lemma_single_line(m);
    assert(split_lines(x) == seq![none] + (seq![m] + (split_lines(body) + seq![none])));
    lemma_content_lines_concat(seq![none], seq![m] + (split_lines(body) + seq![none]));
    lemma_content_lines_concat(seq![m], split_lines(body) + seq![none]);
    lemma_content_lines_concat(split_lines(body), seq![none]);
    lemma_content_lines_single(none);
    assert(trimmed(none).len() == 0) by {
        lemma_trim_bounds(none);
    }
    assert(content_lines(seq![none]) == Seq::<Seq<u8>>::empty());
    assert(normal_form(x) =~= normal_form(body));
}

/// The end marker of the section named `name` does not start inside `body`
/// or at the line break that follows it.
pub open spec fn end_marker_free(body: Seq<u8>, name: Seq<u8>) -> bool {
    forall|j: int|
        0 <= j <= body.len() ==> !occurs_at(
            body + seq![LINE_FEED] + end_marker(name),
            end_marker(name),
            j,
        )
}

/// In what is written between the markers, followed by the end marker, the
/// end marker does not occur before its place.
pub proof fn lemma_written_body_end_marker(stamp: Seq<u8>, body: Seq<u8>, name: Seq<u8>, j: int)
    requires
        is_stamp_bytes(stamp),
        end_marker_free(body, name),
        0 <= j < written_body(stamp, body).len(),
    ensures
        !occurs_at(written_body(stamp, body) + end_marker(name), end_marker(name), j),
{
    lemma_marker_bytes();
    lemma_stamp_marker(stamp);
    let e = end_marker(name);
    let m = stamp_marker(stamp);
    let a = seq![LINE_FEED] + m + seq![LINE_FEED];
    let b = body + seq![LINE_FEED];
    let x = written_body(stamp, body);
    assert(x + e =~= a + (b + e));
    assert(b + e =~= body + seq![LINE_FEED] + e);
    assert(e[0] == 0x3c && e[4] == 0x45 && e.len() >= 19) by {
        assert(e[0] == END_SECTION_PREFIX.spec_bytes()[0]);
        assert(e[4] == END_SECTION_PREFIX.spec_bytes()[4]);
    }
    if occurs_at(x + e, e, j) {
        if j < a.len() {
            lemma_occurs_bytes(x + e, e, j, 0);
            lemma_occurs_bytes(x + e, e, j, 4);
            assert((x + e)[j] == a[j]);
            if j == 0 {
            } else if j == 1 {
                assert((x + e)[5] == a[5]);
                assert(a[5] == m[4]);
            } else if j < 1 + m.len() {
                assert(a[j] == m[j - 1]);
            } else {
            }
        } else {
            lemma_occurs_shift(a, b + e, e, j - a.len());
        }
    }
}

/// Patching a document a second time, with the content it was patched with,
/// changes nothing: the outcome is `Unchanged`, whatever the time stamp of
/// the second run.
///
/// This holds for content in which the section's end marker does not occur,
/// and for time stamps as `stamp_of` writes them.
pub proof fn law_patch_idempotent(
    doc: Seq<u8>,
    name: Seq<u8>,
    body: Seq<u8>,
    stamp: Seq<u8>,
    later: Option<Seq<u8>>,
)
    requires
        is_stamp_bytes(stamp),
        end_marker_free(body, name),
    ensures
        patched(doc, name, body, Some(stamp)) matches PatchView::Updated(d) ==> patched(
            d,
            name,
            body,
            later,
        ) == PatchView::Unchanged,
        patched(doc, name, body, Some(stamp)) == PatchView::Unchanged ==> patched(
            doc,
            name,
            body,
            later,
        ) == PatchView::Unchanged,
{
    lemma_marker_bytes();
    lemma_located_bounds(doc, name);
    match patched(doc, name, body, Some(stamp)) {
        PatchView::Updated(d) => {
            let s = located(doc, name)->Ok_0;
            let x = written_body(stamp, body);
            let e = end_marker(name);
            let prefix = start_prefix(name);
            let named = s.start + prefix.len();
            let close = s.content - 3;
            let end = s.content + x.len();
            lemma_find_from(doc, close_bytes(), named);
            lemma_find_from(doc, e, s.content);
            assert(d == replaced(doc, s, stamp, body));
            assert(d.subrange(0, s.content) =~= doc.subrange(0, s.content));
            lemma_first_start_agrees(doc, d, name, s.content);
            lemma_find_agrees(doc, d, close_bytes(), named, s.content);
            assert forall|k: int| 0 <= k < s.content implies d[k] == doc[k] by {
                assert(d.subrange(0, s.content)[k] == d[k]);
                assert(doc.subrange(0, s.content)[k] == doc[k]);
            }
            if close > named {
                assert(d.subrange(named + 1, close) =~= doc.subrange(named + 1, close));
            }
            // the end marker is found where it was written
            let tail = doc.subrange(s.end, doc.len() as int);
            assert(tail.subrange(0, e.len() as int) =~= doc.subrange(s.end, s.end + e.len()));
            assert(d.subrange(end, end + e.len()) =~= e);
            assert(occurs_at(d, e, end));
            assert forall|j: int| s.content <= j < end implies !occurs_at(d, e, j) by {
                let k = j - s.content;
                lemma_written_body_end_marker(stamp, body, name, k);
                let inner = x + tail;
                assert(d =~= doc.subrange(0, s.content) + inner);
                lemma_occurs_shift(doc.subrange(0, s.content), inner, e, k);
                assert(inner.subrange(0, (x.len() + e.len()) as int) =~= x + e);
                if occurs_at(inner, e, k) {
                    assert((x + e).subrange(k, k + e.len()) =~= inner.subrange(k, k + e.len()));
                    assert(occurs_at(x + e, e, k));
                }
            }
            lemma_find_from_is(d, e, s.content, end);
            assert(d.subrange(s.content, end) =~= x);
            lemma_written_body_normal_form(stamp, body);
        },
        _ => {},
    }
}

/// The ends of the scale: no share at all draws a bar of empty glyphs only,
/// a full share one of full glyphs only; and in between the number of full
/// glyphs is the share of the 25 cells, plus a sixth of a cell, rounded down,
/// which makes 12 for one half.
pub proof fn law_bar_rounding(glyphs: Seq<char>, percent: nat)
    requires
        glyphs.len() == 4,
    ensures
        graph(glyphs, 0) == repeated(glyphs[0], 25),
        graph(glyphs, 10_000) == repeated(glyphs[3], 25),
        full_cells(5_000) == 12,
        graph(glyphs, percent).len() == 25,
        full_cells(percent) <= 25,
        percent <= 10_000 ==> 1200 * full_cells(percent) <= 3 * percent + 200 < 1200 * (full_cells(
            percent,
        ) + 1),
        forall|i: int| 0 <= i < full_cells(percent) ==> graph(glyphs, percent)[i] == glyphs[3],
        forall|i: int|
            full_cells(percent) < i < 25 ==> #[trigger] graph(glyphs, percent)[i] == glyphs[0],
{
    assert(graph(glyphs, 0) =~= repeated(glyphs[0], 25));
    assert(graph(glyphs, 10_000) =~= repeated(glyphs[3], 25));
}

/// Where a start marker is written after a text in which none begins, the
/// section starts there and its start marker ends where it was closed.
pub proof fn lemma_section_start(
    before: Seq<u8>,
    name: Seq<u8>,
    target: Option<Seq<u8>>,
    rest: Seq<u8>,
)
    requires
        forall|j: int|
            0 <= j < before.len() ==> !occurs_at(
                before + start_marker(name, target),
                declared_start(name),
                j,
            ),
        forall|j: int|
            0 <= j < before.len() ==> !occurs_at(
                before + start_marker(name, target),
                plain_start(name),
                j,
            ),
        target matches Some(t) ==> has_no_close(t),
    ensures
        ({
            let doc = before + start_marker(name, target) + rest;
            let named: int = (before.len() + start_prefix(name).len()) as int;
            let close: int = before.len() + start_marker(name, target).len() - 3;
            &&& first_start(doc, name) == Some(before.len() as int)
            &&& find_from(doc, close_bytes(), named) == Some(close)
            &&& named <= close
            &&& target is Some <==> close > named
            &&& target matches Some(t) ==> doc.subrange(named + 1, close) == t
        }),
{
    lemma_marker_bytes();
    let opening = start_marker(name, target);
    let doc = before + opening + rest;
    let n = start_prefix(name).len() as int;
    let at = before.len() as int;
    let head = before + opening;
    let declared = declared_start(name);
    let plain = plain_start(name);
    assert(doc =~= head + rest);
    assert forall|j: int| 0 <= j < at implies !occurs_at(doc, declared, j) && !occurs_at(
        doc,
        plain,
        j,
    ) by {
        lemma_occurs_prefix(head, rest, declared, j);
        lemma_occurs_prefix(head, rest, plain, j);
    }
    let named = at + n;
    match target {
        Some(t) => {
            assert(doc.subrange(at, at + n + 1) =~= declared);
            assert(doc[named] == TARGET_SEPARATOR);
            assert(doc.subrange(named + 1, named + 1 + t.len()) =~= t);
            assert(doc.subrange(named + 1 + t.len(), named + 1 + t.len() + 3) =~= close_bytes());
            lemma_first_start_is(doc, name, at);
            lemma_first_close(doc, named, t);
        },
        None => {
            assert(doc.subrange(at, at + n + 3) =~= plain);
            assert(doc.subrange(named, named + 3) =~= close_bytes());
            lemma_first_start_is(doc, name, at);
            assert(find_from(doc, close_bytes(), named) == Some(named));
        },
    }
}

/// Where an end marker is written after content in which none begins, it is
/// the first end marker after the content's start.
pub proof fn lemma_section_end(head: Seq<u8>, content: Seq<u8>, name: Seq<u8>, after: Seq<u8>)
    requires
        forall|j: int|
            0 <= j < content.len() ==> !occurs_at(content + end_marker(name), end_marker(name), j),
    ensures
        find_from(head + content + end_marker(name) + after, end_marker(name), head.len() as int)
            == Some((head.len() + content.len()) as int),
{
    let closing = end_marker(name);
    let doc = head + content + closing + after;
    let inside = head.len() as int;
    let end = inside + content.len();
    let inner = content + closing;
    assert(doc =~= head + (inner + after));
    assert(doc.subrange(end, end + closing.len()) =~= closing);
    assert forall|j: int| inside <= j < end implies !occurs_at(doc, closing, j) by {
        let k = j - inside;
        lemma_occurs_shift(head, inner + after, closing, k);
        lemma_occurs_prefix(inner, after, closing, k);
    }
    lemma_find_from_is(doc, closing, inside, end);
}

/// A document made of any text, a start marker, any content, the end
/// marker and any text again is patched in place: the section is found
/// where it was written, and the new document is the first text, the start
/// marker, the new content, the end marker and the last text, each of the
/// four kept byte for byte.
///
/// This holds where no start marker of the section begins in the first text,
/// the declared target does not hold `-->`, and the end marker does not
/// begin in the old content; what follows the end marker may hold anything,
/// a second end marker too.
pub proof fn law_section_in_place(
    before: Seq<u8>,
    name: Seq<u8>,
    target: Option<Seq<u8>>,
    content: Seq<u8>,
    after: Seq<u8>,
    body: Seq<u8>,
    stamp: Option<Seq<u8>>,
)
    requires
        forall|j: int|
            0 <= j < before.len() ==> !occurs_at(
                before + start_marker(name, target),
                declared_start(name),
                j,
            ),
        forall|j: int|
            0 <= j < before.len() ==> !occurs_at(
                before + start_marker(name, target),
                plain_start(name),
                j,
            ),
        target matches Some(t) ==> has_no_close(t),
        forall|j: int|
            0 <= j < content.len() ==> !occurs_at(content + end_marker(name), end_marker(name), j),
    ensures
        ({
            let opening = start_marker(name, target);
            let closing = end_marker(name);
            let doc = before + opening + content + closing + after;
            &&& located(doc, name) matches Ok(s) ==> {
                &&& s.start == before.len()
                &&& s.content == before.len() + opening.len()
                &&& s.end == before.len() + opening.len() + content.len()
                &&& s.target == match target {
                    Some(t) => Some(trimmed(t)),
                    None => None,
                }
            }
            &&& located(doc, name) matches Err(e) ==> e == LocateError::MissingTargetIdentifier
            &&& patched(doc, name, body, stamp) matches PatchView::Updated(d) ==> d == before
                + opening + written_body(stamp->Some_0, body) + closing + after
        }),
{
    let opening = start_marker(name, target);
    let closing = end_marker(name);
    let doc = before + opening + content + closing + after;
    let head = before + opening;
    let inside = head.len() as int;
    let end = inside + content.len();
    assert(doc =~= before + opening + (content + closing + after));
    lemma_section_start(before, name, target, content + closing + after);
    assert(doc =~= head + content + closing + after);
    lemma_section_end(head, content, name, after);
    assert(close_bytes().len() == 3) by {
        lemma_marker_bytes();
    }
    match patched(doc, name, body, stamp) {
        PatchView::Updated(d) => {
            assert(doc.subrange(0, inside) =~= before + opening);
            assert(doc.subrange(end, doc.len() as int) =~= closing + after);
            assert(d =~= before + opening + written_body(stamp->Some_0, body) + closing + after);
        },
        _ => {},
    }
}

} // verus!
