//! Byte-string primitives: substring search, white-space trimming and line
//! splitting, each with a mathematical model over `Seq<u8>`.
//!
//! Documents are handled as UTF-8 bytes.  White space is what `str::trim`
//! strips, recognised by its UTF-8 encoding.

use vstd::prelude::*;
use vstd::string::StringSliceAdditionalSpecFns;
use vstd::utf8::{decode_utf8, valid_utf8};

verus! {

/// `pat` occurs in `s` at offset `i`.
pub open spec fn occurs_at(s: Seq<u8>, pat: Seq<u8>, i: int) -> bool {
    &&& 0 <= i
    &&& i + pat.len() <= s.len()
    &&& s.subrange(i, i + pat.len()) == pat
}

/// Offset of the first occurrence of `pat` in `s` at or after `from`.
pub open spec fn find_from(s: Seq<u8>, pat: Seq<u8>, from: int) -> Option<int>
    decreases s.len() - from,
{
    if from < 0 || from + pat.len() > s.len() {
        None
    } else if occurs_at(s, pat, from) {
        Some(from)
    } else if from >= s.len() {
        None
    } else {
        find_from(s, pat, from + 1)
    }
}

/// The earlier of two offsets, where there is any.
pub open spec fn earlier(a: Option<int>, b: Option<int>) -> Option<int> {
    match (a, b) {
        (Some(i), Some(j)) => if i <= j {
            Some(i)
        } else {
            Some(j)
        },
        (Some(i), None) => Some(i),
        (None, Some(j)) => Some(j),
        (None, None) => None,
    }
}

/// `s` begins with `pat`.
pub open spec fn has_prefix(s: Seq<u8>, pat: Seq<u8>) -> bool {
    occurs_at(s, pat, 0)
}

/// `s` ends with `pat`.
pub open spec fn has_suffix(s: Seq<u8>, pat: Seq<u8>) -> bool {
    occurs_at(s, pat, s.len() - pat.len())
}

/// An exec offset seen as a mathematical one.
pub open spec fn offset_view(r: Option<usize>) -> Option<int> {
    match r {
        Some(i) => Some(i as int),
        None => None,
    }
}

/// What `find_from` returns is the least offset at or after `from` where `pat`
/// occurs, and `None` exactly when there is no such offset.
pub proof fn lemma_find_from(s: Seq<u8>, pat: Seq<u8>, from: int)
    requires
        0 <= from,
    ensures
        match find_from(s, pat, from) {
            Some(i) => {
                &&& from <= i
                &&& occurs_at(s, pat, i)
                &&& forall|j: int| from <= j < i ==> !occurs_at(s, pat, j)
            },
            None => forall|j: int| from <= j ==> !occurs_at(s, pat, j),
        },
    decreases s.len() - from,
{
    if from + pat.len() > s.len() {
    } else if occurs_at(s, pat, from) {
    } else if from >= s.len() {
    } else {
        lemma_find_from(s, pat, from + 1);
    }
}

/// An occurrence with none before it is the one `find_from` returns.
pub proof fn lemma_find_from_is(s: Seq<u8>, pat: Seq<u8>, from: int, i: int)
    requires
        0 <= from <= i,
        occurs_at(s, pat, i),
        forall|j: int| from <= j < i ==> !occurs_at(s, pat, j),
    ensures
        find_from(s, pat, from) == Some(i),
    decreases i - from,
{
    if from < i {
        lemma_find_from_is(s, pat, from + 1, i);
    }
}

/// Whether `pat` occurs in `s` at offset `i`.
pub fn matches_at(s: &[u8], pat: &[u8], i: usize) -> (r: bool)
    ensures
        r == occurs_at(s@, pat@, i as int),
{
    if pat.len() > s.len() || i > s.len() - pat.len() {
        return false;
    }
    let mut k: usize = 0;
    while k < pat.len()
        invariant
            k <= pat.len(),
            i + pat.len() <= s.len(),
            forall|j: int| 0 <= j < k ==> s@[i + j] == pat@[j],
        decreases pat.len() - k,
    {
        if s[i + k] != pat[k] {
            assert(s@.subrange(i as int, i + pat.len())[k as int] == s@[i + k]);
            return false;
        }
        k += 1;
    }
    assert(s@.subrange(i as int, i + pat.len()) =~= pat@);
    true
}

/// Offset of the first occurrence of `pat` in `s` at or after `from`.
pub fn find(s: &[u8], pat: &[u8], from: usize) -> (r: Option<usize>)
    ensures
        offset_view(r) == find_from(s@, pat@, from as int),
{
    if pat.len() > s.len() || from > s.len() - pat.len() {
        return None;
    }
    let last: usize = s.len() - pat.len();
    let mut i: usize = from;
    while i < last
        invariant
            from <= i <= last,
            last == s.len() - pat.len(),
            find_from(s@, pat@, from as int) == find_from(s@, pat@, i as int),
        decreases last - i,
    {
        if matches_at(s, pat, i) {
            return Some(i);
        }
        i += 1;
    }
    if matches_at(s, pat, last) {
        Some(last)
    } else {
        assert(find_from(s@, pat@, last + 1) is None);
        None
    }
}

/// Whether `s` begins with `pat`.
pub fn starts_with(s: &[u8], pat: &[u8]) -> (r: bool)
    ensures
        r == has_prefix(s@, pat@),
{
    matches_at(s, pat, 0)
}

/// Whether `s` ends with `pat`.
pub fn ends_with(s: &[u8], pat: &[u8]) -> (r: bool)
    ensures
        r == has_suffix(s@, pat@),
{
    if pat.len() > s.len() {
        return false;
    }
    matches_at(s, pat, s.len() - pat.len())
}

/// A copy of `s[from..to]`.
pub fn copy_range(s: &[u8], from: usize, to: usize) -> (r: Vec<u8>)
    requires
        from <= to <= s.len(),
    ensures
        r@ == s@.subrange(from as int, to as int),
{
    let mut out: Vec<u8> = Vec::new();
    let mut i: usize = from;
    while i < to
        invariant
            from <= i <= to <= s.len(),
            out@ == s@.subrange(from as int, i as int),
        decreases to - i,
    {
        out.push(s[i]);
        i += 1;
        assert(out@ =~= s@.subrange(from as int, i as int));
    }
    out
}

/// Appends all of `tail` to `out`.
pub fn append(out: &mut Vec<u8>, tail: &[u8])
    ensures
        final(out)@ == old(out)@ + tail@,
{
    let mut i: usize = 0;
    while i < tail.len()
        invariant
            i <= tail.len(),
            out@ == old(out)@ + tail@.subrange(0, i as int),
        decreases tail.len() - i,
    {
        out.push(tail[i]);
        i += 1;
        assert(out@ =~= old(out)@ + tail@.subrange(0, i as int));
    }
    assert(tail@.subrange(0, tail@.len() as int) =~= tail@);
}

/// Whether two byte strings hold the same bytes.
pub fn same_bytes(a: &[u8], b: &[u8]) -> (r: bool)
    ensures
        r == (a@ == b@),
{
    if a.len() != b.len() {
        return false;
    }
    let r = matches_at(a, b, 0);
    assert(a@.subrange(0, a@.len() as int) =~= a@);
    r
}

/// The byte is one of the white-space characters of ASCII.
pub open spec fn is_ascii_space(b: u8) -> bool {
    b == 0x20 || (0x09 <= b && b <= 0x0d)
}

/// The two bytes encode U+0085 or U+00A0.
pub open spec fn is_space_pair(a: u8, b: u8) -> bool {
    a == 0xc2 && (b == 0x85 || b == 0xa0)
}

/// The three bytes encode one of the white-space characters above U+07FF:
/// U+1680, U+2000 to U+200A, U+2028, U+2029, U+202F, U+205F, U+3000.
pub open spec fn is_space_triple(a: u8, b: u8, c: u8) -> bool {
    ||| (a == 0xe1 && b == 0x9a && c == 0x80)
    ||| (a == 0xe2 && b == 0x80 && ((0x80 <= c && c <= 0x8a) || c == 0xa8 || c == 0xa9 || c
        == 0xaf))
    ||| (a == 0xe2 && b == 0x81 && c == 0x9f)
    ||| (a == 0xe3 && b == 0x80 && c == 0x80)
}

/// Number of bytes of the white-space character encoded at offset `i`, and 0
/// where none is.
pub open spec fn space_width(s: Seq<u8>, i: int) -> int {
    if 0 <= i && i < s.len() && is_ascii_space(s[i]) {
        1
    } else if 0 <= i && i + 1 < s.len() && is_space_pair(s[i], s[i + 1]) {
        2
    } else if 0 <= i && i + 2 < s.len() && is_space_triple(s[i], s[i + 1], s[i + 2]) {
        3
    } else {
        0
    }
}

/// Number of bytes of the white-space character that ends just before offset
/// `j` without reaching below `lo`, and 0 where none does.
pub open spec fn space_width_back(s: Seq<u8>, lo: int, j: int) -> int {
    if lo <= j - 1 && space_width(s, j - 1) == 1 {
        1
    } else if lo <= j - 2 && space_width(s, j - 2) == 2 {
        2
    } else if lo <= j - 3 && space_width(s, j - 3) == 3 {
        3
    } else {
        0
    }
}

/// The first offset at or after `i` at which no white space starts.
pub open spec fn skip_spaces(s: Seq<u8>, i: int) -> int
    decreases s.len() - i,
{
    if space_width(s, i) > 0 {
        skip_spaces(s, i + space_width(s, i))
    } else {
        i
    }
}

/// The last offset at or before `j` before which no white space ends, going
/// no lower than `lo`.
pub open spec fn drop_spaces(s: Seq<u8>, lo: int, j: int) -> int
    decreases j - lo,
{
    if space_width_back(s, lo, j) > 0 {
        drop_spaces(s, lo, j - space_width_back(s, lo, j))
    } else {
        j
    }
}

/// Where the trimmed text starts.
pub open spec fn trim_start(s: Seq<u8>) -> int {
    skip_spaces(s, 0)
}

/// Where the trimmed text ends.
pub open spec fn trim_end(s: Seq<u8>) -> int {
    drop_spaces(s, trim_start(s), s.len() as int)
}

/// `s` without its leading and trailing white space.
pub open spec fn trimmed(s: Seq<u8>) -> Seq<u8> {
    s.subrange(trim_start(s), trim_end(s))
}

/// Neither end of `s` is white space, and `s` is not empty.
pub open spec fn is_trim(s: Seq<u8>) -> bool {
    &&& s.len() > 0
    &&& space_width(s, 0) == 0
    &&& space_width_back(s, 0, s.len() as int) == 0
}

/// Skipping white space moves forward and stays inside the text.
pub proof fn lemma_skip_spaces_bounds(s: Seq<u8>, i: int)
    requires
        0 <= i <= s.len(),
    ensures
        i <= skip_spaces(s, i) <= s.len(),
    decreases s.len() - i,
{
    if space_width(s, i) > 0 {
        lemma_skip_spaces_bounds(s, i + space_width(s, i));
    }
}

/// Dropping white space moves backward and stays at or above `lo`.
pub proof fn lemma_drop_spaces_bounds(s: Seq<u8>, lo: int, j: int)
    requires
        lo <= j,
    ensures
        lo <= drop_spaces(s, lo, j) <= j,
    decreases j - lo,
{
    if space_width_back(s, lo, j) > 0 {
        lemma_drop_spaces_bounds(s, lo, j - space_width_back(s, lo, j));
    }
}

/// The trimmed text lies inside the text.
pub proof fn lemma_trim_bounds(s: Seq<u8>)
    ensures
        0 <= trim_start(s) <= trim_end(s) <= s.len(),
{
    lemma_skip_spaces_bounds(s, 0);
    lemma_drop_spaces_bounds(s, trim_start(s), s.len() as int);
}

/// Text that neither starts nor ends with white space is its own trimmed
/// form.
pub proof fn lemma_trimmed_of_trim(s: Seq<u8>)
    requires
        is_trim(s),
    ensures
        trimmed(s) == s,
{
    assert(s.subrange(0, s.len() as int) =~= s);
}

/// The number of bytes of the white-space character encoded at offset `i`,
/// and 0 where none is.
pub fn space_width_at(s: &[u8], i: usize) -> (w: usize)
    ensures
        w == space_width(s@, i as int),
{
    if i >= s.len() {
        return 0;
    }
    let a: u8 = s[i];
    if a == 0x20 || (0x09 <= a && a <= 0x0d) {
        return 1;
    }
    if s.len() - i < 2 {
        return 0;
    }
    let b: u8 = s[i + 1];
    if a == 0xc2 && (b == 0x85 || b == 0xa0) {
        return 2;
    }
    if s.len() - i < 3 {
        return 0;
    }
    let c: u8 = s[i + 2];
    if (a == 0xe1 && b == 0x9a && c == 0x80) || (a == 0xe2 && b == 0x80 && ((0x80 <= c && c
        <= 0x8a) || c == 0xa8 || c == 0xa9 || c == 0xaf)) || (a == 0xe2 && b == 0x81 && c == 0x9f)
        || (a == 0xe3 && b == 0x80 && c == 0x80) {
        return 3;
    }
    0
}

/// The number of bytes of the white-space character that ends just before
/// offset `j` without reaching below `lo`, and 0 where none does.
pub fn space_width_before(s: &[u8], lo: usize, j: usize) -> (w: usize)
    requires
        lo <= j <= s.len(),
    ensures
        w == space_width_back(s@, lo as int, j as int),
{
    if j - lo >= 1 && space_width_at(s, j - 1) == 1 {
        1
    } else if j - lo >= 2 && space_width_at(s, j - 2) == 2 {
        2
    } else if j - lo >= 3 && space_width_at(s, j - 3) == 3 {
        3
    } else {
        0
    }
}

/// The offsets between which the trimmed text lies.
pub fn trim_bounds(s: &[u8]) -> (r: (usize, usize))
    ensures
        r.0 == trim_start(s@),
        r.1 == trim_end(s@),
        r.0 <= r.1 <= s.len(),
{
    let mut a: usize = 0;
    loop
        invariant
            a <= s.len(),
            skip_spaces(s@, 0) == skip_spaces(s@, a as int),
        ensures
            space_width(s@, a as int) == 0,
        decreases s.len() - a,
    {
        let w = space_width_at(s, a);
        if w == 0 {
            break ;
        }
        a += w;
    }
    let mut b: usize = s.len();
    loop
        invariant
            a <= b <= s.len(),
            drop_spaces(s@, a as int, s@.len() as int) == drop_spaces(s@, a as int, b as int),
        ensures
            space_width_back(s@, a as int, b as int) == 0,
        decreases b - a,
    {
        let w = space_width_before(s, a, b);
        if w == 0 {
            break ;
        }
        b -= w;
    }
    (a, b)
}

/// A copy of `s` without its leading and trailing white space.
pub fn trim(s: &[u8]) -> (r: Vec<u8>)
    ensures
        r@ == trimmed(s@),
{
    let (a, b) = trim_bounds(s);
    copy_range(s, a, b)
}

/// The line feed.
pub const LINE_FEED: u8 = 0x0a;

/// Offset of the first line feed at or after `from`, or the length of `s`
/// where there is none.
pub open spec fn line_end(s: Seq<u8>, from: int) -> int
    decreases s.len() - from,
{
    if from < 0 || from >= s.len() {
        s.len() as int
    } else if s[from] == LINE_FEED {
        from
    } else {
        line_end(s, from + 1)
    }
}

/// The lines of `s` from offset `from` on: the text between line feeds.
pub open spec fn lines_from(s: Seq<u8>, from: int) -> Seq<Seq<u8>>
    decreases s.len() - from,
{
    let n = line_end(s, from);
    if from < 0 || from > s.len() {
        Seq::empty()
    } else if n >= s.len() {
        seq![s.subrange(from, s.len() as int)]
    } else if n < from {
        Seq::empty()
    } else {
        seq![s.subrange(from, n)] + lines_from(s, n + 1)
    }
}

/// The lines of `s`: what stands between its line feeds.  The empty text has
/// one empty line.
pub open spec fn split_lines(s: Seq<u8>) -> Seq<Seq<u8>> {
    lines_from(s, 0)
}

/// A line ends at the first line feed, or where the text ends.
pub proof fn lemma_line_end(s: Seq<u8>, from: int)
    requires
        0 <= from <= s.len(),
    ensures
        from <= line_end(s, from) <= s.len(),
        line_end(s, from) < s.len() ==> s[line_end(s, from)] == LINE_FEED,
        forall|k: int| from <= k < line_end(s, from) ==> s[k] != LINE_FEED,
    decreases s.len() - from,
{
    if from < s.len() && s[from] != LINE_FEED {
        lemma_line_end(s, from + 1);
    }
}

/// Offset of the first line feed at or after `from`, or the length of `s`.
pub fn find_line_end(s: &[u8], from: usize) -> (n: usize)
    requires
        from <= s.len(),
    ensures
        n == line_end(s@, from as int),
        from <= n <= s.len(),
{
    let mut i: usize = from;
    while i < s.len()
        invariant
            from <= i <= s.len(),
            line_end(s@, from as int) == line_end(s@, i as int),
        decreases s.len() - i,
    {
        if s[i] == LINE_FEED {
            return i;
        }
        i += 1;
    }
    i
}

/// The text that `bytes` encode, where they are UTF-8.
///
/// Calls `core::str::from_utf8`.  Trusted: it returns a text exactly when the
/// bytes are well-formed UTF-8, and the text then has these bytes.
#[verifier::external_body]
pub(crate) fn utf8_text(bytes: &[u8]) -> (r: Option<&str>)
    ensures
        (r is Some) == valid_utf8(bytes@),
        r matches Some(t) ==> t.spec_bytes() == bytes@,
{
    match core::str::from_utf8(bytes) {
        Ok(t) => Some(t),
        Err(_) => None,
    }
}

/// The characters that well-formed bytes encode are those of the text with
/// these bytes.
pub proof fn lemma_decode_bytes_of(t: &str)
    ensures
        decode_utf8(t.spec_bytes()) == t@,
{
    vstd::utf8::encode_utf8_decode_utf8(t@);
}

/// Two texts that agree up to `limit` have the same first occurrence of
/// `pat`, where it ends at or before `limit`.
pub proof fn lemma_find_agrees(a: Seq<u8>, b: Seq<u8>, pat: Seq<u8>, from: int, limit: int)
    requires
        0 <= from,
        0 <= limit <= a.len(),
        limit <= b.len(),
        a.subrange(0, limit) == b.subrange(0, limit),
        find_from(a, pat, from) matches Some(i) && i + pat.len() <= limit,
    ensures
        find_from(b, pat, from) == find_from(a, pat, from),
{
    let i = find_from(a, pat, from)->Some_0;
    lemma_find_from(a, pat, from);
    assert forall|k: int| 0 <= k < limit implies a[k] == b[k] by {
        assert(a.subrange(0, limit)[k] == a[k]);
        assert(b.subrange(0, limit)[k] == b[k]);
    }
    assert(b.subrange(i, i + pat.len()) =~= a.subrange(i, i + pat.len()));
    assert forall|j: int| from <= j < i implies !occurs_at(b, pat, j) by {
        if occurs_at(b, pat, j) {
            assert(b.subrange(j, j + pat.len()) =~= a.subrange(j, j + pat.len()));
            assert(occurs_at(a, pat, j));
        }
    }
    lemma_find_from_is(b, pat, from, i);
}

/// An occurrence in `pre + s` at or after the end of `pre` is one in `s`.
pub proof fn lemma_occurs_shift(pre: Seq<u8>, s: Seq<u8>, pat: Seq<u8>, j: int)
    requires
        0 <= j,
    ensures
        occurs_at(pre + s, pat, pre.len() + j) == occurs_at(s, pat, j),
{
    if j + pat.len() <= s.len() {
        assert((pre + s).subrange(pre.len() + j, pre.len() + j + pat.len()) =~= s.subrange(
            j,
            j + pat.len(),
        ));
    }
}

/// An occurrence in `s + post` that ends inside `s` is one in `s`.
pub proof fn lemma_occurs_prefix(s: Seq<u8>, post: Seq<u8>, pat: Seq<u8>, j: int)
    requires
        0 <= j,
        j + pat.len() <= s.len(),
    ensures
        occurs_at(s + post, pat, j) == occurs_at(s, pat, j),
{
    assert((s + post).subrange(j, j + pat.len()) =~= s.subrange(j, j + pat.len()));
}

/// Where two texts agree up to `limit`, a pattern that does not occur in the
/// one before `bound` does not occur in the other before `bound` either, as
/// long as an occurrence before `bound` would end at or before `limit`.
pub proof fn lemma_absent_agrees(a: Seq<u8>, b: Seq<u8>, pat: Seq<u8>, bound: int, limit: int)
    requires
        0 <= limit <= a.len(),
        limit <= b.len(),
        a.subrange(0, limit) == b.subrange(0, limit),
        bound + pat.len() <= limit + 1,
        forall|j: int| 0 <= j < bound ==> !occurs_at(a, pat, j),
    ensures
        forall|j: int| 0 <= j < bound ==> !occurs_at(b, pat, j),
{
    assert forall|k: int| 0 <= k < limit implies a[k] == b[k] by {
        assert(a.subrange(0, limit)[k] == a[k]);
        assert(b.subrange(0, limit)[k] == b[k]);
    }
    assert forall|j: int| 0 <= j < bound implies !occurs_at(b, pat, j) by {
        if occurs_at(b, pat, j) {
            assert(b.subrange(j, j + pat.len()) =~= a.subrange(j, j + pat.len()));
            assert(occurs_at(a, pat, j));
        }
    }
}

/// A pattern that does not occur before `bound` is first found at or after
/// `bound`, if at all.
pub proof fn lemma_find_not_before(s: Seq<u8>, pat: Seq<u8>, bound: int)
    requires
        forall|j: int| 0 <= j < bound ==> !occurs_at(s, pat, j),
    ensures
        find_from(s, pat, 0) matches Some(i) ==> bound <= i,
{
    lemma_find_from(s, pat, 0);
}

/// The bytes of an occurrence.
pub proof fn lemma_occurs_bytes(s: Seq<u8>, pat: Seq<u8>, j: int, k: int)
    requires
        occurs_at(s, pat, j),
        0 <= k < pat.len(),
    ensures
        s[j + k] == pat[k],
{
    assert(s.subrange(j, j + pat.len())[k] == s[j + k]);
}

/// Where the line that starts at `from` ends, in a text that continues with
/// `c`.
pub proof fn lemma_line_end_concat(a: Seq<u8>, c: Seq<u8>, from: int)
    requires
        0 <= from <= a.len(),
    ensures
        line_end(a + c, from) == if line_end(a, from) < a.len() {
            line_end(a, from)
        } else {
            a.len() + line_end(c, 0)
        },
    decreases a.len() - from,
{
    if from < a.len() {
        assert((a + c)[from] == a[from]);
        if a[from] != LINE_FEED {
            lemma_line_end_concat(a, c, from + 1);
        }
    } else {
        lemma_line_end_shift(a, c, 0);
    }
}

/// Where a line of `c` ends, seen from a text that starts with `a`.
pub proof fn lemma_line_end_shift(a: Seq<u8>, c: Seq<u8>, k: int)
    requires
        0 <= k <= c.len(),
    ensures
        line_end(a + c, a.len() + k) == a.len() + line_end(c, k),
    decreases c.len() - k,
{
    if k < c.len() {
        assert((a + c)[a.len() + k] == c[k]);
        if c[k] != LINE_FEED {
            lemma_line_end_shift(a, c, k + 1);
        }
    }
}

/// The lines of `a + c` from inside `c` on are lines of `c`.
pub proof fn lemma_lines_shift(a: Seq<u8>, c: Seq<u8>, k: int)
    requires
        0 <= k <= c.len(),
    ensures
        lines_from(a + c, a.len() + k) == lines_from(c, k),
    decreases c.len() - k,
{
    lemma_line_end_shift(a, c, k);
    lemma_line_end(c, k);
    let n = line_end(c, k);
    if n >= c.len() {
        assert((a + c).subrange(a.len() + k, (a + c).len() as int) =~= c.subrange(
            k,
            c.len() as int,
        ));
    } else {
        assert((a + c).subrange(a.len() + k, a.len() + n) =~= c.subrange(k, n));
        lemma_lines_shift(a, c, n + 1);
    }
}

/// The lines of two texts joined by a line feed are the lines of the first
/// and then those of the second.
pub proof fn lemma_lines_concat(a: Seq<u8>, b: Seq<u8>, from: int)
    requires
        0 <= from <= a.len(),
    ensures
        lines_from(a + seq![LINE_FEED] + b, from) == lines_from(a, from) + lines_from(b, 0),
    decreases a.len() - from,
{
    let whole = a + seq![LINE_FEED] + b;
    let tail = seq![LINE_FEED] + b;
    assert(whole =~= a + tail);
    lemma_line_end_concat(a, tail, from);
    lemma_line_end(a, from);
    assert(line_end(tail, 0) == 0);
    let n = line_end(a, from);
    if n < a.len() {
        assert(whole.subrange(from, n) =~= a.subrange(from, n));
        lemma_lines_concat(a, b, n + 1);
        assert(lines_from(whole, from) =~= lines_from(a, from) + lines_from(b, 0));
    } else {
        assert(line_end(whole, from) == a.len());
        assert(whole.subrange(from, a.len() as int) =~= a.subrange(from, a.len() as int));
        assert(whole =~= (a + seq![LINE_FEED]) + b);
        lemma_lines_shift(a + seq![LINE_FEED], b, 0);
        assert(lines_from(whole, from) =~= lines_from(a, from) + lines_from(b, 0));
    }
}

/// A text without a line feed is one line.
pub proof fn lemma_single_line(s: Seq<u8>)
    requires
        forall|k: int| 0 <= k < s.len() ==> s[k] != LINE_FEED,
    ensures
        split_lines(s) == seq![s],
{
    lemma_line_end(s, 0);
    assert(s.subrange(0, s.len() as int) =~= s);
}

} // verus!
