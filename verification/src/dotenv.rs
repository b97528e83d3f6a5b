//! Reading `KEY=value` lines.

use crate::error::{Error, ErrorView};
use crate::strings::{
    chars_of, decimal_text, is_space, is_white_space, push_decimal, same_text,
};
use vstd::prelude::*;
use vstd::string::StringExecFns;

verus! {

/// What is stripped from the ends of a text.
#[derive(Debug, Clone, Copy)]
pub enum Strip {
    /// White space.
    WhiteSpace,
    /// Every occurrence of one character.
    Char(char),
}

impl Strip {
    /// Whether `c` is stripped.
    pub open spec fn takes(self, c: char) -> bool {
        match self {
            Strip::WhiteSpace => is_white_space(c),
            Strip::Char(d) => c == d,
        }
    }

    /// Whether `c` is stripped.
    pub fn strips(&self, c: char) -> (r: bool)
        ensures
            r == self.takes(c),
    {
        match self {
            Strip::WhiteSpace => is_space(c),
            Strip::Char(d) => c == *d,
        }
    }
}

/// The first offset at or after `i` that holds a character to keep.
pub open spec fn lead(s: Seq<char>, what: Strip, i: int) -> int
    decreases s.len() - i,
{
    if 0 <= i && i < s.len() && what.takes(s[i]) {
        lead(s, what, i + 1)
    } else {
        i
    }
}

/// The last offset at or before `j` that follows a character to keep, going
/// no lower than `lo`.
pub open spec fn trail(s: Seq<char>, what: Strip, lo: int, j: int) -> int
    decreases j,
{
    if lo < j && 0 < j && j <= s.len() && what.takes(s[j - 1]) {
        trail(s, what, lo, j - 1)
    } else {
        j
    }
}

/// `s` without the characters at its ends that `what` takes.
pub open spec fn stripped(s: Seq<char>, what: Strip) -> Seq<char> {
    s.subrange(lead(s, what, 0), trail(s, what, lead(s, what, 0), s.len() as int))
}

/// A value without the double quotes, and then the single quotes, around
/// it.
pub open spec fn unquoted(v: Seq<char>) -> Seq<char> {
    stripped(stripped(v, Strip::Char('"')), Strip::Char('\''))
}

/// Offset of the first `c` at or after `i`, or the length of `s`.
pub open spec fn first_of(s: Seq<char>, c: char, i: int) -> int
    decreases s.len() - i,
{
    if i < 0 || i >= s.len() {
        s.len() as int
    } else if s[i] == c {
        i
    } else {
        first_of(s, c, i + 1)
    }
}

/// The key and the value of a line: what stands before and after the first
/// `=`, trimmed, the value without quotes around it.  A line without `=` or
/// without a key is an error.
pub open spec fn parsed_line(line: Seq<char>) -> Result<(Seq<char>, Seq<char>), Seq<char>> {
    let at = first_of(line, '=', 0);
    if at >= line.len() {
        Err("Invalid format: missing '='"@)
    } else {
        let key = stripped(line.subrange(0, at), Strip::WhiteSpace);
        let value = stripped(line.subrange(at + 1, line.len() as int), Strip::WhiteSpace);
        if key.len() == 0 {
            Err("Empty key"@)
        } else {
            Ok((key, unquoted(value)))
        }
    }
}

/// A line that holds no variable: a blank one, or a comment.
pub open spec fn is_skipped(line: Seq<char>) -> bool {
    let t = stripped(line, Strip::WhiteSpace);
    t.len() == 0 || t[0] == '#'
}

/// The variables after the lines from index `i` on have been read into
/// `vars`, and the number and the fault of the first line that could not be
/// read, if there is one; reading stops there.
pub open spec fn loaded(
    vars: Map<Seq<char>, Seq<char>>,
    lines: Seq<String>,
    i: int,
) -> (Map<Seq<char>, Seq<char>>, Option<(int, Seq<char>)>)
    decreases lines.len() - i,
{
    if i < 0 || i >= lines.len() {
        (vars, None)
    } else if is_skipped(lines[i]@) {
        loaded(vars, lines, i + 1)
    } else {
        match parsed_line(stripped(lines[i]@, Strip::WhiteSpace)) {
            Ok((key, value)) => loaded(vars.insert(key, value), lines, i + 1),
            Err(fault) => (vars, Some((i + 1, fault))),
        }
    }
}

/// The variables that a list of pairs holds: a later pair replaces an
/// earlier one with the same key.
pub open spec fn vars_map(pairs: Seq<(String, String)>) -> Map<Seq<char>, Seq<char>>
    decreases pairs.len(),
{
    if pairs.len() == 0 {
        Map::empty()
    } else {
        vars_map(pairs.drop_last()).insert(pairs.last().0@, pairs.last().1@)
    }
}

/// The characters between two offsets, as a text.
pub fn text_between(s: &Vec<char>, from: usize, to: usize) -> (r: String)
    requires
        from <= to <= s.len(),
    ensures
        r@ == s@.subrange(from as int, to as int),
{
    let mut out = String::new();
    let mut i: usize = from;
    while i < to
        invariant
            from <= i <= to <= s.len(),
            out@ == s@.subrange(from as int, i as int),
        decreases to - i,
    {
        out.push(s[i]);
        i += 1;
        assert(out@ =~= s@.subrange(from as int, i as int));
    }
    out
}

/// The characters between two offsets.
pub fn chars_between(s: &Vec<char>, from: usize, to: usize) -> (r: Vec<char>)
    requires
        from <= to <= s.len(),
    ensures
        r@ == s@.subrange(from as int, to as int),
{
    let mut out: Vec<char> = Vec::new();
    let mut i: usize = from;
    while i < to
        invariant
            from <= i <= to <= s.len(),
            out@ == s@.subrange(from as int, i as int),
        decreases to - i,
    {
        out.push(s[i]);
        i += 1;
        assert(out@ =~= s@.subrange(from as int, i as int));
    }
    out
}

/// `s` without the characters at its ends that `what` takes.
pub fn strip(s: &Vec<char>, what: Strip) -> (r: Vec<char>)
    ensures
        r@ == stripped(s@, what),
{
    let mut a: usize = 0;
    while a < s.len() && what.strips(s[a])
        invariant
            a <= s.len(),
            lead(s@, what, 0) == lead(s@, what, a as int),
        decreases s.len() - a,
    {
        a += 1;
    }
    let mut b: usize = s.len();
    while a < b && what.strips(s[b - 1])
        invariant
            a <= b <= s.len(),
            trail(s@, what, a as int, s@.len() as int) == trail(s@, what, a as int, b as int),
        decreases b,
    {
        b -= 1;
    }
    chars_between(s, a, b)
}

/// The variables read from a file of `KEY=value` lines.
#[derive(Debug)]
pub struct Dotenv {
    vars: Vec<(String, String)>,
}

/// A key and a value or a fault, seen as a mathematical value.
pub open spec fn line_view(r: Result<(String, String), String>) -> Result<
    (Seq<char>, Seq<char>),
    Seq<char>,
> {
    match r {
        Ok((k, v)) => Ok((k@, v@)),
        Err(m) => Err(m@),
    }
}

impl Dotenv {
    /// The variables and their values.
    pub closed spec fn view(&self) -> Map<Seq<char>, Seq<char>> {
        vars_map(self.vars@)
    }

    /// No variables.
    pub fn new() -> (d: Dotenv)
        ensures
            d@ == Map::<Seq<char>, Seq<char>>::empty(),
    {
        Dotenv { vars: Vec::new() }
    }

    /// Reads one line that is neither blank nor a comment.
    pub fn parse_line(&self, line: &str) -> (r: Result<(String, String), String>)
        ensures
            line_view(r) == parsed_line(line@),
    {
        let chars = chars_of(line);
        let mut at: usize = 0;
        while at < chars.len() && chars[at] != '='
            invariant
                at <= chars.len(),
                chars@ == line@,
                first_of(line@, '=', 0) == first_of(line@, '=', at as int),
            decreases chars.len() - at,
        {
            at += 1;
        }
        if at >= chars.len() {
            return Err("Invalid format: missing '='".to_owned());
        }
        let before = chars_between(&chars, 0, at);
        let after = chars_between(&chars, at + 1, chars.len());
        let key = strip(&before, Strip::WhiteSpace);
        let value = strip(&after, Strip::WhiteSpace);
        if key.len() == 0 {
            return Err("Empty key".to_owned());
        }
        let bare = strip(&strip(&value, Strip::Char('"')), Strip::Char('\''));
        assert(key@.subrange(0, key@.len() as int) =~= key@);
        assert(bare@.subrange(0, bare@.len() as int) =~= bare@);
        Ok((text_between(&key, 0, key.len()), text_between(&bare, 0, bare.len())))
    }

    /// Sets a variable.
    pub fn insert(&mut self, key: String, value: String)
        ensures
            final(self)@ == old(self)@.insert(key@, value@),
    {
        let ghost before = self.vars@;
        self.vars.push((key, value));
        assert(self.vars@.drop_last() =~= before);
    }

    /// The value of a variable.
    pub fn get(&self, key: &str) -> (r: Option<&String>)
        ensures
            match r {
                Some(v) => self@.contains_key(key@) && self@[key@] == v@,
                None => !self@.contains_key(key@),
            },
    {
        let mut i: usize = self.vars.len();
        assert(self.vars@.subrange(0, i as int) =~= self.vars@);
        while i > 0
            invariant
                i <= self.vars@.len(),
                self@.contains_key(key@) == vars_map(self.vars@.subrange(0, i as int)).contains_key(
                    key@,
                ),
                self@.contains_key(key@) ==> self@[key@] == vars_map(
                    self.vars@.subrange(0, i as int),
                )[key@],
            decreases i,
        {
            let ghost upto = self.vars@.subrange(0, i as int);
            assert(upto.drop_last() =~= self.vars@.subrange(0, i - 1));
            assert(upto.last() == self.vars@[i - 1]);
            i -= 1;
            if same_text(self.vars[i].0.as_str(), key) {
                return Some(&self.vars[i].1);
            }
        }
        assert(self.vars@.subrange(0, 0) =~= Seq::<(String, String)>::empty());
        None
    }

    /// The variables in the order in which they were set; where a key stands
    /// twice the later value holds.
    pub fn entries(&self) -> (r: &Vec<(String, String)>)
        ensures
            vars_map(r@) == self@,
    {
        &self.vars
    }

    /// The fault reported for a line.
    pub open spec fn fault_text(line: int, fault: Seq<char>) -> Seq<char> {
        "Error on line "@ + decimal_text(line as nat) + ": "@ + fault
    }

    /// Reads the lines of a file: blank lines and lines that start with `#`
    /// are passed over, every other line sets a variable.  Reading stops at
    /// the first line that cannot be read, with the variables of the lines
    /// before it set.
    pub fn load_lines(&mut self, lines: &Vec<String>) -> (r: Result<(), Error>)
        ensures
            final(self)@ == loaded(old(self)@, lines@, 0).0,
            match loaded(old(self)@, lines@, 0).1 {
                None => r is Ok,
                Some((line, fault)) => r matches Err(e) && e@ == ErrorView::ConfigError(
                    Self::fault_text(line, fault),
                ),
            },
    {
        let mut i: usize = 0;
        while i < lines.len()
            invariant
                i <= lines.len(),
                loaded(old(self)@, lines@, 0) == loaded(self@, lines@, i as int),
            decreases lines.len() - i,
        {
            let chars = chars_of(lines[i].as_str());
            let kept = strip(&chars, Strip::WhiteSpace);
            if kept.len() == 0 || kept[0] == '#' {
                i += 1;
            } else {
                let line = text_between(&kept, 0, kept.len());
                assert(kept@.subrange(0, kept@.len() as int) =~= kept@);
                assert(line@ =~= stripped(lines@[i as int]@, Strip::WhiteSpace));
                match self.parse_line(line.as_str()) {
                    Ok((key, value)) => {
                        self.insert(key, value);
                        i += 1;
                    },
                    Err(fault) => {
                        let mut notice = "Error on line ".to_owned();
                        push_decimal(&mut notice, i as u64 + 1);
                        notice.append(": ");
                        notice.append(fault.as_str());
                        return Err(Error::ConfigError(notice));
                    },
                }
            }
        }
        Ok(())
    }
}

} // verus!
