//! The line parser: turns one line of free text into a typed [`Command`].
//!
//! A line is trimmed, then split on runs of non-word characters into at
//! most three pieces: the command keyword (case-insensitive), the key, and
//! the rest of the line as the value (internal separators preserved).  Keys
//! and values are case-sensitive.  A missing or unknown keyword, a missing
//! argument, or trailing input yields a `ParseError` with a description, so
//! malformed input never reaches a store.

use vstd::prelude::*;
use vstd::string::StrSliceExecFns;
use vstd::string::StringExecFns;

use crate::enums::{Command, CommandModel};

verus! {

/// A word character: a letter, a digit or an underscore.
pub open spec fn is_word_char(c: char) -> bool {
    ('0' as u32 <= c as u32 && c as u32 <= '9' as u32) || ('a' as u32 <= c as u32 && c as u32
        <= 'z' as u32) || ('A' as u32 <= c as u32 && c as u32 <= 'Z' as u32) || c == '_'
}

/// A whitespace character, as trimming sees it.
pub open spec fn is_space_char(c: char) -> bool {
    c == ' ' || c == '\t' || c == '\n' || c == '\r' || c == '\u{b}' || c == '\u{c}'
}

/// The first position at or after `i` that does not hold whitespace.
pub open spec fn scan_space(s: Seq<char>, i: int) -> int
    recommends
        0 <= i <= s.len(),
    decreases s.len() - i when 0 <= i <= s.len()
{
    if i < s.len() && is_space_char(s[i]) {
        scan_space(s, i + 1)
    } else {
        i
    }
}

/// The position after the last whitespace run ending at `j`, scanning
/// backwards.
pub open spec fn scan_space_back(s: Seq<char>, j: int) -> int
    recommends
        0 <= j <= s.len(),
    decreases j when 0 <= j <= s.len()
{
    if j > 0 && is_space_char(s[j - 1]) {
        scan_space_back(s, j - 1)
    } else {
        j
    }
}

/// Scanning backwards never leaves the prefix it started in.
proof fn lemma_scan_space_back_bounds(s: Seq<char>, j: int)
    requires
        0 <= j <= s.len(),
    ensures
        0 <= scan_space_back(s, j) <= j,
    decreases j,
{
    if j > 0 && is_space_char(s[j - 1]) {
        lemma_scan_space_back_bounds(s, j - 1);
    }
}

/// The input without leading and trailing whitespace.
pub open spec fn trimmed(s: Seq<char>) -> Seq<char> {
    let a = scan_space(s, 0);
    let b = scan_space_back(s, s.len() as int);
    if a <= b {
        s.subrange(a, b)
    } else {
        Seq::empty()
    }
}

/// The first position at or after `i` that does not hold a word character.
pub open spec fn scan_word(s: Seq<char>, i: int) -> int
    recommends
        0 <= i <= s.len(),
    decreases s.len() - i when 0 <= i <= s.len()
{
    if i < s.len() && is_word_char(s[i]) {
        scan_word(s, i + 1)
    } else {
        i
    }
}

/// The first position at or after `i` that holds a word character.
pub open spec fn scan_sep(s: Seq<char>, i: int) -> int
    recommends
        0 <= i <= s.len(),
    decreases s.len() - i when 0 <= i <= s.len()
{
    if i < s.len() && !is_word_char(s[i]) {
        scan_sep(s, i + 1)
    } else {
        i
    }
}

/// Case-insensitive match of one character against a lower-case letter.
pub open spec fn eq_ignore_case_char(a: char, b: char) -> bool {
    a == b || ('A' as u32 <= a as u32 && a as u32 <= 'Z' as u32 && a as u32 + 32 == b as u32)
}

/// Case-insensitive equality of a token with a lower-case keyword.
pub open spec fn keyword_matches(tok: Seq<char>, kw: Seq<char>) -> bool {
    tok.len() == kw.len() && forall|i: int|
        0 <= i < tok.len() ==> eq_ignore_case_char(tok[i], #[trigger] kw[i])
}

/// The diagnostic for an unrecognised keyword, naming the token as typed.
pub open spec fn invalid_command_msg(cmd: Seq<char>) -> Seq<char> {
    "Invalid Command <"@ + cmd + ">"@
}

/// What parsing one line yields: the trimmed line is split into at most
/// three pieces on runs of non-word characters, the first piece selects the
/// command, and the argument rules of each command decide the rest.
pub open spec fn spec_parse(input: Seq<char>) -> CommandModel {
    let t = trimmed(input);
    let i1 = scan_word(t, 0);
    let cmd = t.subrange(0, i1);
    let j1 = scan_sep(t, i1);
    let i2 = scan_word(t, j1);
    let p2 = t.subrange(j1, i2);
    let j2 = scan_sep(t, i2);
    let p3 = t.subrange(j2, t.len() as int);
    let has2 = i1 < t.len();
    let has3 = has2 && i2 < t.len();
    if keyword_matches(cmd, "read"@) {
        if !has2 || p2.len() == 0 {
            CommandModel::ParseError("READ must supply key"@)
        } else if has3 {
            CommandModel::ParseError("Unexpected input after command"@)
        } else {
            CommandModel::Read(p2)
        }
    } else if keyword_matches(cmd, "write"@) {
        if has3 && p3.len() > 0 {
            CommandModel::Write(p2, p3)
        } else {
            CommandModel::ParseError("WRITE must supply key and value"@)
        }
    } else if keyword_matches(cmd, "delete"@) {
        if !has2 {
            CommandModel::ParseError("DELETE must supply key"@)
        } else if has3 {
            CommandModel::ParseError("Unexpected input after command"@)
        } else {
            CommandModel::Delete(p2)
        }
    } else if keyword_matches(cmd, "start"@) {
        if has2 {
            CommandModel::ParseError("Unexpected input after command"@)
        } else {
            CommandModel::Start
        }
    } else if keyword_matches(cmd, "commit"@) {
        if has2 {
            CommandModel::ParseError("Unexpected input after command"@)
        } else {
            CommandModel::Commit
        }
    } else if keyword_matches(cmd, "abort"@) {
        if has2 {
            CommandModel::ParseError("Unexpected input after command"@)
        } else {
            CommandModel::Abort
        }
    } else if keyword_matches(cmd, "quit"@) {
        if has2 {
            CommandModel::ParseError("Unexpected input after command"@)
        } else {
            CommandModel::Quit
        }
    } else if cmd.len() == 0 {
        CommandModel::ParseError("Must supply command"@)
    } else {
        CommandModel::ParseError(invalid_command_msg(cmd))
    }
}

/// Decides [`is_word_char`].
fn word_char(c: char) -> (r: bool)
    ensures
        r == is_word_char(c),
{
    ('0' as u32 <= c as u32 && c as u32 <= '9' as u32) || ('a' as u32 <= c as u32 && c as u32
        <= 'z' as u32) || ('A' as u32 <= c as u32 && c as u32 <= 'Z' as u32) || c == '_'
}

/// Decides [`is_space_char`].
fn space_char(c: char) -> (r: bool)
    ensures
        r == is_space_char(c),
{
    c == ' ' || c == '\t' || c == '\n' || c == '\r' || c == '\u{b}' || c == '\u{c}'
}

/// Computes [`scan_word`].
fn scan_word_from(s: &str, start: usize) -> (r: usize)
    requires
        start <= s@.len(),
    ensures
        r == scan_word(s@, start as int),
        start <= r <= s@.len(),
{
    let n = s.unicode_len();
    let mut i: usize = start;
    while i < n && word_char(s.get_char(i))
        invariant
            n == s@.len(),
            start <= i <= n,
            scan_word(s@, start as int) == scan_word(s@, i as int),
        decreases n - i,
    {
        i = i + 1;
    }
    i
}

/// Computes [`scan_sep`].
fn scan_sep_from(s: &str, start: usize) -> (r: usize)
    requires
        start <= s@.len(),
    ensures
        r == scan_sep(s@, start as int),
        start <= r <= s@.len(),
{
    let n = s.unicode_len();
    let mut i: usize = start;
    while i < n && !word_char(s.get_char(i))
        invariant
            n == s@.len(),
            start <= i <= n,
            scan_sep(s@, start as int) == scan_sep(s@, i as int),
        decreases n - i,
    {
        i = i + 1;
    }
    i
}

/// Decides [`keyword_matches`].
fn token_is(tok: &str, kw: &str) -> (r: bool)
    ensures
        r == keyword_matches(tok@, kw@),
{
    let n = tok.unicode_len();
    let m = kw.unicode_len();
    if n != m {
        return false;
    }
    let mut i: usize = 0;
    while i < n
        invariant
            n == tok@.len(),
            n == kw@.len(),
            0 <= i <= n,
            forall|j: int| 0 <= j < i ==> eq_ignore_case_char(tok@[j], #[trigger] kw@[j]),
        decreases n - i,
    {
        let a = tok.get_char(i);
        let b = kw.get_char(i);
        let matched = a == b || ('A' as u32 <= a as u32 && a as u32 <= 'Z' as u32 && a as u32 + 32
            == b as u32);
        if !matched {
            return false;
        }
        i = i + 1;
    }
    true
}

/// Turns lines of free text into typed commands.
pub struct CommandParser {}

impl CommandParser {
    /// Creates a parser.
    pub fn new() -> (r: CommandParser) {
        CommandParser {}
    }

    /// Parses one line.
    pub fn parse_line(&self, input: &str) -> (r: Command)
        ensures
            r@ == spec_parse(input@),
    {
        let n = input.unicode_len();
        let mut a: usize = 0;
        while a < n && space_char(input.get_char(a))
            invariant
                n == input@.len(),
                0 <= a <= n,
                scan_space(input@, 0) == scan_space(input@, a as int),
            decreases n - a,
        {
            a = a + 1;
        }
        let t: &str;
        if a == n {
            t = input.substring_char(n, n);
            proof {
                assert(scan_space(input@, 0) == n);
                lemma_scan_space_back_bounds(input@, n as int);
                assert(t@ =~= trimmed(input@));
            }
        } else {
            let mut b: usize = n;
            while b > a && space_char(input.get_char(b - 1))
                invariant
                    n == input@.len(),
                    a < n,
                    !is_space_char(input@[a as int]),
                    a < b <= n,
                    scan_space_back(input@, n as int) == scan_space_back(input@, b as int),
                decreases b,
            {
                b = b - 1;
            }
            t = input.substring_char(a, b);
            proof {
                assert(scan_space_back(input@, b as int) == b);
                assert(t@ == trimmed(input@));
            }
        }
        let m = t.unicode_len();
        let i1 = scan_word_from(t, 0);
        let cmd = t.substring_char(0, i1);
        let j1 = scan_sep_from(t, i1);
        let i2 = scan_word_from(t, j1);
        let p2 = t.substring_char(j1, i2);
        let j2 = scan_sep_from(t, i2);
        let p3 = t.substring_char(j2, m);
        if token_is(cmd, "read") {
            if i1 == m || p2.unicode_len() == 0 {
                Command::ParseError("READ must supply key".to_owned())
            } else if i2 < m {
                Command::ParseError("Unexpected input after command".to_owned())
            } else {
                Command::Read(p2.to_owned())
            }
        } else if token_is(cmd, "write") {
            if i1 < m && i2 < m && p3.unicode_len() > 0 {
                Command::Write(p2.to_owned(), p3.to_owned())
            } else {
                Command::ParseError("WRITE must supply key and value".to_owned())
            }
        } else if token_is(cmd, "delete") {
            if i1 == m {
                Command::ParseError("DELETE must supply key".to_owned())
            } else if i2 < m {
                Command::ParseError("Unexpected input after command".to_owned())
            } else {
                Command::Delete(p2.to_owned())
            }
        } else if token_is(cmd, "start") {
            if i1 < m {
                Command::ParseError("Unexpected input after command".to_owned())
            } else {
                Command::Start
            }
        } else if token_is(cmd, "commit") {
            if i1 < m {
                Command::ParseError("Unexpected input after command".to_owned())
            } else {
                Command::Commit
            }
        } else if token_is(cmd, "abort") {
            if i1 < m {
                Command::ParseError("Unexpected input after command".to_owned())
            } else {
                Command::Abort
            }
        } else if token_is(cmd, "quit") {
            if i1 < m {
                Command::ParseError("Unexpected input after command".to_owned())
            } else {
                Command::Quit
            }
        } else if i1 == 0 {
            Command::ParseError("Must supply command".to_owned())
        } else {
            let mut msg: String = "Invalid Command <".to_owned();
            msg.append(cmd);
            msg.append(">");
            Command::ParseError(msg)
        }
    }
}

} // verus!
