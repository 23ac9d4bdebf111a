//! The command grammar. One input line has the shape `[range]verb[argument]`
//! with `range ::= '%' | ';' | [address] [separator [address]]`,
//! `address ::= '.' | '$' | digit+`, `separator ::= ',' | ';'`,
//! `verb ::= 'wq' | letter | '='`, and the argument running to the end of
//! the line (so `wfoo.txt` is the verb `w` with the argument `foo.txt`).
//! The grammar is stated by the `spec_` functions here and the executable
//! scanner is proved against them.

use vstd::prelude::*;
use crate::command_structs::{Address, CommandView, EdCommand, RangeSep};
use crate::ed_command_error::EdCommandError;
use crate::numerals::{digits_to_usize, digits_value, is_digit_char};

verus! {

/// Whether `c` may appear in an alphabetic verb.
pub open spec fn is_verb_char(c: char) -> bool {
    ('a' <= c && c <= 'z') || ('A' <= c && c <= 'Z')
}

/// The end of the run of digit characters that starts at `i`.
pub open spec fn digit_run_end(s: Seq<char>, i: int) -> int
    decreases s.len() - i,
{
    if i < 0 || i >= s.len() {
        i
    } else if is_digit_char(s[i]) {
        digit_run_end(s, i + 1)
    } else {
        i
    }
}

/// A scan that saw digits up to but not past `j` has its run end at `j`.
pub proof fn lemma_digit_run_end_is(s: Seq<char>, i: int, j: int)
    requires
        0 <= i <= j <= s.len(),
        forall|k: int| i <= k < j ==> is_digit_char(s[k]),
        j == s.len() || !is_digit_char(s[j]),
    ensures
        digit_run_end(s, i) == j,
    decreases j - i,
{
    if i < j {
        lemma_digit_run_end_is(s, i + 1, j);
    }
}

/// What scanning for one address token at a position can yield: no token
/// there, a token with the position after it, or a line number too large for
/// the machine word.
pub enum AddressScan {
    Missing,
    Found(Address, int),
    TooLarge,
}

/// The address token starting at position `i`: `.`, `$`, or a maximal run of
/// digits. A digit run whose value exceeds the machine word is `TooLarge`;
/// anything else leaves the position untouched as `Missing`.
pub open spec fn spec_scan_address(s: Seq<char>, i: int) -> AddressScan {
    if i < s.len() && s[i] == '.' {
        AddressScan::Found(Address::Current, i + 1)
    } else if i < s.len() && s[i] == '$' {
        AddressScan::Found(Address::Last, i + 1)
    } else if i < s.len() && is_digit_char(s[i]) {
        let e = digit_run_end(s, i);
        let v = digits_value(s.subrange(i, e));
        if v <= usize::MAX {
            AddressScan::Found(Address::Absolute(v as usize), e)
        } else {
            AddressScan::TooLarge
        }
    } else {
        AddressScan::Missing
    }
}

/// The range prefix of a line: either the `%` shorthand (all lines), the
/// bare `;` shorthand (current line through the end), or
/// `[address][separator [address]]` with the defaulting rules: a missing
/// side of a written separator defaults to `Current`, and with no separator
/// the second address repeats the first. `Ok` carries the two addresses,
/// the separator, and the position where the verb begins; `Err` carries the
/// position of an oversized line number.
pub open spec fn spec_scan_range(s: Seq<char>) -> Result<(Address, RangeSep, Address, int), int> {
    if s.len() > 0 && s[0] == '%' {
        Ok((Address::Absolute(1), RangeSep::Comma, Address::Last, 1))
    } else if s.len() > 0 && s[0] == ';' {
        Ok((Address::Current, RangeSep::Semicolon, Address::Last, 1))
    } else {
        match spec_scan_address(s, 0) {
            AddressScan::TooLarge => Err(0),
            AddressScan::Missing => spec_scan_range_rest(s, Address::Current, 0),
            AddressScan::Found(a1, p) => spec_scan_range_rest(s, a1, p),
        }
    }
}

/// The remainder of a general range once the first address (or its default)
/// is known: an optional separator with an optional second address.
pub open spec fn spec_scan_range_rest(s: Seq<char>, a1: Address, p: int) -> Result<
    (Address, RangeSep, Address, int),
    int,
> {
    if 0 <= p < s.len() && (s[p] == ',' || s[p] == ';') {
        let sep = if s[p] == ';' {
            RangeSep::Semicolon
        } else {
            RangeSep::Comma
        };
        match spec_scan_address(s, p + 1) {
            AddressScan::TooLarge => Err(p + 1),
            AddressScan::Missing => Ok((a1, sep, Address::Current, p + 1)),
            AddressScan::Found(a2, q) => Ok((a1, sep, a2, q)),
        }
    } else {
        Ok((a1, RangeSep::Comma, a1, p))
    }
}

/// A whole string read as a range: the range prefix must cover the entire
/// string. `Err` carries the position where parsing stopped.
pub open spec fn spec_parse_range(s: Seq<char>) -> Result<(Address, RangeSep, Address), int> {
    match spec_scan_range(s) {
        Err(p) => Err(p),
        Ok((a1, sep, a2, p)) => if p == s.len() {
            Ok((a1, sep, a2))
        } else {
            Err(p)
        },
    }
}

/// The verb at position `p`: a single `=`, the two-letter verb `wq`, or a
/// single letter, so that anything glued on after a one-letter verb is
/// argument text. Yields the verb text, if any, and the position after it.
pub open spec fn spec_scan_verb(s: Seq<char>, p: int) -> (Option<Seq<char>>, int) {
    if 0 <= p < s.len() && s[p] == '=' {
        (Some(s.subrange(p, p + 1)), p + 1)
    } else if 0 <= p && p + 1 < s.len() && s[p] == 'w' && s[p + 1] == 'q' {
        (Some(s.subrange(p, p + 2)), p + 2)
    } else if 0 <= p < s.len() && is_verb_char(s[p]) {
        (Some(s.subrange(p, p + 1)), p + 1)
    } else {
        (None, p)
    }
}

/// A whole input line: the range prefix, then the verb, then the argument
/// text running to the end of the line (absent when empty). `Err` carries
/// the position of an oversized line number.
pub open spec fn spec_parse_line(s: Seq<char>) -> Result<CommandView, int> {
    match spec_scan_range(s) {
        Err(p) => Err(p),
        Ok((a1, sep, a2, p)) => {
            let (verb, q) = spec_scan_verb(s, p);
            let args: Option<Seq<char>> = if q < s.len() {
                Some(s.subrange(q, s.len() as int))
            } else {
                None
            };
            Ok(
                CommandView {
                    address1: a1,
                    address2: a2,
                    range_sep: sep,
                    command: verb,
                    command_args: args,
                },
            )
        },
    }
}

/// The hand-written scanner for the command grammar.
pub struct EdCommandParser;

impl EdCommandParser {
    /// Scans one address token at `pos`. `Ok(None)` means no token starts
    /// there; `Err` carries the position of a line number too large for the
    /// machine word.
    pub fn scan_address(input: &str, pos: usize) -> (r: Result<Option<(Address, usize)>, usize>)
        requires
            pos <= input@.len(),
        ensures
            ({
                match spec_scan_address(input@, pos as int) {
                    AddressScan::Missing => r matches Ok(o) && o is None,
                    AddressScan::Found(a, e) => r matches Ok(Some((ra, re))) && ra == a && re
                        as int == e,
                    AddressScan::TooLarge => r matches Err(p) && p == pos,
                }
            }),
            (r matches Ok(Some((ra, re))) ==> pos < re <= input@.len()),
    {
        let n = input.unicode_len();
        if pos >= n {
            return Ok(None);
        }
        let c = input.get_char(pos);
        if c == '.' {
            return Ok(Some((Address::Current, pos + 1)));
        }
        if c == '$' {
            return Ok(Some((Address::Last, pos + 1)));
        }
        if c < '0' || c > '9' {
            return Ok(None);
        }
        let mut j = pos;
        loop
            invariant
                pos <= j <= n,
                n == input@.len(),
                forall|k: int| pos <= k < j ==> is_digit_char(input@[k]),
            ensures
                pos <= j <= n,
                forall|k: int| pos <= k < j ==> is_digit_char(input@[k]),
                j == n || !is_digit_char(input@[j as int]),
            decreases n - j,
        {
            if j == n {
                break ;
            }
            let d = input.get_char(j);
            if d < '0' || d > '9' {
                break ;
            }
            j = j + 1;
        }
        proof {
            lemma_digit_run_end_is(input@, pos as int, j as int);
        }
        match digits_to_usize(input, pos, j) {
            Some(v) => Ok(Some((Address::Absolute(v), j))),
            None => Err(pos),
        }
    }

    /// Scans the range prefix of a line. `Ok` carries the two addresses, the
    /// separator, and the position where the verb begins.
    pub fn scan_range(input: &str) -> (r: Result<(Address, RangeSep, Address, usize), usize>)
        ensures
            ({
                match spec_scan_range(input@) {
                    Ok((a1, sep, a2, p)) => r matches Ok((b1, bsep, b2, q)) && b1 == a1 && bsep
                        == sep && b2 == a2 && q as int == p,
                    Err(p) => r matches Err(q) && q as int == p,
                }
            }),
            (r matches Ok((b1, bsep, b2, q)) ==> q <= input@.len()),
    {
        let n = input.unicode_len();
        if n > 0 {
            let c0 = input.get_char(0);
            if c0 == '%' {
                return Ok((Address::Absolute(1), RangeSep::Comma, Address::Last, 1));
            }
            if c0 == ';' {
                return Ok((Address::Current, RangeSep::Semicolon, Address::Last, 1));
            }
        }
        let (a1, p): (Address, usize) = match Self::scan_address(input, 0) {
            Err(e) => {
                return Err(e);
            },
            Ok(None) => (Address::Current, 0),
            Ok(Some((a, q))) => (a, q),
        };
        if p < n {
            let c = input.get_char(p);
            if c == ',' || c == ';' {
                let sep = if c == ';' {
                    RangeSep::Semicolon
                } else {
                    RangeSep::Comma
                };
                return match Self::scan_address(input, p + 1) {
                    Err(e) => Err(e),
                    Ok(None) => Ok((a1, sep, Address::Current, p + 1)),
                    Ok(Some((a2, q))) => Ok((a1, sep, a2, q)),
                };
            }
        }
        Ok((a1, RangeSep::Comma, a1, p))
    }

    /// Scans the verb at `pos`: a single `=`, the two-letter verb `wq`, or a
    /// single letter. Yields the verb text, if any, and the position after
    /// it.
    pub fn scan_verb(input: &str, pos: usize) -> (r: (Option<String>, usize))
        requires
            pos <= input@.len(),
        ensures
            ({
                let (verb, q) = spec_scan_verb(input@, pos as int);
                r.1 as int == q && (match verb {
                    Some(t) => r.0 matches Some(v) && v@ == t,
                    None => r.0 is None,
                })
            }),
            r.1 <= input@.len(),
    {
        let n = input.unicode_len();
        if pos < n && input.get_char(pos) == '=' {
            let v = String::from_str(input.substring_char(pos, pos + 1));
            return (Some(v), pos + 1);
        }
        if pos < n && pos + 1 < n && input.get_char(pos) == 'w' && input.get_char(pos + 1) == 'q' {
            let v = String::from_str(input.substring_char(pos, pos + 2));
            return (Some(v), pos + 2);
        }
        if pos < n {
            let c = input.get_char(pos);
            let lower = 'a' <= c && c <= 'z';
            let upper = 'A' <= c && c <= 'Z';
            if lower || upper {
                let v = String::from_str(input.substring_char(pos, pos + 1));
                return (Some(v), pos + 1);
            }
        }
        (None, pos)
    }
}

/// Parses a whole string as a range of two addresses with a separator, as
/// written between the start of a command line and its verb.
pub fn parse_range(input: &str) -> (r: Result<(Address, RangeSep, Address), EdCommandError>)
    ensures
        ({
            match spec_parse_range(input@) {
                Ok(t) => r matches Ok(rt) && rt == t,
                Err(p) => r matches Err(e) && e == EdCommandError::ParseError(p as usize),
            }
        }),
{
    let n = input.unicode_len();
    match EdCommandParser::scan_range(input) {
        Err(q) => Err(EdCommandError::ParseError(q)),
        Ok((a1, sep, a2, q)) => {
            if q == n {
                Ok((a1, sep, a2))
            } else {
                Err(EdCommandError::ParseError(q))
            }
        },
    }
}

/// Whether a line of input mode is the terminator that ends collection: a
/// line consisting of exactly one full stop.
pub fn is_input_terminator(line: &str) -> (r: bool)
    ensures
        r == (line@ == "."@),
{
    proof {
        reveal_strlit(".");
    }
    let n = line.unicode_len();
    if n == 1 && line.get_char(0) == '.' {
        proof {
            assert(line@ =~= "."@);
        }
        true
    } else {
        false
    }
}

/// Parses one full input line into a structured command.
pub fn parse_line(input: &str) -> (r: Result<EdCommand, EdCommandError>)
    ensures
        ({
            match spec_parse_line(input@) {
                Ok(c) => r matches Ok(cmd) && cmd@ == c,
                Err(p) => r matches Err(e) && e == EdCommandError::ParseError(p as usize),
            }
        }),
{
    let n = input.unicode_len();
    let (a1, sep, a2, p) = match EdCommandParser::scan_range(input) {
        Err(q) => {
            return Err(EdCommandError::ParseError(q));
        },
        Ok(t) => t,
    };
    let (verb, q) = EdCommandParser::scan_verb(input, p);
    let args: Option<String> = if q < n {
        Some(String::from_str(input.substring_char(q, n)))
    } else {
        None
    };
    let cmd = EdCommand { address1: a1, address2: a2, range_sep: sep, command: verb, command_args: args };
    proof {
        let c = spec_parse_line(input@)->Ok_0;
        assert(cmd@.command == c.command);
        assert(cmd@.command_args == c.command_args);
    }
    Ok(cmd)
}

} // verus!
