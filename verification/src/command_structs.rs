//! The structured form of one editor command: addresses, the range
//! separator, the verb, and its argument text.

use vstd::prelude::*;
use crate::numerals::{digits_to_usize, digits_value, is_digit_char};

verus! {

/// A symbolic or absolute reference to a line in the buffer.
///
/// * `Current` - the cursor (`.`), the default in most positions.
/// * `Absolute(n)` - a 1-indexed line number.
/// * `Last` - the final line (`$`).
/// * `Unset` - no address; a parser-internal sentinel that resolves like
///   `Current` and is never produced for a parsed command.
#[derive(Debug, PartialEq, Eq, Structural, Clone, Copy)]
pub enum Address {
    Current,
    Absolute(usize),
    Last,
    Unset,
}

/// What `Address::from_str` yields on each token: `"."` and `"$"` map to the
/// symbolic addresses, a non-empty run of decimal digits that fits the
/// machine word maps to `Absolute`, and everything else to `None`.
pub open spec fn spec_address_from_str(s: Seq<char>) -> Option<Address> {
    if s.len() == 1 && s[0] == '.' {
        Some(Address::Current)
    } else if s.len() == 1 && s[0] == '$' {
        Some(Address::Last)
    } else if s.len() > 0 && (forall|i: int| 0 <= i < s.len() ==> is_digit_char(s[i])) {
        if digits_value(s) <= usize::MAX {
            Some(Address::Absolute(digits_value(s) as usize))
        } else {
            None
        }
    } else {
        None
    }
}

impl Address {
    /// Parses one whole address token: `"."`, `"$"`, or a string of decimal
    /// digits. Anything else, including a digit string too large for the
    /// machine word, yields `None`.
    pub fn from_str(input: &str) -> (r: Option<Address>)
        ensures
            r == spec_address_from_str(input@),
    {
        let n = input.unicode_len();
        if n == 1 && input.get_char(0) == '.' {
            return Some(Address::Current);
        }
        if n == 1 && input.get_char(0) == '$' {
            return Some(Address::Last);
        }
        if n == 0 {
            return None;
        }
        let mut i: usize = 0;
        while i < n
            invariant
                0 <= i <= n,
                n == input@.len(),
                n > 0,
                !(n == 1 && input@[0] == '.'),
                !(n == 1 && input@[0] == '$'),
                forall|k: int| 0 <= k < i ==> is_digit_char(input@[k]),
            decreases n - i,
        {
            let c = input.get_char(i);
            if c < '0' || c > '9' {
                return None;
            }
            i = i + 1;
        }
        let r = digits_to_usize(input, 0, n);
        proof {
            assert(input@.subrange(0, n as int) =~= input@);
        }
        match r {
            Some(v) => Some(Address::Absolute(v)),
            None => None,
        }
    }
}

/// The separator between the two addresses of a range. `Comma` leaves the
/// cursor alone; `Semicolon` means the first address names the cursor while
/// the second is read.
#[derive(Debug, PartialEq, Eq, Structural, Clone, Copy)]
pub enum RangeSep {
    Comma,
    Semicolon,
}

/// One parsed editor command: a range of two addresses with its separator,
/// an optional verb (`"p"`, `"d"`, `"wq"`, `"="`, ...), and optional
/// argument text (for example the filename after `"w"`).
///
/// When the input carried no range, both addresses are `Current`.
#[derive(Debug, PartialEq, Eq, Clone)]
pub struct EdCommand {
    pub address1: Address,
    pub address2: Address,
    pub range_sep: RangeSep,
    pub command: Option<String>,
    pub command_args: Option<String>,
}

/// The mathematical shape of a command: the verb and argument as character
/// sequences.
pub struct CommandView {
    pub address1: Address,
    pub address2: Address,
    pub range_sep: RangeSep,
    pub command: Option<Seq<char>>,
    pub command_args: Option<Seq<char>>,
}

impl View for EdCommand {
    type V = CommandView;

    open spec fn view(&self) -> CommandView {
        CommandView {
            address1: self.address1,
            address2: self.address2,
            range_sep: self.range_sep,
            command: self.command.deep_view(),
            command_args: self.command_args.deep_view(),
        }
    }
}

impl EdCommand {
    /// The command an empty input line denotes: the cursor on both sides of
    /// a comma, no verb, no argument.
    pub fn default() -> (r: EdCommand)
        ensures
            r.address1 == Address::Current,
            r.address2 == Address::Current,
            r.range_sep == RangeSep::Comma,
            r.command is None,
            r.command_args is None,
    {
        EdCommand {
            address1: Address::Current,
            address2: Address::Current,
            range_sep: RangeSep::Comma,
            command: None,
            command_args: None,
        }
    }
}

} // verus!
