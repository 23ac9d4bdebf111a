//! Address resolution and the command executor. Addresses resolve to
//! 0-indexed positions under a silent clamp; every command runs behind one
//! range-validation choke point; a rejected command leaves the lines and the
//! cursor as they were.

use vstd::prelude::*;
use crate::buffer::LineBuffer;
use crate::command_structs::{Address, EdCommand};
use crate::ed_command_error::EdCommandError;
use crate::modify::{append, append_applied, correct, correct_applied, delete, delete_applied,
    insert, insert_applied};
use crate::numerals::{decimal_seq, decimal_string};

verus! {

/// Signal for the surrounding read-eval loop: keep going or exit.
#[derive(Debug, PartialEq, Eq, Structural, Clone, Copy)]
pub enum REPLStatus {
    Continue,
    Quit,
}

/// Everything one command hands back to its caller: the loop signal, the
/// lines to print, and the file (if any) the buffer is to be written to.
/// Performing that write, and printing, stay with the caller.
#[derive(Debug, PartialEq, Eq)]
pub struct CommandOutput {
    pub status: REPLStatus,
    pub lines_out: Vec<String>,
    pub save_to: Option<String>,
}

/// The 1-indexed line number an address stands for, before any clamping:
/// `Absolute` is itself, `Last` is the buffer length, and `Current` (or the
/// unset sentinel) is the cursor.
pub open spec fn address_ordinal(addr: Address, len: nat, cur: nat) -> nat {
    match addr {
        Address::Absolute(n) => n as nat,
        Address::Last => len,
        Address::Current => cur,
        Address::Unset => cur,
    }
}

/// Converts a 1-indexed line number to a 0-indexed position: numbers past
/// the end clamp to the last line, and `0` clamps up to the first, so the
/// conversion itself never fails.
pub open spec fn clamp_index(n: nat, len: nat) -> nat {
    if n >= len {
        if len == 0 {
            0
        } else {
            (len - 1) as nat
        }
    } else if n == 0 {
        0
    } else {
        (n - 1) as nat
    }
}

/// The 0-indexed position an address resolves to against a buffer of `len`
/// lines with the cursor at `cur`.
pub open spec fn resolved_index(addr: Address, len: nat, cur: nat) -> nat {
    clamp_index(address_ordinal(addr, len, cur), len)
}

/// A range is valid when, with `Current` and `Last` substituted by their
/// line numbers, the first address does not exceed the second and neither
/// exceeds the buffer length.
pub open spec fn range_valid(a1: Address, a2: Address, len: nat, cur: nat) -> bool {
    let n1 = address_ordinal(a1, len, cur);
    let n2 = address_ordinal(a2, len, cur);
    n1 <= n2 && n1 <= len && n2 <= len
}

/// The cursor after the defensive repair that runs ahead of every command:
/// clamped down to the buffer length when it had drifted past it.
pub open spec fn clamped_cursor(b: LineBuffer) -> nat {
    if b.current_line > b.line_count() {
        b.line_count()
    } else {
        b.current_line as nat
    }
}

/// The command left the buffer alone apart from the defensive cursor clamp.
pub open spec fn buffer_clamped_only(b0: LineBuffer, b1: LineBuffer) -> bool {
    &&& b1.lines == b0.lines
    &&& b1.filename == b0.filename
    &&& b1.current_line as nat == clamped_cursor(b0)
}

/// The command carries this verb.
pub open spec fn verb_is(cmd: EdCommand, v: Seq<char>) -> bool {
    cmd.command matches Some(c) && c@ == v
}

/// The result is `Ok` with exactly this loop signal, printed lines, and save
/// target.
pub open spec fn output_is(
    r: Result<CommandOutput, EdCommandError>,
    status: REPLStatus,
    out: Seq<Seq<char>>,
    save: Option<Seq<char>>,
) -> bool {
    r matches Ok(o) && o.status == status && o.lines_out.deep_view() == out
        && o.save_to.deep_view() == save
}

/// `k` space characters.
pub open spec fn spaces(k: int) -> Seq<char>
    decreases k,
{
    if k <= 0 {
        Seq::empty()
    } else {
        spaces(k - 1).push(' ')
    }
}

/// One line of numbered output: the 1-indexed line number right-aligned in a
/// four-character field, a tab, then the line itself.
pub open spec fn numbered_entry(n: int, line: Seq<char>) -> Seq<char> {
    let d = decimal_seq(n);
    let padded = if d.len() >= 4 {
        d
    } else {
        spaces(4 - d.len()) + d
    };
    padded + seq!['\t'] + line
}

/// For every valid 1-indexed line number `n` of a buffer (`1 <= n <= len`),
/// `address_to_index` resolves `Absolute(n)` to exactly `n - 1`, whatever
/// the cursor holds.
pub proof fn lemma_resolve_absolute_in_range(n: usize, len: nat, cur: nat)
    requires
        1 <= n as nat,
        n as nat <= len,
    ensures
        resolved_index(Address::Absolute(n), len, cur) == n as nat - 1,
{
}

/// On a non-empty buffer, `address_to_index` resolves `Absolute(0)` to the
/// first line and any number at or past the end to the last line: the
/// conversion clamps silently at both ends and never fails.
pub proof fn lemma_resolve_clamps(n: usize, len: nat, cur: nat)
    requires
        len > 0,
    ensures
        resolved_index(Address::Absolute(0), len, cur) == 0,
        n as nat >= len ==> resolved_index(Address::Absolute(n), len, cur) == len - 1,
{
}

/// Resolving keeps the order of line numbers.
pub proof fn lemma_clamp_monotone(n1: nat, n2: nat, len: nat)
    requires
        n1 <= n2,
    ensures
        clamp_index(n1, len) <= clamp_index(n2, len),
{
}

/// A range found valid against the pre-clamp cursor resolves, against the
/// clamped cursor, to an ordered pair of positions.
pub proof fn lemma_valid_resolves_ordered(a1: Address, a2: Address, len: nat, cur: nat)
    requires
        range_valid(a1, a2, len, cur),
    ensures
        ({
            let c = if cur > len {
                len
            } else {
                cur
            };
            resolved_index(a1, len, c) <= resolved_index(a2, len, c)
        }),
{
    let c = if cur > len {
        len
    } else {
        cur
    };
    assert(address_ordinal(a1, len, c) <= address_ordinal(a2, len, c));
    lemma_clamp_monotone(address_ordinal(a1, len, c), address_ordinal(a2, len, c), len);
}

/// Resolves an address to a 0-indexed buffer position, clamping silently at
/// both ends.
pub fn address_to_index(address: Address, buffer: &LineBuffer) -> (r: usize)
    ensures
        r as nat == resolved_index(address, buffer.line_count(), buffer.current_line as nat),
        r as nat <= clamp_index(buffer.line_count(), buffer.line_count()),
{
    let len = buffer.len();
    let index = match address {
        Address::Absolute(addr) => addr,
        Address::Last => len,
        Address::Current => buffer.current_line,
        Address::Unset => buffer.current_line,
    };
    if index >= len {
        if len == 0 {
            0
        } else {
            len - 1
        }
    } else {
        if index == 0 {
            0
        } else {
            index - 1
        }
    }
}

/// The single range-validation choke point that precedes every command:
/// first the defensive cursor repair, then the order and bounds checks of
/// both addresses against the pre-repair cursor.
pub fn validate_range(buffer: &mut LineBuffer, command: &EdCommand) -> (r: Result<
    (),
    EdCommandError,
>)
    ensures
        final(buffer).lines == old(buffer).lines,
        final(buffer).filename == old(buffer).filename,
        final(buffer).current_line as nat == clamped_cursor(*old(buffer)),
        r matches Ok(u) <==> range_valid(
            command.address1,
            command.address2,
            old(buffer).line_count(),
            old(buffer).current_line as nat,
        ),
        r is Err ==> r == Err::<(), EdCommandError>(EdCommandError::InvalidRange),
{
    let len = buffer.len();
    let cur = buffer.current_line;
    if buffer.current_line > len {
        buffer.current_line = len;
    }
    let n1 = match command.address1 {
        Address::Absolute(a) => a,
        Address::Last => len,
        Address::Current => cur,
        Address::Unset => cur,
    };
    let n2 = match command.address2 {
        Address::Absolute(a) => a,
        Address::Last => len,
        Address::Current => cur,
        Address::Unset => cur,
    };
    if n1 > n2 {
        return Err(EdCommandError::InvalidRange);
    }
    if n1 > len {
        return Err(EdCommandError::InvalidRange);
    }
    if n2 > len {
        return Err(EdCommandError::InvalidRange);
    }
    Ok(())
}

/// Whether two string slices hold the same characters.
fn str_eq(a: &str, b: &str) -> (r: bool)
    ensures
        r == (a@ == b@),
{
    let sa = String::from_str(a);
    let sb = String::from_str(b);
    sa == sb
}

/// The quit command: no buffer effect, just the exit signal.
pub fn quit(buffer: &mut LineBuffer, command: &EdCommand) -> (r: Result<
    REPLStatus,
    EdCommandError,
>)
    ensures
        *final(buffer) == *old(buffer),
        r == Ok::<REPLStatus, EdCommandError>(REPLStatus::Quit),
{
    let _ = command;
    Ok(REPLStatus::Quit)
}

/// The write command: resolves the save target, touches nothing, and reports
/// the loop signal with the target the caller is to write the buffer to.
/// The caller remembers the target (`remember_filename`) only once its write
/// has succeeded.
pub fn write(buffer: &LineBuffer, command: &EdCommand) -> (r: Result<
    (REPLStatus, String),
    EdCommandError,
>)
    ensures
        match command.command_args {
            Some(f) => r matches Ok((st, t)) && st == REPLStatus::Continue && t@ == f@,
            None => match buffer.filename {
                Some(g) => r matches Ok((st, t)) && st == REPLStatus::Continue && t@ == g@,
                None => r == Err::<(REPLStatus, String), EdCommandError>(
                    EdCommandError::MissingFilename,
                ),
            },
        },
{
    let fname: Option<&str> = match &command.command_args {
        Some(s) => Some(s.as_str()),
        None => None,
    };
    match buffer.save_target(fname) {
        Ok(t) => Ok((REPLStatus::Continue, t)),
        Err(e) => Err(e),
    }
}

/// The write-and-quit command: as `write`, but the loop signal asks to exit.
/// The caller exits only once the write itself has succeeded.
pub fn write_quit(buffer: &LineBuffer, command: &EdCommand) -> (r: Result<
    (REPLStatus, String),
    EdCommandError,
>)
    ensures
        match command.command_args {
            Some(f) => r matches Ok((st, t)) && st == REPLStatus::Quit && t@ == f@,
            None => match buffer.filename {
                Some(g) => r matches Ok((st, t)) && st == REPLStatus::Quit && t@ == g@,
                None => r == Err::<(REPLStatus, String), EdCommandError>(
                    EdCommandError::MissingFilename,
                ),
            },
        },
{
    let fname: Option<&str> = match &command.command_args {
        Some(s) => Some(s.as_str()),
        None => None,
    };
    match buffer.save_target(fname) {
        Ok(t) => Ok((REPLStatus::Quit, t)),
        Err(e) => Err(e),
    }
}

/// The print command: the lines of the resolved range, in order, one entry
/// per printed line. An empty buffer is refused with `EmptyBuffer`, a
/// back-to-front resolved range with `InvalidRange`.
pub fn print(buffer: &LineBuffer, command: &EdCommand) -> (r: Result<Vec<String>, EdCommandError>)
    ensures
        ({
            let len = buffer.line_count();
            let low = resolved_index(command.address1, len, buffer.current_line as nat);
            let high = resolved_index(command.address2, len, buffer.current_line as nat);
            if len == 0 {
                r == Err::<Vec<String>, EdCommandError>(EdCommandError::EmptyBuffer)
            } else if low > high {
                r == Err::<Vec<String>, EdCommandError>(EdCommandError::InvalidRange)
            } else {
                r matches Ok(out) && out@ == buffer.lines_view().subrange(
                    low as int,
                    high as int + 1,
                )
            }
        }),
{
    let len = buffer.len();
    if len == 0 {
        return Err(EdCommandError::EmptyBuffer);
    }
    let low = address_to_index(command.address1, buffer);
    let high = address_to_index(command.address2, buffer);
    if low > high {
        return Err(EdCommandError::InvalidRange);
    }
    let mut out: Vec<String> = Vec::new();
    match &buffer.lines {
        Some(lines) => {
            let mut i = low;
            proof {
                assert(out@ =~= buffer.lines_view().subrange(low as int, low as int));
            }
            while i <= high
                invariant
                    low <= i <= high + 1,
                    high < lines@.len(),
                    lines@.len() == len,
                    lines@ == buffer.lines_view(),
                    out@ == buffer.lines_view().subrange(low as int, i as int),
                decreases high + 1 - i,
            {
                out.push(lines[i].clone());
                proof {
                    assert(out@ =~= buffer.lines_view().subrange(low as int, i as int + 1));
                }
                i = i + 1;
            }
        },
        None => {
            proof {
                assert(false);
            }
        },
    }
    Ok(out)
}

/// The numbered print command: as `print`, but every line is preceded by
/// its 1-indexed number, right-aligned in a four-character field and
/// followed by a tab.
pub fn print_with_numbers(buffer: &LineBuffer, command: &EdCommand) -> (r: Result<
    Vec<String>,
    EdCommandError,
>)
    ensures
        ({
            let len = buffer.line_count();
            let low = resolved_index(command.address1, len, buffer.current_line as nat);
            let high = resolved_index(command.address2, len, buffer.current_line as nat);
            if len == 0 {
                r == Err::<Vec<String>, EdCommandError>(EdCommandError::EmptyBuffer)
            } else if low > high {
                r == Err::<Vec<String>, EdCommandError>(EdCommandError::InvalidRange)
            } else {
                r matches Ok(out) && out@.len() == high + 1 - low && (forall|k: int|
                    0 <= k < out@.len() ==> out.deep_view()[k] == numbered_entry(
                        low + k + 1,
                        buffer.text_view()[low + k],
                    ))
            }
        }),
{
    let len = buffer.len();
    if len == 0 {
        return Err(EdCommandError::EmptyBuffer);
    }
    let low = address_to_index(command.address1, buffer);
    let high = address_to_index(command.address2, buffer);
    if low > high {
        return Err(EdCommandError::InvalidRange);
    }
    let mut out: Vec<String> = Vec::new();
    match &buffer.lines {
        Some(lines) => {
            let mut i = low;
            while i <= high
                invariant
                    low <= i <= high + 1,
                    high < lines@.len(),
                    lines@.len() == len,
                    lines@ == buffer.lines_view(),
                    lines.deep_view() == buffer.text_view(),
                    out@.len() == i - low,
                    forall|k: int|
                        0 <= k < out@.len() ==> out.deep_view()[k] == numbered_entry(
                            low + k + 1,
                            buffer.text_view()[low + k],
                        ),
                decreases high + 1 - i,
            {
                let num = decimal_string(i + 1);
                let dl = num.as_str().unicode_len();
                let mut entry = String::new();
                let mut pad: usize = dl;
                proof {
                    assert(entry@ =~= spaces(0));
                }
                while pad < 4
                    invariant
                        pad >= dl,
                        dl >= 4 ==> pad == dl,
                        dl < 4 ==> pad <= 4,
                        num@ == decimal_seq(i as int + 1),
                        dl == num@.len(),
                        entry@ == spaces(pad - dl),
                    decreases 4 - pad,
                {
                    entry.append(" ");
                    pad = pad + 1;
                    proof {
                        reveal_strlit(" ");
                        assert(entry@ =~= spaces(pad - dl));
                    }
                }
                entry.append(num.as_str());
                entry.append("\t");
                entry.append(lines[i].as_str());
                proof {
                    reveal_strlit("\t");
                    assert("\t"@ =~= seq!['\t']);
                    assert(buffer.text_view()[i as int] == lines@[i as int]@);
                    assert(entry@ =~= numbered_entry(i as int + 1, buffer.text_view()[i as int]));
                }
                let ghost before = out.deep_view();
                out.push(entry);
                proof {
                    assert(out.deep_view() =~= before.push(entry@));
                }
                i = i + 1;
            }
        },
        None => {
            proof {
                assert(false);
            }
        },
    }
    Ok(out)
}

/// Moves the cursor to the line the second address resolves to (its
/// 1-indexed number).
pub fn set_current_line_number(buffer: &mut LineBuffer, command: &EdCommand)
    ensures
        final(buffer).lines == old(buffer).lines,
        final(buffer).filename == old(buffer).filename,
        final(buffer).current_line as nat == resolved_index(
            command.address2,
            old(buffer).line_count(),
            old(buffer).current_line as nat,
        ) + 1,
{
    let len = buffer.len();
    let index = address_to_index(command.address2, buffer);
    proof {
        assert(index + 1 <= usize::MAX) by {
            assert(index as nat <= clamp_index(len as nat, len as nat));
        }
    }
    buffer.current_line = index + 1;
}

/// The `=` command: moves the cursor to the second address and reports the
/// new 1-indexed cursor as one output line.
pub fn print_current_line_number(buffer: &mut LineBuffer, command: &EdCommand) -> (out: Vec<String>)
    ensures
        final(buffer).lines == old(buffer).lines,
        final(buffer).filename == old(buffer).filename,
        final(buffer).current_line as nat == resolved_index(
            command.address2,
            old(buffer).line_count(),
            old(buffer).current_line as nat,
        ) + 1,
        out.deep_view() == seq![decimal_seq(final(buffer).current_line as int)],
{
    set_current_line_number(buffer, command);
    let mut out: Vec<String> = Vec::new();
    out.push(decimal_string(buffer.current_line));
    proof {
        assert(out.deep_view() =~= seq![decimal_seq(buffer.current_line as int)]);
    }
    out
}

/// The first resolved position of the command's range, against the cursor as
/// repaired by the choke point.
pub open spec fn runner_low(b0: LineBuffer, cmd: EdCommand) -> nat {
    resolved_index(cmd.address1, b0.line_count(), clamped_cursor(b0))
}

/// The second resolved position of the command's range, against the cursor
/// as repaired by the choke point.
pub open spec fn runner_high(b0: LineBuffer, cmd: EdCommand) -> nat {
    resolved_index(cmd.address2, b0.line_count(), clamped_cursor(b0))
}

/// The choke point's verdict on the command's range, taken against the
/// cursor as it stood before the repair.
pub open spec fn runner_valid(b0: LineBuffer, cmd: EdCommand) -> bool {
    range_valid(cmd.address1, cmd.address2, b0.line_count(), b0.current_line as nat)
}

/// The verbs the executor dispatches on; anything else is a lenient no-op.
pub open spec fn known_verb(v: Seq<char>) -> bool {
    ||| v == "q"@
    ||| v == "w"@
    ||| v == "wq"@
    ||| v == "p"@
    ||| v == "i"@
    ||| v == "="@
    ||| v == "a"@
    ||| v == "c"@
    ||| v == "d"@
    ||| v == "n"@
}

/// What a write verb leaves behind: the buffer untouched apart from the
/// defensive repair (a failed write must not cost the remembered name), and
/// the result carrying the resolved save target, or `MissingFilename` when
/// there is none. The caller remembers the target only once its write has
/// succeeded.
pub open spec fn save_case(
    b0: LineBuffer,
    b1: LineBuffer,
    cmd: EdCommand,
    r: Result<CommandOutput, EdCommandError>,
    status: REPLStatus,
) -> bool {
    &&& buffer_clamped_only(b0, b1)
    &&& match cmd.command_args {
        Some(f) => output_is(r, status, Seq::empty(), Some(f@)),
        None => match b0.filename {
            Some(g) => output_is(r, status, Seq::empty(), Some(g@)),
            None => r == Err::<CommandOutput, EdCommandError>(EdCommandError::MissingFilename),
        },
    }
}

/// An `Ok` outcome with this loop signal, no printed lines, and no save.
fn empty_output(status: REPLStatus) -> (o: CommandOutput)
    ensures
        o.status == status,
        o.lines_out.deep_view() == Seq::<Seq<char>>::empty(),
        o.save_to.deep_view() == None::<Seq<char>>,
{
    let o = CommandOutput { status, lines_out: Vec::new(), save_to: None };
    proof {
        assert(o.lines_out.deep_view() =~= Seq::<Seq<char>>::empty());
    }
    o
}

/// An `Ok` outcome that reports one 1-indexed position as its single printed
/// line.
fn location_output(status: REPLStatus, location: usize) -> (o: CommandOutput)
    ensures
        o.status == status,
        o.lines_out.deep_view() == seq![decimal_seq(location as int)],
        o.save_to.deep_view() == None::<Seq<char>>,
{
    let mut lines_out: Vec<String> = Vec::new();
    lines_out.push(decimal_string(location));
    proof {
        assert(lines_out.deep_view() =~= seq![decimal_seq(location as int)]);
    }
    CommandOutput { status, lines_out, save_to: None }
}

/// Runs the range-validation choke point and reports whether the verb will
/// collect lines from the line-input collaborator before the command is
/// executed. The zero first address that `c` refuses is rejected here too,
/// ahead of any collection.
pub fn wants_input(buffer: &mut LineBuffer, command: &EdCommand) -> (r: Result<
    bool,
    EdCommandError,
>)
    ensures
        final(buffer).lines == old(buffer).lines,
        final(buffer).filename == old(buffer).filename,
        final(buffer).current_line as nat == clamped_cursor(*old(buffer)),
        !runner_valid(*old(buffer), *command) ==> r == Err::<bool, EdCommandError>(
            EdCommandError::InvalidRange,
        ),
        runner_valid(*old(buffer), *command) ==> ({
            if verb_is(*command, "c"@) && command.address1 == Address::Absolute(0usize) {
                r == Err::<bool, EdCommandError>(EdCommandError::InvalidRange)
            } else {
                r matches Ok(b) && b == (verb_is(*command, "i"@) || verb_is(*command, "a"@)
                    || verb_is(*command, "c"@))
            }
        }),
{
    match validate_range(buffer, command) {
        Err(e) => {
            return Err(e);
        },
        Ok(u) => {
            let _ = u;
        },
    }
    proof {
        reveal_strlit("i");
        reveal_strlit("a");
        reveal_strlit("c");
        assert("i"@.len() == 1 && "i"@[0] == 'i');
        assert("a"@.len() == 1 && "a"@[0] == 'a');
        assert("c"@.len() == 1 && "c"@[0] == 'c');
    }
    match &command.command {
        None => Ok(false),
        Some(v) => {
            let vs = v.as_str();
            if str_eq(vs, "c") {
                if command.address1 == Address::Absolute(0) {
                    Err(EdCommandError::InvalidRange)
                } else {
                    Ok(true)
                }
            } else if str_eq(vs, "i") || str_eq(vs, "a") {
                Ok(true)
            } else {
                Ok(false)
            }
        },
    }
}

/// Executes one command against the buffer: the single range-validation
/// choke point first, then the dispatch on the verb. `input` carries the
/// lines the line-input collaborator collected for `i`, `a` and `c` (and is
/// ignored by every other verb). The returned output holds the loop signal,
/// the lines to print, and the save target a write asks for; a rejected
/// command leaves the lines, the cursor (apart from the defensive repair)
/// and the file name exactly as they were.
pub fn command_runner(buffer: &mut LineBuffer, command: &EdCommand, input: Vec<String>) -> (r:
    Result<CommandOutput, EdCommandError>)
    requires
        old(buffer).line_count() + input@.len() < usize::MAX,
    ensures
        !runner_valid(*old(buffer), *command) ==> buffer_clamped_only(*old(buffer), *final(buffer))
            && r == Err::<CommandOutput, EdCommandError>(EdCommandError::InvalidRange),
        runner_valid(*old(buffer), *command) && (command.command is None || !known_verb(
            command.command->0@,
        )) ==> buffer_clamped_only(*old(buffer), *final(buffer)) && output_is(
            r,
            REPLStatus::Continue,
            Seq::empty(),
            None,
        ),
        runner_valid(*old(buffer), *command) && verb_is(*command, "q"@) ==> buffer_clamped_only(
            *old(buffer),
            *final(buffer),
        ) && output_is(r, REPLStatus::Quit, Seq::empty(), None),
        runner_valid(*old(buffer), *command) && verb_is(*command, "w"@) ==> save_case(
            *old(buffer),
            *final(buffer),
            *command,
            r,
            REPLStatus::Continue,
        ),
        runner_valid(*old(buffer), *command) && verb_is(*command, "wq"@) ==> save_case(
            *old(buffer),
            *final(buffer),
            *command,
            r,
            REPLStatus::Quit,
        ),
        runner_valid(*old(buffer), *command) && verb_is(*command, "p"@) ==> buffer_clamped_only(
            *old(buffer),
            *final(buffer),
        ) && ({
            let b0 = *old(buffer);
            if b0.line_count() == 0 {
                r == Err::<CommandOutput, EdCommandError>(EdCommandError::EmptyBuffer)
            } else {
                r matches Ok(o) && o.status == REPLStatus::Continue && o.save_to is None
                    && o.lines_out@ == b0.lines_view().subrange(
                    runner_low(b0, *command) as int,
                    runner_high(b0, *command) as int + 1,
                )
            }
        }),
        runner_valid(*old(buffer), *command) && verb_is(*command, "n"@) ==> buffer_clamped_only(
            *old(buffer),
            *final(buffer),
        ) && ({
            let b0 = *old(buffer);
            let low = runner_low(b0, *command);
            let high = runner_high(b0, *command);
            if b0.line_count() == 0 {
                r == Err::<CommandOutput, EdCommandError>(EdCommandError::EmptyBuffer)
            } else {
                r matches Ok(o) && o.status == REPLStatus::Continue && o.save_to is None
                    && o.lines_out@.len() == high + 1 - low && (forall|k: int|
                    0 <= k < o.lines_out@.len() ==> o.lines_out.deep_view()[k] == numbered_entry(
                        low + k + 1,
                        b0.text_view()[low + k],
                    ))
            }
        }),
        runner_valid(*old(buffer), *command) && verb_is(*command, "="@) ==> ({
            let b0 = *old(buffer);
            let b1 = *final(buffer);
            &&& b1.lines == b0.lines
            &&& b1.filename == b0.filename
            &&& b1.current_line as nat == runner_high(b0, *command) + 1
            &&& output_is(
                r,
                REPLStatus::Continue,
                seq![decimal_seq(runner_high(b0, *command) as int + 1)],
                None,
            )
        }),
        runner_valid(*old(buffer), *command) && verb_is(*command, "i"@) ==> insert_applied(
            *old(buffer),
            clamped_cursor(*old(buffer)),
            command.address2,
            input@,
            *final(buffer),
        ) && output_is(r, REPLStatus::Continue, Seq::empty(), None),
        runner_valid(*old(buffer), *command) && verb_is(*command, "a"@) ==> append_applied(
            *old(buffer),
            clamped_cursor(*old(buffer)),
            command.address2,
            input@,
            *final(buffer),
        ) && output_is(r, REPLStatus::Continue, Seq::empty(), None),
        runner_valid(*old(buffer), *command) && verb_is(*command, "c"@) ==> ({
            if command.address1 == Address::Absolute(0usize) {
                buffer_clamped_only(*old(buffer), *final(buffer)) && r == Err::<
                    CommandOutput,
                    EdCommandError,
                >(EdCommandError::InvalidRange)
            } else {
                correct_applied(
                    *old(buffer),
                    clamped_cursor(*old(buffer)),
                    command.address1,
                    command.address2,
                    input@,
                    *final(buffer),
                ) && output_is(
                    r,
                    REPLStatus::Continue,
                    seq![decimal_seq(final(buffer).current_line as int)],
                    None,
                )
            }
        }),
        runner_valid(*old(buffer), *command) && verb_is(*command, "d"@) ==> ({
            let b0 = *old(buffer);
            if command.address1 == Address::Absolute(0usize) {
                buffer_clamped_only(b0, *final(buffer)) && r == Err::<
                    CommandOutput,
                    EdCommandError,
                >(EdCommandError::InvalidRange)
            } else if b0.line_count() == 0 {
                buffer_clamped_only(b0, *final(buffer)) && r == Err::<
                    CommandOutput,
                    EdCommandError,
                >(EdCommandError::EmptyBuffer)
            } else {
                delete_applied(
                    b0,
                    clamped_cursor(b0),
                    command.address1,
                    command.address2,
                    *final(buffer),
                ) && output_is(
                    r,
                    REPLStatus::Continue,
                    seq![decimal_seq(final(buffer).current_line as int)],
                    None,
                )
            }
        }),
        r is Err ==> final(buffer).lines == old(buffer).lines && final(buffer).filename == old(
            buffer,
        ).filename && final(buffer).current_line as nat == clamped_cursor(*old(buffer)) && (old(
            buffer,
        ).current_line as nat <= old(buffer).line_count() ==> final(buffer).current_line == old(
            buffer,
        ).current_line),
{
    match validate_range(buffer, command) {
        Err(e) => {
            return Err(e);
        },
        Ok(u) => {
            let _ = u;
        },
    }
    proof {
        lemma_valid_resolves_ordered(
            command.address1,
            command.address2,
            old(buffer).line_count(),
            old(buffer).current_line as nat,
        );
    }
    let verb: &String = match &command.command {
        None => {
            return Ok(empty_output(REPLStatus::Continue));
        },
        Some(v) => v,
    };
    let vs = verb.as_str();
    proof {
        reveal_strlit("q");
        reveal_strlit("w");
        reveal_strlit("wq");
        reveal_strlit("p");
        reveal_strlit("i");
        reveal_strlit("=");
        reveal_strlit("a");
        reveal_strlit("c");
        reveal_strlit("d");
        reveal_strlit("n");
        assert("q"@.len() == 1 && "q"@[0] == 'q');
        assert("w"@.len() == 1 && "w"@[0] == 'w');
        assert("wq"@.len() == 2);
        assert("p"@.len() == 1 && "p"@[0] == 'p');
        assert("i"@.len() == 1 && "i"@[0] == 'i');
        assert("="@.len() == 1 && "="@[0] == '=');
        assert("a"@.len() == 1 && "a"@[0] == 'a');
        assert("c"@.len() == 1 && "c"@[0] == 'c');
        assert("d"@.len() == 1 && "d"@[0] == 'd');
        assert("n"@.len() == 1 && "n"@[0] == 'n');
    }
    if str_eq(vs, "q") {
        let st = match quit(buffer, command) {
            Ok(st) => st,
            Err(e) => {
                return Err(e);
            },
        };
        Ok(empty_output(st))
    } else if str_eq(vs, "w") {
        match write(buffer, command) {
            Ok((st, t)) => {
                let o = CommandOutput { status: st, lines_out: Vec::new(), save_to: Some(t) };
                proof {
                    assert(o.lines_out.deep_view() =~= Seq::<Seq<char>>::empty());
                }
                Ok(o)
            },
            Err(e) => Err(e),
        }
    } else if str_eq(vs, "wq") {
        match write_quit(buffer, command) {
            Ok((st, t)) => {
                let o = CommandOutput { status: st, lines_out: Vec::new(), save_to: Some(t) };
                proof {
                    assert(o.lines_out.deep_view() =~= Seq::<Seq<char>>::empty());
                }
                Ok(o)
            },
            Err(e) => Err(e),
        }
    } else if str_eq(vs, "p") {
        match print(buffer, command) {
            Ok(out) => Ok(CommandOutput { status: REPLStatus::Continue, lines_out: out, save_to: None }),
            Err(e) => Err(e),
        }
    } else if str_eq(vs, "i") {
        match insert(buffer, command, input) {
            Ok(st) => Ok(empty_output(st)),
            Err(e) => Err(e),
        }
    } else if str_eq(vs, "=") {
        let out = print_current_line_number(buffer, command);
        Ok(CommandOutput { status: REPLStatus::Continue, lines_out: out, save_to: None })
    } else if str_eq(vs, "a") {
        match append(buffer, command, input) {
            Ok(st) => Ok(empty_output(st)),
            Err(e) => Err(e),
        }
    } else if str_eq(vs, "c") {
        match correct(buffer, command, input) {
            Ok((st, loc)) => Ok(location_output(st, loc)),
            Err(e) => Err(e),
        }
    } else if str_eq(vs, "d") {
        match delete(buffer, command) {
            Ok((st, loc)) => Ok(location_output(st, loc)),
            Err(e) => Err(e),
        }
    } else if str_eq(vs, "n") {
        match print_with_numbers(buffer, command) {
            Ok(out) => Ok(CommandOutput { status: REPLStatus::Continue, lines_out: out, save_to: None }),
            Err(e) => Err(e),
        }
    } else {
        Ok(empty_output(REPLStatus::Continue))
    }
}

} // verus!
