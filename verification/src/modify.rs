//! The commands that rewrite the buffer: insert lines before an address,
//! append them after it, correct (replace) a range, and delete a range.
//! Every mutation is a splice: a contiguous span of 0-indexed positions is
//! replaced by the new lines, and the cursor moves to a documented spot.

use vstd::prelude::*;
use crate::buffer::LineBuffer;
use crate::command_structs::{Address, EdCommand};
use crate::ed_command_error::EdCommandError;
use crate::ed_commands::{address_to_index, resolved_index, REPLStatus};

verus! {

/// The lines with the half-open span `[i, j)` replaced by `input`.
pub open spec fn splice_lines(lines: Seq<String>, i: int, j: int, input: Seq<String>) -> Seq<
    String,
> {
    lines.subrange(0, i) + input + lines.subrange(j, lines.len() as int)
}

/// What an insert leaves behind: with lines present, `input` spliced in
/// before the position `loc` resolves to (against the cursor `cur`); with no
/// lines, `input` becomes the whole buffer. The cursor lands just past the
/// inserted block, and the remembered file name stays.
pub open spec fn insert_applied(
    b0: LineBuffer,
    cur: nat,
    loc: Address,
    input: Seq<String>,
    b1: LineBuffer,
) -> bool {
    let len = b0.line_count();
    let idx = resolved_index(loc, len, cur);
    &&& b1.filename == b0.filename
    &&& b1.lines matches Some(v) && v@ == if len == 0 {
        input
    } else {
        splice_lines(b0.lines_view(), idx as int, idx as int, input)
    }
    &&& b1.current_line as nat == idx + input.len()
}

/// What an append leaves behind: as an insert, but one position after the
/// resolved address, except that address `0` splices at the very front.
pub open spec fn append_applied(
    b0: LineBuffer,
    cur: nat,
    loc: Address,
    input: Seq<String>,
    b1: LineBuffer,
) -> bool {
    let len = b0.line_count();
    let idx: nat = if loc == Address::Absolute(0) {
        0
    } else {
        resolved_index(loc, len, cur) + 1
    };
    &&& b1.filename == b0.filename
    &&& b1.lines matches Some(v) && v@ == if len == 0 {
        input
    } else {
        splice_lines(b0.lines_view(), idx as int, idx as int, input)
    }
    &&& b1.current_line as nat == idx + input.len()
}

/// What a correct leaves behind: the closed span from the first resolved
/// position through the second replaced by `input`; with no lines, `input`
/// becomes the whole buffer. The cursor lands at the end of the inserted
/// block, which starts at the first resolved position.
pub open spec fn correct_applied(
    b0: LineBuffer,
    cur: nat,
    loc1: Address,
    loc2: Address,
    input: Seq<String>,
    b1: LineBuffer,
) -> bool {
    let len = b0.line_count();
    let i1 = resolved_index(loc1, len, cur);
    let i2 = resolved_index(loc2, len, cur);
    &&& b1.filename == b0.filename
    &&& b1.lines matches Some(v) && v@ == if len == 0 {
        input
    } else {
        splice_lines(b0.lines_view(), i1 as int, i2 as int + 1, input)
    }
    &&& b1.current_line as nat == i1 + input.len()
}

/// What a delete leaves behind on a non-empty buffer: the closed span from
/// the first resolved position through the second removed, and the cursor at
/// the start of the removed span.
pub open spec fn delete_applied(
    b0: LineBuffer,
    cur: nat,
    loc1: Address,
    loc2: Address,
    b1: LineBuffer,
) -> bool {
    let len = b0.line_count();
    let i1 = resolved_index(loc1, len, cur);
    let i2 = resolved_index(loc2, len, cur);
    &&& b1.filename == b0.filename
    &&& b1.lines matches Some(v) && v@ == splice_lines(
        b0.lines_view(),
        i1 as int,
        i2 as int + 1,
        Seq::empty(),
    )
    &&& b1.current_line as nat == i1
}

/// Moves every element of `input`, in order, into `v` starting at `idx`.
fn insert_all(v: &mut Vec<String>, idx: usize, input: Vec<String>)
    requires
        idx <= old(v)@.len(),
    ensures
        final(v)@ == splice_lines(old(v)@, idx as int, idx as int, input@),
{
    let mut rest = input;
    let ghost whole = rest@;
    let mut k = rest.len();
    proof {
        assert(whole.subrange(k as int, whole.len() as int) =~= Seq::<String>::empty());
        assert(v@ =~= old(v)@.subrange(0, idx as int) + whole.subrange(k as int, whole.len() as int)
            + old(v)@.subrange(idx as int, old(v)@.len() as int));
    }
    while k > 0
        invariant
            k == rest@.len(),
            k <= whole.len(),
            rest@ == whole.take(k as int),
            idx <= old(v)@.len(),
            v@ == old(v)@.subrange(0, idx as int) + whole.subrange(k as int, whole.len() as int)
                + old(v)@.subrange(idx as int, old(v)@.len() as int),
        decreases k,
    {
        let ghost k0 = k as int;
        let x = match rest.pop() {
            Some(x) => x,
            None => {
                proof {
                    assert(false);
                }
                return ;
            },
        };
        v.insert(idx, x);
        k = k - 1;
        proof {
            assert(rest@ =~= whole.take(k as int));
            assert(whole.subrange(k as int, whole.len() as int) =~= seq![whole[k as int]]
                + whole.subrange(k0, whole.len() as int));
            assert(v@ =~= old(v)@.subrange(0, idx as int) + whole.subrange(
                k as int,
                whole.len() as int,
            ) + old(v)@.subrange(idx as int, old(v)@.len() as int));
        }
    }
    proof {
        assert(whole.subrange(0, whole.len() as int) =~= whole);
        assert(v@ =~= splice_lines(old(v)@, idx as int, idx as int, whole));
    }
}

/// Removes the closed span `[i1, i2]` from `v`.
fn remove_range(v: &mut Vec<String>, i1: usize, i2: usize)
    requires
        i1 <= i2 < old(v)@.len(),
    ensures
        final(v)@ == splice_lines(old(v)@, i1 as int, i2 as int + 1, Seq::empty()),
{
    let n = v.len();
    let total = i2 - i1 + 1;
    let mut t: usize = 0;
    proof {
        assert(v@ =~= old(v)@.subrange(0, i1 as int) + old(v)@.subrange(
            i1 as int,
            old(v)@.len() as int,
        ));
    }
    while t < total
        invariant
            t <= total,
            total == i2 - i1 + 1,
            i1 <= i2 < old(v)@.len(),
            v@ == old(v)@.subrange(0, i1 as int) + old(v)@.subrange(
                i1 as int + t,
                old(v)@.len() as int,
            ),
        decreases total - t,
    {
        let _ = v.remove(i1);
        t = t + 1;
        proof {
            assert(v@ =~= old(v)@.subrange(0, i1 as int) + old(v)@.subrange(
                i1 as int + t,
                old(v)@.len() as int,
            ));
        }
    }
    proof {
        assert(v@ =~= splice_lines(old(v)@, i1 as int, i2 as int + 1, Seq::empty()));
    }
}

/// Splices `lines` into the buffer before the position `location` resolves
/// to; an empty buffer simply becomes those lines. Returns the new cursor:
/// the 1-indexed end of the inserted block.
pub fn insert_into_buffer(buffer: &mut LineBuffer, location: &Address, lines: Vec<String>) -> (r:
    usize)
    requires
        old(buffer).line_count() + lines@.len() < usize::MAX,
    ensures
        insert_applied(*old(buffer), old(buffer).current_line as nat, *location, lines@, *final(buffer)),
        r == final(buffer).current_line,
{
    let len = buffer.len();
    let index = address_to_index(*location, buffer);
    let input_len = lines.len();
    if len == 0 {
        buffer.lines = Some(lines);
    } else {
        let mut v = match buffer.lines.take() {
            Some(v) => v,
            None => {
                proof {
                    assert(false);
                }
                Vec::new()
            },
        };
        insert_all(&mut v, index, lines);
        buffer.lines = Some(v);
    }
    buffer.current_line = index + input_len;
    buffer.current_line
}

/// Enters the input lines into the buffer before the second address of the
/// command; the cursor lands just past the inserted block.
pub fn insert(buffer: &mut LineBuffer, command: &EdCommand, input: Vec<String>) -> (r: Result<
    REPLStatus,
    EdCommandError,
>)
    requires
        old(buffer).line_count() + input@.len() < usize::MAX,
    ensures
        insert_applied(
            *old(buffer),
            old(buffer).current_line as nat,
            command.address2,
            input@,
            *final(buffer),
        ),
        r == Ok::<REPLStatus, EdCommandError>(REPLStatus::Continue),
{
    let _index = insert_into_buffer(buffer, &command.address2, input);
    Ok(REPLStatus::Continue)
}

/// Splices `lines` into the buffer after the position `location` resolves
/// to, except that address `0` splices at the very front; an empty buffer
/// simply becomes those lines. Returns the new cursor: the 1-indexed end of
/// the inserted block.
pub fn append_into_buffer(buffer: &mut LineBuffer, location: &Address, lines: Vec<String>) -> (r:
    usize)
    requires
        old(buffer).line_count() + lines@.len() < usize::MAX,
    ensures
        append_applied(*old(buffer), old(buffer).current_line as nat, *location, lines@, *final(buffer)),
        r == final(buffer).current_line,
{
    let len = buffer.len();
    let mut index = address_to_index(*location, buffer) + 1;
    if *location == Address::Absolute(0) {
        index = 0;
    }
    let input_len = lines.len();
    if len == 0 {
        buffer.lines = Some(lines);
    } else {
        let mut v = match buffer.lines.take() {
            Some(v) => v,
            None => {
                proof {
                    assert(false);
                }
                Vec::new()
            },
        };
        insert_all(&mut v, index, lines);
        buffer.lines = Some(v);
    }
    buffer.current_line = index + input_len;
    buffer.current_line
}

/// Enters the input lines into the buffer after the second address of the
/// command; the cursor lands just past the inserted block.
pub fn append(buffer: &mut LineBuffer, command: &EdCommand, input: Vec<String>) -> (r: Result<
    REPLStatus,
    EdCommandError,
>)
    requires
        old(buffer).line_count() + input@.len() < usize::MAX,
    ensures
        append_applied(
            *old(buffer),
            old(buffer).current_line as nat,
            command.address2,
            input@,
            *final(buffer),
        ),
        r == Ok::<REPLStatus, EdCommandError>(REPLStatus::Continue),
{
    let _index = append_into_buffer(buffer, &command.address2, input);
    Ok(REPLStatus::Continue)
}

/// Replaces the closed range between the two resolved addresses with
/// `lines`; an empty buffer simply becomes those lines, and a first position
/// one past the second denotes the empty span (nothing removed). Returns the
/// new cursor: the 1-indexed end of the inserted block.
pub fn correct_into_buffer(
    buffer: &mut LineBuffer,
    location1: &Address,
    location2: &Address,
    lines: Vec<String>,
) -> (r: Result<usize, EdCommandError>)
    requires
        old(buffer).line_count() + lines@.len() < usize::MAX,
        old(buffer).line_count() > 0 ==> resolved_index(
            *location1,
            old(buffer).line_count(),
            old(buffer).current_line as nat,
        ) <= resolved_index(
            *location2,
            old(buffer).line_count(),
            old(buffer).current_line as nat,
        ) + 1,
    ensures
        correct_applied(
            *old(buffer),
            old(buffer).current_line as nat,
            *location1,
            *location2,
            lines@,
            *final(buffer),
        ),
        r matches Ok(c) && c == final(buffer).current_line,
{
    let len = buffer.len();
    let index1 = address_to_index(*location1, buffer);
    let index2 = address_to_index(*location2, buffer);
    let input_len = lines.len();
    if len == 0 {
        buffer.lines = Some(lines);
    } else {
        let mut v = match buffer.lines.take() {
            Some(v) => v,
            None => {
                proof {
                    assert(false);
                }
                Vec::new()
            },
        };
        if index1 <= index2 {
            remove_range(&mut v, index1, index2);
        }
        insert_all(&mut v, index1, lines);
        proof {
            assert(v@ =~= splice_lines(
                old(buffer).lines_view(),
                index1 as int,
                index2 as int + 1,
                lines@,
            ));
        }
        buffer.lines = Some(v);
    }
    buffer.current_line = index1 + input_len;
    Ok(buffer.current_line)
}

/// The correct command: refuses a zero first address outright, then replaces
/// the addressed range with the input lines and reports the new cursor.
pub fn correct(buffer: &mut LineBuffer, command: &EdCommand, input: Vec<String>) -> (r: Result<
    (REPLStatus, usize),
    EdCommandError,
>)
    requires
        old(buffer).line_count() + input@.len() < usize::MAX,
        old(buffer).line_count() > 0 ==> resolved_index(
            command.address1,
            old(buffer).line_count(),
            old(buffer).current_line as nat,
        ) <= resolved_index(
            command.address2,
            old(buffer).line_count(),
            old(buffer).current_line as nat,
        ) + 1,
    ensures
        command.address1 == Address::Absolute(0usize) ==> *final(buffer) == *old(buffer) && r
            == Err::<(REPLStatus, usize), EdCommandError>(EdCommandError::InvalidRange),
        command.address1 != Address::Absolute(0usize) ==> correct_applied(
            *old(buffer),
            old(buffer).current_line as nat,
            command.address1,
            command.address2,
            input@,
            *final(buffer),
        ) && (r matches Ok((st, c)) && st == REPLStatus::Continue && c == final(buffer).current_line),
{
    if command.address1 == Address::Absolute(0) {
        return Err(EdCommandError::InvalidRange);
    }
    let new_location = match correct_into_buffer(buffer, &command.address1, &command.address2, input) {
        Ok(c) => c,
        Err(e) => {
            return Err(e);
        },
    };
    Ok((REPLStatus::Continue, new_location))
}

/// Removes the closed range between the two resolved addresses; a buffer
/// with no lines is refused with `EmptyBuffer`. Returns the new cursor: the
/// start of the removed span.
pub fn delete_from_buffer(buffer: &mut LineBuffer, location1: &Address, location2: &Address) -> (r:
    Result<usize, EdCommandError>)
    requires
        old(buffer).line_count() > 0 ==> resolved_index(
            *location1,
            old(buffer).line_count(),
            old(buffer).current_line as nat,
        ) <= resolved_index(
            *location2,
            old(buffer).line_count(),
            old(buffer).current_line as nat,
        ),
    ensures
        old(buffer).line_count() == 0 ==> *final(buffer) == *old(buffer) && r == Err::<
            usize,
            EdCommandError,
        >(EdCommandError::EmptyBuffer),
        old(buffer).line_count() > 0 ==> delete_applied(
            *old(buffer),
            old(buffer).current_line as nat,
            *location1,
            *location2,
            *final(buffer),
        ) && (r matches Ok(c) && c == final(buffer).current_line),
{
    let len = buffer.len();
    if len == 0 {
        return Err(EdCommandError::EmptyBuffer);
    }
    let index1 = address_to_index(*location1, buffer);
    let index2 = address_to_index(*location2, buffer);
    let mut v = match buffer.lines.take() {
        Some(v) => v,
        None => {
            proof {
                assert(false);
            }
            Vec::new()
        },
    };
    remove_range(&mut v, index1, index2);
    buffer.lines = Some(v);
    buffer.current_line = index1;
    Ok(buffer.current_line)
}

/// The delete command: a zero first address always fails with
/// `InvalidRange`, whatever the buffer holds; otherwise the addressed range
/// is removed and the new cursor reported.
pub fn delete(buffer: &mut LineBuffer, command: &EdCommand) -> (r: Result<
    (REPLStatus, usize),
    EdCommandError,
>)
    requires
        old(buffer).line_count() > 0 ==> resolved_index(
            command.address1,
            old(buffer).line_count(),
            old(buffer).current_line as nat,
        ) <= resolved_index(
            command.address2,
            old(buffer).line_count(),
            old(buffer).current_line as nat,
        ),
    ensures
        command.address1 == Address::Absolute(0usize) ==> *final(buffer) == *old(buffer) && r
            == Err::<(REPLStatus, usize), EdCommandError>(EdCommandError::InvalidRange),
        command.address1 != Address::Absolute(0usize) && old(buffer).line_count() == 0 ==> *final(buffer) == *old(buffer) && r == Err::<(REPLStatus, usize), EdCommandError>(
            EdCommandError::EmptyBuffer,
        ),
        command.address1 != Address::Absolute(0usize) && old(buffer).line_count() > 0
            ==> delete_applied(
            *old(buffer),
            old(buffer).current_line as nat,
            command.address1,
            command.address2,
            *final(buffer),
        ) && (r matches Ok((st, c)) && st == REPLStatus::Continue && c == final(buffer).current_line),
{
    if command.address1 == Address::Absolute(0) {
        return Err(EdCommandError::InvalidRange);
    }
    let new_location = match delete_from_buffer(buffer, &command.address1, &command.address2) {
        Ok(c) => c,
        Err(e) => {
            return Err(e);
        },
    };
    Ok((REPLStatus::Continue, new_location))
}

} // verus!
