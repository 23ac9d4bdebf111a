//! The newline-delimited text form of a buffer: each line is written
//! followed by one newline, and text is read back by splitting on newlines
//! with no entry for a final dangling newline. The round-trip law is proved
//! here.

use vstd::prelude::*;

verus! {

/// The text that a sequence of lines is written as: every line followed by
/// one newline.
pub open spec fn joined_text(lines: Seq<Seq<char>>) -> Seq<char>
    decreases lines.len(),
{
    if lines.len() == 0 {
        Seq::empty()
    } else {
        lines.first() + seq!['\n'] + joined_text(lines.drop_first())
    }
}

/// The position of the first newline in `text`, or its length when there is
/// none.
pub open spec fn line_break(text: Seq<char>) -> nat
    decreases text.len(),
{
    if text.len() == 0 {
        0
    } else if text.first() == '\n' {
        0
    } else {
        (1 + line_break(text.drop_first())) as nat
    }
}

/// The lines that `text` splits into: segments between newlines, with no
/// entry for a final dangling newline.
pub open spec fn split_text(text: Seq<char>) -> Seq<Seq<char>>
    decreases text.len(),
    via split_text_decreases
{
    if text.len() == 0 {
        Seq::empty()
    } else {
        let k = line_break(text);
        if k == text.len() {
            seq![text]
        } else {
            seq![text.subrange(0, k as int)] + split_text(
                text.subrange(k as int + 1, text.len() as int),
            )
        }
    }
}

#[via_fn]
proof fn split_text_decreases(text: Seq<char>) {
    lemma_line_break_bounds(text);
}

/// `line_break` stays within the text, everything before it is not a
/// newline, and it lands on a newline unless there is none.
pub proof fn lemma_line_break_bounds(text: Seq<char>)
    ensures
        line_break(text) <= text.len(),
        forall|k: int| 0 <= k < line_break(text) ==> text[k] != '\n',
        line_break(text) < text.len() ==> text[line_break(text) as int] == '\n',
    decreases text.len(),
{
    if text.len() > 0 && text.first() != '\n' {
        lemma_line_break_bounds(text.drop_first());
        assert forall|k: int| 0 <= k < line_break(text) implies text[k] != '\n' by {
            if k > 0 {
                assert(text[k] == text.drop_first()[k - 1]);
            }
        }
    }
}

/// A scan that saw no newline up to `j`, and a newline or the end at `j`,
/// pins `line_break` to `j`.
pub proof fn lemma_line_break_is(text: Seq<char>, j: int)
    requires
        0 <= j <= text.len(),
        forall|k: int| 0 <= k < j ==> text[k] != '\n',
        j == text.len() || text[j] == '\n',
    ensures
        line_break(text) == j,
    decreases j,
{
    if j > 0 {
        lemma_line_break_is(text.drop_first(), j - 1);
    }
}

/// Joining distributes over concatenation of line sequences.
pub proof fn lemma_joined_append(a: Seq<Seq<char>>, b: Seq<Seq<char>>)
    ensures
        joined_text(a + b) == joined_text(a) + joined_text(b),
    decreases a.len(),
{
    if a.len() == 0 {
        assert(a + b =~= b);
        assert(joined_text(a) + joined_text(b) =~= joined_text(b));
    } else {
        lemma_joined_append(a.drop_first(), b);
        assert((a + b).drop_first() =~= a.drop_first() + b);
        assert((a + b).first() == a.first());
        assert(a.first() + seq!['\n'] + (joined_text(a.drop_first()) + joined_text(b)) =~= (
        a.first() + seq!['\n'] + joined_text(a.drop_first())) + joined_text(b));
    }
}

/// In a text that starts with a newline-free prefix `a`, then a newline, the
/// first newline sits exactly after `a`.
proof fn lemma_line_break_after(a: Seq<char>, t: Seq<char>)
    requires
        forall|k: int| 0 <= k < a.len() ==> a[k] != '\n',
    ensures
        line_break(a + seq!['\n'] + t) == a.len(),
{
    let s = a + seq!['\n'] + t;
    assert(s[a.len() as int] == '\n');
    lemma_line_break_is(s, a.len() as int);
}

/// The round trip: text written for a sequence of lines splits back into
/// exactly that sequence, provided no line itself contains a newline.
pub proof fn lemma_text_round_trip(lines: Seq<Seq<char>>)
    requires
        forall|i: int| 0 <= i < lines.len() ==> !lines[i].contains('\n'),
    ensures
        split_text(joined_text(lines)) == lines,
    decreases lines.len(),
{
    if lines.len() == 0 {
    } else {
        let l0 = lines.first();
        let rest = joined_text(lines.drop_first());
        let s = l0 + seq!['\n'] + rest;
        assert(forall|k: int| 0 <= k < l0.len() ==> l0[k] != '\n') by {
            assert(!lines[0].contains('\n'));
        }
        lemma_line_break_after(l0, rest);
        assert(line_break(s) < s.len());
        assert(s.subrange(0, l0.len() as int) =~= l0);
        assert(s.subrange(l0.len() as int + 1, s.len() as int) =~= rest);
        lemma_text_round_trip(lines.drop_first());
        assert(split_text(s) =~= seq![l0] + lines.drop_first());
        assert(seq![l0] + lines.drop_first() =~= lines);
    }
}

/// Writes lines as newline-terminated text, one newline after each line.
pub fn encode_lines(lines: &Vec<String>) -> (r: String)
    ensures
        r@ == joined_text(lines.deep_view()),
{
    let ghost all = lines.deep_view();
    let mut out = String::new();
    let mut i: usize = 0;
    proof {
        assert(all.take(0) =~= Seq::<Seq<char>>::empty());
    }
    while i < lines.len()
        invariant
            i <= lines.len(),
            all == lines.deep_view(),
            all.len() == lines@.len(),
            out@ == joined_text(all.take(i as int)),
        decreases lines.len() - i,
    {
        out.append(lines[i].as_str());
        out.append("\n");
        proof {
            reveal_strlit("\n");
            assert("\n"@ =~= seq!['\n']);
            lemma_joined_append(all.take(i as int), seq![all[i as int]]);
            assert(all.take(i as int + 1) =~= all.take(i as int) + seq![all[i as int]]);
            assert(seq![all[i as int]].drop_first() =~= Seq::<Seq<char>>::empty());
            assert(joined_text(Seq::<Seq<char>>::empty()) =~= Seq::<char>::empty());
            assert(joined_text(seq![all[i as int]]) =~= all[i as int] + seq!['\n']);
            assert(out@ =~= joined_text(all.take(i as int + 1)));
        }
        i = i + 1;
    }
    proof {
        assert(all.take(lines@.len() as int) =~= all);
    }
    out
}

/// Splits text into lines on newlines, with no entry for a final dangling
/// newline.
pub fn decode_text(text: &str) -> (r: Vec<String>)
    ensures
        r.deep_view() == split_text(text@),
{
    let n = text.unicode_len();
    let mut out: Vec<String> = Vec::new();
    let mut i: usize = 0;
    proof {
        assert(out.deep_view() =~= Seq::<Seq<char>>::empty());
        assert(text@.subrange(0, n as int) =~= text@);
    }
    while i < n
        invariant
            i <= n,
            n == text@.len(),
            out.deep_view() + split_text(text@.subrange(i as int, n as int)) == split_text(text@),
        decreases n - i,
    {
        let mut j = i;
        loop
            invariant
                i <= j <= n,
                n == text@.len(),
                forall|k: int| i <= k < j ==> text@[k] != '\n',
            ensures
                i <= j <= n,
                forall|k: int| i <= k < j ==> text@[k] != '\n',
                j == n || text@[j as int] == '\n',
            decreases n - j,
        {
            if j == n {
                break ;
            }
            if text.get_char(j) == '\n' {
                break ;
            }
            j = j + 1;
        }
        let entry = String::from_str(text.substring_char(i, j));
        let ghost before = out.deep_view();
        out.push(entry);
        proof {
            let tail = text@.subrange(i as int, n as int);
            lemma_line_break_is(tail, j - i);
            assert(out.deep_view() =~= before + seq![entry@]);
            if j < n {
                assert(tail.subrange(0, j - i) =~= text@.subrange(i as int, j as int));
                assert(tail.subrange(j - i + 1, tail.len() as int) =~= text@.subrange(
                    j as int + 1,
                    n as int,
                ));
                assert(split_text(tail) =~= seq![entry@] + split_text(
                    text@.subrange(j as int + 1, n as int),
                ));
                assert(out.deep_view() + split_text(text@.subrange(j as int + 1, n as int))
                    =~= before + split_text(tail));
            } else {
                assert(line_break(tail) == tail.len());
                assert(tail =~= entry@);
                assert(split_text(tail) =~= seq![entry@]);
                assert(text@.subrange(n as int, n as int) =~= Seq::<char>::empty());
                assert(out.deep_view() + split_text(text@.subrange(n as int, n as int)) =~= before
                    + split_text(tail));
            }
        }
        i = if j < n {
            j + 1
        } else {
            n
        };
    }
    proof {
        assert(text@.subrange(n as int, n as int) =~= Seq::<char>::empty());
        assert(out.deep_view() + split_text(text@.subrange(n as int, n as int)) =~= out.deep_view());
    }
    out
}

} // verus!
