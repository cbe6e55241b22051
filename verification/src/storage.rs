//! The storage format: one terminated line of text per buffer line.
//!
//! Saving writes every line followed by a line feed, the last line
//! included. Loading splits text at line endings — a line feed, or a
//! carriage return followed by a line feed — strips them, and does not
//! produce an extra empty line after a final terminator.

use vstd::prelude::*;
use crate::editor::grid_view;

verus! {

/// `s` without a single trailing carriage return.
pub open spec fn strip_cr(s: Seq<char>) -> Seq<char> {
    if s.len() > 0 && s.last() == '\r' {
        s.drop_last()
    } else {
        s
    }
}

/// The lines held by a stretch of text: split at `\n` or `\r\n`, with
/// the terminators stripped; a final unterminated stretch is a line of
/// its own, and a final terminator adds no empty line.
pub open spec fn spec_lines(text: Seq<char>) -> Seq<Seq<char>>
    decreases text.len(),
{
    if text.len() == 0 {
        Seq::empty()
    } else if text[0] == '\n' {
        seq![Seq::<char>::empty()] + spec_lines(text.drop_first())
    } else if text[0] == '\r' && 2 <= text.len() && text[1] == '\n' {
        seq![Seq::<char>::empty()] + spec_lines(text.skip(2))
    } else {
        let rest = spec_lines(text.drop_first());
        if rest.len() == 0 {
            seq![seq![text[0]]]
        } else {
            seq![seq![text[0]] + rest[0]] + rest.drop_first()
        }
    }
}

/// The text that stores the given lines: each line followed by a line
/// feed, the last line included.
pub open spec fn spec_text(lines: Seq<Seq<char>>) -> Seq<char>
    decreases lines.len(),
{
    if lines.len() == 0 {
        Seq::empty()
    } else {
        lines[0] + seq!['\n'] + spec_text(lines.drop_first())
    }
}

/// Text without a line feed holds at most one line: itself.
pub proof fn lemma_lines_no_newline(s: Seq<char>)
    requires
        forall|j: int| 0 <= j < s.len() ==> s[j] != '\n',
    ensures
        spec_lines(s) == (if s.len() == 0 {
            Seq::<Seq<char>>::empty()
        } else {
            seq![s]
        }),
    decreases s.len(),
{
    if s.len() > 0 {
        lemma_lines_no_newline(s.drop_first());
        let rest = spec_lines(s.drop_first());
        if rest.len() == 0 {
            assert(seq![s[0]] =~= s);
        } else {
            assert(seq![s[0]] + s.drop_first() =~= s);
            assert(seq![seq![s[0]] + rest[0]] + rest.drop_first() =~= seq![s]);
        }
    }
}

/// Splitting text that starts with a terminated line yields that line,
/// with a trailing carriage return stripped, followed by the lines of
/// the remainder.
pub proof fn lemma_lines_split(pre: Seq<char>, rest: Seq<char>)
    requires
        forall|j: int| 0 <= j < pre.len() ==> pre[j] != '\n',
    ensures
        spec_lines(pre + seq!['\n'] + rest) == seq![strip_cr(pre)] + spec_lines(rest),
    decreases pre.len(),
{
    let text = pre + seq!['\n'] + rest;
    if pre.len() == 0 {
        assert(text[0] == '\n');
        assert(text.drop_first() =~= rest);
        assert(strip_cr(pre) =~= Seq::<char>::empty());
    } else if pre.len() == 1 && pre[0] == '\r' {
        assert(text[0] == '\r' && text.len() >= 2 && text[1] == '\n');
        assert(text.skip(2) =~= rest);
        assert(strip_cr(pre) =~= Seq::<char>::empty());
        assert(seq![Seq::<char>::empty()] + spec_lines(rest) =~= seq![strip_cr(pre)] + spec_lines(
            rest,
        ));
    } else {
        assert(text[0] == pre[0]);
        assert(text[0] != '\n');
        assert(text[1] == (pre + seq!['\n'] + rest)[1]);
        assert(pre.len() >= 2 ==> text[1] == pre[1]);
        assert(pre.len() == 1 ==> text[1] == '\n' && text[0] != '\r');
        lemma_lines_split(pre.drop_first(), rest);
        assert(text.drop_first() =~= pre.drop_first() + seq!['\n'] + rest);
        let inner = spec_lines(text.drop_first());
        assert(inner == seq![strip_cr(pre.drop_first())] + spec_lines(rest));
        assert(inner.len() >= 1);
        assert(inner[0] == strip_cr(pre.drop_first()));
        assert(seq![pre[0]] + strip_cr(pre.drop_first()) =~= strip_cr(pre));
        assert(inner.drop_first() =~= spec_lines(rest));
        assert(seq![seq![text[0]] + inner[0]] + inner.drop_first() =~= seq![strip_cr(pre)]
            + spec_lines(rest));
    }
}

/// Storing lines and appending one more stores the old text, the new
/// line, and one line feed.
pub proof fn lemma_text_push(lines: Seq<Seq<char>>, l: Seq<char>)
    ensures
        spec_text(lines.push(l)) == spec_text(lines) + l + seq!['\n'],
    decreases lines.len(),
{
    if lines.len() == 0 {
        assert(lines.push(l) =~= seq![l]);
        assert(seq![l].drop_first() =~= Seq::<Seq<char>>::empty());
        assert(spec_text(Seq::<Seq<char>>::empty()) == Seq::<char>::empty());
        assert(spec_text(seq![l]) == seq![l][0] + seq!['\n'] + spec_text(seq![l].drop_first()));
        assert(seq![l][0] + seq!['\n'] + Seq::<char>::empty() =~= l + seq!['\n']);
        assert(spec_text(lines) + l + seq!['\n'] =~= l + seq!['\n']);
    } else {
        lemma_text_push(lines.drop_first(), l);
        assert(lines.push(l).drop_first() =~= lines.drop_first().push(l));
        assert(lines.push(l)[0] == lines[0]);
        assert(lines[0] + seq!['\n'] + (spec_text(lines.drop_first()) + l + seq!['\n']) =~= (
        lines[0] + seq!['\n'] + spec_text(lines.drop_first())) + l + seq!['\n']);
    }
}

/// Law: storing a buffer and loading it back yields the same buffer,
/// for every buffer whose lines hold no line feed and do not end in a
/// carriage return — the characters a terminator would be confused
/// with.
pub proof fn lemma_storage_round_trip(lines: Seq<Seq<char>>)
    requires
        forall|i: int, j: int|
            0 <= i < lines.len() && 0 <= j < lines[i].len() ==> lines[i][j] != '\n',
        forall|i: int| 0 <= i < lines.len() && lines[i].len() > 0 ==> lines[i].last() != '\r',
    ensures
        spec_lines(spec_text(lines)) == lines,
    decreases lines.len(),
{
    if lines.len() > 0 {
        lemma_lines_split(lines[0], spec_text(lines.drop_first()));
        assert(strip_cr(lines[0]) == lines[0]);
        lemma_storage_round_trip(lines.drop_first());
        assert(seq![lines[0]] + lines.drop_first() =~= lines);
    }
}

/// Splits loaded text into the buffer's lines.
pub fn split_text(text: &Vec<char>) -> (r: Vec<Vec<char>>)
    ensures
        grid_view(r@) == spec_lines(text@),
{
    let mut out: Vec<Vec<char>> = Vec::new();
    let mut cur: Vec<char> = Vec::new();
    let mut i: usize = 0;
    proof {
        assert(cur@ + text@.skip(0) =~= text@);
        assert(grid_view(out@) + spec_lines(text@) =~= spec_lines(text@));
    }
    while i < text.len()
        invariant
            i <= text@.len(),
            forall|j: int| 0 <= j < cur@.len() ==> cur@[j] != '\n',
            spec_lines(text@) == grid_view(out@) + spec_lines(cur@ + text@.skip(i as int)),
        decreases text@.len() - i,
    {
        let c = text[i];
        proof {
            assert(text@.skip(i as int) =~= seq![text@[i as int]] + text@.skip(i + 1));
        }
        if c == '\n' {
            proof {
                assert(cur@ + text@.skip(i as int) =~= cur@ + seq!['\n'] + text@.skip(i + 1));
                lemma_lines_split(cur@, text@.skip(i + 1));
            }
            let ghost old_cur = cur@;
            if cur.len() > 0 && cur[cur.len() - 1] == '\r' {
                cur.pop();
            }
            proof {
                assert(cur@ == strip_cr(old_cur));
            }
            out.push(cur);
            cur = Vec::new();
            proof {
                assert(grid_view(out@) =~= grid_view(out@.drop_last()) + seq![strip_cr(old_cur)]);
                assert(grid_view(out@) + spec_lines(cur@ + text@.skip(i + 1)) =~= spec_lines(
                    text@,
                ));
            }
        } else {
            let ghost prev_cur = cur@;
            cur.push(c);
            proof {
                assert(cur@ + text@.skip(i + 1) =~= prev_cur + text@.skip(i as int));
            }
        }
        i = i + 1;
    }
    proof {
        assert(cur@ + text@.skip(text@.len() as int) =~= cur@);
        lemma_lines_no_newline(cur@);
    }
    if cur.len() > 0 {
        out.push(cur);
        proof {
            assert(grid_view(out@) =~= grid_view(out@.drop_last()) + spec_lines(
                out@.last()@ + text@.skip(text@.len() as int),
            ));
        }
    }
    proof {
        assert(grid_view(out@) =~= spec_lines(text@));
    }
    out
}

/// Renders the buffer as the text to store: each line followed by a
/// line feed, the last line included.
pub fn lines_to_text(lines: &Vec<Vec<char>>) -> (r: Vec<char>)
    ensures
        r@ == spec_text(grid_view(lines@)),
{
    let mut r: Vec<char> = Vec::new();
    let mut i: usize = 0;
    proof {
        assert(grid_view(lines@).take(0) =~= Seq::<Seq<char>>::empty());
    }
    while i < lines.len()
        invariant
            i <= lines@.len(),
            r@ == spec_text(grid_view(lines@).take(i as int)),
        decreases lines@.len() - i,
    {
        let line = &lines[i];
        let mut j: usize = 0;
        while j < line.len()
            invariant
                j <= line@.len(),
                i < lines@.len(),
                line@ == lines@[i as int]@,
                r@ == spec_text(grid_view(lines@).take(i as int)) + line@.take(j as int),
            decreases line@.len() - j,
        {
            r.push(line[j]);
            proof {
                assert(line@.take(j + 1) =~= line@.take(j as int).push(line@[j as int]));
                assert(spec_text(grid_view(lines@).take(i as int)) + line@.take(j + 1) =~= (
                spec_text(grid_view(lines@).take(i as int)) + line@.take(j as int)).push(
                    line@[j as int],
                ));
            }
            j = j + 1;
        }
        r.push('\n');
        proof {
            assert(line@.take(line@.len() as int) =~= line@);
            lemma_text_push(grid_view(lines@).take(i as int), line@);
            assert(grid_view(lines@).take(i + 1) =~= grid_view(lines@).take(i as int).push(line@));
            assert(r@ =~= spec_text(grid_view(lines@).take(i as int)) + line@ + seq!['\n']);
        }
        i = i + 1;
    }
    proof {
        assert(grid_view(lines@).take(lines@.len() as int) =~= grid_view(lines@));
    }
    r
}

} // verus!
