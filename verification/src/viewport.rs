//! Viewport logic: maps buffer and cursor onto a bounded terminal grid.
//!
//! The scroll offset is adjusted so the cursor row always lies in the
//! visible band, each visible row is padded with trailing blanks to the
//! full terminal width (so a frame overwrites the previous one without a
//! separate clear pass), and a diagnostic status line is synthesized
//! from the cursor and the offset.

use vstd::prelude::*;
use crate::editor::grid_view;

verus! {

/// The scroll offset after a redraw with the cursor on `row`: scrolled
/// up to reveal a cursor above the band, scrolled down to reveal one
/// below it, and unchanged when the cursor is already visible.
pub open spec fn spec_scroll(offset: nat, row: nat, height: nat) -> nat {
    if row < offset {
        row
    } else if row >= offset + height {
        (row - height + 1) as nat
    } else {
        offset
    }
}

/// `line` padded with trailing blanks to exactly `width` cells; a line
/// already that wide or wider is unchanged.
pub open spec fn pad_view(line: Seq<char>, width: nat) -> Seq<char> {
    if line.len() >= width {
        line
    } else {
        line + Seq::new((width - line.len()) as nat, |i: int| ' ')
    }
}

/// The buffer row drawn at index `idx`, a blank row past the end.
pub open spec fn row_at(lines: Seq<Seq<char>>, idx: int) -> Seq<char> {
    if 0 <= idx < lines.len() {
        lines[idx]
    } else {
        Seq::empty()
    }
}

/// The full frame: `height` rows, each the buffer row at `offset + i`
/// (blank past the end) padded to `width`.
pub open spec fn frame_view(lines: Seq<Seq<char>>, offset: nat, width: nat, height: nat) -> Seq<
    Seq<char>,
> {
    Seq::new(height, |i: int| pad_view(row_at(lines, offset + i), width))
}

/// One decimal digit as a character.
pub open spec fn dec_digit(d: nat) -> char {
    if d == 0 {
        '0'
    } else if d == 1 {
        '1'
    } else if d == 2 {
        '2'
    } else if d == 3 {
        '3'
    } else if d == 4 {
        '4'
    } else if d == 5 {
        '5'
    } else if d == 6 {
        '6'
    } else if d == 7 {
        '7'
    } else if d == 8 {
        '8'
    } else {
        '9'
    }
}

/// The decimal digits of `n`, most significant first, no leading zeros
/// except for `n == 0` itself.
pub open spec fn dec_rep(n: nat) -> Seq<char>
    decreases n,
{
    if n < 10 {
        seq![dec_digit(n)]
    } else {
        dec_rep(n / 10).push(dec_digit(n % 10))
    }
}

/// The diagnostic status line for a cursor and scroll offset.
pub open spec fn status_view(x: nat, y: nat, offset: nat) -> Seq<char> {
    seq!['x', ':', ' '] + dec_rep(x) + seq![',', ' ', 'y', ':', ' '] + dec_rep(y) + seq![
        ' ',
        'o',
        'f',
        'f',
        's',
        'e',
        't',
        ':',
        ' ',
    ] + dec_rep(offset)
}

/// Updates the scroll offset so the cursor row lies inside the visible
/// band of `height` rows: `r <= cursor_row < r + height`.
pub fn scroll_offset(offset: usize, cursor_row: usize, height: usize) -> (r: usize)
    requires
        height >= 1,
    ensures
        r == spec_scroll(offset as nat, cursor_row as nat, height as nat),
        r <= cursor_row < r + height,
{
    if cursor_row < offset {
        cursor_row
    } else if cursor_row - offset >= height {
        cursor_row - (height - 1)
    } else {
        offset
    }
}

/// Where the terminal cursor is placed after a redraw: the buffer
/// column, and the buffer row relative to the scroll offset.
pub fn screen_position(cursor_x: usize, cursor_y: usize, offset: usize) -> (r: (usize, usize))
    requires
        offset <= cursor_y,
    ensures
        r.0 == cursor_x,
        r.1 == cursor_y - offset,
{
    (cursor_x, cursor_y - offset)
}

/// Pads `line` with trailing blanks to exactly `width` cells.
pub fn pad_line(line: &Vec<char>, width: usize) -> (r: Vec<char>)
    ensures
        r@ == pad_view(line@, width as nat),
{
    let mut r = crate::editor::clone_row(line);
    while r.len() < width
        invariant
            line@.len() <= r@.len(),
            line@.len() >= width ==> r@ == line@,
            forall|j: int| 0 <= j < line@.len() ==> r@[j] == line@[j],
            forall|j: int| line@.len() <= j < r@.len() ==> r@[j] == ' ',
            r@.len() <= width || r@ == line@,
        decreases width - r@.len(),
    {
        r.push(' ');
    }
    proof {
        assert(r@ =~= pad_view(line@, width as nat));
    }
    r
}

/// The `height` rows of one frame: the buffer rows from `offset` on,
/// blank rows past the end, each padded to `width`.
pub fn visible_rows(content: &Vec<Vec<char>>, offset: usize, width: usize, height: usize) -> (r:
    Vec<Vec<char>>)
    ensures
        grid_view(r@) == frame_view(grid_view(content@), offset as nat, width as nat, height as nat),
{
    let n = content.len();
    let mut r: Vec<Vec<char>> = Vec::new();
    let mut i: usize = 0;
    while i < height
        invariant
            i <= height,
            n == content@.len(),
            r@.len() == i,
            forall|j: int|
                0 <= j < i ==> r@[j]@ == pad_view(
                    row_at(grid_view(content@), offset + j),
                    width as nat,
                ),
        decreases height - i,
    {
        if offset < n && i < n - offset {
            r.push(pad_line(&content[offset + i], width));
        } else {
            let blank: Vec<char> = Vec::new();
            r.push(pad_line(&blank, width));
        }
        i = i + 1;
    }
    proof {
        assert(grid_view(r@) =~= frame_view(
            grid_view(content@),
            offset as nat,
            width as nat,
            height as nat,
        ));
    }
    r
}

/// One decimal digit of `d` as a character.
fn digit_char(d: usize) -> (c: char)
    requires
        d < 10,
    ensures
        c == dec_digit(d as nat),
{
    if d == 0 {
        '0'
    } else if d == 1 {
        '1'
    } else if d == 2 {
        '2'
    } else if d == 3 {
        '3'
    } else if d == 4 {
        '4'
    } else if d == 5 {
        '5'
    } else if d == 6 {
        '6'
    } else if d == 7 {
        '7'
    } else if d == 8 {
        '8'
    } else {
        '9'
    }
}

/// Appends the decimal digits of `n` to `out`.
fn push_decimal(out: &mut Vec<char>, n: usize)
    ensures
        final(out)@ == old(out)@ + dec_rep(n as nat),
    decreases n,
{
    if n < 10 {
        out.push(digit_char(n));
        proof {
            assert(final(out)@ =~= old(out)@ + dec_rep(n as nat));
        }
    } else {
        push_decimal(out, n / 10);
        out.push(digit_char(n % 10));
        proof {
            assert(final(out)@ =~= old(out)@ + dec_rep(n as nat));
        }
    }
}

/// The status line drawn under the visible band: the cursor column and
/// row and the scroll offset, rendered in decimal. It is shown on
/// screen only and never written back to storage.
pub fn status_line(cursor_x: usize, cursor_y: usize, offset: usize) -> (r: Vec<char>)
    ensures
        r@ == status_view(cursor_x as nat, cursor_y as nat, offset as nat),
{
    let mut r: Vec<char> = Vec::new();
    r.push('x');
    r.push(':');
    r.push(' ');
    push_decimal(&mut r, cursor_x);
    r.push(',');
    r.push(' ');
    r.push('y');
    r.push(':');
    r.push(' ');
    push_decimal(&mut r, cursor_y);
    r.push(' ');
    r.push('o');
    r.push('f');
    r.push('f');
    r.push('s');
    r.push('e');
    r.push('t');
    r.push(':');
    r.push(' ');
    push_decimal(&mut r, offset);
    proof {
        assert(r@ =~= status_view(cursor_x as nat, cursor_y as nat, offset as nat));
    }
    r
}

} // verus!
