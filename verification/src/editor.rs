//! The text buffer and cursor of the editor, and keystroke dispatch.
//!
//! The buffer is an ordered sequence of lines, each an ordered sequence
//! of Unicode scalar values; it always holds at least one (possibly
//! empty) line. The cursor is a (column, row) pair with `row` inside the
//! buffer and `column` at most the current line's length.

use vstd::prelude::*;
use crate::key::KeyEvent;
use crate::mode_manager::{ModeManager, State, apply_transition};

verus! {

use vstd::string::StrSliceExecFns;

/// The sequences of characters held by a row of lines.
pub open spec fn grid_view(b: Seq<Vec<char>>) -> Seq<Seq<char>> {
    Seq::new(b.len(), |i: int| b[i]@)
}

/// The character sequences held by a list of strings.
pub open spec fn strings_view(ls: Seq<String>) -> Seq<Seq<char>> {
    Seq::new(ls.len(), |i: int| ls[i]@)
}

/// `line` with `c` inserted before position `col`.
pub open spec fn line_insert(line: Seq<char>, col: int, c: char) -> Seq<char> {
    line.take(col) + seq![c] + line.skip(col)
}

/// The column after one step right on a line of length `len`: clamped at
/// the line length, never past it.
pub open spec fn col_right(col: nat, len: nat) -> nat {
    if col < len {
        col + 1
    } else {
        col
    }
}

/// The column after one step left: floor-clamped at zero.
pub open spec fn col_left(col: nat) -> nat {
    if col > 0 {
        (col - 1) as nat
    } else {
        0
    }
}

/// The smaller of two naturals.
pub open spec fn min_nat(a: nat, b: nat) -> nat {
    if a <= b {
        a
    } else {
        b
    }
}

/// Buffer and cursor after inserting `c` at the cursor: one character
/// added to the current line, the column advanced by one.
pub open spec fn step_insert_char(lines: Seq<Seq<char>>, x: nat, y: nat, c: char) -> (
    Seq<Seq<char>>,
    nat,
    nat,
) {
    (lines.update(y as int, line_insert(lines[y as int], x as int, c)), (x + 1) as nat, y)
}

/// Buffer and cursor after a backspace: the character left of the cursor
/// is removed and the column moves back, or nothing happens at column
/// zero (the line is not merged into the previous one).
pub open spec fn step_backspace(lines: Seq<Seq<char>>, x: nat, y: nat) -> (
    Seq<Seq<char>>,
    nat,
    nat,
) {
    if x > 0 {
        (lines.update(y as int, lines[y as int].remove(x - 1)), (x - 1) as nat, y)
    } else {
        (lines, x, y)
    }
}

/// Buffer and cursor after splitting the current line at the cursor: the
/// current row keeps the prefix, the new next row takes the suffix and
/// becomes current, and the column resets to zero.
pub open spec fn step_enter(lines: Seq<Seq<char>>, x: nat, y: nat) -> (Seq<Seq<char>>, nat, nat) {
    (
        lines.update(y as int, lines[y as int].take(x as int)).insert(
            y as int + 1,
            lines[y as int].skip(x as int),
        ),
        0,
        (y + 1) as nat,
    )
}

/// Buffer and cursor after one step up: the row moves up clamped at zero
/// and the column is clamped to the new line's length.
pub open spec fn step_up(lines: Seq<Seq<char>>, x: nat, y: nat) -> (Seq<Seq<char>>, nat, nat) {
    if y > 0 {
        (lines, min_nat(x, lines[y as int - 1].len()), (y - 1) as nat)
    } else {
        (lines, x, y)
    }
}

/// Buffer and cursor after one step down: the row moves down clamped at
/// the last row and the column is clamped to the new line's length.
pub open spec fn step_down(lines: Seq<Seq<char>>, x: nat, y: nat) -> (Seq<Seq<char>>, nat, nat) {
    if y + 1 < lines.len() {
        (lines, min_nat(x, lines[y as int + 1].len()), (y + 1) as nat)
    } else {
        (lines, x, y)
    }
}

/// Buffer and cursor after one step left.
pub open spec fn step_left(lines: Seq<Seq<char>>, x: nat, y: nat) -> (Seq<Seq<char>>, nat, nat) {
    (lines, col_left(x), y)
}

/// Buffer and cursor after one step right.
pub open spec fn step_right(lines: Seq<Seq<char>>, x: nat, y: nat) -> (Seq<Seq<char>>, nat, nat) {
    (lines, col_right(x, lines[y as int].len()), y)
}

/// The buffer operation a key triggers in a given mode: in `InsertMode`
/// character, backspace, enter and arrow keys are forwarded; in
/// `NormalMode` only arrow keys are; `VisualMode` and `CommandLineMode`
/// forward nothing.
pub open spec fn buffer_step(m: State, key: KeyEvent, lines: Seq<Seq<char>>, x: nat, y: nat) -> (
    Seq<Seq<char>>,
    nat,
    nat,
) {
    match m {
        State::InsertMode => match key {
            KeyEvent::Char(c) => step_insert_char(lines, x, y, c),
            KeyEvent::Backspace => step_backspace(lines, x, y),
            KeyEvent::Enter => step_enter(lines, x, y),
            KeyEvent::Up => step_up(lines, x, y),
            KeyEvent::Down => step_down(lines, x, y),
            KeyEvent::Left => step_left(lines, x, y),
            KeyEvent::Right => step_right(lines, x, y),
            KeyEvent::Esc => (lines, x, y),
        },
        State::NormalMode => match key {
            KeyEvent::Up => step_up(lines, x, y),
            KeyEvent::Down => step_down(lines, x, y),
            KeyEvent::Left => step_left(lines, x, y),
            KeyEvent::Right => step_right(lines, x, y),
            _ => (lines, x, y),
        },
        _ => (lines, x, y),
    }
}

/// The line that results from inserting the characters of `cs`, in call
/// order, each at the cursor column as it advances from `col`.
pub open spec fn insert_run(line: Seq<char>, col: int, cs: Seq<char>) -> Seq<char>
    decreases cs.len(),
{
    if cs.len() == 0 {
        line
    } else {
        insert_run(line_insert(line, col, cs[0]), col + 1, cs.drop_first())
    }
}

/// Law: a run of insertions at a fixed cursor, with no moves in between,
/// yields the original prefix, then the inserted characters in call
/// order, then the original suffix. On an empty line the result is
/// exactly the concatenation of the inserted characters.
pub proof fn lemma_insert_run(line: Seq<char>, col: int, cs: Seq<char>)
    requires
        0 <= col <= line.len(),
    ensures
        insert_run(line, col, cs) == line.take(col) + cs + line.skip(col),
    decreases cs.len(),
{
    if cs.len() == 0 {
        assert(line.take(col) + cs + line.skip(col) =~= line);
    } else {
        let l2 = line_insert(line, col, cs[0]);
        lemma_insert_run(l2, col + 1, cs.drop_first());
        assert(l2.take(col + 1) =~= line.take(col) + seq![cs[0]]);
        assert(l2.skip(col + 1) =~= line.skip(col));
        assert(line.take(col) + seq![cs[0]] + cs.drop_first() + line.skip(col) =~= line.take(col)
            + cs + line.skip(col));
    }
}

/// Law: once the column equals the line length, a step right changes
/// nothing, so further steps right are idempotent.
pub proof fn lemma_right_idempotent_at_end(lines: Seq<Seq<char>>, x: nat, y: nat)
    requires
        y < lines.len(),
        x == lines[y as int].len(),
    ensures
        step_right(lines, x, y) == (lines, x, y),
        step_right(lines, x, y) == step_right(step_right(lines, x, y).0, step_right(lines, x, y).1, step_right(lines, x, y).2),
{
}

/// Law: once the column is zero, a step left changes nothing, so
/// further steps left are idempotent.
pub proof fn lemma_left_idempotent_at_start(lines: Seq<Seq<char>>, x: nat, y: nat)
    requires
        x == 0,
    ensures
        step_left(lines, x, y) == (lines, x, y),
        step_left(lines, x, y) == step_left(step_left(lines, x, y).0, step_left(lines, x, y).1, step_left(lines, x, y).2),
{
}

/// The in-memory editor: the line buffer, the cursor, the exit flag and
/// the mode manager.
pub struct Editor {
    pub buffer: Vec<Vec<char>>,
    pub cursor_x: usize,
    pub cursor_y: usize,
    pub is_exiting: bool,
    pub mode_manager: ModeManager,
}

proof fn lemma_vec_len_bound<T>(v: &Vec<T>)
    ensures
        v@.len() <= usize::MAX,
{
    vstd::std_specs::vec::axiom_spec_len(v);
}

impl Editor {
    /// The character sequences of the buffer's lines.
    pub open spec fn lines(self) -> Seq<Seq<char>> {
        grid_view(self.buffer@)
    }

    /// The current editing mode.
    pub open spec fn mode(self) -> State {
        self.mode_manager.mode()
    }

    /// Whether the exit flag is set.
    pub open spec fn exiting(self) -> bool {
        self.is_exiting
    }

    /// The editor's buffer invariant: at least one line, the cursor row
    /// inside the buffer, and the cursor column at most the current
    /// line's length. The mode manager's own invariant,
    /// `self.mode_manager.wf()`, is carried alongside in the contracts.
    pub open spec fn wf(self) -> bool {
        &&& self.buffer@.len() >= 1
        &&& (self.cursor_y as int) < self.buffer@.len()
        &&& self.cursor_x <= self.buffer@[self.cursor_y as int]@.len()
    }

    pub fn is_exiting(&self) -> (r: bool)
        ensures
            r == self.exiting(),
    {
        return self.is_exiting;
    }

    /// An editor over the given lines, in `NormalMode`, with the cursor
    /// at the origin; an empty buffer is replaced by a single empty line.
    pub fn from_lines(content: Vec<Vec<char>>) -> (r: Editor)
        ensures
            r.wf(),
            r.mode_manager.wf(),
            r.lines() == (if content@.len() == 0 {
                seq![Seq::<char>::empty()]
            } else {
                grid_view(content@)
            }),
            r.cursor_x == 0,
            r.cursor_y == 0,
            r.mode() == State::NormalMode,
            !r.exiting(),
    {
        let mut buffer = content;
        if buffer.len() == 0 {
            buffer.push(Vec::new());
            proof {
                assert(grid_view(buffer@) =~= seq![Seq::<char>::empty()]);
            }
        }
        Editor {
            buffer,
            cursor_x: 0,
            cursor_y: 0,
            mode_manager: ModeManager::new(),
            is_exiting: false,
        }
    }

    /// An editor over the given strings, one line per string.
    pub fn from_strings(content: Vec<String>) -> (r: Editor)
        ensures
            r.wf(),
            r.mode_manager.wf(),
            r.lines() == (if content@.len() == 0 {
                seq![Seq::<char>::empty()]
            } else {
                strings_view(content@)
            }),
            r.cursor_x == 0,
            r.cursor_y == 0,
            r.mode() == State::NormalMode,
            !r.exiting(),
    {
        let buffer = strings_to_char_buffer(content);
        Editor::from_lines(buffer)
    }

    /// Dispatches one key event: the buffer operation the current mode
    /// forwards is applied, `Esc` in `NormalMode` sets the exit flag, and
    /// the mode then follows the transition table.
    pub fn handle_key(&mut self, key: KeyEvent)
        requires
            old(self).wf(),
            old(self).mode_manager.wf(),
        ensures
            final(self).wf(),
            final(self).mode_manager.wf(),
            (final(self).lines(), final(self).cursor_x as nat, final(self).cursor_y as nat)
                == buffer_step(
                old(self).mode(),
                key,
                old(self).lines(),
                old(self).cursor_x as nat,
                old(self).cursor_y as nat,
            ),
            final(self).exiting() == (old(self).exiting() || (old(self).mode()
                == State::NormalMode && key == KeyEvent::Esc)),
            final(self).mode() == apply_transition(old(self).mode(), key),
    {
        if self.mode_manager.current_state() == State::InsertMode {
            match key {
                KeyEvent::Char(c) => self.insert_char(c),
                KeyEvent::Backspace => self.backspace(),
                KeyEvent::Enter => self.enter(),
                KeyEvent::Up => self.move_cursor_up(),
                KeyEvent::Down => self.move_cursor_down(),
                KeyEvent::Left => self.move_cursor_left(),
                KeyEvent::Right => self.move_cursor_right(),
                _ => {},
            }
        }
        if self.mode_manager.current_state() == State::NormalMode {
            match key {
                KeyEvent::Esc => self.is_exiting = true,
                KeyEvent::Up => self.move_cursor_up(),
                KeyEvent::Down => self.move_cursor_down(),
                KeyEvent::Left => self.move_cursor_left(),
                KeyEvent::Right => self.move_cursor_right(),
                _ => {},
            }
        }
        self.mode_manager.handle_key(key);
    }

    /// Inserts `c` at the cursor and advances the column by one; the
    /// buffer grows by zero lines and one character. A missing current
    /// row would be appended first as a safety net, though the invariant
    /// rules that out.
    pub fn insert_char(&mut self, c: char)
        requires
            old(self).wf(),
        ensures
            final(self).wf(),
            (final(self).lines(), final(self).cursor_x as nat, final(self).cursor_y as nat)
                == step_insert_char(
                old(self).lines(),
                old(self).cursor_x as nat,
                old(self).cursor_y as nat,
                c,
            ),
            final(self).mode_manager == old(self).mode_manager,
            final(self).is_exiting == old(self).is_exiting,
    {
        if self.cursor_y >= self.buffer.len() {
            self.buffer.push(Vec::new());
        }
        let y = self.cursor_y;
        let line = &mut self.buffer[y];
        line.insert(self.cursor_x, c);
        proof {
            lemma_vec_len_bound(&self.buffer@[y as int]);
            assert(self.buffer@[y as int]@ =~= line_insert(
                old(self).lines()[y as int],
                old(self).cursor_x as int,
                c,
            ));
            assert(grid_view(self.buffer@) =~= old(self).lines().update(
                y as int,
                line_insert(old(self).lines()[y as int], old(self).cursor_x as int, c),
            ));
        }
        self.cursor_x = self.cursor_x + 1;
    }

    /// Removes the character left of the cursor and moves the column
    /// back by one; at column zero nothing happens — the current line is
    /// not merged into the previous one.
    pub fn backspace(&mut self)
        requires
            old(self).wf(),
        ensures
            final(self).wf(),
            (final(self).lines(), final(self).cursor_x as nat, final(self).cursor_y as nat)
                == step_backspace(
                old(self).lines(),
                old(self).cursor_x as nat,
                old(self).cursor_y as nat,
            ),
            final(self).mode_manager == old(self).mode_manager,
            final(self).is_exiting == old(self).is_exiting,
    {
        if self.cursor_x > 0 {
            self.cursor_x = self.cursor_x - 1;
            let y = self.cursor_y;
            let line = &mut self.buffer[y];
            line.remove(self.cursor_x);
            proof {
                assert(grid_view(self.buffer@) =~= old(self).lines().update(
                    y as int,
                    old(self).lines()[y as int].remove(old(self).cursor_x - 1),
                ));
            }
        }
    }

    /// Splits the current line at the cursor: the current row keeps the
    /// prefix, the suffix becomes the new next row, which becomes
    /// current; the column resets to zero. Concatenating the two rows
    /// reconstructs the original line.
    pub fn enter(&mut self)
        requires
            old(self).wf(),
        ensures
            final(self).wf(),
            (final(self).lines(), final(self).cursor_x as nat, final(self).cursor_y as nat)
                == step_enter(
                old(self).lines(),
                old(self).cursor_x as nat,
                old(self).cursor_y as nat,
            ),
            final(self).lines()[old(self).cursor_y as int].len() == old(self).cursor_x,
            final(self).lines()[old(self).cursor_y as int + 1].len() == old(self).lines()[old(
                self,
            ).cursor_y as int].len() - old(self).cursor_x,
            final(self).lines()[old(self).cursor_y as int] + final(self).lines()[old(
                self,
            ).cursor_y as int + 1] == old(self).lines()[old(self).cursor_y as int],
            final(self).mode_manager == old(self).mode_manager,
            final(self).is_exiting == old(self).is_exiting,
    {
        proof {
            lemma_vec_len_bound(&self.buffer);
        }
        let y = self.cursor_y;
        let line = &mut self.buffer[y];
        let new_line = line.split_off(self.cursor_x);
        self.cursor_y = y + 1;
        self.cursor_x = 0;
        self.buffer.insert(self.cursor_y, new_line);
        proof {
            let l0 = old(self).lines()[y as int];
            let c0 = old(self).cursor_x as int;
            assert(grid_view(self.buffer@) =~= old(self).lines().update(y as int, l0.take(c0))
                .insert(y as int + 1, l0.skip(c0)));
            assert(l0.take(c0) + l0.skip(c0) =~= l0);
        }
    }

    /// Moves the cursor one row up, clamped at the first row; the column
    /// becomes the smaller of its previous value and the new line's
    /// length.
    pub fn move_cursor_up(&mut self)
        requires
            old(self).wf(),
        ensures
            final(self).wf(),
            (final(self).lines(), final(self).cursor_x as nat, final(self).cursor_y as nat)
                == step_up(old(self).lines(), old(self).cursor_x as nat, old(self).cursor_y as nat),
            final(self).cursor_y < old(self).lines().len(),
            final(self).cursor_x == min_nat(
                old(self).cursor_x as nat,
                old(self).lines()[final(self).cursor_y as int].len(),
            ),
            final(self).mode_manager == old(self).mode_manager,
            final(self).is_exiting == old(self).is_exiting,
    {
        if self.cursor_y > 0 {
            self.cursor_y = self.cursor_y - 1;
            let len = self.buffer[self.cursor_y].len();
            if len < self.cursor_x {
                self.cursor_x = len;
            }
        }
    }

    /// Moves the cursor one row down, clamped at the last row; the
    /// column becomes the smaller of its previous value and the new
    /// line's length.
    pub fn move_cursor_down(&mut self)
        requires
            old(self).wf(),
        ensures
            final(self).wf(),
            (final(self).lines(), final(self).cursor_x as nat, final(self).cursor_y as nat)
                == step_down(
                old(self).lines(),
                old(self).cursor_x as nat,
                old(self).cursor_y as nat,
            ),
            final(self).cursor_y < old(self).lines().len(),
            final(self).cursor_x == min_nat(
                old(self).cursor_x as nat,
                old(self).lines()[final(self).cursor_y as int].len(),
            ),
            final(self).mode_manager == old(self).mode_manager,
            final(self).is_exiting == old(self).is_exiting,
    {
        let rows = self.buffer.len();
        if self.cursor_y < rows - 1 {
            self.cursor_y = self.cursor_y + 1;
            let len = self.buffer[self.cursor_y].len();
            if len < self.cursor_x {
                self.cursor_x = len;
            }
        }
    }

    /// Moves the cursor one column left, floor-clamped at zero.
    pub fn move_cursor_left(&mut self)
        requires
            old(self).wf(),
        ensures
            final(self).wf(),
            (final(self).lines(), final(self).cursor_x as nat, final(self).cursor_y as nat)
                == step_left(
                old(self).lines(),
                old(self).cursor_x as nat,
                old(self).cursor_y as nat,
            ),
            final(self).mode_manager == old(self).mode_manager,
            final(self).is_exiting == old(self).is_exiting,
    {
        if self.cursor_x > 0 {
            self.cursor_x = self.cursor_x - 1;
        }
    }

    /// Moves the cursor one column right, clamped at the line length,
    /// never past it.
    pub fn move_cursor_right(&mut self)
        requires
            old(self).wf(),
        ensures
            final(self).wf(),
            (final(self).lines(), final(self).cursor_x as nat, final(self).cursor_y as nat)
                == step_right(
                old(self).lines(),
                old(self).cursor_x as nat,
                old(self).cursor_y as nat,
            ),
            final(self).mode_manager == old(self).mode_manager,
            final(self).is_exiting == old(self).is_exiting,
    {
        let len = self.buffer[self.cursor_y].len();
        if self.cursor_x < len {
            self.cursor_x = self.cursor_x + 1;
        }
    }

    /// The current editing mode.
    pub fn current_mode(&self) -> (r: State)
        ensures
            r == self.mode(),
    {
        self.mode_manager.current_state()
    }

    /// The cursor as a (column, row) pair.
    pub fn get_cursor(&self) -> (r: (usize, usize))
        ensures
            r.0 == self.cursor_x,
            r.1 == self.cursor_y,
    {
        return (self.cursor_x, self.cursor_y);
    }

    /// A copy of the buffer's lines.
    pub fn get_content(&self) -> (r: Vec<Vec<char>>)
        ensures
            grid_view(r@) == self.lines(),
    {
        let mut r: Vec<Vec<char>> = Vec::new();
        let mut i: usize = 0;
        while i < self.buffer.len()
            invariant
                i <= self.buffer@.len(),
                r@.len() == i,
                forall|j: int| 0 <= j < i ==> r@[j]@ == self.buffer@[j]@,
            decreases self.buffer@.len() - i,
        {
            r.push(clone_row(&self.buffer[i]));
            i = i + 1;
        }
        proof {
            assert(grid_view(r@) =~= self.lines());
        }
        r
    }
}

/// A copy of one line.
pub fn clone_row(v: &Vec<char>) -> (r: Vec<char>)
    ensures
        r@ == v@,
{
    let mut r: Vec<char> = Vec::new();
    let mut i: usize = 0;
    while i < v.len()
        invariant
            i <= v@.len(),
            r@ == v@.take(i as int),
        decreases v@.len() - i,
    {
        r.push(v[i]);
        proof {
            assert(v@.take(i + 1) =~= v@.take(i as int).push(v@[i as int]));
        }
        i = i + 1;
    }
    proof {
        assert(v@.take(v@.len() as int) =~= v@);
    }
    r
}

/// Each string becomes one line of characters.
pub fn strings_to_char_buffer(lines: Vec<String>) -> (r: Vec<Vec<char>>)
    ensures
        grid_view(r@) == strings_view(lines@),
{
    let mut r: Vec<Vec<char>> = Vec::new();
    let mut i: usize = 0;
    while i < lines.len()
        invariant
            i <= lines@.len(),
            r@.len() == i,
            forall|j: int| 0 <= j < i ==> r@[j]@ == lines@[j]@,
        decreases lines@.len() - i,
    {
        r.push(string_to_chars(&lines[i]));
        i = i + 1;
    }
    proof {
        assert(grid_view(r@) =~= strings_view(lines@));
    }
    r
}

/// The characters of a string, in order.
pub fn string_to_chars(s: &String) -> (r: Vec<char>)
    ensures
        r@ == s@,
{
    let mut r: Vec<char> = Vec::new();
    let st = s.as_str();
    let n = st.unicode_len();
    let mut i: usize = 0;
    while i < n
        invariant
            i <= n,
            n == s@.len(),
            st@ == s@,
            r@ == s@.take(i as int),
        decreases n - i,
    {
        r.push(st.get_char(i));
        proof {
            assert(s@.take(i + 1) =~= s@.take(i as int).push(s@[i as int]));
        }
        i = i + 1;
    }
    proof {
        assert(s@.take(n as int) =~= s@);
    }
    r
}

} // verus!
