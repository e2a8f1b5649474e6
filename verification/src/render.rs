//! The picture of an interpreter: the playfield in a frame, with the cell
//! under the program counter set off in colour.

use vstd::prelude::*;
use vstd::string::StringExecFns;
use crate::interpreter::Interpreter;
use crate::machine::State;
use crate::program_counter::{PLAYFIELD_COLS, PLAYFIELD_ROWS};

verus! {

/// The escape sequence that ends every colour.
pub open spec fn colour_reset() -> Seq<char> {
    seq!['\u{1b}', '[', '0', 'm']
}

/// A text in yellow: between the escape sequence for a yellow foreground
/// and the one that ends it.
pub open spec fn yellow(text: Seq<char>) -> Seq<char> {
    seq!['\u{1b}', '[', '3', '3', 'm'] + text + colour_reset()
}

/// A text in bold red on white: between the escape sequence for bold, a
/// white background and a red foreground, and the one that ends it.
pub open spec fn bold_red_on_white(text: Seq<char>) -> Seq<char> {
    seq!['\u{1b}', '[', '1', ';', '4', '7', ';', '3', '1', 'm'] + text + colour_reset()
}

/// `ansi_term::Colour::Yellow.paint(text)`, written out as a string. For a
/// style with a yellow foreground and nothing else, `ansi_term` writes the
/// escape sequence `ESC [ 3 3 m`, the text as it is, and the reset sequence
/// `ESC [ 0 m`.
#[verifier::external_body]
fn paint_yellow(text: &str) -> (painted: String)
    ensures
        painted@ == yellow(text@),
{
    ansi_term::Colour::Yellow.paint(text).to_string()
}

/// `ansi_term::Colour::Red.on(ansi_term::Colour::White).bold().paint(text)`,
/// written out as a string. For that style `ansi_term` writes the escape
/// sequence `ESC [ 1 ; 4 7 ; 3 1 m` (bold, then the background, then the
/// foreground), the text as it is, and the reset sequence `ESC [ 0 m`.
#[verifier::external_body]
fn paint_bold_red_on_white(text: &str) -> (painted: String)
    ensures
        painted@ == bold_red_on_white(text@),
{
    ansi_term::Colour::Red.on(ansi_term::Colour::White).bold().paint(text).to_string()
}

/// The picture of one cell: its character, in bold red on white where the
/// program counter stands.
pub open spec fn cell_text(s: State, x: int, y: int) -> Seq<char> {
    let c = s.grid[y][x].spec_as_char();
    if s.pc.x == x && s.pc.y == y {
        bold_red_on_white(seq![c])
    } else {
        seq![c]
    }
}

/// The picture of the first `n` cells of row `y`.
pub open spec fn cells_text(s: State, y: int, n: nat) -> Seq<char>
    decreases n,
{
    if n == 0 {
        Seq::empty()
    } else {
        cells_text(s, y, (n - 1) as nat) + cell_text(s, n - 1, y)
    }
}

/// The picture of row `y`: its cells between two yellow bars, and a
/// newline.
pub open spec fn row_text(s: State, y: int) -> Seq<char> {
    yellow(seq!['\u{2502}']) + cells_text(s, y, PLAYFIELD_COLS as nat) + yellow(seq!['\u{2502}', '\n'])
}

/// The picture of the first `n` rows.
pub open spec fn rows_text(s: State, n: nat) -> Seq<char>
    decreases n,
{
    if n == 0 {
        Seq::empty()
    } else {
        rows_text(s, (n - 1) as nat) + row_text(s, n - 1)
    }
}

/// An edge of the frame: a corner, a line as long as a row, a corner.
pub open spec fn edge(left: char, right: char) -> Seq<char> {
    (seq![left] + Seq::new(PLAYFIELD_COLS as nat, |i: int| '\u{2500}')).push(right)
}

/// The picture of a state: the playfield in a yellow frame, row by row,
/// with the cell under the program counter in bold red on white.
pub open spec fn picture(s: State) -> Seq<char> {
    yellow(edge('\u{250c}', '\u{2510}')).push('\n') + rows_text(s, PLAYFIELD_ROWS as nat) + yellow(
        edge('\u{2514}', '\u{2518}'),
    )
}

/// An edge of the frame.
fn edge_line(left: char, right: char) -> (line: String)
    ensures
        line@ == edge(left, right),
{
    let mut line = String::new();
    line.push(left);
    let mut i: usize = 0;
    while i < PLAYFIELD_COLS
        invariant
            i <= PLAYFIELD_COLS,
            line@ == seq![left] + Seq::new(i as nat, |k: int| '\u{2500}'),
        decreases PLAYFIELD_COLS - i,
    {
        line.push('\u{2500}');
        i += 1;
        assert(line@ =~= seq![left] + Seq::new(i as nat, |k: int| '\u{2500}'));
    }
    line.push(right);
    line
}

impl Interpreter {
    /// The picture of the interpreter: the playfield in a yellow frame, row
    /// by row, with the cell under the program counter in bold red on
    /// white.
    pub fn to_string(&self) -> (text: String)
        ensures
            text@ == picture(self@),
    {
        let (pc_x, pc_y) = self.position();
        let mut bar = String::new();
        bar.push('\u{2502}');
        let mut bar_end = String::new();
        bar_end.push('\u{2502}');
        bar_end.push('\n');
        assert(bar@ =~= seq!['\u{2502}']);
        assert(bar_end@ =~= seq!['\u{2502}', '\n']);

        let top = edge_line('\u{250c}', '\u{2510}');
        let mut s = paint_yellow(top.as_str());
        s.push('\n');

        let ghost head = s@;
        assert(rows_text(self@, 0) =~= Seq::<char>::empty());
        assert(s@ =~= head + rows_text(self@, 0));
        let mut row_idx: usize = 0;
        while row_idx < PLAYFIELD_ROWS
            invariant
                row_idx <= PLAYFIELD_ROWS,
                pc_x == self@.pc.x,
                pc_y == self@.pc.y,
                bar@ == seq!['\u{2502}'],
                bar_end@ == seq!['\u{2502}', '\n'],
                s@ == head + rows_text(self@, row_idx as nat),
            decreases PLAYFIELD_ROWS - row_idx,
        {
            let ghost before = s@;
            let left = paint_yellow(bar.as_str());
            s.append(left.as_str());
            let ghost start = s@;
            assert(cells_text(self@, row_idx as int, 0) =~= Seq::<char>::empty());
            assert(s@ =~= start + cells_text(self@, row_idx as int, 0));
            let mut col_idx: usize = 0;
            while col_idx < PLAYFIELD_COLS
                invariant
                    col_idx <= PLAYFIELD_COLS,
                    row_idx < PLAYFIELD_ROWS,
                    pc_x == self@.pc.x,
                    pc_y == self@.pc.y,
                    s@ == start + cells_text(self@, row_idx as int, col_idx as nat),
                decreases PLAYFIELD_COLS - col_idx,
            {
                let ghost so_far = s@;
                let cmd = self.cell(col_idx, row_idx);
                if row_idx == pc_y && col_idx == pc_x {
                    let one = cmd.to_string();
                    let marked = paint_bold_red_on_white(one.as_str());
                    s.append(marked.as_str());
                } else {
                    s.push(cmd.as_char());
                }
                assert(s@ =~= so_far + cell_text(self@, col_idx as int, row_idx as int));
                col_idx += 1;
                assert(s@ =~= start + cells_text(self@, row_idx as int, col_idx as nat));
            }
            let right = paint_yellow(bar_end.as_str());
            s.append(right.as_str());
            assert(s@ =~= before + row_text(self@, row_idx as int));
            row_idx += 1;
            assert(s@ =~= head + rows_text(self@, row_idx as nat));
        }
        let bottom = edge_line('\u{2514}', '\u{2518}');
        let last = paint_yellow(bottom.as_str());
        s.append(last.as_str());
        assert(s@ =~= picture(self@));
        s
    }
}

} // verus!
