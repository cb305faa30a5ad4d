//! What a bar asks of the terminal. Draws and clears are lists of operations
//! that the caller plays back, in order, on standard error.

use vstd::prelude::*;
use crate::format::string_of;
use crate::render::{push_repeat, repeat};
use crate::style::push_str_chars;

verus! {

/// One terminal operation.
#[derive(Debug, Clone)]
pub enum TermOp {
    /// Writes the text at the cursor.
    Print(String),
    /// Moves the cursor up by this many lines.
    MoveUp(u16),
    /// Moves the cursor to this column of its line.
    MoveToColumn(u16),
    /// Blanks the cursor's line.
    ClearLine,
    /// Sends everything written so far.
    Flush,
}

/// A terminal operation as a value.
pub enum Action {
    Print(Seq<char>),
    MoveUp(nat),
    MoveToColumn(nat),
    ClearLine,
    Flush,
}

impl View for TermOp {
    type V = Action;

    open spec fn view(&self) -> Action {
        match self {
            TermOp::Print(s) => Action::Print(s@),
            TermOp::MoveUp(k) => Action::MoveUp(*k as nat),
            TermOp::MoveToColumn(c) => Action::MoveToColumn(*c as nat),
            TermOp::ClearLine => Action::ClearLine,
            TermOp::Flush => Action::Flush,
        }
    }
}

/// The operations of a list, as values.
pub open spec fn actions(ops: Seq<TermOp>) -> Seq<Action> {
    ops.map_values(|o: TermOp| o@)
}

/// The line shown on the last row a bar may use, in place of a bar.
pub open spec fn hidden_marker() -> Seq<char> {
    "... (more hidden) ..."@
}

/// `s` padded with spaces to `cols` characters.
pub open spec fn pad_right(s: Seq<char>, cols: nat) -> Seq<char> {
    if s.len() < cols {
        s + repeat(' ', (cols - s.len()) as nat)
    } else {
        s
    }
}

/// Writes `msg` on row `pos` below the cursor and puts the cursor back: on
/// row `0` the cursor returns to column `0` first; on a lower row it goes
/// down by newlines, and comes back up to column `cols` afterwards.
pub open spec fn frame_actions(msg: Seq<char>, pos: nat, cols: nat) -> Seq<Action> {
    let padded = pad_right(msg, cols);
    if pos == 0 {
        seq![Action::MoveToColumn(0), Action::Print(padded), Action::Flush]
    } else {
        seq![
            Action::Print(repeat('\n', pos)),
            Action::MoveToColumn(0),
            Action::Print(padded),
            Action::MoveUp(pos),
            Action::MoveToColumn(cols),
            Action::Flush,
        ]
    }
}

/// Draws on row `pos` when `nrows` rows may be used: nothing on a row past
/// them, the marker on the last one, `line` above it.
pub open spec fn draw_actions(line: Seq<char>, pos: nat, cols: nat, nrows: nat) -> Seq<Action> {
    if pos >= nrows {
        Seq::empty()
    } else if pos + 1 == nrows {
        frame_actions(hidden_marker(), pos, cols)
    } else {
        frame_actions(line, pos, cols)
    }
}

/// Blanks row `pos` and puts the cursor back on its line.
pub open spec fn clear_actions(pos: nat, nrows: nat) -> Seq<Action> {
    if pos >= nrows {
        Seq::empty()
    } else if pos == 0 {
        seq![Action::ClearLine, Action::Flush]
    } else {
        seq![
            Action::Print(repeat('\n', pos)),
            Action::ClearLine,
            Action::MoveUp(pos),
            Action::Flush,
        ]
    }
}

/// A drawn message takes the whole row: it is exactly `cols` wide unless it
/// was already wider.
pub proof fn lemma_message_fills_row(s: Seq<char>, cols: nat)
    ensures
        pad_right(s, cols).len() == if s.len() < cols {
            cols
        } else {
            s.len()
        },
{
}

/// The characters of the overflow marker.
pub fn hidden_marker_chars() -> (r: Vec<char>)
    ensures
        r@ == hidden_marker(),
{
    let mut out: Vec<char> = Vec::new();
    push_str_chars(&mut out, "... (more hidden) ...");
    assert(out@ =~= hidden_marker());
    out
}

fn newlines(k: u16) -> (r: String)
    ensures
        r@ == repeat('\n', k as nat),
{
    let mut out: Vec<char> = Vec::new();
    push_repeat(&mut out, '\n', k as usize);
    assert(out@ =~= repeat('\n', k as nat));
    string_of(out)
}

/// The operations that write `msg` on row `pos`.
pub fn frame_ops(msg: Vec<char>, pos: u16, cols: u16) -> (r: Vec<TermOp>)
    ensures
        actions(r@) == frame_actions(msg@, pos as nat, cols as nat),
{
    let mut padded = msg;
    let ghost m = padded@;
    if padded.len() < cols as usize {
        let k = cols as usize - padded.len();
        push_repeat(&mut padded, ' ', k);
    }
    assert(padded@ =~= pad_right(m, cols as nat));
    let text = string_of(padded);
    let mut ops: Vec<TermOp> = Vec::new();
    if pos == 0 {
        ops.push(TermOp::MoveToColumn(0));
        ops.push(TermOp::Print(text));
        ops.push(TermOp::Flush);
    } else {
        ops.push(TermOp::Print(newlines(pos)));
        ops.push(TermOp::MoveToColumn(0));
        ops.push(TermOp::Print(text));
        ops.push(TermOp::MoveUp(pos));
        ops.push(TermOp::MoveToColumn(cols));
        ops.push(TermOp::Flush);
    }
    assert(actions(ops@) =~= frame_actions(m, pos as nat, cols as nat));
    ops
}

/// The operations that blank row `pos`.
pub fn clear_ops(pos: u16, nrows: u16) -> (r: Vec<TermOp>)
    ensures
        actions(r@) == clear_actions(pos as nat, nrows as nat),
{
    let mut ops: Vec<TermOp> = Vec::new();
    if pos >= nrows {
    } else if pos == 0 {
        ops.push(TermOp::ClearLine);
        ops.push(TermOp::Flush);
    } else {
        ops.push(TermOp::Print(newlines(pos)));
        ops.push(TermOp::ClearLine);
        ops.push(TermOp::MoveUp(pos));
        ops.push(TermOp::Flush);
    }
    assert(actions(ops@) =~= clear_actions(pos as nat, nrows as nat));
    ops
}

} // verus!
