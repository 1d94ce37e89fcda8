//! What a redraw puts on the screen, as a list of terminal operations.
//!
//! The operations are plain values. Carrying them out is left to the caller.

use crate::filter::{filter_customers, filter_spec, pointed};
use crate::record::{views, Customer, CustomerView};
use vstd::prelude::*;
use vstd::string::{StrSliceExecFns, StringExecFns};

verus! {

/// One operation on the terminal.
#[derive(Debug, Clone, PartialEq, Eq)]
pub enum TerminalOp {
    /// Clear the whole screen.
    Clear,
    /// Move the cursor to a column and row, both counted from zero.
    MoveTo { column: u16, row: u16 },
    /// Write the text where the cursor is.
    Print(String),
    /// Write the text where the cursor is, and a line feed after it.
    PrintLine(String),
}

/// The mathematical content of a `TerminalOp`.
pub enum TerminalOpView {
    Clear,
    MoveTo { column: u16, row: u16 },
    Print(Seq<char>),
    PrintLine(Seq<char>),
}

impl View for TerminalOp {
    type V = TerminalOpView;

    open spec fn view(&self) -> TerminalOpView {
        match *self {
            TerminalOp::Clear => TerminalOpView::Clear,
            TerminalOp::MoveTo { column, row } => TerminalOpView::MoveTo { column, row },
            TerminalOp::Print(text) => TerminalOpView::Print(text@),
            TerminalOp::PrintLine(text) => TerminalOpView::PrintLine(text@),
        }
    }
}

/// The contents of a list of operations.
pub open spec fn op_views(ops: Seq<TerminalOp>) -> Seq<TerminalOpView> {
    ops.map_values(|op: TerminalOp| op@)
}

/// The text in front of the query on the first line of the screen.
pub open spec fn prompt() -> Seq<char> {
    "Query: "@
}

/// The row of the first record.
pub open spec fn first_record_row() -> u16 {
    2
}

/// The column just behind the typed query, or the last column that the
/// terminal can address when the query is longer than that.
pub open spec fn cursor_column(typed: nat) -> u16 {
    if prompt().len() + typed <= u16::MAX {
        (prompt().len() + typed) as u16
    } else {
        u16::MAX
    }
}

/// What a redraw does: clear the screen, go to the origin, write the prompt
/// and the query, write each record on its own line from the row of the
/// first record on, and put the cursor behind the query.
pub open spec fn frame_spec(found: Seq<CustomerView>, query: Seq<char>) -> Seq<TerminalOpView> {
    seq![
        TerminalOpView::Clear,
        TerminalOpView::MoveTo { column: 0, row: 0 },
        TerminalOpView::Print(prompt() + query),
        TerminalOpView::MoveTo { column: 0, row: first_record_row() },
    ] + found.map_values(|c: CustomerView| TerminalOpView::PrintLine(c.line())) + seq![
        TerminalOpView::MoveTo { column: cursor_column(query.len()), row: 0 },
    ]
}

/// The operations that paint the given records under the given query.
pub fn frame(found: &Vec<&Customer>, query: &str) -> (ops: Vec<TerminalOp>)
    ensures
        op_views(ops@) == frame_spec(views(pointed(found@)), query@),
{
    let mut first_line = String::new();
    first_line.append("Query: ");
    first_line.append(query);
    let mut ops: Vec<TerminalOp> = Vec::new();
    ops.push(TerminalOp::Clear);
    ops.push(TerminalOp::MoveTo { column: 0, row: 0 });
    ops.push(TerminalOp::Print(first_line));
    ops.push(TerminalOp::MoveTo { column: 0, row: 2 });
    let ghost head = op_views(ops@);
    let ghost lines = views(pointed(found@)).map_values(
        |c: CustomerView| TerminalOpView::PrintLine(c.line()),
    );
    assert(head =~= seq![
        TerminalOpView::Clear,
        TerminalOpView::MoveTo { column: 0, row: 0 },
        TerminalOpView::Print(prompt() + query@),
        TerminalOpView::MoveTo { column: 0, row: first_record_row() },
    ]);
    let mut i: usize = 0;
    assert(op_views(ops@) =~= head + lines.take(0));
    while i < found.len()
        invariant
            i <= found.len(),
            lines == views(pointed(found@)).map_values(
                |c: CustomerView| TerminalOpView::PrintLine(c.line()),
            ),
            op_views(ops@) == head + lines.take(i as int),
        decreases found.len() - i,
    {
        let ghost before = op_views(ops@);
        let text = found[i].line();
        ops.push(TerminalOp::PrintLine(text));
        assert(lines[i as int] == TerminalOpView::PrintLine(text@));
        assert(op_views(ops@) =~= before.push(TerminalOpView::PrintLine(text@)));
        assert(head + lines.take(i + 1) =~= (head + lines.take(i as int)).push(lines[i as int]));
        i += 1;
    }
    assert(lines.take(i as int) =~= lines);
    let prompt_width: usize = "Query: ".unicode_len();
    let typed: usize = query.unicode_len();
    proof {
        reveal_strlit("Query: ");
    }
    let column: u16 = if typed <= 0xFFFF - prompt_width {
        (prompt_width + typed) as u16
    } else {
        0xFFFF
    };
    let ghost body = op_views(ops@);
    ops.push(TerminalOp::MoveTo { column, row: 0 });
    assert(op_views(ops@) =~= body.push(TerminalOpView::MoveTo { column, row: 0 }));
    assert(op_views(ops@) =~= frame_spec(views(pointed(found@)), query@));
    ops
}

/// The operations of a redraw: the records are filtered by the query and what
/// is left is painted.
pub fn redraw(customers: &Vec<Customer>, query: &str) -> (ops: Vec<TerminalOp>)
    ensures
        op_views(ops@) == frame_spec(views(filter_spec(customers@, query@)), query@),
{
    let found = filter_customers(customers, query);
    frame(&found, query)
}

} // verus!
