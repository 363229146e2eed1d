//! Abstract terminal output: the draw operations the renderers emit.
//!
//! No operation performs I/O. The shell's terminal adapter executes the
//! sequence against a real terminal once per full render; only that adapter
//! holds real cursor or style state.

use vstd::prelude::*;

verus! {

/// A single style attribute toggle carried by a `SetStyle` operation.
#[derive(Clone, Copy, PartialEq, Eq, Structural, Debug)]
pub enum StyleAttr {
    Bold,
    NoBold,
    Underline,
    NoUnderline,
    /// Foreground color used for code spans.
    CodeColor,
    /// Back to the default foreground color.
    DefaultColor,
}

/// Named style of a whole printed fragment.
#[derive(Clone, Copy, PartialEq, Eq, Structural, Debug)]
pub enum TextStyle {
    /// Accent foreground, used for headers and link markers.
    Accent,
    /// Inverted rendering, used for the selected row.
    Highlight,
}

/// One abstract draw operation. Coordinates are `(column, row)`, zero-based;
/// the adapter clamps them to the physical screen.
#[derive(Clone, PartialEq, Eq, Debug)]
pub enum DrawOp {
    MoveTo(usize, usize),
    Print(String),
    PrintStyled(String, TextStyle),
    SetStyle(StyleAttr),
    ResetStyle,
}

/// Mathematical form of a draw operation: the printed text as its character
/// sequence.
pub ghost enum DrawOpS {
    MoveTo(usize, usize),
    Print(Seq<char>),
    PrintStyled(Seq<char>, TextStyle),
    SetStyle(StyleAttr),
    ResetStyle,
}

impl View for DrawOp {
    type V = DrawOpS;

    open spec fn view(&self) -> DrawOpS {
        match self {
            DrawOp::MoveTo(x, y) => DrawOpS::MoveTo(*x, *y),
            DrawOp::Print(s) => DrawOpS::Print(s@),
            DrawOp::PrintStyled(s, st) => DrawOpS::PrintStyled(s@, *st),
            DrawOp::SetStyle(a) => DrawOpS::SetStyle(*a),
            DrawOp::ResetStyle => DrawOpS::ResetStyle,
        }
    }
}

/// View of a whole operation list.
pub open spec fn ops_view(ops: Seq<DrawOp>) -> Seq<DrawOpS> {
    ops.map_values(|o: DrawOp| o@)
}

} // verus!
