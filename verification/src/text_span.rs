use vstd::prelude::*;
use crate::line_text::{LineText, spec_point};

verus! {

/// Mathematical model of a span: half-open character range plus its 1-based
/// line and column.
pub struct SpanModel {
    pub start: nat,
    pub end: nat,
    pub line: nat,
    pub col: nat,
}

/// The place of a token in the source: start index, end index (exclusive),
/// and the 1-based line and column of the start.
#[derive(Debug, Copy, Clone)]
pub struct TextSpan {
    pub start: usize,
    pub end: usize,
    pub line_no: usize,
    pub col_no: usize,
}

impl View for TextSpan {
    type V = SpanModel;

    open spec fn view(&self) -> SpanModel {
        SpanModel {
            start: self.start as nat,
            end: self.end as nat,
            line: self.line_no as nat,
            col: self.col_no as nat,
        }
    }
}

impl TextSpan {
    /// Builds a span from a (start, end) pair, looking the line and column
    /// of the start up in the width table.
    pub fn new(position: (usize, usize), line_text: &LineText) -> (r: TextSpan)
        requires
            line_text.wf(),
            position.0 <= line_text@.text.len(),
        ensures
            r@.start == position.0 as nat,
            r@.end == position.1 as nat,
            (r@.line as int, r@.col as int) == spec_point(line_text@.widths, position.0 as int),
    {
        let (line_no, col_no) = line_text.get_point(position.0);
        TextSpan { start: position.0, end: position.1, line_no, col_no }
    }
}

} // verus!
