use vstd::prelude::*;

verus! {

/// Sources at least this long are not supported; the bound keeps every
/// internal offset and width computation in range on any target.
pub open spec fn max_source_len() -> nat {
    0x4000_0000
}

/// The widths of the lines of `text` from position `i` on, given that the
/// current line already holds `width` characters. Each line's width counts
/// its characters plus one for the newline that ends it (or one for the end
/// of the text).
pub open spec fn line_widths_from(text: Seq<char>, i: int, width: nat) -> Seq<nat>
    decreases text.len() - i,
{
    if i < 0 || i >= text.len() {
        seq![(width + 1) as nat]
    } else if text[i] == '\n' {
        seq![(width + 1) as nat] + line_widths_from(text, i + 1, 0)
    } else {
        line_widths_from(text, i + 1, width + 1)
    }
}

/// The cumulative line-width table of `text`: one entry per line.
pub open spec fn spec_line_widths(text: Seq<char>) -> Seq<nat> {
    line_widths_from(text, 0, 0)
}

/// Every width is at most the remaining text length plus one, and there is
/// at least one and at most one width per remaining character plus one.
pub proof fn lemma_line_widths_from_bounds(text: Seq<char>, i: int, width: nat)
    requires
        0 <= i <= text.len(),
    ensures
        1 <= line_widths_from(text, i, width).len() <= text.len() - i + 1,
        forall|j: int|
            0 <= j < line_widths_from(text, i, width).len() ==> #[trigger] line_widths_from(
                text,
                i,
                width,
            )[j] <= width + text.len() - i + 1,
    decreases text.len() - i,
{
    if i < text.len() {
        if text[i] == '\n' {
            lemma_line_widths_from_bounds(text, i + 1, 0);
        } else {
            lemma_line_widths_from_bounds(text, i + 1, width + 1);
        }
    }
}

/// The 1-based column that position `start` has on a line that begins at
/// position `sum`.
pub open spec fn spec_col(start: int, sum: int) -> int {
    if start > sum {
        start - sum + 1
    } else {
        sum - start + 1
    }
}

/// Scan of the width table: the first line whose span covers `start`, as a
/// 1-based (line, column) pair, starting from line index `i` with `sum`
/// characters already consumed by earlier lines.
pub open spec fn spec_point_from(widths: Seq<nat>, start: int, i: int, sum: int) -> (int, int)
    decreases widths.len() - i,
{
    if i < 0 || i >= widths.len() {
        (i + 1, spec_col(start, sum))
    } else if sum + widths[i] > start {
        (i + 1, spec_col(start, sum))
    } else {
        spec_point_from(widths, start, i + 1, sum + widths[i])
    }
}

/// The 1-based (line, column) pair of position `start` under width table
/// `widths`.
pub open spec fn spec_point(widths: Seq<nat>, start: int) -> (int, int) {
    spec_point_from(widths, start, 0, 0)
}

/// Mathematical model of a line-width table: the text and the width of each
/// of its lines.
pub struct LineTextModel {
    pub text: Seq<char>,
    pub widths: Seq<nat>,
}

/// The source text together with a precomputed table of line widths, built
/// once per input so that (line, column) lookups are a scan of prefix sums.
pub struct LineText {
    text: String,
    line_width: Vec<usize>,
}

impl View for LineText {
    type V = LineTextModel;

    closed spec fn view(&self) -> LineTextModel {
        LineTextModel {
            text: self.text@,
            widths: self.line_width@.map_values(|w: usize| w as nat),
        }
    }
}

impl LineText {
    /// The table matches the text, and the text is within the supported size.
    pub open spec fn wf(&self) -> bool {
        &&& self@.widths == spec_line_widths(self@.text)
        &&& self@.text.len() < max_source_len()
    }

    pub fn new(text: String) -> (r: LineText)
        requires
            text@.len() < max_source_len(),
        ensures
            r.wf(),
            r@.text == text@,
    {
        let line_width = LineText::calculate_line_width(&text);
        LineText { text, line_width }
    }

    /// Builds the width table: walk the characters, closing a line at each
    /// newline, and close the final line at the end of the text.
    fn calculate_line_width(input: &String) -> (r: Vec<usize>)
        requires
            input@.len() < max_source_len(),
        ensures
            r@.map_values(|w: usize| w as nat) == spec_line_widths(input@),
    {
        let mut line_width: Vec<usize> = Vec::new();
        let mut width: usize = 0;
        let s = input.as_str();
        let n = s.unicode_len();
        let mut i: usize = 0;
        while i < n
            invariant
                n == input@.len() < max_source_len(),
                s@ == input@,
                0 <= i <= n,
                width <= i,
                spec_line_widths(input@) == r_done(line_width@) + line_widths_from(
                    input@,
                    i as int,
                    width as nat,
                ),
            decreases n - i,
        {
            let c = s.get_char(i);
            if c == '\n' {
                line_width.push(width + 1);
                width = 0;
            } else {
                width = width + 1;
            }
            i = i + 1;
        }
        line_width.push(width + 1);
        proof {
            assert(line_width@.map_values(|w: usize| w as nat) =~= spec_line_widths(input@));
        }
        line_width
    }

    /// The 1-based line and column of the character at index `start`.
    pub fn get_point(&self, start: usize) -> (r: (usize, usize))
        requires
            self.wf(),
            start <= self@.text.len(),
        ensures
            (r.0 as int, r.1 as int) == spec_point(self@.widths, start as int),
    {
        proof {
            lemma_line_widths_from_bounds(self@.text, 0, 0);
        }
        let ghost widths = self@.widths;
        let mut line_number: usize = 0;
        let mut sum: usize = 0;
        let k = self.line_width.len();
        while line_number < k
            invariant
                self.wf(),
                start <= self@.text.len(),
                widths == self@.widths,
                k == self.line_width@.len(),
                widths.len() == k <= self@.text.len() + 1,
                forall|j: int| 0 <= j < k ==> #[trigger] widths[j] <= self@.text.len() + 1,
                0 <= line_number <= k,
                sum <= start,
                self.line_width@[line_number as int] as nat == widths[line_number as int] || line_number == k,
                spec_point(widths, start as int) == spec_point_from(
                    widths,
                    start as int,
                    line_number as int,
                    sum as int,
                ),
            decreases k - line_number,
        {
            let w = self.line_width[line_number];
            assert(w as nat == widths[line_number as int]);
            if sum + w > start {
                return (line_number + 1, LineText::col_of(start, sum));
            }
            sum = sum + w;
            line_number = line_number + 1;
        }
        (line_number + 1, LineText::col_of(start, sum))
    }

    /// The 1-based column of `start` on a line beginning at `sum`.
    fn col_of(start: usize, sum: usize) -> (r: usize)
        requires
            sum <= start || start <= sum,
            sum <= start ==> start < usize::MAX,
            start <= sum ==> sum < usize::MAX,
        ensures
            r as int == spec_col(start as int, sum as int),
    {
        if start > sum {
            start - sum + 1
        } else {
            sum - start + 1
        }
    }
}

/// The widths already recorded, as mathematical numbers.
pub open spec fn r_done(done: Seq<usize>) -> Seq<nat> {
    done.map_values(|w: usize| w as nat)
}

} // verus!
