use vstd::prelude::*;

verus! {

/// `n` copies of `tab` in a row.
pub open spec fn repeat_tab(tab: Seq<char>, n: nat) -> Seq<char>
    decreases n,
{
    if n == 0 {
        Seq::empty()
    } else {
        tab + repeat_tab(tab, (n - 1) as nat)
    }
}

pub proof fn lemma_repeat_tab_snoc(tab: Seq<char>, n: nat)
    ensures
        repeat_tab(tab, n + 1) =~= repeat_tab(tab, n) + tab,
    decreases n,
{
    if n > 0 {
        lemma_repeat_tab_snoc(tab, (n - 1) as nat);
    }
}

/// Mathematical model of the writer: the text emitted so far, the current
/// indentation depth, the indentation unit, and whether the indentation of
/// the current line is still owed.
pub struct WriterModel {
    pub output: Seq<char>,
    pub indent: nat,
    pub tab: Seq<char>,
    pub pending: bool,
}

impl WriterModel {
    /// The output once any owed indentation has been written.
    pub open spec fn flushed(self) -> Seq<char> {
        if self.pending {
            self.output + repeat_tab(self.tab, self.indent)
        } else {
            self.output
        }
    }
}

/// Accumulates output text, prefixing each fresh line with one copy of the
/// indentation unit per indentation level.
#[derive(Debug)]
pub struct IndentedTextWriter {
    string: String,
    indent: usize,
    pub indent_string: String,
    indent_pending: bool,
}

impl View for IndentedTextWriter {
    type V = WriterModel;

    closed spec fn view(&self) -> WriterModel {
        WriterModel {
            output: self.string@,
            indent: self.indent as nat,
            tab: self.indent_string@,
            pending: self.indent_pending,
        }
    }
}

impl IndentedTextWriter {
    pub fn new() -> (r: IndentedTextWriter)
        ensures
            r@ == (WriterModel { output: Seq::<char>::empty(), indent: 0, tab: "\t"@, pending: true }),
    {
        IndentedTextWriter {
            string: String::new(),
            indent: 0,
            indent_string: "\t".to_owned(),
            indent_pending: true,
        }
    }

    /// The line separator used between emitted lines.
    fn new_line() -> (r: &'static str)
        ensures
            r@ == "\n"@,
    {
        "\n"
    }

    /// Writes the owed indentation, if any, for a line that is about to
    /// receive text.
    fn indent_string(&mut self)
        ensures
            final(self)@ == (WriterModel { output: old(self)@.flushed(), pending: false, ..old(self)@ }),
    {
        if !self.indent_pending {
            return ;
        }
        let ghost tab = self.indent_string@;
        let ghost start = self.string@;
        let mut i: usize = 0;
        while i < self.indent
            invariant
                i <= self.indent,
                self.indent_string@ == tab,
                self.indent == old(self).indent,
                self.indent_pending == old(self).indent_pending,
                self.string@ == start + repeat_tab(tab, i as nat),
            decreases self.indent - i,
        {
            proof {
                lemma_repeat_tab_snoc(tab, i as nat);
            }
            self.string.append(self.indent_string.as_str());
            i = i + 1;
        }
        self.indent_pending = false;
    }

    /// Raises the indentation by one level; the depth saturates at the
    /// largest representable value.
    pub fn indent(&mut self)
        ensures
            final(self)@ == (WriterModel {
                indent: if old(self)@.indent < usize::MAX as nat {
                    old(self)@.indent + 1
                } else {
                    old(self)@.indent
                },
                ..old(self)@
            }),
    {
        if self.indent < usize::MAX {
            self.indent = self.indent + 1;
        }
    }

    /// Lowers the indentation by one level; at depth zero it stays put.
    pub fn unindent(&mut self)
        ensures
            final(self)@ == (WriterModel {
                indent: if old(self)@.indent >= 1 {
                    (old(self)@.indent - 1) as nat
                } else {
                    0
                },
                ..old(self)@
            }),
    {
        if self.indent >= 1 {
            self.indent = self.indent - 1;
        }
    }

    /// Writes `text` and ends the line, so that the next write owes fresh
    /// indentation.
    pub fn write_line(&mut self, text: &str)
        ensures
            final(self)@ == (WriterModel {
                output: old(self)@.flushed() + text@ + "\n"@,
                pending: true,
                ..old(self)@
            }),
    {
        self.indent_string();
        self.string.append(text);
        self.string.append(IndentedTextWriter::new_line());
        self.indent_pending = true;
    }

    /// Writes `text` on the current line.
    pub fn write(&mut self, text: &str)
        ensures
            final(self)@ == (WriterModel {
                output: old(self)@.flushed() + text@,
                pending: false,
                ..old(self)@
            }),
    {
        self.indent_string();
        self.string.append(text);
    }

    /// The text emitted so far.
    pub fn to_string(&self) -> (r: String)
        ensures
            r@ == self@.output,
    {
        self.string.clone()
    }
}

} // verus!
