use vstd::prelude::*;

verus! {

/// The class of a compilation failure. Every phase is fail-fast: the first
/// error anywhere aborts the remaining work of the pipeline, except that the
/// lexer can collect several lexical diagnostics from one run.
#[derive(Debug, PartialEq, Eq, Clone, Copy, Structural)]
pub enum DiagnosticKind {
    /// An unrecognized character in the source text.
    LexError,
    /// An unexpected token kind where a specific kind was required.
    ParseError,
    /// Redeclaration in the same scope, or use of an undeclared variable.
    ScopeError,
    /// Mismatched operand, assignment, return or argument types, a
    /// disallowed operator on string operands, or a wrong call arity.
    TypeError,
    /// A break or continue statement outside any loop body.
    LoopControlError,
    /// A non-void function with an execution path that lacks a return.
    ControlFlowError,
    /// A duplicate flattened local name or an unsupported type mapping.
    CodeGenError,
}

/// Mathematical model of a diagnostic: its class, message text and 1-based
/// source position (0, 0 where no position applies).
pub struct DiagnosticModel {
    pub kind: DiagnosticKind,
    pub text: Seq<char>,
    pub line: nat,
    pub col: nat,
}

/// One diagnostic surfaced to the caller: the error class, a human-readable
/// message, and the 1-based source line and column it refers to (0, 0 where
/// no single position applies).
#[derive(Debug)]
pub struct Diagnostic {
    pub kind: DiagnosticKind,
    pub text: String,
    pub line: usize,
    pub col: usize,
}

impl Clone for Diagnostic {
    fn clone(&self) -> (r: Self)
        ensures
            r == *self,
    {
        Diagnostic { kind: self.kind, text: self.text.clone(), line: self.line, col: self.col }
    }
}

impl View for Diagnostic {
    type V = DiagnosticModel;

    open spec fn view(&self) -> DiagnosticModel {
        DiagnosticModel {
            kind: self.kind,
            text: self.text@,
            line: self.line as nat,
            col: self.col as nat,
        }
    }
}

/// The label that `message` prefixes to the text of a diagnostic of class `k`.
pub open spec fn class_label(k: DiagnosticKind) -> Seq<char> {
    match k {
        DiagnosticKind::LexError => "lex error"@,
        DiagnosticKind::ParseError => "parse error"@,
        DiagnosticKind::ScopeError => "scope error"@,
        DiagnosticKind::TypeError => "type error"@,
        DiagnosticKind::LoopControlError => "loop control error"@,
        DiagnosticKind::ControlFlowError => "control flow error"@,
        DiagnosticKind::CodeGenError => "code generation error"@,
    }
}

impl Diagnostic {
    pub fn new(kind: DiagnosticKind, text: String, line: usize, col: usize) -> (r: Diagnostic)
        ensures
            r@ == (DiagnosticModel { kind, text: text@, line: line as nat, col: col as nat }),
    {
        Diagnostic { kind, text, line, col }
    }

    /// The class label followed by the message text.
    pub fn message(&self) -> (r: String)
        ensures
            r@ == class_label(self.kind) + ": "@ + self.text@,
    {
        let mut r = match self.kind {
            DiagnosticKind::LexError => "lex error".to_owned(),
            DiagnosticKind::ParseError => "parse error".to_owned(),
            DiagnosticKind::ScopeError => "scope error".to_owned(),
            DiagnosticKind::TypeError => "type error".to_owned(),
            DiagnosticKind::LoopControlError => "loop control error".to_owned(),
            DiagnosticKind::ControlFlowError => "control flow error".to_owned(),
            DiagnosticKind::CodeGenError => "code generation error".to_owned(),
        };
        r.append(": ");
        r.append(self.text.as_str());
        r
    }
}

} // verus!
