use vstd::prelude::*;
use crate::diagnostics::{Diagnostic, DiagnosticKind, DiagnosticModel};
use crate::line_text::{LineText, max_source_len, spec_line_widths, spec_point};
use crate::syntax_token::{SyntaxToken, TokenModel, is_space_char};
use crate::text_span::{SpanModel, TextSpan};
use crate::token_kind::TokenKind;

verus! {

// ---------------------------------------------------------------------------
// Character classes and pattern lengths
// ---------------------------------------------------------------------------

pub open spec fn is_digit_char(c: char) -> bool {
    '0' <= c && c <= '9'
}

pub open spec fn is_ident_start_char(c: char) -> bool {
    ('a' <= c && c <= 'z') || ('A' <= c && c <= 'Z') || c == '_'
}

pub open spec fn is_ident_char(c: char) -> bool {
    is_ident_start_char(c) || is_digit_char(c)
}

/// The literal `lit` occurs in `text` exactly at position `pos`.
pub open spec fn lit_at(text: Seq<char>, pos: int, lit: Seq<char>) -> bool {
    &&& 0 <= pos
    &&& pos + lit.len() <= text.len()
    &&& text.subrange(pos, pos + lit.len()) == lit
}

/// The number of consecutive decimal digits of `text` starting at `pos`.
pub open spec fn digits_run(text: Seq<char>, pos: int) -> nat
    decreases text.len() - pos,
{
    if 0 <= pos < text.len() && is_digit_char(text[pos]) {
        1 + digits_run(text, pos + 1)
    } else {
        0
    }
}

/// The number of consecutive whitespace characters of `text` starting at `pos`.
pub open spec fn space_run(text: Seq<char>, pos: int) -> nat
    decreases text.len() - pos,
{
    if 0 <= pos < text.len() && is_space_char(text[pos]) {
        1 + space_run(text, pos + 1)
    } else {
        0
    }
}

/// The number of consecutive identifier characters of `text` starting at `pos`.
pub open spec fn ident_run(text: Seq<char>, pos: int) -> nat
    decreases text.len() - pos,
{
    if 0 <= pos < text.len() && is_ident_char(text[pos]) {
        1 + ident_run(text, pos + 1)
    } else {
        0
    }
}

/// The length of a numeric literal at `pos`: one or more digits, optionally
/// followed by a single dot and one or more digits. Zero where no digit
/// stands at `pos`.
pub open spec fn number_len(text: Seq<char>, pos: int) -> nat {
    let d = digits_run(text, pos);
    if d == 0 {
        0
    } else if pos + d + 1 < text.len() && text[pos + d] == '.' && is_digit_char(
        text[pos + d + 1],
    ) {
        (d + 1 + digits_run(text, pos + d + 1)) as nat
    } else {
        d
    }
}

/// Scanning a string literal's body from `i`: the index just past the
/// closing quote, or -1 where the literal is unterminated. A backslash
/// escapes the character after it.
pub open spec fn string_end(text: Seq<char>, i: int) -> int
    decreases text.len() - i,
{
    if i < 0 || i >= text.len() {
        -1
    } else if text[i] == '"' {
        i + 1
    } else if text[i] == '\\' {
        if i + 1 < text.len() {
            string_end(text, i + 2)
        } else {
            -1
        }
    } else {
        string_end(text, i + 1)
    }
}

/// The length of a quoted string literal at `pos`, or 0 where none starts
/// there.
pub open spec fn string_lit_len(text: Seq<char>, pos: int) -> nat {
    if 0 <= pos < text.len() && text[pos] == '"' && string_end(text, pos + 1) >= 0 {
        (string_end(text, pos + 1) - pos) as nat
    } else {
        0
    }
}

// ---------------------------------------------------------------------------
// The rule table
// ---------------------------------------------------------------------------

/// The kind and length of the token that starts at position `pos` of `text`
/// (which must be a valid position strictly inside the text). The ordered
/// rule list tries keywords and type names first, then string and numeric
/// literals, then multi-character operators before single-character ones,
/// then whitespace, then identifiers; if no rule matches, one character is
/// consumed as a bad token. A keyword rule wins over the identifier rule
/// even when the keyword is a prefix of a longer word.
pub open spec fn next_token_spec(text: Seq<char>, pos: int) -> (TokenKind, nat) {
    if lit_at(text, pos, "fun"@) {
        (TokenKind::FunToken, "fun"@.len())
    } else if lit_at(text, pos, "if"@) {
        (TokenKind::IfToken, "if"@.len())
    } else if lit_at(text, pos, "else"@) {
        (TokenKind::ElseToken, "else"@.len())
    } else if lit_at(text, pos, "while"@) {
        (TokenKind::WhileToken, "while"@.len())
    } else if lit_at(text, pos, "int"@) {
        (TokenKind::DataTypeToken, "int"@.len())
    } else if lit_at(text, pos, "float"@) {
        (TokenKind::DataTypeToken, "float"@.len())
    } else if lit_at(text, pos, "string"@) {
        (TokenKind::DataTypeToken, "string"@.len())
    } else if lit_at(text, pos, "void"@) {
        (TokenKind::DataTypeToken, "void"@.len())
    } else if string_lit_len(text, pos) > 0 {
        (TokenKind::StringToken, string_lit_len(text, pos))
    } else if lit_at(text, pos, "let"@) {
        (TokenKind::LetToken, "let"@.len())
    } else if lit_at(text, pos, "return"@) {
        (TokenKind::ReturnToken, "return"@.len())
    } else if lit_at(text, pos, "break"@) {
        (TokenKind::BreakToken, "break"@.len())
    } else if lit_at(text, pos, "continue"@) {
        (TokenKind::ContinueToken, "continue"@.len())
    } else if number_len(text, pos) > 0 {
        (TokenKind::NumberToken, number_len(text, pos))
    } else if lit_at(text, pos, "=="@) {
        (TokenKind::EqualEqualToken, "=="@.len())
    } else if lit_at(text, pos, "!="@) {
        (TokenKind::NotEqualToken, "!="@.len())
    } else if lit_at(text, pos, "<="@) {
        (TokenKind::SmallerThanEqualToken, "<="@.len())
    } else if lit_at(text, pos, ">="@) {
        (TokenKind::GreaterThanEqualToken, ">="@.len())
    } else if lit_at(text, pos, "<"@) {
        (TokenKind::SmallerThanToken, "<"@.len())
    } else if lit_at(text, pos, ">"@) {
        (TokenKind::GreaterThanToken, ">"@.len())
    } else if lit_at(text, pos, "="@) {
        (TokenKind::EqualToken, "="@.len())
    } else if lit_at(text, pos, "!"@) {
        (TokenKind::BangToken, "!"@.len())
    } else if lit_at(text, pos, "&"@) {
        (TokenKind::BitWiseAmpersandToken, "&"@.len())
    } else if lit_at(text, pos, "|"@) {
        (TokenKind::BitWisePipeToken, "|"@.len())
    } else if lit_at(text, pos, ";"@) {
        (TokenKind::SemicolonToken, ";"@.len())
    } else if lit_at(text, pos, ":"@) {
        (TokenKind::ColonToken, ":"@.len())
    } else if lit_at(text, pos, ","@) {
        (TokenKind::CommaToken, ","@.len())
    } else if lit_at(text, pos, "."@) {
        (TokenKind::DotToken, "."@.len())
    } else if lit_at(text, pos, "+"@) {
        (TokenKind::PlusToken, "+"@.len())
    } else if lit_at(text, pos, "-"@) {
        (TokenKind::MinusToken, "-"@.len())
    } else if lit_at(text, pos, "*"@) {
        (TokenKind::StarToken, "*"@.len())
    } else if lit_at(text, pos, "/"@) {
        (TokenKind::SlashToken, "/"@.len())
    } else if lit_at(text, pos, "("@) {
        (TokenKind::OpenParenthesisToken, "("@.len())
    } else if lit_at(text, pos, ")"@) {
        (TokenKind::CloseParenthesisToken, ")"@.len())
    } else if lit_at(text, pos, "{"@) {
        (TokenKind::CurlyOpenBracketToken, "{"@.len())
    } else if lit_at(text, pos, "}"@) {
        (TokenKind::CurlyCloseBracketToken, "}"@.len())
    } else if space_run(text, pos) > 0 {
        (TokenKind::WhiteSpaceToken, space_run(text, pos))
    } else if 0 <= pos < text.len() && is_ident_start_char(text[pos]) {
        (TokenKind::IdentifierToken, ident_run(text, pos))
    } else {
        (TokenKind::BadToken, 1)
    }
}

/// Every rule literal is non-empty, so scanning always advances.
pub proof fn lemma_rule_lit_lens()
    ensures
        "fun"@.len() == 3,
        "if"@.len() == 2,
        "else"@.len() == 4,
        "while"@.len() == 5,
        "int"@.len() == 3,
        "float"@.len() == 5,
        "string"@.len() == 6,
        "void"@.len() == 4,
        "let"@.len() == 3,
        "return"@.len() == 6,
        "break"@.len() == 5,
        "continue"@.len() == 8,
        "=="@.len() == 2,
        "!="@.len() == 2,
        "<="@.len() == 2,
        ">="@.len() == 2,
        "<"@.len() == 1,
        ">"@.len() == 1,
        "="@.len() == 1,
        "!"@.len() == 1,
        "&"@.len() == 1,
        "|"@.len() == 1,
        ";"@.len() == 1,
        ":"@.len() == 1,
        ","@.len() == 1,
        "."@.len() == 1,
        "+"@.len() == 1,
        "-"@.len() == 1,
        "*"@.len() == 1,
        "/"@.len() == 1,
        "("@.len() == 1,
        ")"@.len() == 1,
        "{"@.len() == 1,
        "}"@.len() == 1,
{
    reveal_strlit("fun");
    reveal_strlit("if");
    reveal_strlit("else");
    reveal_strlit("while");
    reveal_strlit("int");
    reveal_strlit("float");
    reveal_strlit("string");
    reveal_strlit("void");
    reveal_strlit("let");
    reveal_strlit("return");
    reveal_strlit("break");
    reveal_strlit("continue");
    reveal_strlit("==");
    reveal_strlit("!=");
    reveal_strlit("<=");
    reveal_strlit(">=");
    reveal_strlit("<");
    reveal_strlit(">");
    reveal_strlit("=");
    reveal_strlit("!");
    reveal_strlit("&");
    reveal_strlit("|");
    reveal_strlit(";");
    reveal_strlit(":");
    reveal_strlit(",");
    reveal_strlit(".");
    reveal_strlit("+");
    reveal_strlit("-");
    reveal_strlit("*");
    reveal_strlit("/");
    reveal_strlit("(");
    reveal_strlit(")");
    reveal_strlit("{");
    reveal_strlit("}");
}

/// The length of the string-literal rule stays inside the text.
pub proof fn lemma_string_end_bounds(text: Seq<char>, i: int)
    requires
        0 <= i,
    ensures
        string_end(text, i) == -1 || (i < string_end(text, i) <= text.len()),
    decreases text.len() - i,
{
    if i < text.len() && text[i] != '"' {
        if text[i] == '\\' {
            if i + 1 < text.len() {
                lemma_string_end_bounds(text, i + 2);
            }
        } else {
            lemma_string_end_bounds(text, i + 1);
        }
    }
}

/// The digit, space and identifier runs stay inside the text.
pub proof fn lemma_runs_bounds(text: Seq<char>, pos: int)
    requires
        0 <= pos <= text.len(),
    ensures
        pos + digits_run(text, pos) <= text.len(),
        pos + space_run(text, pos) <= text.len(),
        pos + ident_run(text, pos) <= text.len(),
    decreases text.len() - pos,
{
    if pos < text.len() {
        lemma_runs_bounds(text, pos + 1);
    }
}

/// A token always has at least one character and ends inside the text.
pub proof fn lemma_next_token_spec_bounds(text: Seq<char>, pos: int)
    requires
        0 <= pos < text.len(),
    ensures
        1 <= next_token_spec(text, pos).1,
        pos + next_token_spec(text, pos).1 <= text.len(),
{
    lemma_rule_lit_lens();
    lemma_runs_bounds(text, pos);
    lemma_string_end_bounds(text, pos + 1);
    if number_len(text, pos) > 0 {
        let d = digits_run(text, pos);
        if pos + d + 1 < text.len() && text[pos + d] == '.' && is_digit_char(text[pos + d + 1]) {
            lemma_runs_bounds(text, pos + d + 1);
        }
    }
}

// ---------------------------------------------------------------------------
// The token stream of a whole text
// ---------------------------------------------------------------------------

/// One raw token: its kind, start position and length.
pub struct RawToken {
    pub kind: TokenKind,
    pub start: int,
    pub len: nat,
}

/// The raw token stream of `text` from `pos` on: scan one token, then
/// continue after it, until the end of the text. (The step is clamped to
/// the range from one character to the rest of the text;
/// `lemma_next_token_spec_bounds` shows the clamps never take effect.)
pub open spec fn raw_tokens_from(text: Seq<char>, pos: int) -> Seq<RawToken>
    decreases text.len() - pos,
{
    if pos < 0 || pos >= text.len() {
        Seq::empty()
    } else {
        let (kind, l) = next_token_spec(text, pos);
        let step = if l < 1 {
            1
        } else if l > text.len() - pos {
            text.len() - pos
        } else {
            l as int
        };
        seq![RawToken { kind, start: pos, len: step as nat }] + raw_tokens_from(text, pos + step)
    }
}

/// The raw token stream of the whole of `text`: whitespace and bad tokens
/// still included.
pub open spec fn raw_tokens(text: Seq<char>) -> Seq<RawToken> {
    raw_tokens_from(text, 0)
}

pub open spec fn is_kept_token(t: RawToken) -> bool {
    t.kind != TokenKind::WhiteSpaceToken && t.kind != TokenKind::BadToken
}

pub open spec fn is_bad_token(t: RawToken) -> bool {
    t.kind == TokenKind::BadToken
}

/// The model of the syntax token built for raw token `t` of `text`.
pub open spec fn token_model_of(text: Seq<char>, t: RawToken) -> TokenModel {
    TokenModel {
        kind: t.kind,
        span: SpanModel {
            start: t.start as nat,
            end: (t.start + t.len) as nat,
            line: spec_point(spec_line_widths(text), t.start).0 as nat,
            col: spec_point(spec_line_widths(text), t.start).1 as nat,
        },
        text: text.subrange(t.start, t.start + t.len),
    }
}

/// The model of the diagnostic reported for bad token `t` of `text`.
pub open spec fn diagnostic_model_of(text: Seq<char>, t: RawToken) -> DiagnosticModel {
    DiagnosticModel {
        kind: DiagnosticKind::LexError,
        text: text.subrange(t.start, t.start + t.len),
        line: spec_point(spec_line_widths(text), t.start).0 as nat,
        col: spec_point(spec_line_widths(text), t.start).1 as nat,
    }
}

/// The models of the syntax tokens built for the kept (neither whitespace
/// nor bad) raw tokens of `s`.
pub open spec fn kept_models(text: Seq<char>, s: Seq<RawToken>) -> Seq<TokenModel> {
    s.filter(|t: RawToken| is_kept_token(t)).map_values(|t: RawToken| token_model_of(text, t))
}

/// The models of the diagnostics reported for the bad raw tokens of `s`.
pub open spec fn bad_models(text: Seq<char>, s: Seq<RawToken>) -> Seq<DiagnosticModel> {
    s.filter(|t: RawToken| is_bad_token(t)).map_values(|t: RawToken| diagnostic_model_of(text, t))
}

/// What lexing the whole of `text` yields once whitespace and bad tokens
/// are filtered out.
pub open spec fn lex_spec(text: Seq<char>) -> Seq<TokenModel> {
    kept_models(text, raw_tokens(text))
}

/// The diagnostics lexing the whole of `text` reports: one per bad character.
pub open spec fn lex_diagnostics_spec(text: Seq<char>) -> Seq<DiagnosticModel> {
    bad_models(text, raw_tokens(text))
}

pub proof fn lemma_models_empty(text: Seq<char>)
    ensures
        kept_models(text, Seq::empty()) == Seq::<TokenModel>::empty(),
        bad_models(text, Seq::empty()) == Seq::<DiagnosticModel>::empty(),
{
    reveal(Seq::filter);
    assert(kept_models(text, Seq::empty()) =~= Seq::<TokenModel>::empty());
    assert(bad_models(text, Seq::empty()) =~= Seq::<DiagnosticModel>::empty());
}

/// Extending the raw stream by one token appends its model to the kept
/// models exactly when it is kept, and to the diagnostics exactly when it
/// is bad.
pub proof fn lemma_models_push(text: Seq<char>, s: Seq<RawToken>, t: RawToken)
    ensures
        kept_models(text, s.push(t)) == if is_kept_token(t) {
            kept_models(text, s).push(token_model_of(text, t))
        } else {
            kept_models(text, s)
        },
        bad_models(text, s.push(t)) == if is_bad_token(t) {
            bad_models(text, s).push(diagnostic_model_of(text, t))
        } else {
            bad_models(text, s)
        },
{
    reveal(Seq::filter);
    assert(s.push(t).drop_last() =~= s);
    assert(s.push(t).last() == t);
    if is_kept_token(t) {
        assert(kept_models(text, s.push(t)) =~= kept_models(text, s).push(
            token_model_of(text, t),
        ));
    } else {
        assert(kept_models(text, s.push(t)) =~= kept_models(text, s));
    }
    if is_bad_token(t) {
        assert(bad_models(text, s.push(t)) =~= bad_models(text, s).push(
            diagnostic_model_of(text, t),
        ));
    } else {
        assert(bad_models(text, s.push(t)) =~= bad_models(text, s));
    }
}

// ---------------------------------------------------------------------------
// The executable lexer
// ---------------------------------------------------------------------------

/// Mathematical model of the lexer: the text, the cursor, and the
/// diagnostics collected so far.
pub struct LexerModel {
    pub text: Seq<char>,
    pub pos: nat,
    pub diagnostics: Seq<DiagnosticModel>,
}

/// Scans source text into tokens by the ordered rule table; invalid
/// characters are reported through diagnostics rather than aborting the
/// scan. Comments are not part of the lexical grammar and are not skipped.
pub struct Lexer {
    input_text: String,
    chars: Vec<char>,
    current: usize,
    diagnostics: Vec<Diagnostic>,
    line_text: LineText,
}

impl View for Lexer {
    type V = LexerModel;

    closed spec fn view(&self) -> LexerModel {
        LexerModel {
            text: self.input_text@,
            pos: self.current as nat,
            diagnostics: self.diagnostics@.map_values(|d: Diagnostic| d@),
        }
    }
}

/// Copies the characters of `s` into a vector.
fn str_chars(s: &str) -> (r: Vec<char>)
    ensures
        r@ == s@,
{
    let n = s.unicode_len();
    let mut r: Vec<char> = Vec::new();
    let mut i: usize = 0;
    while i < n
        invariant
            n == s@.len(),
            0 <= i <= n,
            r@ == s@.subrange(0, i as int),
        decreases n - i,
    {
        r.push(s.get_char(i));
        proof {
            assert(r@ =~= s@.subrange(0, i + 1));
        }
        i = i + 1;
    }
    proof {
        assert(s@.subrange(0, n as int) =~= s@);
    }
    r
}

impl Lexer {
    /// The cursor is inside the text, the character buffer matches the
    /// text, and the width table describes it.
    pub closed spec fn wf(&self) -> bool {
        &&& self.chars@ == self.input_text@
        &&& self.current <= self.chars@.len()
        &&& self.line_text.wf()
        &&& self.line_text@.text == self.input_text@
        &&& self.input_text@.len() < max_source_len()
    }

    pub fn new(input_text: String) -> (r: Lexer)
        requires
            input_text@.len() < max_source_len(),
        ensures
            r.wf(),
            r@.text == input_text@,
            r@.pos == 0,
            r@.diagnostics == Seq::<DiagnosticModel>::empty(),
    {
        let chars = str_chars(input_text.as_str());
        let line_text = LineText::new(input_text.clone());
        proof {
            assert(Seq::<Diagnostic>::empty().map_values(|d: Diagnostic| d@)
                =~= Seq::<DiagnosticModel>::empty());
        }
        Lexer { input_text, chars, current: 0, diagnostics: Vec::new(), line_text }
    }

    /// The literal `lit` occurs exactly at position `pos` of the text.
    fn str_at(&self, pos: usize, lit: &str) -> (r: bool)
        requires
            self.wf(),
        ensures
            r == lit_at(self@.text, pos as int, lit@),
    {
        let n = lit.unicode_len();
        if pos > self.chars.len() || n > self.chars.len() - pos {
            return false;
        }
        let mut i: usize = 0;
        while i < n
            invariant
                self.wf(),
                n == lit@.len(),
                pos + n <= self.chars@.len(),
                0 <= i <= n,
                forall|j: int| 0 <= j < i ==> self.chars@[pos + j] == lit@[j],
            decreases n - i,
        {
            if self.chars[pos + i] != lit.get_char(i) {
                proof {
                    assert(self@.text.subrange(pos as int, pos + lit@.len())[i as int] != lit@[
                        i as int
                    ]);
                }
                return false;
            }
            i = i + 1;
        }
        proof {
            assert(self@.text.subrange(pos as int, pos + lit@.len()) =~= lit@);
        }
        true
    }

    /// The length of the run of characters satisfying the digit class from
    /// `pos` on.
    fn scan_digits(&self, pos: usize) -> (r: usize)
        requires
            self.wf(),
            pos <= self@.text.len(),
        ensures
            r as nat == digits_run(self@.text, pos as int),
            pos + r <= self@.text.len(),
    {
        let n = self.chars.len();
        let mut i: usize = pos;
        while i < n && '0' <= self.chars[i] && self.chars[i] <= '9'
            invariant
                self.wf(),
                n == self@.text.len(),
                pos <= i <= n,
                digits_run(self@.text, pos as int) == i - pos + digits_run(self@.text, i as int),
            decreases n - i,
        {
            i = i + 1;
        }
        i - pos
    }

    /// The length of the run of whitespace characters from `pos` on.
    fn scan_spaces(&self, pos: usize) -> (r: usize)
        requires
            self.wf(),
            pos <= self@.text.len(),
        ensures
            r as nat == space_run(self@.text, pos as int),
            pos + r <= self@.text.len(),
    {
        let n = self.chars.len();
        let mut i: usize = pos;
        while i < n && crate::syntax_token::is_space(self.chars[i])
            invariant
                self.wf(),
                n == self@.text.len(),
                pos <= i <= n,
                space_run(self@.text, pos as int) == i - pos + space_run(self@.text, i as int),
            decreases n - i,
        {
            i = i + 1;
        }
        i - pos
    }

    /// The length of the run of identifier characters from `pos` on.
    fn scan_ident(&self, pos: usize) -> (r: usize)
        requires
            self.wf(),
            pos <= self@.text.len(),
        ensures
            r as nat == ident_run(self@.text, pos as int),
            pos + r <= self@.text.len(),
    {
        let n = self.chars.len();
        let mut i: usize = pos;
        while i < n && is_ident_char_exec(self.chars[i])
            invariant
                self.wf(),
                n == self@.text.len(),
                pos <= i <= n,
                ident_run(self@.text, pos as int) == i - pos + ident_run(self@.text, i as int),
            decreases n - i,
        {
            i = i + 1;
        }
        i - pos
    }

    /// The index just past the closing quote of a string-literal body
    /// starting at `i`, or `None` where the literal never closes.
    fn scan_string_body(&self, start: usize) -> (r: Option<usize>)
        requires
            self.wf(),
            start <= self@.text.len(),
        ensures
            match r {
                Some(e) => string_end(self@.text, start as int) == e as int && start < e
                    <= self@.text.len(),
                None => string_end(self@.text, start as int) == -1,
            },
    {
        let n = self.chars.len();
        let mut i: usize = start;
        while i < n
            invariant
                self.wf(),
                n == self@.text.len(),
                start <= i <= n,
                string_end(self@.text, start as int) == string_end(self@.text, i as int),
            decreases n - i,
        {
            let c = self.chars[i];
            if c == '"' {
                return Some(i + 1);
            } else if c == '\\' {
                if i + 1 < n {
                    i = i + 2;
                } else {
                    return None;
                }
            } else {
                i = i + 1;
            }
        }
        None
    }

    /// The kind and length of the token at `pos`, by the ordered rule table.
    fn scan_rule(&self, pos: usize) -> (r: (TokenKind, usize))
        requires
            self.wf(),
            pos < self@.text.len(),
        ensures
            (r.0, r.1 as nat) == next_token_spec(self@.text, pos as int),
            1 <= r.1,
            pos + r.1 <= self@.text.len(),
    {
        proof {
            lemma_next_token_spec_bounds(self@.text, pos as int);
        }
        if self.str_at(pos, "fun") {
            return (TokenKind::FunToken, "fun".unicode_len());
        }
        if self.str_at(pos, "if") {
            return (TokenKind::IfToken, "if".unicode_len());
        }
        if self.str_at(pos, "else") {
            return (TokenKind::ElseToken, "else".unicode_len());
        }
        if self.str_at(pos, "while") {
            return (TokenKind::WhileToken, "while".unicode_len());
        }
        if self.str_at(pos, "int") {
            return (TokenKind::DataTypeToken, "int".unicode_len());
        }
        if self.str_at(pos, "float") {
            return (TokenKind::DataTypeToken, "float".unicode_len());
        }
        if self.str_at(pos, "string") {
            return (TokenKind::DataTypeToken, "string".unicode_len());
        }
        if self.str_at(pos, "void") {
            return (TokenKind::DataTypeToken, "void".unicode_len());
        }
        if self.chars[pos] == '"' {
            match self.scan_string_body(pos + 1) {
                Some(e) => {
                    return (TokenKind::StringToken, e - pos);
                },
                None => {},
            }
        }
        if self.str_at(pos, "let") {
            return (TokenKind::LetToken, "let".unicode_len());
        }
        if self.str_at(pos, "return") {
            return (TokenKind::ReturnToken, "return".unicode_len());
        }
        if self.str_at(pos, "break") {
            return (TokenKind::BreakToken, "break".unicode_len());
        }
        if self.str_at(pos, "continue") {
            return (TokenKind::ContinueToken, "continue".unicode_len());
        }
        let d = self.scan_digits(pos);
        if d > 0 {
            if pos + d + 1 < self.chars.len() && self.chars[pos + d] == '.' && '0'
                <= self.chars[pos + d + 1] && self.chars[pos + d + 1] <= '9' {
                let d2 = self.scan_digits(pos + d + 1);
                return (TokenKind::NumberToken, d + 1 + d2);
            }
            return (TokenKind::NumberToken, d);
        }
        if self.str_at(pos, "==") {
            return (TokenKind::EqualEqualToken, "==".unicode_len());
        }
        if self.str_at(pos, "!=") {
            return (TokenKind::NotEqualToken, "!=".unicode_len());
        }
        if self.str_at(pos, "<=") {
            return (TokenKind::SmallerThanEqualToken, "<=".unicode_len());
        }
        if self.str_at(pos, ">=") {
            return (TokenKind::GreaterThanEqualToken, ">=".unicode_len());
        }
        if self.str_at(pos, "<") {
            return (TokenKind::SmallerThanToken, "<".unicode_len());
        }
        if self.str_at(pos, ">") {
            return (TokenKind::GreaterThanToken, ">".unicode_len());
        }
        if self.str_at(pos, "=") {
            return (TokenKind::EqualToken, "=".unicode_len());
        }
        if self.str_at(pos, "!") {
            return (TokenKind::BangToken, "!".unicode_len());
        }
        if self.str_at(pos, "&") {
            return (TokenKind::BitWiseAmpersandToken, "&".unicode_len());
        }
        if self.str_at(pos, "|") {
            return (TokenKind::BitWisePipeToken, "|".unicode_len());
        }
        if self.str_at(pos, ";") {
            return (TokenKind::SemicolonToken, ";".unicode_len());
        }
        if self.str_at(pos, ":") {
            return (TokenKind::ColonToken, ":".unicode_len());
        }
        if self.str_at(pos, ",") {
            return (TokenKind::CommaToken, ",".unicode_len());
        }
        if self.str_at(pos, ".") {
            return (TokenKind::DotToken, ".".unicode_len());
        }
        if self.str_at(pos, "+") {
            return (TokenKind::PlusToken, "+".unicode_len());
        }
        if self.str_at(pos, "-") {
            return (TokenKind::MinusToken, "-".unicode_len());
        }
        if self.str_at(pos, "*") {
            return (TokenKind::StarToken, "*".unicode_len());
        }
        if self.str_at(pos, "/") {
            return (TokenKind::SlashToken, "/".unicode_len());
        }
        if self.str_at(pos, "(") {
            return (TokenKind::OpenParenthesisToken, "(".unicode_len());
        }
        if self.str_at(pos, ")") {
            return (TokenKind::CloseParenthesisToken, ")".unicode_len());
        }
        if self.str_at(pos, "{") {
            return (TokenKind::CurlyOpenBracketToken, "{".unicode_len());
        }
        if self.str_at(pos, "}") {
            return (TokenKind::CurlyCloseBracketToken, "}".unicode_len());
        }
        let s = self.scan_spaces(pos);
        if s > 0 {
            return (TokenKind::WhiteSpaceToken, s);
        }
        if is_ident_start_exec(self.chars[pos]) {
            let l = self.scan_ident(pos);
            return (TokenKind::IdentifierToken, l);
        }
        (TokenKind::BadToken, 1)
    }

    /// Scans the token at the cursor and advances past it; past the end of
    /// the text it yields the end-of-file sentinel and stays put.
    fn next_token(&mut self) -> (r: SyntaxToken)
        requires
            old(self).wf(),
        ensures
            final(self).wf(),
            final(self)@.text == old(self)@.text,
            final(self)@.diagnostics == old(self)@.diagnostics,
            old(self)@.pos >= old(self)@.text.len() ==> {
                &&& r@.kind == TokenKind::EndOfFileToken
                &&& final(self)@.pos == old(self)@.pos
            },
            old(self)@.pos < old(self)@.text.len() ==> {
                let t = RawToken {
                    kind: next_token_spec(old(self)@.text, old(self)@.pos as int).0,
                    start: old(self)@.pos as int,
                    len: next_token_spec(old(self)@.text, old(self)@.pos as int).1,
                };
                &&& r@ == token_model_of(old(self)@.text, t)
                &&& final(self)@.pos == old(self)@.pos + t.len
            },
    {
        if self.current >= self.chars.len() {
            let span = TextSpan::new((self.current, self.current + 1), &self.line_text);
            return SyntaxToken::new(TokenKind::EndOfFileToken, span, "\0".to_owned());
        }
        let (kind, len) = self.scan_rule(self.current);
        let span = TextSpan::new((self.current, self.current + len), &self.line_text);
        let text = self.input_text.as_str().substring_char(self.current, self.current + len)
            .to_owned();
        let r = SyntaxToken::new(kind, span, text);
        self.current = self.current + len;
        r
    }

    /// Scans the whole text: whitespace is dropped, each bad character is
    /// recorded as a lexical diagnostic, and everything else is returned in
    /// source order.
    pub fn lex_all(&mut self) -> (r: Vec<SyntaxToken>)
        requires
            old(self).wf(),
            old(self)@.pos == 0,
            old(self)@.diagnostics == Seq::<DiagnosticModel>::empty(),
        ensures
            final(self).wf(),
            final(self)@.text == old(self)@.text,
            r@.map_values(|t: SyntaxToken| t@) == lex_spec(old(self)@.text),
            final(self)@.diagnostics == lex_diagnostics_spec(old(self)@.text),
    {
        let ghost text = self@.text;
        let mut res: Vec<SyntaxToken> = Vec::new();
        let ghost mut done: Seq<RawToken> = Seq::empty();
        proof {
            lemma_models_empty(text);
            assert(done + raw_tokens_from(text, 0) =~= raw_tokens(text));
            assert(res@.map_values(|x: SyntaxToken| x@) =~= Seq::<TokenModel>::empty());
        }
        while self.current < self.chars.len()
            invariant
                self.wf(),
                self@.text == text,
                self@.pos <= text.len(),
                self.current as nat == self@.pos,
                self.chars@.len() == text.len(),
                raw_tokens(text) == done + raw_tokens_from(text, self@.pos as int),
                res@.map_values(|t: SyntaxToken| t@) == kept_models(text, done),
                self@.diagnostics == bad_models(text, done),
            decreases text.len() - self@.pos,
        {
            let ghost pos0 = self@.pos as int;
            proof {
                lemma_next_token_spec_bounds(text, pos0);
            }
            let c = self.next_token();
            let ghost t = RawToken {
                kind: next_token_spec(text, pos0).0,
                start: pos0,
                len: next_token_spec(text, pos0).1,
            };
            proof {
                assert(raw_tokens_from(text, pos0) == seq![t] + raw_tokens_from(
                    text,
                    pos0 + t.len,
                ));
                lemma_models_push(text, done, t);
                assert(done.push(t) + raw_tokens_from(text, pos0 + t.len) =~= done
                    + raw_tokens_from(text, pos0));
                done = done.push(t);
            }
            if c.kind == TokenKind::BadToken {
                let d = Diagnostic::new(
                    DiagnosticKind::LexError,
                    c.text,
                    c.position.line_no,
                    c.position.col_no,
                );
                self.diagnostics.push(d);
                proof {
                    assert(self@.diagnostics =~= bad_models(text, done));
                }
            } else if c.kind == TokenKind::WhiteSpaceToken {
            } else {
                res.push(c);
                proof {
                    assert(res@.map_values(|x: SyntaxToken| x@) =~= kept_models(text, done));
                }
            }
        }
        proof {
            assert(done =~= raw_tokens(text));
        }
        res
    }

    /// A well-formed lexer's text is within the supported source size.
    pub proof fn lemma_text_bound(&self)
        requires
            self.wf(),
        ensures
            self@.text.len() < max_source_len(),
    {
    }

    /// The lexical diagnostics collected by `lex_all`, in source order.
    pub fn diagnostics(&self) -> (r: &Vec<Diagnostic>)
        ensures
            r@.map_values(|d: Diagnostic| d@) == self@.diagnostics,
    {
        &self.diagnostics
    }
}

/// The lexemes of `toks` (tokens of `text`), concatenated in order.
pub open spec fn concat_lexemes(text: Seq<char>, toks: Seq<RawToken>) -> Seq<char>
    decreases toks.len(),
{
    if toks.len() == 0 {
        Seq::empty()
    } else {
        text.subrange(toks[0].start, toks[0].start + toks[0].len) + concat_lexemes(
            text,
            toks.drop_first(),
        )
    }
}

pub proof fn lemma_concat_lexemes_from(text: Seq<char>, pos: int)
    requires
        0 <= pos <= text.len(),
    ensures
        concat_lexemes(text, raw_tokens_from(text, pos)) == text.skip(pos),
    decreases text.len() - pos,
{
    if pos >= text.len() {
        assert(concat_lexemes(text, raw_tokens_from(text, pos)) =~= text.skip(pos));
    } else {
        let toks = raw_tokens_from(text, pos);
        let t = toks[0];
        lemma_concat_lexemes_from(text, pos + t.len);
        assert(toks.drop_first() =~= raw_tokens_from(text, pos + t.len));
        assert(text.subrange(pos, pos + t.len) + text.skip(pos + t.len) =~= text.skip(pos));
    }
}

/// Law (lexer determinism and idempotence): concatenating every raw lexeme
/// — whitespace and bad characters included — reproduces the source text
/// exactly; re-lexing the rebuilt source therefore yields the same raw
/// token sequence, the same kept tokens and the same diagnostics.
pub proof fn lemma_relex_round_trip(text: Seq<char>)
    ensures
        concat_lexemes(text, raw_tokens(text)) == text,
        raw_tokens(concat_lexemes(text, raw_tokens(text))) == raw_tokens(text),
        lex_spec(concat_lexemes(text, raw_tokens(text))) == lex_spec(text),
        lex_diagnostics_spec(concat_lexemes(text, raw_tokens(text))) == lex_diagnostics_spec(text),
{
    lemma_concat_lexemes_from(text, 0);
    assert(text.skip(0) =~= text);
}

/// There are at most as many raw tokens as characters.
pub proof fn lemma_raw_tokens_from_len(text: Seq<char>, pos: int)
    requires
        0 <= pos <= text.len(),
    ensures
        raw_tokens_from(text, pos).len() <= text.len() - pos,
    decreases text.len() - pos,
{
    if pos < text.len() {
        let (kind, l) = next_token_spec(text, pos);
        let step = if l < 1 {
            1
        } else if l > text.len() - pos {
            text.len() - pos
        } else {
            l as int
        };
        lemma_raw_tokens_from_len(text, pos + step);
    }
}

/// There are at most as many kept tokens as characters.
pub proof fn lemma_lex_spec_len(text: Seq<char>)
    ensures
        lex_spec(text).len() <= text.len(),
{
    lemma_raw_tokens_from_len(text, 0);
    raw_tokens(text).lemma_filter_len(|t: RawToken| is_kept_token(t));
}

/// Decides `is_ident_start_char` on a concrete character.
pub fn is_ident_start_exec(c: char) -> (r: bool)
    ensures
        r == is_ident_start_char(c),
{
    ('a' <= c && c <= 'z') || ('A' <= c && c <= 'Z') || c == '_'
}

/// Decides `is_ident_char` on a concrete character.
pub fn is_ident_char_exec(c: char) -> (r: bool)
    ensures
        r == is_ident_char(c),
{
    is_ident_start_exec(c) || ('0' <= c && c <= '9')
}

} // verus!
