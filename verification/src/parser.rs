use vstd::prelude::*;
use crate::diagnostics::{Diagnostic, DiagnosticKind};
use crate::lexer::{Lexer, lex_spec, lex_diagnostics_spec};
use crate::syntax_node::{
    ExprModel, ExpressionNode, FunctionModel, FunctionNode, ParamModel, ParameterNode,
    ProgramModel, ProgramNode, StatementNode, StmtModel, TypeLiteral, spec_type_of_name,
};
use crate::syntax_token::{SyntaxToken, TokenModel};
use crate::text_span::{SpanModel, TextSpan};
use crate::token_kind::TokenKind;

verus! {

// ---------------------------------------------------------------------------
// The token stream as the parser sees it
// ---------------------------------------------------------------------------

/// The sentinel handed out when the parser reads past the end of the
/// stream.
pub open spec fn eof_token_model() -> TokenModel {
    TokenModel {
        kind: TokenKind::EndOfFileToken,
        span: SpanModel { start: 0, end: 0, line: 1, col: 1 },
        text: "\0"@,
    }
}

/// The token at position `i`, or the end-of-file sentinel past the end.
pub open spec fn tok(toks: Seq<TokenModel>, i: int) -> TokenModel {
    if 0 <= i < toks.len() {
        toks[i]
    } else {
        eof_token_model()
    }
}

/// Positions a parse step may end at: at least one token past `lo` and
/// never past the end. Every successful parse of anything consumes at
/// least one token; this normalization makes that a definitional fact.
pub open spec fn norm_pos(lo: int, j: int, n: int) -> int {
    if j <= lo {
        if lo + 1 <= n {
            lo + 1
        } else {
            n
        }
    } else if j > n {
        n
    } else {
        j
    }
}

// ---------------------------------------------------------------------------
// Expressions (precedence climbing)
// ---------------------------------------------------------------------------

/// Parsing an expression at `i` under a parent binding strength: a unary
/// operator of sufficient strength is taken first, a primary expression
/// otherwise; then binary operators stronger than the parent are folded in
/// left to right.
pub open spec fn p_expression(toks: Seq<TokenModel>, i: int, parent_prec: int) -> Option<
    (ExprModel, int),
>
    decreases toks.len() - i, 3int, 0int,
{
    if i < 0 || i >= toks.len() {
        None
    } else {
        let up = tok(toks, i).kind.spec_unary_precedence() as int;
        let first = if up != 0 && up >= parent_prec {
            match p_expression(toks, i + 1, up) {
                Some((operand, j)) => Some(
                    (ExprModel::Unary(tok(toks, i), Box::new(operand)), norm_pos(i + 1, j, toks.len() as int)),
                ),
                None => None,
            }
        } else {
            p_primary(toks, i)
        };
        match first {
            Some((left, j)) => p_expr_loop(toks, left, norm_pos(i, j, toks.len() as int), parent_prec),
            None => None,
        }
    }
}

/// The binary-operator loop: as long as the next token is a binary
/// operator binding tighter than the parent, parse its right operand and
/// fold the pair into the left-hand side.
pub open spec fn p_expr_loop(toks: Seq<TokenModel>, left: ExprModel, i: int, parent_prec: int) -> Option<
    (ExprModel, int),
>
    decreases toks.len() - i, 0int, 0int,
{
    if i < 0 || i >= toks.len() {
        Some((left, i))
    } else {
        let prec = tok(toks, i).kind.spec_binary_precedence() as int;
        if prec == 0 || prec <= parent_prec {
            Some((left, i))
        } else {
            match p_expression(toks, i + 1, prec) {
                Some((right, j)) => {
                    let j2 = norm_pos(i + 1, j, toks.len() as int);
                    p_expr_loop(
                        toks,
                        ExprModel::Binary(Box::new(left), tok(toks, i), Box::new(right)),
                        j2,
                        parent_prec,
                    )
                },
                None => None,
            }
        }
    }
}

/// A primary expression: a parenthesized expression, an identifier (or a
/// call where an open parenthesis follows it), or a numeric literal whose
/// lexeme makes it an integer or a float.
pub open spec fn p_primary(toks: Seq<TokenModel>, i: int) -> Option<(ExprModel, int)>
    decreases toks.len() - i, 2int, 0int,
{
    if i < 0 || i >= toks.len() {
        None
    } else if tok(toks, i).kind == TokenKind::OpenParenthesisToken {
        match p_expression(toks, i + 1, 0) {
            Some((inner, j)) => {
                let j2 = norm_pos(i + 1, j, toks.len() as int);
                if tok(toks, j2).kind == TokenKind::CloseParenthesisToken {
                    Some((ExprModel::Parenthesized(Box::new(inner)), j2 + 1))
                } else {
                    None
                }
            },
            None => None,
        }
    } else if tok(toks, i).kind == TokenKind::IdentifierToken {
        if tok(toks, i + 1).kind == TokenKind::OpenParenthesisToken {
            p_invocation(toks, i)
        } else {
            Some((ExprModel::Identifier(tok(toks, i)), i + 1))
        }
    } else if tok(toks, i).kind == TokenKind::NumberToken {
        if tok(toks, i).text.contains('.') {
            Some(
                (
                    ExprModel::Literal(crate::syntax_node::TypeModel::Float(tok(toks, i))),
                    i + 1,
                ),
            )
        } else {
            Some(
                (
                    ExprModel::Literal(crate::syntax_node::TypeModel::Integer(tok(toks, i))),
                    i + 1,
                ),
            )
        }
    } else {
        None
    }
}

/// A call expression: the callee name, an open parenthesis, the comma
/// separated arguments, a close parenthesis.
pub open spec fn p_invocation(toks: Seq<TokenModel>, i: int) -> Option<(ExprModel, int)>
    decreases toks.len() - i, 1int, 0int,
{
    if i < 0 || i + 2 > toks.len() {
        None
    } else if tok(toks, i).kind == TokenKind::IdentifierToken && tok(toks, i + 1).kind
        == TokenKind::OpenParenthesisToken {
        match p_args(toks, i + 2) {
            Some((args, j)) => {
                if tok(toks, j).kind == TokenKind::CloseParenthesisToken {
                    Some((ExprModel::FunctionCall(tok(toks, i), args), j + 1))
                } else {
                    None
                }
            },
            None => None,
        }
    } else {
        None
    }
}

/// The argument list of a call, up to (not including) the closing
/// parenthesis. A comma is consumed only where another argument does not
/// end the list directly after it.
pub open spec fn p_args(toks: Seq<TokenModel>, i: int) -> Option<(Seq<ExprModel>, int)>
    decreases toks.len() - i, 4int, 0int,
{
    if i < 0 || i > toks.len() {
        None
    } else if i == toks.len() || tok(toks, i).kind == TokenKind::CloseParenthesisToken {
        Some((Seq::empty(), i))
    } else {
        match p_expression(toks, i, 0) {
            Some((arg, j0)) => {
                let j = norm_pos(i, j0, toks.len() as int);
                if tok(toks, j).kind == TokenKind::CommaToken && tok(toks, j + 1).kind
                    != TokenKind::CloseParenthesisToken {
                    match p_args(toks, j + 1) {
                        Some((rest, j2)) => Some((seq![arg] + rest, j2)),
                        None => None,
                    }
                } else {
                    match p_args(toks, j) {
                        Some((rest, j2)) => Some((seq![arg] + rest, j2)),
                        None => None,
                    }
                }
            },
            None => None,
        }
    }
}

// ---------------------------------------------------------------------------
// Statements
// ---------------------------------------------------------------------------

/// A declaration: `let IDENT = expr ;`.
pub open spec fn p_declaration(toks: Seq<TokenModel>, i: int) -> Option<(StmtModel, int)>
    decreases toks.len() - i, 0int,
{
    let n = toks.len() as int;
    if tok(toks, i).kind == TokenKind::LetToken && tok(toks, i + 1).kind
        == TokenKind::IdentifierToken && tok(toks, i + 2).kind == TokenKind::EqualToken {
        match p_expression(toks, i + 3, 0) {
            Some((e, j0)) => {
                let j = norm_pos(i + 3, j0, n);
                if tok(toks, j).kind == TokenKind::SemicolonToken {
                    Some((StmtModel::Declaration(tok(toks, i + 1), e), j + 1))
                } else {
                    None
                }
            },
            None => None,
        }
    } else {
        None
    }
}

/// An assignment statement: `IDENT = expr ;`.
pub open spec fn p_assignment(toks: Seq<TokenModel>, i: int) -> Option<(StmtModel, int)>
    decreases toks.len() - i, 0int,
{
    let n = toks.len() as int;
    if tok(toks, i).kind == TokenKind::IdentifierToken && tok(toks, i + 1).kind
        == TokenKind::EqualToken {
        match p_expression(toks, i + 2, 0) {
            Some((e, j0)) => {
                let j = norm_pos(i + 2, j0, n);
                if tok(toks, j).kind == TokenKind::SemicolonToken {
                    Some((StmtModel::Assignment(tok(toks, i), e), j + 1))
                } else {
                    None
                }
            },
            None => None,
        }
    } else {
        None
    }
}

/// A return statement: `return ;` or `return expr ;`.
pub open spec fn p_return(toks: Seq<TokenModel>, i: int) -> Option<(StmtModel, int)>
    decreases toks.len() - i, 0int,
{
    let n = toks.len() as int;
    if tok(toks, i).kind == TokenKind::ReturnToken {
        if tok(toks, i + 1).kind == TokenKind::SemicolonToken {
            Some((StmtModel::Return(None), i + 2))
        } else {
            match p_expression(toks, i + 1, 0) {
                Some((e, j0)) => {
                    let j = norm_pos(i + 1, j0, n);
                    if tok(toks, j).kind == TokenKind::SemicolonToken {
                        Some((StmtModel::Return(Some(e)), j + 1))
                    } else {
                        None
                    }
                },
                None => None,
            }
        }
    } else {
        None
    }
}

/// A call statement: a call expression followed by a semicolon.
pub open spec fn p_call_stmt(toks: Seq<TokenModel>, i: int) -> Option<(StmtModel, int)>
    decreases toks.len() - i, 0int,
{
    match p_invocation(toks, i) {
        Some((e, j)) => match e {
            ExprModel::FunctionCall(name, args) => {
                if tok(toks, j).kind == TokenKind::SemicolonToken {
                    Some((StmtModel::FunctionInvocation(name, args), j + 1))
                } else {
                    None
                }
            },
            _ => None,
        },
        None => None,
    }
}

/// A while statement: `while expr block`.
pub open spec fn p_while(toks: Seq<TokenModel>, i: int) -> Option<(StmtModel, int)>
    decreases toks.len() - i, 0int,
{
    let n = toks.len() as int;
    if tok(toks, i).kind == TokenKind::WhileToken && i < n {
        match p_expression(toks, i + 1, 0) {
            Some((c, j0)) => {
                let j = norm_pos(i + 1, j0, n);
                match p_block(toks, j) {
                    Some((b, j2)) => Some((StmtModel::While(c, b), j2)),
                    None => None,
                }
            },
            None => None,
        }
    } else {
        None
    }
}

/// The else-if and else continuation of an if chain: any number of
/// `else if expr block` parts, then an optional `else block`.
pub open spec fn p_else_ifs(toks: Seq<TokenModel>, i: int) -> Option<
    (Seq<(ExprModel, Seq<StmtModel>)>, Option<Seq<StmtModel>>, int),
>
    decreases toks.len() - i, 0int,
{
    let n = toks.len() as int;
    if i < 0 || i >= n {
        Some((Seq::empty(), None, i))
    } else if tok(toks, i).kind == TokenKind::ElseToken && tok(toks, i + 1).kind
        == TokenKind::IfToken {
        match p_expression(toks, i + 2, 0) {
            Some((c, j0)) => {
                let j = norm_pos(i + 2, j0, n);
                match p_block(toks, j) {
                    Some((b, j2)) => {
                        let j3 = norm_pos(i, j2, n);
                        match p_else_ifs(toks, j3) {
                            Some((rest, eb, j4)) => Some((seq![(c, b)] + rest, eb, j4)),
                            None => None,
                        }
                    },
                    None => None,
                }
            },
            None => None,
        }
    } else if tok(toks, i).kind == TokenKind::ElseToken {
        match p_block(toks, i + 1) {
            Some((b, j)) => Some((Seq::empty(), Some(b), j)),
            None => None,
        }
    } else {
        Some((Seq::empty(), None, i))
    }
}

/// An if chain: `if expr block`, the else-if parts, the optional else.
pub open spec fn p_if_chain(toks: Seq<TokenModel>, i: int) -> Option<(StmtModel, int)>
    decreases toks.len() - i, 2int,
{
    let n = toks.len() as int;
    if tok(toks, i).kind == TokenKind::IfToken && 0 <= i < n {
        match p_expression(toks, i + 1, 0) {
            Some((c, j0)) => {
                let j = norm_pos(i + 1, j0, n);
                match p_block(toks, j) {
                    Some((tb, j2)) => {
                        let j3 = norm_pos(i, j2, n);
                        match p_else_ifs(toks, j3) {
                            Some((pairs, eb, j4)) => Some((StmtModel::IfElse(c, tb, pairs, eb), j4)),
                            None => None,
                        }
                    },
                    None => None,
                }
            },
            None => None,
        }
    } else {
        None
    }
}

/// One statement, chosen by its first token (and for an identifier by the
/// token after it).
pub open spec fn p_statement(toks: Seq<TokenModel>, i: int) -> Option<(StmtModel, int)>
    decreases toks.len() - i, 3int,
{
    if i < 0 || i >= toks.len() {
        None
    } else {
        let k = tok(toks, i).kind;
        if k == TokenKind::LetToken {
            p_declaration(toks, i)
        } else if k == TokenKind::ReturnToken {
            p_return(toks, i)
        } else if k == TokenKind::IfToken {
            p_if_chain(toks, i)
        } else if k == TokenKind::WhileToken {
            p_while(toks, i)
        } else if k == TokenKind::BreakToken {
            if tok(toks, i + 1).kind == TokenKind::SemicolonToken {
                Some((StmtModel::Break, i + 2))
            } else {
                None
            }
        } else if k == TokenKind::ContinueToken {
            if tok(toks, i + 1).kind == TokenKind::SemicolonToken {
                Some((StmtModel::Continue, i + 2))
            } else {
                None
            }
        } else if k == TokenKind::IdentifierToken {
            if tok(toks, i + 1).kind == TokenKind::EqualToken {
                p_assignment(toks, i)
            } else if tok(toks, i + 1).kind == TokenKind::OpenParenthesisToken {
                p_call_stmt(toks, i)
            } else {
                None
            }
        } else {
            None
        }
    }
}

/// The statements of a block, up to (not including) the closing brace.
pub open spec fn p_stmts(toks: Seq<TokenModel>, i: int) -> Option<(Seq<StmtModel>, int)>
    decreases toks.len() - i, 4int,
{
    let n = toks.len() as int;
    if i < 0 || i > n {
        None
    } else if i == n || tok(toks, i).kind == TokenKind::CurlyCloseBracketToken {
        Some((Seq::empty(), i))
    } else {
        match p_statement(toks, i) {
            Some((s, j0)) => {
                let j = norm_pos(i, j0, n);
                match p_stmts(toks, j) {
                    Some((rest, j2)) => Some((seq![s] + rest, j2)),
                    None => None,
                }
            },
            None => None,
        }
    }
}

/// A block: `{ statement* }`.
pub open spec fn p_block(toks: Seq<TokenModel>, i: int) -> Option<(Seq<StmtModel>, int)>
    decreases toks.len() - i, 1int,
{
    if i < 0 || i >= toks.len() {
        None
    } else if tok(toks, i).kind != TokenKind::CurlyOpenBracketToken {
        None
    } else {
        match p_stmts(toks, i + 1) {
            Some((ss, j)) => {
                if tok(toks, j).kind == TokenKind::CurlyCloseBracketToken {
                    Some((ss, j + 1))
                } else {
                    None
                }
            },
            None => None,
        }
    }
}

// ---------------------------------------------------------------------------
// Functions and programs
// ---------------------------------------------------------------------------

/// Type names allowed for parameters and declared return types.
pub open spec fn is_data_type_name(text: Seq<char>) -> bool {
    text == "int"@ || text == "float"@ || text == "string"@
}

/// The formal parameter list between the parentheses of a function header.
/// A comma is consumed only where an identifier follows it directly.
pub open spec fn p_params_list(toks: Seq<TokenModel>, i: int) -> Option<(Seq<ParamModel>, int)>
    decreases toks.len() - i,
{
    let n = toks.len() as int;
    if i < 0 || i > n {
        None
    } else if i == n || tok(toks, i).kind == TokenKind::CloseParenthesisToken {
        Some((Seq::empty(), i))
    } else if tok(toks, i).kind == TokenKind::IdentifierToken && tok(toks, i + 1).kind
        == TokenKind::ColonToken && tok(toks, i + 2).kind == TokenKind::DataTypeToken
        && is_data_type_name(tok(toks, i + 2).text) {
        let p = ParamModel { name: tok(toks, i), ty: tok(toks, i + 2) };
        let j = if tok(toks, i + 3).kind == TokenKind::CommaToken && tok(toks, i + 4).kind
            == TokenKind::IdentifierToken {
            i + 4
        } else {
            i + 3
        };
        match p_params_list(toks, j) {
            Some((rest, j2)) => Some((seq![p] + rest, j2)),
            None => None,
        }
    } else {
        None
    }
}

/// One function definition: `fun IDENT ( params ) (: TYPE)? block`. The
/// return type annotation names one of the data types; a void return type
/// is written by leaving the annotation off.
pub open spec fn p_function(toks: Seq<TokenModel>, i: int) -> Option<(FunctionModel, int)>
    decreases toks.len() - i, 0int,
{
    let n = toks.len() as int;
    if 0 <= i < n && tok(toks, i).kind == TokenKind::FunToken && tok(toks, i + 1).kind
        == TokenKind::IdentifierToken && tok(toks, i + 2).kind
        == TokenKind::OpenParenthesisToken {
        match p_params_list(toks, i + 3) {
            Some((ps, jp)) => {
                if tok(toks, jp).kind == TokenKind::CloseParenthesisToken {
                    let ja = jp + 1;
                    if tok(toks, ja).kind == TokenKind::ColonToken {
                        if tok(toks, ja + 1).kind == TokenKind::DataTypeToken
                            && is_data_type_name(tok(toks, ja + 1).text) {
                            match p_block(toks, ja + 2) {
                                Some((b, j2)) => Some(
                                    (
                                        FunctionModel {
                                            name: tok(toks, i + 1),
                                            return_type: Some(
                                                spec_type_of_name(tok(toks, ja + 1)),
                                            ),
                                            parameters: ps,
                                            body: b,
                                        },
                                        j2,
                                    ),
                                ),
                                None => None,
                            }
                        } else {
                            None
                        }
                    } else {
                        match p_block(toks, ja) {
                            Some((b, j2)) => Some(
                                (
                                    FunctionModel {
                                        name: tok(toks, i + 1),
                                        return_type: None,
                                        parameters: ps,
                                        body: b,
                                    },
                                    j2,
                                ),
                            ),
                            None => None,
                        }
                    }
                } else {
                    None
                }
            },
            None => None,
        }
    } else {
        None
    }
}

/// The functions of a program, parsed until the token stream is exhausted.
pub open spec fn p_functions(toks: Seq<TokenModel>, i: int) -> Option<(Seq<FunctionModel>, int)>
    decreases toks.len() - i, 1int,
{
    let n = toks.len() as int;
    if i < 0 || i > n {
        None
    } else if i == n {
        Some((Seq::empty(), i))
    } else {
        match p_function(toks, i) {
            Some((f, j0)) => {
                let j = norm_pos(i, j0, n);
                match p_functions(toks, j) {
                    Some((rest, j2)) => Some((seq![f] + rest, j2)),
                    None => None,
                }
            },
            None => None,
        }
    }
}

/// The whole program a token stream parses to, if any.
pub open spec fn p_program(toks: Seq<TokenModel>) -> Option<ProgramModel> {
    match p_functions(toks, 0) {
        Some((fs, _)) => Some(ProgramModel { functions: fs }),
        None => None,
    }
}

/// What parsing a source text yields: the token stream must be free of
/// lexical errors, and the kept tokens must form a program.
pub open spec fn parse_spec(text: Seq<char>) -> Option<ProgramModel> {
    if lex_diagnostics_spec(text).len() > 0 {
        None
    } else {
        p_program(lex_spec(text))
    }
}

// ---------------------------------------------------------------------------
// The executable parser
// ---------------------------------------------------------------------------

/// The models of a token list.
pub open spec fn token_views(s: Seq<SyntaxToken>) -> Seq<TokenModel> {
    s.map_values(|t: SyntaxToken| t@)
}

/// The models of a parameter list.
pub open spec fn param_views(s: Seq<ParameterNode>) -> Seq<ParamModel> {
    s.map_values(|p: ParameterNode| p@)
}

/// The models of a function list.
pub open spec fn func_views(s: Seq<FunctionNode>) -> Seq<FunctionModel> {
    s.map_values(|f: FunctionNode| f@)
}

/// The sentinel token handed out past the end of the stream.
fn new_eof_token() -> (r: SyntaxToken)
    ensures
        r@ == eof_token_model(),
{
    SyntaxToken::new(
        TokenKind::EndOfFileToken,
        TextSpan { start: 0, end: 0, line_no: 1, col_no: 1 },
        "\0".to_owned(),
    )
}

/// The kind of the token at `i`, or the end-of-file kind past the end.
fn kind_at(tokens: &Vec<SyntaxToken>, i: usize) -> (r: TokenKind)
    ensures
        r == tok(token_views(tokens@), i as int).kind,
{
    proof {
        assert(token_views(tokens@).len() == tokens@.len());
    }
    if i < tokens.len() {
        tokens[i].kind
    } else {
        TokenKind::EndOfFileToken
    }
}

/// The token at `i`, or the end-of-file sentinel past the end.
fn token_at(tokens: &Vec<SyntaxToken>, i: usize) -> (r: SyntaxToken)
    ensures
        r@ == tok(token_views(tokens@), i as int),
{
    proof {
        assert(token_views(tokens@).len() == tokens@.len());
    }
    if i < tokens.len() {
        tokens[i].clone()
    } else {
        new_eof_token()
    }
}

/// A parse diagnostic at the token at `i`.
fn parse_error_at(tokens: &Vec<SyntaxToken>, i: usize) -> (r: Diagnostic)
    ensures
        r@.kind == DiagnosticKind::ParseError,
{
    let t = token_at(tokens, i);
    let mut m = "unexpected token '".to_owned();
    m.append(t.text.as_str());
    m.append("'");
    Diagnostic::new(DiagnosticKind::ParseError, m, t.position.line_no, t.position.col_no)
}

/// Parses an expression under a parent binding strength.
fn parse_expression(tokens: &Vec<SyntaxToken>, pos: &mut usize, parent_prec: i32) -> (r: Result<
    ExpressionNode,
    Diagnostic,
>)
    requires
        tokens@.len() < crate::line_text::max_source_len(),
        *old(pos) <= tokens@.len(),
    ensures
        match p_expression(token_views(tokens@), *old(pos) as int, parent_prec as int) {
            Some((e, j)) => r is Ok && r->Ok_0@ == e && *final(pos) == j,
            None => r is Err,
        },
        r is Err ==> r->Err_0@.kind == DiagnosticKind::ParseError,
        *old(pos) <= *final(pos) <= tokens@.len(),
        r is Ok ==> *old(pos) < *final(pos),
    decreases tokens@.len() - *pos, 3int, 0int,
{
    let ghost toks = token_views(tokens@);
    let ghost i = *pos as int;
    proof {
        assert(toks.len() == tokens@.len());
    }
    if *pos >= tokens.len() {
        return Err(parse_error_at(tokens, *pos));
    }
    let k = kind_at(tokens, *pos);
    let up = k.get_unary_precedence();
    let first = if up != 0 && up >= parent_prec {
        let op = token_at(tokens, *pos);
        *pos = *pos + 1;
        match parse_expression(tokens, pos, up) {
            Ok(operand) => Ok(ExpressionNode::Unary(op, Box::new(operand))),
            Err(e) => Err(e),
        }
    } else {
        parse_primary_expression(tokens, pos)
    };
    match first {
        Ok(left) => parse_expr_loop(tokens, pos, left, parent_prec),
        Err(e) => Err(e),
    }
}

/// Folds binary operators stronger than the parent into `left`.
fn parse_expr_loop(
    tokens: &Vec<SyntaxToken>,
    pos: &mut usize,
    left: ExpressionNode,
    parent_prec: i32,
) -> (r: Result<ExpressionNode, Diagnostic>)
    requires
        tokens@.len() < crate::line_text::max_source_len(),
        *old(pos) <= tokens@.len(),
    ensures
        match p_expr_loop(token_views(tokens@), left@, *old(pos) as int, parent_prec as int) {
            Some((e, j)) => r is Ok && r->Ok_0@ == e && *final(pos) == j,
            None => r is Err,
        },
        r is Err ==> r->Err_0@.kind == DiagnosticKind::ParseError,
        *old(pos) <= *final(pos) <= tokens@.len(),
    decreases tokens@.len() - *pos, 0int, 0int,
{
    let ghost toks = token_views(tokens@);
    proof {
        assert(toks.len() == tokens@.len());
    }
    if *pos >= tokens.len() {
        return Ok(left);
    }
    let k = kind_at(tokens, *pos);
    let prec = k.get_binary_precedence();
    if prec == 0 || prec <= parent_prec {
        return Ok(left);
    }
    let op = token_at(tokens, *pos);
    *pos = *pos + 1;
    match parse_expression(tokens, pos, prec) {
        Ok(right) => {
            let folded = ExpressionNode::Binary(Box::new(left), op, Box::new(right));
            parse_expr_loop(tokens, pos, folded, parent_prec)
        },
        Err(e) => Err(e),
    }
}

/// Parses a primary expression: a parenthesized expression, an identifier
/// or call, or a numeric literal.
fn parse_primary_expression(tokens: &Vec<SyntaxToken>, pos: &mut usize) -> (r: Result<
    ExpressionNode,
    Diagnostic,
>)
    requires
        tokens@.len() < crate::line_text::max_source_len(),
        *old(pos) <= tokens@.len(),
    ensures
        match p_primary(token_views(tokens@), *old(pos) as int) {
            Some((e, j)) => r is Ok && r->Ok_0@ == e && *final(pos) == j,
            None => r is Err,
        },
        r is Err ==> r->Err_0@.kind == DiagnosticKind::ParseError,
        *old(pos) <= *final(pos) <= tokens@.len(),
        r is Ok ==> *old(pos) < *final(pos),
    decreases tokens@.len() - *pos, 2int, 0int,
{
    let ghost toks = token_views(tokens@);
    proof {
        assert(toks.len() == tokens@.len());
    }
    if *pos >= tokens.len() {
        return Err(parse_error_at(tokens, *pos));
    }
    let k = kind_at(tokens, *pos);
    if k == TokenKind::OpenParenthesisToken {
        *pos = *pos + 1;
        match parse_expression(tokens, pos, 0) {
            Ok(inner) => {
                if kind_at(tokens, *pos) == TokenKind::CloseParenthesisToken {
                    *pos = *pos + 1;
                    Ok(ExpressionNode::Parenthesized(Box::new(inner)))
                } else {
                    Err(parse_error_at(tokens, *pos))
                }
            },
            Err(e) => Err(e),
        }
    } else if k == TokenKind::IdentifierToken {
        if kind_at(tokens, *pos + 1) == TokenKind::OpenParenthesisToken {
            parse_invocation_expression(tokens, pos)
        } else {
            let t = token_at(tokens, *pos);
            *pos = *pos + 1;
            Ok(ExpressionNode::Identifier(t))
        }
    } else if k == TokenKind::NumberToken {
        let t = token_at(tokens, *pos);
        *pos = *pos + 1;
        if str_contains_dot(t.text.as_str()) {
            Ok(ExpressionNode::Literal(TypeLiteral::Float(t)))
        } else {
            Ok(ExpressionNode::Literal(TypeLiteral::Integer(t)))
        }
    } else {
        Err(parse_error_at(tokens, *pos))
    }
}

/// Whether a lexeme contains a decimal point.
fn str_contains_dot(s: &str) -> (r: bool)
    ensures
        r == s@.contains('.'),
{
    let n = s.unicode_len();
    let mut i: usize = 0;
    while i < n
        invariant
            n == s@.len(),
            0 <= i <= n,
            forall|j: int| 0 <= j < i ==> s@[j] != '.',
        decreases n - i,
    {
        if s.get_char(i) == '.' {
            proof {
                assert(s@[i as int] == '.');
            }
            return true;
        }
        i = i + 1;
    }
    proof {
        assert(!s@.contains('.'));
    }
    false
}

/// Parses a call expression: name, parenthesized comma separated
/// arguments.
fn parse_invocation_expression(tokens: &Vec<SyntaxToken>, pos: &mut usize) -> (r: Result<
    ExpressionNode,
    Diagnostic,
>)
    requires
        tokens@.len() < crate::line_text::max_source_len(),
        *old(pos) <= tokens@.len(),
    ensures
        match p_invocation(token_views(tokens@), *old(pos) as int) {
            Some((e, j)) => r is Ok && r->Ok_0@ == e && *final(pos) == j,
            None => r is Err,
        },
        r is Err ==> r->Err_0@.kind == DiagnosticKind::ParseError,
        *old(pos) <= *final(pos) <= tokens@.len(),
        r is Ok ==> *old(pos) < *final(pos),
    decreases tokens@.len() - *pos, 1int, 0int,
{
    let ghost toks = token_views(tokens@);
    proof {
        assert(toks.len() == tokens@.len());
    }
    if *pos + 2 > tokens.len() {
        return Err(parse_error_at(tokens, *pos));
    }
    if kind_at(tokens, *pos) == TokenKind::IdentifierToken && kind_at(tokens, *pos + 1)
        == TokenKind::OpenParenthesisToken {
        let name = token_at(tokens, *pos);
        *pos = *pos + 2;
        match parse_args(tokens, pos) {
            Ok(args) => {
                if kind_at(tokens, *pos) == TokenKind::CloseParenthesisToken {
                    *pos = *pos + 1;
                    Ok(ExpressionNode::FunctionCall(name, args))
                } else {
                    Err(parse_error_at(tokens, *pos))
                }
            },
            Err(e) => Err(e),
        }
    } else {
        Err(parse_error_at(tokens, *pos))
    }
}

/// Parses the argument list of a call, stopping before the closing
/// parenthesis.
fn parse_args(tokens: &Vec<SyntaxToken>, pos: &mut usize) -> (r: Result<
    Vec<ExpressionNode>,
    Diagnostic,
>)
    requires
        tokens@.len() < crate::line_text::max_source_len(),
        *old(pos) <= tokens@.len(),
    ensures
        match p_args(token_views(tokens@), *old(pos) as int) {
            Some((args, j)) => r is Ok && crate::syntax_node::exprs_model(r->Ok_0@) == args
                && *final(pos) == j,
            None => r is Err,
        },
        r is Err ==> r->Err_0@.kind == DiagnosticKind::ParseError,
        *old(pos) <= *final(pos) <= tokens@.len(),
    decreases tokens@.len() - *pos, 4int, 0int,
{
    let ghost toks = token_views(tokens@);
    proof {
        assert(toks.len() == tokens@.len());
    }
    if *pos >= tokens.len() || kind_at(tokens, *pos) == TokenKind::CloseParenthesisToken {
        let r: Vec<ExpressionNode> = Vec::new();
        proof {
            assert(crate::syntax_node::exprs_model(r@) =~= Seq::<ExprModel>::empty());
        }
        return Ok(r);
    }
    match parse_expression(tokens, pos, 0) {
        Ok(arg) => {
            let ghost arg_m = arg@;
            if kind_at(tokens, *pos) == TokenKind::CommaToken && kind_at(tokens, *pos + 1)
                != TokenKind::CloseParenthesisToken {
                *pos = *pos + 1;
            }
            match parse_args(tokens, pos) {
                Ok(mut rest) => {
                    let ghost rest0 = rest@;
                    let ghost rest_m = crate::syntax_node::exprs_model(rest@);
                    rest.insert(0, arg);
                    proof {
                        crate::syntax_node::lemma_exprs_model_index(rest0);
                        crate::syntax_node::lemma_exprs_model_index(rest@);
                        assert(rest@.drop_first() =~= rest0);
                        assert forall|q: int|
                            0 <= q < rest@.len() implies crate::syntax_node::exprs_model(rest@)[q]
                            == (seq![arg_m] + rest_m)[q] by {
                            if q > 0 {
                                assert(rest@[q] == rest0[q - 1]);
                            } else {
                                assert(rest@[0] == arg);
                            }
                        }
                        assert(crate::syntax_node::exprs_model(rest@) =~= seq![arg_m] + rest_m);
                    }
                    Ok(rest)
                },
                Err(e) => Err(e),
            }
        },
        Err(e) => Err(e),
    }
}

/// Decides whether a token names a data type usable for parameters and
/// return annotations.
fn is_data_type_token(t: &SyntaxToken) -> (r: bool)
    ensures
        r == (t@.kind == TokenKind::DataTypeToken && is_data_type_name(t@.text)),
{
    t.kind == TokenKind::DataTypeToken && (str_eq_check(t.text.as_str(), "int") || str_eq_check(
        t.text.as_str(),
        "float",
    ) || str_eq_check(t.text.as_str(), "string"))
}

use crate::syntax_node::str_eq_check;

/// Parses a declaration statement.
fn parse_declaration(tokens: &Vec<SyntaxToken>, pos: &mut usize) -> (r: Result<
    StatementNode,
    Diagnostic,
>)
    requires
        tokens@.len() < crate::line_text::max_source_len(),
        *old(pos) <= tokens@.len(),
    ensures
        match p_declaration(token_views(tokens@), *old(pos) as int) {
            Some((s, j)) => r is Ok && r->Ok_0@ == s && *final(pos) == j,
            None => r is Err,
        },
        r is Err ==> r->Err_0@.kind == DiagnosticKind::ParseError,
        *old(pos) <= *final(pos) <= tokens@.len(),
        r is Ok ==> *old(pos) < *final(pos),
    decreases tokens@.len() - *pos, 0int,
{
    let ghost toks = token_views(tokens@);
    proof {
        assert(toks.len() == tokens@.len());
    }
    if kind_at(tokens, *pos) == TokenKind::LetToken && kind_at(tokens, *pos + 1)
        == TokenKind::IdentifierToken && kind_at(tokens, *pos + 2) == TokenKind::EqualToken {
        let name = token_at(tokens, *pos + 1);
        *pos = *pos + 3;
        match parse_expression(tokens, pos, 0) {
            Ok(e) => {
                if kind_at(tokens, *pos) == TokenKind::SemicolonToken {
                    *pos = *pos + 1;
                    Ok(StatementNode::Declaration(name, e))
                } else {
                    Err(parse_error_at(tokens, *pos))
                }
            },
            Err(e) => Err(e),
        }
    } else {
        Err(parse_error_at(tokens, *pos))
    }
}

/// Parses an assignment statement.
fn parse_assignment(tokens: &Vec<SyntaxToken>, pos: &mut usize) -> (r: Result<
    StatementNode,
    Diagnostic,
>)
    requires
        tokens@.len() < crate::line_text::max_source_len(),
        *old(pos) <= tokens@.len(),
    ensures
        match p_assignment(token_views(tokens@), *old(pos) as int) {
            Some((s, j)) => r is Ok && r->Ok_0@ == s && *final(pos) == j,
            None => r is Err,
        },
        r is Err ==> r->Err_0@.kind == DiagnosticKind::ParseError,
        *old(pos) <= *final(pos) <= tokens@.len(),
        r is Ok ==> *old(pos) < *final(pos),
    decreases tokens@.len() - *pos, 0int,
{
    let ghost toks = token_views(tokens@);
    proof {
        assert(toks.len() == tokens@.len());
    }
    if kind_at(tokens, *pos) == TokenKind::IdentifierToken && kind_at(tokens, *pos + 1)
        == TokenKind::EqualToken {
        let name = token_at(tokens, *pos);
        *pos = *pos + 2;
        match parse_expression(tokens, pos, 0) {
            Ok(e) => {
                if kind_at(tokens, *pos) == TokenKind::SemicolonToken {
                    *pos = *pos + 1;
                    Ok(StatementNode::Assignment(name, e))
                } else {
                    Err(parse_error_at(tokens, *pos))
                }
            },
            Err(e) => Err(e),
        }
    } else {
        Err(parse_error_at(tokens, *pos))
    }
}

/// Parses a return statement.
fn parse_return(tokens: &Vec<SyntaxToken>, pos: &mut usize) -> (r: Result<
    StatementNode,
    Diagnostic,
>)
    requires
        tokens@.len() < crate::line_text::max_source_len(),
        *old(pos) <= tokens@.len(),
    ensures
        match p_return(token_views(tokens@), *old(pos) as int) {
            Some((s, j)) => r is Ok && r->Ok_0@ == s && *final(pos) == j,
            None => r is Err,
        },
        r is Err ==> r->Err_0@.kind == DiagnosticKind::ParseError,
        *old(pos) <= *final(pos) <= tokens@.len(),
        r is Ok ==> *old(pos) < *final(pos),
    decreases tokens@.len() - *pos, 0int,
{
    let ghost toks = token_views(tokens@);
    proof {
        assert(toks.len() == tokens@.len());
    }
    if kind_at(tokens, *pos) == TokenKind::ReturnToken {
        if kind_at(tokens, *pos + 1) == TokenKind::SemicolonToken {
            *pos = *pos + 2;
            Ok(StatementNode::Return(None))
        } else {
            *pos = *pos + 1;
            match parse_expression(tokens, pos, 0) {
                Ok(e) => {
                    if kind_at(tokens, *pos) == TokenKind::SemicolonToken {
                        *pos = *pos + 1;
                        Ok(StatementNode::Return(Some(e)))
                    } else {
                        Err(parse_error_at(tokens, *pos))
                    }
                },
                Err(e) => Err(e),
            }
        }
    } else {
        Err(parse_error_at(tokens, *pos))
    }
}

/// Parses a call statement: a call expression and its semicolon.
fn parse_call_stmt(tokens: &Vec<SyntaxToken>, pos: &mut usize) -> (r: Result<
    StatementNode,
    Diagnostic,
>)
    requires
        tokens@.len() < crate::line_text::max_source_len(),
        *old(pos) <= tokens@.len(),
    ensures
        match p_call_stmt(token_views(tokens@), *old(pos) as int) {
            Some((s, j)) => r is Ok && r->Ok_0@ == s && *final(pos) == j,
            None => r is Err,
        },
        r is Err ==> r->Err_0@.kind == DiagnosticKind::ParseError,
        *old(pos) <= *final(pos) <= tokens@.len(),
        r is Ok ==> *old(pos) < *final(pos),
    decreases tokens@.len() - *pos, 0int,
{
    let ghost toks = token_views(tokens@);
    proof {
        assert(toks.len() == tokens@.len());
    }
    match parse_invocation_expression(tokens, pos) {
        Ok(e) => {
            match e {
                ExpressionNode::FunctionCall(name, args) => {
                    if kind_at(tokens, *pos) == TokenKind::SemicolonToken {
                        *pos = *pos + 1;
                        Ok(StatementNode::FunctionInvocation(name, args))
                    } else {
                        Err(parse_error_at(tokens, *pos))
                    }
                },
                _ => Err(parse_error_at(tokens, *pos)),
            }
        },
        Err(e) => Err(e),
    }
}

/// Parses a while statement.
fn parse_while(tokens: &Vec<SyntaxToken>, pos: &mut usize) -> (r: Result<
    StatementNode,
    Diagnostic,
>)
    requires
        tokens@.len() < crate::line_text::max_source_len(),
        *old(pos) <= tokens@.len(),
    ensures
        match p_while(token_views(tokens@), *old(pos) as int) {
            Some((s, j)) => r is Ok && r->Ok_0@ == s && *final(pos) == j,
            None => r is Err,
        },
        r is Err ==> r->Err_0@.kind == DiagnosticKind::ParseError,
        *old(pos) <= *final(pos) <= tokens@.len(),
        r is Ok ==> *old(pos) < *final(pos),
    decreases tokens@.len() - *pos, 0int,
{
    let ghost toks = token_views(tokens@);
    proof {
        assert(toks.len() == tokens@.len());
    }
    if kind_at(tokens, *pos) == TokenKind::WhileToken && *pos < tokens.len() {
        *pos = *pos + 1;
        match parse_expression(tokens, pos, 0) {
            Ok(c) => {
                match parse_block(tokens, pos) {
                    Ok(b) => Ok(StatementNode::While(c, b)),
                    Err(e) => Err(e),
                }
            },
            Err(e) => Err(e),
        }
    } else {
        Err(parse_error_at(tokens, *pos))
    }
}

/// Parses the else-if and else continuation of an if chain.
fn parse_else_ifs(tokens: &Vec<SyntaxToken>, pos: &mut usize) -> (r: Result<
    (Vec<(ExpressionNode, Vec<StatementNode>)>, Option<Vec<StatementNode>>),
    Diagnostic,
>)
    requires
        tokens@.len() < crate::line_text::max_source_len(),
        *old(pos) <= tokens@.len(),
    ensures
        match p_else_ifs(token_views(tokens@), *old(pos) as int) {
            Some((pairs, eb, j)) => r is Ok && crate::syntax_node::branch_pairs_model(r->Ok_0.0@)
                == pairs && *final(pos) == j && (match (r->Ok_0.1, eb) {
                (Some(b), Some(bm)) => crate::syntax_node::stmts_model(b@) == bm,
                (None, None) => true,
                _ => false,
            }),
            None => r is Err,
        },
        r is Err ==> r->Err_0@.kind == DiagnosticKind::ParseError,
        *old(pos) <= *final(pos) <= tokens@.len(),
    decreases tokens@.len() - *pos, 0int,
{
    let ghost toks = token_views(tokens@);
    proof {
        assert(toks.len() == tokens@.len());
    }
    if *pos >= tokens.len() {
        let empty_pairs: Vec<(ExpressionNode, Vec<StatementNode>)> = Vec::new();
        proof {
            assert(crate::syntax_node::branch_pairs_model(empty_pairs@) =~= Seq::<
                (ExprModel, Seq<StmtModel>),
            >::empty());
        }
        return Ok((empty_pairs, None));
    }
    if kind_at(tokens, *pos) == TokenKind::ElseToken && kind_at(tokens, *pos + 1)
        == TokenKind::IfToken {
        *pos = *pos + 2;
        match parse_expression(tokens, pos, 0) {
            Ok(c) => {
                let ghost c_m = c@;
                match parse_block(tokens, pos) {
                    Ok(b) => {
                        let ghost b_m = crate::syntax_node::stmts_model(b@);
                        match parse_else_ifs(tokens, pos) {
                            Ok((mut rest, eb)) => {
                                let ghost rest0 = rest@;
                                let ghost rest_m = crate::syntax_node::branch_pairs_model(rest@);
                                let pair = (c, b);
                                let ghost pair0 = pair;
                                rest.insert(0, pair);
                                proof {
                                    crate::syntax_node::lemma_branch_pairs_model_index(rest0);
                                    crate::syntax_node::lemma_branch_pairs_model_index(rest@);
                                    assert(crate::syntax_node::expr_model(pair0.0) == c_m);
                                    assert(crate::syntax_node::stmts_model(pair0.1@) == b_m);
                                    assert forall|q: int|
                                        0 <= q < rest@.len()
                                            implies crate::syntax_node::branch_pairs_model(
                                        rest@,
                                    )[q] == (seq![(c_m, b_m)] + rest_m)[q] by {
                                        if q > 0 {
                                            assert(rest@[q] == rest0[q - 1]);
                                            assert(rest@[q].0 == rest0[q - 1].0);
                                        } else {
                                            assert(rest@[0] == pair0);
                                            assert(rest@[0].0 == pair0.0);
                                            assert(rest@[0].1 == pair0.1);
                                        }
                                    }
                                    assert(crate::syntax_node::branch_pairs_model(rest@) =~= seq![
                                        (c_m, b_m),
                                    ] + rest_m);
                                }
                                Ok((rest, eb))
                            },
                            Err(e) => Err(e),
                        }
                    },
                    Err(e) => Err(e),
                }
            },
            Err(e) => Err(e),
        }
    } else if kind_at(tokens, *pos) == TokenKind::ElseToken {
        *pos = *pos + 1;
        match parse_block(tokens, pos) {
            Ok(b) => {
                let empty_pairs: Vec<(ExpressionNode, Vec<StatementNode>)> = Vec::new();
                proof {
                    assert(crate::syntax_node::branch_pairs_model(empty_pairs@) =~= Seq::<
                        (ExprModel, Seq<StmtModel>),
                    >::empty());
                }
                Ok((empty_pairs, Some(b)))
            },
            Err(e) => Err(e),
        }
    } else {
        let empty_pairs: Vec<(ExpressionNode, Vec<StatementNode>)> = Vec::new();
        proof {
            assert(crate::syntax_node::branch_pairs_model(empty_pairs@) =~= Seq::<
                (ExprModel, Seq<StmtModel>),
            >::empty());
        }
        Ok((empty_pairs, None))
    }
}

/// Parses an if chain.
fn parse_if_chain(tokens: &Vec<SyntaxToken>, pos: &mut usize) -> (r: Result<
    StatementNode,
    Diagnostic,
>)
    requires
        tokens@.len() < crate::line_text::max_source_len(),
        *old(pos) <= tokens@.len(),
    ensures
        match p_if_chain(token_views(tokens@), *old(pos) as int) {
            Some((s, j)) => r is Ok && r->Ok_0@ == s && *final(pos) == j,
            None => r is Err,
        },
        r is Err ==> r->Err_0@.kind == DiagnosticKind::ParseError,
        *old(pos) <= *final(pos) <= tokens@.len(),
        r is Ok ==> *old(pos) < *final(pos),
    decreases tokens@.len() - *pos, 2int,
{
    let ghost toks = token_views(tokens@);
    proof {
        assert(toks.len() == tokens@.len());
    }
    if kind_at(tokens, *pos) == TokenKind::IfToken && *pos < tokens.len() {
        *pos = *pos + 1;
        match parse_expression(tokens, pos, 0) {
            Ok(c) => {
                match parse_block(tokens, pos) {
                    Ok(tb) => {
                        match parse_else_ifs(tokens, pos) {
                            Ok((pairs, eb)) => Ok(StatementNode::IfElse(c, tb, pairs, eb)),
                            Err(e) => Err(e),
                        }
                    },
                    Err(e) => Err(e),
                }
            },
            Err(e) => Err(e),
        }
    } else {
        Err(parse_error_at(tokens, *pos))
    }
}

/// Parses one statement.
fn parse_statement(tokens: &Vec<SyntaxToken>, pos: &mut usize) -> (r: Result<
    StatementNode,
    Diagnostic,
>)
    requires
        tokens@.len() < crate::line_text::max_source_len(),
        *old(pos) <= tokens@.len(),
    ensures
        match p_statement(token_views(tokens@), *old(pos) as int) {
            Some((s, j)) => r is Ok && r->Ok_0@ == s && *final(pos) == j,
            None => r is Err,
        },
        r is Err ==> r->Err_0@.kind == DiagnosticKind::ParseError,
        *old(pos) <= *final(pos) <= tokens@.len(),
        r is Ok ==> *old(pos) < *final(pos),
    decreases tokens@.len() - *pos, 3int,
{
    let ghost toks = token_views(tokens@);
    proof {
        assert(toks.len() == tokens@.len());
    }
    if *pos >= tokens.len() {
        return Err(parse_error_at(tokens, *pos));
    }
    let k = kind_at(tokens, *pos);
    if k == TokenKind::LetToken {
        parse_declaration(tokens, pos)
    } else if k == TokenKind::ReturnToken {
        parse_return(tokens, pos)
    } else if k == TokenKind::IfToken {
        parse_if_chain(tokens, pos)
    } else if k == TokenKind::WhileToken {
        parse_while(tokens, pos)
    } else if k == TokenKind::BreakToken {
        if kind_at(tokens, *pos + 1) == TokenKind::SemicolonToken {
            *pos = *pos + 2;
            Ok(StatementNode::Break)
        } else {
            Err(parse_error_at(tokens, *pos))
        }
    } else if k == TokenKind::ContinueToken {
        if kind_at(tokens, *pos + 1) == TokenKind::SemicolonToken {
            *pos = *pos + 2;
            Ok(StatementNode::Continue)
        } else {
            Err(parse_error_at(tokens, *pos))
        }
    } else if k == TokenKind::IdentifierToken {
        if kind_at(tokens, *pos + 1) == TokenKind::EqualToken {
            parse_assignment(tokens, pos)
        } else if kind_at(tokens, *pos + 1) == TokenKind::OpenParenthesisToken {
            parse_call_stmt(tokens, pos)
        } else {
            Err(parse_error_at(tokens, *pos))
        }
    } else {
        Err(parse_error_at(tokens, *pos))
    }
}

/// Parses statements until a closing brace or the end of the stream.
fn parse_stmts(tokens: &Vec<SyntaxToken>, pos: &mut usize) -> (r: Result<
    Vec<StatementNode>,
    Diagnostic,
>)
    requires
        tokens@.len() < crate::line_text::max_source_len(),
        *old(pos) <= tokens@.len(),
    ensures
        match p_stmts(token_views(tokens@), *old(pos) as int) {
            Some((ss, j)) => r is Ok && crate::syntax_node::stmts_model(r->Ok_0@) == ss
                && *final(pos) == j,
            None => r is Err,
        },
        r is Err ==> r->Err_0@.kind == DiagnosticKind::ParseError,
        *old(pos) <= *final(pos) <= tokens@.len(),
    decreases tokens@.len() - *pos, 4int,
{
    let ghost toks = token_views(tokens@);
    proof {
        assert(toks.len() == tokens@.len());
    }
    if *pos >= tokens.len() || kind_at(tokens, *pos) == TokenKind::CurlyCloseBracketToken {
        let r: Vec<StatementNode> = Vec::new();
        proof {
            assert(crate::syntax_node::stmts_model(r@) =~= Seq::<StmtModel>::empty());
        }
        return Ok(r);
    }
    match parse_statement(tokens, pos) {
        Ok(s) => {
            let ghost s_m = s@;
            match parse_stmts(tokens, pos) {
                Ok(mut rest) => {
                    let ghost rest0 = rest@;
                    let ghost rest_m = crate::syntax_node::stmts_model(rest@);
                    rest.insert(0, s);
                    proof {
                        crate::syntax_node::lemma_stmts_model_index(rest0);
                        crate::syntax_node::lemma_stmts_model_index(rest@);
                        assert forall|q: int|
                            0 <= q < rest@.len() implies crate::syntax_node::stmts_model(rest@)[q]
                            == (seq![s_m] + rest_m)[q] by {
                            if q > 0 {
                                assert(rest@[q] == rest0[q - 1]);
                            } else {
                                assert(rest@[0] == s);
                            }
                        }
                        assert(crate::syntax_node::stmts_model(rest@) =~= seq![s_m] + rest_m);
                    }
                    Ok(rest)
                },
                Err(e) => Err(e),
            }
        },
        Err(e) => Err(e),
    }
}

/// Parses a block.
fn parse_block(tokens: &Vec<SyntaxToken>, pos: &mut usize) -> (r: Result<
    Vec<StatementNode>,
    Diagnostic,
>)
    requires
        tokens@.len() < crate::line_text::max_source_len(),
        *old(pos) <= tokens@.len(),
    ensures
        match p_block(token_views(tokens@), *old(pos) as int) {
            Some((ss, j)) => r is Ok && crate::syntax_node::stmts_model(r->Ok_0@) == ss
                && *final(pos) == j,
            None => r is Err,
        },
        r is Err ==> r->Err_0@.kind == DiagnosticKind::ParseError,
        *old(pos) <= *final(pos) <= tokens@.len(),
        r is Ok ==> *old(pos) < *final(pos),
    decreases tokens@.len() - *pos, 1int,
{
    let ghost toks = token_views(tokens@);
    proof {
        assert(toks.len() == tokens@.len());
    }
    if *pos >= tokens.len() {
        return Err(parse_error_at(tokens, *pos));
    }
    if kind_at(tokens, *pos) != TokenKind::CurlyOpenBracketToken {
        return Err(parse_error_at(tokens, *pos));
    }
    *pos = *pos + 1;
    match parse_stmts(tokens, pos) {
        Ok(ss) => {
            if kind_at(tokens, *pos) == TokenKind::CurlyCloseBracketToken {
                *pos = *pos + 1;
                Ok(ss)
            } else {
                Err(parse_error_at(tokens, *pos))
            }
        },
        Err(e) => Err(e),
    }
}

/// Parses the formal parameter list between the parentheses.
fn parse_params_list(tokens: &Vec<SyntaxToken>, pos: &mut usize) -> (r: Result<
    Vec<ParameterNode>,
    Diagnostic,
>)
    requires
        tokens@.len() < crate::line_text::max_source_len(),
        *old(pos) <= tokens@.len(),
    ensures
        match p_params_list(token_views(tokens@), *old(pos) as int) {
            Some((ps, j)) => r is Ok && param_views(r->Ok_0@) == ps && *final(pos) == j,
            None => r is Err,
        },
        r is Err ==> r->Err_0@.kind == DiagnosticKind::ParseError,
        *old(pos) <= *final(pos) <= tokens@.len(),
    decreases tokens@.len() - *pos,
{
    let ghost toks = token_views(tokens@);
    proof {
        assert(toks.len() == tokens@.len());
    }
    if *pos >= tokens.len() || kind_at(tokens, *pos) == TokenKind::CloseParenthesisToken {
        let r: Vec<ParameterNode> = Vec::new();
        proof {
            assert(param_views(r@) =~= Seq::<ParamModel>::empty());
        }
        return Ok(r);
    }
    let ty_tok = token_at(tokens, *pos + 2);
    if kind_at(tokens, *pos) == TokenKind::IdentifierToken && kind_at(tokens, *pos + 1)
        == TokenKind::ColonToken && is_data_type_token(&ty_tok) {
        let name = token_at(tokens, *pos);
        let p = ParameterNode::new(name, ty_tok);
        let ghost p_m = p@;
        if kind_at(tokens, *pos + 3) == TokenKind::CommaToken && kind_at(tokens, *pos + 4)
            == TokenKind::IdentifierToken {
            *pos = *pos + 4;
        } else {
            *pos = *pos + 3;
        }
        match parse_params_list(tokens, pos) {
            Ok(mut rest) => {
                let ghost rest0 = rest@;
                let ghost rest_m = param_views(rest@);
                rest.insert(0, p);
                proof {
                    assert(param_views(rest@).len() == rest@.len());
                    assert(param_views(rest0).len() == rest0.len());
                    assert forall|q: int|
                        0 <= q < rest@.len() implies param_views(rest@)[q] == (seq![p_m]
                        + rest_m)[q] by {
                        if q > 0 {
                            assert(rest@[q] == rest0[q - 1]);
                        } else {
                            assert(rest@[0] == p);
                        }
                    }
                    assert(param_views(rest@) =~= seq![p_m] + rest_m);
                }
                Ok(rest)
            },
            Err(e) => Err(e),
        }
    } else {
        Err(parse_error_at(tokens, *pos))
    }
}

/// Parses one function definition.
fn parse_function(tokens: &Vec<SyntaxToken>, pos: &mut usize) -> (r: Result<
    FunctionNode,
    Diagnostic,
>)
    requires
        tokens@.len() < crate::line_text::max_source_len(),
        *old(pos) <= tokens@.len(),
    ensures
        match p_function(token_views(tokens@), *old(pos) as int) {
            Some((f, j)) => r is Ok && r->Ok_0@ == f && *final(pos) == j,
            None => r is Err,
        },
        r is Err ==> r->Err_0@.kind == DiagnosticKind::ParseError,
        *old(pos) <= *final(pos) <= tokens@.len(),
        r is Ok ==> *old(pos) < *final(pos),
    decreases tokens@.len() - *pos, 0int,
{
    let ghost toks = token_views(tokens@);
    proof {
        assert(toks.len() == tokens@.len());
    }
    if *pos < tokens.len() && kind_at(tokens, *pos) == TokenKind::FunToken && kind_at(
        tokens,
        *pos + 1,
    ) == TokenKind::IdentifierToken && kind_at(tokens, *pos + 2)
        == TokenKind::OpenParenthesisToken {
        let name = token_at(tokens, *pos + 1);
        *pos = *pos + 3;
        match parse_params_list(tokens, pos) {
            Ok(params) => {
                if kind_at(tokens, *pos) == TokenKind::CloseParenthesisToken {
                    *pos = *pos + 1;
                    let mut return_type: Option<TypeLiteral> = None;
                    if kind_at(tokens, *pos) == TokenKind::ColonToken {
                        let ty_tok = token_at(tokens, *pos + 1);
                        if is_data_type_token(&ty_tok) {
                            return_type = Some(TypeLiteral::of_token(ty_tok));
                            *pos = *pos + 2;
                        } else {
                            return Err(parse_error_at(tokens, *pos + 1));
                        }
                    }
                    match parse_block(tokens, pos) {
                        Ok(body) => {
                            let f = FunctionNode::new(name, return_type, params, body);
                            Ok(f)
                        },
                        Err(e) => Err(e),
                    }
                } else {
                    Err(parse_error_at(tokens, *pos))
                }
            },
            Err(e) => Err(e),
        }
    } else {
        Err(parse_error_at(tokens, *pos))
    }
}

/// Parses function definitions until the stream is exhausted.
fn parse_functions(tokens: &Vec<SyntaxToken>, pos: &mut usize) -> (r: Result<
    Vec<FunctionNode>,
    Diagnostic,
>)
    requires
        tokens@.len() < crate::line_text::max_source_len(),
        *old(pos) <= tokens@.len(),
    ensures
        match p_functions(token_views(tokens@), *old(pos) as int) {
            Some((fs, j)) => r is Ok && func_views(r->Ok_0@) == fs && *final(pos) == j,
            None => r is Err,
        },
        r is Err ==> r->Err_0@.kind == DiagnosticKind::ParseError,
        *old(pos) <= *final(pos) <= tokens@.len(),
    decreases tokens@.len() - *pos, 1int,
{
    let ghost toks = token_views(tokens@);
    proof {
        assert(toks.len() == tokens@.len());
    }
    if *pos >= tokens.len() {
        let r: Vec<FunctionNode> = Vec::new();
        proof {
            assert(func_views(r@) =~= Seq::<FunctionModel>::empty());
        }
        return Ok(r);
    }
    match parse_function(tokens, pos) {
        Ok(f) => {
            let ghost f_m = f@;
            match parse_functions(tokens, pos) {
                Ok(mut rest) => {
                    let ghost rest0 = rest@;
                    let ghost rest_m = func_views(rest@);
                    rest.insert(0, f);
                    proof {
                        assert(func_views(rest@).len() == rest@.len());
                        assert(func_views(rest0).len() == rest0.len());
                        assert forall|q: int|
                            0 <= q < rest@.len() implies func_views(rest@)[q] == (seq![f_m]
                            + rest_m)[q] by {
                            if q > 0 {
                                assert(rest@[q] == rest0[q - 1]);
                            } else {
                                assert(rest@[0] == f);
                            }
                        }
                        assert(func_views(rest@) =~= seq![f_m] + rest_m);
                    }
                    Ok(rest)
                },
                Err(e) => Err(e),
            }
        },
        Err(e) => Err(e),
    }
}

// ---------------------------------------------------------------------------
// The parser front end
// ---------------------------------------------------------------------------

/// The recursive-descent parser: wraps a fresh lexer and turns its token
/// stream into a program, reporting the first structural mismatch and
/// attempting no recovery.
pub struct Parser {
    lexer: Lexer,
    tokens: Vec<SyntaxToken>,
    current_token_index: usize,
}

impl Parser {
    /// The source text under parse.
    pub closed spec fn source(&self) -> Seq<char> {
        self.lexer@.text
    }

    /// The wrapped lexer is fresh: parsing is restartable only via a fresh
    /// instance.
    pub closed spec fn wf(&self) -> bool {
        &&& self.lexer.wf()
        &&& self.lexer@.pos == 0
        &&& self.lexer@.diagnostics == Seq::<crate::diagnostics::DiagnosticModel>::empty()
    }

    pub fn new(lexer: Lexer) -> (r: Parser)
        requires
            lexer.wf(),
            lexer@.pos == 0,
            lexer@.diagnostics == Seq::<crate::diagnostics::DiagnosticModel>::empty(),
        ensures
            r.wf(),
            r.source() == lexer@.text,
    {
        Parser { lexer, tokens: Vec::new(), current_token_index: 0 }
    }

    /// Accepts exactly the tokens that name a data type usable in
    /// signatures, handing back the type name.
    pub fn match_data_type(token: &SyntaxToken) -> (r: Result<String, Diagnostic>)
        ensures
            r is Ok <==> (token@.kind == TokenKind::DataTypeToken && is_data_type_name(
                token@.text,
            )),
            r is Ok ==> r->Ok_0@ == token@.text,
            r is Err ==> r->Err_0@.kind == DiagnosticKind::ParseError,
    {
        if is_data_type_token(token) {
            Ok(token.text.clone())
        } else {
            let mut m = "expected a type name but found '".to_owned();
            m.append(token.text.as_str());
            m.append("'");
            Err(
                Diagnostic::new(
                    DiagnosticKind::ParseError,
                    m,
                    token.position.line_no,
                    token.position.col_no,
                ),
            )
        }
    }

    /// Lexes the whole source and parses the token stream into a program.
    /// The first lexical diagnostic, if any, fails the parse; otherwise
    /// the first structural mismatch does.
    pub fn parse(&mut self) -> (r: Result<ProgramNode, Diagnostic>)
        requires
            old(self).wf(),
        ensures
            match parse_spec(old(self).source()) {
                Some(p) => r is Ok && r->Ok_0@ == p,
                None => r is Err,
            },
            r is Err ==> (r->Err_0@.kind == DiagnosticKind::ParseError || r->Err_0@.kind
                == DiagnosticKind::LexError),
            lex_diagnostics_spec(old(self).source()).len() > 0 ==> r is Err && r->Err_0@.kind
                == DiagnosticKind::LexError,
            (lex_diagnostics_spec(old(self).source()).len() == 0 && r is Err) ==> r->Err_0@.kind
                == DiagnosticKind::ParseError,
    {
        let ghost text = self.source();
        proof {
            self.lexer.lemma_text_bound();
            crate::lexer::lemma_lex_spec_len(text);
        }
        let toks = self.lexer.lex_all();
        self.tokens = toks;
        self.current_token_index = 0;
        let n_diags = self.lexer.diagnostics().len();
        if n_diags > 0 {
            let d = self.lexer.diagnostics()[0].clone();
            proof {
                assert(self.lexer@.diagnostics.len() > 0);
                assert(d@ == lex_diagnostics_spec(text)[0]);
                assert(lex_diagnostics_spec(text)[0].kind == DiagnosticKind::LexError);
            }
            return Err(d);
        }
        proof {
            assert(lex_diagnostics_spec(text).len() == 0);
            assert(token_views(self.tokens@).len() == self.tokens@.len());
            assert(lex_spec(text).len() == self.tokens@.len());
            assert(token_views(self.tokens@) =~= lex_spec(text));
        }
        let mut pos: usize = 0;
        match parse_functions(&self.tokens, &mut pos) {
            Ok(fs) => {
                self.current_token_index = pos;
                let p = ProgramNode::new(fs);
                proof {
                    assert(p@.functions.len() == p.functions@.len());
                    assert(p@.functions =~= func_views(p.functions@));
                }
                Ok(p)
            },
            Err(e) => Err(e),
        }
    }
}

} // verus!
