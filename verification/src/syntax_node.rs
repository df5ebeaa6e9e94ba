use vstd::prelude::*;
use crate::decimal::{spec_decimal, usize_to_string};
use crate::diagnostics::{Diagnostic, DiagnosticKind};
use crate::syntax_token::{SyntaxToken, TokenModel};
use crate::text_span::TextSpan;

verus! {

// ---------------------------------------------------------------------------
// Types of the language
// ---------------------------------------------------------------------------

/// The four kinds of type a value of the language can have.
#[derive(Debug, PartialEq, Eq, Clone, Copy, Structural)]
pub enum TypeKind {
    Integer,
    Float,
    Str,
    Void,
}

/// Mathematical model of a type annotation.
pub enum TypeModel {
    Integer(TokenModel),
    Float(TokenModel),
    Str(TokenModel),
    Void,
}

impl TypeModel {
    /// The kind of the type, token stripped: types compare by this alone.
    pub open spec fn kind(self) -> TypeKind {
        match self {
            TypeModel::Integer(_) => TypeKind::Integer,
            TypeModel::Float(_) => TypeKind::Float,
            TypeModel::Str(_) => TypeKind::Str,
            TypeModel::Void => TypeKind::Void,
        }
    }
}

/// A type of the language: integer, float, string or void. The non-void
/// variants carry the token that introduced them, used only for diagnostic
/// source positions.
#[derive(Debug)]
pub enum TypeLiteral {
    Integer(SyntaxToken),
    Float(SyntaxToken),
    Str(SyntaxToken),
    Void,
}

impl View for TypeLiteral {
    type V = TypeModel;

    open spec fn view(&self) -> TypeModel {
        match self {
            TypeLiteral::Integer(t) => TypeModel::Integer(t@),
            TypeLiteral::Float(t) => TypeModel::Float(t@),
            TypeLiteral::Str(t) => TypeModel::Str(t@),
            TypeLiteral::Void => TypeModel::Void,
        }
    }
}

impl Clone for TypeLiteral {
    fn clone(&self) -> (r: Self)
        ensures
            r@ == self@,
    {
        match self {
            TypeLiteral::Integer(t) => TypeLiteral::Integer(t.clone()),
            TypeLiteral::Float(t) => TypeLiteral::Float(t.clone()),
            TypeLiteral::Str(t) => TypeLiteral::Str(t.clone()),
            TypeLiteral::Void => TypeLiteral::Void,
        }
    }
}

/// The name of each type kind as it appears in source text.
pub open spec fn type_kind_name(k: TypeKind) -> Seq<char> {
    match k {
        TypeKind::Integer => "int"@,
        TypeKind::Float => "float"@,
        TypeKind::Str => "string"@,
        TypeKind::Void => "void"@,
    }
}

impl TypeLiteral {
    /// The kind of the type on the executable side.
    pub fn kind(&self) -> (r: TypeKind)
        ensures
            r == self@.kind(),
    {
        match self {
            TypeLiteral::Integer(_) => TypeKind::Integer,
            TypeLiteral::Float(_) => TypeKind::Float,
            TypeLiteral::Str(_) => TypeKind::Str,
            TypeLiteral::Void => TypeKind::Void,
        }
    }

    /// The source name of the type.
    pub fn get_type(&self) -> (r: String)
        ensures
            r@ == type_kind_name(self@.kind()),
    {
        match self {
            TypeLiteral::Integer(_) => "int".to_owned(),
            TypeLiteral::Float(_) => "float".to_owned(),
            TypeLiteral::Str(_) => "string".to_owned(),
            TypeLiteral::Void => "void".to_owned(),
        }
    }

    /// The "line,column" rendering of the position of the token that
    /// introduced the type; empty for void.
    pub fn get_line_str(&self) -> (r: String)
        ensures
            r@ == match self@ {
                TypeModel::Integer(t) => spec_decimal(t.span.line) + ","@ + spec_decimal(
                    t.span.col,
                ),
                TypeModel::Float(t) => spec_decimal(t.span.line) + ","@ + spec_decimal(t.span.col),
                TypeModel::Str(t) => spec_decimal(t.span.line) + ","@ + spec_decimal(t.span.col),
                TypeModel::Void => Seq::<char>::empty(),
            },
    {
        match self {
            TypeLiteral::Integer(t) => point_str(&t.position),
            TypeLiteral::Float(t) => point_str(&t.position),
            TypeLiteral::Str(t) => point_str(&t.position),
            TypeLiteral::Void => String::new(),
        }
    }

    /// The position of the token that introduced the type, as (line, column);
    /// (0, 0) for void.
    pub fn line_col(&self) -> (r: (usize, usize))
        ensures
            (r.0 as nat, r.1 as nat) == match self@ {
                TypeModel::Integer(t) => (t.span.line, t.span.col),
                TypeModel::Float(t) => (t.span.line, t.span.col),
                TypeModel::Str(t) => (t.span.line, t.span.col),
                TypeModel::Void => (0nat, 0nat),
            },
    {
        match self {
            TypeLiteral::Integer(t) => (t.position.line_no, t.position.col_no),
            TypeLiteral::Float(t) => (t.position.line_no, t.position.col_no),
            TypeLiteral::Str(t) => (t.position.line_no, t.position.col_no),
            TypeLiteral::Void => (0, 0),
        }
    }

    /// The type a type-name token denotes; an unexpected name denotes void.
    pub fn of_token(token: SyntaxToken) -> (r: TypeLiteral)
        ensures
            r@ == spec_type_of_name(token@),
    {
        if str_eq_check(token.text.as_str(), "int") {
            TypeLiteral::Integer(token)
        } else if str_eq_check(token.text.as_str(), "float") {
            TypeLiteral::Float(token)
        } else if str_eq_check(token.text.as_str(), "string") {
            TypeLiteral::Str(token)
        } else {
            TypeLiteral::Void
        }
    }

    /// Reads a type annotation from the token that spelled it: one of the
    /// four type names succeeds, anything else is rejected with a parse
    /// error at the token.
    pub fn from_token(token: SyntaxToken) -> (r: Result<TypeLiteral, Diagnostic>)
        ensures
            r is Ok <==> (token@.text == "int"@ || token@.text == "float"@ || token@.text
                == "string"@ || token@.text == "void"@),
            r is Ok ==> r->Ok_0@ == spec_type_of_name(token@),
            r is Err ==> r->Err_0@.kind == DiagnosticKind::ParseError,
    {
        if str_eq_check(token.text.as_str(), "int") {
            Ok(TypeLiteral::Integer(token))
        } else if str_eq_check(token.text.as_str(), "float") {
            Ok(TypeLiteral::Float(token))
        } else if str_eq_check(token.text.as_str(), "string") {
            Ok(TypeLiteral::Str(token))
        } else if str_eq_check(token.text.as_str(), "void") {
            Ok(TypeLiteral::Void)
        } else {
            let mut m = "unexpected type name '".to_owned();
            m.append(token.text.as_str());
            m.append("'");
            Err(
                Diagnostic::new(
                    DiagnosticKind::ParseError,
                    m,
                    token.position.line_no,
                    token.position.col_no,
                ),
            )
        }
    }
}

/// The type a type-name token denotes; void for any unexpected name.
pub open spec fn spec_type_of_name(t: TokenModel) -> TypeModel {
    if t.text == "int"@ {
        TypeModel::Integer(t)
    } else if t.text == "float"@ {
        TypeModel::Float(t)
    } else if t.text == "string"@ {
        TypeModel::Str(t)
    } else {
        TypeModel::Void
    }
}

/// Compares a string against a literal.
pub fn str_eq_check(s: &str, lit: &str) -> (r: bool)
    ensures
        r == (s@ == lit@),
{
    let n = s.unicode_len();
    if n != lit.unicode_len() {
        proof {
            assert(s@ != lit@);
        }
        return false;
    }
    let mut i: usize = 0;
    while i < n
        invariant
            n == s@.len() == lit@.len(),
            0 <= i <= n,
            forall|j: int| 0 <= j < i ==> s@[j] == lit@[j],
        decreases n - i,
    {
        if s.get_char(i) != lit.get_char(i) {
            return false;
        }
        i = i + 1;
    }
    proof {
        assert(s@ =~= lit@);
    }
    true
}

/// The "line,column" rendering of a span's position.
pub fn point_str(span: &TextSpan) -> (r: String)
    ensures
        r@ == spec_decimal(span@.line) + ","@ + spec_decimal(span@.col),
{
    let mut s = usize_to_string(span.line_no);
    s.append(",");
    let c = usize_to_string(span.col_no);
    s.append(c.as_str());
    s
}

// ---------------------------------------------------------------------------
// Expressions and statements
// ---------------------------------------------------------------------------

/// Mathematical model of an expression.
pub enum ExprModel {
    Literal(TypeModel),
    Binary(Box<ExprModel>, TokenModel, Box<ExprModel>),
    Unary(TokenModel, Box<ExprModel>),
    Identifier(TokenModel),
    Parenthesized(Box<ExprModel>),
    FunctionCall(TokenModel, Seq<ExprModel>),
}

/// An expression of the language. A literal carries its typed value through
/// the token that spelled it.
#[derive(Debug)]
pub enum ExpressionNode {
    Literal(TypeLiteral),
    Binary(Box<ExpressionNode>, SyntaxToken, Box<ExpressionNode>),
    Unary(SyntaxToken, Box<ExpressionNode>),
    Identifier(SyntaxToken),
    Parenthesized(Box<ExpressionNode>),
    FunctionCall(SyntaxToken, Vec<ExpressionNode>),
}

/// The model of an expression.
pub open spec fn expr_model(e: ExpressionNode) -> ExprModel
    decreases e,
{
    match e {
        ExpressionNode::Literal(t) => ExprModel::Literal(t@),
        ExpressionNode::Binary(l, op, r) => ExprModel::Binary(
            Box::new(expr_model(*l)),
            op@,
            Box::new(expr_model(*r)),
        ),
        ExpressionNode::Unary(op, x) => ExprModel::Unary(op@, Box::new(expr_model(*x))),
        ExpressionNode::Identifier(t) => ExprModel::Identifier(t@),
        ExpressionNode::Parenthesized(x) => ExprModel::Parenthesized(Box::new(expr_model(*x))),
        ExpressionNode::FunctionCall(name, args) => ExprModel::FunctionCall(
            name@,
            exprs_model(args@),
        ),
    }
}

/// The models of a list of expressions.
pub open spec fn exprs_model(s: Seq<ExpressionNode>) -> Seq<ExprModel>
    decreases s,
{
    if s.len() == 0 {
        Seq::empty()
    } else {
        seq![expr_model(s[0])] + exprs_model(s.drop_first())
    }
}

impl View for ExpressionNode {
    type V = ExprModel;

    open spec fn view(&self) -> ExprModel {
        expr_model(*self)
    }
}

/// Mathematical model of a statement.
pub enum StmtModel {
    Assignment(TokenModel, ExprModel),
    Declaration(TokenModel, ExprModel),
    FunctionInvocation(TokenModel, Seq<ExprModel>),
    Return(Option<ExprModel>),
    IfElse(ExprModel, Seq<StmtModel>, Seq<(ExprModel, Seq<StmtModel>)>, Option<Seq<StmtModel>>),
    While(ExprModel, Seq<StmtModel>),
    Break,
    Continue,
}

/// A statement of the language. An if/else chain holds the condition, the
/// then-body, the ordered else-if (condition, body) pairs and the optional
/// else-body.
#[derive(Debug)]
pub enum StatementNode {
    Assignment(SyntaxToken, ExpressionNode),
    Declaration(SyntaxToken, ExpressionNode),
    FunctionInvocation(SyntaxToken, Vec<ExpressionNode>),
    Return(Option<ExpressionNode>),
    IfElse(
        ExpressionNode,
        Vec<StatementNode>,
        Vec<(ExpressionNode, Vec<StatementNode>)>,
        Option<Vec<StatementNode>>,
    ),
    While(ExpressionNode, Vec<StatementNode>),
    Break,
    Continue,
}

/// The model of a statement.
pub open spec fn stmt_model(s: StatementNode) -> StmtModel
    decreases s,
{
    match s {
        StatementNode::Assignment(t, e) => StmtModel::Assignment(t@, e@),
        StatementNode::Declaration(t, e) => StmtModel::Declaration(t@, e@),
        StatementNode::FunctionInvocation(t, args) => StmtModel::FunctionInvocation(
            t@,
            exprs_model(args@),
        ),
        StatementNode::Return(e) => StmtModel::Return(
            match e {
                Some(x) => Some(expr_model(x)),
                None => None,
            },
        ),
        StatementNode::IfElse(c, then_body, else_ifs, else_body) => StmtModel::IfElse(
            c@,
            stmts_model(then_body@),
            branch_pairs_model(else_ifs@),
            match else_body {
                Some(b) => Some(stmts_model(b@)),
                None => None,
            },
        ),
        StatementNode::While(c, body) => StmtModel::While(c@, stmts_model(body@)),
        StatementNode::Break => StmtModel::Break,
        StatementNode::Continue => StmtModel::Continue,
    }
}

/// The models of a list of statements.
pub open spec fn stmts_model(body: Seq<StatementNode>) -> Seq<StmtModel>
    decreases body,
{
    if body.len() == 0 {
        Seq::empty()
    } else {
        seq![stmt_model(body[0])] + stmts_model(body.drop_first())
    }
}

/// The models of a list of else-if (condition, body) pairs.
pub open spec fn branch_pairs_model(ps: Seq<(ExpressionNode, Vec<StatementNode>)>) -> Seq<
    (ExprModel, Seq<StmtModel>),
>
    decreases ps,
{
    if ps.len() == 0 {
        Seq::empty()
    } else {
        seq![(expr_model(ps[0].0), stmts_model(ps[0].1@))] + branch_pairs_model(ps.drop_first())
    }
}

impl View for StatementNode {
    type V = StmtModel;

    open spec fn view(&self) -> StmtModel {
        stmt_model(*self)
    }
}

/// The model of a list of expressions is the list of the models.
pub proof fn lemma_exprs_model_index(s: Seq<ExpressionNode>)
    ensures
        exprs_model(s).len() == s.len(),
        forall|i: int| 0 <= i < s.len() ==> exprs_model(s)[i] == expr_model(#[trigger] s[i]),
    decreases s,
{
    if s.len() > 0 {
        lemma_exprs_model_index(s.drop_first());
        assert forall|i: int| 0 <= i < s.len() implies exprs_model(s)[i] == expr_model(
            #[trigger] s[i],
        ) by {
            if i > 0 {
                assert(s.drop_first()[i - 1] == s[i]);
                assert(exprs_model(s)[i] == exprs_model(s.drop_first())[i - 1]);
            }
        }
    }
}

/// The model of a list of statements is the list of the models.
pub proof fn lemma_stmts_model_index(s: Seq<StatementNode>)
    ensures
        stmts_model(s).len() == s.len(),
        forall|i: int| 0 <= i < s.len() ==> stmts_model(s)[i] == stmt_model(#[trigger] s[i]),
    decreases s,
{
    if s.len() > 0 {
        lemma_stmts_model_index(s.drop_first());
        assert forall|i: int| 0 <= i < s.len() implies stmts_model(s)[i] == stmt_model(
            #[trigger] s[i],
        ) by {
            if i > 0 {
                assert(s.drop_first()[i - 1] == s[i]);
                assert(stmts_model(s)[i] == stmts_model(s.drop_first())[i - 1]);
            }
        }
    }
}

/// The model of a list of else-if pairs is the list of the pair models.
pub proof fn lemma_branch_pairs_model_index(s: Seq<(ExpressionNode, Vec<StatementNode>)>)
    ensures
        branch_pairs_model(s).len() == s.len(),
        forall|i: int|
            0 <= i < s.len() ==> branch_pairs_model(s)[i] == (
                expr_model(#[trigger] s[i].0),
                stmts_model(s[i].1@),
            ),
    decreases s,
{
    if s.len() > 0 {
        lemma_branch_pairs_model_index(s.drop_first());
        assert forall|i: int|
            0 <= i < s.len() implies branch_pairs_model(s)[i] == (
            expr_model(#[trigger] s[i].0),
            stmts_model(s[i].1@),
        ) by {
            if i > 0 {
                assert(s.drop_first()[i - 1] == s[i]);
                assert(branch_pairs_model(s)[i] == branch_pairs_model(s.drop_first())[i - 1]);
            }
        }
    }
}

// ---------------------------------------------------------------------------
// Parameters, functions, programs
// ---------------------------------------------------------------------------

/// Mathematical model of a formal parameter.
pub struct ParamModel {
    pub name: TokenModel,
    pub ty: TokenModel,
}

/// A formal parameter: its name token and the token of its declared type.
#[derive(Debug)]
pub struct ParameterNode {
    pub name: SyntaxToken,
    pub type_: SyntaxToken,
}

impl View for ParameterNode {
    type V = ParamModel;

    open spec fn view(&self) -> ParamModel {
        ParamModel { name: self.name@, ty: self.type_@ }
    }
}

impl ParameterNode {
    pub fn new(name: SyntaxToken, type_: SyntaxToken) -> (r: ParameterNode)
        ensures
            r@ == (ParamModel { name: name@, ty: type_@ }),
    {
        ParameterNode { name, type_ }
    }
}

/// Mathematical model of a function definition.
pub struct FunctionModel {
    pub name: TokenModel,
    pub return_type: Option<TypeModel>,
    pub parameters: Seq<ParamModel>,
    pub body: Seq<StmtModel>,
}

/// A function definition: name, optional return type, ordered parameters
/// and body.
#[derive(Debug)]
pub struct FunctionNode {
    pub name: SyntaxToken,
    pub return_type: Option<TypeLiteral>,
    pub parameters: Vec<ParameterNode>,
    pub body: Vec<StatementNode>,
}

impl View for FunctionNode {
    type V = FunctionModel;

    open spec fn view(&self) -> FunctionModel {
        FunctionModel {
            name: self.name@,
            return_type: match self.return_type {
                Some(t) => Some(t@),
                None => None,
            },
            parameters: self.parameters@.map_values(|p: ParameterNode| p@),
            body: stmts_model(self.body@),
        }
    }
}

impl FunctionNode {
    pub fn new(
        name: SyntaxToken,
        return_type: Option<TypeLiteral>,
        parameters: Vec<ParameterNode>,
        body: Vec<StatementNode>,
    ) -> (r: FunctionNode)
        ensures
            r.name == name,
            r.return_type == return_type,
            r.parameters == parameters,
            r.body == body,
    {
        FunctionNode { name, return_type, parameters, body }
    }
}

/// Mathematical model of a whole program.
pub struct ProgramModel {
    pub functions: Seq<FunctionModel>,
}

/// A program: an ordered list of function definitions.
#[derive(Debug)]
pub struct ProgramNode {
    pub functions: Vec<FunctionNode>,
}

impl View for ProgramNode {
    type V = ProgramModel;

    open spec fn view(&self) -> ProgramModel {
        ProgramModel { functions: self.functions@.map_values(|f: FunctionNode| f@) }
    }
}

impl ProgramNode {
    pub fn new(functions: Vec<FunctionNode>) -> (r: ProgramNode)
        ensures
            r.functions == functions,
    {
        ProgramNode { functions }
    }
}

} // verus!
