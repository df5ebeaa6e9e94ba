use vstd::prelude::*;
use crate::diagnostics::{Diagnostic, DiagnosticKind};
use crate::function_control_flow::{FunctionControlGraph, all_paths_return};
use crate::function_table::{
    FunctionInfoModel, FunctionTable, FunctionTableInfo, info_model_of, table_lookup,
};
use crate::symbol_table::{ScopeModel, SymbolTable, SymbolTableModel, lookup_local, resolve_spec};
use crate::syntax_node::{
    ExprModel, ExpressionNode, FunctionModel, FunctionNode, ParamModel, ProgramModel, ProgramNode,
    StatementNode, StmtModel, TypeKind, TypeLiteral, TypeModel, spec_type_of_name,
};
use crate::syntax_tree::SyntaxTree;
use crate::token_kind::TokenKind;

verus! {

// ---------------------------------------------------------------------------
// Typing of expressions
// ---------------------------------------------------------------------------

/// The scope tree grown by one fresh scope under `parent`.
pub open spec fn add_child_spec(scopes: Seq<ScopeModel>, parent: int) -> Seq<ScopeModel> {
    scopes.update(
        parent,
        ScopeModel {
            children: scopes[parent].children.push(scopes.len() as int),
            ..scopes[parent]
        },
    ).push(
        ScopeModel {
            symbols: Seq::empty(),
            parent: Some(parent),
            children: Seq::empty(),
        },
    )
}

/// The type of an expression under a scope tree, a current scope and a
/// function table, or the class of the first error found. Both operands of
/// a binary expression must have the identical type, and on string operands
/// only `+` is permitted; a unary expression has its operand's type; an
/// identifier resolves through the scope chain; a call must match its
/// callee's registered signature position by position and has the callee's
/// declared return type (void where none is declared). There is no implicit
/// coercion anywhere in the language.
pub open spec fn t_expr(
    e: ExprModel,
    scopes: Seq<ScopeModel>,
    sid: int,
    ft: Seq<(Seq<char>, FunctionInfoModel)>,
) -> Result<TypeModel, DiagnosticKind>
    decreases e, 1int,
{
    match e {
        ExprModel::Literal(t) => Ok(t),
        ExprModel::Unary(_, x) => t_expr(*x, scopes, sid, ft),
        ExprModel::Binary(l, op, r) => match t_expr(*l, scopes, sid, ft) {
            Ok(lt) => match t_expr(*r, scopes, sid, ft) {
                Ok(rt) => {
                    if lt.kind() != rt.kind() {
                        Err(DiagnosticKind::TypeError)
                    } else if lt.kind() == TypeKind::Str && op.kind != TokenKind::PlusToken {
                        Err(DiagnosticKind::TypeError)
                    } else {
                        Ok(lt)
                    }
                },
                Err(k) => Err(k),
            },
            Err(k) => Err(k),
        },
        ExprModel::Identifier(id) => match resolve_spec(scopes, sid, id.text) {
            Some(t) => Ok(t),
            None => Err(DiagnosticKind::ScopeError),
        },
        ExprModel::Parenthesized(x) => t_expr(*x, scopes, sid, ft),
        ExprModel::FunctionCall(name, args) => t_call(name.text, args, scopes, sid, ft),
    }
}

/// The types of a list of argument expressions, or the first error.
pub open spec fn t_args(
    args: Seq<ExprModel>,
    scopes: Seq<ScopeModel>,
    sid: int,
    ft: Seq<(Seq<char>, FunctionInfoModel)>,
) -> Result<Seq<TypeModel>, DiagnosticKind>
    decreases args, 2int,
{
    if args.len() == 0 {
        Ok(Seq::empty())
    } else {
        match t_expr(args[0], scopes, sid, ft) {
            Ok(t) => match t_args(args.drop_first(), scopes, sid, ft) {
                Ok(rest) => Ok(seq![t] + rest),
                Err(k) => Err(k),
            },
            Err(k) => Err(k),
        }
    }
}

/// The result type of a call: the arguments are typed first, then the
/// callee must be registered (a function can be called only after its own
/// body has passed analysis, so it cannot validate a call to itself), the
/// arity must match, and every argument type must equal the declared
/// parameter type in its position.
pub open spec fn t_call(
    name: Seq<char>,
    args: Seq<ExprModel>,
    scopes: Seq<ScopeModel>,
    sid: int,
    ft: Seq<(Seq<char>, FunctionInfoModel)>,
) -> Result<TypeModel, DiagnosticKind>
    decreases args, 3int,
{
    match t_args(args, scopes, sid, ft) {
        Ok(ats) => match table_lookup(ft, name) {
            Some(sig) => {
                if sig.parameters.len() != ats.len() {
                    Err(DiagnosticKind::TypeError)
                } else if exists|i: int|
                    0 <= i < ats.len() && (#[trigger] ats[i]).kind() != sig.parameters[i].kind() {
                    Err(DiagnosticKind::TypeError)
                } else {
                    Ok(
                        match sig.return_type {
                            Some(t) => t,
                            None => TypeModel::Void,
                        },
                    )
                }
            },
            None => Err(DiagnosticKind::ScopeError),
        },
        Err(k) => Err(k),
    }
}

// ---------------------------------------------------------------------------
// Analysis of statements
// ---------------------------------------------------------------------------

/// The scope tree after analyzing one statement in scope `sid`, or the
/// class of the first error. A declaration types its initializer and
/// declares the name in the current scope (redeclaration in the same scope
/// is rejected, shadowing an enclosing scope is not). An assignment
/// requires the resolved left-hand type and the right-hand type to be
/// identical. A return must agree with the enclosing function's declared
/// return type, in presence and in type. Break and continue are valid only
/// under the in-loop flag. Each branch body and loop body is analyzed in a
/// fresh child scope; a while body is analyzed with the in-loop flag set.
pub open spec fn a_stmt(
    s: StmtModel,
    scopes: Seq<ScopeModel>,
    sid: int,
    ft: Seq<(Seq<char>, FunctionInfoModel)>,
    in_loop: bool,
    ret: Option<TypeModel>,
) -> Result<Seq<ScopeModel>, DiagnosticKind>
    decreases s, 0int,
{
    match s {
        StmtModel::Declaration(name, e) => match t_expr(e, scopes, sid, ft) {
            Ok(t) => {
                if lookup_local(scopes[sid].symbols, name.text) is Some {
                    Err(DiagnosticKind::ScopeError)
                } else {
                    Ok(
                        scopes.update(
                            sid,
                            ScopeModel {
                                symbols: scopes[sid].symbols.push((name.text, t)),
                                ..scopes[sid]
                            },
                        ),
                    )
                }
            },
            Err(k) => Err(k),
        },
        StmtModel::Assignment(name, e) => match t_expr(e, scopes, sid, ft) {
            Ok(rt) => match resolve_spec(scopes, sid, name.text) {
                Some(lt) => {
                    if lt.kind() == rt.kind() {
                        Ok(scopes)
                    } else {
                        Err(DiagnosticKind::TypeError)
                    }
                },
                None => Err(DiagnosticKind::ScopeError),
            },
            Err(k) => Err(k),
        },
        StmtModel::Return(eo) => match (eo, ret) {
            (Some(e), Some(rt)) => match t_expr(e, scopes, sid, ft) {
                Ok(t) => {
                    if t.kind() == rt.kind() {
                        Ok(scopes)
                    } else {
                        Err(DiagnosticKind::TypeError)
                    }
                },
                Err(k) => Err(k),
            },
            (None, Some(_)) => Err(DiagnosticKind::TypeError),
            (Some(_), None) => Err(DiagnosticKind::TypeError),
            (None, None) => Ok(scopes),
        },
        StmtModel::FunctionInvocation(name, args) => match t_call(
            name.text,
            args,
            scopes,
            sid,
            ft,
        ) {
            Ok(_) => Ok(scopes),
            Err(k) => Err(k),
        },
        StmtModel::Break => if in_loop {
            Ok(scopes)
        } else {
            Err(DiagnosticKind::LoopControlError)
        },
        StmtModel::Continue => if in_loop {
            Ok(scopes)
        } else {
            Err(DiagnosticKind::LoopControlError)
        },
        StmtModel::While(c, body) => match t_expr(c, scopes, sid, ft) {
            Ok(_) => a_block(body, scopes, sid, ft, true, ret),
            Err(k) => Err(k),
        },
        StmtModel::IfElse(c, tb, elifs, eb) => match t_expr(c, scopes, sid, ft) {
            Ok(_) => match a_block(tb, scopes, sid, ft, in_loop, ret) {
                Ok(scopes1) => match a_branches(elifs, scopes1, sid, ft, in_loop, ret) {
                    Ok(scopes2) => match eb {
                        Some(b) => a_block(b, scopes2, sid, ft, in_loop, ret),
                        None => Ok(scopes2),
                    },
                    Err(k) => Err(k),
                },
                Err(k) => Err(k),
            },
            Err(k) => Err(k),
        },
    }
}

/// A block is analyzed in a fresh child scope of `sid`.
pub open spec fn a_block(
    body: Seq<StmtModel>,
    scopes: Seq<ScopeModel>,
    sid: int,
    ft: Seq<(Seq<char>, FunctionInfoModel)>,
    in_loop: bool,
    ret: Option<TypeModel>,
) -> Result<Seq<ScopeModel>, DiagnosticKind>
    decreases body, 1int,
{
    a_stmts(body, add_child_spec(scopes, sid), scopes.len() as int, ft, in_loop, ret)
}

/// The statements of a block, analyzed in order, threading the scope tree.
pub open spec fn a_stmts(
    body: Seq<StmtModel>,
    scopes: Seq<ScopeModel>,
    sid: int,
    ft: Seq<(Seq<char>, FunctionInfoModel)>,
    in_loop: bool,
    ret: Option<TypeModel>,
) -> Result<Seq<ScopeModel>, DiagnosticKind>
    decreases body, 0int,
{
    if body.len() == 0 {
        Ok(scopes)
    } else {
        match a_stmt(body[0], scopes, sid, ft, in_loop, ret) {
            Ok(scopes1) => a_stmts(body.drop_first(), scopes1, sid, ft, in_loop, ret),
            Err(k) => Err(k),
        }
    }
}

/// The else-if branches of an if chain, each in its own child scope.
pub open spec fn a_branches(
    elifs: Seq<(ExprModel, Seq<StmtModel>)>,
    scopes: Seq<ScopeModel>,
    sid: int,
    ft: Seq<(Seq<char>, FunctionInfoModel)>,
    in_loop: bool,
    ret: Option<TypeModel>,
) -> Result<Seq<ScopeModel>, DiagnosticKind>
    decreases elifs, 0int,
{
    if elifs.len() == 0 {
        Ok(scopes)
    } else {
        match t_expr(elifs[0].0, scopes, sid, ft) {
            Ok(_) => match a_block(elifs[0].1, scopes, sid, ft, in_loop, ret) {
                Ok(scopes1) => a_branches(elifs.drop_first(), scopes1, sid, ft, in_loop, ret),
                Err(k) => Err(k),
            },
            Err(k) => Err(k),
        }
    }
}

// ---------------------------------------------------------------------------
// Analysis of functions and programs
// ---------------------------------------------------------------------------

/// The root scope of a function holds its parameters; declaring the same
/// name twice in the parameter list is a scope error reported against the
/// parameter scope.
pub open spec fn a_params(params: Seq<ParamModel>, scopes: Seq<ScopeModel>) -> Result<
    Seq<ScopeModel>,
    DiagnosticKind,
>
    decreases params,
{
    if params.len() == 0 {
        Ok(scopes)
    } else if lookup_local(scopes[0].symbols, params[0].name.text) is Some {
        Err(DiagnosticKind::ScopeError)
    } else {
        a_params(
            params.drop_first(),
            scopes.update(
                0,
                ScopeModel {
                    symbols: scopes[0].symbols.push(
                        (params[0].name.text, spec_type_of_name(params[0].ty)),
                    ),
                    ..scopes[0]
                },
            ),
        )
    }
}

/// The fresh scope tree of one function: a single empty root.
pub open spec fn root_scopes() -> Seq<ScopeModel> {
    seq![
        ScopeModel {
            symbols: Seq::<(Seq<char>, TypeModel)>::empty(),
            parent: None,
            children: Seq::<int>::empty(),
        },
    ]
}

/// Analysis of one function against the functions registered so far: the
/// parameters populate the root scope, the body is analyzed in a child of
/// it, and a function with a declared return type must additionally pass
/// the return-path check. The scope tree of the function is the result.
pub open spec fn a_function(f: FunctionModel, ft: Seq<(Seq<char>, FunctionInfoModel)>) -> Result<
    Seq<ScopeModel>,
    DiagnosticKind,
> {
    match a_params(f.parameters, root_scopes()) {
        Ok(scopes0) => match a_block(f.body, scopes0, 0, ft, false, f.return_type) {
            Ok(scopes1) => {
                if f.return_type is Some && !all_paths_return(f.body) {
                    Err(DiagnosticKind::ControlFlowError)
                } else {
                    Ok(scopes1)
                }
            },
            Err(k) => Err(k),
        },
        Err(k) => Err(k),
    }
}

/// Analysis of the functions of a program in order. Each function is
/// registered only after it passes, so later functions can call earlier
/// ones but not themselves or later ones; registering a name twice is a
/// scope error.
pub open spec fn a_functions(
    fs: Seq<FunctionModel>,
    ft: Seq<(Seq<char>, FunctionInfoModel)>,
) -> Result<(Seq<Seq<ScopeModel>>, Seq<(Seq<char>, FunctionInfoModel)>), DiagnosticKind>
    decreases fs,
{
    if fs.len() == 0 {
        Ok((Seq::empty(), ft))
    } else {
        match a_function(fs[0], ft) {
            Ok(scopes) => {
                if table_lookup(ft, fs[0].name.text) is Some {
                    Err(DiagnosticKind::ScopeError)
                } else {
                    match a_functions(fs.drop_first(), ft.push((fs[0].name.text, info_model_of(fs[0])))) {
                        Ok((rest, ft2)) => Ok((seq![scopes] + rest, ft2)),
                        Err(k) => Err(k),
                    }
                }
            },
            Err(k) => Err(k),
        }
    }
}

/// Analysis of a whole program: one scope tree per function plus the fully
/// populated function table, or the class of the first error.
pub open spec fn a_program(p: ProgramModel) -> Result<
    (Seq<Seq<ScopeModel>>, Seq<(Seq<char>, FunctionInfoModel)>),
    DiagnosticKind,
> {
    a_functions(p.functions, Seq::empty())
}

/// A successful analysis yields exactly one scope tree per function.
pub proof fn lemma_a_functions_len(fs: Seq<FunctionModel>, ft: Seq<(Seq<char>, FunctionInfoModel)>)
    ensures
        a_functions(fs, ft) is Ok ==> a_functions(fs, ft)->Ok_0.0.len() == fs.len(),
    decreases fs,
{
    if fs.len() > 0 {
        if a_function(fs[0], ft) is Ok && table_lookup(ft, fs[0].name.text) is None {
            lemma_a_functions_len(
                fs.drop_first(),
                ft.push((fs[0].name.text, info_model_of(fs[0]))),
            );
        }
    }
}

// ---------------------------------------------------------------------------
// Laws
// ---------------------------------------------------------------------------

/// Law: a binary expression whose operands type-check to different types
/// always fails analysis with a type error; one whose operands are both
/// strings under any operator other than `+` fails likewise.
pub proof fn lemma_binary_operand_types(
    l: ExprModel,
    op: crate::syntax_token::TokenModel,
    r: ExprModel,
    scopes: Seq<ScopeModel>,
    sid: int,
    ft: Seq<(Seq<char>, FunctionInfoModel)>,
)
    ensures
        (match (t_expr(l, scopes, sid, ft), t_expr(r, scopes, sid, ft)) {
            (Ok(lt), Ok(rt)) => lt.kind() != rt.kind(),
            _ => false,
        }) ==> t_expr(ExprModel::Binary(Box::new(l), op, Box::new(r)), scopes, sid, ft) == Err::<
            TypeModel,
            DiagnosticKind,
        >(DiagnosticKind::TypeError),
        (match (t_expr(l, scopes, sid, ft), t_expr(r, scopes, sid, ft)) {
            (Ok(lt), Ok(rt)) => lt.kind() == TypeKind::Str && rt.kind() == TypeKind::Str
                && op.kind != TokenKind::PlusToken,
            _ => false,
        }) ==> t_expr(ExprModel::Binary(Box::new(l), op, Box::new(r)), scopes, sid, ft) == Err::<
            TypeModel,
            DiagnosticKind,
        >(DiagnosticKind::TypeError),
{
}

/// Law: a break or continue statement outside any while body always fails
/// with a loop-control error and changes nothing; inside a while body — the
/// analysis of a while body always runs with the in-loop flag set — it
/// always succeeds and changes nothing.
pub proof fn lemma_loop_control(
    scopes: Seq<ScopeModel>,
    sid: int,
    ft: Seq<(Seq<char>, FunctionInfoModel)>,
    ret: Option<TypeModel>,
)
    ensures
        a_stmt(StmtModel::Break, scopes, sid, ft, false, ret) == Err::<
            Seq<ScopeModel>,
            DiagnosticKind,
        >(DiagnosticKind::LoopControlError),
        a_stmt(StmtModel::Continue, scopes, sid, ft, false, ret) == Err::<
            Seq<ScopeModel>,
            DiagnosticKind,
        >(DiagnosticKind::LoopControlError),
        a_stmt(StmtModel::Break, scopes, sid, ft, true, ret) == Ok::<
            Seq<ScopeModel>,
            DiagnosticKind,
        >(scopes),
        a_stmt(StmtModel::Continue, scopes, sid, ft, true, ret) == Ok::<
            Seq<ScopeModel>,
            DiagnosticKind,
        >(scopes),
{
}

// ---------------------------------------------------------------------------
// The executable analyzer
// ---------------------------------------------------------------------------

/// The model of an optional declared return type.
pub open spec fn ret_view(ret: Option<TypeLiteral>) -> Option<TypeModel> {
    match ret {
        Some(t) => Some(t@),
        None => None,
    }
}

/// The scope trees of a list of per-function symbol tables.
pub open spec fn tables_views(s: Seq<SymbolTable>) -> Seq<Seq<ScopeModel>> {
    s.map_values(|t: SymbolTable| t@.scopes)
}

/// Builds a type-error diagnostic at a token.
fn type_error_at(text: &str, t: &crate::syntax_token::SyntaxToken) -> (r: Diagnostic)
    ensures
        r@.kind == DiagnosticKind::TypeError,
{
    let mut m = text.to_owned();
    m.append(" near '");
    m.append(t.text.as_str());
    m.append("'");
    Diagnostic::new(DiagnosticKind::TypeError, m, t.position.line_no, t.position.col_no)
}

/// Checks an expression and yields its type.
#[verifier::loop_isolation(false)]
#[verifier::rlimit(60)]
fn check_expr(
    e: &ExpressionNode,
    table: &SymbolTable,
    sid: usize,
    ft: &FunctionTable,
) -> (r: Result<TypeLiteral, Diagnostic>)
    requires
        table.wf(),
        sid < table@.scopes.len(),
    ensures
        match t_expr(e@, table@.scopes, sid as int, ft@) {
            Ok(t) => r is Ok && r->Ok_0@ == t,
            Err(k) => r is Err && r->Err_0@.kind == k,
        },
    decreases *e, 1int,
{
    match e {
        ExpressionNode::Literal(t) => {
            proof {
                assert(e@ == ExprModel::Literal(t@));
            }
            Ok(t.clone())
        },
        ExpressionNode::Unary(op, x) => {
            proof {
                assert(e@ == ExprModel::Unary(op@, Box::new(crate::syntax_node::expr_model(**x))));
            }
            check_expr(x, table, sid, ft)
        },
        ExpressionNode::Binary(l, op, r0) => {
            proof {
                reveal_with_fuel(t_expr, 3);
                assert(e@ == ExprModel::Binary(
                    Box::new(crate::syntax_node::expr_model(**l)),
                    op@,
                    Box::new(crate::syntax_node::expr_model(**r0)),
                ));
            }
            let lt = match check_expr(l, table, sid, ft) {
                Ok(t) => t,
                Err(d) => {
                    proof {
                        assert(t_expr(e@, table@.scopes, sid as int, ft@) == t_expr(
                            crate::syntax_node::expr_model(**l),
                            table@.scopes,
                            sid as int,
                            ft@,
                        ));
                    }
                    return Err(d);
                },
            };
            let rt = match check_expr(r0, table, sid, ft) {
                Ok(t) => t,
                Err(d) => {
                    return Err(d);
                },
            };
            if lt.kind() != rt.kind() {
                return Err(type_error_at("mismatched operand types", op));
            }
            if lt.kind() == TypeKind::Str && op.kind != TokenKind::PlusToken {
                return Err(type_error_at("operator not permitted on string operands", op));
            }
            Ok(lt)
        },
        ExpressionNode::Identifier(id) => {
            proof {
                assert(e@ == ExprModel::Identifier(id@));
            }
            table.get_symbol(sid, id)
        },
        ExpressionNode::Parenthesized(x) => {
            proof {
                assert(e@ == ExprModel::Parenthesized(
                    Box::new(crate::syntax_node::expr_model(**x)),
                ));
            }
            check_expr(x, table, sid, ft)
        },
        ExpressionNode::FunctionCall(name, args) => {
            proof {
                reveal_with_fuel(t_expr, 2);
                reveal_with_fuel(t_call, 2);
                assert(e@ == ExprModel::FunctionCall(
                    name@,
                    crate::syntax_node::exprs_model(args@),
                ));
            }
            let ats = match check_args(args, table, sid, ft) {
                Ok(ts) => ts,
                Err(d) => {
                    return Err(d);
                },
            };
            let ghost ats_m = crate::function_table::types_view(ats@);
            let sig = match ft.get_function(&name.text) {
                Ok(s) => s,
                Err(d) => {
                    return Err(d);
                },
            };
            if sig.parameters.len() != ats.len() {
                return Err(type_error_at("wrong number of arguments", name));
            }
            let n = ats.len();
            let mut i: usize = 0;
            proof {
                assert(ats_m.len() == ats@.len());
                assert(sig@.parameters.len() == sig.parameters@.len());
            }
            while i < n
                invariant
                    0 <= i <= n,
                    forall|q: int| 0 <= q < i ==> (#[trigger] ats_m[q]).kind()
                        == sig@.parameters[q].kind(),
                decreases n - i,
            {
                if ats[i].kind() != sig.parameters[i].kind() {
                    proof {
                        assert(ats_m[i as int].kind() != sig@.parameters[i as int].kind());
                    }
                    return Err(type_error_at("mismatched argument type", name));
                }
                i = i + 1;
            }
            proof {
                assert(!(exists|q: int|
                    0 <= q < ats_m.len() && (#[trigger] ats_m[q]).kind()
                        != sig@.parameters[q].kind()));
            }
            match sig.return_type {
                Some(t) => Ok(t),
                None => Ok(TypeLiteral::Void),
            }
        },
    }
}

/// Checks a list of argument expressions and yields their types in order.
#[verifier::loop_isolation(false)]
fn check_args(
    args: &Vec<ExpressionNode>,
    table: &SymbolTable,
    sid: usize,
    ft: &FunctionTable,
) -> (r: Result<Vec<TypeLiteral>, Diagnostic>)
    requires
        table.wf(),
        sid < table@.scopes.len(),
    ensures
        match t_args(crate::syntax_node::exprs_model(args@), table@.scopes, sid as int, ft@) {
            Ok(ts) => r is Ok && crate::function_table::types_view(r->Ok_0@) == ts,
            Err(k) => r is Err && r->Err_0@.kind == k,
        },
    decreases *args, 2int,
{
    let ghost am = crate::syntax_node::exprs_model(args@);
    let mut done: Vec<TypeLiteral> = Vec::new();
    let n = args.len();
    let mut i: usize = 0;
    proof {
        crate::syntax_node::lemma_exprs_model_index(args@);
        assert(am.skip(0) =~= am);
        assert(crate::function_table::types_view(done@) =~= Seq::<TypeModel>::empty());
        assert forall|rest: Seq<TypeModel>| true implies Seq::<TypeModel>::empty() + rest
            =~= rest by {}
    }
    while i < n
        invariant
            0 <= i <= n,
            match t_args(am.skip(i as int), table@.scopes, sid as int, ft@) {
                Ok(rest) => t_args(am, table@.scopes, sid as int, ft@) == Ok::<
                    Seq<TypeModel>,
                    DiagnosticKind,
                >(crate::function_table::types_view(done@) + rest),
                Err(k) => t_args(am, table@.scopes, sid as int, ft@) == Err::<
                    Seq<TypeModel>,
                    DiagnosticKind,
                >(k),
            },
        decreases n - i,
    {
        proof {
            assert(am.skip(i as int)[0] == am[i as int]);
            assert(am.skip(i as int).drop_first() =~= am.skip(i + 1));
        }
        match check_expr(&args[i], table, sid, ft) {
            Ok(t) => {
                let ghost t_m = t@;
                let ghost done0 = done@;
                done.push(t);
                proof {
                    assert(crate::function_table::types_view(done@).len() == done@.len());
                    assert(crate::function_table::types_view(done@)
                        =~= crate::function_table::types_view(done0).push(t_m));
                    if t_args(am.skip(i + 1), table@.scopes, sid as int, ft@) is Ok {
                        let rest2 = t_args(am.skip(i + 1), table@.scopes, sid as int, ft@)->Ok_0;
                        assert(crate::function_table::types_view(done0) + (seq![t_m] + rest2)
                            =~= crate::function_table::types_view(done@) + rest2);
                    }
                }
            },
            Err(d) => {
                return Err(d);
            },
        }
        i = i + 1;
    }
    proof {
        assert(am.skip(n as int) =~= Seq::<ExprModel>::empty());
        assert(t_args(am, table@.scopes, sid as int, ft@) == Ok::<Seq<TypeModel>, DiagnosticKind>(
            crate::function_table::types_view(done@) + Seq::<TypeModel>::empty(),
        ));
        assert(crate::function_table::types_view(done@) + Seq::<TypeModel>::empty()
            =~= crate::function_table::types_view(done@));
    }
    Ok(done)
}

/// Checks one statement in scope `sid`, mutating the scope tree as
/// declarations and nested blocks demand.
#[verifier::loop_isolation(false)]
#[verifier::rlimit(100)]
fn check_stmt(
    s: &StatementNode,
    table: &mut SymbolTable,
    sid: usize,
    ft: &FunctionTable,
    in_loop: bool,
    ret: &Option<TypeLiteral>,
) -> (r: Result<(), Diagnostic>)
    requires
        old(table).wf(),
        sid < old(table)@.scopes.len(),
    ensures
        final(table).wf(),
        old(table)@.scopes.len() <= final(table)@.scopes.len(),
        match a_stmt(s@, old(table)@.scopes, sid as int, ft@, in_loop, ret_view(*ret)) {
            Ok(sc) => r is Ok && final(table)@.scopes == sc,
            Err(k) => r is Err && r->Err_0@.kind == k,
        },
    decreases *s, 1int,
{
    match s {
        StatementNode::Declaration(name, e) => {
            proof {
                assert(s@ == StmtModel::Declaration(name@, crate::syntax_node::expr_model(*e)));
            }
            let t = match check_expr(e, table, sid, ft) {
                Ok(t) => t,
                Err(d) => {
                    return Err(d);
                },
            };
            match table.add_symbol(sid, name.text.clone(), t) {
                Ok(_) => Ok(()),
                Err(d) => Err(d),
            }
        },
        StatementNode::Assignment(name, e) => {
            proof {
                assert(s@ == StmtModel::Assignment(name@, crate::syntax_node::expr_model(*e)));
            }
            let rt = match check_expr(e, table, sid, ft) {
                Ok(t) => t,
                Err(d) => {
                    return Err(d);
                },
            };
            let lt = match table.get_symbol(sid, name) {
                Ok(t) => t,
                Err(d) => {
                    return Err(d);
                },
            };
            if lt.kind() == rt.kind() {
                Ok(())
            } else {
                Err(type_error_at("cannot assign a value of a different type", name))
            }
        },
        StatementNode::Return(eo) => {
            match (eo, ret) {
                (Some(e), Some(rt)) => {
                    proof {
                        assert(s@ == StmtModel::Return(
                            Some(crate::syntax_node::expr_model(*e)),
                        ));
                    }
                    let t = match check_expr(e, table, sid, ft) {
                        Ok(t) => t,
                        Err(d) => {
                            return Err(d);
                        },
                    };
                    if t.kind() == rt.kind() {
                        Ok(())
                    } else {
                        Err(
                            Diagnostic::new(
                                DiagnosticKind::TypeError,
                                "return type mismatch".to_owned(),
                                0,
                                0,
                            ),
                        )
                    }
                },
                (None, Some(_)) => Err(
                    Diagnostic::new(
                        DiagnosticKind::TypeError,
                        "missing return value".to_owned(),
                        0,
                        0,
                    ),
                ),
                (Some(e), None) => {
                    proof {
                        assert(s@ == StmtModel::Return(
                            Some(crate::syntax_node::expr_model(*e)),
                        ));
                    }
                    Err(
                        Diagnostic::new(
                            DiagnosticKind::TypeError,
                            "return value in a void function".to_owned(),
                            0,
                            0,
                        ),
                    )
                },
                (None, None) => Ok(()),
            }
        },
        StatementNode::FunctionInvocation(name, args) => {
            proof {
                assert(s@ == StmtModel::FunctionInvocation(
                    name@,
                    crate::syntax_node::exprs_model(args@),
                ));
            }
            let call = ExpressionNode::FunctionCall(name.clone(), clone_args(args));
            match check_expr(&call, table, sid, ft) {
                Ok(_) => Ok(()),
                Err(d) => Err(d),
            }
        },
        StatementNode::Break => {
            if in_loop {
                Ok(())
            } else {
                Err(
                    Diagnostic::new(
                        DiagnosticKind::LoopControlError,
                        "break outside a while loop".to_owned(),
                        0,
                        0,
                    ),
                )
            }
        },
        StatementNode::Continue => {
            if in_loop {
                Ok(())
            } else {
                Err(
                    Diagnostic::new(
                        DiagnosticKind::LoopControlError,
                        "continue outside a while loop".to_owned(),
                        0,
                        0,
                    ),
                )
            }
        },
        StatementNode::While(c, body) => {
            proof {
                assert(s@ == StmtModel::While(
                    crate::syntax_node::expr_model(*c),
                    crate::syntax_node::stmts_model(body@),
                ));
            }
            match check_expr(c, table, sid, ft) {
                Ok(_) => check_block(body, table, sid, ft, true, ret),
                Err(d) => Err(d),
            }
        },
        StatementNode::IfElse(_, _, _, _) => check_if_else(s, table, sid, ft, in_loop, ret),
    }
}

/// Checks an if/else chain: the condition, the then-body, each else-if
/// branch, and the optional else-body, each body in its own child scope.
#[verifier::loop_isolation(false)]
#[verifier::rlimit(100)]
fn check_if_else(
    s: &StatementNode,
    table: &mut SymbolTable,
    sid: usize,
    ft: &FunctionTable,
    in_loop: bool,
    ret: &Option<TypeLiteral>,
) -> (r: Result<(), Diagnostic>)
    requires
        old(table).wf(),
        sid < old(table)@.scopes.len(),
        s is IfElse,
    ensures
        final(table).wf(),
        old(table)@.scopes.len() <= final(table)@.scopes.len(),
        match a_stmt(s@, old(table)@.scopes, sid as int, ft@, in_loop, ret_view(*ret)) {
            Ok(sc) => r is Ok && final(table)@.scopes == sc,
            Err(k) => r is Err && r->Err_0@.kind == k,
        },
    decreases *s, 0int,
{
    match s {
        StatementNode::IfElse(c, tb, elifs, eb) => {
            let ghost sm = s@;
            let ghost scopes0 = table@.scopes;
            proof {
                assert(sm == StmtModel::IfElse(
                    crate::syntax_node::expr_model(*c),
                    crate::syntax_node::stmts_model(tb@),
                    crate::syntax_node::branch_pairs_model(elifs@),
                    match eb {
                        Some(b) => Some(crate::syntax_node::stmts_model(b@)),
                        None => None,
                    },
                ));
            }
            match check_expr(c, table, sid, ft) {
                Ok(_) => {},
                Err(d) => {
                    return Err(d);
                },
            }
            match check_block(tb, table, sid, ft, in_loop, ret) {
                Ok(_) => {},
                Err(d) => {
                    return Err(d);
                },
            }
            let ghost pairs = crate::syntax_node::branch_pairs_model(elifs@);
            let n = elifs.len();
            let mut i: usize = 0;
            proof {
                crate::syntax_node::lemma_branch_pairs_model_index(elifs@);
                assert(pairs.skip(0) =~= pairs);
            }
            while i < n
                invariant
                    table.wf(),
                    sid < table@.scopes.len(),
                    old(table)@.scopes.len() <= table@.scopes.len(),
                    0 <= i <= n,
                    match a_branches(
                        pairs.skip(i as int),
                        table@.scopes,
                        sid as int,
                        ft@,
                        in_loop,
                        ret_view(*ret),
                    ) {
                        Ok(sc) => a_stmt(sm, scopes0, sid as int, ft@, in_loop, ret_view(*ret))
                            == (match eb {
                            Some(b) => a_block(
                                crate::syntax_node::stmts_model(b@),
                                sc,
                                sid as int,
                                ft@,
                                in_loop,
                                ret_view(*ret),
                            ),
                            None => Ok::<Seq<ScopeModel>, DiagnosticKind>(sc),
                        }),
                        Err(k) => a_stmt(sm, scopes0, sid as int, ft@, in_loop, ret_view(*ret))
                            == Err::<Seq<ScopeModel>, DiagnosticKind>(k),
                    },
                decreases n - i,
            {
                proof {
                    assert(pairs.skip(i as int)[0] == pairs[i as int]);
                    assert(pairs.skip(i as int).drop_first() =~= pairs.skip(i + 1));
                }
                match check_expr(&elifs[i].0, table, sid, ft) {
                    Ok(_) => {},
                    Err(d) => {
                        return Err(d);
                    },
                }
                proof {
                    assert(decreases_to!(*s => (*s)->2));
                    assert(*elifs == (*s)->2);
                    assert(decreases_to!(*elifs => elifs@));
                    assert(decreases_to!(elifs@ => elifs@[i as int]));
                    assert(decreases_to!(elifs@[i as int] => elifs@[i as int].1));
                }
                match check_block(&elifs[i].1, table, sid, ft, in_loop, ret) {
                    Ok(_) => {},
                    Err(d) => {
                        return Err(d);
                    },
                }
                i = i + 1;
            }
            proof {
                assert(pairs.skip(n as int) =~= Seq::<(ExprModel, Seq<StmtModel>)>::empty());
            }
            match eb {
                Some(b) => check_block(b, table, sid, ft, in_loop, ret),
                None => Ok(()),
            }
        },
        _ => {
            proof {
                assert(false);
            }
            Err(Diagnostic::new(DiagnosticKind::ParseError, String::new(), 0, 0))
        },
    }
}

/// Clones an argument list.
fn clone_args(args: &Vec<ExpressionNode>) -> (r: Vec<ExpressionNode>)
    ensures
        crate::syntax_node::exprs_model(r@) == crate::syntax_node::exprs_model(args@),
    decreases *args, 1int,
{
    let mut r: Vec<ExpressionNode> = Vec::new();
    let n = args.len();
    let mut i: usize = 0;
    proof {
        crate::syntax_node::lemma_exprs_model_index(args@);
    }
    while i < n
        invariant
            0 <= i <= n,
            n == args@.len(),
            r@.len() == i,
            forall|q: int|
                0 <= q < i ==> crate::syntax_node::expr_model(#[trigger] r@[q])
                    == crate::syntax_node::expr_model(args@[q]),
        decreases n - i,
    {
        r.push(clone_expr(&args[i]));
        i = i + 1;
    }
    proof {
        crate::syntax_node::lemma_exprs_model_index(r@);
        assert forall|q: int|
            0 <= q < r@.len() implies crate::syntax_node::exprs_model(r@)[q]
            == crate::syntax_node::exprs_model(args@)[q] by {
            assert(crate::syntax_node::expr_model(r@[q]) == crate::syntax_node::expr_model(
                args@[q],
            ));
        }
        assert(crate::syntax_node::exprs_model(r@) =~= crate::syntax_node::exprs_model(args@));
    }
    r
}

/// Clones an expression tree.
fn clone_expr(e: &ExpressionNode) -> (r: ExpressionNode)
    ensures
        crate::syntax_node::expr_model(r) == crate::syntax_node::expr_model(*e),
    decreases *e, 0int,
{
    match e {
        ExpressionNode::Literal(t) => ExpressionNode::Literal(t.clone()),
        ExpressionNode::Binary(l, op, r0) => ExpressionNode::Binary(
            Box::new(clone_expr(l)),
            op.clone(),
            Box::new(clone_expr(r0)),
        ),
        ExpressionNode::Unary(op, x) => ExpressionNode::Unary(op.clone(), Box::new(clone_expr(x))),
        ExpressionNode::Identifier(t) => ExpressionNode::Identifier(t.clone()),
        ExpressionNode::Parenthesized(x) => ExpressionNode::Parenthesized(Box::new(clone_expr(x))),
        ExpressionNode::FunctionCall(name, args) => ExpressionNode::FunctionCall(
            name.clone(),
            clone_args(args),
        ),
    }
}

/// Checks a block in a fresh child scope of `sid`.
#[verifier::loop_isolation(false)]
fn check_block(
    body: &Vec<StatementNode>,
    table: &mut SymbolTable,
    sid: usize,
    ft: &FunctionTable,
    in_loop: bool,
    ret: &Option<TypeLiteral>,
) -> (r: Result<(), Diagnostic>)
    requires
        old(table).wf(),
        sid < old(table)@.scopes.len(),
    ensures
        final(table).wf(),
        old(table)@.scopes.len() <= final(table)@.scopes.len(),
        match a_block(
            crate::syntax_node::stmts_model(body@),
            old(table)@.scopes,
            sid as int,
            ft@,
            in_loop,
            ret_view(*ret),
        ) {
            Ok(sc) => r is Ok && final(table)@.scopes == sc,
            Err(k) => r is Err && r->Err_0@.kind == k,
        },
    decreases *body, 1int,
{
    let ghost scopes0 = table@.scopes;
    let child = table.add_child(sid);
    proof {
        assert(table@.scopes =~= add_child_spec(scopes0, sid as int));
    }
    check_stmts(body, table, child, ft, in_loop, ret)
}

/// Checks the statements of a block in order within scope `sid`.
#[verifier::loop_isolation(false)]
fn check_stmts(
    body: &Vec<StatementNode>,
    table: &mut SymbolTable,
    sid: usize,
    ft: &FunctionTable,
    in_loop: bool,
    ret: &Option<TypeLiteral>,
) -> (r: Result<(), Diagnostic>)
    requires
        old(table).wf(),
        sid < old(table)@.scopes.len(),
    ensures
        final(table).wf(),
        old(table)@.scopes.len() <= final(table)@.scopes.len(),
        match a_stmts(
            crate::syntax_node::stmts_model(body@),
            old(table)@.scopes,
            sid as int,
            ft@,
            in_loop,
            ret_view(*ret),
        ) {
            Ok(sc) => r is Ok && final(table)@.scopes == sc,
            Err(k) => r is Err && r->Err_0@.kind == k,
        },
    decreases *body, 0int,
{
    let ghost bm = crate::syntax_node::stmts_model(body@);
    let ghost scopes0 = table@.scopes;
    let n = body.len();
    let mut i: usize = 0;
    proof {
        crate::syntax_node::lemma_stmts_model_index(body@);
        assert(bm.skip(0) =~= bm);
    }
    while i < n
        invariant
            table.wf(),
            sid < table@.scopes.len(),
            scopes0.len() <= table@.scopes.len(),
            0 <= i <= n,
            match a_stmts(bm.skip(i as int), table@.scopes, sid as int, ft@, in_loop, ret_view(*ret)) {
                Ok(sc) => a_stmts(bm, scopes0, sid as int, ft@, in_loop, ret_view(*ret)) == Ok::<
                    Seq<ScopeModel>,
                    DiagnosticKind,
                >(sc),
                Err(k) => a_stmts(bm, scopes0, sid as int, ft@, in_loop, ret_view(*ret)) == Err::<
                    Seq<ScopeModel>,
                    DiagnosticKind,
                >(k),
            },
        decreases n - i,
    {
        proof {
            assert(bm.skip(i as int)[0] == bm[i as int]);
            assert(bm.skip(i as int).drop_first() =~= bm.skip(i + 1));
            assert(decreases_to!(*body => body@));
            assert(decreases_to!(body@ => body@[i as int]));
        }
        match check_stmt(&body[i], table, sid, ft, in_loop, ret) {
            Ok(_) => {},
            Err(d) => {
                return Err(d);
            },
        }
        i = i + 1;
    }
    proof {
        assert(bm.skip(n as int) =~= Seq::<StmtModel>::empty());
    }
    Ok(())
}

/// Declares the parameters of a function into its root scope.
#[verifier::loop_isolation(false)]
fn check_params(params: &Vec<crate::syntax_node::ParameterNode>, table: &mut SymbolTable) -> (r:
    Result<(), Diagnostic>)
    requires
        old(table).wf(),
        old(table)@.scopes.len() >= 1,
    ensures
        final(table).wf(),
        final(table)@.scopes.len() >= 1,
        match a_params(
            params@.map_values(|p: crate::syntax_node::ParameterNode| p@),
            old(table)@.scopes,
        ) {
            Ok(sc) => r is Ok && final(table)@.scopes == sc,
            Err(k) => r is Err && r->Err_0@.kind == k,
        },
    decreases *params,
{
    let ghost pm = params@.map_values(|p: crate::syntax_node::ParameterNode| p@);
    let ghost scopes0 = table@.scopes;
    let n = params.len();
    let mut i: usize = 0;
    proof {
        assert(pm.len() == params@.len());
        assert(pm.skip(0) =~= pm);
    }
    while i < n
        invariant
            table.wf(),
            table@.scopes.len() >= 1,
            0 <= i <= n,
            match a_params(pm.skip(i as int), table@.scopes) {
                Ok(sc) => a_params(pm, scopes0) == Ok::<Seq<ScopeModel>, DiagnosticKind>(sc),
                Err(k) => a_params(pm, scopes0) == Err::<Seq<ScopeModel>, DiagnosticKind>(k),
            },
        decreases n - i,
    {
        proof {
            assert(pm.skip(i as int)[0] == pm[i as int]);
            assert(pm.skip(i as int).drop_first() =~= pm.skip(i + 1));
            assert(pm[i as int] == params@[i as int]@);
        }
        let name = params[i].name.text.clone();
        let ty = TypeLiteral::of_token(params[i].type_.clone());
        match table.add_symbol(0, name, ty) {
            Ok(_) => {},
            Err(d) => {
                return Err(d);
            },
        }
        i = i + 1;
    }
    proof {
        assert(pm.skip(n as int) =~= Seq::<ParamModel>::empty());
    }
    Ok(())
}

/// Checks one function against the functions registered so far and yields
/// its scope tree.
fn check_function(f: &FunctionNode, ft: &FunctionTable) -> (r: Result<SymbolTable, Diagnostic>)
    ensures
        match a_function(f@, ft@) {
            Ok(sc) => r is Ok && r->Ok_0@.scopes == sc && r->Ok_0.wf(),
            Err(k) => r is Err && r->Err_0@.kind == k,
        },
{
    let mut table = SymbolTable::new();
    proof {
        assert(table@.scopes =~= root_scopes());
        assert(f@.parameters == f.parameters@.map_values(
            |p: crate::syntax_node::ParameterNode| p@,
        ));
    }
    match check_params(&f.parameters, &mut table) {
        Ok(_) => {},
        Err(d) => {
            return Err(d);
        },
    }
    match check_block(&f.body, &mut table, 0, ft, false, &f.return_type) {
        Ok(_) => {},
        Err(d) => {
            return Err(d);
        },
    }
    if f.return_type.is_some() {
        let mut graph = FunctionControlGraph::new(f);
        match graph.build() {
            Ok(_) => {},
            Err(d) => {
                return Err(d);
            },
        }
    }
    Ok(table)
}

/// The result of a successful analysis: one scope tree per function of the
/// program, in program order, and the fully populated function table.
#[derive(Debug)]
pub struct SemanticInfo {
    pub scopes: Vec<SymbolTable>,
    pub functions: FunctionTable,
}

/// The semantic analyzer: a single top-to-bottom pass over the program
/// that populates the scope trees and the function table and type-checks
/// every construct, aborting at the first error.
#[derive(Debug)]
pub struct Anaylzer<'a> {
    syntax_tree: &'a SyntaxTree,
    function_table: FunctionTable,
}

impl<'a> Anaylzer<'a> {
    /// The program under analysis.
    pub closed spec fn program(&self) -> ProgramModel {
        self.syntax_tree@
    }

    /// The signatures registered so far.
    pub closed spec fn table(&self) -> Seq<(Seq<char>, FunctionInfoModel)> {
        self.function_table@
    }

    pub fn new(syntax_tree: &'a SyntaxTree) -> (r: Anaylzer<'a>)
        ensures
            r.program() == syntax_tree@,
            r.table() == Seq::<(Seq<char>, FunctionInfoModel)>::empty(),
    {
        Anaylzer { syntax_tree, function_table: FunctionTable::new() }
    }

    /// Analyzes the whole program.
    #[verifier::loop_isolation(false)]
    #[verifier::rlimit(60)]
    pub fn analyze(&mut self) -> (r: Result<SemanticInfo, Diagnostic>)
        requires
            old(self).table() == Seq::<(Seq<char>, FunctionInfoModel)>::empty(),
        ensures
            match a_program(old(self).program()) {
                Ok((scs, ft)) => r is Ok && tables_views(r->Ok_0.scopes@) == scs
                    && r->Ok_0.functions@ == ft && (forall|i: int|
                    0 <= i < r->Ok_0.scopes@.len() ==> (#[trigger] r->Ok_0.scopes@[i]).wf()),
                Err(k) => r is Err && r->Err_0@.kind == k,
            },
    {
        let ghost pm = self.program();
        let program = self.syntax_tree.get_root();
        let ghost fsm = pm.functions;
        proof {
            assert(fsm == crate::parser::func_views(program.functions@));
            assert(fsm.len() == program.functions@.len());
            assert(fsm.skip(0) =~= fsm);
        }
        let mut scopes: Vec<SymbolTable> = Vec::new();
        let n = program.functions.len();
        let mut i: usize = 0;
        proof {
            assert(tables_views(scopes@) =~= Seq::<Seq<ScopeModel>>::empty());
            assert forall|rest: Seq<Seq<ScopeModel>>| true implies Seq::<Seq<ScopeModel>>::empty()
                + rest =~= rest by {}
        }
        while i < n
            invariant
                0 <= i <= n,
                forall|q: int| 0 <= q < scopes@.len() ==> (#[trigger] scopes@[q]).wf(),
                match a_functions(fsm.skip(i as int), self.function_table@) {
                    Ok((rest, ftf)) => a_program(pm) == Ok::<
                        (Seq<Seq<ScopeModel>>, Seq<(Seq<char>, FunctionInfoModel)>),
                        DiagnosticKind,
                    >((tables_views(scopes@) + rest, ftf)),
                    Err(k) => a_program(pm) == Err::<
                        (Seq<Seq<ScopeModel>>, Seq<(Seq<char>, FunctionInfoModel)>),
                        DiagnosticKind,
                    >(k),
                },
            decreases n - i,
        {
            proof {
                assert(fsm.skip(i as int)[0] == fsm[i as int]);
                assert(fsm.skip(i as int).drop_first() =~= fsm.skip(i + 1));
                assert(fsm[i as int] == program.functions@[i as int]@);
            }
            let f = &program.functions[i];
            let table = match check_function(f, &self.function_table) {
                Ok(t) => t,
                Err(d) => {
                    return Err(d);
                },
            };
            let info = FunctionTableInfo::from(f);
            match self.function_table.add_function(f.name.text.clone(), info) {
                Ok(_) => {},
                Err(d) => {
                    return Err(d);
                },
            }
            let ghost scopes0 = scopes@;
            let ghost t_m = table@.scopes;
            scopes.push(table);
            proof {
                assert(tables_views(scopes@).len() == scopes@.len());
                assert(tables_views(scopes@) =~= tables_views(scopes0).push(t_m));
                if a_functions(fsm.skip(i + 1), self.function_table@) is Ok {
                    let rest2 = a_functions(fsm.skip(i + 1), self.function_table@)->Ok_0.0;
                    assert(tables_views(scopes0) + (seq![t_m] + rest2) =~= tables_views(scopes@)
                        + rest2);
                }
            }
            i = i + 1;
        }
        proof {
            assert(fsm.skip(n as int) =~= Seq::<FunctionModel>::empty());
            assert(tables_views(scopes@) + Seq::<Seq<ScopeModel>>::empty() =~= tables_views(
                scopes@,
            ));
        }
        Ok(SemanticInfo { scopes, functions: self.function_table.clone_table() })
    }
}

} // verus!
