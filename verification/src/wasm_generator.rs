use vstd::prelude::*;
use crate::analyzer::SemanticInfo;
use crate::diagnostics::{Diagnostic, DiagnosticKind};
use crate::function_table::{FunctionInfoModel, FunctionTable, table_lookup};
use crate::indented_text_writer::{IndentedTextWriter, WriterModel};
use crate::symbol_table::{ScopeModel, SymbolTable, lookup_local};
use crate::syntax_node::{
    ExprModel, ExpressionNode, FunctionModel, FunctionNode, ParamModel, ProgramModel, ProgramNode,
    StatementNode, StmtModel, TypeKind, TypeLiteral, TypeModel, spec_type_of_name,
};
use crate::syntax_tree::SyntaxTree;
use crate::token_kind::TokenKind;

verus! {

// ---------------------------------------------------------------------------
// Writer steps and type mapping
// ---------------------------------------------------------------------------

/// One full line of output.
pub open spec fn w_line(w: WriterModel, text: Seq<char>) -> WriterModel {
    WriterModel { output: w.flushed() + text + "\n"@, pending: true, ..w }
}

/// A fragment on the current line.
pub open spec fn w_frag(w: WriterModel, text: Seq<char>) -> WriterModel {
    WriterModel { output: w.flushed() + text, pending: false, ..w }
}

/// One level deeper.
pub open spec fn w_ind(w: WriterModel) -> WriterModel {
    WriterModel {
        indent: if w.indent < usize::MAX as nat {
            (w.indent + 1) as nat
        } else {
            w.indent
        },
        ..w
    }
}

/// One level back out.
pub open spec fn w_unind(w: WriterModel) -> WriterModel {
    WriterModel {
        indent: if w.indent >= 1 {
            (w.indent - 1) as nat
        } else {
            0
        },
        ..w
    }
}

/// The instruction family of a type: `int` lowers to i32 and `float` to
/// f32; these are the only supported mappings, and any other type reaching
/// the generator is a code-generation error.
pub open spec fn wasm_type_name(k: TypeKind) -> Option<Seq<char>> {
    match k {
        TypeKind::Integer => Some("i32"@),
        TypeKind::Float => Some("f32"@),
        _ => None,
    }
}

/// The instruction suffix of a binary operator in a family: division,
/// remainder and the ordering comparisons have distinct signed-integer and
/// floating encodings; add, subtract, multiply and the two equality
/// comparisons are spelled alike in both.
pub open spec fn binary_op_suffix(k: TokenKind, family: TypeKind) -> Option<Seq<char>> {
    match k {
        TokenKind::PlusToken => Some(".add"@),
        TokenKind::MinusToken => Some(".sub"@),
        TokenKind::StarToken => Some(".mul"@),
        TokenKind::EqualEqualToken => Some(".eq"@),
        TokenKind::NotEqualToken => Some(".ne"@),
        TokenKind::SlashToken => if family == TypeKind::Float {
            Some(".div"@)
        } else {
            Some(".div_s"@)
        },
        TokenKind::ModulusToken => if family == TypeKind::Float {
            Some(".rem"@)
        } else {
            Some(".rem_s"@)
        },
        TokenKind::GreaterThanToken => if family == TypeKind::Float {
            Some(".gt"@)
        } else {
            Some(".gt_s"@)
        },
        TokenKind::SmallerThanToken => if family == TypeKind::Float {
            Some(".lt"@)
        } else {
            Some(".lt_s"@)
        },
        TokenKind::GreaterThanEqualToken => if family == TypeKind::Float {
            Some(".ge"@)
        } else {
            Some(".ge_s"@)
        },
        TokenKind::SmallerThanEqualToken => if family == TypeKind::Float {
            Some(".le"@)
        } else {
            Some(".le_s"@)
        },
        _ => None,
    }
}

// ---------------------------------------------------------------------------
// Flattened local variables
// ---------------------------------------------------------------------------

/// The declarations of the scope subtree rooted at `id`, in depth-first
/// creation order: the scope's own entries, then each child's subtree.
pub open spec fn flat_locals(scopes: Seq<ScopeModel>, id: int) -> Seq<(Seq<char>, TypeModel)>
    decreases scopes.len() - id, 1int, 0int,
{
    if id < 0 || id >= scopes.len() {
        Seq::empty()
    } else {
        scopes[id].symbols + flat_locals_children(scopes, id, scopes[id].children)
    }
}

/// The declarations of the subtrees of the children in `children` of scope
/// `id` (children with out-of-order indices contribute nothing; a
/// well-formed tree has none).
pub open spec fn flat_locals_children(
    scopes: Seq<ScopeModel>,
    id: int,
    children: Seq<int>,
) -> Seq<(Seq<char>, TypeModel)>
    decreases scopes.len() - id, 0int, children.len(),
{
    if children.len() == 0 {
        Seq::empty()
    } else {
        (if id < children[0] < scopes.len() {
            flat_locals(scopes, children[0])
        } else {
            Seq::empty()
        }) + flat_locals_children(scopes, id, children.drop_first())
    }
}

/// Whether the same name is declared twice anywhere in the flattened list:
/// the target's local-variable namespace cannot express shadowing, so this
/// fails code generation.
pub open spec fn has_dup(l: Seq<(Seq<char>, TypeModel)>) -> bool {
    exists|i: int, j: int| 0 <= i < j < l.len() && l[i].0 == l[j].0
}

// ---------------------------------------------------------------------------
// Emission of expressions
// ---------------------------------------------------------------------------

/// The writer after emitting a literal: the lexeme is kept verbatim behind
/// the family constant instruction.
pub open spec fn g_literal(t: TypeModel, w: WriterModel) -> Result<WriterModel, DiagnosticKind> {
    match t {
        TypeModel::Integer(tok) => Ok(w_line(w, "i32.const "@ + tok.text)),
        TypeModel::Float(tok) => Ok(w_line(w, "f32.const "@ + tok.text)),
        _ => Err(DiagnosticKind::CodeGenError),
    }
}

/// The writer after emitting an expression. Lowering is type-directed: the
/// static type of the left-hand context selects the integer or floating
/// instruction family. Unary minus lowers to a multiplication by the
/// constant -1 and logical negation to a comparison with the constant 0;
/// unary plus emits nothing of its own. A call pushes its arguments and
/// calls the callee.
pub open spec fn g_expr(
    e: ExprModel,
    lhs: TypeKind,
    ft: Seq<(Seq<char>, FunctionInfoModel)>,
    w: WriterModel,
) -> Result<WriterModel, DiagnosticKind>
    decreases e, 1int,
{
    match e {
        ExprModel::Literal(t) => g_literal(t, w),
        ExprModel::Identifier(id) => Ok(w_line(w, "local.get $"@ + id.text)),
        ExprModel::Parenthesized(x) => g_expr(*x, lhs, ft, w),
        ExprModel::Unary(op, x) => match g_expr(*x, lhs, ft, w) {
            Ok(w1) => match wasm_type_name(lhs) {
                Some(sym) => {
                    if op.kind == TokenKind::MinusToken {
                        Ok(w_line(w_line(w1, sym + ".const -1"@), sym + ".mul"@))
                    } else if op.kind == TokenKind::BangToken {
                        Ok(w_line(w_line(w1, sym + ".const 0"@), sym + ".eq"@))
                    } else if op.kind == TokenKind::PlusToken {
                        Ok(w1)
                    } else {
                        Err(DiagnosticKind::CodeGenError)
                    }
                },
                None => Err(DiagnosticKind::CodeGenError),
            },
            Err(k) => Err(k),
        },
        ExprModel::Binary(l, op, r) => match g_expr(*l, lhs, ft, w) {
            Ok(w1) => match g_expr(*r, lhs, ft, w1) {
                Ok(w2) => match wasm_type_name(lhs) {
                    Some(sym) => match binary_op_suffix(op.kind, lhs) {
                        Some(suffix) => Ok(w_line(w2, sym + suffix)),
                        None => Err(DiagnosticKind::CodeGenError),
                    },
                    None => Err(DiagnosticKind::CodeGenError),
                },
                Err(k) => Err(k),
            },
            Err(k) => Err(k),
        },
        ExprModel::FunctionCall(name, args) => g_call(name.text, args, ft, w, false),
    }
}

/// The writer after emitting the arguments of a call, each in the family
/// of the parameter type it is passed to.
pub open spec fn g_args(
    args: Seq<ExprModel>,
    ptypes: Seq<TypeModel>,
    ft: Seq<(Seq<char>, FunctionInfoModel)>,
    w: WriterModel,
) -> Result<WriterModel, DiagnosticKind>
    decreases args, 2int,
{
    if args.len() == 0 {
        Ok(w)
    } else {
        let lhs = if ptypes.len() > 0 {
            ptypes[0].kind()
        } else {
            TypeKind::Integer
        };
        let pt_rest = if ptypes.len() > 0 {
            ptypes.drop_first()
        } else {
            ptypes
        };
        match g_expr(args[0], lhs, ft, w) {
            Ok(w1) => g_args(args.drop_first(), pt_rest, ft, w1),
            Err(k) => Err(k),
        }
    }
}

/// The writer after emitting a call: the arguments, the call instruction,
/// and — for a call statement whose callee returns a value — a drop of the
/// unused result.
pub open spec fn g_call(
    name: Seq<char>,
    args: Seq<ExprModel>,
    ft: Seq<(Seq<char>, FunctionInfoModel)>,
    w: WriterModel,
    discard: bool,
) -> Result<WriterModel, DiagnosticKind>
    decreases args, 3int,
{
    match table_lookup(ft, name) {
        Some(sig) => match g_args(args, sig.parameters, ft, w) {
            Ok(w1) => {
                let w2 = w_line(w1, "call $"@ + name);
                if discard && sig.return_type is Some {
                    Ok(w_line(w2, "drop"@))
                } else {
                    Ok(w2)
                }
            },
            Err(k) => Err(k),
        },
        None => Err(DiagnosticKind::CodeGenError),
    }
}

// ---------------------------------------------------------------------------
// Emission of statements
// ---------------------------------------------------------------------------

/// `n` closing `end` lines.
pub open spec fn g_ends(w: WriterModel, n: nat) -> WriterModel
    decreases n,
{
    if n == 0 {
        w
    } else {
        g_ends(w_line(w, "end"@), (n - 1) as nat)
    }
}

/// The writer after emitting one statement. A declaration or assignment
/// emits its right-hand side in the family of the flattened local's type
/// and stores to the named local. A return emits its optional expression in
/// the family of the function's declared return type, then the return
/// instruction. A while loop opens a block and a loop, emits the condition
/// and its logical negation, branches out of the block if the negation
/// holds, emits the body, and branches back to the loop start. An if chain
/// emits each condition and branch in order with one closing end per opened
/// branch. Break and continue statements are not lowered by this backend.
pub open spec fn g_stmt(
    s: StmtModel,
    locals: Seq<(Seq<char>, TypeModel)>,
    ret: Option<TypeModel>,
    ft: Seq<(Seq<char>, FunctionInfoModel)>,
    w: WriterModel,
) -> Result<WriterModel, DiagnosticKind>
    decreases s, 1int,
{
    match s {
        StmtModel::Declaration(name, e) => match lookup_local(locals, name.text) {
            Some(t) => match g_expr(e, t.kind(), ft, w) {
                Ok(w1) => Ok(w_line(w1, "local.set $"@ + name.text)),
                Err(k) => Err(k),
            },
            None => Err(DiagnosticKind::CodeGenError),
        },
        StmtModel::Assignment(name, e) => match lookup_local(locals, name.text) {
            Some(t) => match g_expr(e, t.kind(), ft, w) {
                Ok(w1) => Ok(w_line(w1, "local.set $"@ + name.text)),
                Err(k) => Err(k),
            },
            None => Err(DiagnosticKind::CodeGenError),
        },
        StmtModel::Return(eo) => match eo {
            None => Ok(w_line(w, "return"@)),
            Some(e) => match ret {
                Some(rt) => match g_expr(e, rt.kind(), ft, w) {
                    Ok(w1) => Ok(w_line(w1, "return"@)),
                    Err(k) => Err(k),
                },
                None => Err(DiagnosticKind::CodeGenError),
            },
        },
        StmtModel::While(c, body) => {
            let w1 = w_ind(w_line(w, "(block"@));
            let w2 = w_ind(w_line(w1, "(loop"@));
            match g_expr(c, TypeKind::Integer, ft, w2) {
                Ok(w3) => {
                    let w4 = w_line(w_line(w_line(w3, "i32.const 0"@), "i32.eq"@), "br_if 1"@);
                    match g_body(body, locals, ret, ft, w4) {
                        Ok(w5) => {
                            let w6 = w_line(w_unind(w_line(w5, "br 0"@)), ")"@);
                            Ok(w_line(w_unind(w6), ")"@))
                        },
                        Err(k) => Err(k),
                    }
                },
                Err(k) => Err(k),
            }
        },
        StmtModel::IfElse(c, tb, elifs, eb) => match g_expr(c, TypeKind::Integer, ft, w) {
            Ok(w1) => {
                let w2 = w_ind(w_line(w1, "if"@));
                match g_body(tb, locals, ret, ft, w2) {
                    Ok(w3) => match g_elifs(elifs, locals, ret, ft, w_unind(w3)) {
                        Ok(w4) => {
                            let after_else = match eb {
                                Some(b) => match g_body(
                                    b,
                                    locals,
                                    ret,
                                    ft,
                                    w_ind(w_line(w4, "else"@)),
                                ) {
                                    Ok(w5) => Ok(w_unind(w5)),
                                    Err(k) => Err::<WriterModel, DiagnosticKind>(k),
                                },
                                None => Ok(w4),
                            };
                            match after_else {
                                Ok(w6) => Ok(g_ends(w6, (elifs.len() + 1) as nat)),
                                Err(k) => Err(k),
                            }
                        },
                        Err(k) => Err(k),
                    },
                    Err(k) => Err(k),
                }
            },
            Err(k) => Err(k),
        },
        StmtModel::FunctionInvocation(name, args) => g_call(name.text, args, ft, w, true),
        StmtModel::Break => Err(DiagnosticKind::CodeGenError),
        StmtModel::Continue => Err(DiagnosticKind::CodeGenError),
    }
}

/// The writer after emitting the statements of a block in order.
pub open spec fn g_body(
    body: Seq<StmtModel>,
    locals: Seq<(Seq<char>, TypeModel)>,
    ret: Option<TypeModel>,
    ft: Seq<(Seq<char>, FunctionInfoModel)>,
    w: WriterModel,
) -> Result<WriterModel, DiagnosticKind>
    decreases body, 0int,
{
    if body.len() == 0 {
        Ok(w)
    } else {
        match g_stmt(body[0], locals, ret, ft, w) {
            Ok(w1) => g_body(body.drop_first(), locals, ret, ft, w1),
            Err(k) => Err(k),
        }
    }
}

/// The writer after emitting the else-if parts of an if chain: each opens
/// one further branch, closed later by `g_ends`.
pub open spec fn g_elifs(
    elifs: Seq<(ExprModel, Seq<StmtModel>)>,
    locals: Seq<(Seq<char>, TypeModel)>,
    ret: Option<TypeModel>,
    ft: Seq<(Seq<char>, FunctionInfoModel)>,
    w: WriterModel,
) -> Result<WriterModel, DiagnosticKind>
    decreases elifs, 2int,
{
    if elifs.len() == 0 {
        Ok(w)
    } else {
        match g_expr(elifs[0].0, TypeKind::Integer, ft, w_line(w, "else"@)) {
            Ok(w1) => {
                let w2 = w_ind(w_line(w1, "if"@));
                match g_body(elifs[0].1, locals, ret, ft, w2) {
                    Ok(w3) => g_elifs(elifs.drop_first(), locals, ret, ft, w_unind(w3)),
                    Err(k) => Err(k),
                }
            },
            Err(k) => Err(k),
        }
    }
}

// ---------------------------------------------------------------------------
// Emission of functions and modules
// ---------------------------------------------------------------------------

/// The writer after the parameter fragments of a function header.
pub open spec fn g_params(params: Seq<ParamModel>, w: WriterModel) -> Result<
    WriterModel,
    DiagnosticKind,
>
    decreases params,
{
    if params.len() == 0 {
        Ok(w)
    } else {
        match wasm_type_name(spec_type_of_name(params[0].ty).kind()) {
            Some(sym) => g_params(
                params.drop_first(),
                w_frag(
                    w_frag(w_frag(w, "( "@), "param $"@ + params[0].name.text + " "@ + sym),
                    ") "@,
                ),
            ),
            None => Err(DiagnosticKind::CodeGenError),
        }
    }
}

/// The writer after the optional result-type fragment.
pub open spec fn g_result_type(ret: Option<TypeModel>, w: WriterModel) -> Result<
    WriterModel,
    DiagnosticKind,
> {
    match ret {
        Some(t) => match wasm_type_name(t.kind()) {
            Some(sym) => Ok(w_frag(w_frag(w_frag(w, " (result "@), sym), ")"@)),
            None => Err(DiagnosticKind::CodeGenError),
        },
        None => Ok(w),
    }
}

/// The writer after the local-variable fragments.
pub open spec fn g_locals_emit(locals: Seq<(Seq<char>, TypeModel)>, w: WriterModel) -> Result<
    WriterModel,
    DiagnosticKind,
>
    decreases locals,
{
    if locals.len() == 0 {
        Ok(w)
    } else {
        match wasm_type_name(locals[0].1.kind()) {
            Some(sym) => g_locals_emit(
                locals.drop_first(),
                w_frag(
                    w_frag(w_frag(w, " (local "@), "$"@ + locals[0].0 + " "@ + sym),
                    ") "@,
                ),
            ),
            None => Err(DiagnosticKind::CodeGenError),
        }
    }
}

/// The writer after one whole function: header with parameters, optional
/// result type and flattened locals (the parameters, which live in the root
/// scope, are not re-declared as locals), then the lowered body. The
/// flattened namespace must be free of duplicates.
pub open spec fn g_function(
    f: FunctionModel,
    scopes: Seq<ScopeModel>,
    ft: Seq<(Seq<char>, FunctionInfoModel)>,
    w: WriterModel,
) -> Result<WriterModel, DiagnosticKind> {
    let all = flat_locals(scopes, 0);
    if has_dup(all) {
        Err(DiagnosticKind::CodeGenError)
    } else {
        let w1 = w_frag(w_frag(w, "(func $"@), f.name.text);
        match g_params(f.parameters, w1) {
            Ok(w2) => match g_result_type(f.return_type, w2) {
                Ok(w3) => match g_locals_emit(all.skip(scopes[0].symbols.len() as int), w3) {
                    Ok(w4) => {
                        let w5 = w_ind(w_line(w4, ""@));
                        match g_body(f.body, all, f.return_type, ft, w5) {
                            Ok(w6) => Ok(w_line(w_unind(w6), ")"@)),
                            Err(k) => Err(k),
                        }
                    },
                    Err(k) => Err(k),
                },
                Err(k) => Err(k),
            },
            Err(k) => Err(k),
        }
    }
}

/// The writer after all functions, each against its own scope tree.
pub open spec fn g_functions(
    fs: Seq<FunctionModel>,
    scopess: Seq<Seq<ScopeModel>>,
    ft: Seq<(Seq<char>, FunctionInfoModel)>,
    w: WriterModel,
) -> Result<WriterModel, DiagnosticKind>
    decreases fs,
{
    if fs.len() == 0 {
        Ok(w)
    } else if scopess.len() == 0 {
        Err(DiagnosticKind::CodeGenError)
    } else {
        match g_function(fs[0], scopess[0], ft, w) {
            Ok(w1) => g_functions(fs.drop_first(), scopess.drop_first(), ft, w1),
            Err(k) => Err(k),
        }
    }
}

/// The writer after one export line per top-level function, under its
/// declared source name.
pub open spec fn g_exports(fs: Seq<FunctionModel>, w: WriterModel) -> WriterModel
    decreases fs,
{
    if fs.len() == 0 {
        w
    } else {
        g_exports(
            fs.drop_first(),
            w_line(
                w,
                "(export \""@ + fs[0].name.text + "\" (func $"@ + fs[0].name.text + "))"@,
            ),
        )
    }
}

/// The writer after the whole module.
pub open spec fn g_module(
    p: ProgramModel,
    scopess: Seq<Seq<ScopeModel>>,
    ft: Seq<(Seq<char>, FunctionInfoModel)>,
    w: WriterModel,
) -> Result<WriterModel, DiagnosticKind> {
    let w1 = w_ind(w_line(w, "(module"@));
    match g_functions(p.functions, scopess, ft, w1) {
        Ok(w2) => Ok(w_line(w_unind(g_exports(p.functions, w2)), ")"@)),
        Err(k) => Err(k),
    }
}

/// The tail of a parameter-type list from position `i` on; empty once the
/// list is exhausted.
pub open spec fn pt_tail(ptm: Seq<TypeModel>, i: int) -> Seq<TypeModel> {
    if 0 <= i < ptm.len() {
        ptm.skip(i)
    } else {
        Seq::empty()
    }
}

/// The fresh writer the generator starts from.
pub open spec fn initial_writer() -> WriterModel {
    WriterModel { output: Seq::<char>::empty(), indent: 0, tab: "\t"@, pending: true }
}

/// The assembly text of a checked program under its scope trees and
/// function table, or the class of the first lowering error.
pub open spec fn wat_of(
    p: ProgramModel,
    scopess: Seq<Seq<ScopeModel>>,
    ft: Seq<(Seq<char>, FunctionInfoModel)>,
) -> Result<WriterModel, DiagnosticKind> {
    g_module(p, scopess, ft, initial_writer())
}

// ---------------------------------------------------------------------------
// The executable generator: expressions
// ---------------------------------------------------------------------------

/// A code-generation diagnostic.
fn codegen_error(text: &str) -> (r: Diagnostic)
    ensures
        r@.kind == DiagnosticKind::CodeGenError,
{
    Diagnostic::new(DiagnosticKind::CodeGenError, text.to_owned(), 0, 0)
}

/// The instruction family name of a type, or a code-generation error for
/// the unsupported mappings.
fn get_wasm_type_from(kind: TypeKind) -> (r: Result<&'static str, Diagnostic>)
    ensures
        match wasm_type_name(kind) {
            Some(s) => r is Ok && r->Ok_0@ == s,
            None => r is Err && r->Err_0@.kind == DiagnosticKind::CodeGenError,
        },
{
    match kind {
        TypeKind::Integer => Ok("i32"),
        TypeKind::Float => Ok("f32"),
        _ => Err(codegen_error("unsupported type mapping")),
    }
}

/// The instruction suffix of a binary operator in a family.
fn binary_suffix(k: TokenKind, family: TypeKind) -> (r: Option<&'static str>)
    ensures
        match binary_op_suffix(k, family) {
            Some(s) => r is Some && r->0@ == s,
            None => r is None,
        },
{
    let f = family == TypeKind::Float;
    match k {
        TokenKind::PlusToken => Some(".add"),
        TokenKind::MinusToken => Some(".sub"),
        TokenKind::StarToken => Some(".mul"),
        TokenKind::EqualEqualToken => Some(".eq"),
        TokenKind::NotEqualToken => Some(".ne"),
        TokenKind::SlashToken => if f {
            Some(".div")
        } else {
            Some(".div_s")
        },
        TokenKind::ModulusToken => if f {
            Some(".rem")
        } else {
            Some(".rem_s")
        },
        TokenKind::GreaterThanToken => if f {
            Some(".gt")
        } else {
            Some(".gt_s")
        },
        TokenKind::SmallerThanToken => if f {
            Some(".lt")
        } else {
            Some(".lt_s")
        },
        TokenKind::GreaterThanEqualToken => if f {
            Some(".ge")
        } else {
            Some(".ge_s")
        },
        TokenKind::SmallerThanEqualToken => if f {
            Some(".le")
        } else {
            Some(".le_s")
        },
        _ => None,
    }
}

/// Emits a literal behind its family's constant instruction, keeping the
/// lexeme verbatim.
fn build_literal(t: &TypeLiteral, writer: &mut IndentedTextWriter) -> (r: Result<(), Diagnostic>)
    ensures
        match g_literal(t@, old(writer)@) {
            Ok(wm) => r is Ok && final(writer)@ == wm,
            Err(k) => r is Err && r->Err_0@.kind == k && final(writer)@ == old(writer)@,
        },
{
    match t {
        TypeLiteral::Integer(tok) => {
            let mut s = "i32.const ".to_owned();
            s.append(tok.text.as_str());
            writer.write_line(s.as_str());
            Ok(())
        },
        TypeLiteral::Float(tok) => {
            let mut s = "f32.const ".to_owned();
            s.append(tok.text.as_str());
            writer.write_line(s.as_str());
            Ok(())
        },
        _ => Err(codegen_error("unsupported literal")),
    }
}

/// Emits a read of the named local.
fn build_identifier(id: &crate::syntax_token::SyntaxToken, writer: &mut IndentedTextWriter)
    ensures
        final(writer)@ == w_line(old(writer)@, "local.get $"@ + id@.text),
{
    let mut s = "local.get $".to_owned();
    s.append(id.text.as_str());
    writer.write_line(s.as_str());
}

/// Emits an expression, selecting instructions by the family of the
/// left-hand context's type.
#[verifier::loop_isolation(false)]
#[verifier::rlimit(100)]
fn build_expression(
    e: &ExpressionNode,
    lhs: TypeKind,
    ft: &FunctionTable,
    writer: &mut IndentedTextWriter,
) -> (r: Result<(), Diagnostic>)
    ensures
        match g_expr(e@, lhs, ft@, old(writer)@) {
            Ok(wm) => r is Ok && final(writer)@ == wm,
            Err(k) => r is Err && r->Err_0@.kind == k,
        },
    decreases *e, 1int,
{
    match e {
        ExpressionNode::Literal(t) => {
            proof {
                assert(e@ == ExprModel::Literal(t@));
            }
            build_literal(t, writer)
        },
        ExpressionNode::Identifier(id) => {
            proof {
                assert(e@ == ExprModel::Identifier(id@));
            }
            build_identifier(id, writer);
            Ok(())
        },
        ExpressionNode::Parenthesized(x) => {
            proof {
                assert(e@ == ExprModel::Parenthesized(
                    Box::new(crate::syntax_node::expr_model(**x)),
                ));
            }
            build_expression(x, lhs, ft, writer)
        },
        ExpressionNode::Unary(op, x) => {
            proof {
                assert(e@ == ExprModel::Unary(op@, Box::new(crate::syntax_node::expr_model(**x))));
            }
            match build_expression(x, lhs, ft, writer) {
                Ok(_) => {},
                Err(d) => {
                    return Err(d);
                },
            }
            let sym = match get_wasm_type_from(lhs) {
                Ok(s) => s,
                Err(d) => {
                    return Err(d);
                },
            };
            if op.kind == TokenKind::MinusToken {
                let mut s1 = sym.to_owned();
                s1.append(".const -1");
                writer.write_line(s1.as_str());
                let mut s2 = sym.to_owned();
                s2.append(".mul");
                writer.write_line(s2.as_str());
                proof {
                    assert(sym@ + ".const -1"@ == s1@);
                    assert(sym@ + ".mul"@ == s2@);
                }
                Ok(())
            } else if op.kind == TokenKind::BangToken {
                let mut s1 = sym.to_owned();
                s1.append(".const 0");
                writer.write_line(s1.as_str());
                let mut s2 = sym.to_owned();
                s2.append(".eq");
                writer.write_line(s2.as_str());
                Ok(())
            } else if op.kind == TokenKind::PlusToken {
                Ok(())
            } else {
                Err(codegen_error("unsupported unary operator"))
            }
        },
        ExpressionNode::Binary(l, op, r0) => {
            proof {
                assert(e@ == ExprModel::Binary(
                    Box::new(crate::syntax_node::expr_model(**l)),
                    op@,
                    Box::new(crate::syntax_node::expr_model(**r0)),
                ));
            }
            match build_expression(l, lhs, ft, writer) {
                Ok(_) => {},
                Err(d) => {
                    return Err(d);
                },
            }
            match build_expression(r0, lhs, ft, writer) {
                Ok(_) => {},
                Err(d) => {
                    return Err(d);
                },
            }
            let sym = match get_wasm_type_from(lhs) {
                Ok(s) => s,
                Err(d) => {
                    return Err(d);
                },
            };
            match binary_suffix(op.kind, lhs) {
                Some(suffix) => {
                    let mut s = sym.to_owned();
                    s.append(suffix);
                    writer.write_line(s.as_str());
                    Ok(())
                },
                None => Err(codegen_error("unsupported binary operator")),
            }
        },
        ExpressionNode::FunctionCall(name, args) => {
            proof {
                assert(e@ == ExprModel::FunctionCall(
                    name@,
                    crate::syntax_node::exprs_model(args@),
                ));
            }
            build_call(name, args, ft, writer, false)
        },
    }
}

/// Emits the arguments of a call, each in the family of its parameter's
/// type.
#[verifier::loop_isolation(false)]
fn build_args(
    args: &Vec<ExpressionNode>,
    ptypes: &Vec<TypeLiteral>,
    ft: &FunctionTable,
    writer: &mut IndentedTextWriter,
) -> (r: Result<(), Diagnostic>)
    ensures
        match g_args(
            crate::syntax_node::exprs_model(args@),
            crate::function_table::types_view(ptypes@),
            ft@,
            old(writer)@,
        ) {
            Ok(wm) => r is Ok && final(writer)@ == wm,
            Err(k) => r is Err && r->Err_0@.kind == k,
        },
    decreases *args, 2int,
{
    let ghost am = crate::syntax_node::exprs_model(args@);
    let ghost ptm = crate::function_table::types_view(ptypes@);
    let ghost w0 = writer@;
    let n = args.len();
    let mut i: usize = 0;
    proof {
        crate::syntax_node::lemma_exprs_model_index(args@);
        assert(am.skip(0) =~= am);
        assert(pt_tail(ptm, 0) =~= ptm);
        assert(ptm.len() == ptypes@.len());
    }
    while i < n
        invariant
            0 <= i <= n,
            i <= am.len(),
            match g_args(am.skip(i as int), pt_tail(ptm, i as int), ft@, writer@) {
                Ok(wm) => g_args(am, ptm, ft@, w0) == Ok::<WriterModel, DiagnosticKind>(wm),
                Err(k) => g_args(am, ptm, ft@, w0) == Err::<WriterModel, DiagnosticKind>(k),
            },
        decreases n - i,
    {
        proof {
            assert(am.skip(i as int)[0] == am[i as int]);
            assert(am.skip(i as int).drop_first() =~= am.skip(i + 1));
            if i < ptm.len() {
                assert(pt_tail(ptm, i as int) == ptm.skip(i as int));
                assert(ptm.skip(i as int)[0] == ptm[i as int]);
                assert(ptm.skip(i as int).drop_first() =~= pt_tail(ptm, i + 1));
            } else {
                assert(pt_tail(ptm, i as int) =~= Seq::<TypeModel>::empty());
                assert(pt_tail(ptm, i + 1) =~= Seq::<TypeModel>::empty());
            }
        }
        let lhs = if i < ptypes.len() {
            ptypes[i].kind()
        } else {
            TypeKind::Integer
        };
        match build_expression(&args[i], lhs, ft, writer) {
            Ok(_) => {},
            Err(d) => {
                return Err(d);
            },
        }
        i = i + 1;
    }
    proof {
        assert(am.skip(n as int) =~= Seq::<ExprModel>::empty());
    }
    Ok(())
}

/// Emits a call: the arguments, the call instruction, and — where a call
/// statement discards a returned value — a drop.
#[verifier::loop_isolation(false)]
fn build_call(
    name: &crate::syntax_token::SyntaxToken,
    args: &Vec<ExpressionNode>,
    ft: &FunctionTable,
    writer: &mut IndentedTextWriter,
    discard: bool,
) -> (r: Result<(), Diagnostic>)
    ensures
        match g_call(name@.text, crate::syntax_node::exprs_model(args@), ft@, old(writer)@, discard) {
            Ok(wm) => r is Ok && final(writer)@ == wm,
            Err(k) => r is Err && r->Err_0@.kind == k,
        },
    decreases *args, 3int,
{
    let sig = match ft.get_function(&name.text) {
        Ok(s) => s,
        Err(_) => {
            return Err(codegen_error("call to an unregistered function"));
        },
    };
    match build_args(args, &sig.parameters, ft, writer) {
        Ok(_) => {},
        Err(d) => {
            return Err(d);
        },
    }
    let mut s = "call $".to_owned();
    s.append(name.text.as_str());
    writer.write_line(s.as_str());
    if discard && sig.return_type.is_some() {
        writer.write_line("drop");
    }
    Ok(())
}


// ---------------------------------------------------------------------------
// The executable generator: statements
// ---------------------------------------------------------------------------

/// The flattened type of a named local.
fn table_read_type(locals: &Vec<(String, TypeLiteral)>, name: &str) -> (r: Option<TypeLiteral>)
    ensures
        match lookup_local(crate::symbol_table::symbols_view(locals@), name@) {
            Some(t) => r is Some && r->0@ == t,
            None => r is None,
        },
{
    let ghost lm = crate::symbol_table::symbols_view(locals@);
    let n = locals.len();
    let mut i: usize = 0;
    proof {
        assert(lm.len() == locals@.len());
        assert(lm.skip(0) =~= lm);
    }
    while i < n
        invariant
            0 <= i <= n,
            n == locals@.len(),
            lm == crate::symbol_table::symbols_view(locals@),
            lm.len() == n,
            lookup_local(lm, name@) == lookup_local(lm.skip(i as int), name@),
        decreases n - i,
    {
        proof {
            assert(lm.skip(i as int)[0] == lm[i as int]);
            assert(lm.skip(i as int).drop_first() =~= lm.skip(i + 1));
        }
        if crate::syntax_node::str_eq_check(locals[i].0.as_str(), name) {
            return Some(locals[i].1.clone());
        }
        i = i + 1;
    }
    proof {
        assert(lm.skip(n as int) =~= Seq::<(Seq<char>, TypeModel)>::empty());
    }
    None
}

/// Emits `n` closing `end` lines.
fn build_ends(n: usize, writer: &mut IndentedTextWriter)
    ensures
        final(writer)@ == g_ends(old(writer)@, n as nat),
{
    let ghost w0 = writer@;
    let mut i: usize = 0;
    while i < n
        invariant
            0 <= i <= n,
            g_ends(w0, n as nat) == g_ends(writer@, (n - i) as nat),
        decreases n - i,
    {
        writer.write_line("end");
        i = i + 1;
    }
}

/// Emits the initializer or right-hand side of a declaration or
/// assignment, then the store to the named local.
fn build_store(
    name: &crate::syntax_token::SyntaxToken,
    e: &ExpressionNode,
    locals: &Vec<(String, TypeLiteral)>,
    ft: &FunctionTable,
    writer: &mut IndentedTextWriter,
) -> (r: Result<(), Diagnostic>)
    ensures
        match (match lookup_local(crate::symbol_table::symbols_view(locals@), name@.text) {
            Some(t) => match g_expr(e@, t.kind(), ft@, old(writer)@) {
                Ok(w1) => Ok(w_line(w1, "local.set $"@ + name@.text)),
                Err(k) => Err(k),
            },
            None => Err::<WriterModel, DiagnosticKind>(DiagnosticKind::CodeGenError),
        }) {
            Ok(wm) => r is Ok && final(writer)@ == wm,
            Err(k) => r is Err && r->Err_0@.kind == k,
        },
{
    let t = match table_read_type(locals, name.text.as_str()) {
        Some(t) => t,
        None => {
            return Err(codegen_error("variable missing from the flattened scope"));
        },
    };
    match build_expression(e, t.kind(), ft, writer) {
        Ok(_) => {},
        Err(d) => {
            return Err(d);
        },
    }
    let mut s = "local.set $".to_owned();
    s.append(name.text.as_str());
    writer.write_line(s.as_str());
    Ok(())
}

/// Emits one statement.
#[verifier::loop_isolation(false)]
#[verifier::rlimit(100)]
fn build_statement(
    s: &StatementNode,
    locals: &Vec<(String, TypeLiteral)>,
    ret: &Option<TypeLiteral>,
    ft: &FunctionTable,
    writer: &mut IndentedTextWriter,
) -> (r: Result<(), Diagnostic>)
    ensures
        match g_stmt(
            s@,
            crate::symbol_table::symbols_view(locals@),
            crate::analyzer::ret_view(*ret),
            ft@,
            old(writer)@,
        ) {
            Ok(wm) => r is Ok && final(writer)@ == wm,
            Err(k) => r is Err && r->Err_0@.kind == k,
        },
    decreases *s, 1int,
{
    match s {
        StatementNode::Declaration(name, e) => {
            proof {
                assert(s@ == StmtModel::Declaration(name@, crate::syntax_node::expr_model(*e)));
            }
            build_store(name, e, locals, ft, writer)
        },
        StatementNode::Assignment(name, e) => {
            proof {
                assert(s@ == StmtModel::Assignment(name@, crate::syntax_node::expr_model(*e)));
            }
            build_store(name, e, locals, ft, writer)
        },
        StatementNode::Return(eo) => {
            match eo {
                None => {
                    writer.write_line("return");
                    Ok(())
                },
                Some(e) => {
                    proof {
                        assert(s@ == StmtModel::Return(
                            Some(crate::syntax_node::expr_model(*e)),
                        ));
                    }
                    match ret {
                        Some(rt) => {
                            match build_expression(e, rt.kind(), ft, writer) {
                                Ok(_) => {},
                                Err(d) => {
                                    return Err(d);
                                },
                            }
                            writer.write_line("return");
                            Ok(())
                        },
                        None => Err(codegen_error("return value in a void function")),
                    }
                },
            }
        },
        StatementNode::While(c, body) => {
            proof {
                assert(s@ == StmtModel::While(
                    crate::syntax_node::expr_model(*c),
                    crate::syntax_node::stmts_model(body@),
                ));
            }
            writer.write_line("(block");
            writer.indent();
            writer.write_line("(loop");
            writer.indent();
            match build_expression(c, TypeKind::Integer, ft, writer) {
                Ok(_) => {},
                Err(d) => {
                    return Err(d);
                },
            }
            writer.write_line("i32.const 0");
            writer.write_line("i32.eq");
            writer.write_line("br_if 1");
            match build_body(body, locals, ret, ft, writer) {
                Ok(_) => {},
                Err(d) => {
                    return Err(d);
                },
            }
            writer.write_line("br 0");
            writer.unindent();
            writer.write_line(")");
            writer.unindent();
            writer.write_line(")");
            Ok(())
        },
        StatementNode::IfElse(_, _, _, _) => build_if_else(s, locals, ret, ft, writer),
        StatementNode::FunctionInvocation(name, args) => {
            proof {
                assert(s@ == StmtModel::FunctionInvocation(
                    name@,
                    crate::syntax_node::exprs_model(args@),
                ));
            }
            build_call(name, args, ft, writer, true)
        },
        StatementNode::Break => Err(codegen_error("break is not lowered by this backend")),
        StatementNode::Continue => Err(codegen_error("continue is not lowered by this backend")),
    }
}

/// Emits an if chain: the condition and then-body, each else-if part, the
/// optional else-body, and the matching closing ends.
#[verifier::loop_isolation(false)]
#[verifier::rlimit(100)]
fn build_if_else(
    s: &StatementNode,
    locals: &Vec<(String, TypeLiteral)>,
    ret: &Option<TypeLiteral>,
    ft: &FunctionTable,
    writer: &mut IndentedTextWriter,
) -> (r: Result<(), Diagnostic>)
    requires
        s is IfElse,
    ensures
        match g_stmt(
            s@,
            crate::symbol_table::symbols_view(locals@),
            crate::analyzer::ret_view(*ret),
            ft@,
            old(writer)@,
        ) {
            Ok(wm) => r is Ok && final(writer)@ == wm,
            Err(k) => r is Err && r->Err_0@.kind == k,
        },
    decreases *s, 0int,
{
    match s {
        StatementNode::IfElse(c, tb, elifs, eb) => {
            let ghost sm = s@;
            proof {
                assert(sm == StmtModel::IfElse(
                    crate::syntax_node::expr_model(*c),
                    crate::syntax_node::stmts_model(tb@),
                    crate::syntax_node::branch_pairs_model(elifs@),
                    match eb {
                        Some(b) => Some(crate::syntax_node::stmts_model(b@)),
                        None => None,
                    },
                ));
            }
            match build_expression(c, TypeKind::Integer, ft, writer) {
                Ok(_) => {},
                Err(d) => {
                    return Err(d);
                },
            }
            writer.write_line("if");
            writer.indent();
            match build_body(tb, locals, ret, ft, writer) {
                Ok(_) => {},
                Err(d) => {
                    return Err(d);
                },
            }
            writer.unindent();
            let ghost pairs = crate::syntax_node::branch_pairs_model(elifs@);
            let ghost w_before = writer@;
            let n = elifs.len();
            let mut i: usize = 0;
            proof {
                crate::syntax_node::lemma_branch_pairs_model_index(elifs@);
                assert(pairs.skip(0) =~= pairs);
            }
            while i < n
                invariant
                    0 <= i <= n,
                    pairs.len() == n,
                    match g_elifs(
                        pairs.skip(i as int),
                        crate::symbol_table::symbols_view(locals@),
                        crate::analyzer::ret_view(*ret),
                        ft@,
                        writer@,
                    ) {
                        Ok(wm) => g_elifs(
                            pairs,
                            crate::symbol_table::symbols_view(locals@),
                            crate::analyzer::ret_view(*ret),
                            ft@,
                            w_before,
                        ) == Ok::<WriterModel, DiagnosticKind>(wm),
                        Err(k) => g_elifs(
                            pairs,
                            crate::symbol_table::symbols_view(locals@),
                            crate::analyzer::ret_view(*ret),
                            ft@,
                            w_before,
                        ) == Err::<WriterModel, DiagnosticKind>(k),
                    },
                decreases n - i,
            {
                proof {
                    assert(pairs.skip(i as int)[0] == pairs[i as int]);
                    assert(pairs.skip(i as int).drop_first() =~= pairs.skip(i + 1));
                }
                writer.write_line("else");
                match build_expression(&elifs[i].0, TypeKind::Integer, ft, writer) {
                    Ok(_) => {},
                    Err(d) => {
                        return Err(d);
                    },
                }
                writer.write_line("if");
                writer.indent();
                proof {
                    assert(decreases_to!(*s => (*s)->2));
                    assert(*elifs == (*s)->2);
                    assert(decreases_to!(*elifs => elifs@));
                    assert(decreases_to!(elifs@ => elifs@[i as int]));
                    assert(decreases_to!(elifs@[i as int] => elifs@[i as int].1));
                }
                match build_body(&elifs[i].1, locals, ret, ft, writer) {
                    Ok(_) => {},
                    Err(d) => {
                        return Err(d);
                    },
                }
                writer.unindent();
                i = i + 1;
            }
            proof {
                assert(pairs.skip(n as int) =~= Seq::<(ExprModel, Seq<StmtModel>)>::empty());
            }
            match eb {
                Some(b) => {
                    writer.write_line("else");
                    writer.indent();
                    match build_body(b, locals, ret, ft, writer) {
                        Ok(_) => {},
                        Err(d) => {
                            return Err(d);
                        },
                    }
                    writer.unindent();
                },
                None => {},
            }
            writer.write_line("end");
            build_ends(n, writer);
            Ok(())
        },
        _ => {
            proof {
                assert(false);
            }
            Err(codegen_error("not an if chain"))
        },
    }
}

/// Emits the statements of a block in order.
#[verifier::loop_isolation(false)]
fn build_body(
    body: &Vec<StatementNode>,
    locals: &Vec<(String, TypeLiteral)>,
    ret: &Option<TypeLiteral>,
    ft: &FunctionTable,
    writer: &mut IndentedTextWriter,
) -> (r: Result<(), Diagnostic>)
    ensures
        match g_body(
            crate::syntax_node::stmts_model(body@),
            crate::symbol_table::symbols_view(locals@),
            crate::analyzer::ret_view(*ret),
            ft@,
            old(writer)@,
        ) {
            Ok(wm) => r is Ok && final(writer)@ == wm,
            Err(k) => r is Err && r->Err_0@.kind == k,
        },
    decreases *body, 0int,
{
    let ghost bm = crate::syntax_node::stmts_model(body@);
    let ghost w0 = writer@;
    let n = body.len();
    let mut i: usize = 0;
    proof {
        crate::syntax_node::lemma_stmts_model_index(body@);
        assert(bm.skip(0) =~= bm);
    }
    while i < n
        invariant
            0 <= i <= n,
            bm.len() == n,
            match g_body(
                bm.skip(i as int),
                crate::symbol_table::symbols_view(locals@),
                crate::analyzer::ret_view(*ret),
                ft@,
                writer@,
            ) {
                Ok(wm) => g_body(
                    bm,
                    crate::symbol_table::symbols_view(locals@),
                    crate::analyzer::ret_view(*ret),
                    ft@,
                    w0,
                ) == Ok::<WriterModel, DiagnosticKind>(wm),
                Err(k) => g_body(
                    bm,
                    crate::symbol_table::symbols_view(locals@),
                    crate::analyzer::ret_view(*ret),
                    ft@,
                    w0,
                ) == Err::<WriterModel, DiagnosticKind>(k),
            },
        decreases n - i,
    {
        proof {
            assert(bm.skip(i as int)[0] == bm[i as int]);
            assert(bm.skip(i as int).drop_first() =~= bm.skip(i + 1));
            assert(decreases_to!(*body => body@));
            assert(decreases_to!(body@ => body@[i as int]));
        }
        match build_statement(&body[i], locals, ret, ft, writer) {
            Ok(_) => {},
            Err(d) => {
                return Err(d);
            },
        }
        i = i + 1;
    }
    proof {
        assert(bm.skip(n as int) =~= Seq::<StmtModel>::empty());
    }
    Ok(())
}


// ---------------------------------------------------------------------------
// The executable generator: functions and modules
// ---------------------------------------------------------------------------

/// Collects the flattened declarations of the scope subtree rooted at `id`.
#[verifier::loop_isolation(false)]
fn get_local_variables(table: &SymbolTable, id: usize) -> (r: Vec<(String, TypeLiteral)>)
    requires
        table.wf(),
        id < table@.scopes.len(),
    ensures
        crate::symbol_table::symbols_view(r@) == flat_locals(table@.scopes, id as int),
    decreases table@.scopes.len() - id,
{
    let mut r = table.get_all(id);
    let children = table.children_of(id);
    let ghost cm = crate::symbol_table::indices_view(children@);
    let n = children.len();
    let mut k: usize = 0;
    proof {
        assert(cm.len() == children@.len());
        assert(cm.skip(0) =~= cm);
        assert(crate::symbol_table::symbols_view(r@) + flat_locals_children(
            table@.scopes,
            id as int,
            cm.skip(0),
        ) =~= table@.scopes[id as int].symbols + flat_locals_children(
            table@.scopes,
            id as int,
            cm,
        ));
    }
    while k < n
        invariant
            table.wf(),
            id < table@.scopes.len(),
            n == children@.len(),
            cm == crate::symbol_table::indices_view(children@),
            cm.len() == n,
            cm == table@.scopes[id as int].children,
            0 <= k <= n,
            crate::symbol_table::symbols_view(r@) + flat_locals_children(
                table@.scopes,
                id as int,
                cm.skip(k as int),
            ) == flat_locals(table@.scopes, id as int),
        decreases n - k,
    {
        proof {
            assert(cm.skip(k as int)[0] == cm[k as int]);
            assert(cm.skip(k as int).drop_first() =~= cm.skip(k + 1));
            assert(cm[k as int] == children@[k as int] as int);
            assert(id < cm[k as int] < table@.scopes.len());
        }
        let c = children[k];
        let sub = get_local_variables(table, c);
        let ghost r0 = r@;
        let m = sub.len();
        let mut j: usize = 0;
        proof {
            assert(crate::symbol_table::symbols_view(sub@).len() == sub@.len());
            assert(crate::symbol_table::symbols_view(r@) =~= crate::symbol_table::symbols_view(
                r0,
            ) + crate::symbol_table::symbols_view(sub@).take(0));
        }
        while j < m
            invariant
                0 <= j <= m,
                m == sub@.len(),
                crate::symbol_table::symbols_view(sub@).len() == m,
                crate::symbol_table::symbols_view(r@) == crate::symbol_table::symbols_view(r0)
                    + crate::symbol_table::symbols_view(sub@).take(j as int),
            decreases m - j,
        {
            let name = sub[j].0.clone();
            let ty = sub[j].1.clone();
            let ghost nm = name@;
            let ghost tm = ty@;
            let pair = (name, ty);
            let ghost pair0 = pair;
            let ghost rprev = r@;
            r.push(pair);
            proof {
                assert(crate::symbol_table::symbols_view(r@).len() == r@.len());
                assert(crate::symbol_table::symbols_view(sub@)[j as int] == (nm, tm));
                assert forall|q: int|
                    0 <= q < r@.len() implies crate::symbol_table::symbols_view(r@)[q] == (
                crate::symbol_table::symbols_view(r0) + crate::symbol_table::symbols_view(
                    sub@,
                ).take(j + 1))[q] by {
                    if q < rprev.len() {
                        assert(r@[q] == rprev[q]);
                        assert(crate::symbol_table::symbols_view(rprev)[q]
                            == crate::symbol_table::symbols_view(r@)[q]);
                    } else {
                        assert(r@[q] == pair0);
                        assert(crate::symbol_table::symbols_view(r@)[q] == (pair0.0@, pair0.1@));
                        assert((pair0.0@, pair0.1@) == (nm, tm));
                    }
                }
                assert(crate::symbol_table::symbols_view(r@) =~= crate::symbol_table::symbols_view(
                    r0,
                ) + crate::symbol_table::symbols_view(sub@).take(j + 1));
            }
            j = j + 1;
        }
        proof {
            assert(crate::symbol_table::symbols_view(sub@).take(m as int)
                =~= crate::symbol_table::symbols_view(sub@));
            assert(crate::symbol_table::symbols_view(r@) + flat_locals_children(
                table@.scopes,
                id as int,
                cm.skip(k + 1),
            ) =~= flat_locals(table@.scopes, id as int));
        }
        k = k + 1;
    }
    proof {
        assert(cm.skip(n as int) =~= Seq::<int>::empty());
        assert(crate::symbol_table::symbols_view(r@) + Seq::<(Seq<char>, TypeModel)>::empty()
            =~= crate::symbol_table::symbols_view(r@));
    }
    r
}

/// Decides whether the flattened namespace declares a name twice.
#[verifier::loop_isolation(false)]
fn find_duplicate(locals: &Vec<(String, TypeLiteral)>) -> (r: bool)
    ensures
        r == has_dup(crate::symbol_table::symbols_view(locals@)),
{
    let ghost lm = crate::symbol_table::symbols_view(locals@);
    let n = locals.len();
    proof {
        assert(lm.len() == locals@.len());
    }
    let mut j: usize = 1;
    while j < n
        invariant
            1 <= j <= n || (j == 1 && n <= 1),
            n == lm.len(),
            forall|a: int, b: int| 0 <= a < b < j && b < n ==> lm[a].0 != lm[b].0,
        decreases n - j,
    {
        let mut i: usize = 0;
        while i < j
            invariant
                0 <= i <= j < n,
                n == lm.len(),
                forall|a: int| 0 <= a < i ==> lm[a].0 != lm[j as int].0,
            decreases j - i,
        {
            if crate::syntax_node::str_eq_check(locals[i].0.as_str(), locals[j].0.as_str()) {
                proof {
                    assert(lm[i as int].0 == lm[j as int].0);
                }
                return true;
            }
            i = i + 1;
        }
        j = j + 1;
    }
    proof {
        assert(!has_dup(lm));
    }
    false
}

/// Emits the parameter fragments of a function header.
#[verifier::loop_isolation(false)]
fn build_parameter_list(
    params: &Vec<crate::syntax_node::ParameterNode>,
    writer: &mut IndentedTextWriter,
) -> (r: Result<(), Diagnostic>)
    ensures
        match g_params(
            params@.map_values(|p: crate::syntax_node::ParameterNode| p@),
            old(writer)@,
        ) {
            Ok(wm) => r is Ok && final(writer)@ == wm,
            Err(k) => r is Err && r->Err_0@.kind == k,
        },
{
    let ghost pm = params@.map_values(|p: crate::syntax_node::ParameterNode| p@);
    let ghost w0 = writer@;
    let n = params.len();
    let mut i: usize = 0;
    proof {
        assert(pm.len() == params@.len());
        assert(pm.skip(0) =~= pm);
    }
    while i < n
        invariant
            0 <= i <= n,
            pm.len() == n,
            match g_params(pm.skip(i as int), writer@) {
                Ok(wm) => g_params(pm, w0) == Ok::<WriterModel, DiagnosticKind>(wm),
                Err(k) => g_params(pm, w0) == Err::<WriterModel, DiagnosticKind>(k),
            },
        decreases n - i,
    {
        proof {
            assert(pm.skip(i as int)[0] == pm[i as int]);
            assert(pm.skip(i as int).drop_first() =~= pm.skip(i + 1));
            assert(pm[i as int] == params@[i as int]@);
        }
        let ty = TypeLiteral::of_token(params[i].type_.clone());
        let sym = match get_wasm_type_from(ty.kind()) {
            Ok(s) => s,
            Err(d) => {
                return Err(d);
            },
        };
        writer.write("( ");
        let mut frag = "param $".to_owned();
        frag.append(params[i].name.text.as_str());
        frag.append(" ");
        frag.append(sym);
        writer.write(frag.as_str());
        writer.write(") ");
        i = i + 1;
    }
    proof {
        assert(pm.skip(n as int) =~= Seq::<ParamModel>::empty());
    }
    Ok(())
}

/// Emits the optional result-type fragment of a function header.
fn build_return_type(ret: &Option<TypeLiteral>, writer: &mut IndentedTextWriter) -> (r: Result<
    (),
    Diagnostic,
>)
    ensures
        match g_result_type(crate::analyzer::ret_view(*ret), old(writer)@) {
            Ok(wm) => r is Ok && final(writer)@ == wm,
            Err(k) => r is Err && r->Err_0@.kind == k,
        },
{
    match ret {
        Some(t) => {
            let sym = match get_wasm_type_from(t.kind()) {
                Ok(s) => s,
                Err(d) => {
                    return Err(d);
                },
            };
            writer.write(" (result ");
            writer.write(sym);
            writer.write(")");
            Ok(())
        },
        None => Ok(()),
    }
}

/// Emits the flattened local-variable fragments from position `from` on.
#[verifier::loop_isolation(false)]
fn build_local_variable(
    locals: &Vec<(String, TypeLiteral)>,
    from: usize,
    writer: &mut IndentedTextWriter,
) -> (r: Result<(), Diagnostic>)
    requires
        from <= locals@.len(),
    ensures
        match g_locals_emit(
            crate::symbol_table::symbols_view(locals@).skip(from as int),
            old(writer)@,
        ) {
            Ok(wm) => r is Ok && final(writer)@ == wm,
            Err(k) => r is Err && r->Err_0@.kind == k,
        },
{
    let ghost lm = crate::symbol_table::symbols_view(locals@);
    let ghost w0 = writer@;
    let n = locals.len();
    let mut i: usize = from;
    proof {
        assert(lm.len() == locals@.len());
    }
    while i < n
        invariant
            from <= i <= n,
            lm.len() == n,
            match g_locals_emit(lm.skip(i as int), writer@) {
                Ok(wm) => g_locals_emit(lm.skip(from as int), w0) == Ok::<
                    WriterModel,
                    DiagnosticKind,
                >(wm),
                Err(k) => g_locals_emit(lm.skip(from as int), w0) == Err::<
                    WriterModel,
                    DiagnosticKind,
                >(k),
            },
        decreases n - i,
    {
        proof {
            assert(lm.skip(i as int)[0] == lm[i as int]);
            assert(lm.skip(i as int).drop_first() =~= lm.skip(i + 1));
        }
        let sym = match get_wasm_type_from(locals[i].1.kind()) {
            Ok(s) => s,
            Err(d) => {
                return Err(d);
            },
        };
        writer.write(" (local ");
        let mut frag = "$".to_owned();
        frag.append(locals[i].0.as_str());
        frag.append(" ");
        frag.append(sym);
        writer.write(frag.as_str());
        writer.write(") ");
        i = i + 1;
    }
    proof {
        assert(lm.skip(n as int) =~= Seq::<(Seq<char>, TypeModel)>::empty());
    }
    Ok(())
}

/// Emits one whole function against its scope tree.
#[verifier::loop_isolation(false)]
#[verifier::rlimit(100)]
fn build_function(
    f: &FunctionNode,
    table: &SymbolTable,
    ft: &FunctionTable,
    writer: &mut IndentedTextWriter,
) -> (r: Result<(), Diagnostic>)
    requires
        table.wf(),
    ensures
        match g_function(f@, table@.scopes, ft@, old(writer)@) {
            Ok(wm) => r is Ok && final(writer)@ == wm,
            Err(k) => r is Err && r->Err_0@.kind == k,
        },
{
    let all = get_local_variables(table, 0);
    if find_duplicate(&all) {
        return Err(
            codegen_error(
                "the target cannot hold two local variables of the same name, even from different scopes",
            ),
        );
    }
    writer.write("(func $");
    writer.write(f.name.text.as_str());
    match build_parameter_list(&f.parameters, writer) {
        Ok(_) => {},
        Err(d) => {
            return Err(d);
        },
    }
    match build_return_type(&f.return_type, writer) {
        Ok(_) => {},
        Err(d) => {
            return Err(d);
        },
    }
    let root_count = table.symbols_len(0);
    proof {
        assert(flat_locals(table@.scopes, 0) == table@.scopes[0].symbols + flat_locals_children(
            table@.scopes,
            0,
            table@.scopes[0].children,
        ));
        assert(crate::symbol_table::symbols_view(all@).len() == all@.len());
        assert(root_count <= all@.len());
    }
    match build_local_variable(&all, root_count, writer) {
        Ok(_) => {},
        Err(d) => {
            return Err(d);
        },
    }
    writer.write_line("");
    writer.indent();
    match build_body(&f.body, &all, &f.return_type, ft, writer) {
        Ok(_) => {},
        Err(d) => {
            return Err(d);
        },
    }
    writer.unindent();
    writer.write_line(")");
    Ok(())
}

/// Emits one export line per top-level function.
#[verifier::loop_isolation(false)]
fn build_export(program: &ProgramNode, writer: &mut IndentedTextWriter)
    ensures
        final(writer)@ == g_exports(program@.functions, old(writer)@),
{
    let ghost fm = program@.functions;
    let ghost w0 = writer@;
    let n = program.functions.len();
    let mut i: usize = 0;
    proof {
        assert(fm.len() == program.functions@.len());
        assert(fm.skip(0) =~= fm);
    }
    while i < n
        invariant
            0 <= i <= n,
            fm.len() == n,
            fm == program@.functions,
            g_exports(fm, w0) == g_exports(fm.skip(i as int), writer@),
        decreases n - i,
    {
        proof {
            assert(fm.skip(i as int)[0] == fm[i as int]);
            assert(fm.skip(i as int).drop_first() =~= fm.skip(i + 1));
            assert(fm[i as int] == program.functions@[i as int]@);
        }
        let name = &program.functions[i].name.text;
        let mut line = "(export \"".to_owned();
        line.append(name.as_str());
        line.append("\" (func $");
        line.append(name.as_str());
        line.append("))");
        writer.write_line(line.as_str());
        i = i + 1;
    }
    proof {
        assert(fm.skip(n as int) =~= Seq::<FunctionModel>::empty());
    }
}

/// Emits the whole module.
#[verifier::loop_isolation(false)]
fn build_module(
    program: &ProgramNode,
    scopes: &Vec<SymbolTable>,
    ft: &FunctionTable,
    writer: &mut IndentedTextWriter,
) -> (r: Result<(), Diagnostic>)
    requires
        scopes@.len() == program.functions@.len(),
        forall|i: int| 0 <= i < scopes@.len() ==> (#[trigger] scopes@[i]).wf(),
    ensures
        match g_module(program@, crate::analyzer::tables_views(scopes@), ft@, old(writer)@) {
            Ok(wm) => r is Ok && final(writer)@ == wm,
            Err(k) => r is Err && r->Err_0@.kind == k,
        },
{
    let ghost fm = program@.functions;
    let ghost sm = crate::analyzer::tables_views(scopes@);
    writer.write_line("(module");
    writer.indent();
    let ghost w0 = writer@;
    let n = program.functions.len();
    let mut i: usize = 0;
    proof {
        assert(fm.len() == program.functions@.len());
        assert(sm.len() == scopes@.len());
        assert(fm.skip(0) =~= fm);
        assert(sm.skip(0) =~= sm);
    }
    while i < n
        invariant
            0 <= i <= n,
            fm.len() == n,
            sm.len() == n,
            fm == program@.functions,
            sm == crate::analyzer::tables_views(scopes@),
            match g_functions(fm.skip(i as int), sm.skip(i as int), ft@, writer@) {
                Ok(wm) => g_functions(fm, sm, ft@, w0) == Ok::<WriterModel, DiagnosticKind>(wm),
                Err(k) => g_functions(fm, sm, ft@, w0) == Err::<WriterModel, DiagnosticKind>(k),
            },
        decreases n - i,
    {
        proof {
            assert(fm.skip(i as int)[0] == fm[i as int]);
            assert(fm.skip(i as int).drop_first() =~= fm.skip(i + 1));
            assert(sm.skip(i as int)[0] == sm[i as int]);
            assert(sm.skip(i as int).drop_first() =~= sm.skip(i + 1));
            assert(fm[i as int] == program.functions@[i as int]@);
            assert(sm[i as int] == scopes@[i as int]@.scopes);
        }
        match build_function(&program.functions[i], &scopes[i], ft, writer) {
            Ok(_) => {},
            Err(d) => {
                return Err(d);
            },
        }
        i = i + 1;
    }
    proof {
        assert(fm.skip(n as int) =~= Seq::<FunctionModel>::empty());
        assert(sm.skip(n as int) =~= Seq::<Seq<ScopeModel>>::empty());
    }
    build_export(program, writer);
    writer.unindent();
    writer.write_line(")");
    Ok(())
}

// ---------------------------------------------------------------------------
// The generator front end
// ---------------------------------------------------------------------------

/// The type-directed code generator: walks the checked tree and the scope
/// trees the analysis produced and emits the textual stack-machine module.
#[derive(Debug)]
pub struct WasmGenerator<'a> {
    syntax_tree: &'a SyntaxTree,
    symbol_info: &'a SemanticInfo,
}

impl<'a> WasmGenerator<'a> {
    /// The program under generation.
    pub closed spec fn program(&self) -> ProgramModel {
        self.syntax_tree@
    }

    /// The per-function scope trees.
    pub closed spec fn scope_trees(&self) -> Seq<Seq<ScopeModel>> {
        crate::analyzer::tables_views(self.symbol_info.scopes@)
    }

    /// The function table.
    pub closed spec fn table(&self) -> Seq<(Seq<char>, FunctionInfoModel)> {
        self.symbol_info.functions@
    }

    /// One scope tree per function, each well formed — what a successful
    /// analysis hands over.
    pub closed spec fn wf(&self) -> bool {
        &&& self.symbol_info.scopes@.len() == self.program().functions.len()
        &&& forall|i: int|
            0 <= i < self.symbol_info.scopes@.len() ==> (#[trigger] self.symbol_info.scopes@[i]).wf()
    }

    pub fn new(syntax_tree: &'a SyntaxTree, symbol_info: &'a SemanticInfo) -> (r: WasmGenerator<'a>)
        ensures
            r.program() == syntax_tree@,
            r.scope_trees() == crate::analyzer::tables_views(symbol_info.scopes@),
            r.table() == symbol_info.functions@,
            (symbol_info.scopes@.len() == syntax_tree@.functions.len() && (forall|i: int|
                0 <= i < symbol_info.scopes@.len() ==> (#[trigger] symbol_info.scopes@[i]).wf()))
                ==> r.wf(),
    {
        WasmGenerator { syntax_tree, symbol_info }
    }

    /// Emits the module for the whole checked program.
    pub fn build(&mut self) -> (r: Result<IndentedTextWriter, Diagnostic>)
        requires
            old(self).wf(),
        ensures
            match wat_of(old(self).program(), old(self).scope_trees(), old(self).table()) {
                Ok(wm) => r is Ok && r->Ok_0@ == wm,
                Err(k) => r is Err && r->Err_0@.kind == k,
            },
    {
        let mut writer = IndentedTextWriter::new();
        proof {
            assert(crate::analyzer::tables_views(self.symbol_info.scopes@).len()
                == self.symbol_info.scopes@.len());
            assert(writer@ == initial_writer());
        }
        match build_module(self.syntax_tree.get_root(), &self.symbol_info.scopes, &self.symbol_info.functions, &mut writer) {
            Ok(_) => Ok(writer),
            Err(d) => Err(d),
        }
    }
}

} // verus!
