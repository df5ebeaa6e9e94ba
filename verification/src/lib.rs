//! A compiler for a small statically typed imperative language that lowers
//! programs to a textual stack-machine assembly (WebAssembly text format).
//!
//! The pipeline runs in strict sequence: lexical analysis, recursive-descent
//! parsing with precedence climbing, scope-aware semantic analysis, a
//! return-path dataflow check for non-void functions, and a type-directed
//! code generator. Every phase is fail-fast: the first error anywhere aborts
//! the rest of the pipeline.

pub mod analyzer;
pub mod decimal;
pub mod diagnostics;
pub mod function_control_flow;
pub mod function_table;
pub mod indented_text_writer;
pub mod lexer;
pub mod line_text;
pub mod parser;
pub mod symbol_table;
pub mod syntax_node;
pub mod syntax_token;
pub mod syntax_tree;
pub mod text_span;
pub mod token_kind;
pub mod wasm_generator;

use vstd::prelude::*;
use crate::analyzer::{Anaylzer, a_program};
use crate::diagnostics::{Diagnostic, DiagnosticKind};
use crate::lexer::{Lexer, lex_diagnostics_spec, lex_spec};
use crate::line_text::max_source_len;
use crate::parser::{Parser, p_program};
use crate::syntax_tree::SyntaxTree;
use crate::wasm_generator::{WasmGenerator, wat_of};

verus! {

/// What compiling a source text yields: the assembly text of the module,
/// or the class of the first diagnostic of the first phase that fails —
/// lexing, parsing, analysis (with the return-path check), or lowering.
pub open spec fn compile_spec(text: Seq<char>) -> Result<Seq<char>, DiagnosticKind> {
    if lex_diagnostics_spec(text).len() > 0 {
        Err(DiagnosticKind::LexError)
    } else {
        match p_program(lex_spec(text)) {
            None => Err(DiagnosticKind::ParseError),
            Some(p) => match a_program(p) {
                Err(k) => Err(k),
                Ok((scopes, ft)) => match wat_of(p, scopes, ft) {
                    Ok(w) => Ok(w.output),
                    Err(k) => Err(k),
                },
            },
        }
    }
}

/// Runs the whole pipeline on one source text: lexing, parsing, analysis
/// and code generation, strictly in sequence, aborting at the first error.
pub fn compile(source: &str) -> (r: Result<String, Diagnostic>)
    requires
        source@.len() < max_source_len(),
    ensures
        match compile_spec(source@) {
            Ok(t) => r is Ok && r->Ok_0@ == t,
            Err(k) => r is Err && r->Err_0@.kind == k,
        },
{
    let lexer = Lexer::new(source.to_owned());
    let mut parser = Parser::new(lexer);
    let program = match parser.parse() {
        Ok(p) => p,
        Err(d) => {
            return Err(d);
        },
    };
    let tree = SyntaxTree::new(program);
    let mut analyzer = Anaylzer::new(&tree);
    let info = match analyzer.analyze() {
        Ok(i) => i,
        Err(d) => {
            return Err(d);
        },
    };
    proof {
        crate::analyzer::lemma_a_functions_len(tree@.functions, Seq::empty());
        assert(crate::analyzer::tables_views(info.scopes@).len() == info.scopes@.len());
    }
    let mut generator = WasmGenerator::new(&tree, &info);
    let writer = match generator.build() {
        Ok(w) => w,
        Err(d) => {
            return Err(d);
        },
    };
    Ok(writer.to_string())
}

} // verus!
