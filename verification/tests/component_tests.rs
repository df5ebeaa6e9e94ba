use minlang::decimal::usize_to_string;
use minlang::diagnostics::DiagnosticKind;
use minlang::function_control_flow::{FlowNode, FunctionControlGraph};
use minlang::function_table::{FunctionTable, FunctionTableInfo};
use minlang::lexer::Lexer;
use minlang::line_text::LineText;
use minlang::parser::Parser;
use minlang::symbol_table::SymbolTable;
use minlang::syntax_node::{
    ExpressionNode, FunctionNode, ParameterNode, ProgramNode, StatementNode, TypeKind, TypeLiteral,
};
use minlang::syntax_token::SyntaxToken;
use minlang::syntax_tree::SyntaxTree;
use minlang::text_span::TextSpan;
use minlang::token_kind::TokenKind;

fn lex(source: &str) -> Vec<SyntaxToken> {
    let mut lexer = Lexer::new(source.to_string());
    lexer.lex_all()
}

fn kinds(tokens: &[SyntaxToken]) -> Vec<TokenKind> {
    tokens.iter().map(|t| t.kind).collect()
}

#[test]
fn lexer_recognizes_keywords_types_and_operators() {
    let toks = lex("fun if else while let return break continue int float string void");
    assert_eq!(
        kinds(&toks),
        vec![
            TokenKind::FunToken,
            TokenKind::IfToken,
            TokenKind::ElseToken,
            TokenKind::WhileToken,
            TokenKind::LetToken,
            TokenKind::ReturnToken,
            TokenKind::BreakToken,
            TokenKind::ContinueToken,
            TokenKind::DataTypeToken,
            TokenKind::DataTypeToken,
            TokenKind::DataTypeToken,
            TokenKind::DataTypeToken,
        ]
    );
    let ops = lex("== != <= >= < > = ! & | ; : , . + - * / ( ) { }");
    assert_eq!(
        kinds(&ops),
        vec![
            TokenKind::EqualEqualToken,
            TokenKind::NotEqualToken,
            TokenKind::SmallerThanEqualToken,
            TokenKind::GreaterThanEqualToken,
            TokenKind::SmallerThanToken,
            TokenKind::GreaterThanToken,
            TokenKind::EqualToken,
            TokenKind::BangToken,
            TokenKind::BitWiseAmpersandToken,
            TokenKind::BitWisePipeToken,
            TokenKind::SemicolonToken,
            TokenKind::ColonToken,
            TokenKind::CommaToken,
            TokenKind::DotToken,
            TokenKind::PlusToken,
            TokenKind::MinusToken,
            TokenKind::StarToken,
            TokenKind::SlashToken,
            TokenKind::OpenParenthesisToken,
            TokenKind::CloseParenthesisToken,
            TokenKind::CurlyOpenBracketToken,
            TokenKind::CurlyCloseBracketToken,
        ]
    );
}

#[test]
fn lexer_numbers_keep_their_lexemes() {
    let toks = lex("12 3.5 7.");
    assert_eq!(toks[0].kind, TokenKind::NumberToken);
    assert_eq!(toks[0].text, "12");
    assert_eq!(toks[1].kind, TokenKind::NumberToken);
    assert_eq!(toks[1].text, "3.5");
    // a dot without digits after it is not part of the number
    assert_eq!(toks[2].kind, TokenKind::NumberToken);
    assert_eq!(toks[2].text, "7");
    assert_eq!(toks[3].kind, TokenKind::DotToken);
}

#[test]
fn lexer_keywords_win_over_identifiers_even_as_prefixes() {
    // the ordered rule table tries keywords before the identifier rule
    let toks = lex("iffy");
    assert_eq!(kinds(&toks), vec![TokenKind::IfToken, TokenKind::IdentifierToken]);
    assert_eq!(toks[1].text, "fy");
}

#[test]
fn lexer_collects_diagnostics_for_bad_characters_and_continues() {
    let mut lexer = Lexer::new("let @ x # 1".to_string());
    let toks = lexer.lex_all();
    assert_eq!(
        kinds(&toks),
        vec![TokenKind::LetToken, TokenKind::IdentifierToken, TokenKind::NumberToken]
    );
    let diags = lexer.diagnostics();
    assert_eq!(diags.len(), 2);
    assert_eq!(diags[0].kind, DiagnosticKind::LexError);
    assert_eq!(diags[0].text, "@");
    assert_eq!(diags[1].text, "#");
}

#[test]
fn relexing_the_concatenated_lexemes_reproduces_the_kinds() {
    let source = "fun add(a:int,b:int):int { return a+b; }";
    let first = lex(source);
    let mut rebuilt = String::new();
    for t in &first {
        rebuilt.push_str(&t.text);
        rebuilt.push(' ');
    }
    let second = lex(&rebuilt);
    assert_eq!(kinds(&first), kinds(&second));
}

#[test]
fn lexer_string_literals_and_positions() {
    let toks = lex("\"ab c\" x");
    assert_eq!(toks[0].kind, TokenKind::StringToken);
    assert_eq!(toks[0].text, "\"ab c\"");
    assert_eq!(toks[1].kind, TokenKind::IdentifierToken);
    assert_eq!(toks[1].position.line_no, 1);
    assert_eq!(toks[1].position.col_no, 8);
}

#[test]
fn line_text_points_are_one_based() {
    let lt = LineText::new("ab\ncd".to_string());
    assert_eq!(lt.get_point(0), (1, 1));
    assert_eq!(lt.get_point(1), (1, 2));
    assert_eq!(lt.get_point(3), (2, 1));
    assert_eq!(lt.get_point(4), (2, 2));
}

#[test]
fn symbol_table_declare_then_resolve_yields_the_declared_type() {
    let mut table = SymbolTable::new();
    let tok = SyntaxToken::new(
        TokenKind::IdentifierToken,
        TextSpan { start: 0, end: 1, line_no: 1, col_no: 1 },
        "x".to_string(),
    );
    assert!(table.add_symbol(0, "x".to_string(), TypeLiteral::Void).is_ok());
    let resolved = table.get_symbol(0, &tok).unwrap();
    assert_eq!(resolved.kind(), TypeKind::Void);
    // redeclaration in the same scope fails
    let err = table.add_symbol(0, "x".to_string(), TypeLiteral::Void).unwrap_err();
    assert_eq!(err.kind, DiagnosticKind::ScopeError);
    // an unresolvable name fails without panicking
    let missing = SyntaxToken::new(
        TokenKind::IdentifierToken,
        TextSpan { start: 0, end: 1, line_no: 3, col_no: 7 },
        "nope".to_string(),
    );
    let err2 = table.get_symbol(0, &missing).unwrap_err();
    assert_eq!(err2.kind, DiagnosticKind::ScopeError);
    assert_eq!((err2.line, err2.col), (3, 7));
}

#[test]
fn symbol_table_resolves_through_the_parent_chain() {
    let mut table = SymbolTable::new();
    table.add_symbol(0, "x".to_string(), TypeLiteral::Void).unwrap();
    let child = table.add_child(0);
    let tok = SyntaxToken::new(
        TokenKind::IdentifierToken,
        TextSpan { start: 0, end: 1, line_no: 1, col_no: 1 },
        "x".to_string(),
    );
    assert!(table.get_symbol(child, &tok).is_ok());
    // shadowing across nested scopes is permitted
    assert!(table.add_symbol(child, "x".to_string(), TypeLiteral::Void).is_ok());
    assert_eq!(table.get_all(child).len(), 1);
}

#[test]
fn function_table_registers_each_name_once() {
    let mut ft = FunctionTable::new();
    let info = FunctionTableInfo::new("f".to_string(), None, Vec::new());
    assert!(ft.add_function("f".to_string(), info).is_ok());
    assert!(ft.get_function(&"f".to_string()).is_ok());
    let info2 = FunctionTableInfo::new("f".to_string(), None, Vec::new());
    let err = ft.add_function("f".to_string(), info2).unwrap_err();
    assert_eq!(err.kind, DiagnosticKind::ScopeError);
    let err2 = ft.get_function(&"g".to_string()).unwrap_err();
    assert_eq!(err2.kind, DiagnosticKind::ScopeError);
}

#[test]
fn precedence_tables_order_the_operators() {
    assert!(
        TokenKind::StarToken.get_binary_precedence() > TokenKind::PlusToken.get_binary_precedence()
    );
    assert!(
        TokenKind::PlusToken.get_binary_precedence()
            > TokenKind::EqualEqualToken.get_binary_precedence()
    );
    assert_eq!(TokenKind::IdentifierToken.get_binary_precedence(), 0);
    assert_eq!(TokenKind::MinusToken.get_unary_precedence(), 6);
    assert_eq!(TokenKind::StarToken.get_unary_precedence(), 0);
}

#[test]
fn parser_builds_the_program_shape() {
    let lexer = Lexer::new("fun add(a:int,b:int):int { return a+b; }".to_string());
    let mut parser = Parser::new(lexer);
    let program = parser.parse().unwrap();
    assert_eq!(program.functions.len(), 1);
    let f = &program.functions[0];
    assert_eq!(f.name.text, "add");
    assert_eq!(f.parameters.len(), 2);
    assert_eq!(f.parameters[0].name.text, "a");
    assert_eq!(f.parameters[0].type_.text, "int");
    assert!(f.return_type.is_some());
    assert_eq!(f.body.len(), 1);
    match &f.body[0] {
        StatementNode::Return(Some(ExpressionNode::Binary(_, op, _))) => {
            assert_eq!(op.kind, TokenKind::PlusToken);
        },
        other => panic!("unexpected statement {:?}", other),
    }
}

#[test]
fn parser_precedence_climbing_nests_multiplication_tighter() {
    let lexer = Lexer::new("fun f():int { return 1+2*3; }".to_string());
    let mut parser = Parser::new(lexer);
    let program = parser.parse().unwrap();
    match &program.functions[0].body[0] {
        StatementNode::Return(Some(ExpressionNode::Binary(l, op, r))) => {
            assert_eq!(op.kind, TokenKind::PlusToken);
            assert!(matches!(**l, ExpressionNode::Literal(_)));
            match &**r {
                ExpressionNode::Binary(_, inner, _) => {
                    assert_eq!(inner.kind, TokenKind::StarToken)
                },
                other => panic!("unexpected right operand {:?}", other),
            }
        },
        other => panic!("unexpected statement {:?}", other),
    }
}

#[test]
fn parser_rejects_a_void_return_annotation() {
    let lexer = Lexer::new("fun f():void { }".to_string());
    let mut parser = Parser::new(lexer);
    let err = parser.parse().unwrap_err();
    assert_eq!(err.kind, DiagnosticKind::ParseError);
}

#[test]
fn match_data_type_accepts_exactly_the_three_data_types() {
    let ok = SyntaxToken::new(
        TokenKind::DataTypeToken,
        TextSpan { start: 0, end: 3, line_no: 1, col_no: 1 },
        "int".to_string(),
    );
    assert_eq!(Parser::match_data_type(&ok).unwrap(), "int");
    let bad = SyntaxToken::new(
        TokenKind::DataTypeToken,
        TextSpan { start: 0, end: 4, line_no: 1, col_no: 1 },
        "void".to_string(),
    );
    assert!(Parser::match_data_type(&bad).is_err());
    let not_a_type = SyntaxToken::new(
        TokenKind::IdentifierToken,
        TextSpan { start: 0, end: 3, line_no: 1, col_no: 1 },
        "int".to_string(),
    );
    assert!(Parser::match_data_type(&not_a_type).is_err());
}

#[test]
fn type_literal_conversions() {
    let tok = SyntaxToken::new(
        TokenKind::DataTypeToken,
        TextSpan { start: 4, end: 9, line_no: 2, col_no: 5 },
        "float".to_string(),
    );
    let t = TypeLiteral::from_token(tok).unwrap();
    assert_eq!(t.kind(), TypeKind::Float);
    assert_eq!(t.get_type(), "float");
    assert_eq!(t.get_line_str(), "2,5");
    let bad = SyntaxToken::new(
        TokenKind::IdentifierToken,
        TextSpan { start: 0, end: 1, line_no: 1, col_no: 1 },
        "date".to_string(),
    );
    assert!(TypeLiteral::from_token(bad).is_err());
}

#[test]
fn decimal_rendering_matches_the_usual_notation() {
    assert_eq!(usize_to_string(0), "0");
    assert_eq!(usize_to_string(7), "7");
    assert_eq!(usize_to_string(10), "10");
    assert_eq!(usize_to_string(90301), "90301");
}

#[test]
fn token_trim_strips_surrounding_whitespace() {
    let tok = SyntaxToken::new(
        TokenKind::IdentifierToken,
        TextSpan { start: 0, end: 6, line_no: 1, col_no: 1 },
        " \tab c\n".to_string(),
    );
    assert_eq!(tok.get_trim(), "ab c");
}

#[test]
fn return_path_checker_requires_an_else_branch() {
    fn ident(text: &str) -> SyntaxToken {
        SyntaxToken::new(
            TokenKind::IdentifierToken,
            TextSpan { start: 0, end: 1, line_no: 1, col_no: 1 },
            text.to_string(),
        )
    }
    let one = ExpressionNode::Literal(TypeLiteral::Integer(ident("1")));
    let cond = ExpressionNode::Literal(TypeLiteral::Integer(ident("0")));
    let then_body = vec![StatementNode::Return(Some(one))];
    let without_else = FunctionNode::new(
        ident("f"),
        Some(TypeLiteral::Integer(ident("int"))),
        Vec::new(),
        vec![StatementNode::IfElse(cond, then_body, Vec::new(), None)],
    );
    let mut graph = FunctionControlGraph::new(&without_else);
    let err = graph.build().unwrap_err();
    assert_eq!(err.kind, DiagnosticKind::ControlFlowError);

    let cond2 = ExpressionNode::Literal(TypeLiteral::Integer(ident("0")));
    let one2 = ExpressionNode::Literal(TypeLiteral::Integer(ident("1")));
    let two = ExpressionNode::Literal(TypeLiteral::Integer(ident("2")));
    let with_else = FunctionNode::new(
        ident("f"),
        Some(TypeLiteral::Integer(ident("int"))),
        Vec::new(),
        vec![
            StatementNode::IfElse(
                cond2,
                vec![StatementNode::Return(Some(one2))],
                Vec::new(),
                Some(vec![StatementNode::Return(Some(two))]),
            ),
        ],
    );
    let mut graph2 = FunctionControlGraph::new(&with_else);
    assert!(graph2.build().is_ok());
}

#[test]
fn flow_nodes_carry_their_labels() {
    let leaf = FlowNode::from(true, "return".to_string());
    assert!(leaf.has_return);
    assert_eq!(leaf.name, "return");
    let node = FlowNode::new("root".to_string());
    assert!(!node.has_return);
    assert!(node.child_nodes.is_empty());
}

#[test]
fn syntax_tree_hands_back_its_root() {
    let program = ProgramNode::new(Vec::new());
    let tree = SyntaxTree::new(program);
    assert_eq!(tree.get_root().functions.len(), 0);
}

#[test]
fn parameter_nodes_keep_name_and_type() {
    let name = SyntaxToken::new(
        TokenKind::IdentifierToken,
        TextSpan { start: 0, end: 1, line_no: 1, col_no: 1 },
        "a".to_string(),
    );
    let ty = SyntaxToken::new(
        TokenKind::DataTypeToken,
        TextSpan { start: 2, end: 5, line_no: 1, col_no: 3 },
        "int".to_string(),
    );
    let p = ParameterNode::new(name, ty);
    assert_eq!(p.name.text, "a");
    assert_eq!(p.type_.text, "int");
}
