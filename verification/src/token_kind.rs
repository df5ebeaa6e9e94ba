use vstd::prelude::*;

verus! {

/// The closed set of token kinds the lexer can produce: keywords, the
/// type-name class, identifiers, numbers, strings, operators, punctuation,
/// whitespace, the end-of-file sentinel and the bad-character token.
#[derive(Debug, PartialEq, Eq, Clone, Copy, Hash, Structural)]
pub enum TokenKind {
    EndOfFileToken,
    WhiteSpaceToken,
    BadToken,
    IdentifierToken,
    NumberToken,
    StringToken,
    PlusToken,
    MinusToken,
    SlashToken,
    StarToken,
    BangToken,
    ModulusToken,
    EqualEqualToken,
    NotEqualToken,
    AmpersandAmpersandToken,
    PipePipeToken,
    BitWisePipeToken,
    BitWiseAmpersandToken,
    EqualToken,
    GreaterThanEqualToken,
    GreaterThanToken,
    SmallerThanToken,
    SmallerThanEqualToken,
    SemicolonToken,
    ColonToken,
    CommaToken,
    DotToken,
    OpenParenthesisToken,
    CloseParenthesisToken,
    CurlyOpenBracketToken,
    CurlyCloseBracketToken,
    IfToken,
    ElseToken,
    ForToken,
    WhileToken,
    ReturnToken,
    BreakToken,
    ContinueToken,
    LetToken,
    FunToken,
    DataTypeToken,
    LineCommentToken,
    BlockCommentToken,
}

impl TokenKind {
    /// Binding strength of this kind as a binary operator; 0 means the kind
    /// is no binary operator. Higher strengths bind tighter.
    pub open spec fn spec_binary_precedence(self) -> i32 {
        match self {
            TokenKind::BitWiseAmpersandToken => 90,
            TokenKind::BitWisePipeToken => 80,
            TokenKind::ModulusToken => 55,
            TokenKind::SlashToken => 50,
            TokenKind::StarToken => 50,
            TokenKind::PlusToken => 40,
            TokenKind::MinusToken => 40,
            TokenKind::BangToken => 30,
            TokenKind::GreaterThanEqualToken => 15,
            TokenKind::GreaterThanToken => 15,
            TokenKind::SmallerThanEqualToken => 15,
            TokenKind::SmallerThanToken => 15,
            TokenKind::EqualEqualToken => 15,
            TokenKind::NotEqualToken => 15,
            TokenKind::AmpersandAmpersandToken => 20,
            TokenKind::PipePipeToken => 10,
            _ => 0,
        }
    }

    /// Binding strength of this kind as a unary operator; 0 means the kind
    /// is no unary operator.
    pub open spec fn spec_unary_precedence(self) -> i32 {
        match self {
            TokenKind::PlusToken => 6,
            TokenKind::MinusToken => 6,
            TokenKind::BangToken => 6,
            _ => 0,
        }
    }

    pub fn get_binary_precedence(&self) -> (r: i32)
        ensures
            r == self.spec_binary_precedence(),
    {
        match self {
            TokenKind::BitWiseAmpersandToken => 90,
            TokenKind::BitWisePipeToken => 80,
            TokenKind::ModulusToken => 55,
            TokenKind::SlashToken => 50,
            TokenKind::StarToken => 50,
            TokenKind::PlusToken => 40,
            TokenKind::MinusToken => 40,
            TokenKind::BangToken => 30,
            TokenKind::GreaterThanEqualToken => 15,
            TokenKind::GreaterThanToken => 15,
            TokenKind::SmallerThanEqualToken => 15,
            TokenKind::SmallerThanToken => 15,
            TokenKind::EqualEqualToken => 15,
            TokenKind::NotEqualToken => 15,
            TokenKind::AmpersandAmpersandToken => 20,
            TokenKind::PipePipeToken => 10,
            _ => 0,
        }
    }

    pub fn get_unary_precedence(&self) -> (r: i32)
        ensures
            r == self.spec_unary_precedence(),
    {
        match self {
            TokenKind::PlusToken => 6,
            TokenKind::MinusToken => 6,
            TokenKind::BangToken => 6,
            _ => 0,
        }
    }
}

} // verus!
