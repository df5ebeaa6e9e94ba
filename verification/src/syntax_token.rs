use vstd::prelude::*;
use crate::text_span::{SpanModel, TextSpan};
use crate::token_kind::TokenKind;

verus! {

/// Mathematical model of a token: its kind, lexeme and place in the source.
pub struct TokenModel {
    pub kind: TokenKind,
    pub span: SpanModel,
    pub text: Seq<char>,
}

/// The smallest lexical unit of the language: a kind, the exact source
/// lexeme, and a source position.
#[derive(Debug)]
pub struct SyntaxToken {
    pub kind: TokenKind,
    pub position: TextSpan,
    pub text: String,
}

impl Clone for SyntaxToken {
    fn clone(&self) -> (r: Self)
        ensures
            r == *self,
    {
        SyntaxToken { kind: self.kind, position: self.position, text: self.text.clone() }
    }
}

impl View for SyntaxToken {
    type V = TokenModel;

    open spec fn view(&self) -> TokenModel {
        TokenModel { kind: self.kind, span: self.position@, text: self.text@ }
    }
}

/// True of the six characters that count as whitespace in the language.
pub open spec fn is_space_char(c: char) -> bool {
    c == ' ' || c == '\t' || c == '\n' || c == '\r' || c == '\x0b' || c == '\x0c'
}

/// `s` without leading or trailing whitespace.
pub open spec fn spec_trim(s: Seq<char>) -> Seq<char>
    decreases s.len(),
{
    if s.len() > 0 && is_space_char(s[0]) {
        spec_trim(s.skip(1))
    } else if s.len() > 0 && is_space_char(s[s.len() - 1]) {
        spec_trim(s.take(s.len() - 1))
    } else {
        s
    }
}

impl SyntaxToken {
    /// Builds a token from its kind, its position and its lexeme.
    pub fn new(kind: TokenKind, pos: TextSpan, text: String) -> (r: SyntaxToken)
        ensures
            r@ == (TokenModel { kind, span: pos@, text: text@ }),
    {
        SyntaxToken { kind, position: pos, text }
    }

    /// The lexeme with surrounding whitespace removed.
    pub fn get_trim(&self) -> (r: String)
        ensures
            r@ == spec_trim(self.text@),
    {
        let s = self.text.as_str();
        let n = s.unicode_len();
        let mut from: usize = 0;
        let mut to: usize = n;
        proof {
            assert(s@.subrange(0, n as int) =~= s@);
        }
        while from < to && is_space(s.get_char(from))
            invariant
                n == s@.len(),
                0 <= from <= to <= n,
                to == n,
                spec_trim(s@) == spec_trim(s@.subrange(from as int, to as int)),
            decreases to - from,
        {
            proof {
                assert(s@.subrange(from as int, to as int).skip(1) =~= s@.subrange(
                    from as int + 1,
                    to as int,
                ));
            }
            from = from + 1;
        }
        while to > from && is_space(s.get_char(to - 1))
            invariant
                n == s@.len(),
                0 <= from <= to <= n,
                from < to ==> !is_space_char(s@[from as int]),
                spec_trim(s@) == spec_trim(s@.subrange(from as int, to as int)),
            decreases to,
        {
            proof {
                assert(s@.subrange(from as int, to as int).take(
                    s@.subrange(from as int, to as int).len() - 1,
                ) =~= s@.subrange(from as int, to as int - 1));
            }
            to = to - 1;
        }
        proof {
            assert(spec_trim(s@.subrange(from as int, to as int)) == s@.subrange(
                from as int,
                to as int,
            ));
        }
        s.substring_char(from, to).to_owned()
    }
}

/// Decides `is_space_char` on a concrete character.
pub fn is_space(c: char) -> (r: bool)
    ensures
        r == is_space_char(c),
{
    c == ' ' || c == '\t' || c == '\n' || c == '\r' || c == '\x0b' || c == '\x0c'
}

} // verus!
