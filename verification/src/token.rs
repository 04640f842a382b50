//! Tokens, token kinds, and positioned characters.

use vstd::prelude::*;
use crate::position::Position;

verus! {

/// The classification of a token.
#[derive(Clone, Copy, PartialEq, Eq, Structural, Debug)]
pub enum TokenType {
    Undefined,
    Word,
    Number,
    Comment,
    Symbol,
    Empty,
}

/// One lexical unit: its kind, its text, and the position of its first
/// character. The text is non-empty except for the synthetic `Empty` token
/// that stands in for a missing trailing separator.
#[derive(Debug)]
pub struct Token {
    pub position: Position,
    pub value: String,
    pub token_type: TokenType,
}

impl Clone for Token {
    fn clone(&self) -> (r: Self)
        ensures
            r@ == self@,
    {
        Token { position: self.position, value: self.value.clone(), token_type: self.token_type }
    }
}

/// Clones a token list, keeping its content.
pub fn clone_tokens(tokens: &Vec<Token>) -> (r: Vec<Token>)
    ensures
        r.deep_view() == tokens.deep_view(),
{
    let mut out: Vec<Token> = Vec::new();
    let mut i: usize = 0;
    while i < tokens.len()
        invariant
            i <= tokens.len(),
            out.deep_view() =~= tokens.deep_view().take(i as int),
        decreases tokens.len() - i,
    {
        let ghost prev = out.deep_view();
        out.push(tokens[i].clone());
        i = i + 1;
        proof {
            assert(out.deep_view() =~= prev.push(tokens@[i - 1]@));
            assert(prev.push(tokens@[i - 1]@) =~= tokens.deep_view().take(i as int));
        }
    }
    proof {
        assert(tokens.deep_view().take(tokens.len() as int) =~= tokens.deep_view());
    }
    out
}

/// The mathematical content of a token: kind, text and position.
#[verifier::ext_equal]
pub struct TokenModel {
    pub position: Position,
    pub text: Seq<char>,
    pub kind: TokenType,
}

impl View for Token {
    type V = TokenModel;

    open spec fn view(&self) -> TokenModel {
        TokenModel { position: self.position, text: self.value@, kind: self.token_type }
    }
}

impl DeepView for Token {
    type V = TokenModel;

    open spec fn deep_view(&self) -> TokenModel {
        self.view()
    }
}

/// One character of the expanded source, tagged with its position.
#[derive(Clone, Copy, PartialEq, Eq, Structural, Debug)]
pub struct CodeChar {
    pub symbol: char,
    pub position: Position,
}

} // verus!

verus! {

/// Clones the tokens `[a, b)` of a list.
pub fn tokens_slice(tokens: &Vec<Token>, a: usize, b: usize) -> (r: Vec<Token>)
    requires
        a <= b <= tokens@.len(),
    ensures
        r.deep_view() == tokens.deep_view().subrange(a as int, b as int),
{
    let mut out: Vec<Token> = Vec::new();
    let mut i: usize = a;
    proof {
        assert(out.deep_view() =~= tokens.deep_view().subrange(a as int, a as int));
    }
    while i < b
        invariant
            a <= i <= b <= tokens@.len(),
            out.deep_view() =~= tokens.deep_view().subrange(a as int, i as int),
        decreases b - i,
    {
        let ghost out0 = out.deep_view();
        out.push(tokens[i].clone());
        i = i + 1;
        proof {
            assert(out.deep_view() =~= out0.push(tokens.deep_view()[i - 1]));
            assert(out.deep_view() =~= tokens.deep_view().subrange(a as int, i as int));
        }
    }
    out
}

} // verus!
