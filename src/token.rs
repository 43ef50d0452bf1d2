use vstd::prelude::*;

verus! {

/// The bracket kinds that open and close a group of tokens.
#[derive(Clone, Copy, PartialEq, Eq, Structural, Debug)]
pub enum Delim {
    Paren,
    Bracket,
    Brace,
}

/// One token of a flattened token stream: a group appears as its opening
/// delimiter, its contents and its closing delimiter.
#[derive(Clone, Debug)]
pub enum Token {
    Ident(String),
    /// A punctuation character; the flag is set when it is joined to the next one (`->`, `::`).
    Punct(char, bool),
    Literal(String),
    Open(Delim),
    Close(Delim),
}

pub ghost enum TokenV {
    Ident(Seq<char>),
    Punct(char, bool),
    Literal(Seq<char>),
    Open(Delim),
    Close(Delim),
}

impl View for Token {
    type V = TokenV;

    open spec fn view(&self) -> TokenV {
        match self {
            Token::Ident(s) => TokenV::Ident(s@),
            Token::Punct(c, j) => TokenV::Punct(*c, *j),
            Token::Literal(s) => TokenV::Literal(s@),
            Token::Open(d) => TokenV::Open(*d),
            Token::Close(d) => TokenV::Close(*d),
        }
    }
}

impl Token {
    /// A copy of the token with the same view.
    pub fn dup(&self) -> (r: Token)
        ensures
            r@ == self@,
    {
        match self {
            Token::Ident(s) => Token::Ident(s.clone()),
            Token::Punct(c, j) => Token::Punct(*c, *j),
            Token::Literal(s) => Token::Literal(s.clone()),
            Token::Open(d) => Token::Open(*d),
            Token::Close(d) => Token::Close(*d),
        }
    }
}

/// Whether two tokens have the same view.
pub fn same_token(a: &Token, b: &Token) -> (r: bool)
    ensures
        r == (a@ == b@),
{
    match (a, b) {
        (Token::Ident(x), Token::Ident(y)) => x.eq(y),
        (Token::Punct(c, j), Token::Punct(d, k)) => *c == *d && *j == *k,
        (Token::Literal(x), Token::Literal(y)) => x.eq(y),
        (Token::Open(x), Token::Open(y)) => *x == *y,
        (Token::Close(x), Token::Close(y)) => *x == *y,
        _ => false,
    }
}

} // verus!
