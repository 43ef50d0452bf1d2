//! Forwarding of methods to a field: a declaration such as
//! `fn len(&self) -> usize to self.items` is parsed from tokens and turned
//! into the tokens of `fn len(&self) -> usize { self.items.len().clone() }`.
use vstd::prelude::*;

pub mod grammar;
pub mod implement;
pub mod laws;
pub mod model;
pub mod parse;
pub mod scan;
pub mod token;

use crate::grammar::spec_decl;
use crate::implement::{spec_implement, spec_implement_pub};
use crate::model::{FwdDecl, ParseError};
use crate::scan::toks;
use crate::token::{Token, TokenV};

verus! {

/// What `fwd` produces for the tokens `s`.
pub open spec fn spec_fwd(s: Seq<TokenV>) -> Result<Seq<TokenV>, ParseError> {
    match spec_decl(s) {
        Ok(d) => Ok(spec_implement(d)),
        Err(e) => Err(e),
    }
}

/// What `fwd_pub` produces for the tokens `s`.
pub open spec fn spec_fwd_pub(s: Seq<TokenV>) -> Result<Seq<TokenV>, ParseError> {
    match spec_decl(s) {
        Ok(d) => Ok(spec_implement_pub(d)),
        Err(e) => Err(e),
    }
}

/// Expands a forwarding declaration into private forwarding functions.
pub fn fwd(input: &Vec<Token>) -> (r: Result<Vec<Token>, ParseError>)
    ensures
        match r {
            Ok(t) => spec_fwd(toks(input@)) == Ok::<_, ParseError>(toks(t@)),
            Err(e) => spec_fwd(toks(input@)) == Err::<Seq<TokenV>, _>(e),
        },
{
    match FwdDecl::parse(input) {
        Ok(d) => Ok(d.implement()),
        Err(e) => Err(e),
    }
}

/// Expands a forwarding declaration into public forwarding functions.
pub fn fwd_pub(input: &Vec<Token>) -> (r: Result<Vec<Token>, ParseError>)
    ensures
        match r {
            Ok(t) => spec_fwd_pub(toks(input@)) == Ok::<_, ParseError>(toks(t@)),
            Err(e) => spec_fwd_pub(toks(input@)) == Err::<Seq<TokenV>, _>(e),
        },
{
    match FwdDecl::parse(input) {
        Ok(d) => Ok(d.implement_pub()),
        Err(e) => Err(e),
    }
}

} // verus!
