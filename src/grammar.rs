use vstd::prelude::*;

use crate::model::{ArgV, FwdDeclV, MemberV, MethodV, ParseError, Receiver};
use crate::scan::{first, is_punct, lemma_first_range, lvl, Mode};
use crate::token::{Delim, TokenV};

verus! {

// The grammar of a forwarding declaration, over token views:
//
//   Declaration := MethodList "to" "self" "." Member
//   MethodList  := Method ("," Method)*      (a comma only where "fn" follows)
//   Method      := "fn" Ident "(" Receiver ("," Pat ":" Type)* [","] ")" ["->" Type]
//   Receiver    := "self" | "mut" "self" | "&" "self" | "&" "mut" "self"
//   Member      := Ident | decimal integer literal that fits in u32
//
// Levels (see `lvl`) decide which commas and colons belong to this grammar
// rather than to a type or a pattern. A return type ends at the first token
// of the outermost level that no type goes on with (see `Mode::TypeEnd`).

pub open spec fn word(w: Seq<char>) -> TokenV {
    TokenV::Ident(w)
}

/// The receiver spelled by the tokens in `[x, y)`, if they spell one.
pub open spec fn spec_receiver(s: Seq<TokenV>, x: int, y: int) -> Option<Receiver> {
    if y - x == 1 && s[x] == word("self"@) {
        Some(Receiver::Value)
    } else if y - x == 2 && s[x] == word("mut"@) && s[x + 1] == word("self"@) {
        Some(Receiver::MutValue)
    } else if y - x == 2 && is_punct(s[x], '&') && s[x + 1] == word("self"@) {
        Some(Receiver::Ref)
    } else if y - x == 3 && is_punct(s[x], '&') && s[x + 1] == word("mut"@) && s[x + 2] == word(
        "self"@,
    ) {
        Some(Receiver::RefMut)
    } else {
        None
    }
}

/// The parameter `pat: ty` in `[x, y)`, split at its first lone colon at level `l`.
pub open spec fn spec_arg(s: Seq<TokenV>, x: int, y: int, l: nat) -> Option<ArgV> {
    let k = first(s, x, y, Mode::Colon(l as usize));
    if x < k && k + 1 < y {
        Some(ArgV { pat: s.subrange(x, k), ty: s.subrange(k + 1, y) })
    } else {
        None
    }
}

/// The parameters in `[x, c)`, separated by commas at level `l`; a trailing comma is allowed.
pub open spec fn spec_args(s: Seq<TokenV>, x: int, c: int, l: nat) -> Option<Seq<ArgV>>
    decreases c - x,
    via spec_args_decreases
{
    if x >= c {
        Some(seq![])
    } else {
        let k = first(s, x, c, Mode::Comma(l as usize));
        match spec_arg(s, x, k, l) {
            None => None,
            Some(a) => if k >= c {
                Some(seq![a])
            } else {
                match spec_args(s, k + 1, c, l) {
                    None => None,
                    Some(r) => Some(seq![a] + r),
                }
            },
        }
    }
}

#[via_fn]
proof fn spec_args_decreases(s: Seq<TokenV>, x: int, c: int, l: nat) {
    if x < c {
        lemma_first_range(s, x, c, Mode::Comma(l as usize));
    }
}

/// What follows a method's parameter list at `x`: `->` and a non-empty type,
/// which ends at the first position that `Mode::TypeEnd` finds; or nothing.
/// The result holds the return type and the position after the signature.
pub open spec fn spec_ret(s: Seq<TokenV>, x: int, b: int) -> Option<(Option<Seq<TokenV>>, int)> {
    if x + 1 < b && s[x] == TokenV::Punct('-', true) && is_punct(s[x + 1], '>') {
        let e = first(s, x + 2, b, Mode::TypeEnd);
        if e > x + 2 {
            Some((Some(s.subrange(x + 2, e)), e))
        } else {
            None
        }
    } else {
        Some((None, x))
    }
}

/// The method whose signature starts at `a`, and the position after it.
pub open spec fn spec_method(s: Seq<TokenV>, a: int, b: int) -> Result<(MethodV, int), ParseError> {
    if !(0 <= a < b && s[a] == word("fn"@)) {
        Err(ParseError::NotMethodList)
    } else if !(a + 2 < b && s[a + 1] is Ident && s[a + 2] == TokenV::Open(Delim::Paren)) {
        Err(ParseError::MalformedMethod)
    } else {
        let l = lvl(s, a + 3);
        let c = first(s, a + 3, b, Mode::Close(l as usize));
        let re = first(s, a + 3, c, Mode::Comma(l as usize));
        if c >= b {
            Err(ParseError::MalformedMethod)
        } else {
            match spec_receiver(s, a + 3, re) {
                None => Err(ParseError::MissingReceiver),
                Some(rcv) => {
                    let args = if re >= c {
                        Some(seq![])
                    } else {
                        spec_args(s, re + 1, c, l)
                    };
                    match (args, spec_ret(s, c + 1, b)) {
                        (Some(args), Some((ret, e))) => Ok(
                            (MethodV { ident: s[a + 1]->Ident_0, rcv, args, ret }, e),
                        ),
                        _ => Err(ParseError::MalformedMethod),
                    }
                },
            }
        }
    }
}

pub proof fn lemma_method_end(s: Seq<TokenV>, a: int, b: int)
    ensures
        spec_method(s, a, b) is Ok ==> a < spec_method(s, a, b)->Ok_0.1 <= b,
{
    if 0 <= a < b && a + 2 < b {
        let l = lvl(s, a + 3);
        lemma_first_range(s, a + 3, b, Mode::Close(l as usize));
        let c = first(s, a + 3, b, Mode::Close(l as usize));
        if c + 3 <= b {
            lemma_first_range(s, c + 3, b, Mode::TypeEnd);
        }
    }
}

/// Whether a method list goes on at `e`: a comma followed by `fn`.
pub open spec fn continues(s: Seq<TokenV>, e: int, b: int) -> bool {
    0 <= e && e + 1 < b && is_punct(s[e], ',') && s[e + 1] == word("fn"@)
}

/// The methods from `a` on, separated by commas that are followed by `fn`,
/// and the position after the last one.
pub open spec fn spec_methods(s: Seq<TokenV>, a: int, b: int) -> Result<
    (Seq<MethodV>, int),
    ParseError,
>
    decreases b - a,
    via spec_methods_decreases
{
    match spec_method(s, a, b) {
        Err(e) => Err(e),
        Ok((m, e)) => if continues(s, e, b) {
            match spec_methods(s, e + 1, b) {
                Err(x) => Err(x),
                Ok((r, f)) => Ok((seq![m] + r, f)),
            }
        } else {
            Ok((seq![m], e))
        },
    }
}

#[via_fn]
proof fn spec_methods_decreases(s: Seq<TokenV>, a: int, b: int) {
    lemma_method_end(s, a, b);
}

/// A method list that takes all of `s`; tokens left after it are refused.
pub open spec fn spec_delegate(s: Seq<TokenV>) -> Result<Seq<MethodV>, ParseError> {
    match spec_methods(s, 0, s.len() as int) {
        Err(e) => Err(e),
        Ok((m, e)) => if e == s.len() {
            Ok(m)
        } else {
            Err(ParseError::MalformedMethod)
        },
    }
}

/// One method signature that takes all of `s`.
pub open spec fn spec_method_only(s: Seq<TokenV>) -> Result<MethodV, ParseError> {
    match spec_method(s, 0, s.len() as int) {
        Err(e) => Err(e),
        Ok((m, e)) => if e == s.len() {
            Ok(m)
        } else {
            Err(ParseError::MalformedMethod)
        },
    }
}

pub open spec fn is_digit(c: char) -> bool {
    '0' <= c <= '9'
}

/// The value of a string of decimal digits.
pub open spec fn dec_val(d: Seq<char>) -> nat
    decreases d.len(),
{
    if d.len() == 0 {
        0
    } else {
        dec_val(d.drop_last()) * 10 + (d.last() as nat - '0' as nat) as nat
    }
}

/// A literal that names a tuple field: decimal digits whose value fits in `u32`.
pub open spec fn is_index(d: Seq<char>) -> bool {
    0 < d.len() && (forall|i: int| 0 <= i < d.len() ==> is_digit(#[trigger] d[i])) && dec_val(d)
        <= u32::MAX
}

/// The field named by `self . member` in `[x, len)`.
pub open spec fn spec_target(s: Seq<TokenV>, x: int) -> Option<MemberV> {
    if s.len() == x + 3 && s[x] == word("self"@) && is_punct(s[x + 1], '.') {
        match s[x + 2] {
            TokenV::Ident(n) => Some(MemberV::Named(n)),
            TokenV::Literal(d) => if is_index(d) {
                Some(MemberV::Unnamed(dec_val(d) as u32))
            } else {
                None
            },
            _ => None,
        }
    } else {
        None
    }
}

/// The declaration that the tokens `s` spell, or why they spell none. Input
/// with no `to` at the outermost level, and a method list followed by
/// anything but `to`, miss the separator.
pub open spec fn spec_decl(s: Seq<TokenV>) -> Result<FwdDeclV, ParseError> {
    if !(0 < s.len() && s[0] == word("fn"@)) {
        Err(ParseError::NotMethodList)
    } else if first(s, 0, s.len() as int, Mode::To) >= s.len() {
        Err(ParseError::MissingTo)
    } else {
        match spec_methods(s, 0, s.len() as int) {
            Err(e) => Err(e),
            Ok((methods, e)) => if e < s.len() && s[e] == word("to"@) {
                match spec_target(s, e + 1) {
                    None => Err(ParseError::MalformedTarget),
                    Some(target) => Ok(FwdDeclV { methods, target }),
                }
            } else {
                Err(ParseError::MissingTo)
            },
        }
    }
}

} // verus!
