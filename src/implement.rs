use vstd::prelude::*;

use crate::grammar::word;
use crate::model::{ArgV, Delegate, FwdDecl, FwdDeclV, Member, MemberV, Method, MethodV, Receiver};
use crate::scan::{find, first, is_char, is_punct, is_word, level_at, toks, Mode};
use crate::token::{Delim, Token, TokenV};

verus! {

pub open spec fn punct(c: char) -> TokenV {
    TokenV::Punct(c, false)
}

pub open spec fn rcv_tokens(r: Receiver) -> Seq<TokenV> {
    match r {
        Receiver::Value => seq![word("self"@)],
        Receiver::MutValue => seq![word("mut"@), word("self"@)],
        Receiver::Ref => seq![punct('&'), word("self"@)],
        Receiver::RefMut => seq![punct('&'), word("mut"@), word("self"@)],
    }
}

/// `, pat: ty` for each parameter, in order.
pub open spec fn params_tail(a: Seq<ArgV>) -> Seq<TokenV>
    decreases a.len(),
{
    if a.len() == 0 {
        seq![]
    } else {
        params_tail(a.drop_last()) + seq![punct(',')] + a.last().pat + seq![punct(':')]
            + a.last().ty
    }
}

/// The parameters' patterns, separated by commas.
pub open spec fn call_args(a: Seq<ArgV>) -> Seq<TokenV>
    decreases a.len(),
{
    if a.len() == 0 {
        seq![]
    } else if a.len() == 1 {
        a[0].pat
    } else {
        call_args(a.drop_last()) + seq![punct(',')] + a.last().pat
    }
}

pub open spec fn ret_tokens(r: Option<Seq<TokenV>>) -> Seq<TokenV> {
    match r {
        Some(t) => seq![TokenV::Punct('-', true), punct('>')] + t,
        None => seq![],
    }
}

/// Where a type starts once the leading references `&`, `&'a`, `&mut` from
/// position `i` on are stripped.
pub open spec fn strip_refs(t: Seq<TokenV>, i: int) -> int
    decreases t.len() - i,
{
    if 0 <= i < t.len() && is_punct(t[i], '&') {
        let j = i + 1;
        let j = if j + 1 < t.len() && t[j] == TokenV::Punct('\'', true) && t[j + 1] is Ident {
            j + 2
        } else {
            j
        };
        let j = if j < t.len() && t[j] == word("mut"@) {
            j + 1
        } else {
            j
        };
        strip_refs(t, j)
    } else {
        i
    }
}

/// Whether a path type starts at `i`: `::`, `<` of a qualified path, or an
/// identifier that opens no other kind of type (`dyn`, `impl`, `fn`,
/// `unsafe`, `for`, or an ABI such as `extern "C"` before `fn`).
pub open spec fn path_head(t: Seq<TokenV>, i: int) -> bool {
    is_punct(t[i], ':') || is_punct(t[i], '<') || (t[i] is Ident && t[i] != word("dyn"@) && t[i]
        != word("impl"@) && t[i] != word("fn"@) && t[i] != word("unsafe"@) && t[i] != word(
        "for"@,
    ) && !(i + 1 < t.len() && (t[i + 1] is Literal || t[i + 1] == word("fn"@))))
}

/// Whether the type is an optional wrapper: behind any references, a path
/// with a segment named `Option`, before any `->` of `Fn(..) -> ..` sugar.
/// Only the spelling is looked at.
pub open spec fn is_option_type(t: Seq<TokenV>) -> bool {
    let i = strip_refs(t, 0);
    let e = first(t, i, t.len() as int, Mode::Arrow);
    0 <= i < t.len() && path_head(t, i) && first(t, i, e, Mode::OptionName) < e
}

/// The call's result is cloned where the receiver is borrowed and the method
/// returns a type that is not an optional wrapper.
pub open spec fn needs_clone(m: MethodV) -> bool {
    m.rcv.is_borrowed() && m.ret is Some && !is_option_type(m.ret->0)
}

pub open spec fn digit_char(d: nat) -> char {
    if d == 0 {
        '0'
    } else if d == 1 {
        '1'
    } else if d == 2 {
        '2'
    } else if d == 3 {
        '3'
    } else if d == 4 {
        '4'
    } else if d == 5 {
        '5'
    } else if d == 6 {
        '6'
    } else if d == 7 {
        '7'
    } else if d == 8 {
        '8'
    } else {
        '9'
    }
}

/// The decimal digits of `n`, without leading zeros.
pub open spec fn dec_digits(n: nat) -> Seq<char>
    decreases n,
{
    if n < 10 {
        seq![digit_char(n)]
    } else {
        dec_digits(n / 10).push(digit_char(n % 10))
    }
}

pub open spec fn member_tokens(t: MemberV) -> Seq<TokenV> {
    match t {
        MemberV::Named(n) => seq![TokenV::Ident(n)],
        MemberV::Unnamed(i) => seq![TokenV::Literal(dec_digits(i as nat))],
    }
}

/// `fn name(receiver, params) [-> Type]`
pub open spec fn header(m: MethodV) -> Seq<TokenV> {
    seq![word("fn"@), TokenV::Ident(m.ident), TokenV::Open(Delim::Paren)] + rcv_tokens(m.rcv)
        + params_tail(m.args) + seq![TokenV::Close(Delim::Paren)] + ret_tokens(m.ret)
}

/// `self.member.name(args)`
pub open spec fn call(m: MethodV, t: MemberV) -> Seq<TokenV> {
    seq![word("self"@), punct('.')] + member_tokens(t) + seq![
        punct('.'),
        TokenV::Ident(m.ident),
        TokenV::Open(Delim::Paren),
    ] + call_args(m.args) + seq![TokenV::Close(Delim::Paren)]
}

pub open spec fn clone_suffix() -> Seq<TokenV> {
    seq![
        punct('.'),
        word("clone"@),
        TokenV::Open(Delim::Paren),
        TokenV::Close(Delim::Paren),
    ]
}

/// `{ self.member.name(args) }`, with `.clone()` after the call where `needs_clone`.
pub open spec fn body(m: MethodV, t: MemberV) -> Seq<TokenV> {
    seq![TokenV::Open(Delim::Brace)] + call(m, t) + (if needs_clone(m) {
        clone_suffix()
    } else {
        seq![]
    }) + seq![TokenV::Close(Delim::Brace)]
}

/// The forwarding function for one method.
pub open spec fn fn_tokens(m: MethodV, t: MemberV) -> Seq<TokenV> {
    header(m) + body(m, t)
}

/// The forwarding functions of a declaration, one for each method, in order.
pub open spec fn spec_delegates(d: FwdDeclV) -> Seq<Seq<TokenV>> {
    d.methods.map_values(|m: MethodV| fn_tokens(m, d.target))
}

pub open spec fn flatten(x: Seq<Seq<TokenV>>) -> Seq<TokenV>
    decreases x.len(),
{
    if x.len() == 0 {
        seq![]
    } else {
        flatten(x.drop_last()) + x.last()
    }
}

pub open spec fn make_pub(f: Seq<TokenV>) -> Seq<TokenV> {
    seq![word("pub"@)] + f
}

pub open spec fn spec_implement(d: FwdDeclV) -> Seq<TokenV> {
    flatten(spec_delegates(d))
}

pub open spec fn spec_implement_pub(d: FwdDeclV) -> Seq<TokenV> {
    flatten(spec_delegates(d).map_values(|f: Seq<TokenV>| make_pub(f)))
}

/// Relies on `ToString` for `u32`, whose `Display` writes the decimal digits
/// without sign or leading zeros.
#[verifier::external_body]
fn index_text(i: u32) -> (r: String)
    ensures
        r@ == dec_digits(i as nat),
{
    i.to_string()
}

fn push_word(out: &mut Vec<Token>, w: &str)
    ensures
        toks(final(out)@) == toks(old(out)@).push(TokenV::Ident(w@)),
{
    let ghost prev = out@;
    out.push(Token::Ident(w.to_owned()));
    assert(toks(out@) =~= toks(prev).push(TokenV::Ident(w@)));
}

fn push_tok(out: &mut Vec<Token>, t: Token)
    ensures
        toks(final(out)@) == toks(old(out)@).push(t@),
{
    let ghost prev = out@;
    out.push(t);
    assert(toks(out@) =~= toks(prev).push(t@));
}

fn push_all(out: &mut Vec<Token>, src: &Vec<Token>)
    ensures
        toks(final(out)@) == toks(old(out)@) + toks(src@),
{
    let ghost start = toks(out@);
    let mut i: usize = 0;
    while i < src.len()
        invariant
            i <= src.len(),
            toks(out@) == start + toks(src@).take(i as int),
        decreases src.len() - i,
    {
        push_tok(out, src[i].dup());
        assert(toks(src@).take(i + 1) =~= toks(src@).take(i as int).push(src@[i as int]@));
        assert(start + toks(src@).take(i + 1) =~= (start + toks(src@).take(i as int)).push(
            src@[i as int]@,
        ));
        i = i + 1;
    }
    assert(toks(src@).take(i as int) =~= toks(src@));
}

fn option_type(t: &Vec<Token>) -> (r: bool)
    ensures
        r == is_option_type(toks(t@)),
{
    let ghost v = toks(t@);
    let mut i: usize = 0;
    loop
        invariant
            i <= t.len(),
            v == toks(t@),
            strip_refs(v, 0) == strip_refs(v, i as int),
        ensures
            i <= t.len(),
            strip_refs(v, 0) == i,
        decreases t.len() - i,
    {
        if i < t.len() {
            assert(v[i as int] == t@[i as int]@);
        }
        if i < t.len() && is_char(&t[i], '&') {
            let mut j = i + 1;
            if j < t.len() && t.len() - j > 1 {
                assert(v[j as int] == t@[j as int]@);
                assert(v[j + 1] == t@[j + 1]@);
                let tick = match &t[j] {
                    Token::Punct(c, jt) => *c == '\'' && *jt,
                    _ => false,
                };
                let name = match &t[j + 1] {
                    Token::Ident(_) => true,
                    _ => false,
                };
                if tick && name {
                    j = j + 2;
                }
            }
            if j < t.len() {
                assert(v[j as int] == t@[j as int]@);
                if is_word(&t[j], "mut") {
                    j = j + 1;
                }
            }
            i = j;
        } else {
            assert(strip_refs(v, i as int) == i);
            break ;
        }
    }
    if i >= t.len() {
        return false;
    }
    assert(v[i as int] == t@[i as int]@);
    if i + 1 < t.len() {
        assert(v[i + 1] == t@[i + 1]@);
    }
    let word_head = match &t[i] {
        Token::Ident(_) => {
            let before_fn = i + 1 < t.len() && (match &t[i + 1] {
                Token::Literal(_) => true,
                _ => false,
            } || is_word(&t[i + 1], "fn"));
            !is_word(&t[i], "dyn") && !is_word(&t[i], "impl") && !is_word(&t[i], "fn")
                && !is_word(&t[i], "unsafe") && !is_word(&t[i], "for") && !before_fn
        },
        _ => false,
    };
    let head = is_char(&t[i], ':') || is_char(&t[i], '<') || word_head;
    if !head {
        return false;
    }
    let l = level_at(t, i);
    let (e, _) = find(t, i, t.len(), l, Mode::Arrow);
    let (k, _) = find(t, i, e, l, Mode::OptionName);
    k < e
}

fn push_rcv(out: &mut Vec<Token>, r: Receiver)
    ensures
        toks(final(out)@) == toks(old(out)@) + rcv_tokens(r),
{
    let ghost start = toks(out@);
    match r {
        Receiver::Value => {
            push_word(out, "self");
        },
        Receiver::MutValue => {
            push_word(out, "mut");
            push_word(out, "self");
        },
        Receiver::Ref => {
            push_tok(out, Token::Punct('&', false));
            push_word(out, "self");
        },
        Receiver::RefMut => {
            push_tok(out, Token::Punct('&', false));
            push_word(out, "mut");
            push_word(out, "self");
        },
    }
    assert(toks(out@) =~= start + rcv_tokens(r));
}

fn push_params(out: &mut Vec<Token>, args: &Vec<crate::model::Arg>)
    ensures
        toks(final(out)@) == toks(old(out)@) + params_tail(crate::model::args_view(args@)),
{
    let ghost start = toks(out@);
    let ghost a = crate::model::args_view(args@);
    let mut i: usize = 0;
    while i < args.len()
        invariant
            i <= args.len(),
            a == crate::model::args_view(args@),
            toks(out@) == start + params_tail(a.take(i as int)),
        decreases args.len() - i,
    {
        let ghost before = toks(out@);
        push_tok(out, Token::Punct(',', false));
        push_all(out, &args[i].pat);
        push_tok(out, Token::Punct(':', false));
        push_all(out, &args[i].ty);
        assert(a.take(i + 1).drop_last() =~= a.take(i as int));
        assert(a.take(i + 1).last() == args@[i as int]@);
        assert(toks(out@) =~= before + seq![punct(',')] + a[i as int].pat + seq![punct(':')]
            + a[i as int].ty);
        i = i + 1;
    }
    assert(a.take(i as int) =~= a);
}

fn push_call_args(out: &mut Vec<Token>, args: &Vec<crate::model::Arg>)
    ensures
        toks(final(out)@) == toks(old(out)@) + call_args(crate::model::args_view(args@)),
{
    let ghost start = toks(out@);
    let ghost a = crate::model::args_view(args@);
    let mut i: usize = 0;
    assert(start + call_args(a.take(0)) =~= start);
    while i < args.len()
        invariant
            i <= args.len(),
            a == crate::model::args_view(args@),
            toks(out@) == start + call_args(a.take(i as int)),
        decreases args.len() - i,
    {
        let ghost before = toks(out@);
        if i > 0 {
            push_tok(out, Token::Punct(',', false));
        }
        push_all(out, &args[i].pat);
        assert(a.take(i + 1).drop_last() =~= a.take(i as int));
        assert(a.take(i + 1).last() == args@[i as int]@);
        if i == 0 {
            assert(toks(out@) =~= before + a[0].pat);
        } else {
            assert(toks(out@) =~= before + seq![punct(',')] + a[i as int].pat);
        }
        i = i + 1;
    }
    assert(a.take(i as int) =~= a);
}

fn push_member(out: &mut Vec<Token>, t: &Member)
    ensures
        toks(final(out)@) == toks(old(out)@) + member_tokens(t@),
{
    let ghost start = toks(out@);
    match t {
        Member::Named(n) => push_tok(out, Token::Ident(n.clone())),
        Member::Unnamed(i) => push_tok(out, Token::Literal(index_text(*i))),
    }
    assert(toks(out@) =~= start + member_tokens(t@));
}

fn push_header(out: &mut Vec<Token>, m: &Method)
    ensures
        toks(final(out)@) == toks(old(out)@) + header(m@),
{
    let ghost start = toks(out@);
    push_word(out, "fn");
    push_tok(out, Token::Ident(m.ident.clone()));
    push_tok(out, Token::Open(Delim::Paren));
    push_rcv(out, m.rcv);
    push_params(out, &m.args);
    push_tok(out, Token::Close(Delim::Paren));
    let ghost mid = toks(out@);
    match &m.ret {
        Some(t) => {
            push_tok(out, Token::Punct('-', true));
            push_tok(out, Token::Punct('>', false));
            push_all(out, t);
        },
        None => {},
    }
    assert(toks(out@) =~= mid + ret_tokens(m@.ret));
    assert(toks(out@) =~= start + header(m@));
}

fn push_call(out: &mut Vec<Token>, m: &Method, target: &Member)
    ensures
        toks(final(out)@) == toks(old(out)@) + call(m@, target@),
{
    let ghost start = toks(out@);
    push_word(out, "self");
    push_tok(out, Token::Punct('.', false));
    push_member(out, target);
    push_tok(out, Token::Punct('.', false));
    push_tok(out, Token::Ident(m.ident.clone()));
    push_tok(out, Token::Open(Delim::Paren));
    push_call_args(out, &m.args);
    push_tok(out, Token::Close(Delim::Paren));
    assert(toks(out@) =~= start + call(m@, target@));
}

fn clone_needed(m: &Method) -> (r: bool)
    ensures
        r == needs_clone(m@),
{
    let borrowed = match m.rcv {
        Receiver::Ref | Receiver::RefMut => true,
        _ => false,
    };
    match &m.ret {
        Some(t) => borrowed && !option_type(t),
        None => false,
    }
}

/// The forwarding function for one method.
pub fn emit_method(m: &Method, target: &Member) -> (r: Vec<Token>)
    ensures
        toks(r@) == fn_tokens(m@, target@),
{
    let mut out: Vec<Token> = Vec::new();
    push_header(&mut out, m);
    let ghost h = toks(out@);
    push_tok(&mut out, Token::Open(Delim::Brace));
    push_call(&mut out, m, target);
    let ghost c0 = toks(out@);
    if clone_needed(m) {
        push_tok(&mut out, Token::Punct('.', false));
        push_word(&mut out, "clone");
        push_tok(&mut out, Token::Open(Delim::Paren));
        push_tok(&mut out, Token::Close(Delim::Paren));
        assert(toks(out@) =~= c0 + clone_suffix());
    } else {
        assert(toks(out@) =~= c0 + seq![]);
    }
    push_tok(&mut out, Token::Close(Delim::Brace));
    assert(toks(out@) =~= h + body(m@, target@));
    assert(seq![] + h =~= h);
    out
}

pub open spec fn fns_view(r: Seq<Vec<Token>>) -> Seq<Seq<TokenV>> {
    r.map_values(|v: Vec<Token>| toks(v@))
}

impl FwdDecl {
    /// One forwarding function for each method, in the declaration's order.
    pub fn implement_delegates(&self) -> (r: Vec<Vec<Token>>)
        ensures
            fns_view(r@) == spec_delegates(self@),
    {
        let Delegate::MethodList(methods) = &self.delegate;
        let ghost want = spec_delegates(self@);
        let mut out: Vec<Vec<Token>> = Vec::new();
        let mut i: usize = 0;
        while i < methods.len()
            invariant
                i <= methods.len(),
                self.delegate == Delegate::MethodList(*methods),
                want == spec_delegates(self@),
                want.len() == methods.len(),
                fns_view(out@) == want.take(i as int),
            decreases methods.len() - i,
        {
            let f = emit_method(&methods[i], &self.target);
            let ghost prev = out@;
            out.push(f);
            assert(fns_view(out@) =~= fns_view(prev).push(toks(f@)));
            assert(want.take(i + 1) =~= want.take(i as int).push(want[i as int]));
            i = i + 1;
        }
        assert(want.take(i as int) =~= want);
        out
    }

    /// The forwarding functions, one after the other.
    pub fn implement(&self) -> (r: Vec<Token>)
        ensures
            toks(r@) == spec_implement(self@),
    {
        let fs = self.implement_delegates();
        let ghost x = fns_view(fs@);
        let mut out: Vec<Token> = Vec::new();
        let mut i: usize = 0;
        while i < fs.len()
            invariant
                i <= fs.len(),
                x == fns_view(fs@),
                toks(out@) == flatten(x.take(i as int)),
            decreases fs.len() - i,
        {
            push_all(&mut out, &fs[i]);
            assert(x.take(i + 1).drop_last() =~= x.take(i as int));
            i = i + 1;
        }
        assert(x.take(i as int) =~= x);
        out
    }

    /// The forwarding functions, each marked `pub`.
    pub fn implement_pub(&self) -> (r: Vec<Token>)
        ensures
            toks(r@) == spec_implement_pub(self@),
    {
        let fs = self.implement_delegates();
        let ghost x = fns_view(fs@).map_values(|f: Seq<TokenV>| make_pub(f));
        let mut out: Vec<Token> = Vec::new();
        let mut i: usize = 0;
        while i < fs.len()
            invariant
                i <= fs.len(),
                x == fns_view(fs@).map_values(|f: Seq<TokenV>| make_pub(f)),
                toks(out@) == flatten(x.take(i as int)),
            decreases fs.len() - i,
        {
            let ghost before = toks(out@);
            push_word(&mut out, "pub");
            push_all(&mut out, &fs[i]);
            assert(x.take(i + 1).drop_last() =~= x.take(i as int));
            assert(toks(out@) =~= before + x[i as int]);
            i = i + 1;
        }
        assert(x.take(i as int) =~= x);
        out
    }
}

} // verus!
