use vstd::prelude::*;
use vstd::string::StrSliceExecFns;

use crate::grammar::{
    continues, dec_val, is_digit, is_index, lemma_method_end, spec_arg, spec_args, spec_decl,
    spec_delegate, spec_method, spec_method_only, spec_methods, spec_receiver, spec_ret,
    spec_target,
};
use crate::model::{
    args_view, methods_view, ret_view, Arg, Delegate, FwdDecl, Member, Method, ParseError,
    Receiver,
};
use crate::scan::{find, is_char, is_word, level_at, lvl, next_level, toks, Mode};
use crate::token::{Delim, Token};

verus! {

pub open spec fn prepend<A>(acc: Seq<A>, o: Option<Seq<A>>) -> Option<Seq<A>> {
    match o {
        Some(r) => Some(acc + r),
        None => None,
    }
}

/// A copy of the tokens in `[x, y)`.
pub fn copy_range(s: &Vec<Token>, x: usize, y: usize) -> (r: Vec<Token>)
    requires
        x <= y <= s.len(),
    ensures
        toks(r@) == toks(s@).subrange(x as int, y as int),
{
    let mut r: Vec<Token> = Vec::new();
    let mut i = x;
    while i < y
        invariant
            x <= i <= y,
            y <= s.len(),
            toks(r@) == toks(s@).subrange(x as int, i as int),
        decreases y - i,
    {
        let t = s[i].dup();
        let ghost prev = r@;
        r.push(t);
        assert(toks(r@) =~= toks(prev).push(t@));
        assert(toks(s@).subrange(x as int, i + 1) =~= toks(s@).subrange(x as int, i as int).push(
            s@[i as int]@,
        ));
        i = i + 1;
    }
    r
}

fn parse_receiver(s: &Vec<Token>, x: usize, y: usize) -> (r: Option<Receiver>)
    requires
        x <= y <= s.len(),
    ensures
        r == spec_receiver(toks(s@), x as int, y as int),
{
    let ghost v = toks(s@);
    let n = y - x;
    if n == 0 || n > 3 {
        return None;
    }
    assert(v[x as int] == s@[x as int]@);
    if n == 1 {
        if is_word(&s[x], "self") {
            Some(Receiver::Value)
        } else {
            None
        }
    } else if n == 2 {
        assert(v[x + 1] == s@[x + 1]@);
        if is_word(&s[x], "mut") && is_word(&s[x + 1], "self") {
            Some(Receiver::MutValue)
        } else if is_char(&s[x], '&') && is_word(&s[x + 1], "self") {
            Some(Receiver::Ref)
        } else {
            None
        }
    } else {
        assert(v[x + 1] == s@[x + 1]@);
        assert(v[x + 2] == s@[x + 2]@);
        if is_char(&s[x], '&') && is_word(&s[x + 1], "mut") && is_word(&s[x + 2], "self") {
            Some(Receiver::RefMut)
        } else {
            None
        }
    }
}

fn parse_arg(s: &Vec<Token>, x: usize, y: usize, l: usize, lx: usize) -> (r: Option<Arg>)
    requires
        x <= y <= s.len(),
        lx == lvl(toks(s@), x as int),
    ensures
        match r {
            Some(a) => spec_arg(toks(s@), x as int, y as int, l as nat) == Some(a@),
            None => spec_arg(toks(s@), x as int, y as int, l as nat) is None,
        },
{
    let (k, _) = find(s, x, y, lx, Mode::Colon(l));
    if x < k && y - k > 1 {
        Some(Arg { pat: copy_range(s, x, k), ty: copy_range(s, k + 1, y) })
    } else {
        None
    }
}

fn parse_args(s: &Vec<Token>, x: usize, c: usize, l: usize, lx: usize) -> (r: Option<Vec<Arg>>)
    requires
        x <= c <= s.len(),
        lx == lvl(toks(s@), x as int),
    ensures
        match r {
            Some(a) => spec_args(toks(s@), x as int, c as int, l as nat) == Some(args_view(a@)),
            None => spec_args(toks(s@), x as int, c as int, l as nat) is None,
        },
{
    let ghost v = toks(s@);
    let mut out: Vec<Arg> = Vec::new();
    let mut i = x;
    let mut li = lx;
    while i < c
        invariant
            x <= i <= c,
            c <= s.len(),
            li == lvl(v, i as int),
            v == toks(s@),
            spec_args(v, x as int, c as int, l as nat) == prepend(
                args_view(out@),
                spec_args(v, i as int, c as int, l as nat),
            ),
        decreases c - i,
    {
        let (k, lk) = find(s, i, c, li, Mode::Comma(l));
        match parse_arg(s, i, k, l, li) {
            None => {
                return None;
            },
            Some(a) => {
                let ghost acc = args_view(out@);
                out.push(a);
                assert(args_view(out@) =~= acc + seq![a@]);
                if k >= c {
                    i = c;
                    li = lk;
                    assert(args_view(out@) + seq![] =~= args_view(out@));
                } else {
                    li = next_level(s, k, lk);
                    i = k + 1;
                    assert(forall|r: Seq<_>| #[trigger] (acc + (seq![a@] + r)) =~= args_view(out@) + r);
                }
            },
        }
    }
    assert(args_view(out@) + seq![] =~= args_view(out@));
    Some(out)
}

fn parse_ret(s: &Vec<Token>, x: usize, b: usize) -> (r: Option<(Option<Vec<Token>>, usize)>)
    requires
        x <= b <= s.len(),
    ensures
        match r {
            Some((o, e)) => spec_ret(toks(s@), x as int, b as int) == Some((ret_view(o), e as int)),
            None => spec_ret(toks(s@), x as int, b as int) is None,
        },
{
    let ghost v = toks(s@);
    if x < b && b - x > 1 {
        assert(v[x as int] == s@[x as int]@);
        assert(v[x + 1] == s@[x + 1]@);
        let dash = match &s[x] {
            Token::Punct(c, j) => *c == '-' && *j,
            _ => false,
        };
        if dash && is_char(&s[x + 1], '>') {
            let l = level_at(s, x + 2);
            let (e, _) = find(s, x + 2, b, l, Mode::TypeEnd);
            if e > x + 2 {
                return Some((Some(copy_range(s, x + 2, e)), e));
            } else {
                return None;
            }
        }
    }
    Some((None, x))
}

fn parse_method_at(s: &Vec<Token>, a: usize, b: usize) -> (r: Result<(Method, usize), ParseError>)
    requires
        a <= b <= s.len(),
    ensures
        match r {
            Ok((m, e)) => spec_method(toks(s@), a as int, b as int) == Ok::<_, ParseError>(
                (m@, e as int),
            ) && a < e <= b,
            Err(e) => spec_method(toks(s@), a as int, b as int) == Err::<
                (crate::model::MethodV, int),
                _,
            >(e),
        },
{
    let ghost v = toks(s@);
    proof {
        lemma_method_end(v, a as int, b as int);
    }
    if a < b {
        assert(v[a as int] == s@[a as int]@);
    }
    if !(a < b && is_word(&s[a], "fn")) {
        return Err(ParseError::NotMethodList);
    }
    if b - a <= 2 {
        return Err(ParseError::MalformedMethod);
    }
    assert(v[a + 1] == s@[a + 1]@);
    assert(v[a + 2] == s@[a + 2]@);
    let name = match &s[a + 1] {
        Token::Ident(n) => n.clone(),
        _ => {
            return Err(ParseError::MalformedMethod);
        },
    };
    let open = match &s[a + 2] {
        Token::Open(Delim::Paren) => true,
        _ => false,
    };
    if !open {
        return Err(ParseError::MalformedMethod);
    }
    let l = level_at(s, a + 3);
    let (c, _) = find(s, a + 3, b, l, Mode::Close(l));
    let (re, lre) = find(s, a + 3, c, l, Mode::Comma(l));
    if c >= b {
        return Err(ParseError::MalformedMethod);
    }
    let rcv = match parse_receiver(s, a + 3, re) {
        None => {
            return Err(ParseError::MissingReceiver);
        },
        Some(r) => r,
    };
    let args = if re >= c {
        Vec::new()
    } else {
        let lnext = next_level(s, re, lre);
        match parse_args(s, re + 1, c, l, lnext) {
            None => {
                return Err(ParseError::MalformedMethod);
            },
            Some(v) => v,
        }
    };
    assert(re >= c ==> args_view(args@) =~= seq![]);
    let (ret, e) = match parse_ret(s, c + 1, b) {
        None => {
            return Err(ParseError::MalformedMethod);
        },
        Some(r) => r,
    };
    Ok((Method { ident: name, rcv, args, ret }, e))
}

fn continues_at(s: &Vec<Token>, e: usize, b: usize) -> (r: bool)
    requires
        b <= s.len(),
    ensures
        r == continues(toks(s@), e as int, b as int),
{
    let ghost v = toks(s@);
    if e < b && b - e > 1 {
        assert(v[e as int] == s@[e as int]@);
        assert(v[e + 1] == s@[e + 1]@);
        is_char(&s[e], ',') && is_word(&s[e + 1], "fn")
    } else {
        false
    }
}

pub open spec fn prepend_list(acc: Seq<crate::model::MethodV>, o: Result<(Seq<crate::model::MethodV>, int), ParseError>) -> Result<
    (Seq<crate::model::MethodV>, int),
    ParseError,
> {
    match o {
        Ok((r, e)) => Ok((acc + r, e)),
        Err(e) => Err(e),
    }
}

fn parse_methods(s: &Vec<Token>, a0: usize, b: usize) -> (r: Result<(Vec<Method>, usize), ParseError>)
    requires
        a0 <= b <= s.len(),
    ensures
        match r {
            Ok((m, e)) => spec_methods(toks(s@), a0 as int, b as int) == Ok::<_, ParseError>(
                (methods_view(m@), e as int),
            ),
            Err(e) => spec_methods(toks(s@), a0 as int, b as int) == Err::<
                (Seq<crate::model::MethodV>, int),
                _,
            >(e),
        },
{
    let ghost v = toks(s@);
    let mut out: Vec<Method> = Vec::new();
    let mut a = a0;
    loop
        invariant
            a0 <= a <= b,
            b <= s.len(),
            v == toks(s@),
            spec_methods(v, a0 as int, b as int) == prepend_list(
                methods_view(out@),
                spec_methods(v, a as int, b as int),
            ),
        decreases b - a,
    {
        let (m, e) = match parse_method_at(s, a, b) {
            Err(x) => {
                return Err(x);
            },
            Ok(p) => p,
        };
        let ghost acc = methods_view(out@);
        out.push(m);
        assert(methods_view(out@) =~= acc + seq![m@]);
        if continues_at(s, e, b) {
            assert(forall|r: Seq<_>| #[trigger] (acc + (seq![m@] + r)) =~= methods_view(out@) + r);
            a = e + 1;
        } else {
            return Ok((out, e));
        }
    }
}

/// The tuple-field index that a literal's text spells, if it spells one.
fn parse_index(d: &String) -> (r: Option<u32>)
    ensures
        match r {
            Some(n) => is_index(d@) && n == dec_val(d@),
            None => !is_index(d@),
        },
{
    let t = d.as_str();
    let n = t.unicode_len();
    if n == 0 {
        return None;
    }
    let mut val: u64 = 0;
    let mut i: usize = 0;
    while i < n
        invariant
            i <= n,
            n == d@.len(),
            t@ == d@,
            val == dec_val(d@.take(i as int)),
            val <= u32::MAX,
            forall|j: int| 0 <= j < i ==> is_digit(#[trigger] d@[j]),
        decreases n - i,
    {
        let ch = t.get_char(i);
        if !('0' <= ch && ch <= '9') {
            return None;
        }
        let dv = (ch as u32 - '0' as u32) as u64;
        assert(d@.take(i + 1).drop_last() =~= d@.take(i as int));
        val = val * 10 + dv;
        if val > 0xFFFF_FFFF {
            proof {
                lemma_dec_mono(d@, i + 1, n as int);
                assert(d@.take(n as int) =~= d@);
            }
            return None;
        }
        i = i + 1;
    }
    assert(d@.take(n as int) =~= d@);
    Some(val as u32)
}

proof fn lemma_dec_mono(d: Seq<char>, i: int, j: int)
    requires
        0 <= i <= j <= d.len(),
    ensures
        dec_val(d.take(i)) <= dec_val(d.take(j)),
    decreases j - i,
{
    if i < j {
        lemma_dec_mono(d, i, j - 1);
        assert(d.take(j).drop_last() =~= d.take(j - 1));
    }
}

fn parse_target(s: &Vec<Token>, x: usize) -> (r: Option<Member>)
    requires
        x <= s.len(),
    ensures
        match r {
            Some(m) => spec_target(toks(s@), x as int) == Some(m@),
            None => spec_target(toks(s@), x as int) is None,
        },
{
    let ghost v = toks(s@);
    if s.len() - x != 3 {
        return None;
    }
    assert(v[x as int] == s@[x as int]@);
    assert(v[x + 1] == s@[x + 1]@);
    assert(v[x + 2] == s@[x + 2]@);
    if !(is_word(&s[x], "self") && is_char(&s[x + 1], '.')) {
        return None;
    }
    match &s[x + 2] {
        Token::Ident(n) => Some(Member::Named(n.clone())),
        Token::Literal(d) => match parse_index(d) {
            Some(i) => Some(Member::Unnamed(i)),
            None => None,
        },
        _ => None,
    }
}

impl Method {
    /// Parses one method signature `fn name(receiver, params) [-> Type]`.
    pub fn parse(s: &Vec<Token>) -> (r: Result<Method, ParseError>)
        ensures
            match r {
                Ok(m) => spec_method_only(toks(s@)) == Ok::<_, ParseError>(m@),
                Err(e) => spec_method_only(toks(s@)) == Err::<crate::model::MethodV, _>(e),
            },
    {
        match parse_method_at(s, 0, s.len()) {
            Ok((m, e)) => if e == s.len() {
                Ok(m)
            } else {
                Err(ParseError::MalformedMethod)
            },
            Err(e) => Err(e),
        }
    }
}

impl Delegate {
    /// Parses a list of method signatures separated by commas.
    pub fn parse(s: &Vec<Token>) -> (r: Result<Delegate, ParseError>)
        ensures
            match r {
                Ok(d) => spec_delegate(toks(s@)) == Ok::<_, ParseError>(d@),
                Err(e) => spec_delegate(toks(s@)) == Err::<Seq<crate::model::MethodV>, _>(e),
            },
    {
        match parse_methods(s, 0, s.len()) {
            Ok((m, e)) => if e == s.len() {
                Ok(Delegate::MethodList(m))
            } else {
                Err(ParseError::MalformedMethod)
            },
            Err(e) => Err(e),
        }
    }
}

impl FwdDecl {
    /// Parses a declaration `fn ... [, fn ...]* to self.member`.
    pub fn parse(s: &Vec<Token>) -> (r: Result<FwdDecl, ParseError>)
        ensures
            match r {
                Ok(d) => spec_decl(toks(s@)) == Ok::<_, ParseError>(d@),
                Err(e) => spec_decl(toks(s@)) == Err::<crate::model::FwdDeclV, _>(e),
            },
    {
        let ghost v = toks(s@);
        if s.len() > 0 {
            assert(v[0] == s@[0]@);
        }
        if !(s.len() > 0 && is_word(&s[0], "fn")) {
            return Err(ParseError::NotMethodList);
        }
        let (k, _) = find(s, 0, s.len(), 0, Mode::To);
        if k >= s.len() {
            return Err(ParseError::MissingTo);
        }
        let (methods, e) = match parse_methods(s, 0, s.len()) {
            Ok(p) => p,
            Err(x) => {
                return Err(x);
            },
        };
        if e < s.len() {
            assert(v[e as int] == s@[e as int]@);
        }
        if !(e < s.len() && is_word(&s[e], "to")) {
            return Err(ParseError::MissingTo);
        }
        match parse_target(s, e + 1) {
            None => Err(ParseError::MalformedTarget),
            Some(target) => Ok(FwdDecl { delegate: Delegate::MethodList(methods), target }),
        }
    }
}

} // verus!
