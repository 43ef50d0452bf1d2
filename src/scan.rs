use vstd::prelude::*;

use crate::token::{same_token, Token, TokenV};

verus! {

/// The views of a sequence of tokens.
pub open spec fn toks(v: Seq<Token>) -> Seq<TokenV> {
    v.map_values(|t: Token| t@)
}

pub open spec fn is_punct(t: TokenV, c: char) -> bool {
    match t {
        TokenV::Punct(x, _) => x == c,
        _ => false,
    }
}

/// The `>` of an arrow `->`, which closes no angle bracket.
pub open spec fn is_arrow_tip(s: Seq<TokenV>, i: int) -> bool {
    i > 0 && s[i - 1] == TokenV::Punct('-', true)
}

/// The nesting level after token `i`, given the level `l` before it: groups
/// and angle brackets open a level; a closer at level zero stays at zero.
pub open spec fn step(s: Seq<TokenV>, i: int, l: nat) -> nat {
    let down: nat = if l > 0 { (l - 1) as nat } else { 0 };
    match s[i] {
        TokenV::Open(_) => l + 1,
        TokenV::Close(_) => down,
        TokenV::Punct(c, _) => if c == '<' {
            l + 1
        } else if c == '>' && !is_arrow_tip(s, i) {
            down
        } else {
            l
        },
        _ => l,
    }
}

/// The nesting level in front of token `i`.
pub open spec fn lvl(s: Seq<TokenV>, i: int) -> nat
    decreases i,
{
    if i <= 0 {
        0
    } else {
        step(s, i - 1, lvl(s, i - 1))
    }
}

pub proof fn lemma_lvl_bound(s: Seq<TokenV>, i: int)
    requires
        0 <= i,
    ensures
        lvl(s, i) <= i,
    decreases i,
{
    if i > 0 {
        lemma_lvl_bound(s, i - 1);
    }
}

/// What a scan looks for.
#[derive(Clone, Copy, PartialEq, Eq, Structural, Debug)]
pub enum Mode {
    /// The keyword `to` at the outermost level.
    To,
    /// A comma at the outermost level that is followed by the keyword `fn`.
    Sep,
    /// A comma at the given level.
    Comma(usize),
    /// A lone `:` (not part of `::`) at the given level.
    Colon(usize),
    /// A closing delimiter in front of which the level is the given one.
    Close(usize),
    /// The identifier `Option` at the outermost level.
    OptionName,
    /// An arrow `->` at the outermost level.
    Arrow,
    /// The first token at the outermost level that a type cannot go on with:
    /// a comma, or an identifier other than `fn` right after a complete type.
    TypeEnd,
}

/// Whether the token at `j` can end a type: a closing delimiter, the never
/// type `!`, a `>` that closes generic arguments, a literal not after an
/// identifier (`extern "C"` goes on), or an identifier that is no prefix
/// keyword and no lifetime of a reference (`&'a`).
pub open spec fn complete(s: Seq<TokenV>, j: int) -> bool {
    match s[j] {
        TokenV::Close(_) => true,
        TokenV::Punct(c, _) => c == '!' || (c == '>' && !is_arrow_tip(s, j)),
        TokenV::Literal(_) => !(j > 0 && s[j - 1] is Ident),
        TokenV::Ident(w) => !(w == "dyn"@ || w == "impl"@ || w == "mut"@ || w == "const"@ || w
            == "unsafe"@ || w == "for"@ || w == "as"@) && !(j > 1 && is_punct(s[j - 1], '\'')
            && is_punct(s[j - 2], '&')),
        TokenV::Open(_) => false,
    }
}

pub open spec fn hit(s: Seq<TokenV>, i: int, b: int, m: Mode) -> bool {
    match m {
        Mode::To => s[i] == TokenV::Ident("to"@) && lvl(s, i) == 0,
        Mode::Sep => is_punct(s[i], ',') && lvl(s, i) == 0 && i + 1 < b && s[i + 1]
            == TokenV::Ident("fn"@),
        Mode::Comma(l) => is_punct(s[i], ',') && lvl(s, i) == l,
        Mode::Colon(l) => s[i] == TokenV::Punct(':', false) && !(i > 0 && s[i - 1]
            == TokenV::Punct(':', true)) && lvl(s, i) == l,
        Mode::Close(l) => s[i] is Close && lvl(s, i) == l,
        Mode::OptionName => s[i] == TokenV::Ident("Option"@) && lvl(s, i) == 0,
        Mode::Arrow => s[i] == TokenV::Punct('-', true) && i + 1 < b && is_punct(s[i + 1], '>')
            && lvl(s, i) == 0,
        Mode::TypeEnd => lvl(s, i) == 0 && (is_punct(s[i], ',') || (s[i] is Ident && s[i]
            != TokenV::Ident("fn"@) && i > 0 && complete(s, i - 1))),
    }
}

/// The first position in `[i, b)` that the scan finds, or `b`.
pub open spec fn first(s: Seq<TokenV>, i: int, b: int, m: Mode) -> int
    decreases b - i,
{
    if i >= b {
        b
    } else if hit(s, i, b, m) {
        i
    } else {
        first(s, i + 1, b, m)
    }
}

pub proof fn lemma_first_range(s: Seq<TokenV>, i: int, b: int, m: Mode)
    requires
        i <= b,
    ensures
        i <= first(s, i, b, m) <= b,
        first(s, i, b, m) < b ==> hit(s, first(s, i, b, m), b, m),
    decreases b - i,
{
    if i < b && !hit(s, i, b, m) {
        lemma_first_range(s, i + 1, b, m);
    }
}

/// Whether the token is the identifier `w`.
pub fn is_word(t: &Token, w: &str) -> (r: bool)
    ensures
        r == (t@ == TokenV::Ident(w@)),
{
    match t {
        Token::Ident(x) => {
            let k = w.to_owned();
            x.eq(&k)
        },
        _ => false,
    }
}

/// Whether the token is the punctuation character `c`.
pub fn is_char(t: &Token, c: char) -> (r: bool)
    ensures
        r == is_punct(t@, c),
{
    match t {
        Token::Punct(x, _) => *x == c,
        _ => false,
    }
}

/// The level after token `i`, given the level `l` in front of it.
pub fn next_level(s: &Vec<Token>, i: usize, l: usize) -> (r: usize)
    requires
        i < s.len(),
        l == lvl(toks(s@), i as int),
    ensures
        r == lvl(toks(s@), i + 1),
{
    proof {
        lemma_lvl_bound(toks(s@), i as int);
    }
    let ghost v = toks(s@);
    assert(v[i as int] == s@[i as int]@);
    let down: usize = if l > 0 { l - 1 } else { 0 };
    match &s[i] {
        Token::Open(_) => l + 1,
        Token::Close(_) => down,
        Token::Punct(c, _) => {
            if *c == '<' {
                l + 1
            } else if *c == '>' {
                let tip = i > 0 && match &s[i - 1] {
                    Token::Punct(p, j) => *p == '-' && *j,
                    _ => false,
                };
                if i > 0 {
                    assert(v[i - 1] == s@[i - 1]@);
                }
                if tip { l } else { down }
            } else {
                l
            }
        },
        _ => l,
    }
}

fn is_complete(s: &Vec<Token>, j: usize) -> (r: bool)
    requires
        j < s.len(),
    ensures
        r == complete(toks(s@), j as int),
{
    let ghost v = toks(s@);
    assert(v[j as int] == s@[j as int]@);
    if j > 0 {
        assert(v[j - 1] == s@[j - 1]@);
    }
    if j > 1 {
        assert(v[j - 2] == s@[j - 2]@);
    }
    match &s[j] {
        Token::Close(_) => true,
        Token::Punct(c, _) => {
            let tip = j > 0 && match &s[j - 1] {
                Token::Punct(p, jt) => *p == '-' && *jt,
                _ => false,
            };
            *c == '!' || (*c == '>' && !tip)
        },
        Token::Literal(_) => !(j > 0 && match &s[j - 1] {
            Token::Ident(_) => true,
            _ => false,
        }),
        Token::Ident(_) => {
            let t = &s[j];
            let kw = is_word(t, "dyn") || is_word(t, "impl") || is_word(t, "mut") || is_word(
                t,
                "const",
            ) || is_word(t, "unsafe") || is_word(t, "for") || is_word(t, "as");
            let lifetime = j > 1 && is_char(&s[j - 1], '\'') && is_char(&s[j - 2], '&');
            !kw && !lifetime
        },
        Token::Open(_) => false,
    }
}

fn hits(s: &Vec<Token>, i: usize, b: usize, l: usize, m: Mode) -> (r: bool)
    requires
        i < b <= s.len(),
        l == lvl(toks(s@), i as int),
    ensures
        r == hit(toks(s@), i as int, b as int, m),
{
    let ghost v = toks(s@);
    assert(v[i as int] == s@[i as int]@);
    match m {
        Mode::To => is_word(&s[i], "to") && l == 0,
        Mode::Sep => {
            if i + 1 < b {
                assert(v[i + 1] == s@[i + 1]@);
            }
            is_char(&s[i], ',') && l == 0 && i + 1 < b && is_word(&s[i + 1], "fn")
        },
        Mode::Comma(k) => is_char(&s[i], ',') && l == k,
        Mode::Colon(k) => {
            let lone = match &s[i] {
                Token::Punct(c, j) => *c == ':' && !*j,
                _ => false,
            };
            let after_joint = i > 0 && match &s[i - 1] {
                Token::Punct(c, j) => *c == ':' && *j,
                _ => false,
            };
            if i > 0 {
                assert(v[i - 1] == s@[i - 1]@);
            }
            lone && !after_joint && l == k
        },
        Mode::Close(k) => {
            let close = match &s[i] {
                Token::Close(_) => true,
                _ => false,
            };
            close && l == k
        },
        Mode::OptionName => is_word(&s[i], "Option") && l == 0,
        Mode::Arrow => {
            if i + 1 < b {
                assert(v[i + 1] == s@[i + 1]@);
            }
            let dash = match &s[i] {
                Token::Punct(c, j) => *c == '-' && *j,
                _ => false,
            };
            dash && i + 1 < b && is_char(&s[i + 1], '>') && l == 0
        },
        Mode::TypeEnd => {
            let ident = match &s[i] {
                Token::Ident(_) => true,
                _ => false,
            };
            l == 0 && (is_char(&s[i], ',') || (ident && !is_word(&s[i], "fn") && i > 0
                && is_complete(s, i - 1)))
        },
    }
}

/// Scans `[i, b)` for the first position that `m` looks for; returns it with
/// the level in front of it.
pub fn find(s: &Vec<Token>, i: usize, b: usize, l: usize, m: Mode) -> (r: (usize, usize))
    requires
        i <= b <= s.len(),
        l == lvl(toks(s@), i as int),
    ensures
        r.0 == first(toks(s@), i as int, b as int, m),
        r.1 == lvl(toks(s@), r.0 as int),
        i <= r.0 <= b,
{
    let mut k = i;
    let mut lk = l;
    while k < b
        invariant
            i <= k <= b,
            b <= s.len(),
            lk == lvl(toks(s@), k as int),
            first(toks(s@), i as int, b as int, m) == first(toks(s@), k as int, b as int, m),
        decreases b - k,
    {
        if hits(s, k, b, lk, m) {
            return (k, lk);
        }
        lk = next_level(s, k, lk);
        k = k + 1;
    }
    (k, lk)
}

/// The level in front of token `i`.
pub fn level_at(s: &Vec<Token>, i: usize) -> (r: usize)
    requires
        i <= s.len(),
    ensures
        r == lvl(toks(s@), i as int),
{
    let mut k: usize = 0;
    let mut l: usize = 0;
    while k < i
        invariant
            k <= i <= s.len(),
            l == lvl(toks(s@), k as int),
        decreases i - k,
    {
        l = next_level(s, k, l);
        k = k + 1;
    }
    l
}

/// Whether two token sequences have the same view.
pub fn same_tokens(a: &Vec<Token>, b: &Vec<Token>) -> (r: bool)
    ensures
        r == (toks(a@) == toks(b@)),
{
    if a.len() != b.len() {
        assert(toks(a@).len() != toks(b@).len());
        return false;
    }
    let mut i: usize = 0;
    while i < a.len()
        invariant
            i <= a.len() == b.len(),
            forall|j: int| 0 <= j < i ==> toks(a@)[j] == toks(b@)[j],
        decreases a.len() - i,
    {
        if !same_token(&a[i], &b[i]) {
            assert(toks(a@)[i as int] != toks(b@)[i as int]);
            return false;
        }
        i = i + 1;
    }
    assert(toks(a@) =~= toks(b@));
    true
}

} // verus!
