use vstd::prelude::*;

use crate::grammar::{dec_val, spec_method_only, spec_receiver, spec_ret, spec_target, word};
use crate::implement::{
    body, call, clone_suffix, dec_digits, fn_tokens, header, is_option_type, make_pub,
    member_tokens, needs_clone, params_tail, punct, rcv_tokens, ret_tokens, spec_delegates,
    spec_implement, spec_implement_pub, strip_refs, flatten,
};
use crate::model::{FwdDeclV, MemberV, MethodV, ParseError};
use crate::scan::{first, hit, is_arrow_tip, is_punct, lemma_first_range, lvl, step, Mode};
use crate::token::{Delim, TokenV};
use crate::{spec_fwd, spec_fwd_pub};

verus! {

/// A declaration with N methods yields exactly N forwarding functions, in the
/// methods' order, one after the other; each starts with its method's
/// signature: the same name, receiver, parameters with their types, and
/// return type.
pub proof fn law_round_trip_shape(d: FwdDeclV)
    ensures
        spec_delegates(d).len() == d.methods.len(),
        spec_implement(d) == flatten(spec_delegates(d)),
        forall|i: int|
            0 <= i < d.methods.len() ==> #[trigger] spec_delegates(d)[i] == header(d.methods[i])
                + body(d.methods[i], d.target),
        forall|m: MethodV|
            #[trigger] header(m) == seq![
                word("fn"@),
                TokenV::Ident(m.ident),
                TokenV::Open(Delim::Paren),
            ] + rcv_tokens(m.rcv) + params_tail(m.args) + seq![TokenV::Close(Delim::Paren)]
                + ret_tokens(m.ret),
{
}

/// A borrowed receiver with a return type that is not optional ends the body
/// with `.clone()`; an optional return type, or an owned receiver, or no
/// return type, leaves the call's result as it is.
pub proof fn law_duplication(m: MethodV, t: MemberV)
    ensures
        m.rcv.is_borrowed() && m.ret is Some && !is_option_type(m.ret->0) ==> fn_tokens(m, t)
            == header(m) + seq![TokenV::Open(Delim::Brace)] + call(m, t) + clone_suffix() + seq![
            TokenV::Close(Delim::Brace),
        ],
        !m.rcv.is_borrowed() || m.ret is None || is_option_type(m.ret->0) ==> fn_tokens(m, t)
            == header(m) + seq![TokenV::Open(Delim::Brace)] + call(m, t) + seq![
            TokenV::Close(Delim::Brace),
        ],
{
    if needs_clone(m) {
        assert(body(m, t) =~= seq![TokenV::Open(Delim::Brace)] + call(m, t) + clone_suffix()
            + seq![TokenV::Close(Delim::Brace)]);
    } else {
        assert(body(m, t) =~= seq![TokenV::Open(Delim::Brace)] + call(m, t) + seq![
            TokenV::Close(Delim::Brace),
        ]);
    }
}

/// The reference prefixes `&`, `&mut`, `&'a` and `&'a mut`.
pub open spec fn is_ref_prefix(p: Seq<TokenV>) -> bool {
    let amp = punct('&');
    let tick = TokenV::Punct('\'', true);
    p == seq![amp] || p == seq![amp, word("mut"@)] || (p.len() == 3 && p[0] == amp && p[1]
        == tick && p[2] is Ident) || (p.len() == 4 && p[0] == amp && p[1] == tick && p[2] is Ident
        && p[3] == word("mut"@))
}

/// Tokens that open and close no level and end in no `-` of an arrow.
pub open spec fn level_neutral(p: Seq<TokenV>) -> bool {
    &&& forall|j: int|
        0 <= j < p.len() ==> (#[trigger] p[j] is Ident || (p[j] is Punct && p[j]->Punct_0 != '<'
            && p[j]->Punct_0 != '>'))
    &&& p.len() > 0 ==> p.last() != TokenV::Punct('-', true)
}

proof fn lemma_prefix_level(p: Seq<TokenV>, t: Seq<TokenV>, i: int)
    requires
        level_neutral(p),
        0 <= i <= p.len(),
    ensures
        lvl(p + t, i) == 0,
    decreases i,
{
    if i > 0 {
        lemma_prefix_level(p, t, i - 1);
        assert((p + t)[i - 1] == p[i - 1]);
    }
}

proof fn lemma_level_shift(p: Seq<TokenV>, t: Seq<TokenV>, i: int)
    requires
        level_neutral(p),
        0 <= i <= t.len(),
    ensures
        lvl(p + t, p.len() + i) == lvl(t, i),
    decreases i,
{
    if i == 0 {
        lemma_prefix_level(p, t, p.len() as int);
    } else {
        lemma_level_shift(p, t, i - 1);
        let k = p.len() + i - 1;
        assert((p + t)[k] == t[i - 1]);
        if i - 1 > 0 {
            assert((p + t)[k - 1] == t[i - 2]);
        } else if p.len() > 0 {
            assert((p + t)[k - 1] == p.last());
        }
        assert(is_arrow_tip(p + t, k) == is_arrow_tip(t, i - 1));
        assert(step(p + t, k, lvl(t, i - 1)) == step(t, i - 1, lvl(t, i - 1)));
    }
}

proof fn lemma_first_shift(p: Seq<TokenV>, t: Seq<TokenV>, i: int, e: int, m: Mode)
    requires
        level_neutral(p),
        0 <= i <= e <= t.len(),
        m == Mode::OptionName || m == Mode::Arrow,
    ensures
        first(p + t, p.len() + i, p.len() + e, m) == p.len() + first(t, i, e, m),
    decreases e - i,
{
    if i < e {
        lemma_level_shift(p, t, i);
        assert((p + t)[p.len() + i] == t[i]);
        if i + 1 < e {
            assert((p + t)[p.len() + i + 1] == t[i + 1]);
        }
        assert(hit(p + t, p.len() + i, p.len() + e, m) == hit(t, i, e, m));
        lemma_first_shift(p, t, i + 1, e, m);
    }
}

/// A return type counts as optional behind a reference exactly when it does
/// bare, so `Option<T>`, `&Option<T>`, `&'a mut Option<T>` and deeper
/// nestings are all exempt from cloning.
pub proof fn law_option_behind_reference(p: Seq<TokenV>, t: Seq<TokenV>)
    requires
        is_ref_prefix(p),
        0 < t.len(),
        t[0] != word("mut"@),
        !is_punct(t[0], '\''),
    ensures
        is_option_type(p + t) == is_option_type(t),
{
    let s = p + t;
    let n = p.len() as int;
    assert(level_neutral(p));
    assert(s[n] == t[0]);
    assert(s[0] == p[0]);
    if n > 1 {
        assert(s[1] == p[1]);
    }
    if n > 2 {
        assert(s[2] == p[2]);
    }
    if n > 3 {
        assert(s[3] == p[3]);
    }
    if n + 1 < s.len() {
        assert(s[n + 1] == t[1]);
    }
    assert(strip_refs(s, 0) == strip_refs(s, n));
    lemma_strip_shift(p, t, 0);
    let i = strip_refs(t, 0);
    lemma_strip_range(t, 0);
    if i < t.len() {
        assert(s[n + i] == t[i]);
    }
    if i + 1 < t.len() {
        assert(s[n + i + 1] == t[i + 1]);
    }
    lemma_first_shift(p, t, i, t.len() as int, Mode::Arrow);
    let e = first(t, i, t.len() as int, Mode::Arrow);
    lemma_first_range(t, i, t.len() as int, Mode::Arrow);
    lemma_first_shift(p, t, i, e, Mode::OptionName);
}

/// A path type that starts with the segment `Option` (`Option<T>`, bare or
/// with any generic arguments) counts as optional; with
/// `law_option_behind_reference` so does one behind any references.
pub proof fn law_option_path(t: Seq<TokenV>)
    requires
        0 < t.len(),
        t[0] == word("Option"@),
        1 < t.len() ==> !(t[1] is Literal) && t[1] != word("fn"@),
    ensures
        is_option_type(t),
{
    reveal_strlit("Option");
    reveal_strlit("dyn");
    reveal_strlit("impl");
    reveal_strlit("fn");
    reveal_strlit("unsafe");
    reveal_strlit("for");
    assert("Option"@[0] != "dyn"@[0]);
    assert("Option"@[0] != "impl"@[0]);
    assert("Option"@[0] != "fn"@[0]);
    assert("Option"@[0] != "unsafe"@[0]);
    assert("Option"@[0] != "for"@[0]);
    assert(strip_refs(t, 0) == 0);
    assert(!hit(t, 0, t.len() as int, Mode::Arrow));
    lemma_first_range(t, 1, t.len() as int, Mode::Arrow);
    let e = first(t, 0, t.len() as int, Mode::Arrow);
    assert(e >= 1);
    assert(lvl(t, 0) == 0);
    assert(hit(t, 0, e, Mode::OptionName));
}

proof fn lemma_strip_range(t: Seq<TokenV>, i: int)
    requires
        0 <= i <= t.len(),
    ensures
        i <= strip_refs(t, i) <= t.len(),
    decreases t.len() - i,
{
    if 0 <= i < t.len() && is_punct(t[i], '&') {
        let j = i + 1;
        let j = if j + 1 < t.len() && t[j] == TokenV::Punct('\'', true) && t[j + 1] is Ident {
            j + 2
        } else {
            j
        };
        let j = if j < t.len() && t[j] == word("mut"@) {
            j + 1
        } else {
            j
        };
        lemma_strip_range(t, j);
    }
}

proof fn lemma_strip_shift(p: Seq<TokenV>, t: Seq<TokenV>, i: int)
    requires
        0 <= i <= t.len(),
    ensures
        strip_refs(p + t, p.len() + i) == p.len() + strip_refs(t, i),
    decreases t.len() - i,
{
    let s = p + t;
    let n = p.len() as int;
    if 0 <= i < t.len() {
        assert(s[n + i] == t[i]);
        if i + 1 < t.len() {
            assert(s[n + i + 1] == t[i + 1]);
        }
        if i + 2 < t.len() {
            assert(s[n + i + 2] == t[i + 2]);
        }
        if i + 3 < t.len() {
            assert(s[n + i + 3] == t[i + 3]);
        }
        if is_punct(t[i], '&') {
            let j = i + 1;
            let j = if j + 1 < t.len() && t[j] == TokenV::Punct('\'', true) && t[j + 1] is Ident {
                j + 2
            } else {
                j
            };
            let j = if j < t.len() && t[j] == word("mut"@) {
                j + 1
            } else {
                j
            };
            lemma_strip_shift(p, t, j);
        }
    }
}

/// The public expansion is the private one with `pub` in front of every function.
pub proof fn law_visibility(d: FwdDeclV)
    ensures
        spec_implement(d) == flatten(spec_delegates(d)),
        spec_implement_pub(d) == flatten(
            spec_delegates(d).map_values(|f: Seq<TokenV>| make_pub(f)),
        ),
        forall|i: int|
            0 <= i < spec_delegates(d).len() ==> spec_delegates(d).map_values(
                |f: Seq<TokenV>| make_pub(f),
            )[i] == seq![word("pub"@)] + #[trigger] spec_delegates(d)[i],
{
}

/// `self.name` and `self.index` after `to` both become the receiver of the
/// forwarded call: the body calls `self.<field>.<method>(...)`.
pub proof fn law_target_resolution(s: Seq<TokenV>, x: int, m: MethodV)
    requires
        0 <= x,
        spec_target(s, x) is Some,
    ensures
        ({
            let t = spec_target(s, x)->Some_0;
            let c = call(m, t);
            &&& c.subrange(0, 5) == seq![
                word("self"@),
                punct('.'),
                member_tokens(t)[0],
                punct('.'),
                TokenV::Ident(m.ident),
            ]
            &&& s[x + 2] is Ident ==> member_tokens(t)[0] == s[x + 2]
            &&& s[x + 2] is Literal ==> member_tokens(t)[0] == TokenV::Literal(
                dec_digits(dec_val(s[x + 2]->Literal_0)),
            )
            &&& body(m, t).subrange(1, 1 + c.len() as int) == c
        }),
{
    let t = spec_target(s, x)->Some_0;
    let c = call(m, t);
    assert(c.subrange(0, 5) =~= seq![
        word("self"@),
        punct('.'),
        member_tokens(t)[0],
        punct('.'),
        TokenV::Ident(m.ident),
    ]);
    assert(body(m, t).subrange(1, 1 + c.len() as int) =~= c);
}

/// Expanding the same tokens twice gives the same result, privately and publicly.
pub proof fn law_idempotence(s1: Seq<TokenV>, s2: Seq<TokenV>)
    requires
        s1 == s2,
    ensures
        spec_fwd(s1) == spec_fwd(s2),
        spec_fwd_pub(s1) == spec_fwd_pub(s2),
{
}

/// For a method with a receiver and no other parameters and no return type,
/// parsing the emitted signature gives the method back.
pub proof fn law_signature_reparses(m: MethodV)
    requires
        m.args.len() == 0,
        m.ret is None,
    ensures
        spec_method_only(header(m)) == Ok::<MethodV, ParseError>(m),
{
    let s = header(m);
    let r = rcv_tokens(m.rcv);
    let n = r.len() as int;
    reveal_strlit("self");
    reveal_strlit("mut");
    reveal_strlit("fn");
    assert("self"@[0] != "mut"@[0]);
    assert(params_tail(m.args) =~= seq![]);
    assert(s =~= seq![word("fn"@), TokenV::Ident(m.ident), TokenV::Open(Delim::Paren)] + r + seq![
        TokenV::Close(Delim::Paren),
    ]);
    assert(s.len() == n + 4);
    assert(forall|k: int| 0 <= k < n ==> s[3 + k] == r[k]);
    assert(s[3 + n] == TokenV::Close(Delim::Paren));
    assert(s[0] == word("fn"@));
    assert(s[1] == TokenV::Ident(m.ident));
    assert(s[2] == TokenV::Open(Delim::Paren));
    assert(lvl(s, 0) == 0);
    assert(lvl(s, 1) == 0);
    assert(lvl(s, 2) == 0);
    assert(lvl(s, 3) == 1);
    assert(forall|j: int| 3 <= j < 3 + n ==> #[trigger] s[j] is Ident || s[j] == punct('&')) by {
        assert forall|j: int| 3 <= j < 3 + n implies #[trigger] s[j] is Ident || s[j] == punct(
            '&',
        ) by {
            assert(s[3 + (j - 3)] == r[j - 3]);
        }
    }
    lemma_rcv_levels(s, n);
    lemma_rcv_scan(s, 3, n, Mode::Close(1));
    lemma_rcv_scan(s, 3, n, Mode::Comma(1));
    assert(first(s, 3, 3 + n + 1, Mode::Close(1)) == 3 + n);
    assert(first(s, 3, 3 + n, Mode::Comma(1)) == 3 + n);
    assert(spec_ret(s, 4 + n, 4 + n) == Some((None::<Seq<TokenV>>, 4 + n)));
    assert(spec_receiver(s, 3, 3 + n) == Some(m.rcv)) by {
        assert(s[3] == r[0]);
        if n > 1 {
            assert(s[4] == r[1]);
        }
        if n > 2 {
            assert(s[5] == r[2]);
        }
    }
    assert(m.args =~= seq![]);
}

proof fn lemma_rcv_levels(s: Seq<TokenV>, n: int)
    requires
        0 <= n <= 3,
        s.len() == n + 4,
        lvl(s, 3) == 1,
        forall|j: int| 3 <= j < 3 + n ==> #[trigger] s[j] is Ident || s[j] == punct('&'),
    ensures
        forall|k: int| 3 <= k <= 3 + n ==> #[trigger] lvl(s, k) == 1,
{
    if n > 0 {
        assert(lvl(s, 4) == 1);
    }
    if n > 1 {
        assert(lvl(s, 5) == 1);
    }
    if n > 2 {
        assert(lvl(s, 6) == 1);
    }
}

proof fn lemma_rcv_scan(s: Seq<TokenV>, i: int, n: int, m: Mode)
    requires
        3 <= i <= 3 + n,
        0 <= n <= 3,
        s.len() == n + 4,
        m == Mode::Close(1) || m == Mode::Comma(1),
        s[3 + n] == TokenV::Close(Delim::Paren),
        forall|k: int| 3 <= k <= 3 + n ==> #[trigger] lvl(s, k) == 1,
        forall|j: int| 3 <= j < 3 + n ==> #[trigger] s[j] is Ident || s[j] == punct('&'),
    ensures
        m == Mode::Close(1) ==> first(s, i, 4 + n, m) == 3 + n,
        m == Mode::Comma(1) ==> first(s, i, 3 + n, m) == 3 + n,
    decreases 3 + n - i,
{
    if i < 3 + n {
        assert(s[i] is Ident || s[i] == punct('&'));
        assert(lvl(s, i) == 1);
        lemma_rcv_scan(s, i + 1, n, m);
    } else {
        assert(lvl(s, 3 + n) == 1);
    }
}

} // verus!
