use forward_methods::model::{Delegate, Member, Method, ParseError, Receiver};
use forward_methods::token::{Delim, Token};
use forward_methods::{fwd, fwd_pub};
use proc_macro2::{Delimiter, Group, Ident, Literal, Punct, Spacing, Span, TokenStream, TokenTree};

fn push_stream(ts: TokenStream, out: &mut Vec<Token>) {
    for tt in ts {
        match tt {
            TokenTree::Ident(i) => out.push(Token::Ident(i.to_string())),
            TokenTree::Punct(p) => out.push(Token::Punct(p.as_char(), p.spacing() == Spacing::Joint)),
            TokenTree::Literal(l) => out.push(Token::Literal(l.to_string())),
            TokenTree::Group(g) => {
                let d = match g.delimiter() {
                    Delimiter::Parenthesis => Some(Delim::Paren),
                    Delimiter::Bracket => Some(Delim::Bracket),
                    Delimiter::Brace => Some(Delim::Brace),
                    Delimiter::None => None,
                };
                match d {
                    Some(d) => {
                        out.push(Token::Open(d));
                        push_stream(g.stream(), out);
                        out.push(Token::Close(d));
                    }
                    None => push_stream(g.stream(), out),
                }
            }
        }
    }
}

fn lex(src: &str) -> Vec<Token> {
    let mut out = Vec::new();
    push_stream(src.parse::<TokenStream>().unwrap(), &mut out);
    out
}

fn delimiter(d: Delim) -> Delimiter {
    match d {
        Delim::Paren => Delimiter::Parenthesis,
        Delim::Bracket => Delimiter::Bracket,
        Delim::Brace => Delimiter::Brace,
    }
}

fn render(toks: &[Token]) -> String {
    let mut stack: Vec<(Option<Delim>, Vec<TokenTree>)> = vec![(None, Vec::new())];
    for t in toks {
        let tt = match t {
            Token::Ident(s) => TokenTree::Ident(Ident::new(s, Span::call_site())),
            Token::Punct(c, j) => {
                let spacing = if *j { Spacing::Joint } else { Spacing::Alone };
                TokenTree::Punct(Punct::new(*c, spacing))
            }
            Token::Literal(s) => TokenTree::Literal(s.parse::<Literal>().unwrap()),
            Token::Open(d) => {
                stack.push((Some(*d), Vec::new()));
                continue;
            }
            Token::Close(_) => {
                let (d, inner) = stack.pop().unwrap();
                let stream: TokenStream = inner.into_iter().collect();
                TokenTree::Group(Group::new(delimiter(d.unwrap()), stream))
            }
        };
        stack.last_mut().unwrap().1.push(tt);
    }
    let (_, top) = stack.pop().unwrap();
    top.into_iter().collect::<TokenStream>().to_string()
}

fn norm(src: &str) -> String {
    src.parse::<TokenStream>().unwrap().to_string()
}

// Spacing after a copied type depends on what followed it in the input, so
// the output is lexed once more before it is compared.
fn expand(src: &str) -> String {
    norm(&render(&fwd(&lex(src)).unwrap()))
}

fn expand_pub(src: &str) -> String {
    norm(&render(&fwd_pub(&lex(src)).unwrap()))
}

fn fails(src: &str) -> String {
    fwd(&lex(src)).unwrap_err().message()
}

#[test]
fn fwd_struct_should_forward_methods() {
    assert_eq!(
        expand("fn get_message(&self) -> String, fn get_len(&self) -> usize to self.message"),
        norm(
            "fn get_message(&self) -> String { self.message.get_message().clone() } \
             fn get_len(&self) -> usize { self.message.get_len().clone() }"
        )
    );
    assert_eq!(
        expand("fn println(&self, msg: impl Into<String>) to self.printer"),
        norm("fn println(&self, msg: impl Into<String>) { self.printer.println(msg) }")
    );
}

#[test]
fn fwd_tuple_struct_should_forward_methods() {
    assert_eq!(
        expand("fn get_message(&self) -> String, fn get_len(&self) -> usize to self.0"),
        norm(
            "fn get_message(&self) -> String { self.0.get_message().clone() } \
             fn get_len(&self) -> usize { self.0.get_len().clone() }"
        )
    );
    assert_eq!(
        expand("fn println(&self, msg: impl Into<String>) to self.1"),
        norm("fn println(&self, msg: impl Into<String>) { self.1.println(msg) }")
    );
}

#[test]
fn pub_struct_should_forward_methods() {
    assert_eq!(
        expand_pub("fn len(&self) -> usize to self.message"),
        norm("pub fn len(&self) -> usize { self.message.len().clone() }")
    );
}

#[test]
fn pub_tuple_struct_should_forward_methods() {
    assert_eq!(
        expand_pub("fn len(&self) -> usize to self.0"),
        norm("pub fn len(&self) -> usize { self.0.len().clone() }")
    );
}

#[test]
fn should_write_public_forwarding_impl() {
    assert_eq!(
        expand_pub("fn test1(self), fn test2(self) to self.tester"),
        norm("pub fn test1(self) { self.tester.test1() } pub fn test2(self) { self.tester.test2() }")
    );
}

fn option_getters(rcv: &str, opt: &str, opt_ref: &str, opt_mut: &str) -> String {
    format!(
        "fn get_opt({rcv}) -> {opt}, fn get_opt_ref({rcv}) -> {opt_ref}, \
         fn get_opt_mut_ref({rcv}) -> {opt_mut} to self.0"
    )
}

fn forwarded(rcv: &str, name: &str, ret: &str) -> String {
    norm(&format!("fn {name}({rcv}) -> {ret} {{ self.0.{name}() }}"))
}

fn assert_option_getters(rcv: &str, opt: &str, opt_ref: &str, opt_mut: &str) {
    let out = expand(&option_getters(rcv, opt, opt_ref, opt_mut));
    let want = [
        forwarded(rcv, "get_opt", opt),
        forwarded(rcv, "get_opt_ref", opt_ref),
        forwarded(rcv, "get_opt_mut_ref", opt_mut),
    ];
    assert_eq!(out, norm(&want.join(" ")));
}

#[test]
fn should_forward_methods_from_mover() {
    assert_option_getters(
        "self",
        "Option<String>",
        "Option<&'static String>",
        "Option<&'static mut String>",
    );
}

#[test]
fn should_forward_methods_from_ref_mover() {
    assert_option_getters(
        "self",
        "&'a Option<String>",
        "&'a Option<&'a String>",
        "&'a Option<&'a mut String>",
    );
}

#[test]
fn should_forward_methods_from_mut_mover() {
    assert_option_getters(
        "self",
        "&'static mut Option<String>",
        "&'static mut Option<&'static String>",
        "&'static mut Option<&'static mut String>",
    );
}

#[test]
fn should_forward_methods_from_borrower() {
    assert_option_getters(
        "&self",
        "Option<String>",
        "Option<&'a String>",
        "Option<&'a mut String>",
    );
}

#[test]
fn should_forward_methods_from_ref_borrower() {
    assert_option_getters(
        "&self",
        "&'a Option<String>",
        "&'a Option<&'a String>",
        "&'a Option<&'a mut String>",
    );
}

#[test]
fn should_forward_methods_from_mut_borrower() {
    assert_option_getters(
        "&mut self",
        "&'a mut Option<String>",
        "&'a mut Option<&'static String>",
        "&'a mut Option<&'static mut String>",
    );
}

#[test]
fn forwards_to_named_member() {
    assert_eq!(expand("fn test(self) to self.tester"), norm("fn test(self) { self.tester.test() }"));
}

#[test]
fn forwards_to_positional_member() {
    assert_eq!(expand("fn test(self) to self.42"), norm("fn test(self) { self.42.test() }"));
}

#[test]
fn forwards_arguments_by_pattern() {
    assert_eq!(
        expand("fn test(self, arg1: u8, arg2: &str) to self.42"),
        norm("fn test(self, arg1: u8, arg2: &str) { self.42.test(arg1, arg2) }")
    );
}

#[test]
fn owned_receiver_is_never_cloned() {
    assert_eq!(
        expand("fn test(self) -> String to self.42"),
        norm("fn test(self) -> String { self.42.test() }")
    );
    assert_eq!(
        expand("fn test(mut self) -> String to self.42"),
        norm("fn test(mut self) -> String { self.42.test() }")
    );
}

#[test]
fn borrowed_receiver_clones_plain_return() {
    assert_eq!(
        expand("fn test(&self) -> String to self.42"),
        norm("fn test(&self) -> String { self.42.test().clone() }")
    );
    assert_eq!(
        expand("fn test(&mut self) -> Vec<u8> to self.data"),
        norm("fn test(&mut self) -> Vec<u8> { self.data.test().clone() }")
    );
}

#[test]
fn borrowed_receiver_keeps_option_return() {
    assert_eq!(
        expand("fn test(&self) -> Option<String> to self.42"),
        norm("fn test(&self) -> Option<String> { self.42.test() }")
    );
    assert_eq!(
        expand("fn test(&self) -> &Option<String> to self.42"),
        norm("fn test(&self) -> &Option<String> { self.42.test() }")
    );
    assert_eq!(
        expand("fn test(&self) -> &mut Option<String> to self.42"),
        norm("fn test(&self) -> &mut Option<String> { self.42.test() }")
    );
    assert_eq!(
        expand("fn test(&self) -> std::option::Option<u8> to self.a"),
        norm("fn test(&self) -> std::option::Option<u8> { self.a.test() }")
    );
}

#[test]
fn option_inside_other_type_is_cloned() {
    assert_eq!(
        expand("fn test(&self) -> Vec<Option<u8>> to self.a"),
        norm("fn test(&self) -> Vec<Option<u8>> { self.a.test().clone() }")
    );
}

#[test]
fn borrowed_receiver_without_return_is_not_cloned() {
    assert_eq!(expand("fn test(&self) to self.a"), norm("fn test(&self) { self.a.test() }"));
}

#[test]
fn public_variant_prefixes_pub() {
    assert_eq!(
        expand_pub("fn test(self) to self.tester"),
        norm("pub fn test(self) { self.tester.test() }")
    );
}

#[test]
fn expansion_is_repeatable() {
    let src = "fn a(&self, x: HashMap<u8, String>) -> Result<String, Error>, fn b(mut self) to self.3";
    assert_eq!(expand(src), expand(src));
    assert_eq!(
        expand(src),
        norm(
            "fn a(&self, x: HashMap<u8, String>) -> Result<String, Error> { self.3.a(x).clone() } \
             fn b(mut self) { self.3.b() }"
        )
    );
}

#[test]
fn generic_commas_stay_in_types() {
    assert_eq!(
        expand("fn f(&self, m: HashMap<K, V>, g: impl Fn(u8, u8) -> u8) -> (u8, u8) to self.x"),
        norm(
            "fn f(&self, m: HashMap<K, V>, g: impl Fn(u8, u8) -> u8) -> (u8, u8) \
             { self.x.f(m, g).clone() }"
        )
    );
}

#[test]
fn missing_to_is_reported() {
    assert_eq!(fails("fn test(self) ot self.tester"), "malformed delegation: missing 'to' between delegate and target");
    assert_eq!(fails("fn ot self.tester"), "malformed delegation: missing 'to' between delegate and target");
    assert_eq!(fwd(&lex("fn ot self.tester")).unwrap_err(), ParseError::MissingTo);
}

#[test]
fn method_list_is_required() {
    assert_eq!(
        fails("invalid to self.x"),
        "delegates must be declared as a list of methods in the form 'fn ident(arg1, arg2, ...) -> Return'"
    );
    assert_eq!(Delegate::parse(&lex("invalid")).unwrap_err(), ParseError::NotMethodList);
}

#[test]
fn receiver_is_required() {
    assert_eq!(fails("fn test() to self.x"), "method must have a receiver to be forwarded");
    assert_eq!(Method::parse(&lex("fn test()")).unwrap_err(), ParseError::MissingReceiver);
    assert_eq!(Method::parse(&lex("fn test(x: u8)")).unwrap_err(), ParseError::MissingReceiver);
}

#[test]
fn malformed_signature_is_reported() {
    assert_eq!(fwd(&lex("fn test(self) -> , to self.x")).unwrap_err(), ParseError::MalformedMethod);
    assert_eq!(fwd(&lex("fn test(self, x) to self.x")).unwrap_err(), ParseError::MalformedMethod);
    assert_eq!(fwd(&lex("fn (self) to self.x")).unwrap_err(), ParseError::MalformedMethod);
}

#[test]
fn malformed_target_is_reported() {
    assert_eq!(fwd(&lex("fn test(self) to x")).unwrap_err(), ParseError::MalformedTarget);
    assert_eq!(fwd(&lex("fn test(self) to self.x.y")).unwrap_err(), ParseError::MalformedTarget);
    assert_eq!(fwd(&lex("fn test(self) to self.4294967296")).unwrap_err(), ParseError::MalformedTarget);
    assert_eq!(fwd(&lex("fn test(self) to self.1u8")).unwrap_err(), ParseError::MalformedTarget);
}

#[test]
fn largest_index_is_accepted() {
    assert_eq!(
        expand("fn test(self) to self.4294967295"),
        norm("fn test(self) { self.4294967295.test() }")
    );
}

#[test]
fn parses_method_signatures() {
    let m = Method::parse(&lex("fn test(&mut self, val: String) -> Result<String, Error>")).unwrap();
    assert_eq!(m.ident, "test");
    assert_eq!(m.rcv, Receiver::RefMut);
    assert_eq!(m.args.len(), 1);
    assert_eq!(render(&m.args[0].pat), "val");
    assert_eq!(render(&m.args[0].ty), "String");
    assert_eq!(render(m.ret.as_ref().unwrap()), norm("Result<String, Error>"));
    let t = Method::parse(&lex("fn test(mut self) -> (String, uint)")).unwrap();
    assert_eq!(t.rcv, Receiver::MutValue);
    assert_eq!(render(t.ret.as_ref().unwrap()), norm("(String, uint)"));
    assert_eq!(Method::parse(&lex("fn test(self)")).unwrap().rcv, Receiver::Value);
    assert_eq!(Method::parse(&lex("fn test(&self)")).unwrap().rcv, Receiver::Ref);
}

#[test]
fn parses_method_lists() {
    let Delegate::MethodList(ms) = Delegate::parse(&lex("fn test_a(self), fn test_b(self)")).unwrap();
    assert_eq!(ms.len(), 2);
    assert_eq!(ms[0].ident, "test_a");
    assert_eq!(ms[1].ident, "test_b");
}

#[test]
fn parses_targets() {
    let d = forward_methods::model::FwdDecl::parse(&lex("fn test(self) to self.tester")).unwrap();
    assert!(matches!(d.target, Member::Named(ref n) if n == "tester"));
    let d = forward_methods::model::FwdDecl::parse(&lex("fn test(self) to self.42")).unwrap();
    assert!(matches!(d.target, Member::Unnamed(42)));
}

#[test]
fn methods_compare_by_name_receiver_patterns_and_return() {
    let a = Method::parse(&lex("fn test(&self, x: u8) -> String")).unwrap();
    let b = Method::parse(&lex("fn test(&self, x: u16) -> String")).unwrap();
    let c = Method::parse(&lex("fn test(&self, y: u8) -> String")).unwrap();
    let d = Method::parse(&lex("fn test(self, x: u8) -> String")).unwrap();
    let e = Method::parse(&lex("fn test(&self, x: u8)")).unwrap();
    assert!(a == b);
    assert!(a != c);
    assert!(a != d);
    assert!(a != e);
}

#[test]
fn token_after_method_list_must_be_to() {
    assert_eq!(fwd(&lex("fn test(self) , to self.x")).unwrap_err(), ParseError::MissingTo);
    assert_eq!(fwd(&lex("fn test(self) -> u8 ot to self.x")).unwrap_err(), ParseError::MissingTo);
    assert_eq!(fwd(&lex("fn test(self) -> to self.x")).unwrap_err(), ParseError::MissingTo);
    assert_eq!(fwd(&lex("fn test(self) ; to self.x")).unwrap_err(), ParseError::MissingTo);
}

#[test]
fn return_type_may_be_named_to() {
    assert_eq!(
        expand("fn f(self) -> to to self.x"),
        norm("fn f(self) -> to { self.x.f() }")
    );
    let Delegate::MethodList(ms) = Delegate::parse(&lex("fn f(self) -> to")).unwrap();
    assert_eq!(ms.len(), 1);
}

#[test]
fn leftover_tokens_after_method_list_are_refused() {
    assert_eq!(Delegate::parse(&lex("fn f(self) x")).unwrap_err(), ParseError::MalformedMethod);
    assert_eq!(Method::parse(&lex("fn f(self), fn g(self)")).unwrap_err(), ParseError::MalformedMethod);
}

#[test]
fn return_types_with_lifetimes_and_bounds_end_before_to() {
    assert_eq!(
        expand("fn f(&self) -> &'a str, fn g(&self) -> Box<dyn Error + Send + 'static> to self.x"),
        norm(
            "fn f(&self) -> &'a str { self.x.f().clone() } \
             fn g(&self) -> Box<dyn Error + Send + 'static> { self.x.g().clone() }"
        )
    );
    assert_eq!(
        expand("fn f(&self) -> impl Iterator<Item = u8> + '_ to self.x"),
        norm("fn f(&self) -> impl Iterator<Item = u8> + '_ { self.x.f().clone() }")
    );
}

#[test]
fn function_types_returning_option_are_cloned() {
    for ty in [
        "fn() -> Option<u8>",
        "unsafe fn() -> Option<u8>",
        "extern \"C\" fn() -> Option<u8>",
        "for<'a> fn(&'a u8) -> Option<u8>",
        "impl Fn() -> Option<u8>",
        "Box<dyn Fn() -> Option<u8>>",
        "Box<Option<u8>>",
        "(Option<u8>,)",
        "[Option<u8>; 2]",
    ] {
        assert_eq!(
            expand(&format!("fn f(&self) -> {ty} to self.x")),
            norm(&format!("fn f(&self) -> {ty} {{ self.x.f().clone() }}")),
            "{ty}"
        );
    }
}

#[test]
fn qualified_and_nested_option_paths_are_not_cloned() {
    for ty in ["<T as Tr>::Option", "&&Option<u8>", "&'a mut Option<u8>", "::std::option::Option<u8>"] {
        assert_eq!(
            expand(&format!("fn f(&self) -> {ty} to self.x")),
            norm(&format!("fn f(&self) -> {ty} {{ self.x.f() }}")),
            "{ty}"
        );
    }
}

#[test]
fn never_return_type_ends_before_to() {
    assert_eq!(
        expand("fn a(&self) -> ! to self.x"),
        norm("fn a(&self) -> ! { self.x.a().clone() }")
    );
    assert_eq!(fwd(&lex("fn a(&self) -> ! to to self.y")).unwrap_err(), ParseError::MalformedTarget);
    let Delegate::MethodList(ms) = Delegate::parse(&lex("fn a(&self) -> !")).unwrap();
    assert_eq!(ms.len(), 1);
}
