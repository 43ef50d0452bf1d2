use vstd::prelude::*;

use crate::scan::{same_tokens, toks};
use crate::token::{Token, TokenV};

verus! {

/// How a method takes its receiver: `self`, `mut self`, `&self` or `&mut self`.
#[derive(Clone, Copy, PartialEq, Eq, Structural, Debug)]
pub enum Receiver {
    Value,
    MutValue,
    Ref,
    RefMut,
}

impl Receiver {
    pub open spec fn is_borrowed(self) -> bool {
        self is Ref || self is RefMut
    }
}

/// A typed parameter `pat: ty`, each part kept as its tokens.
#[derive(Clone, Debug)]
pub struct Arg {
    pub pat: Vec<Token>,
    pub ty: Vec<Token>,
}

pub ghost struct ArgV {
    pub pat: Seq<TokenV>,
    pub ty: Seq<TokenV>,
}

impl View for Arg {
    type V = ArgV;

    open spec fn view(&self) -> ArgV {
        ArgV { pat: toks(self.pat@), ty: toks(self.ty@) }
    }
}

/// The signature of a method to forward.
#[derive(Clone, Debug)]
pub struct Method {
    pub ident: String,
    pub rcv: Receiver,
    /// The parameters after the receiver, in order.
    pub args: Vec<Arg>,
    /// The tokens of the return type after `->`, if any.
    pub ret: Option<Vec<Token>>,
}

pub ghost struct MethodV {
    pub ident: Seq<char>,
    pub rcv: Receiver,
    pub args: Seq<ArgV>,
    pub ret: Option<Seq<TokenV>>,
}

pub open spec fn args_view(a: Seq<Arg>) -> Seq<ArgV> {
    a.map_values(|x: Arg| x@)
}

pub open spec fn ret_view(r: Option<Vec<Token>>) -> Option<Seq<TokenV>> {
    match r {
        Some(t) => Some(toks(t@)),
        None => None,
    }
}

impl View for Method {
    type V = MethodV;

    open spec fn view(&self) -> MethodV {
        MethodV {
            ident: self.ident@,
            rcv: self.rcv,
            args: args_view(self.args@),
            ret: ret_view(self.ret),
        }
    }
}

pub open spec fn methods_view(m: Seq<Method>) -> Seq<MethodV> {
    m.map_values(|x: Method| x@)
}

/// The field that calls are forwarded to: `self.name` or `self.0`.
#[derive(Clone, Debug)]
pub enum Member {
    Named(String),
    Unnamed(u32),
}

pub ghost enum MemberV {
    Named(Seq<char>),
    Unnamed(u32),
}

impl View for Member {
    type V = MemberV;

    open spec fn view(&self) -> MemberV {
        match self {
            Member::Named(s) => MemberV::Named(s@),
            Member::Unnamed(i) => MemberV::Unnamed(*i),
        }
    }
}

/// What is forwarded.
#[derive(Clone, Debug)]
pub enum Delegate {
    MethodList(Vec<Method>),
}

impl View for Delegate {
    type V = Seq<MethodV>;

    open spec fn view(&self) -> Seq<MethodV> {
        match self {
            Delegate::MethodList(m) => methods_view(m@),
        }
    }
}

/// A forwarding declaration: methods and the field they are forwarded to.
#[derive(Clone, Debug)]
pub struct FwdDecl {
    pub delegate: Delegate,
    pub target: Member,
}

pub ghost struct FwdDeclV {
    pub methods: Seq<MethodV>,
    pub target: MemberV,
}

impl View for FwdDecl {
    type V = FwdDeclV;

    open spec fn view(&self) -> FwdDeclV {
        FwdDeclV { methods: self.delegate@, target: self.target@ }
    }
}

/// Why a declaration was refused.
#[derive(Clone, Copy, PartialEq, Eq, Structural, Debug)]
pub enum ParseError {
    /// The declaration does not start with `fn`.
    NotMethodList,
    /// No `to` separates the methods from the target.
    MissingTo,
    /// A method's first parameter is not `self`, `mut self`, `&self` or `&mut self`.
    MissingReceiver,
    /// A method signature is not `fn name(params) [-> Type]`.
    MalformedMethod,
    /// What follows `to` is not `self.field` or `self.index`.
    MalformedTarget,
}

impl ParseError {
    pub open spec fn spec_message(self) -> Seq<char> {
        match self {
            ParseError::NotMethodList =>
                "delegates must be declared as a list of methods in the form 'fn ident(arg1, arg2, ...) -> Return'"@,
            ParseError::MissingTo => "malformed delegation: missing 'to' between delegate and target"@,
            ParseError::MissingReceiver => "method must have a receiver to be forwarded"@,
            ParseError::MalformedMethod =>
                "malformed method: expected 'fn ident(receiver, arg: Type, ...) -> Return'"@,
            ParseError::MalformedTarget => "malformed target: expected 'self.field' or 'self.index'"@,
        }
    }

    /// The diagnostic shown for the error.
    pub fn message(&self) -> (r: String)
        ensures
            r@ == self.spec_message(),
    {
        match self {
            ParseError::NotMethodList =>
                "delegates must be declared as a list of methods in the form 'fn ident(arg1, arg2, ...) -> Return'".to_owned(),
            ParseError::MissingTo => "malformed delegation: missing 'to' between delegate and target".to_owned(),
            ParseError::MissingReceiver => "method must have a receiver to be forwarded".to_owned(),
            ParseError::MalformedMethod =>
                "malformed method: expected 'fn ident(receiver, arg: Type, ...) -> Return'".to_owned(),
            ParseError::MalformedTarget => "malformed target: expected 'self.field' or 'self.index'".to_owned(),
        }
    }
}

/// Two signatures are the same method where name, receiver kind, parameter
/// patterns and return type agree; parameter types are not compared.
pub open spec fn same_method(a: MethodV, b: MethodV) -> bool {
    &&& a.ident == b.ident
    &&& a.rcv == b.rcv
    &&& a.args.len() == b.args.len()
    &&& forall|i: int| 0 <= i < a.args.len() ==> #[trigger] a.args[i].pat == b.args[i].pat
    &&& a.ret == b.ret
}

impl PartialEq for Method {
    fn eq(&self, other: &Method) -> (r: bool) {
        if !(self.ident.eq(&other.ident) && self.rcv == other.rcv && self.args.len()
            == other.args.len()) {
            return false;
        }
        let ghost x = args_view(self.args@);
        let ghost y = args_view(other.args@);
        let mut i: usize = 0;
        while i < self.args.len()
            invariant
                i <= self.args.len() == other.args.len(),
                x == args_view(self.args@),
                y == args_view(other.args@),
                forall|j: int| 0 <= j < i ==> #[trigger] x[j].pat == y[j].pat,
            decreases self.args.len() - i,
        {
            if !same_tokens(&self.args[i].pat, &other.args[i].pat) {
                assert(x[i as int].pat != y[i as int].pat);
                return false;
            }
            i = i + 1;
        }
        match (&self.ret, &other.ret) {
            (Some(a), Some(b)) => same_tokens(a, b),
            (None, None) => true,
            _ => false,
        }
    }
}

impl vstd::std_specs::cmp::PartialEqSpecImpl for Method {
    open spec fn obeys_eq_spec() -> bool {
        true
    }

    open spec fn eq_spec(&self, o: &Method) -> bool {
        same_method(self@, o@)
    }
}

} // verus!
