//! Abstract syntax of the typed surface language.

use vstd::prelude::*;

verus! {

#[derive(Clone, Copy, Debug)]
pub struct Span<Pos = usize> {
    pub start: Pos,
    pub end: Pos,
}

#[derive(Clone, Copy, Debug)]
pub struct Located<T, Pos = usize> {
    pub locatee: T,
    pub span: Span<Pos>,
}

/// A name. Two identifiers are the same if their texts are.
#[derive(Debug)]
pub struct Ident {
    name: String,
}

pub type TypeVar = Ident;

pub type LTypeVar = Located<TypeVar>;

pub type ExprVar = Ident;

pub type LExprVar = Located<ExprVar>;

pub type ExprCon = Ident;

pub type LExprCon = Located<ExprCon>;

#[derive(Debug)]
pub struct Module {
    pub decls: Vec<Decl>,
}

#[derive(Debug)]
pub enum Decl {
    Type(TypeDecl),
    Func(FuncDecl),
}

#[derive(Debug)]
pub struct TypeDecl {
    pub name: LTypeVar,
    pub params: Vec<LTypeVar>,
    pub body: LType,
}

#[derive(Debug)]
pub struct FuncDecl {
    pub name: LExprVar,
    pub type_params: Vec<LTypeVar>,
    pub expr_params: Vec<(LExprVar, LType)>,
    pub return_type: LType,
    pub body: LExpr,
}

#[derive(Debug)]
pub enum Type {
    Error,
    Var(TypeVar),
    SynApp(LTypeVar, Vec<LType>),
    Int,
    Bool,
    Fun(Vec<LType>, Box<LType>),
    Record(Vec<(LExprVar, LType)>),
    Variant(Vec<(LExprCon, Option<LType>)>),
}

pub type LType = Located<Type>;

#[derive(Clone, Copy, Debug, PartialEq, Eq, Structural)]
pub enum OpCode {
    Add,
    Sub,
    Mul,
    Div,
    Equals,
    NotEq,
    Less,
    LessEq,
    Greater,
    GreaterEq,
}

#[derive(Debug)]
pub enum Expr {
    Error,
    Var(ExprVar),
    Num(i64),
    Bool(bool),
    Lam(Vec<(LExprVar, Option<LType>)>, Box<LExpr>),
    App(Box<LExpr>, Vec<LExpr>),
    BinOp(Box<LExpr>, OpCode, Box<LExpr>),
    /// A function instantiated at monomorphic types.
    FunInst(LExprVar, Vec<LType>),
    Let(LExprVar, Option<LType>, Box<LExpr>, Box<LExpr>),
    If(Box<LExpr>, Box<LExpr>, Box<LExpr>),
    Record(Vec<(LExprVar, LExpr)>),
    Proj(Box<LExpr>, LExprVar),
    Variant(LExprCon, Option<Box<LExpr>>),
    Match(Box<LExpr>, Vec<Branch>),
}

pub type LExpr = Located<Expr>;

#[derive(Debug)]
pub struct Branch {
    pub pattern: LPattern,
    pub body: LExpr,
}

#[derive(Debug)]
pub struct Pattern {
    pub constr: ExprCon,
    pub binder: Option<LExprVar>,
}

pub type LPattern = Located<Pattern>;

impl Ident {
    /// The text of the identifier.
    pub closed spec fn view(&self) -> Seq<char> {
        self.name@
    }

    pub fn new(x: &str) -> (ident: Self)
        ensures
            ident@ == x@,
    {
        Ident { name: x.to_owned() }
    }

    pub fn name(&self) -> (name: &str)
        ensures
            name@ == self@,
    {
        self.name.as_str()
    }

    /// Applies `f` to the text of the identifier.
    pub fn with_name<R, F: FnOnce(&str) -> R>(&self, f: F) -> (r: R)
        requires
            forall|name: &str| name@ == self@ ==> call_requires(f, (name,)),
        ensures
            exists|name: &str| name@ == self@ && call_ensures(f, (name,), r),
    {
        f(self.name.as_str())
    }

    /// Whether the text of the identifier is `text`.
    pub fn is(&self, text: &str) -> (same: bool)
        ensures
            same == (self@ == text@),
    {
        self.name == text.to_owned()
    }

    /// Whether two identifiers have the same text.
    pub fn same(&self, other: &Ident) -> (same: bool)
        ensures
            same == (self@ == other@),
    {
        self.name == other.name
    }
}

impl Clone for Ident {
    fn clone(&self) -> (copy: Self)
        ensures
            copy@ == self@,
    {
        Ident { name: self.name.clone() }
    }
}

impl Default for Type {
    fn default() -> (r: Self)
        ensures
            r is Error,
    {
        Self::Error
    }
}

impl Default for Expr {
    fn default() -> (r: Self)
        ensures
            r is Error,
    {
        Self::Error
    }
}

impl<Pos> Span<Pos> {
    /// Applies `f` to the start and then to the end.
    pub fn map<Pos2, F: Fn(Pos) -> Pos2>(self, f: F) -> (r: Span<Pos2>)
        requires
            call_requires(f, (self.start,)),
            call_requires(f, (self.end,)),
        ensures
            call_ensures(f, (self.start,), r.start),
            call_ensures(f, (self.end,), r.end),
    {
        Span { start: f(self.start), end: f(self.end) }
    }
}

impl<T, Pos> Located<T, Pos> {
    pub fn new(locatee: T, span: Span<Pos>) -> (r: Self)
        ensures
            r.locatee == locatee,
            r.span == span,
    {
        Self { locatee, span }
    }

    /// Applies `f` to the located value and keeps the span.
    pub fn map<U, F: FnOnce(T) -> U>(self, f: F) -> (r: Located<U, Pos>)
        requires
            call_requires(f, (self.locatee,)),
        ensures
            call_ensures(f, (self.locatee,), r.locatee),
            r.span == self.span,
    {
        Located::new(f(self.locatee), self.span)
    }
}

impl<T> Located<T, usize> {
    /// `locatee` with the empty span at offset zero.
    pub fn gen(locatee: T) -> (r: Self)
        ensures
            r.locatee == locatee,
            r.span.start == 0,
            r.span.end == 0,
    {
        Self::new(locatee, Span { start: 0, end: 0 })
    }
}

impl<T, Pos: Copy> Located<T, Pos> {
    /// A reference to the located value with a copy of the span.
    pub fn as_ref(&self) -> (r: Located<&T, Pos>)
        ensures
            *r.locatee == self.locatee,
            r.span == self.span,
    {
        Located { locatee: &self.locatee, span: self.span }
    }
}

} // verus!
