//! The direct sub-expressions of an expression.

use crate::syntax::Expr;
use vstd::prelude::*;

verus! {

impl Expr {
    /// The direct sub-expressions, in the order in which they are written.
    pub open spec fn children(&self) -> Seq<Expr> {
        match self {
            Expr::Var(_, _) | Expr::Num(_) | Expr::Bool(_) | Expr::PrimOp(_) => Seq::empty(),
            Expr::App(fun, args) => seq![**fun] + args@,
            Expr::Lam(_, body) => seq![**body],
            Expr::Proj(record, _) => seq![**record],
            Expr::Let(_, bound, body) => seq![**bound, **body],
            Expr::If(cond, then, elze) => seq![**cond, **then, **elze],
            Expr::Record(_, exprs) => exprs@,
        }
    }

    /// Whether two expressions differ in their sub-expressions at most.
    pub open spec fn same_node(&self, other: &Expr) -> bool {
        match (self, other) {
            (Expr::Var(x, i), Expr::Var(y, j)) => x == y && i == j,
            (Expr::Num(a), Expr::Num(b)) => a == b,
            (Expr::Bool(a), Expr::Bool(b)) => a == b,
            (Expr::PrimOp(a), Expr::PrimOp(b)) => a == b,
            (Expr::App(_, _), Expr::App(_, _)) => true,
            (Expr::Lam(xs, _), Expr::Lam(ys, _)) => xs == ys,
            (Expr::Let(x, _, _), Expr::Let(y, _, _)) => x == y,
            (Expr::If(_, _, _), Expr::If(_, _, _)) => true,
            (Expr::Record(fs, _), Expr::Record(gs, _)) => fs == gs,
            (Expr::Proj(_, f), Expr::Proj(_, g)) => f == g,
            _ => false,
        }
    }

    /// Number of direct sub-expressions.
    pub fn children_len(&self) -> (n: usize)
        requires
            self.children().len() <= usize::MAX,
        ensures
            n == self.children().len(),
    {
        match self {
            Expr::Var(_, _) | Expr::Num(_) | Expr::Bool(_) | Expr::PrimOp(_) => 0,
            Expr::App(_, args) => 1 + args.len(),
            Expr::Lam(_, _) | Expr::Proj(_, _) => 1,
            Expr::Let(_, _, _) => 2,
            Expr::If(_, _, _) => 3,
            Expr::Record(_, exprs) => exprs.len(),
        }
    }

    /// Mutable access to the sub-expression at `index`, if there is one.
    /// What is written through the reference replaces that sub-expression
    /// and nothing else.
    pub fn children_mut(&mut self, index: usize) -> (child: Option<&mut Expr>)
        ensures
            match child {
                Some(child) => {
                    &&& index < old(self).children().len()
                    &&& *child == old(self).children()[index as int]
                    &&& final(self).same_node(old(self))
                    &&& final(self).children() == old(self).children().update(
                        index as int,
                        *final(child),
                    )
                },
                None => {
                    &&& index >= old(self).children().len()
                    &&& *final(self) == *old(self)
                },
            },
    {
        match self {
            Expr::Var(_, _) | Expr::Num(_) | Expr::Bool(_) | Expr::PrimOp(_) => None,
            Expr::App(fun, args) => {
                if index == 0 {
                    Some(&mut **fun)
                } else if index - 1 < args.len() {
                    Some(&mut args[index - 1])
                } else {
                    None
                }
            },
            Expr::Lam(_, body) => {
                if index == 0 {
                    Some(&mut **body)
                } else {
                    None
                }
            },
            Expr::Proj(record, _) => {
                if index == 0 {
                    Some(&mut **record)
                } else {
                    None
                }
            },
            Expr::Let(_, bound, body) => {
                if index == 0 {
                    Some(&mut **bound)
                } else if index == 1 {
                    Some(&mut **body)
                } else {
                    None
                }
            },
            Expr::If(cond, then, elze) => {
                if index == 0 {
                    Some(&mut **cond)
                } else if index == 1 {
                    Some(&mut **then)
                } else if index == 2 {
                    Some(&mut **elze)
                } else {
                    None
                }
            },
            Expr::Record(_, exprs) => {
                if index < exprs.len() {
                    Some(&mut exprs[index])
                } else {
                    None
                }
            },
        }
    }
}

/// A cursor over the direct sub-expressions of an expression: it holds the
/// position of the sub-expression that `next` gives.
pub struct ChildrenMut {
    position: usize,
}

impl ChildrenMut {
    /// The position of the sub-expression that `next` gives.
    pub closed spec fn position(&self) -> nat {
        self.position as nat
    }

    /// A cursor in front of the first sub-expression.
    pub fn new() -> (cursor: Self)
        ensures
            cursor.position() == 0,
    {
        ChildrenMut { position: 0 }
    }

    /// Mutable access to the sub-expression of `expr` at the position of
    /// the cursor, or `None` once there is none left; the cursor moves on
    /// by one position.
    pub fn next<'a>(&mut self, expr: &'a mut Expr) -> (child: Option<&'a mut Expr>)
        ensures
            final(self).position() == if old(self).position() < usize::MAX {
                old(self).position() + 1
            } else {
                old(self).position()
            },
            match child {
                Some(child) => {
                    &&& old(self).position() < old(expr).children().len()
                    &&& *child == old(expr).children()[old(self).position() as int]
                    &&& final(expr).same_node(old(expr))
                    &&& final(expr).children() == old(expr).children().update(
                        old(self).position() as int,
                        *final(child),
                    )
                },
                None => {
                    &&& old(self).position() >= old(expr).children().len()
                    &&& *final(expr) == *old(expr)
                },
            },
    {
        let index = self.position;
        if index < usize::MAX {
            self.position = index + 1;
        }
        expr.children_mut(index)
    }
}

} // verus!
