//! Expressions of the untyped core calculus.

pub mod debruijn;
pub mod iter;

use crate::syntax::debruijn::{distance, lemma_distance_in_scope, Indexer};
use vstd::prelude::*;
use vstd::string::StringExecFns;

verus! {

pub type Name = String;

/// An expression. Variables carry their de Bruijn distance once they have
/// been indexed: `Some(1)` names the innermost binder.
#[derive(Debug)]
pub enum Expr {
    Var(Name, Option<usize>),
    Num(i64),
    Bool(bool),
    PrimOp(OpCode),
    App(Box<Expr>, Vec<Expr>),
    Lam(Vec<Name>, Box<Expr>),
    Let(Name, Box<Expr>, Box<Expr>),
    If(Box<Expr>, Box<Expr>, Box<Expr>),
    Record(Vec<Name>, Vec<Expr>),
    Proj(Box<Expr>, Name),
}

#[derive(Clone, Copy, Debug, PartialEq, Eq, Structural)]
pub enum OpCode {
    Add,
    Sub,
    Mul,
    Div,
    Equals,
    NotEq,
    Less,
    LessEq,
    Greater,
    GreaterEq,
    Fix,
}

impl OpCode {
    /// Number of arguments the operator consumes: one for `Fix`, two for
    /// every other operator.
    pub open spec fn spec_arity(self) -> nat {
        if self == OpCode::Fix {
            1
        } else {
            2
        }
    }

    #[verifier::when_used_as_spec(spec_arity_usize)]
    pub fn arity(self) -> (n: usize)
        ensures
            n == self.spec_arity(),
            n == 1 || n == 2,
    {
        match self {
            OpCode::Add
            | OpCode::Sub
            | OpCode::Mul
            | OpCode::Div
            | OpCode::Equals
            | OpCode::NotEq
            | OpCode::Less
            | OpCode::LessEq
            | OpCode::Greater
            | OpCode::GreaterEq => 2,
            OpCode::Fix => 1,
        }
    }

    pub open spec fn spec_arity_usize(self) -> usize {
        if self == OpCode::Fix {
            1
        } else {
            2
        }
    }
}

/// The texts of a list of names.
pub open spec fn names_view(names: Seq<Name>) -> Seq<Seq<char>> {
    Seq::new(names.len(), |i: int| names[i]@)
}

impl Expr {
    /// Whether the expression can be evaluated below `depth` enclosing
    /// binders: every variable is indexed and points at one of the binders
    /// in scope, every lambda has a parameter, every record literal has one
    /// expression per field, and the number of binders in scope never
    /// exceeds `usize::MAX`.
    pub open spec fn closed(&self, depth: nat) -> bool
        decreases self,
    {
        match self {
            Expr::Var(_, index) => index matches Some(i) && 1 <= *i <= depth,
            Expr::Num(_) | Expr::Bool(_) | Expr::PrimOp(_) => true,
            Expr::App(fun, args) => fun.closed(depth) && Self::all_closed(args@, depth),
            Expr::Lam(params, body) => params@.len() > 0 && depth + params@.len() <= usize::MAX
                && body.closed(depth + params@.len()),
            Expr::Let(_, bound, body) => depth + 1 <= usize::MAX && bound.closed(depth) && body.closed(
                depth + 1,
            ),
            Expr::If(cond, then, elze) => cond.closed(depth) && then.closed(depth) && elze.closed(
                depth,
            ),
            Expr::Record(fields, exprs) => fields@.len() == exprs@.len() && Self::all_closed(
                exprs@,
                depth,
            ),
            Expr::Proj(record, _) => record.closed(depth),
        }
    }

    /// `closed` for every expression of a sequence.
    pub open spec fn all_closed(exprs: Seq<Expr>, depth: nat) -> bool
        decreases exprs,
    {
        forall|i: int| 0 <= i < exprs.len() ==> (#[trigger] exprs[i]).closed(depth)
    }

    /// Decides `closed`.
    pub fn is_closed(&self, depth: usize) -> (b: bool)
        ensures
            b == self.closed(depth as nat),
        decreases self,
    {
        match self {
            Expr::Var(_, index) => match index {
                Some(i) => 1 <= *i && *i <= depth,
                None => false,
            },
            Expr::Num(_) | Expr::Bool(_) | Expr::PrimOp(_) => true,
            Expr::App(fun, args) => fun.is_closed(depth) && Self::are_closed(args, depth),
            Expr::Lam(params, body) => {
                if params.len() == 0 {
                    false
                } else {
                    match depth.checked_add(params.len()) {
                        Some(inner) => body.is_closed(inner),
                        None => false,
                    }
                }
            },
            Expr::Let(_, bound, body) => {
                match depth.checked_add(1) {
                    Some(inner) => bound.is_closed(depth) && body.is_closed(inner),
                    None => false,
                }
            },
            Expr::If(cond, then, elze) => cond.is_closed(depth) && then.is_closed(depth)
                && elze.is_closed(depth),
            Expr::Record(fields, exprs) => fields.len() == exprs.len() && Self::are_closed(
                exprs,
                depth,
            ),
            Expr::Proj(record, _) => record.is_closed(depth),
        }
    }

    fn are_closed(exprs: &Vec<Expr>, depth: usize) -> (b: bool)
        ensures
            b == Self::all_closed(exprs@, depth as nat),
        decreases exprs,
    {
        let mut i: usize = 0;
        while i < exprs.len()
            invariant
                i <= exprs.len(),
                forall|j: int| 0 <= j < i ==> (#[trigger] exprs@[j]).closed(depth as nat),
            decreases exprs.len() - i,
        {
            if !exprs[i].is_closed(depth) {
                return false;
            }
            i += 1;
        }
        true
    }
}


pub open spec fn unbound_variable_error(name: Seq<char>) -> Seq<char> {
    "unbound variable: "@ + name
}

/// The first element of `found` that is `Some`.
pub open spec fn or_else(found: Option<Seq<char>>, otherwise: Option<Seq<char>>) -> Option<
    Seq<char>,
> {
    if found is Some {
        found
    } else {
        otherwise
    }
}

impl Expr {
    /// No variable carries an index.
    pub open spec fn unindexed(&self) -> bool
        decreases self,
    {
        match self {
            Expr::Var(_, index) => index is None,
            Expr::Num(_) | Expr::Bool(_) | Expr::PrimOp(_) => true,
            Expr::App(fun, args) => fun.unindexed() && Self::all_unindexed(args@),
            Expr::Lam(_, body) => body.unindexed(),
            Expr::Let(_, bound, body) => bound.unindexed() && body.unindexed(),
            Expr::If(cond, then, elze) => cond.unindexed() && then.unindexed() && elze.unindexed(),
            Expr::Record(_, exprs) => Self::all_unindexed(exprs@),
            Expr::Proj(record, _) => record.unindexed(),
        }
    }

    pub open spec fn all_unindexed(exprs: Seq<Expr>) -> bool
        decreases exprs,
    {
        forall|i: int| 0 <= i < exprs.len() ==> (#[trigger] exprs[i]).unindexed()
    }

    /// Decides `unindexed`.
    pub fn is_unindexed(&self) -> (b: bool)
        ensures
            b == self.unindexed(),
        decreases self,
    {
        match self {
            Expr::Var(_, index) => index.is_none(),
            Expr::Num(_) | Expr::Bool(_) | Expr::PrimOp(_) => true,
            Expr::App(fun, args) => fun.is_unindexed() && Self::are_unindexed(args),
            Expr::Lam(_, body) => body.is_unindexed(),
            Expr::Let(_, bound, body) => bound.is_unindexed() && body.is_unindexed(),
            Expr::If(cond, then, elze) => cond.is_unindexed() && then.is_unindexed()
                && elze.is_unindexed(),
            Expr::Record(_, exprs) => Self::are_unindexed(exprs),
            Expr::Proj(record, _) => record.is_unindexed(),
        }
    }

    fn are_unindexed(exprs: &Vec<Expr>) -> (b: bool)
        ensures
            b == Self::all_unindexed(exprs@),
        decreases exprs,
    {
        let mut i: usize = 0;
        while i < exprs.len()
            invariant
                i <= exprs.len(),
                forall|j: int| 0 <= j < i ==> (#[trigger] exprs@[j]).unindexed(),
            decreases exprs.len() - i,
        {
            if !exprs[i].is_unindexed() {
                return false;
            }
            i += 1;
        }
        true
    }

    /// Every lambda has a parameter and every record literal has one
    /// expression per field.
    pub open spec fn well_shaped(&self) -> bool
        decreases self,
    {
        match self {
            Expr::Var(_, _) | Expr::Num(_) | Expr::Bool(_) | Expr::PrimOp(_) => true,
            Expr::App(fun, args) => fun.well_shaped() && Self::all_well_shaped(args@),
            Expr::Lam(params, body) => params@.len() > 0 && body.well_shaped(),
            Expr::Let(_, bound, body) => bound.well_shaped() && body.well_shaped(),
            Expr::If(cond, then, elze) => cond.well_shaped() && then.well_shaped()
                && elze.well_shaped(),
            Expr::Record(fields, exprs) => fields@.len() == exprs@.len() && Self::all_well_shaped(
                exprs@,
            ),
            Expr::Proj(record, _) => record.well_shaped(),
        }
    }

    pub open spec fn all_well_shaped(exprs: Seq<Expr>) -> bool
        decreases exprs,
    {
        forall|i: int| 0 <= i < exprs.len() ==> (#[trigger] exprs[i]).well_shaped()
    }

    /// The name of the first variable, in the order of evaluation, that no
    /// binder in `scope` or in the expression itself binds.
    pub open spec fn unbound(&self, scope: Seq<Seq<char>>) -> Option<Seq<char>>
        decreases self,
    {
        match self {
            Expr::Var(name, _) => if distance(scope, name@) is Some {
                None
            } else {
                Some(name@)
            },
            Expr::Num(_) | Expr::Bool(_) | Expr::PrimOp(_) => None,
            Expr::App(fun, args) => or_else(fun.unbound(scope), Self::first_unbound(args@, scope)),
            Expr::Lam(params, body) => body.unbound(scope + names_view(params@)),
            Expr::Let(binder, bound, body) => or_else(
                bound.unbound(scope),
                body.unbound(scope.push(binder@)),
            ),
            Expr::If(cond, then, elze) => or_else(
                cond.unbound(scope),
                or_else(then.unbound(scope), elze.unbound(scope)),
            ),
            Expr::Record(_, exprs) => Self::first_unbound(exprs@, scope),
            Expr::Proj(record, _) => record.unbound(scope),
        }
    }

    /// `unbound` of the first expression of `exprs` that has an unbound
    /// variable.
    pub open spec fn first_unbound(exprs: Seq<Expr>, scope: Seq<Seq<char>>) -> Option<Seq<char>>
        decreases exprs, exprs.len(),
    {
        if exprs.len() == 0 {
            None
        } else {
            or_else(
                Self::first_unbound(exprs.drop_last(), scope),
                exprs.last().unbound(scope),
            )
        }
    }

    /// Whether this expression is `plain` with every variable indexed by
    /// the distance of its binder, where `scope` holds the binders around it.
    pub open spec fn indexes(&self, plain: &Expr, scope: Seq<Seq<char>>) -> bool
        decreases self,
    {
        match (self, plain) {
            (Expr::Var(x, i), Expr::Var(y, j)) => x == y && j is None && match distance(scope, x@) {
                Some(d) => *i == Some(d as usize),
                None => false,
            },
            (Expr::Num(a), Expr::Num(b)) => a == b,
            (Expr::Bool(a), Expr::Bool(b)) => a == b,
            (Expr::PrimOp(a), Expr::PrimOp(b)) => a == b,
            (Expr::App(f, es), Expr::App(g, gs)) => f.indexes(g, scope) && Self::all_index(
                es@,
                gs@,
                scope,
            ),
            (Expr::Lam(xs, e), Expr::Lam(ys, g)) => xs == ys && e.indexes(
                g,
                scope + names_view(xs@),
            ),
            (Expr::Let(x, e1, e2), Expr::Let(y, g1, g2)) => x == y && e1.indexes(g1, scope)
                && e2.indexes(g2, scope.push(x@)),
            (Expr::If(e1, e2, e3), Expr::If(g1, g2, g3)) => e1.indexes(g1, scope) && e2.indexes(
                g2,
                scope,
            ) && e3.indexes(g3, scope),
            (Expr::Record(fs, es), Expr::Record(hs, gs)) => fs == hs && Self::all_index(
                es@,
                gs@,
                scope,
            ),
            (Expr::Proj(e, f), Expr::Proj(g, h)) => f == h && e.indexes(g, scope),
            _ => false,
        }
    }

    /// `indexes`, position by position.
    pub open spec fn all_index(exprs: Seq<Expr>, plain: Seq<Expr>, scope: Seq<Seq<char>>) -> bool
        decreases exprs,
    {
        &&& exprs.len() == plain.len()
        &&& forall|i: int| 0 <= i < exprs.len() ==> (#[trigger] exprs[i]).indexes(&plain[i], scope)
    }

    /// Gives every variable its de Bruijn distance, or reports the first
    /// variable that is not bound. The indexed expression of a well-shaped
    /// one is closed.
    pub fn index(self) -> (r: Result<Self, String>)
        requires
            self.unindexed(),
        ensures
            match r {
                Ok(indexed) => {
                    &&& self.unbound(Seq::empty()) is None
                    &&& indexed.indexes(&self, Seq::empty())
                    &&& self.well_shaped() ==> indexed.closed(0)
                },
                Err(message) => {
                    &&& self.unbound(Seq::empty()) matches Some(name)
                    &&& message@ == unbound_variable_error(name)
                },
            },
    {
        let mut expr = self;
        let mut indexer = Indexer::new();
        match expr.index_aux(&mut indexer) {
            Ok(()) => Ok(expr),
            Err(message) => Err(message),
        }
    }

    fn index_aux(&mut self, indexer: &mut Indexer) -> (r: Result<(), String>)
        requires
            old(self).unindexed(),
        ensures
            final(indexer)@ == old(indexer)@,
            match r {
                Ok(()) => {
                    &&& old(self).unbound(old(indexer)@) is None
                    &&& final(self).indexes(old(self), old(indexer)@)
                    &&& old(self).well_shaped() ==> final(self).closed(old(indexer)@.len())
                },
                Err(message) => {
                    &&& old(self).unbound(old(indexer)@) matches Some(name)
                    &&& message@ == unbound_variable_error(name)
                },
            },
        decreases *old(self),
    {
        let ghost scope = indexer@;
        match self {
            Expr::Var(x, i) => {
                proof {
                    lemma_distance_in_scope(scope, x@);
                }
                match indexer.get(x.as_str()) {
                    Some(j) => {
                        *i = Some(j);
                        Ok(())
                    },
                    None => {
                        let mut message = String::from_str("unbound variable: ");
                        message.append(x.as_str());
                        Err(message)
                    },
                }
            },
            Expr::Num(_) | Expr::Bool(_) | Expr::PrimOp(_) => Ok(()),
            Expr::App(fun, args) => {
                match fun.index_aux(indexer) {
                    Err(message) => Err(message),
                    Ok(()) => Self::index_all(args, indexer),
                }
            },
            Expr::Lam(params, body) => {
                let mut k: usize = 0;
                assert(indexer@ =~= scope + names_view(params@).take(0));
                while k < params.len()
                    invariant
                        k <= params.len(),
                        indexer@ == scope + names_view(params@).take(k as int),
                        k > 0 ==> indexer@.len() <= usize::MAX,
                    decreases params.len() - k,
                {
                    indexer.enter(params[k].as_str());
                    assert(indexer@ =~= scope + names_view(params@).take(k + 1));
                    k += 1;
                }
                assert(names_view(params@).take(params.len() as int) =~= names_view(params@));
                let r = body.index_aux(indexer);
                indexer.leave(params.len());
                assert(indexer@ =~= scope);
                r
            },
            Expr::Let(binder, bound, body) => {
                match bound.index_aux(indexer) {
                    Err(message) => Err(message),
                    Ok(()) => {
                        indexer.enter(binder.as_str());
                                let r = body.index_aux(indexer);
                        indexer.leave(1);
                        assert(indexer@ =~= scope);
                        r
                    },
                }
            },
            Expr::If(cond, then, elze) => {
                match cond.index_aux(indexer) {
                    Err(message) => Err(message),
                    Ok(()) => match then.index_aux(indexer) {
                        Err(message) => Err(message),
                        Ok(()) => elze.index_aux(indexer),
                    },
                }
            },
            Expr::Record(_, exprs) => Self::index_all(exprs, indexer),
            Expr::Proj(record, _) => record.index_aux(indexer),
        }
    }

    fn index_all(exprs: &mut Vec<Expr>, indexer: &mut Indexer) -> (r: Result<(), String>)
        requires
            Self::all_unindexed(old(exprs)@),
        ensures
            final(indexer)@ == old(indexer)@,
            match r {
                Ok(()) => {
                    &&& Self::first_unbound(old(exprs)@, old(indexer)@) is None
                    &&& Self::all_index(final(exprs)@, old(exprs)@, old(indexer)@)
                    &&& Self::all_well_shaped(old(exprs)@) ==> Self::all_closed(
                        final(exprs)@,
                        old(indexer)@.len(),
                    )
                },
                Err(message) => {
                    &&& Self::first_unbound(old(exprs)@, old(indexer)@) matches Some(name)
                    &&& message@ == unbound_variable_error(name)
                },
            },
        decreases old(exprs)@,
    {
        let ghost scope = indexer@;
        let ghost given = exprs@;
        let mut k: usize = 0;
        assert(given.take(0) =~= Seq::<Expr>::empty());
        while k < exprs.len()
            invariant
                k <= exprs.len(),
                exprs@.len() == given.len(),
                given == old(exprs)@,
                indexer@ == scope,
                scope == old(indexer)@,
                Self::all_unindexed(given),
                Self::first_unbound(given.take(k as int), scope) is None,
                forall|i: int| k <= i < exprs@.len() ==> exprs@[i] == given[i],
                forall|i: int| 0 <= i < k ==> (#[trigger] exprs@[i]).indexes(&given[i], scope),
                Self::all_well_shaped(given) ==> forall|i: int|
                    0 <= i < k ==> (#[trigger] exprs@[i]).closed(scope.len()),
            decreases exprs.len() - k,
        {
            proof {
                assert(given.take(k + 1).drop_last() =~= given.take(k as int));
                assert(given.take(k + 1).last() == given[k as int]);
                assert(given[k as int].unindexed());
            }
            let ghost before = exprs@;
            match exprs[k].index_aux(indexer) {
                Err(message) => {
                    proof {
                        Self::lemma_first_unbound_prefix(given, k + 1, scope);
                    }
                    return Err(message);
                },
                Ok(()) => {},
            }
            assert(forall|i: int| 0 <= i < exprs@.len() && i != k ==> exprs@[i] == before[i]);
            k += 1;
        }
        assert(given.take(k as int) =~= given);
        Ok(())
    }

    /// An unbound variable among the first `n` expressions is the first
    /// unbound variable of all of them.
    proof fn lemma_first_unbound_prefix(exprs: Seq<Expr>, n: int, scope: Seq<Seq<char>>)
        requires
            0 <= n <= exprs.len(),
            Self::first_unbound(exprs.take(n), scope) is Some,
        ensures
            Self::first_unbound(exprs, scope) == Self::first_unbound(exprs.take(n), scope),
        decreases exprs.len() - n,
    {
        if n < exprs.len() {
            assert(exprs.take(n + 1).drop_last() =~= exprs.take(n));
            Self::lemma_first_unbound_prefix(exprs, n + 1, scope);
        } else {
            assert(exprs.take(n) =~= exprs);
        }
    }
}

} // verus!
