//! Expressions of the first calculus.

pub use crate::syntax::debruijn::Indexer;
use crate::syntax::debruijn::distance;
use vstd::prelude::*;

verus! {

#[derive(Debug, Eq, Hash, PartialEq)]
pub struct Name(pub String);

#[derive(Debug)]
pub enum Expr {
    Num(i64),
    Var(Name, Option<usize>),
    Op(Opcode, Box<Expr>, Box<Expr>),
    App(Box<Expr>, Vec<Expr>),
    Let(Name, Box<Expr>, Box<Expr>),
    Lam(Vec<Name>, Box<Expr>),
}

#[derive(Clone, Copy, Debug, PartialEq, Eq, Structural)]
pub enum Opcode {
    Add,
    Sub,
    Mul,
    Div,
}

impl Name {
    /// The text of the name.
    pub open spec fn view(&self) -> Seq<char> {
        self.0@
    }

    /// The text of the name.
    pub fn text(&self) -> (text: String)
        ensures
            text@ == self@,
    {
        self.0.clone()
    }
}

impl Clone for Name {
    fn clone(&self) -> (copy: Self)
        ensures
            copy@ == self@,
    {
        Name(self.0.clone())
    }
}

/// The texts of a list of names.
pub open spec fn names_view(names: Seq<Name>) -> Seq<Seq<char>> {
    Seq::new(names.len(), |i: int| names[i]@)
}

/// The index that the indexer gives a variable: its distance in `scope`.
pub open spec fn index_of(scope: Seq<Seq<char>>, name: Seq<char>) -> Option<usize> {
    match distance(scope, name) {
        Some(d) => Some(d as usize),
        None => None,
    }
}

impl Expr {
    /// No variable carries an index.
    pub open spec fn unindexed(&self) -> bool
        decreases self,
    {
        match self {
            Expr::Num(_) => true,
            Expr::Var(_, index) => index is None,
            Expr::Op(_, lhs, rhs) => lhs.unindexed() && rhs.unindexed(),
            Expr::App(fun, args) => fun.unindexed() && Self::all_unindexed(args@),
            Expr::Let(_, bound, body) => bound.unindexed() && body.unindexed(),
            Expr::Lam(_, body) => body.unindexed(),
        }
    }

    pub open spec fn all_unindexed(exprs: Seq<Expr>) -> bool
        decreases exprs,
    {
        forall|i: int| 0 <= i < exprs.len() ==> (#[trigger] exprs[i]).unindexed()
    }

    /// Decides `unindexed`.
    pub fn is_unindexed(&self) -> (b: bool)
        ensures
            b == self.unindexed(),
        decreases self,
    {
        match self {
            Expr::Num(_) => true,
            Expr::Var(_, index) => index.is_none(),
            Expr::Op(_, lhs, rhs) => lhs.is_unindexed() && rhs.is_unindexed(),
            Expr::App(fun, args) => fun.is_unindexed() && Self::are_unindexed(args),
            Expr::Let(_, bound, body) => bound.is_unindexed() && body.is_unindexed(),
            Expr::Lam(_, body) => body.is_unindexed(),
        }
    }

    fn are_unindexed(exprs: &Vec<Expr>) -> (b: bool)
        ensures
            b == Self::all_unindexed(exprs@),
        decreases exprs,
    {
        let mut i: usize = 0;
        while i < exprs.len()
            invariant
                i <= exprs.len(),
                forall|j: int| 0 <= j < i ==> (#[trigger] exprs@[j]).unindexed(),
            decreases exprs.len() - i,
        {
            if !exprs[i].is_unindexed() {
                return false;
            }
            i += 1;
        }
        true
    }

    /// Whether this expression is `plain` with every variable that a
    /// binder binds indexed by the distance of that binder, where `scope`
    /// holds the binders around it. A variable that nothing binds has no
    /// index.
    pub open spec fn indexes(&self, plain: &Expr, scope: Seq<Seq<char>>) -> bool
        decreases self,
    {
        match (self, plain) {
            (Expr::Num(a), Expr::Num(b)) => a == b,
            (Expr::Var(x, i), Expr::Var(y, j)) => x == y && j is None && *i == index_of(scope, x@),
            (Expr::Op(op, e1, e2), Expr::Op(oq, g1, g2)) => op == oq && e1.indexes(g1, scope)
                && e2.indexes(g2, scope),
            (Expr::App(f, es), Expr::App(g, gs)) => f.indexes(g, scope) && Self::all_index(
                es@,
                gs@,
                scope,
            ),
            (Expr::Let(x, e1, e2), Expr::Let(y, g1, g2)) => x == y && e1.indexes(g1, scope)
                && e2.indexes(g2, scope.push(x@)),
            (Expr::Lam(xs, e), Expr::Lam(ys, g)) => xs == ys && e.indexes(
                g,
                scope + names_view(xs@),
            ),
            _ => false,
        }
    }

    /// `indexes`, position by position.
    pub open spec fn all_index(exprs: Seq<Expr>, plain: Seq<Expr>, scope: Seq<Seq<char>>) -> bool
        decreases exprs,
    {
        &&& exprs.len() == plain.len()
        &&& forall|i: int| 0 <= i < exprs.len() ==> (#[trigger] exprs[i]).indexes(&plain[i], scope)
    }

    /// Gives every bound variable its de Bruijn distance.
    pub fn index(self) -> (indexed: Self)
        requires
            self.unindexed(),
        ensures
            indexed.indexes(&self, Seq::empty()),
    {
        let mut indexer = Indexer::new();
        self.index_aux(&mut indexer)
    }

    fn index_aux(self, indexer: &mut Indexer) -> (indexed: Self)
        requires
            self.unindexed(),
        ensures
            final(indexer)@ == old(indexer)@,
            indexed.indexes(&self, old(indexer)@),
        decreases self,
    {
        let ghost scope = indexer@;
        match self {
            Expr::Num(n) => Expr::Num(n),
            Expr::Var(x, _) => {
                let i = indexer.get(x.0.as_str());
                Expr::Var(x, i)
            },
            Expr::Op(op, e1, e2) => {
                let e1 = Box::new((*e1).index_aux(indexer));
                let e2 = Box::new((*e2).index_aux(indexer));
                Expr::Op(op, e1, e2)
            },
            Expr::App(f, es) => {
                let f = Box::new((*f).index_aux(indexer));
                let es = Self::index_each(es, indexer);
                Expr::App(f, es)
            },
            Expr::Let(x, e1, e2) => {
                let e1 = Box::new((*e1).index_aux(indexer));
                indexer.enter(x.0.as_str());
                let e2 = Box::new((*e2).index_aux(indexer));
                indexer.leave(1);
                assert(indexer@ =~= scope);
                Expr::Let(x, e1, e2)
            },
            Expr::Lam(xs, e) => {
                let mut k: usize = 0;
                assert(indexer@ =~= scope + names_view(xs@).take(0));
                while k < xs.len()
                    invariant
                        k <= xs.len(),
                        indexer@ == scope + names_view(xs@).take(k as int),
                    decreases xs.len() - k,
                {
                    indexer.enter(xs[k].0.as_str());
                    assert(indexer@ =~= scope + names_view(xs@).take(k + 1));
                    k += 1;
                }
                assert(names_view(xs@).take(xs.len() as int) =~= names_view(xs@));
                let e = Box::new((*e).index_aux(indexer));
                indexer.leave(xs.len());
                assert(indexer@ =~= scope);
                Expr::Lam(xs, e)
            },
        }
    }

    fn index_each(exprs: Vec<Expr>, indexer: &mut Indexer) -> (indexed: Vec<Expr>)
        requires
            Self::all_unindexed(exprs@),
        ensures
            final(indexer)@ == old(indexer)@,
            Self::all_index(indexed@, exprs@, old(indexer)@),
        decreases exprs@,
    {
        let ghost scope = indexer@;
        let ghost given = exprs@;
        // The expressions are taken from the end, so they are turned
        // around first to be indexed from left to right.
        let mut pending = exprs;
        let mut reversed: Vec<Expr> = Vec::new();
        while pending.len() > 0
            invariant
                pending@.len() + reversed@.len() == given.len(),
                forall|i: int| 0 <= i < pending@.len() ==> pending@[i] == given[i],
                forall|i: int|
                    0 <= i < reversed@.len() ==> reversed@[i] == given[given.len() - 1 - i],
            decreases pending.len(),
        {
            match pending.pop() {
                Some(expr) => {
                    reversed.push(expr);
                },
                None => {},
            }
        }
        let mut indexed: Vec<Expr> = Vec::new();
        while reversed.len() > 0
            invariant
                indexer@ == scope,
                given == exprs@,
                indexed@.len() + reversed@.len() == given.len(),
                Self::all_unindexed(given),
                forall|i: int|
                    0 <= i < reversed@.len() ==> reversed@[i] == given[given.len() - 1 - i],
                forall|i: int|
                    0 <= i < indexed@.len() ==> (#[trigger] indexed@[i]).indexes(
                        &given[i],
                        scope,
                    ),
            decreases reversed.len(),
        {
            match reversed.pop() {
                Some(expr) => {
                    assert(expr == given[indexed@.len() as int]);
                    assert(decreases_to!(given => given[indexed@.len() as int]));
                    indexed.push(expr.index_aux(indexer));
                },
                None => {},
            }
        }
        indexed
    }
}

} // verus!
