//! Scopes of binders and the de Bruijn distances of the names in them.

use vstd::prelude::*;

verus! {

/// The binders in scope, innermost last.
pub struct Indexer {
    scope: Vec<String>,
}

/// Distance from the innermost end of `scope` to the innermost binder
/// called `name`: 1 if the last binder has that name.
pub open spec fn distance(scope: Seq<Seq<char>>, name: Seq<char>) -> Option<nat>
    decreases scope.len(),
{
    if scope.len() == 0 {
        None
    } else if scope.last() == name {
        Some(1)
    } else {
        match distance(scope.drop_last(), name) {
            Some(d) => Some(d + 1),
            None => None,
        }
    }
}

/// A distance, if there is one, is at least 1 and at most the number of
/// binders, and the binder at that distance has the name.
pub proof fn lemma_distance_in_scope(scope: Seq<Seq<char>>, name: Seq<char>)
    ensures
        distance(scope, name) matches Some(d) ==> 1 <= d <= scope.len() && scope[scope.len() - d]
            == name,
        distance(scope, name) is None ==> forall|i: int|
            0 <= i < scope.len() ==> #[trigger] scope[i] != name,
    decreases scope.len(),
{
    if scope.len() > 0 && scope.last() != name {
        let rest = scope.drop_last();
        lemma_distance_in_scope(rest, name);
        if distance(rest, name) is None {
            assert forall|i: int| 0 <= i < scope.len() implies #[trigger] scope[i] != name by {
                if i < rest.len() {
                    assert(rest[i] == scope[i]);
                }
            }
        } else {
            let d = distance(rest, name)->0;
            assert(rest[rest.len() - d] == scope[scope.len() - (d + 1)]);
        }
    }
}

pub open spec fn names_of(names: Seq<&str>) -> Seq<Seq<char>> {
    Seq::new(names.len(), |i: int| names[i]@)
}

impl Indexer {
    /// The names of the binders in scope, innermost last.
    pub closed spec fn view(&self) -> Seq<Seq<char>> {
        Seq::new(self.scope@.len(), |i: int| self.scope@[i]@)
    }

    /// The empty scope.
    pub fn new() -> (indexer: Self)
        ensures
            indexer@ == Seq::<Seq<char>>::empty(),
    {
        let indexer = Indexer { scope: Vec::new() };
        assert(indexer@ =~= Seq::<Seq<char>>::empty());
        indexer
    }

    /// Number of binders in scope.
    pub fn depth(&self) -> (n: usize)
        ensures
            n == self@.len(),
    {
        self.scope.len()
    }

    /// Adds `name` as the innermost binder.
    pub fn enter(&mut self, name: &str)
        ensures
            final(self)@ == old(self)@.push(name@),
            final(self)@.len() <= usize::MAX,
    {
        self.scope.push(name.to_owned());
        assert(self@ =~= old(self)@.push(name@));
        assert(self@.len() == self.scope.len());
    }

    /// Removes the `count` innermost binders.
    pub fn leave(&mut self, count: usize)
        requires
            count <= old(self)@.len(),
        ensures
            final(self)@ == old(self)@.take(old(self)@.len() - count),
    {
        let len = self.scope.len() - count;
        self.scope.truncate(len);
        assert(self@ =~= old(self)@.take(old(self)@.len() - count));
    }

    /// Runs `f` in the scope extended by the binder `x` and restores the
    /// scope afterwards.
    pub fn intro<T, F: FnOnce(&mut Self) -> T>(&mut self, x: &str, f: F) -> (res: T)
        requires
            forall|s: &mut Indexer| s@ == old(self)@.push(x@) ==> call_requires(f, (s,)),
            forall|s: &mut Indexer, r: T| call_ensures(f, (s,), r) ==> final(s)@ == s@,
        ensures
            final(self)@ == old(self)@,
            exists|s: &mut Indexer| s@ == old(self)@.push(x@) && call_ensures(f, (s,), res),
    {
        self.enter(x);
        let res = f(self);
        self.leave(1);
        assert(self@ =~= old(self)@);
        res
    }

    /// Runs `f` in the scope extended by the binders `xs`, the last of them
    /// innermost, and restores the scope afterwards.
    pub fn intro_many<T, F: FnOnce(&mut Self) -> T>(&mut self, xs: &[&str], f: F) -> (res: T)
        requires
            forall|s: &mut Indexer| s@ == old(self)@ + names_of(xs@) ==> call_requires(f, (s,)),
            forall|s: &mut Indexer, r: T| call_ensures(f, (s,), r) ==> final(s)@ == s@,
        ensures
            final(self)@ == old(self)@,
            exists|s: &mut Indexer|
                s@ == old(self)@ + names_of(xs@) && call_ensures(f, (s,), res),
    {
        let mut i: usize = 0;
        assert(self@ =~= old(self)@ + names_of(xs@).take(0));
        while i < xs.len()
            invariant
                i <= xs.len(),
                self@ == old(self)@ + names_of(xs@).take(i as int),
            decreases xs.len() - i,
        {
            self.enter(xs[i]);
            assert(self@ =~= old(self)@ + names_of(xs@).take(i + 1));
            i += 1;
        }
        assert(names_of(xs@).take(xs.len() as int) =~= names_of(xs@));
        let res = f(self);
        self.leave(xs.len());
        assert(self@ =~= old(self)@);
        res
    }

    /// The de Bruijn distance of the innermost binder called `x`.
    pub fn get(&self, x: &str) -> (found: Option<usize>)
        ensures
            match found {
                Some(d) => distance(self@, x@) == Some(d as nat),
                None => distance(self@, x@) is None,
            },
    {
        let name = x.to_owned();
        let ghost scope = self@;
        let len = self.scope.len();
        let mut i: usize = len;
        assert(scope.take(i as int) =~= scope);
        while i > 0
            invariant
                i <= len,
                len == self.scope.len(),
                scope == self@,
                name@ == x@,
                match distance(scope.take(i as int), x@) {
                    Some(d) => distance(scope, x@) == Some((d + len - i) as nat),
                    None => distance(scope, x@) is None,
                },
            decreases i,
        {
            i -= 1;
            assert(scope.take(i + 1).drop_last() =~= scope.take(i as int));
            assert(scope.take(i + 1).last() == self.scope@[i as int]@);
            if self.scope[i] == name {
                return Some(len - i);
            }
        }
        None
    }
}

} // verus!
