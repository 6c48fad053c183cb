//! Access to the declarations of a module by kind and to the direct parts
//! of types and expressions.

use crate::typed::syntax::{
    Branch, Decl, Expr, FuncDecl, LExpr, LExprCon, LExprVar, LType, Module, Type, TypeDecl,
};
use vstd::prelude::*;

verus! {

/// The positions of the type declarations among `decls`, in order.
pub open spec fn type_positions(decls: Seq<Decl>) -> Seq<int>
    decreases decls.len(),
{
    if decls.len() == 0 {
        Seq::empty()
    } else if decls.last() is Type {
        type_positions(decls.drop_last()).push(decls.len() - 1)
    } else {
        type_positions(decls.drop_last())
    }
}

/// The positions of the function declarations among `decls`, in order.
pub open spec fn func_positions(decls: Seq<Decl>) -> Seq<int>
    decreases decls.len(),
{
    if decls.len() == 0 {
        Seq::empty()
    } else if decls.last() is Func {
        func_positions(decls.drop_last()).push(decls.len() - 1)
    } else {
        func_positions(decls.drop_last())
    }
}

/// The positions are positions of type declarations, in increasing order.
pub proof fn lemma_type_positions(decls: Seq<Decl>)
    ensures
        type_positions(decls).len() <= decls.len(),
        forall|k: int|
            0 <= k < type_positions(decls).len() ==> 0 <= (#[trigger] type_positions(decls)[k])
                < decls.len() && decls[type_positions(decls)[k]] is Type,
    decreases decls.len(),
{
    if decls.len() > 0 {
        let rest = decls.drop_last();
        lemma_type_positions(rest);
        assert forall|k: int| 0 <= k < type_positions(decls).len() implies 0 <= (
        #[trigger] type_positions(decls)[k]) < decls.len() && decls[type_positions(
            decls,
        )[k]] is Type by {
            if k < type_positions(rest).len() {
                assert(type_positions(decls)[k] == type_positions(rest)[k]);
                assert(rest[type_positions(rest)[k]] == decls[type_positions(rest)[k]]);
            }
        }
    }
}

/// The positions are positions of function declarations, in increasing
/// order.
pub proof fn lemma_func_positions(decls: Seq<Decl>)
    ensures
        func_positions(decls).len() <= decls.len(),
        forall|k: int|
            0 <= k < func_positions(decls).len() ==> 0 <= (#[trigger] func_positions(decls)[k])
                < decls.len() && decls[func_positions(decls)[k]] is Func,
    decreases decls.len(),
{
    if decls.len() > 0 {
        let rest = decls.drop_last();
        lemma_func_positions(rest);
        assert forall|k: int| 0 <= k < func_positions(decls).len() implies 0 <= (
        #[trigger] func_positions(decls)[k]) < decls.len() && decls[func_positions(
            decls,
        )[k]] is Func by {
            if k < func_positions(rest).len() {
                assert(func_positions(decls)[k] == func_positions(rest)[k]);
                assert(rest[func_positions(rest)[k]] == decls[func_positions(rest)[k]]);
            }
        }
    }
}

/// The positions among the first `n` declarations are the first positions
/// among all of them.
proof fn lemma_type_positions_prefix(decls: Seq<Decl>, n: int)
    requires
        0 <= n <= decls.len(),
    ensures
        type_positions(decls.take(n)).len() <= type_positions(decls).len(),
        forall|k: int|
            0 <= k < type_positions(decls.take(n)).len() ==> type_positions(decls.take(n))[k]
                == type_positions(decls)[k],
        forall|k: int|
            type_positions(decls.take(n)).len() <= k < type_positions(decls).len() ==> n
                <= type_positions(decls)[k],
    decreases decls.len() - n,
{
    if n < decls.len() {
        assert(decls.take(n + 1).drop_last() =~= decls.take(n));
        lemma_type_positions_prefix(decls, n + 1);
    } else {
        assert(decls.take(n) =~= decls);
    }
}

proof fn lemma_func_positions_prefix(decls: Seq<Decl>, n: int)
    requires
        0 <= n <= decls.len(),
    ensures
        func_positions(decls.take(n)).len() <= func_positions(decls).len(),
        forall|k: int|
            0 <= k < func_positions(decls.take(n)).len() ==> func_positions(decls.take(n))[k]
                == func_positions(decls)[k],
        forall|k: int|
            func_positions(decls.take(n)).len() <= k < func_positions(decls).len() ==> n
                <= func_positions(decls)[k],
    decreases decls.len() - n,
{
    if n < decls.len() {
        assert(decls.take(n + 1).drop_last() =~= decls.take(n));
        lemma_func_positions_prefix(decls, n + 1);
    } else {
        assert(decls.take(n) =~= decls);
    }
}

impl Module {
    /// The type declarations in the order of the module.
    pub fn type_decls(&self) -> (found: Vec<&TypeDecl>)
        ensures
            found@.len() == type_positions(self.decls@).len(),
            forall|k: int|
                0 <= k < found@.len() ==> self.decls@[type_positions(self.decls@)[k]]
                    == Decl::Type(*#[trigger] found@[k]),
    {
        let mut found: Vec<&TypeDecl> = Vec::new();
        let mut i: usize = 0;
        assert(self.decls@.take(0) =~= Seq::<Decl>::empty());
        while i < self.decls.len()
            invariant
                i <= self.decls.len(),
                found@.len() == type_positions(self.decls@.take(i as int)).len(),
                forall|k: int|
                    0 <= k < found@.len() ==> self.decls@[type_positions(
                        self.decls@.take(i as int),
                    )[k]] == Decl::Type(*#[trigger] found@[k]),
            decreases self.decls.len() - i,
        {
            proof {
                assert(self.decls@.take(i + 1).drop_last() =~= self.decls@.take(i as int));
                assert(self.decls@.take(i + 1).last() == self.decls@[i as int]);
            }
            match &self.decls[i] {
                Decl::Type(decl) => {
                    found.push(decl);
                },
                Decl::Func(_) => {},
            }
            i += 1;
        }
        assert(self.decls@.take(self.decls.len() as int) =~= self.decls@);
        found
    }

    /// The function declarations in the order of the module.
    pub fn func_decls(&self) -> (found: Vec<&FuncDecl>)
        ensures
            found@.len() == func_positions(self.decls@).len(),
            forall|k: int|
                0 <= k < found@.len() ==> self.decls@[func_positions(self.decls@)[k]]
                    == Decl::Func(*#[trigger] found@[k]),
    {
        let mut found: Vec<&FuncDecl> = Vec::new();
        let mut i: usize = 0;
        assert(self.decls@.take(0) =~= Seq::<Decl>::empty());
        while i < self.decls.len()
            invariant
                i <= self.decls.len(),
                found@.len() == func_positions(self.decls@.take(i as int)).len(),
                forall|k: int|
                    0 <= k < found@.len() ==> self.decls@[func_positions(
                        self.decls@.take(i as int),
                    )[k]] == Decl::Func(*#[trigger] found@[k]),
            decreases self.decls.len() - i,
        {
            proof {
                assert(self.decls@.take(i + 1).drop_last() =~= self.decls@.take(i as int));
                assert(self.decls@.take(i + 1).last() == self.decls@[i as int]);
            }
            match &self.decls[i] {
                Decl::Func(decl) => {
                    found.push(decl);
                },
                Decl::Type(_) => {},
            }
            i += 1;
        }
        assert(self.decls@.take(self.decls.len() as int) =~= self.decls@);
        found
    }

    /// Position among all declarations of the type declaration number
    /// `index`.
    fn type_position(&self, index: usize) -> (found: Option<usize>)
        ensures
            match found {
                Some(p) => index < type_positions(self.decls@).len() && p == type_positions(
                    self.decls@,
                )[index as int] && p < self.decls@.len() && self.decls@[p as int] is Type,
                None => index >= type_positions(self.decls@).len(),
            },
    {
        let mut seen: usize = 0;
        let mut i: usize = 0;
        assert(self.decls@.take(0) =~= Seq::<Decl>::empty());
        while i < self.decls.len()
            invariant
                i <= self.decls.len(),
                seen <= i,
                seen == type_positions(self.decls@.take(i as int)).len(),
                seen <= index,
            decreases self.decls.len() - i,
        {
            proof {
                assert(self.decls@.take(i + 1).drop_last() =~= self.decls@.take(i as int));
                assert(self.decls@.take(i + 1).last() == self.decls@[i as int]);
            }
            match &self.decls[i] {
                Decl::Type(_) => {
                    if seen == index {
                        proof {
                            lemma_type_positions_prefix(self.decls@, i + 1);
                            assert(type_positions(self.decls@.take(i + 1))[index as int] == i);
                        }
                        return Some(i);
                    }
                    seen += 1;
                },
                Decl::Func(_) => {},
            }
            i += 1;
        }
        assert(self.decls@.take(self.decls.len() as int) =~= self.decls@);
        None
    }

    /// Position among all declarations of the function declaration number
    /// `index`.
    fn func_position(&self, index: usize) -> (found: Option<usize>)
        ensures
            match found {
                Some(p) => index < func_positions(self.decls@).len() && p == func_positions(
                    self.decls@,
                )[index as int] && p < self.decls@.len() && self.decls@[p as int] is Func,
                None => index >= func_positions(self.decls@).len(),
            },
    {
        let mut seen: usize = 0;
        let mut i: usize = 0;
        assert(self.decls@.take(0) =~= Seq::<Decl>::empty());
        while i < self.decls.len()
            invariant
                i <= self.decls.len(),
                seen <= i,
                seen == func_positions(self.decls@.take(i as int)).len(),
                seen <= index,
            decreases self.decls.len() - i,
        {
            proof {
                assert(self.decls@.take(i + 1).drop_last() =~= self.decls@.take(i as int));
                assert(self.decls@.take(i + 1).last() == self.decls@[i as int]);
            }
            match &self.decls[i] {
                Decl::Func(_) => {
                    if seen == index {
                        proof {
                            lemma_func_positions_prefix(self.decls@, i + 1);
                            assert(func_positions(self.decls@.take(i + 1))[index as int] == i);
                        }
                        return Some(i);
                    }
                    seen += 1;
                },
                Decl::Type(_) => {},
            }
            i += 1;
        }
        assert(self.decls@.take(self.decls.len() as int) =~= self.decls@);
        None
    }

    /// Mutable access to the type declaration number `index`, if there is
    /// one. What is written through the reference replaces that declaration
    /// and nothing else.
    pub fn type_decls_mut(&mut self, index: usize) -> (found: Option<&mut TypeDecl>)
        ensures
            match found {
                Some(decl) => {
                    &&& index < type_positions(old(self).decls@).len()
                    &&& old(self).decls@[type_positions(old(self).decls@)[index as int]]
                        == Decl::Type(*decl)
                    &&& final(self).decls@ == old(self).decls@.update(
                        type_positions(old(self).decls@)[index as int],
                        Decl::Type(*final(decl)),
                    )
                },
                None => {
                    &&& index >= type_positions(old(self).decls@).len()
                    &&& *final(self) == *old(self)
                },
            },
    {
        match self.type_position(index) {
            Some(p) => match &mut self.decls[p] {
                Decl::Type(decl) => Some(decl),
                Decl::Func(_) => None,
            },
            None => None,
        }
    }

    /// Mutable access to the function declaration number `index`, if there
    /// is one. What is written through the reference replaces that
    /// declaration and nothing else.
    pub fn func_decls_mut(&mut self, index: usize) -> (found: Option<&mut FuncDecl>)
        ensures
            match found {
                Some(decl) => {
                    &&& index < func_positions(old(self).decls@).len()
                    &&& old(self).decls@[func_positions(old(self).decls@)[index as int]]
                        == Decl::Func(*decl)
                    &&& final(self).decls@ == old(self).decls@.update(
                        func_positions(old(self).decls@)[index as int],
                        Decl::Func(*final(decl)),
                    )
                },
                None => {
                    &&& index >= func_positions(old(self).decls@).len()
                    &&& *final(self) == *old(self)
                },
            },
    {
        match self.func_position(index) {
            Some(p) => match &mut self.decls[p] {
                Decl::Func(decl) => Some(decl),
                Decl::Type(_) => None,
            },
            None => None,
        }
    }
}

/// The positions of the constructors that have a payload, in order.
pub open spec fn payload_positions(constrs: Seq<(LExprCon, Option<LType>)>) -> Seq<int>
    decreases constrs.len(),
{
    if constrs.len() == 0 {
        Seq::empty()
    } else if constrs.last().1 is Some {
        payload_positions(constrs.drop_last()).push(constrs.len() - 1)
    } else {
        payload_positions(constrs.drop_last())
    }
}

/// The payloads of the constructors that have one, in order.
pub open spec fn payloads(constrs: Seq<(LExprCon, Option<LType>)>) -> Seq<LType> {
    Seq::new(
        payload_positions(constrs).len(),
        |k: int| constrs[payload_positions(constrs)[k]].1->Some_0,
    )
}

/// The positions are positions of constructors with a payload, in
/// increasing order.
pub proof fn lemma_payload_positions(constrs: Seq<(LExprCon, Option<LType>)>)
    ensures
        payload_positions(constrs).len() <= constrs.len(),
        forall|k: int|
            0 <= k < payload_positions(constrs).len() ==> 0 <= (#[trigger] payload_positions(
                constrs,
            )[k]) < constrs.len() && constrs[payload_positions(constrs)[k]].1 is Some,
    decreases constrs.len(),
{
    if constrs.len() > 0 {
        let rest = constrs.drop_last();
        lemma_payload_positions(rest);
        assert forall|k: int| 0 <= k < payload_positions(constrs).len() implies 0 <= (
        #[trigger] payload_positions(constrs)[k]) < constrs.len() && constrs[payload_positions(
            constrs,
        )[k]].1 is Some by {
            if k < payload_positions(rest).len() {
                assert(payload_positions(constrs)[k] == payload_positions(rest)[k]);
                assert(rest[payload_positions(rest)[k]] == constrs[payload_positions(rest)[k]]);
            }
        }
    }
}

proof fn lemma_payload_positions_prefix(constrs: Seq<(LExprCon, Option<LType>)>, n: int)
    requires
        0 <= n <= constrs.len(),
    ensures
        payload_positions(constrs.take(n)).len() <= payload_positions(constrs).len(),
        forall|k: int|
            0 <= k < payload_positions(constrs.take(n)).len() ==> payload_positions(
                constrs.take(n),
            )[k] == payload_positions(constrs)[k],
    decreases constrs.len() - n,
{
    if n < constrs.len() {
        assert(constrs.take(n + 1).drop_last() =~= constrs.take(n));
        lemma_payload_positions_prefix(constrs, n + 1);
    } else {
        assert(constrs.take(n) =~= constrs);
    }
}

/// A change of a payload that keeps it present keeps the positions.
proof fn lemma_payload_positions_update(
    constrs: Seq<(LExprCon, Option<LType>)>,
    changed: Seq<(LExprCon, Option<LType>)>,
)
    requires
        constrs.len() == changed.len(),
        forall|i: int| 0 <= i < constrs.len() ==> (constrs[i].1 is Some <==> changed[i].1 is Some),
    ensures
        payload_positions(constrs) == payload_positions(changed),
    decreases constrs.len(),
{
    if constrs.len() > 0 {
        let rest = constrs.drop_last();
        let changed_rest = changed.drop_last();
        assert forall|i: int| 0 <= i < rest.len() implies (rest[i].1 is Some
            <==> changed_rest[i].1 is Some) by {
            assert(rest[i] == constrs[i]);
            assert(changed_rest[i] == changed[i]);
        }
        lemma_payload_positions_update(rest, changed_rest);
    }
}

/// The types of a list of named types.
pub open spec fn field_types(fields: Seq<(LExprVar, LType)>) -> Seq<LType> {
    Seq::new(fields.len(), |i: int| fields[i].1)
}

/// The names of a list of named things.
pub open spec fn field_names<T>(fields: Seq<(LExprVar, T)>) -> Seq<LExprVar> {
    Seq::new(fields.len(), |i: int| fields[i].0)
}

/// The names of the constructors and whether they have a payload.
pub open spec fn constr_shapes(constrs: Seq<(LExprCon, Option<LType>)>) -> Seq<(LExprCon, bool)> {
    Seq::new(constrs.len(), |i: int| (constrs[i].0, constrs[i].1 is Some))
}

proof fn lemma_update_before_last(before: Seq<LType>, last: LType, index: int)
    requires
        0 <= index < before.len(),
    ensures
        forall|v: LType| #[trigger]
            before.update(index, v).push(last) == before.push(last).update(index, v),
{
    assert forall|v: LType| #[trigger]
        before.update(index, v).push(last) == before.push(last).update(index, v) by {
        assert(before.update(index, v).push(last) =~= before.push(last).update(index, v));
    }
}

proof fn lemma_update_last(before: Seq<LType>, last: LType)
    ensures
        forall|v: LType| #[trigger]
            before.push(v) == before.push(last).update(before.len() as int, v),
{
    assert forall|v: LType| #[trigger]
        before.push(v) == before.push(last).update(before.len() as int, v) by {
        assert(before.push(v) =~= before.push(last).update(before.len() as int, v));
    }
}

proof fn lemma_update_field_type(before: Seq<(LExprVar, LType)>, index: int)
    requires
        0 <= index < before.len(),
    ensures
        forall|v: LType|
            field_types(#[trigger] before.update(index, (before[index].0, v))) == field_types(
                before,
            ).update(index, v) && field_names(before.update(index, (before[index].0, v)))
                == field_names(before),
{
    assert forall|v: LType|
        field_types(#[trigger] before.update(index, (before[index].0, v))) == field_types(
            before,
        ).update(index, v) && field_names(before.update(index, (before[index].0, v)))
            == field_names(before) by {
        let after = before.update(index, (before[index].0, v));
        assert(field_types(after) =~= field_types(before).update(index, v));
        assert(field_names(after) =~= field_names(before));
    }
}

proof fn lemma_update_field_expr(before: Seq<(LExprVar, LExpr)>, index: int)
    requires
        0 <= index < before.len(),
    ensures
        forall|v: LExpr|
            field_exprs(#[trigger] before.update(index, (before[index].0, v))) == field_exprs(
                before,
            ).update(index, v) && field_names(before.update(index, (before[index].0, v)))
                == field_names(before),
{
    assert forall|v: LExpr|
        field_exprs(#[trigger] before.update(index, (before[index].0, v))) == field_exprs(
            before,
        ).update(index, v) && field_names(before.update(index, (before[index].0, v)))
            == field_names(before) by {
        let after = before.update(index, (before[index].0, v));
        assert(field_exprs(after) =~= field_exprs(before).update(index, v));
        assert(field_names(after) =~= field_names(before));
    }
}

proof fn lemma_update_payload(before: Seq<(LExprCon, Option<LType>)>, p: int, index: int)
    requires
        0 <= index < payload_positions(before).len(),
        p == payload_positions(before)[index],
    ensures
        forall|v: LType|
            payloads(#[trigger] before.update(p, (before[p].0, Some(v)))) == payloads(
                before,
            ).update(index, v) && constr_shapes(before.update(p, (before[p].0, Some(v))))
                == constr_shapes(before),
{
    lemma_payload_positions(before);
    lemma_positions_distinct(before);
    assert forall|v: LType|
        payloads(#[trigger] before.update(p, (before[p].0, Some(v)))) == payloads(before).update(
            index,
            v,
        ) && constr_shapes(before.update(p, (before[p].0, Some(v)))) == constr_shapes(
            before,
        ) by {
        let after = before.update(p, (before[p].0, Some(v)));
        lemma_payload_positions_update(before, after);
        assert(payloads(after) =~= payloads(before).update(index, v));
        assert(constr_shapes(after) =~= constr_shapes(before));
    }
}

proof fn lemma_update_branch_body(first: LExpr, before: Seq<Branch>, index: int)
    requires
        0 <= index < before.len(),
    ensures
        forall|v: LExpr|
            seq![first] + branch_bodies(
                #[trigger] before.update(index, Branch { pattern: before[index].pattern, body: v }),
            ) == (seq![first] + branch_bodies(before)).update(index + 1, v) && branch_patterns(
                before.update(index, Branch { pattern: before[index].pattern, body: v }),
            ) == branch_patterns(before),
{
    assert forall|v: LExpr|
        seq![first] + branch_bodies(
            #[trigger] before.update(index, Branch { pattern: before[index].pattern, body: v }),
        ) == (seq![first] + branch_bodies(before)).update(index + 1, v) && branch_patterns(
            before.update(index, Branch { pattern: before[index].pattern, body: v }),
        ) == branch_patterns(before) by {
        let after = before.update(index, Branch { pattern: before[index].pattern, body: v });
        assert(seq![first] + branch_bodies(after) =~= (seq![first] + branch_bodies(
            before,
        )).update(index + 1, v));
        assert(branch_patterns(after) =~= branch_patterns(before));
    }
}

impl Type {
    /// The types that the type is made of, in the order in which they are
    /// written.
    pub open spec fn children(&self) -> Seq<LType> {
        match self {
            Type::Error | Type::Var(_) | Type::Int | Type::Bool => Seq::empty(),
            Type::SynApp(_, args) => args@,
            Type::Fun(params, result) => params@.push(**result),
            Type::Record(fields) => field_types(fields@),
            Type::Variant(constrs) => payloads(constrs@),
        }
    }

    /// Whether two types differ in the types they are made of at most.
    pub open spec fn same_node(&self, other: &Type) -> bool {
        match (self, other) {
            (Type::Error, Type::Error) => true,
            (Type::Var(x), Type::Var(y)) => x == y,
            (Type::Int, Type::Int) => true,
            (Type::Bool, Type::Bool) => true,
            (Type::SynApp(x, _), Type::SynApp(y, _)) => x == y,
            (Type::Fun(_, _), Type::Fun(_, _)) => true,
            (Type::Record(xs), Type::Record(ys)) => field_names(xs@) == field_names(ys@),
            (Type::Variant(xs), Type::Variant(ys)) => constr_shapes(xs@) == constr_shapes(ys@),
            _ => false,
        }
    }

    /// Mutable access to the type at position `index` among the types that
    /// the type is made of, if there is one. What is written through the
    /// reference replaces that type and nothing else.
    pub fn children_mut(&mut self, index: usize) -> (child: Option<&mut LType>)
        ensures
            match child {
                Some(child) => {
                    &&& index < old(self).children().len()
                    &&& *child == old(self).children()[index as int]
                    &&& final(self).same_node(old(self))
                    &&& final(self).children() == old(self).children().update(
                        index as int,
                        *final(child),
                    )
                },
                None => {
                    &&& index >= old(self).children().len()
                    &&& *final(self) == *old(self)
                },
            },
    {
        match self {
            Type::Error | Type::Var(_) | Type::Int | Type::Bool => None,
            Type::SynApp(_, args) => {
                if index < args.len() {
                    Some(&mut args[index])
                } else {
                    None
                }
            },
            Type::Fun(params, result) => {
                if index < params.len() {
                    proof {
                        lemma_update_before_last(params@, **result, index as int);
                    }
                    Some(&mut params[index])
                } else if index == params.len() {
                    proof {
                        lemma_update_last(params@, **result);
                    }
                    Some(&mut **result)
                } else {
                    None
                }
            },
            Type::Record(fields) => {
                if index < fields.len() {
                    proof {
                        lemma_update_field_type(fields@, index as int);
                    }
                    Some(&mut fields[index].1)
                } else {
                    None
                }
            },
            Type::Variant(constrs) => {
                match payload_position(constrs, index) {
                    Some(p) => {
                        proof {
                            lemma_update_payload(constrs@, p as int, index as int);
                        }
                        match &mut constrs[p].1 {
                            Some(child) => Some(child),
                            None => None,
                        }
                    },
                    None => None,
                }
            },
        }
    }
}

/// No position occurs twice among the positions of the payloads.
proof fn lemma_positions_distinct(constrs: Seq<(LExprCon, Option<LType>)>)
    ensures
        forall|j: int, k: int|
            0 <= j < k < payload_positions(constrs).len() ==> payload_positions(constrs)[j]
                < payload_positions(constrs)[k],
    decreases constrs.len(),
{
    if constrs.len() > 0 {
        let rest = constrs.drop_last();
        lemma_positions_distinct(rest);
        lemma_payload_positions(rest);
    }
}

/// Position among all constructors of the payload number `index`.
fn payload_position(constrs: &Vec<(LExprCon, Option<LType>)>, index: usize) -> (found: Option<
    usize,
>)
    ensures
        match found {
            Some(p) => index < payload_positions(constrs@).len() && p == payload_positions(
                constrs@,
            )[index as int] && p < constrs@.len() && constrs@[p as int].1 is Some,
            None => index >= payload_positions(constrs@).len(),
        },
{
    let mut seen: usize = 0;
    let mut i: usize = 0;
    assert(constrs@.take(0) =~= Seq::empty());
    while i < constrs.len()
        invariant
            i <= constrs.len(),
            seen <= i,
            seen == payload_positions(constrs@.take(i as int)).len(),
            seen <= index,
        decreases constrs.len() - i,
    {
        proof {
            assert(constrs@.take(i + 1).drop_last() =~= constrs@.take(i as int));
            assert(constrs@.take(i + 1).last() == constrs@[i as int]);
        }
        if constrs[i].1.is_some() {
            if seen == index {
                proof {
                    lemma_payload_positions_prefix(constrs@, i + 1);
                    assert(payload_positions(constrs@.take(i + 1))[index as int] == i);
                }
                return Some(i);
            }
            seen += 1;
        }
        i += 1;
    }
    assert(constrs@.take(constrs.len() as int) =~= constrs@);
    None
}

/// The expressions of a list of named expressions.
pub open spec fn field_exprs(fields: Seq<(LExprVar, LExpr)>) -> Seq<LExpr> {
    Seq::new(fields.len(), |i: int| fields[i].1)
}

/// The bodies of a list of branches.
pub open spec fn branch_bodies(branches: Seq<Branch>) -> Seq<LExpr> {
    Seq::new(branches.len(), |i: int| branches[i].body)
}

/// The patterns of a list of branches.
pub open spec fn branch_patterns(branches: Seq<Branch>) -> Seq<crate::typed::syntax::LPattern> {
    Seq::new(branches.len(), |i: int| branches[i].pattern)
}

impl Expr {
    /// The direct sub-expressions, in the order in which they are written.
    pub open spec fn children(&self) -> Seq<LExpr> {
        match self {
            Expr::Error | Expr::Var(_) | Expr::Num(_) | Expr::Bool(_) | Expr::FunInst(
                _,
                _,
            ) => Seq::empty(),
            Expr::Lam(_, body) => seq![**body],
            Expr::App(fun, args) => seq![**fun] + args@,
            Expr::BinOp(lhs, _, rhs) => seq![**lhs, **rhs],
            Expr::Let(_, _, bindee, body) => seq![**bindee, **body],
            Expr::If(cond, then, elze) => seq![**cond, **then, **elze],
            Expr::Record(fields) => field_exprs(fields@),
            Expr::Proj(record, _) => seq![**record],
            Expr::Variant(_, payload) => match payload {
                Some(payload) => seq![**payload],
                None => Seq::empty(),
            },
            Expr::Match(scrut, branches) => seq![**scrut] + branch_bodies(branches@),
        }
    }

    /// Whether two expressions differ in their sub-expressions at most.
    pub open spec fn same_node(&self, other: &Expr) -> bool {
        match (self, other) {
            (Expr::Error, Expr::Error) => true,
            (Expr::Var(x), Expr::Var(y)) => x == y,
            (Expr::Num(x), Expr::Num(y)) => x == y,
            (Expr::Bool(x), Expr::Bool(y)) => x == y,
            (Expr::FunInst(x, xs), Expr::FunInst(y, ys)) => x == y && xs == ys,
            (Expr::Lam(xs, _), Expr::Lam(ys, _)) => xs == ys,
            (Expr::App(_, _), Expr::App(_, _)) => true,
            (Expr::BinOp(_, x, _), Expr::BinOp(_, y, _)) => x == y,
            (Expr::Let(x, s, _, _), Expr::Let(y, t, _, _)) => x == y && s == t,
            (Expr::If(_, _, _), Expr::If(_, _, _)) => true,
            (Expr::Record(xs), Expr::Record(ys)) => field_names(xs@) == field_names(ys@),
            (Expr::Proj(_, x), Expr::Proj(_, y)) => x == y,
            (Expr::Variant(x, s), Expr::Variant(y, t)) => x == y && (s is Some <==> t is Some),
            (Expr::Match(_, xs), Expr::Match(_, ys)) => branch_patterns(xs@) == branch_patterns(
                ys@,
            ),
            _ => false,
        }
    }

    /// Mutable access to the sub-expression at `index`, if there is one.
    /// What is written through the reference replaces that sub-expression
    /// and nothing else.
    pub fn children_mut(&mut self, index: usize) -> (child: Option<&mut LExpr>)
        ensures
            match child {
                Some(child) => {
                    &&& index < old(self).children().len()
                    &&& *child == old(self).children()[index as int]
                    &&& final(self).same_node(old(self))
                    &&& final(self).children() == old(self).children().update(
                        index as int,
                        *final(child),
                    )
                },
                None => {
                    &&& index >= old(self).children().len()
                    &&& *final(self) == *old(self)
                },
            },
    {
        match &mut *self {
            Expr::Error | Expr::Var(_) | Expr::Num(_) | Expr::Bool(_) | Expr::FunInst(_, _) => None,
            Expr::Lam(_, body) => {
                if index == 0 {
                    Some(&mut **body)
                } else {
                    None
                }
            },
            Expr::App(fun, args) => {
                if index == 0 {
                    Some(&mut **fun)
                } else if index - 1 < args.len() {
                    Some(&mut args[index - 1])
                } else {
                    None
                }
            },
            Expr::BinOp(lhs, _, rhs) => {
                if index == 0 {
                    Some(&mut **lhs)
                } else if index == 1 {
                    Some(&mut **rhs)
                } else {
                    None
                }
            },
            Expr::Let(_, _, bindee, body) => {
                if index == 0 {
                    Some(&mut **bindee)
                } else if index == 1 {
                    Some(&mut **body)
                } else {
                    None
                }
            },
            Expr::If(cond, then, elze) => {
                if index == 0 {
                    Some(&mut **cond)
                } else if index == 1 {
                    Some(&mut **then)
                } else if index == 2 {
                    Some(&mut **elze)
                } else {
                    None
                }
            },
            Expr::Record(fields) => {
                if index < fields.len() {
                    proof {
                        lemma_update_field_expr(fields@, index as int);
                    }
                    Some(&mut fields[index].1)
                } else {
                    None
                }
            },
            Expr::Proj(record, _) => {
                if index == 0 {
                    Some(&mut **record)
                } else {
                    None
                }
            },
            Expr::Variant(_, payload) => {
                match payload {
                    Some(payload) => {
                        if index == 0 {
                            Some(&mut **payload)
                        } else {
                            None
                        }
                    },
                    None => None,
                }
            },
            Expr::Match(scrut, branches) => {
                if index == 0 {
                    Some(&mut **scrut)
                } else if index - 1 < branches.len() {
                    proof {
                        lemma_update_branch_body(**scrut, branches@, index - 1);
                    }
                    Some(&mut branches[index - 1].body)
                } else {
                    None
                }
            },
        }
    }
}

} // verus!
