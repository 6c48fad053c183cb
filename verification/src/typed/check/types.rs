//! The types that the checker computes with, and their equivalence.

use crate::typed::syntax::{ExprCon, ExprVar, Ident, TypeVar};
use std::rc::Rc;
use vstd::prelude::*;
use vstd::string::StringExecFns;

verus! {

/// A type as the checker sees it: every name in it is resolved.
#[derive(Debug)]
pub enum Type {
    Error,
    Var(TypeVar),
    SynApp(TypeVar, Vec<RcType>),
    Int,
    Bool,
    Fun(Vec<RcType>, RcType),
    Record(Vec<(ExprVar, RcType)>),
    Variant(Vec<(ExprCon, Option<RcType>)>),
}

/// A shared type.
#[derive(Debug)]
pub struct RcType {
    inner: Rc<Type>,
}

/// A type with parameters.
#[derive(Debug)]
pub struct TypeScheme {
    pub params: Vec<TypeVar>,
    pub body: RcType,
}

/// The mathematical model of a type.
pub enum SpecType {
    Error,
    Var(Seq<char>),
    SynApp(Seq<char>, Seq<SpecType>),
    Int,
    Bool,
    Fun(Seq<SpecType>, Box<SpecType>),
    Record(Seq<(Seq<char>, SpecType)>),
    Variant(Seq<(Seq<char>, Option<SpecType>)>),
}

pub struct SpecScheme {
    pub params: Seq<Seq<char>>,
    pub body: SpecType,
}

/// How often `weak_normalize` unfolds a type synonym before it gives up.
pub const NORMALIZE_LIMIT: usize = 1000;

/// How deep `equiv` descends into two types before it gives up.
pub const EQUIV_DEPTH: usize = 1000;

/// Position of the first of `keys` that is `key`.
pub open spec fn first_index_of(keys: Seq<Seq<char>>, key: Seq<char>) -> Option<int>
    decreases keys.len(),
{
    if keys.len() == 0 {
        None
    } else {
        match first_index_of(keys.drop_last(), key) {
            Some(i) => Some(i),
            None => if keys.last() == key {
                Some(keys.len() - 1)
            } else {
                None
            },
        }
    }
}

/// Position of the last of `keys` that is `key`.
pub open spec fn last_index_of(keys: Seq<Seq<char>>, key: Seq<char>) -> Option<int>
    decreases keys.len(),
{
    if keys.len() == 0 {
        None
    } else if keys.last() == key {
        Some(keys.len() - 1)
    } else {
        last_index_of(keys.drop_last(), key)
    }
}

/// The first position of a key among the first `n` keys is its first
/// position among all keys.
pub proof fn lemma_first_index_prefix(keys: Seq<Seq<char>>, key: Seq<char>, n: int)
    requires
        0 <= n <= keys.len(),
        first_index_of(keys.take(n), key) is Some,
    ensures
        first_index_of(keys, key) == first_index_of(keys.take(n), key),
    decreases keys.len() - n,
{
    if n < keys.len() {
        assert(keys.take(n + 1).drop_last() =~= keys.take(n));
        lemma_first_index_prefix(keys, key, n + 1);
    } else {
        assert(keys.take(n) =~= keys);
    }
}

/// The texts of a list of identifiers.
pub open spec fn idents_view(idents: Seq<Ident>) -> Seq<Seq<char>> {
    Seq::new(idents.len(), |i: int| idents[i]@)
}

/// The models of a list of types.
pub open spec fn types_view(types: Seq<RcType>) -> Seq<SpecType>
    decreases types,
{
    Seq::new(
        types.len(),
        |i: int|
            if 0 <= i < types.len() {
                types[i].view()
            } else {
                SpecType::Error
            },
    )
}

/// The models of a list of named types.
pub open spec fn fields_view(fields: Seq<(Ident, RcType)>) -> Seq<(Seq<char>, SpecType)>
    decreases fields,
{
    Seq::new(
        fields.len(),
        |i: int|
            if 0 <= i < fields.len() {
                (fields[i].0@, fields[i].1.view())
            } else {
                (Seq::empty(), SpecType::Error)
            },
    )
}

pub open spec fn payload_view(payload: Option<RcType>) -> Option<SpecType>
    decreases payload,
{
    match payload {
        Some(typ) => Some(typ.view()),
        None => None,
    }
}

/// The models of the constructors of a variant type.
pub open spec fn constrs_view(constrs: Seq<(Ident, Option<RcType>)>) -> Seq<
    (Seq<char>, Option<SpecType>),
>
    decreases constrs,
{
    Seq::new(
        constrs.len(),
        |i: int|
            if 0 <= i < constrs.len() {
                (constrs[i].0@, payload_view(constrs[i].1))
            } else {
                (Seq::empty(), None)
            },
    )
}

impl Type {
    pub open spec fn view(&self) -> SpecType
        decreases self,
    {
        match self {
            Type::Error => SpecType::Error,
            Type::Var(var) => SpecType::Var(var@),
            Type::SynApp(var, args) => SpecType::SynApp(var@, types_view(args@)),
            Type::Int => SpecType::Int,
            Type::Bool => SpecType::Bool,
            Type::Fun(params, result) => SpecType::Fun(
                types_view(params@),
                Box::new(result.view()),
            ),
            Type::Record(fields) => SpecType::Record(fields_view(fields@)),
            Type::Variant(constrs) => SpecType::Variant(constrs_view(constrs@)),
        }
    }
}

impl RcType {
    pub closed spec fn view(&self) -> SpecType
        decreases self,
    {
        self.inner.view()
    }

    pub fn new(typ: Type) -> (r: Self)
        ensures
            r@ == typ@,
    {
        Self { inner: Rc::new(typ) }
    }

    /// The type behind the shared handle.
    pub fn get(&self) -> (typ: &Type)
        ensures
            typ@ == self@,
    {
        &self.inner
    }
}

impl Clone for RcType {
    fn clone(&self) -> (copy: Self)
        ensures
            copy@ == self@,
    {
        Self { inner: Rc::clone(&self.inner) }
    }
}

impl TypeScheme {
    pub open spec fn view(&self) -> SpecScheme {
        SpecScheme { params: idents_view(self.params@), body: self.body@ }
    }
}

/// The names of a list of named things.
pub open spec fn names_of<V>(entries: Seq<(Ident, V)>) -> Seq<Seq<char>> {
    Seq::new(entries.len(), |i: int| entries[i].0@)
}

/// The names of a list of models of named things.
pub open spec fn keys_of<V>(entries: Seq<(Seq<char>, V)>) -> Seq<Seq<char>> {
    Seq::new(entries.len(), |i: int| entries[i].0)
}

/// The models of the type definitions of a module.
pub open spec fn defs_view(defs: Seq<(Ident, TypeScheme)>) -> Seq<(Seq<char>, SpecScheme)> {
    Seq::new(defs.len(), |i: int| (defs[i].0@, defs[i].1@))
}

/// The pairs of a parameter and the type at its position.
pub open spec fn zip(params: Seq<Seq<char>>, types: Seq<SpecType>) -> Seq<(Seq<char>, SpecType)> {
    Seq::new(
        if params.len() <= types.len() {
            params.len()
        } else {
            types.len()
        },
        |i: int| (params[i], types[i]),
    )
}

pub open spec fn subst_all(types: Seq<SpecType>, mapping: Seq<(Seq<char>, SpecType)>) -> Seq<
    SpecType,
>
    decreases types,
{
    Seq::new(
        types.len(),
        |i: int|
            if 0 <= i < types.len() {
                types[i].subst(mapping)
            } else {
                SpecType::Error
            },
    )
}

pub open spec fn subst_payload(
    payload: Option<SpecType>,
    mapping: Seq<(Seq<char>, SpecType)>,
) -> Option<SpecType>
    decreases payload,
{
    match payload {
        Some(typ) => Some(typ.subst(mapping)),
        None => None,
    }
}

pub open spec fn equiv_all(
    xs: Seq<SpecType>,
    ys: Seq<SpecType>,
    defs: Seq<(Seq<char>, SpecScheme)>,
    depth: nat,
) -> bool
    decreases depth, 1nat,
{
    &&& xs.len() == ys.len()
    &&& forall|i: int| 0 <= i < xs.len() ==> (#[trigger] xs[i]).equiv(ys[i], defs, depth)
}

pub open spec fn equiv_payload(
    x: Option<SpecType>,
    y: Option<SpecType>,
    defs: Seq<(Seq<char>, SpecScheme)>,
    depth: nat,
) -> bool
    decreases depth, 1nat,
{
    match (x, y) {
        (Some(x), Some(y)) => x.equiv(y, defs, depth),
        (None, None) => true,
        _ => false,
    }
}

impl SpecScheme {
    /// The body with each parameter replaced by the type at its position.
    pub open spec fn instantiate(self, types: Seq<SpecType>) -> SpecType {
        self.body.subst(zip(self.params, types))
    }
}

impl SpecType {
    /// The type with each variable replaced by the type that `mapping`
    /// gives it; a variable that `mapping` does not name stays.
    pub open spec fn subst(self, mapping: Seq<(Seq<char>, SpecType)>) -> SpecType
        decreases self,
    {
        match self {
            SpecType::Var(var) => match last_index_of(keys_of(mapping), var) {
                Some(i) => mapping[i].1,
                None => self,
            },
            SpecType::SynApp(var, args) => SpecType::SynApp(var, subst_all(args, mapping)),
            SpecType::Fun(params, result) => SpecType::Fun(
                subst_all(params, mapping),
                Box::new(result.subst(mapping)),
            ),
            SpecType::Record(fields) => SpecType::Record(
                Seq::new(
                    fields.len(),
                    |i: int|
                        if 0 <= i < fields.len() {
                            (fields[i].0, fields[i].1.subst(mapping))
                        } else {
                            (Seq::empty(), SpecType::Error)
                        },
                ),
            ),
            SpecType::Variant(constrs) => SpecType::Variant(
                Seq::new(
                    constrs.len(),
                    |i: int|
                        if 0 <= i < constrs.len() {
                            (constrs[i].0, subst_payload(constrs[i].1, mapping))
                        } else {
                            (Seq::empty(), None)
                        },
                ),
            ),
            _ => self,
        }
    }

    /// The type with the synonyms at its head unfolded, at most `fuel`
    /// times; a synonym without a definition stays.
    pub open spec fn weak_normalize(self, defs: Seq<(Seq<char>, SpecScheme)>, fuel: nat) -> SpecType
        decreases fuel,
    {
        match self {
            SpecType::SynApp(var, args) => if fuel == 0 {
                self
            } else {
                match last_index_of(keys_of(defs), var) {
                    Some(i) => defs[i].1.instantiate(args).weak_normalize(defs, (fuel - 1) as nat),
                    None => self,
                }
            },
            _ => self,
        }
    }

    /// Whether two types are the same up to the unfolding of synonyms,
    /// where the error type is equivalent to every type. Two applications
    /// of one synonym are compared by their arguments. Types nested deeper
    /// than `depth` are not equivalent.
    pub open spec fn equiv(
        self,
        other: SpecType,
        defs: Seq<(Seq<char>, SpecScheme)>,
        depth: nat,
    ) -> bool
        decreases depth, 0nat,
    {
        if depth == 0 {
            false
        } else if self is SynApp && other is SynApp && self->SynApp_0 == other->SynApp_0 {
            equiv_all(self->SynApp_1, other->SynApp_1, defs, (depth - 1) as nat)
        } else {
            match (
                self.weak_normalize(defs, NORMALIZE_LIMIT as nat),
                other.weak_normalize(defs, NORMALIZE_LIMIT as nat),
            ) {
                (SpecType::SynApp(_, _), _) | (_, SpecType::SynApp(_, _)) => false,
                (SpecType::Error, _) | (_, SpecType::Error) => true,
                (SpecType::Var(x), SpecType::Var(y)) => x == y,
                (SpecType::Int, SpecType::Int) => true,
                (SpecType::Bool, SpecType::Bool) => true,
                (SpecType::Fun(params1, result1), SpecType::Fun(params2, result2)) => {
                    &&& equiv_all(params1, params2, defs, (depth - 1) as nat)
                    &&& result1.equiv(*result2, defs, (depth - 1) as nat)
                },
                (SpecType::Record(fields1), SpecType::Record(fields2)) => {
                    &&& keys_of(fields1) == keys_of(fields2)
                    &&& forall|i: int|
                        0 <= i < fields1.len() ==> (#[trigger] fields1[i]).1.equiv(
                            fields2[i].1,
                            defs,
                            (depth - 1) as nat,
                        )
                },
                (SpecType::Variant(constrs1), SpecType::Variant(constrs2)) => {
                    &&& keys_of(constrs1) == keys_of(constrs2)
                    &&& forall|i: int|
                        0 <= i < constrs1.len() ==> equiv_payload(
                            (#[trigger] constrs1[i]).1,
                            constrs2[i].1,
                            defs,
                            (depth - 1) as nat,
                        )
                },
                _ => false,
            }
        }
    }
}

/// Position of the last entry called `key`.
pub fn find_last<V>(entries: &Vec<(Ident, V)>, key: &Ident) -> (found: Option<usize>)
    ensures
        match found {
            Some(i) => i < entries@.len() && last_index_of(names_of(entries@), key@) == Some(
                i as int,
            ),
            None => last_index_of(names_of(entries@), key@) is None,
        },
{
    let ghost names = names_of(entries@);
    let mut i: usize = entries.len();
    assert(names.take(i as int) =~= names);
    while i > 0
        invariant
            i <= entries.len(),
            names == names_of(entries@),
            last_index_of(names, key@) == last_index_of(names.take(i as int), key@),
        decreases i,
    {
        i -= 1;
        assert(names.take(i + 1).drop_last() =~= names.take(i as int));
        assert(names.take(i + 1).last() == entries@[i as int].0@);
        if entries[i].0.same(key) {
            return Some(i);
        }
    }
    None
}

/// Position of the first entry called `key`.
pub fn find_first<V>(entries: &Vec<(Ident, V)>, key: &Ident) -> (found: Option<usize>)
    ensures
        match found {
            Some(i) => i < entries@.len() && first_index_of(names_of(entries@), key@) == Some(
                i as int,
            ),
            None => first_index_of(names_of(entries@), key@) is None,
        },
{
    let ghost names = names_of(entries@);
    let mut i: usize = 0;
    while i < entries.len()
        invariant
            i <= entries.len(),
            names == names_of(entries@),
            first_index_of(names.take(i as int), key@) is None,
        decreases entries.len() - i,
    {
        assert(names.take(i + 1).drop_last() =~= names.take(i as int));
        assert(names.take(i + 1).last() == entries@[i as int].0@);
        if entries[i].0.same(key) {
            proof {
                lemma_first_index_prefix(names, key@, i + 1);
            }
            return Some(i);
        }
        i += 1;
    }
    assert(names.take(entries.len() as int) =~= names);
    None
}

/// Whether two lists have the same names at the same positions.
pub fn same_keys<V, W>(vec1: &Vec<(Ident, V)>, vec2: &Vec<(Ident, W)>) -> (same: bool)
    ensures
        same == (names_of(vec1@) == names_of(vec2@)),
{
    if vec1.len() != vec2.len() {
        assert(names_of(vec1@).len() != names_of(vec2@).len());
        return false;
    }
    let mut i: usize = 0;
    while i < vec1.len()
        invariant
            i <= vec1.len(),
            vec1.len() == vec2.len(),
            forall|k: int| 0 <= k < i ==> vec1@[k].0@ == vec2@[k].0@,
        decreases vec1.len() - i,
    {
        if !vec1[i].0.same(&vec2[i].0) {
            assert(names_of(vec1@)[i as int] != names_of(vec2@)[i as int]);
            return false;
        }
        i += 1;
    }
    assert(names_of(vec1@) =~= names_of(vec2@));
    true
}

pub proof fn lemma_names_of_fields(fields: Seq<(Ident, RcType)>)
    ensures
        keys_of(fields_view(fields)) == names_of(fields),
{
    assert(keys_of(fields_view(fields)) =~= names_of(fields));
}

pub proof fn lemma_names_of_constrs(constrs: Seq<(Ident, Option<RcType>)>)
    ensures
        keys_of(constrs_view(constrs)) == names_of(constrs),
{
    assert(keys_of(constrs_view(constrs)) =~= names_of(constrs));
}

pub proof fn lemma_names_of_defs(defs: Seq<(Ident, TypeScheme)>)
    ensures
        keys_of(defs_view(defs)) == names_of(defs),
{
    assert(keys_of(defs_view(defs)) =~= names_of(defs));
}

fn subst_list(types: &Vec<RcType>, mapping: &Vec<(Ident, RcType)>) -> (r: Vec<RcType>)
    ensures
        types_view(r@) == subst_all(types_view(types@), fields_view(mapping@)),
    decreases types,
{
    let mut r: Vec<RcType> = Vec::new();
    let mut i: usize = 0;
    while i < types.len()
        invariant
            i <= types.len(),
            r@.len() == i,
            forall|k: int| 0 <= k < i ==> (#[trigger] r@[k])@ == types@[k]@.subst(fields_view(mapping@)),
        decreases types.len() - i,
    {
        r.push(types[i].subst(mapping));
        i += 1;
    }
    assert(types_view(r@) =~= subst_all(types_view(types@), fields_view(mapping@)));
    r
}

fn subst_fields(fields: &Vec<(Ident, RcType)>, mapping: &Vec<(Ident, RcType)>) -> (r: Vec<
    (Ident, RcType),
>)
    ensures
        SpecType::Record(fields_view(r@)) == SpecType::Record(fields_view(fields@)).subst(
            fields_view(mapping@),
        ),
    decreases fields,
{
    let ghost model = fields_view(mapping@);
    let mut r: Vec<(Ident, RcType)> = Vec::new();
    let mut i: usize = 0;
    while i < fields.len()
        invariant
            i <= fields.len(),
            r@.len() == i,
            model == fields_view(mapping@),
            forall|k: int|
                0 <= k < i ==> (#[trigger] r@[k]).0@ == fields@[k].0@ && r@[k].1@
                    == fields@[k].1@.subst(model),
        decreases fields.len() - i,
    {
        r.push((fields[i].0.clone(), fields[i].1.subst(mapping)));
        i += 1;
    }
    assert(fields_view(r@) =~= SpecType::Record(fields_view(fields@)).subst(model)->Record_0);
    r
}

fn subst_constrs(
    constrs: &Vec<(Ident, Option<RcType>)>,
    mapping: &Vec<(Ident, RcType)>,
) -> (r: Vec<(Ident, Option<RcType>)>)
    ensures
        SpecType::Variant(constrs_view(r@)) == SpecType::Variant(constrs_view(constrs@)).subst(
            fields_view(mapping@),
        ),
    decreases constrs,
{
    let ghost model = fields_view(mapping@);
    let mut r: Vec<(Ident, Option<RcType>)> = Vec::new();
    let mut i: usize = 0;
    while i < constrs.len()
        invariant
            i <= constrs.len(),
            r@.len() == i,
            model == fields_view(mapping@),
            forall|k: int|
                0 <= k < i ==> (#[trigger] r@[k]).0@ == constrs@[k].0@ && payload_view(r@[k].1)
                    == subst_payload(payload_view(constrs@[k].1), model),
        decreases constrs.len() - i,
    {
        let payload = match &constrs[i].1 {
            Some(typ) => Some(typ.subst(mapping)),
            None => None,
        };
        r.push((constrs[i].0.clone(), payload));
        i += 1;
    }
    assert(constrs_view(r@) =~= SpecType::Variant(constrs_view(constrs@)).subst(
        model,
    )->Variant_0);
    r
}

impl RcType {
    /// Replaces each variable by the type that `mapping` gives it.
    pub fn subst(&self, mapping: &Vec<(Ident, RcType)>) -> (r: RcType)
        ensures
            r@ == self@.subst(fields_view(mapping@)),
        decreases self,
    {
        let ghost model = fields_view(mapping@);
        match &*self.inner {
            Type::Var(var) => {
                proof {
                    lemma_names_of_fields(mapping@);
                }
                match find_last(mapping, var) {
                    Some(i) => mapping[i].1.clone(),
                    None => self.clone(),
                }
            },
            Type::SynApp(var, args) => RcType::new(
                Type::SynApp(var.clone(), subst_list(args, mapping)),
            ),
            Type::Fun(params, result) => RcType::new(
                Type::Fun(subst_list(params, mapping), result.subst(mapping)),
            ),
            Type::Record(fields) => RcType::new(Type::Record(subst_fields(fields, mapping))),
            Type::Variant(constrs) => RcType::new(Type::Variant(subst_constrs(constrs, mapping))),
            _ => self.clone(),
        }
    }

    /// Unfolds the synonyms at the head of the type, at most
    /// `NORMALIZE_LIMIT` times.
    pub fn weak_normalize(&self, type_defs: &Vec<(Ident, TypeScheme)>) -> (r: RcType)
        ensures
            r@ == self@.weak_normalize(defs_view(type_defs@), NORMALIZE_LIMIT as nat),
    {
        let ghost defs = defs_view(type_defs@);
        let mut typ = self.clone();
        let mut fuel: usize = NORMALIZE_LIMIT;
        while fuel > 0
            invariant
                defs == defs_view(type_defs@),
                typ@.weak_normalize(defs, fuel as nat) == self@.weak_normalize(
                    defs,
                    NORMALIZE_LIMIT as nat,
                ),
            decreases fuel,
        {
            let next = match &*typ.inner {
                Type::SynApp(var, args) => {
                    proof {
                        lemma_names_of_defs(type_defs@);
                    }
                    match find_last(type_defs, var) {
                        Some(i) => type_defs[i].1.instantiate(args),
                        None => {
                            return typ;
                        },
                    }
                },
                _ => {
                    return typ;
                },
            };
            typ = next;
            fuel -= 1;
        }
        typ
    }

    /// Whether the type is equivalent to `expected`.
    pub fn equiv(&self, expected: &RcType, type_defs: &Vec<(Ident, TypeScheme)>) -> (r: bool)
        ensures
            r == self@.equiv(expected@, defs_view(type_defs@), EQUIV_DEPTH as nat),
    {
        self.equiv_within(expected, type_defs, EQUIV_DEPTH)
    }

    /// `equiv` to the given depth.
    pub fn equiv_within(
        &self,
        expected: &RcType,
        type_defs: &Vec<(Ident, TypeScheme)>,
        depth: usize,
    ) -> (r: bool)
        ensures
            r == self@.equiv(expected@, defs_view(type_defs@), depth as nat),
        decreases depth, 0nat,
    {
        let ghost defs = defs_view(type_defs@);
        if depth == 0 {
            return false;
        }
        match (&*self.inner, &*expected.inner) {
            (Type::SynApp(var1, args1), Type::SynApp(var2, args2)) => {
                if var1.same(var2) {
                    return equiv_list(args1, args2, type_defs, depth - 1);
                }
            },
            _ => {},
        }
        let left = self.weak_normalize(type_defs);
        let right = expected.weak_normalize(type_defs);
        match (&*left.inner, &*right.inner) {
            (Type::SynApp(_, _), _) | (_, Type::SynApp(_, _)) => false,
            (Type::Error, _) | (_, Type::Error) => true,
            (Type::Var(var1), Type::Var(var2)) => var1.same(var2),
            (Type::Int, Type::Int) => true,
            (Type::Bool, Type::Bool) => true,
            (Type::Fun(params1, result1), Type::Fun(params2, result2)) => {
                equiv_list(params1, params2, type_defs, depth - 1) && result1.equiv_within(
                    result2,
                    type_defs,
                    depth - 1,
                )
            },
            (Type::Record(fields1), Type::Record(fields2)) => {
                proof {
                    lemma_names_of_fields(fields1@);
                    lemma_names_of_fields(fields2@);
                }
                same_keys(fields1, fields2) && equiv_fields(
                    fields1,
                    fields2,
                    type_defs,
                    depth - 1,
                )
            },
            (Type::Variant(constrs1), Type::Variant(constrs2)) => {
                proof {
                    lemma_names_of_constrs(constrs1@);
                    lemma_names_of_constrs(constrs2@);
                }
                same_keys(constrs1, constrs2) && equiv_constrs(
                    constrs1,
                    constrs2,
                    type_defs,
                    depth - 1,
                )
            },
            _ => false,
        }
    }
}

fn equiv_fields(
    fields1: &Vec<(Ident, RcType)>,
    fields2: &Vec<(Ident, RcType)>,
    type_defs: &Vec<(Ident, TypeScheme)>,
    depth: usize,
) -> (r: bool)
    requires
        names_of(fields1@) == names_of(fields2@),
    ensures
        r == (forall|i: int|
            0 <= i < fields1@.len() ==> (#[trigger] fields_view(fields1@)[i]).1.equiv(
                fields_view(fields2@)[i].1,
                defs_view(type_defs@),
                depth as nat,
            )),
    decreases depth, 1nat,
{
    assert(names_of(fields1@).len() == fields1@.len());
    assert(names_of(fields2@).len() == fields2@.len());
    let mut i: usize = 0;
    while i < fields1.len()
        invariant
            i <= fields1.len(),
            fields1.len() == fields2.len(),
            forall|k: int|
                0 <= k < i ==> (#[trigger] fields_view(fields1@)[k]).1.equiv(
                    fields_view(fields2@)[k].1,
                    defs_view(type_defs@),
                    depth as nat,
                ),
        decreases fields1.len() - i,
    {
        if !fields1[i].1.equiv_within(&fields2[i].1, type_defs, depth) {
            assert(!fields_view(fields1@)[i as int].1.equiv(
                fields_view(fields2@)[i as int].1,
                defs_view(type_defs@),
                depth as nat,
            ));
            return false;
        }
        i += 1;
    }
    true
}

fn equiv_constrs(
    constrs1: &Vec<(Ident, Option<RcType>)>,
    constrs2: &Vec<(Ident, Option<RcType>)>,
    type_defs: &Vec<(Ident, TypeScheme)>,
    depth: usize,
) -> (r: bool)
    requires
        names_of(constrs1@) == names_of(constrs2@),
    ensures
        r == (forall|i: int|
            0 <= i < constrs1@.len() ==> equiv_payload(
                (#[trigger] constrs_view(constrs1@)[i]).1,
                constrs_view(constrs2@)[i].1,
                defs_view(type_defs@),
                depth as nat,
            )),
    decreases depth, 1nat,
{
    assert(names_of(constrs1@).len() == constrs1@.len());
    assert(names_of(constrs2@).len() == constrs2@.len());
    let mut i: usize = 0;
    while i < constrs1.len()
        invariant
            i <= constrs1.len(),
            constrs1.len() == constrs2.len(),
            forall|k: int|
                0 <= k < i ==> equiv_payload(
                    (#[trigger] constrs_view(constrs1@)[k]).1,
                    constrs_view(constrs2@)[k].1,
                    defs_view(type_defs@),
                    depth as nat,
                ),
        decreases constrs1.len() - i,
    {
        let same = match (&constrs1[i].1, &constrs2[i].1) {
            (Some(typ1), Some(typ2)) => typ1.equiv_within(typ2, type_defs, depth),
            (None, None) => true,
            _ => false,
        };
        if !same {
            assert(!equiv_payload(
                constrs_view(constrs1@)[i as int].1,
                constrs_view(constrs2@)[i as int].1,
                defs_view(type_defs@),
                depth as nat,
            ));
            return false;
        }
        i += 1;
    }
    true
}

fn equiv_list(
    xs: &Vec<RcType>,
    ys: &Vec<RcType>,
    type_defs: &Vec<(Ident, TypeScheme)>,
    depth: usize,
) -> (r: bool)
    ensures
        r == equiv_all(types_view(xs@), types_view(ys@), defs_view(type_defs@), depth as nat),
    decreases depth, 1nat,
{
    if xs.len() != ys.len() {
        return false;
    }
    let mut i: usize = 0;
    while i < xs.len()
        invariant
            i <= xs.len(),
            xs.len() == ys.len(),
            forall|k: int|
                0 <= k < i ==> (#[trigger] types_view(xs@)[k]).equiv(
                    types_view(ys@)[k],
                    defs_view(type_defs@),
                    depth as nat,
                ),
        decreases xs.len() - i,
    {
        if !xs[i].equiv_within(&ys[i], type_defs, depth) {
            assert(!types_view(xs@)[i as int].equiv(
                types_view(ys@)[i as int],
                defs_view(type_defs@),
                depth as nat,
            ));
            return false;
        }
        i += 1;
    }
    true
}

impl TypeScheme {
    /// Instantiates the scheme: the body with each parameter replaced by
    /// the type at its position in `types`.
    pub fn instantiate(&self, types: &Vec<RcType>) -> (r: RcType)
        ensures
            r@ == self@.instantiate(types_view(types@)),
    {
        let mut mapping: Vec<(Ident, RcType)> = Vec::new();
        let mut i: usize = 0;
        while i < self.params.len() && i < types.len()
            invariant
                i <= self.params.len(),
                i <= types.len(),
                mapping@.len() == i,
                forall|k: int|
                    0 <= k < i ==> (#[trigger] mapping@[k]).0@ == self.params@[k]@ && mapping@[k].1@
                        == types@[k]@,
            decreases self.params.len() - i,
        {
            mapping.push((self.params[i].clone(), types[i].clone()));
            i += 1;
        }
        assert(fields_view(mapping@) =~= zip(idents_view(self.params@), types_view(types@)));
        self.body.subst(&mapping)
    }
}

/// `parts` with `separator` between them.
pub open spec fn join(parts: Seq<Seq<char>>, separator: Seq<char>) -> Seq<char>
    decreases parts.len(),
{
    if parts.len() == 0 {
        Seq::empty()
    } else if parts.len() == 1 {
        parts[0]
    } else {
        join(parts.drop_last(), separator) + separator + parts.last()
    }
}

/// The texts of a list of types.
pub open spec fn type_texts(types: Seq<SpecType>) -> Seq<Seq<char>>
    decreases types,
{
    Seq::new(
        types.len(),
        |i: int|
            if 0 <= i < types.len() {
                types[i].text()
            } else {
                Seq::empty()
            },
    )
}

/// The texts of the fields of a record type.
pub open spec fn field_texts(fields: Seq<(Seq<char>, SpecType)>) -> Seq<Seq<char>>
    decreases fields,
{
    Seq::new(
        fields.len(),
        |i: int|
            if 0 <= i < fields.len() {
                fields[i].0 + ": "@ + fields[i].1.text()
            } else {
                Seq::empty()
            },
    )
}

/// The text of a constructor of a variant type.
pub open spec fn constr_text(name: Seq<char>, payload: Option<SpecType>) -> Seq<char>
    decreases payload,
{
    match payload {
        Some(typ) => name + "("@ + typ.text() + ")"@,
        None => name,
    }
}

/// The texts of the constructors of a variant type.
pub open spec fn constr_texts(constrs: Seq<(Seq<char>, Option<SpecType>)>) -> Seq<Seq<char>>
    decreases constrs,
{
    Seq::new(
        constrs.len(),
        |i: int|
            if 0 <= i < constrs.len() {
                constr_text(constrs[i].0, constrs[i].1)
            } else {
                Seq::empty()
            },
    )
}

impl SpecType {
    /// The type in the notation of the language.
    pub open spec fn text(self) -> Seq<char>
        decreases self,
    {
        match self {
            SpecType::Error => "???"@,
            SpecType::Var(var) => var,
            SpecType::SynApp(var, args) => if args.len() == 0 {
                var
            } else {
                var + "<"@ + join(type_texts(args), ", "@) + ">"@
            },
            SpecType::Int => "Int"@,
            SpecType::Bool => "Bool"@,
            SpecType::Fun(params, result) => "("@ + join(type_texts(params), ", "@) + ") -> "@
                + result.text(),
            SpecType::Record(fields) => "{"@ + join(field_texts(fields), ", "@) + "}"@,
            SpecType::Variant(constrs) => "["@ + join(constr_texts(constrs), " | "@) + "]"@,
        }
    }
}

/// The texts in `texts` with `separator` between them.
fn join_strings(texts: &Vec<String>, separator: &str) -> (text: String)
    ensures
        text@ == join(Seq::new(texts@.len(), |i: int| texts@[i]@), separator@),
{
    let ghost parts = Seq::new(texts@.len(), |i: int| texts@[i]@);
    let mut text = String::new();
    let mut i: usize = 0;
    assert(parts.take(0) =~= Seq::empty());
    while i < texts.len()
        invariant
            i <= texts.len(),
            parts == Seq::new(texts@.len(), |i: int| texts@[i]@),
            text@ == join(parts.take(i as int), separator@),
        decreases texts.len() - i,
    {
        proof {
            assert(parts.take(i + 1).drop_last() =~= parts.take(i as int));
            assert(parts.take(i + 1).last() == texts@[i as int]@);
            if i == 0 {
                assert(Seq::<char>::empty() + texts@[0]@ =~= texts@[0]@);
            }
        }
        if i > 0 {
            text.append(separator);
        }
        text.append(texts[i].as_str());
        i += 1;
    }
    assert(parts.take(texts.len() as int) =~= parts);
    text
}

fn type_strings(types: &Vec<RcType>) -> (texts: Vec<String>)
    ensures
        Seq::new(texts@.len(), |i: int| texts@[i]@) == type_texts(types_view(types@)),
    decreases types,
{
    let mut texts: Vec<String> = Vec::new();
    let mut i: usize = 0;
    while i < types.len()
        invariant
            i <= types.len(),
            texts@.len() == i,
            forall|k: int| 0 <= k < i ==> (#[trigger] texts@[k])@ == types@[k]@.text(),
        decreases types.len() - i,
    {
        texts.push(types[i].to_text());
        i += 1;
    }
    assert(Seq::new(texts@.len(), |i: int| texts@[i]@) =~= type_texts(types_view(types@)));
    texts
}

fn field_strings(fields: &Vec<(Ident, RcType)>) -> (texts: Vec<String>)
    ensures
        Seq::new(texts@.len(), |i: int| texts@[i]@) == field_texts(fields_view(fields@)),
    decreases fields,
{
    let mut texts: Vec<String> = Vec::new();
    let mut i: usize = 0;
    while i < fields.len()
        invariant
            i <= fields.len(),
            texts@.len() == i,
            forall|k: int|
                0 <= k < i ==> (#[trigger] texts@[k])@ == fields@[k].0@ + ": "@
                    + fields@[k].1@.text(),
        decreases fields.len() - i,
    {
        let mut text = String::from_str(fields[i].0.name());
        text.append(": ");
        text.append(fields[i].1.to_text().as_str());
        texts.push(text);
        i += 1;
    }
    assert(Seq::new(texts@.len(), |i: int| texts@[i]@) =~= field_texts(fields_view(fields@)));
    texts
}

fn constr_strings(constrs: &Vec<(Ident, Option<RcType>)>) -> (texts: Vec<String>)
    ensures
        Seq::new(texts@.len(), |i: int| texts@[i]@) == constr_texts(constrs_view(constrs@)),
    decreases constrs,
{
    let mut texts: Vec<String> = Vec::new();
    let mut i: usize = 0;
    while i < constrs.len()
        invariant
            i <= constrs.len(),
            texts@.len() == i,
            forall|k: int|
                0 <= k < i ==> (#[trigger] texts@[k])@ == constr_text(
                    constrs@[k].0@,
                    payload_view(constrs@[k].1),
                ),
        decreases constrs.len() - i,
    {
        let mut text = String::from_str(constrs[i].0.name());
        match &constrs[i].1 {
            Some(typ) => {
                text.append("(");
                text.append(typ.to_text().as_str());
                text.append(")");
            },
            None => {},
        }
        texts.push(text);
        i += 1;
    }
    assert(Seq::new(texts@.len(), |i: int| texts@[i]@) =~= constr_texts(constrs_view(constrs@)));
    texts
}

impl RcType {
    /// The type in the notation of the language.
    pub fn to_text(&self) -> (text: String)
        ensures
            text@ == self@.text(),
        decreases self,
    {
        match &*self.inner {
            Type::Error => String::from_str("???"),
            Type::Var(var) => String::from_str(var.name()),
            Type::SynApp(var, args) => {
                let mut text = String::from_str(var.name());
                if args.len() > 0 {
                    text.append("<");
                    text.append(join_strings(&type_strings(args), ", ").as_str());
                    text.append(">");
                }
                assert(types_view(args@).len() == args@.len());
                text
            },
            Type::Int => String::from_str("Int"),
            Type::Bool => String::from_str("Bool"),
            Type::Fun(params, result) => {
                let mut text = String::from_str("(");
                text.append(join_strings(&type_strings(params), ", ").as_str());
                text.append(") -> ");
                text.append(result.to_text().as_str());
                text
            },
            Type::Record(fields) => {
                let mut text = String::from_str("{");
                text.append(join_strings(&field_strings(fields), ", ").as_str());
                text.append("}");
                text
            },
            Type::Variant(constrs) => {
                let mut text = String::from_str("[");
                text.append(join_strings(&constr_strings(constrs), " | ").as_str());
                text.append("]");
                text
            },
        }
    }
}

} // verus!
