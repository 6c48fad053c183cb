//! The bidirectional type checker.

pub mod error;
pub mod model;
pub mod types;

use crate::typed::check::error::{lerror_view, Error, LError, SpecLError};
use crate::typed::check::model::{
    all_annotated, annotated_types, annotation_each, applied_name, arities_of, builtin_type,
    first_unannotated, lemma_first_unannotated, lemma_first_unannotated_prefix, Binder,
    check_branch_each, check_each, check_module, checked_param_each, duplicate, func_decl_each,
    func_decl_names, func_decls_of, infer_field_each, is_arithmetic, lam_annotations,
    lemma_duplicate_prefix, lemma_sequence_prefix, lemma_sequence_step, named, param_names,
    param_spans, resolve_constr_each, resolve_each, resolve_field_each, sequence, signature_each,
    tvar_names, tvar_spans, type_decl_each, type_decl_names, type_decls_of, types_of, unique_or,
    SpecKindEnv, SpecTypeEnv,
};
use crate::typed::check::types::{
    constrs_view, defs_view, fields_view, find_first, find_last, first_index_of, idents_view,
    keys_of, lemma_first_index_prefix, lemma_names_of_constrs, lemma_names_of_defs,
    lemma_names_of_fields, names_of, payload_view, types_view, zip, RcType, SpecScheme, SpecType,
    Type, TypeScheme,
};
use crate::typed::iter::{lemma_func_positions, lemma_type_positions};
use crate::typed::syntax::{
    Branch, Expr, FuncDecl, Ident, LExpr, LExprVar, LType, LTypeVar, Located, Module, OpCode,
    Span, TypeDecl,
};
use vstd::prelude::*;

verus! {

/// What the checker knows about the names of types.
pub struct KindEnv<'a> {
    arities: &'a Vec<(Ident, usize)>,
    type_vars: &'a Vec<LTypeVar>,
}

/// What the checker knows about the names in an expression.
pub struct TypeEnv<'a> {
    kind_env: KindEnv<'a>,
    defs: &'a Vec<(Ident, TypeScheme)>,
    funcs: &'a Vec<(Ident, TypeScheme)>,
    expr_vars: Vec<(Ident, RcType)>,
}

/// The model of the declared types with the numbers of their parameters.
pub open spec fn arities_view(arities: Seq<(Ident, usize)>) -> Seq<(Seq<char>, nat)> {
    Seq::new(arities.len(), |i: int| (arities[i].0@, arities[i].1 as nat))
}

impl<'a> KindEnv<'a> {
    pub closed spec fn view(&self) -> SpecKindEnv {
        SpecKindEnv {
            arities: arities_view(self.arities@),
            type_vars: tvar_names(self.type_vars@),
        }
    }
}

impl<'a> TypeEnv<'a> {
    pub closed spec fn view(&self) -> SpecTypeEnv {
        SpecTypeEnv {
            kind_env: self.kind_env@,
            defs: defs_view(self.defs@),
            funcs: defs_view(self.funcs@),
            expr_vars: fields_view(self.expr_vars@),
        }
    }
}

/// The model of a result that is a type.
pub open spec fn type_result(r: Result<RcType, LError>) -> Result<SpecType, SpecLError> {
    match r {
        Ok(typ) => Ok(typ@),
        Err(e) => Err(lerror_view(e)),
    }
}

/// The model of a result that is a list of types.
pub open spec fn types_result(r: Result<Vec<RcType>, LError>) -> Result<Seq<SpecType>, SpecLError> {
    match r {
        Ok(types) => Ok(types_view(types@)),
        Err(e) => Err(lerror_view(e)),
    }
}

/// The model of a result without a value.
pub open spec fn unit_result(r: Result<(), LError>) -> Result<(), SpecLError> {
    match r {
        Ok(_) => Ok(()),
        Err(e) => Err(lerror_view(e)),
    }
}

/// Whether one of `vars` is called `key`.
fn contains_var(vars: &Vec<LTypeVar>, key: &Ident) -> (found: bool)
    ensures
        found == tvar_names(vars@).contains(key@),
{
    let mut i: usize = 0;
    while i < vars.len()
        invariant
            i <= vars.len(),
            forall|k: int| 0 <= k < i ==> tvar_names(vars@)[k] != key@,
        decreases vars.len() - i,
    {
        if vars[i].locatee.same(key) {
            assert(tvar_names(vars@)[i as int] == key@);
            return true;
        }
        i += 1;
    }
    false
}

proof fn lemma_names_of_arities(arities: Seq<(Ident, usize)>)
    ensures
        keys_of(arities_view(arities)) == names_of(arities),
{
    assert(keys_of(arities_view(arities)) =~= names_of(arities));
}

/// The builtin type called `name`, if there is one.
fn builtin(name: &Ident) -> (found: Option<Type>)
    ensures
        match found {
            Some(typ) => builtin_type(name@) == Some(typ@),
            None => builtin_type(name@) is None,
        },
{
    if name.is("Int") {
        Some(Type::Int)
    } else if name.is("Bool") {
        Some(Type::Bool)
    } else {
        None
    }
}

/// `resolve` for each of `types`, in order.
fn resolve_list(env: &KindEnv, types: &Vec<LType>) -> (r: Result<Vec<RcType>, LError>)
    ensures
        types_result(r) == model::resolve_all(env@, types@),
    decreases types, 1nat,
{
    let ghost results = resolve_each(env@, types@);
    let mut resolved: Vec<RcType> = Vec::new();
    let mut i: usize = 0;
    assert(results.take(0) =~= Seq::empty());
    assert(types_view(resolved@) =~= Seq::empty());
    while i < types.len()
        invariant
            i <= types.len(),
            results == resolve_each(env@, types@),
            sequence(results.take(i as int)) == Ok::<Seq<SpecType>, SpecLError>(
                types_view(resolved@),
            ),
        decreases types.len() - i,
    {
        proof {
            lemma_sequence_step(results, i as int);
        }
        match resolve(env, &types[i]) {
            Err(e) => {
                proof {
                    lemma_sequence_prefix(results, i + 1);
                }
                return Err(e);
            },
            Ok(typ) => {
                let ghost before = types_view(resolved@);
                resolved.push(typ);
                assert(types_view(resolved@) =~= before.push(typ@));
            },
        }
        i += 1;
    }
    assert(results.take(types.len() as int) =~= results);
    Ok(resolved)
}

/// The model of a result that is a list of named types.
pub open spec fn fields_result(r: Result<Vec<(Ident, RcType)>, LError>) -> Result<
    Seq<(Seq<char>, SpecType)>,
    SpecLError,
> {
    match r {
        Ok(fields) => Ok(fields_view(fields@)),
        Err(e) => Err(lerror_view(e)),
    }
}

/// `resolve` for the type of each field, with its name.
fn resolve_fields(env: &KindEnv, fields: &Vec<(LExprVar, LType)>) -> (r: Result<
    Vec<(Ident, RcType)>,
    LError,
>)
    ensures
        fields_result(r) == sequence(resolve_field_each(env@, fields@)),
    decreases fields, 1nat,
{
    let ghost results = resolve_field_each(env@, fields@);
    let mut resolved: Vec<(Ident, RcType)> = Vec::new();
    let mut i: usize = 0;
    assert(results.take(0) =~= Seq::empty());
    assert(fields_view(resolved@) =~= Seq::empty());
    while i < fields.len()
        invariant
            i <= fields.len(),
            results == resolve_field_each(env@, fields@),
            sequence(results.take(i as int)) == Ok::<Seq<(Seq<char>, SpecType)>, SpecLError>(
                fields_view(resolved@),
            ),
        decreases fields.len() - i,
    {
        proof {
            lemma_sequence_step(results, i as int);
        }
        match resolve(env, &fields[i].1) {
            Err(e) => {
                proof {
                    lemma_sequence_prefix(results, i + 1);
                }
                return Err(e);
            },
            Ok(field_type) => {
                let ghost before = fields_view(resolved@);
                let name = fields[i].0.locatee.clone();
                resolved.push((name, field_type));
                assert(fields_view(resolved@) =~= before.push((name@, field_type@)));
            },
        }
        i += 1;
    }
    assert(results.take(fields.len() as int) =~= results);
    Ok(resolved)
}

/// The type that a type of the syntax stands for.
pub fn resolve(env: &KindEnv, typ: &LType) -> (r: Result<RcType, LError>)
    ensures
        type_result(r) == model::resolve(env@, *typ),
    decreases typ, 0nat,
{
    let span = typ.span;
    match &typ.locatee {
        crate::typed::syntax::Type::Error => Ok(RcType::new(Type::Error)),
        crate::typed::syntax::Type::Int => Ok(RcType::new(Type::Int)),
        crate::typed::syntax::Type::Bool => Ok(RcType::new(Type::Bool)),
        crate::typed::syntax::Type::Var(var) => {
            if contains_var(env.type_vars, var) {
                Ok(RcType::new(Type::Var(var.clone())))
            } else {
                proof {
                    lemma_names_of_arities(env.arities@);
                }
                match find_last(env.arities, var) {
                    Some(i) => {
                        let arity = env.arities[i].1;
                        if arity == 0 {
                            let args: Vec<RcType> = Vec::new();
                            assert(types_view(args@) =~= Seq::empty());
                            Ok(RcType::new(Type::SynApp(var.clone(), args)))
                        } else {
                            Err(Located::new(Error::UnexpectedGeneric(var.clone(), arity), span))
                        }
                    },
                    None => match builtin(var) {
                        Some(typ) => Ok(RcType::new(typ)),
                        None => Err(Located::new(Error::UnknownTypeVar(var.clone()), span)),
                    },
                }
            }
        },
        crate::typed::syntax::Type::SynApp(var, args) => {
            let num_args = args.len();
            if contains_var(env.type_vars, &var.locatee) {
                Err(
                    Located::new(
                        Error::GenericTypeArityMismatch {
                            type_var: var.locatee.clone(),
                            expected: 0,
                            found: num_args,
                        },
                        span,
                    ),
                )
            } else {
                proof {
                    lemma_names_of_arities(env.arities@);
                }
                match find_last(env.arities, &var.locatee) {
                    Some(i) => {
                        let arity = env.arities[i].1;
                        if arity == num_args {
                            match resolve_list(env, args) {
                                Err(e) => Err(e),
                                Ok(args) => Ok(
                                    RcType::new(Type::SynApp(var.locatee.clone(), args)),
                                ),
                            }
                        } else {
                            Err(
                                Located::new(
                                    Error::GenericTypeArityMismatch {
                                        type_var: var.locatee.clone(),
                                        expected: arity,
                                        found: num_args,
                                    },
                                    span,
                                ),
                            )
                        }
                    },
                    None => {
                        if builtin(&var.locatee).is_some() {
                            Err(
                                Located::new(
                                    Error::GenericTypeArityMismatch {
                                        type_var: var.locatee.clone(),
                                        expected: 0,
                                        found: num_args,
                                    },
                                    span,
                                ),
                            )
                        } else {
                            Err(Located::new(Error::UnknownTypeVar(var.locatee.clone()), span))
                        }
                    },
                }
            }
        },
        crate::typed::syntax::Type::Fun(params, result) => {
            match resolve_list(env, params) {
                Err(e) => Err(e),
                Ok(params) => match resolve(env, result) {
                    Err(e) => Err(e),
                    Ok(result) => Ok(RcType::new(Type::Fun(params, result))),
                },
            }
        },
        crate::typed::syntax::Type::Record(fields) => {
            match resolve_fields(env, fields) {
                Err(e) => Err(e),
                Ok(fields) => Ok(RcType::new(Type::Record(fields))),
            }
        },
        crate::typed::syntax::Type::Variant(constrs) => {
            let ghost results = resolve_constr_each(env@, constrs@);
            let mut resolved: Vec<(Ident, Option<RcType>)> = Vec::new();
            let mut i: usize = 0;
            assert(results.take(0) =~= Seq::empty());
            assert(constrs_view(resolved@) =~= Seq::empty());
            while i < constrs.len()
                invariant
                    i <= constrs.len(),
                    results == resolve_constr_each(env@, constrs@),
                    typ.locatee == crate::typed::syntax::Type::Variant(*constrs),
                    sequence(results.take(i as int)) == Ok::<
                        Seq<(Seq<char>, Option<SpecType>)>,
                        SpecLError,
                    >(constrs_view(resolved@)),
                decreases constrs.len() - i,
            {
                proof {
                    lemma_sequence_step(results, i as int);
                }
                let payload = match &constrs[i].1 {
                    Some(payload) => match resolve(env, payload) {
                        Err(e) => {
                            proof {
                                lemma_sequence_prefix(results, i + 1);
                            }
                            return Err(e);
                        },
                        Ok(payload) => Some(payload),
                    },
                    None => None,
                };
                let ghost before = constrs_view(resolved@);
                let name = constrs[i].0.locatee.clone();
                let ghost added = (name@, payload_view(payload));
                resolved.push((name, payload));
                assert(constrs_view(resolved@) =~= before.push(added));
                i += 1;
            }
            assert(results.take(constrs.len() as int) =~= results);
            Ok(RcType::new(Type::Variant(resolved)))
        },
    }
}

/// The model of a result that is a list of optional types.
pub open spec fn payloads_view(payloads: Seq<Option<RcType>>) -> Seq<Option<SpecType>> {
    Seq::new(payloads.len(), |i: int| payload_view(payloads[i]))
}

/// The first name of `entries` that occurs a second time, as the positions
/// of its first occurrence and of that second one.
pub fn find_duplicate(entries: &Vec<(Ident, Span)>) -> (found: Option<(usize, usize)>)
    ensures
        match found {
            Some((first, second)) => first < second < entries@.len() && duplicate(
                names_of(entries@),
            ) == Some((first as int, second as int)),
            None => duplicate(names_of(entries@)) is None,
        },
{
    let ghost names = names_of(entries@);
    let mut j: usize = 0;
    assert(names.take(0) =~= Seq::empty());
    while j < entries.len()
        invariant
            j <= entries.len(),
            names == names_of(entries@),
            duplicate(names.take(j as int)) is None,
        decreases entries.len() - j,
    {
        let ghost earlier = names.take(j as int);
        let ghost key = names[j as int];
        proof {
            assert(names.take(j + 1).drop_last() =~= earlier);
            assert(names.take(j + 1).last() == key);
        }
        let mut i: usize = 0;
        assert(earlier.take(0) =~= Seq::empty());
        while i < j
            invariant
                i <= j < entries.len(),
                names == names_of(entries@),
                earlier == names.take(j as int),
                key == names[j as int],
                duplicate(earlier) is None,
                first_index_of(earlier.take(i as int), key) is None,
            decreases j - i,
        {
            proof {
                assert(earlier.take(i + 1).drop_last() =~= earlier.take(i as int));
                assert(earlier.take(i + 1).last() == names[i as int]);
            }
            if entries[i].0.same(&entries[j].0) {
                proof {
                    assert(names[i as int] == key);
                    assert(first_index_of(earlier.take(i + 1), key) == Some(i as int));
                    lemma_first_index_prefix(earlier, key, i + 1);
                    assert(first_index_of(earlier, key) == Some(i as int));
                    assert(names.take(j + 1).drop_last() =~= earlier);
                    assert(names.take(j + 1).last() == key);
                    assert(duplicate(names.take(j + 1)) == Some((i as int, j as int)));
                    lemma_duplicate_prefix(names, j + 1);
                }
                return Some((i, j));
            }
            i += 1;
        }
        assert(earlier.take(j as int) =~= earlier);
        j += 1;
    }
    assert(names.take(entries.len() as int) =~= names);
    None
}

/// The names and spans of a list of type variables.
fn tvar_entries(vars: &Vec<LTypeVar>) -> (entries: Vec<(Ident, Span)>)
    ensures
        names_of(entries@) == tvar_names(vars@),
        entries@.len() == vars@.len(),
        forall|i: int| 0 <= i < vars@.len() ==> (#[trigger] entries@[i]).1 == vars@[i].span,
{
    let mut entries: Vec<(Ident, Span)> = Vec::new();
    let mut i: usize = 0;
    while i < vars.len()
        invariant
            i <= vars.len(),
            entries@.len() == i,
            forall|k: int|
                0 <= k < i ==> (#[trigger] entries@[k]).0@ == vars@[k].locatee@ && entries@[k].1
                    == vars@[k].span,
        decreases vars.len() - i,
    {
        entries.push((vars[i].locatee.clone(), vars[i].span));
        i += 1;
    }
    assert(names_of(entries@) =~= tvar_names(vars@));
    entries
}

/// The names and spans of a list of parameters.
fn param_entries<T>(params: &Vec<(LExprVar, T)>) -> (entries: Vec<(Ident, Span)>)
    ensures
        names_of(entries@) == param_names(params@),
        entries@.len() == params@.len(),
        forall|i: int| 0 <= i < params@.len() ==> (#[trigger] entries@[i]).1 == params@[i].0.span,
{
    let mut entries: Vec<(Ident, Span)> = Vec::new();
    let mut i: usize = 0;
    while i < params.len()
        invariant
            i <= params.len(),
            entries@.len() == i,
            forall|k: int|
                0 <= k < i ==> (#[trigger] entries@[k]).0@ == params@[k].0.locatee@
                    && entries@[k].1 == params@[k].0.span,
        decreases params.len() - i,
    {
        entries.push((params[i].0.locatee.clone(), params[i].0.span));
        i += 1;
    }
    assert(names_of(entries@) =~= param_names(params@));
    entries
}

/// The error for a type variable that is bound twice, if there is one.
fn check_unique_tvars(vars: &Vec<LTypeVar>) -> (r: Result<(), LError>)
    ensures
        match r {
            Ok(_) => unique_or(tvar_names(vars@), tvar_spans(vars@), Binder::TypeVar) is None,
            Err(e) => unique_or(tvar_names(vars@), tvar_spans(vars@), Binder::TypeVar) == Some(
                lerror_view(e),
            ),
        },
{
    let entries = tvar_entries(vars);
    match find_duplicate(&entries) {
        Some((first, second)) => Err(
            Located::new(
                Error::DuplicateTypeVar {
                    var: entries[second].0.clone(),
                    original: entries[first].1,
                },
                entries[second].1,
            ),
        ),
        None => Ok(()),
    }
}

/// The error for a parameter that is bound twice, if there is one.
fn check_unique_params<T>(params: &Vec<(LExprVar, T)>, binder: Binder) -> (r: Result<(), LError>)
    requires
        binder != Binder::TypeVar,
    ensures
        match r {
            Ok(_) => unique_or(param_names(params@), param_spans(params@), binder) is None,
            Err(e) => unique_or(param_names(params@), param_spans(params@), binder) == Some(
                lerror_view(e),
            ),
        },
{
    let entries = param_entries(params);
    match find_duplicate(&entries) {
        Some((first, second)) => {
            let var = entries[second].0.clone();
            let original = entries[first].1;
            let error = match binder {
                Binder::Param => Error::DuplicateParam { var, original },
                _ => Error::DuplicateExprVar { var, original },
            };
            Err(Located::new(error, entries[second].1))
        },
        None => Ok(()),
    }
}

impl<'a> TypeEnv<'a> {
    /// Number of variables in scope.
    pub closed spec fn depth(&self) -> nat {
        self.expr_vars@.len()
    }

    /// Brings a variable into scope.
    fn bind(&mut self, name: Ident, typ: RcType)
        ensures
            final(self)@ == old(self)@.bind(name@, typ@),
            final(self).depth() == old(self).depth() + 1,
    {
        self.expr_vars.push((name, typ));
        assert(fields_view(self.expr_vars@) =~= fields_view(old(self).expr_vars@).push(
            (name@, typ@),
        ));
    }

    /// Takes the `count` innermost variables out of scope.
    fn unbind(&mut self, count: usize)
        requires
            count <= old(self).depth(),
        ensures
            final(self)@ == (SpecTypeEnv {
                expr_vars: old(self)@.expr_vars.take(old(self).depth() - count),
                ..old(self)@
            }),
            final(self).depth() == old(self).depth() - count,
    {
        let len = self.expr_vars.len() - count;
        self.expr_vars.truncate(len);
        assert(fields_view(self.expr_vars@) =~= fields_view(old(self).expr_vars@).take(
            len as int,
        ));
    }

    /// Brings the parameters into scope with the types at their positions.
    fn bind_params<T>(&mut self, params: &Vec<(LExprVar, T)>, types: &Vec<RcType>)
        requires
            params@.len() == types@.len(),
        ensures
            final(self)@ == old(self)@.bind_all(zip(param_names(params@), types_view(types@))),
            final(self).depth() == old(self).depth() + params@.len(),
    {
        let ghost start = self@;
        let ghost vars = zip(param_names(params@), types_view(types@));
        let mut i: usize = 0;
        assert(start.expr_vars + vars.take(0) =~= start.expr_vars);
        while i < params.len()
            invariant
                i <= params.len(),
                params@.len() == types@.len(),
                vars == zip(param_names(params@), types_view(types@)),
                self@ == start.bind_all(vars.take(i as int)),
                self.depth() == old(self).depth() + i,
            decreases params.len() - i,
        {
            let ghost before = self@;
            self.bind(params[i].0.locatee.clone(), types[i].clone());
            assert(before.expr_vars.push(vars[i as int]) =~= start.expr_vars + vars.take(i + 1));
            i += 1;
        }
        assert(vars.take(params.len() as int) =~= vars);
    }
}

/// Position of the first parameter without a type annotation.
fn unannotated(params: &Vec<(LExprVar, Option<LType>)>) -> (found: Option<usize>)
    ensures
        match found {
            Some(i) => i < params@.len() && first_unannotated(params@) == Some(i as int),
            None => first_unannotated(params@) is None,
        },
{
    let mut i: usize = 0;
    assert(params@.take(0) =~= Seq::empty());
    while i < params.len()
        invariant
            i <= params.len(),
            first_unannotated(params@.take(i as int)) is None,
        decreases params.len() - i,
    {
        proof {
            assert(params@.take(i + 1).drop_last() =~= params@.take(i as int));
            assert(params@.take(i + 1).last() == params@[i as int]);
        }
        if params[i].1.is_none() {
            proof {
                lemma_first_unannotated_prefix(params@, i + 1);
            }
            return Some(i);
        }
        i += 1;
    }
    assert(params@.take(params.len() as int) =~= params@);
    None
}

/// The types that the annotations of the parameters of a lambda stand for.
fn check_lam_params(env: &KindEnv, params: &Vec<(LExprVar, Option<LType>)>) -> (r: Result<
    Vec<Option<RcType>>,
    LError,
>)
    ensures
        match r {
            Ok(annotations) => lam_annotations(env@, params@) == Ok::<
                Seq<Option<SpecType>>,
                SpecLError,
            >(payloads_view(annotations@)),
            Err(e) => lam_annotations(env@, params@) == Err::<Seq<Option<SpecType>>, SpecLError>(
                lerror_view(e),
            ),
        },
{
    let ghost results = annotation_each(env@, params@);
    let mut annotations: Vec<Option<RcType>> = Vec::new();
    let mut i: usize = 0;
    assert(results.take(0) =~= Seq::empty());
    assert(payloads_view(annotations@) =~= Seq::empty());
    while i < params.len()
        invariant
            i <= params.len(),
            results == annotation_each(env@, params@),
            sequence(results.take(i as int)) == Ok::<Seq<Option<SpecType>>, SpecLError>(
                payloads_view(annotations@),
            ),
        decreases params.len() - i,
    {
        proof {
            lemma_sequence_step(results, i as int);
        }
        let annotation = match &params[i].1 {
            Some(typ) => match resolve(env, typ) {
                Err(e) => {
                    proof {
                        lemma_sequence_prefix(results, i + 1);
                    }
                    return Err(e);
                },
                Ok(typ) => Some(typ),
            },
            None => None,
        };
        let ghost before = payloads_view(annotations@);
        let ghost added = payload_view(annotation);
        annotations.push(annotation);
        assert(payloads_view(annotations@) =~= before.push(added));
        i += 1;
    }
    assert(results.take(params.len() as int) =~= results);
    match check_unique_params(params, Binder::Param) {
        Err(e) => Err(e),
        Ok(()) => Ok(annotations),
    }
}

/// Taking variables out of scope undoes bringing them into scope.
proof fn lemma_scope_restored(start: SpecTypeEnv, vars: Seq<(Seq<char>, SpecType)>)
    ensures
        (SpecTypeEnv {
            expr_vars: start.bind_all(vars).expr_vars.take(
                start.bind_all(vars).expr_vars.len() - vars.len(),
            ),
            ..start.bind_all(vars)
        }) == start,
        start.bind_all(seq![]) == start,
        forall|name: Seq<char>, typ: SpecType| #[trigger]
            start.bind(name, typ) == start.bind_all(seq![(name, typ)]),
{
    assert((start.expr_vars + vars).take(start.expr_vars.len() as int) =~= start.expr_vars);
    assert(start.expr_vars + seq![] =~= start.expr_vars);
    assert forall|name: Seq<char>, typ: SpecType| #[trigger]
        start.bind(name, typ) == start.bind_all(seq![(name, typ)]) by {
        assert(start.expr_vars.push((name, typ)) =~= start.expr_vars + seq![(name, typ)]);
    }
}

/// The types of fully annotated parameters.
fn unwrap_annotations(annotations: &Vec<Option<RcType>>) -> (types: Vec<RcType>)
    requires
        forall|i: int| 0 <= i < annotations@.len() ==> (#[trigger] annotations@[i]) is Some,
    ensures
        types_view(types@) == annotated_types(payloads_view(annotations@)),
{
    let mut types: Vec<RcType> = Vec::new();
    let mut i: usize = 0;
    while i < annotations.len()
        invariant
            i <= annotations.len(),
            types@.len() == i,
            forall|k: int| 0 <= k < annotations@.len() ==> (#[trigger] annotations@[k]) is Some,
            forall|k: int| 0 <= k < i ==> (#[trigger] types@[k])@ == annotations@[k]->Some_0@,
        decreases annotations.len() - i,
    {
        match &annotations[i] {
            Some(typ) => {
                types.push(typ.clone());
            },
            None => {},
        }
        i += 1;
    }
    assert(types_view(types@) =~= annotated_types(payloads_view(annotations@)));
    types
}

/// Brings the payload of the constructor of a branch into scope and gives
/// the number of variables that it has bound.
fn enter_branch(
    env: &mut TypeEnv,
    branch: &Branch,
    scrut_type: &RcType,
    constrs: &Vec<(Ident, Option<RcType>)>,
) -> (r: Result<usize, LError>)
    ensures
        match r {
            Ok(bound) => {
                &&& model::branch_env(old(env)@, *branch, scrut_type@, constrs_view(constrs@))
                    == Ok::<SpecTypeEnv, SpecLError>(final(env)@)
                &&& final(env).depth() == old(env).depth() + bound
                &&& (SpecTypeEnv {
                    expr_vars: final(env)@.expr_vars.take(old(env).depth() as int),
                    ..final(env)@
                }) == old(env)@
            },
            Err(e) => {
                &&& model::branch_env(old(env)@, *branch, scrut_type@, constrs_view(constrs@))
                    == Err::<SpecTypeEnv, SpecLError>(lerror_view(e))
                &&& final(env)@ == old(env)@
                &&& final(env).depth() == old(env).depth()
            },
        },
{
    proof {
        lemma_names_of_constrs(constrs@);
        lemma_scope_restored(env@, seq![]);
    }
    let constr = &branch.pattern.locatee.constr;
    match find_first(constrs, constr) {
        None => Err(
            Located::new(
                Error::BadBranch(scrut_type.clone(), constr.clone()),
                branch.pattern.span,
            ),
        ),
        Some(i) => match (&branch.pattern.locatee.binder, &constrs[i].1) {
            (Some(binder), Some(payload)) => {
                proof {
                    lemma_scope_restored(env@, seq![(binder.locatee@, payload@)]);
                }
                env.bind(binder.locatee.clone(), payload.clone());
                Ok(1)
            },
            (None, _) => {
                assert(env@.expr_vars.take(env.depth() as int) =~= env@.expr_vars);
                Ok(0)
            },
            (Some(_), None) => Err(
                Located::new(
                    Error::BadBranch(scrut_type.clone(), constr.clone()),
                    branch.pattern.span,
                ),
            ),
        },
    }
}

/// The type of the body of a branch.
fn infer_branch(
    env: &mut TypeEnv,
    branch: &Branch,
    scrut_type: &RcType,
    constrs: &Vec<(Ident, Option<RcType>)>,
) -> (r: Result<RcType, LError>)
    ensures
        final(env)@ == old(env)@,
        final(env).depth() == old(env).depth(),
        type_result(r) == model::infer_branch(
            old(env)@,
            *branch,
            scrut_type@,
            constrs_view(constrs@),
        ),
    decreases branch, 0nat, 0nat,
{
    match enter_branch(env, branch, scrut_type, constrs) {
        Err(e) => Err(e),
        Ok(bound) => {
            let r = infer(env, &branch.body);
            env.unbind(bound);
            r
        },
    }
}

/// Holds the body of a branch against `expected`.
fn check_branch(
    env: &mut TypeEnv,
    branch: &Branch,
    scrut_type: &RcType,
    constrs: &Vec<(Ident, Option<RcType>)>,
    expected: &RcType,
) -> (r: Result<(), LError>)
    ensures
        final(env)@ == old(env)@,
        final(env).depth() == old(env).depth(),
        unit_result(r) == model::check_branch(
            old(env)@,
            *branch,
            scrut_type@,
            constrs_view(constrs@),
            expected@,
        ),
    decreases branch, 0nat, 0nat,
{
    match enter_branch(env, branch, scrut_type, constrs) {
        Err(e) => Err(e),
        Ok(bound) => {
            let r = check(env, &branch.body, expected);
            env.unbind(bound);
            r
        },
    }
}

/// `check_branch` for each branch from position `from` on.
fn check_branches(
    env: &mut TypeEnv,
    branches: &Vec<Branch>,
    from: usize,
    scrut_type: &RcType,
    constrs: &Vec<(Ident, Option<RcType>)>,
    expected: &RcType,
) -> (r: Result<(), LError>)
    requires
        from <= branches@.len(),
    ensures
        final(env)@ == old(env)@,
        final(env).depth() == old(env).depth(),
        match r {
            Ok(_) => sequence(
                check_branch_each(
                    old(env)@,
                    branches@,
                    from as nat,
                    scrut_type@,
                    constrs_view(constrs@),
                    expected@,
                ),
            ) is Ok,
            Err(e) => sequence(
                check_branch_each(
                    old(env)@,
                    branches@,
                    from as nat,
                    scrut_type@,
                    constrs_view(constrs@),
                    expected@,
                ),
            ) == Err::<Seq<()>, SpecLError>(lerror_view(e)),
        },
    decreases branches, 0nat, 1nat,
{
    let ghost results = check_branch_each(
        env@,
        branches@,
        from as nat,
        scrut_type@,
        constrs_view(constrs@),
        expected@,
    );
    let mut i: usize = from;
    assert(results.take(0) =~= Seq::empty());
    while i < branches.len()
        invariant
            from <= i <= branches.len(),
            env@ == old(env)@,
            env.depth() == old(env).depth(),
            results == check_branch_each(
                old(env)@,
                branches@,
                from as nat,
                scrut_type@,
                constrs_view(constrs@),
                expected@,
            ),
            sequence(results.take(i - from)) is Ok,
        decreases branches.len() - i,
    {
        proof {
            lemma_sequence_step(results, i - from);
        }
        match check_branch(env, &branches[i], scrut_type, constrs, expected) {
            Err(e) => {
                proof {
                    lemma_sequence_prefix(results, i - from + 1);
                }
                return Err(e);
            },
            Ok(()) => {},
        }
        i += 1;
    }
    assert(results.take(branches.len() - from) =~= results);
    Ok(())
}

/// `check` for each expression against the type at its position.
fn check_args(env: &mut TypeEnv, args: &Vec<LExpr>, params: &Vec<RcType>) -> (r: Result<
    (),
    LError,
>)
    requires
        args@.len() == params@.len(),
    ensures
        final(env)@ == old(env)@,
        final(env).depth() == old(env).depth(),
        match r {
            Ok(_) => sequence(check_each(old(env)@, args@, types_view(params@))) is Ok,
            Err(e) => sequence(check_each(old(env)@, args@, types_view(params@))) == Err::<
                Seq<()>,
                SpecLError,
            >(lerror_view(e)),
        },
    decreases args, 0nat, 1nat,
{
    let ghost results = check_each(env@, args@, types_view(params@));
    let mut i: usize = 0;
    assert(results.take(0) =~= Seq::empty());
    while i < args.len()
        invariant
            i <= args.len(),
            args@.len() == params@.len(),
            env@ == old(env)@,
            env.depth() == old(env).depth(),
            results == check_each(old(env)@, args@, types_view(params@)),
            sequence(results.take(i as int)) is Ok,
        decreases args.len() - i,
    {
        proof {
            lemma_sequence_step(results, i as int);
        }
        match check(env, &args[i], &params[i]) {
            Err(e) => {
                proof {
                    lemma_sequence_prefix(results, i + 1);
                }
                return Err(e);
            },
            Ok(()) => {},
        }
        i += 1;
    }
    assert(results.take(args.len() as int) =~= results);
    Ok(())
}

/// `infer` for the expression of each field, with its name.
fn infer_fields(env: &mut TypeEnv, fields: &Vec<(LExprVar, LExpr)>) -> (r: Result<
    Vec<(Ident, RcType)>,
    LError,
>)
    ensures
        final(env)@ == old(env)@,
        final(env).depth() == old(env).depth(),
        match r {
            Ok(typed) => sequence(infer_field_each(old(env)@, fields@)) == Ok::<
                Seq<(Seq<char>, SpecType)>,
                SpecLError,
            >(fields_view(typed@)),
            Err(e) => sequence(infer_field_each(old(env)@, fields@)) == Err::<
                Seq<(Seq<char>, SpecType)>,
                SpecLError,
            >(lerror_view(e)),
        },
    decreases fields, 0nat, 1nat,
{
    let ghost results = infer_field_each(env@, fields@);
    let mut typed: Vec<(Ident, RcType)> = Vec::new();
    let mut i: usize = 0;
    assert(results.take(0) =~= Seq::empty());
    assert(fields_view(typed@) =~= Seq::empty());
    while i < fields.len()
        invariant
            i <= fields.len(),
            env@ == old(env)@,
            env.depth() == old(env).depth(),
            results == infer_field_each(old(env)@, fields@),
            sequence(results.take(i as int)) == Ok::<Seq<(Seq<char>, SpecType)>, SpecLError>(
                fields_view(typed@),
            ),
        decreases fields.len() - i,
    {
        proof {
            lemma_sequence_step(results, i as int);
        }
        match infer(env, &fields[i].1) {
            Err(e) => {
                proof {
                    lemma_sequence_prefix(results, i + 1);
                }
                return Err(e);
            },
            Ok(typ) => {
                let ghost before = fields_view(typed@);
                let name = fields[i].0.locatee.clone();
                typed.push((name, typ));
                assert(fields_view(typed@) =~= before.push((name@, typ@)));
            },
        }
        i += 1;
    }
    assert(results.take(fields.len() as int) =~= results);
    Ok(typed)
}

/// The type of the expression that a `let` binds.
fn check_let_bindee(env: &mut TypeEnv, annotation: &Option<LType>, bindee: &LExpr) -> (r: Result<
    RcType,
    LError,
>)
    ensures
        final(env)@ == old(env)@,
        final(env).depth() == old(env).depth(),
        type_result(r) == model::let_bindee(old(env)@, *annotation, *bindee),
    decreases bindee, 2nat, 0nat,
{
    match annotation {
        Some(annotation) => match resolve(&env.kind_env, annotation) {
            Err(e) => Err(e),
            Ok(typ) => match check(env, bindee, &typ) {
                Err(e) => Err(e),
                Ok(()) => Ok(typ),
            },
        },
        None => infer(env, bindee),
    }
}

/// The name of the function that an expression in function position names.
fn applied(func: &LExpr) -> (name: Option<Ident>)
    ensures
        match name {
            Some(name) => applied_name(*func) == Some(name@),
            None => applied_name(*func) is None,
        },
{
    match &func.locatee {
        Expr::Var(var) => Some(var.clone()),
        Expr::FunInst(func, _) => Some(func.locatee.clone()),
        _ => None,
    }
}

fn arithmetic(op: OpCode) -> (r: bool)
    ensures
        r == is_arithmetic(op),
{
    match op {
        OpCode::Add | OpCode::Sub | OpCode::Mul | OpCode::Div => true,
        _ => false,
    }
}

/// The type of an expression.
#[verifier::rlimit(50)]
pub fn infer(env: &mut TypeEnv, expr: &LExpr) -> (r: Result<RcType, LError>)
    ensures
        final(env)@ == old(env)@,
        final(env).depth() == old(env).depth(),
        type_result(r) == model::infer(old(env)@, *expr),
    decreases expr, 0nat, 0nat,
{
    let span = expr.span;
    let ghost start = env@;
    match &expr.locatee {
        Expr::Error => Ok(RcType::new(Type::Error)),
        Expr::Var(var) => {
            proof {
                lemma_names_of_fields(env.expr_vars@);
                lemma_names_of_defs(env.funcs@);
            }
            match find_last(&env.expr_vars, var) {
                Some(i) => Ok(env.expr_vars[i].1.clone()),
                None => match find_last(env.funcs, var) {
                    Some(i) => {
                        let arity = env.funcs[i].1.params.len();
                        if arity == 0 {
                            Ok(env.funcs[i].1.body.clone())
                        } else {
                            Err(
                                Located::new(
                                    Error::GenericFuncArityMismatch {
                                        expr_var: var.clone(),
                                        expected: arity,
                                        found: 0,
                                    },
                                    span,
                                ),
                            )
                        }
                    },
                    None => Err(Located::new(Error::UnknownExprVar(var.clone()), span)),
                },
            }
        },
        Expr::Num(_) => Ok(RcType::new(Type::Int)),
        Expr::Bool(_) => Ok(RcType::new(Type::Bool)),
        Expr::Lam(params, body) => {
            proof {
                lemma_first_unannotated(params@);
            }
            match unannotated(params) {
                Some(i) => Err(
                    Located::new(
                        Error::ParamNeedsTypeAnn(params[i].0.locatee.clone()),
                        params[i].0.span,
                    ),
                ),
                None => match check_lam_params(&env.kind_env, params) {
                    Err(e) => Err(e),
                    Ok(annotations) => {
                        proof {
                            lemma_sequence_all_some(env.kind_env@, params@);
                            assert forall|i: int| 0 <= i < annotations@.len() implies (
                            #[trigger] annotations@[i]) is Some by {
                                assert(payloads_view(annotations@)[i] is Some);
                            }
                        }
                        let types = unwrap_annotations(&annotations);
                        proof {
                            lemma_scope_restored(
                                start,
                                zip(param_names(params@), types_view(types@)),
                            );
                        }
                        env.bind_params(params, &types);
                        let result = infer(env, body);
                        env.unbind(params.len());
                        match result {
                            Err(e) => Err(e),
                            Ok(result) => Ok(RcType::new(Type::Fun(types, result))),
                        }
                    },
                },
            }
        },
        Expr::App(func, args) => {
            match infer(env, func) {
                Err(e) => Err(e),
                Ok(func_type) => {
                    let normalized = func_type.weak_normalize(env.defs);
                    match normalized.get() {
                        Type::Fun(params, result) => {
                            if params.len() == args.len() {
                                match check_args(env, args, params) {
                                    Err(e) => Err(e),
                                    Ok(()) => Ok(result.clone()),
                                }
                            } else {
                                Err(
                                    Located::new(
                                        Error::BadApp {
                                            func: applied(func),
                                            func_type,
                                            num_args: args.len(),
                                        },
                                        span,
                                    ),
                                )
                            }
                        },
                        _ => Err(
                            Located::new(
                                Error::BadApp {
                                    func: applied(func),
                                    func_type,
                                    num_args: args.len(),
                                },
                                span,
                            ),
                        ),
                    }
                },
            }
        },
        Expr::BinOp(lhs, op, rhs) => {
            if arithmetic(*op) {
                let number = RcType::new(Type::Int);
                match check(env, lhs, &number) {
                    Err(e) => Err(e),
                    Ok(()) => match check(env, rhs, &number) {
                        Err(e) => Err(e),
                        Ok(()) => Ok(number),
                    },
                }
            } else {
                match infer(env, lhs) {
                    Err(e) => Err(e),
                    Ok(typ) => match check(env, rhs, &typ) {
                        Err(e) => Err(e),
                        Ok(()) => Ok(RcType::new(Type::Bool)),
                    },
                }
            }
        },
        Expr::FunInst(var, types) => {
            match resolve_list(&env.kind_env, types) {
                Err(e) => Err(e),
                Ok(types) => {
                    proof {
                        lemma_names_of_fields(env.expr_vars@);
                        lemma_names_of_defs(env.funcs@);
                    }
                    let num_types = types.len();
                    if find_last(&env.expr_vars, &var.locatee).is_some() {
                        Err(
                            Located::new(
                                Error::GenericFuncArityMismatch {
                                    expr_var: var.locatee.clone(),
                                    expected: 0,
                                    found: num_types,
                                },
                                span,
                            ),
                        )
                    } else {
                        match find_last(env.funcs, &var.locatee) {
                            Some(i) => {
                                let arity = env.funcs[i].1.params.len();
                                if arity == num_types {
                                    Ok(env.funcs[i].1.instantiate(&types))
                                } else {
                                    Err(
                                        Located::new(
                                            Error::GenericFuncArityMismatch {
                                                expr_var: var.locatee.clone(),
                                                expected: arity,
                                                found: num_types,
                                            },
                                            span,
                                        ),
                                    )
                                }
                            },
                            None => Err(
                                Located::new(Error::UnknownExprVar(var.locatee.clone()), span),
                            ),
                        }
                    }
                },
            }
        },
        Expr::Let(binder, annotation, bindee, body) => {
            match check_let_bindee(env, annotation, bindee) {
                Err(e) => Err(e),
                Ok(typ) => {
                    proof {
                        lemma_scope_restored(start, seq![(binder.locatee@, typ@)]);
                    }
                    env.bind(binder.locatee.clone(), typ);
                    let r = infer(env, body);
                    env.unbind(1);
                    r
                },
            }
        },
        Expr::If(cond, then, elze) => {
            match check(env, cond, &RcType::new(Type::Bool)) {
                Err(e) => Err(e),
                Ok(()) => match infer(env, then) {
                    Err(e) => Err(e),
                    Ok(typ) => match check(env, elze, &typ) {
                        Err(e) => Err(e),
                        Ok(()) => Ok(typ),
                    },
                },
            }
        },
        Expr::Record(fields) => {
            match infer_fields(env, fields) {
                Err(e) => Err(e),
                Ok(fields) => Ok(RcType::new(Type::Record(fields))),
            }
        },
        Expr::Proj(record, field) => {
            match infer(env, record) {
                Err(e) => Err(e),
                Ok(record_type) => {
                    let normalized = record_type.weak_normalize(env.defs);
                    match normalized.get() {
                        Type::Record(fields) => {
                            proof {
                                lemma_names_of_fields(fields@);
                            }
                            match find_first(fields, &field.locatee) {
                                Some(i) => Ok(fields[i].1.clone()),
                                None => Err(
                                    Located::new(
                                        Error::BadRecordProj {
                                            record_type,
                                            field: field.locatee.clone(),
                                        },
                                        span,
                                    ),
                                ),
                            }
                        },
                        _ => Err(
                            Located::new(
                                Error::BadRecordProj { record_type, field: field.locatee.clone() },
                                span,
                            ),
                        ),
                    }
                },
            }
        },
        Expr::Variant(_, _) => Err(Located::new(Error::TypeAnnsNeeded, span)),
        Expr::Match(scrut, branches) => {
            match infer(env, scrut) {
                Err(e) => Err(e),
                Ok(scrut_type) => {
                    let normalized = scrut_type.weak_normalize(env.defs);
                    match normalized.get() {
                        Type::Variant(constrs) => {
                            if branches.len() == 0 {
                                Err(Located::new(Error::EmptyMatch, span))
                            } else {
                                match infer_branch(env, &branches[0], &scrut_type, constrs) {
                                    Err(e) => Err(e),
                                    Ok(typ) => match check_branches(
                                        env,
                                        branches,
                                        1,
                                        &scrut_type,
                                        constrs,
                                        &typ,
                                    ) {
                                        Err(e) => Err(e),
                                        Ok(()) => Ok(typ),
                                    },
                                }
                            }
                        },
                        _ => Err(Located::new(Error::BadMatch(scrut_type), span)),
                    }
                },
            }
        },
    }
}

/// Annotations that are all present resolve to types that are all
/// present.
proof fn lemma_sequence_all_some(env: SpecKindEnv, params: Seq<(LExprVar, Option<LType>)>)
    requires
        all_annotated(params),
    ensures
        lam_annotations(env, params) matches Ok(annotations) ==> annotations.len() == params.len()
            && forall|i: int| 0 <= i < annotations.len() ==> (#[trigger] annotations[i]) is Some,
{
    let results = annotation_each(env, params);
    lemma_sequence_values(results);
    if sequence(results) is Ok {
        let annotations = sequence(results)->Ok_0;
        assert forall|i: int| 0 <= i < annotations.len() implies (
        #[trigger] annotations[i]) is Some by {
            assert(params[i].1 is Some);
            assert(results[i] == Ok::<Option<SpecType>, SpecLError>(annotations[i]));
        }
    }
}

/// The values of a sequence of results are the values of the results.
pub proof fn lemma_sequence_values<T>(results: Seq<Result<T, SpecLError>>)
    ensures
        sequence(results) matches Ok(values) ==> values.len() == results.len() && forall|i: int|
            0 <= i < results.len() ==> results[i] == Ok::<T, SpecLError>(values[i]),
    decreases results.len(),
{
    if results.len() > 0 {
        lemma_sequence_values(results.drop_last());
        if sequence(results) is Ok {
            let values = sequence(results)->Ok_0;
            let init = sequence(results.drop_last())->Ok_0;
            assert forall|i: int| 0 <= i < results.len() implies results[i] == Ok::<
                T,
                SpecLError,
            >(values[i]) by {
                if i < results.len() - 1 {
                    assert(results.drop_last()[i] == results[i]);
                    assert(values[i] == init[i]);
                }
            }
        }
    }
}

/// Holds the inferred type of an expression against `expected`.
fn check_inferred(env: &mut TypeEnv, expr: &LExpr, expected: &RcType) -> (r: Result<(), LError>)
    ensures
        final(env)@ == old(env)@,
        final(env).depth() == old(env).depth(),
        unit_result(r) == model::check_inferred(old(env)@, *expr, expected@),
    decreases expr, 0nat, 1nat,
{
    match infer(env, expr) {
        Err(e) => Err(e),
        Ok(found) => {
            if found.equiv(expected, env.defs) {
                Ok(())
            } else {
                Err(
                    Located::new(
                        Error::TypeMismatch { expected: expected.clone(), found },
                        expr.span,
                    ),
                )
            }
        },
    }
}

/// The types that the parameters of a checked lambda get.
fn check_params(
    env: &TypeEnv,
    params: &Vec<(LExprVar, Option<LType>)>,
    annotations: &Vec<Option<RcType>>,
    expected: &Vec<RcType>,
) -> (r: Result<Vec<RcType>, LError>)
    requires
        annotations@.len() == expected@.len(),
        annotations@.len() == params@.len(),
        forall|i: int|
            0 <= i < params@.len() ==> ((#[trigger] params@[i]).1 is Some <==> annotations@[i]
                is Some),
    ensures
        types_result(r) == sequence(
            checked_param_each(
                env@,
                params@,
                payloads_view(annotations@),
                types_view(expected@),
            ),
        ),
{
    let ghost results = checked_param_each(
        env@,
        params@,
        payloads_view(annotations@),
        types_view(expected@),
    );
    let mut types: Vec<RcType> = Vec::new();
    let mut i: usize = 0;
    assert(results.take(0) =~= Seq::empty());
    assert(types_view(types@) =~= Seq::empty());
    while i < annotations.len()
        invariant
            i <= annotations.len(),
            annotations@.len() == expected@.len(),
            annotations@.len() == params@.len(),
            forall|i: int|
                0 <= i < params@.len() ==> ((#[trigger] params@[i]).1 is Some <==> annotations@[i]
                    is Some),
            results == checked_param_each(
                env@,
                params@,
                payloads_view(annotations@),
                types_view(expected@),
            ),
            sequence(results.take(i as int)) == Ok::<Seq<SpecType>, SpecLError>(
                types_view(types@),
            ),
        decreases annotations.len() - i,
    {
        proof {
            lemma_sequence_step(results, i as int);
        }
        let typ = match &annotations[i] {
            Some(found) => {
                if found.equiv(&expected[i], env.defs) {
                    found.clone()
                } else {
                    proof {
                        lemma_sequence_prefix(results, i + 1);
                    }
                    assert(params@[i as int].1 is Some);
                    let span = match &params[i].1 {
                        Some(annotation) => annotation.span,
                        None => params[i].0.span,
                    };
                    return Err(
                        Located::new(
                            Error::ParamTypeMismatch {
                                param: params[i].0.locatee.clone(),
                                expected: expected[i].clone(),
                                found: found.clone(),
                            },
                            span,
                        ),
                    );
                }
            },
            None => expected[i].clone(),
        };
        let ghost before = types_view(types@);
        types.push(typ);
        assert(types_view(types@) =~= before.push(typ@));
        i += 1;
    }
    assert(results.take(annotations.len() as int) =~= results);
    Ok(types)
}

/// Holds an expression against the type `expected`.
#[verifier::rlimit(50)]
pub fn check(env: &mut TypeEnv, expr: &LExpr, expected: &RcType) -> (r: Result<(), LError>)
    ensures
        final(env)@ == old(env)@,
        final(env).depth() == old(env).depth(),
        unit_result(r) == model::check(old(env)@, *expr, expected@),
    decreases expr, 1nat, 0nat,
{
    let span = expr.span;
    let ghost start = env@;
    match &expr.locatee {
        Expr::Lam(params, body) => {
            match check_lam_params(&env.kind_env, params) {
                Err(e) => Err(e),
                Ok(annotations) => {
                    proof {
                        lemma_sequence_values(annotation_each(env.kind_env@, params@));
                    }
                    let normalized = expected.weak_normalize(env.defs);
                    match normalized.get() {
                        Type::Fun(param_types, result) => {
                            if params.len() == param_types.len() {
                                proof {
                                    assert forall|i: int|
                                        0 <= i < params@.len() implies ((
                                    #[trigger] params@[i]).1 is Some <==> annotations@[i]
                                        is Some) by {
                                        assert(annotation_each(env.kind_env@, params@)[i]
                                            == Ok::<Option<SpecType>, SpecLError>(
                                            payloads_view(annotations@)[i],
                                        ));
                                    }
                                }
                                match check_params(env, params, &annotations, param_types) {
                                    Err(e) => Err(e),
                                    Ok(types) => {
                                        proof {
                                            lemma_sequence_values(
                                                checked_param_each(
                                                    start,
                                                    params@,
                                                    payloads_view(annotations@),
                                                    types_view(param_types@),
                                                ),
                                            );
                                            lemma_scope_restored(
                                                start,
                                                zip(param_names(params@), types_view(types@)),
                                            );
                                        }
                                        env.bind_params(params, &types);
                                        let r = check(env, body, result);
                                        env.unbind(params.len());
                                        r
                                    },
                                }
                            } else {
                                Err(
                                    Located::new(
                                        Error::BadLam(expected.clone(), params.len()),
                                        span,
                                    ),
                                )
                            }
                        },
                        _ => Err(
                            Located::new(Error::BadLam(expected.clone(), params.len()), span),
                        ),
                    }
                },
            }
        },
        Expr::Let(binder, annotation, bindee, body) => {
            match check_let_bindee(env, annotation, bindee) {
                Err(e) => Err(e),
                Ok(typ) => {
                    proof {
                        lemma_scope_restored(start, seq![(binder.locatee@, typ@)]);
                    }
                    env.bind(binder.locatee.clone(), typ);
                    let r = check(env, body, expected);
                    env.unbind(1);
                    r
                },
            }
        },
        Expr::If(cond, then, elze) => {
            match check(env, cond, &RcType::new(Type::Bool)) {
                Err(e) => Err(e),
                Ok(()) => match check(env, then, expected) {
                    Err(e) => Err(e),
                    Ok(()) => check(env, elze, expected),
                },
            }
        },
        Expr::Variant(con, arg) => {
            let normalized = expected.weak_normalize(env.defs);
            match normalized.get() {
                Type::Variant(constrs) => {
                    proof {
                        lemma_names_of_constrs(constrs@);
                    }
                    match find_first(constrs, &con.locatee) {
                        None => Err(
                            Located::new(
                                Error::BadVariantConstr(expected.clone(), con.locatee.clone()),
                                span,
                            ),
                        ),
                        Some(i) => match (arg, &constrs[i].1) {
                            (Some(arg), Some(payload)) => check(env, arg, payload),
                            (None, None) => Ok(()),
                            _ => Err(
                                Located::new(
                                    Error::BadVariantConstr(expected.clone(), con.locatee.clone()),
                                    span,
                                ),
                            ),
                        },
                    }
                },
                _ => Err(
                    Located::new(
                        Error::UnexpectedVariantType(expected.clone(), con.locatee.clone()),
                        span,
                    ),
                ),
            }
        },
        Expr::Match(scrut, branches) => {
            match infer(env, scrut) {
                Err(e) => Err(e),
                Ok(scrut_type) => {
                    let normalized = scrut_type.weak_normalize(env.defs);
                    match normalized.get() {
                        Type::Variant(constrs) => {
                            if branches.len() == 0 {
                                Err(Located::new(Error::EmptyMatch, span))
                            } else {
                                check_branches(env, branches, 0, &scrut_type, constrs, expected)
                            }
                        },
                        _ => Err(Located::new(Error::BadMatch(scrut_type), span)),
                    }
                },
            }
        },
        _ => check_inferred(env, expr, expected),
    }
}

/// The model of a result that is a type scheme.
pub open spec fn scheme_result(r: Result<TypeScheme, LError>) -> Result<SpecScheme, SpecLError> {
    match r {
        Ok(scheme) => Ok(scheme@),
        Err(e) => Err(lerror_view(e)),
    }
}

/// The names of a list of type variables.
fn tvar_idents(vars: &Vec<LTypeVar>) -> (names: Vec<Ident>)
    ensures
        idents_view(names@) == tvar_names(vars@),
{
    let mut names: Vec<Ident> = Vec::new();
    let mut i: usize = 0;
    while i < vars.len()
        invariant
            i <= vars.len(),
            names@.len() == i,
            forall|k: int| 0 <= k < i ==> (#[trigger] names@[k])@ == vars@[k].locatee@,
        decreases vars.len() - i,
    {
        names.push(vars[i].locatee.clone());
        i += 1;
    }
    assert(idents_view(names@) =~= tvar_names(vars@));
    names
}

/// The types of a list of named types.
fn types_of_fields(fields: &Vec<(Ident, RcType)>) -> (types: Vec<RcType>)
    ensures
        types_view(types@) == types_of(fields_view(fields@)),
{
    let mut types: Vec<RcType> = Vec::new();
    let mut i: usize = 0;
    while i < fields.len()
        invariant
            i <= fields.len(),
            types@.len() == i,
            forall|k: int| 0 <= k < i ==> (#[trigger] types@[k])@ == fields@[k].1@,
        decreases fields.len() - i,
    {
        types.push(fields[i].1.clone());
        i += 1;
    }
    assert(types_view(types@) =~= types_of(fields_view(fields@)));
    types
}

impl TypeDecl {
    /// The definition that the declaration gives, where `arities` are the
    /// declared types with the numbers of their parameters.
    pub fn check(&self, arities: &Vec<(Ident, usize)>) -> (r: Result<TypeScheme, LError>)
        ensures
            scheme_result(r) == model::check_type_decl(arities_view(arities@), *self),
    {
        match check_unique_tvars(&self.params) {
            Err(e) => Err(e),
            Ok(()) => {
                let env = KindEnv { arities, type_vars: &self.params };
                match resolve(&env, &self.body) {
                    Err(e) => Err(e),
                    Ok(body) => Ok(TypeScheme { params: tvar_idents(&self.params), body }),
                }
            },
        }
    }
}

impl FuncDecl {
    /// The signature of the function.
    pub fn check_signature(&self, arities: &Vec<(Ident, usize)>) -> (r: Result<
        TypeScheme,
        LError,
    >)
        ensures
            scheme_result(r) == model::check_signature(arities_view(arities@), *self),
    {
        match check_unique_tvars(&self.type_params) {
            Err(e) => Err(e),
            Ok(()) => {
                let env = KindEnv { arities, type_vars: &self.type_params };
                match resolve_fields(&env, &self.expr_params) {
                    Err(e) => Err(e),
                    Ok(params) => match resolve(&env, &self.return_type) {
                        Err(e) => Err(e),
                        Ok(result) => Ok(
                            TypeScheme {
                                params: tvar_idents(&self.type_params),
                                body: RcType::new(Type::Fun(types_of_fields(&params), result)),
                            },
                        ),
                    },
                }
            },
        }
    }

    /// Holds the body of the function against its declared result type,
    /// where `defs` are the declared types and `funcs` the signatures of
    /// the declared functions.
    pub fn check(
        &self,
        arities: &Vec<(Ident, usize)>,
        defs: &Vec<(Ident, TypeScheme)>,
        funcs: &Vec<(Ident, TypeScheme)>,
    ) -> (r: Result<(), LError>)
        ensures
            unit_result(r) == model::check_func_decl(
                arities_view(arities@),
                defs_view(defs@),
                defs_view(funcs@),
                *self,
            ),
    {
        match check_unique_params(&self.expr_params, Binder::ExprVar) {
            Err(e) => Err(e),
            Ok(()) => {
                let kind_env = KindEnv { arities, type_vars: &self.type_params };
                match resolve_fields(&kind_env, &self.expr_params) {
                    Err(e) => Err(e),
                    Ok(expr_vars) => match resolve(&kind_env, &self.return_type) {
                        Err(e) => Err(e),
                        Ok(result) => {
                            let mut env = TypeEnv { kind_env, defs, funcs, expr_vars };
                            check(&mut env, &self.body, &result)
                        },
                    },
                }
            },
        }
    }
}

/// The models of the schemes of a list of named schemes.
pub open spec fn schemes_view(defs: Seq<(Ident, TypeScheme)>) -> Seq<SpecScheme> {
    Seq::new(defs.len(), |i: int| defs[i].1@)
}

/// The declarations behind a list of references.
pub open spec fn derefs<T>(refs: Seq<&T>) -> Seq<T> {
    Seq::new(refs.len(), |i: int| *refs[i])
}

/// The names of the declared types with their spans.
fn type_decl_entries(types: &Vec<&TypeDecl>) -> (names: Vec<(Ident, Span)>)
    ensures
        names@.len() == types@.len(),
        names_of(names@) == type_decl_names(derefs(types@)),
        forall|k: int| 0 <= k < types@.len() ==> (#[trigger] names@[k]).1 == types@[k].name.span,
{
    let mut names: Vec<(Ident, Span)> = Vec::new();
    let mut i: usize = 0;
    while i < types.len()
        invariant
            i <= types.len(),
            names@.len() == i,
            forall|k: int|
                0 <= k < i ==> (#[trigger] names@[k]).0@ == types@[k].name.locatee@ && names@[k].1
                    == types@[k].name.span,
        decreases types.len() - i,
    {
        names.push((types[i].name.locatee.clone(), types[i].name.span));
        i += 1;
    }
    assert(names_of(names@) =~= type_decl_names(derefs(types@)));
    names
}

/// The declared types with the numbers of their parameters.
fn type_decl_arities(types: &Vec<&TypeDecl>) -> (arities: Vec<(Ident, usize)>)
    ensures
        arities_view(arities@) == arities_of(derefs(types@)),
{
    let mut arities: Vec<(Ident, usize)> = Vec::new();
    let mut i: usize = 0;
    while i < types.len()
        invariant
            i <= types.len(),
            arities@.len() == i,
            forall|k: int|
                0 <= k < i ==> (#[trigger] arities@[k]).0@ == types@[k].name.locatee@
                    && arities@[k].1 == types@[k].params@.len(),
        decreases types.len() - i,
    {
        arities.push((types[i].name.locatee.clone(), types[i].params.len()));
        i += 1;
    }
    assert(arities_view(arities@) =~= arities_of(derefs(types@)));
    arities
}

/// The definitions of the declared types.
fn check_type_decls(types: &Vec<&TypeDecl>, arities: &Vec<(Ident, usize)>) -> (r: Result<
    Vec<(Ident, TypeScheme)>,
    LError,
>)
    ensures
        match r {
            Ok(defs) => sequence(type_decl_each(arities_view(arities@), derefs(types@))) == Ok::<
                Seq<SpecScheme>,
                SpecLError,
            >(schemes_view(defs@)) && defs_view(defs@) == named(
                type_decl_names(derefs(types@)),
                schemes_view(defs@),
            ),
            Err(e) => sequence(type_decl_each(arities_view(arities@), derefs(types@))) == Err::<
                Seq<SpecScheme>,
                SpecLError,
            >(lerror_view(e)),
        },
{
    let ghost results = type_decl_each(arities_view(arities@), derefs(types@));
    let mut defs: Vec<(Ident, TypeScheme)> = Vec::new();
    let mut i: usize = 0;
    assert(results.take(0) =~= Seq::empty());
    assert(schemes_view(defs@) =~= Seq::empty());
    while i < types.len()
        invariant
            i <= types.len(),
            results == type_decl_each(arities_view(arities@), derefs(types@)),
            defs@.len() == i,
            forall|k: int| 0 <= k < i ==> (#[trigger] defs@[k]).0@ == types@[k].name.locatee@,
            sequence(results.take(i as int)) == Ok::<Seq<SpecScheme>, SpecLError>(
                schemes_view(defs@),
            ),
        decreases types.len() - i,
    {
        proof {
            lemma_sequence_step(results, i as int);
        }
        match types[i].check(arities) {
            Err(e) => {
                proof {
                    lemma_sequence_prefix(results, i + 1);
                }
                return Err(e);
            },
            Ok(scheme) => {
                let ghost before = schemes_view(defs@);
                defs.push((types[i].name.locatee.clone(), scheme));
                assert(schemes_view(defs@) =~= before.push(scheme@));
            },
        }
        i += 1;
    }
    assert(results.take(types.len() as int) =~= results);
    assert(defs_view(defs@) =~= named(type_decl_names(derefs(types@)), schemes_view(defs@)));
    Ok(defs)
}

/// The signatures of the declared functions.
fn check_signatures(funcs: &Vec<&FuncDecl>, arities: &Vec<(Ident, usize)>) -> (r: Result<
    Vec<(Ident, TypeScheme)>,
    LError,
>)
    ensures
        match r {
            Ok(defs) => sequence(signature_each(arities_view(arities@), derefs(funcs@))) == Ok::<
                Seq<SpecScheme>,
                SpecLError,
            >(schemes_view(defs@)) && defs_view(defs@) == named(
                func_decl_names(derefs(funcs@)),
                schemes_view(defs@),
            ),
            Err(e) => sequence(signature_each(arities_view(arities@), derefs(funcs@))) == Err::<
                Seq<SpecScheme>,
                SpecLError,
            >(lerror_view(e)),
        },
{
    let ghost results = signature_each(arities_view(arities@), derefs(funcs@));
    let mut defs: Vec<(Ident, TypeScheme)> = Vec::new();
    let mut i: usize = 0;
    assert(results.take(0) =~= Seq::empty());
    assert(schemes_view(defs@) =~= Seq::empty());
    while i < funcs.len()
        invariant
            i <= funcs.len(),
            results == signature_each(arities_view(arities@), derefs(funcs@)),
            defs@.len() == i,
            forall|k: int| 0 <= k < i ==> (#[trigger] defs@[k]).0@ == funcs@[k].name.locatee@,
            sequence(results.take(i as int)) == Ok::<Seq<SpecScheme>, SpecLError>(
                schemes_view(defs@),
            ),
        decreases funcs.len() - i,
    {
        proof {
            lemma_sequence_step(results, i as int);
        }
        match funcs[i].check_signature(arities) {
            Err(e) => {
                proof {
                    lemma_sequence_prefix(results, i + 1);
                }
                return Err(e);
            },
            Ok(scheme) => {
                let ghost before = schemes_view(defs@);
                defs.push((funcs[i].name.locatee.clone(), scheme));
                assert(schemes_view(defs@) =~= before.push(scheme@));
            },
        }
        i += 1;
    }
    assert(results.take(funcs.len() as int) =~= results);
    assert(defs_view(defs@) =~= named(func_decl_names(derefs(funcs@)), schemes_view(defs@)));
    Ok(defs)
}

/// Holds the body of each declared function against its result type.
fn check_bodies(
    funcs: &Vec<&FuncDecl>,
    arities: &Vec<(Ident, usize)>,
    defs: &Vec<(Ident, TypeScheme)>,
    signatures: &Vec<(Ident, TypeScheme)>,
) -> (r: Result<(), LError>)
    ensures
        match r {
            Ok(_) => sequence(
                func_decl_each(
                    arities_view(arities@),
                    defs_view(defs@),
                    defs_view(signatures@),
                    derefs(funcs@),
                ),
            ) is Ok,
            Err(e) => sequence(
                func_decl_each(
                    arities_view(arities@),
                    defs_view(defs@),
                    defs_view(signatures@),
                    derefs(funcs@),
                ),
            ) == Err::<Seq<()>, SpecLError>(lerror_view(e)),
        },
{
    let ghost results = func_decl_each(
        arities_view(arities@),
        defs_view(defs@),
        defs_view(signatures@),
        derefs(funcs@),
    );
    let mut i: usize = 0;
    assert(results.take(0) =~= Seq::empty());
    while i < funcs.len()
        invariant
            i <= funcs.len(),
            results == func_decl_each(
                arities_view(arities@),
                defs_view(defs@),
                defs_view(signatures@),
                derefs(funcs@),
            ),
            sequence(results.take(i as int)) is Ok,
        decreases funcs.len() - i,
    {
        proof {
            lemma_sequence_step(results, i as int);
        }
        match funcs[i].check(arities, defs, signatures) {
            Err(e) => {
                proof {
                    lemma_sequence_prefix(results, i + 1);
                }
                return Err(e);
            },
            Ok(()) => {},
        }
        i += 1;
    }
    assert(results.take(funcs.len() as int) =~= results);
    Ok(())
}

impl Module {
    /// Checks the module: no type is declared twice, every type declaration
    /// and every signature is well-formed, and every function body has its
    /// declared type. The error is the first one in this order.
    pub fn check(&self) -> (r: Result<(), LError>)
        ensures
            unit_result(r) == check_module(*self),
    {
        let types = self.type_decls();
        let funcs = self.func_decls();
        proof {
            lemma_type_positions(self.decls@);
            lemma_func_positions(self.decls@);
            assert(derefs(types@) =~= type_decls_of(self.decls@));
            assert(derefs(funcs@) =~= func_decls_of(self.decls@));
        }
        let names = type_decl_entries(&types);
        match find_duplicate(&names) {
            Some((first, second)) => Err(
                Located::new(
                    Error::DuplicateTypeDecl {
                        var: names[second].0.clone(),
                        original: names[first].1,
                    },
                    names[second].1,
                ),
            ),
            None => {
                let arities = type_decl_arities(&types);
                match check_type_decls(&types, &arities) {
                    Err(e) => Err(e),
                    Ok(defs) => match check_signatures(&funcs, &arities) {
                        Err(e) => Err(e),
                        Ok(signatures) => check_bodies(&funcs, &arities, &defs, &signatures),
                    },
                }
            },
        }
    }
}

} // verus!
