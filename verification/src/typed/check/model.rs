//! The typing rules, as specification functions on the syntax.
//!
//! The rules are bidirectional: `infer` computes the type of an expression
//! and `check` holds an expression against an expected type. Both stop at
//! the first error in the order in which the source is written.

use crate::typed::check::error::{fail, SpecError, SpecLError};
use crate::typed::check::types::{
    first_index_of, keys_of, last_index_of, zip, SpecScheme, SpecType, EQUIV_DEPTH,
    NORMALIZE_LIMIT,
};
use crate::typed::iter::{func_positions, type_positions};
use crate::typed::syntax::{
    Branch, Decl, Expr, FuncDecl, LExpr, LExprCon, LExprVar, LType, LTypeVar, Module, OpCode, Span,
    Type,
    TypeDecl,
};
use vstd::prelude::*;

verus! {

/// What the checker knows about the names of types.
pub struct SpecKindEnv {
    /// The declared types with the numbers of their parameters.
    pub arities: Seq<(Seq<char>, nat)>,
    /// The type variables in scope.
    pub type_vars: Seq<Seq<char>>,
}

/// What the checker knows about the names in an expression.
pub struct SpecTypeEnv {
    pub kind_env: SpecKindEnv,
    /// The declared types with their definitions.
    pub defs: Seq<(Seq<char>, SpecScheme)>,
    /// The declared functions with their signatures.
    pub funcs: Seq<(Seq<char>, SpecScheme)>,
    /// The variables in scope with their types, innermost last.
    pub expr_vars: Seq<(Seq<char>, SpecType)>,
}

/// The values of `results` if all of them are `Ok`, or else the first
/// error among them.
pub open spec fn sequence<T>(results: Seq<Result<T, SpecLError>>) -> Result<Seq<T>, SpecLError>
    decreases results.len(),
{
    if results.len() == 0 {
        Ok(Seq::empty())
    } else {
        match sequence(results.drop_last()) {
            Err(e) => Err(e),
            Ok(values) => match results.last() {
                Err(e) => Err(e),
                Ok(value) => Ok(values.push(value)),
            },
        }
    }
}

/// The first error among the first `n` results is the first error among
/// all of them.
pub proof fn lemma_sequence_prefix<T>(results: Seq<Result<T, SpecLError>>, n: int)
    requires
        0 <= n <= results.len(),
        sequence(results.take(n)) is Err,
    ensures
        sequence(results) == Err::<Seq<T>, SpecLError>(sequence(results.take(n))->Err_0),
    decreases results.len() - n,
{
    if n < results.len() {
        assert(results.take(n + 1).drop_last() =~= results.take(n));
        lemma_sequence_prefix(results, n + 1);
    } else {
        assert(results.take(n) =~= results);
    }
}

/// One more `Ok` extends the values, and an `Err` after values is the
/// first error.
pub proof fn lemma_sequence_step<T>(results: Seq<Result<T, SpecLError>>, n: int)
    requires
        0 <= n < results.len(),
        sequence(results.take(n)) is Ok,
    ensures
        sequence(results.take(n + 1)) == match results[n] {
            Ok(value) => Ok::<Seq<T>, SpecLError>(sequence(results.take(n))->Ok_0.push(value)),
            Err(e) => Err::<Seq<T>, SpecLError>(e),
        },
        sequence(results.take(n))->Ok_0.len() == n,
    decreases n,
{
    assert(results.take(n + 1).drop_last() =~= results.take(n));
    assert(results.take(n + 1).last() == results[n]);
    if n > 0 {
        assert(results.take(n).take(n - 1) =~= results.take(n - 1));
        assert(results.take(n)[n - 1] == results[n - 1]);
        if sequence(results.take(n - 1)) is Ok {
            lemma_sequence_step(results, n - 1);
        } else {
            assert(results.take(n).drop_last() =~= results.take(n - 1));
        }
    }
}

/// The first name that occurs a second time, as the positions of its
/// first occurrence and of that second one.
pub open spec fn duplicate(names: Seq<Seq<char>>) -> Option<(int, int)>
    decreases names.len(),
{
    if names.len() == 0 {
        None
    } else {
        match duplicate(names.drop_last()) {
            Some(found) => Some(found),
            None => match first_index_of(names.drop_last(), names.last()) {
                Some(i) => Some((i, names.len() - 1)),
                None => None,
            },
        }
    }
}

/// A duplicate among the first `n` names is the duplicate of all names.
pub proof fn lemma_duplicate_prefix(names: Seq<Seq<char>>, n: int)
    requires
        0 <= n <= names.len(),
        duplicate(names.take(n)) is Some,
    ensures
        duplicate(names) == duplicate(names.take(n)),
    decreases names.len() - n,
{
    if n < names.len() {
        assert(names.take(n + 1).drop_last() =~= names.take(n));
        lemma_duplicate_prefix(names, n + 1);
    } else {
        assert(names.take(n) =~= names);
    }
}

pub open spec fn tvar_names(vars: Seq<LTypeVar>) -> Seq<Seq<char>> {
    Seq::new(vars.len(), |i: int| vars[i].locatee@)
}

pub open spec fn tvar_spans(vars: Seq<LTypeVar>) -> Seq<Span> {
    Seq::new(vars.len(), |i: int| vars[i].span)
}

pub open spec fn param_names<T>(params: Seq<(LExprVar, T)>) -> Seq<Seq<char>> {
    Seq::new(params.len(), |i: int| params[i].0.locatee@)
}

pub open spec fn param_spans<T>(params: Seq<(LExprVar, T)>) -> Seq<Span> {
    Seq::new(params.len(), |i: int| params[i].0.span)
}

/// Whether a name is the name of a builtin type.
pub open spec fn builtin_type(name: Seq<char>) -> Option<SpecType> {
    if name == "Int"@ {
        Some(SpecType::Int)
    } else if name == "Bool"@ {
        Some(SpecType::Bool)
    } else {
        None
    }
}

/// The type that a type of the syntax stands for: a name is a type
/// variable in scope, else a declared type without parameters, else a
/// builtin type; an applied name is a declared type with as many
/// parameters as it has arguments.
pub open spec fn resolve(env: SpecKindEnv, typ: LType) -> Result<SpecType, SpecLError>
    decreases typ, 0nat,
{
    let span = typ.span;
    match typ.locatee {
        Type::Error => Ok(SpecType::Error),
        Type::Int => Ok(SpecType::Int),
        Type::Bool => Ok(SpecType::Bool),
        Type::Var(var) => if env.type_vars.contains(var@) {
            Ok(SpecType::Var(var@))
        } else {
            match last_index_of(keys_of(env.arities), var@) {
                Some(i) => if env.arities[i].1 == 0 {
                    Ok(SpecType::SynApp(var@, Seq::empty()))
                } else {
                    Err(fail(SpecError::UnexpectedGeneric(var@, env.arities[i].1), span))
                },
                None => match builtin_type(var@) {
                    Some(builtin) => Ok(builtin),
                    None => Err(fail(SpecError::UnknownTypeVar(var@), span)),
                },
            }
        },
        Type::SynApp(var, args) => {
            let name = var.locatee@;
            let found = args@.len();
            if env.type_vars.contains(name) {
                Err(
                    fail(
                        SpecError::GenericTypeArityMismatch { type_var: name, expected: 0, found },
                        span,
                    ),
                )
            } else {
                match last_index_of(keys_of(env.arities), name) {
                    Some(i) => if env.arities[i].1 == found {
                        match resolve_all(env, args@) {
                            Err(e) => Err(e),
                            Ok(args) => Ok(SpecType::SynApp(name, args)),
                        }
                    } else {
                        Err(
                            fail(
                                SpecError::GenericTypeArityMismatch {
                                    type_var: name,
                                    expected: env.arities[i].1,
                                    found,
                                },
                                span,
                            ),
                        )
                    },
                    None => if builtin_type(name) is Some {
                        Err(
                            fail(
                                SpecError::GenericTypeArityMismatch {
                                    type_var: name,
                                    expected: 0,
                                    found,
                                },
                                span,
                            ),
                        )
                    } else {
                        Err(fail(SpecError::UnknownTypeVar(name), span))
                    },
                }
            }
        },
        Type::Fun(params, result) => match resolve_all(env, params@) {
            Err(e) => Err(e),
            Ok(params) => match resolve(env, *result) {
                Err(e) => Err(e),
                Ok(result) => Ok(SpecType::Fun(params, Box::new(result))),
            },
        },
        Type::Record(fields) => match sequence(resolve_field_each(env, fields@)) {
            Err(e) => Err(e),
            Ok(fields) => Ok(SpecType::Record(fields)),
        },
        Type::Variant(constrs) => match sequence(resolve_constr_each(env, constrs@)) {
            Err(e) => Err(e),
            Ok(constrs) => Ok(SpecType::Variant(constrs)),
        },
    }
}

/// `resolve` for an optional type.
pub open spec fn resolve_payload(env: SpecKindEnv, payload: Option<LType>) -> Result<
    Option<SpecType>,
    SpecLError,
>
    decreases payload, 0nat,
{
    match payload {
        Some(typ) => match resolve(env, typ) {
            Err(e) => Err(e),
            Ok(typ) => Ok(Some(typ)),
        },
        None => Ok(None),
    }
}

/// The results of `resolve` for the type of each field, with its name.
pub open spec fn resolve_field_each(env: SpecKindEnv, fields: Seq<(LExprVar, LType)>) -> Seq<
    Result<(Seq<char>, SpecType), SpecLError>,
>
    decreases fields, 0nat,
{
    Seq::new(
        fields.len(),
        |i: int|
            if 0 <= i < fields.len() {
                match resolve(env, fields[i].1) {
                    Err(e) => Err(e),
                    Ok(typ) => Ok((fields[i].0.locatee@, typ)),
                }
            } else {
                Ok((Seq::empty(), SpecType::Error))
            },
    )
}

/// The results of `resolve` for the payload of each constructor, with its
/// name.
pub open spec fn resolve_constr_each(
    env: SpecKindEnv,
    constrs: Seq<(LExprCon, Option<LType>)>,
) -> Seq<Result<(Seq<char>, Option<SpecType>), SpecLError>>
    decreases constrs, 0nat,
{
    Seq::new(
        constrs.len(),
        |i: int|
            if 0 <= i < constrs.len() {
                match resolve_payload(env, constrs[i].1) {
                    Err(e) => Err(e),
                    Ok(payload) => Ok((constrs[i].0.locatee@, payload)),
                }
            } else {
                Ok((Seq::empty(), None))
            },
    )
}

/// The results of `resolve` for each of `types`.
pub open spec fn resolve_each(env: SpecKindEnv, types: Seq<LType>) -> Seq<
    Result<SpecType, SpecLError>,
>
    decreases types, 0nat,
{
    Seq::new(
        types.len(),
        |i: int|
            if 0 <= i < types.len() {
                resolve(env, types[i])
            } else {
                Ok(SpecType::Error)
            },
    )
}

/// `resolve` for each of `types`, in order.
pub open spec fn resolve_all(env: SpecKindEnv, types: Seq<LType>) -> Result<
    Seq<SpecType>,
    SpecLError,
>
    decreases types, 1nat,
{
    sequence(resolve_each(env, types))
}

/// What a list of names binds.
#[derive(Clone, Copy, Debug, PartialEq, Eq, Structural)]
pub enum Binder {
    /// The type parameters of a declaration.
    TypeVar,
    /// The parameters of a function declaration.
    ExprVar,
    /// The parameters of a lambda.
    Param,
}

/// The error for a name that is bound twice, if there is one. It is
/// reported at the second binding and names the span of the first.
pub open spec fn unique_or(names: Seq<Seq<char>>, spans: Seq<Span>, binder: Binder) -> Option<
    SpecLError,
> {
    match duplicate(names) {
        Some((first, second)) => Some(
            fail(
                match binder {
                    Binder::TypeVar => SpecError::DuplicateTypeVar {
                        var: names[second],
                        original: spans[first],
                    },
                    Binder::ExprVar => SpecError::DuplicateExprVar {
                        var: names[second],
                        original: spans[first],
                    },
                    Binder::Param => SpecError::DuplicateParam {
                        var: names[second],
                        original: spans[first],
                    },
                },
                spans[second],
            ),
        ),
        None => None,
    }
}

impl SpecTypeEnv {
    /// The environment with one more variable in scope.
    pub open spec fn bind(self, name: Seq<char>, typ: SpecType) -> SpecTypeEnv {
        SpecTypeEnv { expr_vars: self.expr_vars.push((name, typ)), ..self }
    }

    /// The environment with more variables in scope, the last innermost.
    pub open spec fn bind_all(self, vars: Seq<(Seq<char>, SpecType)>) -> SpecTypeEnv {
        SpecTypeEnv { expr_vars: self.expr_vars + vars, ..self }
    }
}

pub open spec fn all_annotated(params: Seq<(LExprVar, Option<LType>)>) -> bool {
    forall|i: int| 0 <= i < params.len() ==> (#[trigger] params[i]).1 is Some
}

/// Position of the first parameter without a type annotation.
pub open spec fn first_unannotated(params: Seq<(LExprVar, Option<LType>)>) -> Option<int>
    decreases params.len(),
{
    if params.len() == 0 {
        None
    } else {
        match first_unannotated(params.drop_last()) {
            Some(i) => Some(i),
            None => if params.last().1 is None {
                Some(params.len() - 1)
            } else {
                None
            },
        }
    }
}

/// The first parameter without an annotation is one, and there is none
/// exactly if all parameters are annotated.
pub proof fn lemma_first_unannotated(params: Seq<(LExprVar, Option<LType>)>)
    ensures
        match first_unannotated(params) {
            Some(i) => 0 <= i < params.len() && params[i].1 is None,
            None => all_annotated(params),
        },
    decreases params.len(),
{
    if params.len() > 0 {
        let rest = params.drop_last();
        lemma_first_unannotated(rest);
        if first_unannotated(params) is None {
            assert forall|i: int| 0 <= i < params.len() implies (#[trigger] params[i]).1
                is Some by {
                if i < rest.len() {
                    assert(rest[i] == params[i]);
                }
            }
        } else if first_unannotated(rest) is Some {
            assert(rest[first_unannotated(rest)->Some_0] == params[first_unannotated(rest)->Some_0]);
        }
    }
}

/// The first unannotated parameter among the first `n` parameters is the
/// first of all parameters.
pub proof fn lemma_first_unannotated_prefix(params: Seq<(LExprVar, Option<LType>)>, n: int)
    requires
        0 <= n <= params.len(),
        first_unannotated(params.take(n)) is Some,
    ensures
        first_unannotated(params) == first_unannotated(params.take(n)),
    decreases params.len() - n,
{
    if n < params.len() {
        assert(params.take(n + 1).drop_last() =~= params.take(n));
        lemma_first_unannotated_prefix(params, n + 1);
    } else {
        assert(params.take(n) =~= params);
    }
}

/// The results of `resolve` for the annotation of each parameter.
pub open spec fn annotation_each(env: SpecKindEnv, params: Seq<(LExprVar, Option<LType>)>) -> Seq<
    Result<Option<SpecType>, SpecLError>,
> {
    Seq::new(params.len(), |i: int| resolve_payload(env, params[i].1))
}

/// The types of fully annotated parameters.
pub open spec fn annotated_types(annotations: Seq<Option<SpecType>>) -> Seq<SpecType> {
    Seq::new(annotations.len(), |i: int| annotations[i]->Some_0)
}

/// The types that the annotations of the parameters of a lambda stand
/// for. The annotations are resolved in order; then the parameters must
/// have distinct names.
pub open spec fn lam_annotations(
    env: SpecKindEnv,
    params: Seq<(LExprVar, Option<LType>)>,
) -> Result<Seq<Option<SpecType>>, SpecLError> {
    match sequence(annotation_each(env, params)) {
        Err(e) => Err(e),
        Ok(annotations) => match unique_or(param_names(params), param_spans(params), Binder::Param) {
            Some(e) => Err(e),
            None => Ok(annotations),
        },
    }
}

/// The name of the function that an expression in function position
/// names, if it names one.
pub open spec fn applied_name(func: LExpr) -> Option<Seq<char>> {
    match func.locatee {
        Expr::Var(var) => Some(var@),
        Expr::FunInst(func, _) => Some(func.locatee@),
        _ => None,
    }
}

pub open spec fn is_arithmetic(op: OpCode) -> bool {
    op == OpCode::Add || op == OpCode::Sub || op == OpCode::Mul || op == OpCode::Div
}

/// The environment in which the body of a branch is typed: the pattern
/// names a constructor of the matched type and binds its payload, if it
/// has a binder.
pub open spec fn branch_env(
    env: SpecTypeEnv,
    branch: Branch,
    scrut_type: SpecType,
    constrs: Seq<(Seq<char>, Option<SpecType>)>,
) -> Result<SpecTypeEnv, SpecLError> {
    let constr = branch.pattern.locatee.constr@;
    let bad = fail(SpecError::BadBranch(scrut_type, constr), branch.pattern.span);
    match first_index_of(keys_of(constrs), constr) {
        None => Err(bad),
        Some(i) => match (branch.pattern.locatee.binder, constrs[i].1) {
            (Some(binder), Some(payload)) => Ok(env.bind(binder.locatee@, payload)),
            (None, _) => Ok(env),
            (Some(_), None) => Err(bad),
        },
    }
}

/// The type of an expression.
pub open spec fn infer(env: SpecTypeEnv, expr: LExpr) -> Result<SpecType, SpecLError>
    decreases expr, 0nat, 0nat,
{
    let span = expr.span;
    match expr.locatee {
        Expr::Error => Ok(SpecType::Error),
        Expr::Var(var) => match last_index_of(keys_of(env.expr_vars), var@) {
            Some(i) => Ok(env.expr_vars[i].1),
            None => match last_index_of(keys_of(env.funcs), var@) {
                Some(i) => if env.funcs[i].1.params.len() == 0 {
                    Ok(env.funcs[i].1.body)
                } else {
                    Err(
                        fail(
                            SpecError::GenericFuncArityMismatch {
                                expr_var: var@,
                                expected: env.funcs[i].1.params.len(),
                                found: 0,
                            },
                            span,
                        ),
                    )
                },
                None => Err(fail(SpecError::UnknownExprVar(var@), span)),
            },
        },
        Expr::Num(_) => Ok(SpecType::Int),
        Expr::Bool(_) => Ok(SpecType::Bool),
        Expr::Lam(params, body) => match first_unannotated(params@) {
            Some(i) => Err(
                fail(SpecError::ParamNeedsTypeAnn(params@[i].0.locatee@), params@[i].0.span),
            ),
            None => match lam_annotations(env.kind_env, params@) {
                Err(e) => Err(e),
                Ok(annotations) => {
                    let types = annotated_types(annotations);
                    match infer(env.bind_all(zip(param_names(params@), types)), *body) {
                        Err(e) => Err(e),
                        Ok(result) => Ok(SpecType::Fun(types, Box::new(result))),
                    }
                },
            },
        },
        Expr::App(func, args) => match infer(env, *func) {
            Err(e) => Err(e),
            Ok(func_type) => {
                let bad = fail(
                    SpecError::BadApp {
                        func: applied_name(*func),
                        func_type,
                        num_args: args@.len(),
                    },
                    span,
                );
                match func_type.weak_normalize(env.defs, NORMALIZE_LIMIT as nat) {
                    SpecType::Fun(params, result) => if params.len() == args@.len() {
                        match sequence(check_each(env, args@, params)) {
                            Err(e) => Err(e),
                            Ok(_) => Ok(*result),
                        }
                    } else {
                        Err(bad)
                    },
                    _ => Err(bad),
                }
            },
        },
        Expr::BinOp(lhs, op, rhs) => if is_arithmetic(op) {
            match check(env, *lhs, SpecType::Int) {
                Err(e) => Err(e),
                Ok(_) => match check(env, *rhs, SpecType::Int) {
                    Err(e) => Err(e),
                    Ok(_) => Ok(SpecType::Int),
                },
            }
        } else {
            match infer(env, *lhs) {
                Err(e) => Err(e),
                Ok(typ) => match check(env, *rhs, typ) {
                    Err(e) => Err(e),
                    Ok(_) => Ok(SpecType::Bool),
                },
            }
        },
        Expr::FunInst(var, types) => match resolve_all(env.kind_env, types@) {
            Err(e) => Err(e),
            Ok(types) => {
                let name = var.locatee@;
                if last_index_of(keys_of(env.expr_vars), name) is Some {
                    Err(
                        fail(
                            SpecError::GenericFuncArityMismatch {
                                expr_var: name,
                                expected: 0,
                                found: types.len(),
                            },
                            span,
                        ),
                    )
                } else {
                    match last_index_of(keys_of(env.funcs), name) {
                        Some(i) => if env.funcs[i].1.params.len() == types.len() {
                            Ok(env.funcs[i].1.instantiate(types))
                        } else {
                            Err(
                                fail(
                                    SpecError::GenericFuncArityMismatch {
                                        expr_var: name,
                                        expected: env.funcs[i].1.params.len(),
                                        found: types.len(),
                                    },
                                    span,
                                ),
                            )
                        },
                        None => Err(fail(SpecError::UnknownExprVar(name), span)),
                    }
                }
            },
        },
        Expr::Let(binder, annotation, bindee, body) => match let_bindee(env, annotation, *bindee) {
            Err(e) => Err(e),
            Ok(typ) => infer(env.bind(binder.locatee@, typ), *body),
        },
        Expr::If(cond, then, elze) => match check(env, *cond, SpecType::Bool) {
            Err(e) => Err(e),
            Ok(_) => match infer(env, *then) {
                Err(e) => Err(e),
                Ok(typ) => match check(env, *elze, typ) {
                    Err(e) => Err(e),
                    Ok(_) => Ok(typ),
                },
            },
        },
        Expr::Record(fields) => match sequence(infer_field_each(env, fields@)) {
            Err(e) => Err(e),
            Ok(fields) => Ok(SpecType::Record(fields)),
        },
        Expr::Proj(record, field) => match infer(env, *record) {
            Err(e) => Err(e),
            Ok(record_type) => {
                let bad = fail(
                    SpecError::BadRecordProj { record_type, field: field.locatee@ },
                    span,
                );
                match record_type.weak_normalize(env.defs, NORMALIZE_LIMIT as nat) {
                    SpecType::Record(fields) => match first_index_of(
                        keys_of(fields),
                        field.locatee@,
                    ) {
                        Some(i) => Ok(fields[i].1),
                        None => Err(bad),
                    },
                    _ => Err(bad),
                }
            },
        },
        Expr::Variant(_, _) => Err(fail(SpecError::TypeAnnsNeeded, span)),
        Expr::Match(scrut, branches) => match infer(env, *scrut) {
            Err(e) => Err(e),
            Ok(scrut_type) => match scrut_type.weak_normalize(env.defs, NORMALIZE_LIMIT as nat) {
                SpecType::Variant(constrs) => if branches@.len() == 0 {
                    Err(fail(SpecError::EmptyMatch, span))
                } else {
                    match infer_branch(env, branches@[0], scrut_type, constrs) {
                        Err(e) => Err(e),
                        Ok(typ) => match sequence(
                            check_branch_each(env, branches@, 1, scrut_type, constrs, typ),
                        ) {
                            Err(e) => Err(e),
                            Ok(_) => Ok(typ),
                        },
                    }
                },
                _ => Err(fail(SpecError::BadMatch(scrut_type), span)),
            },
        },
    }
}

/// The type of the expression that a `let` binds: the annotation, against
/// which the expression is checked, or else the inferred type.
pub open spec fn let_bindee(env: SpecTypeEnv, annotation: Option<LType>, bindee: LExpr) -> Result<
    SpecType,
    SpecLError,
>
    decreases bindee, 2nat, 0nat,
{
    match annotation {
        Some(annotation) => match resolve(env.kind_env, annotation) {
            Err(e) => Err(e),
            Ok(typ) => match check(env, bindee, typ) {
                Err(e) => Err(e),
                Ok(_) => Ok(typ),
            },
        },
        None => infer(env, bindee),
    }
}

/// The type of the body of a branch.
pub open spec fn infer_branch(
    env: SpecTypeEnv,
    branch: Branch,
    scrut_type: SpecType,
    constrs: Seq<(Seq<char>, Option<SpecType>)>,
) -> Result<SpecType, SpecLError>
    decreases branch, 0nat, 0nat,
{
    match branch_env(env, branch, scrut_type, constrs) {
        Err(e) => Err(e),
        Ok(inner) => infer(inner, branch.body),
    }
}

/// Holds the body of a branch against `expected`.
pub open spec fn check_branch(
    env: SpecTypeEnv,
    branch: Branch,
    scrut_type: SpecType,
    constrs: Seq<(Seq<char>, Option<SpecType>)>,
    expected: SpecType,
) -> Result<(), SpecLError>
    decreases branch, 0nat, 0nat,
{
    match branch_env(env, branch, scrut_type, constrs) {
        Err(e) => Err(e),
        Ok(inner) => check(inner, branch.body, expected),
    }
}

/// The results of `check_branch` for each branch from position `from` on.
pub open spec fn check_branch_each(
    env: SpecTypeEnv,
    branches: Seq<Branch>,
    from: nat,
    scrut_type: SpecType,
    constrs: Seq<(Seq<char>, Option<SpecType>)>,
    expected: SpecType,
) -> Seq<Result<(), SpecLError>>
    decreases branches, 0nat, 1nat,
{
    Seq::new(
        (branches.len() - from) as nat,
        |i: int|
            if 0 <= i < branches.len() - from {
                check_branch(env, branches[i + from], scrut_type, constrs, expected)
            } else {
                Ok(())
            },
    )
}

/// The results of `infer` for the expression of each field, with its name.
pub open spec fn infer_field_each(env: SpecTypeEnv, fields: Seq<(LExprVar, LExpr)>) -> Seq<
    Result<(Seq<char>, SpecType), SpecLError>,
>
    decreases fields, 0nat, 1nat,
{
    Seq::new(
        fields.len(),
        |i: int|
            if 0 <= i < fields.len() {
                match infer(env, fields[i].1) {
                    Err(e) => Err(e),
                    Ok(typ) => Ok((fields[i].0.locatee@, typ)),
                }
            } else {
                Ok((Seq::empty(), SpecType::Error))
            },
    )
}

/// The results of `check` for each expression against the type at its
/// position.
pub open spec fn check_each(env: SpecTypeEnv, exprs: Seq<LExpr>, expected: Seq<SpecType>) -> Seq<
    Result<(), SpecLError>,
>
    decreases exprs, 0nat, 0nat,
{
    Seq::new(
        exprs.len(),
        |i: int|
            if 0 <= i < exprs.len() {
                check(env, exprs[i], expected[i])
            } else {
                Ok(())
            },
    )
}

/// The type that a parameter of a checked lambda gets: its annotation,
/// which must be equivalent to the expected type, or else the expected
/// type. A mismatch is reported at the annotation.
pub open spec fn checked_param(
    env: SpecTypeEnv,
    param: (LExprVar, Option<LType>),
    annotation: Option<SpecType>,
    expected: SpecType,
) -> Result<SpecType, SpecLError> {
    match annotation {
        Some(found) => if found.equiv(expected, env.defs, EQUIV_DEPTH as nat) {
            Ok(found)
        } else {
            Err(
                fail(
                    SpecError::ParamTypeMismatch { param: param.0.locatee@, expected, found },
                    param.1->Some_0.span,
                ),
            )
        },
        None => Ok(expected),
    }
}

/// The results of `checked_param` for each parameter.
pub open spec fn checked_param_each(
    env: SpecTypeEnv,
    params: Seq<(LExprVar, Option<LType>)>,
    annotations: Seq<Option<SpecType>>,
    expected: Seq<SpecType>,
) -> Seq<Result<SpecType, SpecLError>> {
    Seq::new(
        annotations.len(),
        |i: int| checked_param(env, params[i], annotations[i], expected[i]),
    )
}

/// Holds an expression against the type `expected`.
pub open spec fn check(env: SpecTypeEnv, expr: LExpr, expected: SpecType) -> Result<
    (),
    SpecLError,
>
    decreases expr, 1nat, 0nat,
{
    let span = expr.span;
    match expr.locatee {
        Expr::Lam(params, body) => match lam_annotations(env.kind_env, params@) {
            Err(e) => Err(e),
            Ok(annotations) => match expected.weak_normalize(
                env.defs,
                NORMALIZE_LIMIT as nat,
            ) {
                SpecType::Fun(param_types, result) => if params@.len() == param_types.len() {
                    match sequence(
                        checked_param_each(env, params@, annotations, param_types),
                    ) {
                        Err(e) => Err(e),
                        Ok(types) => check(
                            env.bind_all(zip(param_names(params@), types)),
                            *body,
                            *result,
                        ),
                    }
                } else {
                    Err(fail(SpecError::BadLam(expected, params@.len()), span))
                },
                _ => Err(fail(SpecError::BadLam(expected, params@.len()), span)),
            },
        },
        Expr::Let(binder, annotation, bindee, body) => match let_bindee(env, annotation, *bindee) {
            Err(e) => Err(e),
            Ok(typ) => check(env.bind(binder.locatee@, typ), *body, expected),
        },
        Expr::If(cond, then, elze) => match check(env, *cond, SpecType::Bool) {
            Err(e) => Err(e),
            Ok(_) => match check(env, *then, expected) {
                Err(e) => Err(e),
                Ok(_) => check(env, *elze, expected),
            },
        },
        Expr::Variant(con, arg) => match expected.weak_normalize(
            env.defs,
            NORMALIZE_LIMIT as nat,
        ) {
            SpecType::Variant(constrs) => {
                let bad = fail(SpecError::BadVariantConstr(expected, con.locatee@), span);
                match first_index_of(keys_of(constrs), con.locatee@) {
                    None => Err(bad),
                    Some(i) => match (arg, constrs[i].1) {
                        (Some(arg), Some(payload)) => check(env, *arg, payload),
                        (None, None) => Ok(()),
                        _ => Err(bad),
                    },
                }
            },
            _ => Err(fail(SpecError::UnexpectedVariantType(expected, con.locatee@), span)),
        },
        Expr::Match(scrut, branches) => match infer(env, *scrut) {
            Err(e) => Err(e),
            Ok(scrut_type) => match scrut_type.weak_normalize(env.defs, NORMALIZE_LIMIT as nat) {
                SpecType::Variant(constrs) => if branches@.len() == 0 {
                    Err(fail(SpecError::EmptyMatch, span))
                } else {
                    match sequence(
                        check_branch_each(env, branches@, 0, scrut_type, constrs, expected),
                    ) {
                        Err(e) => Err(e),
                        Ok(_) => Ok(()),
                    }
                },
                _ => Err(fail(SpecError::BadMatch(scrut_type), span)),
            },
        },
        _ => check_inferred(env, expr, expected),
    }
}

/// Holds the inferred type of an expression against `expected`.
pub open spec fn check_inferred(env: SpecTypeEnv, expr: LExpr, expected: SpecType) -> Result<
    (),
    SpecLError,
>
    decreases expr, 0nat, 1nat,
{
    match infer(env, expr) {
        Err(e) => Err(e),
        Ok(found) => if found.equiv(expected, env.defs, EQUIV_DEPTH as nat) {
            Ok(())
        } else {
            Err(fail(SpecError::TypeMismatch { expected, found }, expr.span))
        },
    }
}

/// The types of a list of named types.
pub open spec fn types_of(fields: Seq<(Seq<char>, SpecType)>) -> Seq<SpecType> {
    Seq::new(fields.len(), |i: int| fields[i].1)
}

/// The definition that a type declaration gives: its parameters, which
/// must be distinct, and the type that its body stands for.
pub open spec fn check_type_decl(arities: Seq<(Seq<char>, nat)>, decl: TypeDecl) -> Result<
    SpecScheme,
    SpecLError,
> {
    match unique_or(tvar_names(decl.params@), tvar_spans(decl.params@), Binder::TypeVar) {
        Some(e) => Err(e),
        None => match resolve(
            SpecKindEnv { arities, type_vars: tvar_names(decl.params@) },
            decl.body,
        ) {
            Err(e) => Err(e),
            Ok(body) => Ok(SpecScheme { params: tvar_names(decl.params@), body }),
        },
    }
}

/// The signature of a function declaration: its type parameters, which
/// must be distinct, and the function type of its parameters and result.
pub open spec fn check_signature(arities: Seq<(Seq<char>, nat)>, decl: FuncDecl) -> Result<
    SpecScheme,
    SpecLError,
> {
    let env = SpecKindEnv { arities, type_vars: tvar_names(decl.type_params@) };
    match unique_or(tvar_names(decl.type_params@), tvar_spans(decl.type_params@), Binder::TypeVar) {
        Some(e) => Err(e),
        None => match sequence(resolve_field_each(env, decl.expr_params@)) {
            Err(e) => Err(e),
            Ok(params) => match resolve(env, decl.return_type) {
                Err(e) => Err(e),
                Ok(result) => Ok(
                    SpecScheme {
                        params: tvar_names(decl.type_params@),
                        body: SpecType::Fun(types_of(params), Box::new(result)),
                    },
                ),
            },
        },
    }
}

/// Whether the body of a function declaration has the declared result
/// type, where the parameters, which must be distinct, have their
/// declared types.
pub open spec fn check_func_decl(
    arities: Seq<(Seq<char>, nat)>,
    defs: Seq<(Seq<char>, SpecScheme)>,
    funcs: Seq<(Seq<char>, SpecScheme)>,
    decl: FuncDecl,
) -> Result<(), SpecLError> {
    let kind_env = SpecKindEnv { arities, type_vars: tvar_names(decl.type_params@) };
    match unique_or(param_names(decl.expr_params@), param_spans(decl.expr_params@), Binder::ExprVar) {
        Some(e) => Err(e),
        None => match sequence(resolve_field_each(kind_env, decl.expr_params@)) {
            Err(e) => Err(e),
            Ok(expr_vars) => match resolve(kind_env, decl.return_type) {
                Err(e) => Err(e),
                Ok(result) => check(
                    SpecTypeEnv { kind_env, defs, funcs, expr_vars },
                    decl.body,
                    result,
                ),
            },
        },
    }
}

/// The type declarations of a module, in order.
pub open spec fn type_decls_of(decls: Seq<Decl>) -> Seq<TypeDecl> {
    Seq::new(type_positions(decls).len(), |k: int| decls[type_positions(decls)[k]]->Type_0)
}

/// The function declarations of a module, in order.
pub open spec fn func_decls_of(decls: Seq<Decl>) -> Seq<FuncDecl> {
    Seq::new(func_positions(decls).len(), |k: int| decls[func_positions(decls)[k]]->Func_0)
}

pub open spec fn type_decl_names(types: Seq<TypeDecl>) -> Seq<Seq<char>> {
    Seq::new(types.len(), |i: int| types[i].name.locatee@)
}

pub open spec fn func_decl_names(funcs: Seq<FuncDecl>) -> Seq<Seq<char>> {
    Seq::new(funcs.len(), |i: int| funcs[i].name.locatee@)
}

/// The declared types with the numbers of their parameters.
pub open spec fn arities_of(types: Seq<TypeDecl>) -> Seq<(Seq<char>, nat)> {
    Seq::new(types.len(), |i: int| (types[i].name.locatee@, types[i].params@.len() as nat))
}

/// The pairs of the names in `names` and the schemes at their positions.
pub open spec fn named(names: Seq<Seq<char>>, schemes: Seq<SpecScheme>) -> Seq<
    (Seq<char>, SpecScheme),
> {
    Seq::new(schemes.len(), |i: int| (names[i], schemes[i]))
}

pub open spec fn type_decl_each(arities: Seq<(Seq<char>, nat)>, types: Seq<TypeDecl>) -> Seq<
    Result<SpecScheme, SpecLError>,
> {
    Seq::new(types.len(), |i: int| check_type_decl(arities, types[i]))
}

pub open spec fn signature_each(arities: Seq<(Seq<char>, nat)>, funcs: Seq<FuncDecl>) -> Seq<
    Result<SpecScheme, SpecLError>,
> {
    Seq::new(funcs.len(), |i: int| check_signature(arities, funcs[i]))
}

pub open spec fn func_decl_each(
    arities: Seq<(Seq<char>, nat)>,
    defs: Seq<(Seq<char>, SpecScheme)>,
    funcs: Seq<(Seq<char>, SpecScheme)>,
    decls: Seq<FuncDecl>,
) -> Seq<Result<(), SpecLError>> {
    Seq::new(decls.len(), |i: int| check_func_decl(arities, defs, funcs, decls[i]))
}

/// Whether a module is well-typed: no type is declared twice, every type
/// declaration and every signature is well-formed, and every function
/// body has its declared type.
pub open spec fn check_module(module: Module) -> Result<(), SpecLError> {
    let types = type_decls_of(module.decls@);
    let funcs = func_decls_of(module.decls@);
    let type_names = type_decl_names(types);
    let func_names = func_decl_names(funcs);
    let arities = arities_of(types);
    match duplicate(type_names) {
        Some((first, second)) => Err(
            fail(
                SpecError::DuplicateTypeDecl {
                    var: type_names[second],
                    original: types[first].name.span,
                },
                types[second].name.span,
            ),
        ),
        None => match sequence(type_decl_each(arities, types)) {
            Err(e) => Err(e),
            Ok(schemes) => match sequence(signature_each(arities, funcs)) {
                Err(e) => Err(e),
                Ok(signatures) => match sequence(
                    func_decl_each(
                        arities,
                        named(type_names, schemes),
                        named(func_names, signatures),
                        funcs,
                    ),
                ) {
                    Err(e) => Err(e),
                    Ok(_) => Ok(()),
                },
            },
        },
    }
}

} // verus!
