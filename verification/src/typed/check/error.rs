//! What the checker reports.

use crate::text::{decimal, decimal_string};
use crate::typed::check::types::{RcType, SpecType};
use crate::typed::syntax::{ExprCon, ExprVar, Located, Span, TypeVar};
use vstd::prelude::*;
use vstd::string::StringExecFns;

verus! {

#[allow(inconsistent_fields)]
#[derive(Debug)]
pub enum Error {
    UnknownTypeVar(TypeVar),
    UnknownExprVar(ExprVar),
    UnexpectedGeneric(TypeVar, usize),
    GenericTypeArityMismatch { type_var: TypeVar, expected: usize, found: usize },
    GenericFuncArityMismatch { expr_var: ExprVar, expected: usize, found: usize },
    TypeMismatch { expected: RcType, found: RcType },
    ParamTypeMismatch { param: ExprVar, expected: RcType, found: RcType },
    DuplicateTypeVar { var: TypeVar, original: Span },
    DuplicateTypeDecl { var: TypeVar, original: Span },
    DuplicateExprVar { var: ExprVar, original: Span },
    DuplicateParam { var: ExprVar, original: Span },
    ParamNeedsTypeAnn(ExprVar),
    BadApp { func: Option<ExprVar>, func_type: RcType, num_args: usize },
    BadRecordProj { record_type: RcType, field: ExprVar },
    BadLam(RcType, usize),
    BadVariantConstr(RcType, ExprCon),
    UnexpectedVariantType(RcType, ExprCon),
    BadMatch(RcType),
    BadBranch(RcType, ExprCon),
    EmptyMatch,
    TypeAnnsNeeded,
}

/// An error and the span of the source that it is about.
pub type LError = Located<Error>;

/// The mathematical model of an error.
#[allow(inconsistent_fields)]
pub enum SpecError {
    UnknownTypeVar(Seq<char>),
    UnknownExprVar(Seq<char>),
    UnexpectedGeneric(Seq<char>, nat),
    GenericTypeArityMismatch { type_var: Seq<char>, expected: nat, found: nat },
    GenericFuncArityMismatch { expr_var: Seq<char>, expected: nat, found: nat },
    TypeMismatch { expected: SpecType, found: SpecType },
    ParamTypeMismatch { param: Seq<char>, expected: SpecType, found: SpecType },
    DuplicateTypeVar { var: Seq<char>, original: Span },
    DuplicateTypeDecl { var: Seq<char>, original: Span },
    DuplicateExprVar { var: Seq<char>, original: Span },
    DuplicateParam { var: Seq<char>, original: Span },
    ParamNeedsTypeAnn(Seq<char>),
    BadApp { func: Option<Seq<char>>, func_type: SpecType, num_args: nat },
    BadRecordProj { record_type: SpecType, field: Seq<char> },
    BadLam(SpecType, nat),
    BadVariantConstr(SpecType, Seq<char>),
    UnexpectedVariantType(SpecType, Seq<char>),
    BadMatch(SpecType),
    BadBranch(SpecType, Seq<char>),
    EmptyMatch,
    TypeAnnsNeeded,
}

/// The model of an error with the span that it is about.
pub struct SpecLError {
    pub error: SpecError,
    pub span: Span,
}

impl Error {
    pub open spec fn view(&self) -> SpecError {
        match self {
            Error::UnknownTypeVar(var) => SpecError::UnknownTypeVar(var@),
            Error::UnknownExprVar(var) => SpecError::UnknownExprVar(var@),
            Error::UnexpectedGeneric(var, arity) => SpecError::UnexpectedGeneric(
                var@,
                *arity as nat,
            ),
            Error::GenericTypeArityMismatch {
                type_var,
                expected,
                found,
            } => SpecError::GenericTypeArityMismatch {
                type_var: type_var@,
                expected: *expected as nat,
                found: *found as nat,
            },
            Error::GenericFuncArityMismatch {
                expr_var,
                expected,
                found,
            } => SpecError::GenericFuncArityMismatch {
                expr_var: expr_var@,
                expected: *expected as nat,
                found: *found as nat,
            },
            Error::TypeMismatch { expected, found } => SpecError::TypeMismatch {
                expected: expected@,
                found: found@,
            },
            Error::ParamTypeMismatch { param, expected, found } => SpecError::ParamTypeMismatch {
                param: param@,
                expected: expected@,
                found: found@,
            },
            Error::DuplicateTypeVar { var, original } => SpecError::DuplicateTypeVar {
                var: var@,
                original: *original,
            },
            Error::DuplicateTypeDecl { var, original } => SpecError::DuplicateTypeDecl {
                var: var@,
                original: *original,
            },
            Error::DuplicateExprVar { var, original } => SpecError::DuplicateExprVar {
                var: var@,
                original: *original,
            },
            Error::DuplicateParam { var, original } => SpecError::DuplicateParam {
                var: var@,
                original: *original,
            },
            Error::ParamNeedsTypeAnn(var) => SpecError::ParamNeedsTypeAnn(var@),
            Error::BadApp { func, func_type, num_args } => SpecError::BadApp {
                func: match func {
                    Some(func) => Some(func@),
                    None => None,
                },
                func_type: func_type@,
                num_args: *num_args as nat,
            },
            Error::BadRecordProj { record_type, field } => SpecError::BadRecordProj {
                record_type: record_type@,
                field: field@,
            },
            Error::BadLam(expected, arity) => SpecError::BadLam(expected@, *arity as nat),
            Error::BadVariantConstr(expected, con) => SpecError::BadVariantConstr(expected@, con@),
            Error::UnexpectedVariantType(expected, con) => SpecError::UnexpectedVariantType(
                expected@,
                con@,
            ),
            Error::BadMatch(scrut_type) => SpecError::BadMatch(scrut_type@),
            Error::BadBranch(scrut_type, con) => SpecError::BadBranch(scrut_type@, con@),
            Error::EmptyMatch => SpecError::EmptyMatch,
            Error::TypeAnnsNeeded => SpecError::TypeAnnsNeeded,
        }
    }
}

/// The model of a located error.
pub open spec fn lerror_view(error: LError) -> SpecLError {
    SpecLError { error: error.locatee@, span: error.span }
}

/// The located error `error` at `span`.
pub open spec fn fail(error: SpecError, span: Span) -> SpecLError {
    SpecLError { error, span }
}

/// A name between backticks.
pub open spec fn quoted(name: Seq<char>) -> Seq<char> {
    "`"@ + name + "`"@
}

/// A number of things: the number, the noun, and an `s` unless the number
/// is one.
pub open spec fn count_text(n: nat, noun: Seq<char>) -> Seq<char> {
    decimal(n) + " "@ + noun + if n == 1 {
        ""@
    } else {
        "s"@
    }
}

impl SpecError {
    /// What the error says to the reader.
    pub open spec fn message(self) -> Seq<char> {
        match self {
            SpecError::UnknownTypeVar(var) => "Undeclared type variable "@ + quoted(var) + "."@,
            SpecError::UnknownExprVar(var) => "Undeclared variable "@ + quoted(var) + "."@,
            SpecError::UnexpectedGeneric(var, _) => "Expected a type but found the generic type "@
                + quoted(var) + "."@,
            SpecError::GenericTypeArityMismatch { type_var, expected, found } => if expected == 0 {
                "Type "@ + quoted(type_var) + " is not a generic type but is applied to "@
                    + count_text(found, "type argument"@) + "."@
            } else {
                "Generic type "@ + quoted(type_var) + " expects "@ + count_text(
                    expected,
                    "type argument"@,
                ) + " but is applied to "@ + count_text(found, "type argument"@) + "."@
            },
            SpecError::GenericFuncArityMismatch { expr_var, expected, found } => if expected == 0 {
                quoted(expr_var) + " is not a generic function but is applied to "@ + count_text(
                    found,
                    "type argument"@,
                ) + "."@
            } else {
                "Generic function "@ + quoted(expr_var) + " expects "@ + count_text(
                    expected,
                    "type argument"@,
                ) + " but is applied to "@ + count_text(found, "type argument"@) + "."@
            },
            SpecError::TypeMismatch { expected, found } => "Expected an expression of type "@
                + quoted(expected.text()) + " but found an expression of type "@ + quoted(
                found.text(),
            ) + "."@,
            SpecError::ParamTypeMismatch { param, expected, found } => "Expected parameter "@
                + quoted(param) + " to have type "@ + quoted(expected.text())
                + " but found a type annotation "@ + quoted(found.text()) + "."@,
            SpecError::DuplicateTypeVar { var, original } => "Duplicate type variable "@ + quoted(
                var,
            ) + "."@,
            SpecError::DuplicateTypeDecl { var, original } => "Duplicate definition of type "@
                + quoted(var) + "."@,
            SpecError::DuplicateExprVar { var, original } => "Duplicate variable "@ + quoted(var)
                + "."@,
            SpecError::DuplicateParam { var, original } => "Duplicate paramter "@ + quoted(var)
                + "."@,
            SpecError::ParamNeedsTypeAnn(var) => "Cannot infer the type of parameter "@ + quoted(
                var,
            ) + ". A type annoation is needed."@,
            SpecError::BadApp { func, func_type, num_args } => match func {
                Some(func) => quoted(func) + " cannot be applied to "@ + count_text(
                    num_args,
                    "argument"@,
                ) + " because it has has type "@ + quoted(func_type.text()) + "."@,
                None => "Expressions of type "@ + quoted(func_type.text())
                    + " cannot be applied to "@ + count_text(num_args, "argument"@) + "."@,
            },
            SpecError::BadRecordProj { record_type, field } => "Expression of type "@ + quoted(
                record_type.text(),
            ) + " do not contain a field named "@ + quoted(field) + "."@,
            SpecError::BadLam(expected, arity) => "Expected an expression of type "@ + quoted(
                expected.text(),
            ) + " but found a lambda with "@ + count_text(arity, "parameter"@) + "."@,
            SpecError::BadVariantConstr(expected, con) => quoted(con)
                + " is not a possible constructor for variant type "@ + quoted(expected.text())
                + "."@,
            SpecError::UnexpectedVariantType(expected, con) => "Expected an expression of type "@
                + quoted(expected.text()) + " but found variant constructor "@ + quoted(con)
                + "."@,
            SpecError::BadMatch(scrut_type) => "Cannot match on expressions of type "@ + quoted(
                scrut_type.text(),
            ) + "."@,
            SpecError::BadBranch(scrut_type, con) => quoted(con)
                + " is not a possible constructor for variant type "@ + quoted(scrut_type.text())
                + "."@,
            SpecError::EmptyMatch => "Match expressions must have at least one branch."@,
            SpecError::TypeAnnsNeeded => "Cannot infer the type of the expression. Further type annotations are required."@,
        }
    }
}

/// Appends `name` between backticks.
fn append_quoted(text: &mut String, name: &str)
    ensures
        final(text)@ == old(text)@ + quoted(name@),
{
    text.append("`");
    text.append(name);
    text.append("`");
    assert(text@ =~= old(text)@ + quoted(name@));
}

/// Appends the text of `typ` between backticks.
fn append_type(text: &mut String, typ: &RcType)
    ensures
        final(text)@ == old(text)@ + quoted(typ@.text()),
{
    let rendered = typ.to_text();
    append_quoted(text, rendered.as_str());
}

/// Appends a number of things.
fn append_count(text: &mut String, n: usize, noun: &str)
    ensures
        final(text)@ == old(text)@ + count_text(n as nat, noun@),
{
    text.append(decimal_string(n as u64).as_str());
    text.append(" ");
    text.append(noun);
    if n != 1 {
        text.append("s");
    } else {
        text.append("");
    }
    assert(text@ =~= old(text)@ + count_text(n as nat, noun@));
}

impl Error {
    /// What the error says to the reader.
    pub fn message(&self) -> (text: String)
        ensures
            text@ == self@.message(),
    {
        match self {
            Error::UnknownTypeVar(var) => {
                let mut text = String::from_str("Undeclared type variable ");
                append_quoted(&mut text, var.name());
                text.append(".");
                text
            },
            Error::UnknownExprVar(var) => {
                let mut text = String::from_str("Undeclared variable ");
                append_quoted(&mut text, var.name());
                text.append(".");
                text
            },
            Error::UnexpectedGeneric(var, _arity) => {
                let mut text = String::from_str("Expected a type but found the generic type ");
                append_quoted(&mut text, var.name());
                text.append(".");
                text
            },
            Error::GenericTypeArityMismatch { type_var, expected, found } => {
                if *expected == 0 {
                    let mut text = String::from_str("Type ");
                    append_quoted(&mut text, type_var.name());
                    text.append(" is not a generic type but is applied to ");
                    append_count(&mut text, *found, "type argument");
                    text.append(".");
                    text
                } else {
                    let mut text = String::from_str("Generic type ");
                    append_quoted(&mut text, type_var.name());
                    text.append(" expects ");
                    append_count(&mut text, *expected, "type argument");
                    text.append(" but is applied to ");
                    append_count(&mut text, *found, "type argument");
                    text.append(".");
                    text
                }
            },
            Error::GenericFuncArityMismatch { expr_var, expected, found } => {
                if *expected == 0 {
                    let mut text = String::new();
                    append_quoted(&mut text, expr_var.name());
                    text.append(" is not a generic function but is applied to ");
                    append_count(&mut text, *found, "type argument");
                    text.append(".");
                    assert(Seq::<char>::empty() + quoted(expr_var@) =~= quoted(expr_var@));
                    text
                } else {
                    let mut text = String::from_str("Generic function ");
                    append_quoted(&mut text, expr_var.name());
                    text.append(" expects ");
                    append_count(&mut text, *expected, "type argument");
                    text.append(" but is applied to ");
                    append_count(&mut text, *found, "type argument");
                    text.append(".");
                    text
                }
            },
            Error::TypeMismatch { expected, found } => {
                let mut text = String::from_str("Expected an expression of type ");
                append_type(&mut text, expected);
                text.append(" but found an expression of type ");
                append_type(&mut text, found);
                text.append(".");
                text
            },
            Error::ParamTypeMismatch { param, expected, found } => {
                let mut text = String::from_str("Expected parameter ");
                append_quoted(&mut text, param.name());
                text.append(" to have type ");
                append_type(&mut text, expected);
                text.append(" but found a type annotation ");
                append_type(&mut text, found);
                text.append(".");
                text
            },
            Error::DuplicateTypeVar { var, original: _ } => {
                let mut text = String::from_str("Duplicate type variable ");
                append_quoted(&mut text, var.name());
                text.append(".");
                text
            },
            Error::DuplicateTypeDecl { var, original: _ } => {
                let mut text = String::from_str("Duplicate definition of type ");
                append_quoted(&mut text, var.name());
                text.append(".");
                text
            },
            Error::DuplicateExprVar { var, original: _ } => {
                let mut text = String::from_str("Duplicate variable ");
                append_quoted(&mut text, var.name());
                text.append(".");
                text
            },
            Error::DuplicateParam { var, original: _ } => {
                let mut text = String::from_str("Duplicate paramter ");
                append_quoted(&mut text, var.name());
                text.append(".");
                text
            },
            Error::ParamNeedsTypeAnn(var) => {
                let mut text = String::from_str("Cannot infer the type of parameter ");
                append_quoted(&mut text, var.name());
                text.append(". A type annoation is needed.");
                text
            },
            Error::BadApp { func, func_type, num_args } => {
                match func {
                    Some(func) => {
                        let mut text = String::new();
                        append_quoted(&mut text, func.name());
                        text.append(" cannot be applied to ");
                        append_count(&mut text, *num_args, "argument");
                        text.append(" because it has has type ");
                        append_type(&mut text, func_type);
                        text.append(".");
                        assert(Seq::<char>::empty() + quoted(func@) =~= quoted(func@));
                        text
                    },
                    None => {
                        let mut text = String::from_str("Expressions of type ");
                        append_type(&mut text, func_type);
                        text.append(" cannot be applied to ");
                        append_count(&mut text, *num_args, "argument");
                        text.append(".");
                        text
                    },
                }
            },
            Error::BadRecordProj { record_type, field } => {
                let mut text = String::from_str("Expression of type ");
                append_type(&mut text, record_type);
                text.append(" do not contain a field named ");
                append_quoted(&mut text, field.name());
                text.append(".");
                text
            },
            Error::BadLam(expected, arity) => {
                let mut text = String::from_str("Expected an expression of type ");
                append_type(&mut text, expected);
                text.append(" but found a lambda with ");
                append_count(&mut text, *arity, "parameter");
                text.append(".");
                text
            },
            Error::BadVariantConstr(expected, con) => {
                let mut text = String::new();
                append_quoted(&mut text, con.name());
                text.append(" is not a possible constructor for variant type ");
                append_type(&mut text, expected);
                text.append(".");
                assert(Seq::<char>::empty() + quoted(con@) =~= quoted(con@));
                text
            },
            Error::UnexpectedVariantType(expected, con) => {
                let mut text = String::from_str("Expected an expression of type ");
                append_type(&mut text, expected);
                text.append(" but found variant constructor ");
                append_quoted(&mut text, con.name());
                text.append(".");
                text
            },
            Error::BadMatch(scrut_type) => {
                let mut text = String::from_str("Cannot match on expressions of type ");
                append_type(&mut text, scrut_type);
                text.append(".");
                text
            },
            Error::BadBranch(scrut_type, con) => {
                let mut text = String::new();
                append_quoted(&mut text, con.name());
                text.append(" is not a possible constructor for variant type ");
                append_type(&mut text, scrut_type);
                text.append(".");
                assert(Seq::<char>::empty() + quoted(con@) =~= quoted(con@));
                text
            },
            Error::EmptyMatch => String::from_str(
                "Match expressions must have at least one branch.",
            ),
            Error::TypeAnnsNeeded => String::from_str(
                "Cannot infer the type of the expression. Further type annotations are required.",
            ),
        }
    }
}

} // verus!
