//! A recursive evaluator for the first calculus.

use crate::proto::cek::{eval_op, number_result};
use crate::proto::syntax::{names_view, Expr, Name};
use crate::text::{decimal, decimal_string};
use std::rc::Rc;
use vstd::prelude::*;
use vstd::string::StringExecFns;

verus! {

pub enum Value<'a> {
    Num(i64),
    Lam(&'a Vec<Name>, &'a Expr, Env<'a>),
}

/// A stack of bound values, the innermost last.
pub struct Env<'a>(Vec<Rc<Value<'a>>>);

/// The model of a value: a number, or a function with its parameters, its
/// body and the environment it was made in.
pub enum SpecValue {
    Num(i64),
    Lam(Seq<Seq<char>>, Expr, Seq<SpecValue>),
}

/// How deep evaluations may be nested: every sub-expression and every
/// function body is evaluated one level below the expression around it.
pub const EVAL_DEPTH: usize = 1000;

pub open spec fn unknown_variable_error(name: Seq<char>) -> Seq<char> {
    "unknown variable: "@ + name
}

pub open spec fn arity_error(given: nat, expected: nat) -> Seq<char> {
    "function applied to "@ + decimal(given) + " arguments, but expected "@ + decimal(expected)
}

pub open spec fn depth_error() -> Seq<char> {
    "evaluation is nested too deeply"@
}

impl SpecValue {
    pub open spec fn as_i64(self) -> Result<i64, Seq<char>> {
        match self {
            SpecValue::Num(n) => Ok(n),
            _ => Err("expected i64, found something else"@),
        }
    }
}

/// The value of an expression in an environment, where evaluations are
/// nested at most `depth` deep. The arguments of a call are evaluated from
/// left to right before the function.
pub open spec fn eval_spec(expr: Expr, env: Seq<SpecValue>, depth: nat) -> Result<
    SpecValue,
    Seq<char>,
>
    decreases depth, 0nat,
{
    if depth == 0 {
        Err(depth_error())
    } else {
        let below = (depth - 1) as nat;
        match expr {
            Expr::Var(x, index) => match index {
                Some(i) => if 1 <= i <= env.len() {
                    Ok(env[env.len() - i])
                } else {
                    Err(unknown_variable_error(x@))
                },
                None => Err(unknown_variable_error(x@)),
            },
            Expr::Num(n) => Ok(SpecValue::Num(n)),
            Expr::Op(op, x, y) => match eval_spec(*x, env, below) {
                Err(e) => Err(e),
                Ok(x) => match x.as_i64() {
                    Err(e) => Err(e),
                    Ok(x) => match eval_spec(*y, env, below) {
                        Err(e) => Err(e),
                        Ok(y) => match y.as_i64() {
                            Err(e) => Err(e),
                            Ok(y) => match eval_op(op, x, y) {
                                Err(e) => Err(e),
                                Ok(z) => Ok(SpecValue::Num(z)),
                            },
                        },
                    },
                },
            },
            Expr::App(fun, args) => match eval_all(args@, env, below) {
                Err(e) => Err(e),
                Ok(args) => match eval_spec(*fun, env, below) {
                    Err(e) => Err(e),
                    Ok(SpecValue::Lam(params, body, captured)) => if params.len() != args.len() {
                        Err(arity_error(args.len(), params.len()))
                    } else {
                        eval_spec(body, captured + args, below)
                    },
                    Ok(_) => Err("expected lambda, found something else"@),
                },
            },
            Expr::Let(_, bound, body) => match eval_spec(*bound, env, below) {
                Err(e) => Err(e),
                Ok(value) => eval_spec(*body, env.push(value), below),
            },
            Expr::Lam(params, body) => Ok(SpecValue::Lam(names_view(params@), *body, env)),
        }
    }
}

/// The values of `exprs`, or the first error among them.
pub open spec fn eval_all(exprs: Seq<Expr>, env: Seq<SpecValue>, depth: nat) -> Result<
    Seq<SpecValue>,
    Seq<char>,
>
    decreases depth, exprs.len() + 1,
{
    if exprs.len() == 0 {
        Ok(Seq::empty())
    } else {
        match eval_all(exprs.drop_last(), env, depth) {
            Err(e) => Err(e),
            Ok(values) => match eval_spec(exprs.last(), env, depth) {
                Err(e) => Err(e),
                Ok(value) => Ok(values.push(value)),
            },
        }
    }
}

/// An error among the first `n` expressions is the error of all of them.
proof fn lemma_eval_all_prefix(exprs: Seq<Expr>, env: Seq<SpecValue>, depth: nat, n: int)
    requires
        0 <= n <= exprs.len(),
        eval_all(exprs.take(n), env, depth) is Err,
    ensures
        eval_all(exprs, env, depth) == eval_all(exprs.take(n), env, depth),
    decreases exprs.len() - n,
{
    if n < exprs.len() {
        assert(exprs.take(n + 1).drop_last() =~= exprs.take(n));
        lemma_eval_all_prefix(exprs, env, depth, n + 1);
    } else {
        assert(exprs.take(n) =~= exprs);
    }
}

/// The models of a sequence of shared values.
pub open spec fn values_view<'a>(values: Seq<Rc<Value<'a>>>) -> Seq<SpecValue>
    decreases values,
{
    Seq::new(
        values.len(),
        |i: int|
            if 0 <= i < values.len() {
                values[i].view()
            } else {
                SpecValue::Num(0)
            },
    )
}

/// The model of the result of an evaluation.
pub open spec fn value_result<'a>(r: Result<Rc<Value<'a>>, String>) -> Result<
    SpecValue,
    Seq<char>,
> {
    match r {
        Ok(value) => Ok(value@),
        Err(message) => Err(message@),
    }
}

impl<'a> Value<'a> {
    pub open spec fn view(&self) -> SpecValue
        decreases self,
    {
        match self {
            Value::Num(n) => SpecValue::Num(*n),
            Value::Lam(params, body, env) => SpecValue::Lam(
                names_view(params@),
                **body,
                env.view(),
            ),
        }
    }

    /// The number that the value is.
    pub fn as_i64(&self) -> (r: Result<i64, String>)
        ensures
            number_result(r) == self@.as_i64(),
    {
        if let Value::Num(n) = self {
            Ok(*n)
        } else {
            Err(String::from_str("expected i64, found something else"))
        }
    }

    /// The parameters, the body and the environment of the function that
    /// the value is.
    pub fn as_lam(&self) -> (r: Result<(&'a Vec<Name>, &'a Expr, &Env<'a>), String>)
        ensures
            match r {
                Ok((params, body, env)) => self@ == SpecValue::Lam(
                    names_view(params@),
                    *body,
                    env@,
                ),
                Err(message) => self is Num && message@
                    == "expected lambda, found something else"@,
            },
    {
        if let Value::Lam(params, body, env) = self {
            Ok((*params, *body, env))
        } else {
            Err(String::from_str("expected lambda, found something else"))
        }
    }
}

impl<'a> Env<'a> {
    pub closed spec fn view(&self) -> Seq<SpecValue>
        decreases self,
    {
        values_view(self.0@)
    }

    pub fn new() -> (env: Self)
        ensures
            env@ == Seq::<SpecValue>::empty(),
    {
        let env = Env(Vec::new());
        assert(env@ =~= Seq::<SpecValue>::empty());
        env
    }

    /// Number of bindings.
    pub fn len(&self) -> (n: usize)
        ensures
            n == self@.len(),
    {
        self.0.len()
    }

    fn push(&mut self, value: Rc<Value<'a>>)
        ensures
            final(self)@ == old(self)@.push(value@),
    {
        self.0.push(value);
        assert(self@ =~= old(self)@.push(value@));
    }

    fn push_many(&mut self, values: &Vec<Rc<Value<'a>>>)
        ensures
            final(self)@ == old(self)@ + values_view(values@),
    {
        let mut i: usize = 0;
        assert(self@ =~= old(self)@ + values_view(values@).take(0));
        while i < values.len()
            invariant
                i <= values.len(),
                self@ == old(self)@ + values_view(values@).take(i as int),
            decreases values.len() - i,
        {
            self.push(Rc::clone(&values[i]));
            assert(self@ =~= old(self)@ + values_view(values@).take(i + 1));
            i += 1;
        }
        assert(values_view(values@).take(values.len() as int) =~= values_view(values@));
    }

    fn truncate(&mut self, len: usize)
        requires
            len <= old(self)@.len(),
        ensures
            final(self)@ == old(self)@.take(len as int),
    {
        self.0.truncate(len);
        assert(self@ =~= old(self)@.take(len as int));
    }

    /// Runs `f` with `x` as the innermost binding and restores the
    /// environment afterwards.
    pub fn intro<T, F: FnOnce(&mut Self) -> T>(&mut self, x: Rc<Value<'a>>, f: F) -> (res: T)
        requires
            forall|env: &mut Env<'a>| env@ == old(self)@.push(x@) ==> call_requires(f, (env,)),
            forall|env: &mut Env<'a>, r: T| call_ensures(f, (env,), r) ==> final(env)@ == env@,
        ensures
            final(self)@ == old(self)@,
            exists|env: &mut Env<'a>| env@ == old(self)@.push(x@) && call_ensures(f, (env,), res),
    {
        let old_len = self.len();
        self.push(x);
        let res = f(self);
        self.truncate(old_len);
        assert(self@ =~= old(self)@);
        res
    }

    /// Runs `f` with `xs` as the innermost bindings, the last of them
    /// innermost, and restores the environment afterwards.
    pub fn intro_many<T, F: FnOnce(&mut Self) -> T>(
        &mut self,
        xs: Vec<Rc<Value<'a>>>,
        f: F,
    ) -> (res: T)
        requires
            forall|env: &mut Env<'a>|
                env@ == old(self)@ + values_view(xs@) ==> call_requires(f, (env,)),
            forall|env: &mut Env<'a>, r: T| call_ensures(f, (env,), r) ==> final(env)@ == env@,
        ensures
            final(self)@ == old(self)@,
            exists|env: &mut Env<'a>|
                env@ == old(self)@ + values_view(xs@) && call_ensures(f, (env,), res),
    {
        let old_len = self.len();
        self.push_many(&xs);
        let res = f(self);
        self.truncate(old_len);
        assert(self@ =~= old(self)@);
        res
    }

    /// The binding at de Bruijn distance `i`, if there is one.
    pub fn get(&self, i: usize) -> (value: Option<Rc<Value<'a>>>)
        ensures
            match value {
                Some(value) => 1 <= i <= self@.len() && value@ == self@[self@.len() - i],
                None => !(1 <= i <= self@.len()),
            },
    {
        if 1 <= i && i <= self.0.len() {
            Some(Rc::clone(&self.0[self.0.len() - i]))
        } else {
            None
        }
    }
}

impl<'a> Clone for Env<'a> {
    fn clone(&self) -> (copy: Self)
        ensures
            copy@ == self@,
    {
        let mut copy: Vec<Rc<Value<'a>>> = Vec::new();
        let mut i: usize = 0;
        while i < self.0.len()
            invariant
                i <= self.0.len(),
                copy@ == self.0@.take(i as int),
            decreases self.0.len() - i,
        {
            copy.push(Rc::clone(&self.0[i]));
            assert(self.0@.take(i + 1) =~= self.0@.take(i as int).push(self.0@[i as int]));
            i += 1;
        }
        assert(self.0@.take(self.0.len() as int) =~= self.0@);
        Env(copy)
    }
}

fn unknown_variable(name: &Name) -> (message: String)
    ensures
        message@ == unknown_variable_error(name@),
{
    let mut message = String::from_str("unknown variable: ");
    message.append(name.0.as_str());
    message
}

fn arity_mismatch(given: usize, expected: usize) -> (message: String)
    ensures
        message@ == arity_error(given as nat, expected as nat),
{
    let mut message = String::from_str("function applied to ");
    message.append(decimal_string(given as u64).as_str());
    message.append(" arguments, but expected ");
    message.append(decimal_string(expected as u64).as_str());
    message
}

impl Expr {
    /// Evaluates the expression in the empty environment.
    pub fn eval(&self) -> (r: Result<Rc<Value<'_>>, String>)
        ensures
            value_result(r) == eval_spec(*self, Seq::empty(), EVAL_DEPTH as nat),
    {
        let mut env = Env::new();
        self.eval_aux(&mut env, EVAL_DEPTH)
    }

    fn eval_aux<'a>(&'a self, env: &mut Env<'a>, depth: usize) -> (r: Result<
        Rc<Value<'a>>,
        String,
    >)
        ensures
            final(env)@ == old(env)@,
            value_result(r) == eval_spec(*self, old(env)@, depth as nat),
        decreases depth, 0nat,
    {
        if depth == 0 {
            return Err(String::from_str("evaluation is nested too deeply"));
        }
        let below = depth - 1;
        match self {
            Expr::Var(x, i) => match i {
                Some(i) => match env.get(*i) {
                    Some(v) => Ok(v),
                    None => Err(unknown_variable(x)),
                },
                None => Err(unknown_variable(x)),
            },
            Expr::Num(n) => Ok(Rc::new(Value::Num(*n))),
            Expr::Op(o, x, y) => {
                let x = match x.eval_aux(env, below) {
                    Err(e) => {
                        return Err(e);
                    },
                    Ok(x) => match x.as_i64() {
                        Err(e) => {
                            return Err(e);
                        },
                        Ok(x) => x,
                    },
                };
                let y = match y.eval_aux(env, below) {
                    Err(e) => {
                        return Err(e);
                    },
                    Ok(y) => match y.as_i64() {
                        Err(e) => {
                            return Err(e);
                        },
                        Ok(y) => y,
                    },
                };
                match o.eval(x, y) {
                    Err(e) => Err(e),
                    Ok(z) => Ok(Rc::new(Value::Num(z))),
                }
            },
            Expr::App(f, xs) => {
                let args = match Self::eval_each(xs, env, below) {
                    Err(e) => {
                        return Err(e);
                    },
                    Ok(args) => args,
                };
                let lam = match f.eval_aux(env, below) {
                    Err(e) => {
                        return Err(e);
                    },
                    Ok(lam) => lam,
                };
                match lam.as_lam() {
                    Err(e) => Err(e),
                    Ok((params, body, captured)) => {
                        if params.len() != args.len() {
                            assert(names_view(params@).len() == params@.len());
                            return Err(arity_mismatch(args.len(), params.len()));
                        }
                        let mut inner = captured.clone();
                        inner.push_many(&args);
                        body.eval_aux(&mut inner, below)
                    },
                }
            },
            Expr::Let(_x, e1, e2) => {
                match e1.eval_aux(env, below) {
                    Err(e) => Err(e),
                    Ok(v1) => {
                        let old_len = env.len();
                        env.push(v1);
                        let r = e2.eval_aux(env, below);
                        env.truncate(old_len);
                        assert(env@ =~= old(env)@);
                        r
                    },
                }
            },
            Expr::Lam(xs, e) => Ok(Rc::new(Value::Lam(xs, e, env.clone()))),
        }
    }

    fn eval_each<'a>(exprs: &'a Vec<Expr>, env: &mut Env<'a>, depth: usize) -> (r: Result<
        Vec<Rc<Value<'a>>>,
        String,
    >)
        ensures
            final(env)@ == old(env)@,
            match r {
                Ok(values) => eval_all(exprs@, old(env)@, depth as nat) == Ok::<
                    Seq<SpecValue>,
                    Seq<char>,
                >(values_view(values@)),
                Err(message) => eval_all(exprs@, old(env)@, depth as nat) == Err::<
                    Seq<SpecValue>,
                    Seq<char>,
                >(message@),
            },
        decreases depth, 1nat,
    {
        let mut values: Vec<Rc<Value<'a>>> = Vec::new();
        let mut i: usize = 0;
        assert(exprs@.take(0) =~= Seq::empty());
        assert(values_view(values@) =~= Seq::empty());
        while i < exprs.len()
            invariant
                i <= exprs.len(),
                env@ == old(env)@,
                eval_all(exprs@.take(i as int), old(env)@, depth as nat) == Ok::<
                    Seq<SpecValue>,
                    Seq<char>,
                >(values_view(values@)),
            decreases exprs.len() - i,
        {
            proof {
                assert(exprs@.take(i + 1).drop_last() =~= exprs@.take(i as int));
                assert(exprs@.take(i + 1).last() == exprs@[i as int]);
            }
            match exprs[i].eval_aux(env, depth) {
                Err(e) => {
                    proof {
                        lemma_eval_all_prefix(exprs@, old(env)@, depth as nat, i + 1);
                    }
                    return Err(e);
                },
                Ok(value) => {
                    let ghost before = values_view(values@);
                    values.push(value);
                    assert(values_view(values@) =~= before.push(value@));
                },
            }
            i += 1;
        }
        assert(exprs@.take(exprs.len() as int) =~= exprs@);
        Ok(values)
    }
}

} // verus!
