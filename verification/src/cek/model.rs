//! The mathematical model of the machine: values, control, continuations
//! and the transition function, all as pure specification code.

use crate::syntax::{names_view, Expr, OpCode};
use vstd::prelude::*;

verus! {

/// A runtime value.
pub enum SpecValue {
    Num(i64),
    Bool(bool),
    Pap(SpecPap),
    /// Fields in the order in which their names were first bound.
    Record(Seq<(Seq<char>, SpecValue)>),
    Fix(Box<SpecValue>),
}

/// A primitive together with the arguments it has received so far.
pub struct SpecPap {
    pub prim: SpecPrim,
    pub arity: nat,
    pub args: Seq<SpecValue>,
}

pub enum SpecPrim {
    Builtin(OpCode),
    /// Body and the environment captured when the lambda was evaluated.
    Lam(Expr, Seq<SpecValue>),
    Record(Seq<Seq<char>>),
    Proj(Seq<char>),
}

pub enum SpecCtrl {
    Evaluating,
    Expr(Expr),
    Value(SpecValue),
    Error(Seq<char>),
}

pub enum SpecKont {
    Dump(Seq<SpecValue>),
    Pop(nat),
    Arg(Expr),
    ArgValue(SpecValue),
    App(SpecValue),
    Let(Seq<char>, Expr),
    If(Expr, Expr),
}

/// A machine state. The top of the continuation stack and the innermost
/// binding of the environment are the last elements of their sequences.
pub struct SpecMachine {
    pub ctrl: SpecCtrl,
    pub env: Seq<SpecValue>,
    pub kont: Seq<SpecKont>,
}

/// The text that `{:?}` formatting gives for a value.
pub uninterp spec fn debug_text(v: SpecValue) -> Seq<char>;

/// Largest number of transitions that one run performs.
pub open spec fn step_limit() -> nat {
    u64::MAX as nat
}

pub open spec fn type_error(expected: Seq<char>, found: SpecValue) -> Seq<char> {
    "expected "@ + expected + ", found "@ + debug_text(found)
}

pub open spec fn unknown_field_error(field: Seq<char>) -> Seq<char> {
    "unknown field in record: "@ + field
}

pub open spec fn overflow_error() -> Seq<char> {
    "arithmetic overflow"@
}

pub open spec fn division_by_zero_error() -> Seq<char> {
    "division by zero"@
}

pub open spec fn step_limit_error() -> Seq<char> {
    "step limit exceeded"@
}

/// Quotient rounded towards zero.
pub open spec fn truncating_quotient(x: int, y: int) -> int
    recommends
        y != 0,
{
    if x >= 0 {
        if y > 0 {
            x / y
        } else {
            -(x / (-y))
        }
    } else {
        if y > 0 {
            -((-x) / y)
        } else {
            (-x) / (-y)
        }
    }
}

/// Position of the field called `name`, the last one if there are several.
pub open spec fn index_of(fields: Seq<(Seq<char>, SpecValue)>, name: Seq<char>) -> Option<int>
    decreases fields.len(),
{
    if fields.len() == 0 {
        None
    } else if fields.last().0 == name {
        Some(fields.len() - 1)
    } else {
        index_of(fields.drop_last(), name)
    }
}

pub open spec fn lookup(fields: Seq<(Seq<char>, SpecValue)>, name: Seq<char>) -> Option<
    SpecValue,
> {
    match index_of(fields, name) {
        Some(i) => Some(fields[i].1),
        None => None,
    }
}

/// Binds `name` to `value`: replaces the field of that name if there is one
/// and appends a new field otherwise.
pub open spec fn record_insert(
    fields: Seq<(Seq<char>, SpecValue)>,
    name: Seq<char>,
    value: SpecValue,
) -> Seq<(Seq<char>, SpecValue)> {
    match index_of(fields, name) {
        Some(i) => fields.update(i, (name, value)),
        None => fields.push((name, value)),
    }
}

/// The record that binds each of `names` to the value at the same position
/// of `values`, from left to right; a name bound twice keeps its last value.
pub open spec fn record_of(names: Seq<Seq<char>>, values: Seq<SpecValue>) -> Seq<
    (Seq<char>, SpecValue),
>
    recommends
        names.len() == values.len(),
    decreases names.len(),
{
    if names.len() == 0 || values.len() == 0 {
        Seq::empty()
    } else {
        record_insert(
            record_of(names.drop_last(), values.drop_last()),
            names.last(),
            values.last(),
        )
    }
}

pub open spec fn unique_names(fields: Seq<(Seq<char>, SpecValue)>) -> bool {
    forall|i: int, j: int|
        0 <= i < fields.len() && 0 <= j < fields.len() && i != j ==> fields[i].0 != fields[j].0
}

impl SpecValue {
    pub open spec fn as_i64(self) -> Result<i64, Seq<char>> {
        match self {
            SpecValue::Num(n) => Ok(n),
            _ => Err(type_error("i64"@, self)),
        }
    }

    pub open spec fn as_bool(self) -> Result<bool, Seq<char>> {
        match self {
            SpecValue::Bool(b) => Ok(b),
            _ => Err(type_error("bool"@, self)),
        }
    }

    pub open spec fn as_record(self) -> Result<Seq<(Seq<char>, SpecValue)>, Seq<char>> {
        match self {
            SpecValue::Record(fields) => Ok(fields),
            _ => Err(type_error("record"@, self)),
        }
    }

    /// Structural equality: numbers and booleans by value, records by their
    /// sets of names and the values bound to each name. Every other pair of
    /// values is unequal.
    pub open spec fn equals(self, other: SpecValue) -> bool
        decreases self,
    {
        match (self, other) {
            (SpecValue::Num(x), SpecValue::Num(y)) => x == y,
            (SpecValue::Bool(x), SpecValue::Bool(y)) => x == y,
            (SpecValue::Record(xs), SpecValue::Record(ys)) => {
                &&& forall|i: int|
                    0 <= i < xs.len() ==> match lookup(ys, (#[trigger] xs[i]).0) {
                        Some(y) => xs[i].1.equals(y),
                        None => false,
                    }
                &&& forall|j: int|
                    0 <= j < ys.len() ==> index_of(xs, (#[trigger] ys[j]).0) is Some
            },
            _ => false,
        }
    }

    /// The invariant of values that the machine builds: a partial
    /// application still waits for an argument, the body of a closure is
    /// closed under its captured environment and its parameters, and the
    /// names of a record are distinct.
    pub open spec fn wf(self) -> bool
        decreases self,
    {
        match self {
            SpecValue::Num(_) | SpecValue::Bool(_) => true,
            SpecValue::Pap(pap) => {
                &&& pap.args.len() < pap.arity <= usize::MAX
                &&& forall|i: int| 0 <= i < pap.args.len() ==> (#[trigger] pap.args[i]).wf()
                &&& match pap.prim {
                    SpecPrim::Builtin(op) => pap.arity == op.spec_arity(),
                    SpecPrim::Lam(body, env) => {
                        &&& body.closed(env.len() + pap.arity)
                        &&& forall|i: int| 0 <= i < env.len() ==> (#[trigger] env[i]).wf()
                    },
                    SpecPrim::Record(names) => pap.arity == names.len(),
                    SpecPrim::Proj(_) => pap.arity == 1,
                }
            },
            SpecValue::Record(fields) => {
                &&& unique_names(fields)
                &&& forall|i: int| 0 <= i < fields.len() ==> (#[trigger] fields[i]).1.wf()
            },
            SpecValue::Fix(fun) => fun.wf(),
        }
    }
}

pub open spec fn all_wf(values: Seq<SpecValue>) -> bool {
    forall|i: int| 0 <= i < values.len() ==> (#[trigger] values[i]).wf()
}

/// Result of the arithmetic operator `op` on two numbers.
pub open spec fn eval_arith_spec(op: OpCode, x: i64, y: i64) -> Result<SpecValue, Seq<char>> {
    let exact: int = match op {
        OpCode::Add => x + y,
        OpCode::Sub => x - y,
        OpCode::Mul => x * y,
        _ => if y == 0 {
            0
        } else {
            truncating_quotient(x as int, y as int)
        },
    };
    if op == OpCode::Div && y == 0 {
        Err(division_by_zero_error())
    } else if i64::MIN <= exact <= i64::MAX {
        Ok(SpecValue::Num(exact as i64))
    } else {
        Err(overflow_error())
    }
}

/// Result of the comparison operator `op` on two numbers.
pub open spec fn eval_comp_spec(op: OpCode, x: i64, y: i64) -> bool {
    match op {
        OpCode::Less => x < y,
        OpCode::LessEq => x <= y,
        OpCode::Greater => x > y,
        _ => x >= y,
    }
}

/// The two numbers that a binary operator on numbers receives. The first
/// argument is inspected before the second.
pub open spec fn binary_numbers(args: Seq<SpecValue>) -> Result<(i64, i64), Seq<char>>
    recommends
        args.len() >= 2,
{
    match args[0].as_i64() {
        Err(e) => Err(e),
        Ok(x) => match args[1].as_i64() {
            Err(e) => Err(e),
            Ok(y) => Ok((x, y)),
        },
    }
}

pub open spec fn eval_arith_args(op: OpCode, args: Seq<SpecValue>) -> Result<SpecValue, Seq<char>>
    recommends
        args.len() >= 2,
{
    match binary_numbers(args) {
        Err(e) => Err(e),
        Ok((x, y)) => eval_arith_spec(op, x, y),
    }
}

pub open spec fn eval_comp_args(op: OpCode, args: Seq<SpecValue>) -> Result<SpecValue, Seq<char>>
    recommends
        args.len() >= 2,
{
    match binary_numbers(args) {
        Err(e) => Err(e),
        Ok((x, y)) => Ok(SpecValue::Bool(eval_comp_spec(op, x, y))),
    }
}

/// Result of a builtin operator on exactly as many arguments as its arity.
pub open spec fn eval_builtin(op: OpCode, args: Seq<SpecValue>) -> Result<SpecValue, Seq<char>>
    recommends
        args.len() == op.spec_arity(),
{
    match op {
        OpCode::Add | OpCode::Sub | OpCode::Mul | OpCode::Div => eval_arith_args(op, args),
        OpCode::Equals => Ok(SpecValue::Bool(args[0].equals(args[1]))),
        OpCode::NotEq => Ok(SpecValue::Bool(!args[0].equals(args[1]))),
        OpCode::Less | OpCode::LessEq | OpCode::Greater | OpCode::GreaterEq => eval_comp_args(
            op,
            args,
        ),
        OpCode::Fix => Ok(SpecValue::Fix(Box::new(args[0]))),
    }
}

/// The continuations that evaluate `args` from left to right: the first
/// argument is on top of the stack, that is, last in the sequence.
pub open spec fn arg_konts(args: Seq<Expr>) -> Seq<SpecKont> {
    Seq::new(args.len(), |i: int| SpecKont::Arg(args[args.len() - 1 - i]))
}

pub open spec fn fresh_pap(prim: SpecPrim, arity: nat) -> SpecValue {
    SpecValue::Pap(SpecPap { prim, arity, args: Seq::empty() })
}

/// Whether a continuation can be popped in an environment of `depth`
/// bindings.
pub open spec fn kont_fits(top: SpecKont, depth: nat) -> bool {
    match top {
        SpecKont::Dump(env) => all_wf(env),
        SpecKont::Pop(count) => count <= depth,
        SpecKont::Arg(arg) => arg.closed(depth),
        SpecKont::ArgValue(arg) => arg.wf(),
        SpecKont::App(fun) => fun.wf(),
        SpecKont::Let(_, body) => body.closed(depth + 1),
        SpecKont::If(then, elze) => then.closed(depth) && elze.closed(depth),
    }
}

/// Number of bindings of the environment in which the continuation below
/// `top` is popped, if `top` is popped at `depth` bindings.
pub open spec fn depth_below(top: SpecKont, depth: nat) -> nat {
    match top {
        SpecKont::Dump(env) => env.len(),
        SpecKont::Pop(count) => (depth - count) as nat,
        _ => depth,
    }
}

/// Whether the continuations in `kont` fit an environment of `depth`
/// bindings: each can be popped in the environment that will be current
/// when its turn comes.
pub open spec fn kont_wf(kont: Seq<SpecKont>, depth: nat) -> bool
    decreases kont.len(),
{
    kont.len() > 0 ==> {
        &&& kont_fits(kont.last(), depth)
        &&& kont_wf(kont.drop_last(), depth_below(kont.last(), depth))
    }
}

impl SpecMachine {
    /// The state in which evaluation of `expr` starts.
    pub open spec fn init(expr: Expr) -> SpecMachine {
        SpecMachine { ctrl: SpecCtrl::Expr(expr), env: Seq::empty(), kont: Seq::empty() }
    }

    /// The state in which `expr` is evaluated in `env` with `kont` pending.
    pub open spec fn evaluating(expr: Expr, env: Seq<SpecValue>, kont: Seq<SpecKont>) -> SpecMachine {
        SpecMachine { ctrl: SpecCtrl::Expr(expr), env, kont }
    }

    /// The invariant of reachable states.
    pub open spec fn wf(self) -> bool {
        &&& all_wf(self.env)
        &&& kont_wf(self.kont, self.env.len())
        &&& match self.ctrl {
            SpecCtrl::Evaluating => false,
            SpecCtrl::Expr(expr) => expr.closed(self.env.len()),
            SpecCtrl::Value(value) => value.wf(),
            SpecCtrl::Error(_) => true,
        }
    }

    pub open spec fn with_ctrl(self, ctrl: SpecCtrl) -> SpecMachine {
        SpecMachine { ctrl, ..self }
    }

    pub open spec fn with_value(self, value: SpecValue) -> SpecMachine {
        SpecMachine { ctrl: SpecCtrl::Value(value), ..self }
    }

    pub open spec fn with_error(self, message: Seq<char>) -> SpecMachine {
        SpecMachine { ctrl: SpecCtrl::Error(message), ..self }
    }

    /// The same state with the stack `base` below its continuations.
    pub open spec fn on_top_of(self, base: Seq<SpecKont>) -> SpecMachine {
        SpecMachine { kont: base + self.kont, ..self }
    }

    /// The binding at de Bruijn distance `index`.
    pub open spec fn env_get(self, index: nat) -> SpecValue
        recommends
            1 <= index <= self.env.len(),
    {
        self.env[self.env.len() - index]
    }

    /// The transition for an expression in control.
    pub open spec fn step_expr(self, expr: Expr) -> SpecMachine {
        match expr {
            Expr::Var(_, index) => self.with_value(self.env_get(index.unwrap() as nat)),
            Expr::Num(n) => self.with_value(SpecValue::Num(n)),
            Expr::Bool(b) => self.with_value(SpecValue::Bool(b)),
            Expr::PrimOp(op) => self.with_value(fresh_pap(SpecPrim::Builtin(op), op.spec_arity())),
            Expr::App(fun, args) => SpecMachine {
                ctrl: SpecCtrl::Expr(*fun),
                env: self.env,
                kont: self.kont + arg_konts(args@),
            },
            Expr::Lam(params, body) => self.with_value(
                fresh_pap(SpecPrim::Lam(*body, self.env), params@.len()),
            ),
            Expr::Let(binder, bound, body) => SpecMachine {
                ctrl: SpecCtrl::Expr(*bound),
                env: self.env,
                kont: self.kont.push(SpecKont::Let(binder@, *body)),
            },
            Expr::If(cond, then, elze) => SpecMachine {
                ctrl: SpecCtrl::Expr(*cond),
                env: self.env,
                kont: self.kont.push(SpecKont::If(*then, *elze)),
            },
            Expr::Record(fields, exprs) => if fields@.len() > 0 {
                SpecMachine {
                    ctrl: SpecCtrl::Value(
                        fresh_pap(SpecPrim::Record(names_view(fields@)), fields@.len()),
                    ),
                    env: self.env,
                    kont: self.kont + arg_konts(exprs@),
                }
            } else {
                self.with_value(SpecValue::Record(Seq::empty()))
            },
            Expr::Proj(record, field) => SpecMachine {
                ctrl: SpecCtrl::Value(fresh_pap(SpecPrim::Proj(field@), 1)),
                env: self.env,
                kont: self.kont.push(SpecKont::Arg(*record)),
            },
        }
    }

    /// Enters a primitive that has received all its arguments.
    pub open spec fn enter_prim(self, prim: SpecPrim, args: Seq<SpecValue>) -> SpecMachine {
        match prim {
            SpecPrim::Builtin(op) => match eval_builtin(op, args) {
                Ok(value) => self.with_value(value),
                Err(message) => self.with_error(message),
            },
            SpecPrim::Lam(body, env) => SpecMachine {
                ctrl: SpecCtrl::Expr(body),
                env: env + args,
                kont: self.kont.push(SpecKont::Dump(self.env)),
            },
            SpecPrim::Record(names) => self.with_value(SpecValue::Record(record_of(names, args))),
            SpecPrim::Proj(field) => match args[0].as_record() {
                Ok(fields) => match lookup(fields, field) {
                    Some(value) => self.with_value(value),
                    None => self.with_error(unknown_field_error(field)),
                },
                Err(message) => self.with_error(message),
            },
        }
    }

    /// Hands `arg` to a partial application and enters its primitive if
    /// that was the last argument it waited for.
    pub open spec fn pap_apply_arg(self, pap: SpecPap, arg: SpecValue) -> SpecMachine {
        let args = pap.args.push(arg);
        if args.len() == pap.arity {
            self.enter_prim(pap.prim, args)
        } else {
            self.with_value(SpecValue::Pap(SpecPap { prim: pap.prim, arity: pap.arity, args }))
        }
    }

    /// Applies a fixed point of `fun` to `arg`: `fun` receives the fixed
    /// point itself and then `arg`.
    pub open spec fn fix_apply_arg(self, fun: SpecValue, arg: SpecValue) -> SpecMachine {
        SpecMachine {
            ctrl: SpecCtrl::Value(fun),
            env: self.env,
            kont: self.kont.push(SpecKont::ArgValue(arg)).push(
                SpecKont::ArgValue(SpecValue::Fix(Box::new(fun))),
            ),
        }
    }

    /// The transition for a value in control and the continuation `kont`
    /// that was popped from the stack.
    pub open spec fn step_value(self, value: SpecValue, kont: SpecKont) -> SpecMachine {
        match kont {
            SpecKont::Dump(env) => SpecMachine {
                ctrl: SpecCtrl::Value(value),
                env,
                kont: self.kont,
            },
            SpecKont::Pop(count) => SpecMachine {
                ctrl: SpecCtrl::Value(value),
                env: self.env.take(self.env.len() - count),
                kont: self.kont,
            },
            SpecKont::Arg(arg) => SpecMachine {
                ctrl: SpecCtrl::Expr(arg),
                env: self.env,
                kont: self.kont.push(SpecKont::App(value)),
            },
            SpecKont::ArgValue(arg) => SpecMachine {
                ctrl: SpecCtrl::Value(arg),
                env: self.env,
                kont: self.kont.push(SpecKont::App(value)),
            },
            SpecKont::App(fun) => match fun {
                SpecValue::Pap(pap) => self.pap_apply_arg(pap, value),
                SpecValue::Fix(inner) => self.fix_apply_arg(*inner, value),
                _ => self.with_error(type_error("PAP"@, fun)),
            },
            SpecKont::Let(_, body) => SpecMachine {
                ctrl: SpecCtrl::Expr(body),
                env: self.env.push(value),
                kont: self.kont.push(SpecKont::Pop(1)),
            },
            SpecKont::If(then, elze) => match value.as_bool() {
                Ok(true) => self.with_ctrl(SpecCtrl::Expr(then)),
                Ok(false) => self.with_ctrl(SpecCtrl::Expr(elze)),
                Err(message) => self.with_error(message),
            },
        }
    }

    /// Whether the machine has stopped: with a value and nothing left to
    /// do, or with an error.
    pub open spec fn is_final(self) -> bool {
        match self.ctrl {
            SpecCtrl::Value(_) => self.kont.len() == 0,
            SpecCtrl::Error(_) => true,
            _ => false,
        }
    }

    /// One transition. A final state steps to itself.
    pub open spec fn step(self) -> SpecMachine {
        match self.ctrl {
            SpecCtrl::Expr(expr) => self.step_expr(expr),
            SpecCtrl::Value(value) => if self.kont.len() > 0 {
                SpecMachine { kont: self.kont.drop_last(), ..self }.step_value(
                    value,
                    self.kont.last(),
                )
            } else {
                self
            },
            _ => self,
        }
    }

    /// The state after `n` transitions.
    pub open spec fn steps(self, n: nat) -> SpecMachine
        decreases n,
    {
        if n == 0 {
            self
        } else {
            self.step().steps((n - 1) as nat)
        }
    }

    /// What a final state stands for.
    pub open spec fn outcome(self) -> Result<SpecValue, Seq<char>>
        recommends
            self.is_final(),
    {
        match self.ctrl {
            SpecCtrl::Value(value) => Ok(value),
            SpecCtrl::Error(message) => Err(message),
            _ => Err(step_limit_error()),
        }
    }

    /// The outcome of the first final state that is reached within `fuel`
    /// transitions, or the step limit error if there is none.
    pub open spec fn run(self, fuel: nat) -> Result<SpecValue, Seq<char>>
        decreases fuel,
    {
        if self.is_final() {
            self.outcome()
        } else if fuel == 0 {
            Err(step_limit_error())
        } else {
            self.step().run((fuel - 1) as nat)
        }
    }
}

} // verus!
