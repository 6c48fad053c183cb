//! A CEK machine for the first calculus. A primitive collects its
//! arguments in control; there is no partial application, and every way in
//! which evaluation can go wrong is a state of its own.

use crate::proto::syntax::{Expr, Name, Opcode};
use std::rc::Rc;
use vstd::prelude::*;
use vstd::string::StringExecFns;

verus! {

#[derive(Debug)]
pub enum Value<'a> {
    Num(i64),
    Lam(usize, &'a Expr, Env<'a>),
}

#[derive(Debug)]
pub struct Env<'a> {
    stack: Vec<Rc<Value<'a>>>,
}

#[derive(Debug)]
enum Prim<'a> {
    Builtin(&'a Opcode),
    Lam(&'a Expr, Env<'a>),
}

#[derive(Debug)]
struct PAP<'a> {
    prim: Prim<'a>,
    args: Vec<Rc<Value<'a>>>,
    missing: usize,
}

#[derive(Debug)]
enum Ctrl<'a> {
    Evaluating,
    Expr(&'a Expr),
    PAP(PAP<'a>),
    Value(Rc<Value<'a>>),
    Error(String),
}

#[derive(Debug)]
enum Kont<'a> {
    Dump(Env<'a>),
    Pop(usize),
    Arg(&'a Expr),
    PAP(PAP<'a>),
    Exec,
    Let(&'a Name, &'a Expr),
}

#[derive(Debug)]
pub struct State<'a> {
    ctrl: Ctrl<'a>,
    env: Env<'a>,
    kont: Vec<Kont<'a>>,
}

/// The model of a value: a number, or a function with the number of its
/// parameters, its body and the environment it was made in.
pub enum SpecValue {
    Num(i64),
    Lam(nat, Expr, Seq<SpecValue>),
}

pub enum SpecPrim {
    Builtin(Opcode),
    Lam(Expr, Seq<SpecValue>),
}

/// A primitive, the arguments it has, and how many it still waits for.
pub struct SpecPap {
    pub prim: SpecPrim,
    pub args: Seq<SpecValue>,
    pub missing: nat,
}

pub enum SpecCtrl {
    Evaluating,
    Expr(Expr),
    Pap(SpecPap),
    Value(SpecValue),
    Error(Seq<char>),
}

pub enum SpecKont {
    Dump(Seq<SpecValue>),
    Pop(nat),
    Arg(Expr),
    Pap(SpecPap),
    Exec,
    Let(Seq<char>, Expr),
}

/// A machine state. The top of the continuation stack and the innermost
/// binding of the environment are the last elements of their sequences.
pub struct SpecState {
    pub ctrl: SpecCtrl,
    pub env: Seq<SpecValue>,
    pub kont: Seq<SpecKont>,
}

/// Largest number of transitions that one run performs.
pub open spec fn step_limit() -> nat {
    u64::MAX as nat
}

/// The result of an operator on two numbers.
pub open spec fn eval_op(op: Opcode, x: i64, y: i64) -> Result<i64, Seq<char>> {
    let exact: int = match op {
        Opcode::Add => x + y,
        Opcode::Sub => x - y,
        Opcode::Mul => x * y,
        Opcode::Div => if y == 0 {
            0
        } else {
            crate::cek::model::truncating_quotient(x as int, y as int)
        },
    };
    if op == Opcode::Div && y == 0 {
        Err("division by zero"@)
    } else if i64::MIN <= exact <= i64::MAX {
        Ok(exact as i64)
    } else {
        Err("arithmetic overflow"@)
    }
}

/// The continuations that evaluate `args` from left to right.
pub open spec fn arg_konts(args: Seq<Expr>) -> Seq<SpecKont> {
    Seq::new(args.len(), |i: int| SpecKont::Arg(args[args.len() - 1 - i]))
}

impl SpecState {
    /// The state in which evaluation of `expr` starts.
    pub open spec fn init(expr: Expr) -> SpecState {
        SpecState { ctrl: SpecCtrl::Expr(expr), env: Seq::empty(), kont: Seq::empty() }
    }

    pub open spec fn with_value(self, value: SpecValue) -> SpecState {
        SpecState { ctrl: SpecCtrl::Value(value), ..self }
    }

    pub open spec fn with_error(self, message: Seq<char>) -> SpecState {
        SpecState { ctrl: SpecCtrl::Error(message), ..self }
    }

    /// The transition for an expression in control.
    pub open spec fn step_expr(self, expr: Expr) -> SpecState {
        match expr {
            Expr::Num(n) => self.with_value(SpecValue::Num(n)),
            Expr::Var(_, index) => match index {
                None => self.with_error("unindexed variable"@),
                Some(i) => if 1 <= i <= self.env.len() {
                    self.with_value(self.env[self.env.len() - i])
                } else {
                    self.with_error("bad de Bruijn index"@)
                },
            },
            Expr::Op(op, x, y) => SpecState {
                ctrl: SpecCtrl::Pap(
                    SpecPap { prim: SpecPrim::Builtin(op), args: Seq::empty(), missing: 2 },
                ),
                env: self.env,
                kont: self.kont.push(SpecKont::Arg(*y)).push(SpecKont::Arg(*x)),
            },
            Expr::App(fun, args) => SpecState {
                ctrl: SpecCtrl::Expr(*fun),
                env: self.env,
                kont: (self.kont + arg_konts(args@)).push(SpecKont::Exec),
            },
            Expr::Let(binder, bound, body) => SpecState {
                ctrl: SpecCtrl::Expr(*bound),
                env: self.env,
                kont: self.kont.push(SpecKont::Let(binder@, *body)),
            },
            Expr::Lam(params, body) => self.with_value(
                SpecValue::Lam(params@.len(), *body, self.env),
            ),
        }
    }

    /// The transition for a primitive that has all its arguments.
    pub open spec fn step_saturated_prim(self, prim: SpecPrim, args: Seq<SpecValue>) -> SpecState {
        match prim {
            SpecPrim::Builtin(op) => if args.len() != 2 {
                self.with_error("expected two arguments"@)
            } else {
                match (args[0], args[1]) {
                    (SpecValue::Num(x), SpecValue::Num(y)) => match eval_op(op, x, y) {
                        Ok(z) => self.with_value(SpecValue::Num(z)),
                        Err(message) => self.with_error(message),
                    },
                    _ => self.with_error("expected i64, found a function"@),
                }
            },
            SpecPrim::Lam(body, env) => SpecState {
                ctrl: SpecCtrl::Expr(body),
                env: env + args,
                kont: self.kont.push(SpecKont::Dump(self.env)),
            },
        }
    }

    /// The transition for a value in control and the continuation `kont`
    /// that was popped from the stack.
    pub open spec fn step_value(self, value: SpecValue, kont: SpecKont) -> SpecState {
        match kont {
            SpecKont::Dump(env) => SpecState {
                ctrl: SpecCtrl::Value(value),
                env,
                kont: self.kont,
            },
            SpecKont::Pop(count) => if count <= self.env.len() {
                SpecState {
                    ctrl: SpecCtrl::Value(value),
                    env: self.env.take(self.env.len() - count),
                    kont: self.kont,
                }
            } else {
                self.with_error("bad environment"@)
            },
            SpecKont::Arg(_) => self.with_error("applying value"@),
            SpecKont::Pap(pap) => if pap.missing > 0 {
                SpecState {
                    ctrl: SpecCtrl::Pap(
                        SpecPap {
                            prim: pap.prim,
                            args: pap.args.push(value),
                            missing: (pap.missing - 1) as nat,
                        },
                    ),
                    ..self
                }
            } else {
                self.with_error("too many args for PAP"@)
            },
            SpecKont::Exec => match value {
                SpecValue::Lam(arity, body, env) => SpecState {
                    ctrl: SpecCtrl::Pap(
                        SpecPap {
                            prim: SpecPrim::Lam(body, env),
                            args: Seq::empty(),
                            missing: arity,
                        },
                    ),
                    ..self
                },
                _ => self.with_error("executing non lambda"@),
            },
            SpecKont::Let(_, body) => SpecState {
                ctrl: SpecCtrl::Expr(body),
                env: self.env.push(value),
                kont: self.kont.push(SpecKont::Pop(1)),
            },
        }
    }

    /// The transition for a primitive in control: it is entered if it has
    /// all its arguments and else takes the next argument from the stack.
    pub open spec fn step_pap(self, pap: SpecPap) -> SpecState {
        if pap.missing == 0 {
            self.step_saturated_prim(pap.prim, pap.args)
        } else if self.kont.len() > 0 {
            let rest = SpecState { kont: self.kont.drop_last(), ..self };
            match self.kont.last() {
                SpecKont::Arg(arg) => SpecState {
                    ctrl: SpecCtrl::Expr(arg),
                    env: self.env,
                    kont: rest.kont.push(SpecKont::Pap(pap)),
                },
                _ => rest.with_error("not enough args for PAP"@),
            }
        } else {
            self.with_error("not enough args for PAP"@)
        }
    }

    /// Whether the machine has stopped: with a value and nothing left to
    /// do, or with an error.
    pub open spec fn is_final(self) -> bool {
        match self.ctrl {
            SpecCtrl::Value(_) => self.kont.len() == 0,
            SpecCtrl::Error(_) => true,
            _ => false,
        }
    }

    /// One transition. A final state steps to itself.
    pub open spec fn step(self) -> SpecState {
        match self.ctrl {
            SpecCtrl::Evaluating => self.with_error("control was not updated after last step"@),
            SpecCtrl::Expr(expr) => self.step_expr(expr),
            SpecCtrl::Pap(pap) => self.step_pap(pap),
            SpecCtrl::Value(value) => if self.kont.len() > 0 {
                SpecState { kont: self.kont.drop_last(), ..self }.step_value(
                    value,
                    self.kont.last(),
                )
            } else {
                self
            },
            SpecCtrl::Error(_) => self,
        }
    }

    /// What a final state stands for.
    pub open spec fn outcome(self) -> Result<SpecValue, Seq<char>> {
        match self.ctrl {
            SpecCtrl::Value(value) => Ok(value),
            SpecCtrl::Error(message) => Err(message),
            _ => Err("step limit exceeded"@),
        }
    }

    /// The outcome of the first final state that is reached within `fuel`
    /// transitions, or the step limit error if there is none.
    pub open spec fn run(self, fuel: nat) -> Result<SpecValue, Seq<char>>
        decreases fuel,
    {
        if self.is_final() {
            self.outcome()
        } else if fuel == 0 {
            Err("step limit exceeded"@)
        } else {
            self.step().run((fuel - 1) as nat)
        }
    }
}

/// The models of a sequence of shared values.
pub open spec fn values_view<'a>(values: Seq<Rc<Value<'a>>>) -> Seq<SpecValue>
    decreases values,
{
    Seq::new(
        values.len(),
        |i: int|
            if 0 <= i < values.len() {
                values[i].view()
            } else {
                SpecValue::Num(0)
            },
    )
}

impl<'a> Value<'a> {
    pub open spec fn view(&self) -> SpecValue
        decreases self,
    {
        match self {
            Value::Num(n) => SpecValue::Num(*n),
            Value::Lam(arity, body, env) => SpecValue::Lam(*arity as nat, **body, env.view()),
        }
    }

    /// The number that the value is.
    pub fn as_i64(&self) -> (n: i64)
        requires
            self is Num,
        ensures
            self@ == SpecValue::Num(n),
    {
        match self {
            Value::Num(n) => *n,
            Value::Lam(_, _, _) => 0,
        }
    }
}

impl<'a> Env<'a> {
    pub closed spec fn view(&self) -> Seq<SpecValue>
        decreases self,
    {
        values_view(self.stack@)
    }

    fn new() -> (env: Self)
        ensures
            env@ == Seq::<SpecValue>::empty(),
    {
        let env = Env { stack: Vec::new() };
        assert(env@ =~= Seq::<SpecValue>::empty());
        env
    }

    /// The binding at de Bruijn distance `index`, if there is one.
    fn get(&self, index: usize) -> (value: Option<&Rc<Value<'a>>>)
        ensures
            match value {
                Some(value) => 1 <= index <= self@.len() && value@ == self@[self@.len() - index],
                None => !(1 <= index <= self@.len()),
            },
    {
        if 1 <= index && index <= self.stack.len() {
            Some(&self.stack[self.stack.len() - index])
        } else {
            None
        }
    }

    /// Number of bindings.
    pub fn len(&self) -> (n: usize)
        ensures
            n == self@.len(),
    {
        self.stack.len()
    }

    /// Adds `value` as the innermost binding.
    pub fn push(&mut self, value: Rc<Value<'a>>)
        ensures
            final(self)@ == old(self)@.push(value@),
    {
        self.stack.push(value);
        assert(self@ =~= old(self)@.push(value@));
    }

    /// Adds `args` as the innermost bindings, the last of them innermost.
    pub fn push_many(&mut self, args: &[Rc<Value<'a>>])
        ensures
            final(self)@ == old(self)@ + values_view(args@),
    {
        let mut i: usize = 0;
        assert(self@ =~= old(self)@ + values_view(args@).take(0));
        while i < args.len()
            invariant
                i <= args.len(),
                self@ == old(self)@ + values_view(args@).take(i as int),
            decreases args.len() - i,
        {
            self.push(Rc::clone(&args[i]));
            assert(self@ =~= old(self)@ + values_view(args@).take(i + 1));
            i += 1;
        }
        assert(values_view(args@).take(args.len() as int) =~= values_view(args@));
    }

    /// Drops the `count` innermost bindings.
    pub fn pop_many(&mut self, count: usize)
        requires
            count <= old(self)@.len(),
        ensures
            final(self)@ == old(self)@.take(old(self)@.len() - count),
    {
        let new_len = self.stack.len() - count;
        self.stack.truncate(new_len);
        assert(self@ =~= old(self)@.take(old(self)@.len() - count));
    }
}

impl<'a> Clone for Env<'a> {
    fn clone(&self) -> (copy: Self)
        ensures
            copy@ == self@,
    {
        let mut copy: Vec<Rc<Value<'a>>> = Vec::new();
        let mut i: usize = 0;
        while i < self.stack.len()
            invariant
                i <= self.stack.len(),
                copy@ == self.stack@.take(i as int),
            decreases self.stack.len() - i,
        {
            copy.push(Rc::clone(&self.stack[i]));
            assert(self.stack@.take(i + 1) =~= self.stack@.take(i as int).push(
                self.stack@[i as int],
            ));
            i += 1;
        }
        assert(self.stack@.take(self.stack.len() as int) =~= self.stack@);
        Env { stack: copy }
    }
}

impl<'a> Prim<'a> {
    closed spec fn view(&self) -> SpecPrim {
        match self {
            Prim::Builtin(op) => SpecPrim::Builtin(**op),
            Prim::Lam(body, env) => SpecPrim::Lam(**body, env.view()),
        }
    }
}

impl<'a> PAP<'a> {
    closed spec fn view(&self) -> SpecPap {
        SpecPap {
            prim: self.prim.view(),
            args: values_view(self.args@),
            missing: self.missing as nat,
        }
    }
}

impl<'a> Ctrl<'a> {
    closed spec fn view(&self) -> SpecCtrl {
        match self {
            Ctrl::Evaluating => SpecCtrl::Evaluating,
            Ctrl::Expr(expr) => SpecCtrl::Expr(**expr),
            Ctrl::PAP(pap) => SpecCtrl::Pap(pap.view()),
            Ctrl::Value(value) => SpecCtrl::Value(value.view()),
            Ctrl::Error(message) => SpecCtrl::Error(message@),
        }
    }

    fn from_value(v: Value<'a>) -> (ctrl: Self)
        ensures
            ctrl@ == SpecCtrl::Value(v@),
    {
        Ctrl::Value(Rc::new(v))
    }

    fn from_prim(prim: Prim<'a>, arity: usize) -> (ctrl: Self)
        ensures
            ctrl@ == SpecCtrl::Pap(
                SpecPap { prim: prim@, args: Seq::empty(), missing: arity as nat },
            ),
    {
        let pap = PAP { prim, args: Vec::new(), missing: arity };
        assert(values_view(pap.args@) =~= Seq::<SpecValue>::empty());
        Ctrl::PAP(pap)
    }

    fn error(message: &str) -> (ctrl: Self)
        ensures
            ctrl@ == SpecCtrl::Error(message@),
    {
        Ctrl::Error(String::from_str(message))
    }
}

impl<'a> Kont<'a> {
    closed spec fn view(&self) -> SpecKont {
        match self {
            Kont::Dump(env) => SpecKont::Dump(env.view()),
            Kont::Pop(count) => SpecKont::Pop(*count as nat),
            Kont::Arg(arg) => SpecKont::Arg(**arg),
            Kont::PAP(pap) => SpecKont::Pap(pap.view()),
            Kont::Exec => SpecKont::Exec,
            Kont::Let(binder, body) => SpecKont::Let(binder@, **body),
        }
    }
}

spec fn konts_view<'a>(konts: Seq<Kont<'a>>) -> Seq<SpecKont> {
    Seq::new(konts.len(), |i: int| konts[i].view())
}

proof fn lemma_konts_view_push<'a>(konts: Seq<Kont<'a>>, kont: Kont<'a>)
    ensures
        konts_view(konts.push(kont)) == konts_view(konts).push(kont@),
{
    assert(konts_view(konts.push(kont)) =~= konts_view(konts).push(kont@));
}

/// Pushes a continuation for each of `args` so that the first of them is
/// evaluated first.
fn push_args<'a>(kont: &mut Vec<Kont<'a>>, args: &'a Vec<Expr>)
    ensures
        konts_view(final(kont)@) == konts_view(old(kont)@) + arg_konts(args@),
{
    let ghost before = konts_view(kont@);
    let mut i: usize = args.len();
    assert(konts_view(kont@) =~= before + arg_konts(args@).take(0));
    while i > 0
        invariant
            i <= args.len(),
            konts_view(kont@) == before + arg_konts(args@).take(args.len() - i),
        decreases i,
    {
        i -= 1;
        proof {
            lemma_konts_view_push(kont@, Kont::Arg(&args[i as int]));
            assert((before + arg_konts(args@).take(args.len() - i - 1)).push(
                SpecKont::Arg(args@[i as int]),
            ) =~= before + arg_konts(args@).take(args.len() - i));
        }
        kont.push(Kont::Arg(&args[i]));
    }
    assert(arg_konts(args@).take(args.len() as int) =~= arg_konts(args@));
}

/// The model of the result of a run.
pub open spec fn value_result<'a>(r: Result<Rc<Value<'a>>, String>) -> Result<
    SpecValue,
    Seq<char>,
> {
    match r {
        Ok(value) => Ok(value@),
        Err(message) => Err(message@),
    }
}

/// `Ok` as it is, and the text of an `Err`.
pub open spec fn number_result(r: Result<i64, String>) -> Result<i64, Seq<char>> {
    match r {
        Ok(n) => Ok(n),
        Err(message) => Err(message@),
    }
}

impl Opcode {
    /// Applies the operator to two numbers. Division by zero and results
    /// that do not fit 64 bits are errors.
    pub fn eval(&self, x: i64, y: i64) -> (r: Result<i64, String>)
        ensures
            number_result(r) == eval_op(*self, x, y),
    {
        if y == 0 && *self == Opcode::Div {
            return Err(String::from_str("division by zero"));
        }
        let exact = match self {
            Opcode::Add => x.checked_add(y),
            Opcode::Sub => x.checked_sub(y),
            Opcode::Mul => x.checked_mul(y),
            Opcode::Div => x.checked_div(y),
        };
        match exact {
            Some(z) => Ok(z),
            None => Err(String::from_str("arithmetic overflow")),
        }
    }
}

impl<'a> State<'a> {
    pub closed spec fn view(&self) -> SpecState {
        SpecState { ctrl: self.ctrl.view(), env: self.env.view(), kont: konts_view(self.kont@) }
    }

    /// The model of the state with `ctrl` in control.
    spec fn with(&self, ctrl: Ctrl<'a>) -> SpecState {
        SpecState { ctrl: ctrl@, env: self.env@, kont: konts_view(self.kont@) }
    }

    /// A state that is about to evaluate `expr` in the empty environment.
    pub fn init(expr: &'a Expr) -> (state: Self)
        ensures
            state@ == SpecState::init(*expr),
    {
        let state = State { ctrl: Ctrl::Expr(expr), env: Env::new(), kont: Vec::new() };
        assert(konts_view(state.kont@) =~= Seq::<SpecKont>::empty());
        state
    }

    /// Step when the control contains an expression.
    fn step_expr(&mut self, ctrl_expr: &'a Expr) -> (ctrl: Ctrl<'a>)
        ensures
            final(self).with(ctrl) == old(self)@.step_expr(*ctrl_expr),
    {
        match ctrl_expr {
            Expr::Num(n) => Ctrl::from_value(Value::Num(*n)),
            Expr::Var(_, None) => Ctrl::error("unindexed variable"),
            Expr::Var(_, Some(index)) => {
                match self.env.get(*index) {
                    Some(v) => Ctrl::Value(Rc::clone(v)),
                    None => Ctrl::error("bad de Bruijn index"),
                }
            },
            Expr::Op(op, x, y) => {
                proof {
                    lemma_konts_view_push(self.kont@, Kont::Arg(y));
                    lemma_konts_view_push(self.kont@.push(Kont::Arg(y)), Kont::Arg(x));
                }
                self.kont.push(Kont::Arg(y));
                self.kont.push(Kont::Arg(x));
                Ctrl::from_prim(Prim::Builtin(op), 2)
            },
            Expr::App(fun, args) => {
                push_args(&mut self.kont, args);
                proof {
                    lemma_konts_view_push(self.kont@, Kont::Exec);
                }
                self.kont.push(Kont::Exec);
                Ctrl::Expr(fun)
            },
            Expr::Let(binder, bound, body) => {
                proof {
                    lemma_konts_view_push(self.kont@, Kont::Let(binder, body));
                }
                self.kont.push(Kont::Let(binder, body));
                Ctrl::Expr(bound)
            },
            Expr::Lam(params, body) => {
                Ctrl::from_value(Value::Lam(params.len(), body, self.env.clone()))
            },
        }
    }

    /// Step when the control contains a primitive with all its arguments.
    fn step_saturated_prim(&mut self, prim: Prim<'a>, args: Vec<Rc<Value<'a>>>) -> (ctrl: Ctrl<'a>)
        ensures
            final(self).with(ctrl) == old(self)@.step_saturated_prim(prim@, values_view(args@)),
    {
        match prim {
            Prim::Builtin(op) => {
                if args.len() != 2 {
                    return Ctrl::error("expected two arguments");
                }
                match (&*args[0], &*args[1]) {
                    (Value::Num(x), Value::Num(y)) => match op.eval(*x, *y) {
                        Ok(z) => Ctrl::from_value(Value::Num(z)),
                        Err(message) => Ctrl::Error(message),
                    },
                    _ => Ctrl::error("expected i64, found a function"),
                }
            },
            Prim::Lam(body, env) => {
                let mut new_env = env;
                new_env.push_many(args.as_slice());
                std::mem::swap(&mut self.env, &mut new_env);
                proof {
                    lemma_konts_view_push(self.kont@, Kont::Dump(new_env));
                }
                self.kont.push(Kont::Dump(new_env));
                Ctrl::Expr(body)
            },
        }
    }

    /// Step when the control contains a (proper) value.
    fn step_value(&mut self, value: Rc<Value<'a>>, kont: Kont<'a>) -> (ctrl: Ctrl<'a>)
        ensures
            final(self).with(ctrl) == old(self)@.step_value(value@, kont@),
    {
        match kont {
            Kont::Dump(env) => {
                self.env = env;
                Ctrl::Value(value)
            },
            Kont::Pop(count) => {
                if count <= self.env.len() {
                    self.env.pop_many(count);
                    Ctrl::Value(value)
                } else {
                    Ctrl::error("bad environment")
                }
            },
            Kont::Arg(_) => Ctrl::error("applying value"),
            Kont::PAP(pap) => {
                if pap.missing > 0 {
                    let mut pap = pap;
                    let ghost before = values_view(pap.args@);
                    pap.args.push(value);
                    assert(values_view(pap.args@) =~= before.push(value@));
                    pap.missing -= 1;
                    Ctrl::PAP(pap)
                } else {
                    Ctrl::error("too many args for PAP")
                }
            },
            Kont::Exec => match &*value {
                Value::Lam(arity, body, env) => Ctrl::from_prim(
                    Prim::Lam(body, env.clone()),
                    *arity,
                ),
                _ => Ctrl::error("executing non lambda"),
            },
            Kont::Let(_name, body) => {
                proof {
                    lemma_konts_view_push(self.kont@, Kont::Pop(1));
                }
                self.kont.push(Kont::Pop(1));
                self.env.push(value);
                Ctrl::Expr(body)
            },
        }
    }

    /// One transition of the machine. A final state stays as it is.
    pub fn step(&mut self)
        ensures
            final(self)@ == old(self)@.step(),
    {
        let ghost before = self@;
        let mut old_ctrl = Ctrl::Evaluating;
        std::mem::swap(&mut self.ctrl, &mut old_ctrl);
        let new_ctrl = match old_ctrl {
            Ctrl::Evaluating => Ctrl::error("control was not updated after last step"),
            Ctrl::Expr(expr) => self.step_expr(expr),
            Ctrl::Value(value) => match self.kont.pop() {
                None => Ctrl::Value(value),
                Some(kont) => {
                    proof {
                        assert(before.kont.drop_last() =~= konts_view(self.kont@));
                    }
                    self.step_value(value, kont)
                },
            },
            Ctrl::PAP(pap) => {
                if pap.missing == 0 {
                    self.step_saturated_prim(pap.prim, pap.args)
                } else {
                    match self.kont.pop() {
                        Some(Kont::Arg(arg)) => {
                            proof {
                                assert(before.kont.drop_last() =~= konts_view(self.kont@));
                                lemma_konts_view_push(self.kont@, Kont::PAP(pap));
                            }
                            self.kont.push(Kont::PAP(pap));
                            Ctrl::Expr(arg)
                        },
                        Some(_) => {
                            proof {
                                assert(before.kont.drop_last() =~= konts_view(self.kont@));
                            }
                            Ctrl::error("not enough args for PAP")
                        },
                        None => Ctrl::error("not enough args for PAP"),
                    }
                }
            },
            Ctrl::Error(message) => Ctrl::Error(message),
        };
        self.ctrl = new_ctrl;
    }

    /// Whether the machine has stopped.
    pub fn is_final(&self) -> (r: bool)
        ensures
            r == self@.is_final(),
    {
        match &self.ctrl {
            Ctrl::Value(_) => self.kont.is_empty(),
            Ctrl::Error(_) => true,
            _ => false,
        }
    }

    /// Steps through the machine until it stops, for at most `u64::MAX`
    /// transitions: the value it stops with, or what went wrong.
    pub fn run(self) -> (r: Result<Rc<Value<'a>>, String>)
        ensures
            value_result(r) == self@.run(step_limit()),
    {
        let ghost start = self@;
        let mut state = self;
        let mut steps: u64 = 0;
        while !state.is_final()
            invariant
                start == self@,
                start.run(step_limit()) == state@.run((step_limit() - steps) as nat),
            decreases u64::MAX - steps,
        {
            if steps == u64::MAX {
                return Err(String::from_str("step limit exceeded"));
            }
            state.step();
            steps += 1;
        }
        match state.ctrl {
            Ctrl::Value(v) => Ok(v),
            Ctrl::Error(message) => Err(message),
            _ => Err(String::from_str("step limit exceeded")),
        }
    }
}

} // verus!
