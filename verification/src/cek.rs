//! The CEK machine: runtime values, the environment, and the transition
//! loop that reduces an indexed expression to a value.

pub mod laws;
pub mod model;

use crate::cek::laws::{lemma_index_of, lemma_kont_wf_push, lemma_step_preserves_wf};
use crate::cek::model::{
    arg_konts, debug_text, eval_arith_args, eval_builtin, eval_comp_args, fresh_pap, index_of,
    kont_wf, lookup, record_of, step_limit, type_error, SpecCtrl, SpecKont, SpecMachine, SpecPap,
    SpecPrim, SpecValue,
};
use crate::syntax::{names_view, Expr, Name, OpCode};
use std::rc::Rc;
use vstd::pervasive::unreached;
use vstd::prelude::*;
use vstd::string::StringExecFns;

verus! {

/// A runtime value. Values are never changed once they are built and are
/// shared by reference count.
#[derive(Debug)]
pub enum Value<'a> {
    Num(i64),
    Bool(bool),
    PAP(PAP<'a>),
    /// The fields of a record, each name once.
    Record(Vec<(&'a Name, Rc<Value<'a>>)>),
    Fix(Rc<Value<'a>>),
}

/// A partial application: a primitive, the number of arguments it takes,
/// and the arguments it has received, which are fewer.
#[derive(Debug)]
pub struct PAP<'a> {
    prim: Prim<'a>,
    arity: usize,
    args: Vec<Rc<Value<'a>>>,
}

/// What a partial application applies.
#[derive(Debug)]
pub enum Prim<'a> {
    Builtin(OpCode),
    /// The body of a lambda and the environment in which the lambda was
    /// evaluated.
    Lam(&'a Expr, Rc<Env<'a>>),
    /// The construction of a record with the given field names.
    Record(&'a Vec<Name>),
    /// The projection of a record to the given field.
    Proj(&'a Name),
}

/// What the machine is looking at.
#[derive(Debug)]
enum Ctrl<'a> {
    /// The placeholder while a transition is computed.
    Evaluating,
    Expr(&'a Expr),
    Value(Rc<Value<'a>>),
    Error(String),
}

/// The bound values, the innermost binding last.
#[derive(Debug)]
pub struct Env<'a> {
    stack: Vec<Rc<Value<'a>>>,
}

/// What is left to do with the value that the machine is about to produce.
#[derive(Debug)]
enum Kont<'a> {
    /// Restore the environment of the caller.
    Dump(Env<'a>),
    /// Drop the innermost bindings.
    Pop(usize),
    /// The value is a function: evaluate its next argument.
    Arg(&'a Expr),
    /// The value is a function: its next argument is this value.
    ArgValue(Rc<Value<'a>>),
    /// The value is the argument of this function.
    App(Rc<Value<'a>>),
    /// Bind the value and evaluate the body of the `let`.
    Let(&'a Name, &'a Expr),
    /// The value decides between the two branches.
    If(&'a Expr, &'a Expr),
}

/// The state of an evaluation: control, environment and continuations.
#[derive(Debug)]
pub struct Machine<'a> {
    ctrl: Ctrl<'a>,
    env: Env<'a>,
    kont: Vec<Kont<'a>>,
}

/// The models of a sequence of shared values.
pub open spec fn values_view<'a>(values: Seq<Rc<Value<'a>>>) -> Seq<SpecValue>
    decreases values,
{
    Seq::new(
        values.len(),
        |i: int|
            if 0 <= i < values.len() {
                values[i].view()
            } else {
                SpecValue::Bool(false)
            },
    )
}

/// The models of the fields of a record.
pub open spec fn fields_view<'a>(fields: Seq<(&'a Name, Rc<Value<'a>>)>) -> Seq<
    (Seq<char>, SpecValue),
>
    decreases fields,
{
    Seq::new(
        fields.len(),
        |i: int|
            if 0 <= i < fields.len() {
                (fields[i].0@, fields[i].1.view())
            } else {
                (Seq::empty(), SpecValue::Bool(false))
            },
    )
}

impl<'a> Value<'a> {
    pub open spec fn view(&self) -> SpecValue
        decreases self,
    {
        match self {
            Value::Num(n) => SpecValue::Num(*n),
            Value::Bool(b) => SpecValue::Bool(*b),
            Value::PAP(pap) => SpecValue::Pap(pap.view()),
            Value::Record(fields) => SpecValue::Record(fields_view(fields@)),
            Value::Fix(fun) => SpecValue::Fix(Box::new(fun.view())),
        }
    }
}

impl<'a> PAP<'a> {
    pub closed spec fn view(&self) -> SpecPap
        decreases self,
    {
        SpecPap {
            prim: self.prim.view(),
            arity: self.arity as nat,
            args: values_view(self.args@),
        }
    }
}

impl<'a> Prim<'a> {
    pub open spec fn view(&self) -> SpecPrim
        decreases self,
    {
        match self {
            Prim::Builtin(op) => SpecPrim::Builtin(*op),
            Prim::Lam(body, env) => SpecPrim::Lam(**body, env.view()),
            Prim::Record(names) => SpecPrim::Record(names_view(names@)),
            Prim::Proj(name) => SpecPrim::Proj(name@),
        }
    }
}

impl<'a> Env<'a> {
    pub closed spec fn view(&self) -> Seq<SpecValue>
        decreases self,
    {
        values_view(self.stack@)
    }
}

/// `{:?}` formatting of a value. The text is a function of the value's
/// model: the derived formatting prints the variants, numbers, names and
/// nested values that the model holds, in their order.
#[verifier::external_body]
fn debug_string<'a>(value: &Value<'a>) -> (text: String)
    ensures
        text@ == debug_text(value@),
{
    format!("{:?}", value)
}

impl<'a> Ctrl<'a> {
    pub closed spec fn view(&self) -> SpecCtrl {
        match self {
            Ctrl::Evaluating => SpecCtrl::Evaluating,
            Ctrl::Expr(expr) => SpecCtrl::Expr(**expr),
            Ctrl::Value(value) => SpecCtrl::Value(value.view()),
            Ctrl::Error(message) => SpecCtrl::Error(message@),
        }
    }
}

impl<'a> Kont<'a> {
    pub closed spec fn view(&self) -> SpecKont {
        match self {
            Kont::Dump(env) => SpecKont::Dump(env.view()),
            Kont::Pop(count) => SpecKont::Pop(*count as nat),
            Kont::Arg(arg) => SpecKont::Arg(**arg),
            Kont::ArgValue(arg) => SpecKont::ArgValue(arg.view()),
            Kont::App(fun) => SpecKont::App(fun.view()),
            Kont::Let(binder, body) => SpecKont::Let(binder@, **body),
            Kont::If(then, elze) => SpecKont::If(**then, **elze),
        }
    }
}

spec fn konts_view<'a>(konts: Seq<Kont<'a>>) -> Seq<SpecKont> {
    Seq::new(konts.len(), |i: int| konts[i].view())
}

impl<'a> Machine<'a> {
    pub closed spec fn view(&self) -> SpecMachine {
        SpecMachine { ctrl: self.ctrl.view(), env: self.env.view(), kont: konts_view(self.kont@) }
    }
}

/// `Ok` as it is, and the text of an `Err`.
pub open spec fn text_result<T>(r: Result<T, String>) -> Result<T, Seq<char>> {
    match r {
        Ok(value) => Ok(value),
        Err(message) => Err(message@),
    }
}

/// The model of an evaluation result.
pub open spec fn value_result<'a>(r: Result<Value<'a>, String>) -> Result<SpecValue, Seq<char>> {
    match r {
        Ok(value) => Ok(value@),
        Err(message) => Err(message@),
    }
}

/// The model of the result of a run.
pub open spec fn shared_value_result<'a>(r: Result<Rc<Value<'a>>, String>) -> Result<
    SpecValue,
    Seq<char>,
> {
    match r {
        Ok(value) => Ok(value@),
        Err(message) => Err(message@),
    }
}

proof fn lemma_values_view_push<'a>(values: Seq<Rc<Value<'a>>>, value: Rc<Value<'a>>)
    ensures
        values_view(values.push(value)) == values_view(values).push(value@),
{
    assert(values_view(values.push(value)) =~= values_view(values).push(value@));
}

proof fn lemma_values_view_add<'a>(a: Seq<Rc<Value<'a>>>, b: Seq<Rc<Value<'a>>>)
    ensures
        values_view(a + b) == values_view(a) + values_view(b),
{
    assert(values_view(a + b) =~= values_view(a) + values_view(b));
}

proof fn lemma_konts_view_push<'a>(konts: Seq<Kont<'a>>, kont: Kont<'a>)
    ensures
        konts_view(konts.push(kont)) == konts_view(konts).push(kont@),
{
    assert(konts_view(konts.push(kont)) =~= konts_view(konts).push(kont@));
}

fn type_error_message<'a>(expected: &str, found: &Value<'a>) -> (message: String)
    ensures
        message@ == type_error(expected@, found@),
{
    let mut message = String::from_str("expected ");
    message.append(expected);
    message.append(", found ");
    let text = debug_string(found);
    message.append(text.as_str());
    message
}

fn clone_values<'a>(values: &Vec<Rc<Value<'a>>>) -> (copy: Vec<Rc<Value<'a>>>)
    ensures
        copy@ == values@,
{
    let mut copy: Vec<Rc<Value<'a>>> = Vec::new();
    let mut i: usize = 0;
    while i < values.len()
        invariant
            i <= values.len(),
            copy@ == values@.take(i as int),
        decreases values.len() - i,
    {
        copy.push(Rc::clone(&values[i]));
        assert(values@.take(i + 1) =~= values@.take(i as int).push(values@[i as int]));
        i += 1;
    }
    assert(values@.take(values.len() as int) =~= values@);
    copy
}

impl<'a> Clone for Env<'a> {
    fn clone(&self) -> (copy: Self)
        ensures
            copy@ == self@,
    {
        Env { stack: clone_values(&self.stack) }
    }
}

impl<'a> Clone for Prim<'a> {
    fn clone(&self) -> (copy: Self)
        ensures
            copy@ == self@,
    {
        match self {
            Prim::Builtin(op) => Prim::Builtin(*op),
            Prim::Lam(body, env) => Prim::Lam(*body, Rc::clone(env)),
            Prim::Record(names) => Prim::Record(*names),
            Prim::Proj(name) => Prim::Proj(*name),
        }
    }
}

impl<'a> Clone for PAP<'a> {
    fn clone(&self) -> (copy: Self)
        ensures
            copy@ == self@,
    {
        PAP { prim: self.prim.clone(), arity: self.arity, args: clone_values(&self.args) }
    }
}

/// Position of the field called `name`, the last one if there are several.
fn find_field<'a>(fields: &Vec<(&'a Name, Rc<Value<'a>>)>, name: &Name) -> (found: Option<usize>)
    ensures
        match found {
            Some(i) => i < fields.len() && index_of(fields_view(fields@), name@) == Some(i as int),
            None => index_of(fields_view(fields@), name@) is None,
        },
{
    let ghost all = fields_view(fields@);
    let mut i: usize = fields.len();
    assert(all.take(i as int) =~= all);
    while i > 0
        invariant
            i <= fields.len(),
            all == fields_view(fields@),
            index_of(all, name@) == index_of(all.take(i as int), name@),
        decreases i,
    {
        i -= 1;
        assert(all.take(i + 1).drop_last() =~= all.take(i as int));
        assert(all.take(i + 1).last() == all[i as int]);
        if *fields[i].0 == *name {
            return Some(i);
        }
    }
    None
}

impl<'a> Value<'a> {
    /// The number that the value is, or the error that names what was
    /// found in its place.
    pub fn as_i64(&self) -> (r: Result<i64, String>)
        ensures
            text_result(r) == self@.as_i64(),
    {
        if let Value::Num(n) = self {
            Ok(*n)
        } else {
            Err(type_error_message("i64", self))
        }
    }

    /// The truth value that the value is, or the error that names what was
    /// found in its place.
    pub fn as_bool(&self) -> (r: Result<bool, String>)
        ensures
            text_result(r) == self@.as_bool(),
    {
        if let Value::Bool(b) = self {
            Ok(*b)
        } else {
            Err(type_error_message("bool", self))
        }
    }

    /// The fields of the record that the value is, or the error that names
    /// what was found in its place.
    pub fn as_record(&self) -> (r: Result<&Vec<(&'a Name, Rc<Value<'a>>)>, String>)
        ensures
            match r {
                Ok(fields) => self@.as_record() == Ok::<Seq<(Seq<char>, SpecValue)>, Seq<char>>(
                    fields_view(fields@),
                ),
                Err(message) => self@.as_record() == Err::<Seq<(Seq<char>, SpecValue)>, Seq<char>>(
                    message@,
                ),
            },
    {
        if let Value::Record(fields) = self {
            Ok(fields)
        } else {
            Err(type_error_message("record", self))
        }
    }
}

impl<'a> Ctrl<'a> {
    fn from_value(v: Value<'a>) -> (ctrl: Self)
        ensures
            ctrl@ == SpecCtrl::Value(v@),
    {
        Ctrl::Value(Rc::new(v))
    }

    fn from_prim(prim: Prim<'a>, arity: usize) -> (ctrl: Self)
        requires
            arity > 0,
        ensures
            ctrl@ == SpecCtrl::Value(fresh_pap(prim@, arity as nat)),
    {
        let pap = PAP { prim, arity, args: Vec::with_capacity(arity) };
        assert(pap.args@ =~= Seq::<Rc<Value<'a>>>::empty());
        assert(values_view(pap.args@) =~= Seq::<SpecValue>::empty());
        assert(pap@ == SpecPap { prim: prim@, arity: arity as nat, args: Seq::empty() });
        let value = Value::PAP(pap);
        assert(value@ == fresh_pap(prim@, arity as nat));
        Self::from_value(value)
    }
}

impl<'a> Env<'a> {
    fn new() -> (env: Self)
        ensures
            env@ == Seq::<SpecValue>::empty(),
    {
        let env = Env { stack: Vec::new() };
        assert(env@ =~= Seq::<SpecValue>::empty());
        env
    }

    /// The binding at de Bruijn distance `index`; the innermost binding is
    /// at distance 1.
    fn get(&self, index: usize) -> (value: &Rc<Value<'a>>)
        requires
            1 <= index <= self@.len(),
        ensures
            value@ == self@[self@.len() - index],
    {
        &self.stack[self.stack.len() - index]
    }

    /// Number of bindings.
    pub fn len(&self) -> (n: usize)
        ensures
            n == self@.len(),
    {
        self.stack.len()
    }

    /// Adds `value` as the innermost binding.
    pub fn push(&mut self, value: Rc<Value<'a>>)
        ensures
            final(self)@ == old(self)@.push(value@),
    {
        proof {
            lemma_values_view_push(self.stack@, value);
        }
        self.stack.push(value);
    }

    /// Adds `args` as the innermost bindings, the last of them innermost.
    pub fn push_many(&mut self, args: Vec<Rc<Value<'a>>>)
        ensures
            final(self)@ == old(self)@ + values_view(args@),
    {
        let mut args = args;
        proof {
            lemma_values_view_add(self.stack@, args@);
        }
        self.stack.append(&mut args);
    }

    /// Drops the `count` innermost bindings.
    pub fn pop_many(&mut self, count: usize)
        requires
            count <= old(self)@.len(),
        ensures
            final(self)@ == old(self)@.take(old(self)@.len() - count),
    {
        let new_len = self.stack.len() - count;
        self.stack.truncate(new_len);
        assert(self@ =~= old(self)@.take(old(self)@.len() - count));
    }
}


/// The record that binds each of `names` to the value at the same position
/// of `args`.
fn make_record<'a>(names: &'a Vec<Name>, args: &Vec<Rc<Value<'a>>>) -> (fields: Vec<
    (&'a Name, Rc<Value<'a>>),
>)
    requires
        names.len() == args.len(),
    ensures
        fields_view(fields@) == record_of(names_view(names@), values_view(args@)),
{
    let ghost all_names = names_view(names@);
    let ghost all_values = values_view(args@);
    let mut fields: Vec<(&'a Name, Rc<Value<'a>>)> = Vec::new();
    let mut i: usize = 0;
    assert(fields_view(fields@) =~= record_of(all_names.take(0), all_values.take(0)));
    while i < names.len()
        invariant
            i <= names.len(),
            names.len() == args.len(),
            all_names == names_view(names@),
            all_values == values_view(args@),
            fields_view(fields@) == record_of(all_names.take(i as int), all_values.take(i as int)),
        decreases names.len() - i,
    {
        let ghost before = fields_view(fields@);
        let name: &'a Name = &names[i];
        let value = Rc::clone(&args[i]);
        proof {
            assert(all_names.take(i + 1).drop_last() =~= all_names.take(i as int));
            assert(all_values.take(i + 1).drop_last() =~= all_values.take(i as int));
            assert(all_names.take(i + 1).last() == name@);
            assert(all_values.take(i + 1).last() == value@);
            lemma_index_of(before, name@);
        }
        match find_field(&fields, name) {
            Some(j) => {
                fields[j] = (name, value);
                assert(fields_view(fields@) =~= before.update(j as int, (name@, value@)));
            },
            None => {
                fields.push((name, value));
                assert(fields_view(fields@) =~= before.push((name@, value@)));
            },
        }
        i += 1;
    }
    assert(all_names.take(names.len() as int) =~= all_names);
    assert(all_values.take(names.len() as int) =~= all_values);
    fields
}

/// Applies the arithmetic operator `op` to the two numbers in `args`.
pub fn eval_arith<'a>(op: OpCode, args: Vec<Rc<Value<'a>>>) -> (r: Result<Value<'a>, String>)
    requires
        args.len() >= 2,
        op == OpCode::Add || op == OpCode::Sub || op == OpCode::Mul || op == OpCode::Div,
    ensures
        value_result(r) == eval_arith_args(op, values_view(args@)),
{
    let x = match args[0].as_i64() {
        Ok(x) => x,
        Err(message) => {
            return Err(message);
        },
    };
    let y = match args[1].as_i64() {
        Ok(y) => y,
        Err(message) => {
            return Err(message);
        },
    };
    if y == 0 && op == OpCode::Div {
        return Err(String::from_str("division by zero"));
    }
    let exact = match op {
        OpCode::Add => x.checked_add(y),
        OpCode::Sub => x.checked_sub(y),
        OpCode::Mul => x.checked_mul(y),
        _ => x.checked_div(y),
    };
    match exact {
        Some(z) => Ok(Value::Num(z)),
        None => Err(String::from_str("arithmetic overflow")),
    }
}

/// Whether the two values in `args` are structurally equal.
pub fn eval_equals<'a>(args: Vec<Rc<Value<'a>>>) -> (equal: bool)
    requires
        args.len() >= 2,
    ensures
        equal == values_view(args@)[0].equals(values_view(args@)[1]),
{
    eval_equals2(&args[0], &args[1])
}

/// Structural equality of two values.
pub fn eval_equals2<'a>(x: &Rc<Value<'a>>, y: &Rc<Value<'a>>) -> (equal: bool)
    ensures
        equal == x@.equals(y@),
    decreases x,
{
    match (&**x, &**y) {
        (Value::Num(a), Value::Num(b)) => *a == *b,
        (Value::Bool(a), Value::Bool(b)) => *a == *b,
        (Value::Record(xs), Value::Record(ys)) => {
            let ghost xv = fields_view(xs@);
            let ghost yv = fields_view(ys@);
            assert(x@ == SpecValue::Record(xv));
            assert(y@ == SpecValue::Record(yv));
            let mut i: usize = 0;
            while i < xs.len()
                invariant
                    i <= xs.len(),
                    xv == fields_view(xs@),
                    yv == fields_view(ys@),
                    **x == Value::Record(*xs),
                    x@ == SpecValue::Record(xv),
                    y@ == SpecValue::Record(yv),
                    forall|k: int|
                        0 <= k < i ==> match lookup(yv, (#[trigger] xv[k]).0) {
                            Some(w) => xv[k].1.equals(w),
                            None => false,
                        },
                decreases xs.len() - i,
            {
                match find_field(ys, xs[i].0) {
                    None => {
                        assert(lookup(yv, xv[i as int].0) is None);
                        return false;
                    },
                    Some(j) => {
                        assert(lookup(yv, xv[i as int].0) == Some(yv[j as int].1));
                        if !eval_equals2(&xs[i].1, &ys[j].1) {
                            return false;
                        }
                    },
                }
                i += 1;
            }
            let mut j: usize = 0;
            while j < ys.len()
                invariant
                    j <= ys.len(),
                    xv == fields_view(xs@),
                    yv == fields_view(ys@),
                    x@ == SpecValue::Record(xv),
                    y@ == SpecValue::Record(yv),
                    forall|k: int|
                        0 <= k < xv.len() ==> match lookup(yv, (#[trigger] xv[k]).0) {
                            Some(w) => xv[k].1.equals(w),
                            None => false,
                        },
                    forall|k: int| 0 <= k < j ==> index_of(xv, (#[trigger] yv[k]).0) is Some,
                decreases ys.len() - j,
            {
                if find_field(xs, ys[j].0).is_none() {
                    assert(index_of(xv, yv[j as int].0) is None);
                    return false;
                }
                j += 1;
            }
            true
        },
        _ => false,
    }
}

/// Applies the comparison operator `op` to the two numbers in `args`.
pub fn eval_comp<'a>(op: OpCode, args: Vec<Rc<Value<'a>>>) -> (r: Result<Value<'a>, String>)
    requires
        args.len() >= 2,
        op == OpCode::Less || op == OpCode::LessEq || op == OpCode::Greater || op
            == OpCode::GreaterEq,
    ensures
        value_result(r) == eval_comp_args(op, values_view(args@)),
{
    let x = match args[0].as_i64() {
        Ok(x) => x,
        Err(message) => {
            return Err(message);
        },
    };
    let y = match args[1].as_i64() {
        Ok(y) => y,
        Err(message) => {
            return Err(message);
        },
    };
    let holds = match op {
        OpCode::Less => x < y,
        OpCode::LessEq => x <= y,
        OpCode::Greater => x > y,
        _ => x >= y,
    };
    Ok(Value::Bool(holds))
}

impl OpCode {
    /// Applies the operator to as many arguments as its arity.
    pub fn eval<'a>(self, args: Vec<Rc<Value<'a>>>) -> (r: Result<Value<'a>, String>)
        requires
            args.len() == self.spec_arity(),
        ensures
            value_result(r) == eval_builtin(self, values_view(args@)),
    {
        match self {
            OpCode::Add | OpCode::Sub | OpCode::Mul | OpCode::Div => eval_arith(self, args),
            OpCode::Equals => Ok(Value::Bool(eval_equals(args))),
            OpCode::NotEq => Ok(Value::Bool(!eval_equals(args))),
            OpCode::Less | OpCode::LessEq | OpCode::Greater | OpCode::GreaterEq => eval_comp(
                self,
                args,
            ),
            OpCode::Fix => Ok(Value::Fix(Rc::clone(&args[0]))),
        }
    }
}


/// Pushes a continuation for each of `args` so that the first of them is
/// evaluated first.
fn push_args<'a>(kont: &mut Vec<Kont<'a>>, args: &'a Vec<Expr>)
    ensures
        konts_view(final(kont)@) == konts_view(old(kont)@) + arg_konts(args@),
{
    let ghost before = konts_view(kont@);
    let mut i: usize = args.len();
    assert(konts_view(kont@) =~= before + arg_konts(args@).take(0));
    while i > 0
        invariant
            i <= args.len(),
            konts_view(kont@) == before + arg_konts(args@).take(args.len() - i),
        decreases i,
    {
        i -= 1;
        proof {
            lemma_konts_view_push(kont@, Kont::Arg(&args[i as int]));
            assert((before + arg_konts(args@).take(args.len() - i - 1)).push(
                SpecKont::Arg(args@[i as int]),
            ) =~= before + arg_konts(args@).take(args.len() - i));
        }
        kont.push(Kont::Arg(&args[i]));
    }
    assert(arg_konts(args@).take(args.len() as int) =~= arg_konts(args@));
}

/// Whether `args` are as many as the primitive takes when it is entered.
pub open spec fn saturates(prim: SpecPrim, args: Seq<SpecValue>) -> bool {
    match prim {
        SpecPrim::Builtin(op) => args.len() == op.spec_arity(),
        SpecPrim::Lam(_, _) => true,
        SpecPrim::Record(names) => args.len() == names.len(),
        SpecPrim::Proj(_) => args.len() == 1,
    }
}

impl<'a> Machine<'a> {
    /// The model of the machine with `ctrl` in control.
    spec fn with(&self, ctrl: Ctrl<'a>) -> SpecMachine {
        SpecMachine { ctrl: ctrl@, env: self.env@, kont: konts_view(self.kont@) }
    }

    /// A machine that is about to evaluate `expr` in the empty environment.
    pub fn new(expr: &'a Expr) -> (machine: Self)
        ensures
            machine@ == SpecMachine::init(*expr),
    {
        let machine = Machine { ctrl: Ctrl::Expr(expr), env: Env::new(), kont: Vec::new() };
        assert(konts_view(machine.kont@) =~= Seq::<SpecKont>::empty());
        machine
    }

    /// Step when the control contains an expression.
    fn step_expr(&mut self, ctrl_expr: &'a Expr) -> (ctrl: Ctrl<'a>)
        requires
            ctrl_expr.closed(old(self)@.env.len()),
        ensures
            final(self).with(ctrl) == old(self)@.step_expr(*ctrl_expr),
    {
        match ctrl_expr {
            Expr::Var(_, index) => {
                match index {
                    Some(index) => {
                        let v = self.env.get(*index);
                        Ctrl::Value(Rc::clone(v))
                    },
                    None => unreached(),
                }
            },
            Expr::Num(n) => Ctrl::from_value(Value::Num(*n)),
            Expr::Bool(b) => Ctrl::from_value(Value::Bool(*b)),
            Expr::PrimOp(op) => Ctrl::from_prim(Prim::Builtin(*op), op.arity()),
            Expr::App(fun, args) => {
                push_args(&mut self.kont, args);
                Ctrl::Expr(fun)
            },
            Expr::Lam(params, body) => {
                Ctrl::from_prim(Prim::Lam(body, Rc::new(self.env.clone())), params.len())
            },
            Expr::Let(binder, bound, body) => {
                proof {
                    lemma_konts_view_push(self.kont@, Kont::Let(binder, body));
                }
                self.kont.push(Kont::Let(binder, body));
                Ctrl::Expr(bound)
            },
            Expr::If(cond, then, elze) => {
                proof {
                    lemma_konts_view_push(self.kont@, Kont::If(then, elze));
                }
                self.kont.push(Kont::If(then, elze));
                Ctrl::Expr(cond)
            },
            Expr::Record(fields, exprs) => {
                if fields.len() > 0 {
                    push_args(&mut self.kont, exprs);
                    Ctrl::from_prim(Prim::Record(fields), fields.len())
                } else {
                    let empty: Vec<(&'a Name, Rc<Value<'a>>)> = Vec::new();
                    assert(fields_view(empty@) =~= Seq::<(Seq<char>, SpecValue)>::empty());
                    Ctrl::from_value(Value::Record(empty))
                }
            },
            Expr::Proj(record, field) => {
                proof {
                    lemma_konts_view_push(self.kont@, Kont::Arg(record));
                }
                self.kont.push(Kont::Arg(record));
                Ctrl::from_prim(Prim::Proj(field), 1)
            },
        }
    }

    /// Enter a fully applied primitive.
    fn enter_prim(&mut self, prim: Prim<'a>, args: Vec<Rc<Value<'a>>>) -> (ctrl: Ctrl<'a>)
        requires
            saturates(prim@, values_view(args@)),
        ensures
            final(self).with(ctrl) == old(self)@.enter_prim(prim@, values_view(args@)),
    {
        match prim {
            Prim::Builtin(op) => match op.eval(args) {
                Ok(v) => Ctrl::from_value(v),
                Err(e) => Ctrl::Error(e),
            },
            Prim::Lam(body, env) => {
                let mut new_env = match Rc::try_unwrap(env) {
                    Ok(env) => env,
                    Err(env) => (*env).clone(),
                };
                new_env.push_many(args);
                std::mem::swap(&mut self.env, &mut new_env);
                proof {
                    lemma_konts_view_push(self.kont@, Kont::Dump(new_env));
                }
                self.kont.push(Kont::Dump(new_env));
                Ctrl::Expr(body)
            },
            Prim::Record(names) => Ctrl::from_value(Value::Record(make_record(names, &args))),
            Prim::Proj(field) => match args[0].as_record() {
                Ok(record) => {
                    match find_field(record, field) {
                        Some(j) => Ctrl::Value(Rc::clone(&record[j].1)),
                        None => {
                            let mut message = String::from_str("unknown field in record: ");
                            message.append(field.as_str());
                            Ctrl::Error(message)
                        },
                    }
                },
                Err(msg) => Ctrl::Error(msg),
            },
        }
    }

    /// Apply an argument to a PAP. If it is the last argument, enter the
    /// primitive.
    fn pap_apply_arg(&mut self, pap: PAP<'a>, arg: Rc<Value<'a>>) -> (ctrl: Ctrl<'a>)
        requires
            SpecValue::Pap(pap@).wf(),
        ensures
            final(self).with(ctrl) == old(self)@.pap_apply_arg(pap@, arg@),
    {
        let ghost model = pap@;
        let mut pap = pap;
        proof {
            lemma_values_view_push(pap.args@, arg);
        }
        pap.args.push(arg);
        assert(pap@.args == model.args.push(arg@));
        if pap.args.len() == pap.arity {
            self.enter_prim(pap.prim, pap.args)
        } else {
            Ctrl::from_value(Value::PAP(pap))
        }
    }

    /// Apply an argument to a fixed point.
    fn fix_apply_arg(&mut self, fun: Rc<Value<'a>>, arg: Rc<Value<'a>>) -> (ctrl: Ctrl<'a>)
        ensures
            final(self).with(ctrl) == old(self)@.fix_apply_arg(fun@, arg@),
    {
        let fixed = Rc::new(Value::Fix(Rc::clone(&fun)));
        proof {
            lemma_konts_view_push(self.kont@, Kont::ArgValue(arg));
            lemma_konts_view_push(self.kont@.push(Kont::ArgValue(arg)), Kont::ArgValue(fixed));
        }
        self.kont.push(Kont::ArgValue(arg));
        self.kont.push(Kont::ArgValue(fixed));
        Ctrl::Value(fun)
    }

    /// Step when the control contains a value.
    fn step_value(&mut self, value: Rc<Value<'a>>, kont: Kont<'a>) -> (ctrl: Ctrl<'a>)
        requires
            kont_wf(old(self)@.kont.push(kont@), old(self)@.env.len()),
        ensures
            final(self).with(ctrl) == old(self)@.step_value(value@, kont@),
    {
        proof {
            lemma_kont_wf_push(old(self)@.kont, kont@, old(self)@.env.len());
        }
        match kont {
            Kont::Dump(env) => {
                self.env = env;
                Ctrl::Value(value)
            },
            Kont::Pop(count) => {
                self.env.pop_many(count);
                Ctrl::Value(value)
            },
            Kont::Arg(arg) => {
                proof {
                    lemma_konts_view_push(self.kont@, Kont::App(value));
                }
                self.kont.push(Kont::App(value));
                Ctrl::Expr(arg)
            },
            Kont::ArgValue(arg) => {
                proof {
                    lemma_konts_view_push(self.kont@, Kont::App(value));
                }
                self.kont.push(Kont::App(value));
                Ctrl::Value(arg)
            },
            Kont::App(fun) => match Rc::try_unwrap(fun) {
                Ok(fun) => match fun {
                    Value::PAP(pap) => self.pap_apply_arg(pap, value),
                    Value::Fix(fun) => self.fix_apply_arg(fun, value),
                    _ => Ctrl::Error(type_error_message("PAP", &fun)),
                },
                Err(fun) => match &*fun {
                    Value::PAP(pap) => self.pap_apply_arg(pap.clone(), value),
                    Value::Fix(fun) => self.fix_apply_arg(Rc::clone(fun), value),
                    _ => Ctrl::Error(type_error_message("PAP", &*fun)),
                },
            },
            Kont::Let(_name, body) => {
                proof {
                    lemma_konts_view_push(self.kont@, Kont::Pop(1));
                }
                self.kont.push(Kont::Pop(1));
                self.env.push(value);
                Ctrl::Expr(body)
            },
            Kont::If(then, elze) => match value.as_bool() {
                Ok(true) => Ctrl::Expr(then),
                Ok(false) => Ctrl::Expr(elze),
                Err(e) => Ctrl::Error(e),
            },
        }
    }

    /// Steps through the machine until it stops, for at most `u64::MAX`
    /// transitions: the value it stops with, or the error.
    pub fn run(self) -> (r: Result<Rc<Value<'a>>, String>)
        requires
            self@.wf(),
        ensures
            shared_value_result(r) == self@.run(step_limit()),
    {
        let ghost start = self@;
        let mut machine = self;
        let mut steps: u64 = 0;
        loop
            invariant
                start == self@,
                machine@.wf(),
                start.run(step_limit()) == machine@.run((step_limit() - steps) as nat),
            decreases u64::MAX - steps,
        {
            let ghost before = machine@;
            let mut old_ctrl = Ctrl::Evaluating;
            std::mem::swap(&mut machine.ctrl, &mut old_ctrl);
            let new_ctrl = match old_ctrl {
                Ctrl::Evaluating => unreached(),
                Ctrl::Expr(expr) => {
                    if steps == u64::MAX {
                        assert(!before.is_final());
                        return Err(String::from_str("step limit exceeded"));
                    }
                    machine.step_expr(expr)
                },
                Ctrl::Value(value) => match machine.kont.pop() {
                    None => {
                        assert(before.kont.len() == 0);
                        assert(before.is_final());
                        return Ok(value);
                    },
                    Some(kont) => {
                        assert(before.kont.len() > 0);
                        assert(!before.is_final());
                        if steps == u64::MAX {
                            return Err(String::from_str("step limit exceeded"));
                        }
                        proof {
                            assert(before.kont.drop_last() =~= konts_view(machine.kont@));
                            assert(before.kont =~= konts_view(machine.kont@).push(kont@));
                        }
                        machine.step_value(value, kont)
                    },
                },
                Ctrl::Error(e) => {
                    assert(before.is_final());
                    return Err(e);
                },
            };
            machine.ctrl = new_ctrl;
            proof {
                assert(machine@ == before.step());
                lemma_step_preserves_wf(before);
            }
            steps += 1;
        }
    }
}

} // verus!
