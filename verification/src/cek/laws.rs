//! Facts about the model of the machine.

use crate::cek::model::{
    all_wf, arg_konts, depth_below, eval_builtin, index_of, kont_fits, kont_wf, lookup, record_insert, record_of, unique_names, SpecCtrl,
    SpecKont, SpecMachine, SpecPap, SpecPrim, SpecValue,
};
use crate::syntax::{Expr, OpCode};
use vstd::prelude::*;

verus! {

/// `index_of` finds a field of the name it was asked for, and finds none
/// only where no field has that name.
pub proof fn lemma_index_of(fields: Seq<(Seq<char>, SpecValue)>, name: Seq<char>)
    ensures
        match index_of(fields, name) {
            Some(i) => 0 <= i < fields.len() && fields[i].0 == name && forall|j: int|
                i < j < fields.len() ==> (#[trigger] fields[j]).0 != name,
            None => forall|j: int| 0 <= j < fields.len() ==> (#[trigger] fields[j]).0 != name,
        },
    decreases fields.len(),
{
    if fields.len() > 0 && fields.last().0 != name {
        let rest = fields.drop_last();
        lemma_index_of(rest, name);
        assert forall|j: int| 0 <= j < rest.len() implies rest[j] == fields[j] by {}
        match index_of(rest, name) {
            Some(i) => {
                assert(fields[i] == rest[i]);
                assert forall|j: int| i < j < fields.len() implies (#[trigger] fields[j]).0
                    != name by {
                    if j < rest.len() {
                        assert(rest[j] == fields[j]);
                    }
                }
            },
            None => {
                assert forall|j: int| 0 <= j < fields.len() implies (#[trigger] fields[j]).0
                    != name by {
                    if j < rest.len() {
                        assert(rest[j] == fields[j]);
                    }
                }
            },
        }
    }
}

/// A stack fits if its top fits and the rest fits below it.
pub proof fn lemma_kont_wf_push(kont: Seq<SpecKont>, top: SpecKont, depth: nat)
    ensures
        kont_wf(kont.push(top), depth) == (kont_fits(top, depth) && kont_wf(
            kont,
            depth_below(top, depth),
        )),
{
    assert(kont.push(top).drop_last() =~= kont);
    assert(kont.push(top).last() == top);
}

/// The continuations for closed arguments fit wherever the stack below
/// them fits.
pub proof fn lemma_arg_konts_wf(kont: Seq<SpecKont>, args: Seq<Expr>, depth: nat)
    requires
        kont_wf(kont, depth),
        Expr::all_closed(args, depth),
    ensures
        kont_wf(kont + arg_konts(args), depth),
    decreases args.len(),
{
    if args.len() == 0 {
        assert(kont + arg_konts(args) =~= kont);
    } else {
        let rest = args.drop_first();
        assert forall|i: int| 0 <= i < rest.len() implies (#[trigger] rest[i]).closed(depth) by {
            assert(rest[i] == args[i + 1]);
        }
        lemma_arg_konts_wf(kont, rest, depth);
        assert(kont + arg_konts(args) =~= (kont + arg_konts(rest)).push(SpecKont::Arg(args[0])));
        lemma_kont_wf_push(kont + arg_konts(rest), SpecKont::Arg(args[0]), depth);
    }
}

/// Binding a name keeps the names of a record distinct and its values
/// well-formed.
pub proof fn lemma_record_insert_wf(
    fields: Seq<(Seq<char>, SpecValue)>,
    name: Seq<char>,
    value: SpecValue,
)
    requires
        SpecValue::Record(fields).wf(),
        value.wf(),
    ensures
        SpecValue::Record(record_insert(fields, name, value)).wf(),
        lookup(record_insert(fields, name, value), name) == Some(value),
{
    lemma_index_of(fields, name);
    let after = record_insert(fields, name, value);
    lemma_index_of(after, name);
    match index_of(fields, name) {
        Some(i) => {
            assert forall|j: int| 0 <= j < after.len() implies (#[trigger] after[j]).0
                == fields[j].0 by {}
            assert(after[i] == (name, value));
        },
        None => {
            assert(after.last() == (name, value));
            assert forall|j: int| 0 <= j < fields.len() implies #[trigger] after[j]
                == fields[j] by {}
        },
    }
    assert forall|j: int| 0 <= j < after.len() implies (#[trigger] after[j]).1.wf() by {
        if after[j] != (name, value) {
            assert(after[j] == fields[j]);
        }
    }
}

/// A record built from distinct or repeated names is well-formed if the
/// values are.
pub proof fn lemma_record_of_wf(names: Seq<Seq<char>>, values: Seq<SpecValue>)
    requires
        all_wf(values),
    ensures
        SpecValue::Record(record_of(names, values)).wf(),
    decreases names.len(),
{
    if names.len() == 0 || values.len() == 0 {
    } else {
        let rest = values.drop_last();
        assert forall|i: int| 0 <= i < rest.len() implies (#[trigger] rest[i]).wf() by {
            assert(rest[i] == values[i]);
        }
        lemma_record_of_wf(names.drop_last(), rest);
        lemma_record_insert_wf(
            record_of(names.drop_last(), rest),
            names.last(),
            values.last(),
        );
    }
}

/// A builtin operator gives a well-formed value on well-formed arguments.
pub proof fn lemma_eval_builtin_wf(op: OpCode, args: Seq<SpecValue>)
    requires
        args.len() == op.spec_arity(),
        all_wf(args),
    ensures
        eval_builtin(op, args) matches Ok(value) ==> value.wf(),
{
    assert(args[0].wf());
}

/// Entering a primitive with well-formed arguments gives a well-formed
/// state.
pub proof fn lemma_enter_prim_wf(m: SpecMachine, prim: SpecPrim, args: Seq<SpecValue>)
    requires
        all_wf(m.env),
        kont_wf(m.kont, m.env.len()),
        all_wf(args),
        args.len() > 0,
        SpecValue::Pap(SpecPap { prim, arity: args.len(), args: args.drop_last() }).wf(),
    ensures
        m.enter_prim(prim, args).wf(),
{
    match prim {
        SpecPrim::Builtin(op) => {
            lemma_eval_builtin_wf(op, args);
        },
        SpecPrim::Lam(body, env) => {
            let joined = env + args;
            assert forall|i: int| 0 <= i < joined.len() implies (#[trigger] joined[i]).wf() by {
                if i < env.len() {
                    assert(joined[i] == env[i]);
                } else {
                    assert(joined[i] == args[i - env.len()]);
                }
            }
            lemma_kont_wf_push(m.kont, SpecKont::Dump(m.env), joined.len());
        },
        SpecPrim::Record(names) => {
            lemma_record_of_wf(names, args);
        },
        SpecPrim::Proj(field) => {
            assert(args[0].wf());
            match args[0] {
                SpecValue::Record(fields) => {
                    lemma_index_of(fields, field);
                },
                _ => {},
            }
        },
    }
}

/// The transition for an expression keeps the state well-formed.
pub proof fn lemma_step_expr_wf(m: SpecMachine, expr: Expr)
    requires
        all_wf(m.env),
        kont_wf(m.kont, m.env.len()),
        expr.closed(m.env.len()),
    ensures
        m.step_expr(expr).wf(),
{
    let depth = m.env.len();
    match expr {
        Expr::Var(_, index) => {
            assert(m.env[m.env.len() - index.unwrap()].wf());
        },
        Expr::Num(_) => {},
        Expr::Bool(_) => {},
        Expr::PrimOp(_) => {},
        Expr::App(fun, args) => {
            lemma_arg_konts_wf(m.kont, args@, depth);
        },
        Expr::Lam(_, _) => {},
        Expr::Let(binder, bound, body) => {
            lemma_kont_wf_push(m.kont, SpecKont::Let(binder@, *body), depth);
        },
        Expr::If(cond, then, elze) => {
            lemma_kont_wf_push(m.kont, SpecKont::If(*then, *elze), depth);
        },
        Expr::Record(fields, exprs) => {
            if fields@.len() > 0 {
                lemma_arg_konts_wf(m.kont, exprs@, depth);
                assert(fields@.len() == fields.len() <= usize::MAX);
            }
        },
        Expr::Proj(record, field) => {
            lemma_kont_wf_push(m.kont, SpecKont::Arg(*record), depth);
        },
    }
}

/// The transition for a value keeps the state well-formed.
pub proof fn lemma_step_value_wf(m: SpecMachine, value: SpecValue, top: SpecKont)
    requires
        all_wf(m.env),
        value.wf(),
        kont_wf(m.kont.push(top), m.env.len()),
    ensures
        m.step_value(value, top).wf(),
{
    let depth = m.env.len();
    lemma_kont_wf_push(m.kont, top, depth);
    match top {
        SpecKont::Dump(env) => {},
        SpecKont::Pop(count) => {
            let rest = m.env.take(m.env.len() - count);
            assert forall|i: int| 0 <= i < rest.len() implies (#[trigger] rest[i]).wf() by {
                assert(rest[i] == m.env[i]);
            }
        },
        SpecKont::Arg(arg) => {
            lemma_kont_wf_push(m.kont, SpecKont::App(value), depth);
        },
        SpecKont::ArgValue(arg) => {
            lemma_kont_wf_push(m.kont, SpecKont::App(value), depth);
        },
        SpecKont::App(fun) => {
            match fun {
                SpecValue::Pap(pap) => {
                    let args = pap.args.push(value);
                    assert forall|i: int| 0 <= i < args.len() implies (#[trigger] args[i]).wf() by {
                        if i < pap.args.len() {
                            assert(args[i] == pap.args[i]);
                        }
                    }
                    assert(args.drop_last() =~= pap.args);
                    if args.len() == pap.arity {
                        lemma_enter_prim_wf(m, pap.prim, args);
                    }
                },
                SpecValue::Fix(inner) => {
                    let first = SpecKont::ArgValue(value);
                    let second = SpecKont::ArgValue(SpecValue::Fix(inner));
                    lemma_kont_wf_push(m.kont, first, depth);
                    lemma_kont_wf_push(m.kont.push(first), second, depth);
                },
                _ => {},
            }
        },
        SpecKont::Let(_, body) => {
            let env = m.env.push(value);
            assert forall|i: int| 0 <= i < env.len() implies (#[trigger] env[i]).wf() by {
                if i < m.env.len() {
                    assert(env[i] == m.env[i]);
                }
            }
            lemma_kont_wf_push(m.kont, SpecKont::Pop(1), env.len());
        },
        SpecKont::If(then, elze) => {},
    }
}

/// A transition leads from well-formed states to well-formed states.
pub proof fn lemma_step_preserves_wf(m: SpecMachine)
    requires
        m.wf(),
    ensures
        m.step().wf(),
{
    match m.ctrl {
        SpecCtrl::Expr(expr) => {
            lemma_step_expr_wf(m, expr);
        },
        SpecCtrl::Value(value) => {
            if m.kont.len() > 0 {
                let below = SpecMachine { kont: m.kont.drop_last(), ..m };
                assert(below.kont.push(m.kont.last()) =~= m.kont);
                lemma_step_value_wf(below, value, m.kont.last());
            }
        },
        _ => {},
    }
}

/// The invariant of the machine: every state that can be reached from a
/// well-formed state is well-formed. In particular every state that a run
/// of a closed expression passes through is.
pub proof fn law_reachable_states_are_well_formed(m: SpecMachine, n: nat)
    requires
        m.wf(),
    ensures
        m.steps(n).wf(),
    decreases n,
{
    if n > 0 {
        lemma_step_preserves_wf(m);
        law_reachable_states_are_well_formed(m.step(), (n - 1) as nat);
    }
}

/// A final state stays as it is.
pub proof fn lemma_final_is_fixed(m: SpecMachine, n: nat)
    requires
        m.is_final(),
    ensures
        m.steps(n) == m,
    decreases n,
{
    if n > 0 {
        lemma_final_is_fixed(m, (n - 1) as nat);
    }
}

/// `run` returns the outcome of the final state that the transitions
/// reach, whenever they reach one within the fuel it is given.
pub proof fn lemma_run_reaches(m: SpecMachine, n: nat, fuel: nat)
    requires
        m.steps(n).is_final(),
        n <= fuel,
    ensures
        m.run(fuel) == m.steps(n).outcome(),
    decreases n,
{
    if m.is_final() {
        lemma_final_is_fixed(m, n);
    } else {
        lemma_run_reaches(m.step(), (n - 1) as nat, (fuel - 1) as nat);
    }
}

/// Evaluation is deterministic: two machines that start in the same state
/// stop with equal outcomes, and every run of one expression starts in the
/// same state.
pub proof fn law_determinism(expr: Expr, first: SpecMachine, second: SpecMachine, fuel: nat)
    requires
        first == SpecMachine::init(expr),
        second == SpecMachine::init(expr),
    ensures
        first.run(fuel) == second.run(fuel),
{
}

/// One transition of a state that still has work of its own does not look
/// at the continuations below that work: it commutes with putting the
/// state on top of any stack.
pub proof fn lemma_frame_step(m: SpecMachine, base: Seq<SpecKont>)
    requires
        !(m.ctrl is Value && m.kont.len() == 0),
    ensures
        m.on_top_of(base).step() == m.step().on_top_of(base),
{
    let big = m.on_top_of(base);
    match m.ctrl {
        SpecCtrl::Expr(expr) => {
            match expr {
                Expr::App(fun, args) => {
                    assert((base + m.kont) + arg_konts(args@) =~= base + (m.kont + arg_konts(
                        args@,
                    )));
                },
                Expr::Let(binder, bound, body) => {
                    assert((base + m.kont).push(SpecKont::Let(binder@, *body)) =~= base
                        + m.kont.push(SpecKont::Let(binder@, *body)));
                },
                Expr::If(cond, then, elze) => {
                    assert((base + m.kont).push(SpecKont::If(*then, *elze)) =~= base + m.kont.push(
                        SpecKont::If(*then, *elze),
                    ));
                },
                Expr::Record(fields, exprs) => {
                    assert((base + m.kont) + arg_konts(exprs@) =~= base + (m.kont + arg_konts(
                        exprs@,
                    )));
                },
                Expr::Proj(record, field) => {
                    assert((base + m.kont).push(SpecKont::Arg(*record)) =~= base + m.kont.push(
                        SpecKont::Arg(*record),
                    ));
                },
                _ => {},
            }
        },
        SpecCtrl::Value(value) => {
            let top = m.kont.last();
            let rest = m.kont.drop_last();
            assert(big.kont.last() == top);
            assert(big.kont.drop_last() =~= base + rest);
            let small = SpecMachine { kont: rest, ..m };
            let lifted = SpecMachine { kont: base + rest, ..m };
            match top {
                SpecKont::Arg(arg) => {
                    assert((base + rest).push(SpecKont::App(value)) =~= base + rest.push(
                        SpecKont::App(value),
                    ));
                },
                SpecKont::ArgValue(arg) => {
                    assert((base + rest).push(SpecKont::App(value)) =~= base + rest.push(
                        SpecKont::App(value),
                    ));
                },
                SpecKont::App(fun) => {
                    match fun {
                        SpecValue::Pap(pap) => {
                            let args = pap.args.push(value);
                            match pap.prim {
                                SpecPrim::Lam(body, env) => {
                                    assert((base + rest).push(SpecKont::Dump(m.env)) =~= base
                                        + rest.push(SpecKont::Dump(m.env)));
                                },
                                _ => {},
                            }
                        },
                        SpecValue::Fix(inner) => {
                            let first = SpecKont::ArgValue(value);
                            let second = SpecKont::ArgValue(SpecValue::Fix(inner));
                            assert((base + rest).push(first).push(second) =~= base + rest.push(
                                first,
                            ).push(second));
                        },
                        _ => {},
                    }
                },
                SpecKont::Let(_, body) => {
                    assert((base + rest).push(SpecKont::Pop(1)) =~= base + rest.push(
                        SpecKont::Pop(1),
                    ));
                },
                _ => {},
            }
            assert(lifted.step_value(value, top) == small.step_value(value, top).on_top_of(base));
        },
        _ => {},
    }
}

/// An error ends the run whatever work is pending: if a state reaches an
/// error after `n` transitions, then on top of any stack `base` it reaches
/// the same error after `n` transitions, with `base` untouched below it,
/// and that error is what `run` returns.
pub proof fn law_errors_skip_pending_work(m: SpecMachine, base: Seq<SpecKont>, n: nat, fuel: nat)
    requires
        m.steps(n).ctrl is Error,
        n <= fuel,
    ensures
        m.on_top_of(base).steps(n) == m.steps(n).on_top_of(base),
        m.on_top_of(base).run(fuel) == m.steps(n).outcome(),
    decreases n,
{
    if n > 0 {
        if m.ctrl is Value && m.kont.len() == 0 {
            lemma_final_is_fixed(m, n);
        } else {
            lemma_frame_step(m, base);
            law_errors_skip_pending_work(m.step(), base, (n - 1) as nat, (fuel - 1) as nat);
        }
    }
    lemma_run_reaches(m.on_top_of(base), n, fuel);
}

/// The stack while the first argument of a call is evaluated: the function
/// under `App` on top of the continuation for the next argument.
pub open spec fn pending_call(below: Seq<SpecKont>, second: Expr, fun: SpecValue) -> Seq<SpecKont> {
    below.push(SpecKont::Arg(second)).push(SpecKont::App(fun))
}

/// Arguments are evaluated from left to right. While the first argument
/// `first` of a call is evaluated, the stack is `pending_call`. If `first`
/// fails after `n` transitions, then `Arg(second)` is still in its place at
/// that moment, so `second` was never in control, and the run ends with
/// the error of `first` whatever `second` is.
pub proof fn law_left_to_right(
    first: Expr,
    second: Expr,
    fun: SpecValue,
    env: Seq<SpecValue>,
    below: Seq<SpecKont>,
    n: nat,
    fuel: nat,
)
    requires
        SpecMachine::evaluating(first, env, Seq::empty()).steps(n).ctrl is Error,
        n <= fuel,
    ensures
        SpecMachine::evaluating(first, env, pending_call(below, second, fun)).steps(n).ctrl
            == SpecMachine::evaluating(first, env, Seq::empty()).steps(n).ctrl,
        SpecMachine::evaluating(first, env, pending_call(below, second, fun)).steps(n).kont
            == pending_call(below, second, fun) + SpecMachine::evaluating(
            first,
            env,
            Seq::empty(),
        ).steps(n).kont,
        SpecMachine::evaluating(first, env, pending_call(below, second, fun)).run(fuel)
            == SpecMachine::evaluating(first, env, Seq::empty()).steps(n).outcome(),
{
    let alone = SpecMachine::evaluating(first, env, Seq::empty());
    let pending = pending_call(below, second, fun);
    assert(alone.on_top_of(pending) == SpecMachine::evaluating(first, env, pending)) by {
        assert(alone.on_top_of(pending).kont =~= pending);
    }
    law_errors_skip_pending_work(alone, pending, n, fuel);
}

/// In a record with distinct names every field is the field that its name
/// looks up.
pub proof fn lemma_lookup_own_field(fields: Seq<(Seq<char>, SpecValue)>, i: int)
    requires
        unique_names(fields),
        0 <= i < fields.len(),
    ensures
        index_of(fields, fields[i].0) == Some(i),
{
    lemma_index_of(fields, fields[i].0);
}

/// The names that one record binds are bound by every record with the
/// same lookups.
proof fn lemma_same_lookups_same_names(
    ys: Seq<(Seq<char>, SpecValue)>,
    zs: Seq<(Seq<char>, SpecValue)>,
    j: int,
)
    requires
        forall|name: Seq<char>| lookup(ys, name) == lookup(zs, name),
        0 <= j < zs.len(),
    ensures
        index_of(ys, zs[j].0) matches Some(k) && 0 <= k < ys.len() && ys[k].0 == zs[j].0,
{
    lemma_index_of(zs, zs[j].0);
    lemma_index_of(ys, zs[j].0);
    assert(lookup(zs, zs[j].0) is Some);
    assert(lookup(ys, zs[j].0) is Some);
}

/// Record equality does not depend on the order of the fields: two
/// records with distinct names that bind the same names to the same
/// values can take each other's place on either side of an equality.
pub proof fn law_record_equality_ignores_order(
    xs: Seq<(Seq<char>, SpecValue)>,
    ys: Seq<(Seq<char>, SpecValue)>,
    zs: Seq<(Seq<char>, SpecValue)>,
)
    requires
        unique_names(ys),
        unique_names(zs),
        forall|name: Seq<char>| lookup(ys, name) == lookup(zs, name),
    ensures
        SpecValue::Record(xs).equals(SpecValue::Record(ys)) == SpecValue::Record(xs).equals(
            SpecValue::Record(zs),
        ),
        SpecValue::Record(ys).equals(SpecValue::Record(xs)) == SpecValue::Record(zs).equals(
            SpecValue::Record(xs),
        ),
{
    lemma_one_sided(xs, ys, zs);
    lemma_one_sided(xs, zs, ys);
}

/// One direction of `law_record_equality_ignores_order`.
proof fn lemma_one_sided(
    xs: Seq<(Seq<char>, SpecValue)>,
    ys: Seq<(Seq<char>, SpecValue)>,
    zs: Seq<(Seq<char>, SpecValue)>,
)
    requires
        unique_names(ys),
        unique_names(zs),
        forall|name: Seq<char>| lookup(ys, name) == lookup(zs, name),
    ensures
        SpecValue::Record(xs).equals(SpecValue::Record(ys)) ==> SpecValue::Record(xs).equals(
            SpecValue::Record(zs),
        ),
        SpecValue::Record(ys).equals(SpecValue::Record(xs)) ==> SpecValue::Record(zs).equals(
            SpecValue::Record(xs),
        ),
{
    if SpecValue::Record(xs).equals(SpecValue::Record(ys)) {
        assert forall|i: int| 0 <= i < xs.len() implies match lookup(zs, (#[trigger] xs[i]).0) {
            Some(z) => xs[i].1.equals(z),
            None => false,
        } by {
            assert(lookup(ys, xs[i].0) == lookup(zs, xs[i].0));
        }
        assert forall|j: int| 0 <= j < zs.len() implies index_of(xs, (#[trigger] zs[j]).0)
            is Some by {
            lemma_same_lookups_same_names(ys, zs, j);
            let k = index_of(ys, zs[j].0)->Some_0;
            assert(index_of(xs, ys[k].0) is Some);
        }
    }
    if SpecValue::Record(ys).equals(SpecValue::Record(xs)) {
        assert forall|i: int| 0 <= i < zs.len() implies match lookup(xs, (#[trigger] zs[i]).0) {
            Some(x) => zs[i].1.equals(x),
            None => false,
        } by {
            lemma_same_lookups_same_names(ys, zs, i);
            let k = index_of(ys, zs[i].0)->Some_0;
            lemma_lookup_own_field(zs, i);
            lemma_lookup_own_field(ys, k);
            assert(lookup(zs, zs[i].0) == Some(zs[i].1));
            assert(lookup(ys, ys[k].0) == Some(ys[k].1));
            assert(zs[i].1 == ys[k].1);
            assert(match lookup(xs, ys[k].0) {
                Some(x) => ys[k].1.equals(x),
                None => false,
            });
        }
        assert forall|j: int| 0 <= j < xs.len() implies index_of(zs, (#[trigger] xs[j]).0)
            is Some by {
            assert(index_of(ys, xs[j].0) is Some);
            assert(lookup(ys, xs[j].0) == lookup(zs, xs[j].0));
        }
    }
}

/// Records of different shape are unequal: if one of two records binds a
/// name that the other does not bind, then they are not equal, whatever
/// else they hold.
pub proof fn law_records_of_different_shape_differ(
    xs: Seq<(Seq<char>, SpecValue)>,
    ys: Seq<(Seq<char>, SpecValue)>,
    name: Seq<char>,
)
    requires
        (lookup(xs, name) is Some) != (lookup(ys, name) is Some),
    ensures
        !SpecValue::Record(xs).equals(SpecValue::Record(ys)),
{
    lemma_index_of(xs, name);
    lemma_index_of(ys, name);
    if lookup(xs, name) is Some {
        let i = index_of(xs, name)->Some_0;
        assert(lookup(ys, xs[i].0) is None);
    } else {
        let j = index_of(ys, name)->Some_0;
        assert(index_of(xs, ys[j].0) is None);
    }
}

} // verus!
