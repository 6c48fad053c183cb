use rufus::proto::cek::State;
use rufus::proto::eval::{Env, Value};
use rufus::proto::syntax::{Expr, Indexer, Name, Opcode};
use std::rc::Rc;

fn name(text: &str) -> Name {
    Name(text.to_string())
}

fn var(text: &str) -> Expr {
    Expr::Var(name(text), None)
}

fn num(n: i64) -> Expr {
    Expr::Num(n)
}

fn op(code: Opcode, lhs: Expr, rhs: Expr) -> Expr {
    Expr::Op(code, Box::new(lhs), Box::new(rhs))
}

fn app(fun: Expr, args: Vec<Expr>) -> Expr {
    Expr::App(Box::new(fun), args)
}

fn lam(params: &[&str], body: Expr) -> Expr {
    Expr::Lam(params.iter().map(|p| name(p)).collect(), Box::new(body))
}

fn let_in(binder: &str, bound: Expr, body: Expr) -> Expr {
    Expr::Let(name(binder), Box::new(bound), Box::new(body))
}

// A reader for the notation in which the programs below are written.

fn words(input: &str) -> Vec<String> {
    let chars: Vec<char> = input.chars().collect();
    let mut words = Vec::new();
    let mut pos = 0;
    while pos < chars.len() {
        let c = chars[pos];
        let start = pos;
        if c.is_whitespace() {
            pos += 1;
            continue;
        } else if c.is_ascii_alphabetic() || c == '_' {
            while pos < chars.len() && (chars[pos].is_ascii_alphanumeric() || chars[pos] == '_') {
                pos += 1;
            }
        } else if c.is_ascii_digit() {
            while pos < chars.len() && chars[pos].is_ascii_digit() {
                pos += 1;
            }
        } else {
            pos += 1;
        }
        words.push(chars[start..pos].iter().collect());
    }
    words
}

struct Reader {
    words: Vec<String>,
    next: usize,
}

impl Reader {
    fn peek(&self) -> &str {
        if self.next < self.words.len() {
            &self.words[self.next]
        } else {
            ""
        }
    }

    fn advance(&mut self) -> String {
        let word = self.peek().to_string();
        self.next += 1;
        word
    }

    fn expect(&mut self, word: &str) {
        assert_eq!(self.advance(), word);
    }

    fn expr(&mut self) -> Expr {
        match self.peek() {
            "let" => {
                self.advance();
                let binder = self.advance();
                self.expect("=");
                let bound = self.expr();
                self.expect(";");
                let body = self.expr();
                let_in(&binder, bound, body)
            }
            "|" => {
                self.advance();
                let mut params = Vec::new();
                while self.peek() != "|" {
                    params.push(name(&self.advance()));
                    if self.peek() == "," {
                        self.advance();
                    }
                }
                self.expect("|");
                Expr::Lam(params, Box::new(self.expr()))
            }
            _ => self.sum(),
        }
    }

    fn sum(&mut self) -> Expr {
        let mut lhs = self.product();
        loop {
            let code = match self.peek() {
                "+" => Opcode::Add,
                "-" => Opcode::Sub,
                _ => return lhs,
            };
            self.advance();
            let rhs = self.product();
            lhs = op(code, lhs, rhs);
        }
    }

    fn product(&mut self) -> Expr {
        let mut lhs = self.call();
        loop {
            let code = match self.peek() {
                "*" => Opcode::Mul,
                "/" => Opcode::Div,
                _ => return lhs,
            };
            self.advance();
            let rhs = self.call();
            lhs = op(code, lhs, rhs);
        }
    }

    fn call(&mut self) -> Expr {
        let mut expr = self.atom();
        while self.peek() == "(" {
            self.advance();
            let mut args = Vec::new();
            while self.peek() != ")" {
                args.push(self.expr());
                if self.peek() == "," {
                    self.advance();
                }
            }
            self.expect(")");
            expr = app(expr, args);
        }
        expr
    }

    fn atom(&mut self) -> Expr {
        let word = self.advance();
        match word.as_str() {
            "(" => {
                let inner = self.expr();
                self.expect(")");
                inner
            }
            "{" => {
                let inner = self.expr();
                self.expect("}");
                inner
            }
            _ if word.chars().all(|c| c.is_ascii_digit()) => num(word.parse().unwrap()),
            _ => var(&word),
        }
    }
}

fn parse(input: &str) -> Expr {
    let mut reader = Reader { words: words(input), next: 0 };
    let expr = reader.expr();
    assert_eq!(reader.peek(), "");
    expr
}

fn machine(expr: Expr) -> Result<i64, String> {
    let expr = expr.index();
    State::init(&expr).run().map(|value| value.as_i64())
}

fn evaluator(expr: Expr) -> Result<i64, String> {
    let expr = expr.index();
    let value = expr.eval()?;
    value.as_i64()
}

fn integration_test(expected: i64, expr: &str) {
    let expr = parse(expr).index();
    assert_eq!(State::init(&expr).run().unwrap().as_i64(), expected);
}

// let t = 3;
// let f = |x| (t * x);
// let twice = |f, x| f(f(x));
// twice(|x| twice(f, x), 2)
fn twice_program() -> Expr {
    let_in(
        "t",
        num(3),
        let_in(
            "f",
            lam(&["x"], op(Opcode::Mul, var("t"), var("x"))),
            let_in(
                "twice",
                lam(&["f", "x"], app(var("f"), vec![app(var("f"), vec![var("x")])])),
                app(
                    var("twice"),
                    vec![lam(&["x"], app(var("twice"), vec![var("f"), var("x")])), num(2)],
                ),
            ),
        ),
    )
}

// let x = 1; let y = {let z = 2; z}; x
fn nested_let_program() -> Expr {
    let_in("x", num(1), let_in("y", let_in("z", num(2), var("z")), var("x")))
}

// let x = 1; let y = 2; let f = |z| (x+z); f(4)
fn simple_lambda_program() -> Expr {
    let_in(
        "x",
        num(1),
        let_in(
            "y",
            num(2),
            let_in(
                "f",
                lam(&["z"], op(Opcode::Add, var("x"), var("z"))),
                app(var("f"), vec![num(4)]),
            ),
        ),
    )
}

#[test]
fn main_twice() {
    integration_test(
        162,
        "
            let t = 3;
            let f = |x| (t * x);
            let twice = |f, x| f(f(x));
            twice(|x| twice(f, x), 2)",
    );
}

#[test]
fn main_nested_let() {
    integration_test(1, "let x = 1; let y = {let z = 2; z}; x");
}

#[test]
fn main_simple_lambda() {
    integration_test(5, "let x = 1; let y = 2; let f = |z| (x+z); f(4)");
}

#[test]
fn test() {
    let expr1 = parse(
        "
            let t = 3;
            let f = |x| (t * x);
            let twice = |f, x| f(f(x));
            twice(|x| twice(f, x), 2)",
    )
    .index();
    assert_eq!(State::init(&expr1).run().unwrap().as_i64(), 162);

    let expr2 = parse("let x = 1; let y = {let z = 2; z}; x").index();
    assert_eq!(State::init(&expr2).run().unwrap().as_i64(), 1);
}

#[test]
fn first_calculus_programs_are_read_as_written() {
    assert_eq!(
        format!("{:?}", parse("let x = 1; let y = {let z = 2; z}; x")),
        format!("{:?}", nested_let_program())
    );
    assert_eq!(
        format!("{:?}", parse("let x = 1; let y = 2; let f = |z| (x+z); f(4)")),
        format!("{:?}", simple_lambda_program())
    );
}

#[test]
fn syntax_test_xy() {
    let mut idx = Indexer::new();

    assert_eq!(idx.get("x"), None);
    assert_eq!(idx.get("y"), None);

    idx.intro("x", |idx| {
        assert_eq!(idx.get("x"), Some(1));
        assert_eq!(idx.get("y"), None);

        idx.intro("y", |idx| {
            assert_eq!(idx.get("x"), Some(2));
            assert_eq!(idx.get("y"), Some(1));

            idx.intro("x", |idx| {
                assert_eq!(idx.get("x"), Some(1));
                assert_eq!(idx.get("y"), Some(2));
            });

            assert_eq!(idx.get("x"), Some(2));
            assert_eq!(idx.get("y"), Some(1));

            idx.intro("y", |idx| {
                assert_eq!(idx.get("x"), Some(3));
                assert_eq!(idx.get("y"), Some(1));
            });

            assert_eq!(idx.get("x"), Some(2));
            assert_eq!(idx.get("y"), Some(1));
        });

        assert_eq!(idx.get("x"), Some(1));
        assert_eq!(idx.get("y"), None);
    });

    assert_eq!(idx.get("x"), None);
    assert_eq!(idx.get("y"), None);
}

#[test]
fn syntax_test_many() {
    let mut idx = Indexer::new();
    idx.intro_many(&["x", "y"], |idx| {
        assert_eq!(idx.get("x"), Some(2));
        assert_eq!(idx.get("y"), Some(1));
    });

    assert_eq!(idx.get("x"), None);
    assert_eq!(idx.get("y"), None);
}

#[test]
fn syntax_test_many_shadowing() {
    let mut idx = Indexer::new();
    idx.intro_many(&["x", "x"], |idx| {
        assert_eq!(idx.get("x"), Some(1));
    });
    assert_eq!(idx.get("x"), None);
}

#[test]
fn the_evaluator_agrees_with_the_machine() {
    assert_eq!(evaluator(twice_program()), Ok(162));
    assert_eq!(evaluator(nested_let_program()), Ok(1));
    assert_eq!(evaluator(simple_lambda_program()), Ok(5));
    assert_eq!(machine(op(Opcode::Sub, num(7), num(9))), Ok(-2));
    assert_eq!(evaluator(op(Opcode::Sub, num(7), num(9))), Ok(-2));
    assert_eq!(machine(op(Opcode::Div, num(-7), num(2))), Ok(-3));
    assert_eq!(evaluator(op(Opcode::Div, num(-7), num(2))), Ok(-3));
}

#[test]
fn the_machine_reports_what_went_wrong() {
    assert_eq!(machine(var("x")), Err("unindexed variable".to_string()));
    assert_eq!(machine(Expr::Var(name("x"), None)), Err("unindexed variable".to_string()));
    assert_eq!(machine(app(num(1), vec![])), Err("executing non lambda".to_string()));
    assert_eq!(
        machine(app(lam(&["x", "y"], var("x")), vec![num(1)])),
        Err("not enough args for PAP".to_string())
    );
    assert_eq!(
        machine(app(lam(&["x"], var("x")), vec![num(1), num(2)])),
        Err("applying value".to_string())
    );
    assert_eq!(
        machine(op(Opcode::Add, num(1), lam(&["x"], var("x")))),
        Err("expected i64, found a function".to_string())
    );
    assert_eq!(machine(op(Opcode::Div, num(1), num(0))), Err("division by zero".to_string()));
    assert_eq!(
        machine(op(Opcode::Mul, num(i64::MAX), num(2))),
        Err("arithmetic overflow".to_string())
    );
    let unbound = Expr::Var(name("x"), Some(1));
    assert_eq!(
        State::init(&unbound).run().map(|value| value.as_i64()),
        Err("bad de Bruijn index".to_string())
    );
}

#[test]
fn the_machine_steps_one_transition_at_a_time() {
    let expr = op(Opcode::Add, num(1), num(2)).index();
    let mut state = State::init(&expr);
    let mut steps = 0;
    while !state.is_final() {
        state.step();
        steps += 1;
    }
    assert_eq!(steps, 8);
    state.step();
    assert!(state.is_final());
    assert_eq!(state.run().unwrap().as_i64(), 3);
}

#[test]
fn the_evaluator_reports_what_went_wrong() {
    assert_eq!(evaluator(var("x")), Err("unknown variable: x".to_string()));
    assert_eq!(
        evaluator(app(num(1), vec![])),
        Err("expected lambda, found something else".to_string())
    );
    assert_eq!(
        evaluator(lam(&["x"], var("x"))),
        Err("expected i64, found something else".to_string())
    );
    assert_eq!(
        evaluator(app(lam(&["x", "y"], var("x")), vec![num(1)])),
        Err("function applied to 1 arguments, but expected 2".to_string())
    );
    assert_eq!(
        evaluator(app(lam(&["x"], var("x")), (0..12).map(num).collect())),
        Err("function applied to 12 arguments, but expected 1".to_string())
    );
    assert_eq!(evaluator(op(Opcode::Div, num(1), num(0))), Err("division by zero".to_string()));
    // The arguments are evaluated before the function.
    assert_eq!(
        evaluator(app(var("f"), vec![var("x")])),
        Err("unknown variable: x".to_string())
    );
}

#[test]
fn evaluation_that_nests_too_deeply_is_an_error() {
    // let omega = |f| f(f); omega(omega)
    let omega = let_in(
        "omega",
        lam(&["f"], app(var("f"), vec![var("f")])),
        app(var("omega"), vec![var("omega")]),
    );
    assert_eq!(evaluator(omega), Err("evaluation is nested too deeply".to_string()));
}

#[test]
fn environments_are_stacks() {
    let mut env = Env::new();
    assert!(env.get(1).is_none());
    let result = env.intro(Rc::new(Value::Num(1)), |env| {
        env.intro_many(vec![Rc::new(Value::Num(2)), Rc::new(Value::Num(3))], |env| {
            (
                env.get(1).unwrap().as_i64(),
                env.get(2).unwrap().as_i64(),
                env.get(3).unwrap().as_i64(),
                env.get(4).is_none(),
                env.get(0).is_none(),
            )
        })
    });
    assert_eq!(result, (Ok(3), Ok(2), Ok(1), true, true));
    assert_eq!(env.len(), 0);
    assert!(env.clone().get(1).is_none());
    assert!(Value::Num(1).as_lam().is_err());
}

#[test]
fn operators_check_their_results() {
    assert_eq!(Opcode::Add.eval(1, 2), Ok(3));
    assert_eq!(Opcode::Sub.eval(1, 2), Ok(-1));
    assert_eq!(Opcode::Mul.eval(3, 4), Ok(12));
    assert_eq!(Opcode::Div.eval(9, 4), Ok(2));
    assert_eq!(Opcode::Div.eval(9, 0), Err("division by zero".to_string()));
    assert_eq!(Opcode::Div.eval(i64::MIN, -1), Err("arithmetic overflow".to_string()));
    assert_eq!(Opcode::Add.eval(i64::MAX, 1), Err("arithmetic overflow".to_string()));
    assert_eq!(name("x").text(), "x");
    assert!(name("x") == name("x").clone());
}
