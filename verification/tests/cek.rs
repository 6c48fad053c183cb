use rufus::cek::{eval_arith, eval_comp, eval_equals, eval_equals2, Machine, Value};
use rufus::syntax::{Expr, OpCode};
use std::rc::Rc;

fn var(name: &str) -> Expr {
    Expr::Var(name.to_string(), None)
}

fn num(n: i64) -> Expr {
    Expr::Num(n)
}

fn app(fun: Expr, args: Vec<Expr>) -> Expr {
    Expr::App(Box::new(fun), args)
}

fn op(code: OpCode, lhs: Expr, rhs: Expr) -> Expr {
    app(Expr::PrimOp(code), vec![lhs, rhs])
}

fn lam(params: &[&str], body: Expr) -> Expr {
    Expr::Lam(params.iter().map(|p| p.to_string()).collect(), Box::new(body))
}

fn let_in(binder: &str, bound: Expr, body: Expr) -> Expr {
    Expr::Let(binder.to_string(), Box::new(bound), Box::new(body))
}

fn if_then_else(cond: Expr, then: Expr, elze: Expr) -> Expr {
    Expr::If(Box::new(cond), Box::new(then), Box::new(elze))
}

fn record(fields: Vec<(&str, Expr)>) -> Expr {
    let mut names = Vec::new();
    let mut exprs = Vec::new();
    for (name, expr) in fields {
        names.push(name.to_string());
        exprs.push(expr);
    }
    Expr::Record(names, exprs)
}

fn proj(record: Expr, field: &str) -> Expr {
    Expr::Proj(Box::new(record), field.to_string())
}

fn fix(fun: Expr) -> Expr {
    app(Expr::PrimOp(OpCode::Fix), vec![fun])
}

// A reader for the notation in which the programs below are written.

fn words(input: &str) -> Vec<String> {
    let chars: Vec<char> = input.chars().collect();
    let mut words = Vec::new();
    let mut pos = 0;
    while pos < chars.len() {
        let c = chars[pos];
        let start = pos;
        if c.is_whitespace() {
            pos += 1;
            continue;
        } else if c.is_ascii_alphabetic() || c == '_' {
            while pos < chars.len() && (chars[pos].is_ascii_alphanumeric() || chars[pos] == '_') {
                pos += 1;
            }
        } else if c.is_ascii_digit() {
            while pos < chars.len() && chars[pos].is_ascii_digit() {
                pos += 1;
            }
        } else {
            let two: String = chars[pos..chars.len().min(pos + 2)].iter().collect();
            if matches!(two.as_str(), "->" | "==" | "!=" | "<=" | ">=") {
                pos += 2;
            } else {
                pos += 1;
            }
        }
        words.push(chars[start..pos].iter().collect());
    }
    words
}

struct Reader {
    words: Vec<String>,
    next: usize,
}

impl Reader {
    fn peek(&self) -> &str {
        if self.next < self.words.len() {
            &self.words[self.next]
        } else {
            ""
        }
    }

    fn advance(&mut self) -> String {
        let word = self.peek().to_string();
        self.next += 1;
        word
    }

    fn expect(&mut self, word: &str) {
        assert_eq!(self.advance(), word);
    }

    fn starts_atom(&self) -> bool {
        let word = self.peek();
        let first = word.chars().next().unwrap_or(' ');
        (first.is_ascii_alphanumeric() || first == '_' || first == '(' || first == '{')
            && !matches!(word, "in" | "then" | "else" | "let" | "fun" | "if")
    }

    fn expr(&mut self) -> Expr {
        match self.peek() {
            "let" => {
                self.advance();
                let binder = self.advance();
                self.expect("=");
                let bound = self.expr();
                self.expect("in");
                let body = self.expr();
                Expr::Let(binder, Box::new(bound), Box::new(body))
            }
            "fun" => {
                self.advance();
                let mut params = Vec::new();
                while self.peek() != "->" {
                    params.push(self.advance());
                }
                self.expect("->");
                Expr::Lam(params, Box::new(self.expr()))
            }
            "if" => {
                self.advance();
                let cond = self.expr();
                self.expect("then");
                let then = self.expr();
                self.expect("else");
                let elze = self.expr();
                Expr::If(Box::new(cond), Box::new(then), Box::new(elze))
            }
            _ => self.comparison(),
        }
    }

    fn comparison(&mut self) -> Expr {
        let lhs = self.sum();
        let code = match self.peek() {
            "==" => OpCode::Equals,
            "!=" => OpCode::NotEq,
            "<" => OpCode::Less,
            "<=" => OpCode::LessEq,
            ">" => OpCode::Greater,
            ">=" => OpCode::GreaterEq,
            _ => return lhs,
        };
        self.advance();
        let rhs = self.sum();
        op(code, lhs, rhs)
    }

    fn sum(&mut self) -> Expr {
        let mut lhs = self.product();
        loop {
            let code = match self.peek() {
                "+" => OpCode::Add,
                "-" => OpCode::Sub,
                _ => return lhs,
            };
            self.advance();
            let rhs = self.product();
            lhs = op(code, lhs, rhs);
        }
    }

    fn product(&mut self) -> Expr {
        let mut lhs = self.application();
        loop {
            let code = match self.peek() {
                "*" => OpCode::Mul,
                "/" => OpCode::Div,
                _ => return lhs,
            };
            self.advance();
            let rhs = self.application();
            lhs = op(code, lhs, rhs);
        }
    }

    fn application(&mut self) -> Expr {
        let fun = self.postfix();
        let mut args = Vec::new();
        while self.starts_atom() {
            args.push(self.postfix());
        }
        if args.is_empty() {
            fun
        } else {
            app(fun, args)
        }
    }

    fn postfix(&mut self) -> Expr {
        let mut expr = self.atom();
        while self.peek() == "." {
            self.advance();
            let field = self.advance();
            expr = Expr::Proj(Box::new(expr), field);
        }
        expr
    }

    fn atom(&mut self) -> Expr {
        let word = self.advance();
        match word.as_str() {
            "(" => {
                let inner = self.expr();
                self.expect(")");
                inner
            }
            "{" => {
                let mut fields = Vec::new();
                while self.peek() != "}" {
                    let field = self.advance();
                    self.expect("=");
                    fields.push((field, self.expr()));
                    if self.peek() == ";" {
                        self.advance();
                    }
                }
                self.expect("}");
                let (names, exprs) = fields.into_iter().unzip();
                Expr::Record(names, exprs)
            }
            "true" => Expr::Bool(true),
            "false" => Expr::Bool(false),
            "fix" => Expr::PrimOp(OpCode::Fix),
            _ if word.chars().all(|c| c.is_ascii_digit()) => num(word.parse().unwrap()),
            _ => Expr::Var(word, None),
        }
    }
}

fn parse(input: &str) -> Expr {
    let mut reader = Reader { words: words(input), next: 0 };
    let expr = reader.expr();
    assert_eq!(reader.peek(), "");
    expr
}

fn run<'a>(expr: &'a Expr) -> Result<Rc<Value<'a>>, String> {
    assert!(expr.is_closed(0));
    Machine::new(expr).run()
}

fn integration_test(expected: i64, expr: &str) {
    let expr = parse(expr).index().unwrap();
    assert_eq!(run(&expr).unwrap().as_i64().unwrap(), expected);
}

fn evaluates_to(expected: i64, expr: Expr) {
    let expr = expr.index().unwrap();
    assert_eq!(run(&expr).unwrap().as_i64().unwrap(), expected);
}

fn values<'a>(items: Vec<Value<'a>>) -> Vec<Rc<Value<'a>>> {
    items.into_iter().map(Rc::new).collect()
}

#[test]
fn lib_twice() {
    integration_test(
        162,
        "
            let t = 3 in
            let f = fun x -> t * x in
            let twice = fun f x -> f (f x) in
            twice (twice f) 2
            ",
    );
}

#[test]
fn lib_nested_let() {
    integration_test(
        1,
        "
            let x = 1 in
            let y =
                let z = 2 in
                z
            in
            x
            ",
    );
}

#[test]
fn lib_simple_lambda() {
    integration_test(
        5,
        "
            let x = 1 in
            let y = 2 in
            let f = fun z -> x + z in
            f 4
            ",
    );
}

#[test]
fn simple_record() {
    integration_test(
        1,
        "
            let pair = fun x y -> { x = x; y = y } in
            let fst = fun p -> p.x in
            fst (pair 1 2)
            ",
    );
}

// let sum = fix (fun self n acc -> if n <= 0 then acc else self (n - 1) (acc + n)) in
// sum 100000 0
#[test]
fn deep_recursion_runs_on_the_heap() {
    let body = if_then_else(
        op(OpCode::LessEq, var("n"), num(0)),
        var("acc"),
        app(
            var("self"),
            vec![op(OpCode::Sub, var("n"), num(1)), op(OpCode::Add, var("acc"), var("n"))],
        ),
    );
    evaluates_to(
        5_000_050_000,
        let_in(
            "sum",
            fix(lam(&["self", "n", "acc"], body)),
            app(var("sum"), vec![num(100_000), num(0)]),
        ),
    );
}

#[test]
fn evaluation_is_deterministic() {
    let expr = let_in(
        "pair",
        lam(&["x", "y"], record(vec![("x", var("x")), ("y", var("y"))])),
        app(var("pair"), vec![num(1), op(OpCode::Div, num(7), num(2))]),
    )
    .index()
    .unwrap();
    let first = run(&expr).unwrap();
    let second = run(&expr).unwrap();
    assert!(eval_equals2(&first, &second));
    assert_eq!(format!("{:?}", first), format!("{:?}", second));

    let failing = op(OpCode::Add, num(1), Expr::Bool(true)).index().unwrap();
    assert_eq!(run(&failing).unwrap_err(), run(&failing).unwrap_err());
}

// f (1 + true) ({x = 1}.y): the error of the first argument is the result.
#[test]
fn arguments_are_evaluated_left_to_right() {
    let first = op(OpCode::Add, num(1), Expr::Bool(true));
    let second = proj(record(vec![("x", num(1))]), "y");
    let expr = let_in(
        "f",
        lam(&["a", "b"], var("a")),
        app(var("f"), vec![first, second]),
    )
    .index()
    .unwrap();
    let message = run(&expr).unwrap_err();
    assert!(message.contains("expected i64"));
    assert!(!message.contains("unknown field"));

    let first = proj(record(vec![("x", num(1))]), "y");
    let second = op(OpCode::Add, num(1), Expr::Bool(true));
    let expr = let_in(
        "f",
        lam(&["a", "b"], var("a")),
        app(var("f"), vec![first, second]),
    )
    .index()
    .unwrap();
    let message = run(&expr).unwrap_err();
    assert_eq!(message, "unknown field in record: y");
}

// {x = 1; y = 2} == {y = 2; x = 1}
#[test]
fn record_equality_ignores_the_order_of_fields() {
    let expr = op(
        OpCode::Equals,
        record(vec![("x", num(1)), ("y", num(2))]),
        record(vec![("y", num(2)), ("x", num(1))]),
    )
    .index()
    .unwrap();
    assert_eq!(run(&expr).unwrap().as_bool(), Ok(true));

    let expr = op(
        OpCode::NotEq,
        record(vec![("x", num(1)), ("y", num(2))]),
        record(vec![("y", num(2)), ("x", num(1))]),
    )
    .index()
    .unwrap();
    assert_eq!(run(&expr).unwrap().as_bool(), Ok(false));
}

// {x = 1} == {x = 1; y = 2}
#[test]
fn records_of_different_shape_are_unequal() {
    let expr = op(
        OpCode::Equals,
        record(vec![("x", num(1))]),
        record(vec![("x", num(1)), ("y", num(2))]),
    )
    .index()
    .unwrap();
    assert_eq!(run(&expr).unwrap().as_bool(), Ok(false));

    let expr = op(
        OpCode::Equals,
        record(vec![("x", num(1)), ("y", num(2))]),
        record(vec![("x", num(1))]),
    )
    .index()
    .unwrap();
    assert_eq!(run(&expr).unwrap().as_bool(), Ok(false));

    let expr = op(
        OpCode::Equals,
        record(vec![("x", num(1))]),
        record(vec![("x", num(2))]),
    )
    .index()
    .unwrap();
    assert_eq!(run(&expr).unwrap().as_bool(), Ok(false));
}

// {x = 1}.y
#[test]
fn projection_of_a_missing_field_fails() {
    let expr = proj(record(vec![("x", num(1))]), "y").index().unwrap();
    let message = run(&expr).unwrap_err();
    assert!(message.contains("y"));
    assert_eq!(message, "unknown field in record: y");

    let expr = proj(num(1), "y").index().unwrap();
    assert!(run(&expr).unwrap_err().starts_with("expected record, found "));
}

// let fact = fix (fun self n -> if n <= 1 then 1 else n * self (n - 1)) in fact 5
#[test]
fn fix_gives_recursion() {
    let body = if_then_else(
        op(OpCode::LessEq, var("n"), num(1)),
        num(1),
        op(
            OpCode::Mul,
            var("n"),
            app(var("self"), vec![op(OpCode::Sub, var("n"), num(1))]),
        ),
    );
    evaluates_to(
        120,
        let_in("fact", fix(lam(&["self", "n"], body)), app(var("fact"), vec![num(5)])),
    );
}

// let x = 1 in let f = fun y -> x + y in let x = 2 in f 10
#[test]
fn closures_capture_the_environment_of_their_creation() {
    evaluates_to(
        11,
        let_in(
            "x",
            num(1),
            let_in(
                "f",
                lam(&["y"], op(OpCode::Add, var("x"), var("y"))),
                let_in("x", num(2), app(var("f"), vec![num(10)])),
            ),
        ),
    );
}

// let add = fun x y -> x + y in let add1 = add 1 in add1 2
#[test]
fn partial_application_waits_for_the_missing_arguments() {
    evaluates_to(
        3,
        let_in(
            "add",
            lam(&["x", "y"], op(OpCode::Add, var("x"), var("y"))),
            let_in("add1", app(var("add"), vec![num(1)]), app(var("add1"), vec![num(2)])),
        ),
    );

    let stuck = let_in(
        "add",
        lam(&["x", "y"], op(OpCode::Add, var("x"), var("y"))),
        app(var("add"), vec![num(1)]),
    )
    .index()
    .unwrap();
    let value = run(&stuck).unwrap();
    assert!(matches!(*value, Value::PAP(_)));
}

// 1 + true
#[test]
fn arithmetic_on_a_boolean_is_a_type_error() {
    let expr = op(OpCode::Add, num(1), Expr::Bool(true)).index().unwrap();
    let message = run(&expr).unwrap_err();
    assert!(message.contains("expected i64"));
    assert_eq!(message, "expected i64, found Bool(true)");
}

#[test]
fn applying_a_number_is_an_error() {
    let expr = app(num(1), vec![num(2)]).index().unwrap();
    assert_eq!(run(&expr).unwrap_err(), "expected PAP, found Num(1)");
}

#[test]
fn condition_must_be_a_boolean() {
    let expr = if_then_else(num(1), num(2), num(3)).index().unwrap();
    assert_eq!(run(&expr).unwrap_err(), "expected bool, found Num(1)");
    evaluates_to(2, if_then_else(Expr::Bool(true), num(2), num(3)));
    evaluates_to(3, if_then_else(Expr::Bool(false), num(2), num(3)));
}

#[test]
fn arithmetic_operators() {
    evaluates_to(7, op(OpCode::Add, num(3), num(4)));
    evaluates_to(-1, op(OpCode::Sub, num(3), num(4)));
    evaluates_to(12, op(OpCode::Mul, num(3), num(4)));
    evaluates_to(3, op(OpCode::Div, num(7), num(2)));
    evaluates_to(-3, op(OpCode::Div, num(-7), num(2)));
    evaluates_to(-3, op(OpCode::Div, num(7), num(-2)));
    evaluates_to(3, op(OpCode::Div, num(-7), num(-2)));
}

#[test]
fn failing_arithmetic_is_an_error() {
    let expr = op(OpCode::Div, num(1), num(0)).index().unwrap();
    assert_eq!(run(&expr).unwrap_err(), "division by zero");
    let expr = op(OpCode::Add, num(i64::MAX), num(1)).index().unwrap();
    assert_eq!(run(&expr).unwrap_err(), "arithmetic overflow");
    let expr = op(OpCode::Sub, num(i64::MIN), num(1)).index().unwrap();
    assert_eq!(run(&expr).unwrap_err(), "arithmetic overflow");
    let expr = op(OpCode::Mul, num(i64::MAX), num(2)).index().unwrap();
    assert_eq!(run(&expr).unwrap_err(), "arithmetic overflow");
    let expr = op(OpCode::Div, num(i64::MIN), num(-1)).index().unwrap();
    assert_eq!(run(&expr).unwrap_err(), "arithmetic overflow");
}

#[test]
fn comparison_operators() {
    let cases = vec![
        (OpCode::Less, 1, 2, true),
        (OpCode::Less, 2, 2, false),
        (OpCode::LessEq, 2, 2, true),
        (OpCode::LessEq, 3, 2, false),
        (OpCode::Greater, 3, 2, true),
        (OpCode::Greater, 2, 2, false),
        (OpCode::GreaterEq, 2, 2, true),
        (OpCode::GreaterEq, 1, 2, false),
        (OpCode::Equals, 2, 2, true),
        (OpCode::Equals, 1, 2, false),
        (OpCode::NotEq, 1, 2, true),
        (OpCode::NotEq, 2, 2, false),
    ];
    for (code, x, y, expected) in cases {
        let expr = op(code, num(x), num(y)).index().unwrap();
        assert_eq!(run(&expr).unwrap().as_bool(), Ok(expected));
    }
}

#[test]
fn ordering_needs_numbers_but_equality_does_not() {
    let expr = op(OpCode::Less, Expr::Bool(true), num(1)).index().unwrap();
    assert_eq!(run(&expr).unwrap_err(), "expected i64, found Bool(true)");
    let expr = op(OpCode::Equals, Expr::Bool(true), num(1)).index().unwrap();
    assert_eq!(run(&expr).unwrap().as_bool(), Ok(false));
    let expr = op(OpCode::Equals, Expr::Bool(true), Expr::Bool(true)).index().unwrap();
    assert_eq!(run(&expr).unwrap().as_bool(), Ok(true));
}

#[test]
fn functions_are_never_equal() {
    let expr = let_in(
        "f",
        lam(&["x"], var("x")),
        op(OpCode::Equals, var("f"), var("f")),
    )
    .index()
    .unwrap();
    assert_eq!(run(&expr).unwrap().as_bool(), Ok(false));
}

#[test]
fn a_field_bound_twice_keeps_its_last_value() {
    evaluates_to(2, proj(record(vec![("x", num(1)), ("x", num(2))]), "x"));
    let expr = op(
        OpCode::Equals,
        record(vec![("x", num(1)), ("x", num(2))]),
        record(vec![("x", num(2))]),
    )
    .index()
    .unwrap();
    assert_eq!(run(&expr).unwrap().as_bool(), Ok(true));
}

#[test]
fn the_empty_record_is_a_value() {
    let expr = record(vec![]).index().unwrap();
    let value = run(&expr).unwrap();
    assert!(value.as_record().unwrap().is_empty());
}

#[test]
fn accessors_report_what_they_found() {
    assert_eq!(Value::Num(5).as_i64(), Ok(5));
    assert_eq!(Value::Bool(true).as_bool(), Ok(true));
    assert_eq!(Value::Bool(true).as_i64(), Err("expected i64, found Bool(true)".to_string()));
    assert_eq!(Value::Num(5).as_bool(), Err("expected bool, found Num(5)".to_string()));
    assert_eq!(
        Value::Num(5).as_record().unwrap_err(),
        "expected record, found Num(5)".to_string()
    );
    let fixed = Value::Fix(Rc::new(Value::Num(1)));
    assert_eq!(fixed.as_i64(), Err("expected i64, found Fix(Num(1))".to_string()));
}

#[test]
fn primitive_evaluators() {
    let sum = eval_arith(OpCode::Add, values(vec![Value::Num(2), Value::Num(3)])).unwrap();
    assert_eq!(sum.as_i64(), Ok(5));
    let less = eval_comp(OpCode::Less, values(vec![Value::Num(2), Value::Num(3)])).unwrap();
    assert_eq!(less.as_bool(), Ok(true));
    assert!(eval_equals(values(vec![Value::Num(2), Value::Num(2)])));
    assert!(!eval_equals(values(vec![Value::Num(2), Value::Bool(true)])));
    let error = eval_arith(OpCode::Add, values(vec![Value::Bool(false), Value::Bool(true)]));
    assert_eq!(error.unwrap_err(), "expected i64, found Bool(false)");
    let fixed = OpCode::Fix.eval(values(vec![Value::Num(1)])).unwrap();
    assert!(matches!(fixed, Value::Fix(_)));
    assert_eq!(OpCode::Add.arity(), 2);
    assert_eq!(OpCode::Fix.arity(), 1);
}

#[test]
fn unbound_variables_are_reported_by_the_indexer() {
    assert_eq!(var("x").index().unwrap_err(), "unbound variable: x");
    let expr = let_in("x", num(1), app(var("x"), vec![var("y"), var("z")]));
    assert_eq!(expr.index().unwrap_err(), "unbound variable: y");
}

#[test]
fn indexing_gives_de_bruijn_distances() {
    let expr = lam(&["x", "y"], app(var("x"), vec![var("y")])).index().unwrap();
    match expr {
        Expr::Lam(_, body) => match *body {
            Expr::App(fun, args) => {
                assert!(matches!(*fun, Expr::Var(_, Some(2))));
                assert!(matches!(args[0], Expr::Var(_, Some(1))));
            }
            _ => panic!("expected an application"),
        },
        _ => panic!("expected a lambda"),
    }
}

#[test]
fn children_are_reached_by_position() {
    let mut expr = if_then_else(num(1), num(2), num(3));
    assert_eq!(expr.children_len(), 3);
    *expr.children_mut(1).unwrap() = num(7);
    assert!(matches!(expr.children_mut(1), Some(Expr::Num(7))));
    assert!(matches!(expr.children_mut(0), Some(Expr::Num(1))));
    assert!(expr.children_mut(3).is_none());
    let mut call = app(var("f"), vec![num(1), num(2)]);
    assert_eq!(call.children_len(), 3);
    assert!(matches!(call.children_mut(2), Some(Expr::Num(2))));
    assert!(num(1).children_mut(0).is_none());
}

// f (): a call without arguments gives the function itself.
#[test]
fn a_call_without_arguments_is_the_function() {
    let expr = let_in("f", lam(&["x"], var("x")), app(app(var("f"), vec![]), vec![num(7)]))
        .index()
        .unwrap();
    assert_eq!(run(&expr).unwrap().as_i64(), Ok(7));
}

#[test]
fn only_closed_expressions_are_run() {
    assert!(num(1).is_closed(0));
    assert!(!var("x").is_closed(0));
    assert!(!var("x").is_closed(3));
    assert!(Expr::Var("x".to_string(), Some(1)).is_closed(1));
    assert!(!Expr::Var("x".to_string(), Some(0)).is_closed(1));
    assert!(!Expr::Var("x".to_string(), Some(2)).is_closed(1));
    assert!(!lam(&[], num(1)).is_closed(0));
    assert!(lam(&["x"], Expr::Var("x".to_string(), Some(1))).is_closed(0));
    assert!(!lam(&["x"], Expr::Var("y".to_string(), Some(2))).is_closed(0));
    assert!(let_in("x", num(1), Expr::Var("x".to_string(), Some(1))).is_closed(0));
    assert!(!let_in("x", Expr::Var("x".to_string(), Some(1)), num(1)).is_closed(0));
    assert!(!Expr::Record(vec!["x".to_string()], vec![]).is_closed(0));
    assert!(!lam(&["x"], num(1)).is_closed(usize::MAX));

    assert!(var("x").is_unindexed());
    assert!(!Expr::Var("x".to_string(), Some(1)).is_unindexed());
    assert!(!app(num(1), vec![Expr::Var("x".to_string(), Some(1))]).is_unindexed());
    assert!(lam(&["x"], var("x")).index().unwrap().is_closed(0));
}

#[test]
fn a_cursor_walks_over_the_children() {
    use_cursor();
}

fn use_cursor() {
    let mut expr = if_then_else(num(1), num(2), num(3));
    let mut cursor = rufus::syntax::iter::ChildrenMut::new();
    let mut seen = 0;
    while let Some(child) = cursor.next(&mut expr) {
        *child = num(0);
        seen += 1;
    }
    assert_eq!(seen, 3);
    assert!(matches!(expr.children_mut(2), Some(Expr::Num(0))));
}

#[test]
fn programs_are_read_as_written() {
    integration_test(120, "let fact = fix (fun self n -> if n <= 1 then 1 else n * self (n - 1)) in fact 5");
    integration_test(11, "let x = 1 in let f = fun y -> x + y in let x = 2 in f 10");
    integration_test(3, "let add = fun x y -> x + y in let add1 = add 1 in add1 2");
    integration_test(7, "1 + 2 * 3");
    integration_test(9, "(1 + 2) * 3");
    integration_test(2, "{ x = 1; y = { z = 2 } }.y.z");
    let expr = parse("{x = 1; y = 2} == {y = 2; x = 1}").index().unwrap();
    assert_eq!(run(&expr).unwrap().as_bool(), Ok(true));
    let expr = parse("{x = 1} == {x = 1; y = 2}").index().unwrap();
    assert_eq!(run(&expr).unwrap().as_bool(), Ok(false));
    let expr = parse("{x = 1}.y").index().unwrap();
    assert!(run(&expr).unwrap_err().contains("y"));
    let expr = parse("1 + true").index().unwrap();
    assert!(run(&expr).unwrap_err().contains("expected i64"));
}
