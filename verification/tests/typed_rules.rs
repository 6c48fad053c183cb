use rufus::typed::syntax::{
    Branch, Decl, Expr, FuncDecl, Ident, LExpr, LType, Located, Module, OpCode, Span, Type,
    TypeDecl,
};
use rufus::typed::util::PositionTranslator;

// A reader for the notation in which the modules below are written.

#[derive(Clone, Debug, PartialEq)]
enum Kind {
    Ident,
    Number,
    Symbol,
    End,
}

#[derive(Clone, Debug)]
struct Token {
    kind: Kind,
    text: String,
    start: usize,
    end: usize,
}

fn tokens(input: &str) -> Vec<Token> {
    let bytes = input.as_bytes();
    let mut tokens = Vec::new();
    let mut pos = 0;
    while pos < bytes.len() {
        let c = bytes[pos] as char;
        if c.is_whitespace() {
            pos += 1;
            continue;
        }
        let start = pos;
        let kind;
        if c.is_ascii_alphabetic() || c == '_' {
            while pos < bytes.len()
                && ((bytes[pos] as char).is_ascii_alphanumeric() || bytes[pos] == b'_')
            {
                pos += 1;
            }
            kind = Kind::Ident;
        } else if c.is_ascii_digit() {
            while pos < bytes.len() && (bytes[pos] as char).is_ascii_digit() {
                pos += 1;
            }
            kind = Kind::Number;
        } else {
            let two = if pos + 1 < bytes.len() { &input[pos..pos + 2] } else { "" };
            if matches!(two, "->" | "@<" | "==" | "!=" | "<=" | ">=") {
                pos += 2;
            } else {
                pos += 1;
            }
            kind = Kind::Symbol;
        }
        tokens.push(Token { kind, text: input[start..pos].to_string(), start, end: pos });
    }
    tokens.push(Token { kind: Kind::End, text: String::new(), start: pos, end: pos });
    tokens
}

struct Reader {
    tokens: Vec<Token>,
    next: usize,
}

fn spanned<T>(locatee: T, start: usize, end: usize) -> Located<T> {
    Located::new(locatee, Span { start, end })
}

impl Reader {
    fn peek(&self) -> &Token {
        &self.tokens[self.next]
    }

    fn at(&self, text: &str) -> bool {
        self.peek().kind != Kind::End && self.peek().text == text
    }

    fn advance(&mut self) -> Token {
        let token = self.tokens[self.next].clone();
        self.next += 1;
        token
    }

    fn expect(&mut self, text: &str) -> Token {
        if !self.at(text) {
            panic!("expected `{}` but found `{}`", text, self.peek().text);
        }
        self.advance()
    }

    fn name(&mut self) -> Located<Ident> {
        let token = self.advance();
        assert!(token.kind == Kind::Ident, "expected a name but found `{}`", token.text);
        spanned(Ident::new(&token.text), token.start, token.end)
    }

    fn module(&mut self) -> Module {
        let mut decls = Vec::new();
        while self.peek().kind != Kind::End {
            decls.push(self.decl());
        }
        Module { decls }
    }

    fn type_params(&mut self) -> Vec<Located<Ident>> {
        let mut params = Vec::new();
        if self.at("<") {
            self.advance();
            while !self.at(">") {
                params.push(self.name());
                if self.at(",") {
                    self.advance();
                }
            }
            self.expect(">");
        }
        params
    }

    fn decl(&mut self) -> Decl {
        if self.at("type") {
            self.advance();
            let name = self.name();
            let params = self.type_params();
            self.expect("=");
            let body = self.typ();
            Decl::Type(TypeDecl { name, params, body })
        } else {
            self.expect("fn");
            let name = self.name();
            let type_params = self.type_params();
            self.expect("(");
            let mut expr_params = Vec::new();
            while !self.at(")") {
                let param = self.name();
                self.expect(":");
                expr_params.push((param, self.typ()));
                if self.at(",") {
                    self.advance();
                }
            }
            self.expect(")");
            self.expect("->");
            let return_type = self.typ();
            let body = self.block();
            Decl::Func(FuncDecl { name, type_params, expr_params, return_type, body })
        }
    }

    fn typ(&mut self) -> LType {
        let start = self.peek().start;
        if self.at("(") {
            self.advance();
            let mut params = Vec::new();
            while !self.at(")") {
                params.push(self.typ());
                if self.at(",") {
                    self.advance();
                }
            }
            self.expect(")");
            self.expect("->");
            let result = self.typ();
            let end = result.span.end;
            spanned(Type::Fun(params, Box::new(result)), start, end)
        } else if self.at("{") {
            self.advance();
            let mut fields = Vec::new();
            while !self.at("}") {
                let field = self.name();
                self.expect(":");
                fields.push((field, self.typ()));
                if self.at(",") {
                    self.advance();
                }
            }
            let end = self.expect("}").end;
            spanned(Type::Record(fields), start, end)
        } else if self.at("[") {
            self.advance();
            let mut constrs = Vec::new();
            while !self.at("]") {
                let constr = self.name();
                let payload = if self.at("(") {
                    self.advance();
                    let payload = self.typ();
                    self.expect(")");
                    Some(payload)
                } else {
                    None
                };
                constrs.push((constr, payload));
                if self.at("|") {
                    self.advance();
                }
            }
            let end = self.expect("]").end;
            spanned(Type::Variant(constrs), start, end)
        } else {
            let name = self.name();
            if self.at("<") {
                self.advance();
                let mut args = Vec::new();
                while !self.at(">") {
                    args.push(self.typ());
                    if self.at(",") {
                        self.advance();
                    }
                }
                let end = self.expect(">").end;
                spanned(Type::SynApp(name, args), start, end)
            } else {
                let end = name.span.end;
                spanned(Type::Var(name.locatee), start, end)
            }
        }
    }

    fn block(&mut self) -> LExpr {
        self.expect("{");
        let body = self.block_body();
        self.expect("}");
        body
    }

    fn block_body(&mut self) -> LExpr {
        if self.at("let") {
            let start = self.advance().start;
            let binder = self.name();
            let annotation = if self.at(":") {
                self.advance();
                Some(self.typ())
            } else {
                None
            };
            self.expect("=");
            let bindee = self.expr();
            self.expect(";");
            let body = self.block_body();
            let end = body.span.end;
            spanned(Expr::Let(binder, annotation, Box::new(bindee), Box::new(body)), start, end)
        } else {
            self.expr()
        }
    }

    fn expr(&mut self) -> LExpr {
        let lhs = self.sum();
        let op = match self.peek().text.as_str() {
            "==" => OpCode::Equals,
            "!=" => OpCode::NotEq,
            "<" => OpCode::Less,
            "<=" => OpCode::LessEq,
            ">" => OpCode::Greater,
            ">=" => OpCode::GreaterEq,
            _ => return lhs,
        };
        self.advance();
        let rhs = self.sum();
        let (start, end) = (lhs.span.start, rhs.span.end);
        spanned(Expr::BinOp(Box::new(lhs), op, Box::new(rhs)), start, end)
    }

    fn sum(&mut self) -> LExpr {
        let mut lhs = self.product();
        loop {
            let op = match self.peek().text.as_str() {
                "+" => OpCode::Add,
                "-" => OpCode::Sub,
                _ => return lhs,
            };
            self.advance();
            let rhs = self.product();
            let (start, end) = (lhs.span.start, rhs.span.end);
            lhs = spanned(Expr::BinOp(Box::new(lhs), op, Box::new(rhs)), start, end);
        }
    }

    fn product(&mut self) -> LExpr {
        let mut lhs = self.postfix();
        loop {
            let op = match self.peek().text.as_str() {
                "*" => OpCode::Mul,
                "/" => OpCode::Div,
                _ => return lhs,
            };
            self.advance();
            let rhs = self.postfix();
            let (start, end) = (lhs.span.start, rhs.span.end);
            lhs = spanned(Expr::BinOp(Box::new(lhs), op, Box::new(rhs)), start, end);
        }
    }

    fn postfix(&mut self) -> LExpr {
        let mut expr = self.atom();
        loop {
            if self.at("(") {
                self.advance();
                let mut args = Vec::new();
                while !self.at(")") {
                    args.push(self.expr());
                    if self.at(",") {
                        self.advance();
                    }
                }
                let end = self.expect(")").end;
                let start = expr.span.start;
                expr = spanned(Expr::App(Box::new(expr), args), start, end);
            } else if self.at(".") {
                self.advance();
                let field = self.name();
                let (start, end) = (expr.span.start, field.span.end);
                expr = spanned(Expr::Proj(Box::new(expr), field), start, end);
            } else {
                return expr;
            }
        }
    }

    fn atom(&mut self) -> LExpr {
        let start = self.peek().start;
        if self.at("{") {
            return self.block();
        }
        if self.at("(") {
            self.advance();
            let inner = self.expr();
            self.expect(")");
            return inner;
        }
        if self.at("if") {
            self.advance();
            let cond = self.expr();
            let then = self.block();
            self.expect("else");
            self.expect("{");
            let elze = self.block_body();
            let end = self.expect("}").end;
            return spanned(Expr::If(Box::new(cond), Box::new(then), Box::new(elze)), start, end);
        }
        if self.at("fn") {
            self.advance();
            self.expect("(");
            let mut params = Vec::new();
            while !self.at(")") {
                let param = self.name();
                let annotation = if self.at(":") {
                    self.advance();
                    Some(self.typ())
                } else {
                    None
                };
                params.push((param, annotation));
                if self.at(",") {
                    self.advance();
                }
            }
            self.expect(")");
            self.expect("{");
            let body = self.block_body();
            let end = self.expect("}").end;
            return spanned(Expr::Lam(params, Box::new(body)), start, end);
        }
        let token = self.advance();
        match token.kind {
            Kind::Number => spanned(Expr::Num(token.text.parse().unwrap()), start, token.end),
            Kind::Ident if token.text == "true" => spanned(Expr::Bool(true), start, token.end),
            Kind::Ident if token.text == "false" => spanned(Expr::Bool(false), start, token.end),
            Kind::Ident if token.text.starts_with(|c: char| c.is_ascii_uppercase()) => {
                let constr = spanned(Ident::new(&token.text), start, token.end);
                if self.at("(") {
                    self.advance();
                    let payload = self.expr();
                    let end = self.expect(")").end;
                    spanned(Expr::Variant(constr, Some(Box::new(payload))), start, end)
                } else {
                    spanned(Expr::Variant(constr, None), start, token.end)
                }
            }
            Kind::Ident => {
                if self.at("@<") {
                    self.advance();
                    let mut types = Vec::new();
                    while !self.at(">") {
                        types.push(self.typ());
                        if self.at(",") {
                            self.advance();
                        }
                    }
                    let end = self.expect(">").end;
                    let func = spanned(Ident::new(&token.text), start, token.end);
                    spanned(Expr::FunInst(func, types), start, end)
                } else {
                    spanned(Expr::Var(Ident::new(&token.text)), start, token.end)
                }
            }
            _ => panic!("unexpected `{}`", token.text),
        }
    }
}

fn parse(input: &str) -> Module {
    let mut reader = Reader { tokens: tokens(input), next: 0 };
    reader.module()
}

fn check_success(input: &str) {
    let module = parse(input);
    if let Err(error) = module.check() {
        panic!(
            "Expected module to type check but got error\n{:?}: {}",
            error.span,
            error.locatee.message()
        );
    }
}

fn check_error(input: &str) -> String {
    let module = parse(input);
    let error = module.check().unwrap_err();
    let translator = PositionTranslator::new(input);
    let span = translator.span(error.span);
    let message = error.locatee.message();
    if span.start.line == span.end.line {
        let line = input.lines().nth(span.start.line).unwrap();
        format!(
            "{:3} | {}\n{}{}\n{}",
            span.start.line,
            line,
            " ".repeat(span.start.column + 6),
            "~".repeat(span.end.column - span.start.column),
            message
        )
    } else {
        format!("{}-{}: {}", span.start.to_text(), span.end.to_text(), message)
    }
}

fn check_err(input: &str) -> String {
    check_error(input)
}

fn lines(lines: &[&str]) -> String {
    lines.join("\n")
}

#[test]
fn unknown_type_var_in_let() {
    assert_eq!(
        check_error(
            r#"
    fn f() -> Int {
        let x: A = 0;
        x
    }
    "#,
        ),
        lines(&[
            "  2 |         let x: A = 0;",
            "                     ~",
            "Undeclared type variable `A`.",
        ])
    );
}

#[test]
fn unknown_type_var_in_inferrable_lambda() {
    assert_eq!(
        check_error(
            r#"
    fn f() -> Int {
        fn (x: A) { 0 }
    }
    "#,
        ),
        lines(&[
            "  2 |         fn (x: A) { 0 }",
            "                     ~",
            "Undeclared type variable `A`.",
        ])
    );
}

#[test]
fn unknown_type_var_in_checkable_lambda() {
    assert_eq!(
        check_error(
            r#"
    fn f() -> Int {
        fn (x: A, y) { 0 }
    }
    "#,
        ),
        lines(&[
            "  2 |         fn (x: A, y) { 0 }",
            "                     ~",
            "Undeclared type variable `A`.",
        ])
    );
}

#[test]
fn unknown_type_var_in_func_inst() {
    assert_eq!(
        check_error(
            r#"
    fn g<A>(x: A) -> A { x }
    fn f() -> Int {
        g@<A>()
    }
    "#,
        ),
        lines(&[
            "  3 |         g@<A>()",
            "                 ~",
            "Undeclared type variable `A`.",
        ])
    );
}

#[test]
fn rule_check_infer_good() {
    check_success(
        r#"
    fn f() -> Int { 0 }
    "#,
    );
}

#[test]
fn rule_check_infer_mismatch() {
    assert_eq!(
        check_error(
            r#"
    fn f() -> Bool { 0 }
    "#,
        ),
        lines(&[
            "  1 |     fn f() -> Bool { 0 }",
            "                           ~",
            "Expected an expression of type `Bool` but found an expression of type `Int`.",
        ])
    );
}

#[test]
fn rule_var() {
    check_success(
        r#"
    fn f(x: Int) -> Int {
        let y = x;
        y
    }
    "#,
    );
}

#[test]
fn rule_lit_int_0() {
    check_success(
        r#"
    fn f() -> Int {
        let x = 0;
        x
    }
    "#,
    );
}

#[test]
fn rule_lit_int_1() {
    check_success(
        r#"
    fn f() -> Int {
        let x = 1;
        x
    }
    "#,
    );
}

#[test]
fn rule_lit_bool_true() {
    check_success(
        r#"
    fn f() -> Bool {
        let x = true;
        x
    }
    "#,
    );
}

#[test]
fn rule_lit_bool_false() {
    check_success(
        r#"
    fn f() -> Bool {
        let x = false;
        x
    }
    "#,
    );
}

#[test]
fn rule_lam_infer_0() {
    check_success(
        r#"
    fn f() -> () -> Int {
        let f = fn () { 1 };
        f
    }
    "#,
    );
}

#[test]
fn rule_lam_infer_1() {
    check_success(
        r#"
    fn f() -> (Int) -> Int {
        let f = fn (x: Int) { x };
        f
    }
    "#,
    );
}

#[test]
fn rule_lam_infer_duplicate_param() {
    assert_eq!(
        check_error(
            r#"
    fn f() -> (Int) -> Bool {
        let f = fn (x: Int, x: Int) { x };
        f
    }
    "#,
        ),
        lines(&[
            "  2 |         let f = fn (x: Int, x: Int) { x };",
            "                                  ~",
            "Duplicate paramter `x`.",
        ])
    );
}

#[test]
fn rule_lam_infer_not_inferrable() {
    assert_eq!(
        check_error(
            r#"
    fn f() -> (Int) -> Bool {
        let f = fn (x) {
            let y: Int = x;
            y
        };
        f
    }
    "#,
        ),
        lines(&[
            "  2 |         let f = fn (x) {",
            "                          ~",
            "Cannot infer the type of parameter `x`. A type annoation is needed.",
        ])
    );
}

#[test]
fn rule_lam_check_0() {
    check_success(
        r#"
    fn f() -> () -> Int {
        fn () { 1 }
    }
    "#,
    );
}

#[test]
fn rule_lam_check_1() {
    check_success(
        r#"
    fn f() -> (Int) -> Int {
        fn (x) { x }
    }
    "#,
    );
}

#[test]
fn rule_lam_check_no_func() {
    assert_eq!(
        check_error(
            r#"
    fn f() -> Int {
        fn (x) { 0 }
    }
    "#,
        ),
        lines(&[
            "  2 |         fn (x) { 0 }",
            "              ~~~~~~~~~~~~",
            "Expected an expression of type `Int` but found a lambda with 1 parameter.",
        ])
    );
}

#[test]
fn rule_lam_check_duplicate_param_annotated() {
    assert_eq!(
        check_error(
            r#"
    fn f() -> (Int, Int) -> Int {
        fn (x: Int, x: Int) { 0 }
    }
    "#,
        ),
        lines(&[
            "  2 |         fn (x: Int, x: Int) { 0 }",
            "                          ~",
            "Duplicate paramter `x`.",
        ])
    );
}

#[test]
fn rule_lam_check_duplicate_param_not_annotated() {
    assert_eq!(
        check_error(
            r#"
    fn f() -> (Int, Int) -> Int {
        fn (x, x) { 0 }
    }
    "#,
        ),
        lines(&[
            "  2 |         fn (x, x) { 0 }",
            "                     ~",
            "Duplicate paramter `x`.",
        ])
    );
}

#[test]
fn rule_lam_check_too_many_params() {
    assert_eq!(
        check_error(
            r#"
    fn f() -> () -> Int {
        fn (x) { 0 }
    }
    "#,
        ),
        lines(&[
            "  2 |         fn (x) { 0 }",
            "              ~~~~~~~~~~~~",
            "Expected an expression of type `() -> Int` but found a lambda with 1 parameter.",
        ])
    );
}

#[test]
fn rule_lam_check_too_few_params() {
    assert_eq!(
        check_error(
            r#"
    fn f() -> (Int) -> Int {
        fn () { 0 }
    }
    "#,
        ),
        lines(&[
            "  2 |         fn () { 0 }",
            "              ~~~~~~~~~~~",
            "Expected an expression of type `(Int) -> Int` but found a lambda with 0 parameters.",
        ])
    );
}

#[test]
fn rule_lam_check_mismatch_param_1() {
    assert_eq!(
        check_error(
            r#"
    fn f() -> (Int) -> Int {
        fn (x: Bool) { 0 }
    }
    "#,
        ),
        lines(&[
            "  2 |         fn (x: Bool) { 0 }",
            "                     ~~~~",
            "Expected parameter `x` to have type `Int` but found a type annotation `Bool`.",
        ])
    );
}

#[test]
fn rule_lam_check_mismatch_param_2() {
    assert_eq!(
        check_error(
            r#"
    fn f() -> (Int, Int) -> Int {
        fn (x, y: Bool) { 0 }
    }
    "#,
        ),
        lines(&[
            "  2 |         fn (x, y: Bool) { 0 }",
            "                        ~~~~",
            "Expected parameter `y` to have type `Int` but found a type annotation `Bool`.",
        ])
    );
}

#[test]
fn rule_lam_check_mismatch_result() {
    assert_eq!(
        check_error(
            r#"
    fn f() -> (Int, Int) -> Bool {
        fn (x, y: Int) { CheckMe }
    }
    "#,
        ),
        lines(&[
            "  2 |         fn (x, y: Int) { CheckMe }",
            "                               ~~~~~~~",
            "Expected an expression of type `Bool` but found variant constructor `CheckMe`.",
        ])
    );
}

#[test]
fn rule_func_inst_1() {
    check_success(
        r#"
    fn g<A>(x: A) -> A { x }
    fn f() -> Int {
        let x = g@<Int>(0);
        x
    }
    "#,
    );
}

#[test]
fn rule_func_inst_on_var() {
    assert_eq!(
        check_error(
            r#"
    fn f() -> Int {
        let g = fn () { 0 };
        g@<Int>()
    }
    "#,
        ),
        lines(&[
            "  3 |         g@<Int>()",
            "              ~~~~~~~",
            "`g` is not a generic function but is applied to 1 type argument.",
        ])
    );
}

#[test]
fn rule_func_inst_on_mono_func() {
    assert_eq!(
        check_error(
            r#"
    fn g() -> Int { 0 }
    fn f() -> Int {
        g@<Int>()
    }
    "#,
        ),
        lines(&[
            "  3 |         g@<Int>()",
            "              ~~~~~~~",
            "`g` is not a generic function but is applied to 1 type argument.",
        ])
    );
}

#[test]
fn rule_func_inst_no_types_on_poly_func() {
    assert_eq!(
        check_error(
            r#"
    fn g<A>(x: A) -> A { x }
    fn f() -> Int {
        g(1)
    }
    "#,
        ),
        lines(&[
            "  3 |         g(1)",
            "              ~",
            "Generic function `g` expects 1 type argument but is applied to 0 type arguments.",
        ])
    );
}

#[test]
fn rule_func_inst_too_many_types() {
    assert_eq!(
        check_error(
            r#"
    fn g<A>(x: A) -> A { x }
    fn f() -> Int {
        g@<Int, Bool>(1)
    }
    "#,
        ),
        lines(&[
            "  3 |         g@<Int, Bool>(1)",
            "              ~~~~~~~~~~~~~",
            "Generic function `g` expects 1 type argument but is applied to 2 type arguments.",
        ])
    );
}

#[test]
fn rule_func_inst_too_few_types() {
    assert_eq!(
        check_error(
            r#"
    fn g<A, B>(x: A, y: B) -> A { x }
    fn f() -> Int {
        g@<Int>(1)
    }
    "#,
        ),
        lines(&[
            "  3 |         g@<Int>(1)",
            "              ~~~~~~~",
            "Generic function `g` expects 2 type arguments but is applied to 1 type argument.",
        ])
    );
}

#[test]
fn rule_func_inst_mismatch_param() {
    assert_eq!(
        check_error(
            r#"
    fn g<A>(x: A) -> Int { 0 }
    fn f() -> Int {
        g@<Int>(true)
    }
    "#,
        ),
        lines(&[
            "  3 |         g@<Int>(true)",
            "                      ~~~~",
            "Expected an expression of type `Int` but found an expression of type `Bool`.",
        ])
    );
}

#[test]
fn rule_func_inst_mismatch_result() {
    assert_eq!(
        check_error(
            r#"
    fn g<A>(x: A) -> A { x }
    fn f() -> Int {
        g@<Bool>(CheckMe)
    }
    "#,
        ),
        lines(&[
            "  3 |         g@<Bool>(CheckMe)",
            "                       ~~~~~~~",
            "Expected an expression of type `Bool` but found variant constructor `CheckMe`.",
        ])
    );
}

#[test]
fn rule_app_func_0() {
    check_success(
        r#"
    fn f() -> Int { 0 }
    fn g() -> Int {
        let x = f();
        x
    }
    "#,
    );
}

#[test]
fn rule_app_func_1() {
    check_success(
        r#"
    fn f(x: Int) -> Int { x }
    fn g() -> Int {
        let x = f(1);
        x
    }
    "#,
    );
}

#[test]
fn rule_app_func_2() {
    check_success(
        r#"
    fn f(x: Int, y: Int) -> Int { x + y }
    fn g() -> Int {
        let x = f(1, 2);
        x
    }
    "#,
    );
}

#[test]
fn rule_app_func_poly() {
    check_success(
        r#"
    fn f<A>(x: A) -> A { x }
    fn g() -> Int {
        let x = f@<Int>(1);
        x
    }
    "#,
    );
}

#[test]
fn rule_app_var() {
    check_success(
        r#"
    fn g() -> Int {
        let f = fn (x: Int) { x };
        let x = f(1);
        x
    }
    "#,
    );
}

#[test]
fn rule_app_var_no_func() {
    assert_eq!(
        check_error(
            r#"
    fn f(x: Int) -> Int {
        x()
    }
    "#,
        ),
        lines(&[
            "  2 |         x()",
            "              ~~~",
            "`x` cannot be applied to 0 arguments because it has has type `Int`.",
        ])
    );
}

#[test]
fn rule_app_var_too_many_args() {
    assert_eq!(
        check_error(
            r#"
    fn f() -> Int {
        let g = fn () { 0 };
        g(1)
    }
    "#,
        ),
        lines(&[
            "  3 |         g(1)",
            "              ~~~~",
            "`g` cannot be applied to 1 argument because it has has type `() -> Int`.",
        ])
    );
}

#[test]
fn rule_app_var_too_few_args() {
    assert_eq!(
        check_error(
            r#"
    fn f() -> Int {
        let g = fn (x: Int) { x };
        g()
    }
    "#,
        ),
        lines(&[
            "  3 |         g()",
            "              ~~~",
            "`g` cannot be applied to 0 arguments because it has has type `(Int) -> Int`.",
        ])
    );
}

#[test]
fn rule_app_func_too_many_args() {
    assert_eq!(
        check_error(
            r#"
    fn g() -> Int { 0 }
    fn f() -> Int {
        g(1)
    }
    "#,
        ),
        lines(&[
            "  3 |         g(1)",
            "              ~~~~",
            "`g` cannot be applied to 1 argument because it has has type `() -> Int`.",
        ])
    );
}

#[test]
fn rule_app_func_too_few_args() {
    assert_eq!(
        check_error(
            r#"
    fn g(x: Int) -> Int { x }
    fn f() -> Int {
        g()
    }
    "#,
        ),
        lines(&[
            "  3 |         g()",
            "              ~~~",
            "`g` cannot be applied to 0 arguments because it has has type `(Int) -> Int`.",
        ])
    );
}

#[test]
fn rule_app_func_mismatch_arg1() {
    assert_eq!(
        check_error(
            r#"
    fn g(x: Int) -> Int { x }
    fn f() -> Int {
        g(CheckMe)
    }
    "#,
        ),
        lines(&[
            "  3 |         g(CheckMe)",
            "                ~~~~~~~",
            "Expected an expression of type `Int` but found variant constructor `CheckMe`.",
        ])
    );
}

#[test]
fn rule_app_var_mismatch_arg2() {
    assert_eq!(
        check_error(
            r#"
    fn f() -> Int {
        let g = fn (x: Int, y: Bool) { x };
        g(1, CheckMe)
    }
    "#,
        ),
        lines(&[
            "  3 |         g(1, CheckMe)",
            "                   ~~~~~~~",
            "Expected an expression of type `Bool` but found variant constructor `CheckMe`.",
        ])
    );
}

#[test]
fn rule_binop_arith() {
    check_success(
        r#"
    fn f() -> Int {
        let x = 1 + 1;
        x
    }
    "#,
    );
}

#[test]
fn rule_binop_arith_mismatch_lhs() {
    assert_eq!(
        check_error(
            r#"
    fn f() -> Int {
        CheckMe - 0
    }
    "#,
        ),
        lines(&[
            "  2 |         CheckMe - 0",
            "              ~~~~~~~",
            "Expected an expression of type `Int` but found variant constructor `CheckMe`.",
        ])
    );
}

#[test]
fn rule_binop_arith_mismatch_rhs() {
    assert_eq!(
        check_error(
            r#"
    fn f() -> Int {
        0 * CheckMe
    }
    "#,
        ),
        lines(&[
            "  2 |         0 * CheckMe",
            "                  ~~~~~~~",
            "Expected an expression of type `Int` but found variant constructor `CheckMe`.",
        ])
    );
}

#[test]
fn rule_binop_cmp() {
    check_success(
        r#"
    fn f() -> Bool {
        let x = 1 == 1;
        x
    }
    "#,
    );
}

#[test]
fn rule_binop_cmp_lhs_not_inferrable() {
    assert_eq!(
        check_error(
            r#"
    fn f() -> Bool {
        InferMe < CheckMe
    }
    "#,
        ),
        lines(&[
            "  2 |         InferMe < CheckMe",
            "              ~~~~~~~",
            "Cannot infer the type of the expression. Further type annotations are required.",
        ])
    );
}

#[test]
fn rule_binop_cmp_mismatch() {
    assert_eq!(
        check_error(
            r#"
    fn f() -> Bool {
        0 >= CheckMe
    }
    "#,
        ),
        lines(&[
            "  2 |         0 >= CheckMe",
            "                   ~~~~~~~",
            "Expected an expression of type `Int` but found variant constructor `CheckMe`.",
        ])
    );
}

#[test]
fn rule_let_infer_infer() {
    check_success(
        r#"
    fn f() -> Int {
        let x = {
            let y = 1;
            y
        };
        x
    }
    "#,
    );
}

#[test]
fn rule_let_infer_infer_bindee_not_inferrable() {
    assert_eq!(
        check_error(
            r#"
    fn f() -> Int {
        let x = {
            let y = InferMe;
            0
        };
        0
    }
    "#,
        ),
        lines(&[
            "  3 |             let y = InferMe;",
            "                          ~~~~~~~",
            "Cannot infer the type of the expression. Further type annotations are required.",
        ])
    );
}

#[test]
fn rule_let_infer_infer_body_not_inferrable() {
    assert_eq!(
        check_error(
            r#"
    fn f() -> Int {
        let x = {
            let y = 0;
            InferMe
        };
        0
    }
    "#,
        ),
        lines(&[
            "  4 |             InferMe",
            "                  ~~~~~~~",
            "Cannot infer the type of the expression. Further type annotations are required.",
        ])
    );
}

#[test]
fn rule_let_check_infer() {
    check_success(
        r#"
    fn f() -> Int {
        let x = {
            let y: [CheckMe] = CheckMe;
            0
        };
        x
    }
    "#,
    );
}

#[test]
fn rule_let_check_infer_mismatch_bindee() {
    assert_eq!(
        check_error(
            r#"
    fn f() -> Int {
        let x = {
            let y: Int = CheckMe;
            0
        };
        0
    }
    "#,
        ),
        lines(&[
            "  3 |             let y: Int = CheckMe;",
            "                               ~~~~~~~",
            "Expected an expression of type `Int` but found variant constructor `CheckMe`.",
        ])
    );
}

#[test]
fn rule_let_check_infer_body_not_inferrable() {
    assert_eq!(
        check_error(
            r#"
    fn f() -> Int {
        let x = {
            let y: Int = 0;
            InferMe
        };
        0
    }
    "#,
        ),
        lines(&[
            "  4 |             InferMe",
            "                  ~~~~~~~",
            "Cannot infer the type of the expression. Further type annotations are required.",
        ])
    );
}

#[test]
fn rule_let_infer_check() {
    check_success(
        r#"
    fn f() -> [CheckMe] {
        let x = 0;
        CheckMe
    }
    "#,
    );
}

#[test]
fn rule_let_infer_check_bindee_not_inferrable() {
    assert_eq!(
        check_error(
            r#"
    fn f() -> Int {
        let x = InferMe;
        0
    }
    "#,
        ),
        lines(&[
            "  2 |         let x = InferMe;",
            "                      ~~~~~~~",
            "Cannot infer the type of the expression. Further type annotations are required.",
        ])
    );
}

#[test]
fn rule_let_infer_check_mismatch_body() {
    assert_eq!(
        check_error(
            r#"
    fn f() -> Int {
        let x = 0;
        CheckMe
    }
    "#,
        ),
        lines(&[
            "  3 |         CheckMe",
            "              ~~~~~~~",
            "Expected an expression of type `Int` but found variant constructor `CheckMe`.",
        ])
    );
}

#[test]
fn rule_let_check_check() {
    check_success(
        r#"
    fn f() -> [CheckMe1] {
        let x: [CheckMe2] = CheckMe2;
        CheckMe1
    }
    "#,
    );
}

#[test]
fn rule_let_check_check_mismatch_bindee() {
    assert_eq!(
        check_error(
            r#"
    fn f() -> [CheckMe1] {
        let x: Int = CheckMe2;
        CheckMe1
    }
    "#,
        ),
        lines(&[
            "  2 |         let x: Int = CheckMe2;",
            "                           ~~~~~~~~",
            "Expected an expression of type `Int` but found variant constructor `CheckMe2`.",
        ])
    );
}

#[test]
fn rule_let_check_check_mismatch_body() {
    assert_eq!(
        check_error(
            r#"
    fn f() -> Int {
        let x: [CheckMe2] = CheckMe2;
        CheckMe1
    }
    "#,
        ),
        lines(&[
            "  3 |         CheckMe1",
            "              ~~~~~~~~",
            "Expected an expression of type `Int` but found variant constructor `CheckMe1`.",
        ])
    );
}

#[test]
fn rule_if_infer() {
    check_success(
        r#"
    fn check_me() -> [CheckMe] { CheckMe }
    fn f() -> [CheckMe] {
        let x = if true {
            check_me()
        } else {
            CheckMe
        };
        x
    }
    "#,
    );
}

#[test]
fn rule_if_infer_cond_mismatch() {
    assert_eq!(
        check_error(
            r#"
    fn f() -> Int {
        let x = if CheckMe { 1 } else { 2 };
        0
    }
    "#,
        ),
        lines(&[
            "  2 |         let x = if CheckMe { 1 } else { 2 };",
            "                         ~~~~~~~",
            "Expected an expression of type `Bool` but found variant constructor `CheckMe`.",
        ])
    );
}

#[test]
fn rule_if_infer_then_not_inferrable() {
    assert_eq!(
        check_error(
            r#"
    fn f() -> Int {
        let x = if true { InferMe } else { 1 };
        0
    }
    "#,
        ),
        lines(&[
            "  2 |         let x = if true { InferMe } else { 1 };",
            "                                ~~~~~~~",
            "Cannot infer the type of the expression. Further type annotations are required.",
        ])
    );
}

#[test]
fn rule_if_infer_else_mismatch() {
    assert_eq!(
        check_error(
            r#"
    fn f() -> Int {
        let x = if true { 0 } else { CheckMe };
        x
    }
    "#,
        ),
        lines(&[
            "  2 |         let x = if true { 0 } else { CheckMe };",
            "                                           ~~~~~~~",
            "Expected an expression of type `Int` but found variant constructor `CheckMe`.",
        ])
    );
}

#[test]
fn rule_if_check() {
    check_success(
        r#"
    fn f() -> [CheckMe] {
        if true {
            CheckMe
        } else {
            CheckMe
        }
    }
    "#,
    );
}

#[test]
fn rule_if_check_cond_mismatch() {
    assert_eq!(
        check_error(
            r#"
    fn f() -> Int {
        if CheckMe { 1 } else { 2 }
    }
    "#,
        ),
        lines(&[
            "  2 |         if CheckMe { 1 } else { 2 }",
            "                 ~~~~~~~",
            "Expected an expression of type `Bool` but found variant constructor `CheckMe`.",
        ])
    );
}

#[test]
fn rule_if_check_then_bad() {
    assert_eq!(
        check_error(
            r#"
    fn f() -> Int {
        if true { CheckMe } else { 1 }
    }
    "#,
        ),
        lines(&[
            "  2 |         if true { CheckMe } else { 1 }",
            "                        ~~~~~~~",
            "Expected an expression of type `Int` but found variant constructor `CheckMe`.",
        ])
    );
}

#[test]
fn rule_if_check_else_bad() {
    assert_eq!(
        check_error(
            r#"
    fn f() -> Int {
        if true { 0 } else { CheckMe }
    }
    "#,
        ),
        lines(&[
            "  2 |         if true { 0 } else { CheckMe }",
            "                                   ~~~~~~~",
            "Expected an expression of type `Int` but found variant constructor `CheckMe`.",
        ])
    );
}

#[test]
fn duplicate_type_var() {
    assert_eq!(
        check_err(
            "fn f<A, A>() -> A { 0 }",
        ),
        lines(&[
            "  0 | fn f<A, A>() -> A { 0 }",
            "              ~",
            "Duplicate type variable `A`.",
        ])
    );
}

#[test]
fn signatures_unknown_type_var() {
    assert_eq!(
        check_err(
            "fn f() -> A { 0 }",
        ),
        lines(&[
            "  0 | fn f() -> A { 0 }",
            "                ~",
            "Undeclared type variable `A`.",
        ])
    );
}

#[test]
fn kind_error_in_param() {
    assert_eq!(
        check_err(
            "fn f<A>(x: A<Int>) -> A { 0 }",
        ),
        lines(&[
            "  0 | fn f<A>(x: A<Int>) -> A { 0 }",
            "                 ~~~~~~",
            "Type `A` is not a generic type but is applied to 1 type argument.",
        ])
    );
}

#[test]
fn kind_error_in_result() {
    assert_eq!(
        check_err(
            "fn map<A>(x: A) -> A<Int> { 0 }",
        ),
        lines(&[
            "  0 | fn map<A>(x: A) -> A<Int> { 0 }",
            "                         ~~~~~~",
            "Type `A` is not a generic type but is applied to 1 type argument.",
        ])
    );
}

#[test]
fn types_unknown_type_var() {
    assert_eq!(
        check_err(
            "type Bad = Unknown",
        ),
        lines(&[
            "  0 | type Bad = Unknown",
            "                 ~~~~~~~",
            "Undeclared type variable `Unknown`.",
        ])
    );
}

#[test]
fn unexpected_type_con_at_top() {
    assert_eq!(
        check_err(
            "type Id<A> = A\ntype Bad = Id",
        ),
        lines(&[
            "  1 | type Bad = Id",
            "                 ~~",
            "Expected a type but found the generic type `Id`.",
        ])
    );
}

#[test]
fn unexpected_type_con_in_type_args() {
    assert_eq!(
        check_err(
            "type Id<A> = A\ntype List<A> = A\ntype Bad = List<Id>",
        ),
        lines(&[
            "  2 | type Bad = List<Id>",
            "                      ~~",
            "Expected a type but found the generic type `Id`.",
        ])
    );
}

#[test]
fn unexpected_type_con_in_func_args() {
    assert_eq!(
        check_err(
            "type Id<A> = A\ntype Bad = (Id) -> Int",
        ),
        lines(&[
            "  1 | type Bad = (Id) -> Int",
            "                  ~~",
            "Expected a type but found the generic type `Id`.",
        ])
    );
}

#[test]
fn unexpected_type_con_in_func_result() {
    assert_eq!(
        check_err(
            "type Id<A> = A\ntype Bad = () -> Id",
        ),
        lines(&[
            "  1 | type Bad = () -> Id",
            "                       ~~",
            "Expected a type but found the generic type `Id`.",
        ])
    );
}

#[test]
fn unexpected_type_con_in_record() {
    assert_eq!(
        check_err(
            "type Id<A> = A\ntype Bad = {field: Id}",
        ),
        lines(&[
            "  1 | type Bad = {field: Id}",
            "                         ~~",
            "Expected a type but found the generic type `Id`.",
        ])
    );
}

#[test]
fn unexpected_type_con_in_variant() {
    assert_eq!(
        check_err(
            "type Id<A> = A\ntype Bad = [Constr(Id)]",
        ),
        lines(&[
            "  1 | type Bad = [Constr(Id)]",
            "                         ~~",
            "Expected a type but found the generic type `Id`.",
        ])
    );
}

#[test]
fn wrong_arity_var() {
    assert_eq!(
        check_err(
            "type Bad<F> = F<Int>",
        ),
        lines(&[
            "  0 | type Bad<F> = F<Int>",
            "                    ~~~~~~",
            "Type `F` is not a generic type but is applied to 1 type argument.",
        ])
    );
}

#[test]
fn wrong_arity_builtin() {
    assert_eq!(
        check_err(
            "type Bad<A> = Int<A>",
        ),
        lines(&[
            "  0 | type Bad<A> = Int<A>",
            "                    ~~~~~~",
            "Type `Int` is not a generic type but is applied to 1 type argument.",
        ])
    );
}

#[test]
fn wrong_arity_type_syn() {
    assert_eq!(
        check_err(
            "type Syn = Int\ntype Bad = Syn<Int>",
        ),
        lines(&[
            "  1 | type Bad = Syn<Int>",
            "                 ~~~~~~~~",
            "Type `Syn` is not a generic type but is applied to 1 type argument.",
        ])
    );
}

#[test]
fn wrong_arity_type_con_syn() {
    assert_eq!(
        check_err(
            "type Syn<A> = A\ntype Bad = Syn<Int, Int>",
        ),
        lines(&[
            "  1 | type Bad = Syn<Int, Int>",
            "                 ~~~~~~~~~~~~~",
            "Generic type `Syn` expects 1 type argument but is applied to 2 type arguments.",
        ])
    );
}
