use rufus::typed::diagnostic::{Diagnostic, Severity, Source};
use rufus::typed::location::{HumanLoc, Located as HumanLocated, ParserLoc, Span as HumanSpan};
use rufus::typed::syntax::{Decl, Expr, FuncDecl, Ident, Located, Module, Span, Type, TypeDecl};

fn type_decl(name: &str) -> Decl {
    Decl::Type(TypeDecl {
        name: Located::gen(Ident::new(name)),
        params: vec![],
        body: Located::gen(Type::Int),
    })
}

fn func_decl(name: &str) -> Decl {
    Decl::Func(FuncDecl {
        name: Located::gen(Ident::new(name)),
        type_params: vec![],
        expr_params: vec![],
        return_type: Located::gen(Type::Int),
        body: Located::gen(Expr::Num(0)),
    })
}

#[test]
fn declarations_are_found_by_kind() {
    let mut module = Module {
        decls: vec![func_decl("f"), type_decl("T"), func_decl("g"), type_decl("U")],
    };
    let types: Vec<&str> = module.type_decls().iter().map(|d| d.name.locatee.name()).collect();
    assert_eq!(types, vec!["T", "U"]);
    let funcs: Vec<&str> = module.func_decls().iter().map(|d| d.name.locatee.name()).collect();
    assert_eq!(funcs, vec!["f", "g"]);

    assert_eq!(module.type_decls_mut(1).unwrap().name.locatee.name(), "U");
    assert!(module.type_decls_mut(2).is_none());
    module.func_decls_mut(1).unwrap().name = Located::gen(Ident::new("h"));
    let funcs: Vec<&str> = module.func_decls().iter().map(|d| d.name.locatee.name()).collect();
    assert_eq!(funcs, vec!["f", "h"]);
    assert!(module.func_decls_mut(2).is_none());
}

#[test]
fn located_values_keep_their_span() {
    let located = Located::new(2, Span { start: 3, end: 5 });
    let doubled = located.map(|x| x * 2);
    assert_eq!(doubled.locatee, 4);
    assert_eq!(doubled.span.start, 3);
    assert_eq!(doubled.span.end, 5);
    let borrowed = doubled.as_ref();
    assert_eq!(*borrowed.locatee, 4);
    assert_eq!(borrowed.span.end, 5);
    let generated = Located::gen("x");
    assert_eq!(generated.span.start, 0);
    assert_eq!(generated.span.end, 0);
    let span = Span { start: 1usize, end: 2usize }.map(|pos| pos + 10);
    assert_eq!(span.start, 11);
    assert_eq!(span.end, 12);
}

#[test]
fn locations_of_the_other_kind() {
    let located = HumanLocated::new(
        "x",
        HumanSpan { start: HumanLoc::new(1, 2), end: HumanLoc::new(1, 3) },
    );
    let mapped = located.map(|x| x.len());
    assert_eq!(mapped.locatee, 1);
    assert!(mapped.span.start == HumanLoc::new(1, 2));
    assert!(*mapped.as_ref().locatee == 1);
    let generated: HumanLocated<u8, HumanLoc> = HumanLocated::gen(7);
    assert!(generated.span.start == HumanLoc::default());
    let span = HumanSpan { start: 1u32, end: 2u32 }.map(|pos| HumanLoc::new(pos, 0));
    assert!(span.end == HumanLoc::new(2, 0));
    assert!(ParserLoc::from_usize(17) == ParserLoc(17));
    assert!(ParserLoc::from_usize((1usize << 32) + 5) == ParserLoc(5));
}

#[test]
fn identifiers_are_compared_by_text() {
    let x = Ident::new("x");
    assert!(x.same(&Ident::new("x")));
    assert!(!x.same(&Ident::new("y")));
    assert!(x.is("x"));
    assert_eq!(x.with_name(|name| name.len()), 1);
    assert_eq!(x.clone().name(), "x");
    assert!(matches!(Type::default(), Type::Error));
    assert!(matches!(Expr::default(), Expr::Error));
}

#[test]
fn diagnostics_name_their_source() {
    let diagnostic = Diagnostic {
        span: HumanSpan { start: HumanLoc::new(0, 0), end: HumanLoc::new(0, 1) },
        severity: Severity::Error,
        source: Source::Checker,
        message: "Undeclared variable `x`.".to_string(),
    };
    assert_eq!(diagnostic.source.name(), "checker");
    assert_eq!(Source::Parser.name(), "parser");
    assert!(matches!(diagnostic.severity, Severity::Error));
}

#[test]
fn parts_of_types_are_reached_by_position() {
    let int = || Located::gen(Type::Int);
    let mut function = Type::Fun(vec![int(), Located::gen(Type::Bool)], Box::new(int()));
    assert!(matches!(function.children_mut(1).unwrap().locatee, Type::Bool));
    assert!(matches!(function.children_mut(2).unwrap().locatee, Type::Int));
    assert!(function.children_mut(3).is_none());
    *function.children_mut(2).unwrap() = Located::gen(Type::Bool);
    assert!(matches!(function.children_mut(2).unwrap().locatee, Type::Bool));

    let name = |text: &str| Located::gen(Ident::new(text));
    let mut variant = Type::Variant(vec![
        (name("A"), None),
        (name("B"), Some(int())),
        (name("C"), None),
        (name("D"), Some(Located::gen(Type::Bool))),
    ]);
    assert!(matches!(variant.children_mut(0).unwrap().locatee, Type::Int));
    assert!(matches!(variant.children_mut(1).unwrap().locatee, Type::Bool));
    assert!(variant.children_mut(2).is_none());

    let mut record = Type::Record(vec![(name("x"), int())]);
    assert!(matches!(record.children_mut(0).unwrap().locatee, Type::Int));
    assert!(record.children_mut(1).is_none());
    assert!(Type::Int.children_mut(0).is_none());
}

#[test]
fn parts_of_expressions_are_reached_by_position() {
    let num = |n: i64| Located::gen(Expr::Num(n));
    let mut sum = Expr::BinOp(
        Box::new(num(1)),
        rufus::typed::syntax::OpCode::Add,
        Box::new(num(2)),
    );
    assert!(matches!(sum.children_mut(0).unwrap().locatee, Expr::Num(1)));
    assert!(matches!(sum.children_mut(1).unwrap().locatee, Expr::Num(2)));
    assert!(sum.children_mut(2).is_none());
    *sum.children_mut(0).unwrap() = num(5);
    assert!(matches!(sum.children_mut(0).unwrap().locatee, Expr::Num(5)));

    let mut call = Expr::App(Box::new(num(0)), vec![num(1), num(2)]);
    assert!(matches!(call.children_mut(2).unwrap().locatee, Expr::Num(2)));
    assert!(call.children_mut(3).is_none());

    let mut payload = Expr::Variant(Located::gen(Ident::new("A")), Some(Box::new(num(1))));
    assert!(matches!(payload.children_mut(0).unwrap().locatee, Expr::Num(1)));
    let mut bare = Expr::Variant(Located::gen(Ident::new("A")), None);
    assert!(bare.children_mut(0).is_none());
}

#[test]
fn locations_are_shown_counting_from_one() {
    assert_eq!(HumanLoc::new(0, 0).to_text(), "1:1");
    assert_eq!(HumanLoc::new(9, 41).to_text(), "10:42");
    let span = HumanSpan { start: HumanLoc::new(0, 2), end: HumanLoc::new(1, 0) };
    assert_eq!(span.to_text(), "1:3-2:1");
    assert_eq!(HumanLoc::new(u32::MAX, 0).to_text(), "4294967296:1");
}
