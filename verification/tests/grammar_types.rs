use autarkie::grammar::{Expr, Inner, InnerBoxed, InnerBoxedEnum, InnerInnerBoxed, ShadowedMacroLocalEnum, ShadowedMacroLocals, Statement};

#[test]
fn derive_allows_fields_named_like_macro_locals() {
    let _ = ShadowedMacroLocals {
        v: 1,
        val: 2,
        depth: 3,
        cur_depth: 4,
        is_recursive: 5,
        autarkie_visitor: 6,
        autarkie_path: 7,
        __autarkie_val: 8,
    };
    let _ = ShadowedMacroLocalEnum::Named {
        v: 1,
        val: 2,
        depth: 3,
        cur_depth: 4,
        is_recursive: 5,
        autarkie_visitor: 6,
        autarkie_path: 7,
        __autarkie_val: 8,
    };
}

#[test]
fn grammar_types_nest_through_boxes_and_containers() {
    let leaf = Expr::Number(7);
    let boxed = InnerBoxed { what: InnerInnerBoxed { what: Box::new(Expr::Literal("x".to_string())) } };
    let e = Expr::Vec(vec![
        Expr::Add(Box::new(leaf), Box::new(Expr::Number(1))),
        Expr::What(Box::new(None)),
        Expr::WhatTwo(boxed),
        Expr::WhatTwoInner(InnerBoxedEnum::Test(Box::new(Expr::Number(2)))),
        Expr::SayWhat((3, Box::new(Expr::Number(4)))),
        Expr::Res(Err(5)),
        Expr::Stmt(Box::new(Statement::Exp(Expr::Number(6)))),
    ]);
    let inner = Inner { what: e, who: 9 };
    assert_eq!(inner.who, 9);
    match inner.what {
        Expr::Vec(items) => assert_eq!(items.len(), 7),
        _ => panic!("expected a vector expression"),
    }
    let t = ShadowedMacroLocalEnum::Tuple(1, 2);
    assert!(matches!(t, ShadowedMacroLocalEnum::Tuple(1, 2)));
}
