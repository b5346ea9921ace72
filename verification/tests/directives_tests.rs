use lib::ast::{Expr, Pattern, Span, Spanned};
use lib::directives::{
    apply_directives_to_action_body, apply_directives_to_lambda_clause, apply_enter_to_action_body,
    apply_exit_to_action_body, apply_shortcircuit_to_action_body, apply_transform_to_action_body,
    desugar_directives, directive_body_to_expr, synthesize_args_binding, synthesize_return_binding,
    synthesize_static_bindings, transform_spanned_expr, ActionDef, ActionStmt, DirectiveDef, DirectiveKey,
    DirectiveRegistry, FunctionDef, Hook, LambdaClause, ReflectionInfo, ResolvedModule, Target,
};

fn sp(n: usize) -> Span {
    Span { start: n, end: n + 1 }
}

fn ident(name: &str, at: usize) -> Spanned<Expr> {
    Spanned::new(Expr::Ident { name: name.to_string() }, sp(at))
}

fn stmt(e: Spanned<Expr>, semi: bool) -> ActionStmt {
    ActionStmt { expr: e, has_semicolon: semi }
}

fn strings(xs: &[&str]) -> Vec<String> {
    xs.iter().map(|x| x.to_string()).collect()
}

fn def(name: &str, on: Target, when: Hook, body: Vec<ActionStmt>) -> DirectiveDef {
    DirectiveDef { key: DirectiveKey { name: name.to_string(), on, when }, body }
}

fn action_refl() -> ReflectionInfo {
    ReflectionInfo::for_action(
        "greet",
        &strings(&["Int", "Text"]),
        &vec![Some("a".to_string()), None],
        &"Unit".to_string(),
    )
}

fn let_name(e: &Spanned<Expr>) -> Option<&str> {
    match &e.node {
        Expr::Let { name, .. } => Some(name.as_str()),
        _ => None,
    }
}

fn is_ident(e: &Spanned<Expr>, n: &str) -> bool {
    matches!(&e.node, Expr::Ident { name } if name == n)
}

fn block_stmts(e: &Spanned<Expr>) -> &Vec<Spanned<Expr>> {
    match &e.node {
        Expr::Block { stmts } => stmts,
        other => panic!("expected a block, got {:?}", other),
    }
}

#[test]
fn action_reflection_names_params() {
    let r = action_refl();
    assert_eq!(r.name, "greet");
    assert_eq!(r.arity, 2);
    assert_eq!(r.arg_idents, strings(&["a", "__arg_1"]));
    assert_eq!(r.type_strings, strings(&["Int", "Text"]));
    assert_eq!(r.return_type_string, "Unit");
    assert!(r.is_action);
    assert!(r.has_args);
}

#[test]
fn function_reflection_has_positional_args() {
    let r = ReflectionInfo::for_function("f", &strings(&["Int", "Int", "Int"]), &"Int".to_string());
    assert_eq!(r.arg_idents, strings(&["__arg_0", "__arg_1", "__arg_2"]));
    assert!(!r.is_action);
    assert!(!r.has_args);
}

#[test]
fn static_bindings_in_order() {
    let b = synthesize_static_bindings(&action_refl());
    let names: Vec<&str> = b.iter().map(|e| let_name(e).unwrap()).collect();
    assert_eq!(names, vec!["_name", "_arity", "_types", "_return_type", "_is_action"]);
    match &b[1].node {
        Expr::Let { value, .. } => assert!(matches!(&value.node, Expr::IntLit { text } if text == "2")),
        _ => unreachable!(),
    }
    match &b[2].node {
        Expr::Let { value, .. } => match &value.node {
            Expr::ListLit { elements } => {
                assert_eq!(elements.len(), 2);
                assert!(matches!(&elements[1].node, Expr::TextLit { text } if text == "Text"));
            }
            other => panic!("expected a list, got {:?}", other),
        },
        _ => unreachable!(),
    }
    match &b[4].node {
        Expr::Let { value, .. } => assert!(matches!(
            &value.node,
            Expr::VariantQual { enum_name, variant } if enum_name == "Boolean" && variant == "True"
        )),
        _ => unreachable!(),
    }
    assert!(b.iter().all(|e| e.span == Span::synthetic()));
}

#[test]
fn args_binding_lists_params_or_unit() {
    let a = synthesize_args_binding(&action_refl());
    match &a.node {
        Expr::Let { name, value } => {
            assert_eq!(name, "_args");
            match &value.node {
                Expr::Tuple { elements } => {
                    assert_eq!(elements.len(), 2);
                    assert!(is_ident(&elements[0], "a"));
                    assert!(is_ident(&elements[1], "__arg_1"));
                }
                other => panic!("expected a tuple, got {:?}", other),
            }
        }
        _ => unreachable!(),
    }
    let f = ReflectionInfo::for_function("f", &strings(&["Int"]), &"Int".to_string());
    let u = synthesize_args_binding(&f);
    assert!(matches!(&u.node, Expr::Let { value, .. } if matches!(value.node, Expr::Unit)));
}

#[test]
fn return_binding_names_result() {
    let r = synthesize_return_binding();
    match &r.node {
        Expr::Let { name, value } => {
            assert_eq!(name, "_return");
            assert!(is_ident(value, "__result"));
        }
        _ => unreachable!(),
    }
}

#[test]
fn single_statement_body_is_its_expression() {
    let one = vec![stmt(ident("x", 3), false)];
    let e = directive_body_to_expr(&one);
    assert!(is_ident(&e, "x"));
    assert_eq!(e.span, sp(3));
    let two = vec![stmt(ident("x", 3), true), stmt(ident("y", 4), false)];
    let b = directive_body_to_expr(&two);
    assert_eq!(block_stmts(&b).len(), 2);
    assert_eq!(b.span, Span::synthetic());
}

#[test]
fn enter_prepends_bindings_and_directive() {
    let d = def("trace", Target::Action, Hook::Enter, vec![stmt(ident("log", 9), true)]);
    let body = vec![stmt(ident("work", 1), true), stmt(ident("done", 2), false)];
    let out = apply_enter_to_action_body(body, &d, &action_refl());
    assert_eq!(out.len(), 9);
    assert!(out[..6].iter().all(|s| s.has_semicolon));
    assert_eq!(let_name(&out[5].expr), Some("_args"));
    assert!(is_ident(&out[6].expr, "log"));
    assert!(is_ident(&out[7].expr, "work"));
    assert!(is_ident(&out[8].expr, "done"));
    assert!(!out[8].has_semicolon);
}

#[test]
fn exit_wraps_value_and_keeps_other_statements() {
    let d = def("trace", Target::Action, Hook::Exit, vec![stmt(ident("log", 9), true)]);
    let body = vec![stmt(ident("work", 1), true), stmt(ident("done", 2), false)];
    let out = apply_exit_to_action_body(body, &d, &action_refl());
    assert_eq!(out.len(), 2);
    assert!(is_ident(&out[0].expr, "work"));
    assert!(out[0].has_semicolon);
    let stmts = block_stmts(&out[1].expr);
    assert_eq!(stmts.len(), 10);
    match &stmts[0].node {
        Expr::Let { name, value } => {
            assert_eq!(name, "__result");
            assert!(is_ident(value, "done"));
            assert_eq!(value.span, sp(2));
        }
        other => panic!("expected a let, got {:?}", other),
    }
    assert_eq!(let_name(&stmts[6]), Some("_args"));
    assert_eq!(let_name(&stmts[7]), Some("_return"));
    assert!(is_ident(&stmts[8], "log"));
    assert!(is_ident(&stmts[9], "__result"));
    assert!(!out[1].has_semicolon);
}

#[test]
fn exit_wraps_nested_returns() {
    let d = def("trace", Target::Action, Hook::Exit, vec![]);
    let ret = Spanned::new(Expr::Return(Box::new(ident("early", 5))), sp(4));
    let letr = Spanned::new(Expr::Let { name: "x".to_string(), value: Box::new(ret) }, sp(3));
    let body = vec![stmt(letr, true), stmt(ident("done", 2), true)];
    let out = apply_exit_to_action_body(body, &d, &action_refl());
    match &out[0].expr.node {
        Expr::Let { value, .. } => match &value.node {
            Expr::Return(inner) => {
                let stmts = block_stmts(inner);
                assert!(is_ident(stmts.last().unwrap(), "__result"));
            }
            other => panic!("expected a return, got {:?}", other),
        },
        other => panic!("expected a let, got {:?}", other),
    }
    // The last statement has a semicolon: it is not the value, and holds no return.
    assert!(is_ident(&out[1].expr, "done"));
}

#[test]
fn transform_ends_with_directive_value() {
    let d = def("double", Target::Action, Hook::Transform, vec![stmt(ident("twice", 9), false)]);
    let body = vec![stmt(ident("v", 1), false)];
    let out = apply_transform_to_action_body(body, &d, &action_refl());
    let stmts = block_stmts(&out[0].expr);
    assert_eq!(stmts.len(), 9);
    assert!(is_ident(stmts.last().unwrap(), "twice"));
}

#[test]
fn return_inside_lambda_is_not_wrapped() {
    let d = def("trace", Target::Action, Hook::Exit, vec![]);
    let ret = Spanned::new(Expr::Return(Box::new(ident("r", 5))), sp(4));
    let lam = Spanned::new(
        Expr::Lambda { patterns: vec![], body: Box::new(ret), guards: vec![], with_bindings: vec![] },
        sp(3),
    );
    let out = transform_spanned_expr(&lam, Hook::Exit, &d, &action_refl());
    match &out.node {
        Expr::Lambda { body, .. } => match &body.node {
            Expr::Return(inner) => assert!(is_ident(inner, "r")),
            other => panic!("expected a return, got {:?}", other),
        },
        other => panic!("expected a lambda, got {:?}", other),
    }
}

#[test]
fn shortcircuit_matches_on_decision() {
    let d = def("cache", Target::Action, Hook::ShortCircuit, vec![stmt(ident("lookup", 9), false)]);
    let body = vec![stmt(ident("compute", 1), false)];
    let out = apply_shortcircuit_to_action_body(body, &d, &action_refl());
    assert_eq!(out.len(), 8);
    match &out[6].expr.node {
        Expr::Let { name, value } => {
            assert_eq!(name, "__decision");
            assert!(is_ident(value, "lookup"));
        }
        other => panic!("expected a let, got {:?}", other),
    }
    assert!(!out[7].has_semicolon);
    match &out[7].expr.node {
        Expr::Match { scrutinee, arms } => {
            assert!(is_ident(scrutinee, "__decision"));
            assert_eq!(arms.len(), 2);
            match &arms[0].pattern.as_ref().unwrap().node {
                Pattern::Variant { enum_name, variant, payload } => {
                    assert_eq!(enum_name, "Optional");
                    assert_eq!(variant, "Some");
                    assert!(matches!(&payload.as_ref().unwrap()[0].node, Pattern::Ident(n) if n == "r"));
                }
                other => panic!("expected a variant, got {:?}", other),
            }
            assert!(is_ident(&arms[0].body, "r"));
            assert!(is_ident(&arms[1].body, "compute"));
        }
        other => panic!("expected a match, got {:?}", other),
    }
}

#[test]
fn lookup_keeps_declaration_order() {
    let mut reg = DirectiveRegistry::new();
    reg.register(def("a", Target::Action, Hook::Exit, vec![]));
    reg.register(def("b", Target::Action, Hook::Enter, vec![]));
    reg.register(def("a", Target::Function, Hook::Enter, vec![]));
    let found = reg.lookup_by_name(&"a".to_string());
    assert_eq!(found.len(), 2);
    assert_eq!(found[0].key.when, Hook::Exit);
    assert_eq!(found[1].key.on, Target::Function);
    assert!(reg.lookup_by_name(&"zzz".to_string()).is_empty());
}

#[test]
fn first_directive_is_outermost() {
    let mut reg = DirectiveRegistry::new();
    reg.register(def("outer", Target::Action, Hook::Enter, vec![stmt(ident("first", 7), true)]));
    reg.register(def("inner", Target::Any, Hook::Enter, vec![stmt(ident("second", 8), true)]));
    let body = vec![stmt(ident("work", 1), false)];
    let out = apply_directives_to_action_body(body, &strings(&["outer", "inner"]), &action_refl(), &reg);
    assert_eq!(out.len(), 15);
    assert!(is_ident(&out[6].expr, "first"));
    assert!(is_ident(&out[13].expr, "second"));
    assert!(is_ident(&out[14].expr, "work"));
}

#[test]
fn function_only_directive_skips_actions() {
    let mut reg = DirectiveRegistry::new();
    reg.register(def("pure", Target::Function, Hook::Enter, vec![stmt(ident("x", 7), true)]));
    let body = vec![stmt(ident("work", 1), false)];
    let out = apply_directives_to_action_body(body, &strings(&["pure"]), &action_refl(), &reg);
    assert_eq!(out.len(), 1);
    assert!(is_ident(&out[0].expr, "work"));
}

#[test]
fn lambda_enter_and_exit() {
    let mut reg = DirectiveRegistry::new();
    reg.register(def("t", Target::Any, Hook::Enter, vec![stmt(ident("pre", 7), true)]));
    reg.register(def("t", Target::Function, Hook::Exit, vec![stmt(ident("post", 8), true)]));
    reg.register(def("t", Target::Function, Hook::ShortCircuit, vec![stmt(ident("never", 9), true)]));
    let refl = ReflectionInfo::for_function("f", &strings(&["Int"]), &"Int".to_string());
    let clause = LambdaClause { patterns: vec![], body: ident("body", 1), guards: vec![], with_bindings: vec![] };
    let out = apply_directives_to_lambda_clause(clause, &strings(&["t"]), &refl, &reg);
    // Enter then Exit: the exit wraps the block that enter built.
    let outer = block_stmts(&out.body);
    assert!(is_ident(outer.last().unwrap(), "__result"));
    match &outer[0].node {
        Expr::Let { name, value } => {
            assert_eq!(name, "__result");
            let inner = block_stmts(value);
            assert!(is_ident(&inner[6], "pre"));
            assert!(is_ident(inner.last().unwrap(), "body"));
        }
        other => panic!("expected a let, got {:?}", other),
    }
    assert!(is_ident(&outer[outer.len() - 2], "post"));
}

#[test]
fn module_pass_leaves_undecorated_items() {
    let mut reg = DirectiveRegistry::new();
    reg.register(def("t", Target::Any, Hook::Enter, vec![stmt(ident("pre", 7), true)]));
    let plain = ActionDef {
        name: "plain".to_string(),
        param_types: vec![],
        param_names: vec![],
        return_type: "Unit".to_string(),
        custom_directives: vec![],
        body: vec![stmt(ident("a", 1), false)],
    };
    let decorated = ActionDef {
        name: "deco".to_string(),
        param_types: strings(&["Int"]),
        param_names: vec![Some("n".to_string())],
        return_type: "Unit".to_string(),
        custom_directives: strings(&["t"]),
        body: vec![stmt(ident("b", 2), false)],
    };
    let func = FunctionDef {
        name: "f".to_string(),
        param_types: strings(&["Int"]),
        return_type: "Int".to_string(),
        custom_directives: strings(&["t"]),
        clauses: vec![Spanned::new(
            LambdaClause { patterns: vec![], body: ident("x", 3), guards: vec![], with_bindings: vec![] },
            sp(30),
        )],
    };
    let mut m = ResolvedModule { actions: vec![plain, decorated], functions: vec![func], directive_registry: reg };
    desugar_directives(&mut m);
    assert_eq!(m.actions[0].body.len(), 1);
    assert!(is_ident(&m.actions[0].body[0].expr, "a"));
    assert_eq!(m.actions[1].body.len(), 8);
    assert!(is_ident(&m.actions[1].body[6].expr, "pre"));
    assert_eq!(m.functions[0].clauses[0].span, sp(30));
    let stmts = block_stmts(&m.functions[0].clauses[0].node.body);
    assert!(is_ident(stmts.last().unwrap(), "x"));
}
