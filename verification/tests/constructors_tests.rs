use lib::ascription::{FieldInfo, StructInfo, StructRegistry};
use lib::ast::Span;
use lib::constructors::{synthesize_constructors, OverloadInfo};
use lib::tast::{TypedExprKind, TypedPattern};
use lib::ty::{PrimTy, StructKey, Ty};
use lib::tyops::EscapeTarget;

fn info(name: &str, fields: Vec<(&str, Ty)>, alias_of: Option<&str>, has_predicates: bool) -> StructInfo {
    StructInfo {
        name: name.to_string(),
        fields: fields.into_iter().map(|(n, ty)| FieldInfo { name: n.to_string(), ty }).collect(),
        alias_of: alias_of.map(|a| a.to_string()),
        has_predicates,
        is_instance_of: None,
    }
}

fn registry() -> StructRegistry {
    StructRegistry {
        structs: vec![
            info("Altura", vec![], Some("Float"), false),
            info("Pessoa", vec![("nome", Ty::Prim(PrimTy::Text)), ("idade", Ty::Prim(PrimTy::Int))], None, false),
            info("Opaco", vec![], None, false),
            info("PositiveInt", vec![], Some("Int"), true),
            info("Pessoa2", vec![("nome", Ty::Prim(PrimTy::Text)), ("idade", Ty::Prim(PrimTy::Int))], Some("Pessoa"), false),
        ],
        instances: vec![],
    }
}

fn env() -> Vec<(String, Ty)> {
    vec![("Float".to_string(), Ty::Prim(PrimTy::Float)), ("Int".to_string(), Ty::Prim(PrimTy::Int))]
}

fn is_struct(t: &Ty, name: &str) -> bool {
    matches!(t, Ty::Struct(StructKey::Plain(n)) if n == name)
}

#[test]
fn structs_first_then_aliases_and_opaque_or_refined_skipped() {
    let mut table: Vec<OverloadInfo> = Vec::new();
    let fs = synthesize_constructors(&registry(), &env(), &mut table);
    let names: Vec<&str> = fs.iter().map(|f| f.name.as_str()).collect();
    assert_eq!(names, vec!["Pessoa", "Altura", "Pessoa2"]);
    let table_names: Vec<&str> = table.iter().map(|o| o.name.as_str()).collect();
    assert_eq!(table_names, names);
    for o in &table {
        assert!(o.is_constructor && !o.is_action && !o.is_generic && o.ffi_symbol.is_none());
        assert!(is_struct(&o.ret, &o.name));
    }
}

#[test]
fn struct_constructor_builds_from_its_parameters() {
    let mut table: Vec<OverloadInfo> = Vec::new();
    let fs = synthesize_constructors(&registry(), &env(), &mut table);
    let pessoa = &fs[0];
    assert_eq!(pessoa.param_types.len(), 2);
    assert!(is_struct(&pessoa.ret_ty, "Pessoa"));
    assert_eq!(pessoa.clauses.len(), 1);
    let clause = &pessoa.clauses[0];
    assert!(clause.guards.is_empty());
    match &clause.patterns[1].node {
        TypedPattern::Ident { name, ty } => {
            assert_eq!(name, "__field_1");
            assert!(matches!(ty, Ty::Prim(PrimTy::Int)));
        }
        _ => panic!("expected a parameter"),
    }
    let body = &clause.body.node;
    assert!(body.tail_pos);
    assert_eq!(body.escape, EscapeTarget::Caller);
    assert_eq!(body.span, Span::synthetic());
    match &body.kind {
        TypedExprKind::StructConstruct { struct_name, values } => {
            assert_eq!(struct_name, "Pessoa");
            assert_eq!(values.len(), 2);
            assert!(matches!(&values[0].node.kind, TypedExprKind::Ident { name } if name == "__field_0"));
            assert_eq!(values[0].node.escape, EscapeTarget::Local);
        }
        _ => panic!("expected a struct construction"),
    }
}

#[test]
fn alias_of_primitive_is_the_identity() {
    let mut table: Vec<OverloadInfo> = Vec::new();
    let fs = synthesize_constructors(&registry(), &env(), &mut table);
    let altura = &fs[1];
    assert_eq!(altura.param_types.len(), 1);
    assert!(matches!(altura.param_types[0], Ty::Prim(PrimTy::Float)));
    assert!(is_struct(&altura.ret_ty, "Altura"));
    assert!(matches!(&altura.clauses[0].body.node.kind, TypedExprKind::Ident { name } if name == "__field_0"));
    assert!(matches!(table[1].params[0], Ty::Prim(PrimTy::Float)));
}

#[test]
fn alias_of_struct_builds_under_its_own_name() {
    let mut table: Vec<OverloadInfo> = Vec::new();
    let fs = synthesize_constructors(&registry(), &env(), &mut table);
    match &fs[2].clauses[0].body.node.kind {
        TypedExprKind::StructConstruct { struct_name, values } => {
            assert_eq!(struct_name, "Pessoa2");
            assert_eq!(values.len(), 2);
        }
        _ => panic!("expected a struct construction"),
    }
}

#[test]
fn existing_table_entries_stay_first() {
    let mut table: Vec<OverloadInfo> = vec![OverloadInfo {
        name: "print".to_string(),
        params: vec![Ty::Prim(PrimTy::Text)],
        ret: Ty::Unit,
        ffi_symbol: Some("kata_print".to_string()),
        is_action: true,
        is_generic: false,
        is_constructor: false,
    }];
    let fs = synthesize_constructors(&registry(), &env(), &mut table);
    assert_eq!(table.len(), 1 + fs.len());
    assert_eq!(table[0].name, "print");
    assert_eq!(table[1].name, "Pessoa");
}
