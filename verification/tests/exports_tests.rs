use script::parser::ast::{
    Block, EnumVariant, EnumVariantFields, Expr, ExprKind, Literal, Param, Program, Stmt, StmtKind, StructField, TypeAnn,
    TypeKind,
};
use script::repl::exports::{create_function_signature, extract_exports, process_type_definition};
use script::source::{SourceLocation, Span};
use script::types::Type;

fn sp() -> Span {
    Span::single(SourceLocation::initial())
}

fn stmt(kind: StmtKind) -> Stmt {
    Stmt { kind, span: sp(), attributes: vec![] }
}

fn ty(name: &str) -> TypeAnn {
    TypeAnn { kind: TypeKind::Named(name.to_string()), span: sp() }
}

fn let_stmt(name: &str) -> Stmt {
    stmt(StmtKind::Let {
        name: name.to_string(),
        type_ann: None,
        init: Some(Expr { kind: ExprKind::Literal(Literal::Boolean(true)), span: sp() }),
    })
}

fn fn_stmt(name: &str, params: &[&str]) -> Stmt {
    stmt(StmtKind::Function {
        name: name.to_string(),
        generic_params: None,
        params: params.iter().map(|p| Param { name: p.to_string(), type_ann: ty("i32") }).collect(),
        ret_type: None,
        body: Block { statements: vec![], final_expr: None },
        is_async: false,
    })
}

fn struct_stmt(name: &str, fields: &[&str]) -> Stmt {
    stmt(StmtKind::Struct {
        name: name.to_string(),
        generic_params: None,
        fields: fields.iter().map(|f| StructField { name: f.to_string(), type_ann: ty("i32"), span: sp() }).collect(),
    })
}

fn enum_stmt(name: &str) -> Stmt {
    stmt(StmtKind::Enum {
        name: name.to_string(),
        generic_params: None,
        variants: vec![EnumVariant { name: "A".to_string(), fields: EnumVariantFields::Unit, span: sp() }],
    })
}

#[test]
fn test_extract_exports_categories() {
    let program = Program {
        statements: vec![
            let_stmt("x"),
            fn_stmt("f", &["a", "b"]),
            struct_stmt("P", &["x", "y"]),
            enum_stmt("E"),
            stmt(StmtKind::Return(None)),
        ],
    };
    let e = extract_exports(&program).unwrap();
    assert_eq!(e.variables.keys(), vec!["x".to_string()]);
    assert_eq!(e.variables.get("x"), Some(&Type::Unknown));
    assert_eq!(e.functions.keys(), vec!["f".to_string()]);
    let sig = e.functions.get("f").unwrap();
    assert_eq!(sig.params, vec![("a".to_string(), Type::Unknown), ("b".to_string(), Type::Unknown)]);
    assert_eq!(sig.return_type, Type::Unknown);
    assert!(!sig.is_async && !sig.is_const && sig.generic_params.is_none());
    assert_eq!(e.types.keys(), vec!["P".to_string(), "E".to_string()]);
    assert_eq!(e.types.get("E"), Some(&Type::Named("E".to_string())));
    match e.types.get("P") {
        Some(Type::Struct { name, fields }) => {
            assert_eq!(name, "P");
            let names: Vec<&str> = fields.iter().map(|(n, _)| n.as_str()).collect();
            assert_eq!(names, vec!["x", "y"]);
            assert!(fields.iter().all(|(_, t)| **t == Type::Unknown));
        }
        other => panic!("unexpected {:?}", other),
    }
}

#[test]
fn test_extract_exports_redefinition_keeps_place() {
    let program = Program { statements: vec![fn_stmt("f", &["a"]), fn_stmt("g", &[]), fn_stmt("f", &["p", "q"])] };
    let e = extract_exports(&program).unwrap();
    assert_eq!(e.functions.keys(), vec!["f".to_string(), "g".to_string()]);
    assert_eq!(e.functions.get("f").unwrap().params.len(), 2);
}

#[test]
fn test_process_type_definition_refuses_other_statements() {
    let r = process_type_definition(&let_stmt("x"));
    let err = r.unwrap_err();
    assert!(err.starts_with("Statement is not a type definition: Let"));
    assert_eq!(process_type_definition(&enum_stmt("E")), Ok(Type::Named("E".to_string())));
}

#[test]
fn test_create_function_signature_params() {
    let params = vec![Param { name: "n".to_string(), type_ann: ty("i32") }];
    let sig = create_function_signature(&params);
    assert_eq!(sig.params, vec![("n".to_string(), Type::Unknown)]);
}
