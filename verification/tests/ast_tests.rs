use script::parser::ast::{
    Attribute, BinaryOp, Block, EnumConstructorArgs, EnumVariant, EnumVariantFields, ExportKind, ExportSpecifier,
    Expr, ExprKind, GenericParam, GenericParams, ImportSpecifier, Literal, MatchArm, Param, Pattern, PatternKind,
    Program, Stmt, StmtKind, StructField, TraitBound, TypeAnn, TypeKind, UnaryOp,
};
use script::source::{SourceLocation, Span};

fn sp() -> Span {
    Span::single(SourceLocation::initial())
}

fn ident(n: &str) -> Expr {
    Expr { kind: ExprKind::Identifier(n.to_string()), span: sp() }
}

fn num(t: &str) -> Expr {
    Expr { kind: ExprKind::Literal(Literal::Number(t.to_string())), span: sp() }
}

fn ty(n: &str) -> TypeAnn {
    TypeAnn { kind: TypeKind::Named(n.to_string()), span: sp() }
}

fn stmt(kind: StmtKind) -> Stmt {
    Stmt { kind, span: sp(), attributes: vec![] }
}

#[test]
fn expressions_render_as_source() {
    let sum = Expr {
        kind: ExprKind::Binary { left: Box::new(num("1")), op: BinaryOp::Add, right: Box::new(ident("x")) },
        span: sp(),
    };
    assert_eq!(sum.to_string(), "(1 + x)");
    let neg = Expr { kind: ExprKind::Unary { op: UnaryOp::Minus, expr: Box::new(ident("y")) }, span: sp() };
    assert_eq!(neg.to_string(), "(-y)");
    let call = Expr { kind: ExprKind::Call { callee: Box::new(ident("f")), args: vec![sum, neg] }, span: sp() };
    assert_eq!(call.to_string(), "f((1 + x), (-y))");
    let cond = Expr {
        kind: ExprKind::If {
            condition: Box::new(ident("c")),
            then_branch: Box::new(num("1")),
            else_branch: Some(Box::new(num("2"))),
        },
        span: sp(),
    };
    assert_eq!(cond.to_string(), "if c { 1 } else { 2 }");
    let lit = Expr { kind: ExprKind::Literal(Literal::String("hi".to_string())), span: sp() };
    assert_eq!(lit.to_string(), "\"hi\"");
    let comp = Expr {
        kind: ExprKind::ListComprehension {
            element: Box::new(ident("x")),
            variable: "x".to_string(),
            iterable: Box::new(ident("xs")),
            condition: Some(Box::new(Expr { kind: ExprKind::Literal(Literal::Boolean(true)), span: sp() })),
        },
        span: sp(),
    };
    assert_eq!(comp.to_string(), "[x for x in xs if true]");
    let ctor = Expr {
        kind: ExprKind::EnumConstructor {
            enum_name: Some("Option".to_string()),
            variant: "Some".to_string(),
            args: EnumConstructorArgs::Tuple(vec![num("5")]),
        },
        span: sp(),
    };
    assert_eq!(ctor.to_string(), "Option::Some(5)");
    let point = Expr {
        kind: ExprKind::StructConstructor {
            name: "Point".to_string(),
            fields: vec![("x".to_string(), num("1")), ("y".to_string(), num("2"))],
        },
        span: sp(),
    };
    assert_eq!(point.to_string(), "Point { x: 1, y: 2 }");
    let generic = Expr {
        kind: ExprKind::GenericConstructor { name: "Vec".to_string(), type_args: vec![ty("i32")] },
        span: sp(),
    };
    assert_eq!(generic.to_string(), "Vec<i32>");
}

#[test]
fn match_and_patterns_render_as_source() {
    let arm = |pattern: PatternKind, body: Expr| MatchArm {
        pattern: Pattern { kind: pattern, span: sp() },
        guard: None,
        body,
    };
    let m = Expr {
        kind: ExprKind::Match {
            expr: Box::new(ident("v")),
            arms: vec![
                arm(
                    PatternKind::Or(vec![
                        Pattern { kind: PatternKind::Literal(Literal::Null), span: sp() },
                        Pattern { kind: PatternKind::Wildcard, span: sp() },
                    ]),
                    num("0"),
                ),
                arm(
                    PatternKind::Object(vec![
                        ("a".to_string(), None),
                        ("b".to_string(), Some(Pattern { kind: PatternKind::Identifier("z".to_string()), span: sp() })),
                    ]),
                    num("1"),
                ),
            ],
        },
        span: sp(),
    };
    assert_eq!(m.to_string(), "match v { null | _ => 0, {a, b: z} => 1, }");
}

#[test]
fn statements_and_blocks_render_as_source() {
    let body = Block { statements: vec![stmt(StmtKind::Return(Some(ident("x"))))], final_expr: None };
    let f = Stmt {
        kind: StmtKind::Function {
            name: "id".to_string(),
            generic_params: Some(GenericParams {
                params: vec![GenericParam {
                    name: "T".to_string(),
                    bounds: vec![
                        TraitBound { trait_name: "Clone".to_string(), span: sp() },
                        TraitBound { trait_name: "Eq".to_string(), span: sp() },
                    ],
                    span: sp(),
                }],
                span: sp(),
            }),
            params: vec![Param { name: "x".to_string(), type_ann: ty("T") }],
            ret_type: Some(ty("T")),
            body,
            is_async: true,
        },
        span: sp(),
        attributes: vec![Attribute { name: "inline".to_string(), args: vec!["always".to_string()], span: sp() }],
    };
    assert_eq!(f.to_string(), "@inline(always)\nasync fn id<T: Clone + Eq>(x: T) -> T {\n    return x\n}");
    let l = stmt(StmtKind::Let { name: "a".to_string(), type_ann: Some(ty("i32")), init: Some(num("3")) });
    assert_eq!(l.to_string(), "let a: i32 = 3");
    let s = stmt(StmtKind::Struct {
        name: "P".to_string(),
        generic_params: None,
        fields: vec![
            StructField { name: "x".to_string(), type_ann: ty("i32"), span: sp() },
            StructField { name: "y".to_string(), type_ann: ty("i32"), span: sp() },
        ],
    });
    assert_eq!(s.to_string(), "struct P { x: i32,  y: i32 }");
    let e = stmt(StmtKind::Enum {
        name: "E".to_string(),
        generic_params: None,
        variants: vec![
            EnumVariant { name: "A".to_string(), fields: EnumVariantFields::Unit, span: sp() },
            EnumVariant { name: "B".to_string(), fields: EnumVariantFields::Tuple(vec![ty("i32")]), span: sp() },
        ],
    });
    assert_eq!(e.to_string(), "enum E { A,  B(i32) }");
    let w = stmt(StmtKind::While {
        condition: ident("c"),
        body: Block { statements: vec![], final_expr: Some(Box::new(num("1"))) },
    });
    assert_eq!(w.to_string(), "while c {\n    1\n}");
    let program = Program { statements: vec![l, w] };
    assert_eq!(program.to_string(), "let a: i32 = 3\nwhile c {\n    1\n}");
}

#[test]
fn imports_and_exports_render_as_source() {
    let i = stmt(StmtKind::Import {
        imports: vec![
            ImportSpecifier::Default { name: "d".to_string() },
            ImportSpecifier::Named { name: "a".to_string(), alias: Some("b".to_string()) },
            ImportSpecifier::Namespace { alias: "ns".to_string() },
            ImportSpecifier::Named { name: "c".to_string(), alias: None },
        ],
        module: "m".to_string(),
    });
    assert_eq!(i.to_string(), "import d, { a as b, c }, * as ns from \"m\"");
    let only_ns = stmt(StmtKind::Import {
        imports: vec![ImportSpecifier::Namespace { alias: "all".to_string() }],
        module: "lib".to_string(),
    });
    assert_eq!(only_ns.to_string(), "import * as all from \"lib\"");
    let ex = stmt(StmtKind::Export {
        export: ExportKind::Named {
            specifiers: vec![
                ExportSpecifier { name: "a".to_string(), alias: None },
                ExportSpecifier { name: "b".to_string(), alias: Some("c".to_string()) },
            ],
        },
    });
    assert_eq!(ex.to_string(), "export { a, b as c }");
    let dflt = ExportKind::Default { expr: num("42") };
    assert_eq!(dflt.to_string(), "default 42");
    let decl = ExportKind::Declaration(Box::new(stmt(StmtKind::Return(None))));
    assert_eq!(decl.to_string(), "return");
}

#[test]
fn types_and_variants_render_as_source() {
    let f = TypeAnn {
        kind: TypeKind::Function {
            params: vec![ty("i32"), TypeAnn { kind: TypeKind::Array(Box::new(ty("bool"))), span: sp() }],
            ret: Box::new(TypeAnn {
                kind: TypeKind::Generic { name: "Map".to_string(), args: vec![ty("string"), ty("T")] },
                span: sp(),
            }),
        },
        span: sp(),
    };
    assert_eq!(f.to_string(), "(i32, [bool]) -> Map<string, T>");
    let fields = EnumVariantFields::Struct(vec![StructField { name: "x".to_string(), type_ann: ty("f32"), span: sp() }]);
    assert_eq!(fields.to_string(), "{ x: f32 }");
    let v = EnumVariant { name: "P".to_string(), fields, span: sp() };
    assert_eq!(v.to_string(), "P { x: f32 }");
    assert_eq!(Attribute { name: "test".to_string(), args: vec![], span: sp() }.to_string(), "@test");
    assert_eq!(BinaryOp::GreaterEqual.to_string(), ">=");
    assert_eq!(UnaryOp::Not.to_string(), "!");
}

#[test]
fn test_module_ast_types() {
    let import_stmt = Stmt {
        kind: StmtKind::Import {
            imports: vec![
                ImportSpecifier::Default { name: "React".to_string() },
                ImportSpecifier::Named { name: "useState".to_string(), alias: None },
                ImportSpecifier::Namespace { alias: "utils".to_string() },
            ],
            module: "react".to_string(),
        },
        span: Span::single(SourceLocation::initial()),
        attributes: vec![],
    };

    let export_stmt = Stmt {
        kind: StmtKind::Export {
            export: ExportKind::Named {
                specifiers: vec![
                    ExportSpecifier { name: "foo".to_string(), alias: None },
                    ExportSpecifier { name: "bar".to_string(), alias: Some("baz".to_string()) },
                ],
            },
        },
        span: Span::single(SourceLocation::initial()),
        attributes: vec![],
    };

    let import_str = import_stmt.to_string();
    assert!(import_str.contains("import"));
    assert!(import_str.contains("React"));
    assert!(import_str.contains("useState"));
    assert!(import_str.contains("* as utils"));
    assert!(import_str.contains("from \"react\""));

    let export_str = export_stmt.to_string();
    assert!(export_str.contains("export"));
    assert!(export_str.contains("foo"));
}
