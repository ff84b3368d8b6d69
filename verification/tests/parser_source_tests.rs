use script::error::{Error, ErrorKind};
use script::parser::ast::{
    BinaryOp, ExportKind, Expr, ExprKind, ImportSpecifier, Literal, Program, StmtKind, TypeKind, UnaryOp,
};
use script::parser::parser::Parser;
use script::parser::token::{Token, TokenKind};
use script::source::{SourceLocation, Span};

/// Splits source text into tokens: enough of the language for these tests.
fn lex(src: &str) -> Option<Vec<Token>> {
    let cs: Vec<char> = src.chars().collect();
    let mut out: Vec<TokenKind> = Vec::new();
    let mut i = 0;
    while i < cs.len() {
        let c = cs[i];
        if c == ' ' || c == '\t' || c == '\r' {
            i += 1;
        } else if c == '\n' {
            out.push(TokenKind::Newline);
            i += 1;
        } else if c.is_ascii_digit() {
            let start = i;
            while i < cs.len() && (cs[i].is_ascii_digit() || cs[i] == '.') {
                i += 1;
            }
            out.push(TokenKind::Number(cs[start..i].iter().collect()));
        } else if c.is_alphabetic() || c == '_' {
            let start = i;
            while i < cs.len() && (cs[i].is_alphanumeric() || cs[i] == '_') {
                i += 1;
            }
            let word: String = cs[start..i].iter().collect();
            out.push(keyword(&word).unwrap_or(TokenKind::Identifier(word)));
        } else if c == '"' {
            let start = i + 1;
            i += 1;
            while i < cs.len() && cs[i] != '"' {
                i += 1;
            }
            out.push(TokenKind::String(cs[start..i].iter().collect()));
            i += 1;
        } else {
            let next = if i + 1 < cs.len() { cs[i + 1] } else { '\0' };
            let (kind, width) = match (c, next) {
                ('=', '=') => (TokenKind::EqualsEquals, 2),
                ('=', '>') => (TokenKind::DoubleArrow, 2),
                ('!', '=') => (TokenKind::BangEquals, 2),
                ('<', '=') => (TokenKind::LessEquals, 2),
                ('>', '=') => (TokenKind::GreaterEquals, 2),
                ('-', '>') => (TokenKind::Arrow, 2),
                (':', ':') => (TokenKind::ColonColon, 2),
                ('&', '&') => (TokenKind::And, 2),
                ('|', '|') => (TokenKind::Or, 2),
                ('(', _) => (TokenKind::LeftParen, 1),
                (')', _) => (TokenKind::RightParen, 1),
                ('{', _) => (TokenKind::LeftBrace, 1),
                ('}', _) => (TokenKind::RightBrace, 1),
                ('[', _) => (TokenKind::LeftBracket, 1),
                (']', _) => (TokenKind::RightBracket, 1),
                (',', _) => (TokenKind::Comma, 1),
                ('.', _) => (TokenKind::Dot, 1),
                (':', _) => (TokenKind::Colon, 1),
                (';', _) => (TokenKind::Semicolon, 1),
                ('+', _) => (TokenKind::Plus, 1),
                ('-', _) => (TokenKind::Minus, 1),
                ('*', _) => (TokenKind::Star, 1),
                ('/', _) => (TokenKind::Slash, 1),
                ('%', _) => (TokenKind::Percent, 1),
                ('=', _) => (TokenKind::Equals, 1),
                ('!', _) => (TokenKind::Bang, 1),
                ('<', _) => (TokenKind::Less, 1),
                ('>', _) => (TokenKind::Greater, 1),
                ('&', _) => (TokenKind::Ampersand, 1),
                ('|', _) => (TokenKind::Pipe, 1),
                ('?', _) => (TokenKind::Question, 1),
                ('@', _) => (TokenKind::At, 1),
                _ => return None,
            };
            out.push(kind);
            i += width;
        }
    }
    out.push(TokenKind::Eof);
    Some(out.into_iter().map(|k| Token::new(k, Span::single(SourceLocation::initial()))).collect())
}

fn keyword(word: &str) -> Option<TokenKind> {
    Some(match word {
        "let" => TokenKind::Let,
        "fn" => TokenKind::Fn,
        "async" => TokenKind::Async,
        "await" => TokenKind::Await,
        "return" => TokenKind::Return,
        "while" => TokenKind::While,
        "for" => TokenKind::For,
        "in" => TokenKind::In,
        "if" => TokenKind::If,
        "else" => TokenKind::Else,
        "match" => TokenKind::Match,
        "import" => TokenKind::Import,
        "export" => TokenKind::Export,
        "from" => TokenKind::From,
        "as" => TokenKind::As,
        "struct" => TokenKind::Struct,
        "enum" => TokenKind::Enum,
        "impl" => TokenKind::Impl,
        "where" => TokenKind::Where,
        "true" => TokenKind::True,
        "false" => TokenKind::False,
        "try" => TokenKind::Try,
        "catch" => TokenKind::Catch,
        "finally" => TokenKind::Finally,
        "mut" => TokenKind::Mut,
        "_" => TokenKind::Underscore,
        _ => return None,
    })
}

fn parse(input: &str) -> Result<Program, Error> {
    match lex(input) {
        Some(tokens) => Parser::new(tokens).parse(),
        None => Err(Error::new(ErrorKind::ParseError, "Unexpected character")),
    }
}

fn parse_expr(input: &str) -> Result<Expr, Error> {
    match lex(input) {
        Some(tokens) => Parser::new(tokens).parse_expression(),
        None => Err(Error::new(ErrorKind::ParseError, "Unexpected character")),
    }
}

fn is_number(e: &Expr, text: &str) -> bool {
    matches!(&e.kind, ExprKind::Literal(Literal::Number(n)) if n == text)
}

#[test]
fn test_parse_literals() {
    let expr = parse_expr("42").unwrap();
    assert!(is_number(&expr, "42"));
    let expr = parse_expr("3.14").unwrap();
    assert!(is_number(&expr, "3.14"));
    let expr = parse_expr(r#""hello world""#).unwrap();
    assert!(matches!(expr.kind, ExprKind::Literal(Literal::String(ref s)) if s == "hello world"));
    let expr = parse_expr("true").unwrap();
    assert!(matches!(expr.kind, ExprKind::Literal(Literal::Boolean(true))));
    let expr = parse_expr("false").unwrap();
    assert!(matches!(expr.kind, ExprKind::Literal(Literal::Boolean(false))));
}

#[test]
fn test_parse_identifiers() {
    let expr = parse_expr("foo").unwrap();
    assert!(matches!(expr.kind, ExprKind::Identifier(ref s) if s == "foo"));
    let expr = parse_expr("_bar123").unwrap();
    assert!(matches!(expr.kind, ExprKind::Identifier(ref s) if s == "_bar123"));
}

#[test]
fn test_parse_binary_expressions() {
    let expr = parse_expr("1 + 2").unwrap();
    match &expr.kind {
        ExprKind::Binary { left, op, right } => {
            assert!(is_number(left, "1"));
            assert_eq!(*op, BinaryOp::Add);
            assert!(is_number(right, "2"));
        }
        _ => panic!("Expected binary expression"),
    }
    let expr = parse_expr("1 + 2 * 3").unwrap();
    match &expr.kind {
        ExprKind::Binary { left, op, right } => {
            assert!(is_number(left, "1"));
            assert_eq!(*op, BinaryOp::Add);
            match &right.kind {
                ExprKind::Binary { left, op, right } => {
                    assert!(is_number(left, "2"));
                    assert_eq!(*op, BinaryOp::Mul);
                    assert!(is_number(right, "3"));
                }
                _ => panic!("Expected binary expression"),
            }
        }
        _ => panic!("Expected binary expression"),
    }
}

#[test]
fn test_parse_unary_expressions() {
    let expr = parse_expr("-42").unwrap();
    match &expr.kind {
        ExprKind::Unary { op, expr } => {
            assert_eq!(*op, UnaryOp::Minus);
            assert!(is_number(expr, "42"));
        }
        _ => panic!("Expected unary expression"),
    }
    let expr = parse_expr("!true").unwrap();
    match &expr.kind {
        ExprKind::Unary { op, expr } => {
            assert_eq!(*op, UnaryOp::Not);
            assert!(matches!(expr.kind, ExprKind::Literal(Literal::Boolean(true))));
        }
        _ => panic!("Expected unary expression"),
    }
}

#[test]
fn test_parse_grouped_expressions() {
    let expr = parse_expr("(1 + 2) * 3").unwrap();
    match &expr.kind {
        ExprKind::Binary { left, op, right } => {
            assert_eq!(*op, BinaryOp::Mul);
            assert!(matches!(left.kind, ExprKind::Binary { op: BinaryOp::Add, .. }));
            assert!(is_number(right, "3"));
        }
        _ => panic!("Expected binary expression"),
    }
}

#[test]
fn test_parse_call_expressions() {
    let expr = parse_expr("foo()").unwrap();
    match &expr.kind {
        ExprKind::Call { callee, args } => {
            assert!(matches!(callee.kind, ExprKind::Identifier(ref s) if s == "foo"));
            assert!(args.is_empty());
        }
        _ => panic!("Expected call expression"),
    }
    let expr = parse_expr("add(1, 2, 3)").unwrap();
    match &expr.kind {
        ExprKind::Call { callee, args } => {
            assert!(matches!(callee.kind, ExprKind::Identifier(ref s) if s == "add"));
            assert_eq!(args.len(), 3);
        }
        _ => panic!("Expected call expression"),
    }
}

#[test]
fn test_parse_array_expressions() {
    let expr = parse_expr("[]").unwrap();
    assert!(matches!(&expr.kind, ExprKind::Array(e) if e.is_empty()));
    let expr = parse_expr("[1, 2, 3]").unwrap();
    match &expr.kind {
        ExprKind::Array(elements) => {
            assert_eq!(elements.len(), 3);
            assert!(is_number(&elements[0], "1"));
            assert!(is_number(&elements[2], "3"));
        }
        _ => panic!("Expected array expression"),
    }
}

#[test]
fn test_parse_member_and_index_expressions() {
    let expr = parse_expr("foo.bar").unwrap();
    assert!(matches!(&expr.kind, ExprKind::Member { property, .. } if property == "bar"));
    let expr = parse_expr("arr[0]").unwrap();
    match &expr.kind {
        ExprKind::Index { object, index } => {
            assert!(matches!(object.kind, ExprKind::Identifier(ref s) if s == "arr"));
            assert!(is_number(index, "0"));
        }
        _ => panic!("Expected index expression"),
    }
    let expr = parse_expr("foo.bar[0].baz").unwrap();
    assert_eq!(expr.to_string(), "foo.bar[0].baz");
}

#[test]
fn test_parse_if_expressions() {
    let expr = parse_expr("if true { 1 } else { 2 }").unwrap();
    match &expr.kind {
        ExprKind::If { condition, then_branch, else_branch } => {
            assert!(matches!(condition.kind, ExprKind::Literal(Literal::Boolean(true))));
            match &then_branch.kind {
                ExprKind::Block(block) => {
                    assert!(block.statements.is_empty());
                    assert!(is_number(block.final_expr.as_ref().unwrap(), "1"));
                }
                _ => panic!("Expected block expression in then branch"),
            }
            match &else_branch.as_ref().unwrap().kind {
                ExprKind::Block(block) => {
                    assert!(block.statements.is_empty());
                    assert!(is_number(block.final_expr.as_ref().unwrap(), "2"));
                }
                _ => panic!("Expected block expression in else branch"),
            }
        }
        _ => panic!("Expected if expression"),
    }
}

#[test]
fn test_parse_let_statement() {
    let program = parse("let x = 42").unwrap();
    assert_eq!(program.statements.len(), 1);
    match &program.statements[0].kind {
        StmtKind::Let { name, type_ann, init } => {
            assert_eq!(name, "x");
            assert!(type_ann.is_none());
            assert!(is_number(init.as_ref().unwrap(), "42"));
        }
        _ => panic!("Expected let statement"),
    }
    let program = parse("let x: i32 = 42").unwrap();
    match &program.statements[0].kind {
        StmtKind::Let { name, type_ann, init } => {
            assert_eq!(name, "x");
            assert!(matches!(type_ann.as_ref().unwrap().kind, TypeKind::Named(ref s) if s == "i32"));
            assert!(is_number(init.as_ref().unwrap(), "42"));
        }
        _ => panic!("Expected let statement"),
    }
}

#[test]
fn test_parse_function_statement() {
    let program = parse("fn add(a: i32, b: i32) -> i32 { a + b }").unwrap();
    assert_eq!(program.statements.len(), 1);
    match &program.statements[0].kind {
        StmtKind::Function { name, params, ret_type, body, .. } => {
            assert_eq!(name, "add");
            assert_eq!(params.len(), 2);
            assert_eq!(params[0].name, "a");
            assert_eq!(params[1].name, "b");
            assert!(matches!(ret_type.as_ref().unwrap().kind, TypeKind::Named(ref s) if s == "i32"));
            assert!(body.statements.is_empty());
            assert!(body.final_expr.is_some());
        }
        _ => panic!("Expected function statement"),
    }
}

#[test]
fn test_parse_while_statement() {
    let program = parse("while x < 10 { x = x + 1 }").unwrap();
    assert_eq!(program.statements.len(), 1);
    match &program.statements[0].kind {
        StmtKind::While { condition, body } => {
            match &condition.kind {
                ExprKind::Binary { left, op, right } => {
                    assert!(matches!(left.kind, ExprKind::Identifier(ref s) if s == "x"));
                    assert_eq!(*op, BinaryOp::Less);
                    assert!(is_number(right, "10"));
                }
                _ => panic!("Expected binary expression"),
            }
            assert_eq!(body.statements.len(), 0);
            assert!(body.final_expr.is_some());
        }
        _ => panic!("Expected while statement"),
    }
}

#[test]
fn test_parse_return_statement() {
    let program = parse("return 42").unwrap();
    assert_eq!(program.statements.len(), 1);
    match &program.statements[0].kind {
        StmtKind::Return(expr) => assert!(is_number(expr.as_ref().unwrap(), "42")),
        _ => panic!("Expected return statement"),
    }
    let program = parse("return").unwrap();
    match &program.statements[0].kind {
        StmtKind::Return(expr) => assert!(expr.is_none()),
        _ => panic!("Expected return statement"),
    }
}

#[test]
fn test_parse_assignment() {
    let expr = parse_expr("x = 42").unwrap();
    match &expr.kind {
        ExprKind::Assign { target, value } => {
            assert!(matches!(target.kind, ExprKind::Identifier(ref s) if s == "x"));
            assert!(is_number(value, "42"));
        }
        _ => panic!("Expected assignment expression"),
    }
    let expr = parse_expr("x = y = 42").unwrap();
    match &expr.kind {
        ExprKind::Assign { target, value } => {
            assert!(matches!(target.kind, ExprKind::Identifier(ref s) if s == "x"));
            match &value.kind {
                ExprKind::Assign { target, value } => {
                    assert!(matches!(target.kind, ExprKind::Identifier(ref s) if s == "y"));
                    assert!(is_number(value, "42"));
                }
                _ => panic!("Expected assignment expression"),
            }
        }
        _ => panic!("Expected assignment expression"),
    }
}

#[test]
fn test_parse_block_expression() {
    let expr = parse_expr("{ let x = 1; x + 1 }").unwrap();
    match &expr.kind {
        ExprKind::Block(block) => {
            assert_eq!(block.statements.len(), 1);
            assert!(block.final_expr.is_some());
        }
        _ => panic!("Expected block expression"),
    }
}

#[test]
fn test_parse_complex_expression() {
    let expr = parse_expr("foo(1 + 2 * 3, bar[0].baz) && !false || true").unwrap();
    match &expr.kind {
        ExprKind::Binary { left, op, right } => {
            assert_eq!(*op, BinaryOp::Or);
            assert!(matches!(right.kind, ExprKind::Literal(Literal::Boolean(true))));
            match &left.kind {
                ExprKind::Binary { left, op, right } => {
                    assert_eq!(*op, BinaryOp::And);
                    match &left.kind {
                        ExprKind::Call { callee, args } => {
                            assert!(matches!(callee.kind, ExprKind::Identifier(ref s) if s == "foo"));
                            assert_eq!(args.len(), 2);
                        }
                        _ => panic!("Expected call expression"),
                    }
                    match &right.kind {
                        ExprKind::Unary { op, expr } => {
                            assert_eq!(*op, UnaryOp::Not);
                            assert!(matches!(expr.kind, ExprKind::Literal(Literal::Boolean(false))));
                        }
                        _ => panic!("Expected unary expression"),
                    }
                }
                _ => panic!("Expected binary expression"),
            }
        }
        _ => panic!("Expected binary expression"),
    }
}

#[test]
fn test_parse_type_annotations() {
    let program = parse("let x: i32").unwrap();
    match &program.statements[0].kind {
        StmtKind::Let { type_ann, .. } => {
            assert!(matches!(type_ann.as_ref().unwrap().kind, TypeKind::Named(ref s) if s == "i32"));
        }
        _ => panic!("Expected let statement"),
    }
    let program = parse("let arr: [i32]").unwrap();
    match &program.statements[0].kind {
        StmtKind::Let { type_ann, .. } => match &type_ann.as_ref().unwrap().kind {
            TypeKind::Array(elem) => assert!(matches!(elem.kind, TypeKind::Named(ref s) if s == "i32")),
            _ => panic!("Expected array type"),
        },
        _ => panic!("Expected let statement"),
    }
    let program = parse("let f: (i32, i32) -> i32").unwrap();
    match &program.statements[0].kind {
        StmtKind::Let { type_ann, .. } => match &type_ann.as_ref().unwrap().kind {
            TypeKind::Function { params, ret } => {
                assert_eq!(params.len(), 2);
                assert!(matches!(ret.kind, TypeKind::Named(ref s) if s == "i32"));
            }
            _ => panic!("Expected function type"),
        },
        _ => panic!("Expected let statement"),
    }
}

fn named(spec: &ImportSpecifier) -> (String, Option<String>) {
    match spec {
        ImportSpecifier::Named { name, alias } => (name.clone(), alias.clone()),
        _ => panic!("Expected named import"),
    }
}

#[test]
fn test_parse_import_named() {
    let program = parse("import { foo, bar } from \"./module\"").unwrap();
    assert_eq!(program.statements.len(), 1);
    match &program.statements[0].kind {
        StmtKind::Import { imports, module } => {
            assert_eq!(module, "./module");
            assert_eq!(imports.len(), 2);
            assert_eq!(named(&imports[0]), ("foo".to_string(), None));
            assert_eq!(named(&imports[1]), ("bar".to_string(), None));
        }
        _ => panic!("Expected import statement"),
    }
}

#[test]
fn test_parse_import_aliased() {
    let program = parse("import { foo as f, bar as b } from \"./module\"").unwrap();
    assert_eq!(program.statements.len(), 1);
    match &program.statements[0].kind {
        StmtKind::Import { imports, module } => {
            assert_eq!(module, "./module");
            assert_eq!(imports.len(), 2);
            assert_eq!(named(&imports[0]), ("foo".to_string(), Some("f".to_string())));
            assert_eq!(named(&imports[1]), ("bar".to_string(), Some("b".to_string())));
        }
        _ => panic!("Expected import statement"),
    }
}

#[test]
fn test_parse_import_namespace() {
    let program = parse("import * as utils from \"./utils\"").unwrap();
    assert_eq!(program.statements.len(), 1);
    match &program.statements[0].kind {
        StmtKind::Import { imports, module } => {
            assert_eq!(module, "./utils");
            assert_eq!(imports.len(), 1);
            match &imports[0] {
                ImportSpecifier::Namespace { alias } => assert_eq!(alias, "utils"),
                _ => panic!("Expected namespace import"),
            }
        }
        _ => panic!("Expected import statement"),
    }
}

#[test]
fn test_parse_import_mixed_aliasing() {
    let program = parse("import { foo, bar as baz } from \"./module\"").unwrap();
    assert_eq!(program.statements.len(), 1);
    match &program.statements[0].kind {
        StmtKind::Import { imports, module } => {
            assert_eq!(module, "./module");
            assert_eq!(imports.len(), 2);
            assert_eq!(named(&imports[0]), ("foo".to_string(), None));
            assert_eq!(named(&imports[1]), ("bar".to_string(), Some("baz".to_string())));
        }
        _ => panic!("Expected import statement"),
    }
}

#[test]
fn test_parse_import_default() {
    let program = parse("import defaultExport from \"./module\"").unwrap();
    assert_eq!(program.statements.len(), 1);
    match &program.statements[0].kind {
        StmtKind::Import { imports, module } => {
            assert_eq!(module, "./module");
            assert_eq!(imports.len(), 1);
            match &imports[0] {
                ImportSpecifier::Default { name } => assert_eq!(name, "defaultExport"),
                _ => panic!("Expected default import"),
            }
        }
        _ => panic!("Expected import statement"),
    }
}

#[test]
fn test_parse_export_named() {
    let program = parse("export { foo, bar as baz }").unwrap();
    assert_eq!(program.statements.len(), 1);
    match &program.statements[0].kind {
        StmtKind::Export { export: ExportKind::Named { specifiers } } => {
            assert_eq!(specifiers.len(), 2);
            assert_eq!(specifiers[0].name, "foo");
            assert_eq!(specifiers[0].alias, None);
            assert_eq!(specifiers[1].name, "bar");
            assert_eq!(specifiers[1].alias, Some("baz".to_string()));
        }
        _ => panic!("Expected named export"),
    }
}

#[test]
fn test_parse_export_function() {
    let program = parse("export fn add(a: number, b: number) -> number { a + b }").unwrap();
    assert_eq!(program.statements.len(), 1);
    match &program.statements[0].kind {
        StmtKind::Export { export: ExportKind::Function { name, params, ret_type, .. } } => {
            assert_eq!(name, "add");
            assert_eq!(params.len(), 2);
            assert_eq!(params[0].name, "a");
            assert_eq!(params[1].name, "b");
            assert!(ret_type.is_some());
        }
        _ => panic!("Expected function export"),
    }
}

#[test]
fn test_parse_export_variable() {
    let program = parse("export let myValue: number = 42").unwrap();
    assert_eq!(program.statements.len(), 1);
    match &program.statements[0].kind {
        StmtKind::Export { export: ExportKind::Variable { name, type_ann, init } } => {
            assert_eq!(name, "myValue");
            assert!(type_ann.is_some());
            assert!(init.is_some());
        }
        _ => panic!("Expected variable export"),
    }
}

#[test]
fn test_parse_export_default() {
    let program = parse("export default 42").unwrap();
    assert_eq!(program.statements.len(), 1);
    match &program.statements[0].kind {
        StmtKind::Export { export: ExportKind::Default { expr } } => assert!(is_number(expr, "42")),
        _ => panic!("Expected default export"),
    }
}

#[test]
fn test_parse_import_export_mixed() {
    let program = parse(
        r#"
        import { Component } from "./components"
        export fn render() { Component() }
        export default "1.0"
    "#,
    )
    .unwrap();
    assert_eq!(program.statements.len(), 3);
    match &program.statements[0].kind {
        StmtKind::Import { imports, module } => {
            assert_eq!(module, "./components");
            assert_eq!(imports.len(), 1);
        }
        _ => panic!("Expected import statement"),
    }
    match &program.statements[1].kind {
        StmtKind::Export { export: ExportKind::Function { name, .. } } => assert_eq!(name, "render"),
        _ => panic!("Expected function export"),
    }
    match &program.statements[2].kind {
        StmtKind::Export { export: ExportKind::Default { .. } } => {}
        _ => panic!("Expected default export"),
    }
}

#[test]
fn test_import_error_cases() {
    assert!(parse("import { foo }").is_err());
    assert!(parse("import { foo } from").is_err());
    assert!(parse("import * foo from \"./module\"").is_err());
    assert!(parse("import { foo from \"./module\"").is_err());
}

#[test]
fn test_export_error_cases() {
    assert!(parse("export").is_err());
    assert!(parse("export fn test()").is_err());
    assert!(parse("export { foo").is_err());
}

#[test]
fn test_parse_attributes() {
    let program = parse("@derive(Debug)\nfn foo() {}").unwrap();
    assert_eq!(program.statements.len(), 1);
    let stmt = &program.statements[0];
    assert_eq!(stmt.attributes.len(), 1);
    assert_eq!(stmt.attributes[0].name, "derive");
    assert_eq!(stmt.attributes[0].args, vec!["Debug"]);

    let program = parse("@derive(Debug, Serialize)\n@const\nfn bar() { 42 }").unwrap();
    assert_eq!(program.statements.len(), 1);
    let stmt = &program.statements[0];
    assert_eq!(stmt.attributes.len(), 2);
    assert_eq!(stmt.attributes[0].name, "derive");
    assert_eq!(stmt.attributes[0].args, vec!["Debug", "Serialize"]);
    assert_eq!(stmt.attributes[1].name, "const");
    assert_eq!(stmt.attributes[1].args.len(), 0);

    let program = parse("@const\nlet x = 42").unwrap();
    assert_eq!(program.statements.len(), 1);
    let stmt = &program.statements[0];
    assert_eq!(stmt.attributes.len(), 1);
    assert_eq!(stmt.attributes[0].name, "const");
}

#[test]
fn test_parse_list_comprehensions() {
    let expr = parse_expr("[x * 2 for x in nums]").unwrap();
    match expr.kind {
        ExprKind::ListComprehension { element, variable, iterable, condition } => {
            assert_eq!(variable, "x");
            assert!(matches!(element.kind, ExprKind::Binary { .. }));
            assert!(matches!(iterable.kind, ExprKind::Identifier(ref s) if s == "nums"));
            assert!(condition.is_none());
        }
        other => panic!("Expected list comprehension, got {:?}", other),
    }
    let expr = parse_expr("[x * 2 for x in nums if x > 0]").unwrap();
    match expr.kind {
        ExprKind::ListComprehension { element, variable, iterable, condition } => {
            assert_eq!(variable, "x");
            assert!(matches!(element.kind, ExprKind::Binary { .. }));
            assert!(matches!(iterable.kind, ExprKind::Identifier(ref s) if s == "nums"));
            assert!(matches!(condition.unwrap().kind, ExprKind::Binary { .. }));
        }
        other => panic!("Expected list comprehension, got {:?}", other),
    }
    let expr = parse_expr("[y + 1 for y in [1, 2, 3] if y != 2]").unwrap();
    match expr.kind {
        ExprKind::ListComprehension { element, variable, iterable, condition } => {
            assert_eq!(variable, "y");
            assert!(matches!(element.kind, ExprKind::Binary { .. }));
            assert!(matches!(iterable.kind, ExprKind::Array(_)));
            assert!(condition.is_some());
        }
        other => panic!("Expected list comprehension, got {:?}", other),
    }
}

#[test]
fn test_parse_regular_arrays_vs_comprehensions() {
    let expr = parse_expr("[1, 2, 3]").unwrap();
    assert!(matches!(expr.kind, ExprKind::Array(ref elements) if elements.len() == 3));
    let expr = parse_expr("[]").unwrap();
    assert!(matches!(expr.kind, ExprKind::Array(ref elements) if elements.is_empty()));
    let expr = parse_expr("[1, 2, 3,]").unwrap();
    assert!(matches!(expr.kind, ExprKind::Array(ref elements) if elements.len() == 3));
}

fn let_type(src: &str) -> TypeKind {
    let program = parse(src).unwrap();
    match program.statements.into_iter().next().unwrap().kind {
        StmtKind::Let { type_ann, .. } => type_ann.unwrap().kind,
        _ => panic!("Expected let statement"),
    }
}

#[test]
fn test_parse_generic_type_basic() {
    match let_type("let v: Vec<i32>") {
        TypeKind::Generic { name, args } => {
            assert_eq!(name, "Vec");
            assert_eq!(args.len(), 1);
            assert!(matches!(&args[0].kind, TypeKind::Named(n) if n == "i32"));
        }
        other => panic!("Expected generic type, got {:?}", other),
    }
}

#[test]
fn test_parse_generic_type_multiple_args() {
    match let_type("let map: HashMap<String, i32>") {
        TypeKind::Generic { name, args } => {
            assert_eq!(name, "HashMap");
            assert_eq!(args.len(), 2);
            assert!(matches!(&args[0].kind, TypeKind::Named(n) if n == "String"));
            assert!(matches!(&args[1].kind, TypeKind::Named(n) if n == "i32"));
        }
        _ => panic!("Expected generic type"),
    }
}

#[test]
fn test_parse_generic_type_with_type_params() {
    match let_type("let result: Result<T, E>") {
        TypeKind::Generic { name, args } => {
            assert_eq!(name, "Result");
            assert_eq!(args.len(), 2);
            assert!(matches!(&args[0].kind, TypeKind::TypeParam(n) if n == "T"));
            assert!(matches!(&args[1].kind, TypeKind::TypeParam(n) if n == "E"));
        }
        _ => panic!("Expected generic type"),
    }
}

fn generic(kind: &TypeKind) -> (&str, &Vec<script::parser::ast::TypeAnn>) {
    match kind {
        TypeKind::Generic { name, args } => (name.as_str(), args),
        other => panic!("Expected generic type, got {:?}", other),
    }
}

#[test]
fn test_parse_nested_generic_types() {
    let t = let_type("let opt: Option<Vec<i32>>");
    let (name, args) = generic(&t);
    assert_eq!(name, "Option");
    assert_eq!(args.len(), 1);
    let (name, args) = generic(&args[0].kind);
    assert_eq!(name, "Vec");
    assert_eq!(args.len(), 1);
    assert!(matches!(&args[0].kind, TypeKind::Named(n) if n == "i32"));
}

#[test]
fn test_parse_deeply_nested_generics() {
    let t = let_type("let complex: Result<HashMap<String, Vec<Option<T>>>, Error>");
    let (name, args) = generic(&t);
    assert_eq!(name, "Result");
    assert_eq!(args.len(), 2);
    let (name, inner) = generic(&args[0].kind);
    assert_eq!(name, "HashMap");
    assert_eq!(inner.len(), 2);
    assert!(matches!(&inner[0].kind, TypeKind::Named(n) if n == "String"));
    let (name, vec_args) = generic(&inner[1].kind);
    assert_eq!(name, "Vec");
    assert_eq!(vec_args.len(), 1);
    let (name, opt_args) = generic(&vec_args[0].kind);
    assert_eq!(name, "Option");
    assert_eq!(opt_args.len(), 1);
    assert!(matches!(&opt_args[0].kind, TypeKind::TypeParam(n) if n == "T"));
    assert!(matches!(&args[1].kind, TypeKind::Named(n) if n == "Error"));
}

#[test]
fn test_parse_generic_empty_args() {
    let t = let_type("let v: Vec<>");
    let (name, args) = generic(&t);
    assert_eq!(name, "Vec");
    assert_eq!(args.len(), 0);
}

#[test]
fn test_parse_generic_trailing_comma() {
    let t = let_type("let map: HashMap<K, V,>");
    let (name, args) = generic(&t);
    assert_eq!(name, "HashMap");
    assert_eq!(args.len(), 2);
    assert!(matches!(&args[0].kind, TypeKind::TypeParam(n) if n == "K"));
    assert!(matches!(&args[1].kind, TypeKind::TypeParam(n) if n == "V"));
}

#[test]
fn test_parse_generic_whitespace_handling() {
    let t = let_type("let v: Vec< i32 >");
    let (name, args) = generic(&t);
    assert_eq!(name, "Vec");
    assert_eq!(args.len(), 1);
    assert!(matches!(&args[0].kind, TypeKind::Named(n) if n == "i32"));
    let t = let_type("let map: HashMap<String,  i32>");
    let (name, args) = generic(&t);
    assert_eq!(name, "HashMap");
    assert_eq!(args.len(), 2);
}

#[test]
fn test_parse_generic_in_function_params() {
    let program = parse("fn process(data: Vec<T>, map: HashMap<K, V>) {}").unwrap();
    match &program.statements[0].kind {
        StmtKind::Function { params, .. } => {
            assert_eq!(params.len(), 2);
            let (name, args) = generic(&params[0].type_ann.kind);
            assert_eq!(name, "Vec");
            assert_eq!(args.len(), 1);
            assert!(matches!(&args[0].kind, TypeKind::TypeParam(n) if n == "T"));
            let (name, args) = generic(&params[1].type_ann.kind);
            assert_eq!(name, "HashMap");
            assert_eq!(args.len(), 2);
            assert!(matches!(&args[0].kind, TypeKind::TypeParam(n) if n == "K"));
            assert!(matches!(&args[1].kind, TypeKind::TypeParam(n) if n == "V"));
        }
        _ => panic!("Expected function statement"),
    }
}

#[test]
fn test_parse_generic_in_function_return() {
    let program = parse("fn get_items() -> Vec<String> { [] }").unwrap();
    match &program.statements[0].kind {
        StmtKind::Function { ret_type, .. } => {
            let (name, args) = generic(&ret_type.as_ref().unwrap().kind);
            assert_eq!(name, "Vec");
            assert_eq!(args.len(), 1);
            assert!(matches!(&args[0].kind, TypeKind::Named(n) if n == "String"));
        }
        _ => panic!("Expected function statement"),
    }
}

#[test]
fn test_parse_generic_constructors() {
    let expr = parse_expr("Vec<i32>()").unwrap();
    match &expr.kind {
        ExprKind::Call { callee, args } => {
            assert!(args.is_empty());
            match &callee.kind {
                ExprKind::GenericConstructor { name, type_args } => {
                    assert_eq!(name, "Vec");
                    assert_eq!(type_args.len(), 1);
                    assert!(matches!(&type_args[0].kind, TypeKind::Named(n) if n == "i32"));
                }
                other => panic!("Expected generic constructor, got {:?}", other),
            }
        }
        _ => panic!("Expected call expression"),
    }
    let expr = parse_expr("HashMap<String, i32>(capacity)").unwrap();
    match &expr.kind {
        ExprKind::Call { callee, args } => {
            assert_eq!(args.len(), 1);
            match &callee.kind {
                ExprKind::GenericConstructor { name, type_args } => {
                    assert_eq!(name, "HashMap");
                    assert_eq!(type_args.len(), 2);
                }
                _ => panic!("Expected generic constructor"),
            }
        }
        _ => panic!("Expected call expression"),
    }
}

#[test]
fn test_parse_type_parameter_patterns() {
    let patterns = vec![
        ("T", true),
        ("U", true),
        ("K", true),
        ("V", true),
        ("E", true),
        ("R", true),
        ("TKey", true),
        ("TValue", true),
        ("TItem", true),
        ("String", false),
        ("i32", false),
        ("MyType", false),
    ];
    for (ty_name, should_be_param) in patterns {
        let t = let_type(&format!("let x: {}", ty_name));
        if should_be_param {
            assert!(matches!(&t, TypeKind::TypeParam(n) if n == ty_name), "{} should be TypeParam", ty_name);
        } else {
            assert!(matches!(&t, TypeKind::Named(n) if n == ty_name), "{} should be Named", ty_name);
        }
    }
}

#[test]
fn test_parse_generic_in_array_type() {
    match let_type("let arr: [Option<T>]") {
        TypeKind::Array(elem) => {
            let (name, args) = generic(&elem.kind);
            assert_eq!(name, "Option");
            assert_eq!(args.len(), 1);
            assert!(matches!(&args[0].kind, TypeKind::TypeParam(n) if n == "T"));
        }
        _ => panic!("Expected array type"),
    }
}

#[test]
fn test_parse_generic_in_function_type() {
    match let_type("let callback: (Vec<T>) -> Option<U>") {
        TypeKind::Function { params, ret } => {
            assert_eq!(params.len(), 1);
            let (name, args) = generic(&params[0].kind);
            assert_eq!(name, "Vec");
            assert!(matches!(&args[0].kind, TypeKind::TypeParam(n) if n == "T"));
            let (name, args) = generic(&ret.kind);
            assert_eq!(name, "Option");
            assert!(matches!(&args[0].kind, TypeKind::TypeParam(n) if n == "U"));
        }
        _ => panic!("Expected function type"),
    }
}

#[test]
fn test_parse_generic_error_missing_closing_bracket() {
    assert!(parse("let v: Vec<i32").is_err());
    assert!(parse("let v: Vec<").is_err());
    assert!(parse("let v: HashMap<String, i32").is_err());
}

#[test]
fn test_parse_generic_error_invalid_syntax() {
    assert!(parse("let v: Vec<,>").is_err());
    assert!(parse("let v: Vec<i32,>").is_ok());
    assert!(parse("let v: Vec i32>").is_err());
    assert!(parse("let v: Vec<<i32>").is_err());
}

#[test]
fn test_parse_generic_error_invalid_type_args() {
    assert!(parse("let v: Vec<123>").is_err());
    assert!(parse("let v: Vec<!@#>").is_err());
    assert!(parse("let v: Vec<+>").is_err());
}

#[test]
fn test_parse_generic_mixed_with_regular_types() {
    let program = parse("fn transform(input: String, options: Config<T>) -> Result<String, Error> {}").unwrap();
    match &program.statements[0].kind {
        StmtKind::Function { params, ret_type, .. } => {
            assert!(matches!(&params[0].type_ann.kind, TypeKind::Named(n) if n == "String"));
            let (name, args) = generic(&params[1].type_ann.kind);
            assert_eq!(name, "Config");
            assert_eq!(args.len(), 1);
            let (name, args) = generic(&ret_type.as_ref().unwrap().kind);
            assert_eq!(name, "Result");
            assert_eq!(args.len(), 2);
            assert!(matches!(&args[0].kind, TypeKind::Named(n) if n == "String"));
            assert!(matches!(&args[1].kind, TypeKind::Named(n) if n == "Error"));
        }
        _ => panic!("Expected function statement"),
    }
}

#[test]
fn test_parse_generic_display_implementation() {
    let program = parse("let x: Vec<i32>").unwrap();
    assert!(program.statements[0].to_string().contains("Vec<i32>"));
    let program = parse("let map: HashMap<String, Vec<Option<T>>>").unwrap();
    assert!(program.statements[0].to_string().contains("HashMap<String, Vec<Option<T>>>"));
}

fn function_generics(src: &str) -> (Vec<(String, Vec<String>)>, usize) {
    let program = parse(src).unwrap();
    match &program.statements[0].kind {
        StmtKind::Function { generic_params, params, .. } => (
            generic_params
                .as_ref()
                .unwrap()
                .params
                .iter()
                .map(|p| (p.name.clone(), p.bounds.iter().map(|b| b.trait_name.clone()).collect()))
                .collect(),
            params.len(),
        ),
        _ => panic!("Expected function statement"),
    }
}

#[test]
fn test_parse_generic_function_simple() {
    let (generics, n) = function_generics("fn identity<T>(x: T) -> T { x }");
    assert_eq!(generics, vec![("T".to_string(), vec![])]);
    assert_eq!(n, 1);
}

#[test]
fn test_parse_generic_function_with_bounds() {
    let (generics, _) = function_generics("fn clone_it<T: Clone>(x: T) -> T { x }");
    assert_eq!(generics, vec![("T".to_string(), vec!["Clone".to_string()])]);
}

#[test]
fn test_parse_generic_function_multiple_bounds() {
    let (generics, _) = function_generics("fn process<T: Clone + Debug + Send>(x: T) {}");
    assert_eq!(
        generics,
        vec![("T".to_string(), vec!["Clone".to_string(), "Debug".to_string(), "Send".to_string()])]
    );
}

#[test]
fn test_parse_generic_function_multiple_params() {
    let program = parse("fn swap<T, U>(a: T, b: U) -> U { b }").unwrap();
    match &program.statements[0].kind {
        StmtKind::Function { name, generic_params, params, .. } => {
            assert_eq!(name, "swap");
            let generics = generic_params.as_ref().unwrap();
            assert_eq!(generics.params.len(), 2);
            assert_eq!(generics.params[0].name, "T");
            assert_eq!(generics.params[1].name, "U");
            assert_eq!(params.len(), 2);
            assert!(matches!(&params[0].type_ann.kind, TypeKind::TypeParam(n) if n == "T"));
            assert!(matches!(&params[1].type_ann.kind, TypeKind::TypeParam(n) if n == "U"));
        }
        _ => panic!("Expected function statement"),
    }
}

#[test]
fn test_parse_generic_function_mixed_bounds() {
    let (generics, n) = function_generics("fn complex<T: Clone, U: Debug + Send, V>(a: T, b: U, c: V) {}");
    assert_eq!(
        generics,
        vec![
            ("T".to_string(), vec!["Clone".to_string()]),
            ("U".to_string(), vec!["Debug".to_string(), "Send".to_string()]),
            ("V".to_string(), vec![]),
        ]
    );
    assert_eq!(n, 3);
}

#[test]
fn test_parse_generic_function_empty_params() {
    let (generics, n) = function_generics("fn weird<>() {}");
    assert!(generics.is_empty());
    assert_eq!(n, 0);
}

#[test]
fn test_parse_generic_function_trailing_comma() {
    let (generics, _) = function_generics("fn test<T,>(x: T) -> T { x }");
    assert_eq!(generics, vec![("T".to_string(), vec![])]);
}

#[test]
fn test_parse_generic_error_missing_closing() {
    assert!(parse("fn test<T(x: T) {}").is_err());
    assert!(parse("fn test<T, U(x: T) {}").is_err());
}

#[test]
fn test_parse_generic_function_error_invalid_syntax() {
    assert!(parse("fn test<>(x: T) {}").is_ok());
    assert!(parse("fn test<123>(x: T) {}").is_err());
    assert!(parse("fn test<T U>(x: T) {}").is_err());
}

#[test]
fn test_parse_generic_function_complex_usage() {
    let program = parse("fn map<T, U>(items: Vec<T>) -> Vec<U> { Vec<U>() }").unwrap();
    match &program.statements[0].kind {
        StmtKind::Function { name, generic_params, params, ret_type, .. } => {
            assert_eq!(name, "map");
            assert_eq!(generic_params.as_ref().unwrap().params.len(), 2);
            assert_eq!(params.len(), 1);
            let (n, args) = generic(&params[0].type_ann.kind);
            assert_eq!(n, "Vec");
            assert!(matches!(&args[0].kind, TypeKind::TypeParam(t) if t == "T"));
            let (n, args) = generic(&ret_type.as_ref().unwrap().kind);
            assert_eq!(n, "Vec");
            assert!(matches!(&args[0].kind, TypeKind::TypeParam(t) if t == "U"));
        }
        _ => panic!("Expected function statement"),
    }
}

#[test]
fn test_parse_generic_display() {
    let program = parse("fn test<T: Clone + Debug>(x: T) -> T { x }").unwrap();
    let stmt_str = program.statements[0].to_string();
    assert!(stmt_str.contains("fn test<T: Clone + Debug>"));
    assert!(stmt_str.contains("(x: T)"));
    assert!(stmt_str.contains("-> T"));
}

#[test]
fn test_parse_generic_async_function() {
    let program = parse("async fn fetch<T: Send>(url: string) -> T { await get(url) }").unwrap();
    match &program.statements[0].kind {
        StmtKind::Function { is_async, generic_params, .. } => {
            assert!(*is_async);
            let generics = generic_params.as_ref().unwrap();
            assert_eq!(generics.params.len(), 1);
            assert_eq!(generics.params[0].name, "T");
            assert_eq!(generics.params[0].bounds[0].trait_name, "Send");
        }
        _ => panic!("Expected function statement"),
    }
}

#[test]
fn statements_follow_their_first_token() {
    let program = parse("let a = 1\nfn f() {}\nasync fn g() {}\nreturn a\nwhile a { a }\nfor x in xs { x }\nstruct P { x: i32, y: i32 }\nenum E { A, B(i32), C { v: T } }\nf(a)").unwrap();
    assert_eq!(program.statements.len(), 9);
    assert!(matches!(program.statements[0].kind, StmtKind::Let { .. }));
    assert!(matches!(program.statements[1].kind, StmtKind::Function { is_async: false, .. }));
    assert!(matches!(program.statements[2].kind, StmtKind::Function { is_async: true, .. }));
    assert!(matches!(program.statements[3].kind, StmtKind::Return(Some(_))));
    assert!(matches!(program.statements[4].kind, StmtKind::While { .. }));
    assert!(matches!(program.statements[5].kind, StmtKind::For { .. }));
    match &program.statements[6].kind {
        StmtKind::Struct { name, fields, .. } => {
            assert_eq!(name, "P");
            assert_eq!(fields.len(), 2);
        }
        _ => panic!("Expected struct"),
    }
    match &program.statements[7].kind {
        StmtKind::Enum { name, variants, .. } => {
            assert_eq!(name, "E");
            assert_eq!(variants.len(), 3);
        }
        _ => panic!("Expected enum"),
    }
    assert!(matches!(program.statements[8].kind, StmtKind::Expression(_)));
}

#[test]
fn async_needs_fn() {
    let err = parse("async let x = 1").unwrap_err();
    assert_eq!(err.message, "Expected 'fn' after 'async'");
}

#[test]
fn match_arms_and_patterns() {
    let expr = parse_expr("match x { 0 => a, [p, _] | q => b, { k: v, w } => c }").unwrap();
    match &expr.kind {
        ExprKind::Match { arms, .. } => {
            assert_eq!(arms.len(), 3);
            assert!(matches!(&arms[0].pattern.kind, script::parser::ast::PatternKind::Literal(Literal::Number(n)) if n == "0"));
            assert!(matches!(&arms[1].pattern.kind, script::parser::ast::PatternKind::Or(ps) if ps.len() == 2));
            assert!(matches!(&arms[2].pattern.kind, script::parser::ast::PatternKind::Object(fs) if fs.len() == 2));
        }
        _ => panic!("Expected match expression"),
    }
}

#[test]
fn test_parse_tuple_type_basic() {
    match let_type("let point: (i32, i32)") {
        TypeKind::Tuple(types) => {
            assert_eq!(types.len(), 2);
            assert!(matches!(&types[0].kind, TypeKind::Named(n) if n == "i32"));
            assert!(matches!(&types[1].kind, TypeKind::Named(n) if n == "i32"));
        }
        other => panic!("Expected tuple type, got {:?}", other),
    }
}

#[test]
fn test_parse_tuple_type_multiple() {
    match let_type("let data: (string, bool, f32)") {
        TypeKind::Tuple(types) => {
            assert_eq!(types.len(), 3);
            assert!(matches!(&types[0].kind, TypeKind::Named(n) if n == "string"));
            assert!(matches!(&types[1].kind, TypeKind::Named(n) if n == "bool"));
            assert!(matches!(&types[2].kind, TypeKind::Named(n) if n == "f32"));
        }
        _ => panic!("Expected tuple type"),
    }
}

#[test]
fn test_parse_tuple_type_generic() {
    match let_type("let pair: (T, U)") {
        TypeKind::Tuple(types) => {
            assert_eq!(types.len(), 2);
            assert!(matches!(&types[0].kind, TypeKind::TypeParam(n) if n == "T"));
            assert!(matches!(&types[1].kind, TypeKind::TypeParam(n) if n == "U"));
        }
        _ => panic!("Expected tuple type"),
    }
}

#[test]
fn test_parse_reference_type() {
    match let_type("let x: &i32") {
        TypeKind::Reference { mutable, inner } => {
            assert!(!mutable);
            assert!(matches!(&inner.kind, TypeKind::Named(n) if n == "i32"));
        }
        other => panic!("Expected reference type, got {:?}", other),
    }
}

#[test]
fn test_parse_mutable_reference_type() {
    match let_type("let x: &mut string") {
        TypeKind::Reference { mutable, inner } => {
            assert!(mutable);
            assert!(matches!(&inner.kind, TypeKind::Named(n) if n == "string"));
        }
        _ => panic!("Expected reference type"),
    }
}

#[test]
fn test_parse_complex_tuple_reference() {
    match let_type("let x: &(Vec<T>, Option<U>)") {
        TypeKind::Reference { mutable, inner } => {
            assert!(!mutable);
            match &inner.kind {
                TypeKind::Tuple(types) => {
                    assert_eq!(types.len(), 2);
                    match &types[0].kind {
                        TypeKind::Generic { name, args } => {
                            assert_eq!(name, "Vec");
                            assert_eq!(args.len(), 1);
                            assert!(matches!(&args[0].kind, TypeKind::TypeParam(n) if n == "T"));
                        }
                        _ => panic!("Expected generic Vec<T>"),
                    }
                    match &types[1].kind {
                        TypeKind::Generic { name, args } => {
                            assert_eq!(name, "Option");
                            assert_eq!(args.len(), 1);
                            assert!(matches!(&args[0].kind, TypeKind::TypeParam(n) if n == "U"));
                        }
                        _ => panic!("Expected generic Option<U>"),
                    }
                }
                _ => panic!("Expected tuple type inside reference"),
            }
        }
        _ => panic!("Expected reference type"),
    }
}

#[test]
fn test_parse_function_vs_tuple_types() {
    match let_type("let f: (i32, i32) -> i32") {
        TypeKind::Function { params, ret } => {
            assert_eq!(params.len(), 2);
            assert!(matches!(&params[0].kind, TypeKind::Named(n) if n == "i32"));
            assert!(matches!(&params[1].kind, TypeKind::Named(n) if n == "i32"));
            assert!(matches!(&ret.kind, TypeKind::Named(n) if n == "i32"));
        }
        other => panic!("Expected function type, got {:?}", other),
    }
    match let_type("let t: (i32, i32)") {
        TypeKind::Tuple(types) => {
            assert_eq!(types.len(), 2);
            assert!(matches!(&types[0].kind, TypeKind::Named(n) if n == "i32"));
            assert!(matches!(&types[1].kind, TypeKind::Named(n) if n == "i32"));
        }
        other => panic!("Expected tuple type, got {:?}", other),
    }
}

#[test]
fn tuple_and_reference_types_print_back() {
    let tuple = parse("let t: (i32, bool)").unwrap();
    match &tuple.statements[0].kind {
        StmtKind::Let { type_ann, .. } => assert_eq!(type_ann.as_ref().unwrap().to_string(), "(i32, bool)"),
        _ => panic!("Expected let statement"),
    }
    let reference = parse("let r: &mut [i32]").unwrap();
    match &reference.statements[0].kind {
        StmtKind::Let { type_ann, .. } => assert_eq!(type_ann.as_ref().unwrap().to_string(), "&mut [i32]"),
        _ => panic!("Expected let statement"),
    }
}

#[test]
fn simple_if_without_else_has_its_block_as_branch() {
    let expr = parse_expr("if ready { x = 1; y }").unwrap();
    match &expr.kind {
        ExprKind::If { condition, then_branch, else_branch } => {
            assert!(matches!(&condition.kind, ExprKind::Identifier(n) if n == "ready"));
            assert!(else_branch.is_none());
            match &then_branch.kind {
                ExprKind::Block(block) => {
                    assert_eq!(block.statements.len(), 1);
                    assert!(matches!(&block.final_expr.as_ref().unwrap().kind, ExprKind::Identifier(n) if n == "y"));
                }
                _ => panic!("Expected block expression in then branch"),
            }
        }
        _ => panic!("Expected if expression"),
    }
    assert!(parse_expr("if ready x").is_err());
    assert!(parse_expr("match value x").is_err());
}

#[test]
fn simple_loops_and_returns_keep_their_parts() {
    let program = parse("while running { step }").unwrap();
    match &program.statements[0].kind {
        StmtKind::While { condition, body } => {
            assert!(matches!(&condition.kind, ExprKind::Identifier(n) if n == "running"));
            assert!(body.statements.is_empty());
            assert!(matches!(&body.final_expr.as_ref().unwrap().kind, ExprKind::Identifier(n) if n == "step"));
        }
        _ => panic!("Expected while statement"),
    }
    let program = parse("for item in items { total = total + item }").unwrap();
    match &program.statements[0].kind {
        StmtKind::For { variable, iterable, body } => {
            assert_eq!(variable, "item");
            assert!(matches!(&iterable.kind, ExprKind::Identifier(n) if n == "items"));
            assert!(matches!(&body.final_expr.as_ref().unwrap().kind, ExprKind::Assign { .. }));
        }
        _ => panic!("Expected for statement"),
    }
    assert!(parse("for 1 in items { x }").is_err());
    assert!(parse("for item of items { x }").is_err());
    assert!(parse("while running step").is_err());
    let program = parse("return a + 1").unwrap();
    match &program.statements[0].kind {
        StmtKind::Return(Some(e)) => assert!(matches!(&e.kind, ExprKind::Binary { op: BinaryOp::Add, .. })),
        _ => panic!("Expected return with a value"),
    }
    let program = parse("return;").unwrap();
    assert!(matches!(&program.statements[0].kind, StmtKind::Return(None)));
}

#[test]
fn simple_match_keeps_patterns_and_values_in_order() {
    let expr = parse_expr("match code {\n 1 => one,\n [a, _] => pair,\n _ => other\n}").unwrap();
    match &expr.kind {
        ExprKind::Match { expr: subject, arms } => {
            assert!(matches!(&subject.kind, ExprKind::Identifier(n) if n == "code"));
            assert_eq!(arms.len(), 3);
            assert!(arms.iter().all(|a| a.guard.is_none()));
            assert!(matches!(&arms[0].body.kind, ExprKind::Identifier(n) if n == "one"));
            assert!(matches!(&arms[1].body.kind, ExprKind::Identifier(n) if n == "pair"));
            assert!(matches!(&arms[2].body.kind, ExprKind::Identifier(n) if n == "other"));
            assert_eq!(arms[0].pattern.to_string(), "1");
            assert_eq!(arms[1].pattern.to_string(), "[a, _]");
            assert_eq!(arms[2].pattern.to_string(), "_");
        }
        _ => panic!("Expected match expression"),
    }
}

#[test]
fn if_with_small_branches() {
    let expr = parse_expr("if ok {} else { fallback }").unwrap();
    match &expr.kind {
        ExprKind::If { condition, then_branch, else_branch } => {
            assert!(matches!(&condition.kind, ExprKind::Identifier(n) if n == "ok"));
            match &then_branch.kind {
                ExprKind::Block(b) => assert!(b.statements.is_empty() && b.final_expr.is_none()),
                _ => panic!("Expected block expression in then branch"),
            }
            match &else_branch.as_ref().unwrap().kind {
                ExprKind::Block(b) => {
                    assert!(b.statements.is_empty());
                    assert!(matches!(&b.final_expr.as_ref().unwrap().kind, ExprKind::Identifier(n) if n == "fallback"));
                }
                _ => panic!("Expected block expression in else branch"),
            }
        }
        _ => panic!("Expected if expression"),
    }
    assert!(parse_expr("if ok { 1 } else 2").is_err());
    let chained = parse_expr("if a { 1 } else if b { 2 } else { 3 }").unwrap();
    match &chained.kind {
        ExprKind::If { else_branch, .. } => {
            assert!(matches!(&else_branch.as_ref().unwrap().kind, ExprKind::If { .. }))
        }
        _ => panic!("Expected if expression"),
    }
}

#[test]
fn small_bodies_parse_exactly_wherever_they_stand() {
    let program = parse("fn id(x: i32) -> i32 { x }\nwhile busy { }\nfor k in keys { k }\nlet after = 1").unwrap();
    assert_eq!(program.statements.len(), 4);
    match &program.statements[0].kind {
        StmtKind::Function { name, params, ret_type, body, is_async, .. } => {
            assert_eq!(name, "id");
            assert_eq!(params.len(), 1);
            assert!(ret_type.is_some());
            assert!(!is_async);
            assert!(body.statements.is_empty());
            assert!(matches!(&body.final_expr.as_ref().unwrap().kind, ExprKind::Identifier(n) if n == "x"));
        }
        _ => panic!("Expected function statement"),
    }
    match &program.statements[1].kind {
        StmtKind::While { body, .. } => assert!(body.statements.is_empty() && body.final_expr.is_none()),
        _ => panic!("Expected while statement"),
    }
    match &program.statements[2].kind {
        StmtKind::For { variable, body, .. } => {
            assert_eq!(variable, "k");
            assert!(body.final_expr.is_some());
        }
        _ => panic!("Expected for statement"),
    }
    assert!(matches!(&program.statements[3].kind, StmtKind::Let { .. }));
}

#[test]
fn exported_function_with_small_body_before_other_statements() {
    let program = parse("export async fn ping() { pong }\nlet after = 2").unwrap();
    assert_eq!(program.statements.len(), 2);
    match &program.statements[0].kind {
        StmtKind::Export { export: ExportKind::Function { name, params, ret_type, body, is_async } } => {
            assert_eq!(name, "ping");
            assert!(params.is_empty());
            assert!(ret_type.is_none());
            assert!(*is_async);
            assert!(matches!(&body.final_expr.as_ref().unwrap().kind, ExprKind::Identifier(n) if n == "pong"));
        }
        _ => panic!("Expected exported function"),
    }
}

#[test]
fn await_keeps_its_node_and_keywords_later_in_the_file_do_not_matter() {
    let program = parse("let a = await fetch(url)\nlet b = [1, 2,]\nfn f() { a }").unwrap();
    assert_eq!(program.statements.len(), 3);
    match &program.statements[0].kind {
        StmtKind::Let { name, init, .. } => {
            assert_eq!(name, "a");
            match &init.as_ref().unwrap().kind {
                ExprKind::Await { expr } => assert!(matches!(&expr.kind, ExprKind::Call { args, .. } if args.len() == 1)),
                _ => panic!("Expected await expression"),
            }
        }
        _ => panic!("Expected let statement"),
    }
    match &program.statements[1].kind {
        StmtKind::Let { init, .. } => {
            assert!(matches!(&init.as_ref().unwrap().kind, ExprKind::Array(es) if es.len() == 2))
        }
        _ => panic!("Expected let statement"),
    }
    assert!(matches!(&program.statements[2].kind, StmtKind::Function { .. }));
}

#[test]
fn unclosed_generic_parameters_report_the_missing_angle() {
    let err = parse("fn f<T U>() { x }").unwrap_err();
    assert_eq!(err.message(), "Expected '>' to close generic parameters");
}

#[test]
fn match_arms_with_guards() {
    let expr = parse_expr("match n { x if x > 1 => big, _ => small }").unwrap();
    match &expr.kind {
        ExprKind::Match { arms, .. } => {
            assert_eq!(arms.len(), 2);
            assert!(arms[0].guard.is_some());
            assert!(arms[1].guard.is_none());
        }
        _ => panic!("Expected match expression"),
    }
}
