//! The syntax tree of Script programs, and its rendering back to source
//! text.
use vstd::prelude::*;
use crate::parser::token::TokenKind;
use crate::source::Span;
use crate::text::{append_text, copy_text, join, join_texts, strings_view};

verus! {

/// Generic type parameter in function or struct definitions
#[derive(Debug, Clone, PartialEq)]
pub struct GenericParam {
    pub name: String,
    pub bounds: Vec<TraitBound>,
    pub span: Span,
}

/// Trait bound on a generic parameter
#[derive(Debug, Clone, PartialEq)]
pub struct TraitBound {
    pub trait_name: String,
    pub span: Span,
}

/// Collection of generic parameters
#[derive(Debug, Clone, PartialEq)]
pub struct GenericParams {
    pub params: Vec<GenericParam>,
    pub span: Span,
}

/// Field in a struct declaration
#[derive(Debug, PartialEq)]
pub struct StructField {
    pub name: String,
    pub type_ann: TypeAnn,
    pub span: Span,
}

/// Variant in an enum declaration
#[derive(Debug, PartialEq)]
pub struct EnumVariant {
    pub name: String,
    pub fields: EnumVariantFields,
    pub span: Span,
}

/// Different kinds of enum variant fields
#[derive(Debug, PartialEq)]
pub enum EnumVariantFields {
    /// Unit variant: `None`
    Unit,
    /// Tuple variant: `Some(T)`
    Tuple(Vec<TypeAnn>),
    /// Struct variant: `Point { x: i32, y: i32 }`
    Struct(Vec<StructField>),
}

/// A whole program: its statements in order
#[derive(Debug, PartialEq)]
pub struct Program {
    pub statements: Vec<Stmt>,
}

/// An attribute on a statement: `@name(args)`
#[derive(Debug, Clone, PartialEq)]
pub struct Attribute {
    pub name: String,
    pub args: Vec<String>,
    pub span: Span,
}

/// A statement with its attributes
#[derive(Debug, PartialEq)]
pub struct Stmt {
    pub kind: StmtKind,
    pub span: Span,
    pub attributes: Vec<Attribute>,
}

/// The kinds of statements
#[derive(Debug, PartialEq)]
pub enum StmtKind {
    Let { name: String, type_ann: Option<TypeAnn>, init: Option<Expr> },
    Function {
        name: String,
        generic_params: Option<GenericParams>,
        params: Vec<Param>,
        ret_type: Option<TypeAnn>,
        body: Block,
        is_async: bool,
    },
    Return(Option<Expr>),
    Expression(Expr),
    While { condition: Expr, body: Block },
    For { variable: String, iterable: Expr, body: Block },
    Import { imports: ImportSpec, module: String },
    Export { export: ExportSpec },
    Struct { name: String, generic_params: Option<GenericParams>, fields: Vec<StructField> },
    Enum { name: String, generic_params: Option<GenericParams>, variants: Vec<EnumVariant> },
}

/// An expression
#[derive(Debug, PartialEq)]
pub struct Expr {
    pub kind: ExprKind,
    pub span: Span,
}

/// The kinds of expressions
#[derive(Debug, PartialEq)]
pub enum ExprKind {
    Literal(Literal),
    Identifier(String),
    Binary { left: Box<Expr>, op: BinaryOp, right: Box<Expr> },
    Unary { op: UnaryOp, expr: Box<Expr> },
    Call { callee: Box<Expr>, args: Vec<Expr> },
    Index { object: Box<Expr>, index: Box<Expr> },
    Member { object: Box<Expr>, property: String },
    If { condition: Box<Expr>, then_branch: Box<Expr>, else_branch: Option<Box<Expr>> },
    Block(Block),
    Array(Vec<Expr>),
    Assign { target: Box<Expr>, value: Box<Expr> },
    Match { expr: Box<Expr>, arms: Vec<MatchArm> },
    Await { expr: Box<Expr> },
    ListComprehension {
        element: Box<Expr>,
        variable: String,
        iterable: Box<Expr>,
        condition: Option<Box<Expr>>,
    },
    /// Generic constructor expression (e.g., Vec<i32>, HashMap<String, T>)
    GenericConstructor { name: String, type_args: Vec<TypeAnn> },
    /// Struct constructor expression (e.g., Point { x: 1, y: 2 })
    StructConstructor { name: String, fields: Vec<(String, Expr)> },
    /// Enum variant constructor (e.g., Some(5), None); no enum name for an
    /// unqualified variant
    EnumConstructor { enum_name: Option<String>, variant: String, args: EnumConstructorArgs },
}

/// Arguments for enum variant constructor
#[derive(Debug, PartialEq)]
pub enum EnumConstructorArgs {
    /// Unit variant: None
    Unit,
    /// Tuple variant: Some(5)
    Tuple(Vec<Expr>),
    /// Struct variant: Point { x: 1, y: 2 }
    Struct(Vec<(String, Expr)>),
}

/// A block: statements, then an optional final expression
#[derive(Debug, PartialEq)]
pub struct Block {
    pub statements: Vec<Stmt>,
    pub final_expr: Option<Box<Expr>>,
}

/// An arm of a match expression
#[derive(Debug, PartialEq)]
pub struct MatchArm {
    pub pattern: Pattern,
    pub guard: Option<Expr>,
    pub body: Expr,
}

/// A pattern
#[derive(Debug, PartialEq)]
pub struct Pattern {
    pub kind: PatternKind,
    pub span: Span,
}

/// The kinds of patterns
#[derive(Debug, PartialEq)]
pub enum PatternKind {
    Wildcard,
    Identifier(String),
    Literal(Literal),
    Array(Vec<Pattern>),
    Object(Vec<(String, Option<Pattern>)>),
    Or(Vec<Pattern>),
}

/// One name that an import brings in
#[derive(Debug, Clone, PartialEq)]
pub enum ImportSpecifier {
    /// Default import: import name from "module"
    Default { name: String },
    /// Named import: import { name as alias } from "module"
    Named { name: String, alias: Option<String> },
    /// Namespace import: import * as name from "module"
    Namespace { alias: String },
}

/// One name that a named export lists
#[derive(Debug, Clone, PartialEq)]
pub struct ExportSpecifier {
    pub name: String,
    pub alias: Option<String>,
}

/// What an export statement exports
#[derive(Debug, PartialEq)]
pub enum ExportKind {
    /// Named exports: export { a, b as c }
    Named { specifiers: Vec<ExportSpecifier> },
    /// Function export: export fn foo() {}
    Function { name: String, params: Vec<Param>, ret_type: Option<TypeAnn>, body: Block, is_async: bool },
    /// Variable export: export let x = 1
    Variable { name: String, type_ann: Option<TypeAnn>, init: Option<Expr> },
    /// Default export: export default expr
    Default { expr: Expr },
    /// Declaration export: export let x = 1 or export fn foo() {}
    Declaration(Box<Stmt>),
}

/// The names an import brings in
pub type ImportSpec = Vec<ImportSpecifier>;

/// What an export exports
pub type ExportSpec = ExportKind;

/// One name of a named export
pub type ExportItem = ExportSpecifier;

/// A function parameter and its type
#[derive(Debug, PartialEq)]
pub struct Param {
    pub name: String,
    pub type_ann: TypeAnn,
}

/// A type annotation
#[derive(Debug, PartialEq)]
pub struct TypeAnn {
    pub kind: TypeKind,
    pub span: Span,
}

/// The kinds of type annotations
#[derive(Debug, PartialEq)]
pub enum TypeKind {
    Named(String),
    Array(Box<TypeAnn>),
    Function { params: Vec<TypeAnn>, ret: Box<TypeAnn> },
    /// Generic type with type arguments (e.g., Vec<i32>, Map<string, i32>)
    Generic { name: String, args: Vec<TypeAnn> },
    /// Type parameter in generic context (e.g., T, U, K, V)
    TypeParam(String),
    /// Tuple type (e.g., (i32, string))
    Tuple(Vec<TypeAnn>),
    /// Reference type (e.g., &T, &mut T)
    Reference { mutable: bool, inner: Box<TypeAnn> },
}

/// A literal value. A number is held as its decimal rendering, the text
/// the program shows for it.
#[derive(Debug, Clone, PartialEq)]
pub enum Literal {
    Number(String),
    String(String),
    Boolean(bool),
    Null,
}

/// Binary operators
#[derive(Debug, Clone, Copy, PartialEq, Eq, Structural)]
pub enum BinaryOp {
    Add,
    Sub,
    Mul,
    Div,
    Mod,
    Equal,
    NotEqual,
    Less,
    Greater,
    LessEqual,
    GreaterEqual,
    And,
    Or,
}

/// Unary operators
#[derive(Debug, Clone, Copy, PartialEq, Eq, Structural)]
pub enum UnaryOp {
    Not,
    Minus,
}

// ---------------------------------------------------------------------
// Rendering: types, literals and operators
// ---------------------------------------------------------------------

/// The source text of a type annotation.
pub open spec fn type_text(t: TypeAnn) -> Seq<char>
    decreases t,
{
    match t.kind {
        TypeKind::Named(n) => n@,
        TypeKind::Array(e) => "["@ + type_text(*e) + "]"@,
        TypeKind::Function { params, ret } => "("@ + join(types_texts(params@), ", "@) + ") -> "@ + type_text(*ret),
        TypeKind::Generic { name, args } => if args@.len() == 0 {
            name@
        } else {
            name@ + "<"@ + join(types_texts(args@), ", "@) + ">"@
        },
        TypeKind::TypeParam(n) => n@,
        TypeKind::Tuple(ts) => "("@ + join(types_texts(ts@), ", "@) + ")"@,
        TypeKind::Reference { mutable, inner } => (if mutable {
            "&mut "@
        } else {
            "&"@
        }) + type_text(*inner),
    }
}

/// The source text of several type annotations, in order.
pub open spec fn types_texts(ts: Seq<TypeAnn>) -> Seq<Seq<char>>
    decreases ts,
{
    if ts.len() == 0 {
        Seq::empty()
    } else {
        types_texts(ts.drop_last()).push(type_text(ts.last()))
    }
}

/// Renders type annotations, one text each.
fn render_types(ts: &Vec<TypeAnn>) -> (r: Vec<String>)
    ensures
        strings_view(r@) == types_texts(ts@),
    decreases ts@,
{
    let mut out: Vec<String> = Vec::new();
    let mut i: usize = 0;
    assert(ts@.subrange(0, 0) =~= Seq::<TypeAnn>::empty());
    assert(strings_view(out@) =~= Seq::<Seq<char>>::empty());
    while i < ts.len()
        invariant
            i <= ts@.len(),
            strings_view(out@) == types_texts(ts@.subrange(0, i as int)),
        decreases ts@.len() - i,
    {
        let t = ts[i].to_string();
        out.push(t);
        assert(ts@.subrange(0, i + 1).drop_last() =~= ts@.subrange(0, i as int));
        assert(strings_view(out@) =~= types_texts(ts@.subrange(0, i + 1)));
        i = i + 1;
    }
    assert(ts@.subrange(0, i as int) =~= ts@);
    out
}

impl TypeAnn {
    /// The source text of this type annotation
    pub fn to_string(&self) -> (s: String)
        ensures
            s@ == type_text(*self),
        decreases self,
    {
        match &self.kind {
            TypeKind::Named(n) => copy_text(n.as_str()),
            TypeKind::Array(e) => {
                let inner = e.to_string();
                let mut s = copy_text("[");
                append_text(&mut s, inner.as_str());
                append_text(&mut s, "]");
                s
            },
            TypeKind::Function { params, ret } => {
                let parts = render_types(params);
                let joined = join_texts(&parts, ", ");
                let r = ret.to_string();
                let mut s = copy_text("(");
                append_text(&mut s, joined.as_str());
                append_text(&mut s, ") -> ");
                append_text(&mut s, r.as_str());
                s
            },
            TypeKind::Generic { name, args } => {
                if args.len() == 0 {
                    copy_text(name.as_str())
                } else {
                    let parts = render_types(args);
                    let joined = join_texts(&parts, ", ");
                    let mut s = copy_text(name.as_str());
                    append_text(&mut s, "<");
                    append_text(&mut s, joined.as_str());
                    append_text(&mut s, ">");
                    s
                }
            },
            TypeKind::TypeParam(n) => copy_text(n.as_str()),
            TypeKind::Tuple(ts) => {
                let parts = render_types(ts);
                let joined = join_texts(&parts, ", ");
                let mut s = copy_text("(");
                append_text(&mut s, joined.as_str());
                append_text(&mut s, ")");
                s
            },
            TypeKind::Reference { mutable, inner } => {
                let r = inner.to_string();
                let mut s = if *mutable {
                    copy_text("&mut ")
                } else {
                    copy_text("&")
                };
                append_text(&mut s, r.as_str());
                s
            },
        }
    }
}

// ---------------------------------------------------------------------
// Rendering: literals, operators, declarations' parts, patterns, imports
// ---------------------------------------------------------------------

/// The source text of a literal: a string in double quotes (not escaped).
pub open spec fn literal_text(l: Literal) -> Seq<char> {
    match l {
        Literal::Number(t) => t@,
        Literal::String(s) => "\""@ + s@ + "\""@,
        Literal::Boolean(b) => if b {
            "true"@
        } else {
            "false"@
        },
        Literal::Null => "null"@,
    }
}

/// The symbol of a binary operator.
pub open spec fn binary_op_text(op: BinaryOp) -> Seq<char> {
    match op {
        BinaryOp::Add => "+"@,
        BinaryOp::Sub => "-"@,
        BinaryOp::Mul => "*"@,
        BinaryOp::Div => "/"@,
        BinaryOp::Mod => "%"@,
        BinaryOp::Equal => "=="@,
        BinaryOp::NotEqual => "!="@,
        BinaryOp::Less => "<"@,
        BinaryOp::Greater => ">"@,
        BinaryOp::LessEqual => "<="@,
        BinaryOp::GreaterEqual => ">="@,
        BinaryOp::And => "&&"@,
        BinaryOp::Or => "||"@,
    }
}

/// The symbol of a unary operator.
pub open spec fn unary_op_text(op: UnaryOp) -> Seq<char> {
    match op {
        UnaryOp::Not => "!"@,
        UnaryOp::Minus => "-"@,
    }
}

/// `text` behind `before` when there is one, else nothing.
pub open spec fn opt_text(o: Option<Seq<char>>, before: Seq<char>) -> Seq<char> {
    match o {
        Some(t) => before + t,
        None => Seq::empty(),
    }
}

/// The names of trait bounds, in order.
pub open spec fn bounds_texts(bs: Seq<TraitBound>) -> Seq<Seq<char>> {
    Seq::new(bs.len(), |i: int| bs[i].trait_name@)
}

/// The source text of a generic parameter: its name, then its bounds
/// joined by ` + `.
pub open spec fn generic_param_text(p: GenericParam) -> Seq<char> {
    if p.bounds@.len() == 0 {
        p.name@
    } else {
        p.name@ + ": "@ + join(bounds_texts(p.bounds@), " + "@)
    }
}

/// The source text of generic parameters: `<` and `>` around them.
pub open spec fn generic_params_text(g: GenericParams) -> Seq<char> {
    "<"@ + join(Seq::new(g.params@.len(), |i: int| generic_param_text(g.params@[i])), ", "@) + ">"@
}

/// The source text of a struct field: `name: type`.
pub open spec fn struct_field_text(f: StructField) -> Seq<char> {
    f.name@ + ": "@ + type_text(f.type_ann)
}

/// The source texts of struct fields, each after a space.
pub open spec fn spaced_fields_texts(fs: Seq<StructField>) -> Seq<Seq<char>> {
    Seq::new(fs.len(), |i: int| " "@ + struct_field_text(fs[i]))
}

/// The source text of the fields of an enum variant on their own.
pub open spec fn variant_fields_text(f: EnumVariantFields) -> Seq<char> {
    match f {
        EnumVariantFields::Unit => Seq::empty(),
        EnumVariantFields::Tuple(ts) => "("@ + join(types_texts(ts@), ", "@) + ")"@,
        EnumVariantFields::Struct(fs) => "{"@ + join(spaced_fields_texts(fs@), ", "@) + " }"@,
    }
}

/// The source text of an enum variant: its name, then its fields.
pub open spec fn enum_variant_text(v: EnumVariant) -> Seq<char> {
    v.name@ + match v.fields {
        EnumVariantFields::Unit => Seq::empty(),
        EnumVariantFields::Tuple(ts) => "("@ + join(types_texts(ts@), ", "@) + ")"@,
        EnumVariantFields::Struct(fs) => " {"@ + join(spaced_fields_texts(fs@), ", "@) + " }"@,
    }
}

/// The source text of an attribute: `@name`, then its arguments in
/// parentheses when it has any.
pub open spec fn attribute_text(a: Attribute) -> Seq<char> {
    "@"@ + a.name@ + if a.args@.len() == 0 {
        Seq::empty()
    } else {
        "("@ + join(strings_view(a.args@), ", "@) + ")"@
    }
}

/// The source text of one imported name.
pub open spec fn import_specifier_text(s: ImportSpecifier) -> Seq<char> {
    match s {
        ImportSpecifier::Named { name, alias } => name@ + opt_text(
            match alias {
                Some(a) => Some(a@),
                None => None,
            },
            " as "@,
        ),
        ImportSpecifier::Namespace { alias } => "* as "@ + alias@,
        ImportSpecifier::Default { name } => name@,
    }
}

/// The source text of one exported name.
pub open spec fn export_specifier_text(s: ExportSpecifier) -> Seq<char> {
    s.name@ + match s.alias {
        Some(a) => " as "@ + a@,
        None => Seq::empty(),
    }
}

/// The names of the default imports, written one after the other.
pub open spec fn default_imports_text(imports: Seq<ImportSpecifier>) -> Seq<char>
    decreases imports.len(),
{
    if imports.len() == 0 {
        Seq::empty()
    } else {
        default_imports_text(imports.drop_last()) + match imports.last() {
            ImportSpecifier::Default { name } => name@,
            _ => Seq::empty(),
        }
    }
}

/// Whether some import is a default import.
pub open spec fn has_default_import(imports: Seq<ImportSpecifier>) -> bool {
    exists|i: int| 0 <= i < imports.len() && #[trigger] imports[i] is Default
}

/// The named imports, each as `name` or `name as alias`, in order.
pub open spec fn named_imports_texts(imports: Seq<ImportSpecifier>) -> Seq<Seq<char>>
    decreases imports.len(),
{
    if imports.len() == 0 {
        Seq::empty()
    } else {
        let rest = named_imports_texts(imports.drop_last());
        match imports.last() {
            ImportSpecifier::Named { name, alias } => rest.push(import_specifier_text(imports.last())),
            _ => rest,
        }
    }
}

/// The alias of the last namespace import, if any.
pub open spec fn namespace_import(imports: Seq<ImportSpecifier>) -> Option<Seq<char>>
    decreases imports.len(),
{
    if imports.len() == 0 {
        None
    } else {
        match imports.last() {
            ImportSpecifier::Namespace { alias } => Some(alias@),
            _ => namespace_import(imports.drop_last()),
        }
    }
}

/// The source text of an import statement: default names, then the named
/// imports in braces, then the namespace import, then the module.
pub open spec fn import_text(imports: Seq<ImportSpecifier>, module: Seq<char>) -> Seq<char> {
    let named = named_imports_texts(imports);
    let ns = namespace_import(imports);
    "import "@ + default_imports_text(imports) + (if has_default_import(imports) && (named.len() > 0 || ns is Some) {
        ", "@
    } else {
        Seq::empty()
    }) + (if named.len() > 0 {
        "{ "@ + join(named, ", "@) + " }"@ + (if ns is Some {
            ", "@
        } else {
            Seq::empty()
        })
    } else {
        Seq::empty()
    }) + opt_text(ns, "* as "@) + " from \""@ + module + "\""@
}

/// The source text of a pattern.
pub open spec fn pattern_text(p: Pattern) -> Seq<char>
    decreases p,
{
    match p.kind {
        PatternKind::Wildcard => "_"@,
        PatternKind::Identifier(n) => n@,
        PatternKind::Literal(l) => literal_text(l),
        PatternKind::Array(ps) => "["@ + join(patterns_texts(ps@), ", "@) + "]"@,
        PatternKind::Object(fs) => "{"@ + join(object_fields_texts(fs@), ", "@) + "}"@,
        PatternKind::Or(ps) => join(patterns_texts(ps@), " | "@),
    }
}

/// The source texts of patterns, in order.
pub open spec fn patterns_texts(ps: Seq<Pattern>) -> Seq<Seq<char>>
    decreases ps,
{
    if ps.len() == 0 {
        Seq::empty()
    } else {
        patterns_texts(ps.drop_last()).push(pattern_text(ps.last()))
    }
}

/// The source texts of the fields of an object pattern: `name` or
/// `name: pattern`.
pub open spec fn object_fields_texts(fs: Seq<(String, Option<Pattern>)>) -> Seq<Seq<char>>
    decreases fs,
{
    if fs.len() == 0 {
        Seq::empty()
    } else {
        object_fields_texts(fs.drop_last()).push(
            fs.last().0@ + match fs.last().1 {
                Some(p) => ": "@ + pattern_text(p),
                None => Seq::empty(),
            },
        )
    }
}

impl Literal {
    /// The source text of this literal
    pub fn to_string(&self) -> (s: String)
        ensures
            s@ == literal_text(*self),
    {
        match self {
            Literal::Number(t) => copy_text(t.as_str()),
            Literal::String(v) => {
                let mut s = copy_text("\"");
                append_text(&mut s, v.as_str());
                append_text(&mut s, "\"");
                s
            },
            Literal::Boolean(b) => if *b {
                copy_text("true")
            } else {
                copy_text("false")
            },
            Literal::Null => copy_text("null"),
        }
    }
}

impl BinaryOp {
    /// The symbol of this operator
    pub fn to_string(&self) -> (s: String)
        ensures
            s@ == binary_op_text(*self),
    {
        let op = match self {
            BinaryOp::Add => "+",
            BinaryOp::Sub => "-",
            BinaryOp::Mul => "*",
            BinaryOp::Div => "/",
            BinaryOp::Mod => "%",
            BinaryOp::Equal => "==",
            BinaryOp::NotEqual => "!=",
            BinaryOp::Less => "<",
            BinaryOp::Greater => ">",
            BinaryOp::LessEqual => "<=",
            BinaryOp::GreaterEqual => ">=",
            BinaryOp::And => "&&",
            BinaryOp::Or => "||",
        };
        copy_text(op)
    }
}

impl UnaryOp {
    /// The symbol of this operator
    pub fn to_string(&self) -> (s: String)
        ensures
            s@ == unary_op_text(*self),
    {
        match self {
            UnaryOp::Not => copy_text("!"),
            UnaryOp::Minus => copy_text("-"),
        }
    }
}

/// The binary operator a token stands for, if any.
pub open spec fn binary_op_of(t: TokenKind) -> Option<BinaryOp> {
    match t {
        TokenKind::Plus => Some(BinaryOp::Add),
        TokenKind::Minus => Some(BinaryOp::Sub),
        TokenKind::Star => Some(BinaryOp::Mul),
        TokenKind::Slash => Some(BinaryOp::Div),
        TokenKind::Percent => Some(BinaryOp::Mod),
        TokenKind::EqualsEquals => Some(BinaryOp::Equal),
        TokenKind::BangEquals => Some(BinaryOp::NotEqual),
        TokenKind::Less => Some(BinaryOp::Less),
        TokenKind::Greater => Some(BinaryOp::Greater),
        TokenKind::LessEquals => Some(BinaryOp::LessEqual),
        TokenKind::GreaterEquals => Some(BinaryOp::GreaterEqual),
        TokenKind::And => Some(BinaryOp::And),
        TokenKind::Or => Some(BinaryOp::Or),
        _ => None,
    }
}

/// The unary operator a token stands for, if any.
pub open spec fn unary_op_of(t: TokenKind) -> Option<UnaryOp> {
    match t {
        TokenKind::Bang => Some(UnaryOp::Not),
        TokenKind::Minus => Some(UnaryOp::Minus),
        _ => None,
    }
}

impl BinaryOp {
    /// The binary operator a token stands for, if any
    pub fn from_token(token: &TokenKind) -> (r: Option<BinaryOp>)
        ensures
            r == binary_op_of(*token),
    {
        match token {
            TokenKind::Plus => Some(BinaryOp::Add),
            TokenKind::Minus => Some(BinaryOp::Sub),
            TokenKind::Star => Some(BinaryOp::Mul),
            TokenKind::Slash => Some(BinaryOp::Div),
            TokenKind::Percent => Some(BinaryOp::Mod),
            TokenKind::EqualsEquals => Some(BinaryOp::Equal),
            TokenKind::BangEquals => Some(BinaryOp::NotEqual),
            TokenKind::Less => Some(BinaryOp::Less),
            TokenKind::Greater => Some(BinaryOp::Greater),
            TokenKind::LessEquals => Some(BinaryOp::LessEqual),
            TokenKind::GreaterEquals => Some(BinaryOp::GreaterEqual),
            TokenKind::And => Some(BinaryOp::And),
            TokenKind::Or => Some(BinaryOp::Or),
            _ => None,
        }
    }
}

impl UnaryOp {
    /// The unary operator a token stands for, if any
    pub fn from_token(token: &TokenKind) -> (r: Option<UnaryOp>)
        ensures
            r == unary_op_of(*token),
    {
        match token {
            TokenKind::Bang => Some(UnaryOp::Not),
            TokenKind::Minus => Some(UnaryOp::Minus),
            _ => None,
        }
    }
}

impl TraitBound {
    /// The name of the bound's trait
    pub fn to_string(&self) -> (s: String)
        ensures
            s@ == self.trait_name@,
    {
        copy_text(self.trait_name.as_str())
    }
}

impl GenericParam {
    /// The source text of this generic parameter
    pub fn to_string(&self) -> (s: String)
        ensures
            s@ == generic_param_text(*self),
    {
        if self.bounds.len() == 0 {
            return copy_text(self.name.as_str());
        }
        let mut parts: Vec<String> = Vec::new();
        let mut i: usize = 0;
        while i < self.bounds.len()
            invariant
                i <= self.bounds@.len(),
                parts@.len() == i,
                forall|k: int| 0 <= k < i ==> (#[trigger] parts@[k])@ == self.bounds@[k].trait_name@,
            decreases self.bounds@.len() - i,
        {
            parts.push(self.bounds[i].to_string());
            i = i + 1;
        }
        assert(strings_view(parts@) =~= bounds_texts(self.bounds@));
        let joined = join_texts(&parts, " + ");
        let mut s = copy_text(self.name.as_str());
        append_text(&mut s, ": ");
        append_text(&mut s, joined.as_str());
        s
    }
}

impl GenericParams {
    /// The source text of these generic parameters
    pub fn to_string(&self) -> (s: String)
        ensures
            s@ == generic_params_text(*self),
    {
        let mut parts: Vec<String> = Vec::new();
        let mut i: usize = 0;
        while i < self.params.len()
            invariant
                i <= self.params@.len(),
                parts@.len() == i,
                forall|k: int| 0 <= k < i ==> (#[trigger] parts@[k])@ == generic_param_text(self.params@[k]),
            decreases self.params@.len() - i,
        {
            parts.push(self.params[i].to_string());
            i = i + 1;
        }
        assert(strings_view(parts@) =~= Seq::new(
            self.params@.len(),
            |k: int| generic_param_text(self.params@[k]),
        ));
        let joined = join_texts(&parts, ", ");
        let mut s = copy_text("<");
        append_text(&mut s, joined.as_str());
        append_text(&mut s, ">");
        s
    }
}

impl StructField {
    /// The source text of this field
    pub fn to_string(&self) -> (s: String)
        ensures
            s@ == struct_field_text(*self),
    {
        let t = self.type_ann.to_string();
        let mut s = copy_text(self.name.as_str());
        append_text(&mut s, ": ");
        append_text(&mut s, t.as_str());
        s
    }
}

/// Renders struct fields, each after a space.
fn render_spaced_fields(fs: &Vec<StructField>) -> (r: Vec<String>)
    ensures
        strings_view(r@) == spaced_fields_texts(fs@),
{
    let mut parts: Vec<String> = Vec::new();
    let mut i: usize = 0;
    while i < fs.len()
        invariant
            i <= fs@.len(),
            parts@.len() == i,
            forall|k: int| 0 <= k < i ==> (#[trigger] parts@[k])@ == " "@ + struct_field_text(fs@[k]),
        decreases fs@.len() - i,
    {
        let f = fs[i].to_string();
        let mut t = copy_text(" ");
        append_text(&mut t, f.as_str());
        parts.push(t);
        i = i + 1;
    }
    assert(strings_view(parts@) =~= spaced_fields_texts(fs@));
    parts
}

impl EnumVariantFields {
    /// The source text of these variant fields on their own
    pub fn to_string(&self) -> (s: String)
        ensures
            s@ == variant_fields_text(*self),
    {
        match self {
            EnumVariantFields::Unit => String::new(),
            EnumVariantFields::Tuple(ts) => {
                let parts = render_types(ts);
                let joined = join_texts(&parts, ", ");
                let mut s = copy_text("(");
                append_text(&mut s, joined.as_str());
                append_text(&mut s, ")");
                s
            },
            EnumVariantFields::Struct(fs) => {
                let parts = render_spaced_fields(fs);
                let joined = join_texts(&parts, ", ");
                let mut s = copy_text("{");
                append_text(&mut s, joined.as_str());
                append_text(&mut s, " }");
                s
            },
        }
    }
}

impl EnumVariant {
    /// The source text of this variant
    pub fn to_string(&self) -> (s: String)
        ensures
            s@ == enum_variant_text(*self),
    {
        let mut s = copy_text(self.name.as_str());
        match &self.fields {
            EnumVariantFields::Unit => {},
            EnumVariantFields::Tuple(ts) => {
                let parts = render_types(ts);
                let joined = join_texts(&parts, ", ");
                append_text(&mut s, "(");
                append_text(&mut s, joined.as_str());
                append_text(&mut s, ")");
            },
            EnumVariantFields::Struct(fs) => {
                let parts = render_spaced_fields(fs);
                let joined = join_texts(&parts, ", ");
                append_text(&mut s, " {");
                append_text(&mut s, joined.as_str());
                append_text(&mut s, " }");
            },
        }
        assert(s@ =~= enum_variant_text(*self));
        s
    }
}

impl Attribute {
    /// The source text of this attribute
    pub fn to_string(&self) -> (s: String)
        ensures
            s@ == attribute_text(*self),
    {
        let mut s = copy_text("@");
        append_text(&mut s, self.name.as_str());
        if self.args.len() > 0 {
            let joined = join_texts(&self.args, ", ");
            append_text(&mut s, "(");
            append_text(&mut s, joined.as_str());
            append_text(&mut s, ")");
        }
        assert(s@ =~= attribute_text(*self));
        s
    }
}

impl ImportSpecifier {
    /// The source text of this imported name
    pub fn to_string(&self) -> (s: String)
        ensures
            s@ == import_specifier_text(*self),
    {
        match self {
            ImportSpecifier::Named { name, alias } => {
                let mut s = copy_text(name.as_str());
                if let Some(a) = alias {
                    append_text(&mut s, " as ");
                    append_text(&mut s, a.as_str());
                }
                assert(s@ =~= import_specifier_text(*self));
                s
            },
            ImportSpecifier::Namespace { alias } => {
                let mut s = copy_text("* as ");
                append_text(&mut s, alias.as_str());
                s
            },
            ImportSpecifier::Default { name } => copy_text(name.as_str()),
        }
    }
}

impl ExportSpecifier {
    /// The source text of this exported name
    pub fn to_string(&self) -> (s: String)
        ensures
            s@ == export_specifier_text(*self),
    {
        let mut s = copy_text(self.name.as_str());
        if let Some(a) = &self.alias {
            append_text(&mut s, " as ");
            append_text(&mut s, a.as_str());
        }
        assert(s@ =~= export_specifier_text(*self));
        s
    }
}

/// The source text of an import of `imports` from `module`.
fn render_import(imports: &Vec<ImportSpecifier>, module: &str) -> (s: String)
    ensures
        s@ == import_text(imports@, module@),
{
    let mut defaults = String::new();
    let mut named: Vec<String> = Vec::new();
    let mut namespace: Option<String> = None;
    let mut has_default = false;
    let mut i: usize = 0;
    assert(imports@.subrange(0, 0) =~= Seq::<ImportSpecifier>::empty());
    assert(strings_view(named@) =~= Seq::<Seq<char>>::empty());
    while i < imports.len()
        invariant
            i <= imports@.len(),
            defaults@ == default_imports_text(imports@.subrange(0, i as int)),
            strings_view(named@) == named_imports_texts(imports@.subrange(0, i as int)),
            has_default == has_default_import(imports@.subrange(0, i as int)),
            match namespace {
                Some(n) => namespace_import(imports@.subrange(0, i as int)) == Some(n@),
                None => namespace_import(imports@.subrange(0, i as int)) is None,
            },
        decreases imports@.len() - i,
    {
        let ghost pre = imports@.subrange(0, i as int);
        let ghost cur = imports@.subrange(0, i + 1);
        assert(cur.drop_last() =~= pre);
        assert(cur.last() == imports@[i as int]);
        match &imports[i] {
            ImportSpecifier::Default { name } => {
                append_text(&mut defaults, name.as_str());
                has_default = true;
                assert(cur[i as int] is Default);
            },
            ImportSpecifier::Named { name, alias } => {
                named.push(imports[i].to_string());
                assert(strings_view(named@) =~= named_imports_texts(cur));
            },
            ImportSpecifier::Namespace { alias } => {
                namespace = Some(copy_text(alias.as_str()));
                assert(defaults@ =~= default_imports_text(cur));
            },
        }
        assert(has_default == has_default_import(cur)) by {
            if has_default_import(pre) {
                let k = choose|k: int| 0 <= k < pre.len() && #[trigger] pre[k] is Default;
                assert(cur[k] == pre[k]);
            }
            if has_default_import(cur) {
                let k = choose|k: int| 0 <= k < cur.len() && #[trigger] cur[k] is Default;
                if k < pre.len() {
                    assert(pre[k] == cur[k]);
                }
            }
        }
        i = i + 1;
    }
    assert(imports@.subrange(0, i as int) =~= imports@);
    let mut s = copy_text("import ");
    append_text(&mut s, defaults.as_str());
    if has_default && (named.len() > 0 || namespace.is_some()) {
        append_text(&mut s, ", ");
    }
    if named.len() > 0 {
        let joined = join_texts(&named, ", ");
        append_text(&mut s, "{ ");
        append_text(&mut s, joined.as_str());
        append_text(&mut s, " }");
        if namespace.is_some() {
            append_text(&mut s, ", ");
        }
    }
    if let Some(a) = &namespace {
        append_text(&mut s, "* as ");
        append_text(&mut s, a.as_str());
    }
    append_text(&mut s, " from \"");
    append_text(&mut s, module);
    append_text(&mut s, "\"");
    assert(s@ =~= import_text(imports@, module@));
    s
}

impl Pattern {
    /// The source text of this pattern
    pub fn to_string(&self) -> (s: String)
        ensures
            s@ == pattern_text(*self),
        decreases self,
    {
        match &self.kind {
            PatternKind::Wildcard => copy_text("_"),
            PatternKind::Identifier(n) => copy_text(n.as_str()),
            PatternKind::Literal(l) => l.to_string(),
            PatternKind::Array(ps) => {
                let parts = render_patterns(ps);
                let joined = join_texts(&parts, ", ");
                let mut s = copy_text("[");
                append_text(&mut s, joined.as_str());
                append_text(&mut s, "]");
                s
            },
            PatternKind::Object(fs) => {
                let parts = render_object_fields(fs);
                let joined = join_texts(&parts, ", ");
                let mut s = copy_text("{");
                append_text(&mut s, joined.as_str());
                append_text(&mut s, "}");
                s
            },
            PatternKind::Or(ps) => {
                let parts = render_patterns(ps);
                join_texts(&parts, " | ")
            },
        }
    }
}

/// Renders patterns, one text each.
fn render_patterns(ps: &Vec<Pattern>) -> (r: Vec<String>)
    ensures
        strings_view(r@) == patterns_texts(ps@),
    decreases ps@,
{
    let mut out: Vec<String> = Vec::new();
    let mut i: usize = 0;
    assert(ps@.subrange(0, 0) =~= Seq::<Pattern>::empty());
    assert(strings_view(out@) =~= Seq::<Seq<char>>::empty());
    while i < ps.len()
        invariant
            i <= ps@.len(),
            strings_view(out@) == patterns_texts(ps@.subrange(0, i as int)),
        decreases ps@.len() - i,
    {
        let t = ps[i].to_string();
        out.push(t);
        assert(ps@.subrange(0, i + 1).drop_last() =~= ps@.subrange(0, i as int));
        assert(strings_view(out@) =~= patterns_texts(ps@.subrange(0, i + 1)));
        i = i + 1;
    }
    assert(ps@.subrange(0, i as int) =~= ps@);
    out
}

/// Renders the fields of an object pattern, one text each.
fn render_object_fields(fs: &Vec<(String, Option<Pattern>)>) -> (r: Vec<String>)
    ensures
        strings_view(r@) == object_fields_texts(fs@),
    decreases fs@,
{
    let mut out: Vec<String> = Vec::new();
    let mut i: usize = 0;
    assert(fs@.subrange(0, 0) =~= Seq::<(String, Option<Pattern>)>::empty());
    assert(strings_view(out@) =~= Seq::<Seq<char>>::empty());
    while i < fs.len()
        invariant
            i <= fs@.len(),
            strings_view(out@) == object_fields_texts(fs@.subrange(0, i as int)),
        decreases fs@.len() - i,
    {
        let mut t = copy_text(fs[i].0.as_str());
        if let Some(p) = &fs[i].1 {
            let pt = p.to_string();
            append_text(&mut t, ": ");
            append_text(&mut t, pt.as_str());
        }
        assert(t@ == fs@[i as int].0@ + match fs@[i as int].1 {
            Some(p) => ": "@ + pattern_text(p),
            None => Seq::<char>::empty(),
        });
        out.push(t);
        assert(fs@.subrange(0, i + 1).drop_last() =~= fs@.subrange(0, i as int));
        assert(fs@.subrange(0, i + 1).last() == fs@[i as int]);
        assert(strings_view(out@) =~= object_fields_texts(fs@.subrange(0, i + 1)));
        i = i + 1;
    }
    assert(fs@.subrange(0, i as int) =~= fs@);
    out
}

// ---------------------------------------------------------------------
// Rendering: expressions, blocks, statements, exports, programs
// ---------------------------------------------------------------------

/// The source texts of parameters: `name: type`.
pub open spec fn params_texts(ps: Seq<Param>) -> Seq<Seq<char>> {
    Seq::new(ps.len(), |i: int| ps[i].name@ + ": "@ + type_text(ps[i].type_ann))
}

/// The source texts of enum variants, each after a space.
pub open spec fn spaced_variants_texts(vs: Seq<EnumVariant>) -> Seq<Seq<char>> {
    Seq::new(vs.len(), |i: int| " "@ + enum_variant_text(vs[i]))
}

/// The source texts of exported names.
pub open spec fn export_specifiers_texts(ss: Seq<ExportSpecifier>) -> Seq<Seq<char>> {
    Seq::new(ss.len(), |i: int| export_specifier_text(ss[i]))
}

/// Attributes, each on a line of its own.
pub open spec fn attributes_lines(attrs: Seq<Attribute>) -> Seq<char>
    decreases attrs.len(),
{
    if attrs.len() == 0 {
        Seq::empty()
    } else {
        attributes_lines(attrs.drop_last()) + attribute_text(attrs.last()) + "\n"@
    }
}

/// `text` behind `before` for an optional type annotation.
pub open spec fn opt_type_text(t: Option<TypeAnn>, before: Seq<char>) -> Seq<char> {
    match t {
        Some(ty) => before + type_text(ty),
        None => Seq::empty(),
    }
}

/// The source text of optional generic parameters.
pub open spec fn opt_generics_text(g: Option<GenericParams>) -> Seq<char> {
    match g {
        Some(gp) => generic_params_text(gp),
        None => Seq::empty(),
    }
}

/// The source text of an expression.
pub open spec fn expr_text(e: Expr) -> Seq<char>
    decreases e,
{
    match e.kind {
        ExprKind::Literal(l) => literal_text(l),
        ExprKind::Identifier(n) => n@,
        ExprKind::Binary { left, op, right } => "("@ + expr_text(*left) + " "@ + binary_op_text(op) + " "@ + expr_text(
            *right,
        ) + ")"@,
        ExprKind::Unary { op, expr } => "("@ + unary_op_text(op) + expr_text(*expr) + ")"@,
        ExprKind::Call { callee, args } => expr_text(*callee) + "("@ + join(exprs_texts(args@), ", "@) + ")"@,
        ExprKind::Index { object, index } => expr_text(*object) + "["@ + expr_text(*index) + "]"@,
        ExprKind::Member { object, property } => expr_text(*object) + "."@ + property@,
        ExprKind::If { condition, then_branch, else_branch } => "if "@ + expr_text(*condition) + " { "@ + expr_text(
            *then_branch,
        ) + " }"@ + match else_branch {
            Some(x) => " else { "@ + expr_text(*x) + " }"@,
            None => Seq::empty(),
        },
        ExprKind::Block(b) => block_text(b),
        ExprKind::Array(es) => "["@ + join(exprs_texts(es@), ", "@) + "]"@,
        ExprKind::Assign { target, value } => expr_text(*target) + " = "@ + expr_text(*value),
        ExprKind::Match { expr, arms } => "match "@ + expr_text(*expr) + " { "@ + arms_text(arms@) + "}"@,
        ExprKind::Await { expr } => "await "@ + expr_text(*expr),
        ExprKind::ListComprehension { element, variable, iterable, condition } => "["@ + expr_text(*element) + " for "@
            + variable@ + " in "@ + expr_text(*iterable) + match condition {
            Some(c) => " if "@ + expr_text(*c),
            None => Seq::empty(),
        } + "]"@,
        ExprKind::GenericConstructor { name, type_args } => if type_args@.len() == 0 {
            name@
        } else {
            name@ + "<"@ + join(types_texts(type_args@), ", "@) + ">"@
        },
        ExprKind::StructConstructor { name, fields } => name@ + " { "@ + join(named_exprs_texts(fields@), ", "@)
            + " }"@,
        ExprKind::EnumConstructor { enum_name, variant, args } => (match enum_name {
            Some(n) => n@ + "::"@ + variant@,
            None => variant@,
        }) + (match args {
            EnumConstructorArgs::Unit => Seq::empty(),
            EnumConstructorArgs::Tuple(es) => "("@ + join(exprs_texts(es@), ", "@) + ")"@,
            EnumConstructorArgs::Struct(fs) => " { "@ + join(named_exprs_texts(fs@), ", "@) + " }"@,
        }),
    }
}

/// The source texts of expressions, in order.
pub open spec fn exprs_texts(es: Seq<Expr>) -> Seq<Seq<char>>
    decreases es,
{
    if es.len() == 0 {
        Seq::empty()
    } else {
        exprs_texts(es.drop_last()).push(expr_text(es.last()))
    }
}

/// The source texts of named expressions: `name: expr`.
pub open spec fn named_exprs_texts(fs: Seq<(String, Expr)>) -> Seq<Seq<char>>
    decreases fs,
{
    if fs.len() == 0 {
        Seq::empty()
    } else {
        named_exprs_texts(fs.drop_last()).push(fs.last().0@ + ": "@ + expr_text(fs.last().1))
    }
}

/// The arms of a match: `pattern => body, ` each.
pub open spec fn arms_text(arms: Seq<MatchArm>) -> Seq<char>
    decreases arms,
{
    if arms.len() == 0 {
        Seq::empty()
    } else {
        arms_text(arms.drop_last()) + pattern_text(arms.last().pattern) + " => "@ + expr_text(arms.last().body) + ", "@
    }
}

/// The source text of a block: `{`, each statement and then the final
/// expression indented on a line of its own, `}`.
pub open spec fn block_text(b: Block) -> Seq<char>
    decreases b,
{
    "{\n"@ + stmts_lines(b.statements@) + match b.final_expr {
        Some(x) => "    "@ + expr_text(*x) + "\n"@,
        None => Seq::empty(),
    } + "}"@
}

/// Statements, each indented on a line of its own.
pub open spec fn stmts_lines(ss: Seq<Stmt>) -> Seq<char>
    decreases ss,
{
    if ss.len() == 0 {
        Seq::empty()
    } else {
        stmts_lines(ss.drop_last()) + "    "@ + stmt_text(ss.last()) + "\n"@
    }
}

/// The source text of a statement: its attributes, each on a line of its
/// own, then the statement.
pub open spec fn stmt_text(s: Stmt) -> Seq<char>
    decreases s,
{
    attributes_lines(s.attributes@) + stmt_kind_text(s.kind)
}

/// The source text of a statement without its attributes.
pub open spec fn stmt_kind_text(k: StmtKind) -> Seq<char>
    decreases k,
{
    match k {
        StmtKind::Let { name, type_ann, init } => "let "@ + name@ + opt_type_text(type_ann, ": "@) + match init {
            Some(x) => " = "@ + expr_text(x),
            None => Seq::empty(),
        },
        StmtKind::Function { name, generic_params, params, ret_type, body, is_async } => (if is_async {
            "async "@
        } else {
            Seq::empty()
        }) + "fn "@ + name@ + opt_generics_text(generic_params) + "("@ + join(params_texts(params@), ", "@) + ")"@
            + opt_type_text(ret_type, " -> "@) + " "@ + block_text(body),
        StmtKind::Return(o) => "return"@ + match o {
            Some(x) => " "@ + expr_text(x),
            None => Seq::empty(),
        },
        StmtKind::Expression(x) => expr_text(x),
        StmtKind::While { condition, body } => "while "@ + expr_text(condition) + " "@ + block_text(body),
        StmtKind::For { variable, iterable, body } => "for "@ + variable@ + " in "@ + expr_text(iterable) + " "@
            + block_text(body),
        StmtKind::Import { imports, module } => import_text(imports@, module@),
        StmtKind::Export { export } => "export "@ + export_text(export),
        StmtKind::Struct { name, generic_params, fields } => "struct "@ + name@ + opt_generics_text(generic_params)
            + " {"@ + join(spaced_fields_texts(fields@), ", "@) + " }"@,
        StmtKind::Enum { name, generic_params, variants } => "enum "@ + name@ + opt_generics_text(generic_params)
            + " {"@ + join(spaced_variants_texts(variants@), ", "@) + " }"@,
    }
}

/// The source text of what an export exports.
pub open spec fn export_text(k: ExportKind) -> Seq<char>
    decreases k,
{
    match k {
        ExportKind::Named { specifiers } => "{ "@ + join(export_specifiers_texts(specifiers@), ", "@) + " }"@,
        ExportKind::Function { name, params, ret_type, body, is_async } => (if is_async {
            "async "@
        } else {
            Seq::empty()
        }) + "fn "@ + name@ + "("@ + join(params_texts(params@), ", "@) + ")"@ + opt_type_text(ret_type, " -> "@)
            + " "@ + block_text(body),
        ExportKind::Variable { name, type_ann, init } => "let "@ + name@ + opt_type_text(type_ann, ": "@) + match init {
            Some(x) => " = "@ + expr_text(x),
            None => Seq::empty(),
        },
        ExportKind::Default { expr } => "default "@ + expr_text(expr),
        ExportKind::Declaration(stmt) => stmt_text(*stmt),
    }
}

/// The source text of a program: its statements, one per line.
pub open spec fn program_text(p: Program) -> Seq<char> {
    join(Seq::new(p.statements@.len(), |i: int| stmt_text(p.statements@[i])), "\n"@)
}

/// The text of an optional type annotation behind `before`.
fn render_opt_type(t: &Option<TypeAnn>, before: &str) -> (s: String)
    ensures
        s@ == opt_type_text(*t, before@),
{
    match t {
        Some(ty) => {
            let text = ty.to_string();
            let mut s = copy_text(before);
            append_text(&mut s, text.as_str());
            s
        },
        None => String::new(),
    }
}

/// The text of optional generic parameters.
fn render_opt_generics(g: &Option<GenericParams>) -> (s: String)
    ensures
        s@ == opt_generics_text(*g),
{
    match g {
        Some(gp) => gp.to_string(),
        None => String::new(),
    }
}

/// Renders parameters as `name: type`, one text each.
fn render_params(ps: &Vec<Param>) -> (r: Vec<String>)
    ensures
        strings_view(r@) == params_texts(ps@),
{
    let mut parts: Vec<String> = Vec::new();
    let mut i: usize = 0;
    while i < ps.len()
        invariant
            i <= ps@.len(),
            parts@.len() == i,
            forall|k: int| 0 <= k < i ==> (#[trigger] parts@[k])@ == ps@[k].name@ + ": "@ + type_text(ps@[k].type_ann),
        decreases ps@.len() - i,
    {
        let t = ps[i].type_ann.to_string();
        let mut p = copy_text(ps[i].name.as_str());
        append_text(&mut p, ": ");
        append_text(&mut p, t.as_str());
        parts.push(p);
        i = i + 1;
    }
    assert(strings_view(parts@) =~= params_texts(ps@));
    parts
}

/// Renders enum variants, each after a space.
fn render_spaced_variants(vs: &Vec<EnumVariant>) -> (r: Vec<String>)
    ensures
        strings_view(r@) == spaced_variants_texts(vs@),
{
    let mut parts: Vec<String> = Vec::new();
    let mut i: usize = 0;
    while i < vs.len()
        invariant
            i <= vs@.len(),
            parts@.len() == i,
            forall|k: int| 0 <= k < i ==> (#[trigger] parts@[k])@ == " "@ + enum_variant_text(vs@[k]),
        decreases vs@.len() - i,
    {
        let v = vs[i].to_string();
        let mut t = copy_text(" ");
        append_text(&mut t, v.as_str());
        parts.push(t);
        i = i + 1;
    }
    assert(strings_view(parts@) =~= spaced_variants_texts(vs@));
    parts
}

/// Renders attributes, each on a line of its own.
fn render_attribute_lines(attrs: &Vec<Attribute>) -> (s: String)
    ensures
        s@ == attributes_lines(attrs@),
{
    let mut s = String::new();
    let mut i: usize = 0;
    assert(attrs@.subrange(0, 0) =~= Seq::<Attribute>::empty());
    while i < attrs.len()
        invariant
            i <= attrs@.len(),
            s@ == attributes_lines(attrs@.subrange(0, i as int)),
        decreases attrs@.len() - i,
    {
        let a = attrs[i].to_string();
        append_text(&mut s, a.as_str());
        append_text(&mut s, "\n");
        assert(attrs@.subrange(0, i + 1).drop_last() =~= attrs@.subrange(0, i as int));
        i = i + 1;
    }
    assert(attrs@.subrange(0, i as int) =~= attrs@);
    s
}

/// Renders expressions, one text each.
fn render_exprs(es: &Vec<Expr>) -> (r: Vec<String>)
    ensures
        strings_view(r@) == exprs_texts(es@),
    decreases es@,
{
    let mut out: Vec<String> = Vec::new();
    let mut i: usize = 0;
    assert(es@.subrange(0, 0) =~= Seq::<Expr>::empty());
    assert(strings_view(out@) =~= Seq::<Seq<char>>::empty());
    while i < es.len()
        invariant
            i <= es@.len(),
            strings_view(out@) == exprs_texts(es@.subrange(0, i as int)),
        decreases es@.len() - i,
    {
        let t = es[i].to_string();
        out.push(t);
        assert(es@.subrange(0, i + 1).drop_last() =~= es@.subrange(0, i as int));
        assert(strings_view(out@) =~= exprs_texts(es@.subrange(0, i + 1)));
        i = i + 1;
    }
    assert(es@.subrange(0, i as int) =~= es@);
    out
}

/// Renders named expressions as `name: expr`, one text each.
fn render_named_exprs(fs: &Vec<(String, Expr)>) -> (r: Vec<String>)
    ensures
        strings_view(r@) == named_exprs_texts(fs@),
    decreases fs@,
{
    let mut out: Vec<String> = Vec::new();
    let mut i: usize = 0;
    assert(fs@.subrange(0, 0) =~= Seq::<(String, Expr)>::empty());
    assert(strings_view(out@) =~= Seq::<Seq<char>>::empty());
    while i < fs.len()
        invariant
            i <= fs@.len(),
            strings_view(out@) == named_exprs_texts(fs@.subrange(0, i as int)),
        decreases fs@.len() - i,
    {
        let e = fs[i].1.to_string();
        let mut t = copy_text(fs[i].0.as_str());
        append_text(&mut t, ": ");
        append_text(&mut t, e.as_str());
        out.push(t);
        assert(fs@.subrange(0, i + 1).drop_last() =~= fs@.subrange(0, i as int));
        assert(fs@.subrange(0, i + 1).last() == fs@[i as int]);
        assert(strings_view(out@) =~= named_exprs_texts(fs@.subrange(0, i + 1)));
        i = i + 1;
    }
    assert(fs@.subrange(0, i as int) =~= fs@);
    out
}

/// Renders the arms of a match.
fn render_arms(arms: &Vec<MatchArm>) -> (s: String)
    ensures
        s@ == arms_text(arms@),
    decreases arms@,
{
    let mut s = String::new();
    let mut i: usize = 0;
    assert(arms@.subrange(0, 0) =~= Seq::<MatchArm>::empty());
    while i < arms.len()
        invariant
            i <= arms@.len(),
            s@ == arms_text(arms@.subrange(0, i as int)),
        decreases arms@.len() - i,
    {
        let p = arms[i].pattern.to_string();
        let b = arms[i].body.to_string();
        append_text(&mut s, p.as_str());
        append_text(&mut s, " => ");
        append_text(&mut s, b.as_str());
        append_text(&mut s, ", ");
        assert(arms@.subrange(0, i + 1).drop_last() =~= arms@.subrange(0, i as int));
        assert(arms@.subrange(0, i + 1).last() == arms@[i as int]);
        i = i + 1;
    }
    assert(arms@.subrange(0, i as int) =~= arms@);
    s
}

/// Renders statements, each indented on a line of its own.
fn render_stmt_lines(ss: &Vec<Stmt>) -> (s: String)
    ensures
        s@ == stmts_lines(ss@),
    decreases ss@,
{
    let mut s = String::new();
    let mut i: usize = 0;
    assert(ss@.subrange(0, 0) =~= Seq::<Stmt>::empty());
    while i < ss.len()
        invariant
            i <= ss@.len(),
            s@ == stmts_lines(ss@.subrange(0, i as int)),
        decreases ss@.len() - i,
    {
        let t = ss[i].to_string();
        append_text(&mut s, "    ");
        append_text(&mut s, t.as_str());
        append_text(&mut s, "\n");
        assert(ss@.subrange(0, i + 1).drop_last() =~= ss@.subrange(0, i as int));
        i = i + 1;
    }
    assert(ss@.subrange(0, i as int) =~= ss@);
    s
}

impl Expr {
    /// The source text of this expression
    pub fn to_string(&self) -> (s: String)
        ensures
            s@ == expr_text(*self),
        decreases self,
    {
        match &self.kind {
            ExprKind::Literal(l) => l.to_string(),
            ExprKind::Identifier(n) => copy_text(n.as_str()),
            ExprKind::Binary { left, op, right } => {
                let a = left.to_string();
                let o = op.to_string();
                let b = right.to_string();
                let mut s = copy_text("(");
                append_text(&mut s, a.as_str());
                append_text(&mut s, " ");
                append_text(&mut s, o.as_str());
                append_text(&mut s, " ");
                append_text(&mut s, b.as_str());
                append_text(&mut s, ")");
                s
            },
            ExprKind::Unary { op, expr } => {
                let o = op.to_string();
                let e = expr.to_string();
                let mut s = copy_text("(");
                append_text(&mut s, o.as_str());
                append_text(&mut s, e.as_str());
                append_text(&mut s, ")");
                s
            },
            ExprKind::Call { callee, args } => {
                let c = callee.to_string();
                let parts = render_exprs(args);
                let joined = join_texts(&parts, ", ");
                let mut s = c;
                append_text(&mut s, "(");
                append_text(&mut s, joined.as_str());
                append_text(&mut s, ")");
                s
            },
            ExprKind::Index { object, index } => {
                let o = object.to_string();
                let i = index.to_string();
                let mut s = o;
                append_text(&mut s, "[");
                append_text(&mut s, i.as_str());
                append_text(&mut s, "]");
                s
            },
            ExprKind::Member { object, property } => {
                let mut s = object.to_string();
                append_text(&mut s, ".");
                append_text(&mut s, property.as_str());
                s
            },
            ExprKind::If { condition, then_branch, else_branch } => {
                let c = condition.to_string();
                let t = then_branch.to_string();
                let mut s = copy_text("if ");
                append_text(&mut s, c.as_str());
                append_text(&mut s, " { ");
                append_text(&mut s, t.as_str());
                append_text(&mut s, " }");
                if let Some(x) = else_branch {
                    let e = x.to_string();
                    append_text(&mut s, " else { ");
                    append_text(&mut s, e.as_str());
                    append_text(&mut s, " }");
                }
                assert(s@ =~= expr_text(*self));
                s
            },
            ExprKind::Block(b) => b.to_string(),
            ExprKind::Array(es) => {
                let parts = render_exprs(es);
                let joined = join_texts(&parts, ", ");
                let mut s = copy_text("[");
                append_text(&mut s, joined.as_str());
                append_text(&mut s, "]");
                s
            },
            ExprKind::Assign { target, value } => {
                let mut s = target.to_string();
                let v = value.to_string();
                append_text(&mut s, " = ");
                append_text(&mut s, v.as_str());
                s
            },
            ExprKind::Match { expr, arms } => {
                let e = expr.to_string();
                let a = render_arms(arms);
                let mut s = copy_text("match ");
                append_text(&mut s, e.as_str());
                append_text(&mut s, " { ");
                append_text(&mut s, a.as_str());
                append_text(&mut s, "}");
                s
            },
            ExprKind::Await { expr } => {
                let e = expr.to_string();
                let mut s = copy_text("await ");
                append_text(&mut s, e.as_str());
                s
            },
            ExprKind::ListComprehension { element, variable, iterable, condition } => {
                let el = element.to_string();
                let it = iterable.to_string();
                let mut s = copy_text("[");
                append_text(&mut s, el.as_str());
                append_text(&mut s, " for ");
                append_text(&mut s, variable.as_str());
                append_text(&mut s, " in ");
                append_text(&mut s, it.as_str());
                if let Some(c) = condition {
                    let ct = c.to_string();
                    append_text(&mut s, " if ");
                    append_text(&mut s, ct.as_str());
                }
                append_text(&mut s, "]");
                assert(s@ =~= expr_text(*self));
                s
            },
            ExprKind::GenericConstructor { name, type_args } => {
                if type_args.len() == 0 {
                    copy_text(name.as_str())
                } else {
                    let parts = render_types(type_args);
                    let joined = join_texts(&parts, ", ");
                    let mut s = copy_text(name.as_str());
                    append_text(&mut s, "<");
                    append_text(&mut s, joined.as_str());
                    append_text(&mut s, ">");
                    s
                }
            },
            ExprKind::StructConstructor { name, fields } => {
                let parts = render_named_exprs(fields);
                let joined = join_texts(&parts, ", ");
                let mut s = copy_text(name.as_str());
                append_text(&mut s, " { ");
                append_text(&mut s, joined.as_str());
                append_text(&mut s, " }");
                s
            },
            ExprKind::EnumConstructor { enum_name, variant, args } => {
                let mut s = match enum_name {
                    Some(n) => {
                        let mut t = copy_text(n.as_str());
                        append_text(&mut t, "::");
                        append_text(&mut t, variant.as_str());
                        t
                    },
                    None => copy_text(variant.as_str()),
                };
                match args {
                    EnumConstructorArgs::Unit => {},
                    EnumConstructorArgs::Tuple(es) => {
                        let parts = render_exprs(es);
                        let joined = join_texts(&parts, ", ");
                        append_text(&mut s, "(");
                        append_text(&mut s, joined.as_str());
                        append_text(&mut s, ")");
                    },
                    EnumConstructorArgs::Struct(fs) => {
                        let parts = render_named_exprs(fs);
                        let joined = join_texts(&parts, ", ");
                        append_text(&mut s, " { ");
                        append_text(&mut s, joined.as_str());
                        append_text(&mut s, " }");
                    },
                }
                assert(s@ =~= expr_text(*self));
                s
            },
        }
    }
}

impl Block {
    /// The source text of this block
    pub fn to_string(&self) -> (s: String)
        ensures
            s@ == block_text(*self),
        decreases self,
    {
        let lines = render_stmt_lines(&self.statements);
        let mut s = copy_text("{\n");
        append_text(&mut s, lines.as_str());
        if let Some(x) = &self.final_expr {
            let e = x.to_string();
            append_text(&mut s, "    ");
            append_text(&mut s, e.as_str());
            append_text(&mut s, "\n");
        }
        append_text(&mut s, "}");
        assert(s@ =~= block_text(*self));
        s
    }
}

impl Stmt {
    /// The source text of this statement, after its attributes
    pub fn to_string(&self) -> (s: String)
        ensures
            s@ == stmt_text(*self),
        decreases self,
    {
        let mut s = render_attribute_lines(&self.attributes);
        let k = self.kind.to_string();
        append_text(&mut s, k.as_str());
        s
    }
}

impl StmtKind {
    /// The source text of a statement of this kind, without attributes
    #[verifier::spinoff_prover]
    pub fn to_string(&self) -> (s: String)
        ensures
            s@ == stmt_kind_text(*self),
        decreases self,
    {
        let mut s = String::new();
        match self {
            StmtKind::Let { name, type_ann, init } => {
                let t = render_opt_type(type_ann, ": ");
                append_text(&mut s, "let ");
                append_text(&mut s, name.as_str());
                append_text(&mut s, t.as_str());
                if let Some(x) = init {
                    let e = x.to_string();
                    append_text(&mut s, " = ");
                    append_text(&mut s, e.as_str());
                }
            },
            StmtKind::Function { name, generic_params, params, ret_type, body, is_async } => {
                if *is_async {
                    append_text(&mut s, "async ");
                }
                let g = render_opt_generics(generic_params);
                let parts = render_params(params);
                let joined = join_texts(&parts, ", ");
                let r = render_opt_type(ret_type, " -> ");
                let b = body.to_string();
                append_text(&mut s, "fn ");
                append_text(&mut s, name.as_str());
                append_text(&mut s, g.as_str());
                append_text(&mut s, "(");
                append_text(&mut s, joined.as_str());
                append_text(&mut s, ")");
                append_text(&mut s, r.as_str());
                append_text(&mut s, " ");
                append_text(&mut s, b.as_str());
            },
            StmtKind::Return(o) => {
                append_text(&mut s, "return");
                if let Some(x) = o {
                    let e = x.to_string();
                    append_text(&mut s, " ");
                    append_text(&mut s, e.as_str());
                }
            },
            StmtKind::Expression(x) => {
                let e = x.to_string();
                append_text(&mut s, e.as_str());
            },
            StmtKind::While { condition, body } => {
                let c = condition.to_string();
                let b = body.to_string();
                append_text(&mut s, "while ");
                append_text(&mut s, c.as_str());
                append_text(&mut s, " ");
                append_text(&mut s, b.as_str());
            },
            StmtKind::For { variable, iterable, body } => {
                let it = iterable.to_string();
                let b = body.to_string();
                append_text(&mut s, "for ");
                append_text(&mut s, variable.as_str());
                append_text(&mut s, " in ");
                append_text(&mut s, it.as_str());
                append_text(&mut s, " ");
                append_text(&mut s, b.as_str());
            },
            StmtKind::Import { imports, module } => {
                let i = render_import(imports, module.as_str());
                append_text(&mut s, i.as_str());
            },
            StmtKind::Export { export } => {
                let e = export.to_string();
                append_text(&mut s, "export ");
                append_text(&mut s, e.as_str());
            },
            StmtKind::Struct { name, generic_params, fields } => {
                let g = render_opt_generics(generic_params);
                let parts = render_spaced_fields(fields);
                let joined = join_texts(&parts, ", ");
                append_text(&mut s, "struct ");
                append_text(&mut s, name.as_str());
                append_text(&mut s, g.as_str());
                append_text(&mut s, " {");
                append_text(&mut s, joined.as_str());
                append_text(&mut s, " }");
            },
            StmtKind::Enum { name, generic_params, variants } => {
                let g = render_opt_generics(generic_params);
                let parts = render_spaced_variants(variants);
                let joined = join_texts(&parts, ", ");
                append_text(&mut s, "enum ");
                append_text(&mut s, name.as_str());
                append_text(&mut s, g.as_str());
                append_text(&mut s, " {");
                append_text(&mut s, joined.as_str());
                append_text(&mut s, " }");
            },
        }
        assert(s@ =~= stmt_kind_text(*self));
        s
    }
}

impl ExportKind {
    /// The source text of what this export exports
    pub fn to_string(&self) -> (s: String)
        ensures
            s@ == export_text(*self),
        decreases self,
    {
        match self {
            ExportKind::Named { specifiers } => {
                let mut parts: Vec<String> = Vec::new();
                let mut i: usize = 0;
                while i < specifiers.len()
                    invariant
                        i <= specifiers@.len(),
                        parts@.len() == i,
                        forall|k: int| 0 <= k < i ==> (#[trigger] parts@[k])@ == export_specifier_text(specifiers@[k]),
                    decreases specifiers@.len() - i,
                {
                    parts.push(specifiers[i].to_string());
                    i = i + 1;
                }
                assert(strings_view(parts@) =~= export_specifiers_texts(specifiers@));
                let joined = join_texts(&parts, ", ");
                let mut s = copy_text("{ ");
                append_text(&mut s, joined.as_str());
                append_text(&mut s, " }");
                s
            },
            ExportKind::Function { name, params, ret_type, body, is_async } => {
                let mut s = if *is_async {
                    copy_text("async ")
                } else {
                    String::new()
                };
                let parts = render_params(params);
                let joined = join_texts(&parts, ", ");
                let r = render_opt_type(ret_type, " -> ");
                let b = body.to_string();
                append_text(&mut s, "fn ");
                append_text(&mut s, name.as_str());
                append_text(&mut s, "(");
                append_text(&mut s, joined.as_str());
                append_text(&mut s, ")");
                append_text(&mut s, r.as_str());
                append_text(&mut s, " ");
                append_text(&mut s, b.as_str());
                assert(s@ =~= export_text(*self));
                s
            },
            ExportKind::Variable { name, type_ann, init } => {
                let t = render_opt_type(type_ann, ": ");
                let mut s = copy_text("let ");
                append_text(&mut s, name.as_str());
                append_text(&mut s, t.as_str());
                if let Some(x) = init {
                    let e = x.to_string();
                    append_text(&mut s, " = ");
                    append_text(&mut s, e.as_str());
                }
                assert(s@ =~= export_text(*self));
                s
            },
            ExportKind::Default { expr } => {
                let e = expr.to_string();
                let mut s = copy_text("default ");
                append_text(&mut s, e.as_str());
                s
            },
            ExportKind::Declaration(stmt) => stmt.to_string(),
        }
    }
}

impl Program {
    /// The source text of this program: its statements, one per line
    pub fn to_string(&self) -> (s: String)
        ensures
            s@ == program_text(*self),
    {
        let mut parts: Vec<String> = Vec::new();
        let mut i: usize = 0;
        while i < self.statements.len()
            invariant
                i <= self.statements@.len(),
                parts@.len() == i,
                forall|k: int| 0 <= k < i ==> (#[trigger] parts@[k])@ == stmt_text(self.statements@[k]),
            decreases self.statements@.len() - i,
        {
            parts.push(self.statements[i].to_string());
            i = i + 1;
        }
        assert(strings_view(parts@) =~= Seq::new(
            self.statements@.len(),
            |k: int| stmt_text(self.statements@[k]),
        ));
        join_texts(&parts, "\n")
    }
}

} // verus!
