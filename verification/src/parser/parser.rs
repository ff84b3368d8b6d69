//! The parser: tokens in, syntax tree out.
//!
//! Expressions are parsed by precedence climbing, from assignment (loosest)
//! down to primary expressions (tightest).
use vstd::prelude::*;
use crate::error::{Error, ErrorKind};
use crate::parser::ast::{
    binary_op_of, unary_op_of, Attribute, BinaryOp, Block, EnumVariant, EnumVariantFields, ExportKind, ExportSpecifier,
    Expr, ExprKind, GenericParam, GenericParams, ImportSpecifier, Literal, MatchArm, Param, Pattern, PatternKind, Program,
    Stmt, StmtKind, StructField, TraitBound, TypeAnn, TypeKind, UnaryOp,
};
use crate::parser::token::{kind_tag, Token, TokenKind};
use crate::source::{SourceLocation, Span};
use crate::text::{chars_of, concat, concat3, copy_text, strings_view, text_eq};

verus! {

/// A token sequence the parser can work through: it ends with the
/// end-of-input token.
pub open spec fn ends_with_eof(tokens: Seq<Token>) -> bool {
    tokens.len() > 0 && tokens.last().kind is Eof
}

/// What every parsing step keeps: the tokens, a valid position, and a
/// position that never goes back. A step that succeeded consumed at least
/// one token.
pub open spec fn step(p: Parser, q: Parser, succeeded: bool) -> bool {
    &&& q.wf()
    &&& q.tokens() == p.tokens()
    &&& p.position() <= q.position()
    &&& succeeded ==> p.position() < q.position()
}

/// A parsing step as above, whose failures are parse errors.
pub open spec fn parse_step<T>(p: Parser, q: Parser, r: Result<T, Error>) -> bool {
    &&& step(p, q, r is Ok)
    &&& r matches Err(e) ==> e.kind == ErrorKind::ParseError
}

/// Whether a token kind can start an expression.
pub open spec fn starts_expression(k: TokenKind) -> bool {
    ||| k is Number
    ||| k is String
    ||| k is Identifier
    ||| k is True
    ||| k is False
    ||| k is LeftParen
    ||| k is LeftBracket
    ||| k is Await
    ||| k is Bang
    ||| k is Minus
    ||| k is If
    ||| k is Match
    ||| k is LeftBrace
}

/// Whether a token announces a statement of its own kind.
pub open spec fn statement_keyword(k: TokenKind) -> bool {
    ||| k is Let
    ||| k is Async
    ||| k is Fn
    ||| k is Return
    ||| k is While
    ||| k is For
    ||| k is Import
    ||| k is Export
    ||| k is Struct
    ||| k is Enum
}

/// An expression as the specifications see it: its form and its span.
pub struct ExprShape {
    pub node: NodeShape,
    pub span: Span,
}

/// The forms of an expression, with the shapes of their parts.
pub enum NodeShape {
    Literal(Literal),
    Identifier(Seq<char>),
    Binary(Box<ExprShape>, BinaryOp, Box<ExprShape>),
    Unary(UnaryOp, Box<ExprShape>),
    Call(Box<ExprShape>, Seq<ExprShape>),
    Index(Box<ExprShape>, Box<ExprShape>),
    Member(Box<ExprShape>, Seq<char>),
    If(Box<ExprShape>, Box<ExprShape>, Option<Box<ExprShape>>),
    Block(BlockShape),
    Array(Seq<ExprShape>),
    Assign(Box<ExprShape>, Box<ExprShape>),
    Match(Box<ExprShape>, Seq<ArmShape>),
    Await(Box<ExprShape>),
    Comprehension(Box<ExprShape>, Seq<char>, Box<ExprShape>, Option<Box<ExprShape>>),
    GenericConstructor(Seq<char>, Seq<TypeShape>),
    /// Struct and enum constructors, which this parser does not build.
    Constructor,
}

/// A match arm as the specifications see it.
pub struct ArmShape {
    pub pattern: PatternShape,
    pub guard: Option<Box<ExprShape>>,
    pub body: Box<ExprShape>,
}

/// A block as the specifications see it: its statements and its value.
pub struct BlockShape {
    pub stmts: Seq<StmtShape>,
    pub fin: Option<Box<ExprShape>>,
}

/// Generic parameters as the specifications see them.
pub type GenericsShape = Option<(Seq<(Seq<char>, Seq<TraitBound>, Span)>, Span)>;

/// An attribute as the specifications see it: name, arguments, span.
pub type AttrShape = (Seq<char>, Seq<Seq<char>>, Span);

/// A statement as the specifications see it.
pub struct StmtShape {
    pub kind: StmtKindShape,
    pub span: Span,
    pub attrs: Seq<AttrShape>,
}

/// The forms of a statement, with the shapes of their parts.
pub enum StmtKindShape {
    Let(Seq<char>, Option<TypeShape>, Option<Box<ExprShape>>),
    Function(Seq<char>, GenericsShape, Seq<(Seq<char>, TypeShape)>, Option<TypeShape>, BlockShape, bool),
    Return(Option<Box<ExprShape>>),
    Expression(Box<ExprShape>),
    While(Box<ExprShape>, BlockShape),
    For(Seq<char>, Box<ExprShape>, BlockShape),
    Import(Seq<ImportSpecifier>, Seq<char>),
    Export(ExportShape),
    Struct(Seq<char>, GenericsShape, Seq<(Seq<char>, TypeShape, Span)>),
    Enum(Seq<char>, GenericsShape, Seq<(Seq<char>, FieldsShape, Span)>),
}

/// What an export exports, as the specifications see it.
pub enum ExportShape {
    Named(Seq<ExportSpecifier>),
    Function(Seq<char>, Seq<(Seq<char>, TypeShape)>, Option<TypeShape>, BlockShape, bool),
    Variable(Seq<char>, Option<TypeShape>, Option<Box<ExprShape>>),
    Default(Box<ExprShape>),
    /// An exported declaration, which this parser does not build.
    Declaration,
}

/// The shape of an expression.
pub open spec fn expr_view(e: Expr) -> ExprShape
    decreases e,
{
    ExprShape { node: node_view(e.kind), span: e.span }
}

/// The shape of an optional boxed expression.
pub open spec fn opt_expr_view(o: Option<Box<Expr>>) -> Option<Box<ExprShape>>
    decreases o,
{
    match o {
        Some(x) => Some(Box::new(expr_view(*x))),
        None => None,
    }
}

/// The shape of an expression's form.
pub open spec fn node_view(k: ExprKind) -> NodeShape
    decreases k,
{
    match k {
        ExprKind::Literal(l) => NodeShape::Literal(l),
        ExprKind::Identifier(n) => NodeShape::Identifier(n@),
        ExprKind::Binary { left, op, right } => NodeShape::Binary(
            Box::new(expr_view(*left)),
            op,
            Box::new(expr_view(*right)),
        ),
        ExprKind::Unary { op, expr } => NodeShape::Unary(op, Box::new(expr_view(*expr))),
        ExprKind::Call { callee, args } => NodeShape::Call(Box::new(expr_view(*callee)), exprs_view(args@)),
        ExprKind::Index { object, index } => NodeShape::Index(Box::new(expr_view(*object)), Box::new(expr_view(*index))),
        ExprKind::Member { object, property } => NodeShape::Member(Box::new(expr_view(*object)), property@),
        ExprKind::If { condition, then_branch, else_branch } => NodeShape::If(
            Box::new(expr_view(*condition)),
            Box::new(expr_view(*then_branch)),
            opt_expr_view(else_branch),
        ),
        ExprKind::Block(b) => NodeShape::Block(block_view(b)),
        ExprKind::Array(es) => NodeShape::Array(exprs_view(es@)),
        ExprKind::Assign { target, value } => NodeShape::Assign(Box::new(expr_view(*target)), Box::new(expr_view(*value))),
        ExprKind::Match { expr, arms } => NodeShape::Match(Box::new(expr_view(*expr)), arms_view(arms@)),
        ExprKind::Await { expr } => NodeShape::Await(Box::new(expr_view(*expr))),
        ExprKind::ListComprehension { element, variable, iterable, condition } => NodeShape::Comprehension(
            Box::new(expr_view(*element)),
            variable@,
            Box::new(expr_view(*iterable)),
            opt_expr_view(condition),
        ),
        ExprKind::GenericConstructor { name, type_args } => NodeShape::GenericConstructor(name@, types_view(type_args@)),
        _ => NodeShape::Constructor,
    }
}

/// The shapes of several expressions, in order.
pub open spec fn exprs_view(es: Seq<Expr>) -> Seq<ExprShape>
    decreases es,
{
    if es.len() == 0 {
        Seq::empty()
    } else {
        exprs_view(es.drop_last()).push(expr_view(es.last()))
    }
}

/// The shape of a match arm.
pub open spec fn arm_view(a: MatchArm) -> ArmShape
    decreases a,
{
    ArmShape {
        pattern: pattern_view(a.pattern),
        guard: match a.guard {
            Some(g) => Some(Box::new(expr_view(g))),
            None => None,
        },
        body: Box::new(expr_view(a.body)),
    }
}

/// The shapes of several match arms, in order.
pub open spec fn arms_view(arms: Seq<MatchArm>) -> Seq<ArmShape>
    decreases arms,
{
    if arms.len() == 0 {
        Seq::empty()
    } else {
        arms_view(arms.drop_last()).push(arm_view(arms.last()))
    }
}

/// The shape of a block.
pub open spec fn block_view(b: Block) -> BlockShape
    decreases b,
{
    BlockShape { stmts: stmts_view(b.statements@), fin: opt_expr_view(b.final_expr) }
}

/// The shape of an attribute.
pub open spec fn attr_view(a: Attribute) -> AttrShape {
    (a.name@, strings_view(a.args@), a.span)
}

/// The shapes of several attributes, in order.
pub open spec fn attrs_view(atts: Seq<Attribute>) -> Seq<AttrShape> {
    atts.map_values(|a: Attribute| attr_view(a))
}

/// The shape of a statement.
pub open spec fn stmt_view(s: Stmt) -> StmtShape
    decreases s,
{
    StmtShape { kind: stmt_kind_view(s.kind), span: s.span, attrs: attrs_view(s.attributes@) }
}

/// The shapes of several statements, in order.
pub open spec fn stmts_view(ss: Seq<Stmt>) -> Seq<StmtShape>
    decreases ss,
{
    if ss.len() == 0 {
        Seq::empty()
    } else {
        stmts_view(ss.drop_last()).push(stmt_view(ss.last()))
    }
}

/// The shape of optional generic parameters.
pub open spec fn generics_view(g: Option<GenericParams>) -> GenericsShape {
    match g {
        Some(gp) => Some((generic_params_view(gp.params@), gp.span)),
        None => None,
    }
}

/// The shape of an optional type annotation.
pub open spec fn opt_type_view(t: Option<TypeAnn>) -> Option<TypeShape> {
    match t {
        Some(a) => Some(type_view(a)),
        None => None,
    }
}

/// The shape of a statement's form.
pub open spec fn stmt_kind_view(k: StmtKind) -> StmtKindShape
    decreases k,
{
    match k {
        StmtKind::Let { name, type_ann, init } => StmtKindShape::Let(
            name@,
            opt_type_view(type_ann),
            match init {
                Some(x) => Some(Box::new(expr_view(x))),
                None => None,
            },
        ),
        StmtKind::Function { name, generic_params, params, ret_type, body, is_async } => StmtKindShape::Function(
            name@,
            generics_view(generic_params),
            params_view(params@),
            opt_type_view(ret_type),
            block_view(body),
            is_async,
        ),
        StmtKind::Return(o) => StmtKindShape::Return(
            match o {
                Some(x) => Some(Box::new(expr_view(x))),
                None => None,
            },
        ),
        StmtKind::Expression(x) => StmtKindShape::Expression(Box::new(expr_view(x))),
        StmtKind::While { condition, body } => StmtKindShape::While(Box::new(expr_view(condition)), block_view(body)),
        StmtKind::For { variable, iterable, body } => StmtKindShape::For(
            variable@,
            Box::new(expr_view(iterable)),
            block_view(body),
        ),
        StmtKind::Import { imports, module } => StmtKindShape::Import(imports@, module@),
        StmtKind::Export { export } => StmtKindShape::Export(export_view(export)),
        StmtKind::Struct { name, generic_params, fields } => StmtKindShape::Struct(
            name@,
            generics_view(generic_params),
            fields_view(fields@),
        ),
        StmtKind::Enum { name, generic_params, variants } => StmtKindShape::Enum(
            name@,
            generics_view(generic_params),
            variants_view(variants@),
        ),
    }
}

/// The shape of what an export exports.
pub open spec fn export_view(x: ExportKind) -> ExportShape
    decreases x,
{
    match x {
        ExportKind::Named { specifiers } => ExportShape::Named(specifiers@),
        ExportKind::Function { name, params, ret_type, body, is_async } => ExportShape::Function(
            name@,
            params_view(params@),
            opt_type_view(ret_type),
            block_view(body),
            is_async,
        ),
        ExportKind::Variable { name, type_ann, init } => ExportShape::Variable(
            name@,
            opt_type_view(type_ann),
            match init {
                Some(e) => Some(Box::new(expr_view(e))),
                None => None,
            },
        ),
        ExportKind::Default { expr } => ExportShape::Default(Box::new(expr_view(expr))),
        ExportKind::Declaration(_) => ExportShape::Declaration,
    }
}

/// Token kinds with the same tag are the same kind, for the kinds the
/// parser tests for.
pub proof fn lemma_tags(k: TokenKind)
    ensures
        kind_tag(k) == kind_tag(TokenKind::RightBrace) <==> k is RightBrace,
        kind_tag(k) == kind_tag(TokenKind::RightParen) <==> k is RightParen,
        kind_tag(k) == kind_tag(TokenKind::RightBracket) <==> k is RightBracket,
        kind_tag(k) == kind_tag(TokenKind::Newline) <==> k is Newline,
        kind_tag(k) == kind_tag(TokenKind::Semicolon) <==> k is Semicolon,
        kind_tag(k) == kind_tag(TokenKind::At) <==> k is At,
        kind_tag(k) == kind_tag(TokenKind::Comma) <==> k is Comma,
        kind_tag(k) == kind_tag(TokenKind::Less) <==> k is Less,
        kind_tag(k) == kind_tag(TokenKind::For) <==> k is For,
        kind_tag(k) == kind_tag(TokenKind::In) <==> k is In,
        kind_tag(k) == kind_tag(TokenKind::If) <==> k is If,
        kind_tag(k) == kind_tag(TokenKind::Else) <==> k is Else,
        kind_tag(k) == kind_tag(TokenKind::As) <==> k is As,
        kind_tag(k) == kind_tag(TokenKind::Equals) <==> k is Equals,
        kind_tag(k) == kind_tag(TokenKind::LeftParen) <==> k is LeftParen,
        kind_tag(k) == kind_tag(TokenKind::LeftBrace) <==> k is LeftBrace,
        kind_tag(k) == kind_tag(TokenKind::Star) <==> k is Star,
        kind_tag(k) == kind_tag(TokenKind::Fn) <==> k is Fn,
        kind_tag(k) == kind_tag(TokenKind::Let) <==> k is Let,
        kind_tag(k) == kind_tag(TokenKind::Async) <==> k is Async,
        kind_tag(k) == kind_tag(TokenKind::Return) <==> k is Return,
        kind_tag(k) == kind_tag(TokenKind::While) <==> k is While,
        kind_tag(k) == kind_tag(TokenKind::Import) <==> k is Import,
        kind_tag(k) == kind_tag(TokenKind::Export) <==> k is Export,
        kind_tag(k) == kind_tag(TokenKind::Struct) <==> k is Struct,
        kind_tag(k) == kind_tag(TokenKind::Enum) <==> k is Enum,
        kind_tag(k) == kind_tag(TokenKind::Greater) <==> k is Greater,
{
}

/// The span of a single token.
pub open spec fn one_token(ts: Seq<Token>, i: int) -> Span {
    token_span(ts, i, i)
}

/// An expression shape with the given form and span.
pub open spec fn shape(node: NodeShape, span: Span) -> ExprShape {
    ExprShape { node, span }
}

/// The span from the start of one shape to the end of another.
pub open spec fn joined(a: ExprShape, b: ExprShape) -> Span {
    Span { start: a.span.start, end: b.span.end }
}

/// The span from the start of a shape to the end of token `i`.
pub open spec fn up_to(a: ExprShape, ts: Seq<Token>, i: int) -> Span {
    Span { start: a.span.start, end: ts[i].span.end }
}

/// The binary operator a token stands for at a precedence level, from
/// multiplication (2) up to `||` (7).
pub open spec fn level_op(level: int, k: TokenKind) -> Option<BinaryOp> {
    if level == 2 {
        match k {
            TokenKind::Star => Some(BinaryOp::Mul),
            TokenKind::Slash => Some(BinaryOp::Div),
            TokenKind::Percent => Some(BinaryOp::Mod),
            _ => None,
        }
    } else if level == 3 {
        match k {
            TokenKind::Plus => Some(BinaryOp::Add),
            TokenKind::Minus => Some(BinaryOp::Sub),
            _ => None,
        }
    } else if level == 4 {
        match k {
            TokenKind::Less => Some(BinaryOp::Less),
            TokenKind::Greater => Some(BinaryOp::Greater),
            TokenKind::LessEquals => Some(BinaryOp::LessEqual),
            TokenKind::GreaterEquals => Some(BinaryOp::GreaterEqual),
            _ => None,
        }
    } else if level == 5 {
        match k {
            TokenKind::EqualsEquals => Some(BinaryOp::Equal),
            TokenKind::BangEquals => Some(BinaryOp::NotEqual),
            _ => None,
        }
    } else if level == 6 {
        match k {
            TokenKind::And => Some(BinaryOp::And),
            _ => None,
        }
    } else if level == 7 {
        match k {
            TokenKind::Or => Some(BinaryOp::Or),
            _ => None,
        }
    } else {
        None
    }
}

/// The literal expression a literal token stands for.
pub open spec fn leaf_literal(k: TokenKind) -> Option<Literal> {
    match k {
        TokenKind::Number(n) => Some(Literal::Number(n)),
        TokenKind::String(v) => Some(Literal::String(v)),
        TokenKind::True => Some(Literal::Boolean(true)),
        TokenKind::False => Some(Literal::Boolean(false)),
        _ => None,
    }
}

/// A primary expression at `pos`, and the position after it: a literal; a
/// name, or a generic constructor `Name<...>` where type arguments follow
/// it; an expression in parentheses; `await` and an expression; an array
/// literal or list comprehension; an `if`, a `match`, or a block.
pub open spec fn primary_at(ts: Seq<Token>, pos: int) -> Option<(ExprShape, int)>
    decreases ts.len() - pos, 1int,
{
    if !(0 <= pos < ts.len()) {
        None
    } else if leaf_literal(ts[pos].kind) is Some {
        Some((shape(NodeShape::Literal(leaf_literal(ts[pos].kind)->0), one_token(ts, pos)), pos + 1))
    } else if ts[pos].kind is Identifier {
        let name = ts[pos].kind->Identifier_0@;
        let plain = Some((shape(NodeShape::Identifier(name), one_token(ts, pos)), pos + 1));
        if pos + 1 < ts.len() && ts[pos + 1].kind is Less {
            match generic_args_at(ts, pos + 1) {
                Some((args, q)) => if pos + 1 < q <= ts.len() {
                    Some((shape(NodeShape::GenericConstructor(name, args), token_span(ts, pos, q - 1)), q))
                } else {
                    None
                },
                None => plain,
            }
        } else {
            plain
        }
    } else if ts[pos].kind is LeftParen {
        match assignment_at(ts, pos + 1) {
            Some((e, p)) => if pos < p < ts.len() && ts[p].kind is RightParen {
                Some((e, p + 1))
            } else {
                None
            },
            None => None,
        }
    } else if ts[pos].kind is Await {
        match assignment_at(ts, pos + 1) {
            Some((e, q)) => if pos < q <= ts.len() {
                Some((shape(NodeShape::Await(Box::new(e)), token_span(ts, pos, q - 1)), q))
            } else {
                None
            },
            None => None,
        }
    } else if ts[pos].kind is LeftBracket {
        array_at(ts, pos)
    } else if ts[pos].kind is If {
        if_at(ts, pos + 1)
    } else if ts[pos].kind is Match {
        match_at(ts, pos + 1)
    } else if ts[pos].kind is LeftBrace {
        match block_from(ts, pos + 1, Seq::empty()) {
            Some((b, q)) => if pos < q <= ts.len() {
                Some((shape(NodeShape::Block(b), token_span(ts, pos, q - 1)), q))
            } else {
                None
            },
            None => None,
        }
    } else {
        None
    }
}

/// An array literal or list comprehension whose `[` is at `pos`.
pub open spec fn array_at(ts: Seq<Token>, pos: int) -> Option<(ExprShape, int)>
    decreases ts.len() - pos, 0int,
{
    if !(0 <= pos && pos + 1 < ts.len()) {
        None
    } else if ts[pos + 1].kind is RightBracket {
        Some((shape(NodeShape::Array(Seq::empty()), token_span(ts, pos, pos + 1)), pos + 2))
    } else {
        match assignment_at(ts, pos + 1) {
            Some((first, p)) => if pos < p < ts.len() {
                if ts[p].kind is For {
                    comprehension_at(ts, p + 1, pos, first)
                } else {
                    match elements_rest(ts, p, seq![first]) {
                        Some((es, q)) => if p < q <= ts.len() {
                            Some((shape(NodeShape::Array(es), token_span(ts, pos, q - 1)), q))
                        } else {
                            None
                        },
                        None => None,
                    }
                }
            } else {
                None
            },
            None => None,
        }
    }
}

/// The rest of a list comprehension whose `[` is at `start` and whose
/// element `first` was followed by `for`, from `pos` just after the `for`:
/// the variable, `in`, the iterable, an optional `if` condition and the
/// `]`.
pub open spec fn comprehension_at(ts: Seq<Token>, pos: int, start: int, first: ExprShape) -> Option<(ExprShape, int)>
    decreases ts.len() - pos, 0int,
{
    if 0 <= start < pos && pos + 1 < ts.len() && ts[pos].kind is Identifier && ts[pos + 1].kind is In {
        match assignment_at(ts, pos + 2) {
            Some((it, p4)) => if pos + 1 < p4 < ts.len() {
                let cond = if ts[p4].kind is If {
                    match assignment_at(ts, p4 + 1) {
                        Some((c, p5)) => Some((Some(Box::new(c)), p5)),
                        None => None,
                    }
                } else {
                    Some((None, p4))
                };
                match cond {
                    Some((c, p5)) => if p4 <= p5 < ts.len() && ts[p5].kind is RightBracket {
                        Some(
                            (
                                shape(
                                    NodeShape::Comprehension(
                                        Box::new(first),
                                        ts[pos].kind->Identifier_0@,
                                        Box::new(it),
                                        c,
                                    ),
                                    token_span(ts, start, p5),
                                ),
                                p5 + 1,
                            ),
                        )
                    } else {
                        None
                    },
                    None => None,
                }
            } else {
                None
            },
            None => None,
        }
    } else {
        None
    }
}

/// The elements of an array literal after those in `acc`, from `pos`
/// just after an element: `, element` repeated, an optional trailing
/// comma, and the `]`; and the position after it.
pub open spec fn elements_rest(ts: Seq<Token>, pos: int, acc: Seq<ExprShape>) -> Option<(Seq<ExprShape>, int)>
    decreases ts.len() - pos, 0int,
{
    if 0 <= pos < ts.len() && ts[pos].kind is Comma {
        if pos + 1 < ts.len() && ts[pos + 1].kind is RightBracket {
            Some((acc, pos + 2))
        } else {
            match assignment_at(ts, pos + 1) {
                Some((e, q)) => if pos < q <= ts.len() {
                    elements_rest(ts, q, acc.push(e))
                } else {
                    None
                },
                None => None,
            }
        }
    } else if 0 <= pos < ts.len() && ts[pos].kind is RightBracket {
        Some((acc, pos + 1))
    } else {
        None
    }
}

/// An `if` expression whose `if` is just before `pos`: the condition, its
/// block, and an optional `else` with a block or another `if`.
pub open spec fn if_at(ts: Seq<Token>, pos: int) -> Option<(ExprShape, int)>
    decreases ts.len() - pos, 43int,
{
    match assignment_at(ts, pos) {
        Some((c, p)) => if 0 < pos <= p < ts.len() && ts[p].kind is LeftBrace {
            match block_from(ts, p + 1, Seq::empty()) {
                Some((b, q)) => if p < q < ts.len() {
                    let then_branch = shape(NodeShape::Block(b), one_token(ts, q - 1));
                    if ts[q].kind is Else {
                        if q + 1 < ts.len() && ts[q + 1].kind is If {
                            match if_at(ts, q + 2) {
                                Some((e2, q2)) => if q + 2 < q2 <= ts.len() {
                                    Some(
                                        (
                                            shape(
                                                NodeShape::If(Box::new(c), Box::new(then_branch), Some(Box::new(e2))),
                                                token_span(ts, pos - 1, q2 - 1),
                                            ),
                                            q2,
                                        ),
                                    )
                                } else {
                                    None
                                },
                                None => None,
                            }
                        } else if q + 1 < ts.len() && ts[q + 1].kind is LeftBrace {
                            match block_from(ts, q + 2, Seq::empty()) {
                                Some((b2, q2)) => if q + 2 < q2 <= ts.len() {
                                    let else_branch = shape(NodeShape::Block(b2), one_token(ts, q2 - 1));
                                    Some(
                                        (
                                            shape(
                                                NodeShape::If(
                                                    Box::new(c),
                                                    Box::new(then_branch),
                                                    Some(Box::new(else_branch)),
                                                ),
                                                token_span(ts, pos - 1, q2 - 1),
                                            ),
                                            q2,
                                        ),
                                    )
                                } else {
                                    None
                                },
                                None => None,
                            }
                        } else {
                            None
                        }
                    } else {
                        Some(
                            (
                                shape(NodeShape::If(Box::new(c), Box::new(then_branch), None), token_span(ts, pos - 1, q - 1)),
                                q,
                            ),
                        )
                    }
                } else {
                    None
                },
                None => None,
            }
        } else {
            None
        },
        None => None,
    }
}

/// A `match` expression whose `match` is just before `pos`: the subject
/// and the arms in braces.
pub open spec fn match_at(ts: Seq<Token>, pos: int) -> Option<(ExprShape, int)>
    decreases ts.len() - pos, 43int,
{
    match assignment_at(ts, pos) {
        Some((s, p)) => if 0 < pos <= p < ts.len() && ts[p].kind is LeftBrace {
            match arms_from(ts, p + 1, Seq::empty()) {
                Some((arms, q)) => if p < q <= ts.len() {
                    Some((shape(NodeShape::Match(Box::new(s), arms), token_span(ts, pos - 1, q - 1)), q))
                } else {
                    None
                },
                None => None,
            }
        } else {
            None
        },
        None => None,
    }
}

/// One arm of a `match` at `pos`: the pattern, an optional `if` guard,
/// `=>`, the value and an optional `,`; and the position after it.
pub open spec fn arm_at(ts: Seq<Token>, pos: int) -> Option<(ArmShape, int)>
    decreases ts.len() - pos, 0int,
{
    match pattern_at(ts, pos) {
        Some((pv, p1)) => if 0 <= pos < p1 < ts.len() {
            let g = if ts[p1].kind is If {
                match assignment_at(ts, p1 + 1) {
                    Some((ge, p2)) => Some((Some(Box::new(ge)), p2)),
                    None => None,
                }
            } else {
                Some((None, p1))
            };
            match g {
                Some((guard, p2)) => if p1 <= p2 < ts.len() && ts[p2].kind is DoubleArrow {
                    match assignment_at(ts, p2 + 1) {
                        Some((body, p3)) => if p2 < p3 < ts.len() {
                            Some(
                                (
                                    ArmShape { pattern: pv, guard, body: Box::new(body) },
                                    if ts[p3].kind is Comma {
                                        p3 + 1
                                    } else {
                                        p3
                                    },
                                ),
                            )
                        } else {
                            None
                        },
                        None => None,
                    }
                } else {
                    None
                },
                None => None,
            }
        } else {
            None
        },
        None => None,
    }
}

/// The arms of a `match` from `pos`, after those in `acc`, up to and
/// including the `}`, with blank lines before each arm skipped.
pub open spec fn arms_from(ts: Seq<Token>, pos: int, acc: Seq<ArmShape>) -> Option<(Seq<ArmShape>, int)>
    decreases ts.len() - pos, 1int,
{
    if !(0 <= pos < ts.len()) {
        None
    } else if ts[pos].kind is RightBrace {
        Some((acc, pos + 1))
    } else if ts[pos].kind is Eof {
        None
    } else {
        let p = skip_newlines_from(ts, pos);
        if !(pos <= p < ts.len()) {
            None
        } else if ts[p].kind is RightBrace {
            Some((acc, p + 1))
        } else if ts[p].kind is Eof {
            None
        } else {
            match arm_at(ts, p) {
                Some((arm, q)) => if p < q <= ts.len() {
                    arms_from(ts, q, acc.push(arm))
                } else {
                    None
                },
                None => None,
            }
        }
    }
}

/// A unary expression at `pos`: `!` and `-` apply to the unary expression
/// that follows them.
pub open spec fn unary_at(ts: Seq<Token>, pos: int) -> Option<(ExprShape, int)>
    decreases ts.len() - pos, 3int,
{
    if 0 <= pos < ts.len() && unary_op_of(ts[pos].kind) is Some {
        match unary_at(ts, pos + 1) {
            Some((e, p)) => Some(
                (
                    shape(
                        NodeShape::Unary(unary_op_of(ts[pos].kind)->0, Box::new(e)),
                        Span { start: ts[pos].span.start, end: e.span.end },
                    ),
                    p,
                ),
            ),
            None => None,
        }
    } else {
        postfix_at(ts, pos)
    }
}

/// A primary expression at `pos` followed by any calls `(...)`, indexing
/// `[...]` and member accesses `.name`.
pub open spec fn postfix_at(ts: Seq<Token>, pos: int) -> Option<(ExprShape, int)>
    decreases ts.len() - pos, 2int,
{
    match primary_at(ts, pos) {
        Some((e, p)) => if pos <= p <= ts.len() {
            postfix_rest(ts, p, e)
        } else {
            None
        },
        None => None,
    }
}

/// The calls, indexing and member accesses applied from `pos` to `acc`.
pub open spec fn postfix_rest(ts: Seq<Token>, pos: int, acc: ExprShape) -> Option<(ExprShape, int)>
    decreases ts.len() - pos, 0int,
{
    if 0 <= pos < ts.len() && ts[pos].kind is LeftParen {
        match call_args_at(ts, pos + 1) {
            Some((args, q)) => if pos < q <= ts.len() {
                postfix_rest(ts, q, shape(NodeShape::Call(Box::new(acc), args), up_to(acc, ts, q - 1)))
            } else {
                None
            },
            None => None,
        }
    } else if 0 <= pos < ts.len() && ts[pos].kind is LeftBracket {
        match assignment_at(ts, pos + 1) {
            Some((i, p)) => if pos < p < ts.len() && ts[p].kind is RightBracket {
                postfix_rest(ts, p + 1, shape(NodeShape::Index(Box::new(acc), Box::new(i)), up_to(acc, ts, p)))
            } else {
                None
            },
            None => None,
        }
    } else if 0 <= pos < ts.len() && ts[pos].kind is Dot {
        if pos + 1 < ts.len() && ts[pos + 1].kind is Identifier {
            postfix_rest(
                ts,
                pos + 2,
                shape(NodeShape::Member(Box::new(acc), ts[pos + 1].kind->Identifier_0@), up_to(acc, ts, pos + 1)),
            )
        } else {
            None
        }
    } else {
        Some((acc, pos))
    }
}

/// The arguments of a call from `pos`, just after its `(`, up to and
/// including the `)`.
pub open spec fn call_args_at(ts: Seq<Token>, pos: int) -> Option<(Seq<ExprShape>, int)>
    decreases ts.len() - pos, 42int,
{
    if 0 <= pos < ts.len() && ts[pos].kind is RightParen {
        Some((Seq::empty(), pos + 1))
    } else {
        args_rest(ts, pos, Seq::empty())
    }
}

/// Call arguments from `pos`, after those in `acc`, separated by commas,
/// up to and including the `)`.
pub open spec fn args_rest(ts: Seq<Token>, pos: int, acc: Seq<ExprShape>) -> Option<(Seq<ExprShape>, int)>
    decreases ts.len() - pos, 41int,
{
    match assignment_at(ts, pos) {
        Some((a, p)) => if 0 <= pos < p < ts.len() {
            if ts[p].kind is Comma {
                args_rest(ts, p + 1, acc.push(a))
            } else if ts[p].kind is RightParen {
                Some((acc.push(a), p + 1))
            } else {
                None
            }
        } else {
            None
        },
        None => None,
    }
}

/// An expression at a precedence level (1 is a unary expression): the
/// operands of the level below joined left to right by this level's
/// operators.
pub open spec fn level_at(ts: Seq<Token>, pos: int, level: int) -> Option<(ExprShape, int)>
    decreases ts.len() - pos, if level <= 1 {
        4
    } else {
        2 * level + 2
    },
{
    if level <= 1 {
        unary_at(ts, pos)
    } else {
        match level_at(ts, pos, level - 1) {
            Some((e, p)) => if pos <= p <= ts.len() {
                level_rest(ts, p, e, level)
            } else {
                None
            },
            None => None,
        }
    }
}

/// The rest of a level's expression from `pos`, with `acc` the operand
/// read so far.
pub open spec fn level_rest(ts: Seq<Token>, pos: int, acc: ExprShape, level: int) -> Option<(ExprShape, int)>
    decreases ts.len() - pos, if level <= 1 {
        0
    } else {
        2 * level + 1
    },
{
    if 0 <= pos < ts.len() && level >= 2 && level_op(level, ts[pos].kind) is Some {
        match level_at(ts, pos + 1, level - 1) {
            Some((r, q)) => if pos < q <= ts.len() {
                level_rest(
                    ts,
                    q,
                    shape(NodeShape::Binary(Box::new(acc), level_op(level, ts[pos].kind)->0, Box::new(r)), joined(acc, r)),
                    level,
                )
            } else {
                None
            },
            None => None,
        }
    } else {
        Some((acc, pos))
    }
}

/// An assignment expression at `pos`: an `||` expression, and when `=`
/// follows it, the assignment of the expression after `=` to it.
pub open spec fn assignment_at(ts: Seq<Token>, pos: int) -> Option<(ExprShape, int)>
    decreases ts.len() - pos, 40int,
{
    match level_at(ts, pos, 7) {
        Some((e, p)) => if pos <= p < ts.len() && ts[p].kind is Equals {
            match assignment_at(ts, p + 1) {
                Some((v, q)) => Some((shape(NodeShape::Assign(Box::new(e), Box::new(v)), joined(e, v)), q)),
                None => None,
            }
        } else {
            Some((e, p))
        },
        None => None,
    }
}

/// A result and final position that match a grammar's answer: an
/// expression of the given shape and where it ends, or an error where the
/// grammar has none.
pub open spec fn parsed_as(o: Option<(ExprShape, int)>, r: Result<Expr, Error>, q: int) -> bool {
    match o {
        Some((sh, p)) => r matches Ok(e) && expr_view(e) == sh && q == p,
        None => r is Err,
    }
}

/// The text an attribute argument's value adds after its key.
pub open spec fn attr_value_text(k: TokenKind) -> Option<Seq<char>> {
    match k {
        TokenKind::String(v) => Some(" = \""@ + v@ + "\""@),
        TokenKind::Identifier(v) => Some(" = "@ + v@),
        TokenKind::Number(v) => Some(" = "@ + v@),
        _ => None,
    }
}

/// Attribute arguments from `pos`, after those in `acc`: `key` or
/// `key = value`, separated by commas, up to and including the `)`.
pub open spec fn attr_args_from(ts: Seq<Token>, pos: int, acc: Seq<Seq<char>>) -> Option<(Seq<Seq<char>>, int)>
    decreases ts.len() - pos,
{
    if !(0 <= pos < ts.len()) {
        None
    } else if ts[pos].kind is RightParen {
        Some((acc, pos + 1))
    } else if ts[pos].kind is Identifier && pos + 1 < ts.len() {
        let key = ts[pos].kind->Identifier_0@;
        let item = if ts[pos + 1].kind is Equals {
            if pos + 2 < ts.len() {
                match attr_value_text(ts[pos + 2].kind) {
                    Some(v) => Some((key + v, pos + 3)),
                    None => None,
                }
            } else {
                None
            }
        } else {
            Some((key, pos + 1))
        };
        match item {
            Some((arg, p)) => if pos < p < ts.len() {
                if ts[p].kind is Comma {
                    attr_args_from(ts, p + 1, acc.push(arg))
                } else if ts[p].kind is RightParen {
                    Some((acc.push(arg), p + 1))
                } else {
                    None
                }
            } else {
                None
            },
            None => None,
        }
    } else {
        None
    }
}

/// An attribute `@name` or `@name(args)` at `pos`, and the position after
/// it.
pub open spec fn attribute_at(ts: Seq<Token>, pos: int) -> Option<(AttrShape, int)> {
    if 0 <= pos && pos + 2 < ts.len() && ts[pos].kind is At && ts[pos + 1].kind is Identifier {
        let args = if ts[pos + 2].kind is LeftParen {
            attr_args_from(ts, pos + 3, Seq::empty())
        } else {
            Some((Seq::empty(), pos + 2))
        };
        match args {
            Some((a, q)) => if pos + 2 <= q <= ts.len() {
                Some(((ts[pos + 1].kind->Identifier_0@, a, token_span(ts, pos, q - 1)), q))
            } else {
                None
            },
            None => None,
        }
    } else {
        None
    }
}

/// The attributes from `pos`, after those in `acc`, each followed by an
/// optional line break; and the position after them.
pub open spec fn attrs_from(ts: Seq<Token>, pos: int, acc: Seq<AttrShape>) -> Option<(Seq<AttrShape>, int)>
    decreases ts.len() - pos,
{
    if 0 <= pos < ts.len() && ts[pos].kind is At {
        match attribute_at(ts, pos) {
            Some((a, p)) => if pos < p < ts.len() {
                attrs_from(
                    ts,
                    if ts[p].kind is Newline {
                        p + 1
                    } else {
                        p
                    },
                    acc.push(a),
                )
            } else {
                None
            },
            None => None,
        }
    } else {
        Some((acc, pos))
    }
}

/// Imported names from `pos`, after those in `acc`: `name` or
/// `name as alias`, separated by commas, up to and including the `}`.
pub open spec fn import_names_from(ts: Seq<Token>, pos: int, acc: Seq<ImportSpecifier>) -> Option<
    (Seq<ImportSpecifier>, int),
>
    decreases ts.len() - pos,
{
    if !(0 <= pos < ts.len()) {
        None
    } else if ts[pos].kind is RightBrace {
        Some((acc, pos + 1))
    } else if ts[pos].kind is Identifier && pos + 1 < ts.len() {
        let n = ts[pos].kind->Identifier_0;
        let item = if ts[pos + 1].kind is As {
            if pos + 2 < ts.len() && ts[pos + 2].kind is Identifier {
                Some((ImportSpecifier::Named { name: n, alias: Some(ts[pos + 2].kind->Identifier_0) }, pos + 3))
            } else {
                None
            }
        } else {
            Some((ImportSpecifier::Named { name: n, alias: None }, pos + 1))
        };
        match item {
            Some((spec, p)) => if pos < p < ts.len() {
                if ts[p].kind is Comma {
                    import_names_from(ts, p + 1, acc.push(spec))
                } else if ts[p].kind is RightBrace {
                    Some((acc.push(spec), p + 1))
                } else {
                    None
                }
            } else {
                None
            },
            None => None,
        }
    } else {
        None
    }
}

/// An import after `import` at `pos`: `* as name`, names in braces, or a
/// default name; then `from` and the module path. Gives the specifiers,
/// the module and the position after the path.
pub open spec fn import_at(ts: Seq<Token>, pos: int) -> Option<(Seq<ImportSpecifier>, Seq<char>, int)> {
    let head = if 0 <= pos < ts.len() && ts[pos].kind is Star {
        if pos + 2 < ts.len() && ts[pos + 1].kind is As && ts[pos + 2].kind is Identifier {
            Some((seq![ImportSpecifier::Namespace { alias: ts[pos + 2].kind->Identifier_0 }], pos + 3))
        } else {
            None
        }
    } else if 0 <= pos < ts.len() && ts[pos].kind is LeftBrace {
        import_names_from(ts, pos + 1, Seq::empty())
    } else if 0 <= pos < ts.len() && ts[pos].kind is Identifier {
        Some((seq![ImportSpecifier::Default { name: ts[pos].kind->Identifier_0 }], pos + 1))
    } else {
        None
    };
    match head {
        Some((specs, p)) => if pos < p && p + 1 < ts.len() && ts[p].kind is From && ts[p + 1].kind is String {
            Some((specs, ts[p + 1].kind->String_0@, p + 2))
        } else {
            None
        },
        None => None,
    }
}

/// A `let` after the `let` at `pos`: name, optional type, optional
/// initial value, and the position after it.
pub open spec fn let_at(ts: Seq<Token>, pos: int) -> Option<
    ((Seq<char>, Option<TypeShape>, Option<Box<ExprShape>>), int),
>
    decreases ts.len() - pos, 0int,
{
    match let_head_at(ts, pos) {
        Some((n, t, q)) => if pos < q < ts.len() && ts[q].kind is Equals {
            match assignment_at(ts, q + 1) {
                Some((e, p)) => Some(((n, t, Some(Box::new(e))), p)),
                None => None,
            }
        } else {
            Some(((n, t, None), q))
        },
        None => None,
    }
}

/// A function after its `fn` at `pos`: head, body, and the position after
/// the body's `}`.
pub open spec fn fn_at(ts: Seq<Token>, pos: int, allow_generics: bool) -> Option<
    ((Seq<char>, GenericsShape, Seq<(Seq<char>, TypeShape)>, Option<TypeShape>, BlockShape), int),
>
    decreases ts.len() - pos, 0int,
{
    match fn_head_at(ts, pos, allow_generics) {
        Some((n, g, ps, rt, b)) => if pos < b <= ts.len() {
            match block_from(ts, b, Seq::empty()) {
                Some((body, q)) => Some(((n, g, ps, rt, body), q)),
                None => None,
            }
        } else {
            None
        },
        None => None,
    }
}

/// What follows `export` at `pos`: a function (`async` or not), a `let`,
/// names in braces, or `default` and an expression.
pub open spec fn export_at(ts: Seq<Token>, pos: int) -> Option<(ExportShape, int)>
    decreases ts.len() - pos, 0int,
{
    if !(0 <= pos < ts.len()) {
        None
    } else if ts[pos].kind is Async {
        if pos + 1 < ts.len() && ts[pos + 1].kind is Fn {
            match fn_at(ts, pos + 2, false) {
                Some(((n, g, ps, rt, body), q)) => Some((ExportShape::Function(n, ps, rt, body, true), q)),
                None => None,
            }
        } else {
            None
        }
    } else if ts[pos].kind is Fn {
        match fn_at(ts, pos + 1, false) {
            Some(((n, g, ps, rt, body), q)) => Some((ExportShape::Function(n, ps, rt, body, false), q)),
            None => None,
        }
    } else if ts[pos].kind is Let {
        match let_at(ts, pos + 1) {
            Some(((n, t, i), q)) => Some((ExportShape::Variable(n, t, i), q)),
            None => None,
        }
    } else if ts[pos].kind is LeftBrace {
        match export_names_from(ts, pos + 1, Seq::empty()) {
            Some((names, q)) => Some((ExportShape::Named(names), q)),
            None => None,
        }
    } else if is_default_keyword(ts[pos].kind) {
        match assignment_at(ts, pos + 1) {
            Some((e, q)) => Some((ExportShape::Default(Box::new(e)), q)),
            None => None,
        }
    } else {
        None
    }
}

/// A `while` or `for` body: the block after the `{` at `p`.
pub open spec fn loop_body_at(ts: Seq<Token>, p: int) -> Option<(BlockShape, int)>
    decreases ts.len() - p, 0int,
{
    if 0 <= p < ts.len() && ts[p].kind is LeftBrace {
        block_from(ts, p + 1, Seq::empty())
    } else {
        None
    }
}

/// What follows `return` at `pos`: nothing where a `;`, a line break or
/// the end of the input follows, else an expression.
pub open spec fn return_at(ts: Seq<Token>, pos: int) -> Option<(Option<Box<ExprShape>>, int)>
    decreases ts.len() - pos, 41int,
{
    if 0 <= pos < ts.len() && (ts[pos].kind is Semicolon || ts[pos].kind is Newline || ts[pos].kind is Eof) {
        Some((None, pos))
    } else {
        match assignment_at(ts, pos) {
            Some((e, q)) => Some((Some(Box::new(e)), q)),
            None => None,
        }
    }
}

/// What follows `while` at `pos`: the condition and the body.
pub open spec fn while_at(ts: Seq<Token>, pos: int) -> Option<(Box<ExprShape>, BlockShape, int)>
    decreases ts.len() - pos, 41int,
{
    match assignment_at(ts, pos) {
        Some((c, p)) => if pos < p <= ts.len() {
            match loop_body_at(ts, p) {
                Some((b, q)) => Some((Box::new(c), b, q)),
                None => None,
            }
        } else {
            None
        },
        None => None,
    }
}

/// What follows `for` at `pos`: the variable, `in`, the iterable and the
/// body.
pub open spec fn for_at(ts: Seq<Token>, pos: int) -> Option<(Seq<char>, Box<ExprShape>, BlockShape, int)>
    decreases ts.len() - pos, 0int,
{
    if 0 <= pos && pos + 1 < ts.len() && ts[pos].kind is Identifier && ts[pos + 1].kind is In {
        match assignment_at(ts, pos + 2) {
            Some((it, p)) => if pos + 1 < p <= ts.len() {
                match loop_body_at(ts, p) {
                    Some((b, q)) => Some((ts[pos].kind->Identifier_0@, Box::new(it), b, q)),
                    None => None,
                }
            } else {
                None
            },
            None => None,
        }
    } else {
        None
    }
}

/// The shape of an optional value.
pub open spec fn opt_value_view(o: Option<Expr>) -> Option<Box<ExprShape>> {
    match o {
        Some(e) => Some(Box::new(expr_view(e))),
        None => None,
    }
}

/// The body of a statement at `pos`, without attributes: the kind its
/// first token announces, or an expression.
pub open spec fn kind_at(ts: Seq<Token>, pos: int) -> Option<(StmtKindShape, int)>
    decreases ts.len() - pos, 50int,
{
    if !(0 <= pos < ts.len()) {
        None
    } else {
        match ts[pos].kind {
            TokenKind::Let => match let_at(ts, pos + 1) {
                Some(((n, t, i), q)) => Some((StmtKindShape::Let(n, t, i), q)),
                None => None,
            },
            TokenKind::Async => if pos + 1 < ts.len() && ts[pos + 1].kind is Fn {
                match fn_at(ts, pos + 2, true) {
                    Some(((n, g, ps, rt, body), q)) => Some((StmtKindShape::Function(n, g, ps, rt, body, true), q)),
                    None => None,
                }
            } else {
                None
            },
            TokenKind::Fn => match fn_at(ts, pos + 1, true) {
                Some(((n, g, ps, rt, body), q)) => Some((StmtKindShape::Function(n, g, ps, rt, body, false), q)),
                None => None,
            },
            TokenKind::Return => match return_at(ts, pos + 1) {
                Some((v, q)) => Some((StmtKindShape::Return(v), q)),
                None => None,
            },
            TokenKind::While => match while_at(ts, pos + 1) {
                Some((c, b, q)) => Some((StmtKindShape::While(c, b), q)),
                None => None,
            },
            TokenKind::For => match for_at(ts, pos + 1) {
                Some((v, it, b, q)) => Some((StmtKindShape::For(v, it, b), q)),
                None => None,
            },
            TokenKind::Import => match import_at(ts, pos + 1) {
                Some((specs, m, q)) => Some((StmtKindShape::Import(specs, m), q)),
                None => None,
            },
            TokenKind::Export => match export_at(ts, pos + 1) {
                Some((x, q)) => Some((StmtKindShape::Export(x), q)),
                None => None,
            },
            TokenKind::Struct => match struct_at(ts, pos + 1) {
                Some((n, g, fs, q)) => Some((StmtKindShape::Struct(n, g, fs), q)),
                None => None,
            },
            TokenKind::Enum => match enum_at(ts, pos + 1) {
                Some((n, g, vs, q)) => Some((StmtKindShape::Enum(n, g, vs), q)),
                None => None,
            },
            _ => match assignment_at(ts, pos) {
                Some((e, q)) => Some((StmtKindShape::Expression(Box::new(e)), q)),
                None => None,
            },
        }
    }
}

/// A statement at `pos`: its attributes, its body, its span (from the
/// first attribute to the end of the body), and the position after the
/// `;` or line break that may end it.
pub open spec fn stmt_at(ts: Seq<Token>, pos: int) -> Option<(StmtShape, int)>
    decreases ts.len() - pos, 55int,
{
    match attrs_from(ts, pos, Seq::empty()) {
        Some((attrs, pa)) => if 0 <= pos <= pa < ts.len() {
            match kind_at(ts, pa) {
                Some((k, pk)) => if pa < pk < ts.len() {
                    Some(
                        (
                            StmtShape { kind: k, span: Span { start: ts[pos].span.start, end: ts[pk - 1].span.end }, attrs },
                            if ts[pk].kind is Semicolon || ts[pk].kind is Newline {
                                pk + 1
                            } else {
                                pk
                            },
                        ),
                    )
                } else {
                    None
                },
                None => None,
            }
        } else {
            None
        },
        None => None,
    }
}

/// The statements of a block from `pos` up to and including its `}`,
/// after those in `acc`, with blank lines skipped: an expression statement
/// just before the `}` is the block's value unless a `;` ended it.
pub open spec fn block_from(ts: Seq<Token>, pos: int, acc: Seq<StmtShape>) -> Option<(BlockShape, int)>
    decreases ts.len() - pos, 60int,
{
    if !(0 <= pos < ts.len()) {
        None
    } else if ts[pos].kind is RightBrace {
        Some((BlockShape { stmts: acc, fin: None }, pos + 1))
    } else if ts[pos].kind is Eof {
        None
    } else if ts[pos].kind is Newline {
        block_from(ts, pos + 1, acc)
    } else {
        match stmt_at(ts, pos) {
            Some((s, q)) => if pos < q < ts.len() {
                if ts[q].kind is RightBrace && s.kind is Expression {
                    if q == pos + 1 || !(ts[q - 1].kind is Semicolon) {
                        Some((BlockShape { stmts: acc, fin: Some(s.kind->Expression_0) }, q + 1))
                    } else {
                        block_from(ts, q, acc.push(StmtShape { kind: s.kind, span: s.span, attrs: Seq::empty() }))
                    }
                } else {
                    block_from(ts, q, acc.push(s))
                }
            } else {
                None
            },
            None => None,
        }
    }
}

/// The statements of a program from `pos` to the end of the input, after
/// those in `acc`, with blank lines skipped.
pub open spec fn program_from(ts: Seq<Token>, pos: int, acc: Seq<StmtShape>) -> Option<Seq<StmtShape>>
    decreases ts.len() - pos,
{
    if !(0 <= pos < ts.len()) {
        None
    } else if ts[pos].kind is Eof {
        Some(acc)
    } else if ts[pos].kind is Newline {
        program_from(ts, pos + 1, acc)
    } else {
        match stmt_at(ts, pos) {
            Some((s, q)) => if pos < q {
                program_from(ts, q, acc.push(s))
            } else {
                None
            },
            None => None,
        }
    }
}

/// A type annotation as the specifications see it: its form, its parts
/// and its span.
pub enum TypeShape {
    Named(Seq<char>, Span),
    Array(Box<TypeShape>, Span),
    Function(Seq<TypeShape>, Box<TypeShape>, Span),
    Generic(Seq<char>, Seq<TypeShape>, Span),
    Param(Seq<char>, Span),
    Tuple(Seq<TypeShape>, Span),
    Reference(bool, Box<TypeShape>, Span),
}

/// The shape of a type annotation.
pub open spec fn type_view(t: TypeAnn) -> TypeShape
    decreases t,
{
    match t.kind {
        TypeKind::Named(n) => TypeShape::Named(n@, t.span),
        TypeKind::Array(e) => TypeShape::Array(Box::new(type_view(*e)), t.span),
        TypeKind::Function { params, ret } => TypeShape::Function(
            types_view(params@),
            Box::new(type_view(*ret)),
            t.span,
        ),
        TypeKind::Generic { name, args } => TypeShape::Generic(name@, types_view(args@), t.span),
        TypeKind::TypeParam(n) => TypeShape::Param(n@, t.span),
        TypeKind::Tuple(ts) => TypeShape::Tuple(types_view(ts@), t.span),
        TypeKind::Reference { mutable, inner } => TypeShape::Reference(mutable, Box::new(type_view(*inner)), t.span),
    }
}

/// The shapes of several type annotations, in order.
pub open spec fn types_view(ts: Seq<TypeAnn>) -> Seq<TypeShape>
    decreases ts,
{
    if ts.len() == 0 {
        Seq::empty()
    } else {
        types_view(ts.drop_last()).push(type_view(ts.last()))
    }
}

/// The span from the start of token `a` to the end of token `b`.
pub open spec fn token_span(ts: Seq<Token>, a: int, b: int) -> Span {
    Span { start: ts[a].span.start, end: ts[b].span.end }
}

/// The type written at `pos`, and the position after it: `&T`, `&mut T`,
/// `[T]`, `(A, B) -> R`, `(A, B)`, `Name<A, B>`, or a name (a type
/// parameter or a named type).
pub open spec fn type_at(ts: Seq<Token>, pos: int) -> Option<(TypeShape, int)>
    decreases ts.len() - pos, 3int,
{
    if 0 <= pos < ts.len() {
        if ts[pos].kind is Ampersand {
            let mutable = pos + 1 < ts.len() && ts[pos + 1].kind is Mut;
            let at = if mutable {
                pos + 2
            } else {
                pos + 1
            };
            match type_at(ts, at) {
                Some((e, p)) => if at < p <= ts.len() {
                    Some((TypeShape::Reference(mutable, Box::new(e), token_span(ts, pos, p - 1)), p))
                } else {
                    None
                },
                None => None,
            }
        } else if ts[pos].kind is LeftBracket {
            match type_at(ts, pos + 1) {
                Some((e, p)) => if pos < p < ts.len() && ts[p].kind is RightBracket {
                    Some((TypeShape::Array(Box::new(e), token_span(ts, pos, p)), p + 1))
                } else {
                    None
                },
                None => None,
            }
        } else if ts[pos].kind is LeftParen {
            let params = if pos + 1 < ts.len() && ts[pos + 1].kind is RightParen {
                Some((Seq::<TypeShape>::empty(), pos + 1))
            } else {
                type_list_from(ts, pos + 1, Seq::empty())
            };
            match params {
                Some((ps, p)) => if pos < p && p + 1 < ts.len() && ts[p].kind is RightParen {
                    if ts[p + 1].kind is Arrow {
                        match type_at(ts, p + 2) {
                            Some((r, q)) => if p + 2 < q <= ts.len() {
                                Some((TypeShape::Function(ps, Box::new(r), token_span(ts, pos, q - 1)), q))
                            } else {
                                None
                            },
                            None => None,
                        }
                    } else {
                        Some((TypeShape::Tuple(ps, token_span(ts, pos, p)), p + 1))
                    }
                } else {
                    None
                },
                None => None,
            }
        } else if ts[pos].kind is Identifier {
            let n = ts[pos].kind->Identifier_0;
            if pos + 1 < ts.len() && ts[pos + 1].kind is Less {
                match generic_args_at(ts, pos + 1) {
                    Some((args, q)) => if pos + 1 < q <= ts.len() {
                        Some((TypeShape::Generic(n@, args, token_span(ts, pos, q - 1)), q))
                    } else {
                        None
                    },
                    None => None,
                }
            } else if is_type_param_name(n@) {
                Some((TypeShape::Param(n@, token_span(ts, pos, pos)), pos + 1))
            } else {
                Some((TypeShape::Named(n@, token_span(ts, pos, pos)), pos + 1))
            }
        } else {
            None
        }
    } else {
        None
    }
}

/// Types separated by commas from `pos`, after those in `acc`; the list
/// ends at the first type not followed by a comma.
pub open spec fn type_list_from(ts: Seq<Token>, pos: int, acc: Seq<TypeShape>) -> Option<(Seq<TypeShape>, int)>
    decreases ts.len() - pos, 4int,
{
    match type_at(ts, pos) {
        Some((t, p)) => if 0 <= pos < p < ts.len() {
            if ts[p].kind is Comma {
                type_list_from(ts, p + 1, acc.push(t))
            } else {
                Some((acc.push(t), p))
            }
        } else {
            None
        },
        None => None,
    }
}

/// Generic type arguments `<...>` at `pos`: none, or types separated by
/// commas, with a comma allowed before the `>`.
pub open spec fn generic_args_at(ts: Seq<Token>, pos: int) -> Option<(Seq<TypeShape>, int)>
    decreases ts.len() - pos, 5int,
{
    if 0 <= pos && pos + 1 < ts.len() && ts[pos].kind is Less {
        if ts[pos + 1].kind is Greater {
            Some((Seq::empty(), pos + 2))
        } else {
            match type_at(ts, pos + 1) {
                Some((t, p)) => if pos + 1 < p <= ts.len() {
                    generic_args_rest(ts, p, seq![t])
                } else {
                    None
                },
                None => None,
            }
        }
    } else {
        None
    }
}

/// The rest of generic type arguments from `pos`, after those in `acc`.
pub open spec fn generic_args_rest(ts: Seq<Token>, pos: int, acc: Seq<TypeShape>) -> Option<(Seq<TypeShape>, int)>
    decreases ts.len() - pos, 0int,
{
    if 0 <= pos < ts.len() {
        if ts[pos].kind is Comma {
            if pos + 1 < ts.len() && ts[pos + 1].kind is Greater {
                Some((acc, pos + 2))
            } else {
                match type_at(ts, pos + 1) {
                    Some((t, p)) => if pos + 1 < p <= ts.len() {
                        generic_args_rest(ts, p, acc.push(t))
                    } else {
                        None
                    },
                    None => None,
                }
            }
        } else if ts[pos].kind is Greater {
            Some((acc, pos + 1))
        } else {
            None
        }
    } else {
        None
    }
}

/// A result and final position that match the shape of a type the grammar
/// gives, or an error where it gives none.
pub open spec fn type_parsed_as(o: Option<(TypeShape, int)>, r: Result<TypeAnn, Error>, q: int) -> bool {
    match o {
        Some((sh, p)) => r matches Ok(t) && type_view(t) == sh && q == p,
        None => r is Err,
    }
}

/// A result and final position that match the shapes of types the grammar
/// gives, or an error where it gives none.
pub open spec fn types_parsed_as(o: Option<(Seq<TypeShape>, int)>, r: Result<Vec<TypeAnn>, Error>, q: int) -> bool {
    match o {
        Some((shs, p)) => r matches Ok(v) && types_view(v@) == shs && q == p,
        None => r is Err,
    }
}

/// A generic parameter as the specifications see it: its name, its trait
/// bounds in order, and its span.
pub open spec fn generic_param_view(g: GenericParam) -> (Seq<char>, Seq<TraitBound>, Span) {
    (g.name@, g.bounds@, g.span)
}

/// The views of several generic parameters, in order.
pub open spec fn generic_params_view(gs: Seq<GenericParam>) -> Seq<(Seq<char>, Seq<TraitBound>, Span)> {
    gs.map_values(|g: GenericParam| generic_param_view(g))
}

/// The trait bound named by the token at `pos`.
pub open spec fn trait_bound_at(ts: Seq<Token>, pos: int) -> Option<TraitBound> {
    if 0 <= pos < ts.len() && ts[pos].kind is Identifier {
        Some(TraitBound { trait_name: ts[pos].kind->Identifier_0, span: token_span(ts, pos, pos) })
    } else {
        None
    }
}

/// Further bounds `+ B` from `pos`, after those in `acc`.
pub open spec fn bounds_rest(ts: Seq<Token>, pos: int, acc: Seq<TraitBound>) -> Option<(Seq<TraitBound>, int)>
    decreases ts.len() - pos,
{
    if 0 <= pos < ts.len() && ts[pos].kind is Plus {
        match trait_bound_at(ts, pos + 1) {
            Some(b) => bounds_rest(ts, pos + 2, acc.push(b)),
            None => None,
        }
    } else {
        Some((acc, pos))
    }
}

/// A generic parameter at `pos`: a name, and `: A + B` bounds if a colon
/// follows.
pub open spec fn generic_param_at(ts: Seq<Token>, pos: int) -> Option<((Seq<char>, Seq<TraitBound>, Span), int)> {
    if 0 <= pos < ts.len() && ts[pos].kind is Identifier {
        let n = ts[pos].kind->Identifier_0;
        if pos + 1 < ts.len() && ts[pos + 1].kind is Colon {
            match trait_bound_at(ts, pos + 2) {
                Some(b) => match bounds_rest(ts, pos + 3, seq![b]) {
                    Some((bs, q)) => if pos < q <= ts.len() {
                        Some(((n@, bs, token_span(ts, pos, q - 1)), q))
                    } else {
                        None
                    },
                    None => None,
                },
                None => None,
            }
        } else {
            Some(((n@, Seq::empty(), token_span(ts, pos, pos)), pos + 1))
        }
    } else {
        None
    }
}

/// The rest of a generic parameter list from `pos`, after those in `acc`.
pub open spec fn generic_params_rest(
    ts: Seq<Token>,
    pos: int,
    acc: Seq<(Seq<char>, Seq<TraitBound>, Span)>,
) -> Option<(Seq<(Seq<char>, Seq<TraitBound>, Span)>, int)>
    decreases ts.len() - pos,
{
    if 0 <= pos < ts.len() {
        if ts[pos].kind is Comma {
            if pos + 1 < ts.len() && ts[pos + 1].kind is Greater {
                Some((acc, pos + 2))
            } else {
                match generic_param_at(ts, pos + 1) {
                    Some((g, q)) => if pos + 1 < q <= ts.len() {
                        generic_params_rest(ts, q, acc.push(g))
                    } else {
                        None
                    },
                    None => None,
                }
            }
        } else if ts[pos].kind is Greater {
            Some((acc, pos + 1))
        } else {
            None
        }
    } else {
        None
    }
}

/// Whether a generic parameter list, read from `pos` just after one of its
/// parameters, stops at a token that neither continues nor closes it: its
/// parameters all read, and then neither `,` nor `>` follows one of them.
pub open spec fn params_unclosed_rest(ts: Seq<Token>, pos: int) -> bool
    decreases ts.len() - pos,
{
    if 0 <= pos < ts.len() {
        if ts[pos].kind is Comma {
            if pos + 1 < ts.len() && ts[pos + 1].kind is Greater {
                false
            } else {
                match generic_param_at(ts, pos + 1) {
                    Some((g, q)) => if pos + 1 < q <= ts.len() {
                        params_unclosed_rest(ts, q)
                    } else {
                        false
                    },
                    None => false,
                }
            }
        } else {
            !(ts[pos].kind is Greater)
        }
    } else {
        false
    }
}

/// Whether generic parameters at `pos` are left unclosed: `<`, then
/// parameters that all read, with no `>` after them.
pub open spec fn generics_unclosed(ts: Seq<Token>, pos: int) -> bool {
    &&& 0 <= pos && pos + 1 < ts.len()
    &&& ts[pos].kind is Less
    &&& !(ts[pos + 1].kind is Greater)
    &&& match generic_param_at(ts, pos + 1) {
        Some((g, q)) => pos + 1 < q <= ts.len() && params_unclosed_rest(ts, q),
        None => false,
    }
}

/// Generic parameters `<...>` at `pos`: their views, the span of the whole
/// list, and the position after it.
pub open spec fn generic_params_at(ts: Seq<Token>, pos: int) -> Option<
    (Seq<(Seq<char>, Seq<TraitBound>, Span)>, Span, int),
> {
    if 0 <= pos && pos + 1 < ts.len() && ts[pos].kind is Less {
        if ts[pos + 1].kind is Greater {
            Some((Seq::empty(), token_span(ts, pos, pos + 1), pos + 2))
        } else {
            match generic_param_at(ts, pos + 1) {
                Some((g, q)) => if pos + 1 < q <= ts.len() {
                    match generic_params_rest(ts, q, seq![g]) {
                        Some((gs, r)) => if q < r <= ts.len() {
                            Some((gs, token_span(ts, pos, r - 1), r))
                        } else {
                            None
                        },
                        None => None,
                    }
                } else {
                    None
                },
                None => None,
            }
        }
    } else {
        None
    }
}

/// A result and final position that match generic parameters the grammar
/// gives, or an error where it gives none.
pub open spec fn generics_parsed_as(
    o: Option<(Seq<(Seq<char>, Seq<TraitBound>, Span)>, Span, int)>,
    r: Result<GenericParams, Error>,
    q: int,
) -> bool {
    match o {
        Some((gs, sp, p)) => r matches Ok(g) && generic_params_view(g.params@) == gs && g.span == sp && q == p,
        None => r is Err,
    }
}

/// The fields of an enum variant as the specifications see them.
pub enum FieldsShape {
    Unit,
    Tuple(Seq<TypeShape>),
    Struct(Seq<(Seq<char>, TypeShape, Span)>),
}

/// A field as the specifications see it: name, type shape and span.
pub open spec fn field_view(f: StructField) -> (Seq<char>, TypeShape, Span) {
    (f.name@, type_view(f.type_ann), f.span)
}

/// The views of several fields, in order.
pub open spec fn fields_view(fs: Seq<StructField>) -> Seq<(Seq<char>, TypeShape, Span)> {
    fs.map_values(|f: StructField| field_view(f))
}

/// The shape of an enum variant's fields.
pub open spec fn variant_fields_view(f: EnumVariantFields) -> FieldsShape {
    match f {
        EnumVariantFields::Unit => FieldsShape::Unit,
        EnumVariantFields::Tuple(ts) => FieldsShape::Tuple(types_view(ts@)),
        EnumVariantFields::Struct(fs) => FieldsShape::Struct(fields_view(fs@)),
    }
}

/// An enum variant as the specifications see it: name, fields and span.
pub open spec fn variant_view(v: EnumVariant) -> (Seq<char>, FieldsShape, Span) {
    (v.name@, variant_fields_view(v.fields), v.span)
}

/// The views of several enum variants, in order.
pub open spec fn variants_view(vs: Seq<EnumVariant>) -> Seq<(Seq<char>, FieldsShape, Span)> {
    vs.map_values(|v: EnumVariant| variant_view(v))
}

/// The first position from `pos` on that is not a line break.
pub open spec fn skip_newlines_from(ts: Seq<Token>, pos: int) -> int
    decreases ts.len() - pos,
{
    if 0 <= pos < ts.len() && ts[pos].kind is Newline {
        skip_newlines_from(ts, pos + 1)
    } else {
        pos
    }
}

/// Fields `name: Type` from `pos`, after those in `acc`, separated by
/// commas or line breaks, up to the `}` that closes them; its position is
/// returned.
pub open spec fn struct_fields_from(
    ts: Seq<Token>,
    pos: int,
    acc: Seq<(Seq<char>, TypeShape, Span)>,
) -> Option<(Seq<(Seq<char>, TypeShape, Span)>, int)>
    decreases ts.len() - pos,
{
    if !(0 <= pos < ts.len()) {
        None
    } else if ts[pos].kind is RightBrace {
        Some((acc, pos))
    } else if ts[pos].kind is Newline {
        struct_fields_from(ts, pos + 1, acc)
    } else if ts[pos].kind is Identifier && pos + 1 < ts.len() && ts[pos + 1].kind is Colon {
        match type_at(ts, pos + 2) {
            Some((t, p)) => if pos + 2 < p < ts.len() {
                let f = (ts[pos].kind->Identifier_0@, t, token_span(ts, pos, p - 1));
                if ts[p].kind is RightBrace {
                    Some((acc.push(f), p))
                } else if ts[p].kind is Comma || ts[p].kind is Newline {
                    let q = skip_newlines_from(ts, p + 1);
                    if p < q <= ts.len() {
                        struct_fields_from(ts, q, acc.push(f))
                    } else {
                        None
                    }
                } else {
                    None
                }
            } else {
                None
            },
            None => None,
        }
    } else {
        None
    }
}

/// An enum variant at `pos`: a name, then `(types)` or `{ fields }` or
/// nothing.
pub open spec fn variant_at(ts: Seq<Token>, pos: int) -> Option<((Seq<char>, FieldsShape, Span), int)> {
    if 0 <= pos && pos + 1 < ts.len() && ts[pos].kind is Identifier {
        let n = ts[pos].kind->Identifier_0@;
        if ts[pos + 1].kind is LeftParen {
            let list = if pos + 2 < ts.len() && ts[pos + 2].kind is RightParen {
                Some((Seq::<TypeShape>::empty(), pos + 2))
            } else {
                type_list_from(ts, pos + 2, Seq::empty())
            };
            match list {
                Some((tys, p)) => if pos + 1 < p < ts.len() && ts[p].kind is RightParen {
                    Some(((n, FieldsShape::Tuple(tys), token_span(ts, pos, p)), p + 1))
                } else {
                    None
                },
                None => None,
            }
        } else if ts[pos + 1].kind is LeftBrace {
            match struct_fields_from(ts, pos + 2, Seq::empty()) {
                Some((fs, p)) => if pos + 1 < p < ts.len() && ts[p].kind is RightBrace {
                    Some(((n, FieldsShape::Struct(fs), token_span(ts, pos, p)), p + 1))
                } else {
                    None
                },
                None => None,
            }
        } else {
            Some(((n, FieldsShape::Unit, token_span(ts, pos, pos)), pos + 1))
        }
    } else {
        None
    }
}

/// Enum variants from `pos`, after those in `acc`, separated by commas or
/// line breaks, up to the `}` that closes them; its position is returned.
pub open spec fn variants_from(
    ts: Seq<Token>,
    pos: int,
    acc: Seq<(Seq<char>, FieldsShape, Span)>,
) -> Option<(Seq<(Seq<char>, FieldsShape, Span)>, int)>
    decreases ts.len() - pos,
{
    if !(0 <= pos < ts.len()) {
        None
    } else if ts[pos].kind is RightBrace {
        Some((acc, pos))
    } else if ts[pos].kind is Newline {
        variants_from(ts, pos + 1, acc)
    } else {
        match variant_at(ts, pos) {
            Some((v, p)) => if pos < p < ts.len() {
                if ts[p].kind is RightBrace {
                    Some((acc.push(v), p))
                } else if ts[p].kind is Comma || ts[p].kind is Newline {
                    let q = skip_newlines_from(ts, p + 1);
                    if p < q <= ts.len() {
                        variants_from(ts, q, acc.push(v))
                    } else {
                        None
                    }
                } else {
                    None
                }
            } else {
                None
            },
            None => None,
        }
    }
}

/// Optional generic parameters at `pos`: none unless a `<` is there.
pub open spec fn optional_generics_at(ts: Seq<Token>, pos: int) -> Option<
    (Option<(Seq<(Seq<char>, Seq<TraitBound>, Span)>, Span)>, int),
> {
    if 0 <= pos < ts.len() && ts[pos].kind is Less {
        match generic_params_at(ts, pos) {
            Some((gs, sp, q)) => Some((Some((gs, sp)), q)),
            None => None,
        }
    } else {
        Some((None, pos))
    }
}

/// Whether parsed generic parameters match what the grammar gives.
pub open spec fn generics_match(
    g: Option<GenericParams>,
    o: Option<(Seq<(Seq<char>, Seq<TraitBound>, Span)>, Span)>,
) -> bool {
    match (g, o) {
        (Some(gp), Some((gs, sp))) => generic_params_view(gp.params@) == gs && gp.span == sp,
        (None, None) => true,
        _ => false,
    }
}

/// An enum declaration after `enum` at `pos`: its name, generic
/// parameters, variants, and the position after its `}`.
pub open spec fn enum_at(ts: Seq<Token>, pos: int) -> Option<
    (Seq<char>, Option<(Seq<(Seq<char>, Seq<TraitBound>, Span)>, Span)>, Seq<(Seq<char>, FieldsShape, Span)>, int),
> {
    if 0 <= pos < ts.len() && ts[pos].kind is Identifier {
        match optional_generics_at(ts, pos + 1) {
            Some((g, q)) => if pos < q < ts.len() && ts[q].kind is LeftBrace {
                match variants_from(ts, q + 1, Seq::empty()) {
                    Some((vs, r)) => if q < r < ts.len() && ts[r].kind is RightBrace {
                        Some((ts[pos].kind->Identifier_0@, g, vs, r + 1))
                    } else {
                        None
                    },
                    None => None,
                }
            } else {
                None
            },
            None => None,
        }
    } else {
        None
    }
}

/// A struct declaration after `struct` at `pos`: its name, generic
/// parameters, fields, and the position after its `}`.
pub open spec fn struct_at(ts: Seq<Token>, pos: int) -> Option<
    (Seq<char>, Option<(Seq<(Seq<char>, Seq<TraitBound>, Span)>, Span)>, Seq<(Seq<char>, TypeShape, Span)>, int),
> {
    if 0 <= pos < ts.len() && ts[pos].kind is Identifier {
        match optional_generics_at(ts, pos + 1) {
            Some((g, q)) => if pos < q < ts.len() && ts[q].kind is LeftBrace {
                match struct_fields_from(ts, q + 1, Seq::empty()) {
                    Some((fs, r)) => if q < r < ts.len() && ts[r].kind is RightBrace {
                        Some((ts[pos].kind->Identifier_0@, g, fs, r + 1))
                    } else {
                        None
                    },
                    None => None,
                }
            } else {
                None
            },
            None => None,
        }
    } else {
        None
    }
}

/// A parameter as the specifications see it: its name and type shape.
pub open spec fn param_view(p: Param) -> (Seq<char>, TypeShape) {
    (p.name@, type_view(p.type_ann))
}

/// The views of several parameters, in order.
pub open spec fn params_view(ps: Seq<Param>) -> Seq<(Seq<char>, TypeShape)> {
    ps.map_values(|p: Param| param_view(p))
}

/// Parameters `name: Type` from `pos`, after those in `acc`, separated by
/// commas, up to and including the `)`.
pub open spec fn params_rest(ts: Seq<Token>, pos: int, acc: Seq<(Seq<char>, TypeShape)>) -> Option<
    (Seq<(Seq<char>, TypeShape)>, int),
>
    decreases ts.len() - pos,
{
    if 0 <= pos && pos + 1 < ts.len() && ts[pos].kind is Identifier && ts[pos + 1].kind is Colon {
        match type_at(ts, pos + 2) {
            Some((t, p)) => if pos + 2 < p < ts.len() {
                let acc2 = acc.push((ts[pos].kind->Identifier_0@, t));
                if ts[p].kind is Comma {
                    params_rest(ts, p + 1, acc2)
                } else if ts[p].kind is RightParen {
                    Some((acc2, p + 1))
                } else {
                    None
                }
            } else {
                None
            },
            None => None,
        }
    } else {
        None
    }
}

/// A parameter list after its `(` at `pos`, up to and including its `)`.
pub open spec fn params_at(ts: Seq<Token>, pos: int) -> Option<(Seq<(Seq<char>, TypeShape)>, int)> {
    if 0 <= pos < ts.len() && ts[pos].kind is RightParen {
        Some((Seq::empty(), pos + 1))
    } else {
        params_rest(ts, pos, Seq::empty())
    }
}

/// The head of a function at its name `pos`: name, generic parameters
/// (where they are allowed), parameters, return type, and the position
/// just after the `{` that opens its body.
pub open spec fn fn_head_at(ts: Seq<Token>, pos: int, allow_generics: bool) -> Option<
    (
        Seq<char>,
        Option<(Seq<(Seq<char>, Seq<TraitBound>, Span)>, Span)>,
        Seq<(Seq<char>, TypeShape)>,
        Option<TypeShape>,
        int,
    ),
> {
    if 0 <= pos < ts.len() && ts[pos].kind is Identifier {
        let g = if allow_generics {
            optional_generics_at(ts, pos + 1)
        } else {
            Some((None, pos + 1))
        };
        match g {
            Some((gs, q)) => if pos < q < ts.len() && ts[q].kind is LeftParen {
                match params_at(ts, q + 1) {
                    Some((ps, p)) => if q < p < ts.len() {
                        let ret = if ts[p].kind is Arrow {
                            match type_at(ts, p + 1) {
                                Some((t, p2)) => Some((Some(t), p2)),
                                None => None,
                            }
                        } else {
                            Some((None, p))
                        };
                        match ret {
                            Some((rt, b)) => if p <= b < ts.len() && ts[b].kind is LeftBrace {
                                Some((ts[pos].kind->Identifier_0@, gs, ps, rt, b + 1))
                            } else {
                                None
                            },
                            None => None,
                        }
                    } else {
                        None
                    },
                    None => None,
                }
            } else {
                None
            },
            None => None,
        }
    } else {
        None
    }
}

/// The head of a `let` at its name `pos`: the name, the type after `:` if
/// there is one, and the position after them.
pub open spec fn let_head_at(ts: Seq<Token>, pos: int) -> Option<(Seq<char>, Option<TypeShape>, int)> {
    if 0 <= pos && pos + 1 < ts.len() && ts[pos].kind is Identifier {
        if ts[pos + 1].kind is Colon {
            match type_at(ts, pos + 2) {
                Some((t, p)) => Some((ts[pos].kind->Identifier_0@, Some(t), p)),
                None => None,
            }
        } else {
            Some((ts[pos].kind->Identifier_0@, None, pos + 1))
        }
    } else {
        None
    }
}

/// Exported names from `pos`, after those in `acc`, up to and including
/// the `}`: `name` or `name as alias`, separated by commas.
pub open spec fn export_names_from(ts: Seq<Token>, pos: int, acc: Seq<ExportSpecifier>) -> Option<
    (Seq<ExportSpecifier>, int),
>
    decreases ts.len() - pos,
{
    if !(0 <= pos < ts.len()) {
        None
    } else if ts[pos].kind is RightBrace {
        Some((acc, pos + 1))
    } else if ts[pos].kind is Identifier && pos + 1 < ts.len() {
        let n = ts[pos].kind->Identifier_0;
        let named = if ts[pos + 1].kind is As {
            if pos + 2 < ts.len() && ts[pos + 2].kind is Identifier {
                Some((ExportSpecifier { name: n, alias: Some(ts[pos + 2].kind->Identifier_0) }, pos + 3))
            } else {
                None
            }
        } else {
            Some((ExportSpecifier { name: n, alias: None }, pos + 1))
        };
        match named {
            Some((spec, p)) => if pos < p < ts.len() {
                if ts[p].kind is Comma {
                    export_names_from(ts, p + 1, acc.push(spec))
                } else if ts[p].kind is RightBrace {
                    Some((acc.push(spec), p + 1))
                } else {
                    None
                }
            } else {
                None
            },
            None => None,
        }
    } else {
        None
    }
}

/// Whether a token is the name `default`.
pub open spec fn is_default_keyword(k: TokenKind) -> bool {
    k matches TokenKind::Identifier(n) && n@ == "default"@
}

/// A pattern as the specifications see it: its form, its parts and its
/// span.
pub enum PatternShape {
    Wildcard(Span),
    Identifier(Seq<char>, Span),
    Literal(Literal, Span),
    Array(Seq<PatternShape>, Span),
    Object(Seq<(Seq<char>, Option<PatternShape>)>, Span),
    Or(Seq<PatternShape>, Span),
}

/// The shape of a pattern.
pub open spec fn pattern_view(p: Pattern) -> PatternShape
    decreases p,
{
    match p.kind {
        PatternKind::Wildcard => PatternShape::Wildcard(p.span),
        PatternKind::Identifier(n) => PatternShape::Identifier(n@, p.span),
        PatternKind::Literal(l) => PatternShape::Literal(l, p.span),
        PatternKind::Array(ps) => PatternShape::Array(patterns_view(ps@), p.span),
        PatternKind::Object(fs) => PatternShape::Object(object_fields_view(fs@), p.span),
        PatternKind::Or(ps) => PatternShape::Or(patterns_view(ps@), p.span),
    }
}

/// The shapes of several patterns, in order.
pub open spec fn patterns_view(ps: Seq<Pattern>) -> Seq<PatternShape>
    decreases ps,
{
    if ps.len() == 0 {
        Seq::empty()
    } else {
        patterns_view(ps.drop_last()).push(pattern_view(ps.last()))
    }
}

/// The shapes of the fields of an object pattern, in order.
pub open spec fn object_fields_view(fs: Seq<(String, Option<Pattern>)>) -> Seq<(Seq<char>, Option<PatternShape>)>
    decreases fs,
{
    if fs.len() == 0 {
        Seq::empty()
    } else {
        let last = fs.last();
        object_fields_view(fs.drop_last()).push(
            (
                last.0@,
                match last.1 {
                    Some(q) => Some(pattern_view(q)),
                    None => None,
                },
            ),
        )
    }
}

/// The literal a token writes, if it writes one.
pub open spec fn literal_of(k: TokenKind) -> Option<Literal> {
    match k {
        TokenKind::Number(n) => Some(Literal::Number(n)),
        TokenKind::String(v) => Some(Literal::String(v)),
        TokenKind::True => Some(Literal::Boolean(true)),
        TokenKind::False => Some(Literal::Boolean(false)),
        _ => None,
    }
}

/// A primary pattern at `pos`: `_`, a literal, `[p, ...]`, `{ key, key: p,
/// ... }`, or a name; and the position after it.
pub open spec fn primary_pattern_at(ts: Seq<Token>, pos: int) -> Option<(PatternShape, int)>
    decreases ts.len() - pos, 1int,
{
    if !(0 <= pos < ts.len()) {
        None
    } else if ts[pos].kind is Underscore {
        Some((PatternShape::Wildcard(token_span(ts, pos, pos)), pos + 1))
    } else if literal_of(ts[pos].kind) is Some {
        Some((PatternShape::Literal(literal_of(ts[pos].kind)->0, token_span(ts, pos, pos)), pos + 1))
    } else if ts[pos].kind is LeftBracket {
        let items = if pos + 1 < ts.len() && ts[pos + 1].kind is RightBracket {
            Some((Seq::<PatternShape>::empty(), pos + 1))
        } else {
            pattern_items_from(ts, pos + 1, Seq::empty())
        };
        match items {
            Some((ps, p)) => if pos < p < ts.len() && ts[p].kind is RightBracket {
                Some((PatternShape::Array(ps, token_span(ts, pos, p)), p + 1))
            } else {
                None
            },
            None => None,
        }
    } else if ts[pos].kind is LeftBrace {
        let fields = if pos + 1 < ts.len() && ts[pos + 1].kind is RightBrace {
            Some((Seq::<(Seq<char>, Option<PatternShape>)>::empty(), pos + 1))
        } else {
            object_pattern_fields_from(ts, pos + 1, Seq::empty())
        };
        match fields {
            Some((fs, p)) => if pos < p < ts.len() && ts[p].kind is RightBrace {
                Some((PatternShape::Object(fs, token_span(ts, pos, p)), p + 1))
            } else {
                None
            },
            None => None,
        }
    } else if ts[pos].kind is Identifier {
        Some((PatternShape::Identifier(ts[pos].kind->Identifier_0@, token_span(ts, pos, pos)), pos + 1))
    } else {
        None
    }
}

/// Patterns separated by commas from `pos`, after those in `acc`.
pub open spec fn pattern_items_from(ts: Seq<Token>, pos: int, acc: Seq<PatternShape>) -> Option<
    (Seq<PatternShape>, int),
>
    decreases ts.len() - pos, 2int,
{
    match primary_pattern_at(ts, pos) {
        Some((pt, p)) => if 0 <= pos < p < ts.len() {
            if ts[p].kind is Comma {
                pattern_items_from(ts, p + 1, acc.push(pt))
            } else {
                Some((acc.push(pt), p))
            }
        } else {
            None
        },
        None => None,
    }
}

/// Fields `key` or `key: pattern` of an object pattern from `pos`, after
/// those in `acc`, separated by commas.
pub open spec fn object_pattern_fields_from(
    ts: Seq<Token>,
    pos: int,
    acc: Seq<(Seq<char>, Option<PatternShape>)>,
) -> Option<(Seq<(Seq<char>, Option<PatternShape>)>, int)>
    decreases ts.len() - pos, 2int,
{
    if 0 <= pos && pos + 1 < ts.len() && ts[pos].kind is Identifier {
        let key = ts[pos].kind->Identifier_0@;
        let field = if ts[pos + 1].kind is Colon {
            match primary_pattern_at(ts, pos + 2) {
                Some((pt, p)) => Some(((key, Some(pt)), p)),
                None => None,
            }
        } else {
            Some(((key, None::<PatternShape>), pos + 1))
        };
        match field {
            Some((f, p)) => if pos < p < ts.len() {
                if ts[p].kind is Comma {
                    object_pattern_fields_from(ts, p + 1, acc.push(f))
                } else {
                    Some((acc.push(f), p))
                }
            } else {
                None
            },
            None => None,
        }
    } else {
        None
    }
}

/// A pattern at `pos`: primary patterns separated by `|`; one alone is
/// itself, several make an or-pattern.
pub open spec fn pattern_at(ts: Seq<Token>, pos: int) -> Option<(PatternShape, int)> {
    match primary_pattern_at(ts, pos) {
        Some((first, p)) => if 0 <= pos < p < ts.len() && ts[p].kind is Pipe {
            match or_rest(ts, p, seq![first]) {
                Some((ps, q)) => if p < q <= ts.len() {
                    Some((PatternShape::Or(ps, token_span(ts, pos, q - 1)), q))
                } else {
                    None
                },
                None => None,
            }
        } else {
            Some((first, p))
        },
        None => None,
    }
}

/// Further alternatives `| p` from `pos`, after those in `acc`.
pub open spec fn or_rest(ts: Seq<Token>, pos: int, acc: Seq<PatternShape>) -> Option<(Seq<PatternShape>, int)>
    decreases ts.len() - pos,
{
    if 0 <= pos < ts.len() && ts[pos].kind is Pipe {
        match primary_pattern_at(ts, pos + 1) {
            Some((pt, p)) => if pos + 1 < p <= ts.len() {
                or_rest(ts, p, acc.push(pt))
            } else {
                None
            },
            None => None,
        }
    } else {
        Some((acc, pos))
    }
}

/// A result and final position that match a pattern the grammar gives, or
/// an error where it gives none.
pub open spec fn pattern_parsed_as(o: Option<(PatternShape, int)>, r: Result<Pattern, Error>, q: int) -> bool {
    match o {
        Some((sh, p)) => r matches Ok(pt) && pattern_view(pt) == sh && q == p,
        None => r is Err,
    }
}

/// Whether Unicode classes a character as upper case.
pub uninterp spec fn uppercase_char(c: char) -> bool;

/// `char::is_uppercase`: whether the character has Unicode's `Uppercase`
/// property. The contract names that answer, a function of the character
/// alone, and states it for ASCII, where exactly `A` to `Z` have it.
#[verifier::external_body]
fn char_is_uppercase(c: char) -> (b: bool)
    ensures
        b == uppercase_char(c),
        65 <= (c as u32) <= 90 ==> b,
        (c as u32) < 128 && !(65 <= (c as u32) <= 90) ==> !b,
{
    c.is_uppercase()
}

/// The number of bytes UTF-8 takes for a character.
pub open spec fn utf8_width(c: char) -> nat {
    if (c as u32) < 0x80 {
        1
    } else if (c as u32) < 0x800 {
        2
    } else if (c as u32) < 0x10000 {
        3
    } else {
        4
    }
}

/// The number of bytes UTF-8 takes for a text.
pub open spec fn utf8_len(s: Seq<char>) -> nat
    decreases s.len(),
{
    if s.len() == 0 {
        0
    } else {
        utf8_len(s.drop_last()) + utf8_width(s.last())
    }
}

/// The UTF-8 length of a text, or 4 where it is 4 or more.
fn utf8_len_up_to_four(s: &str) -> (n: usize)
    ensures
        n as nat == if utf8_len(s@) < 4 { utf8_len(s@) } else { 4 },
{
    let cs = chars_of(s);
    let mut n: usize = 0;
    let mut i: usize = 0;
    while i < cs.len()
        invariant
            cs@ == s@,
            i <= cs.len(),
            n as nat == if utf8_len(s@.take(i as int)) < 4 { utf8_len(s@.take(i as int)) } else { 4 },
        decreases cs.len() - i,
    {
        let c = cs[i];
        let w: usize = if (c as u32) < 0x80 {
            1
        } else if (c as u32) < 0x800 {
            2
        } else if (c as u32) < 0x10000 {
            3
        } else {
            4
        };
        assert(s@.take(i + 1).drop_last() =~= s@.take(i as int));
        n = if n + w < 4 { n + w } else { 4 };
        i = i + 1;
    }
    assert(s@.take(cs.len() as int) =~= s@);
    n
}

/// The names that always stand for a type parameter.
pub open spec fn conventional_type_param(name: Seq<char>) -> bool {
    ||| name == "T"@
    ||| name == "U"@
    ||| name == "K"@
    ||| name == "V"@
    ||| name == "E"@
    ||| name == "R"@
    ||| name == "Self"@
    ||| name == "TKey"@
    ||| name == "TValue"@
    ||| name == "TItem"@
    ||| name == "TResult"@
    ||| name == "TError"@
}

/// Whether a type name is read as a type parameter: a name of at most three
/// bytes that starts with an upper-case letter, or one of the conventional
/// names.
pub open spec fn is_type_param_name(name: Seq<char>) -> bool {
    if name.len() == 0 {
        false
    } else if utf8_len(name) <= 3 && uppercase_char(name[0]) {
        true
    } else {
        utf8_len(name) != 1 && conventional_type_param(name)
    }
}

/// A parser over a sequence of tokens, with its position in it.
pub struct Parser {
    tokens: Vec<Token>,
    current: usize,
}

impl Parser {
    /// The tokens being parsed.
    pub closed spec fn tokens(&self) -> Seq<Token> {
        self.tokens@
    }

    /// The index of the next token to read.
    pub closed spec fn position(&self) -> int {
        self.current as int
    }

    /// The tokens end with the end-of-input token and the position is
    /// within them.
    pub open spec fn wf(&self) -> bool {
        ends_with_eof(self.tokens()) && 0 <= self.position() < self.tokens().len()
    }

    /// The kind of the next token.
    pub open spec fn current_kind(&self) -> TokenKind {
        self.tokens()[self.position()].kind
    }

    /// Whether the next token is the end of the input.
    pub open spec fn at_end(&self) -> bool {
        self.current_kind() is Eof
    }

    /// How many tokens are left, the end-of-input token included.
    pub open spec fn remaining(&self) -> int {
        self.tokens().len() - self.position()
    }

    /// Whether the next token is of the same variant as `kind`.
    pub open spec fn sees(&self, kind: TokenKind) -> bool {
        !self.at_end() && kind_tag(self.current_kind()) == kind_tag(kind)
    }

    /// A parser at the start of the given tokens.
    pub fn new(tokens: Vec<Token>) -> (p: Self)
        ensures
            p.tokens() == tokens@,
            p.position() == 0,
    {
        Parser { tokens, current: 0 }
    }

    fn peek_kind(&self) -> (k: &TokenKind)
        requires
            self.wf(),
        ensures
            *k == self.current_kind(),
    {
        &self.tokens[self.current].kind
    }

    fn is_at_end(&self) -> (b: bool)
        requires
            self.wf(),
        ensures
            b == self.at_end(),
    {
        match self.peek_kind() {
            TokenKind::Eof => true,
            _ => false,
        }
    }

    fn check(&self, kind: &TokenKind) -> (b: bool)
        requires
            self.wf(),
        ensures
            b == self.sees(*kind),
    {
        if self.is_at_end() {
            false
        } else {
            self.peek_kind().same_variant(kind)
        }
    }

    fn advance(&mut self)
        requires
            old(self).wf(),
        ensures
            final(self).wf(),
            final(self).tokens() == old(self).tokens(),
            final(self).position() == if old(self).at_end() {
                old(self).position()
            } else {
                old(self).position() + 1
            },
    {
        if !self.is_at_end() {
            let n: usize = self.tokens.len();
            assert(self.tokens()[n - 1].kind is Eof);
            self.current = self.current + 1;
        }
    }

    fn match_token(&mut self, kind: &TokenKind) -> (b: bool)
        requires
            old(self).wf(),
        ensures
            final(self).wf(),
            final(self).tokens() == old(self).tokens(),
            b == old(self).sees(*kind),
            final(self).position() == if b {
                old(self).position() + 1
            } else {
                old(self).position()
            },
    {
        if self.check(kind) {
            self.advance();
            true
        } else {
            false
        }
    }

    /// Consumes the next token if it is an operator of the given precedence
    /// level, and returns that operator.
    fn match_level_op(&mut self, level: u8) -> (r: Option<BinaryOp>)
        requires
            old(self).wf(),
            2 <= level <= 7,
        ensures
            final(self).wf(),
            final(self).tokens() == old(self).tokens(),
            r == level_op(level as int, old(self).current_kind()),
            r is Some ==> r == binary_op_of(old(self).current_kind()),
            final(self).position() == if r is Some {
                old(self).position() + 1
            } else {
                old(self).position()
            },
    {
        let op = match (level, self.peek_kind()) {
            (2, TokenKind::Star) => Some(BinaryOp::Mul),
            (2, TokenKind::Slash) => Some(BinaryOp::Div),
            (2, TokenKind::Percent) => Some(BinaryOp::Mod),
            (3, TokenKind::Plus) => Some(BinaryOp::Add),
            (3, TokenKind::Minus) => Some(BinaryOp::Sub),
            (4, TokenKind::Less) => Some(BinaryOp::Less),
            (4, TokenKind::Greater) => Some(BinaryOp::Greater),
            (4, TokenKind::LessEquals) => Some(BinaryOp::LessEqual),
            (4, TokenKind::GreaterEquals) => Some(BinaryOp::GreaterEqual),
            (5, TokenKind::EqualsEquals) => Some(BinaryOp::Equal),
            (5, TokenKind::BangEquals) => Some(BinaryOp::NotEqual),
            (6, TokenKind::And) => Some(BinaryOp::And),
            (7, TokenKind::Or) => Some(BinaryOp::Or),
            _ => None,
        };
        if op.is_some() {
            self.advance();
        }
        op
    }

    /// Consumes the next token if it is a unary operator, and returns it.
    fn match_unary_op(&mut self) -> (r: Option<UnaryOp>)
        requires
            old(self).wf(),
        ensures
            final(self).wf(),
            final(self).tokens() == old(self).tokens(),
            r == unary_op_of(old(self).current_kind()),
            final(self).position() == if r is Some {
                old(self).position() + 1
            } else {
                old(self).position()
            },
    {
        let op = UnaryOp::from_token(self.peek_kind());
        if op.is_some() {
            self.advance();
        }
        op
    }

    fn current_location(&self) -> (l: SourceLocation)
        requires
            self.wf(),
        ensures
            l == self.tokens()[self.position()].span.start,
    {
        self.tokens[self.current].span.start
    }

    fn previous_location(&self) -> (l: SourceLocation)
        requires
            self.wf(),
            self.position() > 0,
        ensures
            l == self.tokens()[self.position() - 1].span.end,
    {
        self.tokens[self.current - 1].span.end
    }

    fn error(&self, message: &str) -> (e: Error)
        ensures
            e.kind == ErrorKind::ParseError,
            e.message@ == message@,
    {
        Error::new(ErrorKind::ParseError, message)
    }

    fn consume(&mut self, kind: &TokenKind, message: &str) -> (r: Result<(), Error>)
        requires
            old(self).wf(),
        ensures
            final(self).wf(),
            final(self).tokens() == old(self).tokens(),
            r is Ok == old(self).sees(*kind),
            final(self).position() == if r is Ok {
                old(self).position() + 1
            } else {
                old(self).position()
            },
            r matches Err(e) ==> e.kind == ErrorKind::ParseError && e.message@ == message@,
    {
        if self.match_token(kind) {
            Ok(())
        } else {
            Err(self.error(message))
        }
    }

    fn consume_identifier(&mut self, message: &str) -> (r: Result<String, Error>)
        requires
            old(self).wf(),
        ensures
            final(self).wf(),
            final(self).tokens() == old(self).tokens(),
            match old(self).current_kind() {
                TokenKind::Identifier(name) => r == Ok::<String, Error>(name) && final(self).position()
                    == old(self).position() + 1,
                _ => (r matches Err(e) && e.kind == ErrorKind::ParseError && e.message@ == message@)
                    && final(self).position() == old(self).position(),
            },
    {
        let name = match self.peek_kind() {
            TokenKind::Identifier(name) => Some(name.clone()),
            _ => None,
        };
        match name {
            Some(n) => {
                self.advance();
                Ok(n)
            },
            None => Err(self.error(message)),
        }
    }

    /// Parses one expression, starting at the current token: the result is
    /// the one `assignment_at` gives, where operators bind by precedence,
    /// binary operators group to the left and assignment to the right.
    pub fn parse_expression(&mut self) -> (r: Result<Expr, Error>)
        requires
            old(self).wf(),
        ensures
            parse_step(*old(self), *final(self), r),
            !starts_expression(old(self).current_kind()) ==> (r matches Err(e) && e.message@
                == "Expected expression"@) && final(self).position() == old(self).position(),
            parsed_as(assignment_at(old(self).tokens(), old(self).position()), r, final(self).position()),
        decreases old(self).remaining(), 20int,
    {
        self.parse_assignment()
    }

    fn parse_assignment(&mut self) -> (r: Result<Expr, Error>)
        requires
            old(self).wf(),
        ensures
            parse_step(*old(self), *final(self), r),
            !starts_expression(old(self).current_kind()) ==> (r matches Err(e) && e.message@
                == "Expected expression"@) && final(self).position() == old(self).position(),
            parsed_as(assignment_at(old(self).tokens(), old(self).position()), r, final(self).position()),
        decreases old(self).remaining(), 19int,
    {
        let expr = self.parse_or()?;
        if self.match_token(&TokenKind::Equals) {
            let value = self.parse_assignment()?;
            let span = Span::new(expr.span.start, value.span.end);
            return Ok(Expr { kind: ExprKind::Assign { target: Box::new(expr), value: Box::new(value) }, span });
        }
        Ok(expr)
    }

    fn parse_or(&mut self) -> (r: Result<Expr, Error>)
        requires
            old(self).wf(),
        ensures
            parse_step(*old(self), *final(self), r),
            !starts_expression(old(self).current_kind()) ==> (r matches Err(e) && e.message@
                == "Expected expression"@) && final(self).position() == old(self).position(),
            parsed_as(level_at(old(self).tokens(), old(self).position(), 7), r, final(self).position()),
        decreases old(self).remaining(), 18int,
    {
        let mut expr = self.parse_and()?;
        loop
            invariant
                self.wf(),
                self.tokens() == old(self).tokens(),
                old(self).position() < self.position(),
                starts_expression(old(self).current_kind()),
                level_rest(old(self).tokens(), self.position(), expr_view(expr), 7) == level_at(
                    old(self).tokens(),
                    old(self).position(),
                    7,
                ),
            ensures
                self.wf(),
                self.tokens() == old(self).tokens(),
                old(self).position() < self.position(),
                level_at(old(self).tokens(), old(self).position(), 7) == Some((expr_view(expr), self.position())),
            decreases self.remaining(),
        {
            let m = self.match_level_op(7);
            let op = match m {
                Some(op) => op,
                None => break,
            };
            let right = self.parse_and()?;
            let span = Span::new(expr.span.start, right.span.end);
            expr = Expr { kind: ExprKind::Binary { left: Box::new(expr), op, right: Box::new(right) }, span };
        }
        Ok(expr)
    }

    fn parse_and(&mut self) -> (r: Result<Expr, Error>)
        requires
            old(self).wf(),
        ensures
            parse_step(*old(self), *final(self), r),
            !starts_expression(old(self).current_kind()) ==> (r matches Err(e) && e.message@
                == "Expected expression"@) && final(self).position() == old(self).position(),
            parsed_as(level_at(old(self).tokens(), old(self).position(), 6), r, final(self).position()),
        decreases old(self).remaining(), 17int,
    {
        let mut expr = self.parse_equality()?;
        loop
            invariant
                self.wf(),
                self.tokens() == old(self).tokens(),
                old(self).position() < self.position(),
                starts_expression(old(self).current_kind()),
                level_rest(old(self).tokens(), self.position(), expr_view(expr), 6) == level_at(
                    old(self).tokens(),
                    old(self).position(),
                    6,
                ),
            ensures
                self.wf(),
                self.tokens() == old(self).tokens(),
                old(self).position() < self.position(),
                level_at(old(self).tokens(), old(self).position(), 6) == Some((expr_view(expr), self.position())),
            decreases self.remaining(),
        {
            let m = self.match_level_op(6);
            let op = match m {
                Some(op) => op,
                None => break,
            };
            let right = self.parse_equality()?;
            let span = Span::new(expr.span.start, right.span.end);
            expr = Expr { kind: ExprKind::Binary { left: Box::new(expr), op, right: Box::new(right) }, span };
        }
        Ok(expr)
    }

    fn parse_equality(&mut self) -> (r: Result<Expr, Error>)
        requires
            old(self).wf(),
        ensures
            parse_step(*old(self), *final(self), r),
            !starts_expression(old(self).current_kind()) ==> (r matches Err(e) && e.message@
                == "Expected expression"@) && final(self).position() == old(self).position(),
            parsed_as(level_at(old(self).tokens(), old(self).position(), 5), r, final(self).position()),
        decreases old(self).remaining(), 16int,
    {
        let mut expr = self.parse_comparison()?;
        loop
            invariant
                self.wf(),
                self.tokens() == old(self).tokens(),
                old(self).position() < self.position(),
                starts_expression(old(self).current_kind()),
                level_rest(old(self).tokens(), self.position(), expr_view(expr), 5) == level_at(
                    old(self).tokens(),
                    old(self).position(),
                    5,
                ),
            ensures
                self.wf(),
                self.tokens() == old(self).tokens(),
                old(self).position() < self.position(),
                level_at(old(self).tokens(), old(self).position(), 5) == Some((expr_view(expr), self.position())),
            decreases self.remaining(),
        {
            let m = self.match_level_op(5);
            let op = match m {
                Some(op) => op,
                None => break,
            };
            let right = self.parse_comparison()?;
            let span = Span::new(expr.span.start, right.span.end);
            expr = Expr { kind: ExprKind::Binary { left: Box::new(expr), op, right: Box::new(right) }, span };
        }
        Ok(expr)
    }

    fn parse_comparison(&mut self) -> (r: Result<Expr, Error>)
        requires
            old(self).wf(),
        ensures
            parse_step(*old(self), *final(self), r),
            !starts_expression(old(self).current_kind()) ==> (r matches Err(e) && e.message@
                == "Expected expression"@) && final(self).position() == old(self).position(),
            parsed_as(level_at(old(self).tokens(), old(self).position(), 4), r, final(self).position()),
        decreases old(self).remaining(), 15int,
    {
        let mut expr = self.parse_addition()?;
        loop
            invariant
                self.wf(),
                self.tokens() == old(self).tokens(),
                old(self).position() < self.position(),
                starts_expression(old(self).current_kind()),
                level_rest(old(self).tokens(), self.position(), expr_view(expr), 4) == level_at(
                    old(self).tokens(),
                    old(self).position(),
                    4,
                ),
            ensures
                self.wf(),
                self.tokens() == old(self).tokens(),
                old(self).position() < self.position(),
                level_at(old(self).tokens(), old(self).position(), 4) == Some((expr_view(expr), self.position())),
            decreases self.remaining(),
        {
            let m = self.match_level_op(4);
            let op = match m {
                Some(op) => op,
                None => break,
            };
            let right = self.parse_addition()?;
            let span = Span::new(expr.span.start, right.span.end);
            expr = Expr { kind: ExprKind::Binary { left: Box::new(expr), op, right: Box::new(right) }, span };
        }
        Ok(expr)
    }

    fn parse_addition(&mut self) -> (r: Result<Expr, Error>)
        requires
            old(self).wf(),
        ensures
            parse_step(*old(self), *final(self), r),
            !starts_expression(old(self).current_kind()) ==> (r matches Err(e) && e.message@
                == "Expected expression"@) && final(self).position() == old(self).position(),
            parsed_as(level_at(old(self).tokens(), old(self).position(), 3), r, final(self).position()),
        decreases old(self).remaining(), 14int,
    {
        let mut expr = self.parse_multiplication()?;
        loop
            invariant
                self.wf(),
                self.tokens() == old(self).tokens(),
                old(self).position() < self.position(),
                starts_expression(old(self).current_kind()),
                level_rest(old(self).tokens(), self.position(), expr_view(expr), 3) == level_at(
                    old(self).tokens(),
                    old(self).position(),
                    3,
                ),
            ensures
                self.wf(),
                self.tokens() == old(self).tokens(),
                old(self).position() < self.position(),
                level_at(old(self).tokens(), old(self).position(), 3) == Some((expr_view(expr), self.position())),
            decreases self.remaining(),
        {
            let m = self.match_level_op(3);
            let op = match m {
                Some(op) => op,
                None => break,
            };
            let right = self.parse_multiplication()?;
            let span = Span::new(expr.span.start, right.span.end);
            expr = Expr { kind: ExprKind::Binary { left: Box::new(expr), op, right: Box::new(right) }, span };
        }
        Ok(expr)
    }

    fn parse_multiplication(&mut self) -> (r: Result<Expr, Error>)
        requires
            old(self).wf(),
        ensures
            parse_step(*old(self), *final(self), r),
            !starts_expression(old(self).current_kind()) ==> (r matches Err(e) && e.message@
                == "Expected expression"@) && final(self).position() == old(self).position(),
            parsed_as(level_at(old(self).tokens(), old(self).position(), 2), r, final(self).position()),
        decreases old(self).remaining(), 13int,
    {
        proof {
            assert(level_at(old(self).tokens(), old(self).position(), 1) == unary_at(
                old(self).tokens(),
                old(self).position(),
            ));
        }
        let mut expr = self.parse_unary()?;
        loop
            invariant
                self.wf(),
                self.tokens() == old(self).tokens(),
                old(self).position() < self.position(),
                starts_expression(old(self).current_kind()),
                level_rest(old(self).tokens(), self.position(), expr_view(expr), 2) == level_at(
                    old(self).tokens(),
                    old(self).position(),
                    2,
                ),
            ensures
                self.wf(),
                self.tokens() == old(self).tokens(),
                old(self).position() < self.position(),
                level_at(old(self).tokens(), old(self).position(), 2) == Some((expr_view(expr), self.position())),
            decreases self.remaining(),
        {
            let m = self.match_level_op(2);
            let op = match m {
                Some(op) => op,
                None => break,
            };
            proof {
                assert(level_at(self.tokens(), self.position(), 1) == unary_at(self.tokens(), self.position()));
            }
            let right = self.parse_unary()?;
            let span = Span::new(expr.span.start, right.span.end);
            expr = Expr { kind: ExprKind::Binary { left: Box::new(expr), op, right: Box::new(right) }, span };
        }
        Ok(expr)
    }

    fn parse_unary(&mut self) -> (r: Result<Expr, Error>)
        requires
            old(self).wf(),
        ensures
            parse_step(*old(self), *final(self), r),
            !starts_expression(old(self).current_kind()) ==> (r matches Err(e) && e.message@
                == "Expected expression"@) && final(self).position() == old(self).position(),
            parsed_as(unary_at(old(self).tokens(), old(self).position()), r, final(self).position()),
        decreases old(self).remaining(), 12int,
    {
        let start = self.current_location();
        let m = self.match_unary_op();
        match m {
            Some(op) => {
                let expr = self.parse_unary()?;
                let span = Span::new(start, expr.span.end);
                Ok(Expr { kind: ExprKind::Unary { op, expr: Box::new(expr) }, span })
            },
            None => self.parse_postfix(),
        }
    }

    fn parse_postfix(&mut self) -> (r: Result<Expr, Error>)
        requires
            old(self).wf(),
        ensures
            parse_step(*old(self), *final(self), r),
            !starts_expression(old(self).current_kind()) ==> (r matches Err(e) && e.message@
                == "Expected expression"@) && final(self).position() == old(self).position(),
            parsed_as(postfix_at(old(self).tokens(), old(self).position()), r, final(self).position()),
        decreases old(self).remaining(), 11int,
    {
        let mut expr = self.parse_primary()?;
        loop
            invariant
                self.wf(),
                self.tokens() == old(self).tokens(),
                old(self).position() < self.position(),
                starts_expression(old(self).current_kind()),
                postfix_rest(old(self).tokens(), self.position(), expr_view(expr)) == postfix_at(
                    old(self).tokens(),
                    old(self).position(),
                ),
            ensures
                self.wf(),
                self.tokens() == old(self).tokens(),
                old(self).position() < self.position(),
                postfix_at(old(self).tokens(), old(self).position()) == Some((expr_view(expr), self.position())),
            decreases self.remaining(),
        {
            let pair = self.parse_postfix_op(expr)?;
            let (next, applied) = pair;
            expr = next;
            if !applied {
                break;
            }
        }
        Ok(expr)
    }

    /// Applies one call, index or member access to `expr`, if the next
    /// token starts one; the flag tells whether one was applied.
    fn parse_postfix_op(&mut self, expr: Expr) -> (r: Result<(Expr, bool), Error>)
        requires
            old(self).wf(),
        ensures
            final(self).wf(),
            final(self).tokens() == old(self).tokens(),
            old(self).position() <= final(self).position(),
            r matches Err(e) ==> e.kind == ErrorKind::ParseError,
            match r {
                Ok((e2, applied)) => if applied {
                    old(self).position() < final(self).position() && postfix_rest(
                        old(self).tokens(),
                        old(self).position(),
                        expr_view(expr),
                    ) == postfix_rest(old(self).tokens(), final(self).position(), expr_view(e2))
                } else {
                    e2 == expr && final(self).position() == old(self).position() && postfix_rest(
                        old(self).tokens(),
                        old(self).position(),
                        expr_view(expr),
                    ) == Some((expr_view(expr), old(self).position()))
                },
                Err(_) => postfix_rest(old(self).tokens(), old(self).position(), expr_view(expr)) is None,
            },
        decreases old(self).remaining(), 10int,
    {
        if self.match_token(&TokenKind::LeftParen) {
            let e = self.finish_call(expr)?;
            Ok((e, true))
        } else if self.match_token(&TokenKind::LeftBracket) {
            let index = self.parse_expression()?;
            self.consume(&TokenKind::RightBracket, "Expected ']' after array index")?;
            let span = Span::new(expr.span.start, self.previous_location());
            Ok((Expr { kind: ExprKind::Index { object: Box::new(expr), index: Box::new(index) }, span }, true))
        } else if self.match_token(&TokenKind::Dot) {
            let property = self.consume_identifier("Expected property name after '.'")?;
            let span = Span::new(expr.span.start, self.previous_location());
            Ok((Expr { kind: ExprKind::Member { object: Box::new(expr), property }, span }, true))
        } else {
            Ok((expr, false))
        }
    }

    /// Parses the arguments of a call whose `(` was just consumed.
    fn finish_call(&mut self, callee: Expr) -> (r: Result<Expr, Error>)
        requires
            old(self).wf(),
        ensures
            parse_step(*old(self), *final(self), r),
            match call_args_at(old(self).tokens(), old(self).position()) {
                Some((args, q)) => r matches Ok(e) && expr_view(e) == shape(
                    NodeShape::Call(Box::new(expr_view(callee)), args),
                    up_to(expr_view(callee), old(self).tokens(), q - 1),
                ) && final(self).position() == q,
                None => r is Err,
            },
        decreases old(self).remaining(), 21int,
    {
        let ghost ts = old(self).tokens();
        let mut args: Vec<Expr> = Vec::new();
        proof {
            assert(exprs_view(args@) =~= Seq::<ExprShape>::empty());
        }
        proof {
            lemma_tags(self.current_kind());
        }
        if !self.check(&TokenKind::RightParen) {
            let ghost whole = args_rest(ts, old(self).position(), Seq::empty());
            loop
                invariant_except_break
                    args_rest(ts, self.position(), exprs_view(args@)) == whole,
                invariant
                    self.wf(),
                    self.tokens() == ts,
                    ts == old(self).tokens(),
                    old(self).position() <= self.position(),
                    whole == args_rest(ts, old(self).position(), Seq::empty()),
                    call_args_at(ts, old(self).position()) == whole,
                ensures
                    self.wf(),
                    self.tokens() == ts,
                    old(self).position() < self.position(),
                    self.sees(TokenKind::RightParen) ==> whole == Some((exprs_view(args@), self.position() + 1)),
                    !self.sees(TokenKind::RightParen) ==> whole is None,
                decreases self.remaining(),
            {
                let arg = self.parse_expression()?;
                let ghost before = args@;
                args.push(arg);
                proof {
                    assert(args@.drop_last() =~= before);
                }
                if !self.match_token(&TokenKind::Comma) {
                    break;
                }
            }
        }
        self.consume(&TokenKind::RightParen, "Expected ')' after arguments")?;
        let span = Span::new(callee.span.start, self.previous_location());
        Ok(Expr { kind: ExprKind::Call { callee: Box::new(callee), args }, span })
    }

    /// Parses a literal, a name (or a generic constructor such as
    /// `Vec<i32>`), a parenthesised expression, an `await`, an array literal
    /// or list comprehension, an `if`, a `match` or a block.
    #[verifier::spinoff_prover]
    #[verifier::rlimit(50)]
    fn parse_primary(&mut self) -> (r: Result<Expr, Error>)
        requires
            old(self).wf(),
        ensures
            parse_step(*old(self), *final(self), r),
            !starts_expression(old(self).current_kind()) ==> (r matches Err(e) && e.message@
                == "Expected expression"@) && final(self).position() == old(self).position(),
            parsed_as(primary_at(old(self).tokens(), old(self).position()), r, final(self).position()),
        decreases old(self).remaining(), 10int,
    {
        proof {
            reveal_strlit("Expected expression");
        }
        let start = self.current_location();
        let leaf: Option<Literal> = match self.peek_kind() {
            TokenKind::Number(n) => Some(Literal::Number(n.clone())),
            TokenKind::String(t) => Some(Literal::String(t.clone())),
            TokenKind::True => Some(Literal::Boolean(true)),
            TokenKind::False => Some(Literal::Boolean(false)),
            _ => None,
        };
        if let Some(lit) = leaf {
            self.advance();
            let span = Span::new(start, self.previous_location());
            return Ok(Expr { kind: ExprKind::Literal(lit), span });
        }
        let ident: Option<String> = match self.peek_kind() {
            TokenKind::Identifier(name) => Some(name.clone()),
            _ => None,
        };
        if let Some(name) = ident {
            self.advance();
            if self.check(&TokenKind::Less) {
                // `name<...>` is a generic constructor when type arguments
                // follow; otherwise the `<` is a comparison.
                let checkpoint = self.current;
                let parsed = self.parse_generic_args();
                match parsed {
                    Ok(type_args) => {
                        let span = Span::new(start, self.previous_location());
                        return Ok(Expr { kind: ExprKind::GenericConstructor { name, type_args }, span });
                    },
                    Err(_) => {
                        self.current = checkpoint;
                    },
                }
            }
            let span = Span::new(start, self.previous_location());
            return Ok(Expr { kind: ExprKind::Identifier(name), span });
        }
        if self.match_token(&TokenKind::LeftParen) {
            let expr = self.parse_expression()?;
            self.consume(&TokenKind::RightParen, "Expected ')' after expression")?;
            return Ok(expr);
        }
        if self.match_token(&TokenKind::Await) {
            let expr = self.parse_expression()?;
            let span = Span::new(start, self.previous_location());
            return Ok(Expr { kind: ExprKind::Await { expr: Box::new(expr) }, span });
        }
        if self.match_token(&TokenKind::LeftBracket) {
            return self.parse_array();
        }
        if self.match_token(&TokenKind::If) {
            return self.parse_if_expression();
        }
        if self.match_token(&TokenKind::Match) {
            return self.parse_match_expression();
        }
        if self.match_token(&TokenKind::LeftBrace) {
            let block = self.parse_block()?;
            let span = Span::new(start, self.previous_location());
            return Ok(Expr { kind: ExprKind::Block(block), span });
        }
        Err(self.error("Expected expression"))
    }

    /// Parses an array literal or a list comprehension whose `[` was just
    /// consumed.
    #[verifier::spinoff_prover]
    #[verifier::rlimit(100)]
    fn parse_array(&mut self) -> (r: Result<Expr, Error>)
        requires
            old(self).wf(),
            old(self).position() > 0,
            old(self).tokens()[old(self).position() - 1].kind is LeftBracket,
        ensures
            parse_step(*old(self), *final(self), r),
            parsed_as(array_at(old(self).tokens(), old(self).position() - 1), r, final(self).position()),
        decreases old(self).remaining(), 21int,
    {
        let ghost ts = old(self).tokens();
        let ghost pos = old(self).position() - 1;
        let start = self.tokens[self.current - 1].span.start;
        proof {
            lemma_tags(self.current_kind());
        }
        if self.check(&TokenKind::RightBracket) {
            self.advance();
            let span = Span::new(start, self.previous_location());
            let empty: Vec<Expr> = Vec::new();
            proof {
                assert(exprs_view(empty@) =~= Seq::<ExprShape>::empty());
            }
            return Ok(Expr { kind: ExprKind::Array(empty), span });
        }
        let first = self.parse_expression()?;
        proof {
            lemma_tags(self.current_kind());
        }
        if self.match_token(&TokenKind::For) {
            return self.parse_comprehension(first, start, Ghost(pos));
        }
        let ghost p = self.position();
        let mut elements: Vec<Expr> = Vec::new();
        elements.push(first);
        proof {
            assert(elements@.drop_last() =~= Seq::<Expr>::empty());
            assert(exprs_view(Seq::<Expr>::empty()) =~= Seq::<ExprShape>::empty());
            assert(exprs_view(elements@) =~= seq![expr_view(first)]);
        }
        let ghost whole = elements_rest(ts, p, seq![expr_view(first)]);
        loop
            invariant
                self.wf(),
                self.tokens() == ts,
                ts == old(self).tokens(),
                pos == old(self).position() - 1,
                pos < p <= self.position(),
                whole == elements_rest(ts, p, seq![expr_view(first)]),
                whole is None ==> array_at(ts, pos) is None,
                elements_rest(ts, self.position(), exprs_view(elements@)) == whole,
            ensures
                self.wf(),
                self.tokens() == ts,
                pos < p <= self.position(),
                self.sees(TokenKind::RightBracket) ==> whole == Some((exprs_view(elements@), self.position() + 1)),
                !self.sees(TokenKind::RightBracket) ==> whole is None,
            decreases self.remaining(),
        {
            if !self.match_token(&TokenKind::Comma) {
                break;
            }
            if self.check(&TokenKind::RightBracket) {
                break;
            }
            let e = self.parse_expression()?;
            let ghost before = elements@;
            elements.push(e);
            proof {
                assert(elements@.drop_last() =~= before);
            }
        }
        self.consume(&TokenKind::RightBracket, "Expected ']' after array elements")?;
        let span = Span::new(start, self.previous_location());
        Ok(Expr { kind: ExprKind::Array(elements), span })
    }

    /// Parses a type: a reference `&T` or `&mut T`, an array type `[T]`, a
    /// function type `(A, B) -> R`, a tuple type `(A, B)`, a generic type
    /// `Name<...>`, a type parameter or a named type.
    fn parse_type_annotation(&mut self) -> (r: Result<TypeAnn, Error>)
        requires
            old(self).wf(),
        ensures
            parse_step(*old(self), *final(self), r),
            type_parsed_as(type_at(old(self).tokens(), old(self).position()), r, final(self).position()),
        decreases old(self).remaining(), 5int,
    {
        let start = self.current_location();
        if self.match_token(&TokenKind::Ampersand) {
            let mutable = self.match_token(&TokenKind::Mut);
            let inner = self.parse_type_annotation()?;
            let span = Span::new(start, self.previous_location());
            return Ok(TypeAnn { kind: TypeKind::Reference { mutable, inner: Box::new(inner) }, span });
        }
        if self.match_token(&TokenKind::LeftBracket) {
            let elem = self.parse_type_annotation()?;
            self.consume(&TokenKind::RightBracket, "Expected ']' after array element type")?;
            let span = Span::new(start, self.previous_location());
            return Ok(TypeAnn { kind: TypeKind::Array(Box::new(elem)), span });
        }
        if self.match_token(&TokenKind::LeftParen) {
            let params = if !self.check(&TokenKind::RightParen) {
                self.parse_type_list()?
            } else {
                Vec::new()
            };
            proof {
                assert(types_view(Seq::<TypeAnn>::empty()) =~= Seq::<TypeShape>::empty());
            }
            self.consume(&TokenKind::RightParen, "Expected ')' after types")?;
            if self.match_token(&TokenKind::Arrow) {
                let ret = self.parse_type_annotation()?;
                let span = Span::new(start, self.previous_location());
                return Ok(TypeAnn { kind: TypeKind::Function { params, ret: Box::new(ret) }, span });
            }
            let span = Span::new(start, self.previous_location());
            return Ok(TypeAnn { kind: TypeKind::Tuple(params), span });
        }
        let name = self.consume_identifier("Expected type name")?;
        if self.check(&TokenKind::Less) {
            let args = self.parse_generic_args()?;
            let span = Span::new(start, self.previous_location());
            return Ok(TypeAnn { kind: TypeKind::Generic { name, args }, span });
        }
        let span = Span::new(start, self.previous_location());
        let kind = if self.is_type_parameter(name.as_str()) {
            TypeKind::TypeParam(name)
        } else {
            TypeKind::Named(name)
        };
        Ok(TypeAnn { kind, span })
    }

    /// Parses types separated by commas, up to the first type that no
    /// comma follows.
    fn parse_type_list(&mut self) -> (r: Result<Vec<TypeAnn>, Error>)
        requires
            old(self).wf(),
        ensures
            parse_step(*old(self), *final(self), r),
            types_parsed_as(
                type_list_from(old(self).tokens(), old(self).position(), Seq::empty()),
                r,
                final(self).position(),
            ),
        decreases old(self).remaining(), 6int,
    {
        let ghost ts = old(self).tokens();
        let ghost whole = type_list_from(ts, old(self).position(), Seq::empty());
        let mut types: Vec<TypeAnn> = Vec::new();
        proof {
            assert(types_view(types@) =~= Seq::<TypeShape>::empty());
        }
        loop
            invariant_except_break
                type_list_from(ts, self.position(), types_view(types@)) == whole,
            invariant
                self.wf(),
                self.tokens() == ts,
                ts == old(self).tokens(),
                old(self).position() <= self.position(),
                whole == type_list_from(ts, old(self).position(), Seq::empty()),
                types@.len() > 0 ==> old(self).position() < self.position(),
            ensures
                self.wf(),
                self.tokens() == ts,
                old(self).position() < self.position(),
                whole == Some((types_view(types@), self.position())),
            decreases self.remaining(),
        {
            let ghost cur = self.position();
            let t = self.parse_type_annotation()?;
            let ghost before = types@;
            types.push(t);
            proof {
                assert(types@.drop_last() =~= before);
                assert(types_view(types@) == types_view(before).push(type_view(t)));
            }
            if !self.match_token(&TokenKind::Comma) {
                break;
            }
        }
        Ok(types)
    }

    /// Parses generic type arguments: `<T>`, `<K, V>`, `<>`, `<T,>`.
    fn parse_generic_args(&mut self) -> (r: Result<Vec<TypeAnn>, Error>)
        requires
            old(self).wf(),
        ensures
            parse_step(*old(self), *final(self), r),
            r is Ok ==> final(self).tokens()[final(self).position() - 1].kind is Greater,
            types_parsed_as(generic_args_at(old(self).tokens(), old(self).position()), r, final(self).position()),
        decreases old(self).remaining(), 4int,
    {
        let ghost ts = old(self).tokens();
        self.consume(&TokenKind::Less, "Expected '<' to start generic arguments")?;
        let mut args: Vec<TypeAnn> = Vec::new();
        if self.check(&TokenKind::Greater) {
            self.advance();
            proof {
                assert(types_view(args@) =~= Seq::<TypeShape>::empty());
            }
            return Ok(args);
        }
        let first = self.parse_type_annotation()?;
        args.push(first);
        proof {
            assert(args@.drop_last() =~= Seq::<TypeAnn>::empty());
            assert(types_view(Seq::<TypeAnn>::empty()) =~= Seq::<TypeShape>::empty());
            assert(types_view(args@) =~= seq![type_view(first)]);
        }
        let ghost whole = generic_args_at(ts, old(self).position());
        loop
            invariant
                self.wf(),
                self.tokens() == ts,
                ts == old(self).tokens(),
                old(self).position() < self.position(),
                whole == generic_args_at(ts, old(self).position()),
                generic_args_rest(ts, self.position(), types_view(args@)) == whole,
            ensures
                self.wf(),
                self.tokens() == ts,
                old(self).position() < self.position(),
                (self.sees(TokenKind::Greater) && whole == generic_args_rest(ts, self.position(), types_view(args@)))
                    || !(self.current_kind() is Comma || self.current_kind() is Greater) && whole is None,
                self.sees(TokenKind::Greater) ==> whole == Some((types_view(args@), self.position() + 1)),
            decreases self.remaining(),
        {
            let ghost cur = self.position();
            if !self.match_token(&TokenKind::Comma) {
                break;
            }
            if self.check(&TokenKind::Greater) {
                break;
            }
            let t = self.parse_type_annotation()?;
            let ghost before = args@;
            args.push(t);
            proof {
                assert(args@.drop_last() =~= before);
            }
        }
        self.consume(&TokenKind::Greater, "Expected '>' to close generic arguments")?;
        Ok(args)
    }

    /// Parses a whole program: statements up to the end of the input, with
    /// blank lines between them skipped. The result is the one
    /// `program_from` gives; a program that parses was read to its end.
    pub fn parse(&mut self) -> (r: Result<Program, Error>)
        requires
            old(self).wf(),
        ensures
            final(self).wf(),
            final(self).tokens() == old(self).tokens(),
            old(self).position() <= final(self).position(),
            r is Ok ==> final(self).at_end(),
            r matches Err(e) ==> e.kind == ErrorKind::ParseError,
            match program_from(old(self).tokens(), old(self).position(), Seq::empty()) {
                Some(ss) => r matches Ok(prog) && stmts_view(prog.statements@) == ss,
                None => r is Err,
            },
        decreases old(self).remaining(), 40int,
    {
        let ghost ts = old(self).tokens();
        let ghost whole = program_from(ts, old(self).position(), Seq::empty());
        let mut statements: Vec<Stmt> = Vec::new();
        proof {
            assert(stmts_view(statements@) =~= Seq::<StmtShape>::empty());
        }
        loop
            invariant
                self.wf(),
                self.tokens() == ts,
                ts == old(self).tokens(),
                old(self).position() <= self.position(),
                whole == program_from(ts, old(self).position(), Seq::empty()),
                program_from(ts, self.position(), stmts_view(statements@)) == whole,
            ensures
                self.wf(),
                self.tokens() == ts,
                old(self).position() <= self.position(),
                self.at_end(),
                whole == Some(stmts_view(statements@)),
            decreases self.remaining(),
        {
            if self.is_at_end() {
                break;
            }
            proof {
                lemma_tags(self.current_kind());
            }
            if self.match_token(&TokenKind::Newline) {
                continue;
            }
            let stmt = self.parse_statement()?;
            let ghost before = statements@;
            statements.push(stmt);
            proof {
                assert(statements@.drop_last() =~= before);
            }
        }
        Ok(Program { statements })
    }

    fn parse_statement(&mut self) -> (r: Result<Stmt, Error>)
        requires
            old(self).wf(),
        ensures
            parse_step(*old(self), *final(self), r),
            match stmt_at(old(self).tokens(), old(self).position()) {
                Some((sh, q)) => r matches Ok(st) && stmt_view(st) == sh && final(self).position() == q,
                None => r is Err,
            },
        decreases old(self).remaining(), 30int,
    {
        let ghost ts = old(self).tokens();
        let ghost whole = attrs_from(ts, old(self).position(), Seq::empty());
        let start = self.current_location();
        let mut attributes: Vec<Attribute> = Vec::new();
        proof {
            assert(attrs_view(attributes@) =~= Seq::<AttrShape>::empty());
        }
        loop
            invariant_except_break
                attrs_from(ts, self.position(), attrs_view(attributes@)) == whole,
            invariant
                self.wf(),
                self.tokens() == ts,
                ts == old(self).tokens(),
                old(self).position() <= self.position(),
                whole == attrs_from(ts, old(self).position(), Seq::empty()),
            ensures
                self.wf(),
                self.tokens() == ts,
                old(self).position() <= self.position(),
                whole == Some((attrs_view(attributes@), self.position())),
            decreases self.remaining(),
        {
            proof {
                lemma_tags(self.current_kind());
            }
            if !self.check(&TokenKind::At) {
                break;
            }
            let a = self.parse_attribute()?;
            let ghost before = attributes@;
            attributes.push(a);
            proof {
                assert(attrs_view(attributes@) =~= attrs_view(before).push(attr_view(a)));
                lemma_tags(self.current_kind());
            }
            self.match_token(&TokenKind::Newline);
        }
        let kind = self.parse_statement_kind()?;
        let end = self.previous_location();
        let span = Span::new(start, end);
        proof {
            lemma_tags(self.current_kind());
        }
        if !self.match_token(&TokenKind::Semicolon) {
            self.match_token(&TokenKind::Newline);
        }
        Ok(Stmt { kind, span, attributes })
    }

    /// Whether the next token announces a statement of its own kind.
    fn at_statement_keyword(&self) -> (b: bool)
        requires
            self.wf(),
        ensures
            b == statement_keyword(self.current_kind()),
    {
        match self.peek_kind() {
            TokenKind::Let | TokenKind::Async | TokenKind::Fn | TokenKind::Return | TokenKind::While | TokenKind::For
            | TokenKind::Import | TokenKind::Export | TokenKind::Struct | TokenKind::Enum => true,
            _ => false,
        }
    }

    /// Parses a statement's body: the kind its first token announces, or an
    /// expression.
    fn parse_statement_kind(&mut self) -> (r: Result<StmtKind, Error>)
        requires
            old(self).wf(),
        ensures
            parse_step(*old(self), *final(self), r),
            match kind_at(old(self).tokens(), old(self).position()) {
                Some((k, q)) => r matches Ok(x) && stmt_kind_view(x) == k && final(self).position() == q,
                None => r is Err,
            },
        decreases old(self).remaining(), 29int,
    {
        if self.at_statement_keyword() {
            self.parse_keyword_statement()
        } else {
            let e = self.parse_expression()?;
            Ok(StmtKind::Expression(e))
        }
    }

    /// Parses a statement that its first token announces.
    #[verifier::spinoff_prover]
    #[verifier::rlimit(80)]
    fn parse_keyword_statement(&mut self) -> (r: Result<StmtKind, Error>)
        requires
            old(self).wf(),
            statement_keyword(old(self).current_kind()),
        ensures
            parse_step(*old(self), *final(self), r),
            old(self).current_kind() is Async && !(old(self).tokens()[old(self).position() + 1].kind is Fn)
                ==> (r matches Err(e) && e.message@ == "Expected 'fn' after 'async'"@),
            match kind_at(old(self).tokens(), old(self).position()) {
                Some((k, q)) => r matches Ok(x) && stmt_kind_view(x) == k && final(self).position() == q,
                None => r is Err,
            },
        decreases old(self).remaining(), 28int,
    {
        let core = match self.peek_kind() {
            TokenKind::Let | TokenKind::Async | TokenKind::Fn | TokenKind::Return | TokenKind::While => true,
            _ => false,
        };
        if core {
            self.parse_core_statement()
        } else {
            self.parse_declaration_statement()
        }
    }

    /// Parses a `let`, a function, a `return` or a `while`.
    #[verifier::spinoff_prover]
    #[verifier::rlimit(60)]
    fn parse_core_statement(&mut self) -> (r: Result<StmtKind, Error>)
        requires
            old(self).wf(),
            old(self).current_kind() is Let || old(self).current_kind() is Async || old(self).current_kind() is Fn
                || old(self).current_kind() is Return || old(self).current_kind() is While,
        ensures
            parse_step(*old(self), *final(self), r),
            old(self).current_kind() is Async && !(old(self).tokens()[old(self).position() + 1].kind is Fn)
                ==> (r matches Err(e) && e.message@ == "Expected 'fn' after 'async'"@),
            match kind_at(old(self).tokens(), old(self).position()) {
                Some((k, q)) => r matches Ok(x) && stmt_kind_view(x) == k && final(self).position() == q,
                None => r is Err,
            },
        decreases old(self).remaining(), 27int,
    {
        proof {
            reveal_strlit("Expected 'fn' after 'async'");
            lemma_tags(self.current_kind());
        }
        if self.match_token(&TokenKind::Let) {
            self.parse_let_statement()
        } else if self.match_token(&TokenKind::Async) {
            proof {
                lemma_tags(self.current_kind());
            }
            if self.check(&TokenKind::Fn) {
                self.advance();
                self.parse_function_common(true)
            } else {
                Err(self.error("Expected 'fn' after 'async'"))
            }
        } else if self.match_token(&TokenKind::Fn) {
            self.parse_function_common(false)
        } else if self.match_token(&TokenKind::Return) {
            let k = self.parse_return_statement();
            k
        } else {
            self.match_token(&TokenKind::While);
            self.parse_while_statement()
        }
    }

    /// Parses a `for`, an import, an export, a struct or an enum.
    #[verifier::spinoff_prover]
    #[verifier::rlimit(60)]
    fn parse_declaration_statement(&mut self) -> (r: Result<StmtKind, Error>)
        requires
            old(self).wf(),
            old(self).current_kind() is For || old(self).current_kind() is Import || old(self).current_kind() is Export
                || old(self).current_kind() is Struct || old(self).current_kind() is Enum,
        ensures
            parse_step(*old(self), *final(self), r),
            match kind_at(old(self).tokens(), old(self).position()) {
                Some((k, q)) => r matches Ok(x) && stmt_kind_view(x) == k && final(self).position() == q,
                None => r is Err,
            },
        decreases old(self).remaining(), 27int,
    {
        proof {
            lemma_tags(self.current_kind());
        }
        if self.match_token(&TokenKind::For) {
            self.parse_for_statement()
        } else if self.match_token(&TokenKind::Import) {
            self.parse_import_statement()
        } else if self.match_token(&TokenKind::Export) {
            self.parse_export_statement()
        } else if self.match_token(&TokenKind::Struct) {
            self.parse_struct_declaration()
        } else {
            self.match_token(&TokenKind::Enum);
            self.parse_enum_declaration()
        }
    }

    fn parse_let_statement(&mut self) -> (r: Result<StmtKind, Error>)
        requires
            old(self).wf(),
        ensures
            parse_step(*old(self), *final(self), r),
            match let_at(old(self).tokens(), old(self).position()) {
                Some(((n, t, i), q)) => r matches Ok(k) && stmt_kind_view(k) == StmtKindShape::Let(n, t, i)
                    && final(self).position() == q,
                None => r is Err,
            },
        decreases old(self).remaining(), 25int,
    {
        let (name, type_ann, init) = self.parse_let_parts()?;
        Ok(StmtKind::Let { name, type_ann, init })
    }

    /// Parses a name, an optional `: Type` and an optional `= expression`.
    fn parse_let_parts(&mut self) -> (r: Result<(String, Option<TypeAnn>, Option<Expr>), Error>)
        requires
            old(self).wf(),
        ensures
            parse_step(*old(self), *final(self), r),
            match let_at(old(self).tokens(), old(self).position()) {
                Some(((n, t, i), q)) => r matches Ok((name, type_ann, init)) && name@ == n && opt_type_view(type_ann)
                    == t && opt_value_view(init) == i && final(self).position() == q,
                None => r is Err,
            },
        decreases old(self).remaining(), 24int,
    {
        let name = self.consume_identifier("Expected variable name")?;
        let type_ann = if self.match_token(&TokenKind::Colon) {
            let t = self.parse_type_annotation()?;
            Some(t)
        } else {
            None
        };
        let init = if self.match_token(&TokenKind::Equals) {
            let e = self.parse_expression()?;
            Some(e)
        } else {
            None
        };
        Ok((name, type_ann, init))
    }

    /// Parses `name: Type, ...` up to the closing `)`, which it consumes;
    /// the opening `(` was consumed by the caller.
    fn parse_parameters(&mut self) -> (r: Result<Vec<Param>, Error>)
        requires
            old(self).wf(),
        ensures
            parse_step(*old(self), *final(self), r),
            match params_at(old(self).tokens(), old(self).position()) {
                Some((ps, q)) => r matches Ok(v) && params_view(v@) == ps && final(self).position() == q,
                None => r is Err,
            },
        decreases old(self).remaining(), 6int,
    {
        let ghost ts = old(self).tokens();
        let mut params: Vec<Param> = Vec::new();
        proof {
            assert(params_view(params@) =~= Seq::empty());
        }
        if !self.check(&TokenKind::RightParen) {
            let ghost whole = params_rest(ts, old(self).position(), Seq::empty());
            loop
                invariant_except_break
                    params_rest(ts, self.position(), params_view(params@)) == whole,
                invariant
                    self.wf(),
                    self.tokens() == ts,
                    ts == old(self).tokens(),
                    old(self).position() <= self.position(),
                    whole == params_rest(ts, old(self).position(), Seq::empty()),
                    !(ts[old(self).position()].kind is RightParen),
                ensures
                    self.wf(),
                    self.tokens() == ts,
                    old(self).position() < self.position(),
                    !(ts[old(self).position()].kind is RightParen),
                    self.sees(TokenKind::RightParen) ==> whole == Some((params_view(params@), self.position() + 1)),
                    !self.sees(TokenKind::RightParen) ==> whole is None,
                decreases self.remaining(),
            {
                let ghost cur = self.position();
                let name = self.consume_identifier("Expected parameter name")?;
                self.consume(&TokenKind::Colon, "Expected ':' after parameter name")?;
                let type_ann = self.parse_type_annotation()?;
                let ghost before = params@;
                let prm = Param { name, type_ann };
                params.push(prm);
                proof {
                    assert(params_view(params@) =~= params_view(before).push(param_view(prm)));
                }
                if !self.match_token(&TokenKind::Comma) {
                    break;
                }
            }
        }
        self.consume(&TokenKind::RightParen, "Expected ')' after parameters")?;
        Ok(params)
    }

    fn parse_function_common(&mut self, is_async: bool) -> (r: Result<StmtKind, Error>)
        requires
            old(self).wf(),
        ensures
            parse_step(*old(self), *final(self), r),
            match fn_at(old(self).tokens(), old(self).position(), true) {
                Some(((n, g, ps, rt, body), q)) => r matches Ok(k) && stmt_kind_view(k) == StmtKindShape::Function(n, g, ps, rt, body, is_async) && final(self).position() == q,
                None => r is Err,
            },
        decreases old(self).remaining(), 25int,
    {
        let (name, generic_params, params, ret_type, body) = self.parse_fn_parts(true)?;
        Ok(StmtKind::Function { name, generic_params, params, ret_type, body, is_async })
    }

    /// Parses a function after `fn`: name, generic parameters (where they
    /// are allowed), parameters, return type and body.
    fn parse_fn_parts(&mut self, allow_generics: bool) -> (r: Result<
        (String, Option<GenericParams>, Vec<Param>, Option<TypeAnn>, Block),
        Error,
    >)
        requires
            old(self).wf(),
        ensures
            parse_step(*old(self), *final(self), r),
            match fn_at(old(self).tokens(), old(self).position(), allow_generics) {
                Some(((n, g, ps, rt, body), q)) => r matches Ok((name, generic_params, params, ret_type, blk)) && name@ == n && generics_view(generic_params) == g && params_view(params@) == ps && opt_type_view(ret_type) == rt && block_view(blk) == body && final(self).position() == q,
                None => r is Err,
            },
        decreases old(self).remaining(), 24int,
    {
        let name = self.consume_identifier("Expected function name")?;
        let generic_params = if allow_generics && self.check(&TokenKind::Less) {
            let g = self.parse_generic_parameters()?;
            Some(g)
        } else {
            None
        };
        self.consume(&TokenKind::LeftParen, "Expected '(' after function name")?;
        let params = self.parse_parameters()?;
        let ret_type = if self.match_token(&TokenKind::Arrow) {
            let t = self.parse_type_annotation()?;
            Some(t)
        } else {
            None
        };
        self.consume(&TokenKind::LeftBrace, "Expected '{' before function body")?;
        let body = self.parse_block()?;
        Ok((name, generic_params, params, ret_type, body))
    }

    #[verifier::spinoff_prover]
    #[verifier::rlimit(50)]
    fn parse_return_statement(&mut self) -> (r: Result<StmtKind, Error>)
        requires
            old(self).wf(),
        ensures
            step(*old(self), *final(self), false),
            r matches Err(e) ==> e.kind == ErrorKind::ParseError,
            match return_at(old(self).tokens(), old(self).position()) {
                Some((v, q)) => r matches Ok(k) && stmt_kind_view(k) == StmtKindShape::Return(v) && final(self).position()
                    == q,
                None => r is Err,
            },
        decreases old(self).remaining(), 25int,
    {
        proof {
            lemma_tags(self.current_kind());
        }
        let stop = self.check(&TokenKind::Semicolon) || self.check(&TokenKind::Newline) || self.is_at_end();
        proof {
            let k = old(self).current_kind();
            assert(stop == (k is Semicolon || k is Newline || k is Eof));
        }
        if stop {
            Ok(StmtKind::Return(None))
        } else {
            let e = self.parse_expression()?;
            Ok(StmtKind::Return(Some(e)))
        }
    }

    /// Parses generic parameters: `<T>`, `<T: Clone>`, `<T, U: Debug + Send>`.
    fn parse_generic_parameters(&mut self) -> (r: Result<GenericParams, Error>)
        requires
            old(self).wf(),
        ensures
            parse_step(*old(self), *final(self), r),
            generics_parsed_as(generic_params_at(old(self).tokens(), old(self).position()), r, final(self).position()),
            generics_unclosed(old(self).tokens(), old(self).position()) ==> (r matches Err(e) && e.message@
                == "Expected '>' to close generic parameters"@),
        decreases old(self).remaining(), 4int,
    {
        let ghost ts = old(self).tokens();
        let start = self.current_location();
        self.consume(&TokenKind::Less, "Expected '<' to start generic parameters")?;
        proof {
            lemma_tags(self.current_kind());
        }
        let mut params: Vec<GenericParam> = Vec::new();
        if self.check(&TokenKind::Greater) {
            self.advance();
            let span = Span::new(start, self.previous_location());
            proof {
                assert(generic_params_view(params@) =~= Seq::empty());
            }
            return Ok(GenericParams { params, span });
        }
        let first = self.parse_generic_param()?;
        params.push(first);
        let ghost q = self.position();
        proof {
            assert(generic_params_view(params@) =~= seq![generic_param_view(first)]);
        }
        loop
            invariant
                self.wf(),
                self.tokens() == ts,
                ts == old(self).tokens(),
                old(self).position() < q <= self.position(),
                generic_param_at(ts, old(self).position() + 1) == Some((generic_param_view(params@[0]), q)),
                params@.len() > 0,
                generic_params_rest(ts, self.position(), generic_params_view(params@)) == generic_params_rest(
                    ts,
                    q,
                    seq![generic_param_view(params@[0])],
                ),
                params_unclosed_rest(ts, self.position()) == params_unclosed_rest(ts, q),
            ensures
                params_unclosed_rest(ts, q) == !self.sees(TokenKind::Greater),
                self.wf(),
                self.tokens() == ts,
                old(self).position() < q <= self.position(),
                generic_param_at(ts, old(self).position() + 1) == Some((generic_param_view(params@[0]), q)),
                (self.sees(TokenKind::Greater) && generic_params_rest(ts, self.position(), generic_params_view(params@))
                    == Some((generic_params_view(params@), self.position() + 1))) || (!self.sees(TokenKind::Greater)
                    && generic_params_rest(ts, q, seq![generic_param_view(params@[0])]) is None),
                generic_params_rest(ts, self.position(), generic_params_view(params@)) == generic_params_rest(
                    ts,
                    q,
                    seq![generic_param_view(params@[0])],
                ) || !self.sees(TokenKind::Greater),
            decreases self.remaining(),
        {
            proof {
                lemma_tags(self.current_kind());
            }
            if !self.match_token(&TokenKind::Comma) {
                break;
            }
            proof {
                lemma_tags(self.current_kind());
            }
            if self.check(&TokenKind::Greater) {
                break;
            }
            let g = self.parse_generic_param()?;
            let ghost before = params@;
            params.push(g);
            proof {
                assert(generic_params_view(params@) =~= generic_params_view(before).push(generic_param_view(g)));
                assert(params@[0] == before[0]);
            }
        }
        self.consume(&TokenKind::Greater, "Expected '>' to close generic parameters")?;
        let span = Span::new(start, self.previous_location());
        Ok(GenericParams { params, span })
    }

    /// Parses one generic parameter with its optional bounds `: A + B`.
    fn parse_generic_param(&mut self) -> (r: Result<GenericParam, Error>)
        requires
            old(self).wf(),
        ensures
            parse_step(*old(self), *final(self), r),
            match generic_param_at(old(self).tokens(), old(self).position()) {
                Some((g, q)) => r matches Ok(p) && generic_param_view(p) == g && final(self).position() == q,
                None => r is Err,
            },
        decreases old(self).remaining(), 3int,
    {
        let ghost ts = old(self).tokens();
        let start = self.current_location();
        let name = self.consume_identifier("Expected generic parameter name")?;
        let mut bounds: Vec<TraitBound> = Vec::new();
        if self.match_token(&TokenKind::Colon) {
            let first = self.parse_trait_bound()?;
            bounds.push(first);
            let ghost b0 = first;
            proof {
                assert(bounds@ =~= seq![b0]);
            }
            loop
                invariant
                    self.wf(),
                    self.tokens() == ts,
                    ts == old(self).tokens(),
                    old(self).position() + 3 <= self.position(),
                    trait_bound_at(ts, old(self).position() + 2) == Some(b0),
                    bounds_rest(ts, self.position(), bounds@) == bounds_rest(ts, old(self).position() + 3, seq![b0]),
                    ts[old(self).position() + 1].kind is Colon,
                    ts[old(self).position()].kind is Identifier,
                ensures
                    !(self.current_kind() is Plus),
                    ts[old(self).position() + 1].kind is Colon,
                    ts[old(self).position()].kind is Identifier,
                    self.wf(),
                    self.tokens() == ts,
                    old(self).position() + 3 <= self.position(),
                    trait_bound_at(ts, old(self).position() + 2) == Some(b0),
                    !(self.current_kind() is Plus) ==> bounds_rest(ts, old(self).position() + 3, seq![b0])
                        == Some((bounds@, self.position())),
                    self.current_kind() is Plus ==> bounds_rest(ts, old(self).position() + 3, seq![b0]) is None,
                decreases self.remaining(),
            {
                let ghost h = self.position();
                if !self.match_token(&TokenKind::Plus) {
                    break;
                }
                let b = match self.parse_trait_bound() {
                    Ok(b) => b,
                    Err(e) => {
                        proof {
                            assert(bounds_rest(ts, h, bounds@) is None);
                        }
                        return Err(e);
                    },
                };
                let ghost before = bounds@;
                bounds.push(b);
                proof {
                    assert(bounds_rest(ts, h, before) == bounds_rest(ts, h + 2, before.push(b)));
                }
            }
            let span = Span::new(start, self.previous_location());
            proof {
                let pos = old(self).position();
                let cur = self.position();
                assert(bounds_rest(ts, pos + 3, seq![b0]) == Some((bounds@, cur)));
                assert(generic_param_at(ts, pos) == Some(((name@, bounds@, token_span(ts, pos, cur - 1)), cur)));
            }
            return Ok(GenericParam { name, bounds, span });
        }
        let span = Span::new(start, self.previous_location());
        proof {
            let pos = old(self).position();
            assert(!(ts[pos + 1].kind is Colon));
            assert(bounds@ =~= Seq::<TraitBound>::empty());
            assert(generic_param_at(ts, pos) == Some(((name@, bounds@, token_span(ts, pos, pos)), pos + 1)));
        }
        Ok(GenericParam { name, bounds, span })
    }

    fn parse_trait_bound(&mut self) -> (r: Result<TraitBound, Error>)
        requires
            old(self).wf(),
        ensures
            parse_step(*old(self), *final(self), r),
            match trait_bound_at(old(self).tokens(), old(self).position()) {
                Some(b) => r == Ok::<TraitBound, Error>(b) && final(self).position() == old(self).position() + 1,
                None => r is Err,
            },
    {
        let start = self.current_location();
        let trait_name = self.consume_identifier("Expected trait name")?;
        let span = Span::new(start, self.previous_location());
        Ok(TraitBound { trait_name, span })
    }

    fn parse_while_statement(&mut self) -> (r: Result<StmtKind, Error>)
        requires
            old(self).wf(),
        ensures
            parse_step(*old(self), *final(self), r),
            match while_at(old(self).tokens(), old(self).position()) {
                Some((c, b, q)) => r matches Ok(k) && stmt_kind_view(k) == StmtKindShape::While(c, b)
                    && final(self).position() == q,
                None => r is Err,
            },
        decreases old(self).remaining(), 25int,
    {
        let condition = self.parse_expression()?;
        self.consume(&TokenKind::LeftBrace, "Expected '{' after while condition")?;
        let body = self.parse_block()?;
        Ok(StmtKind::While { condition, body })
    }

    fn parse_for_statement(&mut self) -> (r: Result<StmtKind, Error>)
        requires
            old(self).wf(),
        ensures
            parse_step(*old(self), *final(self), r),
            match for_at(old(self).tokens(), old(self).position()) {
                Some((v, it, b, q)) => r matches Ok(k) && stmt_kind_view(k) == StmtKindShape::For(v, it, b)
                    && final(self).position() == q,
                None => r is Err,
            },
        decreases old(self).remaining(), 25int,
    {
        let variable = self.consume_identifier("Expected variable name in for loop")?;
        if !self.match_token(&TokenKind::In) {
            return Err(self.error("Expected 'in' in for loop"));
        }
        let iterable = self.parse_expression()?;
        self.consume(&TokenKind::LeftBrace, "Expected '{' after for loop header")?;
        let body = self.parse_block()?;
        Ok(StmtKind::For { variable, iterable, body })
    }

    fn previous_is_semicolon(&self) -> (b: bool)
        requires
            self.wf(),
            self.position() > 0,
        ensures
            b == (self.tokens()[self.position() - 1].kind is Semicolon),
    {
        match &self.tokens[self.current - 1].kind {
            TokenKind::Semicolon => true,
            _ => false,
        }
    }

    /// Parses the statements of a block whose `{` was just consumed, up to
    /// and including its `}`. An expression statement that ends the block
    /// without a `;` is the block's value.
    #[verifier::spinoff_prover]
    #[verifier::rlimit(80)]
    fn parse_block(&mut self) -> (r: Result<Block, Error>)
        requires
            old(self).wf(),
        ensures
            parse_step(*old(self), *final(self), r),
            match block_from(old(self).tokens(), old(self).position(), Seq::empty()) {
                Some((b, q)) => r matches Ok(bl) && block_view(bl) == b && final(self).position() == q,
                None => r is Err,
            },
        decreases old(self).remaining(), 31int,
    {
        let ghost ts = old(self).tokens();
        let ghost whole = block_from(ts, old(self).position(), Seq::empty());
        let mut statements: Vec<Stmt> = Vec::new();
        let mut final_expr: Option<Box<Expr>> = None;
        proof {
            assert(stmts_view(statements@) =~= Seq::<StmtShape>::empty());
        }
        loop
            invariant_except_break
                final_expr is None,
                block_from(ts, self.position(), stmts_view(statements@)) == whole,
            invariant
                self.wf(),
                self.tokens() == ts,
                ts == old(self).tokens(),
                old(self).position() <= self.position(),
                whole == block_from(ts, old(self).position(), Seq::empty()),
            ensures
                self.wf(),
                self.tokens() == ts,
                old(self).position() <= self.position(),
                match final_expr {
                    Some(bx) => whole == Some(
                        (
                            BlockShape { stmts: stmts_view(statements@), fin: Some(Box::new(expr_view(*bx))) },
                            self.position() + 1,
                        ),
                    ) && self.sees(TokenKind::RightBrace),
                    None => (self.sees(TokenKind::RightBrace) && whole == Some(
                        (BlockShape { stmts: stmts_view(statements@), fin: None }, self.position() + 1),
                    )) || (!self.sees(TokenKind::RightBrace) && whole is None),
                },
            decreases self.remaining(),
        {
            proof {
                lemma_tags(self.current_kind());
            }
            if self.check(&TokenKind::RightBrace) || self.is_at_end() {
                break;
            }
            if self.match_token(&TokenKind::Newline) {
                continue;
            }
            let ghost cur = self.position();
            let ghost acc = stmts_view(statements@);
            proof {
                assert(!(ts[cur].kind is RightBrace) && !(ts[cur].kind is Eof) && !(ts[cur].kind is Newline));
            }
            let start_pos = self.current;
            let stmt = self.parse_statement()?;
            let ghost sh = stmt_view(stmt);
            let ghost q = self.position();
            proof {
                lemma_tags(self.current_kind());
                assert(stmt_at(ts, cur) == Some((sh, q)));
                assert(cur < q < ts.len());
            }
            let ghost before = statements@;
            if self.check(&TokenKind::RightBrace) {
                let Stmt { kind, span, attributes } = stmt;
                match kind {
                    StmtKind::Expression(expr) => {
                        if self.current == start_pos + 1 || !self.previous_is_semicolon() {
                            final_expr = Some(Box::new(expr));
                            break;
                        } else {
                            let st = Stmt { kind: StmtKind::Expression(expr), span, attributes: Vec::new() };
                            statements.push(st);
                            proof {
                                assert(statements@.drop_last() =~= before);
                                assert(attrs_view(st.attributes@) =~= Seq::<AttrShape>::empty());
                                assert(stmt_view(st) == StmtShape { kind: sh.kind, span: sh.span, attrs: Seq::empty() });
                                assert(stmts_view(statements@) == acc.push(stmt_view(st)));
                                assert(block_from(ts, cur, acc) == block_from(ts, q, acc.push(stmt_view(st))));
                            }
                        }
                    },
                    other => {
                        let st = Stmt { kind: other, span, attributes };
                        statements.push(st);
                        proof {
                            assert(statements@.drop_last() =~= before);
                            assert(stmt_view(st) == sh);
                            assert(!(sh.kind is Expression));
                            assert(stmts_view(statements@) == acc.push(sh));
                            assert(block_from(ts, cur, acc) == block_from(ts, q, acc.push(sh)));
                        }
                    },
                }
            } else {
                statements.push(stmt);
                proof {
                    assert(statements@.drop_last() =~= before);
                    assert(stmts_view(statements@) == acc.push(sh));
                    assert(block_from(ts, cur, acc) == block_from(ts, q, acc.push(sh)));
                }
            }
        }
        self.consume(&TokenKind::RightBrace, "Expected '}' after block")?;
        Ok(Block { statements, final_expr })
    }

    /// A block expression spanning from the block's `{` to its `}`.
    fn block_expr(&self, block: Block) -> (e: Expr)
        requires
            self.wf(),
            self.position() > 0,
        ensures
            e.kind == ExprKind::Block(block),
            e.span == token_span(self.tokens(), self.position() - 1, self.position() - 1),
    {
        let span = Span::new(self.tokens[self.current - 1].span.start, self.previous_location());
        Expr { kind: ExprKind::Block(block), span }
    }

    /// Parses the rest of a list comprehension whose `for` was just
    /// consumed; its `[` is at `start_pos` and its element is `first`.
    #[verifier::spinoff_prover]
    #[verifier::rlimit(100)]
    fn parse_comprehension(&mut self, first: Expr, start: SourceLocation, Ghost(start_pos): Ghost<int>) -> (r: Result<
        Expr,
        Error,
    >)
        requires
            old(self).wf(),
            0 <= start_pos < old(self).position(),
            start == old(self).tokens()[start_pos].span.start,
        ensures
            parse_step(*old(self), *final(self), r),
            parsed_as(
                comprehension_at(old(self).tokens(), old(self).position(), start_pos, expr_view(first)),
                r,
                final(self).position(),
            ),
        decreases old(self).remaining(), 21int,
    {
        let variable = self.consume_identifier("Expected variable name after 'for'")?;
        proof {
            lemma_tags(self.current_kind());
        }
        self.consume(&TokenKind::In, "Expected 'in' after variable")?;
        let iterable = self.parse_expression()?;
        proof {
            lemma_tags(self.current_kind());
        }
        let condition = if self.match_token(&TokenKind::If) {
            let c = self.parse_expression()?;
            Some(Box::new(c))
        } else {
            None
        };
        proof {
            lemma_tags(self.current_kind());
        }
        self.consume(&TokenKind::RightBracket, "Expected ']' after list comprehension")?;
        let span = Span::new(start, self.previous_location());
        let ghost fv = expr_view(first);
        let ghost iv = expr_view(iterable);
        let ghost cv = opt_expr_view(condition);
        let ghost vv = variable@;
        let e = Expr {
            kind: ExprKind::ListComprehension {
                element: Box::new(first),
                variable,
                iterable: Box::new(iterable),
                condition,
            },
            span,
        };
        proof {
            assert(node_view(e.kind) == NodeShape::Comprehension(Box::new(fv), vv, Box::new(iv), cv));
            assert(expr_view(e) == shape(NodeShape::Comprehension(Box::new(fv), vv, Box::new(iv), cv), span));
        }
        Ok(e)
    }

    /// Parses an `if` expression whose `if` was just consumed, with its
    /// optional `else` or `else if`.
    #[verifier::spinoff_prover]
    #[verifier::rlimit(80)]
    fn parse_if_expression(&mut self) -> (r: Result<Expr, Error>)
        requires
            old(self).wf(),
            old(self).position() > 0,
        ensures
            parse_step(*old(self), *final(self), r),
            parsed_as(if_at(old(self).tokens(), old(self).position()), r, final(self).position()),
        decreases old(self).remaining(), 22int,
    {
        let start = self.tokens[self.current - 1].span.start;
        let condition = self.parse_expression()?;
        self.consume(&TokenKind::LeftBrace, "Expected '{' after if condition")?;
        let block = self.parse_block()?;
        let ghost bv = block_view(block);
        let then_branch = self.block_expr(block);
        proof {
            assert(node_view(then_branch.kind) == NodeShape::Block(bv));
            lemma_tags(self.current_kind());
        }
        let else_branch = if self.match_token(&TokenKind::Else) {
            proof {
                lemma_tags(self.current_kind());
            }
            if self.match_token(&TokenKind::If) {
                let e = self.parse_if_expression()?;
                Some(Box::new(e))
            } else {
                self.consume(&TokenKind::LeftBrace, "Expected '{' after else")?;
                let b = self.parse_block()?;
                let ghost bv2 = block_view(b);
                let eb = self.block_expr(b);
                proof {
                    assert(node_view(eb.kind) == NodeShape::Block(bv2));
                }
                Some(Box::new(eb))
            }
        } else {
            None
        };
        let span = Span::new(start, self.previous_location());
        let ghost cv = expr_view(condition);
        let ghost tv = expr_view(then_branch);
        let ghost ev = opt_expr_view(else_branch);
        let e = Expr {
            kind: ExprKind::If { condition: Box::new(condition), then_branch: Box::new(then_branch), else_branch },
            span,
        };
        proof {
            assert(node_view(e.kind) == NodeShape::If(Box::new(cv), Box::new(tv), ev));
        }
        Ok(e)
    }

    /// Parses a `match` expression whose `match` was just consumed.
    #[verifier::spinoff_prover]
    #[verifier::rlimit(50)]
    fn parse_match_expression(&mut self) -> (r: Result<Expr, Error>)
        requires
            old(self).wf(),
            old(self).position() > 0,
        ensures
            parse_step(*old(self), *final(self), r),
            parsed_as(match_at(old(self).tokens(), old(self).position()), r, final(self).position()),
        decreases old(self).remaining(), 22int,
    {
        let ghost ts = old(self).tokens();
        let start = self.tokens[self.current - 1].span.start;
        let expr = self.parse_expression()?;
        self.consume(&TokenKind::LeftBrace, "Expected '{' after match expression")?;
        let ghost first = self.position();
        let ghost whole = arms_from(ts, first, Seq::empty());
        let mut arms: Vec<MatchArm> = Vec::new();
        proof {
            assert(arms_view(arms@) =~= Seq::<ArmShape>::empty());
        }
        loop
            invariant
                self.wf(),
                self.tokens() == ts,
                ts == old(self).tokens(),
                old(self).position() < first <= self.position(),
                whole == arms_from(ts, first, Seq::empty()),
                whole is None ==> match_at(ts, old(self).position()) is None,
                arms_from(ts, self.position(), arms_view(arms@)) == whole,
            ensures
                self.wf(),
                self.tokens() == ts,
                old(self).position() < self.position(),
                self.sees(TokenKind::RightBrace) ==> whole == Some((arms_view(arms@), self.position() + 1)),
                !self.sees(TokenKind::RightBrace) ==> whole is None,
            decreases self.remaining(),
        {
            proof {
                lemma_tags(self.current_kind());
            }
            if self.check(&TokenKind::RightBrace) || self.is_at_end() {
                break;
            }
            let ghost before = self.position();
            loop
                invariant
                    self.wf(),
                    self.tokens() == ts,
                    before <= self.position(),
                    skip_newlines_from(ts, self.position()) == skip_newlines_from(ts, before),
                ensures
                    self.wf(),
                    self.tokens() == ts,
                    before <= self.position(),
                    self.position() == skip_newlines_from(ts, before),
                decreases self.remaining(),
            {
                proof {
                    lemma_tags(self.current_kind());
                }
                if !self.match_token(&TokenKind::Newline) {
                    break;
                }
            }
            proof {
                lemma_tags(self.current_kind());
            }
            if self.check(&TokenKind::RightBrace) || self.is_at_end() {
                break;
            }
            let ghost old_arms = arms@;
            let arm = self.parse_arm()?;
            arms.push(arm);
            proof {
                assert(arms@.drop_last() =~= old_arms);
            }
        }
        self.consume(&TokenKind::RightBrace, "Expected '}' after match arms")?;
        let span = Span::new(start, self.previous_location());
        Ok(Expr { kind: ExprKind::Match { expr: Box::new(expr), arms }, span })
    }

    /// Parses one arm of a `match`: pattern, optional guard, `=>`, value and
    /// an optional `,`.
    fn parse_arm(&mut self) -> (r: Result<MatchArm, Error>)
        requires
            old(self).wf(),
        ensures
            parse_step(*old(self), *final(self), r),
            match arm_at(old(self).tokens(), old(self).position()) {
                Some((a, q)) => r matches Ok(arm) && arm_view(arm) == a && final(self).position() == q,
                None => r is Err,
            },
        decreases old(self).remaining(), 21int,
    {
        let pattern = self.parse_pattern()?;
        let guard = if self.match_token(&TokenKind::If) {
            let g = self.parse_expression()?;
            Some(g)
        } else {
            None
        };
        self.consume(&TokenKind::DoubleArrow, "Expected '=>' after match pattern")?;
        let body = self.parse_expression()?;
        proof {
            lemma_tags(self.current_kind());
        }
        if self.check(&TokenKind::Comma) {
            self.advance();
        }
        Ok(MatchArm { pattern, guard, body })
    }

    fn parse_pattern(&mut self) -> (r: Result<Pattern, Error>)
        requires
            old(self).wf(),
        ensures
            parse_step(*old(self), *final(self), r),
            pattern_parsed_as(pattern_at(old(self).tokens(), old(self).position()), r, final(self).position()),
        decreases old(self).remaining(), 8int,
    {
        self.parse_or_pattern()
    }

    /// Parses patterns separated by `|`; one alone is returned as it is.
    fn parse_or_pattern(&mut self) -> (r: Result<Pattern, Error>)
        requires
            old(self).wf(),
        ensures
            parse_step(*old(self), *final(self), r),
            pattern_parsed_as(pattern_at(old(self).tokens(), old(self).position()), r, final(self).position()),
        decreases old(self).remaining(), 7int,
    {
        let ghost ts = old(self).tokens();
        let start = self.current_location();
        let first = self.parse_primary_pattern()?;
        if !self.check(&TokenKind::Pipe) {
            return Ok(first);
        }
        let ghost p0 = self.position();
        let mut patterns: Vec<Pattern> = Vec::new();
        patterns.push(first);
        proof {
            assert(patterns@.drop_last() =~= Seq::<Pattern>::empty());
            assert(patterns_view(Seq::<Pattern>::empty()) =~= Seq::<PatternShape>::empty());
            assert(patterns_view(patterns@) =~= seq![pattern_view(first)]);
        }
        loop
            invariant
                self.wf(),
                self.tokens() == ts,
                ts == old(self).tokens(),
                old(self).position() < p0 <= self.position(),
                ts[p0].kind is Pipe,
                primary_pattern_at(ts, old(self).position()) == Some((pattern_view(first), p0)),
                or_rest(ts, self.position(), patterns_view(patterns@)) == or_rest(ts, p0, seq![pattern_view(first)]),
            ensures
                self.wf(),
                self.tokens() == ts,
                old(self).position() < p0 <= self.position(),
                ts[p0].kind is Pipe,
                primary_pattern_at(ts, old(self).position()) == Some((pattern_view(first), p0)),
                or_rest(ts, p0, seq![pattern_view(first)]) == Some((patterns_view(patterns@), self.position())),
                p0 < self.position(),
            decreases self.remaining(),
        {
            let ghost cur = self.position();
            if !self.match_token(&TokenKind::Pipe) {
                break;
            }
            let p = self.parse_primary_pattern()?;
            let ghost before = patterns@;
            patterns.push(p);
            proof {
                assert(patterns@.drop_last() =~= before);
            }
        }
        let span = Span::new(start, self.previous_location());
        Ok(Pattern { kind: PatternKind::Or(patterns), span })
    }

    /// Parses a wildcard, a literal, an array or object destructuring, or a
    /// name.
    fn parse_primary_pattern(&mut self) -> (r: Result<Pattern, Error>)
        requires
            old(self).wf(),
        ensures
            parse_step(*old(self), *final(self), r),
            pattern_parsed_as(primary_pattern_at(old(self).tokens(), old(self).position()), r, final(self).position()),
        decreases old(self).remaining(), 6int,
    {
        let ghost ts = old(self).tokens();
        let start = self.current_location();
        if self.match_token(&TokenKind::Underscore) {
            let span = Span::new(start, self.previous_location());
            return Ok(Pattern { kind: PatternKind::Wildcard, span });
        }
        let leaf: Option<Literal> = match self.peek_kind() {
            TokenKind::Number(n) => Some(Literal::Number(n.clone())),
            TokenKind::String(t) => Some(Literal::String(t.clone())),
            TokenKind::True => Some(Literal::Boolean(true)),
            TokenKind::False => Some(Literal::Boolean(false)),
            _ => None,
        };
        if let Some(lit) = leaf {
            self.advance();
            let span = Span::new(start, self.previous_location());
            return Ok(Pattern { kind: PatternKind::Literal(lit), span });
        }
        if self.match_token(&TokenKind::LeftBracket) {
            let patterns = if !self.check(&TokenKind::RightBracket) {
                self.parse_pattern_items()?
            } else {
                Vec::new()
            };
            proof {
                assert(patterns_view(Seq::<Pattern>::empty()) =~= Seq::<PatternShape>::empty());
            }
            self.consume(&TokenKind::RightBracket, "Expected ']' after array pattern")?;
            let span = Span::new(start, self.previous_location());
            return Ok(Pattern { kind: PatternKind::Array(patterns), span });
        }
        if self.match_token(&TokenKind::LeftBrace) {
            let fields = if !self.check(&TokenKind::RightBrace) {
                self.parse_object_pattern_fields()?
            } else {
                Vec::new()
            };
            proof {
                assert(object_fields_view(Seq::<(String, Option<Pattern>)>::empty()) =~= Seq::empty());
            }
            self.consume(&TokenKind::RightBrace, "Expected '}' after object pattern")?;
            let span = Span::new(start, self.previous_location());
            return Ok(Pattern { kind: PatternKind::Object(fields), span });
        }
        let ident: Option<String> = match self.peek_kind() {
            TokenKind::Identifier(name) => Some(name.clone()),
            _ => None,
        };
        match ident {
            Some(name) => {
                self.advance();
                let span = Span::new(start, self.previous_location());
                Ok(Pattern { kind: PatternKind::Identifier(name), span })
            },
            None => Err(self.error("Expected pattern")),
        }
    }

    /// Parses the patterns of an array pattern, separated by commas.
    fn parse_pattern_items(&mut self) -> (r: Result<Vec<Pattern>, Error>)
        requires
            old(self).wf(),
        ensures
            parse_step(*old(self), *final(self), r),
            match pattern_items_from(old(self).tokens(), old(self).position(), Seq::empty()) {
                Some((ps, q)) => r matches Ok(v) && patterns_view(v@) == ps && final(self).position() == q,
                None => r is Err,
            },
        decreases old(self).remaining(), 7int,
    {
        let ghost ts = old(self).tokens();
        let ghost whole = pattern_items_from(ts, old(self).position(), Seq::empty());
        let mut patterns: Vec<Pattern> = Vec::new();
        proof {
            assert(patterns_view(patterns@) =~= Seq::empty());
        }
        loop
            invariant_except_break
                pattern_items_from(ts, self.position(), patterns_view(patterns@)) == whole,
            invariant
                self.wf(),
                self.tokens() == ts,
                ts == old(self).tokens(),
                old(self).position() <= self.position(),
                whole == pattern_items_from(ts, old(self).position(), Seq::empty()),
            ensures
                self.wf(),
                self.tokens() == ts,
                old(self).position() < self.position(),
                whole == Some((patterns_view(patterns@), self.position())),
            decreases self.remaining(),
        {
            let p = self.parse_primary_pattern()?;
            let ghost before = patterns@;
            patterns.push(p);
            proof {
                assert(patterns@.drop_last() =~= before);
            }
            if !self.match_token(&TokenKind::Comma) {
                break;
            }
        }
        Ok(patterns)
    }

    /// Parses the fields of an object pattern: `key` or `key: pattern`,
    /// separated by commas.
    fn parse_object_pattern_fields(&mut self) -> (r: Result<Vec<(String, Option<Pattern>)>, Error>)
        requires
            old(self).wf(),
        ensures
            parse_step(*old(self), *final(self), r),
            match object_pattern_fields_from(old(self).tokens(), old(self).position(), Seq::empty()) {
                Some((fs, q)) => r matches Ok(v) && object_fields_view(v@) == fs && final(self).position() == q,
                None => r is Err,
            },
        decreases old(self).remaining(), 7int,
    {
        let ghost ts = old(self).tokens();
        let ghost whole = object_pattern_fields_from(ts, old(self).position(), Seq::empty());
        let mut fields: Vec<(String, Option<Pattern>)> = Vec::new();
        proof {
            assert(object_fields_view(fields@) =~= Seq::empty());
        }
        loop
            invariant_except_break
                object_pattern_fields_from(ts, self.position(), object_fields_view(fields@)) == whole,
            invariant
                self.wf(),
                self.tokens() == ts,
                ts == old(self).tokens(),
                old(self).position() <= self.position(),
                whole == object_pattern_fields_from(ts, old(self).position(), Seq::empty()),
            ensures
                self.wf(),
                self.tokens() == ts,
                old(self).position() < self.position(),
                whole == Some((object_fields_view(fields@), self.position())),
            decreases self.remaining(),
        {
            let key = self.consume_identifier("Expected identifier in object pattern")?;
            let pattern = if self.match_token(&TokenKind::Colon) {
                let p = self.parse_primary_pattern()?;
                Some(p)
            } else {
                None
            };
            let ghost before = fields@;
            fields.push((key, pattern));
            proof {
                assert(fields@.drop_last() =~= before);
            }
            if !self.match_token(&TokenKind::Comma) {
                break;
            }
        }
        Ok(fields)
    }

    fn parse_attribute(&mut self) -> (r: Result<Attribute, Error>)
        requires
            old(self).wf(),
        ensures
            parse_step(*old(self), *final(self), r),
            match attribute_at(old(self).tokens(), old(self).position()) {
                Some((a, q)) => r matches Ok(at) && attr_view(at) == a && final(self).position() == q,
                None => r is Err,
            },
    {
        proof {
            reveal_strlit(" = \"");
            reveal_strlit("\"");
            reveal_strlit(" = ");
        }
        let ghost ts = old(self).tokens();
        let ghost pos = old(self).position();
        let start = self.current_location();
        self.consume(&TokenKind::At, "Expected '@'")?;
        let name = self.consume_identifier("Expected attribute name")?;
        let mut args: Vec<String> = Vec::new();
        proof {
            assert(strings_view(args@) =~= Seq::<Seq<char>>::empty());
        }
        if self.match_token(&TokenKind::LeftParen) {
            let ghost whole = attr_args_from(ts, pos + 3, Seq::empty());
            loop
                invariant_except_break
                    attr_args_from(ts, self.position(), strings_view(args@)) == whole,
                invariant
                    self.wf(),
                    self.tokens() == ts,
                    ts == old(self).tokens(),
                    pos == old(self).position(),
                    pos + 3 <= self.position(),
                    whole == attr_args_from(ts, pos + 3, Seq::empty()),
                    whole is None ==> attribute_at(ts, pos) is None,
                ensures
                    self.wf(),
                    self.tokens() == ts,
                    pos + 3 <= self.position(),
                    self.sees(TokenKind::RightParen) ==> whole == Some((strings_view(args@), self.position() + 1)),
                    !self.sees(TokenKind::RightParen) ==> whole is None,
                decreases self.remaining(),
            {
                proof {
                    lemma_tags(self.current_kind());
                }
                if self.check(&TokenKind::RightParen) || self.is_at_end() {
                    break;
                }
                let key = self.consume_identifier("Expected identifier in attribute arguments")?;
                let arg = if self.match_token(&TokenKind::Equals) {
                    let value: Option<String> = match self.peek_kind() {
                        TokenKind::String(v) => Some(concat3(" = \"", v.as_str(), "\"")),
                        TokenKind::Identifier(v) => Some(concat(" = ", v.as_str())),
                        TokenKind::Number(v) => Some(concat(" = ", v.as_str())),
                        _ => None,
                    };
                    match value {
                        Some(v) => {
                            self.advance();
                            concat(key.as_str(), v.as_str())
                        },
                        None => {
                            return Err(self.error("Expected value after '=' in attribute"));
                        },
                    }
                } else {
                    key
                };
                let ghost before = args@;
                args.push(arg);
                proof {
                    assert(strings_view(args@) =~= strings_view(before).push(arg@));
                    lemma_tags(self.current_kind());
                }
                if !self.match_token(&TokenKind::Comma) {
                    break;
                }
            }
            self.consume(&TokenKind::RightParen, "Expected ')' after attribute arguments")?;
        }
        let end = self.previous_location();
        Ok(Attribute { name, args, span: Span::new(start, end) })
    }

    fn consume_string(&mut self, message: &str) -> (r: Result<String, Error>)
        requires
            old(self).wf(),
        ensures
            final(self).wf(),
            final(self).tokens() == old(self).tokens(),
            match old(self).current_kind() {
                TokenKind::String(t) => r matches Ok(v) && v@ == t@ && final(self).position() == old(self).position()
                    + 1,
                _ => (r matches Err(e) && e.kind == ErrorKind::ParseError && e.message@ == message@)
                    && final(self).position() == old(self).position(),
            },
    {
        let text = match self.peek_kind() {
            TokenKind::String(t) => Some(copy_text(t.as_str())),
            _ => None,
        };
        match text {
            Some(t) => {
                self.advance();
                Ok(t)
            },
            None => Err(self.error(message)),
        }
    }

    /// Consumes an identifier token that spells `keyword`.
    fn consume_keyword(&mut self, keyword: &str, message: &str) -> (r: Result<(), Error>)
        requires
            old(self).wf(),
        ensures
            final(self).wf(),
            final(self).tokens() == old(self).tokens(),
            r is Ok == (old(self).current_kind() matches TokenKind::Identifier(n) && n@ == keyword@),
            final(self).position() == if r is Ok {
                old(self).position() + 1
            } else {
                old(self).position()
            },
            r matches Err(e) ==> e.kind == ErrorKind::ParseError && e.message@ == message@,
    {
        let found = match self.peek_kind() {
            TokenKind::Identifier(n) => text_eq(n.as_str(), keyword),
            _ => false,
        };
        if found {
            self.advance();
            Ok(())
        } else {
            Err(self.error(message))
        }
    }

    fn parse_import_statement(&mut self) -> (r: Result<StmtKind, Error>)
        requires
            old(self).wf(),
        ensures
            parse_step(*old(self), *final(self), r),
            match import_at(old(self).tokens(), old(self).position()) {
                Some((specs, m, q)) => r matches Ok(k) && stmt_kind_view(k) == StmtKindShape::Import(specs, m)
                    && final(self).position() == q,
                None => r is Err,
            },
        decreases old(self).remaining(), 25int,
    {
        let ghost ts = old(self).tokens();
        let ghost pos = old(self).position();
        let mut specifiers: Vec<ImportSpecifier> = Vec::new();
        if self.match_token(&TokenKind::Star) {
            self.consume(&TokenKind::As, "Expected 'as' after '*' in namespace import")?;
            let alias = self.consume_identifier("Expected alias name after 'as'")?;
            specifiers.push(ImportSpecifier::Namespace { alias });
            proof {
                assert(specifiers@ =~= seq![ImportSpecifier::Namespace { alias }]);
            }
        } else if self.match_token(&TokenKind::LeftBrace) {
            let ghost whole = import_names_from(ts, pos + 1, Seq::empty());
            proof {
                assert(specifiers@ =~= Seq::<ImportSpecifier>::empty());
            }
            loop
                invariant_except_break
                    import_names_from(ts, self.position(), specifiers@) == whole,
                invariant
                    self.wf(),
                    self.tokens() == ts,
                    ts == old(self).tokens(),
                    pos == old(self).position(),
                    pos + 1 <= self.position(),
                    whole == import_names_from(ts, pos + 1, Seq::empty()),
                    whole is None ==> import_at(ts, pos) is None,
                ensures
                    self.wf(),
                    self.tokens() == ts,
                    pos + 1 <= self.position(),
                    self.sees(TokenKind::RightBrace) ==> whole == Some((specifiers@, self.position() + 1)),
                    !self.sees(TokenKind::RightBrace) ==> whole is None,
                decreases self.remaining(),
            {
                proof {
                    lemma_tags(self.current_kind());
                }
                if self.check(&TokenKind::RightBrace) || self.is_at_end() {
                    break;
                }
                let name = self.consume_identifier("Expected import name")?;
                let alias = if self.match_token(&TokenKind::As) {
                    let a = self.consume_identifier("Expected alias after 'as'")?;
                    Some(a)
                } else {
                    None
                };
                specifiers.push(ImportSpecifier::Named { name, alias });
                proof {
                    lemma_tags(self.current_kind());
                }
                if !self.match_token(&TokenKind::Comma) {
                    break;
                }
            }
            self.consume(&TokenKind::RightBrace, "Expected '}' after named imports")?;
        } else {
            let name = self.consume_identifier("Expected import name")?;
            specifiers.push(ImportSpecifier::Default { name });
            proof {
                assert(specifiers@ =~= seq![ImportSpecifier::Default { name }]);
            }
        }
        self.consume(&TokenKind::From, "Expected 'from' after import specifiers")?;
        let module = self.consume_string("Expected module path after 'from'")?;
        Ok(StmtKind::Import { imports: specifiers, module })
    }

    /// Parses what follows `export`: a function (`async` or not), a `let`,
    /// a list of names in braces, or `default` and an expression.
    #[verifier::spinoff_prover]
    #[verifier::rlimit(50)]
    fn parse_export_statement(&mut self) -> (r: Result<StmtKind, Error>)
        requires
            old(self).wf(),
        ensures
            parse_step(*old(self), *final(self), r),
            match export_at(old(self).tokens(), old(self).position()) {
                Some((x, q)) => r matches Ok(k) && stmt_kind_view(k) == StmtKindShape::Export(x) && final(self).position()
                    == q,
                None => r is Err,
            },
        decreases old(self).remaining(), 25int,
    {
        proof {
            reveal_strlit("default");
            lemma_tags(self.current_kind());
        }
        let is_async = self.match_token(&TokenKind::Async);
        let export = if is_async || self.match_token(&TokenKind::Fn) {
            if is_async {
                self.consume(&TokenKind::Fn, "Expected 'fn' after 'async' in export")?;
            }
            let (name, _generics, params, ret_type, body) = self.parse_fn_parts(false)?;
            ExportKind::Function { name, params, ret_type, body, is_async }
        } else if self.match_token(&TokenKind::Let) {
            let (name, type_ann, init) = self.parse_let_parts()?;
            ExportKind::Variable { name, type_ann, init }
        } else if self.match_token(&TokenKind::LeftBrace) {
            let specifiers = self.parse_export_names()?;
            ExportKind::Named { specifiers }
        } else {
            self.consume_keyword("default", "Expected 'default' or declaration after 'export'")?;
            let expr = self.parse_expression()?;
            ExportKind::Default { expr }
        };
        Ok(StmtKind::Export { export })
    }

    /// Parses exported names `a, b as c` up to and including the `}`.
    fn parse_export_names(&mut self) -> (r: Result<Vec<ExportSpecifier>, Error>)
        requires
            old(self).wf(),
        ensures
            parse_step(*old(self), *final(self), r),
            match export_names_from(old(self).tokens(), old(self).position(), Seq::empty()) {
                Some((names, q)) => r matches Ok(v) && v@ == names && final(self).position() == q,
                None => r is Err,
            },
    {
        let ghost ts = old(self).tokens();
        let ghost whole = export_names_from(ts, old(self).position(), Seq::empty());
        let mut names: Vec<ExportSpecifier> = Vec::new();
        loop
            invariant_except_break
                export_names_from(ts, self.position(), names@) == whole,
            invariant
                self.wf(),
                self.tokens() == ts,
                ts == old(self).tokens(),
                old(self).position() <= self.position(),
                whole == export_names_from(ts, old(self).position(), Seq::empty()),
            ensures
                self.wf(),
                self.tokens() == ts,
                old(self).position() <= self.position(),
                self.sees(TokenKind::RightBrace) ==> whole == Some((names@, self.position() + 1)),
                !self.sees(TokenKind::RightBrace) ==> whole is None,
            decreases self.remaining(),
        {
            if self.check(&TokenKind::RightBrace) || self.is_at_end() {
                break;
            }
            let name = self.consume_identifier("Expected export name")?;
            let alias = if self.match_token(&TokenKind::As) {
                let a = self.consume_identifier("Expected alias after 'as'")?;
                Some(a)
            } else {
                None
            };
            names.push(ExportSpecifier { name, alias });
            if !self.match_token(&TokenKind::Comma) {
                break;
            }
        }
        self.consume(&TokenKind::RightBrace, "Expected '}' after named exports")?;
        Ok(names)
    }

    /// Parses `name: Type` fields separated by commas or line breaks, up
    /// to (not including) the closing `}`.
    fn parse_fields(&mut self) -> (r: Result<Vec<StructField>, Error>)
        requires
            old(self).wf(),
        ensures
            step(*old(self), *final(self), false),
            r is Ok ==> final(self).sees(TokenKind::RightBrace),
            r matches Err(e) ==> e.kind == ErrorKind::ParseError,
            match struct_fields_from(old(self).tokens(), old(self).position(), Seq::empty()) {
                Some((fs, p)) => r matches Ok(v) && fields_view(v@) == fs && final(self).position() == p,
                None => r is Err,
            },
        decreases old(self).remaining(), 6int,
    {
        let ghost ts = old(self).tokens();
        let ghost whole = struct_fields_from(ts, old(self).position(), Seq::empty());
        let mut fields: Vec<StructField> = Vec::new();
        proof {
            assert(fields_view(fields@) =~= Seq::empty());
        }
        loop
            invariant
                self.wf(),
                self.tokens() == ts,
                ts == old(self).tokens(),
                old(self).position() <= self.position(),
                whole == struct_fields_from(ts, old(self).position(), Seq::empty()),
                struct_fields_from(ts, self.position(), fields_view(fields@)) == whole,
            ensures
                self.wf(),
                self.tokens() == ts,
                old(self).position() <= self.position(),
                self.sees(TokenKind::RightBrace),
                whole == Some((fields_view(fields@), self.position())),
            decreases self.remaining(),
        {
            let ghost cur = self.position();
            if self.check(&TokenKind::RightBrace) {
                break;
            }
            if self.match_token(&TokenKind::Newline) {
                continue;
            }
            let field_start = self.current_location();
            let name = self.consume_identifier("Expected field name")?;
            self.consume(&TokenKind::Colon, "Expected ':' after field name")?;
            let type_ann = self.parse_type_annotation()?;
            let field_end = self.previous_location();
            let ghost p = self.position();
            let ghost before = fields@;
            let field = StructField { name, type_ann, span: Span::new(field_start, field_end) };
            fields.push(field);
            proof {
                assert(fields_view(fields@) =~= fields_view(before).push(field_view(field)));
            }
            if !self.check(&TokenKind::RightBrace) {
                if !self.match_token(&TokenKind::Comma) && !self.match_token(&TokenKind::Newline) {
                    return Err(self.error("Expected ',' or newline after struct field"));
                }
                self.skip_newlines();
            }
        }
        Ok(fields)
    }

    fn skip_newlines(&mut self)
        requires
            old(self).wf(),
        ensures
            step(*old(self), *final(self), false),
            final(self).position() == skip_newlines_from(old(self).tokens(), old(self).position()),
    {
        loop
            invariant
                self.wf(),
                self.tokens() == old(self).tokens(),
                old(self).position() <= self.position(),
                skip_newlines_from(self.tokens(), self.position()) == skip_newlines_from(
                    old(self).tokens(),
                    old(self).position(),
                ),
            ensures
                self.wf(),
                self.tokens() == old(self).tokens(),
                old(self).position() <= self.position(),
                self.position() == skip_newlines_from(old(self).tokens(), old(self).position()),
            decreases self.remaining(),
        {
            if !self.match_token(&TokenKind::Newline) {
                break;
            }
        }
    }

    fn parse_struct_declaration(&mut self) -> (r: Result<StmtKind, Error>)
        requires
            old(self).wf(),
        ensures
            r matches Ok(k) ==> k is Struct,
            parse_step(*old(self), *final(self), r),
            match struct_at(old(self).tokens(), old(self).position()) {
                Some((n, g, fs, q)) => r matches Ok(StmtKind::Struct { name, generic_params, fields }) && name@ == n
                    && generics_match(generic_params, g) && fields_view(fields@) == fs && final(self).position() == q,
                None => r is Err,
            },
        decreases old(self).remaining(), 25int,
    {
        let name = self.consume_identifier("Expected struct name")?;
        let generic_params = if self.check(&TokenKind::Less) {
            let g = self.parse_generic_parameters()?;
            Some(g)
        } else {
            None
        };
        self.consume(&TokenKind::LeftBrace, "Expected '{' after struct name")?;
        let fields = self.parse_fields()?;
        self.consume(&TokenKind::RightBrace, "Expected '}' after struct fields")?;
        Ok(StmtKind::Struct { name, generic_params, fields })
    }

    /// Parses one enum variant: a name, then `(types)`, `{ fields }`, or
    /// nothing.
    fn parse_variant(&mut self) -> (r: Result<EnumVariant, Error>)
        requires
            old(self).wf(),
        ensures
            parse_step(*old(self), *final(self), r),
            match variant_at(old(self).tokens(), old(self).position()) {
                Some((v, q)) => r matches Ok(x) && variant_view(x) == v && final(self).position() == q,
                None => r is Err,
            },
        decreases old(self).remaining(), 7int,
    {
        let variant_start = self.current_location();
        let variant_name = self.consume_identifier("Expected variant name")?;
        let fields = if self.match_token(&TokenKind::LeftParen) {
            let types = if !self.check(&TokenKind::RightParen) {
                self.parse_type_list()?
            } else {
                Vec::new()
            };
            proof {
                assert(types_view(Seq::<TypeAnn>::empty()) =~= Seq::<TypeShape>::empty());
            }
            self.consume(&TokenKind::RightParen, "Expected ')' after tuple variant fields")?;
            EnumVariantFields::Tuple(types)
        } else if self.match_token(&TokenKind::LeftBrace) {
            let fs = self.parse_fields()?;
            self.consume(&TokenKind::RightBrace, "Expected '}' after struct variant fields")?;
            EnumVariantFields::Struct(fs)
        } else {
            EnumVariantFields::Unit
        };
        let variant_end = self.previous_location();
        Ok(EnumVariant { name: variant_name, fields, span: Span::new(variant_start, variant_end) })
    }

    fn parse_enum_declaration(&mut self) -> (r: Result<StmtKind, Error>)
        requires
            old(self).wf(),
        ensures
            r matches Ok(k) ==> k is Enum,
            parse_step(*old(self), *final(self), r),
            match enum_at(old(self).tokens(), old(self).position()) {
                Some((n, g, vs, q)) => r matches Ok(StmtKind::Enum { name, generic_params, variants }) && name@ == n
                    && generics_match(generic_params, g) && variants_view(variants@) == vs && final(self).position()
                    == q,
                None => r is Err,
            },
        decreases old(self).remaining(), 25int,
    {
        let ghost ts = old(self).tokens();
        let name = self.consume_identifier("Expected enum name")?;
        let generic_params = if self.check(&TokenKind::Less) {
            let g = self.parse_generic_parameters()?;
            Some(g)
        } else {
            None
        };
        self.consume(&TokenKind::LeftBrace, "Expected '{' after enum name")?;
        let ghost start = self.position();
        let ghost whole = variants_from(ts, start, Seq::empty());
        let mut variants: Vec<EnumVariant> = Vec::new();
        proof {
            assert(variants_view(variants@) =~= Seq::empty());
            assert(whole is None ==> enum_at(ts, old(self).position()) is None);
        }
        loop
            invariant
                self.wf(),
                self.tokens() == ts,
                ts == old(self).tokens(),
                old(self).position() < start <= self.position(),
                whole == variants_from(ts, start, Seq::empty()),
                whole is None ==> enum_at(ts, old(self).position()) is None,
                variants_from(ts, self.position(), variants_view(variants@)) == whole,
            ensures
                self.wf(),
                self.tokens() == ts,
                old(self).position() < start <= self.position(),
                self.sees(TokenKind::RightBrace),
                whole == Some((variants_view(variants@), self.position())),
            decreases self.remaining(),
        {
            if self.check(&TokenKind::RightBrace) {
                break;
            }
            if self.match_token(&TokenKind::Newline) {
                continue;
            }
            let v = self.parse_variant()?;
            let ghost before = variants@;
            variants.push(v);
            proof {
                assert(variants_view(variants@) =~= variants_view(before).push(variant_view(v)));
            }
            if !self.check(&TokenKind::RightBrace) {
                if !self.match_token(&TokenKind::Comma) && !self.match_token(&TokenKind::Newline) {
                    return Err(self.error("Expected ',' or newline after enum variant"));
                }
                self.skip_newlines();
            }
        }
        self.consume(&TokenKind::RightBrace, "Expected '}' after enum variants")?;
        Ok(StmtKind::Enum { name, generic_params, variants })
    }

    /// Whether a type name is read as a type parameter.
    fn is_type_parameter(&self, name: &str) -> (b: bool)
        ensures
            b == is_type_param_name(name@),
    {
        let cs = chars_of(name);
        if cs.len() == 0 {
            return false;
        }
        let bytes = utf8_len_up_to_four(name);
        if bytes <= 3 && char_is_uppercase(cs[0]) {
            return true;
        }
        if bytes == 1 {
            return false;
        }
        proof {
            reveal_strlit("T");
            reveal_strlit("U");
            reveal_strlit("K");
            reveal_strlit("V");
            reveal_strlit("E");
            reveal_strlit("R");
            reveal_strlit("Self");
            reveal_strlit("TKey");
            reveal_strlit("TValue");
            reveal_strlit("TItem");
            reveal_strlit("TResult");
            reveal_strlit("TError");
        }
        text_eq(name, "T") || text_eq(name, "U") || text_eq(name, "K") || text_eq(name, "V") || text_eq(
            name,
            "E",
        ) || text_eq(name, "R") || text_eq(name, "Self") || text_eq(name, "TKey") || text_eq(name, "TValue")
            || text_eq(name, "TItem") || text_eq(name, "TResult") || text_eq(name, "TError")
    }
}

} // verus!
