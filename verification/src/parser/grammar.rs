//! What the grammar makes of short expressions: how tightly the binary
//! operators bind, which operator a token stands for, and how the
//! expressions read from operands render back as source text.
use vstd::prelude::*;
use crate::parser::ast::{
    binary_op_of, binary_op_text, expr_text, unary_op_of, unary_op_text, BinaryOp, Expr, ExprKind, UnaryOp,
};
use crate::parser::parser::{
    assignment_at, expr_view, joined, leaf_literal, level_at, level_op, level_rest, node_view, one_token, postfix_at,
    postfix_rest, primary_at, shape, unary_at, up_to, ExprShape, NodeShape,
};
use crate::parser::token::{Token, TokenKind};
use crate::source::Span;

verus! {

/// The precedence level of a binary operator, from the tightest binding
/// (2: `*`, `/`, `%`) through `+` `-` (3), the comparisons (4), `==` `!=`
/// (5) and `&&` (6) to the loosest (7: `||`).
pub open spec fn precedence(op: BinaryOp) -> int {
    match op {
        BinaryOp::Mul | BinaryOp::Div | BinaryOp::Mod => 2,
        BinaryOp::Add | BinaryOp::Sub => 3,
        BinaryOp::Less | BinaryOp::Greater | BinaryOp::LessEqual | BinaryOp::GreaterEqual => 4,
        BinaryOp::Equal | BinaryOp::NotEqual => 5,
        BinaryOp::And => 6,
        BinaryOp::Or => 7,
    }
}

/// Whether token `i` is a lone operand: a literal, or a name that is not
/// followed by `<` (which would start type arguments).
pub open spec fn lone_operand(ts: Seq<Token>, i: int) -> bool {
    &&& 0 <= i && i + 1 < ts.len()
    &&& leaf_literal(ts[i].kind) is Some || (ts[i].kind is Identifier && !(ts[i + 1].kind is Less))
}

/// The expression a lone operand token stands for.
pub open spec fn operand_shape(ts: Seq<Token>, i: int) -> ExprShape {
    match leaf_literal(ts[i].kind) {
        Some(l) => shape(NodeShape::Literal(l), one_token(ts, i)),
        None => shape(NodeShape::Identifier(ts[i].kind->Identifier_0@), one_token(ts, i)),
    }
}

/// The binary expression `a op b`.
pub open spec fn binary(a: ExprShape, op: BinaryOp, b: ExprShape) -> ExprShape {
    shape(NodeShape::Binary(Box::new(a), op, Box::new(b)), joined(a, b))
}

/// The operator a token stands for at a precedence level is the one the
/// token stands for anywhere, and that level is the operator's precedence;
/// each operator token is read at its operator's level.
pub proof fn lemma_operator_levels(level: int, k: TokenKind)
    ensures
        level_op(level, k) is Some ==> binary_op_of(k) == level_op(level, k) && precedence(level_op(level, k)->0)
            == level,
        binary_op_of(k) is Some ==> level_op(precedence(binary_op_of(k)->0), k) == binary_op_of(k),
{
}

/// A token that is not an operator at levels `2..=j` ends a lone operand's
/// expression at every level up to `j`.
proof fn lemma_operand_levels(ts: Seq<Token>, i: int, j: int)
    requires
        lone_operand(ts, i),
        !(ts[i + 1].kind is LeftParen),
        !(ts[i + 1].kind is LeftBracket),
        !(ts[i + 1].kind is Dot),
        1 <= j,
        forall|l: int| 2 <= l <= j ==> #[trigger] level_op(l, ts[i + 1].kind) is None,
    ensures
        level_at(ts, i, j) == Some((operand_shape(ts, i), i + 1)),
    decreases j,
{
    if j <= 1 {
        let x = operand_shape(ts, i);
        assert(primary_at(ts, i) == Some((x, i + 1)));
        assert(postfix_rest(ts, i + 1, x) == Some((x, i + 1)));
        assert(postfix_at(ts, i) == Some((x, i + 1)));
        assert(unary_at(ts, i) == Some((x, i + 1)));
        assert(level_at(ts, i, j) == Some((x, i + 1)));
    } else {
        lemma_operand_levels(ts, i, j - 1);
        assert(level_op(j, ts[i + 1].kind) is None);
        assert(level_rest(ts, i + 1, operand_shape(ts, i), j) == Some((operand_shape(ts, i), i + 1)));
    }
}

/// An expression read at level `from` that is followed by a token that is
/// no operator at the levels above it up to `to` is the expression read at
/// every level up to `to`.
proof fn lemma_levels_above(ts: Seq<Token>, pos: int, e: ExprShape, p: int, from: int, to: int)
    requires
        1 <= from <= to,
        0 <= pos <= p < ts.len(),
        level_at(ts, pos, from) == Some((e, p)),
        forall|l: int| from < l <= to ==> #[trigger] level_op(l, ts[p].kind) is None,
    ensures
        level_at(ts, pos, to) == Some((e, p)),
    decreases to,
{
    if to > from {
        lemma_levels_above(ts, pos, e, p, from, to - 1);
        assert(level_op(to, ts[p].kind) is None);
        assert(level_rest(ts, p, e, to) == Some((e, p)));
    }
}

/// A lone operand followed by the end of input is that operand at every
/// level.
proof fn lemma_last_operand(ts: Seq<Token>, i: int, j: int)
    requires
        lone_operand(ts, i),
        ts[i + 1].kind is Eof,
        1 <= j,
    ensures
        level_at(ts, i, j) == Some((operand_shape(ts, i), i + 1)),
{
    assert forall|l: int| 2 <= l <= j implies #[trigger] level_op(l, ts[i + 1].kind) is None by {}
    lemma_operand_levels(ts, i, j);
}

/// A lone operand followed by an operator token is that operand at the
/// levels below the operator's.
proof fn lemma_operand_before(ts: Seq<Token>, i: int, j: int)
    requires
        lone_operand(ts, i),
        binary_op_of(ts[i + 1].kind) is Some,
        1 <= j < precedence(binary_op_of(ts[i + 1].kind)->0),
    ensures
        level_at(ts, i, j) == Some((operand_shape(ts, i), i + 1)),
{
    assert forall|l: int| 2 <= l <= j implies #[trigger] level_op(l, ts[i + 1].kind) is None by {
        lemma_operator_levels(l, ts[i + 1].kind);
    }
    lemma_operand_levels(ts, i, j);
}

/// The operator token at `pos` is read at its level: the expression `acc`
/// before it and the one read after it at the level below are joined.
proof fn lemma_take_operator(ts: Seq<Token>, pos: int, acc: ExprShape, r: ExprShape, q: int)
    requires
        0 <= pos < q <= ts.len(),
        binary_op_of(ts[pos].kind) is Some,
        level_at(ts, pos + 1, precedence(binary_op_of(ts[pos].kind)->0) - 1) == Some((r, q)),
    ensures
        level_rest(ts, pos, acc, precedence(binary_op_of(ts[pos].kind)->0)) == level_rest(
            ts,
            q,
            binary(acc, binary_op_of(ts[pos].kind)->0, r),
            precedence(binary_op_of(ts[pos].kind)->0),
        ),
{
    lemma_operator_levels(0, ts[pos].kind);
}

/// An expression read at level `from` that ends at the end of input is the
/// expression read at every level above, and the whole expression.
proof fn lemma_to_the_end(ts: Seq<Token>, e: ExprShape, p: int, from: int)
    requires
        1 <= from <= 7,
        0 <= p < ts.len(),
        ts[p].kind is Eof,
        level_at(ts, 0, from) == Some((e, p)),
    ensures
        assignment_at(ts, 0) == Some((e, p)),
{
    assert forall|l: int| from < l <= 7 implies #[trigger] level_op(l, ts[p].kind) is None by {}
    lemma_levels_above(ts, 0, e, p, from, 7);
}

/// The operator of a binary expression is the one its token stands for:
/// `a op b` parses to `Binary(a, op, b)` with `op` read from the token by
/// the same table as `BinaryOp::from_token`, for every operator token and
/// lone operands `a` and `b`.
pub proof fn lemma_binary_operator(ts: Seq<Token>)
    requires
        ts.len() == 4,
        lone_operand(ts, 0),
        lone_operand(ts, 2),
        binary_op_of(ts[1].kind) is Some,
        ts[3].kind is Eof,
    ensures
        assignment_at(ts, 0) == Some(
            (binary(operand_shape(ts, 0), binary_op_of(ts[1].kind)->0, operand_shape(ts, 2)), 3int),
        ),
{
    let op = binary_op_of(ts[1].kind)->0;
    let lv = precedence(op);
    let x = operand_shape(ts, 0);
    let y = operand_shape(ts, 2);
    lemma_operator_levels(0, ts[1].kind);
    lemma_last_operand(ts, 2, lv - 1);
    lemma_operand_before(ts, 0, lv - 1);
    lemma_take_operator(ts, 1, x, y, 3);
    assert(level_rest(ts, 3, binary(x, op, y), lv) == Some((binary(x, op, y), 3int)));
    assert(level_at(ts, 0, lv) == Some((binary(x, op, y), 3int)));
    lemma_to_the_end(ts, binary(x, op, y), 3, lv);
}

/// Operators group by precedence: in `a op1 b op2 c`, the tighter binding
/// operator takes its operands first, and at equal precedence the left one
/// does: `a + b / c` is `a + (b / c)`, `a / b + c` is `(a / b) + c`, and
/// `a - b - c` is `(a - b) - c`; for every pair of operator tokens and
/// lone operands `a`, `b` and `c`.
pub proof fn lemma_precedence_groups(ts: Seq<Token>)
    requires
        ts.len() == 6,
        lone_operand(ts, 0),
        lone_operand(ts, 2),
        lone_operand(ts, 4),
        binary_op_of(ts[1].kind) is Some,
        binary_op_of(ts[3].kind) is Some,
        ts[5].kind is Eof,
    ensures
        ({
            let op1 = binary_op_of(ts[1].kind)->0;
            let op2 = binary_op_of(ts[3].kind)->0;
            let (a, b, c) = (operand_shape(ts, 0), operand_shape(ts, 2), operand_shape(ts, 4));
            &&& precedence(op2) < precedence(op1) ==> assignment_at(ts, 0) == Some(
                (binary(a, op1, binary(b, op2, c)), 5int),
            )
            &&& precedence(op1) <= precedence(op2) ==> assignment_at(ts, 0) == Some(
                (binary(binary(a, op1, b), op2, c), 5int),
            )
        }),
{
    let op1 = binary_op_of(ts[1].kind)->0;
    let op2 = binary_op_of(ts[3].kind)->0;
    let l1 = precedence(op1);
    let l2 = precedence(op2);
    let (a, b, c) = (operand_shape(ts, 0), operand_shape(ts, 2), operand_shape(ts, 4));
    lemma_operator_levels(0, ts[1].kind);
    lemma_operator_levels(0, ts[3].kind);
    // `c` at every level.
    lemma_last_operand(ts, 4, l1 - 1);
    lemma_last_operand(ts, 4, l2 - 1);
    if l2 < l1 {
        // `b op2 c` at level l2, and above it up to l1 - 1.
        lemma_operand_before(ts, 2, l2 - 1);
        lemma_take_operator(ts, 3, b, c, 5);
        let bc = binary(b, op2, c);
        assert(level_rest(ts, 5, bc, l2) == Some((bc, 5int)));
        assert(level_at(ts, 2, l2) == Some((bc, 5int)));
        assert forall|l: int| l2 < l <= l1 - 1 implies #[trigger] level_op(l, ts[5].kind) is None by {}
        lemma_levels_above(ts, 2, bc, 5, l2, l1 - 1);
        // `a op1 (b op2 c)` at level l1.
        lemma_operand_before(ts, 0, l1 - 1);
        lemma_take_operator(ts, 1, a, bc, 5);
        let whole = binary(a, op1, bc);
        assert(level_rest(ts, 5, whole, l1) == Some((whole, 5int)));
        assert(level_at(ts, 0, l1) == Some((whole, 5int)));
        lemma_to_the_end(ts, whole, 5, l1);
    } else {
        // `a` and `b` alone below l1.
        lemma_operand_before(ts, 2, l1 - 1);
        lemma_operand_before(ts, 0, l1 - 1);
        lemma_take_operator(ts, 1, a, b, 3);
        let ab = binary(a, op1, b);
        if l1 == l2 {
            lemma_take_operator(ts, 3, ab, c, 5);
            let whole = binary(ab, op2, c);
            assert(level_rest(ts, 5, whole, l1) == Some((whole, 5int)));
            assert(level_at(ts, 0, l1) == Some((whole, 5int)));
            lemma_to_the_end(ts, whole, 5, l1);
        } else {
            assert(level_op(l1, ts[3].kind) is None);
            assert(level_rest(ts, 3, ab, l1) == Some((ab, 3int)));
            assert(level_at(ts, 0, l1) == Some((ab, 3int)));
            assert forall|l: int| l1 < l <= l2 - 1 implies #[trigger] level_op(l, ts[3].kind) is None by {
                lemma_operator_levels(l, ts[3].kind);
            }
            lemma_levels_above(ts, 0, ab, 3, l1, l2 - 1);
            lemma_take_operator(ts, 3, ab, c, 5);
            let whole = binary(ab, op2, c);
            assert(level_rest(ts, 5, whole, l2) == Some((whole, 5int)));
            assert(level_at(ts, 0, l2) == Some((whole, 5int)));
            lemma_to_the_end(ts, whole, 5, l2);
        }
    }
}

/// The source text of a lone operand token: a name, a number as written,
/// a quoted string, `true` or `false`.
pub open spec fn operand_source(k: TokenKind) -> Seq<char> {
    match k {
        TokenKind::Identifier(n) => n@,
        TokenKind::Number(n) => n@,
        TokenKind::String(v) => "\""@ + v@ + "\""@,
        TokenKind::True => "true"@,
        TokenKind::False => "false"@,
        _ => Seq::empty(),
    }
}

/// An expression read from a lone operand renders as that operand's text.
proof fn lemma_operand_text(x: Expr, ts: Seq<Token>, i: int)
    requires
        lone_operand(ts, i),
        expr_view(x) == operand_shape(ts, i),
    ensures
        expr_text(x) == operand_source(ts[i].kind),
{
    match x.kind {
        ExprKind::Literal(l) => {
            assert(leaf_literal(ts[i].kind) == Some(l));
        },
        ExprKind::Identifier(n) => {
            assert(ts[i].kind is Identifier);
        },
        _ => {
            assert(node_view(x.kind) != operand_shape(ts, i).node);
        },
    }
}

/// `a = b` is read as the assignment of `b` to `a`, for lone operands `a`
/// and `b`.
pub proof fn lemma_assignment_reads(ts: Seq<Token>)
    requires
        ts.len() == 4,
        lone_operand(ts, 0),
        lone_operand(ts, 2),
        ts[1].kind is Equals,
        ts[3].kind is Eof,
    ensures
        ({
            let (a, b) = (operand_shape(ts, 0), operand_shape(ts, 2));
            assignment_at(ts, 0) == Some((shape(NodeShape::Assign(Box::new(a), Box::new(b)), joined(a, b)), 3int))
        }),
{
    assert forall|l: int| 2 <= l <= 7 implies #[trigger] level_op(l, ts[1].kind) is None by {}
    lemma_operand_levels(ts, 0, 7);
    lemma_last_operand(ts, 2, 7);
    assert(assignment_at(ts, 2) == Some((operand_shape(ts, 2), 3int)));
}

/// Rendering follows the grammar for assignments: an expression read from
/// the tokens of `a = b` renders as `a`, then ` = `, then `b` (the target
/// before the `=`, the value after it), for lone operands `a` and `b`.
pub proof fn lemma_assignment_renders(ts: Seq<Token>, e: Expr)
    requires
        ts.len() == 4,
        lone_operand(ts, 0),
        lone_operand(ts, 2),
        ts[1].kind is Equals,
        ts[3].kind is Eof,
        assignment_at(ts, 0) matches Some((sh, _)) && expr_view(e) == sh,
    ensures
        expr_text(e) == operand_source(ts[0].kind) + " = "@ + operand_source(ts[2].kind),
{
    lemma_assignment_reads(ts);
    let (a, b) = (operand_shape(ts, 0), operand_shape(ts, 2));
    match e.kind {
        ExprKind::Assign { target, value } => {
            assert(expr_view(*target) == a);
            assert(expr_view(*value) == b);
            lemma_operand_text(*target, ts, 0);
            lemma_operand_text(*value, ts, 2);
        },
        _ => {
            assert(node_view(e.kind) != NodeShape::Assign(Box::new(a), Box::new(b)));
        },
    }
}

/// Rendering follows the grammar for binary operators: an expression read
/// from the tokens of `a op b` renders as `(a op b)`, the left operand
/// first and the operator's symbol between them, for every operator token
/// and lone operands `a` and `b`.
pub proof fn lemma_binary_renders(ts: Seq<Token>, e: Expr)
    requires
        ts.len() == 4,
        lone_operand(ts, 0),
        lone_operand(ts, 2),
        binary_op_of(ts[1].kind) is Some,
        ts[3].kind is Eof,
        assignment_at(ts, 0) matches Some((sh, _)) && expr_view(e) == sh,
    ensures
        expr_text(e) == "("@ + operand_source(ts[0].kind) + " "@ + binary_op_text(binary_op_of(ts[1].kind)->0) + " "@
            + operand_source(ts[2].kind) + ")"@,
{
    lemma_binary_operator(ts);
    let (a, b) = (operand_shape(ts, 0), operand_shape(ts, 2));
    let op = binary_op_of(ts[1].kind)->0;
    match e.kind {
        ExprKind::Binary { left, op: o, right } => {
            assert(expr_view(*left) == a);
            assert(expr_view(*right) == b);
            assert(o == op);
            lemma_operand_text(*left, ts, 0);
            lemma_operand_text(*right, ts, 2);
        },
        _ => {
            assert(node_view(e.kind) != NodeShape::Binary(Box::new(a), op, Box::new(b)));
        },
    }
}

/// Rendering follows the grammar for unary operators: an expression read
/// from the tokens of `!a` or `-a` renders as `(!a)` or `(-a)`, for every
/// lone operand `a`.
pub proof fn lemma_unary_renders(ts: Seq<Token>, e: Expr)
    requires
        ts.len() == 3,
        unary_op_of(ts[0].kind) is Some,
        lone_operand(ts, 1),
        ts[2].kind is Eof,
        assignment_at(ts, 0) matches Some((sh, _)) && expr_view(e) == sh,
    ensures
        expr_text(e) == "("@ + unary_op_text(unary_op_of(ts[0].kind)->0) + operand_source(ts[1].kind) + ")"@,
{
    let op: UnaryOp = unary_op_of(ts[0].kind)->0;
    let a = operand_shape(ts, 1);
    lemma_last_operand(ts, 1, 1);
    let u = shape(NodeShape::Unary(op, Box::new(a)), Span { start: ts[0].span.start, end: a.span.end });
    assert(unary_at(ts, 0) == Some((u, 2int)));
    assert(level_at(ts, 0, 1) == Some((u, 2int)));
    lemma_to_the_end(ts, u, 2, 1);
    match e.kind {
        ExprKind::Unary { op: o, expr } => {
            assert(o == op);
            assert(expr_view(*expr) == a);
            lemma_operand_text(*expr, ts, 1);
        },
        _ => {
            assert(node_view(e.kind) != u.node);
        },
    }
}

/// Rendering follows the grammar for member access: an expression read
/// from the tokens of `a.name` renders as `a.name`, for every lone operand
/// `a` and name.
pub proof fn lemma_member_renders(ts: Seq<Token>, e: Expr)
    requires
        ts.len() == 4,
        lone_operand(ts, 0),
        ts[1].kind is Dot,
        ts[2].kind is Identifier,
        ts[3].kind is Eof,
        assignment_at(ts, 0) matches Some((sh, _)) && expr_view(e) == sh,
    ensures
        expr_text(e) == operand_source(ts[0].kind) + "."@ + ts[2].kind->Identifier_0@,
{
    let a = operand_shape(ts, 0);
    let name = ts[2].kind->Identifier_0@;
    let m = shape(NodeShape::Member(Box::new(a), name), up_to(a, ts, 2));
    assert(primary_at(ts, 0) == Some((a, 1int)));
    assert(postfix_rest(ts, 3, m) == Some((m, 3int)));
    assert(postfix_rest(ts, 1, a) == Some((m, 3int)));
    assert(postfix_at(ts, 0) == Some((m, 3int)));
    assert(unary_at(ts, 0) == Some((m, 3int)));
    assert(level_at(ts, 0, 1) == Some((m, 3int)));
    lemma_to_the_end(ts, m, 3, 1);
    match e.kind {
        ExprKind::Member { object, property } => {
            assert(expr_view(*object) == a);
            assert(property@ == name);
            lemma_operand_text(*object, ts, 0);
        },
        _ => {
            assert(node_view(e.kind) != m.node);
        },
    }
}

/// Rendering follows the grammar for indexing: an expression read from the
/// tokens of `a[b]` renders as `a[b]`, for lone operands `a` and `b`.
pub proof fn lemma_index_renders(ts: Seq<Token>, e: Expr)
    requires
        ts.len() == 5,
        lone_operand(ts, 0),
        ts[1].kind is LeftBracket,
        lone_operand(ts, 2),
        ts[3].kind is RightBracket,
        ts[4].kind is Eof,
        assignment_at(ts, 0) matches Some((sh, _)) && expr_view(e) == sh,
    ensures
        expr_text(e) == operand_source(ts[0].kind) + "["@ + operand_source(ts[2].kind) + "]"@,
{
    let a = operand_shape(ts, 0);
    let b = operand_shape(ts, 2);
    assert forall|l: int| 2 <= l <= 7 implies #[trigger] level_op(l, ts[3].kind) is None by {}
    lemma_operand_levels(ts, 2, 7);
    assert(assignment_at(ts, 2) == Some((b, 3int)));
    let x = shape(NodeShape::Index(Box::new(a), Box::new(b)), up_to(a, ts, 3));
    assert(primary_at(ts, 0) == Some((a, 1int)));
    assert(postfix_rest(ts, 4, x) == Some((x, 4int)));
    assert(postfix_rest(ts, 1, a) == Some((x, 4int)));
    assert(postfix_at(ts, 0) == Some((x, 4int)));
    assert(unary_at(ts, 0) == Some((x, 4int)));
    assert(level_at(ts, 0, 1) == Some((x, 4int)));
    lemma_to_the_end(ts, x, 4, 1);
    match e.kind {
        ExprKind::Index { object, index } => {
            assert(expr_view(*object) == a);
            assert(expr_view(*index) == b);
            lemma_operand_text(*object, ts, 0);
            lemma_operand_text(*index, ts, 2);
        },
        _ => {
            assert(node_view(e.kind) != x.node);
        },
    }
}

} // verus!
