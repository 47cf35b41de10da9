//! What the tree of an expression says of the expression.
use crate::ast::{
    bound_operands, bound_shape, expr_operands, expr_tree, frame_operands, frame_shape, operands_of,
    optional_operand, over_operands, over_shape, pair_operands, sorted_operands, tail_operands,
    tail_shape, BoundShape, Child, Expr, ExprKind, ExprTree, FrameBound, FrameClause, FrameShape,
    FunctionTail, Operand, Over, OverShape, Role, SortKey, SortedColumn, TailShape, Window,
};
use vstd::prelude::*;

verus! {

/// At a position of a list of subexpressions stands the tree of an expression, in its role.
pub open spec fn stands_at(children: Seq<Child>, i: int, e: Expr, role: Role) -> bool {
    0 <= i < children.len() && children[i].tree == e@ && children[i].role == role
}

/// From a position on stand the trees of some expressions, in order.
pub open spec fn stand_from(children: Seq<Child>, from: int, v: Seq<Expr>, role: Role) -> bool {
    forall|i: int| 0 <= i < v.len() ==> stands_at(children, from + i, #[trigger] v[i], role)
}

/// From a position on stand the trees of the terms of an `ORDER BY`, in order.
pub open spec fn terms_stand_from(
    children: Seq<Child>,
    from: int,
    v: Seq<SortedColumn>,
    role: Role,
) -> bool {
    forall|i: int| 0 <= i < v.len() ==> stands_at(children, from + i, (#[trigger] v[i]).expr, role)
}

/// The directions of an `ORDER BY` are kept.
pub open spec fn keeps_terms(keys: Seq<SortKey>, v: Seq<SortedColumn>) -> bool {
    &&& keys.len() == v.len()
    &&& forall|i: int|
        0 <= i < v.len() ==> (#[trigger] keys[i]).order == v[i].order && keys[i].nulls == v[i].nulls
}

/// How many subexpressions a bound of a frame has.
pub open spec fn bound_size(b: FrameBound) -> int {
    match b {
        FrameBound::Following(_) => 1,
        FrameBound::Preceding(_) => 1,
        _ => 0,
    }
}

/// A bound of a frame stands at a position.
pub open spec fn is_bound_at(
    children: Seq<Child>,
    at: int,
    b: FrameBound,
    shape: BoundShape,
) -> bool {
    match b {
        FrameBound::CurrentRow => shape is CurrentRow,
        FrameBound::Following(e) => shape is Following && stands_at(
            children,
            at,
            *e,
            Role::FrameBound,
        ),
        FrameBound::Preceding(e) => shape is Preceding && stands_at(
            children,
            at,
            *e,
            Role::FrameBound,
        ),
        FrameBound::UnboundedFollowing => shape is UnboundedFollowing,
        FrameBound::UnboundedPreceding => shape is UnboundedPreceding,
    }
}

/// A frame stands at a position: where it starts, and then where it ends.
pub open spec fn is_frame_at(
    children: Seq<Child>,
    at: int,
    f: FrameClause,
    shape: FrameShape,
) -> bool {
    &&& shape.mode == f.mode
    &&& shape.exclude == f.exclude
    &&& is_bound_at(children, at, f.start, shape.start)
    &&& match (f.end, shape.end) {
        (Some(end), Some(kept)) => is_bound_at(children, at + bound_size(f.start), end, kept),
        (None, None) => true,
        _ => false,
    }
}

/// How many subexpressions an `OVER` clause has.
pub open spec fn over_size(o: Over) -> int {
    match o {
        Over::Window(w) => w.partition_by@.len() + w.order_by@.len() + match w.frame_clause {
            Some(f) => bound_size(f.start) + match f.end {
                Some(end) => bound_size(end),
                None => 0,
            },
            None => 0,
        },
        Over::Name(_) => 0,
    }
}

/// An `OVER` clause stands at a position: the partitions, the order and the frame.
pub open spec fn is_over_at(children: Seq<Child>, at: int, o: Over, shape: OverShape) -> bool {
    match (o, shape) {
        (Over::Window(w), OverShape::Window { base, partitions, order_by, frame }) => {
            &&& base == w.base
            &&& partitions == w.partition_by@.len()
            &&& stand_from(children, at, w.partition_by@, Role::Partition)
            &&& keeps_terms(order_by, w.order_by@)
            &&& terms_stand_from(
                children,
                at + w.partition_by@.len(),
                w.order_by@,
                Role::WindowOrder,
            )
            &&& match (w.frame_clause, frame) {
                (Some(f), Some(kept)) => is_frame_at(
                    children,
                    at + w.partition_by@.len() + w.order_by@.len(),
                    f,
                    kept,
                ),
                (None, None) => true,
                _ => false,
            }
        },
        (Over::Name(n), OverShape::Name(kept)) => kept == n,
        _ => false,
    }
}

/// How many subexpressions an expression has that may be missing.
pub open spec fn option_size(e: Option<Box<Expr>>) -> int {
    if e is Some {
        1
    } else {
        0
    }
}

/// An expression that may be missing stands at a position.
pub open spec fn is_option_at(
    children: Seq<Child>,
    at: int,
    e: Option<Box<Expr>>,
    role: Role,
) -> bool {
    e matches Some(e) ==> stands_at(children, at, *e, role)
}

/// How many subexpressions the tail of a function call has.
pub open spec fn tail_size(t: FunctionTail) -> int {
    option_size(t.filter_clause) + match t.over_clause {
        Some(o) => over_size(o),
        None => 0,
    }
}

/// The tail of a function call stands at a position: the filter, and then the window.
pub open spec fn is_tail_at(
    children: Seq<Child>,
    at: int,
    t: FunctionTail,
    shape: TailShape,
) -> bool {
    &&& shape.filter == t.filter_clause is Some
    &&& is_option_at(children, at, t.filter_clause, Role::Filter)
    &&& match (t.over_clause, shape.over) {
        (Some(o), Some(kept)) => is_over_at(children, at + option_size(t.filter_clause), o, kept),
        (None, None) => true,
        _ => false,
    }
}

/// A tree says all of an expression: what it is, and its subexpressions from left to right.
pub open spec fn is_tree_of(t: ExprTree, e: Expr) -> bool {
    let c = t.children;
    let n = c.len();
    match e {
        Expr::Between { lhs, not, start, end } => {
            &&& t.kind == ExprKind::Between { not }
            &&& n == 3
            &&& stands_at(c, 0, *lhs, Role::Operand)
            &&& stands_at(c, 1, *start, Role::Operand)
            &&& stands_at(c, 2, *end, Role::Operand)
        },
        Expr::Binary(lhs, op, rhs) => {
            &&& t.kind == ExprKind::Binary(op)
            &&& n == 2
            &&& stands_at(c, 0, *lhs, Role::Operand)
            &&& stands_at(c, 1, *rhs, Role::Operand)
        },
        Expr::Register(r) => t.kind == ExprKind::Register(r) && n == 0,
        Expr::Case { base, when_then_pairs, else_expr } => {
            let pairs = when_then_pairs@;
            let first = option_size(base);
            &&& t.kind == ExprKind::Case {
                base: base is Some,
                pairs: pairs.len(),
                otherwise: else_expr is Some,
            }
            &&& n == first + 2 * pairs.len() + option_size(else_expr)
            &&& is_option_at(c, 0, base, Role::Operand)
            &&& forall|i: int|
                0 <= i < pairs.len() ==> stands_at(
                    c,
                    first + 2 * i,
                    (#[trigger] pairs[i]).0,
                    Role::Operand,
                ) && stands_at(c, first + 2 * i + 1, pairs[i].1, Role::Operand)
            &&& is_option_at(c, first + 2 * pairs.len(), else_expr, Role::Operand)
        },
        Expr::Cast { expr, target } => {
            t.kind == ExprKind::Cast { target } && n == 1 && stands_at(c, 0, *expr, Role::Operand)
        },
        Expr::Collate(expr, name) => {
            t.kind == ExprKind::Collate(name) && n == 1 && stands_at(c, 0, *expr, Role::Operand)
        },
        Expr::DoublyQualified(x, y, z) => t.kind == ExprKind::DoublyQualified(x, y, z) && n == 0,
        Expr::Exists(select) => t.kind == ExprKind::Exists(select) && n == 0,
        Expr::FunctionCall { name, distinctness, args, order_by, filter_over } => {
            let terms = args@.len() as int;
            let tail = terms + order_by@.len();
            &&& t.kind matches ExprKind::FunctionCall {
                name: kept_name,
                distinctness: kept_distinctness,
                args: count,
                order_by: keys,
                tail: shape,
            }
            &&& kept_name == name
            &&& kept_distinctness == distinctness
            &&& count == args@.len()
            &&& n == tail + tail_size(filter_over)
            &&& stand_from(c, 0, args@, Role::Argument)
            &&& keeps_terms(keys, order_by@)
            &&& terms_stand_from(c, terms, order_by@, Role::ArgumentOrder)
            &&& is_tail_at(c, tail, filter_over, shape)
        },
        Expr::FunctionCallStar { name, filter_over } => {
            &&& t.kind matches ExprKind::FunctionCallStar { name: kept_name, tail: shape }
            &&& kept_name == name
            &&& n == tail_size(filter_over)
            &&& is_tail_at(c, 0, filter_over, shape)
        },
        Expr::Id(name) => t.kind == ExprKind::Id(name) && n == 0,
        Expr::Column { database, table, column, is_rowid_alias } => t.kind == (ExprKind::Column {
            database,
            table,
            column,
            is_rowid_alias,
        }) && n == 0,
        Expr::RowId { database, table } => t.kind == (ExprKind::RowId { database, table }) && n
            == 0,
        Expr::InList { lhs, not, rhs } => {
            &&& t.kind == ExprKind::InList { not }
            &&& n == 1 + rhs@.len()
            &&& stands_at(c, 0, *lhs, Role::Operand)
            &&& stand_from(c, 1, rhs@, Role::Operand)
        },
        Expr::InSelect { lhs, not, rhs } => {
            &&& t.kind == ExprKind::InSelect { not, rhs }
            &&& n == 1
            &&& stands_at(c, 0, *lhs, Role::Operand)
        },
        Expr::InTable { lhs, not, rhs, args } => {
            &&& t.kind == ExprKind::InTable { not, rhs }
            &&& n == 1 + args@.len()
            &&& stands_at(c, 0, *lhs, Role::Operand)
            &&& stand_from(c, 1, args@, Role::Argument)
        },
        Expr::IsNull(expr) => t.kind is IsNull && n == 1 && stands_at(c, 0, *expr, Role::Operand),
        Expr::Like { lhs, not, op, rhs, escape } => {
            &&& t.kind == ExprKind::Like { not, op, escape: escape is Some }
            &&& n == 2 + option_size(escape)
            &&& stands_at(c, 0, *lhs, Role::Operand)
            &&& stands_at(c, 1, *rhs, Role::Operand)
            &&& is_option_at(c, 2, escape, Role::Operand)
        },
        Expr::Literal(l) => t.kind == ExprKind::Literal(l) && n == 0,
        Expr::Name(name) => t.kind == ExprKind::Name(name) && n == 0,
        Expr::NotNull(expr) => t.kind is NotNull && n == 1 && stands_at(
            c,
            0,
            *expr,
            Role::Operand,
        ),
        Expr::Parenthesized(exprs) => t.kind is Parenthesized && n == exprs@.len() && stand_from(
            c,
            0,
            exprs@,
            Role::Operand,
        ),
        Expr::Qualified(table, name) => t.kind == ExprKind::Qualified(table, name) && n == 0,
        Expr::Raise(resolve, expr) => {
            &&& t.kind == ExprKind::Raise(resolve)
            &&& n == option_size(expr)
            &&& is_option_at(c, 0, expr, Role::Operand)
        },
        Expr::Subquery(select) => t.kind == ExprKind::Subquery(select) && n == 0,
        Expr::Unary(op, expr) => {
            t.kind == ExprKind::Unary(op) && n == 1 && stands_at(c, 0, *expr, Role::Operand)
        },
        Expr::Variable(text) => t.kind == ExprKind::Variable(text@) && n == 0,
        Expr::SubqueryResult { subquery_id, lhs, not_in, query_type } => {
            &&& t.kind == ExprKind::SubqueryResult { subquery_id, not_in, query_type }
            &&& n == option_size(lhs)
            &&& is_option_at(c, 0, lhs, Role::Operand)
        },
    }
}

/// The subexpressions of an expression are those that are listed from a position on.
spec fn lists(children: Seq<Child>, at: int, v: Seq<Operand>) -> bool {
    forall|i: int|
        0 <= i < v.len() ==> stands_at(children, at + i, (#[trigger] v[i]).expr, v[i].role)
}

proof fn lists_parts(children: Seq<Child>, at: int, v: Seq<Operand>, w: Seq<Operand>)
    requires
        lists(children, at, v + w),
    ensures
        lists(children, at, v),
        lists(children, at + v.len(), w),
{
    assert forall|i: int| 0 <= i < v.len() implies stands_at(
        children,
        at + i,
        (#[trigger] v[i]).expr,
        v[i].role,
    ) by {
        assert((v + w)[i] == v[i]);
    }
    assert forall|i: int| 0 <= i < w.len() implies stands_at(
        children,
        at + v.len() + i,
        (#[trigger] w[i]).expr,
        w[i].role,
    ) by {
        assert((v + w)[v.len() + i] == w[i]);
    }
}

proof fn listed_option(children: Seq<Child>, at: int, e: Option<Box<Expr>>, role: Role)
    requires
        lists(children, at, optional_operand(e, role)),
    ensures
        optional_operand(e, role).len() == option_size(e),
        is_option_at(children, at, e, role),
{
    if let Some(x) = e {
        assert(optional_operand(e, role)[0].expr == *x);
    }
}

proof fn listed_exprs(children: Seq<Child>, at: int, v: Seq<Expr>, role: Role)
    requires
        lists(children, at, operands_of(v, role)),
    ensures
        stand_from(children, at, v, role),
{
    assert forall|i: int| 0 <= i < v.len() implies stands_at(
        children,
        at + i,
        #[trigger] v[i],
        role,
    ) by {
        assert(operands_of(v, role)[i].expr == v[i]);
    }
}

proof fn listed_terms(children: Seq<Child>, at: int, v: Seq<SortedColumn>, role: Role)
    requires
        lists(children, at, sorted_operands(v, role)),
    ensures
        terms_stand_from(children, at, v, role),
{
    assert forall|i: int| 0 <= i < v.len() implies stands_at(
        children,
        at + i,
        (#[trigger] v[i]).expr,
        role,
    ) by {
        assert(sorted_operands(v, role)[i].expr == v[i].expr);
    }
}

proof fn listed_bound(children: Seq<Child>, at: int, b: FrameBound)
    requires
        lists(children, at, bound_operands(b)),
    ensures
        bound_operands(b).len() == bound_size(b),
        is_bound_at(children, at, b, bound_shape(b)),
{
    match b {
        FrameBound::Following(e) => {
            assert(bound_operands(b)[0].expr == *e);
        },
        FrameBound::Preceding(e) => {
            assert(bound_operands(b)[0].expr == *e);
        },
        _ => {},
    }
}

proof fn listed_frame(children: Seq<Child>, at: int, f: FrameClause)
    requires
        lists(children, at, frame_operands(f)),
    ensures
        is_frame_at(children, at, f, frame_shape(f)),
{
    let ends = match f.end {
        Some(end) => bound_operands(end),
        None => seq![],
    };
    lists_parts(children, at, bound_operands(f.start), ends);
    listed_bound(children, at, f.start);
    if let Some(end) = f.end {
        listed_bound(children, at + bound_size(f.start), end);
    }
}

proof fn listed_over(children: Seq<Child>, at: int, o: Over)
    requires
        lists(children, at, over_operands(o)),
    ensures
        over_operands(o).len() == over_size(o),
        is_over_at(children, at, o, over_shape(o)),
{
    if let Over::Window(w) = o {
        let partitions = operands_of(w.partition_by@, Role::Partition);
        let terms = sorted_operands(w.order_by@, Role::WindowOrder);
        let frame = match w.frame_clause {
            Some(f) => frame_operands(f),
            None => seq![],
        };
        lists_parts(children, at, partitions, terms + frame);
        lists_parts(children, at + partitions.len(), terms, frame);
        listed_exprs(children, at, w.partition_by@, Role::Partition);
        listed_terms(children, at + partitions.len(), w.order_by@, Role::WindowOrder);
        if let Some(f) = w.frame_clause {
            listed_frame(children, at + partitions.len() + terms.len(), f);
        }
    }
}

proof fn listed_tail(children: Seq<Child>, at: int, t: FunctionTail)
    requires
        lists(children, at, tail_operands(t)),
    ensures
        tail_operands(t).len() == tail_size(t),
        is_tail_at(children, at, t, tail_shape(t)),
{
    let filter = optional_operand(t.filter_clause, Role::Filter);
    let over = match t.over_clause {
        Some(o) => over_operands(o),
        None => seq![],
    };
    lists_parts(children, at, filter, over);
    listed_option(children, at, t.filter_clause, Role::Filter);
    if let Some(o) = t.over_clause {
        listed_over(children, at + filter.len(), o);
    }
}

proof fn listed_pairs(children: Seq<Child>, at: int, v: Seq<(Expr, Expr)>)
    requires
        lists(children, at, pair_operands(v)),
    ensures
        forall|i: int|
            0 <= i < v.len() ==> stands_at(
                children,
                at + 2 * i,
                (#[trigger] v[i]).0,
                Role::Operand,
            ) && stands_at(children, at + 2 * i + 1, v[i].1, Role::Operand),
{
    assert forall|i: int| 0 <= i < v.len() implies stands_at(
        children,
        at + 2 * i,
        (#[trigger] v[i]).0,
        Role::Operand,
    ) && stands_at(children, at + 2 * i + 1, v[i].1, Role::Operand) by {
        assert(pair_operands(v)[2 * i].expr == v[i].0);
        assert(pair_operands(v)[2 * i + 1].expr == v[i].1);
    }
}

/// The tree of an expression says all of it. So two expressions with the same tree, such as an
/// expression and its copy, are the same at any depth, and a walk of the tree reaches every
/// subexpression from left to right.
pub proof fn tree_says_all(e: Expr)
    ensures
        is_tree_of(e@, e),
{
    let c = e@.children;
    let operands = expr_operands(e);
    assert forall|i: int| 0 <= i < operands.len() implies stands_at(
        c,
        0 + i,
        (#[trigger] operands[i]).expr,
        operands[i].role,
    ) by {
        assert(c[i] == (Child { role: operands[i].role, tree: expr_tree(operands[i].expr) }));
    }
    assert(lists(c, 0, operands));
    assert(c.len() == operands.len());
    match e {
        Expr::Between { lhs, start, end, .. } => {
            assert(operands[0].expr == *lhs);
            assert(operands[1].expr == *start);
            assert(operands[2].expr == *end);
        },
        Expr::Binary(lhs, _, rhs) => {
            assert(operands[0].expr == *lhs);
            assert(operands[1].expr == *rhs);
        },
        Expr::Case { base, when_then_pairs, else_expr } => {
            let first = optional_operand(base, Role::Operand);
            let pairs = pair_operands(when_then_pairs@);
            let last = optional_operand(else_expr, Role::Operand);
            lists_parts(c, 0, first, pairs + last);
            lists_parts(c, first.len() as int, pairs, last);
            listed_option(c, 0, base, Role::Operand);
            listed_pairs(c, first.len() as int, when_then_pairs@);
            listed_option(c, first.len() as int + pairs.len(), else_expr, Role::Operand);
        },
        Expr::FunctionCall { args, order_by, filter_over, .. } => {
            let arguments = operands_of(args@, Role::Argument);
            let terms = sorted_operands(order_by@, Role::ArgumentOrder);
            lists_parts(c, 0, arguments, terms + tail_operands(filter_over));
            lists_parts(c, arguments.len() as int, terms, tail_operands(filter_over));
            listed_exprs(c, 0, args@, Role::Argument);
            listed_terms(c, arguments.len() as int, order_by@, Role::ArgumentOrder);
            listed_tail(c, arguments.len() as int + terms.len(), filter_over);
        },
        Expr::FunctionCallStar { filter_over, .. } => {
            listed_tail(c, 0, filter_over);
        },
        Expr::InList { lhs, rhs, .. } => {
            let left = seq![Operand { role: Role::Operand, expr: *lhs }];
            assert(operands[0].expr == *lhs);
            lists_parts(c, 0, left, operands_of(rhs@, Role::Operand));
            listed_exprs(c, 1, rhs@, Role::Operand);
        },
        Expr::InTable { lhs, args, .. } => {
            let left = seq![Operand { role: Role::Operand, expr: *lhs }];
            assert(operands[0].expr == *lhs);
            lists_parts(c, 0, left, operands_of(args@, Role::Argument));
            listed_exprs(c, 1, args@, Role::Argument);
        },
        Expr::Like { lhs, rhs, escape, .. } => {
            let two = seq![
                Operand { role: Role::Operand, expr: *lhs },
                Operand { role: Role::Operand, expr: *rhs },
            ];
            assert(operands[0].expr == *lhs);
            assert(operands[1].expr == *rhs);
            lists_parts(c, 0, two, optional_operand(escape, Role::Operand));
            listed_option(c, 2, escape, Role::Operand);
        },
        Expr::Parenthesized(exprs) => {
            listed_exprs(c, 0, exprs@, Role::Operand);
        },
        Expr::Raise(_, expr) => {
            listed_option(c, 0, expr, Role::Operand);
        },
        Expr::SubqueryResult { lhs, .. } => {
            listed_option(c, 0, lhs, Role::Operand);
        },
        Expr::Cast { expr, .. } => {
            assert(operands[0].expr == *expr);
        },
        Expr::Collate(expr, _) => {
            assert(operands[0].expr == *expr);
        },
        Expr::InSelect { lhs, .. } => {
            assert(operands[0].expr == *lhs);
        },
        Expr::IsNull(expr) => {
            assert(operands[0].expr == *expr);
        },
        Expr::NotNull(expr) => {
            assert(operands[0].expr == *expr);
        },
        Expr::Unary(_, expr) => {
            assert(operands[0].expr == *expr);
        },
        _ => {},
    }
}

} // verus!
