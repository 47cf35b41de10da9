//! Deep copies of expressions.
use crate::ast::{
    bound_operands, bound_shape, expr_kind, expr_operands, expr_tree, frame_operands, frame_shape,
    over_operands, over_shape, sort_keys, tail_operands, tail_shape, Expr, FrameBound, FrameClause,
    FunctionTail, Operand, Over, SortedColumn, Window,
};
use vstd::prelude::*;

verus! {

/// Two lists of operands agree in roles and in the trees of the expressions.
pub open spec fn same_operands(a: Seq<Operand>, b: Seq<Operand>) -> bool {
    &&& a.len() == b.len()
    &&& forall|i: int|
        0 <= i < a.len() ==> (#[trigger] a[i]).role == b[i].role && expr_tree(a[i].expr)
            == expr_tree(b[i].expr)
}

pub(crate) fn copy_boxed(e: &Option<Box<Expr>>) -> (r: Option<Box<Expr>>)
    ensures
        r is Some == e is Some,
        e is Some ==> r->0@ == e->0@,
    decreases e,
{
    match e {
        Some(e) => Some(Box::new(copy_expr(e))),
        None => None,
    }
}

pub(crate) fn copy_list(v: &Vec<Expr>) -> (r: Vec<Expr>)
    ensures
        r@.len() == v@.len(),
        forall|i: int| 0 <= i < v@.len() ==> (#[trigger] r@[i])@ == v@[i]@,
    decreases v,
{
    let mut r: Vec<Expr> = Vec::new();
    let mut i: usize = 0;
    while i < v.len()
        invariant
            i <= v@.len(),
            r@.len() == i,
            forall|j: int| 0 <= j < i ==> (#[trigger] r@[j])@ == v@[j]@,
        decreases v@.len() - i,
    {
        r.push(copy_expr(&v[i]));
        i += 1;
    }
    r
}

fn copy_sorted(v: &Vec<SortedColumn>) -> (r: Vec<SortedColumn>)
    ensures
        r@.len() == v@.len(),
        sort_keys(r@) == sort_keys(v@),
        forall|i: int| 0 <= i < v@.len() ==> (#[trigger] r@[i]).expr@ == v@[i].expr@,
    decreases v,
{
    let mut r: Vec<SortedColumn> = Vec::new();
    let mut i: usize = 0;
    while i < v.len()
        invariant
            i <= v@.len(),
            r@.len() == i,
            forall|j: int|
                0 <= j < i ==> (#[trigger] r@[j]).expr@ == v@[j].expr@ && r@[j].order
                    == v@[j].order && r@[j].nulls == v@[j].nulls,
        decreases v@.len() - i,
    {
        let term = &v[i];
        r.push(
            SortedColumn { expr: copy_expr(&term.expr), order: term.order, nulls: term.nulls },
        );
        i += 1;
    }
    r
}

fn copy_pairs(v: &Vec<(Expr, Expr)>) -> (r: Vec<(Expr, Expr)>)
    ensures
        r@.len() == v@.len(),
        forall|i: int|
            0 <= i < v@.len() ==> (#[trigger] r@[i]).0@ == v@[i].0@ && r@[i].1@ == v@[i].1@,
    decreases v,
{
    let mut r: Vec<(Expr, Expr)> = Vec::new();
    let mut i: usize = 0;
    while i < v.len()
        invariant
            i <= v@.len(),
            r@.len() == i,
            forall|j: int|
                0 <= j < i ==> (#[trigger] r@[j]).0@ == v@[j].0@ && r@[j].1@ == v@[j].1@,
        decreases v@.len() - i,
    {
        let pair = &v[i];
        r.push((copy_expr(&pair.0), copy_expr(&pair.1)));
        i += 1;
    }
    r
}

fn copy_bound(b: &FrameBound) -> (r: FrameBound)
    ensures
        bound_shape(r) == bound_shape(*b),
        same_operands(bound_operands(r), bound_operands(*b)),
    decreases b,
{
    match b {
        FrameBound::CurrentRow => FrameBound::CurrentRow,
        FrameBound::Following(e) => FrameBound::Following(Box::new(copy_expr(e))),
        FrameBound::Preceding(e) => FrameBound::Preceding(Box::new(copy_expr(e))),
        FrameBound::UnboundedFollowing => FrameBound::UnboundedFollowing,
        FrameBound::UnboundedPreceding => FrameBound::UnboundedPreceding,
    }
}

fn copy_frame(f: &FrameClause) -> (r: FrameClause)
    ensures
        frame_shape(r) == frame_shape(*f),
        same_operands(frame_operands(r), frame_operands(*f)),
    decreases f,
{
    FrameClause {
        mode: f.mode,
        start: copy_bound(&f.start),
        end: match &f.end {
            Some(end) => Some(copy_bound(end)),
            None => None,
        },
        exclude: match &f.exclude {
            Some(exclude) => Some(exclude.clone()),
            None => None,
        },
    }
}

fn copy_over(o: &Over) -> (r: Over)
    ensures
        over_shape(r) == over_shape(*o),
        same_operands(over_operands(r), over_operands(*o)),
    decreases o,
{
    match o {
        Over::Window(w) => Over::Window(
            Window {
                base: match &w.base {
                    Some(base) => Some(base.clone()),
                    None => None,
                },
                partition_by: copy_list(&w.partition_by),
                order_by: copy_sorted(&w.order_by),
                frame_clause: match &w.frame_clause {
                    Some(f) => Some(copy_frame(f)),
                    None => None,
                },
            },
        ),
        Over::Name(name) => Over::Name(name.clone()),
    }
}

fn copy_tail(t: &FunctionTail) -> (r: FunctionTail)
    ensures
        tail_shape(r) == tail_shape(*t),
        same_operands(tail_operands(r), tail_operands(*t)),
    decreases t,
{
    FunctionTail {
        filter_clause: copy_boxed(&t.filter_clause),
        over_clause: match &t.over_clause {
            Some(o) => Some(copy_over(o)),
            None => None,
        },
    }
}

/// A copy of an expression.
pub fn copy_expr(e: &Expr) -> (r: Expr)
    ensures
        r@ == e@,
    decreases e,
{
    let r = match e {
        Expr::Between { lhs, not, start, end } => Expr::Between {
            lhs: Box::new(copy_expr(lhs)),
            not: *not,
            start: Box::new(copy_expr(start)),
            end: Box::new(copy_expr(end)),
        },
        Expr::Binary(lhs, op, rhs) => Expr::Binary(
            Box::new(copy_expr(lhs)),
            *op,
            Box::new(copy_expr(rhs)),
        ),
        Expr::Register(register) => Expr::Register(*register),
        Expr::Case { base, when_then_pairs, else_expr } => Expr::Case {
            base: copy_boxed(base),
            when_then_pairs: copy_pairs(when_then_pairs),
            else_expr: copy_boxed(else_expr),
        },
        Expr::Cast { expr, target } => Expr::Cast {
            expr: Box::new(copy_expr(expr)),
            target: match target {
                Some(target) => Some(target.clone()),
                None => None,
            },
        },
        Expr::Collate(expr, name) => Expr::Collate(Box::new(copy_expr(expr)), name.clone()),
        Expr::DoublyQualified(a, b, c) => Expr::DoublyQualified(a.clone(), b.clone(), c.clone()),
        Expr::Exists(select) => Expr::Exists(select.clone()),
        Expr::FunctionCall { name, distinctness, args, order_by, filter_over } => {
            Expr::FunctionCall {
                name: name.clone(),
                distinctness: *distinctness,
                args: copy_list(args),
                order_by: copy_sorted(order_by),
                filter_over: copy_tail(filter_over),
            }
        },
        Expr::FunctionCallStar { name, filter_over } => Expr::FunctionCallStar {
            name: name.clone(),
            filter_over: copy_tail(filter_over),
        },
        Expr::Id(name) => Expr::Id(name.clone()),
        Expr::Column { database, table, column, is_rowid_alias } => Expr::Column {
            database: *database,
            table: *table,
            column: *column,
            is_rowid_alias: *is_rowid_alias,
        },
        Expr::RowId { database, table } => Expr::RowId { database: *database, table: *table },
        Expr::InList { lhs, not, rhs } => Expr::InList {
            lhs: Box::new(copy_expr(lhs)),
            not: *not,
            rhs: copy_list(rhs),
        },
        Expr::InSelect { lhs, not, rhs } => Expr::InSelect {
            lhs: Box::new(copy_expr(lhs)),
            not: *not,
            rhs: rhs.clone(),
        },
        Expr::InTable { lhs, not, rhs, args } => Expr::InTable {
            lhs: Box::new(copy_expr(lhs)),
            not: *not,
            rhs: rhs.clone(),
            args: copy_list(args),
        },
        Expr::IsNull(expr) => Expr::IsNull(Box::new(copy_expr(expr))),
        Expr::Like { lhs, not, op, rhs, escape } => Expr::Like {
            lhs: Box::new(copy_expr(lhs)),
            not: *not,
            op: *op,
            rhs: Box::new(copy_expr(rhs)),
            escape: copy_boxed(escape),
        },
        Expr::Literal(literal) => Expr::Literal(literal.clone()),
        Expr::Name(name) => Expr::Name(name.clone()),
        Expr::NotNull(expr) => Expr::NotNull(Box::new(copy_expr(expr))),
        Expr::Parenthesized(exprs) => Expr::Parenthesized(copy_list(exprs)),
        Expr::Qualified(table, name) => Expr::Qualified(table.clone(), name.clone()),
        Expr::Raise(resolve, expr) => Expr::Raise(*resolve, copy_boxed(expr)),
        Expr::Subquery(select) => Expr::Subquery(select.clone()),
        Expr::Unary(op, expr) => Expr::Unary(*op, Box::new(copy_expr(expr))),
        Expr::Variable(text) => Expr::Variable(text.clone()),
        Expr::SubqueryResult { subquery_id, lhs, not_in, query_type } => Expr::SubqueryResult {
            subquery_id: *subquery_id,
            lhs: copy_boxed(lhs),
            not_in: *not_in,
            query_type: *query_type,
        },
    };
    assert(expr_kind(r) == expr_kind(*e));
    assert(same_operands(expr_operands(r), expr_operands(*e)));
    assert(r@.children =~= e@.children);
    r
}

impl Clone for Expr {
    fn clone(&self) -> (r: Self)
        ensures
            r@ == self@,
    {
        copy_expr(self)
    }
}

} // verus!
