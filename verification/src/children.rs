//! Reaching the direct subexpressions of an expression by position.
use crate::ast::{
    bound_operands, bound_shape, expr_kind, expr_operands, frame_operands, frame_shape, operands_of,
    optional_operand, over_operands, over_shape, pair_operands, sort_keys, sorted_operands,
    tail_operands, tail_shape, Child, Expr, ExprTree, FrameBound, FrameClause, FunctionTail,
    Operand, Over, Role, SortedColumn,
};
use vstd::prelude::*;

verus! {

/// The operands with one expression replaced; its role stays.
pub open spec fn with_operand(operands: Seq<Operand>, i: int, expr: Expr) -> Seq<Operand> {
    operands.update(i, Operand { role: operands[i].role, expr })
}

/// The children with one tree replaced; its role stays.
pub open spec fn with_child(children: Seq<Child>, i: int, tree: ExprTree) -> Seq<Child> {
    children.update(i, Child { role: children[i].role, tree })
}

fn optional_mut(e: &mut Option<Box<Expr>>, Ghost(role): Ghost<Role>) -> (r: &mut Expr)
    requires
        *old(e) is Some,
    ensures
        *r == optional_operand(*old(e), role)[0].expr,
        *final(e) is Some,
        optional_operand(*final(e), role) == with_operand(
            optional_operand(*old(e), role),
            0,
            *final(r),
        ),
{
    match &mut *e {
        Some(e) => &mut **e,
        None => vstd::pervasive::unreached(),
    }
}

fn pair_mut(v: &mut Vec<(Expr, Expr)>, i: u128) -> (r: &mut Expr)
    requires
        i < pair_operands(old(v)@).len(),
    ensures
        *r == pair_operands(old(v)@)[i as int].expr,
        final(v)@.len() == old(v)@.len(),
        pair_operands(final(v)@) == with_operand(pair_operands(old(v)@), i as int, *final(r)),
{
    let n = v.len();
    let k: usize = (i / 2) as usize;
    assert(k == i / 2 && k < n);
    let pair = &mut v[k];
    if i % 2 == 0 {
        &mut pair.0
    } else {
        &mut pair.1
    }
}

fn bound_mut(b: &mut FrameBound) -> (r: &mut Expr)
    requires
        bound_operands(*old(b)).len() == 1,
    ensures
        *r == bound_operands(*old(b))[0].expr,
        bound_shape(*final(b)) == bound_shape(*old(b)),
        bound_operands(*final(b)) == with_operand(bound_operands(*old(b)), 0, *final(r)),
{
    match &mut *b {
        FrameBound::Following(e) => &mut **e,
        FrameBound::Preceding(e) => &mut **e,
        _ => vstd::pervasive::unreached(),
    }
}

fn bound_count(b: &FrameBound) -> (n: u128)
    ensures
        n == bound_operands(*b).len(),
{
    match b {
        FrameBound::Following(_) => 1,
        FrameBound::Preceding(_) => 1,
        _ => 0,
    }
}

fn frame_count(f: &FrameClause) -> (n: u128)
    ensures
        n == frame_operands(*f).len(),
        n <= 2,
{
    match &f.end {
        Some(end) => bound_count(&f.start) + bound_count(end),
        None => bound_count(&f.start),
    }
}

fn frame_mut(f: &mut FrameClause, i: u128) -> (r: &mut Expr)
    requires
        i < frame_operands(*old(f)).len(),
    ensures
        *r == frame_operands(*old(f))[i as int].expr,
        frame_shape(*final(f)) == frame_shape(*old(f)),
        frame_operands(*final(f)) == with_operand(frame_operands(*old(f)), i as int, *final(r)),
{
    if i < bound_count(&f.start) {
        bound_mut(&mut f.start)
    } else {
        match &mut f.end {
            Some(end) => bound_mut(end),
            None => vstd::pervasive::unreached(),
        }
    }
}

fn sorted_mut(v: &mut Vec<SortedColumn>, i: usize, Ghost(role): Ghost<Role>) -> (r: &mut Expr)
    requires
        i < old(v)@.len(),
    ensures
        *r == sorted_operands(old(v)@, role)[i as int].expr,
        final(v)@.len() == old(v)@.len(),
        sort_keys(final(v)@) == sort_keys(old(v)@),
        sorted_operands(final(v)@, role) == with_operand(
            sorted_operands(old(v)@, role),
            i as int,
            *final(r),
        ),
{
    &mut v[i].expr
}

fn exprs_mut(v: &mut Vec<Expr>, i: usize, Ghost(role): Ghost<Role>) -> (r: &mut Expr)
    requires
        i < old(v)@.len(),
    ensures
        *r == operands_of(old(v)@, role)[i as int].expr,
        final(v)@.len() == old(v)@.len(),
        operands_of(final(v)@, role) == with_operand(
            operands_of(old(v)@, role),
            i as int,
            *final(r),
        ),
{
    &mut v[i]
}

fn over_count(o: &Over) -> (n: u128)
    ensures
        n == over_operands(*o).len(),
        n <= 2 * usize::MAX + 2,
{
    match o {
        Over::Window(w) => {
            let listed = w.partition_by.len() as u128 + w.order_by.len() as u128;
            match &w.frame_clause {
                Some(f) => listed + frame_count(f),
                None => listed,
            }
        },
        Over::Name(_) => 0,
    }
}

fn over_mut(o: &mut Over, i: u128) -> (r: &mut Expr)
    requires
        i < over_operands(*old(o)).len(),
    ensures
        *r == over_operands(*old(o))[i as int].expr,
        over_shape(*final(o)) == over_shape(*old(o)),
        over_operands(*final(o)) == with_operand(over_operands(*old(o)), i as int, *final(r)),
{
    match &mut *o {
        Over::Window(w) => {
            let partitions = w.partition_by.len() as u128;
            let terms = w.order_by.len() as u128;
            if i < partitions {
                exprs_mut(&mut w.partition_by, i as usize, Ghost(Role::Partition))
            } else if i < partitions + terms {
                sorted_mut(&mut w.order_by, (i - partitions) as usize, Ghost(Role::WindowOrder))
            } else {
                match &mut w.frame_clause {
                    Some(f) => frame_mut(f, i - partitions - terms),
                    None => vstd::pervasive::unreached(),
                }
            }
        },
        Over::Name(_) => vstd::pervasive::unreached(),
    }
}

fn tail_count(t: &FunctionTail) -> (n: u128)
    ensures
        n == tail_operands(*t).len(),
        n <= 2 * usize::MAX + 3,
{
    let filters: u128 = if t.filter_clause.is_some() { 1 } else { 0 };
    match &t.over_clause {
        Some(o) => filters + over_count(o),
        None => filters,
    }
}

fn tail_mut(t: &mut FunctionTail, i: u128) -> (r: &mut Expr)
    requires
        i < tail_operands(*old(t)).len(),
    ensures
        *r == tail_operands(*old(t))[i as int].expr,
        tail_shape(*final(t)) == tail_shape(*old(t)),
        tail_operands(*final(t)) == with_operand(tail_operands(*old(t)), i as int, *final(r)),
{
    let filters: u128 = if t.filter_clause.is_some() { 1 } else { 0 };
    if i < filters {
        optional_mut(&mut t.filter_clause, Ghost(Role::Filter))
    } else {
        match &mut t.over_clause {
            Some(o) => over_mut(o, i - filters),
            None => vstd::pervasive::unreached(),
        }
    }
}

impl Expr {
    /// How many direct subexpressions the expression has. The type is wide enough for the sum
    /// of the lengths of several lists.
    pub fn child_count(&self) -> (n: u128)
        ensures
            n == self@.children.len(),
            n <= 8 * usize::MAX,
    {
        match self {
            Expr::Between { .. } => 3,
            Expr::Binary(_, _, _) => 2,
            Expr::Case { base, when_then_pairs, else_expr } => {
                let bases: u128 = if base.is_some() { 1 } else { 0 };
                let elses: u128 = if else_expr.is_some() { 1 } else { 0 };
                bases + 2 * (when_then_pairs.len() as u128) + elses
            },
            Expr::Cast { .. } => 1,
            Expr::Collate(_, _) => 1,
            Expr::FunctionCall { args, order_by, filter_over, .. } => args.len() as u128
                + order_by.len() as u128 + tail_count(filter_over),
            Expr::FunctionCallStar { filter_over, .. } => tail_count(filter_over),
            Expr::InList { rhs, .. } => 1 + rhs.len() as u128,
            Expr::InSelect { .. } => 1,
            Expr::InTable { args, .. } => 1 + args.len() as u128,
            Expr::IsNull(_) => 1,
            Expr::Like { escape, .. } => if escape.is_some() { 3 } else { 2 },
            Expr::NotNull(_) => 1,
            Expr::Parenthesized(exprs) => exprs.len() as u128,
            Expr::Raise(_, expr) => if expr.is_some() { 1 } else { 0 },
            Expr::Unary(_, _) => 1,
            Expr::SubqueryResult { lhs, .. } => if lhs.is_some() { 1 } else { 0 },
            _ => 0,
        }
    }

    /// [`Expr::child_mut`] of a construct with one, two or three operands.
    fn operator_child_mut(&mut self, i: u128) -> (r: &mut Expr)
        requires
            *old(self) is Between || *old(self) is Binary || *old(self) is Cast || *old(self) is Collate
                || *old(self) is InSelect || *old(self) is IsNull || *old(self) is NotNull || *old(
                self,
            ) is Unary,
            i < expr_operands(*old(self)).len(),
        ensures
            *r == expr_operands(*old(self))[i as int].expr,
            expr_kind(*final(self)) == expr_kind(*old(self)),
            expr_operands(*final(self)) == with_operand(
                expr_operands(*old(self)),
                i as int,
                *final(r),
            ),
    {
        match &mut *self {
            Expr::Between { lhs, start, end, .. } => if i == 0 {
                &mut **lhs
            } else if i == 1 {
                &mut **start
            } else {
                &mut **end
            },
            Expr::Binary(lhs, _, rhs) => if i == 0 {
                &mut **lhs
            } else {
                &mut **rhs
            },
            Expr::Cast { expr, .. } => &mut **expr,
            Expr::Collate(expr, _) => &mut **expr,
            Expr::InSelect { lhs, .. } => &mut **lhs,
            Expr::IsNull(expr) => &mut **expr,
            Expr::NotNull(expr) => &mut **expr,
            Expr::Unary(_, expr) => &mut **expr,
            _ => vstd::pervasive::unreached(),
        }
    }

    /// [`Expr::child_mut`] of a construct with an optional operand.
    fn optional_child_mut(&mut self, i: u128) -> (r: &mut Expr)
        requires
            *old(self) is Case || *old(self) is Like || *old(self) is Raise || *old(
                self,
            ) is SubqueryResult,
            i < expr_operands(*old(self)).len(),
        ensures
            *r == expr_operands(*old(self))[i as int].expr,
            expr_kind(*final(self)) == expr_kind(*old(self)),
            expr_operands(*final(self)) == with_operand(
                expr_operands(*old(self)),
                i as int,
                *final(r),
            ),
    {
        match &mut *self {
            Expr::Case { base, when_then_pairs, else_expr } => {
                let bases: u128 = if base.is_some() { 1 } else { 0 };
                let paired: u128 = 2 * (when_then_pairs.len() as u128);
                if i < bases {
                    optional_mut(base, Ghost(Role::Operand))
                } else if i < bases + paired {
                    pair_mut(when_then_pairs, i - bases)
                } else {
                    optional_mut(else_expr, Ghost(Role::Operand))
                }
            },
            Expr::Like { lhs, rhs, escape, .. } => if i == 0 {
                &mut **lhs
            } else if i == 1 {
                &mut **rhs
            } else {
                optional_mut(escape, Ghost(Role::Operand))
            },
            Expr::Raise(_, expr) => optional_mut(expr, Ghost(Role::Operand)),
            Expr::SubqueryResult { lhs, .. } => optional_mut(lhs, Ghost(Role::Operand)),
            _ => vstd::pervasive::unreached(),
        }
    }

    /// [`Expr::child_mut`] of a construct with a list of operands.
    fn listed_child_mut(&mut self, i: u128) -> (r: &mut Expr)
        requires
            *old(self) is InList || *old(self) is InTable || *old(self) is Parenthesized,
            i < expr_operands(*old(self)).len(),
        ensures
            *r == expr_operands(*old(self))[i as int].expr,
            expr_kind(*final(self)) == expr_kind(*old(self)),
            expr_operands(*final(self)) == with_operand(
                expr_operands(*old(self)),
                i as int,
                *final(r),
            ),
    {
        match &mut *self {
            Expr::InList { lhs, rhs, .. } => if i == 0 {
                &mut **lhs
            } else {
                let listed = rhs.len();
                assert(i - 1 < listed);
                exprs_mut(rhs, (i - 1) as usize, Ghost(Role::Operand))
            },
            Expr::InTable { lhs, args, .. } => if i == 0 {
                &mut **lhs
            } else {
                let listed = args.len();
                assert(i - 1 < listed);
                exprs_mut(args, (i - 1) as usize, Ghost(Role::Argument))
            },
            Expr::Parenthesized(exprs) => {
                let listed = exprs.len();
                assert(i < listed);
                exprs_mut(exprs, i as usize, Ghost(Role::Operand))
            },
            _ => vstd::pervasive::unreached(),
        }
    }

    /// [`Expr::child_mut`] of a function call.
    #[verifier::spinoff_prover]
    #[verifier::rlimit(40)]
    fn call_child_mut(&mut self, i: u128) -> (r: &mut Expr)
        requires
            *old(self) is FunctionCall || *old(self) is FunctionCallStar,
            i < expr_operands(*old(self)).len(),
        ensures
            *r == expr_operands(*old(self))[i as int].expr,
            expr_kind(*final(self)) == expr_kind(*old(self)),
            expr_operands(*final(self)) == with_operand(
                expr_operands(*old(self)),
                i as int,
                *final(r),
            ),
    {
        match &mut *self {
            Expr::FunctionCall { args, order_by, filter_over, .. } => {
                let arguments = args.len() as u128;
                let terms = order_by.len() as u128;
                if i < arguments {
                    exprs_mut(args, i as usize, Ghost(Role::Argument))
                } else if i < arguments + terms {
                    sorted_mut(order_by, (i - arguments) as usize, Ghost(Role::ArgumentOrder))
                } else {
                    tail_mut(filter_over, i - arguments - terms)
                }
            },
            Expr::FunctionCallStar { filter_over, .. } => tail_mut(filter_over, i),
            _ => vstd::pervasive::unreached(),
        }
    }

    /// The direct subexpression at position `i`, for reading and changing it.
    pub fn child_mut(&mut self, i: u128) -> (r: &mut Expr)
        requires
            i < old(self)@.children.len(),
        ensures
            r@ == old(self)@.children[i as int].tree,
            final(self)@.kind == old(self)@.kind,
            final(self)@.children == with_child(old(self)@.children, i as int, final(r)@),
    {
        match &*self {
            Expr::Case { .. } => self.optional_child_mut(i),
            Expr::Like { .. } => self.optional_child_mut(i),
            Expr::Raise(_, _) => self.optional_child_mut(i),
            Expr::SubqueryResult { .. } => self.optional_child_mut(i),
            Expr::InList { .. } => self.listed_child_mut(i),
            Expr::InTable { .. } => self.listed_child_mut(i),
            Expr::Parenthesized(_) => self.listed_child_mut(i),
            Expr::FunctionCall { .. } => self.call_child_mut(i),
            Expr::FunctionCallStar { .. } => self.call_child_mut(i),
            _ => self.operator_child_mut(i),
        }
    }
}

} // verus!
