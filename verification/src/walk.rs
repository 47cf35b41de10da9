//! Walking an expression and planning the subqueries in it.
use crate::ast::{leaf, Child, Expr, ExprKind, ExprTree, Literal, SubqueryType, TableInternalId};
use crate::compiler::{optimizes, prepares, refs_view, Resolver, ResolverView, SelectCompiler};
use crate::plan::{
    NonFromClauseSubquery, OuterQueryReference, Plan, QueryDestination, SelectPlan,
    SubqueryPosition,
};
use crate::plan_copy::OuterQueryReferenceView;
use crate::planner::{
    exists_finished, finish_exists, finish_in, finish_row_value, in_finished, row_value_finished,
};
use crate::program::{
    capacity_error, out_of_capacity, outcome, parse_error, ErrorView, LimboError, ProgramBuilder,
    ProgramView,
};
use turso_parser::ast::Select;
use vstd::prelude::*;

verus! {

/// What planning a subquery changes: the program and the list of planned subqueries.
pub struct PlanState {
    pub program: ProgramView,
    pub subqueries: Seq<NonFromClauseSubquery>,
}

/// The clause that is walked: what its subqueries are planned against, the outer tables that they
/// can see, and where it stands.
pub struct Clause {
    pub resolver: ResolverView,
    pub refs: Seq<OuterQueryReferenceView>,
    pub position: SubqueryPosition,
}

/// The message for a compound `SELECT` as a subquery.
pub open spec fn compound_select() -> ErrorView {
    ErrorView::ParseError("compound SELECT queries not supported yet in WHERE clause subqueries"@)
}

/// A `SELECT` is planned and the plan improved; a compound `SELECT` is refused.
pub open spec fn settled<C: SelectCompiler>(
    c: C,
    before: ProgramView,
    select: Select,
    resolver: ResolverView,
    refs: Seq<OuterQueryReferenceView>,
    destination: QueryDestination,
    after: ProgramView,
    result: Result<SelectPlan, ErrorView>,
) -> bool {
    exists|reply: Result<Plan, LimboError>|
        {
            &&& #[trigger] prepares(c, before, select, resolver, refs, destination, after, reply)
            &&& match reply {
                Err(e) => result == Err::<SelectPlan, ErrorView>(e@),
                Ok(Plan::CompoundSelect) => result == Err::<SelectPlan, ErrorView>(
                    compound_select(),
                ),
                Ok(Plan::Select(plan)) => exists|improved: Result<SelectPlan, LimboError>|
                    #[trigger] optimizes(c, plan, resolver.schema, improved) && result == outcome(
                        improved,
                    ),
            }
        }
}

/// Plans a `SELECT` and improves the plan.
fn settle<C: SelectCompiler>(
    compiler: &C,
    program: &mut ProgramBuilder,
    select: Select,
    resolver: &Resolver,
    refs: &Vec<OuterQueryReference>,
    destination: QueryDestination,
) -> (r: Result<SelectPlan, LimboError>)
    ensures
        settled(
            *compiler,
            old(program)@,
            select,
            resolver@,
            refs_view(refs@),
            destination,
            final(program)@,
            outcome(r),
        ),
{
    let (after, reply) = compiler.prepare_select_plan(
        program.take(),
        select,
        resolver,
        refs,
        destination,
    );
    *program = after;
    assert(prepares(
        *compiler,
        old(program)@,
        select,
        resolver@,
        refs_view(refs@),
        destination,
        program@,
        reply,
    ));
    match reply {
        Err(e) => Err(e),
        Ok(Plan::CompoundSelect) => Err(
            parse_error("compound SELECT queries not supported yet in WHERE clause subqueries"),
        ),
        Ok(Plan::Select(plan)) => {
            let ghost prepared = plan;
            let improved = compiler.optimize_select_plan(plan, &resolver.schema);
            assert(optimizes(*compiler, prepared, resolver@.schema, improved));
            improved
        },
    }
}

/// The node that stands for the result of a subquery.
pub open spec fn result_kind(
    subquery_id: TableInternalId,
    not_in: bool,
    query_type: SubqueryType,
) -> ExprKind {
    ExprKind::SubqueryResult { subquery_id, not_in, query_type }
}

/// `EXISTS (SELECT ...)`: a number and a register are taken, the expression becomes the register,
/// and the subquery is planned for it.
pub open spec fn exists_visited<C: SelectCompiler>(
    c: C,
    clause: Clause,
    before: PlanState,
    select: Select,
    after: PlanState,
    kind: ExprKind,
    result: Result<(), ErrorView>,
) -> bool {
    let id = before.program.table_id();
    let result_reg = before.program.register(0);
    &&& kind == result_kind(id, false, SubqueryType::Exists { result_reg })
    &&& exists|planned: Result<SelectPlan, ErrorView>|
        {
            &&& #[trigger] settled(
                c,
                before.program.with_table_id().with_registers(1),
                select,
                clause.resolver,
                clause.refs,
                QueryDestination::ExistsSubqueryResult { result_reg },
                after.program,
                planned,
            )
            &&& match planned {
                Err(e) => after.subqueries == before.subqueries && result == Err::<(), ErrorView>(
                    e,
                ),
                Ok(plan) => exists_finished(
                    plan,
                    id,
                    result_reg,
                    clause.position,
                    before.subqueries,
                    after.subqueries,
                    result,
                ),
            }
        }
}

/// `(SELECT ...)` as a value: a number is taken and the subquery planned; then the expression
/// becomes the registers of its columns.
pub open spec fn row_value_visited<C: SelectCompiler>(
    c: C,
    clause: Clause,
    before: PlanState,
    select: Select,
    after: PlanState,
    kind: ExprKind,
    result: Result<(), ErrorView>,
) -> bool {
    let id = before.program.table_id();
    exists|program: ProgramView, planned: Result<SelectPlan, ErrorView>|
        {
            &&& #[trigger] settled(
                c,
                before.program.with_table_id(),
                select,
                clause.resolver,
                clause.refs,
                QueryDestination::Unset,
                program,
                planned,
            )
            &&& match planned {
                Err(e) => {
                    &&& after == PlanState { program, ..before }
                    &&& kind == result_kind(
                        id,
                        false,
                        SubqueryType::RowValue { result_reg_start: 0, num_regs: 0 },
                    )
                    &&& result == Err::<(), ErrorView>(e)
                },
                Ok(plan) => {
                    &&& kind matches ExprKind::SubqueryResult { query_type, .. } && kind
                        == result_kind(id, false, query_type) && row_value_finished(
                        plan,
                        id,
                        clause.position,
                        program,
                        before.subqueries,
                        after.program,
                        after.subqueries,
                        query_type,
                        result,
                    )
                },
            }
        }
}

/// An `IN` whose subquery is planned becomes its left side and the index that holds the rows, or
/// a `NULL` where it does not get that far.
pub open spec fn in_replaced(
    plan: SelectPlan,
    lhs: Child,
    not: bool,
    id: TableInternalId,
    position: SubqueryPosition,
    before: PlanState,
    after: PlanState,
    tree: ExprTree,
    result: Result<(), ErrorView>,
) -> bool {
    exists|query_type: Option<SubqueryType>|
        {
            &&& #[trigger] in_finished(
                plan,
                lhs.tree,
                id,
                position,
                before.program,
                before.subqueries,
                after.program,
                after.subqueries,
                query_type,
                result,
            )
            &&& tree == match query_type {
                Some(query_type) => ExprTree {
                    kind: result_kind(id, not, query_type),
                    children: seq![lhs],
                },
                None => leaf(ExprKind::Literal(Literal::Null)),
            }
        }
}

proof fn show_in_replaced(
    plan: SelectPlan,
    lhs: Child,
    not: bool,
    id: TableInternalId,
    position: SubqueryPosition,
    before: PlanState,
    after: PlanState,
    tree: ExprTree,
    query_type: Option<SubqueryType>,
    result: Result<(), ErrorView>,
)
    requires
        in_finished(
            plan,
            lhs.tree,
            id,
            position,
            before.program,
            before.subqueries,
            after.program,
            after.subqueries,
            query_type,
            result,
        ),
        match query_type {
            Some(query_type) => tree.kind == result_kind(id, not, query_type) && tree.children
                =~= seq![lhs],
            None => tree.kind == ExprKind::Literal(Literal::Null) && tree.children.len() == 0,
        },
    ensures
        in_replaced(plan, lhs, not, id, position, before, after, tree, result),
{
    if query_type is None {
        assert(tree.children =~= seq![]);
    }
}

/// `lhs [NOT] IN (SELECT ...)`: a number is taken and the subquery planned; then the expression
/// becomes the left side and the index that holds the rows. Where it does not get that far, a
/// `NULL` is left.
pub open spec fn in_visited<C: SelectCompiler>(
    c: C,
    clause: Clause,
    before: PlanState,
    lhs: Child,
    not: bool,
    select: Select,
    after: PlanState,
    tree: ExprTree,
    result: Result<(), ErrorView>,
) -> bool {
    let id = before.program.table_id();
    exists|program: ProgramView, planned: Result<SelectPlan, ErrorView>|
        {
            &&& #[trigger] settled(
                c,
                before.program.with_table_id(),
                select,
                clause.resolver,
                clause.refs,
                QueryDestination::Unset,
                program,
                planned,
            )
            &&& match planned {
                Err(e) => {
                    &&& after == PlanState { program, ..before }
                    &&& tree == leaf(ExprKind::Literal(Literal::Null))
                    &&& result == Err::<(), ErrorView>(e)
                },
                Ok(plan) => in_replaced(
                    plan,
                    lhs,
                    not,
                    id,
                    clause.position,
                    PlanState { program, ..before },
                    after,
                    tree,
                    result,
                ),
            }
        }
}

/// How many registers a node takes before its subquery is planned.
pub open spec fn registers_taken(kind: ExprKind) -> nat {
    if kind is Exists {
        1
    } else {
        0
    }
}

/// One node of an expression is visited: a subquery is planned and replaced, anything else is left
/// as it is.
pub open spec fn visited<C: SelectCompiler>(
    c: C,
    clause: Clause,
    before: PlanState,
    t: ExprTree,
    after: PlanState,
    tree: ExprTree,
    result: Result<(), ErrorView>,
) -> bool {
    if !(t.kind is Exists || t.kind is Subquery || t.kind is InSelect) {
        after == before && tree == t && result == Ok::<(), ErrorView>(())
    } else if !before.program.has_room(registers_taken(t.kind), 0, 1) {
        after == before && tree == t && result == Err::<(), ErrorView>(out_of_capacity())
    } else {
        match t.kind {
            ExprKind::Exists(select) => tree.children == t.children && exists_visited(
                c,
                clause,
                before,
                select,
                after,
                tree.kind,
                result,
            ),
            ExprKind::Subquery(select) => tree.children == t.children && row_value_visited(
                c,
                clause,
                before,
                select,
                after,
                tree.kind,
                result,
            ),
            ExprKind::InSelect { not, rhs } => in_visited(
                c,
                clause,
                before,
                t.children[0],
                not,
                rhs,
                after,
                tree,
                result,
            ),
            _ => true,
        }
    }
}

/// A point between two steps of a walk.
pub open spec fn between(state: PlanState, so_far: Result<(), ErrorView>) -> bool {
    true
}

/// An expression is walked: the node first, then its subexpressions as they are afterwards. The
/// walk ends at the first failure.
pub open spec fn walked<C: SelectCompiler>(
    c: C,
    clause: Clause,
    before: PlanState,
    t: ExprTree,
    after: PlanState,
    tree: ExprTree,
    result: Result<(), ErrorView>,
) -> bool
    decreases t,
{
    exists|mid: PlanState, seen: ExprTree, r: Result<(), ErrorView>|
        {
            &&& #[trigger] visited(c, clause, before, t, mid, seen, r)
            &&& match r {
                Err(_) => after == mid && tree == seen && result == r,
                Ok(_) => tree.kind == seen.kind && children_walked(
                    c,
                    clause,
                    mid,
                    t.children,
                    after,
                    tree.children,
                    result,
                ),
            }
        }
}

/// Subexpressions are walked from left to right; those behind a failure stay as they are.
pub open spec fn children_walked<C: SelectCompiler>(
    c: C,
    clause: Clause,
    before: PlanState,
    children: Seq<Child>,
    after: PlanState,
    walked_children: Seq<Child>,
    result: Result<(), ErrorView>,
) -> bool
    decreases children,
{
    &&& walked_children.len() == children.len()
    &&& if children.len() == 0 {
        after == before && result == Ok::<(), ErrorView>(())
    } else {
        exists|mid: PlanState, r: Result<(), ErrorView>|
            {
                &&& #[trigger] between(mid, r)
                &&& children_walked(
                    c,
                    clause,
                    before,
                    children.drop_last(),
                    mid,
                    walked_children.drop_last(),
                    r,
                )
                &&& match r {
                    Err(_) => after == mid && walked_children.last() == children.last() && result
                        == r,
                    Ok(_) => walked_children.last().role == children.last().role && walked(
                        c,
                        clause,
                        mid,
                        children.last().tree,
                        after,
                        walked_children.last().tree,
                        result,
                    ),
                }
            }
    }
}

/// The steps of a walk: the node is visited, and then its subexpressions are walked.
pub proof fn walk_steps<C: SelectCompiler>(
    c: C,
    clause: Clause,
    before: PlanState,
    t: ExprTree,
    after: PlanState,
    tree: ExprTree,
    result: Result<(), ErrorView>,
) -> (steps: (PlanState, ExprTree, Result<(), ErrorView>))
    requires
        walked(c, clause, before, t, after, tree, result),
    ensures
        visited(c, clause, before, t, steps.0, steps.1, steps.2),
        steps.2 is Err ==> after == steps.0 && tree == steps.1 && result == steps.2,
        steps.2 is Ok ==> tree.kind == steps.1.kind && children_walked(
            c,
            clause,
            steps.0,
            t.children,
            after,
            tree.children,
            result,
        ),
{
    choose|mid: PlanState, seen: ExprTree, r: Result<(), ErrorView>|
        {
            &&& #[trigger] visited(c, clause, before, t, mid, seen, r)
            &&& match r {
                Err(_) => after == mid && tree == seen && result == r,
                Ok(_) => tree.kind == seen.kind && children_walked(
                    c,
                    clause,
                    mid,
                    t.children,
                    after,
                    tree.children,
                    result,
                ),
            }
        }
}

/// The steps of walking several expressions: those before the last, and then the last.
pub proof fn walks_steps<C: SelectCompiler>(
    c: C,
    clause: Clause,
    before: PlanState,
    children: Seq<Child>,
    after: PlanState,
    walked_children: Seq<Child>,
    result: Result<(), ErrorView>,
) -> (steps: (PlanState, Result<(), ErrorView>))
    requires
        children_walked(c, clause, before, children, after, walked_children, result),
        children.len() > 0,
    ensures
        children_walked(
            c,
            clause,
            before,
            children.drop_last(),
            steps.0,
            walked_children.drop_last(),
            steps.1,
        ),
        steps.1 is Err ==> {
            &&& after == steps.0
            &&& walked_children.last() == children.last()
            &&& result == steps.1
        },
        steps.1 is Ok ==> {
            &&& steps.1 == Ok::<(), ErrorView>(())
            &&& walked_children.last().role == children.last().role
            &&& walked(
                c,
                clause,
                steps.0,
                children.last().tree,
                after,
                walked_children.last().tree,
                result,
            )
        },
{
    let steps: (PlanState, Result<(), ErrorView>) = choose|
        mid: PlanState,
        r: Result<(), ErrorView>,
    |
        {
            &&& #[trigger] between(mid, r)
            &&& children_walked(
                c,
                clause,
                before,
                children.drop_last(),
                mid,
                walked_children.drop_last(),
                r,
            )
            &&& match r {
                Err(_) => after == mid && walked_children.last() == children.last() && result
                    == r,
                Ok(_) => walked_children.last().role == children.last().role && walked(
                    c,
                    clause,
                    mid,
                    children.last().tree,
                    after,
                    walked_children.last().tree,
                    result,
                ),
            }
        };
    match steps.1 {
        Ok(unit) => {
            assert(unit == ());
        },
        Err(_) => {},
    }
    steps
}

/// The subexpressions behind a failure stay as they are.
pub proof fn children_behind_failure<C: SelectCompiler>(
    c: C,
    clause: Clause,
    before: PlanState,
    children: Seq<Child>,
    after: PlanState,
    walked_children: Seq<Child>,
    error: ErrorView,
    n: int,
)
    requires
        0 <= n <= children.len() == walked_children.len(),
        children_walked(
            c,
            clause,
            before,
            children.take(n),
            after,
            walked_children.take(n),
            Err(error),
        ),
        forall|i: int| n <= i < children.len() ==> walked_children[i] == children[i],
    ensures
        children_walked(c, clause, before, children, after, walked_children, Err(error)),
    decreases children.len() - n,
{
    if n == children.len() {
        assert(children.take(n) =~= children);
        assert(walked_children.take(n) =~= walked_children);
    } else {
        assert(children.take(n + 1).drop_last() =~= children.take(n));
        assert(walked_children.take(n + 1).drop_last() =~= walked_children.take(n));
        assert(between(after, Err(error)));
        children_behind_failure(
            c,
            clause,
            before,
            children,
            after,
            walked_children,
            error,
            n + 1,
        );
    }
}

/// The state of planning that a program and a list of subqueries stand for.
pub open spec fn state_of(
    program: ProgramBuilder,
    subqueries: Vec<NonFromClauseSubquery>,
) -> PlanState {
    PlanState { program: program@, subqueries: subqueries@ }
}

/// Plans the subqueries of one clause. A correlated subquery may see `refs`.
pub struct SubqueryParser<'a, C: SelectCompiler> {
    pub compiler: &'a C,
    pub resolver: &'a Resolver,
    pub refs: &'a Vec<OuterQueryReference>,
    pub position: SubqueryPosition,
}

impl<'a, C: SelectCompiler> SubqueryParser<'a, C> {
    /// The clause whose subqueries are planned.
    pub open spec fn clause(&self) -> Clause {
        Clause {
            resolver: self.resolver@,
            refs: refs_view(self.refs@),
            position: self.position,
        }
    }

    /// Visits one node: a subquery is planned and replaced, anything else is left as it is.
    pub fn visit(
        &self,
        expr: &mut Expr,
        program: &mut ProgramBuilder,
        out_subqueries: &mut Vec<NonFromClauseSubquery>,
    ) -> (r: Result<(), LimboError>)
        ensures
            visited(
                *self.compiler,
                self.clause(),
                state_of(*old(program), *old(out_subqueries)),
                old(expr)@,
                state_of(*final(program), *final(out_subqueries)),
                final(expr)@,
                outcome(r),
            ),
    {
        match &*expr {
            Expr::Exists(_) => self.visit_exists(expr, program, out_subqueries),
            Expr::Subquery(_) => self.visit_row_value(expr, program, out_subqueries),
            Expr::InSelect { .. } => self.visit_in(expr, program, out_subqueries),
            _ => Ok(()),
        }
    }

    /// Walks an expression, plans the subqueries in it and replaces them. A failure ends the walk.
    pub fn walk_expr_mut(
        &self,
        expr: &mut Expr,
        program: &mut ProgramBuilder,
        out_subqueries: &mut Vec<NonFromClauseSubquery>,
    ) -> (r: Result<(), LimboError>)
        ensures
            walked(
                *self.compiler,
                self.clause(),
                state_of(*old(program), *old(out_subqueries)),
                old(expr)@,
                state_of(*final(program), *final(out_subqueries)),
                final(expr)@,
                outcome(r),
            ),
        decreases old(expr)@,
    {
        let ghost c = *self.compiler;
        let ghost clause = self.clause();
        let ghost t = expr@;
        let ghost before = state_of(*program, *out_subqueries);
        let visit = self.visit(expr, program, out_subqueries);
        let ghost mid = state_of(*program, *out_subqueries);
        let ghost seen = expr@;
        match visit {
            Err(e) => {
                return Err(e);
            },
            Ok(_) => {},
        }
        let n = expr.child_count();
        let mut i: u128 = 0;
        while i < n
            invariant
                c == *self.compiler,
                clause == self.clause(),
                t == old(expr)@,
                i <= n == t.children.len(),
                expr@.kind == seen.kind,
                expr@.children.len() == n,
                children_walked(
                    c,
                    clause,
                    mid,
                    t.children.take(i as int),
                    state_of(*program, *out_subqueries),
                    expr@.children.take(i as int),
                    Ok(()),
                ),
                forall|j: int| i <= j < n ==> #[trigger] expr@.children[j] == t.children[j],
                visited(c, clause, before, t, mid, seen, Ok(())),
                before == state_of(*old(program), *old(out_subqueries)),
            decreases n - i,
        {
            let ghost so_far = state_of(*program, *out_subqueries);
            let ghost here = expr@;
            let child = self.walk_expr_mut(expr.child_mut(i), program, out_subqueries);
            let ghost now = state_of(*program, *out_subqueries);
            proof {
                let done = expr@.children.take(i + 1);
                let children = t.children.take(i + 1);
                assert(done.drop_last() =~= here.children.take(i as int));
                assert(children.drop_last() =~= t.children.take(i as int));
                assert(between(so_far, Ok(())));
            }
            match child {
                Err(e) => {
                    proof {
                        children_behind_failure(
                            c,
                            clause,
                            mid,
                            t.children,
                            now,
                            expr@.children,
                            e@,
                            i + 1,
                        );
                    }
                    return Err(e);
                },
                Ok(_) => {},
            }
            i += 1;
        }
        assert(t.children.take(n as int) =~= t.children);
        assert(expr@.children.take(n as int) =~= expr@.children);
        Ok(())
    }

    fn visit_exists(
        &self,
        expr: &mut Expr,
        program: &mut ProgramBuilder,
        out_subqueries: &mut Vec<NonFromClauseSubquery>,
    ) -> (r: Result<(), LimboError>)
        requires
            *old(expr) is Exists,
        ensures
            visited(
                *self.compiler,
                self.clause(),
                state_of(*old(program), *old(out_subqueries)),
                old(expr)@,
                state_of(*final(program), *final(out_subqueries)),
                final(expr)@,
                outcome(r),
            ),
    {
        if !program.has_room(1, 0, 1) {
            return Err(capacity_error());
        }
        let subquery_id = program.next_table_reference();
        let result_reg = program.alloc_register();
        let mut taken = Expr::SubqueryResult {
            subquery_id,
            lhs: None,
            not_in: false,
            query_type: SubqueryType::Exists { result_reg },
        };
        std::mem::swap(&mut taken, expr);
        let select = match taken {
            Expr::Exists(select) => select,
            _ => vstd::pervasive::unreached(),
        };
        let planned = settle(
            self.compiler,
            program,
            select,
            self.resolver,
            self.refs,
            QueryDestination::ExistsSubqueryResult { result_reg },
        );
        assert(settled(
            *self.compiler,
            old(program)@.with_table_id().with_registers(1),
            select,
            self.clause().resolver,
            self.clause().refs,
            QueryDestination::ExistsSubqueryResult { result_reg },
            program@,
            outcome(planned),
        ));
        match planned {
            Err(e) => Err(e),
            Ok(plan) => finish_exists(
                plan,
                subquery_id,
                result_reg,
                self.position,
                out_subqueries,
            ),
        }
    }

    fn visit_row_value(
        &self,
        expr: &mut Expr,
        program: &mut ProgramBuilder,
        out_subqueries: &mut Vec<NonFromClauseSubquery>,
    ) -> (r: Result<(), LimboError>)
        requires
            *old(expr) is Subquery,
        ensures
            visited(
                *self.compiler,
                self.clause(),
                state_of(*old(program), *old(out_subqueries)),
                old(expr)@,
                state_of(*final(program), *final(out_subqueries)),
                final(expr)@,
                outcome(r),
            ),
    {
        if !program.has_room(0, 0, 1) {
            return Err(capacity_error());
        }
        let subquery_id = program.next_table_reference();
        // The registers are not known until the subquery is planned.
        let mut taken = Expr::SubqueryResult {
            subquery_id,
            lhs: None,
            not_in: false,
            query_type: SubqueryType::RowValue { result_reg_start: 0, num_regs: 0 },
        };
        std::mem::swap(&mut taken, expr);
        assert(expr@.children =~= old(expr)@.children);
        let select = match taken {
            Expr::Subquery(select) => select,
            _ => vstd::pervasive::unreached(),
        };
        let planned = settle(
            self.compiler,
            program,
            select,
            self.resolver,
            self.refs,
            QueryDestination::Unset,
        );
        assert(settled(
            *self.compiler,
            old(program)@.with_table_id(),
            select,
            self.clause().resolver,
            self.clause().refs,
            QueryDestination::Unset,
            program@,
            outcome(planned),
        ));
        match planned {
            Err(e) => Err(e),
            Ok(plan) => {
                let (query_type, finished) = finish_row_value(
                    plan,
                    subquery_id,
                    self.position,
                    program,
                    out_subqueries,
                );
                *expr = Expr::SubqueryResult { subquery_id, lhs: None, not_in: false, query_type };
                assert(expr@.children =~= old(expr)@.children);
                finished
            },
        }
    }

    fn visit_in(
        &self,
        expr: &mut Expr,
        program: &mut ProgramBuilder,
        out_subqueries: &mut Vec<NonFromClauseSubquery>,
    ) -> (r: Result<(), LimboError>)
        requires
            *old(expr) is InSelect,
        ensures
            visited(
                *self.compiler,
                self.clause(),
                state_of(*old(program), *old(out_subqueries)),
                old(expr)@,
                state_of(*final(program), *final(out_subqueries)),
                final(expr)@,
                outcome(r),
            ),
    {
        if !program.has_room(0, 0, 1) {
            return Err(capacity_error());
        }
        let subquery_id = program.next_table_reference();
        let mut taken = Expr::Literal(Literal::Null);
        std::mem::swap(&mut taken, expr);
        assert(expr@.children =~= leaf(ExprKind::Literal(Literal::Null)).children);
        let (lhs, not, select) = match taken {
            Expr::InSelect { lhs, not, rhs } => (lhs, not, rhs),
            _ => vstd::pervasive::unreached(),
        };
        let ghost left = old(expr)@.children[0];
        let planned = settle(
            self.compiler,
            program,
            select,
            self.resolver,
            self.refs,
            QueryDestination::Unset,
        );
        assert(settled(
            *self.compiler,
            old(program)@.with_table_id(),
            select,
            self.clause().resolver,
            self.clause().refs,
            QueryDestination::Unset,
            program@,
            outcome(planned),
        ));
        match planned {
            Err(e) => Err(e),
            Ok(plan) => {
                let ghost planned_program = program@;
                let ghost prepared = plan;
                let (decided, finished) = finish_in(
                    plan,
                    &lhs,
                    subquery_id,
                    self.position,
                    program,
                    out_subqueries,
                );
                if let Some(query_type) = decided {
                    *expr = Expr::SubqueryResult {
                        subquery_id,
                        lhs: Some(lhs),
                        not_in: not,
                        query_type,
                    };
                }
                proof {
                    let before = PlanState {
                        program: planned_program,
                        subqueries: old(out_subqueries)@,
                    };
                    let after = state_of(*program, *out_subqueries);
                    let position = self.clause().position;
                    let result = outcome(finished);
                    show_in_replaced(
                        prepared,
                        left,
                        not,
                        subquery_id,
                        position,
                        before,
                        after,
                        expr@,
                        decided,
                        result,
                    );
                }
                finished
            },
        }
    }
}

} // verus!
