//! Planning the subqueries of all the clauses of a `SELECT`.
use crate::ast::{Child, Expr, Role, SortOrder};
use crate::compiler::{refs_view, Resolver, ResolverView, SelectCompiler};
use crate::copy_laws::{copied_tables_agree, same_table};
use crate::growth::{grown, walks_grow};
use crate::masks::{all_planned, marked, update_column_used_masks};
use crate::plan::{
    ColumnUsedMask, GroupBy, JoinedTable, NonFromClauseSubquery, OuterQueryReference,
    ResultSetColumn, SelectPlan, SubqueryPosition, TableReferences, WhereTerm,
};
use crate::plan_copy::{copy_table, table_shape, table_tree, OuterQueryReferenceView};
use crate::program::{outcome, ErrorView, LimboError, ProgramBuilder};
use crate::walk::{
    between, children_behind_failure, children_walked, state_of, Clause, PlanState, SubqueryParser,
};
use vstd::prelude::*;

verus! {

// ---------------------------------------------------------------------------------------------
// What a subquery can see.

/// A table of the query, as its subqueries see it before they use any column.
pub open spec fn joined_seen(t: JoinedTable) -> OuterQueryReferenceView {
    OuterQueryReferenceView {
        table: table_shape(t.table),
        plan: table_tree(t.table),
        identifier: t.identifier,
        internal_id: t.internal_id,
        col_used_mask: Set::empty(),
    }
}

/// A table further out, as the subqueries see it before they use any column.
pub open spec fn outer_seen(t: OuterQueryReference) -> OuterQueryReferenceView {
    OuterQueryReferenceView { col_used_mask: Set::empty(), ..t@ }
}

/// What the subqueries of a query can see: its own tables, then those further out.
pub open spec fn visible(tables: TableReferences) -> Seq<OuterQueryReferenceView> {
    tables.joined_tables@.map_values(|t: JoinedTable| joined_seen(t))
        + tables.outer_query_refs@.map_values(|t: OuterQueryReference| outer_seen(t))
}

/// What the subqueries of a query can see.
pub fn get_outer_query_refs(tables: &TableReferences) -> (r: Vec<OuterQueryReference>)
    ensures
        refs_view(r@) == visible(*tables),
        r@.len() == tables.joined_tables@.len() + tables.outer_query_refs@.len(),
        forall|i: int|
            0 <= i < tables.joined_tables@.len() ==> {
                let t = tables.joined_tables@[i];
                &&& (#[trigger] r@[i]).identifier == t.identifier
                &&& r@[i].internal_id == t.internal_id
                &&& same_table(r@[i].table, t.table)
                &&& r@[i].col_used_mask@ == Set::<nat>::empty()
            },
        forall|i: int|
            tables.joined_tables@.len() <= i < r@.len() ==> {
                let t = tables.outer_query_refs@[i - tables.joined_tables@.len()];
                &&& (#[trigger] r@[i]).identifier == t.identifier
                &&& r@[i].internal_id == t.internal_id
                &&& same_table(r@[i].table, t.table)
                &&& r@[i].col_used_mask@ == Set::<nat>::empty()
            },
{
    let mut refs: Vec<OuterQueryReference> = Vec::new();
    let mut i: usize = 0;
    while i < tables.joined_tables.len()
        invariant
            i <= tables.joined_tables@.len(),
            refs@.len() == i,
            forall|j: int|
                0 <= j < i ==> (#[trigger] refs@[j])@ == joined_seen(tables.joined_tables@[j]),
        decreases tables.joined_tables@.len() - i,
    {
        let t = &tables.joined_tables[i];
        refs.push(
            OuterQueryReference {
                table: copy_table(&t.table),
                identifier: t.identifier.clone(),
                internal_id: t.internal_id,
                col_used_mask: ColumnUsedMask::default(),
            },
        );
        i += 1;
    }
    let ghost n = tables.joined_tables@.len() as int;
    let mut k: usize = 0;
    while k < tables.outer_query_refs.len()
        invariant
            n == tables.joined_tables@.len(),
            k <= tables.outer_query_refs@.len(),
            refs@.len() == n + k,
            forall|j: int|
                0 <= j < n ==> (#[trigger] refs@[j])@ == joined_seen(tables.joined_tables@[j]),
            forall|j: int|
                n <= j < n + k ==> (#[trigger] refs@[j])@ == outer_seen(
                    tables.outer_query_refs@[j - n],
                ),
        decreases tables.outer_query_refs@.len() - k,
    {
        let t = &tables.outer_query_refs[k];
        refs.push(
            OuterQueryReference {
                table: copy_table(&t.table),
                identifier: t.identifier.clone(),
                internal_id: t.internal_id,
                col_used_mask: ColumnUsedMask::default(),
            },
        );
        k += 1;
    }
    assert(refs_view(refs@) =~= visible(*tables));
    proof {
        assert forall|i: int| 0 <= i < n implies same_table(
            (#[trigger] refs@[i]).table,
            tables.joined_tables@[i].table,
        ) by {
            copied_tables_agree(refs@[i].table, tables.joined_tables@[i].table);
        }
        assert forall|i: int| n <= i < refs@.len() implies same_table(
            (#[trigger] refs@[i]).table,
            tables.outer_query_refs@[i - n].table,
        ) by {
            copied_tables_agree(refs@[i].table, tables.outer_query_refs@[i - n].table);
        }
    }
    refs
}

// ---------------------------------------------------------------------------------------------
// Walking the expressions of a clause.

/// Something with an expression in it.
pub trait HoldsExpr: Sized {
    /// The expression.
    spec fn held(self) -> Expr;

    /// The same with another expression.
    spec fn holding(self, expr: Expr) -> Self;

    /// Putting the expression back changes nothing.
    proof fn holding_held(self)
        ensures
            self.holding(self.held()) == self,
    ;

    /// The expression, for changing it.
    fn held_mut(&mut self) -> (r: &mut Expr)
        ensures
            *r == old(self).held(),
            *final(self) == old(self).holding(*final(r)),
            final(self).held() == *final(r),
    ;
}

impl HoldsExpr for Expr {
    open spec fn held(self) -> Expr {
        self
    }

    open spec fn holding(self, expr: Expr) -> Self {
        expr
    }

    proof fn holding_held(self) {
    }

    fn held_mut(&mut self) -> (r: &mut Expr) {
        self
    }
}

impl HoldsExpr for WhereTerm {
    open spec fn held(self) -> Expr {
        self.expr
    }

    open spec fn holding(self, expr: Expr) -> Self {
        WhereTerm { expr, ..self }
    }

    proof fn holding_held(self) {
    }

    fn held_mut(&mut self) -> (r: &mut Expr) {
        &mut self.expr
    }
}

impl HoldsExpr for ResultSetColumn {
    open spec fn held(self) -> Expr {
        self.expr
    }

    open spec fn holding(self, expr: Expr) -> Self {
        ResultSetColumn { expr, ..self }
    }

    proof fn holding_held(self) {
    }

    fn held_mut(&mut self) -> (r: &mut Expr) {
        &mut self.expr
    }
}

impl HoldsExpr for (Box<Expr>, SortOrder) {
    open spec fn held(self) -> Expr {
        *self.0
    }

    open spec fn holding(self, expr: Expr) -> Self {
        (Box::new(expr), self.1)
    }

    proof fn holding_held(self) {
    }

    fn held_mut(&mut self) -> (r: &mut Expr) {
        &mut *self.0
    }
}

/// The expressions of a clause, each as an operand of it.
pub open spec fn trees<T: HoldsExpr>(items: Seq<T>) -> Seq<Child> {
    items.map_values(|item: T| Child { role: Role::Operand, tree: item.held()@ })
}

/// Only the expressions in the items may have changed.
pub open spec fn same_but_exprs<T: HoldsExpr>(before: Seq<T>, after: Seq<T>) -> bool {
    &&& after.len() == before.len()
    &&& forall|i: int|
        0 <= i < before.len() ==> #[trigger] after[i] == before[i].holding(after[i].held())
}

/// Walks the expressions of a clause in order.
fn walk_all<T: HoldsExpr, C: SelectCompiler>(
    parser: &SubqueryParser<C>,
    items: &mut Vec<T>,
    program: &mut ProgramBuilder,
    out_subqueries: &mut Vec<NonFromClauseSubquery>,
) -> (r: Result<(), LimboError>)
    ensures
        same_but_exprs(old(items)@, final(items)@),
        children_walked(
            *parser.compiler,
            parser.clause(),
            state_of(*old(program), *old(out_subqueries)),
            trees(old(items)@),
            state_of(*final(program), *final(out_subqueries)),
            trees(final(items)@),
            outcome(r),
        ),
{
    let ghost c = *parser.compiler;
    let ghost clause = parser.clause();
    let ghost before = state_of(*program, *out_subqueries);
    let ghost first = items@;
    let n = items.len();
    let mut i: usize = 0;
    proof {
        assert forall|j: int| 0 <= j < n implies #[trigger] first[j] == first[j].holding(
            first[j].held(),
        ) by {
            first[j].holding_held();
        }
    }
    while i < n
        invariant
            c == *parser.compiler,
            clause == parser.clause(),
            before == state_of(*old(program), *old(out_subqueries)),
            first == old(items)@,
            i <= n == first.len(),
            items@.len() == n,
            children_walked(
                c,
                clause,
                before,
                trees(first).take(i as int),
                state_of(*program, *out_subqueries),
                trees(items@).take(i as int),
                Ok(()),
            ),
            forall|j: int|
                0 <= j < i ==> #[trigger] items@[j] == first[j].holding(items@[j].held()),
            forall|j: int| i <= j < n ==> #[trigger] items@[j] == first[j],
            forall|j: int| 0 <= j < n ==> #[trigger] first[j] == first[j].holding(first[j].held()),
        decreases n - i,
    {
        let ghost so_far = state_of(*program, *out_subqueries);
        let ghost here = items@;
        let walk = parser.walk_expr_mut(items[i].held_mut(), program, out_subqueries);
        let ghost now = state_of(*program, *out_subqueries);
        proof {
            let done = trees(items@).take(i + 1);
            let all = trees(first).take(i + 1);
            assert(done.drop_last() =~= trees(here).take(i as int));
            assert(all.drop_last() =~= trees(first).take(i as int));
            assert(between(so_far, Ok(())));
        }
        match walk {
            Err(e) => {
                proof {
                    children_behind_failure(
                        c,
                        clause,
                        before,
                        trees(first),
                        now,
                        trees(items@),
                        e@,
                        i + 1,
                    );
                }
                return Err(e);
            },
            Ok(_) => {},
        }
        i += 1;
    }
    assert(trees(first).take(n as int) =~= trees(first));
    assert(trees(items@).take(n as int) =~= trees(items@));
    Ok(())
}

/// Plans the subqueries in the expressions of a clause, which can see the tables of the query
/// and those further out.
pub fn plan_subqueries_with_outer_query_access<T: HoldsExpr, C: SelectCompiler>(
    program: &mut ProgramBuilder,
    out_subqueries: &mut Vec<NonFromClauseSubquery>,
    referenced_tables: &TableReferences,
    resolver: &Resolver,
    items: &mut Vec<T>,
    compiler: &C,
    position: SubqueryPosition,
) -> (r: Result<(), LimboError>)
    ensures
        same_but_exprs(old(items)@, final(items)@),
        children_walked(
            *compiler,
            (Clause { resolver: resolver@, refs: visible(*referenced_tables), position }),
            state_of(*old(program), *old(out_subqueries)),
            trees(old(items)@),
            state_of(*final(program), *final(out_subqueries)),
            trees(final(items)@),
            outcome(r),
        ),
{
    let refs = get_outer_query_refs(referenced_tables);
    let parser = SubqueryParser { compiler, resolver, refs: &refs, position };
    walk_all(&parser, items, program, out_subqueries)
}

/// An expression that may be missing.
pub open spec fn optional_tree(expr: Option<Box<Expr>>) -> Seq<Child> {
    match expr {
        Some(expr) => seq![Child { role: Role::Operand, tree: (*expr)@ }],
        None => seq![],
    }
}

/// Plans the subqueries of `LIMIT` or `OFFSET`, which see no table of the query.
fn plan_subqueries_of_limit<C: SelectCompiler>(
    program: &mut ProgramBuilder,
    out_subqueries: &mut Vec<NonFromClauseSubquery>,
    expr: &mut Option<Box<Expr>>,
    resolver: &Resolver,
    compiler: &C,
) -> (r: Result<(), LimboError>)
    ensures
        *final(expr) is Some == *old(expr) is Some,
        children_walked(
            *compiler,
            (Clause {
                resolver: resolver@,
                refs: seq![],
                position: SubqueryPosition::LimitOffset,
            }),
            state_of(*old(program), *old(out_subqueries)),
            optional_tree(*old(expr)),
            state_of(*final(program), *final(out_subqueries)),
            optional_tree(*final(expr)),
            outcome(r),
        ),
{
    let ghost before = state_of(*program, *out_subqueries);
    match &mut *expr {
        Some(e) => {
            let refs: Vec<OuterQueryReference> = Vec::new();
            let parser = SubqueryParser {
                compiler,
                resolver,
                refs: &refs,
                position: SubqueryPosition::LimitOffset,
            };
            assert(refs_view(refs@) =~= seq![]);
            let walk = parser.walk_expr_mut(&mut *e, program, out_subqueries);
            proof {
                let first = optional_tree(*old(expr));
                let last = optional_tree(*expr);
                assert(first.drop_last() =~= seq![]);
                assert(last.drop_last() =~= seq![]);
                assert(children_walked(
                    *compiler,
                    parser.clause(),
                    before,
                    first.drop_last(),
                    before,
                    last.drop_last(),
                    Ok(()),
                ));
                assert(between(before, Ok(())));
            }
            walk
        },
        None => Ok(()),
    }
}

// ---------------------------------------------------------------------------------------------
// The clauses of a query.

/// The expressions of each clause, in the order in which the clauses are walked.
pub open spec fn sections(plan: SelectPlan) -> Seq<Seq<Child>> {
    seq![
        trees(plan.where_clause@),
        match plan.group_by {
            Some(group_by) => trees(group_by.exprs@),
            None => seq![],
        },
        match plan.group_by {
            Some(GroupBy { having: Some(having), .. }) => trees(having@),
            _ => seq![],
        },
        trees(plan.result_columns@),
        trees(plan.order_by@),
        optional_tree(plan.limit),
        optional_tree(plan.offset),
    ]
}

/// What the subqueries of a query are planned against, and the tables that they can see.
pub struct QueryScope {
    pub resolver: ResolverView,
    pub refs: Seq<OuterQueryReferenceView>,
}

/// Where the clause stands whose turn is `i`, and what its subqueries can see. `LIMIT` and
/// `OFFSET` cannot refer to the tables of the query.
pub open spec fn section_clause(scope: QueryScope, i: int) -> Clause {
    Clause {
        resolver: scope.resolver,
        refs: if i < 5 {
            scope.refs
        } else {
            seq![]
        },
        position: if i == 0 {
            SubqueryPosition::Where
        } else if i == 1 {
            SubqueryPosition::GroupBy
        } else if i == 2 {
            SubqueryPosition::Having
        } else if i == 3 {
            SubqueryPosition::ResultColumn
        } else if i == 4 {
            SubqueryPosition::OrderBy
        } else {
            SubqueryPosition::LimitOffset
        },
    }
}

/// The clauses are walked in turn; those behind a failure stay as they are.
pub open spec fn sections_walked<C: SelectCompiler>(
    c: C,
    scope: QueryScope,
    before: PlanState,
    first: Seq<Seq<Child>>,
    after: PlanState,
    last: Seq<Seq<Child>>,
    result: Result<(), ErrorView>,
) -> bool
    decreases first.len(),
{
    &&& last.len() == first.len()
    &&& if first.len() == 0 {
        after == before && result == Ok::<(), ErrorView>(())
    } else {
        exists|mid: PlanState, r: Result<(), ErrorView>|
            {
                &&& #[trigger] between(mid, r)
                &&& sections_walked(
                    c,
                    scope,
                    before,
                    first.drop_last(),
                    mid,
                    last.drop_last(),
                    r,
                )
                &&& match r {
                    Err(_) => after == mid && last.last() == first.last() && result == r,
                    Ok(_) => children_walked(
                        c,
                        section_clause(scope, first.len() - 1),
                        mid,
                        first.last(),
                        after,
                        last.last(),
                        result,
                    ),
                }
            }
    }
}

/// The steps of walking several clauses: those before the last, and then the last.
pub proof fn sections_steps<C: SelectCompiler>(
    c: C,
    scope: QueryScope,
    before: PlanState,
    first: Seq<Seq<Child>>,
    after: PlanState,
    last: Seq<Seq<Child>>,
    result: Result<(), ErrorView>,
) -> (steps: (PlanState, Result<(), ErrorView>))
    requires
        sections_walked(c, scope, before, first, after, last, result),
        first.len() > 0,
    ensures
        sections_walked(
            c,
            scope,
            before,
            first.drop_last(),
            steps.0,
            last.drop_last(),
            steps.1,
        ),
        steps.1 is Err ==> after == steps.0 && last.last() == first.last() && result == steps.1,
        steps.1 is Ok ==> steps.1 == Ok::<(), ErrorView>(()) && children_walked(
            c,
            section_clause(scope, first.len() - 1),
            steps.0,
            first.last(),
            after,
            last.last(),
            result,
        ),
{
    let steps: (PlanState, Result<(), ErrorView>) = choose|
        mid: PlanState,
        r: Result<(), ErrorView>,
    |
        {
            &&& #[trigger] between(mid, r)
            &&& sections_walked(c, scope, before, first.drop_last(), mid, last.drop_last(), r)
            &&& match r {
                Err(_) => after == mid && last.last() == first.last() && result == r,
                Ok(_) => children_walked(
                    c,
                    section_clause(scope, first.len() - 1),
                    mid,
                    first.last(),
                    after,
                    last.last(),
                    result,
                ),
            }
        };
    match steps.1 {
        Ok(unit) => {
            assert(unit == ());
        },
        Err(_) => {},
    }
    steps
}

/// The clauses behind a failure stay as they are.
proof fn sections_behind_failure<C: SelectCompiler>(
    c: C,
    scope: QueryScope,
    before: PlanState,
    first: Seq<Seq<Child>>,
    after: PlanState,
    last: Seq<Seq<Child>>,
    error: ErrorView,
    n: int,
)
    requires
        0 <= n <= first.len() == last.len(),
        sections_walked(c, scope, before, first.take(n), after, last.take(n), Err(error)),
        forall|i: int| n <= i < first.len() ==> last[i] == first[i],
    ensures
        sections_walked(c, scope, before, first, after, last, Err(error)),
    decreases first.len() - n,
{
    if n == first.len() {
        assert(first.take(n) =~= first);
        assert(last.take(n) =~= last);
    } else {
        assert(first.take(n + 1).drop_last() =~= first.take(n));
        assert(last.take(n + 1).drop_last() =~= last.take(n));
        assert(between(after, Err(error)));
        sections_behind_failure(c, scope, before, first, after, last, error, n + 1);
    }
}

/// The clauses before `i` are walked, and the others are as they were.
spec fn sections_so_far<C: SelectCompiler>(
    c: C,
    scope: QueryScope,
    before: PlanState,
    first: Seq<Seq<Child>>,
    now: PlanState,
    last: Seq<Seq<Child>>,
    i: int,
) -> bool {
    &&& 0 <= i <= first.len() == last.len()
    &&& sections_walked(c, scope, before, first.take(i), now, last.take(i), Ok(()))
    &&& forall|j: int| i <= j < first.len() ==> #[trigger] last[j] == first[j]
    &&& grown(before.subqueries, now.subqueries)
}

/// One more clause is walked.
proof fn section_step<C: SelectCompiler>(
    c: C,
    scope: QueryScope,
    before: PlanState,
    first: Seq<Seq<Child>>,
    mid: PlanState,
    done: Seq<Seq<Child>>,
    i: int,
    after: PlanState,
    last: Seq<Seq<Child>>,
    result: Result<(), ErrorView>,
)
    requires
        sections_so_far(c, scope, before, first, mid, done, i),
        i < first.len() == last.len(),
        children_walked(c, section_clause(scope, i), mid, first[i], after, last[i], result),
        forall|j: int| 0 <= j < first.len() && j != i ==> #[trigger] last[j] == done[j],
    ensures
        result is Ok ==> sections_so_far(c, scope, before, first, after, last, i + 1),
        result is Err ==> sections_walked(c, scope, before, first, after, last, result),
        grown(before.subqueries, after.subqueries),
{
    assert(first.take(i + 1).drop_last() =~= first.take(i));
    assert(last.take(i + 1).drop_last() =~= done.take(i));
    assert(between(mid, Ok(())));
    walks_grow(c, section_clause(scope, i), mid, first[i], after, last[i], result);
    match result {
        Err(e) => {
            sections_behind_failure(c, scope, before, first, after, last, e, i + 1);
        },
        Ok(unit) => {
            assert(unit == ());
        },
    }
}

/// Only the expressions of the clauses, the tables and the list of subqueries may have changed.
pub open spec fn same_but_clauses(before: SelectPlan, after: SelectPlan) -> bool {
    &&& same_but_exprs(before.where_clause@, after.where_clause@)
    &&& same_but_exprs(before.result_columns@, after.result_columns@)
    &&& same_but_exprs(before.order_by@, after.order_by@)
    &&& after.group_by is Some == before.group_by is Some
    &&& before.group_by is Some ==> {
        &&& after.group_by->0.exprs@.len() == before.group_by->0.exprs@.len()
        &&& after.group_by->0.having is Some == before.group_by->0.having is Some
        &&& before.group_by->0.having is Some ==> after.group_by->0.having->0@.len()
            == before.group_by->0.having->0@.len()
    }
    &&& after.limit is Some == before.limit is Some
    &&& after.offset is Some == before.offset is Some
    &&& after.query_destination == before.query_destination
}

/// The state of planning a query.
pub open spec fn plan_state(program: ProgramBuilder, plan: SelectPlan) -> PlanState {
    state_of(program, plan.non_from_clause_subqueries)
}

/// Plans the subqueries of a query that are not in its `FROM` clause: those of `WHERE`,
/// `GROUP BY`, `HAVING`, the result columns, `ORDER BY`, `LIMIT` and `OFFSET`, in this order.
///
/// Each expression that holds a subquery becomes [`Expr::SubqueryResult`], and the plan of the
/// subquery is appended to the list of subqueries, to be evaluated when its time comes: early if
/// it is not correlated, else once the tables that it refers to are in scope. In the end the
/// tables of the query learn which of their columns the subqueries use.
pub fn plan_subqueries_from_select_plan<C: SelectCompiler>(
    program: &mut ProgramBuilder,
    plan: &mut SelectPlan,
    resolver: &Resolver,
    compiler: &C,
) -> (r: Result<(), LimboError>)
    requires
        all_planned(old(plan).non_from_clause_subqueries@),
    ensures
        same_but_clauses(*old(plan), *final(plan)),
        sections_walked(
            *compiler,
            (QueryScope {
                resolver: resolver@,
                refs: visible(old(plan).table_references),
            }),
            plan_state(*old(program), *old(plan)),
            sections(*old(plan)),
            plan_state(*final(program), *final(plan)),
            sections(*final(plan)),
            outcome(r),
        ),
        match r {
            Ok(_) => marked(
                old(plan).table_references,
                final(plan).table_references,
                final(plan).non_from_clause_subqueries@,
            ),
            Err(_) => final(plan).table_references == old(plan).table_references,
        },
        grown(
            old(plan).non_from_clause_subqueries@,
            final(plan).non_from_clause_subqueries@,
        ),
{
    let ghost c = *compiler;
    let ghost scope = QueryScope {
        resolver: resolver@,
        refs: visible(plan.table_references),
    };
    let ghost before = plan_state(*program, *plan);
    let ghost first = sections(*plan);
    let ghost mut mid = before;
    let ghost mut done = first;
    let walk = plan_subqueries_with_outer_query_access(
        program,
        &mut plan.non_from_clause_subqueries,
        &plan.table_references,
        resolver,
        &mut plan.where_clause,
        compiler,
        SubqueryPosition::Where,
    );
    proof {
        let now = plan_state(*program, *plan);
        let last = sections(*plan);
        section_step(c, scope, before, first, mid, done, 0, now, last, outcome(walk));
        mid = now;
        done = last;
    }
    match walk {
        Err(e) => {
            return Err(e);
        },
        Ok(_) => {},
    }
    let walk = match &mut plan.group_by {
        Some(group_by) => plan_subqueries_with_outer_query_access(
            program,
            &mut plan.non_from_clause_subqueries,
            &plan.table_references,
            resolver,
            &mut group_by.exprs,
            compiler,
            SubqueryPosition::GroupBy,
        ),
        None => Ok(()),
    };
    proof {
        let now = plan_state(*program, *plan);
        let last = sections(*plan);
        section_step(c, scope, before, first, mid, done, 1, now, last, outcome(walk));
        mid = now;
        done = last;
    }
    match walk {
        Err(e) => {
            return Err(e);
        },
        Ok(_) => {},
    }
    let walk = match &mut plan.group_by {
        Some(group_by) => match &mut group_by.having {
            Some(having) => plan_subqueries_with_outer_query_access(
                program,
                &mut plan.non_from_clause_subqueries,
                &plan.table_references,
                resolver,
                having,
                compiler,
                SubqueryPosition::Having,
            ),
            None => Ok(()),
        },
        None => Ok(()),
    };
    proof {
        let now = plan_state(*program, *plan);
        let last = sections(*plan);
        section_step(c, scope, before, first, mid, done, 2, now, last, outcome(walk));
        mid = now;
        done = last;
    }
    match walk {
        Err(e) => {
            return Err(e);
        },
        Ok(_) => {},
    }
    let walk = plan_subqueries_with_outer_query_access(
        program,
        &mut plan.non_from_clause_subqueries,
        &plan.table_references,
        resolver,
        &mut plan.result_columns,
        compiler,
        SubqueryPosition::ResultColumn,
    );
    proof {
        let now = plan_state(*program, *plan);
        let last = sections(*plan);
        section_step(c, scope, before, first, mid, done, 3, now, last, outcome(walk));
        mid = now;
        done = last;
    }
    match walk {
        Err(e) => {
            return Err(e);
        },
        Ok(_) => {},
    }
    let walk = plan_subqueries_with_outer_query_access(
        program,
        &mut plan.non_from_clause_subqueries,
        &plan.table_references,
        resolver,
        &mut plan.order_by,
        compiler,
        SubqueryPosition::OrderBy,
    );
    proof {
        let now = plan_state(*program, *plan);
        let last = sections(*plan);
        section_step(c, scope, before, first, mid, done, 4, now, last, outcome(walk));
        mid = now;
        done = last;
    }
    match walk {
        Err(e) => {
            return Err(e);
        },
        Ok(_) => {},
    }
    let walk = plan_subqueries_of_limit(
        program,
        &mut plan.non_from_clause_subqueries,
        &mut plan.limit,
        resolver,
        compiler,
    );
    proof {
        let now = plan_state(*program, *plan);
        let last = sections(*plan);
        section_step(c, scope, before, first, mid, done, 5, now, last, outcome(walk));
        mid = now;
        done = last;
    }
    match walk {
        Err(e) => {
            return Err(e);
        },
        Ok(_) => {},
    }
    let walk = plan_subqueries_of_limit(
        program,
        &mut plan.non_from_clause_subqueries,
        &mut plan.offset,
        resolver,
        compiler,
    );
    proof {
        let now = plan_state(*program, *plan);
        let last = sections(*plan);
        section_step(c, scope, before, first, mid, done, 6, now, last, outcome(walk));
        mid = now;
        done = last;
    }
    match walk {
        Err(e) => {
            return Err(e);
        },
        Ok(_) => {},
    }
    assert(first.take(7) =~= first);
    assert(done.take(7) =~= done);
    update_column_used_masks(&mut plan.table_references, &plan.non_from_clause_subqueries);
    Ok(())
}

} // verus!
